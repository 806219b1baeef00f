use vstd::prelude::*;

verus! {

/// Object reference as used by the debug adapter protocol.
///
/// A valid reference carries a key greater than zero; the ordering is the
/// ordering of the transport integers (`Invalid` counts as zero).
#[derive(Debug, Clone, Copy, PartialEq, Eq, Structural, Ord, Hash)]
pub enum ObjectRef {
    /// Invalid object reference (<= 0).
    Invalid,
    /// Valid object reference (> 0).
    Valid(u32),
}

impl ObjectRef {
    /// A `Valid` reference carries a non-zero key.
    pub open spec fn wf(self) -> bool {
        match self {
            ObjectRef::Valid(k) => k > 0,
            ObjectRef::Invalid => true,
        }
    }

    /// The transport integer of a reference.
    pub open spec fn to_int(self) -> int {
        match self {
            ObjectRef::Valid(k) => k as int,
            ObjectRef::Invalid => 0,
        }
    }

    /// The reference that a transport integer decodes to.
    pub open spec fn from_int(v: int) -> ObjectRef {
        if 0 < v <= u32::MAX {
            ObjectRef::Valid(v as u32)
        } else {
            ObjectRef::Invalid
        }
    }

    /// The transport integer of this reference.
    pub fn to_i64(self) -> (r: i64)
        ensures
            r == self.to_int(),
    {
        match self {
            ObjectRef::Valid(k) => k as i64,
            ObjectRef::Invalid => 0,
        }
    }

    /// Decodes a transport integer: values that are not positive, or that do
    /// not fit 32 bits, decode as `Invalid`.
    pub fn from_i64(value: i64) -> (r: ObjectRef)
        ensures
            r == ObjectRef::from_int(value as int),
            r.wf(),
    {
        if 0 < value && value <= u32::MAX as i64 {
            ObjectRef::Valid(value as u32)
        } else {
            ObjectRef::Invalid
        }
    }

    /// Parses a decimal transport integer and decodes it.
    pub fn parse(s: &str) -> (r: Result<ObjectRef, anyhow::Error>)
        ensures
            r is Ok <==> parsed_i64(s@) is Some,
            r is Ok ==> r->Ok_0 == ObjectRef::from_int(parsed_i64(s@)->Some_0),
    {
        match parse_i64(s) {
            Ok(v) => Ok(ObjectRef::from_i64(v)),
            Err(e) => Err(e),
        }
    }
}

impl Default for ObjectRef {
    fn default() -> (r: ObjectRef)
        ensures
            r == ObjectRef::Invalid,
    {
        ObjectRef::Invalid
    }
}

impl PartialOrd for ObjectRef {
    fn partial_cmp(&self, other: &ObjectRef) -> (r: Option<core::cmp::Ordering>) {
        let a = match *self {
            ObjectRef::Valid(k) => k as i64 + 1,
            ObjectRef::Invalid => 0,
        };
        let b = match *other {
            ObjectRef::Valid(k) => k as i64 + 1,
            ObjectRef::Invalid => 0,
        };
        if a < b {
            Some(core::cmp::Ordering::Less)
        } else if a > b {
            Some(core::cmp::Ordering::Greater)
        } else {
            Some(core::cmp::Ordering::Equal)
        }
    }
}

impl vstd::std_specs::cmp::PartialOrdSpecImpl for ObjectRef {
    open spec fn obeys_partial_cmp_spec() -> bool {
        true
    }

    open spec fn partial_cmp_spec(&self, other: &ObjectRef) -> Option<core::cmp::Ordering> {
        let a = match *self {
            ObjectRef::Valid(k) => k as int + 1,
            ObjectRef::Invalid => 0,
        };
        let b = match *other {
            ObjectRef::Valid(k) => k as int + 1,
            ObjectRef::Invalid => 0,
        };
        if a < b {
            Some(core::cmp::Ordering::Less)
        } else if a > b {
            Some(core::cmp::Ordering::Greater)
        } else {
            Some(core::cmp::Ordering::Equal)
        }
    }
}

impl From<ObjectRef> for i64 {
    fn from(value: ObjectRef) -> (r: i64) {
        value.to_i64()
    }
}

impl vstd::std_specs::convert::FromSpecImpl<ObjectRef> for i64 {
    open spec fn obeys_from_spec() -> bool {
        true
    }

    open spec fn from_spec(v: ObjectRef) -> i64 {
        v.to_int() as i64
    }
}

impl From<i64> for ObjectRef {
    fn from(value: i64) -> (r: ObjectRef) {
        ObjectRef::from_i64(value)
    }
}

impl vstd::std_specs::convert::FromSpecImpl<i64> for ObjectRef {
    open spec fn obeys_from_spec() -> bool {
        true
    }

    open spec fn from_spec(v: i64) -> ObjectRef {
        ObjectRef::from_int(v as int)
    }
}

impl core::str::FromStr for ObjectRef {
    type Err = anyhow::Error;

    fn from_str(s: &str) -> (r: Result<ObjectRef, anyhow::Error>)
        ensures
            r is Ok <==> parsed_i64(s@) is Some,
            r is Ok ==> r->Ok_0 == ObjectRef::from_int(parsed_i64(s@)->Some_0),
    {
        ObjectRef::parse(s)
    }
}

/// The value of a non-empty run of ASCII decimal digits.
pub open spec fn digits_value(s: Seq<char>) -> int
    decreases s.len(),
{
    if s.len() == 0 {
        0
    } else {
        digits_value(s.drop_last()) * 10 + (s.last() as int - '0' as int)
    }
}

/// Every character is an ASCII decimal digit.
pub open spec fn all_digits(s: Seq<char>) -> bool {
    forall|i: int| 0 <= i < s.len() ==> '0' <= #[trigger] s[i] <= '9'
}

/// What a decimal `i64` literal denotes: an optional `+` or `-` sign, then at
/// least one digit, and a value within the range of `i64`.
pub open spec fn parsed_i64(s: Seq<char>) -> Option<int> {
    let neg = s.len() > 0 && s[0] == '-';
    let body = if s.len() > 0 && (s[0] == '-' || s[0] == '+') {
        s.skip(1)
    } else {
        s
    };
    let v = if neg {
        -digits_value(body)
    } else {
        digits_value(body)
    };
    if body.len() > 0 && all_digits(body) && i64::MIN <= v <= i64::MAX {
        Some(v)
    } else {
        None
    }
}

/// Relies on `<i64 as FromStr>::from_str`, which accepts an optional sign
/// followed by decimal digits, and on `anyhow::Error::from` for its error.
#[verifier::external_body]
fn parse_i64(s: &str) -> (r: Result<i64, anyhow::Error>)
    ensures
        r is Ok <==> parsed_i64(s@) is Some,
        r is Ok ==> r->Ok_0 as int == parsed_i64(s@)->Some_0,
{
    s.parse::<i64>().map_err(anyhow::Error::from)
}

/// The generator of object references: each call hands out a key that no
/// earlier call has handed out.
pub struct ObjectRefAllocator {
    next: u64,
}

impl ObjectRefAllocator {
    /// The key that the next allocation hands out.
    pub closed spec fn next_key(&self) -> int {
        self.next as int
    }

    /// Well-formed: the next key lies in `1..=2^32`.
    pub closed spec fn wf(&self) -> bool {
        1 <= self.next <= 0x1_0000_0000
    }

    /// Whether another key can still be handed out.
    pub open spec fn can_allocate(&self) -> bool {
        self.wf() && self.next_key() <= u32::MAX
    }

    /// A generator whose first key is 1.
    pub fn new() -> (r: ObjectRefAllocator)
        ensures
            r.wf(),
            r.next_key() == 1,
    {
        ObjectRefAllocator { next: 1 }
    }

    /// Whether another key can still be handed out.
    pub fn has_capacity(&self) -> (r: bool)
        requires
            self.wf(),
        ensures
            r == self.can_allocate(),
    {
        self.next <= u32::MAX as u64
    }
}

/// Generate a unique key that can be used to assign ids to stack frames and
/// variables.
pub fn get_object_reference(allocator: &mut ObjectRefAllocator) -> (r: ObjectRef)
    requires
        old(allocator).can_allocate(),
    ensures
        r == ObjectRef::Valid(old(allocator).next_key() as u32),
        r.wf(),
        r.to_int() == old(allocator).next_key(),
        final(allocator).wf(),
        final(allocator).next_key() == old(allocator).next_key() + 1,
{
    let key = allocator.next as u32;
    allocator.next = allocator.next + 1;
    ObjectRef::Valid(key)
}

/// Handles handed out by successive calls of `get_object_reference` are
/// valid and pairwise distinct. `before[i]` and `after[i]` are the
/// generator's states around the `i`-th call, `handles[i]` its result; any
/// number of other allocations may come between two calls.
pub proof fn lemma_sequential_allocations_distinct(
    before: Seq<ObjectRefAllocator>,
    after: Seq<ObjectRefAllocator>,
    handles: Seq<ObjectRef>,
)
    requires
        before.len() == handles.len(),
        after.len() == handles.len(),
        forall|i: int|
            0 <= i < handles.len() ==> (#[trigger] before[i]).can_allocate() && handles[i]
                == ObjectRef::Valid(before[i].next_key() as u32) && after[i].next_key() == before[i].next_key() + 1,
        forall|i: int| 0 <= i < handles.len() - 1 ==> (#[trigger] before[i + 1]).next_key() >= after[i].next_key(),
    ensures
        forall|i: int| 0 <= i < handles.len() ==> #[trigger] handles[i] != ObjectRef::Invalid,
        forall|i: int| 0 <= i < handles.len() ==> (#[trigger] handles[i]).wf(),
        forall|i: int, j: int|
            0 <= i < j < handles.len() ==> handles[i].to_int() < handles[j].to_int(),
        forall|i: int, j: int|
            0 <= i < handles.len() && 0 <= j < handles.len() && i != j ==> handles[i]
                != handles[j],
{
    assert forall|i: int, j: int| 0 <= i < j < handles.len() implies before[i].next_key() < before[j].next_key() by {
        lemma_keys_increase(before, after, handles, i, j);
    }
    assert forall|i: int| 0 <= i < handles.len() implies (#[trigger] handles[i]).wf() && handles[i].to_int() == before[i].next_key() by {
        assert(before[i].can_allocate());
    }
    assert forall|i: int, j: int|
        0 <= i < handles.len() && 0 <= j < handles.len() && i != j implies handles[i] != handles[j] by {
        assert(handles[i].to_int() == before[i].next_key());
        assert(handles[j].to_int() == before[j].next_key());
        if i < j {
            lemma_keys_increase(before, after, handles, i, j);
        } else {
            lemma_keys_increase(before, after, handles, j, i);
        }
    }
}

proof fn lemma_keys_increase(
    before: Seq<ObjectRefAllocator>,
    after: Seq<ObjectRefAllocator>,
    handles: Seq<ObjectRef>,
    i: int,
    j: int,
)
    requires
        before.len() == handles.len(),
        after.len() == handles.len(),
        forall|k: int|
            0 <= k < handles.len() ==> (#[trigger] before[k]).can_allocate() && handles[k]
                == ObjectRef::Valid(before[k].next_key() as u32) && after[k].next_key() == before[k].next_key() + 1,
        forall|k: int| 0 <= k < handles.len() - 1 ==> (#[trigger] before[k + 1]).next_key() >= after[k].next_key(),
        0 <= i < j < handles.len(),
    ensures
        before[i].next_key() < before[j].next_key(),
    decreases j - i,
{
    assert(before[j - 1].can_allocate());
    let k = j - 1;
    assert(before[k + 1].next_key() >= after[k].next_key());
    if j - 1 > i {
        lemma_keys_increase(before, after, handles, i, j - 1);
    }
}

/// Decoding the transport integer of a valid reference gives the reference
/// back, and every integer that is not positive decodes as `Invalid`.
pub proof fn lemma_transport_round_trip(r: ObjectRef, v: int)
    requires
        r.wf(),
    ensures
        ObjectRef::from_int(r.to_int()) == r,
        v <= 0 ==> ObjectRef::from_int(v) == ObjectRef::Invalid,
{
}

} // verus!
