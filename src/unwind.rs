use vstd::prelude::*;
use crate::debug_index::{function_of, lemma_narrowest_function_range, location_of, resolves_to, DebugIndex};
use crate::error::DebugError;
use crate::object_ref::{get_object_reference, ObjectRef, ObjectRefAllocator};
use crate::source_location::SourceLocation;

verus! {

/// The registers that unwinding reads and derives for each frame.
#[derive(Debug, Clone, Copy, PartialEq, Eq, Structural)]
pub struct RegisterSnapshot {
    /// The program counter.
    pub pc: u64,
    /// The stack pointer.
    pub sp: u64,
}

/// A copy of target memory (in practice the stack region) starting at
/// `start`, read before unwinding.
#[derive(Debug, Clone)]
pub struct StackImage {
    /// The address of the first byte.
    pub start: u64,
    /// The bytes, in address order.
    pub bytes: Vec<u8>,
}

/// One logical stack frame.
#[derive(Debug, Clone)]
pub struct StackFrame {
    /// The frame's handle.
    pub id: ObjectRef,
    /// The registers of the frame.
    pub registers: RegisterSnapshot,
    /// The canonical frame address.
    pub cfa: u64,
    /// The index of the frame's function in the debug index, if known.
    pub function: Option<usize>,
    /// The source location of the frame's program counter, if known.
    pub location: Option<SourceLocation>,
}

/// The frames found, innermost first, and why the chain is incomplete where
/// it is.
#[derive(Debug)]
pub struct UnwindResult {
    /// The frames, innermost first.
    pub frames: Vec<StackFrame>,
    /// Set where unwinding stopped before the outermost frame.
    pub incomplete: Option<DebugError>,
}

/// What a frame is made of: program counter, stack pointer, canonical frame
/// address and function.
pub type FrameKey = (u64, u64, u64, Option<int>);

impl StackFrame {
    /// The frame's registers, canonical frame address and function.
    pub open spec fn key(&self) -> FrameKey {
        (
            self.registers.pc,
            self.registers.sp,
            self.cfa,
            match self.function {
                Some(i) => Some(i as int),
                None => None,
            },
        )
    }
}

/// The little-endian 32-bit word at `address`, where the image holds all
/// four bytes.
pub open spec fn word_at(image: StackImage, address: u64) -> Option<u32> {
    let off = address - image.start;
    let b = image.bytes@;
    if image.start <= address && off + 4 <= b.len() {
        Some((b[off] + 256 * b[off + 1] + 65536 * b[off + 2] + 16777216 * b[off + 3]) as u32)
    } else {
        None
    }
}

/// The frames that unwinding from `regs` finds with at most `fuel` frames,
/// and whether the chain was cut short. `first` marks the innermost frame,
/// which is kept even where its function or frame address is unknown.
pub open spec fn unwind_from(
    index: DebugIndex,
    image: StackImage,
    regs: RegisterSnapshot,
    first: bool,
    fuel: nat,
) -> (Seq<FrameKey>, bool)
    decreases fuel,
{
    if fuel == 0 {
        (seq![], true)
    } else {
        let f = function_of(index, regs.pc);
        if f is None {
            if first {
                (seq![(regs.pc, regs.sp, regs.sp, f)], true)
            } else {
                (seq![], false)
            }
        } else {
            let fe = index.functions@[f->Some_0];
            if regs.sp + fe.cfa_offset > u64::MAX {
                if first {
                    (seq![(regs.pc, regs.sp, regs.sp, f)], true)
                } else {
                    (seq![], true)
                }
            } else {
                let cfa = (regs.sp + fe.cfa_offset) as u64;
                let head = seq![(regs.pc, regs.sp, cfa, f)];
                if location_of(index, regs.pc) is None {
                    (head, true)
                } else if fe.return_address_offset > cfa {
                    (head, true)
                } else {
                    match word_at(image, (cfa - fe.return_address_offset) as u64) {
                        None => (head, true),
                        Some(ra) => if ra == 0 {
                            (head, false)
                        } else {
                            let rest = unwind_from(
                                index,
                                image,
                                RegisterSnapshot { pc: ra as u64, sp: cfa },
                                false,
                                (fuel - 1) as nat,
                            );
                            (head + rest.0, rest.1)
                        },
                    }
                }
            }
        }
    }
}

impl StackImage {
    /// Reads the little-endian 32-bit word at `address`.
    pub fn read_u32(&self, address: u64) -> (r: Option<u32>)
        ensures
            r == word_at(*self, address),
    {
        if address < self.start {
            return None;
        }
        let off: u64 = address - self.start;
        let len: u64 = self.bytes.len() as u64;
        if off > len || len - off < 4 {
            return None;
        }
        let o: usize = off as usize;
        let v: u32 = self.bytes[o] as u32 + 256 * (self.bytes[o + 1] as u32) + 65536 * (
        self.bytes[o + 2] as u32) + 16777216 * (self.bytes[o + 3] as u32);
        Some(v)
    }
}

fn incomplete(message: &str) -> (r: Option<DebugError>)
    ensures
        r is Some && r->Some_0 is UnwindIncompleteResults,
{
    Some(DebugError::UnwindIncompleteResults { message: message.to_owned() })
}

fn make_frame(
    index: &DebugIndex,
    regs: RegisterSnapshot,
    cfa: u64,
    function: Option<usize>,
    allocator: &mut ObjectRefAllocator,
) -> (r: StackFrame)
    requires
        old(allocator).can_allocate(),
    ensures
        r.id == ObjectRef::Valid(old(allocator).next_key() as u32),
        final(allocator).wf(),
        final(allocator).next_key() == old(allocator).next_key() + 1,
        r.registers == regs,
        r.cfa == cfa,
        r.function == function,
        r.location is Some <==> location_of(*index, regs.pc) is Some,
        r.location is Some ==> resolves_to(*index, regs.pc, r.location->Some_0),
{
    let id = get_object_reference(allocator);
    StackFrame { id, registers: regs, cfa, function, location: index.source_location_at(regs.pc) }
}

/// Unwinds the stack from one register snapshot, innermost frame first.
///
/// Each frame's canonical frame address is the stack pointer plus its
/// function's offset; the caller's program counter is the word saved below
/// that address, and the caller's stack pointer is that address. Unwinding
/// stops at a zero return address, at code that no function covers, where
/// memory cannot be read, at a frame whose source location cannot be
/// resolved (that frame is kept), or after `max_frames` frames; every stop other than
/// the first two is reported in `incomplete`.
pub fn unwind(
    index: &DebugIndex,
    image: &StackImage,
    snapshot: RegisterSnapshot,
    max_frames: usize,
    allocator: &mut ObjectRefAllocator,
) -> (r: UnwindResult)
    requires
        old(allocator).wf(),
        old(allocator).next_key() + max_frames <= u32::MAX + 1,
    ensures
        ({
            let expected = unwind_from(*index, *image, snapshot, true, max_frames as nat);
            &&& r.frames@.len() == expected.0.len()
            &&& forall|i: int| 0 <= i < r.frames@.len() ==> (#[trigger] r.frames@[i]).key() == expected.0[i]
            &&& (r.incomplete is Some <==> expected.1)
        }),
        r.frames@.len() <= max_frames,
        r.incomplete is Some ==> r.incomplete->Some_0 is UnwindIncompleteResults,
        forall|i: int| 0 <= i < r.frames@.len() ==> (#[trigger] r.frames@[i]).id == ObjectRef::Valid((old(allocator).next_key() + i) as u32),
        forall|i: int| 0 <= i < r.frames@.len() ==> ((#[trigger] r.frames@[i]).location is Some <==> location_of(*index, r.frames@[i].registers.pc) is Some),
        forall|i: int| 0 <= i < r.frames@.len() && (#[trigger] r.frames@[i]).location is Some ==> resolves_to(*index, r.frames@[i].registers.pc, r.frames@[i].location->Some_0),
        final(allocator).wf(),
        final(allocator).next_key() == old(allocator).next_key() + r.frames@.len(),
{
    let ghost total = unwind_from(*index, *image, snapshot, true, max_frames as nat);
    let ghost base = old(allocator).next_key();
    let mut frames: Vec<StackFrame> = Vec::new();
    let mut regs = snapshot;
    let mut first = true;
    let mut fuel: usize = max_frames;
    proof {
        lemma_unwind_len(*index, *image, snapshot, true, max_frames as nat);
    }
    loop
        invariant
            frames@.len() + fuel == max_frames || (!first && frames@.len() + fuel <= max_frames),
            first ==> frames@.len() == 0 && regs == snapshot && fuel == max_frames,
            total == unwind_from(*index, *image, snapshot, true, max_frames as nat),
            total.0.len() >= frames@.len(),
            total.0.skip(frames@.len() as int) =~= unwind_from(*index, *image, regs, first, fuel as nat).0,
            total.1 == unwind_from(*index, *image, regs, first, fuel as nat).1,
            forall|i: int| 0 <= i < frames@.len() ==> (#[trigger] frames@[i]).key() == total.0[i],
            forall|i: int| 0 <= i < frames@.len() ==> (#[trigger] frames@[i]).id == ObjectRef::Valid((base + i) as u32),
            forall|i: int| 0 <= i < frames@.len() ==> ((#[trigger] frames@[i]).location is Some <==> location_of(*index, frames@[i].registers.pc) is Some),
            forall|i: int| 0 <= i < frames@.len() && (#[trigger] frames@[i]).location is Some ==> resolves_to(*index, frames@[i].registers.pc, frames@[i].location->Some_0),
            base == old(allocator).next_key(),
            allocator.wf(),
            allocator.next_key() == base + frames@.len(),
            base + max_frames <= u32::MAX + 1,
            frames@.len() <= max_frames,
        decreases fuel,
    {
        if fuel == 0 {
            return UnwindResult { frames, incomplete: incomplete("maximum frame count reached") };
        }
        proof {
            lemma_unwind_len(*index, *image, regs, first, fuel as nat);
        }
        let f = index.function_at(regs.pc);
        let cfa_opt: Option<u64> = match f {
            Some(i) => regs.sp.checked_add(index.functions[i].cfa_offset),
            None => None,
        };
        match cfa_opt {
            None => {
                if first {
                    let frame = make_frame(index, regs, regs.sp, f, allocator);
                    frames.push(frame);
                    let message = if f.is_some() {
                        "canonical frame address out of range"
                    } else {
                        "no debug information for the program counter"
                    };
                    return UnwindResult { frames, incomplete: incomplete(message) };
                } else if f.is_some() {
                    return UnwindResult {
                        frames,
                        incomplete: incomplete("canonical frame address out of range"),
                    };
                } else {
                    return UnwindResult { frames, incomplete: None };
                }
            },
            Some(cfa) => {
                let fi = f.unwrap();
                let ghost n = frames@.len() as int;
                let ghost cur = unwind_from(*index, *image, regs, first, fuel as nat);
                proof {
                    assert(cur.0[0] == (regs.pc, regs.sp, cfa, function_of(*index, regs.pc)));
                    assert(total.0.skip(n)[0] == total.0[n]);
                }
                let frame = make_frame(index, regs, cfa, f, allocator);
                frames.push(frame);
                proof {
                    assert(total.0.skip(n + 1) =~= total.0.skip(n).skip(1));
                    assert(frames@[n].key() == total.0[n]);
                }
                if frames[frames.len() - 1].location.is_none() {
                    return UnwindResult {
                        frames,
                        incomplete: incomplete("source location could not be resolved"),
                    };
                }
                let ra_offset = index.functions[fi].return_address_offset;
                if ra_offset > cfa {
                    return UnwindResult {
                        frames,
                        incomplete: incomplete("return address below the address space"),
                    };
                }
                match image.read_u32(cfa - ra_offset) {
                    None => {
                        return UnwindResult {
                            frames,
                            incomplete: incomplete("return address could not be read"),
                        };
                    },
                    Some(ra) => {
                        if ra == 0 {
                            return UnwindResult { frames, incomplete: None };
                        }
                        proof {
                            let next = RegisterSnapshot { pc: ra as u64, sp: cfa };
                            let rest = unwind_from(*index, *image, next, false, (fuel - 1) as nat);
                            assert(cur.0 == seq![cur.0[0]] + rest.0);
                            assert(cur.0.skip(1) =~= rest.0);
                        }
                        regs = RegisterSnapshot { pc: ra as u64, sp: cfa };
                        first = false;
                        fuel = fuel - 1;
                    },
                }
            },
        }
    }
}

/// The chain holds at most `fuel` frames.
pub proof fn lemma_unwind_len(
    index: DebugIndex,
    image: StackImage,
    regs: RegisterSnapshot,
    first: bool,
    fuel: nat,
)
    ensures
        unwind_from(index, image, regs, first, fuel).0.len() <= fuel,
    decreases fuel,
{
    if fuel > 0 {
        lemma_unwind_len(index, image, regs, true, (fuel - 1) as nat);
        lemma_unwind_len(index, image, regs, false, (fuel - 1) as nat);
        let f = function_of(index, regs.pc);
        if f is Some {
            let fe = index.functions@[f->Some_0];
            if regs.sp + fe.cfa_offset <= u64::MAX {
                let cfa = (regs.sp + fe.cfa_offset) as u64;
                if fe.return_address_offset <= cfa {
                    match word_at(image, (cfa - fe.return_address_offset) as u64) {
                        Some(ra) => {
                            lemma_unwind_len(
                                index,
                                image,
                                RegisterSnapshot { pc: ra as u64, sp: cfa },
                                false,
                                (fuel - 1) as nat,
                            );
                        },
                        None => {},
                    }
                }
            }
        }
    }
}

/// Every function of the index moves the frame address up the stack.
pub open spec fn offsets_positive(index: DebugIndex) -> bool {
    forall|j: int| 0 <= j < index.functions@.len() ==> (#[trigger] index.functions@[j]).cfa_offset > 0
}

proof fn lemma_chain_increasing(
    index: DebugIndex,
    image: StackImage,
    regs: RegisterSnapshot,
    first: bool,
    fuel: nat,
)
    requires
        offsets_positive(index),
    ensures
        ({
            let c = unwind_from(index, image, regs, first, fuel).0;
            &&& c.len() > 0 ==> c[0].1 == regs.sp
            &&& !first && c.len() > 0 ==> c[0].2 > regs.sp
            &&& forall|i: int| 0 <= i < c.len() - 1 ==> (#[trigger] c[i]).2 < c[i + 1].2
        }),
    decreases fuel,
{
    if fuel > 0 {
        let f = function_of(index, regs.pc);
        if f is Some {
            lemma_narrowest_function_range(index.functions@, regs.pc, index.functions@.len() as int);
            let fe = index.functions@[f->Some_0];
            if regs.sp + fe.cfa_offset <= u64::MAX {
                let cfa = (regs.sp + fe.cfa_offset) as u64;
                if fe.return_address_offset <= cfa && location_of(index, regs.pc) is Some {
                    match word_at(image, (cfa - fe.return_address_offset) as u64) {
                        Some(ra) => {
                            if ra != 0 {
                                let next = RegisterSnapshot { pc: ra as u64, sp: cfa };
                                lemma_chain_increasing(index, image, next, false, (fuel - 1) as nat);
                                let rest = unwind_from(index, image, next, false, (fuel - 1) as nat).0;
                                let c = unwind_from(index, image, regs, first, fuel).0;
                                assert(c == seq![(regs.pc, regs.sp, cfa, f)] + rest);
                                assert forall|i: int| 0 <= i < c.len() - 1 implies (#[trigger] c[i]).2 < c[i + 1].2 by {
                                    if i > 0 {
                                        assert(c[i] == rest[i - 1]);
                                        assert(c[i + 1] == rest[i]);
                                    }
                                }
                            }
                        },
                        None => {},
                    }
                }
            }
        }
    }
}

/// In a chain unwound with functions whose frame offsets are positive, the
/// canonical frame address grows strictly from each frame to its caller,
/// and each caller's stack pointer is its callee's frame address.
pub proof fn lemma_unwind_monotonic(
    index: DebugIndex,
    image: StackImage,
    snapshot: RegisterSnapshot,
    max_frames: nat,
)
    requires
        offsets_positive(index),
    ensures
        ({
            let c = unwind_from(index, image, snapshot, true, max_frames).0;
            forall|i: int| 0 <= i < c.len() - 1 ==> (#[trigger] c[i]).2 < c[i + 1].2
        }),
{
    lemma_chain_increasing(index, image, snapshot, true, max_frames);
}

/// However the stack is laid out, even with return addresses that form a
/// cycle, unwinding yields at most `max_frames` frames.
pub proof fn lemma_unwind_bounded(
    index: DebugIndex,
    image: StackImage,
    snapshot: RegisterSnapshot,
    max_frames: nat,
)
    ensures
        unwind_from(index, image, snapshot, true, max_frames).0.len() <= max_frames,
{
    lemma_unwind_len(index, image, snapshot, true, max_frames);
}

} // verus!
