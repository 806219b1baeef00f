use vstd::prelude::*;
use crate::error::{other_error, DebugError};
use crate::unwind::StackImage;

verus! {

/// What a location-expression step machine asks for before it can go on.
#[derive(Debug, Clone, Copy, PartialEq, Eq, Structural)]
pub enum EvalRequest {
    /// Evaluation is complete.
    Complete,
    /// `size` bytes of target memory at `address`.
    Memory { address: u64, size: u8 },
    /// The base address of the current frame.
    FrameBase,
    /// The raw value of a register; `base_type` zero means the generic type.
    Register { register: u16, base_type: u64 },
    /// The relocated value of an address index.
    RelocatedAddress(u64),
}

/// The value to resume a step machine with.
#[derive(Debug, Clone, Copy, PartialEq, Eq, Structural)]
pub enum ResumeValue {
    /// A one-byte memory value.
    U8(u8),
    /// A two-byte memory value.
    U16(u16),
    /// A four-byte memory value.
    U32(u32),
    /// A register value of the generic type.
    Generic(u64),
    /// The frame base.
    FrameBase(u64),
    /// A relocated address.
    RelocatedAddress(u64),
}

/// The byte order in which the target stores multi-byte values.
#[derive(Debug, Clone, Copy, PartialEq, Eq, Structural)]
pub enum ByteOrder {
    /// Least significant byte first.
    Little,
    /// Most significant byte first.
    Big,
}

/// The frame that an expression is evaluated in.
#[derive(Debug, Clone)]
pub struct EvalContext {
    /// The byte order that the target's memory reads follow.
    pub byte_order: ByteOrder,
    /// The frame base (the canonical frame address), where known.
    pub frame_base: Option<u64>,
    /// Register values by register number; the first entry of a number
    /// counts.
    pub registers: Vec<(u16, u64)>,
}

/// Whether the memory path supports reads of `size` bytes.
pub open spec fn supported_size(size: int) -> bool {
    size == 1 || size == 2 || size == 4
}

/// The value of `size` bytes from `off` on, assembled in byte order
/// `order`.
pub open spec fn bytes_value(b: Seq<u8>, off: int, size: int, order: ByteOrder) -> int {
    if size == 1 {
        b[off] as int
    } else if size == 2 {
        match order {
            ByteOrder::Little => b[off] + b[off + 1] * 256,
            ByteOrder::Big => b[off] * 256 + b[off + 1],
        }
    } else {
        match order {
            ByteOrder::Little => b[off] + b[off + 1] * 256 + b[off + 2] * 65536 + b[off + 3] * 16777216,
            ByteOrder::Big => b[off] * 16777216 + b[off + 1] * 65536 + b[off + 2] * 256 + b[off + 3],
        }
    }
}

/// The resume value for a memory read of a supported size: one byte as
/// it is, two and four bytes assembled in byte order `order`.
pub open spec fn memory_resume(b: Seq<u8>, off: int, size: int, order: ByteOrder) -> ResumeValue {
    if size == 1 {
        ResumeValue::U8(bytes_value(b, off, size, order) as u8)
    } else if size == 2 {
        ResumeValue::U16(bytes_value(b, off, size, order) as u16)
    } else {
        ResumeValue::U32(bytes_value(b, off, size, order) as u32)
    }
}

/// The value of the first entry for `register`, if any.
pub open spec fn register_value(regs: Seq<(u16, u64)>, register: u16) -> Option<u64>
    decreases regs.len(),
{
    if regs.len() == 0 {
        None
    } else if regs[0].0 == register {
        Some(regs[0].1)
    } else {
        register_value(regs.skip(1), register)
    }
}

/// How a request is answered: `None` for an error, `Some(None)` where
/// nothing is needed, `Some(Some(v))` to resume with `v`.
pub open spec fn answer_of(
    req: EvalRequest,
    order: ByteOrder,
    frame_base: Option<u64>,
    regs: Seq<(u16, u64)>,
    start: u64,
    bytes: Seq<u8>,
) -> Option<Option<ResumeValue>> {
    match req {
        EvalRequest::Complete => Some(None),
        EvalRequest::Memory { address, size } => {
            let off = address - start;
            if supported_size(size as int) && start <= address && off + size <= bytes.len() {
                Some(Some(memory_resume(bytes, off, size as int, order)))
            } else {
                None
            }
        },
        EvalRequest::FrameBase => match frame_base {
            Some(b) => Some(Some(ResumeValue::FrameBase(b))),
            None => None,
        },
        EvalRequest::Register { register, base_type } => {
            if base_type == 0 && register_value(regs, register) is Some {
                Some(Some(ResumeValue::Generic(register_value(regs, register)->Some_0)))
            } else {
                None
            }
        },
        EvalRequest::RelocatedAddress(a) => Some(Some(ResumeValue::RelocatedAddress(a))),
    }
}

fn assemble(b: &Vec<u8>, off: usize, size: u8, order: ByteOrder) -> (r: ResumeValue)
    requires
        supported_size(size as int),
        off + size <= b@.len() <= usize::MAX,
    ensures
        r == memory_resume(b@, off as int, size as int, order),
{
    if size == 1 {
        ResumeValue::U8(b[off])
    } else if size == 2 {
        let b0: u16 = b[off] as u16;
        let b1: u16 = b[off + 1] as u16;
        assert(b0 <= 255 && b1 <= 255);
        match order {
            ByteOrder::Little => ResumeValue::U16(b0 + b1 * 256),
            ByteOrder::Big => ResumeValue::U16(b0 * 256 + b1),
        }
    } else {
        let b0: u32 = b[off] as u32;
        let b1: u32 = b[off + 1] as u32;
        let b2: u32 = b[off + 2] as u32;
        let b3: u32 = b[off + 3] as u32;
        assert(b0 <= 255 && b1 <= 255 && b2 <= 255 && b3 <= 255);
        match order {
            ByteOrder::Little => ResumeValue::U32(b0 + b1 * 256 + b2 * 65536 + b3 * 16777216),
            ByteOrder::Big => ResumeValue::U32(b0 * 16777216 + b1 * 65536 + b2 * 256 + b3),
        }
    }
}

/// Assembles the bytes of a memory read into a resume value in byte order
/// `order`. Sizes other than 1, 2 and 4 are unsupported and
/// give an error, as does a byte count that differs from `size`.
pub fn memory_value(size: u8, bytes: &Vec<u8>, order: ByteOrder) -> (r: Result<ResumeValue, DebugError>)
    ensures
        r is Ok <==> (supported_size(size as int) && bytes@.len() == size),
        r is Ok ==> r->Ok_0 == memory_resume(bytes@, 0, size as int, order),
        r is Err ==> r->Err_0 is Other,
{
    if !(size == 1 || size == 2 || size == 4) {
        return Err(other_error("memory reads of this size are not supported".to_owned()));
    }
    if bytes.len() != size as usize {
        return Err(other_error("memory read returned the wrong number of bytes".to_owned()));
    }
    Ok(assemble(bytes, 0, size, order))
}

/// Answers one request of a step machine from the frame's context and a
/// copy of target memory: `Ok(None)` once evaluation is complete, else the
/// value to resume with. Unsupported read sizes, memory outside the copy,
/// an unknown frame base or register, and registers of a non-generic type
/// give an error.
pub fn answer_request(request: &EvalRequest, ctx: &EvalContext, memory: &StackImage) -> (r: Result<
    Option<ResumeValue>,
    DebugError,
>)
    ensures
        r is Ok <==> answer_of(*request, ctx.byte_order, ctx.frame_base, ctx.registers@, memory.start, memory.bytes@) is Some,
        r is Ok ==> r->Ok_0 == answer_of(*request, ctx.byte_order, ctx.frame_base, ctx.registers@, memory.start, memory.bytes@)->Some_0,
        r is Err ==> r->Err_0 is Other,
{
    match *request {
        EvalRequest::Complete => Ok(None),
        EvalRequest::Memory { address, size } => {
            if !(size == 1 || size == 2 || size == 4) {
                return Err(other_error("memory reads of this size are not supported".to_owned()));
            }
            if address < memory.start {
                return Err(other_error("memory below the available copy".to_owned()));
            }
            let off: u64 = address - memory.start;
            let len: u64 = memory.bytes.len() as u64;
            if off > len || len - off < size as u64 {
                return Err(other_error("memory beyond the available copy".to_owned()));
            }
            Ok(Some(assemble(&memory.bytes, off as usize, size, ctx.byte_order)))
        },
        EvalRequest::FrameBase => match ctx.frame_base {
            Some(b) => Ok(Some(ResumeValue::FrameBase(b))),
            None => Err(other_error("the frame base is not known".to_owned())),
        },
        EvalRequest::Register { register, base_type } => {
            if base_type != 0 {
                return Err(other_error("typed register requests are not supported".to_owned()));
            }
            let mut i: usize = 0;
            proof {
                assert(ctx.registers@.skip(0) =~= ctx.registers@);
            }
            while i < ctx.registers.len()
                invariant
                    i <= ctx.registers@.len(),
                    base_type == 0,
                    *request == (EvalRequest::Register { register, base_type }),
                    register_value(ctx.registers@, register) == register_value(ctx.registers@.skip(i as int), register),
                decreases ctx.registers@.len() - i,
            {
                let (n, v) = ctx.registers[i];
                proof {
                    let rest = ctx.registers@.skip(i as int);
                    assert(rest[0] == ctx.registers@[i as int]);
                    assert(rest.skip(1) =~= ctx.registers@.skip(i + 1));
                }
                if n == register {
                    proof {
                        let rest = ctx.registers@.skip(i as int);
                        assert(rest.len() > 0);
                        assert(register_value(rest, register) == Some(v));
                    }
                    return Ok(Some(ResumeValue::Generic(v)));
                }
                i = i + 1;
            }
            Err(other_error("the register is not known".to_owned()))
        },
        EvalRequest::RelocatedAddress(a) => Ok(Some(ResumeValue::RelocatedAddress(a))),
    }
}

/// Evaluation is deterministic: two runs that see the same requests in the
/// same frame context and the same memory get the same answers.
pub proof fn lemma_answers_deterministic(
    requests: Seq<EvalRequest>,
    ctx1: EvalContext,
    ctx2: EvalContext,
    mem1: StackImage,
    mem2: StackImage,
)
    requires
        ctx1.byte_order == ctx2.byte_order,
        ctx1.frame_base == ctx2.frame_base,
        ctx1.registers@ == ctx2.registers@,
        mem1.start == mem2.start,
        mem1.bytes@ == mem2.bytes@,
    ensures
        forall|i: int|
            0 <= i < requests.len() ==> answer_of(
                #[trigger] requests[i],
                ctx1.byte_order,
                ctx1.frame_base,
                ctx1.registers@,
                mem1.start,
                mem1.bytes@,
            ) == answer_of(requests[i], ctx2.byte_order, ctx2.frame_base, ctx2.registers@, mem2.start, mem2.bytes@),
{
}

/// A memory request of a size other than 1, 2 or 4 is always an error,
/// whatever memory holds.
pub proof fn lemma_unsupported_size_rejected(
    address: u64,
    size: u8,
    order: ByteOrder,
    frame_base: Option<u64>,
    regs: Seq<(u16, u64)>,
    start: u64,
    bytes: Seq<u8>,
)
    requires
        !supported_size(size as int),
    ensures
        answer_of(EvalRequest::Memory { address, size }, order, frame_base, regs, start, bytes) is None,
{
}

} // verus!
