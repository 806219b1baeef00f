//! State reconstruction for a halted embedded target: object handles, a
//! debug-information index, stack unwinding, answers to a location-expression
//! evaluator, a per-halt variable cache and the halt-location policy used for
//! stepping and breakpoints.

pub mod attributes;
pub mod debug_index;
pub mod error;
pub mod evaluator;
pub mod object_ref;
pub mod source_location;
pub mod stepping;
pub mod unwind;
pub mod variable_cache;

pub use attributes::{
    extract_byte_size, extract_file, extract_line, extract_name, AttributeValue, FileEntry,
    LineProgramHeader,
};
pub use debug_index::{CompilationUnit, DebugIndex, FunctionEntry, LineRow};
pub use error::DebugError;
pub use evaluator::{answer_request, memory_value, ByteOrder, EvalContext, EvalRequest, ResumeValue};
pub use object_ref::{get_object_reference, ObjectRef, ObjectRefAllocator};
pub use source_location::{ColumnType, SourceLocation};
pub use stepping::{next_halt, HaltLocation, SteppingMode};
pub use unwind::{unwind, RegisterSnapshot, StackFrame, StackImage, UnwindResult};
pub use variable_cache::{ScopeKind, Variable, VariableCache};
