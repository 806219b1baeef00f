use vstd::prelude::*;
use crate::debug_index::{clone_text, find_unit, function_of, DebugIndex, LineRow};
use crate::error::DebugError;
use crate::source_location::SourceLocation;

verus! {

/// The granularity of a halt request.
#[derive(Debug, Clone, Copy, PartialEq, Eq, Structural)]
pub enum SteppingMode {
    /// The first statement boundary at or after the address.
    BreakPoint,
    /// The next statement boundary strictly after the address, in the same
    /// function.
    OverStatement,
    /// The first statement boundary at or after the address, once control
    /// has reached the callee.
    IntoStatement,
    /// The first statement boundary at or after the return address of the
    /// current frame.
    OutOfStatement,
}

/// A legal halt address and its source location.
#[derive(Debug, Clone)]
pub struct HaltLocation {
    /// The address to halt at.
    pub address: u64,
    /// The source location of that address.
    pub location: SourceLocation,
}

/// Among the first `n` rows, the statement boundary with the lowest
/// address in `[from, hi)`; of rows with equal addresses, the first.
pub open spec fn lowest_row(rows: Seq<LineRow>, from: int, hi: int, n: int) -> Option<int>
    decreases n,
{
    if n <= 0 {
        None
    } else {
        let b = lowest_row(rows, from, hi, n - 1);
        let r = rows[n - 1];
        if r.is_stmt && from <= r.address < hi && (b is None || r.address < rows[b->Some_0].address) {
            Some(n - 1)
        } else {
            b
        }
    }
}

/// Where the search for a halt address starts, for a request at `pc`.
pub open spec fn search_start(pc: u64, mode: SteppingMode, return_address: Option<u64>) -> Option<int> {
    match mode {
        SteppingMode::BreakPoint => Some(pc as int),
        SteppingMode::IntoStatement => Some(pc as int),
        SteppingMode::OverStatement => Some(pc + 1),
        SteppingMode::OutOfStatement => match return_address {
            Some(ra) => Some(ra as int),
            None => None,
        },
    }
}

/// The address whose function and unit the search runs in.
pub open spec fn anchor(pc: u64, mode: SteppingMode, return_address: Option<u64>) -> u64 {
    match mode {
        SteppingMode::OutOfStatement => match return_address {
            Some(ra) => ra,
            None => pc,
        },
        _ => pc,
    }
}

/// The function, unit and row of the halt location for a request, if one
/// exists: the lowest statement boundary from the search start up to the end
/// of the function that holds the anchor address, in the unit that holds it.
pub open spec fn halt_of(
    index: DebugIndex,
    pc: u64,
    mode: SteppingMode,
    return_address: Option<u64>,
) -> Option<(int, int, int)> {
    let a = anchor(pc, mode, return_address);
    match (search_start(pc, mode, return_address), function_of(index, a), find_unit(index.units@, a, 0)) {
        (Some(from), Some(f), Some(u)) => {
            let rows = index.units@[u].rows@;
            match lowest_row(rows, from, index.functions@[f].high_pc as int, rows.len() as int) {
                Some(r) => Some((f, u, r)),
                None => None,
            }
        },
        _ => None,
    }
}

/// The found row, if any, is a statement boundary in `[from, hi)` with no
/// lower such address among the first `n` rows.
pub proof fn lemma_lowest_row(rows: Seq<LineRow>, from: int, hi: int, n: int)
    requires
        0 <= n <= rows.len(),
    ensures
        lowest_row(rows, from, hi, n) is Some ==> {
            let b = lowest_row(rows, from, hi, n)->Some_0;
            &&& 0 <= b < n
            &&& rows[b].is_stmt
            &&& from <= rows[b].address < hi
            &&& forall|j: int| 0 <= j < n && rows[j].is_stmt && from <= rows[j].address < hi ==> rows[b].address <= rows[j].address
        },
        lowest_row(rows, from, hi, n) is None <==> forall|j: int| 0 <= j < n ==> !(rows[j].is_stmt && from <= rows[j].address < hi),
    decreases n,
{
    if n > 0 {
        lemma_lowest_row(rows, from, hi, n - 1);
    }
}

fn no_halt(pc: u64) -> (r: DebugError)
    ensures
        r matches DebugError::NoValidHaltLocation { pc_at_error, .. } && pc_at_error == pc,
{
    DebugError::NoValidHaltLocation {
        message: "no valid halt location for the requested address".to_owned(),
        pc_at_error: pc,
    }
}

/// The next legal halt address for a request at `pc`. `return_address` is
/// the return address of the current frame, which stepping out needs.
/// Where no statement boundary qualifies, the error names `pc`.
pub fn next_halt(
    index: &DebugIndex,
    pc: u64,
    mode: SteppingMode,
    return_address: Option<u64>,
) -> (r: Result<HaltLocation, DebugError>)
    ensures
        r is Ok <==> halt_of(*index, pc, mode, return_address) is Some,
        r is Ok ==> {
            let (f, u, row) = halt_of(*index, pc, mode, return_address)->Some_0;
            let unit = index.units@[u];
            let lr = unit.rows@[row];
            &&& r->Ok_0.address == lr.address
            &&& r->Ok_0.location.line == Some(lr.line)
            &&& r->Ok_0.location.column == Some(lr.column)
            &&& r->Ok_0.location.file == unit.file
            &&& r->Ok_0.location.directory == unit.directory
            &&& r->Ok_0.location.low_pc == (if index.functions@[f].low_pc <= u32::MAX && index.functions@[f].high_pc <= u32::MAX {
                Some(index.functions@[f].low_pc as u32)
            } else {
                None::<u32>
            })
            &&& r->Ok_0.location.high_pc == (if index.functions@[f].low_pc <= u32::MAX && index.functions@[f].high_pc <= u32::MAX {
                Some(index.functions@[f].high_pc as u32)
            } else {
                None::<u32>
            })
        },
        r is Err ==> (r->Err_0 matches DebugError::NoValidHaltLocation { pc_at_error, .. } && pc_at_error == pc),
{
    let from: u64 = match mode {
        SteppingMode::BreakPoint => pc,
        SteppingMode::IntoStatement => pc,
        SteppingMode::OverStatement => {
            if pc == u64::MAX {
                proof {
                    let a = anchor(pc, mode, return_address);
                    match (function_of(*index, a), find_unit(index.units@, a, 0)) {
                        (Some(f), Some(u)) => {
                            let rows = index.units@[u].rows@;
                            lemma_lowest_row(rows, pc + 1, index.functions@[f].high_pc as int, rows.len() as int);
                        },
                        _ => {},
                    }
                }
                return Err(no_halt(pc));
            }
            pc + 1
        },
        SteppingMode::OutOfStatement => match return_address {
            Some(ra) => ra,
            None => return Err(no_halt(pc)),
        },
    };
    let a: u64 = match mode {
        SteppingMode::OutOfStatement => from,
        _ => pc,
    };
    let f = match index.function_at(a) {
        Some(f) => f,
        None => return Err(no_halt(pc)),
    };
    let u = match index.unit_at(a) {
        Some(u) => u,
        None => return Err(no_halt(pc)),
    };
    let hi = index.functions[f].high_pc;
    let unit = &index.units[u];
    let mut best: Option<usize> = None;
    let mut i: usize = 0;
    while i < unit.rows.len()
        invariant
            i <= unit.rows@.len(),
            unit == index.units@[u as int],
            best is Some ==> best->Some_0 < i,
            lowest_row(unit.rows@, from as int, hi as int, i as int) == (match best {
                Some(b) => Some(b as int),
                None => None::<int>,
            }),
        decreases unit.rows@.len() - i,
    {
        let row = unit.rows[i];
        let take = row.is_stmt && from <= row.address && row.address < hi && match best {
            Some(b) => row.address < unit.rows[b].address,
            None => true,
        };
        if take {
            best = Some(i);
        }
        i = i + 1;
    }
    let b = match best {
        Some(b) => b,
        None => return Err(no_halt(pc)),
    };
    let row = unit.rows[b];
    let e = &index.functions[f];
    let (low_pc, high_pc) = if e.low_pc <= u32::MAX as u64 && e.high_pc <= u32::MAX as u64 {
        (Some(e.low_pc as u32), Some(e.high_pc as u32))
    } else {
        (None, None)
    };
    Ok(HaltLocation {
        address: row.address,
        location: SourceLocation {
            line: Some(row.line),
            column: Some(row.column),
            file: clone_text(&unit.file),
            directory: clone_text(&unit.directory),
            low_pc,
            high_pc,
        },
    })
}

/// A request at an address that no statement boundary serves is refused
/// with an error that carries that very address.
pub proof fn lemma_unmapped_pc_refused(index: DebugIndex, pc: u64, mode: SteppingMode, return_address: Option<u64>)
    requires
        function_of(index, anchor(pc, mode, return_address)) is None,
    ensures
        halt_of(index, pc, mode, return_address) is None,
{
}

} // verus!
