use vstd::prelude::*;
use crate::source_location::{ColumnType, SourceLocation};

verus! {

/// One row of a unit's line table.
#[derive(Debug, Clone, Copy, PartialEq, Eq, Structural)]
pub struct LineRow {
    /// The instruction address of the row.
    pub address: u64,
    /// The source line.
    pub line: u64,
    /// The source column.
    pub column: ColumnType,
    /// Whether the address is a statement boundary, a legal halt location.
    pub is_stmt: bool,
}

/// A function and the call-frame rule that holds throughout its code.
#[derive(Debug, Clone)]
pub struct FunctionEntry {
    /// The function's name.
    pub name: String,
    /// The address of the first instruction.
    pub low_pc: u64,
    /// The address just past the last instruction.
    pub high_pc: u64,
    /// The canonical frame address is the stack pointer plus this offset.
    pub cfa_offset: u64,
    /// The return address is saved at the canonical frame address minus
    /// this offset.
    pub return_address_offset: u64,
}

/// A compilation unit: the address range it covers, its source file and
/// its line table.
#[derive(Debug, Clone)]
pub struct CompilationUnit {
    /// The first address of the unit.
    pub low_pc: u64,
    /// The address just past the unit.
    pub high_pc: u64,
    /// The directory of the unit's source file.
    pub directory: Option<String>,
    /// The unit's source file.
    pub file: Option<String>,
    /// The line table, in the order of the line program.
    pub rows: Vec<LineRow>,
}

/// An index over parsed debug information: units and functions, each in
/// declaration order.
#[derive(Debug, Clone)]
pub struct DebugIndex {
    /// The compilation units.
    pub units: Vec<CompilationUnit>,
    /// The functions.
    pub functions: Vec<FunctionEntry>,
}

impl FunctionEntry {
    /// Whether `pc` lies in `[low_pc, high_pc)`.
    pub open spec fn contains(&self, pc: u64) -> bool {
        self.low_pc <= pc < self.high_pc
    }
}

impl CompilationUnit {
    /// Whether `pc` lies in `[low_pc, high_pc)`.
    pub open spec fn contains(&self, pc: u64) -> bool {
        self.low_pc <= pc < self.high_pc
    }
}

/// Among the first `n` functions, the narrowest whose range holds `pc`
/// (the innermost); of equally narrow ones, the first declared.
pub open spec fn narrowest_function(fns: Seq<FunctionEntry>, pc: u64, n: int) -> Option<int>
    decreases n,
{
    if n <= 0 {
        None
    } else {
        let b = narrowest_function(fns, pc, n - 1);
        let f = fns[n - 1];
        if f.contains(pc) && (b is None || f.high_pc - f.low_pc < fns[b->Some_0].high_pc
            - fns[b->Some_0].low_pc) {
            Some(n - 1)
        } else {
            b
        }
    }
}

/// The first unit from index `i` on whose range holds `pc`.
pub open spec fn find_unit(units: Seq<CompilationUnit>, pc: u64, i: int) -> Option<int>
    decreases units.len() - i,
{
    if i < 0 || i >= units.len() {
        None
    } else if units[i].contains(pc) {
        Some(i)
    } else {
        find_unit(units, pc, i + 1)
    }
}

/// Among the first `n` rows, the row with the greatest address not above
/// `pc`; of rows with equal addresses, the first.
pub open spec fn best_row(rows: Seq<LineRow>, pc: u64, n: int) -> Option<int>
    decreases n,
{
    if n <= 0 {
        None
    } else {
        let b = best_row(rows, pc, n - 1);
        if rows[n - 1].address <= pc && (b is None || rows[n - 1].address > rows[b->Some_0].address) {
            Some(n - 1)
        } else {
            b
        }
    }
}

/// The function of a program counter, its index in the index's functions.
pub open spec fn function_of(index: DebugIndex, pc: u64) -> Option<int> {
    narrowest_function(index.functions@, pc, index.functions@.len() as int)
}

/// The unit and line-table row that give the source location of `pc`.
pub open spec fn location_of(index: DebugIndex, pc: u64) -> Option<(int, int)> {
    match find_unit(index.units@, pc, 0) {
        Some(u) => match best_row(index.units@[u].rows@, pc, index.units@[u].rows@.len() as int) {
            Some(r) => Some((u, r)),
            None => None,
        },
        None => None,
    }
}

/// The range of a function as 32-bit addresses, where both ends fit.
pub open spec fn range_u32(index: DebugIndex, pc: u64) -> Option<(u32, u32)> {
    match function_of(index, pc) {
        Some(f) => {
            let e = index.functions@[f];
            if e.low_pc <= u32::MAX && e.high_pc <= u32::MAX {
                Some((e.low_pc as u32, e.high_pc as u32))
            } else {
                None
            }
        },
        None => None,
    }
}

/// The source location that `pc` resolves to.
pub open spec fn resolves_to(index: DebugIndex, pc: u64, s: SourceLocation) -> bool {
    match location_of(index, pc) {
        Some((u, r)) => {
            let unit = index.units@[u];
            let row = unit.rows@[r];
            &&& s.line == Some(row.line)
            &&& s.column == Some(row.column)
            &&& s.file == unit.file
            &&& s.directory == unit.directory
            &&& s.low_pc == (match range_u32(index, pc) { Some(p) => Some(p.0), None => None::<u32> })
            &&& s.high_pc == (match range_u32(index, pc) { Some(p) => Some(p.1), None => None::<u32> })
        },
        None => false,
    }
}

pub(crate) fn clone_text(s: &Option<String>) -> (r: Option<String>)
    ensures
        r == *s,
{
    match s {
        Some(t) => Some(t.clone()),
        None => None,
    }
}

impl DebugIndex {
    /// The innermost function whose range holds `pc`: the narrowest such
    /// range, and of equally narrow ones the first declared.
    pub fn function_at(&self, pc: u64) -> (r: Option<usize>)
        ensures
            r is Some <==> function_of(*self, pc) is Some,
            r is Some ==> r->Some_0 as int == function_of(*self, pc)->Some_0,
            r is Some ==> r->Some_0 < self.functions@.len(),
    {
        let mut best: Option<usize> = None;
        let mut i: usize = 0;
        while i < self.functions.len()
            invariant
                i <= self.functions@.len(),
                best is Some ==> best->Some_0 < i,
                best is Some ==> self.functions@[best->Some_0 as int].contains(pc),
                narrowest_function(self.functions@, pc, i as int) == (match best {
                    Some(b) => Some(b as int),
                    None => None::<int>,
                }),
            decreases self.functions@.len() - i,
        {
            let f = &self.functions[i];
            if f.low_pc <= pc && pc < f.high_pc {
                let take = match best {
                    Some(b) => f.high_pc - f.low_pc < self.functions[b].high_pc - self.functions[b].low_pc,
                    None => true,
                };
                if take {
                    best = Some(i);
                }
            }
            i = i + 1;
        }
        best
    }

    /// The first unit, in declaration order, whose range holds `pc`.
    pub fn unit_at(&self, pc: u64) -> (r: Option<usize>)
        ensures
            r is Some <==> find_unit(self.units@, pc, 0) is Some,
            r is Some ==> r->Some_0 as int == find_unit(self.units@, pc, 0)->Some_0,
            r is Some ==> r->Some_0 < self.units@.len(),
    {
        let mut i: usize = 0;
        while i < self.units.len()
            invariant
                i <= self.units@.len(),
                find_unit(self.units@, pc, 0) == find_unit(self.units@, pc, i as int),
            decreases self.units@.len() - i,
        {
            let u = &self.units[i];
            if u.low_pc <= pc && pc < u.high_pc {
                return Some(i);
            }
            i = i + 1;
        }
        None
    }

    /// The source location of `pc`: the row of the owning unit's line table
    /// with the greatest address not above `pc`, the unit's file, and the
    /// range of the function that holds `pc`.
    pub fn source_location_at(&self, pc: u64) -> (r: Option<SourceLocation>)
        ensures
            r is Some <==> location_of(*self, pc) is Some,
            r is Some ==> resolves_to(*self, pc, r->Some_0),
    {
        let u = match self.unit_at(pc) {
            Some(u) => u,
            None => return None,
        };
        let unit = &self.units[u];
        let mut best: Option<usize> = None;
        let mut i: usize = 0;
        while i < unit.rows.len()
            invariant
                i <= unit.rows@.len(),
                unit == self.units@[u as int],
                best is Some ==> best->Some_0 < i,
                best_row(unit.rows@, pc, i as int) == (match best { Some(b) => Some(b as int), None => None::<int> }),
            decreases unit.rows@.len() - i,
        {
            let row = unit.rows[i];
            let take = match best {
                Some(b) => row.address <= pc && row.address > unit.rows[b].address,
                None => row.address <= pc,
            };
            if take {
                best = Some(i);
            }
            i = i + 1;
        }
        let b = match best {
            Some(b) => b,
            None => return None,
        };
        let row = unit.rows[b];
        let (low_pc, high_pc) = match self.function_at(pc) {
            Some(f) => {
                let e = &self.functions[f];
                if e.low_pc <= u32::MAX as u64 && e.high_pc <= u32::MAX as u64 {
                    (Some(e.low_pc as u32), Some(e.high_pc as u32))
                } else {
                    (None, None)
                }
            },
            None => (None, None),
        };
        Some(SourceLocation {
            line: Some(row.line),
            column: Some(row.column),
            file: clone_text(&unit.file),
            directory: clone_text(&unit.directory),
            low_pc,
            high_pc,
        })
    }
}

/// A found function lies among the first `n` and its range holds `pc`.
pub proof fn lemma_narrowest_function_range(fns: Seq<FunctionEntry>, pc: u64, n: int)
    requires
        n <= fns.len(),
    ensures
        narrowest_function(fns, pc, n) is Some ==> {
            let k = narrowest_function(fns, pc, n)->Some_0;
            &&& 0 <= k < n
            &&& fns[k].contains(pc)
        },
    decreases n,
{
    if n > 0 {
        lemma_narrowest_function_range(fns, pc, n - 1);
    }
}

} // verus!
