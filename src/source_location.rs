use vstd::prelude::*;

verus! {

/// A column in a line table row.
#[derive(Debug, Clone, Copy, PartialEq, Eq, Structural)]
pub enum ColumnType {
    /// The statement begins at the start of the new line.
    LeftEdge,
    /// A column number, whose range begins at 1.
    Column(u64),
}

impl ColumnType {
    /// The column that a raw line-table column number stands for: zero is
    /// the left edge, any other number a true column.
    pub open spec fn of_number(c: u64) -> ColumnType {
        if c == 0 {
            ColumnType::LeftEdge
        } else {
            ColumnType::Column(c)
        }
    }

    /// Converts a raw line-table column number.
    pub fn from_number(c: u64) -> (r: ColumnType)
        ensures
            r == ColumnType::of_number(c),
    {
        if c == 0 {
            ColumnType::LeftEdge
        } else {
            ColumnType::Column(c)
        }
    }
}

/// A specific location in source code.
#[derive(Clone, Debug)]
pub struct SourceLocation {
    /// The line number in the source file.
    pub line: Option<u64>,
    /// The column number in the source file.
    pub column: Option<ColumnType>,
    /// The file name of the source file.
    pub file: Option<String>,
    /// The directory of the source file.
    pub directory: Option<String>,
    /// The address of the first instruction associated with the source code.
    pub low_pc: Option<u32>,
    /// The address of the first location past the last instruction
    /// associated with the source code.
    pub high_pc: Option<u32>,
}

/// What joining `file` onto the directory `dir` gives, with the path style
/// (Unix or Windows) told apart from the directory's text.
pub uninterp spec fn joined_path(dir: Seq<char>, file: Seq<char>) -> Seq<char>;

/// Relies on `typed_path::Utf8TypedPath::derive` and `join`: the directory's
/// path style is read from its text and `file` is adjoined to it.
#[verifier::external_body]
fn join_path(dir: &str, file: &str) -> (r: String)
    ensures
        r@ == joined_path(dir@, file@),
{
    typed_path::Utf8TypedPath::derive(dir).join(file).into_string()
}

impl SourceLocation {
    /// A location that knows nothing.
    pub fn unknown() -> (r: SourceLocation)
        ensures
            r.line is None,
            r.column is None,
            r.file is None,
            r.directory is None,
            r.low_pc is None,
            r.high_pc is None,
    {
        SourceLocation {
            line: None,
            column: None,
            file: None,
            directory: None,
            low_pc: None,
            high_pc: None,
        }
    }

    /// The full path of the source file: the file joined onto the directory,
    /// present only where both are.
    pub fn combined_typed_path(&self) -> (r: Option<String>)
        ensures
            r is Some <==> (self.directory is Some && self.file is Some),
            r is Some ==> r->Some_0@ == joined_path(
                self.directory->Some_0@,
                self.file->Some_0@,
            ),
    {
        match (&self.directory, &self.file) {
            (Some(dir), Some(file)) => Some(join_path(dir.as_str(), file.as_str())),
            _ => None,
        }
    }
}

} // verus!
