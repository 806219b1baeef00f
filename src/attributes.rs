use vstd::prelude::*;
use vstd::string::StringExecFns;

verus! {

/// The forms of a debug-information attribute value that the extraction
/// helpers read; every other form is `Unsupported`.
#[derive(Debug, Clone)]
pub enum AttributeValue {
    /// An unsigned constant.
    Udata(u64),
    /// An index into the unit's line-program file table.
    FileIndex(u64),
    /// An offset into the string section.
    DebugStrRef(u64),
    /// An inline string.
    String(Vec<u8>),
    /// Any other form, with a description of it.
    Unsupported(String),
}

/// A resolved entry of a line-program file table.
#[derive(Debug, Clone)]
pub struct FileEntry {
    /// The directory, where it could be resolved.
    pub directory: Option<String>,
    /// The file name, where it could be resolved.
    pub file: Option<String>,
}

/// A unit's line-program header, as far as file lookup needs it.
#[derive(Debug, Clone)]
pub struct LineProgramHeader {
    /// The DWARF version of the line program.
    pub version: u16,
    /// The unit's primary source file, which index zero names before
    /// version 5.
    pub comp_file: Option<FileEntry>,
    /// The file table.
    pub file_names: Vec<FileEntry>,
}

/// The file-table entry that `index` names: before version 5 the table
/// counts from one and zero names the unit's primary file; from version 5 on
/// it counts from zero.
pub open spec fn file_entry(h: LineProgramHeader, index: u64) -> Option<FileEntry> {
    if h.version <= 4 {
        if index == 0 {
            h.comp_file
        } else if index - 1 < h.file_names@.len() {
            Some(h.file_names@[index - 1])
        } else {
            None
        }
    } else if index < h.file_names@.len() {
        Some(h.file_names@[index as int])
    } else {
        None
    }
}

/// What `String::from_utf8_lossy` makes of `b`.
pub uninterp spec fn utf8_lossy(b: Seq<u8>) -> Seq<char>;

/// Relies on `String::from_utf8_lossy`: the text of `b`, with each invalid
/// sequence replaced; it depends on the bytes alone, and valid UTF-8 (here:
/// ASCII) comes back unchanged.
#[verifier::external_body]
fn lossy_text(b: &Vec<u8>) -> (r: String)
    ensures
        r@ == utf8_lossy(b@),
        all_ascii(b@) ==> r@ == ascii_chars(b@),
{
    String::from_utf8_lossy(b.as_slice()).into_owned()
}

/// The name given where a string reference cannot be resolved.
pub const INVALID_NAME: &'static str = "Invalid DW_AT_name value";

/// The start of the name given for an attribute form that names cannot
/// take; the form's description follows.
pub const UNSUPPORTED_NAME: &'static str = "Unimplemented: Evaluate name from ";

/// A line number: present only for an unsigned constant.
pub fn extract_line(value: &AttributeValue) -> (r: Option<u64>)
    ensures
        r == (match *value {
            AttributeValue::Udata(n) => Some(n),
            _ => None::<u64>,
        }),
{
    match value {
        AttributeValue::Udata(n) => Some(*n),
        _ => None,
    }
}

/// A byte size from the result of looking up the attribute: present only
/// where the lookup succeeded and found an unsigned constant.
pub fn extract_byte_size(lookup: &Result<Option<AttributeValue>, gimli::Error>) -> (r: Option<u64>)
    ensures
        r == (match *lookup {
            Ok(Some(AttributeValue::Udata(n))) => Some(n),
            _ => None::<u64>,
        }),
{
    match lookup {
        Ok(Some(AttributeValue::Udata(n))) => Some(*n),
        _ => None,
    }
}

/// The ASCII digit for `d`.
pub open spec fn digit_char(d: int) -> char {
    if d == 0 {
        '0'
    } else if d == 1 {
        '1'
    } else if d == 2 {
        '2'
    } else if d == 3 {
        '3'
    } else if d == 4 {
        '4'
    } else if d == 5 {
        '5'
    } else if d == 6 {
        '6'
    } else if d == 7 {
        '7'
    } else if d == 8 {
        '8'
    } else {
        '9'
    }
}

/// The decimal text of `n`, without leading zeros.
pub open spec fn decimal_text(n: nat) -> Seq<char>
    decreases n,
{
    if n < 10 {
        seq![digit_char(n as int)]
    } else {
        decimal_text(n / 10) + seq![digit_char((n % 10) as int)]
    }
}

/// How an attribute form is written in a message: the form's name with its
/// value in parentheses, or the description carried by an unsupported form.
pub open spec fn form_text(v: AttributeValue) -> Seq<char> {
    match v {
        AttributeValue::Udata(n) => "Udata("@ + decimal_text(n as nat) + ")"@,
        AttributeValue::FileIndex(n) => "FileIndex("@ + decimal_text(n as nat) + ")"@,
        AttributeValue::DebugStrRef(n) => "DebugStrRef(DebugStrOffset("@ + decimal_text(n as nat) + "))"@,
        AttributeValue::String(_) => "String"@,
        AttributeValue::Unsupported(d) => d@,
    }
}

/// Every byte is ASCII.
pub open spec fn all_ascii(b: Seq<u8>) -> bool {
    forall|i: int| 0 <= i < b.len() ==> b[i] < 128
}

/// The characters of ASCII bytes.
pub open spec fn ascii_chars(b: Seq<u8>) -> Seq<char> {
    b.map(|i: int, c: u8| c as char)
}

fn digit_str(d: u64) -> (r: &'static str)
    requires
        d < 10,
    ensures
        r@ == seq![digit_char(d as int)],
{
    match d {
        0 => {
            proof {
                reveal_strlit("0");
            }
            "0"
        },
        1 => {
            proof {
                reveal_strlit("1");
            }
            "1"
        },
        2 => {
            proof {
                reveal_strlit("2");
            }
            "2"
        },
        3 => {
            proof {
                reveal_strlit("3");
            }
            "3"
        },
        4 => {
            proof {
                reveal_strlit("4");
            }
            "4"
        },
        5 => {
            proof {
                reveal_strlit("5");
            }
            "5"
        },
        6 => {
            proof {
                reveal_strlit("6");
            }
            "6"
        },
        7 => {
            proof {
                reveal_strlit("7");
            }
            "7"
        },
        8 => {
            proof {
                reveal_strlit("8");
            }
            "8"
        },
        _ => {
            proof {
                reveal_strlit("9");
            }
            "9"
        },
    }
}

/// The decimal text of `n`.
pub fn decimal(n: u64) -> (r: String)
    ensures
        r@ == decimal_text(n as nat),
    decreases n,
{
    if n < 10 {
        digit_str(n).to_owned()
    } else {
        let mut s = decimal(n / 10);
        s.append(digit_str(n % 10));
        s
    }
}

/// A name. `referenced` holds the bytes that a string-section reference
/// resolved to, or `None` where resolving it failed; it is not read for the
/// other forms. A form that does not hold a name gives a message that
/// describes the form.
pub fn extract_name(value: &AttributeValue, referenced: &Option<Vec<u8>>) -> (r: String)
    ensures
        r@ == (match *value {
            AttributeValue::DebugStrRef(_) => match *referenced {
                Some(b) => utf8_lossy(b@),
                None => INVALID_NAME@,
            },
            AttributeValue::String(b) => utf8_lossy(b@),
            _ => UNSUPPORTED_NAME@ + form_text(*value),
        }),
        (match *value {
            AttributeValue::String(b) => all_ascii(b@) ==> r@ == ascii_chars(b@),
            AttributeValue::DebugStrRef(_) => match *referenced {
                Some(b) => all_ascii(b@) ==> r@ == ascii_chars(b@),
                None => true,
            },
            _ => true,
        }),
{
    match value {
        AttributeValue::DebugStrRef(_) => match referenced {
            Some(b) => lossy_text(b),
            None => INVALID_NAME.to_owned(),
        },
        AttributeValue::String(b) => lossy_text(b),
        AttributeValue::Udata(n) => {
            let mut name = UNSUPPORTED_NAME.to_owned();
            name.append("Udata(");
            name.append(decimal(*n).as_str());
            name.append(")");
            name
        },
        AttributeValue::FileIndex(n) => {
            let mut name = UNSUPPORTED_NAME.to_owned();
            name.append("FileIndex(");
            name.append(decimal(*n).as_str());
            name.append(")");
            name
        },
        AttributeValue::Unsupported(d) => {
            let mut name = UNSUPPORTED_NAME.to_owned();
            name.append(d.as_str());
            name
        },
    }
}

/// The entry of the header's file table that `index` names.
pub fn file_entry_at(header: &LineProgramHeader, index: u64) -> (r: Option<&FileEntry>)
    ensures
        r is Some <==> file_entry(*header, index) is Some,
        r is Some ==> *r->Some_0 == file_entry(*header, index)->Some_0,
{
    if header.version <= 4 {
        if index == 0 {
            match &header.comp_file {
                Some(f) => Some(f),
                None => None,
            }
        } else if index - 1 < header.file_names.len() as u64 {
            Some(&header.file_names[(index - 1) as usize])
        } else {
            None
        }
    } else if index < header.file_names.len() as u64 {
        Some(&header.file_names[index as usize])
    } else {
        None
    }
}

/// The directory and file name that a file attribute names, where the
/// value is a file index, the unit has a line program, the index names an
/// entry, and both parts of that entry are known.
pub fn extract_file(header: &Option<LineProgramHeader>, value: &AttributeValue) -> (r: Option<(String, String)>)
    ensures
        r is Some <==> (match (*header, *value) {
            (Some(h), AttributeValue::FileIndex(i)) => file_entry(h, i) is Some
                && file_entry(h, i)->Some_0.directory is Some
                && file_entry(h, i)->Some_0.file is Some,
            _ => false,
        }),
        r is Some ==> (match (*header, *value) {
            (Some(h), AttributeValue::FileIndex(i)) =>
                r->Some_0.0 == file_entry(h, i)->Some_0.directory->Some_0
                && r->Some_0.1 == file_entry(h, i)->Some_0.file->Some_0,
            _ => false,
        }),
{
    let index = match value {
        AttributeValue::FileIndex(i) => *i,
        _ => return None,
    };
    let h = match header {
        Some(h) => h,
        None => return None,
    };
    match file_entry_at(h, index) {
        Some(entry) => match (&entry.directory, &entry.file) {
            (Some(d), Some(f)) => Some((d.clone(), f.clone())),
            _ => None,
        },
        None => None,
    }
}

} // verus!
