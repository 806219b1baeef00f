use probe_debug::{
    attributes::decimal,
    extract_byte_size, extract_file, extract_line, extract_name, AttributeValue, FileEntry,
    LineProgramHeader,
};

fn entry(dir: Option<&str>, file: Option<&str>) -> FileEntry {
    FileEntry { directory: dir.map(|d| d.to_string()), file: file.map(|f| f.to_string()) }
}

fn header(version: u16) -> LineProgramHeader {
    LineProgramHeader {
        version,
        comp_file: Some(entry(Some("/src"), Some("lib.rs"))),
        file_names: vec![entry(Some("/src"), Some("a.rs")), entry(None, Some("b.rs"))],
    }
}

#[test]
fn line_only_from_unsigned_constants() {
    assert_eq!(extract_line(&AttributeValue::Udata(42)), Some(42));
    assert_eq!(extract_line(&AttributeValue::FileIndex(42)), None);
    assert_eq!(extract_line(&AttributeValue::Unsupported("Flag(true)".to_string())), None);
}

#[test]
fn byte_size_only_from_found_unsigned_constants() {
    assert_eq!(extract_byte_size(&Ok(Some(AttributeValue::Udata(8)))), Some(8));
    assert_eq!(extract_byte_size(&Ok(None)), None);
    assert_eq!(extract_byte_size(&Ok(Some(AttributeValue::DebugStrRef(3)))), None);
    assert_eq!(extract_byte_size(&Err(gimli::Error::UnexpectedEof(gimli::ReaderOffsetId(0)))), None);
}

#[test]
fn names_from_strings_and_references() {
    assert_eq!(extract_name(&AttributeValue::String(b"main".to_vec()), &None), "main");
    assert_eq!(
        extract_name(&AttributeValue::DebugStrRef(10), &Some(b"inner".to_vec())),
        "inner"
    );
    assert_eq!(
        extract_name(&AttributeValue::DebugStrRef(10), &None),
        "Invalid DW_AT_name value"
    );
    assert_eq!(
        extract_name(&AttributeValue::String(vec![b'a', 0xff, b'b']), &None),
        "a\u{FFFD}b"
    );
    assert_eq!(
        extract_name(&AttributeValue::Udata(1), &None),
        "Unimplemented: Evaluate name from Udata(1)"
    );
    assert_eq!(
        extract_name(&AttributeValue::FileIndex(1234567890), &None),
        "Unimplemented: Evaluate name from FileIndex(1234567890)"
    );
    assert_eq!(
        extract_name(&AttributeValue::Udata(u64::MAX), &None),
        format!("Unimplemented: Evaluate name from Udata({})", u64::MAX)
    );
    assert_eq!(
        extract_name(&AttributeValue::Unsupported("Flag(true)".to_string()), &None),
        "Unimplemented: Evaluate name from Flag(true)"
    );
}

#[test]
fn file_lookup_by_version() {
    let v4 = Some(header(4));
    assert_eq!(
        extract_file(&v4, &AttributeValue::FileIndex(0)),
        Some(("/src".to_string(), "lib.rs".to_string()))
    );
    assert_eq!(
        extract_file(&v4, &AttributeValue::FileIndex(1)),
        Some(("/src".to_string(), "a.rs".to_string()))
    );
    assert_eq!(extract_file(&v4, &AttributeValue::FileIndex(2)), None);
    assert_eq!(extract_file(&v4, &AttributeValue::FileIndex(3)), None);
    let v5 = Some(header(5));
    assert_eq!(
        extract_file(&v5, &AttributeValue::FileIndex(0)),
        Some(("/src".to_string(), "a.rs".to_string()))
    );
    assert_eq!(extract_file(&v5, &AttributeValue::FileIndex(2)), None);
    assert_eq!(extract_file(&None, &AttributeValue::FileIndex(0)), None);
    assert_eq!(extract_file(&v5, &AttributeValue::Udata(0)), None);
}

#[test]
fn decimal_text_of_numbers() {
    assert_eq!(decimal(0), "0");
    assert_eq!(decimal(9), "9");
    assert_eq!(decimal(10), "10");
    assert_eq!(decimal(1007), "1007");
    assert_eq!(decimal(u64::MAX), u64::MAX.to_string());
}
