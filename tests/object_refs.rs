use probe_debug::{get_object_reference, ColumnType, ObjectRef, ObjectRefAllocator, SourceLocation};

#[test]
fn transport_round_trip_of_valid_handles() {
    for k in [1u32, 2, 77, u32::MAX] {
        let r = ObjectRef::Valid(k);
        let v = i64::from(r);
        assert_eq!(v, k as i64);
        assert_eq!(ObjectRef::from(v), r);
    }
}

#[test]
fn non_positive_integers_decode_as_invalid() {
    for v in [0i64, -1, -42, i64::MIN] {
        assert_eq!(ObjectRef::from(v), ObjectRef::Invalid);
    }
    assert_eq!(i64::from(ObjectRef::Invalid), 0);
}

#[test]
fn integers_beyond_32_bits_decode_as_invalid() {
    assert_eq!(ObjectRef::from(1i64 << 32), ObjectRef::Invalid);
    assert_eq!(ObjectRef::from((1i64 << 32) + 5), ObjectRef::Invalid);
    assert_eq!(ObjectRef::from(u32::MAX as i64), ObjectRef::Valid(u32::MAX));
}

#[test]
fn parse_decimal_handles() {
    assert_eq!("42".parse::<ObjectRef>().unwrap(), ObjectRef::Valid(42));
    assert_eq!("+7".parse::<ObjectRef>().unwrap(), ObjectRef::Valid(7));
    assert_eq!("-3".parse::<ObjectRef>().unwrap(), ObjectRef::Invalid);
    assert_eq!("0".parse::<ObjectRef>().unwrap(), ObjectRef::Invalid);
    assert!("abc".parse::<ObjectRef>().is_err());
    assert!("".parse::<ObjectRef>().is_err());
    assert!("99999999999999999999".parse::<ObjectRef>().is_err());
}

#[test]
fn handles_order_as_their_integers() {
    assert!(ObjectRef::Invalid < ObjectRef::Valid(1));
    assert!(ObjectRef::Valid(1) < ObjectRef::Valid(2));
    assert!(ObjectRef::Valid(9) > ObjectRef::Valid(3));
    assert_eq!(ObjectRef::Valid(4).cmp(&ObjectRef::Valid(4)), std::cmp::Ordering::Equal);
    assert_eq!(ObjectRef::default(), ObjectRef::Invalid);
}

#[test]
fn sequential_allocations_are_distinct_and_valid() {
    let mut alloc = ObjectRefAllocator::new();
    let mut seen = Vec::new();
    for _ in 0..1000 {
        assert!(alloc.has_capacity());
        let r = get_object_reference(&mut alloc);
        assert_ne!(r, ObjectRef::Invalid);
        assert!(!seen.contains(&r));
        seen.push(r);
    }
    assert_eq!(seen[0], ObjectRef::Valid(1));
    assert_eq!(seen[999], ObjectRef::Valid(1000));
}

#[test]
fn column_numbers_convert() {
    assert_eq!(ColumnType::from_number(0), ColumnType::LeftEdge);
    assert_eq!(ColumnType::from_number(5), ColumnType::Column(5));
}

#[test]
fn combined_typed_path_joins_directory_and_file() {
    let mut loc = SourceLocation::unknown();
    assert_eq!(loc.combined_typed_path(), None);
    loc.directory = Some("/home/user/project".to_string());
    assert_eq!(loc.combined_typed_path(), None);
    loc.file = Some("src/main.rs".to_string());
    assert_eq!(loc.combined_typed_path(), Some("/home/user/project/src/main.rs".to_string()));
    loc.directory = Some("C:\\project".to_string());
    loc.file = Some("main.c".to_string());
    assert_eq!(loc.combined_typed_path(), Some("C:\\project\\main.c".to_string()));
    loc.directory = None;
    assert_eq!(loc.combined_typed_path(), None);
}
