use probe_debug::{
    answer_request, get_object_reference, memory_value, next_halt, unwind, ByteOrder, ColumnType,
    CompilationUnit, DebugError, DebugIndex, EvalContext, EvalRequest, FunctionEntry, LineRow,
    ObjectRef, ObjectRefAllocator, RegisterSnapshot, ResumeValue, ScopeKind, StackImage,
    SteppingMode, VariableCache,
};

fn row(address: u64, line: u64, is_stmt: bool) -> LineRow {
    LineRow { address, line, column: ColumnType::Column(1), is_stmt }
}

fn fixture() -> DebugIndex {
    DebugIndex {
        units: vec![CompilationUnit {
            low_pc: 0x1000,
            high_pc: 0x1200,
            directory: Some("/work".to_string()),
            file: Some("main.rs".to_string()),
            rows: vec![
                row(0x1000, 10, true),
                row(0x1008, 11, true),
                row(0x1010, 12, true),
                row(0x1018, 13, false),
                row(0x1020, 14, true),
                row(0x1100, 30, true),
                row(0x1104, 31, true),
                row(0x110c, 32, true),
            ],
        }],
        functions: vec![
            FunctionEntry {
                name: "main".to_string(),
                low_pc: 0x1000,
                high_pc: 0x1100,
                cfa_offset: 16,
                return_address_offset: 4,
            },
            FunctionEntry {
                name: "inner".to_string(),
                low_pc: 0x1100,
                high_pc: 0x1200,
                cfa_offset: 8,
                return_address_offset: 4,
            },
        ],
    }
}

fn put_word(bytes: &mut [u8], off: usize, v: u32) {
    bytes[off..off + 4].copy_from_slice(&v.to_le_bytes());
}

fn two_frame_stack() -> StackImage {
    let mut bytes = vec![0u8; 0x20];
    // inner: CFA 0x2000_0F08, return address at 0x2000_0F04, into main.
    put_word(&mut bytes, 0x04, 0x1010);
    // main: CFA 0x2000_0F18, return address at 0x2000_0F14 is zero.
    put_word(&mut bytes, 0x14, 0);
    StackImage { start: 0x2000_0F00, bytes }
}

#[test]
fn unwind_two_function_chain() {
    let index = fixture();
    let mut alloc = ObjectRefAllocator::new();
    let snap = RegisterSnapshot { pc: 0x1104, sp: 0x2000_0F00 };
    let r = unwind(&index, &two_frame_stack(), snap, 16, &mut alloc);
    assert!(r.incomplete.is_none());
    assert_eq!(r.frames.len(), 2);
    assert_eq!(r.frames[0].registers.pc, 0x1104);
    assert_eq!(r.frames[0].cfa, 0x2000_0F08);
    assert_eq!(r.frames[0].function, Some(1));
    assert_eq!(r.frames[1].registers.pc, 0x1010);
    assert_eq!(r.frames[1].registers.sp, 0x2000_0F08);
    assert_eq!(r.frames[1].cfa, 0x2000_0F18);
    assert_eq!(r.frames[1].function, Some(0));
    assert_eq!(r.frames[0].location.as_ref().unwrap().line, Some(31));
    assert_eq!(r.frames[1].location.as_ref().unwrap().line, Some(12));
    assert_eq!(r.frames[0].location.as_ref().unwrap().low_pc, Some(0x1100));
    assert_eq!(r.frames[0].id, ObjectRef::Valid(1));
    assert_eq!(r.frames[1].id, ObjectRef::Valid(2));
}

#[test]
fn unwind_cyclic_return_addresses_is_bounded() {
    let index = fixture();
    let mut alloc = ObjectRefAllocator::new();
    // Every saved return address points back into inner.
    let mut bytes = vec![0u8; 0x400];
    for off in (0..0x400).step_by(4) {
        put_word(&mut bytes, off, 0x1104);
    }
    let image = StackImage { start: 0x2000_0000, bytes };
    let snap = RegisterSnapshot { pc: 0x1104, sp: 0x2000_0000 };
    let r = unwind(&index, &image, snap, 5, &mut alloc);
    assert_eq!(r.frames.len(), 5);
    assert!(matches!(r.incomplete, Some(DebugError::UnwindIncompleteResults { .. })));
    for w in r.frames.windows(2) {
        assert!(w[0].cfa < w[1].cfa);
    }
}

#[test]
fn unwind_without_debug_information_keeps_innermost_frame() {
    let index = fixture();
    let mut alloc = ObjectRefAllocator::new();
    let snap = RegisterSnapshot { pc: 0x9000, sp: 0x2000_0F00 };
    let r = unwind(&index, &two_frame_stack(), snap, 16, &mut alloc);
    assert_eq!(r.frames.len(), 1);
    assert_eq!(r.frames[0].cfa, 0x2000_0F00);
    assert!(r.frames[0].location.is_none());
    assert!(matches!(r.incomplete, Some(DebugError::UnwindIncompleteResults { .. })));
}

#[test]
fn unwind_stops_where_memory_is_missing() {
    let index = fixture();
    let mut alloc = ObjectRefAllocator::new();
    let image = StackImage { start: 0x2000_0F00, bytes: vec![0u8; 4] };
    let snap = RegisterSnapshot { pc: 0x1104, sp: 0x2000_0F00 };
    let r = unwind(&index, &image, snap, 16, &mut alloc);
    assert_eq!(r.frames.len(), 1);
    assert!(r.incomplete.is_some());
}

#[test]
fn debug_index_lookups() {
    let index = fixture();
    assert_eq!(index.function_at(0x1000), Some(0));
    assert_eq!(index.function_at(0x10ff), Some(0));
    assert_eq!(index.function_at(0x1100), Some(1));
    assert_eq!(index.function_at(0x1200), None);
    let loc = index.source_location_at(0x100c).unwrap();
    assert_eq!(loc.line, Some(11));
    assert_eq!(loc.file.as_deref(), Some("main.rs"));
    assert_eq!(loc.directory.as_deref(), Some("/work"));
    assert_eq!(loc.high_pc, Some(0x1100));
    assert!(index.source_location_at(0x0fff).is_none());
}

fn ctx() -> EvalContext {
    EvalContext { byte_order: ByteOrder::Big, frame_base: Some(0x2000_0F08), registers: vec![(13, 0x2000_0F00), (15, 0x1104)] }
}

fn eval_memory() -> StackImage {
    StackImage { start: 0x100, bytes: vec![0x12, 0x34, 0x56, 0x78, 0x9a] }
}

#[test]
fn evaluator_answers_requests() {
    let m = eval_memory();
    let c = ctx();
    assert_eq!(answer_request(&EvalRequest::Complete, &c, &m).unwrap(), None);
    assert_eq!(
        answer_request(&EvalRequest::Memory { address: 0x100, size: 1 }, &c, &m).unwrap(),
        Some(ResumeValue::U8(0x12))
    );
    assert_eq!(
        answer_request(&EvalRequest::Memory { address: 0x101, size: 2 }, &c, &m).unwrap(),
        Some(ResumeValue::U16(0x3456))
    );
    assert_eq!(
        answer_request(&EvalRequest::Memory { address: 0x100, size: 4 }, &c, &m).unwrap(),
        Some(ResumeValue::U32(0x1234_5678))
    );
    assert_eq!(
        answer_request(&EvalRequest::FrameBase, &c, &m).unwrap(),
        Some(ResumeValue::FrameBase(0x2000_0F08))
    );
    assert_eq!(
        answer_request(&EvalRequest::Register { register: 15, base_type: 0 }, &c, &m).unwrap(),
        Some(ResumeValue::Generic(0x1104))
    );
    assert_eq!(
        answer_request(&EvalRequest::RelocatedAddress(0x40), &c, &m).unwrap(),
        Some(ResumeValue::RelocatedAddress(0x40))
    );
}

#[test]
fn evaluator_errors() {
    let m = eval_memory();
    let c = ctx();
    let no_base = EvalContext { byte_order: ByteOrder::Little, frame_base: None, registers: vec![] };
    assert!(matches!(
        answer_request(&EvalRequest::Memory { address: 0x100, size: 3 }, &c, &m),
        Err(DebugError::Other(_))
    ));
    assert!(answer_request(&EvalRequest::Memory { address: 0x103, size: 4 }, &c, &m).is_err());
    assert!(answer_request(&EvalRequest::Memory { address: 0x0ff, size: 1 }, &c, &m).is_err());
    assert!(answer_request(&EvalRequest::FrameBase, &no_base, &m).is_err());
    assert!(answer_request(&EvalRequest::Register { register: 3, base_type: 0 }, &c, &m).is_err());
    assert!(answer_request(&EvalRequest::Register { register: 15, base_type: 8 }, &c, &m).is_err());
}

#[test]
fn evaluator_is_deterministic() {
    let m = eval_memory();
    let c = ctx();
    let reqs = [
        EvalRequest::Register { register: 13, base_type: 0 },
        EvalRequest::Memory { address: 0x102, size: 2 },
        EvalRequest::FrameBase,
    ];
    let first: Vec<_> = reqs.iter().map(|r| answer_request(r, &c, &m).unwrap()).collect();
    let second: Vec<_> = reqs.iter().map(|r| answer_request(r, &c, &m).unwrap()).collect();
    assert_eq!(first, second);
}

#[test]
fn memory_value_sizes() {
    let big = ByteOrder::Big;
    let little = ByteOrder::Little;
    assert_eq!(memory_value(1, &vec![0xab], little).unwrap(), ResumeValue::U8(0xab));
    assert_eq!(memory_value(2, &vec![0x01, 0x02], big).unwrap(), ResumeValue::U16(0x0102));
    assert_eq!(memory_value(4, &vec![1, 2, 3, 4], big).unwrap(), ResumeValue::U32(0x0102_0304));
    assert_eq!(memory_value(2, &vec![0x01, 0x02], little).unwrap(), ResumeValue::U16(0x0201));
    assert_eq!(memory_value(4, &vec![1, 0, 0, 0], little).unwrap(), ResumeValue::U32(1));
    assert_eq!(memory_value(4, &vec![1, 2, 3, 4], little).unwrap(), ResumeValue::U32(0x0403_0201));
    for size in [0u8, 3, 5, 8] {
        let bytes = vec![0u8; size as usize];
        assert!(matches!(memory_value(size, &bytes, little), Err(DebugError::Other(_))));
        assert!(matches!(memory_value(size, &bytes, big), Err(DebugError::Other(_))));
    }
    assert!(memory_value(2, &vec![1], little).is_err());
}

fn children(names: &[&str]) -> Vec<(String, String)> {
    names.iter().map(|n| (n.to_string(), "0".to_string())).collect()
}

#[test]
fn variable_cache_children_are_stable() {
    let mut alloc = ObjectRefAllocator::new();
    let frame = get_object_reference(&mut alloc);
    let mut cache = VariableCache::new();
    let root = cache.root_for_scope(frame, ScopeKind::Locals, &mut alloc);
    assert_eq!(cache.root_for_scope(frame, ScopeKind::Locals, &mut alloc), root);
    let statics = cache.root_for_scope(frame, ScopeKind::Statics, &mut alloc);
    assert_ne!(statics, root);
    let first = cache.children_of(root, &children(&["a", "b", "c"]), &mut alloc).unwrap();
    assert_eq!(first.len(), 3);
    let second = cache.children_of(root, &children(&["x"]), &mut alloc).unwrap();
    assert_eq!(first, second);
    assert_eq!(cache.get(first[1]).unwrap().name, "b");
    assert_eq!(cache.get(first[1]).unwrap().parent, root);
    assert!(cache.children_of(ObjectRef::Valid(999), &children(&["a"]), &mut alloc).is_none());
}

#[test]
fn variable_cache_cleared_on_resume() {
    let mut alloc = ObjectRefAllocator::new();
    let frame = get_object_reference(&mut alloc);
    let mut cache = VariableCache::new();
    let root = cache.root_for_scope(frame, ScopeKind::Registers, &mut alloc);
    let kids = cache.children_of(root, &children(&["r0", "r1"]), &mut alloc).unwrap();
    cache.clear();
    let frame2 = get_object_reference(&mut alloc);
    let root2 = cache.root_for_scope(frame2, ScopeKind::Registers, &mut alloc);
    let kids2 = cache.children_of(root2, &children(&["r0", "r1"]), &mut alloc).unwrap();
    assert!(cache.get(root).is_none());
    for k in &kids {
        assert!(cache.get(*k).is_none());
        assert!(!kids2.contains(k));
    }
    assert!(cache.get(root2).is_some());
}

#[test]
fn halt_locations() {
    let index = fixture();
    let b = next_halt(&index, 0x1004, SteppingMode::BreakPoint, None).unwrap();
    assert_eq!(b.address, 0x1008);
    assert_eq!(b.location.line, Some(11));
    let o = next_halt(&index, 0x1010, SteppingMode::OverStatement, None).unwrap();
    // 0x1018 is not a statement boundary.
    assert_eq!(o.address, 0x1020);
    let i = next_halt(&index, 0x1100, SteppingMode::IntoStatement, None).unwrap();
    assert_eq!(i.address, 0x1100);
    let out = next_halt(&index, 0x1104, SteppingMode::OutOfStatement, Some(0x100c)).unwrap();
    assert_eq!(out.address, 0x1010);
    assert_eq!(out.location.file.as_deref(), Some("main.rs"));
}

#[test]
fn halt_location_errors_name_the_pc() {
    let index = fixture();
    for (pc, mode, ra) in [
        (0x5000u64, SteppingMode::BreakPoint, None),
        (0x1020, SteppingMode::OverStatement, None),
        (0x1104, SteppingMode::OutOfStatement, None),
        (0x1104, SteppingMode::OutOfStatement, Some(0x7000)),
    ] {
        match next_halt(&index, pc, mode, ra) {
            Err(DebugError::NoValidHaltLocation { pc_at_error, .. }) => assert_eq!(pc_at_error, pc),
            other => panic!("unexpected {:?}", other),
        }
    }
}

#[test]
fn evaluator_little_endian_memory() {
    let m = eval_memory();
    let c = EvalContext { byte_order: ByteOrder::Little, frame_base: None, registers: vec![] };
    assert_eq!(
        answer_request(&EvalRequest::Memory { address: 0x101, size: 2 }, &c, &m).unwrap(),
        Some(ResumeValue::U16(0x5634))
    );
    assert_eq!(
        answer_request(&EvalRequest::Memory { address: 0x100, size: 4 }, &c, &m).unwrap(),
        Some(ResumeValue::U32(0x7856_3412))
    );
}

#[test]
fn innermost_function_wins_on_overlap() {
    let mut index = fixture();
    index.functions.push(FunctionEntry {
        name: "inlined".to_string(),
        low_pc: 0x1008,
        high_pc: 0x1010,
        cfa_offset: 16,
        return_address_offset: 4,
    });
    index.functions.push(FunctionEntry {
        name: "inlined_twin".to_string(),
        low_pc: 0x1008,
        high_pc: 0x1010,
        cfa_offset: 16,
        return_address_offset: 4,
    });
    assert_eq!(index.function_at(0x100c), Some(2));
    assert_eq!(index.function_at(0x1004), Some(0));
}

#[test]
fn repeated_children_requests_draw_no_handles() {
    let mut alloc = ObjectRefAllocator::new();
    let frame = get_object_reference(&mut alloc);
    let mut cache = VariableCache::new();
    let root = cache.root_for_scope(frame, ScopeKind::Locals, &mut alloc);
    let first = cache.children_of(root, &children(&["a", "b"]), &mut alloc).unwrap();
    let probe_before = get_object_reference(&mut alloc);
    let second = cache.children_of(root, &children(&["a", "b"]), &mut alloc).unwrap();
    let probe_after = get_object_reference(&mut alloc);
    assert_eq!(first, second);
    assert_eq!(i64::from(probe_after), i64::from(probe_before) + 1);
    assert_eq!(cache.get(first[0]).unwrap().value, "0");
}

#[test]
fn unwind_stops_at_unresolved_source_location() {
    let mut index = fixture();
    // A function outside every unit: its frames have no source location.
    index.functions.push(FunctionEntry {
        name: "foreign".to_string(),
        low_pc: 0x3000,
        high_pc: 0x3100,
        cfa_offset: 8,
        return_address_offset: 4,
    });
    let mut alloc = ObjectRefAllocator::new();
    let snap = RegisterSnapshot { pc: 0x3004, sp: 0x2000_0F00 };
    let r = unwind(&index, &two_frame_stack(), snap, 16, &mut alloc);
    assert_eq!(r.frames.len(), 1);
    assert_eq!(r.frames[0].cfa, 0x2000_0F08);
    assert!(r.frames[0].location.is_none());
    assert!(matches!(r.incomplete, Some(DebugError::UnwindIncompleteResults { .. })));
}
