use dwarf_x86::Argument;
use dwarf_x86::ArgumentLocation;
use dwarf_x86::AttrKind;
use dwarf_x86::AttrValue;
use dwarf_x86::ChildEntry;
use dwarf_x86::CompilationUnit;
use dwarf_x86::DebugEntry;
use dwarf_x86::DieAttr;
use dwarf_x86::DieTag;
use dwarf_x86::ExtractionError;
use dwarf_x86::Function;
use dwarf_x86::StringTable;
use dwarf_x86::X86Register;
use dwarf_x86::extract_functions;

fn name_attr(s: &str) -> DieAttr {
    DieAttr { kind: AttrKind::Name, value: AttrValue::InlineString(s.to_string()) }
}

fn low_pc_attr(a: u64) -> DieAttr {
    DieAttr { kind: AttrKind::LowPc, value: AttrValue::Address(a) }
}

fn location_attr(bytes: &[u8]) -> DieAttr {
    DieAttr { kind: AttrKind::Location, value: AttrValue::ExprLoc(bytes.to_vec()) }
}

fn param(name: &str, loc_bytes: &[u8]) -> ChildEntry {
    ChildEntry {
        tag: DieTag::FormalParameter,
        attrs: vec![name_attr(name), location_attr(loc_bytes)],
    }
}

fn subprogram(name: &str, addr: u64, children: Vec<ChildEntry>) -> DebugEntry {
    DebugEntry {
        tag: DieTag::Subprogram,
        attrs: vec![name_attr(name), low_pc_attr(addr)],
        children,
    }
}

fn no_strings() -> StringTable {
    StringTable { bytes: Vec::new() }
}

fn assert_same_functions(a: &[Function], b: &[Function]) {
    assert_eq!(a.len(), b.len());
    for (fa, fb) in a.iter().zip(b.iter()) {
        assert_eq!(fa.name, fb.name);
        assert_eq!(fa.start_address, fb.start_address);
        assert_eq!(fa.arguments.len(), fb.arguments.len());
        for (aa, ab) in fa.arguments.iter().zip(fb.arguments.iter()) {
            assert_eq!(aa.name, ab.name);
            assert_eq!(aa.location, ab.location);
        }
    }
}

fn arg_names(f: &Function) -> Vec<&str> {
    f.arguments.iter().map(|a: &Argument| a.name.as_str()).collect()
}

#[test]
fn extracts_main_with_its_arguments() {
    // main(argc, argv): argc passed in rdi, argv in rsi
    let units = vec![CompilationUnit {
        entries: vec![subprogram(
            "main",
            0x1040,
            vec![param("argc", &[0x55]), param("argv", &[0x54])],
        )],
    }];
    let fs = extract_functions(&units, &no_strings()).expect("extraction succeeds");
    assert_eq!(fs.len(), 1);
    assert_eq!(fs[0].name, "main");
    assert_eq!(fs[0].start_address, 0x1040);
    assert_eq!(arg_names(&fs[0]), vec!["argc", "argv"]);
    assert_eq!(
        fs[0].arguments[0].location,
        ArgumentLocation::Register(X86Register::rdi)
    );
    assert_eq!(
        fs[0].arguments[1].location,
        ArgumentLocation::Register(X86Register::rsi)
    );
}

#[test]
fn extracts_exactly_the_subprogram_entries() {
    let other = DebugEntry { tag: DieTag::Other, attrs: vec![name_attr("not_a_function")], children: vec![] };
    let units = vec![
        CompilationUnit {
            entries: vec![
                other,
                subprogram("main", 0x1000, vec![param("argc", &[0x55]), param("argv", &[0x54])]),
                subprogram("somefunc", 0x2000, vec![param("a", &[0x55]), param("b", &[0x54])]),
            ],
        },
        CompilationUnit {
            entries: vec![subprogram(
                "someOtherFunc",
                0x3000,
                vec![param("a", &[0x55]), param("b", &[0x54]), param("c", &[0x51])],
            )],
        },
    ];
    let fs = extract_functions(&units, &no_strings()).expect("extraction succeeds");
    assert_eq!(fs.len(), 3);
    assert_eq!(fs[0].name, "main");
    assert_eq!(fs[1].name, "somefunc");
    assert_eq!(fs[2].name, "someOtherFunc");
    assert_eq!(fs[0].arguments.len(), 2);
    assert_eq!(fs[1].arguments.len(), 2);
    assert_eq!(fs[2].arguments.len(), 3);
    assert_eq!(arg_names(&fs[2]), vec!["a", "b", "c"]);
}

#[test]
fn extraction_is_deterministic() {
    let units = vec![CompilationUnit {
        entries: vec![
            subprogram("f", 0x10, vec![param("x", &[0x91, 0x70]), param("y", &[0x50])]),
            subprogram("g", 0x20, vec![]),
        ],
    }];
    let first = extract_functions(&units, &no_strings()).expect("extraction succeeds");
    let second = extract_functions(&units, &no_strings()).expect("extraction succeeds");
    assert_same_functions(&first, &second);
}

#[test]
fn resolves_names_from_the_string_table() {
    let strings = StringTable { bytes: b"main\0argc\0".to_vec() };
    let entry = DebugEntry {
        tag: DieTag::Subprogram,
        attrs: vec![
            DieAttr { kind: AttrKind::Name, value: AttrValue::StringOffset(0) },
            low_pc_attr(0x400000),
        ],
        children: vec![ChildEntry {
            tag: DieTag::FormalParameter,
            attrs: vec![
                DieAttr { kind: AttrKind::Name, value: AttrValue::StringOffset(5) },
                location_attr(&[0x55]),
            ],
        }],
    };
    let units = vec![CompilationUnit { entries: vec![entry] }];
    let fs = extract_functions(&units, &strings).expect("extraction succeeds");
    assert_eq!(fs.len(), 1);
    assert_eq!(fs[0].name, "main");
    assert_eq!(arg_names(&fs[0]), vec!["argc"]);
}

#[test]
fn unresolvable_string_offset_fails() {
    // the offset points past the table, so the name cannot be read
    let strings = StringTable { bytes: b"main\0".to_vec() };
    let entry = DebugEntry {
        tag: DieTag::Subprogram,
        attrs: vec![
            DieAttr { kind: AttrKind::Name, value: AttrValue::StringOffset(99) },
            low_pc_attr(0x400000),
        ],
        children: vec![],
    };
    let units = vec![CompilationUnit { entries: vec![entry] }];
    match extract_functions(&units, &strings) {
        Err(ExtractionError::UnexpectedAttributeType { function, parameter, attribute }) => {
            assert_eq!(function, None);
            assert_eq!(parameter, None);
            assert_eq!(attribute, AttrKind::Name);
        }
        other => panic!("expected UnexpectedAttributeType, got {:?}", other),
    }
}

#[test]
fn missing_function_name_fails() {
    let entry = DebugEntry { tag: DieTag::Subprogram, attrs: vec![low_pc_attr(0x10)], children: vec![] };
    let units = vec![CompilationUnit { entries: vec![entry] }];
    match extract_functions(&units, &no_strings()) {
        Err(ExtractionError::MissingAttribute { function, parameter, attribute }) => {
            assert_eq!(function, None);
            assert_eq!(parameter, None);
            assert_eq!(attribute, AttrKind::Name);
        }
        other => panic!("expected MissingAttribute, got {:?}", other),
    }
}

#[test]
fn missing_start_address_fails() {
    let entry = DebugEntry { tag: DieTag::Subprogram, attrs: vec![name_attr("f")], children: vec![] };
    let units = vec![CompilationUnit { entries: vec![entry] }];
    match extract_functions(&units, &no_strings()) {
        Err(ExtractionError::MissingAttribute { function, parameter, attribute }) => {
            assert_eq!(function.as_deref(), Some("f"));
            assert_eq!(parameter, None);
            assert_eq!(attribute, AttrKind::LowPc);
        }
        other => panic!("expected MissingAttribute, got {:?}", other),
    }
}

#[test]
fn wrongly_shaped_start_address_fails() {
    let entry = DebugEntry {
        tag: DieTag::Subprogram,
        attrs: vec![
            name_attr("f"),
            DieAttr { kind: AttrKind::LowPc, value: AttrValue::InlineString("oops".to_string()) },
        ],
        children: vec![],
    };
    let units = vec![CompilationUnit { entries: vec![entry] }];
    match extract_functions(&units, &no_strings()) {
        Err(ExtractionError::UnexpectedAttributeType { function, attribute, .. }) => {
            assert_eq!(function.as_deref(), Some("f"));
            assert_eq!(attribute, AttrKind::LowPc);
        }
        other => panic!("expected UnexpectedAttributeType, got {:?}", other),
    }
}

#[test]
fn parameter_without_location_fails() {
    let child = ChildEntry { tag: DieTag::FormalParameter, attrs: vec![name_attr("a")] };
    let units = vec![CompilationUnit { entries: vec![subprogram("f", 0x10, vec![child])] }];
    match extract_functions(&units, &no_strings()) {
        Err(ExtractionError::MissingAttribute { function, parameter, attribute }) => {
            assert_eq!(function.as_deref(), Some("f"));
            assert_eq!(parameter.as_deref(), Some("a"));
            assert_eq!(attribute, AttrKind::Location);
        }
        other => panic!("expected MissingAttribute, got {:?}", other),
    }
}

#[test]
fn undecodable_location_fails() {
    let units = vec![CompilationUnit {
        entries: vec![subprogram("f", 0x10, vec![param("a", &[0x00])])],
    }];
    match extract_functions(&units, &no_strings()) {
        Err(ExtractionError::InvalidLocation { function, parameter }) => {
            assert_eq!(function, "f");
            assert_eq!(parameter, "a");
        }
        other => panic!("expected InvalidLocation, got {:?}", other),
    }
}

#[test]
fn out_of_range_register_fails() {
    let units = vec![CompilationUnit {
        entries: vec![subprogram("f", 0x10, vec![param("a", &[0x90, 0x14])])],
    }];
    match extract_functions(&units, &no_strings()) {
        Err(ExtractionError::InvalidRegister { function, parameter, register }) => {
            assert_eq!(function, "f");
            assert_eq!(parameter, "a");
            assert_eq!(register, 20);
        }
        other => panic!("expected InvalidRegister, got {:?}", other),
    }
}

#[test]
fn last_occurrence_of_a_repeated_attribute_wins() {
    let entry = DebugEntry {
        tag: DieTag::Subprogram,
        attrs: vec![name_attr("first"), low_pc_attr(0x10), name_attr("second")],
        children: vec![],
    };
    let units = vec![CompilationUnit { entries: vec![entry] }];
    let fs = extract_functions(&units, &no_strings()).expect("extraction succeeds");
    assert_eq!(fs[0].name, "second");
}

#[test]
fn children_with_other_tags_are_skipped() {
    let block = ChildEntry { tag: DieTag::Other, attrs: vec![name_attr("inner")] };
    let units = vec![CompilationUnit {
        entries: vec![subprogram(
            "f",
            0x10,
            vec![param("a", &[0x50]), block, param("b", &[0x51])],
        )],
    }];
    let fs = extract_functions(&units, &no_strings()).expect("extraction succeeds");
    assert_eq!(arg_names(&fs[0]), vec!["a", "b"]);
}

#[test]
fn empty_input_yields_no_functions() {
    let fs = extract_functions(&Vec::new(), &no_strings()).expect("extraction succeeds");
    assert!(fs.is_empty());
    let empty_unit = vec![CompilationUnit { entries: vec![] }];
    let fs = extract_functions(&empty_unit, &no_strings()).expect("extraction succeeds");
    assert!(fs.is_empty());
}

#[test]
fn string_table_resolution() {
    let strings = StringTable { bytes: b"one\0two\0".to_vec() };
    assert_eq!(strings.resolve(0).as_deref(), Some("one"));
    assert_eq!(strings.resolve(4).as_deref(), Some("two"));
    assert_eq!(strings.resolve(2).as_deref(), Some("e"));
    assert_eq!(strings.resolve(8), None);
    let unterminated = StringTable { bytes: b"abc".to_vec() };
    assert_eq!(unterminated.resolve(0), None);
}
