use bg3_debug_tool::mapper::{asm_resolve_instruction_ref, ModuleInfo, SymbolMapper};
use bg3_debug_tool::mappings::{
    calculate_offset, BinaryMappings, Condition, ConditionValue, MappingError, MappingOrDllImport,
    Patch, Target, TargetType, TargetValue, TargetsOrPatch,
};
use bg3_debug_tool::pattern::Pattern;
use bg3_debug_tool::symbols::{StaticSymbolName, StaticSymbols, SymbolError};
use bg3_debug_tool::xml;

fn target(ty: xml::TargetType, offset: &str, symbol: Option<&str>) -> xml::Target {
    xml::Target {
        ty,
        offset: offset.to_string(),
        symbol: symbol.map(|s| s.to_string()),
        next_symbol: None,
        next_symbol_seek_size: None,
        engine_callback: None,
    }
}

#[test]
fn offsets_by_anchor_and_number() {
    let p = Pattern::try_from("48 @a 8B @b 05").unwrap();
    assert_eq!(calculate_offset("@a", &p).unwrap(), 1);
    assert_eq!(calculate_offset("@b", &p).unwrap(), 2);
    assert_eq!(calculate_offset("17", &p).unwrap(), 17);
    assert_eq!(calculate_offset("-3", &p).unwrap(), -3);
    assert_eq!(calculate_offset("+4", &p).unwrap(), 4);
    // A leading "0x" is dropped and the rest read as decimal.
    assert_eq!(calculate_offset("0x10", &p).unwrap(), 10);
}

#[test]
fn offset_errors() {
    let p = Pattern::try_from("48 @a 8B").unwrap();
    match calculate_offset("@zz", &p) {
        Err(MappingError::AnchorNotFound(s)) => assert_eq!(s, "@zz"),
        other => panic!("unexpected {:?}", other),
    }
    match calculate_offset("1f", &p) {
        Err(MappingError::BadOffset(s)) => assert_eq!(s, "1f"),
        other => panic!("unexpected {:?}", other),
    }
    match calculate_offset("", &p) {
        Err(MappingError::BadOffset(s)) => assert_eq!(s, ""),
        other => panic!("unexpected {:?}", other),
    }
    match calculate_offset("99999999999999999999", &p) {
        Err(MappingError::BadOffset(_)) => {}
        other => panic!("unexpected {:?}", other),
    }
}

#[test]
fn targets_read_from_entries() {
    let p = Pattern::try_from("48 @x 8B").unwrap();
    let t = Target::from_parsed(target(xml::TargetType::Indirect, "@x", Some("Sym")), &p).unwrap();
    assert_eq!(t.ty, TargetType::Indirect);
    assert_eq!(t.offset, 1);
    match t.value {
        TargetValue::Symbol(s) => assert_eq!(s, "Sym"),
        other => panic!("unexpected {:?}", other),
    }
    let mut both = target(xml::TargetType::Absolute, "0", Some("Sym"));
    both.engine_callback = Some("Cb".to_string());
    assert!(matches!(Target::from_parsed(both, &p), Err(MappingError::UnexpectedTarget)));
    let mut next = target(xml::TargetType::Absolute, "2", None);
    next.next_symbol = Some("Next".to_string());
    next.next_symbol_seek_size = Some("@x".to_string());
    match Target::from_parsed(next, &p).unwrap().value {
        TargetValue::NextSymbol { value, offset } => {
            assert_eq!(value, "Next");
            assert_eq!(offset, 1);
        }
        other => panic!("unexpected {:?}", other),
    }
}

#[test]
fn conditions_and_patches_read_offsets() {
    let p = Pattern::try_from("48 @x 8B").unwrap();
    let c = Condition::from_parsed(
        xml::Condition {
            ty: xml::ConditionType::FixedString,
            offset: "@x".to_string(),
            value: "abc".to_string(),
        },
        &p,
    )
    .unwrap();
    assert_eq!(c.offset, 1);
    assert!(matches!(c.value, ConditionValue::String(ref v) if v == "abc"));
    let patch = Patch::from_parsed(
        xml::Patch { ty: xml::PatchType::Absolute, offset: "5".to_string(), text: "90 90".to_string() },
        &p,
    )
    .unwrap();
    assert_eq!(patch.offset, 5);
    assert_eq!(patch.text, "90 90");
}

fn mapping(name: &str, props: Vec<xml::MappingProperty>) -> xml::Mapping {
    xml::Mapping { name: name.to_string(), critical: true, allow_fail: false, scope: xml::MappingScope::Text, props }
}

#[test]
fn mappings_need_a_pattern_and_one_kind_of_action() {
    let no_pattern = mapping("A", vec![xml::MappingProperty::Target(target(xml::TargetType::Absolute, "0", Some("S")))]);
    match bg3_debug_tool::mappings::Mapping::try_from(no_pattern) {
        Err(MappingError::NoPattern(n)) => assert_eq!(n, "A"),
        other => panic!("unexpected {:?}", other),
    }
    let neither = mapping("B", vec![xml::MappingProperty::Pattern("48".to_string())]);
    match bg3_debug_tool::mappings::Mapping::try_from(neither) {
        Err(MappingError::TargetsOrPatch(n)) => assert_eq!(n, "B"),
        other => panic!("unexpected {:?}", other),
    }
    let bad = mapping("C", vec![xml::MappingProperty::Pattern("4".to_string())]);
    assert!(matches!(bg3_debug_tool::mappings::Mapping::try_from(bad), Err(MappingError::Pattern(_))));
    let ok = mapping(
        "D",
        vec![
            xml::MappingProperty::Pattern("48 8B".to_string()),
            xml::MappingProperty::Target(target(xml::TargetType::Absolute, "0", Some("S"))),
        ],
    );
    let m = bg3_debug_tool::mappings::Mapping::try_from(ok).unwrap();
    assert_eq!(m.name, "D");
    assert!(matches!(m.targets_or_patch, TargetsOrPatch::Targets(ref ts) if ts.len() == 1));
}

#[test]
fn dll_imports_name_known_symbols() {
    let ok = xml::DllImport {
        module: "m.dll".to_string(),
        proc: "p".to_string(),
        symbol: "ls__FixedString__IncRef".to_string(),
    };
    let d = bg3_debug_tool::mappings::DllImport::try_from(ok).unwrap();
    assert_eq!(d.symbol, StaticSymbolName::ls__FixedString__IncRef);
    let unknown = xml::DllImport { module: "m".to_string(), proc: "p".to_string(), symbol: "Nope".to_string() };
    match bg3_debug_tool::mappings::DllImport::try_from(unknown) {
        Err(MappingError::Symbol(SymbolError::Unknown(s))) => assert_eq!(s, "Nope"),
        other => panic!("unexpected {:?}", other),
    }
}

#[test]
fn symbols_bind_once() {
    let mut s = StaticSymbols::new();
    assert_eq!(s.get(StaticSymbolName::ls__FixedString__GetString), None);
    assert!(s.set("ls__FixedString__GetString", 0x1000).is_ok());
    assert_eq!(s.get(StaticSymbolName::ls__FixedString__GetString), Some(0x1000));
    assert!(matches!(s.set("ls__FixedString__GetString", 0x2000), Err(SymbolError::AlreadyBound(_))));
    assert_eq!(s.get(StaticSymbolName::ls__FixedString__GetString), Some(0x1000));
    assert!(matches!(s.set("NotASymbol", 1), Err(SymbolError::Unknown(_))));
}

#[test]
fn symbol_names_round_trip() {
    for i in 0..bg3_debug_tool::symbols::NUM_STATIC_SYMBOLS {
        let n = StaticSymbolName::from_index(i);
        assert_eq!(n.index(), i);
        assert_eq!(StaticSymbolName::from_str(n.name()).unwrap(), n);
    }
    assert_eq!(StaticSymbolName::ls__gTextureAtlasMap.name(), "ls__gTextureAtlasMap");
}

#[test]
fn instruction_references_resolve() {
    // mov rax, [rip+0x10] at offset 1; the target is 1 + 7 + 0x10.
    let mem = [0x90, 0x48, 0x8B, 0x05, 0x10, 0x00, 0x00, 0x00, 0x90];
    assert_eq!(asm_resolve_instruction_ref(&mem, 0x1000, 1), Some(0x1000 + 1 + 7 + 0x10));
    // call rel32 with a negative displacement.
    let call = [0xE8, 0xFB, 0xFF, 0xFF, 0xFF];
    assert_eq!(asm_resolve_instruction_ref(&call, 0x2000, 0), Some(0x2000));
    // an instruction of another kind, or one cut short
    assert_eq!(asm_resolve_instruction_ref(&[0x90, 0x90, 0x90], 0, 0), None);
    assert_eq!(asm_resolve_instruction_ref(&[0xE8, 0x00], 0, 0), None);
}

#[test]
fn mapper_binds_indirect_targets() {
    let doc = xml::BinaryMappings {
        mappings: xml::Mappings {
            version: "1".to_string(),
            default: true,
            inner: vec![
                xml::MappingOrDllImport::Mapping(mapping(
                    "GetString",
                    vec![
                        xml::MappingProperty::Pattern("48 8B 05 ?? ?? ?? ??".to_string()),
                        xml::MappingProperty::Target(target(
                            xml::TargetType::Indirect,
                            "0",
                            Some("ls__FixedString__GetString"),
                        )),
                    ],
                )),
                xml::MappingOrDllImport::DllImport(xml::DllImport {
                    module: "m".to_string(),
                    proc: "p".to_string(),
                    symbol: "ls__FixedString__IncRef".to_string(),
                }),
            ],
        },
    };
    let mappings = BinaryMappings::try_from(doc).unwrap();
    assert_eq!(mappings.data.len(), 2);
    assert!(matches!(mappings.data[1], MappingOrDllImport::DllImport(_)));
    let text = vec![0x90, 0x48, 0x8B, 0x05, 0x10, 0x00, 0x00, 0x00, 0x90];
    let module = ModuleInfo { start: 0x400000, size: 0x100000, text_start: 0x401000, text_size: text.len() };
    let mut mapper = SymbolMapper::new(module);
    mapper.populate_mappings(mappings, &text);
    assert_eq!(
        mapper.static_symbols.get(StaticSymbolName::ls__FixedString__GetString),
        Some(0x401000 + 1 + 7 + 0x10)
    );
    assert_eq!(mapper.static_symbols.get(StaticSymbolName::ls__FixedString__IncRef), None);
}

use bg3_debug_tool::mapper::SectionHeader;

fn section(name: &[u8], virtual_address: u32, size_of_raw_data: u32) -> SectionHeader {
    let mut n = [0u8; 8];
    n[..name.len()].copy_from_slice(name);
    SectionHeader { name: n, virtual_address, size_of_raw_data }
}

#[test]
fn code_section_comes_from_the_section_headers() {
    let headers = [section(b".text", 0x1000, 0x5000), section(b".rdata", 0x6000, 0x800)];
    let m = ModuleInfo::from_sections(0x4000_0000, 0x10000, &headers);
    assert_eq!((m.start, m.size, m.text_start, m.text_size), (0x4000_0000, 0x10000, 0x4000_1000, 0x5000));

    // a `.text` header further on still reads the first header's place and size
    let later = [section(b".rdata", 0x2000, 0x300), section(b".text", 0x1000, 0x5000)];
    let m = ModuleInfo::from_sections(0x100, 0x9000, &later);
    assert_eq!((m.text_start, m.text_size), (0x2100, 0x300));

    // without a code section the whole image is scanned
    let none = [section(b".data", 0x2000, 0x300)];
    let m = ModuleInfo::from_sections(0x100, 0x9000, &none);
    assert_eq!((m.text_start, m.text_size), (0x100, 0x9000));
    let m = ModuleInfo::from_sections(0x100, 0x9000, &[]);
    assert_eq!((m.text_start, m.text_size), (0x100, 0x9000));
}

use bg3_debug_tool::gpu_memory::{is_mapped, MemoryProperties, DEVICE_LOCAL};

#[test]
fn memory_type_is_the_first_accepted_one_with_all_properties() {
    let props = MemoryProperties { type_flags: vec![DEVICE_LOCAL, 0b110, 0b111, 0b110] };
    assert_eq!(props.mem_type(0b1111, 0b110), Some(1));
    assert_eq!(props.mem_type(0b1101, 0b110), Some(2));
    assert_eq!(props.mem_type(0b1111, DEVICE_LOCAL), Some(0));
    assert_eq!(props.mem_type(0b0010, DEVICE_LOCAL), None);
    assert_eq!(props.mem_type(0, 0), None);
    assert!(is_mapped(0b110));
    assert!(!is_mapped(DEVICE_LOCAL));
}
