use cabi_rustgen::bindgen::FunctionBindgen;
use cabi_rustgen::canon::{pack_flags, unpack_flags};
use cabi_rustgen::emitter::{
    generate_guest_import, generate_stub, Opts, Ownership,
};
use cabi_rustgen::instr::{Instruction, WasmType};
use cabi_rustgen::layout::{align_of, flag_words, flags_repr, int_repr, size_of, tag_size};
use cabi_rustgen::model::{
    dealias, group_by_resource, Field, FnKind, Function, Graph, PackageName, Ty, TypeDef,
    TypeDefKind,
};
use cabi_rustgen::names::to_rust_ident;
use cabi_rustgen::registry::{Direction, ResourceRegistry};

fn empty_graph() -> Graph {
    Graph { types: Vec::new(), interfaces: Vec::new(), packages: Vec::new(), worlds: Vec::new() }
}

fn record_string_graph() -> Graph {
    // types[0] = record { a: u32, b: string }
    let mut g = empty_graph();
    g.types.push(TypeDef {
        name: Some("rec".to_string()),
        kind: TypeDefKind::Record(vec![
            Field { name: "a".to_string(), ty: Ty::U32 },
            Field { name: "b".to_string(), ty: Ty::Str },
        ]),
    });
    g
}

#[test]
fn flag_word_counts() {
    assert_eq!(flag_words(0), 0);
    assert_eq!(flag_words(1), 1);
    assert_eq!(flag_words(32), 1);
    assert_eq!(flag_words(33), 2);
    assert_eq!(flag_words(64), 2);
    assert_eq!(flag_words(65), 3);
}

#[test]
fn flags_pack_unpack_round_trip() {
    let mut bits = Vec::new();
    for i in 0..40usize {
        bits.push(i % 3 == 0 || i == 39);
    }
    let words = pack_flags(&bits);
    assert_eq!(words.len(), 2);
    let back = unpack_flags(&words, 40);
    assert_eq!(back, bits);
}

#[test]
fn flags_pack_empty_and_single() {
    let bits: Vec<bool> = Vec::new();
    let words = pack_flags(&bits);
    assert_eq!(words.len(), 0);
    let one = vec![true];
    let words1 = pack_flags(&one);
    assert_eq!(words1, vec![1u32]);
    assert_eq!(unpack_flags(&words1, 1), vec![true]);
}

#[test]
fn layout_of_record_with_string() {
    let g = record_string_graph();
    assert_eq!(size_of(&g, &Ty::Id(0)), 12);
    assert_eq!(align_of(&g, &Ty::Id(0)), 4);
}

#[test]
fn layout_of_scalars_and_strings() {
    let g = empty_graph();
    assert_eq!(size_of(&g, &Ty::Bool), 1);
    assert_eq!(size_of(&g, &Ty::U64), 8);
    assert_eq!(align_of(&g, &Ty::Str), 4);
    assert_eq!(size_of(&g, &Ty::Str), 8);
}

#[test]
fn layout_of_variant_and_flags() {
    let mut g = empty_graph();
    g.types.push(TypeDef {
        name: Some("v".to_string()),
        kind: TypeDefKind::Variant(vec![
            cabi_rustgen::model::Case { name: "none".to_string(), ty: None },
            cabi_rustgen::model::Case { name: "some".to_string(), ty: Some(Ty::U32) },
        ]),
    });
    let mut names = Vec::new();
    for i in 0..33usize {
        names.push(format!("f{}", i));
    }
    g.types.push(TypeDef { name: Some("fl".to_string()), kind: TypeDefKind::Flags(names) });
    assert_eq!(size_of(&g, &Ty::Id(0)), 8);
    assert_eq!(align_of(&g, &Ty::Id(0)), 4);
    assert_eq!(size_of(&g, &Ty::Id(1)), 8);
    assert_eq!(align_of(&g, &Ty::Id(1)), 4);
    assert_eq!(flags_repr(33), "u64");
    assert_eq!(tag_size(2), 1);
    assert_eq!(int_repr(2), "u8");
}

#[test]
fn dealias_follows_chains() {
    let mut g = empty_graph();
    g.types.push(TypeDef { name: Some("base".to_string()), kind: TypeDefKind::Resource });
    g.types.push(TypeDef { name: None, kind: TypeDefKind::Alias(Ty::Id(0)) });
    g.types.push(TypeDef { name: None, kind: TypeDefKind::Alias(Ty::Id(1)) });
    assert_eq!(dealias(&g, 2), 0);
    assert_eq!(dealias(&g, 1), 0);
    assert_eq!(dealias(&g, 0), 0);
}

#[test]
fn rust_idents_escape_keywords() {
    assert_eq!(to_rust_ident("type"), "type_");
    assert_eq!(to_rust_ident("foo-bar"), "foo_bar");
    assert_eq!(to_rust_ident("loop"), "loop_");
}

fn func(name: &str, kind: FnKind) -> Function {
    Function { name: name.to_string(), kind, params: Vec::new(), results: Vec::new() }
}

#[test]
fn grouping_by_resource_is_stable_and_sorted() {
    let funcs = vec![
        func("m1", FnKind::Method(5)),
        func("free", FnKind::Freestanding),
        func("s1", FnKind::Static(5)),
        func("c2", FnKind::Constructor(2)),
    ];
    let groups = group_by_resource(&funcs);
    assert_eq!(groups.len(), 3);
    assert_eq!(groups[0].0, None);
    assert_eq!(groups[0].1, vec![1]);
    assert_eq!(groups[1].0, Some(2));
    assert_eq!(groups[1].1, vec![3]);
    assert_eq!(groups[2].0, Some(5));
    assert_eq!(groups[2].1, vec![0, 2]);
}

#[test]
fn resource_direction_promotes_and_sticks() {
    let mut reg = ResourceRegistry::new(3);
    reg.classify(1, false, None);
    assert_eq!(reg.direction(1), Some(Direction::Import));
    assert!(!reg.is_exported(1));
    reg.classify(1, true, None);
    assert!(reg.is_exported(1));
    // a later import-side sighting never demotes
    reg.classify(1, false, None);
    assert!(reg.is_exported(1));
    reg.register_own_handle(1, 2);
    assert!(reg.is_exported(1));
    assert_eq!(reg.own_handle(1), Some(2));
}

#[test]
fn handle_lift_follows_direction() {
    let mut reg = ResourceRegistry::new(1);
    reg.classify(0, false, None);
    let mut fb = FunctionBindgen::new(
        vec!["arg0".to_string()],
        None,
        true,
        Some("imports".to_string()),
        false,
        true,
    );
    let seq = vec![
        Instruction::GetArg { nth: 0 },
        Instruction::HandleLift { own: true, resource: 0, path: "Res".to_string() },
        Instruction::Return { amt: 1 },
    ];
    let r = fb.run(&reg, &seq);
    assert!(r.is_some());
    let imported = fb.src.into_string();
    assert!(imported.contains("Res::from_handle(arg0, true)"));

    reg.classify(0, true, None);
    let mut fb2 = FunctionBindgen::new(
        vec!["arg0".to_string()],
        None,
        true,
        Some("imports".to_string()),
        false,
        true,
    );
    let r2 = fb2.run(&reg, &seq);
    assert!(r2.is_some());
    let exported = fb2.src.into_string();
    assert!(exported.contains("OwnRes::from_handle(arg0)"));
}

#[test]
fn store_instruction_text_is_exact() {
    let reg = ResourceRegistry::new(0);
    let mut fb = FunctionBindgen::new(
        vec!["p0".to_string(), "p1".to_string()],
        None,
        true,
        Some("m".to_string()),
        false,
        true,
    );
    let seq = vec![
        Instruction::GetArg { nth: 0 },
        Instruction::GetArg { nth: 1 },
        Instruction::I32Store { offset: 4 },
    ];
    let r = fb.run(&reg, &seq);
    assert!(r.is_some());
    assert_eq!(fb.src.into_string(), "*((p1 + 4) as *mut i32) = p0;\n");
}

#[test]
fn checked_mode_validates_bool() {
    let reg = ResourceRegistry::new(0);
    let mut fb = FunctionBindgen::new(
        vec!["x".to_string()],
        None,
        true,
        Some("m".to_string()),
        false,
        true,
    );
    let seq = vec![Instruction::GetArg { nth: 0 }, Instruction::BoolFromI32];
    let r = fb.run(&reg, &seq).unwrap();
    assert_eq!(
        r[0],
        "match x { 0 => false, 1 => true, _ => panic!(\"invalid bool discriminant\") }"
    );
    let mut fb2 = FunctionBindgen::new(
        vec!["x".to_string()],
        None,
        true,
        Some("m".to_string()),
        false,
        false,
    );
    let r2 = fb2.run(&reg, &seq).unwrap();
    assert_eq!(r2[0], "::core::mem::transmute::<u8, bool>(x as u8)");
}

fn record_import_sequence() -> Vec<Instruction> {
    vec![
        Instruction::GetArg { nth: 0 },
        Instruction::RecordLower {
            fields: vec!["a".to_string(), "b".to_string()],
            path: "Rec".to_string(),
        },
        Instruction::StringLower { realloc: false },
        Instruction::ReturnPointer { size: 8, align: 4 },
        Instruction::CallWasm {
            name: "foo".to_string(),
            params: vec![WasmType::I32, WasmType::I32, WasmType::I32, WasmType::I32],
            results: Vec::new(),
        },
        Instruction::ReturnPointer { size: 8, align: 4 },
        Instruction::I32Load { offset: 0 },
        Instruction::ReturnPointer { size: 8, align: 4 },
        Instruction::I32Load { offset: 4 },
        Instruction::StringLift,
        Instruction::Return { amt: 1 },
    ]
}

#[test]
fn record_import_scenario() {
    // An interface with record { a: u32, b: string } and an import
    // function taking the record and returning a string: lowering the
    // record feeds exactly four flattened operands (the u32 word, the
    // string's pointer and length, and the spilled return pointer) into
    // one call, and no discriminant check is emitted anywhere.
    let g = record_string_graph();
    let reg = ResourceRegistry::new(1);
    let f = Function {
        name: "foo".to_string(),
        kind: FnKind::Freestanding,
        params: vec![Field { name: "r".to_string(), ty: Ty::Id(0) }],
        results: vec![Ty::Str],
    };
    let seq = record_import_sequence();
    let module = "test:pkg/iface".to_string();
    let out = generate_guest_import(&g, &reg, &f, &seq, &module, false, true).unwrap();
    // exactly four core parameters on the declared import
    assert!(out.contains("fn wit_import(_: i32, _: i32, _: i32, _: i32, )"));
    // the string result lifts from a pointer/length pair
    assert!(out.contains("String::from_utf8("));
    // a record has no tag: nothing checks a discriminant
    assert!(!out.contains("invalid enum discriminant"));
    // the per-call return area matches the sequence's demand
    assert!(out.contains("struct RetArea([u8; 8])"));
    assert!(out.contains("#[repr(align(4))]"));
    // the signature is the owned one
    assert!(out.contains("pub fn foo(r: Rec, ) -> String"));
}

#[test]
fn generation_is_deterministic() {
    let g = record_string_graph();
    let reg = ResourceRegistry::new(1);
    let f = Function {
        name: "foo".to_string(),
        kind: FnKind::Freestanding,
        params: vec![Field { name: "r".to_string(), ty: Ty::Id(0) }],
        results: vec![Ty::Str],
    };
    let seq = record_import_sequence();
    let module = "test:pkg/iface".to_string();
    let a = generate_guest_import(&g, &reg, &f, &seq, &module, false, true).unwrap();
    let b = generate_guest_import(&g, &reg, &f, &seq, &module, false, true).unwrap();
    assert_eq!(a, b);
}

#[test]
fn cleanup_discharged_on_return() {
    // Lowering a list without a reallocator records an obligation; the
    // return discharges it with a guarded deallocation.
    let reg = ResourceRegistry::new(0);
    let mut fb = FunctionBindgen::new(
        vec!["xs".to_string()],
        None,
        true,
        Some("m".to_string()),
        false,
        true,
    );
    let seq = vec![
        Instruction::PushBlock,
        Instruction::IterElem,
        Instruction::FinishBlock { result_len: 1 },
        Instruction::GetArg { nth: 0 },
        Instruction::ListLower { size: 4, align: 4, realloc: false },
        Instruction::Return { amt: 2 },
    ];
    let r = fb.run(&reg, &seq);
    assert!(r.is_some());
    let out = fb.src.into_string();
    assert!(out.contains("alloc::dealloc(result0, layout0)"));
    assert!(out.contains("if layout0.size() != 0"));
    assert!(!fb.needs_cleanup_list);
}

#[test]
fn conditional_cleanup_defers_to_runtime_list() {
    // An obligation recorded inside a conditional block moves to the
    // runtime cleanup list, and the return drains that list.
    let reg = ResourceRegistry::new(0);
    let mut fb = FunctionBindgen::new(
        vec!["opt".to_string()],
        None,
        true,
        Some("m".to_string()),
        false,
        true,
    );
    let seq = vec![
        Instruction::PushBlock,
        Instruction::ConstZero { tys: vec![WasmType::I32, WasmType::I32, WasmType::I32] },
        Instruction::FinishBlock { result_len: 3 },
        Instruction::PushBlock,
        Instruction::VariantPayloadName,
        Instruction::PushBlock,
        Instruction::IterElem,
        Instruction::FinishBlock { result_len: 1 },
        Instruction::ListLower { size: 4, align: 4, realloc: false },
        Instruction::I32Const { val: 1 },
        Instruction::FinishBlock { result_len: 3 },
        Instruction::GetArg { nth: 0 },
        Instruction::OptionLower { result_len: 3 },
        Instruction::Return { amt: 3 },
    ];
    let r = fb.run(&reg, &seq);
    assert!(r.is_some(), "sequence must be stack-balanced");
    assert!(fb.needs_cleanup_list);
    let out = fb.src.into_string();
    assert!(out.contains("cleanup_list.extend_from_slice(&[(result0, layout0),]);"));
    assert!(out.contains("for (ptr, layout) in cleanup_list"));
}

#[test]
fn stub_bodies_fail_unconditionally() {
    let g = empty_graph();
    let funcs = vec![Function {
        name: "go".to_string(),
        kind: FnKind::Freestanding,
        params: vec![Field { name: "x".to_string(), ty: Ty::U32 }],
        results: vec![Ty::Bool],
    }];
    let out = generate_stub(&g, &"Iface".to_string(), &funcs, &Vec::new());
    assert_eq!(
        out,
        "impl Iface for Stub {\nfn go(x: u32, ) -> bool { unreachable!() }\n}\n"
    );
}

#[test]
fn world_assembly_embeds_descriptor() {
    let mut g = empty_graph();
    g.packages.push(PackageName { namespace: "my".to_string(), name: "pkg".to_string() });
    let opts = Opts {
        rustfmt: false,
        std_feature: false,
        raw_strings: false,
        skip: Vec::new(),
        world_exports: None,
        interface_exports: Vec::new(),
        resource_exports: Vec::new(),
        stubs: false,
        export_prefix: None,
        ownership: Ownership::Owning,
    };
    let mut w = opts.build(0, 1);
    w.finish_append_submodule(
        &g,
        true,
        Some(0),
        Some(0),
        &"iface".to_string(),
        &"pub fn inner() {}\n".to_string(),
    );
    let (name, contents) = w.finish(&g, &"my-world".to_string(), &vec![1u8, 2, 255]);
    assert_eq!(name, "my_world.rs");
    assert!(contents.contains("pub mod my {\npub mod pkg {\n"));
    assert!(contents.contains("pub mod iface {"));
    assert!(contents.contains("#[link_section = \"component-type:my-world\"]"));
    assert!(contents.contains("__WIT_BINDGEN_COMPONENT_TYPE: [u8; 3] = [1, 2, 255, ];"));
    assert!(contents.contains("pub fn __link_section() {}"));

    // byte-for-byte reproducible
    let mut w2 = Opts {
        rustfmt: false,
        std_feature: false,
        raw_strings: false,
        skip: Vec::new(),
        world_exports: None,
        interface_exports: Vec::new(),
        resource_exports: Vec::new(),
        stubs: false,
        export_prefix: None,
        ownership: Ownership::Owning,
    }
        .build(0, 1);
    w2.finish_append_submodule(
        &g,
        true,
        Some(0),
        Some(0),
        &"iface".to_string(),
        &"pub fn inner() {}\n".to_string(),
    );
    let (name2, contents2) = w2.finish(&g, &"my-world".to_string(), &vec![1u8, 2, 255]);
    assert_eq!(name, name2);
    assert_eq!(contents, contents2);
}

#[test]
fn ill_formed_sequences_are_rejected() {
    let reg = ResourceRegistry::new(0);
    let mut fb = FunctionBindgen::new(Vec::new(), None, true, None, false, true);
    // pops an operand from an empty stack
    let seq = vec![Instruction::BoolFromI32];
    assert!(fb.run(&reg, &seq).is_none());
    // names a parameter that does not exist
    let mut fb2 = FunctionBindgen::new(Vec::new(), None, true, None, false, true);
    let seq2 = vec![Instruction::GetArg { nth: 3 }];
    assert!(fb2.run(&reg, &seq2).is_none());
}

#[test]
fn flags_declaration_uses_packed_repr() {
    let flags = vec!["read".to_string(), "write".to_string()];
    let out = cabi_rustgen::emitter::type_flags("mode", &flags);
    assert_eq!(
        out,
        "wit_bindgen::bitflags::bitflags! {\n#[derive(PartialEq, Eq, PartialOrd, Ord, Hash, Debug, Clone, Copy)]\npub struct Mode: u8 {\nconst READ = 1 << 0;\nconst WRITE = 1 << 1;\n}\n}\n"
    );
}

#[test]
fn import_area_is_per_call_maximum() {
    let reg = cabi_rustgen::registry::ResourceRegistry::new(0);
    let mut fb = FunctionBindgen::new(
        vec!["x".to_string()],
        None,
        true,
        Some("m".to_string()),
        false,
        true,
    );
    let seq = vec![
        Instruction::ReturnPointer { size: 4, align: 4 },
        Instruction::ReturnPointer { size: 16, align: 8 },
        Instruction::ReturnPointer { size: 8, align: 4 },
    ];
    assert!(fb.run(&reg, &seq).is_some());
    assert_eq!(fb.import_rpa_size, 16);
    assert_eq!(fb.import_rpa_align, 8);
    assert_eq!(fb.export_rpa_size, 0);
}

#[test]
fn export_ret_area_declaration() {
    let none = cabi_rustgen::emitter::ret_area_decl(0, 0);
    assert_eq!(none, "");
    let some = cabi_rustgen::emitter::ret_area_decl(16, 8);
    assert_eq!(
        some,
        "#[repr(align(8))]\nstruct _RetArea([u8; 16]);\nstatic mut _RET_AREA: _RetArea = _RetArea([0; 16]);\n"
    );
}

#[test]
fn resource_glue_has_dtor_and_own_handle() {
    let out = cabi_rustgen::emitter::resource_glue("blob", &"p_".to_string(), true);
    assert!(out.contains("#[export_name = \"p_exports#[dtor]blob\"]"));
    assert!(out.contains("__export_dtor_blob"));
    assert!(out.contains("pub struct OwnBlob"));
    assert!(out.contains("[resource-new]blob"));
    assert!(out.contains("[resource-rep]blob"));
    assert!(out.contains("[resource-drop-own]blob"));
    let bare = cabi_rustgen::emitter::resource_glue("blob", &"".to_string(), false);
    assert!(bare.contains("__export_dtor_blob"));
    assert!(!bare.contains("pub struct OwnBlob"));
}

fn opts(stubs: bool) -> Opts {
    Opts {
        rustfmt: false,
        std_feature: false,
        raw_strings: false,
        skip: Vec::new(),
        world_exports: None,
        interface_exports: Vec::new(),
        resource_exports: Vec::new(),
        stubs,
        export_prefix: None,
        ownership: Ownership::Owning,
    }
}

fn one_func_iface_graph() -> Graph {
    let mut g = empty_graph();
    g.packages.push(PackageName { namespace: "my".to_string(), name: "pkg".to_string() });
    g.interfaces.push(cabi_rustgen::model::Interface {
        name: Some("doer".to_string()),
        package: Some(0),
        functions: vec![Function {
            name: "run".to_string(),
            kind: FnKind::Freestanding,
            params: Vec::new(),
            results: Vec::new(),
        }],
        types: Vec::new(),
    });
    g
}

#[test]
fn export_without_implementation_is_a_configuration_error() {
    let g = one_func_iface_graph();
    let mut w = opts(false).build(0, 1);
    let r = w.export_interface(
        &g,
        0,
        &"doer".to_string(),
        Some(0),
        &None,
        &"my::pkg::doer".to_string(),
        &"super::super::super::super::".to_string(),
        &vec![Vec::new()],
        &vec!["my:pkg/doer#run".to_string()],
        &vec![None],
        &vec![(Vec::new(), Vec::new())],
        true,
    );
    assert_eq!(
        r,
        Err("export implementation required for `my::pkg::doer`".to_string())
    );
    // nothing was filed
    assert_eq!(w.export_modules.len(), 0);
}

#[test]
fn stubbed_export_interface_generates_trait_thunk_and_stub() {
    let g = one_func_iface_graph();
    let mut w = opts(true).build(0, 1);
    let r = w.export_interface(
        &g,
        0,
        &"doer".to_string(),
        Some(0),
        &None,
        &"my::pkg::doer".to_string(),
        &"super::super::super::super::".to_string(),
        &vec![Vec::new()],
        &vec!["my:pkg/doer#run".to_string()],
        &vec![None],
        &vec![(Vec::new(), Vec::new())],
        true,
    );
    assert!(r.is_ok());
    assert_eq!(w.stub_impls.len(), 1);
    let (_f, out) = w.finish(&g, &"w".to_string(), &Vec::new());
    assert!(out.contains("pub trait Doer {\nfn run()"));
    assert!(out.contains("use super::super::super::super::Stub as DoerImpl;"));
    assert!(out.contains("#[export_name = \"my:pkg/doer#run\"]"));
    assert!(out.contains("unsafe extern \"C\" fn __export_run()"));
    assert!(out.contains("\npub struct Stub;\n"));
    assert!(out.contains("impl exports::my::pkg::doer::Doer for Stub {\nfn run() { unreachable!() }\n}"));
    // the export tree wraps the submodule
    assert!(out.contains("pub mod exports {\npub mod my {\npub mod pkg {\n"));
}

#[test]
fn export_interface_classifies_resources() {
    let mut g = empty_graph();
    g.types.push(TypeDef { name: Some("thing".to_string()), kind: TypeDefKind::Resource });
    g.interfaces.push(cabi_rustgen::model::Interface {
        name: Some("holder".to_string()),
        package: None,
        functions: Vec::new(),
        types: vec![("thing".to_string(), 0)],
    });
    let mut w = opts(false).build(1, 1);
    assert!(!w.reg.is_exported(0));
    let r = w.export_interface(
        &g,
        0,
        &"holder".to_string(),
        None,
        &Some("MyImpl".to_string()),
        &"holder".to_string(),
        &"super::super::".to_string(),
        &Vec::new(),
        &Vec::new(),
        &Vec::new(),
        &Vec::new(),
        true,
    );
    assert!(r.is_ok());
    assert!(w.reg.is_exported(0));
    // the submodule carries the destructor thunk for the exported resource
    let (_f, out) = w.finish(&g, &"w".to_string(), &Vec::new());
    assert!(out.contains("exports#[dtor]thing"));
    assert!(out.contains("__export_dtor_thing"));
}

#[test]
fn import_interface_declares_wrappers_and_bindings() {
    let mut g = empty_graph();
    g.types.push(TypeDef { name: Some("gadget".to_string()), kind: TypeDefKind::Resource });
    g.types.push(TypeDef {
        name: Some("mode".to_string()),
        kind: TypeDefKind::Flags(vec!["on".to_string(), "fast".to_string()]),
    });
    g.interfaces.push(cabi_rustgen::model::Interface {
        name: Some("gadgets".to_string()),
        package: None,
        functions: vec![Function {
            name: "ping".to_string(),
            kind: FnKind::Freestanding,
            params: Vec::new(),
            results: Vec::new(),
        }],
        types: vec![("gadget".to_string(), 0), ("mode".to_string(), 1)],
    });
    let mut w = opts(false).build(2, 1);
    let r = w.import_interface(
        &g,
        0,
        &"gadgets".to_string(),
        None,
        &"gadgets".to_string(),
        &vec![Vec::new()],
        true,
    );
    assert!(r.is_ok());
    assert_eq!(w.import_modules.len(), 1);
    let (_f, out) = w.finish(&g, &"w".to_string(), &Vec::new());
    assert!(out.contains("pub struct Gadget {\nhandle: i32,\nowned: bool,\n}"));
    assert!(out.contains("[resource-drop-borrow]gadget"));
    assert!(out.contains("pub struct Mode: u8 {\nconst ON = 1 << 0;\nconst FAST = 1 << 1;\n}"));
    assert!(out.contains("pub fn ping()"));
}

#[test]
fn packages_sharing_a_namespace_merge_into_one_tree() {
    let mut g = empty_graph();
    g.packages.push(PackageName { namespace: "my".to_string(), name: "a".to_string() });
    g.packages.push(PackageName { namespace: "my".to_string(), name: "b".to_string() });
    let mut w = opts(false).build(0, 2);
    w.finish_append_submodule(&g, true, Some(0), None, &"one".to_string(), &"".to_string());
    w.finish_append_submodule(&g, true, Some(1), None, &"two".to_string(), &"".to_string());
    let (_f, out) = w.finish(&g, &"w".to_string(), &Vec::new());
    assert_eq!(out.matches("pub mod my {").count(), 1);
    assert!(out.contains("pub mod a {"));
    assert!(out.contains("pub mod b {"));
}

#[test]
fn post_return_symbol_is_paired() {
    let g = empty_graph();
    let reg = ResourceRegistry::new(0);
    let f = Function {
        name: "fetch".to_string(),
        kind: FnKind::Freestanding,
        params: Vec::new(),
        results: vec![Ty::Str],
    };
    let seq = vec![
        Instruction::GetArg { nth: 0 },
        Instruction::GuestDeallocate { size: 8, align: 4 },
    ];
    let out = cabi_rustgen::emitter::generate_post_return(
        &g,
        &reg,
        &f,
        &seq,
        &"fetch".to_string(),
        &"".to_string(),
        &vec![WasmType::I32],
        false,
        true,
    )
    .unwrap();
    assert!(out.contains("#[export_name = \"cabi_post_fetch\"]"));
    assert!(out.contains("unsafe extern \"C\" fn __post_return_fetch(arg0: i32, )"));
    assert!(out.contains("wit_bindgen::rt::dealloc(arg0, 8, 4);"));
}

#[test]
fn skipped_functions_are_left_out_everywhere() {
    let g = one_func_iface_graph();
    let mut o = opts(true);
    o.skip.push("run".to_string());
    let mut w = o.build(0, 1);
    let r = w.export_interface(
        &g,
        0,
        &"doer".to_string(),
        Some(0),
        &None,
        &"my::pkg::doer".to_string(),
        &"super::super::super::super::".to_string(),
        &vec![Vec::new()],
        &vec!["my:pkg/doer#run".to_string()],
        &vec![None],
        &vec![(Vec::new(), Vec::new())],
        true,
    );
    // everything skipped: no implementation needed, no thunks emitted
    assert!(r.is_ok());
    let (_f, out) = w.finish(&g, &"w".to_string(), &Vec::new());
    assert!(out.contains("pub trait Doer {\n}"));
    assert!(!out.contains("__export_run"));
}
