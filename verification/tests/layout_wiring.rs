use wit_bindgen_js::errors::GenError;
use wit_bindgen_js::layout::SizeAlignTable;
use wit_bindgen_js::lists::elem_layout;
use wit_bindgen_js::options::{LoaderKind, Opts};
use wit_bindgen_js::ty::{ElemKind, FuncResults, FunctionSignature, TypeDef, TypeGraph, TypeRef};
use wit_bindgen_js::wiring::{
    build_export_object, build_import_object, helpers_needed, host_visible_name,
    import_binding_ident, root_import_binding_ident,
};
use wit_bindgen_js::wrapper::Binding;

fn sig(params: Vec<(&str, TypeRef)>, results: FuncResults) -> FunctionSignature {
    FunctionSignature {
        params: params.into_iter().map(|(n, t)| (n.to_string(), t)).collect(),
        results,
    }
}

fn table_for(g: &TypeGraph) -> SizeAlignTable {
    SizeAlignTable::fill(g).unwrap()
}

#[test]
fn primitive_sizes_and_alignments() {
    let g = TypeGraph { defs: Vec::new() };
    let t = table_for(&g);
    assert_eq!(t.size_align(&g, TypeRef::Bool), (1, 1));
    assert_eq!(t.size_align(&g, TypeRef::U8), (1, 1));
    assert_eq!(t.size_align(&g, TypeRef::S8), (1, 1));
    assert_eq!(t.size_align(&g, TypeRef::U16), (2, 2));
    assert_eq!(t.size_align(&g, TypeRef::S16), (2, 2));
    assert_eq!(t.size_align(&g, TypeRef::U32), (4, 4));
    assert_eq!(t.size_align(&g, TypeRef::S32), (4, 4));
    assert_eq!(t.size_align(&g, TypeRef::U64), (8, 8));
    assert_eq!(t.size_align(&g, TypeRef::S64), (8, 8));
    assert_eq!(t.size_align(&g, TypeRef::Float32), (4, 4));
    assert_eq!(t.size_align(&g, TypeRef::Float64), (8, 8));
    assert_eq!(t.size_align(&g, TypeRef::Char), (4, 4));
    assert_eq!(t.size_align(&g, TypeRef::Text), (8, 4));
}

#[test]
fn dispatch_table_matches_size_align_table() {
    // every element kind allocates with exactly the layout of its scalar type
    let g = TypeGraph { defs: Vec::new() };
    let t = table_for(&g);
    let pairs = vec![
        (ElemKind::S8, TypeRef::S8),
        (ElemKind::U8, TypeRef::U8),
        (ElemKind::Bool, TypeRef::Bool),
        (ElemKind::S16, TypeRef::S16),
        (ElemKind::U16, TypeRef::U16),
        (ElemKind::S32, TypeRef::S32),
        (ElemKind::U32, TypeRef::U32),
        (ElemKind::Char, TypeRef::Char),
        (ElemKind::S64, TypeRef::S64),
        (ElemKind::U64, TypeRef::U64),
        (ElemKind::Float32, TypeRef::Float32),
        (ElemKind::Float64, TypeRef::Float64),
    ];
    for (kind, prim) in pairs {
        assert_eq!(elem_layout(kind), t.size_align(&g, prim));
    }
}

#[test]
fn record_layout_with_padding() {
    let g = TypeGraph {
        defs: vec![TypeDef::Record(vec![
            ("flag".to_string(), TypeRef::U8),
            ("count".to_string(), TypeRef::U32),
        ])],
    };
    let t = table_for(&g);
    // u8 at 0, padding to 4, u32 at 4..8
    assert_eq!(t.size_align(&g, TypeRef::Id(0)), (8, 4));
}

#[test]
fn tuple_layout() {
    let g = TypeGraph {
        defs: vec![TypeDef::Tuple(vec![TypeRef::U8, TypeRef::U16, TypeRef::U8])],
    };
    let t = table_for(&g);
    // u8 at 0, u16 at 2..4, u8 at 4, rounded to alignment 2
    assert_eq!(t.size_align(&g, TypeRef::Id(0)), (6, 2));
}

#[test]
fn list_and_resource_layouts() {
    let g = TypeGraph {
        defs: vec![TypeDef::List(TypeRef::U64), TypeDef::Resource],
    };
    let t = table_for(&g);
    assert_eq!(t.size_align(&g, TypeRef::Id(0)), (8, 4));
    assert_eq!(t.size_align(&g, TypeRef::Id(1)), (4, 4));
}

#[test]
fn enum_and_flags_layouts() {
    let g = TypeGraph {
        defs: vec![
            TypeDef::Enum(vec!["a".to_string(), "b".to_string(), "c".to_string()]),
            TypeDef::Flags((0..9).map(|i| format!("f{}", i)).collect()),
            TypeDef::Flags((0..40).map(|i| format!("f{}", i)).collect()),
        ],
    };
    let t = table_for(&g);
    assert_eq!(t.size_align(&g, TypeRef::Id(0)), (1, 1));
    assert_eq!(t.size_align(&g, TypeRef::Id(1)), (2, 2));
    // 40 bits: two 32-bit words
    assert_eq!(t.size_align(&g, TypeRef::Id(2)), (8, 4));
}

#[test]
fn variant_option_result_layouts() {
    let g = TypeGraph {
        defs: vec![
            TypeDef::Variant(vec![
                ("none".to_string(), None),
                ("big".to_string(), Some(TypeRef::U64)),
            ]),
            TypeDef::OptionOf(TypeRef::U32),
            TypeDef::ResultOf(Some(TypeRef::U32), Some(TypeRef::U8)),
        ],
    };
    let t = table_for(&g);
    // discriminant byte, padded to the u64 payload
    assert_eq!(t.size_align(&g, TypeRef::Id(0)), (16, 8));
    assert_eq!(t.size_align(&g, TypeRef::Id(1)), (8, 4));
    assert_eq!(t.size_align(&g, TypeRef::Id(2)), (8, 4));
}

#[test]
fn alias_layout_follows_target() {
    let g = TypeGraph {
        defs: vec![
            TypeDef::Record(vec![("x".to_string(), TypeRef::U16)]),
            TypeDef::Alias(TypeRef::Id(0)),
        ],
    };
    let t = table_for(&g);
    assert_eq!(t.size_align(&g, TypeRef::Id(1)), t.size_align(&g, TypeRef::Id(0)));
}

#[test]
fn shared_subtypes_are_memoized_consistently() {
    // the same definition reached through two referrers gets one entry
    let g = TypeGraph {
        defs: vec![
            TypeDef::Record(vec![("x".to_string(), TypeRef::U32)]),
            TypeDef::Tuple(vec![TypeRef::Id(0), TypeRef::Id(0)]),
        ],
    };
    let t = table_for(&g);
    assert_eq!(t.size_align(&g, TypeRef::Id(0)), (4, 4));
    assert_eq!(t.size_align(&g, TypeRef::Id(1)), (8, 4));
}

#[test]
fn malformed_graph_is_rejected() {
    // a definition may only refer to strictly earlier ones
    let g = TypeGraph { defs: vec![TypeDef::List(TypeRef::Id(0))] };
    assert!(matches!(
        SizeAlignTable::fill(&g),
        Err(GenError::MalformedGraph)
    ));
}

#[test]
fn oversized_type_is_rejected() {
    // doubling tuples: definition k has size 8 * 2^k, so index 29 overflows
    // a 32-bit size field
    let mut defs = vec![TypeDef::Tuple(vec![TypeRef::U32, TypeRef::U32])];
    for k in 1..30 {
        defs.push(TypeDef::Tuple(vec![TypeRef::Id(k - 1), TypeRef::Id(k - 1)]));
    }
    let g = TypeGraph { defs };
    assert!(matches!(
        SizeAlignTable::fill(&g),
        Err(GenError::TypeTooLarge { id: 29 })
    ));
}

#[test]
fn host_visible_names_are_lower_camel_case() {
    // the conversion must actually convert, not echo its input
    assert_eq!(host_visible_name("string-concat"), "stringConcat");
    assert_eq!(host_visible_name("add"), "add");
    assert_eq!(host_visible_name(""), "");
}

#[test]
fn import_binding_identifiers() {
    assert_eq!(
        import_binding_ident("my-iface", "do-thing"),
        "wasm_import_myIface_doThing"
    );
    assert_eq!(
        root_import_binding_ident("run-all"),
        "wasm_import_root_function_runAll"
    );
}

#[test]
fn import_object_groups_and_root_sentinel() {
    let interfaces = vec![(
        "my-iface".to_string(),
        vec!["do-thing".to_string(), "undo".to_string()],
    )];
    let roots = vec!["run".to_string()];
    let obj = build_import_object(&interfaces, &roots);
    assert_eq!(obj.groups.len(), 2);
    assert_eq!(obj.groups[0].0, "my-iface");
    assert_eq!(
        obj.groups[0].1,
        vec![
            (
                "do-thing".to_string(),
                "wasm_import_myIface_doThing".to_string()
            ),
            ("undo".to_string(), "wasm_import_myIface_undo".to_string()),
        ]
    );
    assert_eq!(obj.groups[1].0, "$root");
    assert_eq!(
        obj.groups[1].1,
        vec![("run".to_string(), "wasm_import_root_function_run".to_string())]
    );
}

#[test]
fn export_object_substitutes_wrappers() {
    let g = TypeGraph { defs: Vec::new() };
    let funcs = vec![
        (
            "add".to_string(),
            sig(
                vec![("x", TypeRef::S32), ("y", TypeRef::S32)],
                FuncResults::Anon(TypeRef::S32),
            ),
        ),
        (
            "string-concat".to_string(),
            sig(
                vec![("a", TypeRef::Text), ("b", TypeRef::Text)],
                FuncResults::Anon(TypeRef::Text),
            ),
        ),
    ];
    let es = build_export_object(&g, &funcs).unwrap();
    assert_eq!(es.len(), 2);
    assert_eq!(es[0].host_name, "add");
    assert_eq!(es[0].export_name, "add");
    assert!(matches!(es[0].binding, Binding::Direct));
    assert_eq!(es[1].host_name, "stringConcat");
    assert_eq!(es[1].export_name, "string-concat");
    assert!(matches!(es[1].binding, Binding::Wrapped(_)));
}

#[test]
fn export_object_reports_first_unsupported_function() {
    let g = TypeGraph {
        defs: vec![TypeDef::Variant(vec![("only".to_string(), None)])],
    };
    let funcs = vec![
        (
            "fine".to_string(),
            sig(vec![("t", TypeRef::Text)], FuncResults::Anon(TypeRef::U32)),
        ),
        (
            "bad".to_string(),
            sig(vec![("v", TypeRef::Id(0))], FuncResults::Anon(TypeRef::U32)),
        ),
    ];
    match build_export_object(&g, &funcs) {
        Err((i, GenError::UnsupportedParam { index, ty })) => {
            assert_eq!(i, 1);
            assert_eq!(index, 0);
            assert_eq!(ty, TypeRef::Id(0));
        }
        other => panic!("expected an unsupported-parameter error, got {:?}", other),
    }
}

#[test]
fn helpers_scan_sees_every_function() {
    // a text parameter in one function and a text result only in a later
    // one: both helpers are required
    let funcs = vec![
        (
            "log".to_string(),
            sig(vec![("msg", TypeRef::Text)], FuncResults::Named(Vec::new())),
        ),
        (
            "fetch-name".to_string(),
            sig(vec![], FuncResults::Anon(TypeRef::Text)),
        ),
    ];
    let needs = helpers_needed(&funcs);
    assert!(needs.text_encoder);
    assert!(needs.text_decoder);
}

#[test]
fn helpers_not_needed_for_scalar_exports() {
    let funcs = vec![(
        "add".to_string(),
        sig(
            vec![("x", TypeRef::S32), ("y", TypeRef::S32)],
            FuncResults::Anon(TypeRef::S32),
        ),
    )];
    let needs = helpers_needed(&funcs);
    assert!(!needs.text_encoder);
    assert!(!needs.text_decoder);
}

#[test]
fn loader_selection() {
    assert_eq!(
        Opts { qjs: false, node: false }.select_loader(),
        Ok(LoaderKind::Browser)
    );
    assert_eq!(
        Opts { qjs: false, node: true }.select_loader(),
        Ok(LoaderKind::Node)
    );
    assert_eq!(
        Opts { qjs: true, node: false }.select_loader(),
        Ok(LoaderKind::QuickJs)
    );
    assert_eq!(
        Opts { qjs: true, node: true }.select_loader(),
        Err(GenError::ConflictingOptions)
    );
}

#[test]
fn graph_well_formedness_check() {
    let good = TypeGraph {
        defs: vec![
            TypeDef::Record(vec![("x".to_string(), TypeRef::U8)]),
            TypeDef::OptionOf(TypeRef::Id(0)),
        ],
    };
    assert!(good.check_wf());
    let bad = TypeGraph {
        defs: vec![TypeDef::ResultOf(Some(TypeRef::Id(1)), None), TypeDef::Resource],
    };
    assert!(!bad.check_wf());
}
