use bindgen_c::ast::{
    Abi, Arg, FnDecl, FunctionRetTy, Item, ItemKind, Path, Span, StructField, Ty, TyKind, Variant,
    VariantData,
};
use bindgen_c::emit::{
    alias_declaration, enum_declaration, fn_declaration, native_fn_declaration,
    struct_declaration, Declaration,
};
use bindgen_c::{CType, CTypeNamed, ErrorKind, LangC, Outputs};

fn span() -> Span {
    Span { lo: 2, hi: 4 }
}

fn named(name: &str) -> Ty {
    Ty {
        node: TyKind::Path(Path { span: span(), segments: vec![name.to_string()] }),
        span: span(),
    }
}

fn item(name: &str, node: ItemKind) -> Item {
    Item {
        name: name.to_string(),
        span: span(),
        docs: "/// Documented.\n".to_string(),
        repr_c: true,
        no_mangle: true,
        node,
    }
}

fn module(segments: &[&str]) -> Vec<String> {
    segments.iter().map(|segment| segment.to_string()).collect()
}

#[test]
fn alias_declares_and_defines_its_name() {
    let alias = item("Meters", ItemKind::Ty { ty: named("Length"), generic: false });
    assert_eq!(
        alias_declaration(&alias).unwrap(),
        Some(Declaration {
            text: "/// Documented.\ntypedef Length Meters;\n\n".to_string(),
            types: vec![CTypeNamed("Meters".to_string(), CType::Mapping("Length".to_string()))],
            defines: Some("Meters".to_string()),
        })
    );
}

#[test]
fn enum_declares_no_types_and_defines_none() {
    let choice = item(
        "Choice",
        ItemKind::Enum {
            variants: vec![Variant {
                name: "Yes = 1".to_string(),
                span: span(),
                docs: String::new(),
                unit: true,
            }],
            generic: false,
        },
    );
    assert_eq!(
        enum_declaration(&choice).unwrap(),
        Some(Declaration {
            text: "/// Documented.\ntypedef enum Choice {\n\tChoice_Yes = 1,\n} Choice;\n\n"
                .to_string(),
            types: vec![],
            defines: None,
        })
    );
}

#[test]
fn struct_declares_its_fields_and_defines_its_name() {
    let pair = item(
        "Pair",
        ItemKind::Struct {
            data: VariantData::Struct(vec![
                StructField { name: "left".to_string(), docs: String::new(), ty: named("Side") },
                StructField { name: "right".to_string(), docs: String::new(), ty: named("u8") },
            ]),
            generic: false,
        },
    );
    assert_eq!(
        struct_declaration(&pair).unwrap(),
        Some(Declaration {
            text: "/// Documented.\ntypedef struct Pair {\n\tSide left;\n\tuint8_t right;\n} Pair;\n\n"
                .to_string(),
            types: vec![
                CTypeNamed("left".to_string(), CType::Mapping("Side".to_string())),
                CTypeNamed("right".to_string(), CType::Native("uint8_t")),
            ],
            defines: Some("Pair".to_string()),
        })
    );

    let opaque = item(
        "Handle",
        ItemKind::Struct { data: VariantData::Tuple(vec![named("Side")]), generic: false },
    );
    assert_eq!(
        struct_declaration(&opaque).unwrap(),
        Some(Declaration {
            text: "/// Documented.\ntypedef struct Handle Handle;\n\n".to_string(),
            types: vec![],
            defines: Some("Handle".to_string()),
        })
    );
}

#[test]
fn function_declares_its_parameters_then_what_it_returns() {
    let decl = FnDecl {
        inputs: vec![Arg { name: "from".to_string(), ty: named("Side") }],
        output: FunctionRetTy::Ty(named("Pair")),
    };
    let expected = Declaration {
        text: "/// Documented.\nPair flip(Side from);\n\n".to_string(),
        types: vec![
            CTypeNamed("from".to_string(), CType::Mapping("Side".to_string())),
            CTypeNamed("flip(Side from)".to_string(), CType::Mapping("Pair".to_string())),
        ],
        defines: None,
    };
    assert_eq!(native_fn_declaration(&decl, "/// Documented.\n", "flip").unwrap(), expected);

    let flip = item("flip", ItemKind::Fn { decl, abi: Abi::System, generic: false });
    assert_eq!(fn_declaration(&flip).unwrap(), Some(expected));
}

#[test]
fn declaration_passed_over_is_none() {
    let mut hidden = item("run", ItemKind::Fn {
        decl: FnDecl { inputs: vec![], output: FunctionRetTy::Default },
        abi: Abi::C,
        generic: false,
    });
    hidden.no_mangle = false;
    assert_eq!(fn_declaration(&hidden).unwrap(), None);
    let generic = item("Alias", ItemKind::Ty { ty: named("u8"), generic: true });
    assert_eq!(alias_declaration(&generic).unwrap(), None);
    let mut plain = item("Plain", ItemKind::Struct { data: VariantData::Unit, generic: false });
    plain.repr_c = false;
    assert_eq!(struct_declaration(&plain).unwrap(), None);
    assert_eq!(enum_declaration(&plain).unwrap(), None);
}

#[test]
fn first_error_in_the_order_of_the_text_decides() {
    let decl = FnDecl {
        inputs: vec![
            Arg { name: "a".to_string(), ty: named("u8") },
            Arg { name: "b".to_string(), ty: Ty { node: TyKind::Other("&u8".to_string()), span: span() } },
        ],
        output: FunctionRetTy::Ty(Ty { node: TyKind::Never, span: span() }),
    };
    // The parameter is looked at before the return type.
    let error = native_fn_declaration(&decl, "", "f").unwrap_err();
    assert_eq!(error.kind, ErrorKind::UnsupportedType);
}

#[test]
fn recorded_declaration_is_appended_and_remembered() {
    let mut lang = LangC::new();
    lang.set_lib_name("shapes");
    let mut outputs = Outputs::new();
    assert!(lang.defining_header("Pair").is_none());

    let declaration = Declaration {
        text: "typedef struct Pair Pair;\n\n".to_string(),
        types: vec![],
        defines: Some("Pair".to_string()),
    };
    lang.record(declaration, &module(&["ffi", "pairs"]), &mut outputs).unwrap();
    assert_eq!(outputs.get("shapes/pairs.h").unwrap(), "typedef struct Pair Pair;\n\n");
    assert_eq!(lang.defining_header("Pair").unwrap(), "shapes/pairs.h");

    // A second definition of the name changes nothing of the first.
    let again = Declaration {
        text: "typedef struct Pair Pair;\n\n".to_string(),
        types: vec![],
        defines: Some("Pair".to_string()),
    };
    lang.record(again, &module(&["ffi", "other"]), &mut outputs).unwrap();
    assert_eq!(lang.defining_header("Pair").unwrap(), "shapes/pairs.h");
    assert_eq!(outputs.len(), 2);

    let homeless = Declaration { text: "int x;\n".to_string(), types: vec![], defines: None };
    let error = lang.record(homeless, &[], &mut outputs).unwrap_err();
    assert_eq!(error.kind, ErrorKind::EmptyPath);
    assert_eq!(outputs.len(), 2);
}
