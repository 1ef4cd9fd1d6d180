use bindgen_c::ast::{
    Abi, Arg, FnDecl, FunctionRetTy, Item, ItemKind, Mutability, Path, Span, StructField, Ty,
    TyKind, VariantData,
};
use bindgen_c::graph::sort_headers;
use bindgen_c::header::{header_name, wrap_extern, wrap_guard, wrap_header};
use bindgen_c::link::{collect_edges, umbrella_includes, wrap_headers};
use bindgen_c::{ErrorKind, LangC, Level, Outputs};

fn span() -> Span {
    Span { lo: 0, hi: 0 }
}

fn named(name: &str) -> Ty {
    Ty {
        node: TyKind::Path(Path { span: span(), segments: vec![name.to_string()] }),
        span: span(),
    }
}

fn pointer_to(name: &str) -> Ty {
    Ty { node: TyKind::Ptr(Box::new(named(name)), Mutability::Immutable), span: span() }
}

fn item(name: &str, node: ItemKind) -> Item {
    Item {
        name: name.to_string(),
        span: span(),
        docs: String::new(),
        repr_c: true,
        no_mangle: true,
        node,
    }
}

/// A struct whose layout stays hidden.
fn opaque(name: &str) -> Item {
    item(name, ItemKind::Struct { data: VariantData::Tuple(vec![named("u8")]), generic: false })
}

/// A struct with one field for each of the types `uses`.
fn record(name: &str, uses: &[&str]) -> Item {
    let fields = uses
        .iter()
        .enumerate()
        .map(|(at, used)| StructField {
            name: format!("f{}", at),
            docs: String::new(),
            ty: pointer_to(used),
        })
        .collect();
    item(name, ItemKind::Struct { data: VariantData::Struct(fields), generic: false })
}

/// A function that takes one argument of each of the types `uses`.
fn function(name: &str, uses: &[&str]) -> Item {
    let inputs = uses
        .iter()
        .enumerate()
        .map(|(at, used)| Arg { name: format!("a{}", at), ty: pointer_to(used) })
        .collect();
    item(
        name,
        ItemKind::Fn {
            decl: FnDecl { inputs, output: FunctionRetTy::Default },
            abi: Abi::C,
            generic: false,
        },
    )
}

fn module(segments: &[&str]) -> Vec<String> {
    segments.iter().map(|segment| segment.to_string()).collect()
}

fn lang(lib_name: &str) -> LangC {
    let mut lang = LangC::new();
    lang.set_lib_name(lib_name);
    lang
}

fn text_of<'a>(outputs: &'a Outputs, file: &str) -> &'a str {
    outputs.get(file).expect("the header should be there").as_str()
}

fn files(outputs: &Outputs) -> Vec<(String, String)> {
    (0..outputs.len()).map(|at| (outputs.name(at).clone(), outputs.text(at).clone())).collect()
}

#[test]
fn header_name_replaces_the_boundary_module() {
    let name = |segments: &[&str], lib: &str| header_name(&module(segments), lib, '/').unwrap();
    assert_eq!(name(&["ffi"], "shapes"), "shapes/shapes.h");
    assert_eq!(name(&["ffi", "geometry"], "shapes"), "shapes/geometry.h");
    assert_eq!(name(&["ffi", "a", "b"], "shapes"), "shapes/a/b.h");
    assert_eq!(name(&["other"], "shapes"), "other.h");
    assert_eq!(name(&["other", "ffi"], "shapes"), "other/ffi.h");
    assert_eq!(name(&["ffi"], ""), "/.h");
    assert_eq!(header_name(&module(&["ffi", "geometry"]), "shapes", '\\').unwrap(), "shapes\\geometry.h");
}

#[test]
fn header_name_is_the_same_for_the_same_inputs() {
    let path = module(&["ffi", "geometry"]);
    let first = header_name(&path, "shapes", '/').unwrap();
    let second = header_name(&path, "shapes", '/').unwrap();
    assert_eq!(first, second);
}

#[test]
fn header_name_needs_a_segment() {
    let error = header_name(&[], "shapes", '/').unwrap_err();
    assert_eq!(error.kind, ErrorKind::EmptyPath);
    assert_eq!(error.level, Level::Bug);
    assert_eq!(error.span, None);
}

#[test]
fn wrapping_gives_the_documented_layout() {
    assert_eq!(
        wrap_extern("int x;"),
        "\n#ifdef __cplusplus\nextern \"C\" {\n#endif\n\nint x;\n\n#ifdef __cplusplus\n}\n#endif\n"
    );
    assert_eq!(
        wrap_guard("int x;\n", "shapes/geometry.h"),
        "#ifndef bindgen_shapesgeometryh\n#define bindgen_shapesgeometryh\nint x;\n\n#endif\n"
    );
    assert_eq!(
        wrap_header("<declarations>", "shapes/geometry.h"),
        "#ifndef bindgen_shapesgeometryh\n\
         #define bindgen_shapesgeometryh\n\
         #include <stdint.h>\n\
         #include <stdbool.h>\n\
         \n\
         #ifdef __cplusplus\n\
         extern \"C\" {\n\
         #endif\n\
         \n\
         <declarations>\n\
         \n\
         #ifdef __cplusplus\n\
         }\n\
         #endif\n\
         \n\
         #endif\n"
    );
}

#[test]
fn finished_run_wraps_every_header_and_adds_the_umbrella() {
    let mut lang = lang("shapes");
    let mut outputs = Outputs::new();
    lang.parse_struct(&opaque("Canvas"), &module(&["ffi", "canvas"]), &mut outputs).unwrap();
    lang.parse_fn(&function("draw", &[]), &module(&["ffi"]), &mut outputs).unwrap();
    lang.finalise_output(&mut outputs).unwrap();

    assert_eq!(outputs.len(), 3);
    assert_eq!(
        text_of(&outputs, "shapes/canvas.h"),
        wrap_header("typedef struct Canvas Canvas;\n\n", "shapes/canvas.h")
    );
    assert_eq!(
        text_of(&outputs, "shapes/shapes.h"),
        wrap_header("void draw(void);\n\n", "shapes/shapes.h")
    );
    // Neither header needs the other: both are included, in either order.
    let mut lines: Vec<&str> = text_of(&outputs, "shapes.h").split_inclusive('\n').collect();
    lines.sort();
    assert_eq!(lines, vec!["#include \"shapes/canvas.h\"\n", "#include \"shapes/shapes.h\"\n"]);
}

#[test]
fn defining_header_is_included_first() {
    // The header that uses the type is there first, and yet comes second.
    let mut lang = lang("shapes");
    let mut outputs = Outputs::new();
    lang.parse_fn(&function("draw", &["Canvas"]), &module(&["ffi", "b"]), &mut outputs).unwrap();
    lang.parse_struct(&opaque("Canvas"), &module(&["ffi", "a"]), &mut outputs).unwrap();
    assert_eq!(outputs.name(0), "shapes/b.h");
    lang.finalise_output(&mut outputs).unwrap();
    assert_eq!(text_of(&outputs, "shapes.h"), "#include \"shapes/a.h\"\n#include \"shapes/b.h\"\n");
}

#[test]
fn chain_of_uses_gives_the_one_possible_order() {
    let mut lang = lang("chain");
    let mut outputs = Outputs::new();
    lang.parse_struct(&record("Third", &["Second"]), &module(&["ffi", "c"]), &mut outputs).unwrap();
    lang.parse_struct(&record("Second", &["First"]), &module(&["ffi", "b"]), &mut outputs).unwrap();
    lang.parse_struct(&opaque("First"), &module(&["ffi", "a"]), &mut outputs).unwrap();
    lang.parse_ty(
        &item("Fourth", ItemKind::Ty { ty: named("Third"), generic: false }),
        &module(&["ffi", "d"]),
        &mut outputs,
    )
    .unwrap();
    lang.finalise_output(&mut outputs).unwrap();
    assert_eq!(
        text_of(&outputs, "chain.h"),
        "#include \"chain/a.h\"\n#include \"chain/b.h\"\n#include \"chain/c.h\"\n#include \"chain/d.h\"\n"
    );
}

#[test]
fn headers_that_need_each_other_cannot_be_ordered() {
    let mut lang = lang("shapes");
    let mut outputs = Outputs::new();
    lang.parse_struct(&opaque("Left"), &module(&["ffi", "a"]), &mut outputs).unwrap();
    lang.parse_struct(&opaque("Right"), &module(&["ffi", "b"]), &mut outputs).unwrap();
    lang.parse_fn(&function("use_right", &["Right"]), &module(&["ffi", "a"]), &mut outputs).unwrap();
    lang.parse_fn(&function("use_left", &["Left"]), &module(&["ffi", "b"]), &mut outputs).unwrap();
    let before = files(&outputs);

    let error = lang.finalise_output(&mut outputs).unwrap_err();
    assert_eq!(error.kind, ErrorKind::DependencyCycle);
    assert_eq!(error.level, Level::Fatal);
    assert_eq!(error.span, None);
    assert!(outputs.get("shapes.h").is_none());
    assert_eq!(files(&outputs), before);
}

#[test]
fn longer_cycle_cannot_be_ordered_either() {
    let mut lang = lang("shapes");
    let mut outputs = Outputs::new();
    lang.parse_struct(&record("A", &["C"]), &module(&["ffi", "a"]), &mut outputs).unwrap();
    lang.parse_struct(&record("B", &["A"]), &module(&["ffi", "b"]), &mut outputs).unwrap();
    lang.parse_struct(&record("C", &["B"]), &module(&["ffi", "c"]), &mut outputs).unwrap();
    let error = lang.finalise_output(&mut outputs).unwrap_err();
    assert_eq!(error.kind, ErrorKind::DependencyCycle);
    assert_eq!(outputs.len(), 3);
}

#[test]
fn use_within_one_header_is_no_edge() {
    let mut lang = lang("shapes");
    let mut outputs = Outputs::new();
    lang.parse_struct(&record("Node", &["Node", "Leaf"]), &module(&["ffi", "tree"]), &mut outputs).unwrap();
    lang.parse_struct(&opaque("Leaf"), &module(&["ffi", "tree"]), &mut outputs).unwrap();
    lang.finalise_output(&mut outputs).unwrap();
    assert_eq!(text_of(&outputs, "shapes.h"), "#include \"shapes/tree.h\"\n");
}

#[test]
fn unknown_types_and_repeated_uses_give_no_further_edges() {
    let mut lang = lang("shapes");
    let mut outputs = Outputs::new();
    lang.parse_fn(
        &function("draw", &["Canvas", "Unknown", "Canvas", "size_t"]),
        &module(&["ffi", "b"]),
        &mut outputs,
    )
    .unwrap();
    lang.parse_fn(&function("clear", &["Canvas"]), &module(&["ffi", "b"]), &mut outputs).unwrap();
    lang.parse_struct(&opaque("Canvas"), &module(&["ffi", "a"]), &mut outputs).unwrap();
    lang.finalise_output(&mut outputs).unwrap();
    assert_eq!(text_of(&outputs, "shapes.h"), "#include \"shapes/a.h\"\n#include \"shapes/b.h\"\n");
}

#[test]
fn enum_is_not_registered_as_a_definition() {
    // Only aliases and structs are looked up when headers are put in order.
    let color = item(
        "Color",
        ItemKind::Enum { variants: vec![], generic: false },
    );
    let mut lang = lang("shapes");
    let mut outputs = Outputs::new();
    lang.parse_fn(&function("paint", &["Color"]), &module(&["ffi", "b"]), &mut outputs).unwrap();
    lang.parse_enum(&color, &module(&["ffi", "a"]), &mut outputs).unwrap();
    lang.parse_fn(&function("mix", &["Paint"]), &module(&["ffi", "a"]), &mut outputs).unwrap();
    lang.parse_struct(&opaque("Paint"), &module(&["ffi", "b"]), &mut outputs).unwrap();
    // Were `Color` looked up, a.h and b.h would need each other.
    lang.finalise_output(&mut outputs).unwrap();
    assert_eq!(text_of(&outputs, "shapes.h"), "#include \"shapes/b.h\"\n#include \"shapes/a.h\"\n");
    assert_eq!(
        text_of(&outputs, "shapes/a.h"),
        wrap_header("typedef enum Color {\n} Color;\n\nvoid mix(Paint const* a0);\n\n", "shapes/a.h")
    );
}

#[test]
fn first_definition_of_a_name_stays() {
    let mut lang = lang("shapes");
    let mut outputs = Outputs::new();
    lang.parse_struct(&opaque("Canvas"), &module(&["ffi", "a"]), &mut outputs).unwrap();
    lang.parse_fn(&function("draw", &["Canvas"]), &module(&["ffi", "b"]), &mut outputs).unwrap();
    lang.parse_struct(&opaque("Canvas"), &module(&["ffi", "c"]), &mut outputs).unwrap();
    lang.parse_fn(&function("blit", &["Canvas"]), &module(&["ffi", "a"]), &mut outputs).unwrap();
    // `Canvas` stays defined in a.h: b.h comes after it, and a.h does not wait for c.h.
    lang.finalise_output(&mut outputs).unwrap();
    let umbrella = text_of(&outputs, "shapes.h");
    let at = |header: &str| umbrella.find(&format!("#include \"{}\"\n", header)).unwrap();
    assert!(at("shapes/a.h") < at("shapes/b.h"));
    assert_eq!(umbrella.lines().count(), 3);
}

#[test]
fn umbrella_takes_the_place_of_a_header_of_its_name() {
    let mut lang = lang("shapes");
    let mut outputs = Outputs::new();
    lang.parse_fn(&function("draw", &[]), &module(&["shapes"]), &mut outputs).unwrap();
    assert_eq!(outputs.name(0), "shapes.h");
    lang.finalise_output(&mut outputs).unwrap();
    assert_eq!(outputs.len(), 1);
    assert_eq!(text_of(&outputs, "shapes.h"), "#include \"shapes.h\"\n");
}

#[test]
fn empty_run_gives_an_empty_umbrella() {
    let mut lang = LangC::new();
    let mut outputs = Outputs::new();
    lang.finalise_output(&mut outputs).unwrap();
    assert_eq!(outputs.len(), 1);
    assert_eq!(text_of(&outputs, "backend.h"), "");
}

#[test]
fn add_dependencies_asks_for_the_header_only_where_needed() {
    let mut lang = lang("shapes");
    let native = bindgen_c::CType::Native("int");
    let mapping = bindgen_c::CType::Ptr(
        Box::new(bindgen_c::CType::Mapping("Canvas".to_string())),
        bindgen_c::CPtrType::Const,
    );
    assert!(lang.add_dependencies(&[], &native).is_ok());
    let error = lang.add_dependencies(&[], &mapping).unwrap_err();
    assert_eq!(error.kind, ErrorKind::EmptyPath);
    assert!(lang.add_dependencies(&module(&["ffi", "b"]), &mapping).is_ok());

    // The use that was recorded orders the headers.
    let mut outputs = Outputs::new();
    lang.append_to_header("int b;\n".to_string(), &module(&["ffi", "b"]), &mut outputs).unwrap();
    lang.parse_struct(&opaque("Canvas"), &module(&["ffi", "a"]), &mut outputs).unwrap();
    lang.finalise_output(&mut outputs).unwrap();
    assert_eq!(text_of(&outputs, "shapes.h"), "#include \"shapes/a.h\"\n#include \"shapes/b.h\"\n");
}

#[test]
fn edges_are_gathered_in_ascending_order_without_repeats() {
    let mut outputs = Outputs::new();
    for header in ["a.h", "b.h", "c.h"] {
        outputs.append(String::new(), header);
    }
    let pair = |left: &str, right: &str| (left.to_string(), right.to_string());
    let decls = vec![pair("A", "a.h"), pair("B", "b.h"), pair("C", "c.h"), pair("D", "d.h")];
    let deps = vec![
        pair("c.h", "B"),
        pair("c.h", "A"),
        pair("b.h", "A"),
        pair("c.h", "B"),
        pair("a.h", "A"),
        pair("b.h", "Unknown"),
        pair("missing.h", "A"),
        pair("a.h", "D"),
    ];
    let edges = collect_edges(&outputs, &decls, &deps);
    assert_eq!(edges, vec![(0, 1), (0, 2), (1, 2)]);
    assert_eq!(sort_headers(&outputs, &edges), Some(vec![0, 1, 2]));
    assert_eq!(sort_headers(&outputs, &vec![(2, 0), (0, 1)]), Some(vec![2, 0, 1]));
    assert_eq!(sort_headers(&outputs, &vec![(0, 1), (1, 0)]), None);
    assert_eq!(sort_headers(&outputs, &vec![(1, 1)]), None);
}

#[test]
fn umbrella_follows_the_given_order() {
    let mut outputs = Outputs::new();
    for header in ["a.h", "b.h", "c.h"] {
        outputs.append(String::new(), header);
    }
    assert_eq!(
        umbrella_includes(&outputs, &vec![2, 0, 1]),
        "#include \"c.h\"\n#include \"a.h\"\n#include \"b.h\"\n"
    );
    assert_eq!(umbrella_includes(&outputs, &vec![]), "");
}

#[test]
fn wrap_headers_wraps_each_text_under_its_own_name() {
    let mut outputs = Outputs::new();
    outputs.append("int a;\n".to_string(), "dir/a.h");
    outputs.append("int b;\n".to_string(), "b.h");
    wrap_headers(&mut outputs);
    assert_eq!(outputs.len(), 2);
    assert_eq!(text_of(&outputs, "dir/a.h"), wrap_header("int a;\n", "dir/a.h"));
    assert_eq!(text_of(&outputs, "b.h"), wrap_header("int b;\n", "b.h"));
}
