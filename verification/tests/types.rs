use bindgen_c::ast::{Arg, BareFnTy, FnDecl, FunctionRetTy, Mutability, Path, Span, Ty, TyKind};
use bindgen_c::{anon_rust_to_c, rust_to_c, CType};

fn span() -> Span {
    Span { lo: 0, hi: 0 }
}

fn of_kind(node: TyKind) -> Ty {
    Ty { node, span: span() }
}

/// Splits a parameter list at the commas that stand outside any parentheses.
fn split_params(list: &str) -> Vec<&str> {
    let mut parts = Vec::new();
    let mut depth = 0;
    let mut start = 0;
    for (at, ch) in list.char_indices() {
        match ch {
            '(' => depth += 1,
            ')' => depth -= 1,
            ',' if depth == 0 => {
                parts.push(&list[start..at]);
                start = at + 1;
            }
            _ => {}
        }
    }
    if !list[start..].trim().is_empty() {
        parts.push(&list[start..]);
    }
    parts
}

/// The index of the parenthesis that closes the one at `open`.
fn closing(source: &str, open: usize) -> usize {
    let mut depth = 0;
    for (at, ch) in source.char_indices().skip(open) {
        match ch {
            '(' => depth += 1,
            ')' => {
                depth -= 1;
                if depth == 0 {
                    return at;
                }
            }
            _ => {}
        }
    }
    panic!("internal testing error: unbalanced parentheses in {:?}", source)
}

/// Reads a type as it is written in source text.
fn ty(source: &str) -> Ty {
    let source = source.trim();
    if let Some(rest) = source.strip_prefix("*const ") {
        return of_kind(TyKind::Ptr(Box::new(ty(rest)), Mutability::Immutable));
    }
    if let Some(rest) = source.strip_prefix("*mut ") {
        return of_kind(TyKind::Ptr(Box::new(ty(rest)), Mutability::Mutable));
    }
    if source == "()" {
        return of_kind(TyKind::Other("()".to_string()));
    }
    if source == "!" {
        return of_kind(TyKind::Never);
    }
    let function = source.strip_prefix("extern ").unwrap_or(source);
    if function.starts_with("fn(") {
        let close = closing(function, 2);
        let mut inputs = Vec::new();
        for param in split_params(&function[3..close]) {
            let (name, param_ty) = match param.find(':') {
                Some(colon) => (param[..colon].trim(), &param[colon + 1..]),
                None => ("", param),
            };
            inputs.push(Arg { name: name.to_string(), ty: ty(param_ty) });
        }
        let output = match function[close + 1..].trim().strip_prefix("->") {
            Some(ret) => FunctionRetTy::Ty(ty(ret)),
            None => FunctionRetTy::Default,
        };
        return of_kind(TyKind::BareFn(Box::new(BareFnTy {
            lifetimes: 0,
            decl: FnDecl { inputs, output },
        })));
    }
    if source.starts_with('[') || source.starts_with('&') || source.starts_with('(') {
        return of_kind(TyKind::Other(source.to_string()));
    }
    of_kind(TyKind::Path(Path {
        span: span(),
        segments: source.split("::").map(|segment| segment.to_string()).collect(),
    }))
}

#[test]
fn pure_rust_types() {
    let type_map = [
        ("()", CType::Void),
        ("f32", CType::Native("float")),
        ("f64", CType::Native("double")),
        ("i8", CType::Native("int8_t")),
        ("i16", CType::Native("int16_t")),
        ("i32", CType::Native("int32_t")),
        ("i64", CType::Native("int64_t")),
        ("isize", CType::Native("intptr_t")),
        ("u8", CType::Native("uint8_t")),
        ("u16", CType::Native("uint16_t")),
        ("u32", CType::Native("uint32_t")),
        ("u64", CType::Native("uint64_t")),
        ("usize", CType::Native("uintptr_t")),
    ];

    let name = "gabriel";

    for &(rust_type, ref correct_c_type) in &type_map {
        let parsed_c_type = anon_rust_to_c(&ty(rust_type)).expect(&format!(
            "error while parsing {:?} with no name",
            rust_type
        ));
        assert_eq!(&parsed_c_type, correct_c_type);

        let parsed_c_type = rust_to_c(&ty(rust_type), name).expect(&format!(
            "error while parsing {:?} with name {:?}",
            rust_type, name
        ));
        assert_eq!(
            parsed_c_type.to_string(),
            format!("{} {}", correct_c_type.to_string(), name)
        );
    }
}

#[test]
fn libc_types() {
    let type_map = [
        ("libc::c_void", "void"),
        ("libc::c_float", "float"),
        ("libc::c_double", "double"),
        ("libc::c_char", "char"),
        ("libc::c_schar", "signed char"),
        ("libc::c_uchar", "unsigned char"),
        ("libc::c_short", "short"),
        ("libc::c_ushort", "unsigned short"),
        ("libc::c_int", "int"),
        ("libc::c_uint", "unsigned int"),
        ("libc::c_long", "long"),
        ("libc::c_ulong", "unsigned long"),
        ("libc::c_longlong", "long long"),
        ("libc::c_ulonglong", "unsigned long long"),
        // Some other common ones.
        ("libc::size_t", "size_t"),
        ("libc::dirent", "dirent"),
        ("libc::FILE", "FILE"),
    ];

    let name = "lucifer";

    for &(rust_type, correct_c_type) in &type_map {
        let parsed_c_type = anon_rust_to_c(&ty(rust_type)).expect(&format!(
            "error while parsing {:?} with no name",
            rust_type
        ));
        assert_eq!(parsed_c_type.to_string(), correct_c_type);

        let parsed_c_type = rust_to_c(&ty(rust_type), name).expect(&format!(
            "error while parsing {:?} with name {:?}",
            rust_type, name
        ));
        assert_eq!(
            parsed_c_type.to_string(),
            format!("{} {}", correct_c_type, name)
        );
    }
}

#[test]
fn const_pointers() {
    let name = "maalik";

    let source = "*const u8";
    let parsed_type = anon_rust_to_c(&ty(source))
        .expect(&format!("error while parsing {:?} with no name", source));
    assert_eq!(parsed_type.to_string(), "uint8_t const*");

    let source = "*const ()";
    let parsed_type = rust_to_c(&ty(source), name).expect(&format!(
        "error while parsing {:?} with name {:?}",
        source, name
    ));
    assert_eq!(parsed_type.to_string(), format!("void const* {}", name));

    let source = "*const *const f64";
    let parsed_type = anon_rust_to_c(&ty(source))
        .expect(&format!("error while parsing {:?} with no name", source));
    assert_eq!(parsed_type.to_string(), "double const* const*");

    let source = "*const *const i64";
    let parsed_type = rust_to_c(&ty(source), name).expect(&format!(
        "error while parsing {:?} with name {:?}",
        source, name
    ));
    assert_eq!(
        parsed_type.to_string(),
        format!("int64_t const* const* {}", name)
    );
}

#[test]
fn mut_pointers() {
    let name = "raphael";

    let source = "*mut u16";
    let parsed_type = anon_rust_to_c(&ty(source))
        .expect(&format!("error while parsing {:?} with no name", source));
    assert_eq!(parsed_type.to_string(), "uint16_t*");

    let source = "*mut f32";
    let parsed_type = rust_to_c(&ty(source), name).expect(&format!(
        "error while parsing {:?} with name {:?}",
        source, name
    ));
    assert_eq!(parsed_type.to_string(), format!("float* {}", name));

    let source = "*mut *mut *mut i32";
    let parsed_type = anon_rust_to_c(&ty(source))
        .expect(&format!("error while parsing {:?} with no name", source));
    assert_eq!(parsed_type.to_string(), "int32_t***");

    let source = "*mut *mut i8";
    let parsed_type = rust_to_c(&ty(source), name).expect(&format!(
        "error while parsing {:?} with name {:?}",
        source, name
    ));
    assert_eq!(parsed_type.to_string(), format!("int8_t** {}", name));
}

#[test]
fn mixed_pointers() {
    let name = "samael";

    let source = "*const *mut *const bool";
    let parsed_type = anon_rust_to_c(&ty(source))
        .expect(&format!("error while parsing {:?} with no name", source));
    assert_eq!(parsed_type.to_string(), "bool const** const*");

    let source = "*mut *mut *const libc::c_ulonglong";
    let parsed_type = rust_to_c(&ty(source), name).expect(&format!(
        "error while parsing {:?} with name {:?}",
        source, name
    ));
    assert_eq!(
        parsed_type.to_string(),
        format!("unsigned long long const*** {}", name)
    );

    let source = "*const *mut *mut i8";
    let parsed_type = rust_to_c(&ty(source), name).expect(&format!(
        "error while parsing {:?} with name {:?}",
        source, name
    ));
    assert_eq!(parsed_type.to_string(), format!("int8_t** const* {}", name));
}

#[test]
fn function_pointers() {
    let name = "sariel";

    let source = "fn(a: bool)";
    let parsed_type = anon_rust_to_c(&ty(source));
    assert!(
        parsed_type.is_err(),
        "C function pointers should have an inner or name associated"
    );

    let source = "extern fn(hi: libc::c_int) -> libc::c_double";
    let parsed_type = rust_to_c(&ty(source), name).expect(&format!(
        "error while parsing {:?} with name {:?}",
        source, name
    ));
    assert_eq!(
        parsed_type.to_string(),
        format!("double (*{})(int hi)", name)
    );
}

#[test]
fn paths() {
    let name = "zachariel";

    let source = "MyType";
    let parsed_type = anon_rust_to_c(&ty(source))
        .expect(&format!("error while parsing {:?} with no name", source));
    assert_eq!(parsed_type.to_string(), "MyType");

    let source = "SomeType";
    let parsed_type = rust_to_c(&ty(source), name).expect(&format!(
        "error while parsing {:?} with name {:?}",
        source, name
    ));
    assert_eq!(parsed_type.to_string(), format!("SomeType {}", name));

    let source = "my_mod::MyType";
    let parsed_type = anon_rust_to_c(&ty(source));
    assert!(
        parsed_type.is_err(),
        "can't use a multi-segment path which isn't `libc`"
    );

    let source = "some_mod::SomeType";
    let parsed_type = rust_to_c(&ty(source), name);
    assert!(
        parsed_type.is_err(),
        "can't use a multi-segment path which isn't `libc`"
    );
}
