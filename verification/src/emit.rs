//! From one declaration to its C text: what is exported, what is refused, and how the
//! text reads.

use vstd::prelude::*;
use vstd::string::*;
use crate::ast::{FnDecl, FunctionRetTy, Item, ItemKind, StructField, TyKind, Variant, VariantData};
use crate::ctype::{
    named_views, parameters_to_string, render_params, CTypeNamed, CTypeNamedView,
};
use crate::error::{failure, Error, ErrorKind, ErrorView};
use crate::translate::{
    args_spec, args_to_c, diverges, diverging, lemma_diverging_pointer_is_refused, named_spec,
    rust_to_c,
};

verus! {

/// What one declaration adds to a header.
#[derive(Debug, PartialEq)]
pub struct Declaration {
    /// The C text of the declaration, with its documentation before it.
    pub text: String,
    /// The C types that the text declares something of, in the order of the text.
    pub types: Vec<CTypeNamed>,
    /// The name of the type that the text defines, where it defines one.
    pub defines: Option<String>,
}

/// Mathematical model of a [`Declaration`].
pub struct DeclarationView {
    pub text: Seq<char>,
    pub types: Seq<CTypeNamedView>,
    pub defines: Option<Seq<char>>,
}

impl View for Declaration {
    type V = DeclarationView;

    open spec fn view(&self) -> DeclarationView {
        DeclarationView {
            text: self.text@,
            types: named_views(self.types@),
            defines: match self.defines {
                Some(name) => Some(name@),
                None => None,
            },
        }
    }
}

/// Whether the outcome `r` of translating a declaration is the one that `expected`
/// describes; `None` stands for a declaration that is passed over.
pub open spec fn emits(
    r: Result<Option<Declaration>, Error>,
    expected: Result<Option<DeclarationView>, ErrorView>,
) -> bool {
    match expected {
        Ok(Some(d)) => r matches Ok(Some(x)) && x@ == d,
        Ok(None) => r matches Ok(None),
        Err(e) => r matches Err(x) && x@ == e,
    }
}

/// The error for a declaration handed to the translation of another kind.
pub open spec fn wrong_declaration(item: Item, message: Seq<char>) -> ErrorView {
    failure(ErrorKind::WrongDeclaration, Some(item.span), message)
}

/// The error for a declaration with parameters of its own.
pub open spec fn generic_declaration(item: Item, message: Seq<char>) -> ErrorView {
    failure(ErrorKind::GenericNotRepresentable, Some(item.span), message)
}

/// The error for a struct that C has no layout for.
pub open spec fn unrepresentable_aggregate(item: Item) -> ErrorView {
    failure(
        ErrorKind::UnrepresentableAggregate,
        Some(item.span),
        "bindgen can not handle unit or tuple `#[repr(C)]` structs with >1 members"@,
    )
}

/// The error for an enum variant that carries data.
pub open spec fn non_unit_variant(variant: Variant) -> ErrorView {
    failure(
        ErrorKind::NonUnitVariant,
        Some(variant.span),
        "bindgen can not handle `#[repr(C)]` enums with non-unit variants"@,
    )
}

/// What a type alias becomes: `typedef`, the aliased type declared under the alias's
/// name, and a semicolon. An alias with parameters is passed over.
pub open spec fn alias_spec(item: Item) -> Result<Option<DeclarationView>, ErrorView> {
    match item.node {
        ItemKind::Ty { ty, generic } => if generic {
            Ok(None)
        } else {
            match named_spec(ty, item.name@) {
                Err(e) => Err(e),
                Ok(c) => Ok(
                    Some(
                        DeclarationView {
                            text: item.docs@ + "typedef "@ + c.render() + ";\n\n"@,
                            types: seq![c],
                            defines: Some(item.name@),
                        },
                    ),
                ),
            }
        },
        _ => Err(wrong_declaration(item, "`parse_ty` called on an item that is no type alias"@)),
    }
}

/// The line of one enumerator of the enum `name`: the variant's documentation, then
/// the enum's name, an underscore and the variant's own name.
pub open spec fn enumerator_line(name: Seq<char>, variant: Variant) -> Seq<char> {
    variant.docs@ + "\t"@ + name + "_"@ + variant.name@ + ",\n"@
}

/// The lines of the enumerators of the enum `name`, one for each variant. The first
/// variant that carries data is an error.
pub open spec fn variants_spec(name: Seq<char>, variants: Seq<Variant>) -> Result<
    Seq<char>,
    ErrorView,
>
    decreases variants.len(),
{
    if variants.len() == 0 {
        Ok(Seq::empty())
    } else {
        let variant = variants.last();
        match variants_spec(name, variants.drop_last()) {
            Err(e) => Err(e),
            Ok(front) => if !variant.unit {
                Err(non_unit_variant(variant))
            } else {
                Ok(front + enumerator_line(name, variant))
            },
        }
    }
}

/// What an enum becomes: a C enum under the same name. An enum that does not ask for
/// the C layout is passed over; one with parameters is an error.
pub open spec fn enum_spec(item: Item) -> Result<Option<DeclarationView>, ErrorView> {
    if !item.repr_c {
        Ok(None)
    } else {
        match item.node {
            ItemKind::Enum { variants, generic } => if generic {
                Err(
                    generic_declaration(
                        item,
                        "bindgen can not handle parameterized `#[repr(C)]` enums"@,
                    ),
                )
            } else {
                match variants_spec(item.name@, variants@) {
                    Err(e) => Err(e),
                    Ok(body) => Ok(
                        Some(
                            DeclarationView {
                                text: item.docs@ + "typedef enum "@ + item.name@ + " {\n"@ + body
                                    + "} "@ + item.name@ + ";\n\n"@,
                                types: Seq::empty(),
                                defines: None,
                            },
                        ),
                    ),
                }
            },
            _ => Err(wrong_declaration(item, "`parse_enum` called on an item that is no enum"@)),
        }
    }
}

/// The lines of the fields of a struct, with the fields' C types: each field's
/// documentation, then its type declared under its name. The error of the first field
/// that has one.
pub open spec fn fields_spec(fields: Seq<StructField>) -> Result<
    (Seq<char>, Seq<CTypeNamedView>),
    ErrorView,
>
    decreases fields.len(),
{
    if fields.len() == 0 {
        Ok((Seq::empty(), Seq::empty()))
    } else {
        let field = fields.last();
        match fields_spec(fields.drop_last()) {
            Err(e) => Err(e),
            Ok(front) => match named_spec(field.ty, field.name@) {
                Err(e) => Err(e),
                Ok(c) => Ok(
                    (front.0 + field.docs@ + "\t"@ + c.render() + ";\n"@, front.1.push(c)),
                ),
            },
        }
    }
}

/// What a struct becomes. With named fields, a C struct of the same fields; with one
/// unnamed field, the declaration of a struct whose layout stays hidden; any other
/// struct is an error. A struct that does not ask for the C layout is passed over; one
/// with parameters is an error.
pub open spec fn struct_spec(item: Item) -> Result<Option<DeclarationView>, ErrorView> {
    if !item.repr_c {
        Ok(None)
    } else {
        match item.node {
            ItemKind::Struct { data, generic } => if generic {
                Err(
                    generic_declaration(
                        item,
                        "bindgen can not handle parameterized `#[repr(C)]` structs"@,
                    ),
                )
            } else {
                match data {
                    VariantData::Struct(fields) => match fields_spec(fields@) {
                        Err(e) => Err(e),
                        Ok(body) => Ok(
                            Some(
                                DeclarationView {
                                    text: item.docs@ + "typedef struct "@ + item.name@ + " {\n"@
                                        + body.0 + "}"@ + " "@ + item.name@ + ";\n\n"@,
                                    types: body.1,
                                    defines: Some(item.name@),
                                },
                            ),
                        ),
                    },
                    VariantData::Tuple(types) => if types@.len() == 1 {
                        Ok(
                            Some(
                                DeclarationView {
                                    text: item.docs@ + "typedef struct "@ + item.name@ + " "@
                                        + item.name@ + ";\n\n"@,
                                    types: Seq::empty(),
                                    defines: Some(item.name@),
                                },
                            ),
                        )
                    } else {
                        Err(unrepresentable_aggregate(item))
                    },
                    VariantData::Unit => Err(unrepresentable_aggregate(item)),
                }
            },
            _ => Err(
                wrong_declaration(item, "`parse_struct` called on an item that is no struct"@),
            ),
        }
    }
}

/// The name of a function with its parameter list in parentheses.
pub open spec fn fn_head(name: Seq<char>, args: Seq<CTypeNamedView>) -> Seq<char> {
    name + "("@ + render_params(args) + ")"@
}

/// What a function's signature becomes: the return type declared under the function's
/// name and parameter list, so that a function pointer that is returned wraps both.
/// The error of the first parameter that has one comes first, then a return type of `!`.
pub open spec fn native_fn_spec(fn_decl: FnDecl, docs: Seq<char>, name: Seq<char>) -> Result<
    DeclarationView,
    ErrorView,
> {
    match args_spec(fn_decl.inputs@) {
        Err(e) => Err(e),
        Ok(args) => match fn_decl.output {
            FunctionRetTy::Default => Ok(
                DeclarationView {
                    text: docs + "void "@ + fn_head(name, args) + ";\n\n"@,
                    types: args,
                    defines: None,
                },
            ),
            FunctionRetTy::Ty(ret) => if ret.node is Never {
                Err(diverging(ret.span))
            } else {
                match named_spec(ret, fn_head(name, args)) {
                    Err(e) => Err(e),
                    Ok(c) => Ok(
                        DeclarationView {
                            text: docs + c.render() + ";\n\n"@,
                            types: args.push(c),
                            defines: None,
                        },
                    ),
                }
            },
        },
    }
}

/// What a function becomes. A function that does not keep its name as its symbol, or
/// whose calling convention C cannot call, is passed over; one with parameters of its
/// own is an error.
pub open spec fn fn_spec(item: Item) -> Result<Option<DeclarationView>, ErrorView> {
    if !item.no_mangle {
        Ok(None)
    } else {
        match item.node {
            ItemKind::Fn { decl, abi, generic } => if !abi.c_callable() {
                Ok(None)
            } else if generic {
                Err(
                    generic_declaration(
                        item,
                        "bindgen can not handle parameterized extern functions"@,
                    ),
                )
            } else {
                match native_fn_spec(decl, item.docs@, item.name@) {
                    Err(e) => Err(e),
                    Ok(d) => Ok(Some(d)),
                }
            },
            _ => Err(wrong_declaration(item, "`parse_fn` called on an item that is no function"@)),
        }
    }
}

/// Translates a type alias.
pub fn alias_declaration(item: &Item) -> (r: Result<Option<Declaration>, Error>)
    ensures
        emits(r, alias_spec(*item)),
{
    match &item.node {
        ItemKind::Ty { ty, generic } => {
            // Generic aliases have no counterpart in C.
            if *generic {
                return Ok(None);
            }
            let new_type = match rust_to_c(ty, item.name.as_str()) {
                Ok(c) => c,
                Err(e) => {
                    return Err(e);
                },
            };
            let mut text = item.docs.clone();
            text.append("typedef ");
            let rendered = new_type.to_string();
            text.append(rendered.as_str());
            text.append(";\n\n");
            let mut types: Vec<CTypeNamed> = Vec::new();
            let ghost declared = new_type@;
            types.push(new_type);
            proof {
                assert(named_views(types@) =~= seq![declared]);
            }
            Ok(Some(Declaration { text, types, defines: Some(item.name.clone()) }))
        },
        _ => Err(
            Error::new(
                ErrorKind::WrongDeclaration,
                Some(item.span),
                "`parse_ty` called on an item that is no type alias",
            ),
        ),
    }
}

/// A variant in error among the first `count` is the error of all the variants.
proof fn lemma_variants_error_stays(name: Seq<char>, variants: Seq<Variant>, count: int)
    requires
        0 <= count <= variants.len(),
        variants_spec(name, variants.take(count)) is Err,
    ensures
        variants_spec(name, variants) == variants_spec(name, variants.take(count)),
    decreases variants.len() - count,
{
    if count < variants.len() {
        assert(variants.take(count + 1).drop_last() =~= variants.take(count));
        lemma_variants_error_stays(name, variants, count + 1);
    } else {
        assert(variants.take(count) =~= variants);
    }
}

/// Renders the enumerators of the enum `name`.
fn variants_to_c(name: &str, variants: &Vec<Variant>) -> (r: Result<String, Error>)
    ensures
        match variants_spec(name@, variants@) {
            Ok(body) => r matches Ok(s) && s@ == body,
            Err(e) => r matches Err(x) && x@ == e,
        },
{
    let mut body = String::new();
    let mut i: usize = 0;
    while i < variants.len()
        invariant
            i <= variants.len(),
            variants_spec(name@, variants@.take(i as int)) == Ok::<Seq<char>, ErrorView>(body@),
        decreases variants.len() - i,
    {
        let variant = &variants[i];
        proof {
            assert(variants@.take(i + 1).drop_last() =~= variants@.take(i as int));
        }
        if !variant.unit {
            proof {
                lemma_variants_error_stays(name@, variants@, i + 1);
            }
            return Err(
                Error::new(
                    ErrorKind::NonUnitVariant,
                    Some(variant.span),
                    "bindgen can not handle `#[repr(C)]` enums with non-unit variants",
                ),
            );
        }
        let ghost before = body@;
        body.append(variant.docs.as_str());
        body.append("\t");
        body.append(name);
        body.append("_");
        body.append(variant.name.as_str());
        body.append(",\n");
        proof {
            assert(body@ =~= before + enumerator_line(name@, *variant));
        }
        i += 1;
    }
    proof {
        assert(variants@.take(variants.len() as int) =~= variants@);
    }
    Ok(body)
}

/// Translates an enum into a C enum.
pub fn enum_declaration(item: &Item) -> (r: Result<Option<Declaration>, Error>)
    ensures
        emits(r, enum_spec(*item)),
{
    // Without the C layout it cannot be used from C.
    if !item.repr_c {
        return Ok(None);
    }
    match &item.node {
        ItemKind::Enum { variants, generic } => {
            if *generic {
                return Err(
                    Error::new(
                        ErrorKind::GenericNotRepresentable,
                        Some(item.span),
                        "bindgen can not handle parameterized `#[repr(C)]` enums",
                    ),
                );
            }
            let body = match variants_to_c(item.name.as_str(), variants) {
                Ok(body) => body,
                Err(e) => {
                    return Err(e);
                },
            };
            let mut text = item.docs.clone();
            text.append("typedef enum ");
            text.append(item.name.as_str());
            text.append(" {\n");
            text.append(body.as_str());
            text.append("} ");
            text.append(item.name.as_str());
            text.append(";\n\n");
            let types: Vec<CTypeNamed> = Vec::new();
            proof {
                assert(named_views(types@) =~= Seq::<CTypeNamedView>::empty());
            }
            Ok(Some(Declaration { text, types, defines: None }))
        },
        _ => Err(
            Error::new(
                ErrorKind::WrongDeclaration,
                Some(item.span),
                "`parse_enum` called on an item that is no enum",
            ),
        ),
    }
}

/// A field in error among the first `count` is the error of all the fields.
proof fn lemma_fields_error_stays(fields: Seq<StructField>, count: int)
    requires
        0 <= count <= fields.len(),
        fields_spec(fields.take(count)) is Err,
    ensures
        fields_spec(fields) == fields_spec(fields.take(count)),
    decreases fields.len() - count,
{
    if count < fields.len() {
        assert(fields.take(count + 1).drop_last() =~= fields.take(count));
        lemma_fields_error_stays(fields, count + 1);
    } else {
        assert(fields.take(count) =~= fields);
    }
}

/// Renders the fields of a struct, and gives their C types.
fn fields_to_c(fields: &Vec<StructField>) -> (r: Result<(String, Vec<CTypeNamed>), Error>)
    ensures
        match fields_spec(fields@) {
            Ok(body) => r matches Ok(found) && found.0@ == body.0 && named_views(found.1@)
                == body.1,
            Err(e) => r matches Err(x) && x@ == e,
        },
{
    let mut body = String::new();
    let mut types: Vec<CTypeNamed> = Vec::new();
    let mut i: usize = 0;
    proof {
        assert(named_views(types@) =~= Seq::<CTypeNamedView>::empty());
    }
    while i < fields.len()
        invariant
            i <= fields.len(),
            fields_spec(fields@.take(i as int)) == Ok::<
                (Seq<char>, Seq<CTypeNamedView>),
                ErrorView,
            >((body@, named_views(types@))),
        decreases fields.len() - i,
    {
        let field = &fields[i];
        proof {
            assert(fields@.take(i + 1).drop_last() =~= fields@.take(i as int));
        }
        let ty = match rust_to_c(&field.ty, field.name.as_str()) {
            Ok(ty) => ty,
            Err(e) => {
                proof {
                    lemma_fields_error_stays(fields@, i + 1);
                }
                return Err(e);
            },
        };
        body.append(field.docs.as_str());
        body.append("\t");
        let rendered = ty.to_string();
        body.append(rendered.as_str());
        body.append(";\n");
        let ghost before = named_views(types@);
        let ghost declared = ty@;
        types.push(ty);
        proof {
            assert(named_views(types@) =~= before.push(declared));
        }
        i += 1;
    }
    proof {
        assert(fields@.take(fields.len() as int) =~= fields@);
    }
    Ok((body, types))
}

/// Translates a struct into a C struct.
pub fn struct_declaration(item: &Item) -> (r: Result<Option<Declaration>, Error>)
    ensures
        emits(r, struct_spec(*item)),
{
    // Without the C layout it cannot be used from C.
    if !item.repr_c {
        return Ok(None);
    }
    match &item.node {
        ItemKind::Struct { data, generic } => {
            if *generic {
                return Err(
                    Error::new(
                        ErrorKind::GenericNotRepresentable,
                        Some(item.span),
                        "bindgen can not handle parameterized `#[repr(C)]` structs",
                    ),
                );
            }
            let mut text = item.docs.clone();
            text.append("typedef struct ");
            text.append(item.name.as_str());
            let mut types: Vec<CTypeNamed> = Vec::new();
            proof {
                assert(named_views(types@) =~= Seq::<CTypeNamedView>::empty());
            }
            match data {
                VariantData::Struct(fields) => {
                    let (body, field_types) = match fields_to_c(fields) {
                        Ok(found) => found,
                        Err(e) => {
                            return Err(e);
                        },
                    };
                    text.append(" {\n");
                    text.append(body.as_str());
                    text.append("}");
                    types = field_types;
                },
                VariantData::Tuple(unnamed) => {
                    // One unnamed field: the struct is declared, its layout is not.
                    if unnamed.len() != 1 {
                        return Err(
                            Error::new(
                                ErrorKind::UnrepresentableAggregate,
                                Some(item.span),
                                "bindgen can not handle unit or tuple `#[repr(C)]` structs with >1 members",
                            ),
                        );
                    }
                },
                VariantData::Unit => {
                    return Err(
                        Error::new(
                            ErrorKind::UnrepresentableAggregate,
                            Some(item.span),
                            "bindgen can not handle unit or tuple `#[repr(C)]` structs with >1 members",
                        ),
                    );
                },
            }
            text.append(" ");
            text.append(item.name.as_str());
            text.append(";\n\n");
            Ok(Some(Declaration { text, types, defines: Some(item.name.clone()) }))
        },
        _ => Err(
            Error::new(
                ErrorKind::WrongDeclaration,
                Some(item.span),
                "`parse_struct` called on an item that is no struct",
            ),
        ),
    }
}

/// Translates the signature of a function into a C function declaration.
pub fn native_fn_declaration(fn_decl: &FnDecl, docs: &str, name: &str) -> (r: Result<
    Declaration,
    Error,
>)
    ensures
        match native_fn_spec(*fn_decl, docs@, name@) {
            Ok(d) => r matches Ok(x) && x@ == d,
            Err(e) => r matches Err(x) && x@ == e,
        },
{
    // A function pointer that is returned wraps the function's name and parameters, so
    // these come first and are handed to the translation of the return type.
    let mut types = match args_to_c(&fn_decl.inputs) {
        Ok(args) => args,
        Err(e) => {
            return Err(e);
        },
    };
    let mut head = String::from_str(name);
    head.append("(");
    let params = parameters_to_string(&types);
    head.append(params.as_str());
    head.append(")");
    let mut text = String::from_str(docs);
    match &fn_decl.output {
        FunctionRetTy::Default => {
            text.append("void ");
            text.append(head.as_str());
        },
        FunctionRetTy::Ty(ret) => {
            if let TyKind::Never = ret.node {
                return Err(
                    Error::new(
                        ErrorKind::DivergingAcrossBoundary,
                        Some(ret.span),
                        "panics across a C boundary are naughty!",
                    ),
                );
            }
            let returned = match rust_to_c(ret, head.as_str()) {
                Ok(c) => c,
                Err(e) => {
                    return Err(e);
                },
            };
            let rendered = returned.to_string();
            text.append(rendered.as_str());
            let ghost before = named_views(types@);
            let ghost declared = returned@;
            types.push(returned);
            proof {
                assert(named_views(types@) =~= before.push(declared));
            }
        },
    }
    text.append(";\n\n");
    Ok(Declaration { text, types, defines: None })
}

/// Translates a function into a C function declaration.
pub fn fn_declaration(item: &Item) -> (r: Result<Option<Declaration>, Error>)
    ensures
        emits(r, fn_spec(*item)),
{
    // A function whose symbol is not its name cannot be called from C.
    if !item.no_mangle {
        return Ok(None);
    }
    match &item.node {
        ItemKind::Fn { decl, abi, generic } => {
            // Nor can one with a calling convention that C does not have.
            if !abi.is_c_callable() {
                return Ok(None);
            }
            if *generic {
                return Err(
                    Error::new(
                        ErrorKind::GenericNotRepresentable,
                        Some(item.span),
                        "bindgen can not handle parameterized extern functions",
                    ),
                );
            }
            match native_fn_declaration(decl, item.docs.as_str(), item.name.as_str()) {
                Ok(d) => Ok(Some(d)),
                Err(e) => Err(e),
            }
        },
        _ => Err(
            Error::new(
                ErrorKind::WrongDeclaration,
                Some(item.span),
                "`parse_fn` called on an item that is no function",
            ),
        ),
    }
}

/// A function without parameters has `void` for its parameter list.
pub proof fn lemma_function_without_parameters(fn_decl: FnDecl, docs: Seq<char>, name: Seq<char>)
    requires
        fn_decl.inputs@.len() == 0,
        fn_decl.output is Default,
    ensures
        native_fn_spec(fn_decl, docs, name) matches Ok(d) && d.text == docs + "void "@ + (name
            + "(void)"@) + ";\n\n"@,
{
    reveal_strlit("(");
    reveal_strlit("void");
    reveal_strlit(")");
    reveal_strlit("(void)");
}

/// A function that never returns, or that returns a function pointer that never
/// returns, is refused, whatever its parameters are.
pub proof fn lemma_diverging_function_is_refused(fn_decl: FnDecl, docs: Seq<char>, name: Seq<char>)
    requires
        diverges(fn_decl.output),
    ensures
        native_fn_spec(fn_decl, docs, name) is Err,
{
    if args_spec(fn_decl.inputs@) is Ok {
        let ret = fn_decl.output->Ty_0;
        if let TyKind::BareFn(returned) = ret.node {
            let head = fn_head(name, args_spec(fn_decl.inputs@)->Ok_0);
            lemma_diverging_pointer_is_refused(*returned, ret.span, head);
        }
    }
}

/// An exported function that never returns is refused, whatever its parameters are.
pub proof fn lemma_diverging_item_is_refused(item: Item)
    requires
        item.no_mangle,
        item.node matches ItemKind::Fn { decl, abi, generic } && abi.c_callable() && diverges(
            decl.output,
        ),
    ensures
        fn_spec(item) is Err,
{
    lemma_diverging_function_is_refused(item.node->Fn_decl, item.docs@, item.name@);
}

/// A struct with unnamed fields is refused where it has two or more of them. Where it
/// has exactly one, only the struct's name is declared: the text holds nothing of the
/// field.
pub proof fn lemma_positional_struct(item: Item)
    requires
        item.repr_c,
        item.node matches ItemKind::Struct { data: VariantData::Tuple(_), generic: false },
    ensures
        ({
            let fields = item.node->Struct_data->Tuple_0@;
            &&& fields.len() >= 2 ==> (struct_spec(item) matches Err(e) && e.kind
                == ErrorKind::UnrepresentableAggregate)
            &&& fields.len() == 1 ==> (struct_spec(item) matches Ok(Some(d)) && d.text
                == item.docs@ + "typedef struct "@ + item.name@ + " "@ + item.name@ + ";\n\n"@
                && d.types.len() == 0)
        }),
{
}

/// The enumerator lines of all of `variants`, one after the other.
pub open spec fn enumerator_lines(name: Seq<char>, variants: Seq<Variant>) -> Seq<char>
    decreases variants.len(),
{
    if variants.len() == 0 {
        Seq::empty()
    } else {
        enumerator_lines(name, variants.drop_last()) + enumerator_line(name, variants.last())
    }
}

/// The variants of an enum are refused where one of them carries data; where none
/// does, each gives the line of its enumerator.
pub proof fn lemma_variants(name: Seq<char>, variants: Seq<Variant>)
    ensures
        (exists|k: int| 0 <= k < variants.len() && !variants[k].unit) ==> (variants_spec(
            name,
            variants,
        ) matches Err(e) && e.kind == ErrorKind::NonUnitVariant),
        (forall|k: int| 0 <= k < variants.len() ==> variants[k].unit) ==> variants_spec(
            name,
            variants,
        ) == Ok::<Seq<char>, ErrorView>(enumerator_lines(name, variants)),
    decreases variants.len(),
{
    if variants.len() > 0 {
        let front = variants.drop_last();
        lemma_variants(name, front);
        if exists|k: int| 0 <= k < variants.len() && !variants[k].unit {
            let k = choose|k: int| 0 <= k < variants.len() && !variants[k].unit;
            if k < front.len() {
                assert(!front[k].unit);
            }
        }
    }
}

/// An enum that asks for the C layout is refused where one of its variants carries
/// data. Where none does, its text is a C enum whose enumerators are named by the
/// enum's name, an underscore and the variant's name.
pub proof fn lemma_enum_variants(item: Item)
    requires
        item.repr_c,
        item.node matches ItemKind::Enum { variants: _, generic: false },
    ensures
        ({
            let variants = item.node->Enum_variants@;
            &&& (exists|k: int| 0 <= k < variants.len() && !variants[k].unit) ==> (enum_spec(
                item,
            ) matches Err(e) && e.kind == ErrorKind::NonUnitVariant)
            &&& (forall|k: int| 0 <= k < variants.len() ==> variants[k].unit) ==> (enum_spec(
                item,
            ) matches Ok(Some(d)) && d.text == item.docs@ + "typedef enum "@ + item.name@
                + " {\n"@ + enumerator_lines(item.name@, variants) + "} "@ + item.name@
                + ";\n\n"@)
        }),
{
    lemma_variants(item.name@, item.node->Enum_variants@);
}

} // verus!
