//! From the types of a declaration to C types.

use vstd::prelude::*;
use vstd::string::*;
use crate::ast::{Arg, BareFnTy, FunctionRetTy, Mutability, Path, Span, Ty, TyKind};
use crate::ctype::{
    named_views, render_params, CPtrType, CType, CTypeNamed, CTypeNamedView, CTypeView,
};
use crate::error::{agrees, failure, Error, ErrorKind, ErrorView};
use crate::text::{join, join_strings};

verus! {

/// What a type name of `libc` or of `std::os::raw` stands for in C: the fourteen names
/// that C has a keyword for give that keyword, any other name stands for itself.
pub open spec fn foreign_primitive(name: Seq<char>) -> CTypeView {
    if name == "c_void"@ {
        CTypeView::Void
    } else if name == "c_float"@ {
        CTypeView::Native("float"@)
    } else if name == "c_double"@ {
        CTypeView::Native("double"@)
    } else if name == "c_char"@ {
        CTypeView::Native("char"@)
    } else if name == "c_schar"@ {
        CTypeView::Native("signed char"@)
    } else if name == "c_uchar"@ {
        CTypeView::Native("unsigned char"@)
    } else if name == "c_short"@ {
        CTypeView::Native("short"@)
    } else if name == "c_ushort"@ {
        CTypeView::Native("unsigned short"@)
    } else if name == "c_int"@ {
        CTypeView::Native("int"@)
    } else if name == "c_uint"@ {
        CTypeView::Native("unsigned int"@)
    } else if name == "c_long"@ {
        CTypeView::Native("long"@)
    } else if name == "c_ulong"@ {
        CTypeView::Native("unsigned long"@)
    } else if name == "c_longlong"@ {
        CTypeView::Native("long long"@)
    } else if name == "c_ulonglong"@ {
        CTypeView::Native("unsigned long long"@)
    } else {
        CTypeView::Mapping(name)
    }
}

/// What a type name without a module stands for in C: the unit type and the primitive
/// numeric and boolean types give their C keyword, any other name stands for itself.
pub open spec fn primitive(name: Seq<char>) -> CTypeView {
    if name == "()"@ {
        CTypeView::Void
    } else if name == "f32"@ {
        CTypeView::Native("float"@)
    } else if name == "f64"@ {
        CTypeView::Native("double"@)
    } else if name == "i8"@ {
        CTypeView::Native("int8_t"@)
    } else if name == "i16"@ {
        CTypeView::Native("int16_t"@)
    } else if name == "i32"@ {
        CTypeView::Native("int32_t"@)
    } else if name == "i64"@ {
        CTypeView::Native("int64_t"@)
    } else if name == "isize"@ {
        CTypeView::Native("intptr_t"@)
    } else if name == "u8"@ {
        CTypeView::Native("uint8_t"@)
    } else if name == "u16"@ {
        CTypeView::Native("uint16_t"@)
    } else if name == "u32"@ {
        CTypeView::Native("uint32_t"@)
    } else if name == "u64"@ {
        CTypeView::Native("uint64_t"@)
    } else if name == "usize"@ {
        CTypeView::Native("uintptr_t"@)
    } else if name == "bool"@ {
        CTypeView::Native("bool"@)
    } else {
        CTypeView::Mapping(name)
    }
}

/// The error for a type that C has nothing for, written as `rendered`.
pub open spec fn unsupported_type(span: Span, rendered: Seq<char>) -> ErrorView {
    failure(
        ErrorKind::UnsupportedType,
        Some(span),
        "bindgen can not handle the type `"@ + rendered + "`"@,
    )
}

/// The error for a function pointer that has no name to be declared under.
pub open spec fn unnamed_function_pointer(span: Span) -> ErrorView {
    failure(
        ErrorKind::UnnamedFunctionPointer,
        Some(span),
        "C function pointers must have a name or function declaration associated with them"@,
    )
}

/// The error for a function or function pointer that never returns.
pub open spec fn diverging(span: Span) -> ErrorView {
    failure(
        ErrorKind::DivergingAcrossBoundary,
        Some(span),
        "panics across a C boundary are naughty!"@,
    )
}

/// The C type that a path stands for. A single segment is looked up among the
/// primitives; a longer path is looked up by its last segment where the segments
/// before it spell `libc` or `std::os::raw`, and is an error in any other module.
pub open spec fn path_spec(path: Path) -> Result<CTypeView, ErrorView> {
    let segments = path.segments.deep_view();
    if segments.len() == 0 {
        Err(failure(ErrorKind::EmptyPath, Some(path.span), "invalid type"@))
    } else if segments.len() == 1 {
        Ok(primitive(segments[0]))
    } else {
        let module = join(segments.drop_last(), "::"@);
        if module == "libc"@ || module == "std::os::raw"@ {
            Ok(foreign_primitive(segments.last()))
        } else {
            Err(
                failure(
                    ErrorKind::UnsupportedModulePath,
                    Some(path.span),
                    "bindgen can not handle types in other modules (except `libc` and `std::os::raw`)"@,
                ),
            )
        }
    }
}

/// The C pointer qualifier for a pointer of the given mutability.
pub open spec fn qualifier(mutbl: Mutability) -> CPtrType {
    match mutbl {
        Mutability::Immutable => CPtrType::Const,
        Mutability::Mutable => CPtrType::Mutable,
    }
}

/// The C type of `ty` where no name is declared with it.
pub open spec fn anon_spec(ty: Ty) -> Result<CTypeView, ErrorView>
    decreases ty, 0nat,
{
    match ty.node {
        TyKind::BareFn(_) => Err(unnamed_function_pointer(ty.span)),
        TyKind::Array(elem) => match anon_spec(*elem) {
            Ok(c) => Ok(CTypeView::Ptr(Box::new(c), CPtrType::Const)),
            Err(e) => Err(e),
        },
        TyKind::Ptr(target, mutbl) => ptr_spec(*target, mutbl),
        TyKind::Path(path) => path_spec(path),
        TyKind::Never => Err(unsupported_type(ty.span, "!"@)),
        TyKind::Other(rendered) => if rendered@ == "()"@ {
            Ok(CTypeView::Void)
        } else {
            Err(unsupported_type(ty.span, rendered@))
        },
    }
}

/// The C type of a pointer to `target`: a pointer to the C type of `target`, `const`
/// where the pointer does not allow writing.
pub open spec fn ptr_spec(target: Ty, mutbl: Mutability) -> Result<CTypeView, ErrorView>
    decreases target, 1nat,
{
    match anon_spec(target) {
        Ok(c) => Ok(CTypeView::Ptr(Box::new(c), qualifier(mutbl))),
        Err(e) => Err(e),
    }
}

/// The C declaration of `ty` under the name `assoc`. A function pointer carries the
/// name inside its own type and needs one; any other type is translated by itself
/// and paired with the name.
pub open spec fn named_spec(ty: Ty, assoc: Seq<char>) -> Result<CTypeNamedView, ErrorView>
    decreases ty, 1nat,
{
    match ty.node {
        TyKind::BareFn(fn_ty) => if assoc.len() == 0 {
            Err(unnamed_function_pointer(ty.span))
        } else {
            match fn_ptr_spec(*fn_ty, ty.span, assoc) {
                Ok(c) => Ok(CTypeNamedView(Seq::empty(), c)),
                Err(e) => Err(e),
            }
        },
        _ => match anon_spec(ty) {
            Ok(c) => Ok(CTypeNamedView(assoc, c)),
            Err(e) => Err(e),
        },
    }
}

/// The C declarations of the parameters `args`, each under its own name; the error of
/// the first parameter that has one.
pub open spec fn args_spec(args: Seq<Arg>) -> Result<Seq<CTypeNamedView>, ErrorView>
    decreases args, 0nat,
{
    if args.len() == 0 {
        Ok(Seq::empty())
    } else {
        match args_spec(args.drop_last()) {
            Err(e) => Err(e),
            Ok(front) => match named_spec(args.last().ty, args.last().name@) {
                Err(e) => Err(e),
                Ok(last) => Ok(front.push(last)),
            },
        }
    }
}

/// The C function pointer type for `fn_ty`, with `inner` where the pointer's name goes.
/// A type with lifetime parameters is refused, then the first parameter in error, then
/// a return type of `!`.
pub open spec fn fn_ptr_spec(fn_ty: BareFnTy, span: Span, inner: Seq<char>) -> Result<
    CTypeView,
    ErrorView,
>
    decreases fn_ty, 0nat,
{
    if fn_ty.lifetimes != 0 {
        Err(
            failure(
                ErrorKind::GenericNotRepresentable,
                Some(span),
                "bindgen can not handle lifetimes"@,
            ),
        )
    } else {
        match args_spec(fn_ty.decl.inputs@) {
            Err(e) => Err(e),
            Ok(args) => match fn_ty.decl.output {
                FunctionRetTy::Default => Ok(
                    CTypeView::FnDecl { inner, args, return_type: Box::new(CTypeView::Void) },
                ),
                FunctionRetTy::Ty(ret) => if ret.node is Never {
                    Err(diverging(ret.span))
                } else {
                    match anon_spec(ret) {
                        Err(e) => Err(e),
                        Ok(c) => Ok(CTypeView::FnDecl { inner, args, return_type: Box::new(c) }),
                    }
                },
            },
        }
    }
}

/// Translates a type name of `libc`.
pub fn libc_ty_to_c(ty: &str) -> (c: CType)
    ensures
        c@ == foreign_primitive(ty@),
{
    if ty.eq("c_void") {
        CType::Void
    } else if ty.eq("c_float") {
        CType::Native("float")
    } else if ty.eq("c_double") {
        CType::Native("double")
    } else if ty.eq("c_char") {
        CType::Native("char")
    } else if ty.eq("c_schar") {
        CType::Native("signed char")
    } else if ty.eq("c_uchar") {
        CType::Native("unsigned char")
    } else if ty.eq("c_short") {
        CType::Native("short")
    } else if ty.eq("c_ushort") {
        CType::Native("unsigned short")
    } else if ty.eq("c_int") {
        CType::Native("int")
    } else if ty.eq("c_uint") {
        CType::Native("unsigned int")
    } else if ty.eq("c_long") {
        CType::Native("long")
    } else if ty.eq("c_ulong") {
        CType::Native("unsigned long")
    } else if ty.eq("c_longlong") {
        CType::Native("long long")
    } else if ty.eq("c_ulonglong") {
        CType::Native("unsigned long long")
    } else {
        CType::Mapping(String::from_str(ty))
    }
}

/// Translates a type name of `std::os::raw`, which names the same types as `libc` does.
pub fn osraw_ty_to_c(ty: &str) -> (c: CType)
    ensures
        c@ == foreign_primitive(ty@),
{
    proof {
        // The fourteen names differ in length or in their third or fourth character.
        reveal_strlit("c_void");
        reveal_strlit("c_float");
        reveal_strlit("c_double");
        reveal_strlit("c_char");
        reveal_strlit("c_schar");
        reveal_strlit("c_uchar");
        reveal_strlit("c_short");
        reveal_strlit("c_ushort");
        reveal_strlit("c_int");
        reveal_strlit("c_uint");
        reveal_strlit("c_long");
        reveal_strlit("c_ulong");
        reveal_strlit("c_longlong");
        reveal_strlit("c_ulonglong");
        assert("c_void"@.len() == 6 && "c_void"@[2] == 'v' && "c_void"@[3] == 'o');
        assert("c_float"@.len() == 7 && "c_float"@[2] == 'f' && "c_float"@[3] == 'l');
        assert("c_double"@.len() == 8 && "c_double"@[2] == 'd' && "c_double"@[3] == 'o');
        assert("c_char"@.len() == 6 && "c_char"@[2] == 'c' && "c_char"@[3] == 'h');
        assert("c_schar"@.len() == 7 && "c_schar"@[2] == 's' && "c_schar"@[3] == 'c');
        assert("c_uchar"@.len() == 7 && "c_uchar"@[2] == 'u' && "c_uchar"@[3] == 'c');
        assert("c_short"@.len() == 7 && "c_short"@[2] == 's' && "c_short"@[3] == 'h');
        assert("c_ushort"@.len() == 8 && "c_ushort"@[2] == 'u' && "c_ushort"@[3] == 's');
        assert("c_int"@.len() == 5 && "c_int"@[2] == 'i' && "c_int"@[3] == 'n');
        assert("c_uint"@.len() == 6 && "c_uint"@[2] == 'u' && "c_uint"@[3] == 'i');
        assert("c_long"@.len() == 6 && "c_long"@[2] == 'l' && "c_long"@[3] == 'o');
        assert("c_ulong"@.len() == 7 && "c_ulong"@[2] == 'u' && "c_ulong"@[3] == 'l');
        assert("c_longlong"@.len() == 10 && "c_longlong"@[2] == 'l' && "c_longlong"@[3] == 'o');
        assert("c_ulonglong"@.len() == 11 && "c_ulonglong"@[2] == 'u' && "c_ulonglong"@[3] == 'l');
    }
    if ty.eq("c_void") {
        CType::Void
    } else if ty.eq("c_char") {
        CType::Native("char")
    } else if ty.eq("c_double") {
        CType::Native("double")
    } else if ty.eq("c_float") {
        CType::Native("float")
    } else if ty.eq("c_int") {
        CType::Native("int")
    } else if ty.eq("c_long") {
        CType::Native("long")
    } else if ty.eq("c_longlong") {
        CType::Native("long long")
    } else if ty.eq("c_schar") {
        CType::Native("signed char")
    } else if ty.eq("c_short") {
        CType::Native("short")
    } else if ty.eq("c_uchar") {
        CType::Native("unsigned char")
    } else if ty.eq("c_uint") {
        CType::Native("unsigned int")
    } else if ty.eq("c_ulong") {
        CType::Native("unsigned long")
    } else if ty.eq("c_ulonglong") {
        CType::Native("unsigned long long")
    } else if ty.eq("c_ushort") {
        CType::Native("unsigned short")
    } else {
        CType::Mapping(String::from_str(ty))
    }
}

/// Translates a type name that stands without a module.
pub fn rust_ty_to_c(ty: &str) -> (c: CType)
    ensures
        c@ == primitive(ty@),
{
    if ty.eq("()") {
        CType::Void
    } else if ty.eq("f32") {
        CType::Native("float")
    } else if ty.eq("f64") {
        CType::Native("double")
    } else if ty.eq("i8") {
        CType::Native("int8_t")
    } else if ty.eq("i16") {
        CType::Native("int16_t")
    } else if ty.eq("i32") {
        CType::Native("int32_t")
    } else if ty.eq("i64") {
        CType::Native("int64_t")
    } else if ty.eq("isize") {
        CType::Native("intptr_t")
    } else if ty.eq("u8") {
        CType::Native("uint8_t")
    } else if ty.eq("u16") {
        CType::Native("uint16_t")
    } else if ty.eq("u32") {
        CType::Native("uint32_t")
    } else if ty.eq("u64") {
        CType::Native("uint64_t")
    } else if ty.eq("usize") {
        CType::Native("uintptr_t")
    } else if ty.eq("bool") {
        CType::Native("bool")
    } else {
        CType::Mapping(String::from_str(ty))
    }
}

/// Translates a path: a lone name as a primitive or a type defined elsewhere, a name in
/// `libc` or `std::os::raw` as that module's type; a name in any other module is refused.
pub fn path_to_c(path: &Path) -> (r: Result<CType, Error>)
    ensures
        agrees(r, path_spec(*path)),
{
    let count = path.segments.len();
    if count == 0 {
        return Err(Error::new(ErrorKind::EmptyPath, Some(path.span), "invalid type"));
    }
    let ghost segments = path.segments.deep_view();
    if count > 1 {
        let parts = path.segments.as_slice();
        let module = join_strings(parts, count - 1, "::");
        proof {
            assert(parts.deep_view() =~= segments);
            assert(segments.take(count - 1) =~= segments.drop_last());
            assert(segments.last() == path.segments@[count - 1]@);
        }
        let name = path.segments[count - 1].as_str();
        if module.as_str().eq("libc") {
            Ok(libc_ty_to_c(name))
        } else if module.as_str().eq("std::os::raw") {
            Ok(osraw_ty_to_c(name))
        } else {
            Err(
                Error::new(
                    ErrorKind::UnsupportedModulePath,
                    Some(path.span),
                    "bindgen can not handle types in other modules (except `libc` and `std::os::raw`)",
                ),
            )
        }
    } else {
        Ok(rust_ty_to_c(path.segments[0].as_str()))
    }
}

/// The error for a type that C has nothing for.
fn reject_type(span: Span, rendered: &str) -> (e: Error)
    ensures
        e@ == unsupported_type(span, rendered@),
{
    let mut message = String::from_str("bindgen can not handle the type `");
    message.append(rendered);
    message.append("`");
    Error::new(ErrorKind::UnsupportedType, Some(span), message.as_str())
}

/// The error for a function pointer that has no name to be declared under.
fn reject_unnamed(span: Span) -> (e: Error)
    ensures
        e@ == unnamed_function_pointer(span),
{
    Error::new(
        ErrorKind::UnnamedFunctionPointer,
        Some(span),
        "C function pointers must have a name or function declaration associated with them",
    )
}

/// Translates a type under the name it is declared with. A function pointer takes the
/// name into its own type and is refused without one.
pub fn rust_to_c(ty: &Ty, assoc: &str) -> (r: Result<CTypeNamed, Error>)
    ensures
        agrees(r, named_spec(*ty, assoc@)),
    decreases ty, 1nat,
{
    match &ty.node {
        TyKind::BareFn(fn_ty) => {
            if assoc.is_empty() {
                Err(reject_unnamed(ty.span))
            } else {
                match fn_ptr_to_c(fn_ty, ty.span, assoc) {
                    Ok(c) => Ok(CTypeNamed(String::new(), c)),
                    Err(e) => Err(e),
                }
            }
        },
        _ => match anon_rust_to_c(ty) {
            Ok(c) => Ok(CTypeNamed(String::from_str(assoc), c)),
            Err(e) => Err(e),
        },
    }
}

/// Translates a type that stands without a name.
pub fn anon_rust_to_c(ty: &Ty) -> (r: Result<CType, Error>)
    ensures
        agrees(r, anon_spec(*ty)),
    decreases ty, 0nat,
{
    match &ty.node {
        TyKind::BareFn(_) => Err(reject_unnamed(ty.span)),
        TyKind::Array(elem) => match anon_rust_to_c(elem) {
            Ok(c) => Ok(CType::Ptr(Box::new(c), CPtrType::Const)),
            Err(e) => Err(e),
        },
        TyKind::Ptr(target, mutbl) => ptr_to_c(target, *mutbl),
        TyKind::Path(path) => path_to_c(path),
        TyKind::Never => Err(reject_type(ty.span, "!")),
        TyKind::Other(rendered) => {
            if rendered.as_str().eq("()") {
                Ok(CType::Void)
            } else {
                Err(reject_type(ty.span, rendered.as_str()))
            }
        },
    }
}

/// Translates a pointer to `target`.
pub fn ptr_to_c(target: &Ty, mutbl: Mutability) -> (r: Result<CType, Error>)
    ensures
        agrees(r, ptr_spec(*target, mutbl)),
    decreases target, 1nat,
{
    match anon_rust_to_c(target) {
        Ok(c) => {
            let const_spec = match mutbl {
                Mutability::Immutable => CPtrType::Const,
                Mutability::Mutable => CPtrType::Mutable,
            };
            Ok(CType::Ptr(Box::new(c), const_spec))
        },
        Err(e) => Err(e),
    }
}

/// Translates a function pointer type; `inner` is the text that stands where the
/// pointer's name goes, a name or the rest of a function's declaration.
pub fn fn_ptr_to_c(fn_ty: &BareFnTy, fn_span: Span, inner: &str) -> (r: Result<CType, Error>)
    ensures
        agrees(r, fn_ptr_spec(*fn_ty, fn_span, inner@)),
    decreases fn_ty, 0nat,
{
    if fn_ty.lifetimes != 0 {
        return Err(
            Error::new(
                ErrorKind::GenericNotRepresentable,
                Some(fn_span),
                "bindgen can not handle lifetimes",
            ),
        );
    }
    let args = match args_to_c(&fn_ty.decl.inputs) {
        Ok(args) => args,
        Err(e) => {
            return Err(e);
        },
    };
    let return_type = match &fn_ty.decl.output {
        FunctionRetTy::Default => CType::Void,
        FunctionRetTy::Ty(ret) => {
            if let TyKind::Never = ret.node {
                return Err(
                    Error::new(
                        ErrorKind::DivergingAcrossBoundary,
                        Some(ret.span),
                        "panics across a C boundary are naughty!",
                    ),
                );
            }
            match anon_rust_to_c(ret) {
                Ok(c) => c,
                Err(e) => {
                    return Err(e);
                },
            }
        },
    };
    let c = CType::FnDecl {
        inner: String::from_str(inner),
        args,
        return_type: Box::new(return_type),
    };
    proof {
        assert(c@->args =~= named_views(args@));
        assert(c@ == CTypeView::FnDecl {
            inner: inner@,
            args: named_views(args@),
            return_type: Box::new(return_type@),
        });
    }
    Ok(c)
}

/// Translates the parameters of a function or function pointer, each under its own
/// name.
pub fn args_to_c(inputs: &Vec<Arg>) -> (r: Result<Vec<CTypeNamed>, Error>)
    ensures
        match args_spec(inputs@) {
            Ok(args) => r matches Ok(v) && named_views(v@) == args,
            Err(e) => r matches Err(x) && x@ == e,
        },
    decreases inputs, 0nat,
{
    let mut args: Vec<CTypeNamed> = Vec::new();
    let mut i: usize = 0;
    proof {
        assert(named_views(args@) =~= Seq::<CTypeNamedView>::empty());
    }
    while i < inputs.len()
        invariant
            i <= inputs.len(),
            args_spec(inputs@.take(i as int)) == Ok::<Seq<CTypeNamedView>, ErrorView>(
                named_views(args@),
            ),
        decreases inputs.len() - i,
    {
        proof {
            assert(inputs@.take(i + 1).drop_last() =~= inputs@.take(i as int));
        }
        match rust_to_c(&inputs[i].ty, inputs[i].name.as_str()) {
            Ok(arg) => {
                let ghost before = named_views(args@);
                args.push(arg);
                assert(named_views(args@) =~= before.push(arg@));
            },
            Err(e) => {
                proof {
                    lemma_args_error_stays(inputs@, i + 1);
                }
                return Err(e);
            },
        }
        i += 1;
    }
    proof {
        assert(inputs@.take(inputs.len() as int) =~= inputs@);
    }
    Ok(args)
}

/// An error among the first `count` parameters is the error of the whole list.
pub proof fn lemma_args_error_stays(args: Seq<Arg>, count: int)
    requires
        0 <= count <= args.len(),
        args_spec(args.take(count)) is Err,
    ensures
        args_spec(args) == args_spec(args.take(count)),
    decreases args.len() - count,
{
    if count < args.len() {
        assert(args.take(count + 1).drop_last() =~= args.take(count));
        lemma_args_error_stays(args, count + 1);
    } else {
        assert(args.take(count) =~= args);
    }
}

/// A type that is one name translates to what the name stands for: a primitive gives
/// its keyword where it stands alone, and the keyword, a space and the name where it
/// is declared under a name.
pub proof fn lemma_primitive_rendering(ty: Ty, assoc: Seq<char>)
    requires
        ty.node matches TyKind::Path(path) && path.segments@.len() == 1,
        assoc.len() > 0,
    ensures
        ({
            let keyword = primitive(ty.node->Path_0.segments@[0]@).render();
            &&& anon_spec(ty) matches Ok(c) && c.render() == keyword
            &&& named_spec(ty, assoc) matches Ok(c) && c.render() == keyword + " "@ + assoc
        }),
{
    let path = ty.node->Path_0;
    assert(path.segments.deep_view()[0] == path.segments@[0]@);
}

/// A pointer renders as its target, then ` const*` where the pointer does not allow
/// writing and `*` where it does: the qualifiers of nested pointers stand in the order
/// of the nesting, innermost first.
pub proof fn lemma_pointer_rendering(target: Ty, span: Span)
    requires
        anon_spec(target) is Ok,
    ensures
        ({
            let pointee = anon_spec(target)->Ok_0.render();
            let immutable = Ty {
                node: TyKind::Ptr(Box::new(target), Mutability::Immutable),
                span,
            };
            let mutable = Ty { node: TyKind::Ptr(Box::new(target), Mutability::Mutable), span };
            &&& anon_spec(immutable) matches Ok(c) && c.render() == pointee + " const*"@
            &&& anon_spec(mutable) matches Ok(c) && c.render() == pointee + "*"@
        }),
{
    reveal_strlit(" const");
    reveal_strlit("*");
    reveal_strlit(" const*");
    let pointee = anon_spec(target)->Ok_0.render();
    assert(pointee + " const"@ + "*"@ =~= pointee + " const*"@);
    assert(pointee + Seq::<char>::empty() + "*"@ =~= pointee + "*"@);
    let immutable = Ty { node: TyKind::Ptr(Box::new(target), Mutability::Immutable), span };
    let mutable = Ty { node: TyKind::Ptr(Box::new(target), Mutability::Mutable), span };
    assert(anon_spec(immutable) == ptr_spec(target, Mutability::Immutable));
    assert(anon_spec(mutable) == ptr_spec(target, Mutability::Mutable));
    assert(anon_spec(immutable)->Ok_0.render() == pointee + " const"@ + "*"@);
    assert(anon_spec(mutable)->Ok_0.render() == pointee + Seq::<char>::empty() + "*"@);
}

/// An array renders as a pointer to its element that does not allow writing; its
/// length is not kept.
pub proof fn lemma_array_rendering(element: Ty, span: Span)
    requires
        anon_spec(element) is Ok,
    ensures
        anon_spec(Ty { node: TyKind::Array(Box::new(element)), span }) matches Ok(c) && c.render()
            == anon_spec(element)->Ok_0.render() + " const*"@,
{
    reveal_strlit(" const");
    reveal_strlit("*");
    reveal_strlit(" const*");
    let pointee = anon_spec(element)->Ok_0.render();
    assert(pointee + " const"@ + "*"@ =~= pointee + " const*"@);
    let array = Ty { node: TyKind::Array(Box::new(element)), span };
    assert(anon_spec(array)->Ok_0.render() == pointee + " const"@ + "*"@);
}

/// Whether a function with this return type never returns, or returns a function
/// pointer of which the same holds.
pub open spec fn diverges(output: FunctionRetTy) -> bool
    decreases output,
{
    output matches FunctionRetTy::Ty(ret) && (ret.node is Never || (
    ret.node matches TyKind::BareFn(returned) && diverges(returned.decl.output)))
}

/// A function pointer that never returns is refused, whatever its parameters are.
pub proof fn lemma_diverging_pointer_is_refused(fn_ty: BareFnTy, span: Span, inner: Seq<char>)
    requires
        diverges(fn_ty.decl.output),
    ensures
        fn_ptr_spec(fn_ty, span, inner) is Err,
{
}

/// A function pointer without parameters has `void` for its parameter list.
pub proof fn lemma_pointer_without_parameters(fn_ty: BareFnTy, span: Span, inner: Seq<char>)
    requires
        fn_ty.decl.inputs@.len() == 0,
        fn_ptr_spec(fn_ty, span, inner) is Ok,
    ensures
        ({
            let c = fn_ptr_spec(fn_ty, span, inner)->Ok_0;
            c matches CTypeView::FnDecl { inner: name, args, return_type } && c.render()
                == return_type.render() + " (*"@ + name + ")("@ + "void"@ + ")"@
        }),
{
    assert(args_spec(fn_ty.decl.inputs@) == Ok::<Seq<CTypeNamedView>, ErrorView>(Seq::empty()));
    assert(render_params(Seq::<CTypeNamedView>::empty()) == "void"@);
}

} // verus!
