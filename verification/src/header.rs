//! Header file names and the text that every header is wrapped in.

use vstd::prelude::*;
use vstd::string::*;
use crate::error::{agrees, failure, Error, ErrorKind, ErrorView};
use crate::text::{join, join_strings};

verus! {

/// Whether `c` may stand in the name of a C macro: a letter or digit of ASCII, or `_`.
pub open spec fn is_ident_char(c: char) -> bool {
    ('0' <= c && c <= '9') || ('a' <= c && c <= 'z') || ('A' <= c && c <= 'Z') || c == '_'
}

/// `id` without the characters that may not stand in the name of a C macro.
pub open spec fn sanitise(id: Seq<char>) -> Seq<char> {
    id.filter(|c: char| is_ident_char(c))
}

/// Removes from `id` every character that may not stand in the name of a C macro.
pub fn sanitise_id(id: &str) -> (s: String)
    ensures
        s@ == sanitise(id@),
{
    let mut s = String::new();
    proof {
        reveal(Seq::filter);
    }
    for c in it: id.chars()
        invariant
            it.seq() == id@,
            s@ == sanitise(id@.take(it.index() as int)),
    {
        proof {
            reveal(Seq::filter);
            assert(id@.take(it.index() + 1).drop_last() =~= id@.take(it.index() as int));
        }
        if ('0' <= c && c <= '9') || ('a' <= c && c <= 'z') || ('A' <= c && c <= 'Z') || c == '_' {
            s.push(c);
        }
    }
    proof {
        assert(id@.take(id@.len() as int) =~= id@);
    }
    s
}

/// Sanitising is idempotent: a sanitised identifier holds nothing left to remove.
pub proof fn lemma_sanitise_idempotent(id: Seq<char>)
    ensures
        sanitise(sanitise(id)) == sanitise(id),
    decreases id.len(),
{
    reveal(Seq::filter);
    if id.len() > 0 {
        lemma_sanitise_idempotent(id.drop_last());
        if is_ident_char(id.last()) {
            let front = sanitise(id.drop_last());
            assert(front.push(id.last()).drop_last() =~= front);
        }
    }
}

/// Sanitising the empty identifier gives the empty identifier.
pub proof fn lemma_sanitise_empty()
    ensures
        sanitise(Seq::empty()) == Seq::<char>::empty(),
{
    reveal(Seq::filter);
}

/// `code` inside a block that tells a C++ compiler to link its declarations as C.
pub open spec fn extern_block(code: Seq<char>) -> Seq<char> {
    "\n#ifdef __cplusplus\nextern \"C\" {\n#endif\n\n"@ + code
        + "\n\n#ifdef __cplusplus\n}\n#endif\n"@
}

/// `code` inside an include guard whose macro is named after `id`.
pub open spec fn include_guard(code: Seq<char>, id: Seq<char>) -> Seq<char> {
    "#ifndef bindgen_"@ + sanitise(id) + "\n#define bindgen_"@ + sanitise(id) + "\n"@ + code
        + "\n#endif\n"@
}

/// The two includes that every header starts with.
pub open spec fn common_includes() -> Seq<char> {
    "#include <stdint.h>\n#include <stdbool.h>\n"@
}

/// The final text of the header `id` whose declarations are `declarations`: the guard,
/// the common includes, and the declarations in a block for C++ compilers.
pub open spec fn header_text(declarations: Seq<char>, id: Seq<char>) -> Seq<char> {
    include_guard(common_includes() + extern_block(declarations), id)
}

/// Wraps a block of code with an extern declaration.
pub fn wrap_extern(code: &str) -> (s: String)
    ensures
        s@ == extern_block(code@),
{
    let mut s = String::from_str("\n#ifdef __cplusplus\nextern \"C\" {\n#endif\n\n");
    s.append(code);
    s.append("\n\n#ifdef __cplusplus\n}\n#endif\n");
    s
}

/// Wraps a block of code with an include guard.
pub fn wrap_guard(code: &str, id: &str) -> (s: String)
    ensures
        s@ == include_guard(code@, id@),
{
    let macro_name = sanitise_id(id);
    let mut s = String::from_str("#ifndef bindgen_");
    s.append(macro_name.as_str());
    s.append("\n#define bindgen_");
    s.append(macro_name.as_str());
    s.append("\n");
    s.append(code);
    s.append("\n#endif\n");
    s
}

/// Wraps the declarations of the header `id` into the header's final text.
pub fn wrap_header(declarations: &str, id: &str) -> (s: String)
    ensures
        s@ == header_text(declarations@, id@),
{
    let mut code = String::from_str("#include <stdint.h>\n#include <stdbool.h>\n");
    let block = wrap_extern(declarations);
    code.append(block.as_str());
    wrap_guard(code.as_str(), id)
}

/// The segments of the header's path for a declaration in `module`: a first segment
/// `ffi` gives way to the library's name, and where that is the only segment the
/// library's name follows once more.
pub open spec fn header_segments(module: Seq<Seq<char>>, lib_name: Seq<char>) -> Seq<Seq<char>>
    recommends
        module.len() > 0,
{
    if module[0] == "ffi"@ {
        if module.len() == 1 {
            seq![lib_name, lib_name]
        } else {
            module.update(0, lib_name)
        }
    } else {
        module
    }
}

/// The name of the header for the declarations of `module`: the header's segments,
/// joined by `separator`, and `.h`.
pub open spec fn header_of(module: Seq<Seq<char>>, lib_name: Seq<char>, separator: char) -> Seq<
    char,
>
    recommends
        module.len() > 0,
{
    join(header_segments(module, lib_name), seq![separator]) + ".h"@
}

/// The error for a module path without a segment.
pub open spec fn empty_module_path() -> ErrorView {
    failure(ErrorKind::EmptyPath, None, "a module path needs at least one segment"@)
}

/// What [`header_name`] returns.
pub open spec fn header_name_spec(
    module: Seq<Seq<char>>,
    lib_name: Seq<char>,
    separator: char,
) -> Result<Seq<char>, ErrorView> {
    if module.len() == 0 {
        Err(empty_module_path())
    } else {
        Ok(header_of(module, lib_name, separator))
    }
}

/// `std::path::MAIN_SEPARATOR`: the character that separates the components of a path
/// on the platform the library was compiled for. Nothing is claimed about which one it is.
#[verifier::external_body]
pub(crate) fn main_separator() -> char {
    std::path::MAIN_SEPARATOR
}

/// Transforms a module path into the name of the header its declarations go to.
pub fn header_name(module: &[String], lib_name: &str, separator: char) -> (r: Result<String, Error>)
    ensures
        agrees(r, header_name_spec(module.deep_view(), lib_name@, separator)),
{
    if module.len() == 0 {
        return Err(
            Error::new(ErrorKind::EmptyPath, None, "a module path needs at least one segment"),
        );
    }
    let ghost segments = header_segments(module.deep_view(), lib_name@);
    let mut module_name: Vec<String> = Vec::new();
    if module[0].as_str().eq("ffi") {
        module_name.push(String::from_str(lib_name));
        // Top-level module of a library: the header gets a directory of its own.
        if module.len() == 1 {
            module_name.push(String::from_str(lib_name));
        }
    } else {
        module_name.push(module[0].clone());
    }
    let mut i: usize = 1;
    while i < module.len()
        invariant
            1 <= i <= module@.len(),
            segments == header_segments(module.deep_view(), lib_name@),
            module@.len() > 1 ==> module_name.deep_view() =~= segments.take(i as int),
            module@.len() == 1 ==> module_name.deep_view() =~= segments,
        decreases module.len() - i,
    {
        module_name.push(module[i].clone());
        i += 1;
    }
    let mut sep = String::new();
    sep.push(separator);
    let parts = module_name.as_slice();
    let mut name = join_strings(parts, parts.len(), sep.as_str());
    proof {
        assert(segments.take(segments.len() as int) =~= segments);
    }
    name.append(".h");
    Ok(name)
}

/// The header of a declaration in the module `ffi` itself is named after the library
/// twice: the directory `lib_name` holds the file `lib_name.h`.
pub proof fn lemma_top_level_header(lib_name: Seq<char>, separator: char)
    ensures
        header_segments(seq!["ffi"@], lib_name) == seq![lib_name, lib_name],
        header_of(seq!["ffi"@], lib_name, separator) == lib_name + seq![separator] + lib_name
            + ".h"@,
{
    let segments = seq![lib_name, lib_name];
    assert(join(segments.drop_last(), seq![separator]) == lib_name);
}

} // verus!
