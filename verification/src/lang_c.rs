//! The C back end: declarations come in one by one, headers come out.

use vstd::prelude::*;
use vstd::string::*;
use crate::ast::{FnDecl, Item};
use crate::ctype::{named_views, param_dependencies, CType};
use crate::emit::{
    alias_declaration, alias_spec, enum_declaration, enum_spec, fn_declaration, fn_spec,
    native_fn_declaration, native_fn_spec, struct_declaration, struct_spec, Declaration,
    DeclarationView,
};
use crate::error::{failure, Error, ErrorKind, ErrorView};
use crate::graph::{has_cycle, is_topological_order, sort_headers, toposort_of};
use crate::header::{empty_module_path, header_name, header_name_spec, header_of, main_separator};
use crate::link::{
    collect_edges, header_edges, includes_text, umbrella_includes, wrap_headers, wrapped,
};
use crate::outputs::{
    appended, distinct_keys, find_key, inserted, lemma_distinct_kept, lookup, registered, Entries,
    Outputs,
};

verus! {

/// The C back end. It gathers which header each exported type is defined in and which
/// types each header uses, for the headers to be put in order at the end.
#[derive(Debug)]
pub struct LangC {
    lib_name: String,
    separator: char,
    decls: Vec<(String, String)>,
    deps: Vec<(String, String)>,
}

/// Mathematical model of a [`LangC`].
pub struct LangCView {
    /// The name of the library.
    pub lib_name: Seq<char>,
    /// The character between the segments of a header's path.
    pub separator: char,
    /// For each exported type the header that defines it.
    pub decls: Entries,
    /// The uses of types defined elsewhere: the header that uses one, with the name
    /// of the type.
    pub deps: Entries,
}

impl View for LangC {
    type V = LangCView;

    closed spec fn view(&self) -> LangCView {
        LangCView {
            lib_name: self.lib_name@,
            separator: self.separator,
            decls: self.decls.deep_view(),
            deps: self.deps.deep_view(),
        }
    }
}

/// The uses of the types `names` by the header `header`.
pub open spec fn uses(header: Seq<char>, names: Seq<Seq<char>>) -> Entries {
    Seq::new(names.len(), |i: int| (header, names[i]))
}

impl LangCView {
    /// The state after the header `header` was seen to use the types `names`.
    pub open spec fn with_uses(self, header: Seq<char>, names: Seq<Seq<char>>) -> LangCView {
        LangCView { deps: self.deps + uses(header, names), ..self }
    }

    /// The state after the type `name` was defined in `header`; a type that is
    /// defined already stays where it is.
    pub open spec fn with_definition(self, name: Seq<char>, header: Seq<char>) -> LangCView {
        LangCView { decls: registered(self.decls, name, header), ..self }
    }

    /// The header for the declarations of `module`.
    pub open spec fn header(self, module: Seq<Seq<char>>) -> Seq<char>
        recommends
            module.len() > 0,
    {
        header_of(module, self.lib_name, self.separator)
    }

    /// The state after `declaration` went to `header`: the header uses the types that
    /// the declaration mentions, and defines the type that the declaration defines.
    pub open spec fn with_declaration(
        self,
        header: Seq<char>,
        declaration: DeclarationView,
    ) -> LangCView {
        let used = self.with_uses(header, param_dependencies(declaration.types));
        match declaration.defines {
            Some(name) => used.with_definition(name, header),
            None => used,
        }
    }
}

/// The back end and the files after one step, with what the step returned.
pub struct Step {
    pub state: LangCView,
    pub outputs: Entries,
    pub result: Result<(), ErrorView>,
}

/// Whether a step that left the back end as `lang`, the files as `outputs` and that
/// returned `r` is the step `expected`.
pub open spec fn step_is(
    lang: LangC,
    outputs: Outputs,
    r: Result<(), Error>,
    expected: Step,
) -> bool {
    &&& lang@ == expected.state
    &&& outputs@ == expected.outputs
    &&& match expected.result {
        Ok(_) => r is Ok,
        Err(e) => r matches Err(x) && x@ == e,
    }
}

/// What handing over a declaration of the module `module` does, where translating it
/// had the outcome `outcome`. An error, or a declaration that is passed over, changes
/// nothing. A translated declaration needs a module path with a segment; its text is
/// appended to the header of the module, and the back end takes note of it.
pub open spec fn emitted(
    state: LangCView,
    outputs: Entries,
    module: Seq<Seq<char>>,
    outcome: Result<Option<DeclarationView>, ErrorView>,
) -> Step {
    match outcome {
        Err(e) => Step { state, outputs, result: Err(e) },
        Ok(None) => Step { state, outputs, result: Ok(()) },
        Ok(Some(declaration)) => if module.len() == 0 {
            Step { state, outputs, result: Err(empty_module_path()) }
        } else {
            let header = state.header(module);
            Step {
                state: state.with_declaration(header, declaration),
                outputs: appended(outputs, header, declaration.text),
                result: Ok(()),
            }
        },
    }
}

/// The error for headers that need each other.
pub open spec fn dependency_cycle() -> ErrorView {
    failure(
        ErrorKind::DependencyCycle,
        None,
        "the headers cannot be ordered: some of them depend on each other"@,
    )
}

/// The edges between the files of `outputs` that the uses known to `state` give.
pub open spec fn include_edges(state: LangCView, outputs: Entries) -> Seq<(usize, usize)> {
    header_edges(outputs, state.decls, state.deps)
}

/// The name of the header that includes all the others.
pub open spec fn umbrella_name(state: LangCView) -> Seq<char> {
    state.lib_name + ".h"@
}

/// What finishing a run does to the files. Where the headers can be sorted, each is
/// wrapped into its final text, and the header named after the library includes them
/// in the sorted order. Where they cannot, the files stay as they are.
pub open spec fn finalised(state: LangCView, outputs: Entries) -> Step {
    match toposort_of(outputs.len(), include_edges(state, outputs)) {
        Some(order) => Step {
            state,
            outputs: inserted(
                wrapped(outputs),
                umbrella_name(state),
                includes_text(outputs, order),
            ),
            result: Ok(()),
        },
        None => Step { state, outputs, result: Err(dependency_cycle()) },
    }
}

impl LangC {
    #[verifier::type_invariant]
    closed spec fn defined_once(&self) -> bool {
        distinct_keys(self.decls.deep_view())
    }

    /// A back end for the library `backend`, without any declaration yet.
    pub fn new() -> (lang: LangC)
        ensures
            lang@.lib_name == "backend"@,
            lang@.decls == Seq::<(Seq<char>, Seq<char>)>::empty(),
            lang@.deps == Seq::<(Seq<char>, Seq<char>)>::empty(),
    {
        let lang = LangC {
            lib_name: String::from_str("backend"),
            separator: main_separator(),
            decls: Vec::new(),
            deps: Vec::new(),
        };
        lang
    }

    /// Set the name of the native library.
    pub fn set_lib_name(&mut self, name: &str)
        ensures
            final(self)@ == (LangCView { lib_name: name@, ..old(self)@ }),
    {
        proof {
            use_type_invariant(&*self);
        }
        self.lib_name = String::from_str(name);
    }

    /// The name of the native library.
    pub fn lib_name(&self) -> (name: &String)
        ensures
            name@ == self@.lib_name,
    {
        &self.lib_name
    }

    /// The character between the segments of a header's path.
    pub fn separator(&self) -> (separator: char)
        ensures
            separator == self@.separator,
    {
        self.separator
    }

    /// The header that defines the exported type `name`. No type is defined twice.
    pub fn defining_header(&self, name: &str) -> (r: Option<&String>)
        ensures
            distinct_keys(self@.decls),
            match lookup(self@.decls, name@) {
                Some(header) => r matches Some(found) && found@ == header,
                None => r is None,
            },
    {
        proof {
            use_type_invariant(self);
        }
        match find_key(&self.decls, name) {
            Some(at) => Some(&self.decls[at].1),
            None => None,
        }
    }

    /// Takes note that the header of `module` uses the types that `cty` mentions. The
    /// header is only asked for where `cty` mentions any.
    pub fn add_dependencies(&mut self, module: &[String], cty: &CType) -> (r: Result<(), Error>)
        ensures
            cty@.dependencies().len() == 0 ==> r is Ok && final(self)@ == old(self)@,
            cty@.dependencies().len() > 0 ==> match header_name_spec(
                module.deep_view(),
                old(self)@.lib_name,
                old(self)@.separator,
            ) {
                Ok(header) => r is Ok && final(self)@ == old(self)@.with_uses(
                    header,
                    cty@.dependencies(),
                ),
                Err(e) => r matches Err(x) && x@ == e && final(self)@ == old(self)@,
            },
    {
        let deps = cty.dependencies();
        if deps.len() == 0 {
            return Ok(());
        }
        let header = match header_name(module, self.lib_name.as_str(), self.separator) {
            Ok(header) => header,
            Err(e) => {
                return Err(e);
            },
        };
        proof {
            use_type_invariant(&*self);
        }
        let ghost names = deps.deep_view();
        let ghost before = self.deps.deep_view();
        let mut facts: Vec<(String, String)> = Vec::new();
        core::mem::swap(&mut self.deps, &mut facts);
        let mut i: usize = 0;
        while i < deps.len()
            invariant
                i <= deps.len(),
                names == deps.deep_view(),
                facts.deep_view() =~= before + uses(header@, names.take(i as int)),
            decreases deps.len() - i,
        {
            let ghost recorded = facts.deep_view();
            facts.push((header.clone(), deps[i].clone()));
            proof {
                assert(facts.deep_view() =~= recorded.push((header@, names[i as int])));
                assert(uses(header@, names.take(i + 1)) =~= uses(
                    header@,
                    names.take(i as int),
                ).push((header@, names[i as int])));
            }
            i += 1;
        }
        proof {
            assert(names.take(deps.len() as int) =~= names);
        }
        self.deps = facts;
        Ok(())
    }

    /// Appends `buffer` to the header of `module`.
    pub fn append_to_header(
        &mut self,
        buffer: String,
        module: &[String],
        outputs: &mut Outputs,
    ) -> (r: Result<(), Error>)
        ensures
            final(self)@ == old(self)@,
            match header_name_spec(
                module.deep_view(),
                old(self)@.lib_name,
                old(self)@.separator,
            ) {
                Ok(header) => r is Ok && final(outputs)@ == appended(
                    old(outputs)@,
                    header,
                    buffer@,
                ),
                Err(e) => r matches Err(x) && x@ == e && final(outputs)@ == old(outputs)@,
            },
    {
        let header = match header_name(module, self.lib_name.as_str(), self.separator) {
            Ok(header) => header,
            Err(e) => {
                return Err(e);
            },
        };
        outputs.append(buffer, header.as_str());
        Ok(())
    }

    /// Puts a translated declaration where it belongs: its text goes to the header
    /// of `module`, and the back end takes note of the types it uses and defines.
    pub fn record(
        &mut self,
        declaration: Declaration,
        module: &[String],
        outputs: &mut Outputs,
    ) -> (r: Result<(), Error>)
        ensures
            step_is(
                *final(self),
                *final(outputs),
                r,
                emitted(
                    old(self)@,
                    old(outputs)@,
                    module.deep_view(),
                    Ok(Some(declaration@)),
                ),
            ),
    {
        let header = match header_name(module, self.lib_name.as_str(), self.separator) {
            Ok(header) => header,
            Err(e) => {
                return Err(e);
            },
        };
        // The module has a header, so that nothing below can fail halfway.
        let Declaration { text, types, defines } = declaration;
        let ghost views = named_views(types@);
        let mut i: usize = 0;
        while i < types.len()
            invariant
                i <= types.len(),
                views == named_views(types@),
                module@.len() > 0,
                header@ == header_of(
                    module.deep_view(),
                    old(self)@.lib_name,
                    old(self)@.separator,
                ),
                self@ == old(self)@.with_uses(header@, param_dependencies(views.take(i as int))),
            decreases types.len() - i,
        {
            self.add_dependencies(module, &types[i].1)?;
            proof {
                assert(views.take(i + 1).drop_last() =~= views.take(i as int));
                let front = param_dependencies(views.take(i as int));
                let more = types@[i as int].1@.dependencies();
                assert(self@.deps =~= old(self)@.deps + uses(header@, front + more));
            }
            i += 1;
        }
        proof {
            assert(views.take(types.len() as int) =~= views);
        }
        self.append_to_header(text, module, outputs)?;
        if let Some(name) = defines {
            proof {
                use_type_invariant(&*self);
                lemma_distinct_kept(self.decls.deep_view(), name@, header@);
            }
            if find_key(&self.decls, name.as_str()).is_none() {
                let ghost known = self.decls.deep_view();
                let mut definitions: Vec<(String, String)> = Vec::new();
                core::mem::swap(&mut self.decls, &mut definitions);
                definitions.push((name, header));
                assert(definitions.deep_view() =~= known.push((name@, header@)));
                self.decls = definitions;
            }
        }
        Ok(())
    }

    /// Transform a function's signature into a C function declaration.
    pub fn transform_native_fn(
        &mut self,
        fn_decl: &FnDecl,
        docs: &str,
        name: &str,
        module: &[String],
        outputs: &mut Outputs,
    ) -> (r: Result<(), Error>)
        ensures
            step_is(
                *final(self),
                *final(outputs),
                r,
                emitted(
                    old(self)@,
                    old(outputs)@,
                    module.deep_view(),
                    match native_fn_spec(*fn_decl, docs@, name@) {
                        Ok(d) => Ok(Some(d)),
                        Err(e) => Err(e),
                    },
                ),
            ),
    {
        match native_fn_declaration(fn_decl, docs, name) {
            Ok(declaration) => self.record(declaration, module, outputs),
            Err(e) => Err(e),
        }
    }

    /// Puts the outcome of translating a declaration where it belongs.
    fn emit(
        &mut self,
        outcome: Result<Option<Declaration>, Error>,
        module: &[String],
        outputs: &mut Outputs,
    ) -> (r: Result<(), Error>)
        ensures
            step_is(
                *final(self),
                *final(outputs),
                r,
                emitted(
                    old(self)@,
                    old(outputs)@,
                    module.deep_view(),
                    match outcome {
                        Ok(Some(d)) => Ok(Some(d@)),
                        Ok(None) => Ok(None),
                        Err(e) => Err(e@),
                    },
                ),
            ),
    {
        match outcome {
            Ok(Some(declaration)) => self.record(declaration, module, outputs),
            Ok(None) => Ok(()),
            Err(e) => Err(e),
        }
    }

    /// Convert `pub type A = B;` into `typedef B A;`.
    ///
    /// Passes over A if it is generic.
    pub fn parse_ty(
        &mut self,
        item: &Item,
        module: &[String],
        outputs: &mut Outputs,
    ) -> (r: Result<(), Error>)
        ensures
            step_is(
                *final(self),
                *final(outputs),
                r,
                emitted(old(self)@, old(outputs)@, module.deep_view(), alias_spec(*item)),
            ),
    {
        self.emit(alias_declaration(item), module, outputs)
    }

    /// Convert an enum into a C enum.
    ///
    /// The enum must ask for the C layout, otherwise it is passed over. It is an error
    /// if the enum is generic or if it has variants that carry data.
    pub fn parse_enum(
        &mut self,
        item: &Item,
        module: &[String],
        outputs: &mut Outputs,
    ) -> (r: Result<(), Error>)
        ensures
            step_is(
                *final(self),
                *final(outputs),
                r,
                emitted(old(self)@, old(outputs)@, module.deep_view(), enum_spec(*item)),
            ),
    {
        self.emit(enum_declaration(item), module, outputs)
    }

    /// Convert a struct into a C struct.
    ///
    /// The struct must ask for the C layout, otherwise it is passed over. It is an
    /// error if the struct is generic, has no fields, or has several unnamed fields.
    pub fn parse_struct(
        &mut self,
        item: &Item,
        module: &[String],
        outputs: &mut Outputs,
    ) -> (r: Result<(), Error>)
        ensures
            step_is(
                *final(self),
                *final(outputs),
                r,
                emitted(old(self)@, old(outputs)@, module.deep_view(), struct_spec(*item)),
            ),
    {
        self.emit(struct_declaration(item), module, outputs)
    }

    /// Convert a function declaration into a C function declaration.
    ///
    /// The function must keep its name as its symbol and have a calling convention
    /// of C, otherwise it is passed over. It is an error if it is generic or never
    /// returns.
    pub fn parse_fn(
        &mut self,
        item: &Item,
        module: &[String],
        outputs: &mut Outputs,
    ) -> (r: Result<(), Error>)
        ensures
            step_is(
                *final(self),
                *final(outputs),
                r,
                emitted(old(self)@, old(outputs)@, module.deep_view(), fn_spec(*item)),
            ),
    {
        self.emit(fn_declaration(item), module, outputs)
    }

    /// Finishes a run: wraps each header into its final text and adds the header that
    /// includes them all, each after the headers that define what it uses. Where no
    /// such order exists the files are left as they are.
    pub fn finalise_output(&mut self, outputs: &mut Outputs) -> (r: Result<(), Error>)
        ensures
            step_is(*final(self), *final(outputs), r, finalised(old(self)@, old(outputs)@)),
            r is Ok ==> is_topological_order(
                toposort_of(
                    old(outputs)@.len(),
                    include_edges(old(self)@, old(outputs)@),
                )->0,
                old(outputs)@.len(),
                include_edges(old(self)@, old(outputs)@),
            ),
            r is Err <==> has_cycle(include_edges(old(self)@, old(outputs)@)),
    {
        let edges = collect_edges(outputs, &self.decls, &self.deps);
        match sort_headers(outputs, &edges) {
            Some(order) => {
                let includes = umbrella_includes(outputs, &order);
                wrap_headers(outputs);
                let mut name = self.lib_name.clone();
                name.append(".h");
                outputs.insert(name, includes);
                Ok(())
            },
            None => Err(
                Error::new(
                    ErrorKind::DependencyCycle,
                    None,
                    "the headers cannot be ordered: some of them depend on each other",
                ),
            ),
        }
    }
}

impl Default for LangC {
    fn default() -> (lang: LangC)
        ensures
            lang@.lib_name == "backend"@,
            lang@.decls == Seq::<(Seq<char>, Seq<char>)>::empty(),
            lang@.deps == Seq::<(Seq<char>, Seq<char>)>::empty(),
    {
        LangC::new()
    }
}

} // verus!
