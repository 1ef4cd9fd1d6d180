//! C type descriptions and their rendering.

use vstd::prelude::*;
use vstd::string::*;

verus! {

/// Qualifier of one pointer level.
#[derive(Debug, PartialEq, Eq, Clone, Copy, Structural)]
pub enum CPtrType {
    Const,
    Mutable,
}

/// A C type.
#[derive(Debug, PartialEq)]
pub enum CType {
    /// `void`.
    Void,
    /// A type defined elsewhere, referred to by its name.
    Mapping(String),
    /// A keyword of C itself, or of its fixed-width integer headers.
    Native(&'static str),
    /// A pointer to the first field, qualified by the second.
    Ptr(Box<CType>, CPtrType),
    /// A function pointer; `inner` is the text that stands where the pointer's name goes.
    FnDecl { inner: String, args: Vec<CTypeNamed>, return_type: Box<CType> },
}

/// A C type together with the name it is declared under; the name is empty where the
/// type stands alone.
#[derive(Debug, PartialEq)]
pub struct CTypeNamed(pub String, pub CType);

/// Mathematical model of a [`CType`].
pub enum CTypeView {
    Void,
    Mapping(Seq<char>),
    Native(Seq<char>),
    Ptr(Box<CTypeView>, CPtrType),
    FnDecl { inner: Seq<char>, args: Seq<CTypeNamedView>, return_type: Box<CTypeView> },
}

/// Mathematical model of a [`CTypeNamed`].
pub struct CTypeNamedView(pub Seq<char>, pub CTypeView);

/// The model of `c`.
pub open spec fn ctype_view(c: CType) -> CTypeView
    decreases c,
{
    match c {
        CType::Void => CTypeView::Void,
        CType::Mapping(s) => CTypeView::Mapping(s@),
        CType::Native(s) => CTypeView::Native(s@),
        CType::Ptr(inner, q) => CTypeView::Ptr(Box::new(ctype_view(*inner)), q),
        CType::FnDecl { inner, args, return_type } => CTypeView::FnDecl {
            inner: inner@,
            args: Seq::new(
                args@.len(),
                |i: int|
                    if 0 <= i < args@.len() {
                        CTypeNamedView(args@[i].0@, ctype_view(args@[i].1))
                    } else {
                        arbitrary()
                    },
            ),
            return_type: Box::new(ctype_view(*return_type)),
        },
    }
}

impl View for CType {
    type V = CTypeView;

    open spec fn view(&self) -> CTypeView {
        ctype_view(*self)
    }
}

impl View for CTypeNamed {
    type V = CTypeNamedView;

    open spec fn view(&self) -> CTypeNamedView {
        CTypeNamedView(self.0@, self.1@)
    }
}

/// The models of `args`, in order.
pub open spec fn named_views(args: Seq<CTypeNamed>) -> Seq<CTypeNamedView> {
    Seq::new(args.len(), |i: int| args[i]@)
}

impl CPtrType {
    /// The text this qualifier puts between the pointee and the `*`.
    pub open spec fn render(self) -> Seq<char> {
        match self {
            CPtrType::Const => " const"@,
            CPtrType::Mutable => Seq::empty(),
        }
    }

    /// The qualifier as C text: ` const`, or nothing for a mutable pointee.
    pub fn to_string(&self) -> (s: String)
        ensures
            s@ == self.render(),
    {
        match self {
            CPtrType::Const => String::from_str(" const"),
            CPtrType::Mutable => String::new(),
        }
    }
}

impl CTypeView {
    /// The type as C text.
    pub open spec fn render(self) -> Seq<char>
        decreases self, 0nat,
    {
        match self {
            CTypeView::Void => "void"@,
            CTypeView::Mapping(s) => s,
            CTypeView::Native(s) => s,
            CTypeView::Ptr(inner, q) => inner.render() + q.render() + "*"@,
            CTypeView::FnDecl { inner, args, return_type } => return_type.render() + " (*"@
                + inner + ")("@ + render_params(args) + ")"@,
        }
    }

    /// The names of the types defined elsewhere that this type refers to, in the order
    /// in which they are met: for a function pointer the return type's first, then each
    /// parameter's.
    pub open spec fn dependencies(self) -> Seq<Seq<char>>
        decreases self,
    {
        match self {
            CTypeView::Void => Seq::empty(),
            CTypeView::Mapping(s) => seq![s],
            CTypeView::Native(_) => Seq::empty(),
            CTypeView::Ptr(inner, _) => inner.dependencies(),
            CTypeView::FnDecl { inner, args, return_type } => return_type.dependencies()
                + param_dependencies(args),
        }
    }
}

impl CTypeNamedView {
    /// The declaration as C text: a function pointer carries its name inside itself,
    /// any other type is followed by a space and the name, and stands alone where
    /// the name is empty.
    pub open spec fn render(self) -> Seq<char>
        decreases self, 0nat,
    {
        if self.1 is FnDecl || self.0.len() == 0 {
            self.1.render()
        } else {
            self.1.render() + " "@ + self.0
        }
    }
}

/// A parameter list as C text: `void` for no parameter, else the parameters' declarations
/// separated by a comma and a space.
pub open spec fn render_params(args: Seq<CTypeNamedView>) -> Seq<char>
    decreases args, 1nat,
{
    if args.len() == 0 {
        "void"@
    } else {
        render_list(args)
    }
}

/// The declarations of `args`, separated by a comma and a space.
pub open spec fn render_list(args: Seq<CTypeNamedView>) -> Seq<char>
    decreases args, 0nat,
{
    if args.len() == 0 {
        Seq::empty()
    } else if args.len() == 1 {
        args[0].render()
    } else {
        render_list(args.drop_last()) + ", "@ + args.last().render()
    }
}

/// The dependencies of each parameter's type, one parameter after the other.
pub open spec fn param_dependencies(args: Seq<CTypeNamedView>) -> Seq<Seq<char>>
    decreases args,
{
    if args.len() == 0 {
        Seq::empty()
    } else {
        param_dependencies(args.drop_last()) + args.last().1.dependencies()
    }
}

impl CType {
    /// The type as C text.
    pub fn to_string(&self) -> (s: String)
        ensures
            s@ == self@.render(),
        decreases self,
    {
        match self {
            CType::Void => String::from_str("void"),
            CType::Mapping(m) => m.clone(),
            CType::Native(n) => String::from_str(n),
            CType::Ptr(inner, q) => {
                let mut s = inner.to_string();
                let qualifier = q.to_string();
                s.append(qualifier.as_str());
                s.append("*");
                s
            },
            CType::FnDecl { inner, args, return_type } => {
                let mut s = return_type.to_string();
                s.append(" (*");
                s.append(inner.as_str());
                s.append(")(");
                let params = parameters_to_string(args);
                s.append(params.as_str());
                s.append(")");
                proof {
                    assert(self@->args =~= named_views(args@));
                }
                s
            },
        }
    }

    /// The names of the types defined elsewhere that this type refers to.
    pub fn dependencies(&self) -> (deps: Vec<String>)
        ensures
            deps.deep_view() == self@.dependencies(),
        decreases self,
    {
        match self {
            CType::FnDecl { inner, args, return_type } => {
                let mut deps = return_type.dependencies();
                let mut i: usize = 0;
                while i < args.len()
                    invariant
                        i <= args.len(),
                        decreases_to!(self => args),
                        deps.deep_view() == ctype_view(**return_type).dependencies()
                            + param_dependencies(named_views(args@).take(i as int)),
                    decreases args.len() - i,
                {
                    let mut more = args[i].1.dependencies();
                    proof {
                        let views = named_views(args@);
                        assert(views.take(i + 1).drop_last() =~= views.take(i as int));
                        assert((deps.deep_view() + more.deep_view()) =~= ctype_view(
                            **return_type,
                        ).dependencies() + param_dependencies(views.take(i + 1)));
                    }
                    deps.append(&mut more);
                    i += 1;
                }
                proof {
                    assert(named_views(args@).take(args.len() as int) =~= named_views(args@));
                    assert(self@->args =~= named_views(args@));
                }
                deps
            },
            CType::Ptr(inner, _) => inner.dependencies(),
            CType::Mapping(m) => {
                let mut deps = Vec::new();
                deps.push(m.clone());
                deps
            },
            _ => {
                let deps: Vec<String> = Vec::new();
                deps
            },
        }
    }
}

impl CTypeNamed {
    /// The declaration as C text.
    pub fn to_string(&self) -> (s: String)
        ensures
            s@ == self@.render(),
        decreases self,
    {
        let mut s = self.1.to_string();
        match self.1 {
            CType::FnDecl { .. } => {},
            _ => {
                if !self.0.as_str().is_empty() {
                    s.append(" ");
                    s.append(self.0.as_str());
                }
            },
        }
        s
    }
}

/// Renders a parameter list: `void` where it is empty, else the parameters'
/// declarations separated by `, `.
pub fn parameters_to_string(args: &Vec<CTypeNamed>) -> (s: String)
    ensures
        s@ == render_params(named_views(args@)),
    decreases args,
{
    if args.len() == 0 {
        return String::from_str("void");
    }
    let ghost views = named_views(args@);
    let mut s = args[0].to_string();
    let mut i: usize = 1;
    while i < args.len()
        invariant
            1 <= i <= args.len(),
            views == named_views(args@),
            s@ == render_list(views.take(i as int)),
        decreases args.len() - i,
    {
        s.append(", ");
        let next = args[i].to_string();
        s.append(next.as_str());
        proof {
            assert(views.take(i + 1).drop_last() =~= views.take(i as int));
        }
        i += 1;
    }
    proof {
        assert(views.take(args.len() as int) =~= views);
    }
    s
}

} // verus!
