//! The `Name` tree: the sole AST node kind of the mangled grammar, and its
//! mathematical mirror `NameV` used in specifications.

use vstd::prelude::*;

verus! {

/// A single-character modifier code's rendering position and text.
#[derive(Debug)]
pub enum Modifier {
    OnPrefix(String),
    OnSuffix(String),
}

/// Mathematical mirror of [`Modifier`].
pub ghost enum ModifierV {
    OnPrefix(Seq<char>),
    OnSuffix(Seq<char>),
}

impl View for Modifier {
    type V = ModifierV;

    open spec fn view(&self) -> ModifierV {
        match self {
            Modifier::OnPrefix(s) => ModifierV::OnPrefix(s@),
            Modifier::OnSuffix(s) => ModifierV::OnSuffix(s@),
        }
    }
}

/// A parsed name: a finite, acyclic tree. Back-reference and repeat tokens of
/// the names-list sub-grammar are resolved away before a list is returned, so
/// no transient placeholder variant exists here.
#[derive(Debug)]
pub enum Name {
    /// A literal token (function/type/namespace segment name).
    Identifier(String),
    /// One of a fixed alphabet of single-character primitive-type codes.
    BaseType(char),
    /// A callee applied to an ordered argument list.
    WithArguments(Box<Name>, Vec<Name>),
    /// A base instantiated with an ordered template-argument list.
    Template(Box<Name>, Vec<Name>),
    /// A modifier applied to an inner name.
    Modifier(Modifier, Box<Name>),
    /// An ordered list of scope segments, outermost first.
    Namespace(Vec<Name>),
    /// A leaf qualified by an enclosing scope; renders `parent::leaf`.
    InName(Box<Name>, Box<Name>),
    /// A base together with its return type; renders `returnType base`.
    WithReturnValue(Box<Name>, Box<Name>),
    /// A parenthesized pointer-to-function type.
    FunctionPointer(Vec<Name>, Box<Name>),
    /// A non-type template/value argument; renders `val as type`.
    ValueArgument(Box<Name>, String),
    /// A fixed-size array type; renders `type[size]`.
    SizedArray(usize, Box<Name>),
}

/// Mathematical mirror of [`Name`]: the same tree over `Seq` and `int`.
pub ghost enum NameV {
    Identifier(Seq<char>),
    BaseType(char),
    WithArguments(Box<NameV>, Seq<NameV>),
    Template(Box<NameV>, Seq<NameV>),
    Modifier(ModifierV, Box<NameV>),
    Namespace(Seq<NameV>),
    InName(Box<NameV>, Box<NameV>),
    WithReturnValue(Box<NameV>, Box<NameV>),
    FunctionPointer(Seq<NameV>, Box<NameV>),
    ValueArgument(Box<NameV>, Seq<char>),
    SizedArray(int, Box<NameV>),
}

/// The mirror of an executable name tree.
pub open spec fn name_view(n: Name) -> NameV
    decreases n,
{
    match n {
        Name::Identifier(s) => NameV::Identifier(s@),
        Name::BaseType(c) => NameV::BaseType(c),
        Name::WithArguments(base, args) => NameV::WithArguments(
            Box::new(name_view(*base)),
            names_view(args@),
        ),
        Name::Template(base, args) => NameV::Template(Box::new(name_view(*base)), names_view(args@)),
        Name::Modifier(m, inner) => NameV::Modifier(m@, Box::new(name_view(*inner))),
        Name::Namespace(path) => NameV::Namespace(names_view(path@)),
        Name::InName(leaf, parent) => NameV::InName(
            Box::new(name_view(*leaf)),
            Box::new(name_view(*parent)),
        ),
        Name::WithReturnValue(base, ret) => NameV::WithReturnValue(
            Box::new(name_view(*base)),
            Box::new(name_view(*ret)),
        ),
        Name::FunctionPointer(args, ret) => NameV::FunctionPointer(
            names_view(args@),
            Box::new(name_view(*ret)),
        ),
        Name::ValueArgument(ty, val) => NameV::ValueArgument(Box::new(name_view(*ty)), val@),
        Name::SizedArray(size, ty) => NameV::SizedArray(size as int, Box::new(name_view(*ty))),
    }
}

/// The mirrors of a sequence of executable name trees, elementwise.
pub open spec fn names_view(v: Seq<Name>) -> Seq<NameV>
    decreases v,
{
    if v.len() == 0 {
        Seq::empty()
    } else {
        seq![name_view(v[0])] + names_view(v.drop_first())
    }
}

impl View for Name {
    type V = NameV;

    open spec fn view(&self) -> NameV {
        name_view(*self)
    }
}

/// `names_view` is the elementwise mirror: it keeps length and order.
pub proof fn lemma_names_view(v: Seq<Name>)
    ensures
        names_view(v).len() == v.len(),
        forall|i: int| 0 <= i < v.len() ==> names_view(v)[i] == name_view(v[i]),
    decreases v,
{
    if v.len() > 0 {
        lemma_names_view(v.drop_first());
    }
}

/// Mirroring commutes with appending one tree.
pub proof fn lemma_names_view_push(v: Seq<Name>, x: Name)
    ensures
        names_view(v.push(x)) == names_view(v).push(name_view(x)),
{
    lemma_names_view(v);
    lemma_names_view(v.push(x));
    assert(names_view(v.push(x)) =~= names_view(v).push(name_view(x)));
}

impl Name {
    /// Wraps an owned string as an identifier leaf.
    pub fn identifier_from_string(ident: String) -> (r: Name)
        ensures
            r@ == NameV::Identifier(ident@),
    {
        Name::Identifier(ident)
    }

    /// Wraps a borrowed string as an identifier leaf.
    #[allow(non_snake_case)]
    pub fn Identifier_from_str(ident: &str) -> (r: Name)
        ensures
            r@ == NameV::Identifier(ident@),
    {
        Name::Identifier(ident.to_owned())
    }

    /// A structural copy of the tree: the copy has the same mirror.
    pub fn deep_copy(&self) -> (r: Name)
        ensures
            r@ == self@,
        decreases self,
    {
        match self {
            Name::Identifier(s) => Name::Identifier(s.clone()),
            Name::BaseType(c) => Name::BaseType(*c),
            Name::WithArguments(base, args) => Name::WithArguments(
                Box::new(base.deep_copy()),
                deep_copy_names(args),
            ),
            Name::Template(base, args) => Name::Template(
                Box::new(base.deep_copy()),
                deep_copy_names(args),
            ),
            Name::Modifier(m, inner) => Name::Modifier(m.deep_copy(), Box::new(inner.deep_copy())),
            Name::Namespace(path) => Name::Namespace(deep_copy_names(path)),
            Name::InName(leaf, parent) => Name::InName(
                Box::new(leaf.deep_copy()),
                Box::new(parent.deep_copy()),
            ),
            Name::WithReturnValue(base, ret) => Name::WithReturnValue(
                Box::new(base.deep_copy()),
                Box::new(ret.deep_copy()),
            ),
            Name::FunctionPointer(args, ret) => Name::FunctionPointer(
                deep_copy_names(args),
                Box::new(ret.deep_copy()),
            ),
            Name::ValueArgument(ty, val) => Name::ValueArgument(
                Box::new(ty.deep_copy()),
                val.clone(),
            ),
            Name::SizedArray(size, ty) => Name::SizedArray(*size, Box::new(ty.deep_copy())),
        }
    }
}

impl Modifier {
    /// A structural copy of the modifier.
    pub fn deep_copy(&self) -> (r: Modifier)
        ensures
            r@ == self@,
    {
        match self {
            Modifier::OnPrefix(s) => Modifier::OnPrefix(s.clone()),
            Modifier::OnSuffix(s) => Modifier::OnSuffix(s.clone()),
        }
    }
}

/// A structural copy of a vector of trees, elementwise.
pub fn deep_copy_names(v: &Vec<Name>) -> (r: Vec<Name>)
    ensures
        names_view(r@) == names_view(v@),
    decreases v,
{
    let mut r: Vec<Name> = Vec::new();
    let n = v.len();
    proof {
        lemma_names_view(v@);
    }
    for i in 0..n
        invariant
            n == v@.len(),
            r@.len() == i,
            forall|j: int| 0 <= j < i ==> name_view(r@[j]) == name_view(v@[j]),
    {
        r.push(v[i].deep_copy());
    }
    proof {
        lemma_names_view(r@);
        assert(names_view(r@) =~= names_view(v@));
    }
    r
}

} // verus!
