//! The renderer: a pure, total, structural recursion from a `Name` tree to
//! display text. It never fails; a base-type code off the alphabet renders
//! as empty text.

use vstd::prelude::*;

use crate::ast::Modifier;
use crate::ast::ModifierV;
use crate::ast::Name;
use crate::ast::NameV;
use crate::ast::lemma_names_view;
use crate::ast::names_view;
use crate::tables::base_keyword;
use crate::tables::lookup_base_type;
use crate::text::decimal_of;
use crate::text::usize_to_string;

verus! {

/// The display text of a name tree.
pub open spec fn spec_render(n: NameV) -> Seq<char>
    decreases n, 0int, 0int,
{
    match n {
        NameV::Identifier(s) => s,
        NameV::BaseType(c) => base_keyword(c),
        NameV::WithArguments(base, args) => spec_render(*base) + "("@ + spec_join(
            args,
            ", "@,
        ) + ")"@,
        NameV::Template(base, args) => spec_render(*base) + "<"@ + spec_join(args, ", "@) + ">"@,
        NameV::Modifier(m, inner) => match m {
            ModifierV::OnPrefix(t) => t + " "@ + spec_render(*inner),
            ModifierV::OnSuffix(t) => spec_render(*inner) + " "@ + t,
        },
        NameV::Namespace(path) => spec_join(path, "::"@),
        NameV::InName(leaf, parent) => spec_render(*parent) + "::"@ + spec_render(*leaf),
        NameV::WithReturnValue(base, ret) => spec_render(*ret) + " "@ + spec_render(*base),
        NameV::FunctionPointer(args, ret) => "("@ + spec_render(*ret) + " *("@ + spec_join(
            args,
            ", "@,
        ) + "))"@,
        NameV::ValueArgument(ty, val) => val + " as "@ + spec_render(*ty),
        NameV::SizedArray(size, ty) => spec_render(*ty) + "["@ + (if size >= 0 {
            decimal_of(size as nat)
        } else {
            Seq::empty()
        }) + "]"@,
    }
}

/// The display text of the first `i` entries of a list, separated by `sep`.
pub open spec fn spec_join_take(v: Seq<NameV>, sep: Seq<char>, i: int) -> Seq<char>
    decreases v, 0int, i,
{
    if i <= 0 || i > v.len() {
        Seq::empty()
    } else if i == 1 {
        spec_render(v[0])
    } else {
        spec_join_take(v, sep, i - 1) + sep + spec_render(v[i - 1])
    }
}

/// The display text of a whole list, separated by `sep`.
pub open spec fn spec_join(v: Seq<NameV>, sep: Seq<char>) -> Seq<char>
    decreases v, 1int, 0int,
{
    spec_join_take(v, sep, v.len() as int)
}

/// Renders a list of trees, separated by `sep`.
pub fn render_join(v: &Vec<Name>, sep: &str) -> (r: String)
    ensures
        r@ == spec_join(names_view(v@), sep@),
    decreases v,
{
    let mut out = String::new();
    let n = v.len();
    proof {
        lemma_names_view(v@);
    }
    for i in 0..n
        invariant
            n == v@.len(),
            names_view(v@).len() == n,
            forall|j: int| 0 <= j < n ==> names_view(v@)[j] == crate::ast::name_view(v@[j]),
            out@ == spec_join_take(names_view(v@), sep@, i as int),
        decreases n - i,
    {
        if i > 0 {
            out.append(sep);
        }
        let piece = render(&v[i]);
        out.append(piece.as_str());
        proof {
            assert(out@ =~= spec_join_take(names_view(v@), sep@, i + 1));
        }
    }
    out
}

/// Renders a name tree as display text.
pub fn render(n: &Name) -> (r: String)
    ensures
        r@ == spec_render(n@),
    decreases n,
{
    match n {
        Name::Identifier(s) => s.clone(),
        Name::BaseType(c) => match lookup_base_type(*c) {
            Some(k) => k.to_owned(),
            None => String::new(),
        },
        Name::WithArguments(base, args) => {
            let mut out = render(base);
            out.append("(");
            let j = render_join(args, ", ");
            out.append(j.as_str());
            out.append(")");
            out
        },
        Name::Template(base, args) => {
            let mut out = render(base);
            out.append("<");
            let j = render_join(args, ", ");
            out.append(j.as_str());
            out.append(">");
            out
        },
        Name::Modifier(m, inner) => match m {
            Modifier::OnPrefix(t) => {
                let mut out = t.clone();
                out.append(" ");
                let i = render(inner);
                out.append(i.as_str());
                out
            },
            Modifier::OnSuffix(t) => {
                let mut out = render(inner);
                out.append(" ");
                out.append(t.as_str());
                out
            },
        },
        Name::Namespace(path) => render_join(path, "::"),
        Name::InName(leaf, parent) => {
            let mut out = render(parent);
            out.append("::");
            let l = render(leaf);
            out.append(l.as_str());
            out
        },
        Name::WithReturnValue(base, ret) => {
            let mut out = render(ret);
            out.append(" ");
            let b = render(base);
            out.append(b.as_str());
            out
        },
        Name::FunctionPointer(args, ret) => {
            let mut out = "(".to_owned();
            let r = render(ret);
            out.append(r.as_str());
            out.append(" *(");
            let j = render_join(args, ", ");
            out.append(j.as_str());
            out.append("))");
            out
        },
        Name::ValueArgument(ty, val) => {
            let mut out = val.clone();
            out.append(" as ");
            let t = render(ty);
            out.append(t.as_str());
            out
        },
        Name::SizedArray(size, ty) => {
            let mut out = render(ty);
            out.append("[");
            let d = usize_to_string(*size);
            out.append(d.as_str());
            out.append("]");
            out
        },
    }
}

} // verus!
