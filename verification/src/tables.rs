//! The read-only code tables: base-type codes, modifier codes, and
//! special operator-name spellings. Each table is a pure function of its
//! code, so concurrent callers share nothing mutable.

use vstd::prelude::*;

use crate::ast::Modifier;
use crate::ast::ModifierV;

verus! {

/// The fixed alphabet of single-character primitive-type codes, in table order.
pub open spec fn base_codes() -> Seq<char> {
    seq!['v', 'i', 's', 'c', 'w', 'b', 'f', 'd', 'l', 'L', 'e', 'r']
}

/// Whether `c` is a primitive-type code.
pub open spec fn is_base_code(c: char) -> bool {
    base_codes().contains(c)
}

/// The type keyword a primitive-type code stands for.
pub open spec fn base_keyword(c: char) -> Seq<char> {
    if c == 'v' {
        "void"@
    } else if c == 'i' {
        "int"@
    } else if c == 's' {
        "short"@
    } else if c == 'c' {
        "char"@
    } else if c == 'w' {
        "wchar_t"@
    } else if c == 'b' {
        "bool"@
    } else if c == 'f' {
        "float"@
    } else if c == 'd' {
        "double"@
    } else if c == 'l' {
        "long"@
    } else if c == 'L' {
        "long long"@
    } else if c == 'e' {
        "..."@
    } else if c == 'r' {
        "long double"@
    } else {
        Seq::empty()
    }
}

/// The keyword for a primitive-type code, or `None` off the alphabet.
pub fn lookup_base_type(c: char) -> (r: Option<&'static str>)
    ensures
        r is Some <==> is_base_code(c),
        r matches Some(s) ==> s@ == base_keyword(c),
{
    proof {
        assert(is_base_code('v') && is_base_code('i') && is_base_code('s') && is_base_code('c')
            && is_base_code('w') && is_base_code('b') && is_base_code('f') && is_base_code('d')
            && is_base_code('l') && is_base_code('L') && is_base_code('e') && is_base_code('r'));
    }
    match c {
        'v' => Some("void"),
        'i' => Some("int"),
        's' => Some("short"),
        'c' => Some("char"),
        'w' => Some("wchar_t"),
        'b' => Some("bool"),
        'f' => Some("float"),
        'd' => Some("double"),
        'l' => Some("long"),
        'L' => Some("long long"),
        'e' => Some("..."),
        'r' => Some("long double"),
        _ => {
            proof {
                assert(!is_base_code(c)) by {
                    assert(forall|j: int|
                        0 <= j < base_codes().len() ==> base_codes()[j] != c);
                }
            }
            None
        },
    }
}

/// The base-type table as ordered pairs, code then keyword.
pub fn get_base_types() -> (r: Vec<(char, String)>)
    ensures
        r@.len() == base_codes().len(),
        forall|i: int| 0 <= i < r@.len() ==> r@[i].0 == base_codes()[i],
        forall|i: int| 0 <= i < r@.len() ==> (#[trigger] r@[i].1)@ == base_keyword(base_codes()[i]),
{
    let mut r: Vec<(char, String)> = Vec::new();
    r.push(('v', "void".to_owned()));
    r.push(('i', "int".to_owned()));
    r.push(('s', "short".to_owned()));
    r.push(('c', "char".to_owned()));
    r.push(('w', "wchar_t".to_owned()));
    r.push(('b', "bool".to_owned()));
    r.push(('f', "float".to_owned()));
    r.push(('d', "double".to_owned()));
    r.push(('l', "long".to_owned()));
    r.push(('L', "long long".to_owned()));
    r.push(('e', "...".to_owned()));
    r.push(('r', "long double".to_owned()));
    r
}

/// The fixed alphabet of modifier codes, in table order.
pub open spec fn modifier_codes() -> Seq<char> {
    seq!['U', 'S', 'J', 'M', 'P', 'R', 'C', 'V', 'u']
}

/// Whether `c` is a modifier code.
pub open spec fn is_modifier_code(c: char) -> bool {
    modifier_codes().contains(c)
}

/// The text a modifier code renders as; every current code is prefix-position.
pub open spec fn modifier_text(c: char) -> Seq<char> {
    if c == 'U' {
        "unsigned"@
    } else if c == 'S' {
        "signed"@
    } else if c == 'J' {
        "__complex"@
    } else if c == 'M' {
        "[M]"@
    } else if c == 'P' {
        "*"@
    } else if c == 'R' {
        "&"@
    } else if c == 'C' {
        "const"@
    } else if c == 'V' {
        "volatile"@
    } else if c == 'u' {
        "restrict"@
    } else {
        Seq::empty()
    }
}

/// The modifier for a code, or `None` off the alphabet.
pub fn lookup_modifier(c: char) -> (r: Option<Modifier>)
    ensures
        r is Some <==> is_modifier_code(c),
        r matches Some(m) ==> m@ == ModifierV::OnPrefix(modifier_text(c)),
{
    proof {
        assert(is_modifier_code('U') && is_modifier_code('S') && is_modifier_code('J')
            && is_modifier_code('M') && is_modifier_code('P') && is_modifier_code('R')
            && is_modifier_code('C') && is_modifier_code('V') && is_modifier_code('u'));
    }
    match c {
        'U' => Some(Modifier::OnPrefix("unsigned".to_owned())),
        'S' => Some(Modifier::OnPrefix("signed".to_owned())),
        'J' => Some(Modifier::OnPrefix("__complex".to_owned())),
        'M' => Some(Modifier::OnPrefix("[M]".to_owned())),
        'P' => Some(Modifier::OnPrefix("*".to_owned())),
        'R' => Some(Modifier::OnPrefix("&".to_owned())),
        'C' => Some(Modifier::OnPrefix("const".to_owned())),
        'V' => Some(Modifier::OnPrefix("volatile".to_owned())),
        'u' => Some(Modifier::OnPrefix("restrict".to_owned())),
        _ => {
            proof {
                assert(!is_modifier_code(c)) by {
                    assert(forall|j: int|
                        0 <= j < modifier_codes().len() ==> modifier_codes()[j] != c);
                }
            }
            None
        },
    }
}

/// The modifier table as ordered pairs, code then modifier.
pub fn get_name_modifiers() -> (r: Vec<(char, Modifier)>)
    ensures
        r@.len() == modifier_codes().len(),
        forall|i: int| 0 <= i < r@.len() ==> r@[i].0 == modifier_codes()[i],
        forall|i: int| 0 <= i < r@.len() ==> (#[trigger] r@[i].1)@ == ModifierV::OnPrefix(
            modifier_text(modifier_codes()[i]),
        ),
{
    let mut r: Vec<(char, Modifier)> = Vec::new();
    r.push(('U', Modifier::OnPrefix("unsigned".to_owned())));
    r.push(('S', Modifier::OnPrefix("signed".to_owned())));
    r.push(('J', Modifier::OnPrefix("__complex".to_owned())));
    r.push(('M', Modifier::OnPrefix("[M]".to_owned())));
    r.push(('P', Modifier::OnPrefix("*".to_owned())));
    r.push(('R', Modifier::OnPrefix("&".to_owned())));
    r.push(('C', Modifier::OnPrefix("const".to_owned())));
    r.push(('V', Modifier::OnPrefix("volatile".to_owned())));
    r.push(('u', Modifier::OnPrefix("restrict".to_owned())));
    r
}

/// The special operator-name table: mangled key to readable spelling.
/// Loaded as configuration; the grammar does not consult it yet.
pub open spec fn special_names() -> Seq<(Seq<char>, Seq<char>)> {
    seq![
        ("__ct"@, "#"@),
        ("__vtbl"@, "virtual table"@),
        ("__dt"@, "~#"@),
        ("__as"@, "operator="@),
        ("__eq"@, "operator=="@),
        ("__ne"@, "operator!="@),
        ("__gt"@, "operator>"@),
        ("__lt"@, "operator<"@),
        ("__ge"@, "operator>="@),
        ("__le"@, "operator<="@),
        ("__pp"@, "operator++"@),
        ("__pl"@, "operator+"@),
        ("__apl"@, "operator+="@),
        ("__mi"@, "operator-"@),
        ("__ami"@, "operator-="@),
        ("__ml"@, "operator*"@),
        ("__amu"@, "operator*="@),
        ("__dv"@, "operator/"@),
        ("__adv"@, "operator/="@),
        ("__nw"@, "operator new"@),
        ("__dl"@, "operator delete"@),
        ("__vn"@, "operator new[]"@),
        ("__vd"@, "operator delete[]"@),
        ("__md"@, "operator%"@),
        ("__amd"@, "operator%="@),
        ("__mm"@, "operator--"@),
        ("__aa"@, "operator&&"@),
        ("__oo"@, "operator||"@),
        ("__or"@, "operator|"@),
        ("__aor"@, "operator|="@),
        ("__er"@, "operator^"@),
        ("__aer"@, "operator^="@),
        ("__ad"@, "operator&"@),
        ("__aad"@, "operator&="@),
        ("__co"@, "operator~"@),
        ("__cl"@, "operator"@),
        ("__ls"@, "operator<<"@),
        ("__als"@, "operator<<="@),
        ("__rs"@, "operator>>"@),
        ("__ars"@, "operator>>="@),
        ("__rf"@, "operator->"@),
        ("__vc"@, "operator[]"@),
    ]
}

/// The special-name table as ordered pairs, key then spelling.
#[verifier::rlimit(100)]
pub fn get_special_names() -> (r: Vec<(String, String)>)
    ensures
        r@.len() == special_names().len(),
        forall|i: int| 0 <= i < r@.len() ==> ((#[trigger] r@[i]).0@, r@[i].1@)
            == special_names()[i],
{
    let mut r: Vec<(String, String)> = Vec::new();
    r.push(("__ct".to_owned(), "#".to_owned()));
    r.push(("__vtbl".to_owned(), "virtual table".to_owned()));
    r.push(("__dt".to_owned(), "~#".to_owned()));
    r.push(("__as".to_owned(), "operator=".to_owned()));
    r.push(("__eq".to_owned(), "operator==".to_owned()));
    r.push(("__ne".to_owned(), "operator!=".to_owned()));
    r.push(("__gt".to_owned(), "operator>".to_owned()));
    r.push(("__lt".to_owned(), "operator<".to_owned()));
    r.push(("__ge".to_owned(), "operator>=".to_owned()));
    r.push(("__le".to_owned(), "operator<=".to_owned()));
    r.push(("__pp".to_owned(), "operator++".to_owned()));
    r.push(("__pl".to_owned(), "operator+".to_owned()));
    r.push(("__apl".to_owned(), "operator+=".to_owned()));
    r.push(("__mi".to_owned(), "operator-".to_owned()));
    r.push(("__ami".to_owned(), "operator-=".to_owned()));
    r.push(("__ml".to_owned(), "operator*".to_owned()));
    r.push(("__amu".to_owned(), "operator*=".to_owned()));
    r.push(("__dv".to_owned(), "operator/".to_owned()));
    r.push(("__adv".to_owned(), "operator/=".to_owned()));
    r.push(("__nw".to_owned(), "operator new".to_owned()));
    r.push(("__dl".to_owned(), "operator delete".to_owned()));
    r.push(("__vn".to_owned(), "operator new[]".to_owned()));
    r.push(("__vd".to_owned(), "operator delete[]".to_owned()));
    r.push(("__md".to_owned(), "operator%".to_owned()));
    r.push(("__amd".to_owned(), "operator%=".to_owned()));
    r.push(("__mm".to_owned(), "operator--".to_owned()));
    r.push(("__aa".to_owned(), "operator&&".to_owned()));
    r.push(("__oo".to_owned(), "operator||".to_owned()));
    r.push(("__or".to_owned(), "operator|".to_owned()));
    r.push(("__aor".to_owned(), "operator|=".to_owned()));
    r.push(("__er".to_owned(), "operator^".to_owned()));
    r.push(("__aer".to_owned(), "operator^=".to_owned()));
    r.push(("__ad".to_owned(), "operator&".to_owned()));
    r.push(("__aad".to_owned(), "operator&=".to_owned()));
    r.push(("__co".to_owned(), "operator~".to_owned()));
    r.push(("__cl".to_owned(), "operator".to_owned()));
    r.push(("__ls".to_owned(), "operator<<".to_owned()));
    r.push(("__als".to_owned(), "operator<<=".to_owned()));
    r.push(("__rs".to_owned(), "operator>>".to_owned()));
    r.push(("__ars".to_owned(), "operator>>=".to_owned()));
    r.push(("__rf".to_owned(), "operator->".to_owned()));
    r.push(("__vc".to_owned(), "operator[]".to_owned()));
    proof {
        assert(special_names().len() == 42);
        assert forall|i: int| 0 <= i < r@.len() implies ((#[trigger] r@[i]).0@, r@[i].1@)
            == special_names()[i] by {
            assert(special_names().len() == 42);
        }
    }
    r
}

} // verus!
