//! The grammar engine: a recursive-descent parser over a character string,
//! proved equal to the grammar's mathematical productions in `grammar`.
//!
//! Each function takes the input and a position and returns an outcome:
//! the parsed tree with the position one past what it consumed, a mismatch
//! for ordered alternation to retry, or a fatal names-list index violation
//! that no alternation absorbs.

use vstd::prelude::*;

use crate::ast::Name;
use crate::ast::NameV;
use crate::ast::lemma_names_view;
use crate::ast::lemma_names_view_push;
use crate::ast::name_view;
use crate::ast::names_view;
use crate::grammar::SpecParse;
use crate::grammar::SpecParseList;
use crate::grammar::spec_arguments;
use crate::grammar::spec_base_type;
use crate::grammar::spec_extract;
use crate::grammar::spec_extract_under;
use crate::grammar::spec_function_pointer;
use crate::grammar::spec_function_suffixes;
use crate::grammar::spec_modifier;
use crate::grammar::spec_name_base;
use crate::grammar::spec_name_suffixes;
use crate::grammar::spec_namespace;
use crate::grammar::spec_ns_items;
use crate::grammar::spec_read_function;
use crate::grammar::spec_read_name;
use crate::grammar::spec_read_names;
use crate::grammar::spec_sized_array;
use crate::grammar::spec_template;
use crate::grammar::spec_type_ref;
use crate::grammar::spec_value_argument;
use crate::grammar::prepend_list;
use crate::grammar::resolve_ref;
use crate::grammar::resolve_repeat;
use crate::grammar::strip_zeros;
use crate::grammar::template_marker;
use crate::grammar::static_marker;
use crate::splitter::dunder;
use crate::tables::lookup_base_type;
use crate::tables::lookup_modifier;
use crate::text::is_digit_char;
use crate::text::lemma_digits_end;
use crate::text::has_prefix_at;
use crate::text::scan_digits;
use crate::text::substring_string;

verus! {

/// The outcome of a name production.
#[derive(Debug)]
pub enum ParseOutcome {
    /// A parsed tree and the position one past what it consumed.
    Found(Name, usize),
    /// The production does not match here; the caller tries the next one.
    Mismatch,
    /// A names-list index violation: a malformed encoding, never retried.
    Fatal,
}

/// The outcome of a list production.
#[derive(Debug)]
pub enum ListOutcome {
    /// The parsed entries and the position one past what they consumed.
    Found(Vec<Name>, usize),
    /// The production does not match here.
    Mismatch,
    /// A names-list index violation.
    Fatal,
}

/// The executable outcome agrees with the mathematical one, which also
/// consumed at least one character.
pub open spec fn agrees(r: ParseOutcome, so: SpecParse, s: Seq<char>, pos: int) -> bool {
    match so {
        SpecParse::Found(nv, p) => (match r {
            ParseOutcome::Found(n, q) => n@ == nv && q as int == p,
            _ => false,
        }) && pos < p <= s.len(),
        SpecParse::Mismatch => r is Mismatch,
        SpecParse::Fatal => r is Fatal,
    }
}

/// The executable list outcome agrees with the mathematical one, which did
/// not run past the input (a list may be empty and consume nothing).
pub open spec fn agrees_list(r: ListOutcome, so: SpecParseList, s: Seq<char>, pos: int) -> bool {
    match so {
        SpecParseList::Found(sv, p) => (match r {
            ListOutcome::Found(v, q) => names_view(v@) == sv && q as int == p,
            _ => false,
        }) && pos <= p <= s.len(),
        SpecParseList::Mismatch => r is Mismatch,
        SpecParseList::Fatal => r is Fatal,
    }
}

/// Reads a length-prefixed token.
fn extract(s: &str, pos: usize) -> (r: Option<(String, usize)>)
    requires
        pos <= s@.len(),
    ensures
        match spec_extract(s@, pos as int) {
            Some((txt, p)) => (match r {
                Some((t, q)) => t@ == txt && q as int == p,
                None => false,
            }) && pos < p <= s@.len(),
            None => r is None,
        },
{
    let n = s.unicode_len();
    let (e, val) = scan_digits(s, pos);
    proof {
        lemma_digits_end(s@, pos as int);
    }
    if e == pos {
        return None;
    }
    let l = match val {
        Some(v) => v,
        None => {
            return None;
        },
    };
    if l > n - e {
        return None;
    }
    let t = substring_string(s, e, e + l);
    Some((t, e + l))
}

/// Reads a length-prefixed token whose digits and text an underscore
/// separates.
fn extract_under(s: &str, pos: usize) -> (r: Option<(String, usize)>)
    requires
        pos <= s@.len(),
    ensures
        match spec_extract_under(s@, pos as int) {
            Some((txt, p)) => (match r {
                Some((t, q)) => t@ == txt && q as int == p,
                None => false,
            }) && pos < p <= s@.len(),
            None => r is None,
        },
{
    let n = s.unicode_len();
    let (e, val) = scan_digits(s, pos);
    proof {
        lemma_digits_end(s@, pos as int);
    }
    if e == pos {
        return None;
    }
    let l = match val {
        Some(v) => v,
        None => {
            return None;
        },
    };
    if e >= n || s.get_char(e) != '_' {
        return None;
    }
    if l > n - e - 1 {
        return None;
    }
    let t = substring_string(s, e + 1, e + 1 + l);
    Some((t, e + 1 + l))
}

/// Copies a digit run with its leading zeros dropped.
fn strip_zeros_string(s: &str, from: usize, to: usize) -> (r: String)
    requires
        from < to <= s@.len(),
    ensures
        r@ == strip_zeros(s@.subrange(from as int, to as int)),
{
    let mut a = from;
    while a + 1 < to && s.get_char(a) == '0'
        invariant
            from <= a < to <= s@.len(),
            strip_zeros(s@.subrange(from as int, to as int)) == strip_zeros(
                s@.subrange(a as int, to as int),
            ),
        decreases to - a,
    {
        proof {
            let cur = s@.subrange(a as int, to as int);
            assert(cur.drop_first() =~= s@.subrange(a as int + 1, to as int));
        }
        a = a + 1;
    }
    proof {
        let cur = s@.subrange(a as int, to as int);
        assert(strip_zeros(cur) == cur);
    }
    substring_string(s, a, to)
}

/// The numeric type-reference production.
fn type_ref(s: &str, pos: usize) -> (r: Option<(Name, usize)>)
    requires
        pos <= s@.len(),
    ensures
        match spec_type_ref(s@, pos as int) {
            Some((nv, p)) => (match r {
                Some((n, q)) => n@ == nv && q as int == p,
                None => false,
            }) && pos < p <= s@.len(),
            None => r is None,
        },
{
    let n = s.unicode_len();
    if pos >= n || s.get_char(pos) != 'Z' {
        return None;
    }
    let (e, _) = scan_digits(s, pos + 1);
    proof {
        lemma_digits_end(s@, pos as int + 1);
    }
    if e == pos + 1 {
        return None;
    }
    let e2 = if e < n && s.get_char(e) == '_' {
        let (e3, _) = scan_digits(s, e + 1);
        proof {
            lemma_digits_end(s@, e as int + 1);
        }
        if e3 > e + 1 {
            e3
        } else {
            e
        }
    } else {
        e
    };
    if e2 < n && s.get_char(e2) == 'Z' {
        let txt = strip_zeros_string(s, pos + 1, e);
        Some((Name::Identifier(txt), e2 + 1))
    } else {
        None
    }
}

/// The single-character primitive-type code production.
fn base_type(s: &str, pos: usize) -> (r: Option<(Name, usize)>)
    requires
        pos <= s@.len(),
    ensures
        match spec_base_type(s@, pos as int) {
            Some((nv, p)) => (match r {
                Some((n, q)) => n@ == nv && q as int == p,
                None => false,
            }) && pos < p <= s@.len(),
            None => r is None,
        },
{
    let n = s.unicode_len();
    if pos >= n {
        return None;
    }
    let c = s.get_char(pos);
    match lookup_base_type(c) {
        Some(_) => Some((Name::BaseType(c), pos + 1)),
        None => None,
    }
}

/// The namespace production.
fn namespace(s: &str, pos: usize) -> (r: ParseOutcome)
    requires
        pos <= s@.len(),
    ensures
        agrees(r, spec_namespace(s@, pos as int), s@, pos as int),
    decreases s@.len() - pos, 0int,
{
    let n = s.unicode_len();
    if n - pos < 3 {
        return ParseOutcome::Mismatch;
    }
    if s.get_char(pos) != 'Q' {
        return ParseOutcome::Mismatch;
    }
    let u = s.get_char(pos + 1) as u32;
    if !(48 <= u && u <= 57) {
        return ParseOutcome::Mismatch;
    }
    if s.get_char(pos + 2) != '_' {
        return ParseOutcome::Mismatch;
    }
    let d = (u - 48) as usize;
    let start = pos + 3;
    let mut cur = start;
    let mut acc: Vec<Name> = Vec::new();
    let mut rem = d;
    let ghost target = spec_ns_items(s@, start as int, d as int);
    proof {
        assert(names_view(acc@) + (match target {
            SpecParseList::Found(rest, _) => rest,
            _ => Seq::empty(),
        }) =~= (match target {
            SpecParseList::Found(rest, _) => rest,
            _ => Seq::empty(),
        }));
        assert(target == prepend_list(names_view(acc@), spec_ns_items(s@, cur as int, rem as int)));
    }
    loop
        invariant
            start <= cur <= n,
            pos as int + 3 <= cur,
            n == s@.len(),
            rem <= d,
            target == prepend_list(names_view(acc@), spec_ns_items(s@, cur as int, rem as int)),
            spec_namespace(s@, pos as int) == (match target {
                SpecParseList::Fatal => SpecParse::Fatal,
                SpecParseList::Mismatch => SpecParse::Mismatch,
                SpecParseList::Found(path, q) => SpecParse::Found(NameV::Namespace(path), q),
            }),
        ensures
            target matches SpecParseList::Found(path, q) && path == names_view(acc@) && q == cur
                as int && cur <= n && n == s@.len(),
            pos as int + 3 <= cur,
            spec_namespace(s@, pos as int) == (match target {
                SpecParseList::Fatal => SpecParse::Fatal,
                SpecParseList::Mismatch => SpecParse::Mismatch,
                SpecParseList::Found(path, q) => SpecParse::Found(NameV::Namespace(path), q),
            }),
        decreases rem,
    {
        if rem == 0 {
            proof {
                assert(names_view(acc@) + Seq::<NameV>::empty() =~= names_view(acc@));
            }
            break;
        }
        match read_name(s, cur) {
            ParseOutcome::Fatal => {
                return ParseOutcome::Fatal;
            },
            ParseOutcome::Mismatch => {
                return ParseOutcome::Mismatch;
            },
            ParseOutcome::Found(nm, p) => {
                proof {
                    let av = names_view(acc@);
                    let nv = nm@;
                    if let SpecParseList::Found(rest, q) = spec_ns_items(
                        s@,
                        p as int,
                        rem as int - 1,
                    ) {
                        assert(av + (seq![nv] + rest) =~= av.push(nv) + rest);
                    }
                    lemma_names_view_push(acc@, nm);
                }
                acc.push(nm);
                cur = p;
                rem = rem - 1;
            },
        }
    }
    ParseOutcome::Found(Name::Namespace(acc), cur)
}

/// The modifier production.
fn modifier(s: &str, pos: usize) -> (r: ParseOutcome)
    requires
        pos <= s@.len(),
    ensures
        agrees(r, spec_modifier(s@, pos as int), s@, pos as int),
    decreases s@.len() - pos, 0int,
{
    let n = s.unicode_len();
    if pos >= n {
        return ParseOutcome::Mismatch;
    }
    let c = s.get_char(pos);
    let m = match lookup_modifier(c) {
        Some(m) => m,
        None => {
            return ParseOutcome::Mismatch;
        },
    };
    match read_name(s, pos + 1) {
        ParseOutcome::Fatal => ParseOutcome::Fatal,
        ParseOutcome::Mismatch => ParseOutcome::Mismatch,
        ParseOutcome::Found(inner, p) => ParseOutcome::Found(
            Name::Modifier(m, Box::new(inner)),
            p,
        ),
    }
}

/// The function-pointer production.
fn function_pointer(s: &str, pos: usize) -> (r: ParseOutcome)
    requires
        pos <= s@.len(),
    ensures
        agrees(r, spec_function_pointer(s@, pos as int), s@, pos as int),
    decreases s@.len() - pos, 0int,
{
    let n = s.unicode_len();
    if pos >= n || s.get_char(pos) != 'F' {
        return ParseOutcome::Mismatch;
    }
    match read_names(s, pos + 1) {
        ListOutcome::Fatal => ParseOutcome::Fatal,
        ListOutcome::Mismatch => ParseOutcome::Mismatch,
        ListOutcome::Found(args, p1) => {
            if p1 < n && s.get_char(p1) == '_' {
                match read_name(s, p1 + 1) {
                    ParseOutcome::Fatal => ParseOutcome::Fatal,
                    ParseOutcome::Mismatch => ParseOutcome::Mismatch,
                    ParseOutcome::Found(ret, p2) => ParseOutcome::Found(
                        Name::FunctionPointer(args, Box::new(ret)),
                        p2,
                    ),
                }
            } else {
                ParseOutcome::Mismatch
            }
        },
    }
}

/// The sized-array production.
fn sized_array(s: &str, pos: usize) -> (r: ParseOutcome)
    requires
        pos <= s@.len(),
    ensures
        agrees(r, spec_sized_array(s@, pos as int), s@, pos as int),
    decreases s@.len() - pos, 0int,
{
    let n = s.unicode_len();
    if pos >= n || s.get_char(pos) != 'A' {
        return ParseOutcome::Mismatch;
    }
    let (e, val) = scan_digits(s, pos + 1);
    proof {
        lemma_digits_end(s@, pos as int + 1);
    }
    if e == pos + 1 {
        return ParseOutcome::Mismatch;
    }
    let size = match val {
        Some(v) => v,
        None => {
            return ParseOutcome::Mismatch;
        },
    };
    if e < n && s.get_char(e) == '_' {
        match read_name(s, e + 1) {
            ParseOutcome::Fatal => ParseOutcome::Fatal,
            ParseOutcome::Mismatch => ParseOutcome::Mismatch,
            ParseOutcome::Found(t, p) => ParseOutcome::Found(
                Name::SizedArray(size, Box::new(t)),
                p,
            ),
        }
    } else {
        ParseOutcome::Mismatch
    }
}

/// The value-argument production.
fn value_argument(s: &str, pos: usize) -> (r: ParseOutcome)
    requires
        pos <= s@.len(),
    ensures
        agrees(r, spec_value_argument(s@, pos as int), s@, pos as int),
    decreases s@.len() - pos, 0int,
{
    let n = s.unicode_len();
    proof {
        crate::grammar::lemma_value_argument_unfold(s@, pos as int);
    }
    if pos >= n || s.get_char(pos) != 'X' {
        return ParseOutcome::Mismatch;
    }
    match extract(s, pos + 1) {
        Some((txt, p)) => {
            let tn = "typename".to_owned();
            proof {
                reveal_strlit("typename");
                assert(tn@ =~= crate::grammar::typename_text());
            }
            let ident = Name::Identifier(tn);
            proof {
                assert(ident@ == NameV::Identifier(crate::grammar::typename_text()));
            }
            ParseOutcome::Found(Name::ValueArgument(Box::new(ident), txt), p)
        },
        None => match read_name(s, pos + 1) {
            ParseOutcome::Fatal => ParseOutcome::Fatal,
            ParseOutcome::Mismatch => ParseOutcome::Mismatch,
            ParseOutcome::Found(t, p1) => {
                if n - p1 >= 2 && s.get_char(p1) == 'L' && s.get_char(p1 + 1) == '_' {
                    match extract_under(s, p1 + 2) {
                        Some((v, p2)) => ParseOutcome::Found(
                            Name::ValueArgument(Box::new(t), v),
                            p2,
                        ),
                        None => ParseOutcome::Mismatch,
                    }
                } else {
                    ParseOutcome::Mismatch
                }
            },
        },
    }
}

/// The template-argument-list production.
pub fn template(s: &str, pos: usize) -> (r: ListOutcome)
    requires
        pos <= s@.len(),
    ensures
        agrees_list(r, spec_template(s@, pos as int), s@, pos as int),
        spec_template(s@, pos as int) matches SpecParseList::Found(sv, p) ==> pos < p,
    decreases s@.len() - pos, 0int,
{
    let n = s.unicode_len();
    let tmm: Vec<char> = vec!['_', '_', 't', 'm', '_', '_'];
    proof {
        assert(tmm@ =~= template_marker());
    }
    if !has_prefix_at(s, pos, &tmm) {
        return ListOutcome::Mismatch;
    }
    match extract(s, pos + 6) {
        None => ListOutcome::Mismatch,
        Some((raw, p2)) => {
            let rl = raw.as_str().unicode_len();
            if rl < 1 {
                return ListOutcome::Mismatch;
            }
            let t = raw.as_str().substring_char(1, rl);
            proof {
                lemma_digits_end(s@, pos as int + 6);
                assert(t@ =~= raw@.drop_first());
                assert(t@.len() < s@.len() - pos);
            }
            match read_names(t, 0) {
                ListOutcome::Fatal => ListOutcome::Fatal,
                ListOutcome::Mismatch => ListOutcome::Mismatch,
                ListOutcome::Found(names, q) => {
                    if q == rl - 1 {
                        ListOutcome::Found(names, p2)
                    } else {
                        ListOutcome::Mismatch
                    }
                },
            }
        },
    }
}

/// The base alternatives of the name production, tried in order.
fn name_base(s: &str, pos: usize) -> (r: ParseOutcome)
    requires
        pos <= s@.len(),
    ensures
        agrees(r, spec_name_base(s@, pos as int), s@, pos as int),
    decreases s@.len() - pos, 1int,
{
    match extract(s, pos) {
        Some((txt, p)) => {
            return ParseOutcome::Found(Name::Identifier(txt), p);
        },
        None => {},
    }
    match namespace(s, pos) {
        ParseOutcome::Fatal => {
            return ParseOutcome::Fatal;
        },
        ParseOutcome::Found(nm, p) => {
            return ParseOutcome::Found(nm, p);
        },
        ParseOutcome::Mismatch => {},
    }
    match modifier(s, pos) {
        ParseOutcome::Fatal => {
            return ParseOutcome::Fatal;
        },
        ParseOutcome::Found(nm, p) => {
            return ParseOutcome::Found(nm, p);
        },
        ParseOutcome::Mismatch => {},
    }
    match type_ref(s, pos) {
        Some((nm, p)) => {
            return ParseOutcome::Found(nm, p);
        },
        None => {},
    }
    match base_type(s, pos) {
        Some((nm, p)) => {
            return ParseOutcome::Found(nm, p);
        },
        None => {},
    }
    match function_pointer(s, pos) {
        ParseOutcome::Fatal => {
            return ParseOutcome::Fatal;
        },
        ParseOutcome::Found(nm, p) => {
            return ParseOutcome::Found(nm, p);
        },
        ParseOutcome::Mismatch => {},
    }
    sized_array(s, pos)
}

/// The name production: a base alternative, then the greedy template and
/// inner-name suffix loop.
#[verifier::rlimit(100)]
pub fn read_name(s: &str, pos: usize) -> (r: ParseOutcome)
    requires
        pos <= s@.len(),
    ensures
        agrees(r, spec_read_name(s@, pos as int), s@, pos as int),
    decreases s@.len() - pos, 2int,
{
    let mut nm: Name;
    let mut cur: usize;
    match name_base(s, pos) {
        ParseOutcome::Fatal => {
            return ParseOutcome::Fatal;
        },
        ParseOutcome::Mismatch => {
            return ParseOutcome::Mismatch;
        },
        ParseOutcome::Found(a, b) => {
            nm = a;
            cur = b;
        },
    }
    let n = s.unicode_len();
    let du: Vec<char> = vec!['_', '_'];
    proof {
        assert(du@ =~= dunder());
    }
    loop
        invariant
            pos < cur <= n,
            n == s@.len(),
            du@ =~= dunder(),
            spec_read_name(s@, pos as int) == spec_name_suffixes(s@, cur as int, nm@),
        decreases n - cur,
    {
        proof {
            crate::grammar::lemma_name_suffixes_step(s@, cur as int, nm@);
        }
        match template(s, cur) {
            ListOutcome::Fatal => {
                proof {
                    assert(spec_name_suffixes(s@, cur as int, nm@) == SpecParse::Fatal);
                }
                return ParseOutcome::Fatal;
            },
            ListOutcome::Found(args, p2) => {
                proof {
                    assert(spec_name_suffixes(s@, cur as int, nm@) == spec_name_suffixes(
                        s@,
                        p2 as int,
                        NameV::Template(Box::new(nm@), names_view(args@)),
                    ));
                }
                nm = Name::Template(Box::new(nm), args);
                cur = p2;
            },
            ListOutcome::Mismatch => {
                if has_prefix_at(s, cur, &du) {
                    match read_name(s, cur + 2) {
                        ParseOutcome::Fatal => {
                            proof {
                                assert(spec_name_suffixes(s@, cur as int, nm@)
                                    == SpecParse::Fatal);
                            }
                            return ParseOutcome::Fatal;
                        },
                        ParseOutcome::Found(parent, p3) => {
                            proof {
                                assert(spec_name_suffixes(s@, cur as int, nm@)
                                    == spec_name_suffixes(
                                    s@,
                                    p3 as int,
                                    NameV::InName(Box::new(nm@), Box::new(parent@)),
                                ));
                            }
                            nm = Name::InName(Box::new(nm), Box::new(parent));
                            cur = p3;
                        },
                        ParseOutcome::Mismatch => {
                            proof {
                                assert(spec_name_suffixes(s@, cur as int, nm@)
                                    == SpecParse::Found(nm@, cur as int));
                            }
                            return ParseOutcome::Found(nm, cur);
                        },
                    }
                } else {
                    proof {
                        assert(spec_name_suffixes(s@, cur as int, nm@) == SpecParse::Found(
                            nm@,
                            cur as int,
                        ));
                    }
                    return ParseOutcome::Found(nm, cur);
                }
            },
        }
    }
}

/// The names-list production, with back-references and repeats resolved
/// into the final list as it is read, left to right.
#[verifier::rlimit(100)]
pub fn read_names(s: &str, pos: usize) -> (r: ListOutcome)
    requires
        pos <= s@.len(),
    ensures
        agrees_list(r, spec_read_names(s@, pos as int, Seq::empty()), s@, pos as int),
    decreases s@.len() - pos, 3int,
{
    let n = s.unicode_len();
    let mut acc: Vec<Name> = Vec::new();
    let mut cur = pos;
    proof {
        assert(names_view(acc@) =~= Seq::<NameV>::empty());
    }
    loop
        invariant
            pos <= cur <= n,
            n == s@.len(),
            spec_read_names(s@, pos as int, Seq::empty()) == spec_read_names(
                s@,
                cur as int,
                names_view(acc@),
            ),
        decreases n - cur,
    {
        match read_name(s, cur) {
            ParseOutcome::Fatal => {
                return ListOutcome::Fatal;
            },
            ParseOutcome::Found(nm, p) => {
                proof {
                    lemma_names_view_push(acc@, nm);
                }
                acc.push(nm);
                cur = p;
            },
            ParseOutcome::Mismatch => {
                let tok = if cur < n {
                    s.get_char(cur)
                } else {
                    ' '
                };
                if n - cur >= 2 && tok == 'T' && is_digit_exec(s.get_char(cur + 1)) {
                    let d = (s.get_char(cur + 1) as u32 - 48) as usize;
                    proof {
                        lemma_names_view(acc@);
                    }
                    if 1 <= d && d <= acc.len() {
                        let cp = acc[d - 1].deep_copy();
                        proof {
                            let av = names_view(acc@);
                            lemma_names_view_push(acc@, cp);
                            assert(resolve_ref(av, d as int) == Some(av.push(av[d as int - 1])));
                            assert(names_view(acc@.push(cp)) =~= av.push(av[d as int - 1]));
                        }
                        acc.push(cp);
                        cur = cur + 2;
                    } else {
                        proof {
                            assert(resolve_ref(names_view(acc@), d as int) is None);
                        }
                        return ListOutcome::Fatal;
                    }
                } else if n - cur >= 3 && tok == 'N' && is_digit_exec(s.get_char(cur + 1))
                    && is_digit_exec(s.get_char(cur + 2)) {
                    let c = (s.get_char(cur + 1) as u32 - 48) as usize;
                    let d2 = (s.get_char(cur + 2) as u32 - 48) as usize;
                    proof {
                        lemma_names_view(acc@);
                    }
                    if c == 0 {
                        cur = cur + 3;
                    } else if 1 <= d2 && d2 <= acc.len() {
                        let ghost acc0 = acc@;
                        let ghost oldv = names_view(acc@);
                        let mut k: usize = 0;
                        proof {
                            assert(acc@.subrange(0, acc0.len() as int) =~= acc0);
                            assert(names_view(acc@) =~= oldv + Seq::new(
                                0nat,
                                |i: int| oldv[d2 as int - 1],
                            ));
                        }
                        while k < c
                            invariant
                                k <= c,
                                1 <= d2 <= acc0.len(),
                                oldv == names_view(acc0),
                                oldv.len() == acc0.len(),
                                acc@.len() == acc0.len() + k,
                                acc@.subrange(0, acc0.len() as int) == acc0,
                                names_view(acc@) == oldv + Seq::new(
                                    k as nat,
                                    |i: int| oldv[d2 as int - 1],
                                ),
                            decreases c - k,
                        {
                            proof {
                                lemma_names_view(acc0);
                                assert(acc@[d2 as int - 1] == acc@.subrange(
                                    0,
                                    acc0.len() as int,
                                )[d2 as int - 1]);
                                assert(name_view(acc@[d2 as int - 1]) == oldv[d2 as int - 1]);
                            }
                            let cp = acc[d2 - 1].deep_copy();
                            proof {
                                lemma_names_view_push(acc@, cp);
                                assert(acc@.push(cp).subrange(0, acc0.len() as int)
                                    =~= acc@.subrange(0, acc0.len() as int));
                                assert(names_view(acc@).push(name_view(cp)) =~= oldv + Seq::new(
                                    (k + 1) as nat,
                                    |i: int| oldv[d2 as int - 1],
                                ));
                            }
                            acc.push(cp);
                            k = k + 1;
                        }
                        proof {
                            assert(resolve_repeat(oldv, c as int, d2 as int) == Some(
                                oldv + Seq::new(c as nat, |i: int| oldv[d2 as int - 1]),
                            ));
                        }
                        cur = cur + 3;
                    } else {
                        proof {
                            assert(resolve_repeat(names_view(acc@), c as int, d2 as int) is None);
                        }
                        return ListOutcome::Fatal;
                    }
                } else {
                    match value_argument(s, cur) {
                        ParseOutcome::Fatal => {
                            return ListOutcome::Fatal;
                        },
                        ParseOutcome::Found(nm, p) => {
                            proof {
                                lemma_names_view_push(acc@, nm);
                            }
                            acc.push(nm);
                            cur = p;
                        },
                        ParseOutcome::Mismatch => {
                            return ListOutcome::Found(acc, cur);
                        },
                    }
                }
            },
        }
    }
}

/// Whether a character is a decimal digit, as a runtime test.
fn is_digit_exec(c: char) -> (r: bool)
    ensures
        r == is_digit_char(c),
{
    let u = c as u32;
    48 <= u && u <= 57
}

/// The argument-list production: an optional double underscore, a tag, a
/// names list.
pub fn arguments(s: &str, pos: usize) -> (r: ListOutcome)
    requires
        pos <= s@.len(),
    ensures
        agrees_list(r, spec_arguments(s@, pos as int), s@, pos as int),
        spec_arguments(s@, pos as int) matches SpecParseList::Found(sv, p) ==> pos < p,
    decreases s@.len() - pos, 0int,
{
    let n = s.unicode_len();
    let du: Vec<char> = vec!['_', '_'];
    proof {
        assert(du@ =~= dunder());
    }
    let b = if has_prefix_at(s, pos, &du) {
        pos + 2
    } else {
        pos
    };
    let b2 = if b < n && s.get_char(b) == 'F' {
        b + 1
    } else if n - b >= 2 && (s.get_char(b) == 'C' || s.get_char(b) == 'S') && s.get_char(b + 1)
        == 'F' {
        b + 2
    } else {
        return ListOutcome::Mismatch;
    };
    read_names(s, b2)
}

/// The function production, the grammar's top level: a name, then the
/// greedy suffix loop over static-member markers, argument lists,
/// return-type suffixes and inner-name suffixes.
#[verifier::rlimit(100)]
pub fn read_function(s: &str, pos: usize) -> (r: ParseOutcome)
    requires
        pos <= s@.len(),
    ensures
        agrees(r, spec_read_function(s@, pos as int), s@, pos as int),
    decreases s@.len() - pos, 3int,
{
    let mut nm: Name;
    let mut cur: usize;
    match read_name(s, pos) {
        ParseOutcome::Fatal => {
            return ParseOutcome::Fatal;
        },
        ParseOutcome::Mismatch => {
            return ParseOutcome::Mismatch;
        },
        ParseOutcome::Found(a, b) => {
            nm = a;
            cur = b;
        },
    }
    let n = s.unicode_len();
    let du: Vec<char> = vec!['_', '_'];
    let smm: Vec<char> = vec!['_', '_', 'S'];
    proof {
        assert(du@ =~= dunder());
        assert(smm@ =~= static_marker());
    }
    loop
        invariant
            pos < cur <= n,
            n == s@.len(),
            du@ =~= dunder(),
            smm@ =~= static_marker(),
            spec_read_function(s@, pos as int) == spec_function_suffixes(s@, cur as int, nm@),
        decreases n - cur,
    {
        proof {
            crate::grammar::lemma_function_suffixes_step(s@, cur as int, nm@);
        }
        if has_prefix_at(s, cur, &smm) {
            cur = cur + 3;
        } else {
            match arguments(s, cur) {
                ListOutcome::Fatal => {
                    return ParseOutcome::Fatal;
                },
                ListOutcome::Found(args, p) => {
                    nm = Name::WithArguments(Box::new(nm), args);
                    cur = p;
                },
                ListOutcome::Mismatch => {
                    if cur < n && s.get_char(cur) == '_' {
                        match read_name(s, cur + 1) {
                            ParseOutcome::Fatal => {
                                return ParseOutcome::Fatal;
                            },
                            ParseOutcome::Found(ret, p) => {
                                nm = Name::WithReturnValue(Box::new(nm), Box::new(ret));
                                cur = p;
                            },
                            ParseOutcome::Mismatch => {
                                if has_prefix_at(s, cur, &du) {
                                    match read_name(s, cur + 2) {
                                        ParseOutcome::Fatal => {
                                            return ParseOutcome::Fatal;
                                        },
                                        ParseOutcome::Found(parent, p) => {
                                            nm = Name::InName(Box::new(nm), Box::new(parent));
                                            cur = p;
                                        },
                                        ParseOutcome::Mismatch => {
                                            return ParseOutcome::Found(nm, cur);
                                        },
                                    }
                                } else {
                                    return ParseOutcome::Found(nm, cur);
                                }
                            },
                        }
                    } else {
                        return ParseOutcome::Found(nm, cur);
                    }
                },
            }
        }
    }
}

} // verus!
