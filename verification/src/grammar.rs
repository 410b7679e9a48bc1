//! The mangled grammar, as mathematical functions over character sequences.
//!
//! Every production is a total spec function from an input and a position to
//! an outcome: a parsed tree with the position one past what it consumed, an
//! ordinary mismatch (the caller tries its next alternative), or a fatal
//! error (a names-list back-reference or repeat pointed outside the already
//! built list — a malformed encoding, never retried).
//!
//! Each function carries defensive bounds guards so that termination is
//! structural; the executable parser proves those guards true on every path
//! it takes.

use vstd::prelude::*;

use crate::ast::ModifierV;
use crate::ast::NameV;
use crate::splitter::dunder;
use crate::tables::is_base_code;
use crate::tables::is_modifier_code;
use crate::tables::modifier_text;
use crate::text::digit_val;
use crate::text::digits_end;
use crate::text::digits_value;
use crate::text::is_digit_char;
use crate::text::matches_at;

verus! {

/// The outcome of a name production.
pub ghost enum SpecParse {
    Found(NameV, int),
    Mismatch,
    Fatal,
}

/// The outcome of a list production.
pub ghost enum SpecParseList {
    Found(Seq<NameV>, int),
    Mismatch,
    Fatal,
}

/// The template marker.
pub open spec fn template_marker() -> Seq<char> {
    seq!['_', '_', 't', 'm', '_', '_']
}

/// The static-member marker.
pub open spec fn static_marker() -> Seq<char> {
    seq!['_', '_', 'S']
}

/// A length-prefixed token: a decimal digit run, then that many characters.
/// Yields the token text and the position one past it.
pub open spec fn spec_extract(s: Seq<char>, pos: int) -> Option<(Seq<char>, int)> {
    if pos < 0 || pos > s.len() {
        None
    } else {
        let e = digits_end(s, pos);
        if e == pos {
            None
        } else {
            let l = digits_value(s.subrange(pos, e)) as int;
            if e + l > s.len() {
                None
            } else {
                Some((s.subrange(e, e + l), e + l))
            }
        }
    }
}

/// A length-prefixed token whose digit run and text an underscore separates.
pub open spec fn spec_extract_under(s: Seq<char>, pos: int) -> Option<(Seq<char>, int)> {
    if pos < 0 || pos > s.len() {
        None
    } else {
        let e = digits_end(s, pos);
        if e == pos {
            None
        } else {
            let l = digits_value(s.subrange(pos, e)) as int;
            if e >= s.len() || s[e] != '_' {
                None
            } else if e + 1 + l > s.len() {
                None
            } else {
                Some((s.subrange(e + 1, e + 1 + l), e + 1 + l))
            }
        }
    }
}

/// The digit run with its leading zeros dropped; a run of zeros keeps one.
pub open spec fn strip_zeros(run: Seq<char>) -> Seq<char>
    decreases run.len(),
{
    if run.len() > 1 && run[0] == '0' {
        strip_zeros(run.drop_first())
    } else {
        run
    }
}

/// A length-prefixed identifier.
pub open spec fn spec_identifier(s: Seq<char>, pos: int) -> Option<(NameV, int)> {
    match spec_extract(s, pos) {
        Some((txt, p)) => Some((NameV::Identifier(txt), p)),
        None => None,
    }
}

/// A numeric type reference: `Z`, digits, optionally an underscore and more
/// digits, then `Z`; modeled as an opaque identifier of the numeric text.
pub open spec fn spec_type_ref(s: Seq<char>, pos: int) -> Option<(NameV, int)> {
    if pos < 0 || pos >= s.len() || s[pos] != 'Z' {
        None
    } else {
        let e = digits_end(s, pos + 1);
        if e == pos + 1 {
            None
        } else {
            let run = s.subrange(pos + 1, e);
            let e2 = if e < s.len() && s[e] == '_' && digits_end(s, e + 1) > e + 1 {
                digits_end(s, e + 1)
            } else {
                e
            };
            if e2 < s.len() && s[e2] == 'Z' {
                Some((NameV::Identifier(strip_zeros(run)), e2 + 1))
            } else {
                None
            }
        }
    }
}

/// A single-character primitive-type code.
pub open spec fn spec_base_type(s: Seq<char>, pos: int) -> Option<(NameV, int)> {
    if 0 <= pos < s.len() && is_base_code(s[pos]) {
        Some((NameV::BaseType(s[pos]), pos + 1))
    } else {
        None
    }
}

/// Appends a copy of the entry at 1-based position `d`; `None` when `d`
/// does not point strictly before the current position.
pub open spec fn resolve_ref(acc: Seq<NameV>, d: int) -> Option<Seq<NameV>> {
    if 1 <= d <= acc.len() {
        Some(acc.push(acc[d - 1]))
    } else {
        None
    }
}

/// Appends `c` copies of the entry at 1-based position `d`; with no copies
/// to make the position goes unchecked, as nothing is read from the list.
pub open spec fn resolve_repeat(acc: Seq<NameV>, c: int, d: int) -> Option<Seq<NameV>> {
    if c == 0 {
        Some(acc)
    } else if 1 <= d <= acc.len() {
        Some(acc + Seq::new(c as nat, |k: int| acc[d - 1]))
    } else {
        None
    }
}

/// Entries already collected, put before whatever a list production still
/// yields.
pub open spec fn prepend_list(pre: Seq<NameV>, o: SpecParseList) -> SpecParseList {
    match o {
        SpecParseList::Found(rest, q) => SpecParseList::Found(pre + rest, q),
        SpecParseList::Mismatch => SpecParseList::Mismatch,
        SpecParseList::Fatal => SpecParseList::Fatal,
    }
}

/// A namespace: `Q`, a single decimal depth digit, an underscore, then
/// exactly that many name productions.
pub open spec fn spec_namespace(s: Seq<char>, pos: int) -> SpecParse
    decreases s.len() - pos, 0int,
{
    if pos < 0 || pos + 3 > s.len() || s[pos] != 'Q' || !is_digit_char(s[pos + 1]) || s[pos + 2]
        != '_' {
        SpecParse::Mismatch
    } else {
        match spec_ns_items(s, pos + 3, digit_val(s[pos + 1]) as int) {
            SpecParseList::Fatal => SpecParse::Fatal,
            SpecParseList::Mismatch => SpecParse::Mismatch,
            SpecParseList::Found(path, p) => SpecParse::Found(NameV::Namespace(path), p),
        }
    }
}

/// Exactly `k` consecutive name productions.
pub open spec fn spec_ns_items(s: Seq<char>, pos: int, k: int) -> SpecParseList
    decreases s.len() - pos, 3int, k,
{
    if pos < 0 || pos > s.len() {
        SpecParseList::Mismatch
    } else if k <= 0 {
        SpecParseList::Found(Seq::empty(), pos)
    } else {
        match spec_read_name(s, pos) {
            SpecParse::Fatal => SpecParseList::Fatal,
            SpecParse::Mismatch => SpecParseList::Mismatch,
            SpecParse::Found(n, p) => if pos < p <= s.len() {
                match spec_ns_items(s, p, k - 1) {
                    SpecParseList::Fatal => SpecParseList::Fatal,
                    SpecParseList::Mismatch => SpecParseList::Mismatch,
                    SpecParseList::Found(rest, q) => SpecParseList::Found(
                        seq![n] + rest,
                        q,
                    ),
                }
            } else {
                SpecParseList::Mismatch
            },
        }
    }
}

/// A modifier code applied to a following name.
pub open spec fn spec_modifier(s: Seq<char>, pos: int) -> SpecParse
    decreases s.len() - pos, 0int,
{
    if pos < 0 || pos >= s.len() || !is_modifier_code(s[pos]) {
        SpecParse::Mismatch
    } else {
        match spec_read_name(s, pos + 1) {
            SpecParse::Fatal => SpecParse::Fatal,
            SpecParse::Mismatch => SpecParse::Mismatch,
            SpecParse::Found(n, p) => SpecParse::Found(
                NameV::Modifier(ModifierV::OnPrefix(modifier_text(s[pos])), Box::new(n)),
                p,
            ),
        }
    }
}

/// A function-pointer type: `F`, a names list, an underscore, the return
/// type.
pub open spec fn spec_function_pointer(s: Seq<char>, pos: int) -> SpecParse
    decreases s.len() - pos, 0int,
{
    if pos < 0 || pos >= s.len() || s[pos] != 'F' {
        SpecParse::Mismatch
    } else {
        match spec_read_names(s, pos + 1, Seq::empty()) {
            SpecParseList::Fatal => SpecParse::Fatal,
            SpecParseList::Mismatch => SpecParse::Mismatch,
            SpecParseList::Found(args, p1) => if pos + 1 <= p1 <= s.len() {
                if p1 < s.len() && s[p1] == '_' {
                    match spec_read_name(s, p1 + 1) {
                        SpecParse::Fatal => SpecParse::Fatal,
                        SpecParse::Mismatch => SpecParse::Mismatch,
                        SpecParse::Found(ret, p2) => SpecParse::Found(
                            NameV::FunctionPointer(args, Box::new(ret)),
                            p2,
                        ),
                    }
                } else {
                    SpecParse::Mismatch
                }
            } else {
                SpecParse::Mismatch
            },
        }
    }
}

/// A sized array: `A`, a decimal size that fits the machine word, an
/// underscore, the element type.
pub open spec fn spec_sized_array(s: Seq<char>, pos: int) -> SpecParse
    decreases s.len() - pos, 0int,
{
    if pos < 0 || pos >= s.len() || s[pos] != 'A' {
        SpecParse::Mismatch
    } else {
        let e = digits_end(s, pos + 1);
        if e <= pos + 1 || e > s.len() {
            SpecParse::Mismatch
        } else {
            let size = digits_value(s.subrange(pos + 1, e));
            if size > usize::MAX {
                SpecParse::Mismatch
            } else if e < s.len() && s[e] == '_' {
                match spec_read_name(s, e + 1) {
                    SpecParse::Fatal => SpecParse::Fatal,
                    SpecParse::Mismatch => SpecParse::Mismatch,
                    SpecParse::Found(t, p) => SpecParse::Found(
                        NameV::SizedArray(size as int, Box::new(t)),
                        p,
                    ),
                }
            } else {
                SpecParse::Mismatch
            }
        }
    }
}

/// The implicit type text of a bare value argument.
pub open spec fn typename_text() -> Seq<char> {
    seq!['t', 'y', 'p', 'e', 'n', 'a', 'm', 'e']
}

/// A non-type template/value argument: `X`, then either a length-prefixed
/// literal standing for an implicit `typename` value, or a type followed by
/// `L_` and an underscore-separated length-prefixed literal.
pub open spec fn spec_value_argument(s: Seq<char>, pos: int) -> SpecParse
    decreases s.len() - pos, 0int,
{
    if pos < 0 || pos >= s.len() || s[pos] != 'X' {
        SpecParse::Mismatch
    } else {
        match spec_extract(s, pos + 1) {
            Some((txt, p)) => SpecParse::Found(
                NameV::ValueArgument(Box::new(NameV::Identifier(typename_text())), txt),
                p,
            ),
            None => match spec_read_name(s, pos + 1) {
                SpecParse::Fatal => SpecParse::Fatal,
                SpecParse::Mismatch => SpecParse::Mismatch,
                SpecParse::Found(t, p1) => if pos + 1 < p1 && p1 + 2 <= s.len() && s[p1] == 'L'
                    && s[p1 + 1] == '_' {
                    match spec_extract_under(s, p1 + 2) {
                        Some((v, p2)) => SpecParse::Found(
                            NameV::ValueArgument(Box::new(t), v),
                            p2,
                        ),
                        None => SpecParse::Mismatch,
                    }
                } else {
                    SpecParse::Mismatch
                },
            },
        }
    }
}

/// A template-argument list: the template marker, then a length-prefixed
/// raw string whose first character is a separator convention and whose
/// remainder must be consumed entirely as a names list.
pub open spec fn spec_template(s: Seq<char>, pos: int) -> SpecParseList
    decreases s.len() - pos, 0int,
{
    if pos < 0 || !matches_at(s, pos, template_marker()) {
        SpecParseList::Mismatch
    } else {
        match spec_extract(s, pos + 6) {
            None => SpecParseList::Mismatch,
            Some((raw, p2)) => if raw.len() < 1 {
                SpecParseList::Mismatch
            } else {
                let t = raw.drop_first();
                if t.len() < s.len() - pos {
                    match spec_read_names(t, 0, Seq::empty()) {
                        SpecParseList::Fatal => SpecParseList::Fatal,
                        SpecParseList::Mismatch => SpecParseList::Mismatch,
                        SpecParseList::Found(names, q) => if q == t.len() {
                            SpecParseList::Found(names, p2)
                        } else {
                            SpecParseList::Mismatch
                        },
                    }
                } else {
                    SpecParseList::Mismatch
                }
            },
        }
    }
}

/// The base alternatives of the name production, tried in order.
pub open spec fn spec_name_base(s: Seq<char>, pos: int) -> SpecParse
    decreases s.len() - pos, 1int,
{
    if pos < 0 || pos > s.len() {
        SpecParse::Mismatch
    } else {
        match spec_identifier(s, pos) {
            Some((n, p)) => SpecParse::Found(n, p),
            None => match spec_namespace(s, pos) {
                SpecParse::Fatal => SpecParse::Fatal,
                SpecParse::Found(n, p) => SpecParse::Found(n, p),
                SpecParse::Mismatch => match spec_modifier(s, pos) {
                    SpecParse::Fatal => SpecParse::Fatal,
                    SpecParse::Found(n, p) => SpecParse::Found(n, p),
                    SpecParse::Mismatch => match spec_type_ref(s, pos) {
                        Some((n, p)) => SpecParse::Found(n, p),
                        None => match spec_base_type(s, pos) {
                            Some((n, p)) => SpecParse::Found(n, p),
                            None => match spec_function_pointer(s, pos) {
                                SpecParse::Fatal => SpecParse::Fatal,
                                SpecParse::Found(n, p) => SpecParse::Found(n, p),
                                SpecParse::Mismatch => spec_sized_array(s, pos),
                            },
                        },
                    },
                },
            },
        }
    }
}

/// The greedy suffix loop of the name production: template-argument lists
/// and inner-name qualifications, until neither matches.
pub open spec fn spec_name_suffixes(s: Seq<char>, pos: int, cur: NameV) -> SpecParse
    decreases s.len() - pos, 1int,
{
    if pos < 0 || pos > s.len() {
        SpecParse::Mismatch
    } else {
        match spec_template(s, pos) {
            SpecParseList::Fatal => SpecParse::Fatal,
            SpecParseList::Found(args, p2) => if pos < p2 <= s.len() {
                spec_name_suffixes(s, p2, NameV::Template(Box::new(cur), args))
            } else {
                SpecParse::Mismatch
            },
            SpecParseList::Mismatch => if matches_at(s, pos, dunder()) {
                match spec_read_name(s, pos + 2) {
                    SpecParse::Fatal => SpecParse::Fatal,
                    SpecParse::Found(parent, p3) => if pos < p3 <= s.len() {
                        spec_name_suffixes(
                            s,
                            p3,
                            NameV::InName(Box::new(cur), Box::new(parent)),
                        )
                    } else {
                        SpecParse::Mismatch
                    },
                    SpecParse::Mismatch => SpecParse::Found(cur, pos),
                }
            } else {
                SpecParse::Found(cur, pos)
            },
        }
    }
}

/// The name production: a base alternative, then the greedy suffix loop.
pub open spec fn spec_read_name(s: Seq<char>, pos: int) -> SpecParse
    decreases s.len() - pos, 2int,
{
    if pos < 0 || pos > s.len() {
        SpecParse::Mismatch
    } else {
        match spec_name_base(s, pos) {
            SpecParse::Fatal => SpecParse::Fatal,
            SpecParse::Mismatch => SpecParse::Mismatch,
            SpecParse::Found(n, p) => if pos < p <= s.len() {
                spec_name_suffixes(s, p, n)
            } else {
                SpecParse::Mismatch
            },
        }
    }
}

/// The names-list production: items resolved into the final list
/// incrementally, left to right. A plain name or value argument is
/// appended; a back-reference or repeat token is resolved against the list
/// built so far, and an out-of-range index is fatal.
pub open spec fn spec_read_names(s: Seq<char>, pos: int, acc: Seq<NameV>) -> SpecParseList
    decreases s.len() - pos, 3int,
{
    if pos < 0 || pos > s.len() {
        SpecParseList::Mismatch
    } else {
        match spec_read_name(s, pos) {
            SpecParse::Fatal => SpecParseList::Fatal,
            SpecParse::Found(n, p) => if pos < p <= s.len() {
                spec_read_names(s, p, acc.push(n))
            } else {
                SpecParseList::Mismatch
            },
            SpecParse::Mismatch => if pos + 2 <= s.len() && s[pos] == 'T' && is_digit_char(
                s[pos + 1],
            ) {
                match resolve_ref(acc, digit_val(s[pos + 1]) as int) {
                    Some(acc2) => spec_read_names(s, pos + 2, acc2),
                    None => SpecParseList::Fatal,
                }
            } else if pos + 3 <= s.len() && s[pos] == 'N' && is_digit_char(s[pos + 1])
                && is_digit_char(s[pos + 2]) {
                match resolve_repeat(
                    acc,
                    digit_val(s[pos + 1]) as int,
                    digit_val(s[pos + 2]) as int,
                ) {
                    Some(acc2) => spec_read_names(s, pos + 3, acc2),
                    None => SpecParseList::Fatal,
                }
            } else {
                match spec_value_argument(s, pos) {
                    SpecParse::Fatal => SpecParseList::Fatal,
                    SpecParse::Found(n, p) => if pos < p <= s.len() {
                        spec_read_names(s, p, acc.push(n))
                    } else {
                        SpecParseList::Mismatch
                    },
                    SpecParse::Mismatch => SpecParseList::Found(acc, pos),
                }
            },
        }
    }
}

/// An argument list: an optional double underscore, one of the tags `F`,
/// `CF` or `SF`, then a names list.
pub open spec fn spec_arguments(s: Seq<char>, pos: int) -> SpecParseList
    decreases s.len() - pos, 0int,
{
    if pos < 0 || pos > s.len() {
        SpecParseList::Mismatch
    } else {
        let b = if matches_at(s, pos, dunder()) {
            pos + 2
        } else {
            pos
        };
        let b2 = if b < s.len() && s[b] == 'F' {
            b + 1
        } else if b + 2 <= s.len() && (s[b] == 'C' || s[b] == 'S') && s[b + 1] == 'F' {
            b + 2
        } else {
            -1
        };
        if b2 < pos + 1 {
            SpecParseList::Mismatch
        } else {
            spec_read_names(s, b2, Seq::empty())
        }
    }
}

/// The greedy suffix loop of the function production: a static-member
/// marker (consumed, with no tree effect), an argument list, a return-type
/// suffix, or an inner-name suffix, until none matches.
pub open spec fn spec_function_suffixes(s: Seq<char>, pos: int, cur: NameV) -> SpecParse
    decreases s.len() - pos, 1int,
{
    if pos < 0 || pos > s.len() {
        SpecParse::Mismatch
    } else if matches_at(s, pos, static_marker()) {
        spec_function_suffixes(s, pos + 3, cur)
    } else {
        match spec_arguments(s, pos) {
            SpecParseList::Fatal => SpecParse::Fatal,
            SpecParseList::Found(args, p) => if pos < p <= s.len() {
                spec_function_suffixes(s, p, NameV::WithArguments(Box::new(cur), args))
            } else {
                SpecParse::Mismatch
            },
            SpecParseList::Mismatch => if pos < s.len() && s[pos] == '_' {
                match spec_read_name(s, pos + 1) {
                    SpecParse::Fatal => SpecParse::Fatal,
                    SpecParse::Found(ret, p) => if pos < p <= s.len() {
                        spec_function_suffixes(
                            s,
                            p,
                            NameV::WithReturnValue(Box::new(cur), Box::new(ret)),
                        )
                    } else {
                        SpecParse::Mismatch
                    },
                    SpecParse::Mismatch => if matches_at(s, pos, dunder()) {
                        match spec_read_name(s, pos + 2) {
                            SpecParse::Fatal => SpecParse::Fatal,
                            SpecParse::Found(parent, p) => if pos < p <= s.len() {
                                spec_function_suffixes(
                                    s,
                                    p,
                                    NameV::InName(Box::new(cur), Box::new(parent)),
                                )
                            } else {
                                SpecParse::Mismatch
                            },
                            SpecParse::Mismatch => SpecParse::Found(cur, pos),
                        }
                    } else {
                        SpecParse::Found(cur, pos)
                    },
                }
            } else {
                SpecParse::Found(cur, pos)
            },
        }
    }
}

/// The function production, the grammar's top level: a name, then the
/// greedy function suffix loop.
pub open spec fn spec_read_function(s: Seq<char>, pos: int) -> SpecParse
    decreases s.len() - pos, 3int,
{
    if pos < 0 || pos > s.len() {
        SpecParse::Mismatch
    } else {
        match spec_read_name(s, pos) {
            SpecParse::Fatal => SpecParse::Fatal,
            SpecParse::Mismatch => SpecParse::Mismatch,
            SpecParse::Found(n, p) => if pos < p <= s.len() {
                spec_function_suffixes(s, p, n)
            } else {
                SpecParse::Mismatch
            },
        }
    }
}

/// One step of the name-suffix loop, spelled out for callers that must not
/// unfold the whole mutually recursive grammar.
pub proof fn lemma_name_suffixes_step(s: Seq<char>, pos: int, cur: NameV)
    requires
        0 <= pos <= s.len(),
    ensures
        spec_name_suffixes(s, pos, cur) == (match spec_template(s, pos) {
            SpecParseList::Fatal => SpecParse::Fatal,
            SpecParseList::Found(args, p2) => if pos < p2 <= s.len() {
                spec_name_suffixes(s, p2, NameV::Template(Box::new(cur), args))
            } else {
                SpecParse::Mismatch
            },
            SpecParseList::Mismatch => if matches_at(s, pos, dunder()) {
                match spec_read_name(s, pos + 2) {
                    SpecParse::Fatal => SpecParse::Fatal,
                    SpecParse::Found(parent, p3) => if pos < p3 <= s.len() {
                        spec_name_suffixes(
                            s,
                            p3,
                            NameV::InName(Box::new(cur), Box::new(parent)),
                        )
                    } else {
                        SpecParse::Mismatch
                    },
                    SpecParse::Mismatch => SpecParse::Found(cur, pos),
                }
            } else {
                SpecParse::Found(cur, pos)
            },
        }),
{
}

/// One step of the function-suffix loop, spelled out likewise.
pub proof fn lemma_function_suffixes_step(s: Seq<char>, pos: int, cur: NameV)
    requires
        0 <= pos <= s.len(),
    ensures
        spec_function_suffixes(s, pos, cur) == (if matches_at(s, pos, static_marker()) {
            spec_function_suffixes(s, pos + 3, cur)
        } else {
            match spec_arguments(s, pos) {
                SpecParseList::Fatal => SpecParse::Fatal,
                SpecParseList::Found(args, p) => if pos < p <= s.len() {
                    spec_function_suffixes(s, p, NameV::WithArguments(Box::new(cur), args))
                } else {
                    SpecParse::Mismatch
                },
                SpecParseList::Mismatch => if pos < s.len() && s[pos] == '_' {
                    match spec_read_name(s, pos + 1) {
                        SpecParse::Fatal => SpecParse::Fatal,
                        SpecParse::Found(ret, p) => if pos < p <= s.len() {
                            spec_function_suffixes(
                                s,
                                p,
                                NameV::WithReturnValue(Box::new(cur), Box::new(ret)),
                            )
                        } else {
                            SpecParse::Mismatch
                        },
                        SpecParse::Mismatch => if matches_at(s, pos, dunder()) {
                            match spec_read_name(s, pos + 2) {
                                SpecParse::Fatal => SpecParse::Fatal,
                                SpecParse::Found(parent, p) => if pos < p <= s.len() {
                                    spec_function_suffixes(
                                        s,
                                        p,
                                        NameV::InName(Box::new(cur), Box::new(parent)),
                                    )
                                } else {
                                    SpecParse::Mismatch
                                },
                                SpecParse::Mismatch => SpecParse::Found(cur, pos),
                            }
                        } else {
                            SpecParse::Found(cur, pos)
                        },
                    }
                } else {
                    SpecParse::Found(cur, pos)
                },
            }
        }),
{
}

/// The value-argument production, spelled out likewise.
pub proof fn lemma_value_argument_unfold(s: Seq<char>, pos: int)
    requires
        0 <= pos <= s.len(),
    ensures
        spec_value_argument(s, pos) == (if pos >= s.len() || s[pos] != 'X' {
            SpecParse::Mismatch
        } else {
            match spec_extract(s, pos + 1) {
                Some((txt, p)) => SpecParse::Found(
                    NameV::ValueArgument(Box::new(NameV::Identifier(typename_text())), txt),
                    p,
                ),
                None => match spec_read_name(s, pos + 1) {
                    SpecParse::Fatal => SpecParse::Fatal,
                    SpecParse::Mismatch => SpecParse::Mismatch,
                    SpecParse::Found(t, p1) => if pos + 1 < p1 && p1 + 2 <= s.len() && s[p1]
                        == 'L' && s[p1 + 1] == '_' {
                        match spec_extract_under(s, p1 + 2) {
                            Some((v, p2)) => SpecParse::Found(
                                NameV::ValueArgument(Box::new(t), v),
                                p2,
                            ),
                            None => SpecParse::Mismatch,
                        }
                    } else {
                        SpecParse::Mismatch
                    },
                },
            }
        }),
{
}

/// Law: a back-reference in a names list resolves to a copy of the earlier
/// entry at its 1-based index, leaving the list before it unchanged.
pub proof fn lemma_backref_copies_earlier(acc: Seq<NameV>, d: int)
    requires
        1 <= d <= acc.len(),
    ensures
        resolve_ref(acc, d) == Some(acc.push(acc[d - 1])),
{
}

/// Law: an out-of-range back-reference is rejected, never resolved to an
/// empty or default entry.
pub proof fn lemma_backref_out_of_range_rejected(acc: Seq<NameV>, d: int)
    requires
        d < 1 || d > acc.len(),
    ensures
        resolve_ref(acc, d) is None,
{
}

/// Law: a repeat token expands into exactly `c` copies of the earlier entry
/// at its 1-based index.
pub proof fn lemma_repeat_expands(acc: Seq<NameV>, c: int, d: int)
    requires
        1 <= c,
        1 <= d <= acc.len(),
    ensures
        resolve_repeat(acc, c, d) == Some(acc + Seq::new(c as nat, |k: int| acc[d - 1])),
        resolve_repeat(acc, c, d) matches Some(r) ==> r.len() == acc.len() + c,
{
    assert(resolve_repeat(acc, c, d) matches Some(r) ==> r.len() == acc.len() + c);
}

/// Law: an out-of-range repeat index with at least one copy to make is
/// rejected.
pub proof fn lemma_repeat_out_of_range_rejected(acc: Seq<NameV>, c: int, d: int)
    requires
        1 <= c,
        d < 1 || d > acc.len(),
    ensures
        resolve_repeat(acc, c, d) is None,
{
}

} // verus!
