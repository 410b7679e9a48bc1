//! The splitter: infers where the grammar's first length-prefixed identifier
//! ends and prepends that length, since the raw mangled string carries no
//! top-level length prefix. A pure, total, deterministic function.

use vstd::prelude::*;

use crate::text::decimal_of;
use crate::text::digit_char;
use crate::text::digit_char_exec;
use crate::text::find_from;
use crate::text::find_pattern_from;
use crate::text::has_prefix_at;
use crate::text::matches_at;
use crate::text::usize_to_string;

verus! {

/// The double-underscore marker.
pub open spec fn dunder() -> Seq<char> {
    seq!['_', '_']
}

/// The argument-list sub-marker.
pub open spec fn arg_marker() -> Seq<char> {
    seq!['_', '_', 'F']
}

/// The template sub-marker.
pub open spec fn tm_marker() -> Seq<char> {
    seq!['_', '_', 't', 'm', '_', '_']
}

/// The namespace sub-marker of depth `d`.
pub open spec fn ns_marker(d: int) -> Seq<char> {
    seq!['Q', digit_char(d as nat), '_']
}

/// Whether `c` is an ASCII letter or digit.
pub open spec fn is_ascii_alnum(c: char) -> bool {
    ||| 48 <= c as u32 <= 57
    ||| 65 <= c as u32 <= 90
    ||| 97 <= c as u32 <= 122
}

/// The smaller of two optional positions.
pub open spec fn opt_min(a: Option<int>, b: Option<int>) -> Option<int> {
    match (a, b) {
        (Some(x), Some(y)) => if x <= y {
            Some(x)
        } else {
            Some(y)
        },
        (Some(x), None) => Some(x),
        (None, Some(y)) => Some(y),
        (None, None) => None,
    }
}

/// The inferred identifier length from a namespace marker of depth `d`:
/// its matched offset moved two characters earlier, floored at zero to
/// account for the digit and underscore the marker is written with.
pub open spec fn ns_candidate(s: Seq<char>, d: int) -> Option<int> {
    match find_from(s, ns_marker(d), 0) {
        Some(i) => Some(if i >= 2 {
            i - 2
        } else {
            0
        }),
        None => None,
    }
}

/// The smallest namespace-marker candidate of depths `d` through 8.
pub open spec fn ns_min(s: Seq<char>, d: int) -> Option<int>
    decreases 9 - d,
{
    if d >= 9 {
        None
    } else {
        opt_min(ns_candidate(s, d), ns_min(s, d + 1))
    }
}

/// The smallest candidate split point over all recognized sub-markers.
pub open spec fn min_candidate(s: Seq<char>) -> Option<int> {
    opt_min(
        find_from(s, arg_marker(), 0),
        opt_min(find_from(s, tm_marker(), 0), ns_min(s, 1)),
    )
}

/// The splitter's result: the inferred identifier length in decimal,
/// prepended to the unchanged input.
pub open spec fn spec_preprocess(s: Seq<char>) -> Seq<char> {
    if matches_at(s, 0, dunder()) && (forall|i: int|
        2 <= i < s.len() ==> is_ascii_alnum(s[i])) {
        decimal_of(s.len()) + s
    } else if matches_at(s, 0, dunder()) && find_from(s, dunder(), 2) is None {
        decimal_of(s.len()) + s
    } else {
        match min_candidate(s) {
            None => decimal_of(s.len()) + s,
            Some(k) => decimal_of(if k >= 0 {
                k as nat
            } else {
                0
            }) + s,
        }
    }
}

/// The smaller of two optional positions, as runtime values.
fn opt_min_exec(a: Option<usize>, b: Option<usize>) -> (r: Option<usize>)
    ensures
        opt_min(
            match a {
                Some(x) => Some(x as int),
                None => None,
            },
            match b {
                Some(y) => Some(y as int),
                None => None,
            },
        ) == (match r {
            Some(z) => Some(z as int),
            None => None::<int>,
        }),
{
    match (a, b) {
        (Some(x), Some(y)) => if x <= y {
            Some(x)
        } else {
            Some(y)
        },
        (Some(x), None) => Some(x),
        (None, Some(y)) => Some(y),
        (None, None) => None,
    }
}

/// Prepends the inferred first-identifier length to the input.
pub fn preprocess(x: String) -> (r: String)
    ensures
        r@ == spec_preprocess(x@),
{
    let s = x.as_str();
    let n = s.unicode_len();
    let du: Vec<char> = vec!['_', '_'];
    proof {
        assert(du@ =~= dunder());
    }
    if has_prefix_at(s, 0, &du) {
        let mut all_alnum = true;
        let mut i: usize = 2;
        while i < n
            invariant
                2 <= i <= n || (n < 2 && i == 2),
                n == s@.len(),
                all_alnum <==> (forall|j: int| 2 <= j < i ==> is_ascii_alnum(s@[j])),
            decreases n - i,
        {
            let u = s.get_char(i) as u32;
            if !(48 <= u && u <= 57 || 65 <= u && u <= 90 || 97 <= u && u <= 122) {
                all_alnum = false;
            }
            i = i + 1;
        }
        if all_alnum {
            let mut out = usize_to_string(n);
            out.append(s);
            return out;
        }
        if find_pattern_from(s, &du, 2).is_none() {
            let mut out = usize_to_string(n);
            out.append(s);
            return out;
        }
    }
    let argm: Vec<char> = vec!['_', '_', 'F'];
    let tmm: Vec<char> = vec!['_', '_', 't', 'm', '_', '_'];
    proof {
        assert(argm@ =~= arg_marker());
        assert(tmm@ =~= tm_marker());
    }
    let mut best: Option<usize> = None;
    let mut d: usize = 9;
    while d > 1
        invariant
            1 <= d <= 9,
            n == s@.len(),
            ns_min(s@, d as int) == (match best {
                Some(z) => Some(z as int),
                None => None::<int>,
            }),
        decreases d,
    {
        d = d - 1;
        let mut qm: Vec<char> = Vec::new();
        qm.push('Q');
        qm.push(digit_char_exec(d));
        qm.push('_');
        proof {
            assert(qm@ =~= ns_marker(d as int));
        }
        let cand: Option<usize> = match find_pattern_from(s, &qm, 0) {
            Some(i) => Some(if i >= 2 {
                i - 2
            } else {
                0
            }),
            None => None,
        };
        proof {
            assert(ns_candidate(s@, d as int) == (match cand {
                Some(z) => Some(z as int),
                None => None::<int>,
            }));
        }
        best = opt_min_exec(cand, best);
    }
    let tm_cand = find_pattern_from(s, &tmm, 0);
    best = opt_min_exec(tm_cand, best);
    let f_cand = find_pattern_from(s, &argm, 0);
    best = opt_min_exec(f_cand, best);
    proof {
        assert(min_candidate(s@) == (match best {
            Some(z) => Some(z as int),
            None => None::<int>,
        }));
    }
    match best {
        None => {
            let mut out = usize_to_string(n);
            out.append(s);
            out
        },
        Some(k) => {
            let mut out = usize_to_string(k);
            out.append(s);
            out
        },
    }
}

/// Law: for input that does not start with the double-underscore marker and
/// contains no recognized sub-marker, the inferred prefix length is the full
/// input length.
pub proof fn lemma_splitter_whole_identifier(s: Seq<char>)
    requires
        !matches_at(s, 0, dunder()),
        find_from(s, arg_marker(), 0) is None,
        find_from(s, tm_marker(), 0) is None,
        forall|d: int| 1 <= d < 9 ==> find_from(s, #[trigger] ns_marker(d), 0) is None,
    ensures
        spec_preprocess(s) == decimal_of(s.len()) + s,
{
    lemma_ns_min_none(s, 1);
}

/// If no namespace marker of depth `d` through 8 occurs, there is no
/// namespace candidate among those depths.
proof fn lemma_ns_min_none(s: Seq<char>, d: int)
    requires
        forall|e: int| d <= e < 9 ==> find_from(s, #[trigger] ns_marker(e), 0) is None,
    ensures
        ns_min(s, d) is None,
    decreases 9 - d,
{
    if d < 9 {
        lemma_ns_min_none(s, d + 1);
    }
}

} // verus!
