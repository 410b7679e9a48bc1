//! The decompressor: expands the optional back-reference compression
//! wrapper into a flat mangled string.
//!
//! After an optional thunk prefix is dropped, a string opening with the
//! compression marker carries a decimal expected-length field (parsed but
//! not enforced), a double underscore, and then a token stream split on the
//! separator character. Even-positioned tokens are literal; odd-positioned
//! tokens are back-reference directives: an empty one stands for the
//! separator itself, a non-empty one is a decimal offset into the output
//! built so far, whose length-prefixed token there is re-emitted with a
//! freshly computed length prefix. Any malformation yields `None`, and the
//! caller falls back to echoing its input.

use vstd::prelude::*;

use crate::splitter::dunder;
use crate::text::decimal_of;
use crate::text::digits_end;
use crate::text::digits_value;
use crate::text::find_from;
use crate::text::find_pattern_from;
use crate::text::has_prefix_at;
use crate::text::is_digit_char;
use crate::text::lemma_digits_end;
use crate::text::lemma_find_from_range;
use crate::text::matches_at;
use crate::text::scan_digits;
use crate::text::substring_string;
use crate::text::usize_to_string;

verus! {

/// The thunk marker. When present, a fixed 25-character prefix is dropped.
/// The count exceeds the marker's own thirteen characters; it is kept
/// exactly, as a compatibility constant of the encoding.
pub open spec fn thunk_marker() -> Seq<char> {
    seq!['_', '_', 'g', 'h', 's', '_', 't', 'h', 'u', 'n', 'k', '_', '_']
}

/// The number of characters dropped along with the thunk marker.
pub open spec fn thunk_drop() -> int {
    25
}

/// The compression marker.
pub open spec fn cpr_marker() -> Seq<char> {
    seq!['_', '_', 'C', 'P', 'R']
}

/// The token-stream separator character.
pub open spec fn separator() -> char {
    'J'
}

/// One token of the stream applied to the output built so far, or `None`
/// on a malformed back-reference directive.
pub open spec fn spec_cpr_step(tok: Seq<char>, even: bool, out: Seq<char>) -> Option<Seq<char>> {
    if even {
        Some(out + tok)
    } else if tok.len() == 0 {
        Some(out.push(separator()))
    } else if exists|k: int| 0 <= k < tok.len() && !is_digit_char(tok[k]) {
        None
    } else {
        let off = digits_value(tok) as int;
        if off > out.len() {
            None
        } else {
            let e = digits_end(out, off);
            if e == off {
                None
            } else {
                let l = digits_value(out.subrange(off, e)) as int;
                if e + l > out.len() {
                    None
                } else {
                    Some(out + decimal_of(l as nat) + out.subrange(e, e + l))
                }
            }
        }
    }
}

/// The token stream of `s` from `pos` on, applied to the output built so
/// far. `even` says whether the next token is even-positioned.
pub open spec fn spec_cpr_tokens(s: Seq<char>, pos: int, even: bool, out: Seq<char>) -> Option<
    Seq<char>,
>
    decreases s.len() - pos,
{
    if pos < 0 || pos > s.len() {
        None
    } else {
        match find_from(s, seq![separator()], pos) {
            None => spec_cpr_step(s.subrange(pos, s.len() as int), even, out),
            Some(j) => if pos <= j && j < s.len() {
                match spec_cpr_step(s.subrange(pos, j), even, out) {
                    None => None,
                    Some(out2) => spec_cpr_tokens(s, j + 1, !even, out2),
                }
            } else {
                None
            },
        }
    }
}

/// Decompression after the optional thunk prefix was dropped: a string
/// without the compression marker passes through unchanged.
pub open spec fn spec_expand(s: Seq<char>) -> Option<Seq<char>> {
    if matches_at(s, 0, cpr_marker()) {
        let e = digits_end(s, 5);
        if e == 5 {
            None
        } else if matches_at(s, e, dunder()) {
            spec_cpr_tokens(s, e + 2, true, Seq::empty())
        } else {
            None
        }
    } else {
        Some(s)
    }
}

/// The whole decompression stage.
pub open spec fn spec_decompress(s: Seq<char>) -> Option<Seq<char>> {
    if matches_at(s, 0, thunk_marker()) {
        if s.len() < thunk_drop() {
            None
        } else {
            spec_expand(s.skip(thunk_drop()))
        }
    } else {
        spec_expand(s)
    }
}

/// Law: a compressed string with no back-reference token at all — its
/// payload holds no separator — decompresses to exactly that payload, the
/// concatenation of its (single) even-positioned token.
pub proof fn lemma_decompress_literal_tokens(dlen: Seq<char>, data: Seq<char>)
    requires
        dlen.len() > 0,
        forall|i: int| 0 <= i < dlen.len() ==> is_digit_char(#[trigger] dlen[i]),
        forall|i: int| 0 <= i < data.len() ==> #[trigger] data[i] != separator(),
    ensures
        spec_decompress(cpr_marker() + dlen + dunder() + data) == Some(data),
{
    let s = cpr_marker() + dlen + dunder() + data;
    let e = 5 + dlen.len() as int;
    assert(s[2] == 'C');
    assert(!matches_at(s, 0, thunk_marker()));
    assert(matches_at(s, 0, cpr_marker()));
    assert(forall|j: int| 5 <= j < e ==> is_digit_char(#[trigger] s[j]));
    assert(s[e] == '_' && !is_digit_char('_'));
    crate::text::lemma_digits_end_is(s, 5, e);
    assert(matches_at(s, e, dunder()));
    crate::text::lemma_find_char_none(s, separator(), e + 2);
    assert(s.subrange(e + 2, s.len() as int) =~= data);
    assert(spec_cpr_tokens(s, e + 2, true, Seq::empty()) == Some(Seq::empty() + data));
    assert(Seq::empty() + data =~= data);
}

/// Law: when the only back-reference token is empty, the separator itself
/// appears at that position of the output.
pub proof fn lemma_decompress_lone_empty_backref(dlen: Seq<char>, a: Seq<char>, b: Seq<char>)
    requires
        dlen.len() > 0,
        forall|i: int| 0 <= i < dlen.len() ==> is_digit_char(#[trigger] dlen[i]),
        forall|i: int| 0 <= i < a.len() ==> #[trigger] a[i] != separator(),
        forall|i: int| 0 <= i < b.len() ==> #[trigger] b[i] != separator(),
    ensures
        spec_decompress(cpr_marker() + dlen + dunder() + a + seq![separator(), separator()] + b)
            == Some(a + seq![separator()] + b),
{
    let s = cpr_marker() + dlen + dunder() + a + seq![separator(), separator()] + b;
    let e = 5 + dlen.len() as int;
    let j = e + 2 + a.len() as int;
    assert(s[2] == 'C');
    assert(!matches_at(s, 0, thunk_marker()));
    assert(matches_at(s, 0, cpr_marker()));
    assert(forall|i: int| 5 <= i < e ==> is_digit_char(#[trigger] s[i]));
    assert(s[e] == '_' && !is_digit_char('_'));
    crate::text::lemma_digits_end_is(s, 5, e);
    assert(matches_at(s, e, dunder()));
    assert(s[j] == separator() && s[j + 1] == separator());
    assert(forall|k: int| e + 2 <= k < j ==> #[trigger] s[k] != separator());
    crate::text::lemma_find_char_first(s, separator(), e + 2, j);
    assert(s.subrange(e + 2, j) =~= a);
    assert(spec_cpr_step(s.subrange(e + 2, j), true, Seq::empty()) == Some(Seq::empty() + a));
    assert(spec_cpr_tokens(s, e + 2, true, Seq::empty()) == spec_cpr_tokens(
        s,
        j + 1,
        false,
        Seq::empty() + a,
    ));
    crate::text::lemma_find_char_first(s, separator(), j + 1, j + 1);
    assert(s.subrange(j + 1, j + 1) =~= Seq::<char>::empty());
    assert(spec_cpr_tokens(s, j + 1, false, Seq::empty() + a) == spec_cpr_tokens(
        s,
        j + 2,
        true,
        (Seq::empty() + a).push(separator()),
    ));
    crate::text::lemma_find_char_none(s, separator(), j + 2);
    assert(s.subrange(j + 2, s.len() as int) =~= b);
    assert(spec_cpr_tokens(s, j + 2, true, (Seq::empty() + a).push(separator())) == Some(
        (Seq::empty() + a).push(separator()) + b,
    ));
    assert((Seq::empty() + a).push(separator()) + b =~= a + seq![separator()] + b);
}

/// Applies one token to the growing output. Returns false on a malformed
/// back-reference directive.
fn cpr_step(s: &str, pos: usize, j: usize, even: bool, out: &mut String) -> (ok: bool)
    requires
        pos <= j <= s@.len(),
        j < s@.len() ==> !is_digit_char(s@[j as int]),
    ensures
        spec_cpr_step(s@.subrange(pos as int, j as int), even, old(out)@) == (if ok {
            Some(final(out)@)
        } else {
            None::<Seq<char>>
        }),
{
    let ghost tok = s@.subrange(pos as int, j as int);
    if even {
        let piece = s.substring_char(pos, j);
        out.append(piece);
        return true;
    }
    if pos == j {
        out.append("J");
        proof {
            reveal_strlit("J");
            assert(out@ =~= old(out)@.push(separator()));
        }
        return true;
    }
    let (dend, dval) = scan_digits(s, pos);
    proof {
        lemma_digits_end(s@, pos as int);
    }
    if dend < j {
        proof {
            assert(!is_digit_char(tok[dend - pos]));
        }
        return false;
    }
    proof {
        if dend > j {
            assert(is_digit_char(s@[j as int]));
        }
        assert(dend == j);
        assert(forall|k: int| 0 <= k < tok.len() ==> is_digit_char(tok[k]));
        assert(digits_value(tok) == digits_value(s@.subrange(pos as int, dend as int)));
    }
    let m = out.as_str().unicode_len();
    let off = match dval {
        Some(v) => v,
        None => {
            return false;
        },
    };
    if off > m {
        return false;
    }
    let (e2, lval) = scan_digits(out.as_str(), off);
    if e2 == off {
        return false;
    }
    let l = match lval {
        Some(v) => v,
        None => {
            return false;
        },
    };
    if l > m - e2 {
        return false;
    }
    let tcopy = substring_string(out.as_str(), e2, e2 + l);
    let lstr = usize_to_string(l);
    out.append(lstr.as_str());
    out.append(tcopy.as_str());
    true
}

/// Expands the compression wrapper of a string already free of the thunk
/// prefix, or reports a malformation.
fn expand(s: &str) -> (r: Option<String>)
    ensures
        match r {
            Some(o) => spec_expand(s@) == Some(o@),
            None => spec_expand(s@) is None,
        },
{
    let n = s.unicode_len();
    let cpr: Vec<char> = vec!['_', '_', 'C', 'P', 'R'];
    proof {
        assert(cpr@ =~= cpr_marker());
    }
    if !has_prefix_at(s, 0, &cpr) {
        return Some(s.to_owned());
    }
    let (e, _) = scan_digits(s, 5);
    if e == 5 {
        return None;
    }
    let du: Vec<char> = vec!['_', '_'];
    proof {
        assert(du@ =~= dunder());
    }
    if !has_prefix_at(s, e, &du) {
        return None;
    }
    let ghost target = spec_cpr_tokens(s@, e + 2 as int, true, Seq::empty());
    let mut pos: usize = e + 2;
    let mut even = true;
    let mut out = String::new();
    let jpat: Vec<char> = vec!['J'];
    proof {
        assert(jpat@ =~= seq![separator()]);
    }
    loop
        invariant
            pos <= n,
            n == s@.len(),
            jpat@ =~= seq![separator()],
            spec_cpr_tokens(s@, pos as int, even, out@) == target,
            spec_expand(s@) == target,
        decreases n - pos,
    {
        match find_pattern_from(s, &jpat, pos) {
            None => {
                let ok = cpr_step(s, pos, n, even, &mut out);
                if ok {
                    return Some(out);
                } else {
                    return None;
                }
            },
            Some(j) => {
                proof {
                    lemma_find_from_range(s@, jpat@, pos as int);
                    assert(matches_at(s@, j as int, jpat@));
                    assert(s@[j as int + 0] == jpat@[0]);
                    assert(s@[j as int] == separator());
                }
                let ok = cpr_step(s, pos, j, even, &mut out);
                if !ok {
                    return None;
                }
                pos = j + 1;
                even = !even;
            },
        }
    }
}

/// Expands the optional back-reference compression wrapper, or reports a
/// malformation for the caller's fallback.
pub fn decompress(s: &str) -> (r: Option<String>)
    ensures
        match r {
            Some(o) => spec_decompress(s@) == Some(o@),
            None => spec_decompress(s@) is None,
        },
{
    let n = s.unicode_len();
    let thunk: Vec<char> = vec![
        '_', '_', 'g', 'h', 's', '_', 't', 'h', 'u', 'n', 'k', '_', '_',
    ];
    proof {
        assert(thunk@ =~= thunk_marker());
    }
    if has_prefix_at(s, 0, &thunk) {
        if n < 25 {
            return None;
        }
        let rest = s.substring_char(25, n);
        proof {
            assert(rest@ =~= s@.skip(thunk_drop()));
        }
        expand(rest)
    } else {
        expand(s)
    }
}

} // verus!
