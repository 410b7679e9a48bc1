//! Character and decimal-text helpers shared by every pipeline stage:
//! digit runs, decimal rendering of numbers, and substring search.

use vstd::prelude::*;

verus! {

/// Whether `c` is a decimal digit.
pub open spec fn is_digit_char(c: char) -> bool {
    48 <= c as u32 <= 57
}

/// The numeric value of a digit character.
pub open spec fn digit_val(c: char) -> nat {
    (c as u32 - 48) as nat
}

/// The digit character for a value below ten.
pub open spec fn digit_char(d: nat) -> char {
    if d == 0 {
        '0'
    } else if d == 1 {
        '1'
    } else if d == 2 {
        '2'
    } else if d == 3 {
        '3'
    } else if d == 4 {
        '4'
    } else if d == 5 {
        '5'
    } else if d == 6 {
        '6'
    } else if d == 7 {
        '7'
    } else if d == 8 {
        '8'
    } else {
        '9'
    }
}

/// The decimal rendering of a number, most significant digit first.
pub open spec fn decimal_of(n: nat) -> Seq<char>
    decreases n,
{
    if n < 10 {
        seq![digit_char(n)]
    } else {
        decimal_of(n / 10).push(digit_char(n % 10))
    }
}

/// The value of a run of digit characters, most significant first.
pub open spec fn digits_value(run: Seq<char>) -> nat
    decreases run.len(),
{
    if run.len() == 0 {
        0
    } else {
        digits_value(run.drop_last()) * 10 + digit_val(run.last())
    }
}

/// The first position at or after `pos` holding no digit.
pub open spec fn digits_end(s: Seq<char>, pos: int) -> int
    decreases s.len() - pos,
{
    if pos < 0 || pos >= s.len() || !is_digit_char(s[pos]) {
        pos
    } else {
        digits_end(s, pos + 1)
    }
}

/// `digits_end` stays between `pos` and the end of `s`, and brackets
/// exactly the digit run that starts at `pos`.
pub proof fn lemma_digits_end(s: Seq<char>, pos: int)
    requires
        0 <= pos <= s.len(),
    ensures
        pos <= digits_end(s, pos) <= s.len(),
        forall|j: int| pos <= j < digits_end(s, pos) ==> is_digit_char(s[j]),
        digits_end(s, pos) < s.len() ==> !is_digit_char(s[digits_end(s, pos)]),
    decreases s.len() - pos,
{
    if pos < s.len() && is_digit_char(s[pos]) {
        lemma_digits_end(s, pos + 1);
    }
}

/// Scans the digit run starting at `pos`: returns its end, and its value
/// unless that value overflows the machine word.
pub fn scan_digits(s: &str, pos: usize) -> (res: (usize, Option<usize>))
    requires
        pos <= s@.len(),
    ensures
        res.0 == digits_end(s@, pos as int),
        pos <= res.0 <= s@.len(),
        res.1 matches Some(v) ==> v == digits_value(s@.subrange(pos as int, res.0 as int)),
        res.1 is None ==> digits_value(s@.subrange(pos as int, res.0 as int)) > usize::MAX,
{
    let n = s.unicode_len();
    let mut end = pos;
    let mut val: usize = 0;
    let mut overflow = false;
    loop
        invariant
            pos <= end <= n,
            n == s@.len(),
            digits_end(s@, pos as int) == digits_end(s@, end as int),
            !overflow ==> val == digits_value(s@.subrange(pos as int, end as int)),
            overflow ==> digits_value(s@.subrange(pos as int, end as int)) > usize::MAX,
        ensures
            end == digits_end(s@, pos as int),
            !overflow ==> val == digits_value(s@.subrange(pos as int, end as int)),
            overflow ==> digits_value(s@.subrange(pos as int, end as int)) > usize::MAX,
        decreases n - end,
    {
        if end >= n {
            break;
        }
        let c = s.get_char(end);
        let u = c as u32;
        if !(48 <= u && u <= 57) {
            break;
        }
        let d = (u - 48) as usize;
        proof {
            let sub = s@.subrange(pos as int, end as int);
            let sub2 = s@.subrange(pos as int, end as int + 1);
            assert(sub2.drop_last() =~= sub);
            assert(sub2.last() == s@[end as int]);
        }
        if overflow {
        } else if val > usize::MAX / 10 || (val == usize::MAX / 10 && d > usize::MAX % 10) {
            proof {
                let sub = s@.subrange(pos as int, end as int);
                assert(val * 10 + d > usize::MAX);
                assert(digits_value(s@.subrange(pos as int, end as int + 1)) == val * 10 + d);
            }
            overflow = true;
        } else {
            proof {
                assert(val * 10 + d <= usize::MAX);
            }
            val = val * 10 + d;
        }
        end = end + 1;
    }
    if overflow {
        (end, None)
    } else {
        (end, Some(val))
    }
}

/// The one-character string for a digit value.
pub fn digit_str(d: usize) -> (r: &'static str)
    requires
        d < 10,
    ensures
        r@ =~= seq![digit_char(d as nat)],
{
    proof {
        reveal_strlit("0");
        reveal_strlit("1");
        reveal_strlit("2");
        reveal_strlit("3");
        reveal_strlit("4");
        reveal_strlit("5");
        reveal_strlit("6");
        reveal_strlit("7");
        reveal_strlit("8");
        reveal_strlit("9");
    }
    match d {
        0 => "0",
        1 => "1",
        2 => "2",
        3 => "3",
        4 => "4",
        5 => "5",
        6 => "6",
        7 => "7",
        8 => "8",
        _ => "9",
    }
}

/// Renders a number in decimal.
pub fn usize_to_string(n: usize) -> (r: String)
    ensures
        r@ == decimal_of(n as nat),
    decreases n,
{
    if n < 10 {
        digit_str(n).to_owned()
    } else {
        let mut s = usize_to_string(n / 10);
        s.append(digit_str(n % 10));
        proof {
            assert(s@ =~= decimal_of(n as nat));
        }
        s
    }
}

/// Whether `pat` occurs in `s` starting exactly at `pos`.
pub open spec fn matches_at(s: Seq<char>, pos: int, pat: Seq<char>) -> bool {
    &&& 0 <= pos
    &&& pos + pat.len() <= s.len()
    &&& forall|j: int| 0 <= j < pat.len() ==> s[pos + j] == pat[j]
}

/// Checks whether `pat` occurs in `s` starting exactly at `pos`.
pub fn has_prefix_at(s: &str, pos: usize, pat: &Vec<char>) -> (r: bool)
    requires
        pos <= s@.len(),
    ensures
        r == matches_at(s@, pos as int, pat@),
{
    let n = s.unicode_len();
    let m = pat.len();
    if m > n - pos {
        return false;
    }
    for j in 0..m
        invariant
            pos + m <= n,
            n == s@.len(),
            m == pat@.len(),
            forall|k: int| 0 <= k < j ==> s@[pos + k] == pat@[k],
    {
        if s.get_char(pos + j) != pat[j] {
            return false;
        }
    }
    true
}

/// The earliest position at or after `from` where `pat` occurs in `s`.
pub open spec fn find_from(s: Seq<char>, pat: Seq<char>, from: int) -> Option<int>
    decreases s.len() - from,
{
    if from < 0 || from + pat.len() > s.len() {
        None
    } else if matches_at(s, from, pat) {
        Some(from)
    } else {
        find_from(s, pat, from + 1)
    }
}

/// A found occurrence lies between `from` and the end of `s`.
pub proof fn lemma_find_from_range(s: Seq<char>, pat: Seq<char>, from: int)
    requires
        0 <= from,
    ensures
        find_from(s, pat, from) matches Some(i) ==> from <= i && i + pat.len() <= s.len()
            && matches_at(s, i, pat),
    decreases s.len() - from,
{
    if from + pat.len() <= s.len() && !matches_at(s, from, pat) {
        lemma_find_from_range(s, pat, from + 1);
    }
}

/// Finds the earliest occurrence of `pat` in `s` at or after `from`.
pub fn find_pattern_from(s: &str, pat: &Vec<char>, from: usize) -> (r: Option<usize>)
    requires
        from <= s@.len(),
    ensures
        match r {
            Some(i) => find_from(s@, pat@, from as int) == Some(i as int),
            None => find_from(s@, pat@, from as int) is None,
        },
{
    let n = s.unicode_len();
    let m = pat.len();
    if m > n - from {
        proof {
            assert(find_from(s@, pat@, from as int) is None);
        }
        return None;
    }
    let mut i: usize = from;
    let mut found = false;
    loop
        invariant
            from <= i <= n,
            n == s@.len(),
            m == pat@.len(),
            m <= n - from,
            find_from(s@, pat@, from as int) == find_from(s@, pat@, i as int),
            found ==> matches_at(s@, i as int, pat@),
        ensures
            match find_from(s@, pat@, from as int) {
                Some(k) => found && k == i,
                None => !found,
            },
        decreases n - i,
    {
        if i > n - m {
            proof {
                assert(find_from(s@, pat@, i as int) is None);
            }
            break;
        }
        if has_prefix_at(s, i, pat) {
            found = true;
            proof {
                assert(find_from(s@, pat@, i as int) == Some(i as int));
            }
            break;
        }
        i = i + 1;
    }
    if found {
        Some(i)
    } else {
        None
    }
}

/// The digit character for a value below ten, as a runtime value.
pub fn digit_char_exec(d: usize) -> (r: char)
    requires
        d < 10,
    ensures
        r == digit_char(d as nat),
{
    match d {
        0 => '0',
        1 => '1',
        2 => '2',
        3 => '3',
        4 => '4',
        5 => '5',
        6 => '6',
        7 => '7',
        8 => '8',
        _ => '9',
    }
}

/// A digit run followed by a non-digit (or the end) pins `digits_end`.
pub proof fn lemma_digits_end_is(s: Seq<char>, pos: int, end: int)
    requires
        0 <= pos <= end <= s.len(),
        forall|j: int| pos <= j < end ==> is_digit_char(s[j]),
        end < s.len() ==> !is_digit_char(s[end]),
    ensures
        digits_end(s, pos) == end,
    decreases end - pos,
{
    if pos < end {
        lemma_digits_end_is(s, pos + 1, end);
    }
}

/// If `c` never occurs at or after `from`, there is nothing to find.
pub proof fn lemma_find_char_none(s: Seq<char>, c: char, from: int)
    requires
        0 <= from,
        forall|k: int| from <= k < s.len() ==> s[k] != c,
    ensures
        find_from(s, seq![c], from) is None,
    decreases s.len() - from,
{
    if from + 1 <= s.len() {
        assert(!matches_at(s, from, seq![c])) by {
            if matches_at(s, from, seq![c]) {
                assert(s[from + 0] == seq![c][0]);
            }
        }
        lemma_find_char_none(s, c, from + 1);
    }
}

/// The first occurrence of `c` at or after `from` is found.
pub proof fn lemma_find_char_first(s: Seq<char>, c: char, from: int, i: int)
    requires
        0 <= from <= i < s.len(),
        s[i] == c,
        forall|k: int| from <= k < i ==> s[k] != c,
    ensures
        find_from(s, seq![c], from) == Some(i),
    decreases i - from,
{
    if from < i {
        assert(!matches_at(s, from, seq![c])) by {
            if matches_at(s, from, seq![c]) {
                assert(s[from + 0] == seq![c][0]);
            }
        }
        lemma_find_char_first(s, c, from + 1, i);
    } else {
        assert(matches_at(s, from, seq![c])) by {
            assert(forall|j: int| 0 <= j < 1 ==> s[from + j] == seq![c][j]);
        }
    }
}

/// Copies the characters of `s` between `from` and `to` into a fresh string.
pub fn substring_string(s: &str, from: usize, to: usize) -> (r: String)
    requires
        from <= to <= s@.len(),
    ensures
        r@ == s@.subrange(from as int, to as int),
{
    s.substring_char(from, to).to_owned()
}

} // verus!
