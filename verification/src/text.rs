//! Character-level utilities shared by the segmenter and the error
//! messages: whitespace trimming, decimal rendering of numbers, and
//! splitting on the segment delimiter.

use vstd::prelude::*;

verus! {

/// The characters with the Unicode `White_Space` property, the set that
/// `str::trim` removes from both ends of a string.
pub open spec fn is_wspace(c: char) -> bool {
    c == ' ' || c == '\t' || c == '\n' || c == '\r' || c == '\u{000B}' || c == '\u{000C}'
        || c == '\u{0085}' || c == '\u{00A0}' || c == '\u{1680}' || c == '\u{2000}'
        || c == '\u{2001}' || c == '\u{2002}' || c == '\u{2003}' || c == '\u{2004}'
        || c == '\u{2005}' || c == '\u{2006}' || c == '\u{2007}' || c == '\u{2008}'
        || c == '\u{2009}' || c == '\u{200A}' || c == '\u{2028}' || c == '\u{2029}'
        || c == '\u{202F}' || c == '\u{205F}' || c == '\u{3000}'
}

/// Runtime test for `is_wspace`.
pub fn is_whitespace_char(c: char) -> (r: bool)
    ensures
        r == is_wspace(c),
{
    c == ' ' || c == '\t' || c == '\n' || c == '\r' || c == '\u{000B}' || c == '\u{000C}'
        || c == '\u{0085}' || c == '\u{00A0}' || c == '\u{1680}' || c == '\u{2000}'
        || c == '\u{2001}' || c == '\u{2002}' || c == '\u{2003}' || c == '\u{2004}'
        || c == '\u{2005}' || c == '\u{2006}' || c == '\u{2007}' || c == '\u{2008}'
        || c == '\u{2009}' || c == '\u{200A}' || c == '\u{2028}' || c == '\u{2029}'
        || c == '\u{202F}' || c == '\u{205F}' || c == '\u{3000}'
}

pub open spec fn trim_start_rec(s: Seq<char>) -> Seq<char>
    decreases s.len(),
{
    if s.len() > 0 && is_wspace(s[0]) {
        trim_start_rec(s.drop_first())
    } else {
        s
    }
}

pub open spec fn trim_end_rec(s: Seq<char>) -> Seq<char>
    decreases s.len(),
{
    if s.len() > 0 && is_wspace(s.last()) {
        trim_end_rec(s.drop_last())
    } else {
        s
    }
}

/// The text with leading and trailing whitespace removed, as `str::trim`
/// leaves it.
pub open spec fn spec_trim(s: Seq<char>) -> Seq<char> {
    trim_end_rec(trim_start_rec(s))
}

/// If every character before `i` is whitespace and `i` is either the end
/// or a non-whitespace position, then trimming the front yields the
/// suffix from `i`.
proof fn lemma_trim_start_at(s: Seq<char>, i: int)
    requires
        0 <= i <= s.len(),
        forall|k: int| 0 <= k < i ==> is_wspace(s[k]),
        i < s.len() ==> !is_wspace(s[i]),
    ensures
        trim_start_rec(s) == s.subrange(i, s.len() as int),
    decreases i,
{
    if i == 0 {
        if s.len() > 0 && is_wspace(s[0]) {
            assert(!is_wspace(s[0]));
        }
        assert(s.subrange(0, s.len() as int) =~= s);
    } else {
        let t = s.drop_first();
        assert(forall|k: int| 0 <= k < i - 1 ==> is_wspace(t[k]));
        lemma_trim_start_at(t, i - 1);
        assert(t.subrange(i - 1, t.len() as int) =~= s.subrange(i, s.len() as int));
    }
}

/// If every character from `j` on is whitespace and `j` is either the
/// start or follows a non-whitespace character, then trimming the back
/// yields the prefix up to `j`.
proof fn lemma_trim_end_at(s: Seq<char>, j: int)
    requires
        0 <= j <= s.len(),
        forall|k: int| j <= k < s.len() ==> is_wspace(s[k]),
        j > 0 ==> !is_wspace(s[j - 1]),
    ensures
        trim_end_rec(s) == s.subrange(0, j),
    decreases s.len() - j,
{
    if j == s.len() {
        if s.len() > 0 && is_wspace(s.last()) {
            assert(!is_wspace(s[s.len() - 1]));
        }
        assert(s.subrange(0, s.len() as int) =~= s);
    } else {
        let t = s.drop_last();
        assert(is_wspace(s.last()));
        assert(forall|k: int| j <= k < t.len() ==> is_wspace(t[k]));
        lemma_trim_end_at(t, j);
        assert(t.subrange(0, j) =~= s.subrange(0, j));
    }
}

/// Remove leading and trailing whitespace, exactly as `str::trim` does.
pub fn trim_str(s: &str) -> (r: String)
    ensures
        r@ == spec_trim(s@),
{
    let n = s.unicode_len();
    let mut i: usize = 0;
    while i < n && is_whitespace_char(s.get_char(i))
        invariant
            0 <= i <= n,
            n == s@.len(),
            forall|k: int| 0 <= k < i ==> is_wspace(s@[k]),
        decreases n - i,
    {
        i = i + 1;
    }
    let mut j: usize = n;
    while j > i && is_whitespace_char(s.get_char(j - 1))
        invariant
            i <= j <= n,
            n == s@.len(),
            forall|k: int| j <= k < n ==> is_wspace(s@[k]),
        decreases j,
    {
        j = j - 1;
    }
    proof {
        lemma_trim_start_at(s@, i as int);
        let t = s@.subrange(i as int, n as int);
        lemma_trim_end_at(t, j - i);
        assert(t.subrange(0, j - i) =~= s@.subrange(i as int, j as int));
    }
    let piece = s.substring_char(i, j);
    piece.to_owned()
}

/// The character for one decimal digit.
pub open spec fn digit_char(d: nat) -> char
    recommends
        d < 10,
{
    if d == 0 {
        '0'
    } else if d == 1 {
        '1'
    } else if d == 2 {
        '2'
    } else if d == 3 {
        '3'
    } else if d == 4 {
        '4'
    } else if d == 5 {
        '5'
    } else if d == 6 {
        '6'
    } else if d == 7 {
        '7'
    } else if d == 8 {
        '8'
    } else {
        '9'
    }
}

/// The decimal rendering of a number, most significant digit first and
/// without leading zeros (`0` renders as "0").
pub open spec fn dec_digits(n: nat) -> Seq<char>
    decreases n,
{
    if n < 10 {
        seq![digit_char(n)]
    } else {
        dec_digits(n / 10) + seq![digit_char(n % 10)]
    }
}

/// The string for one decimal digit.
fn digit_str(d: u64) -> (r: &'static str)
    requires
        d < 10,
    ensures
        r@ =~= seq![digit_char(d as nat)],
{
    proof {
        reveal_strlit("0");
        reveal_strlit("1");
        reveal_strlit("2");
        reveal_strlit("3");
        reveal_strlit("4");
        reveal_strlit("5");
        reveal_strlit("6");
        reveal_strlit("7");
        reveal_strlit("8");
        reveal_strlit("9");
    }
    if d == 0 {
        "0"
    } else if d == 1 {
        "1"
    } else if d == 2 {
        "2"
    } else if d == 3 {
        "3"
    } else if d == 4 {
        "4"
    } else if d == 5 {
        "5"
    } else if d == 6 {
        "6"
    } else if d == 7 {
        "7"
    } else if d == 8 {
        "8"
    } else {
        "9"
    }
}

/// `p` is a prefix of `s`.
pub open spec fn starts_with(s: Seq<char>, p: Seq<char>) -> bool {
    p.len() <= s.len() && s.subrange(0, p.len() as int) == p
}

/// The delimiter that separates segments in the model's reply.
pub open spec fn delim() -> Seq<char> {
    seq!['|', '|', '|']
}

/// The delimiter occurs at position `k` of `s`.
pub open spec fn has_delim_at(s: Seq<char>, k: int) -> bool {
    0 <= k && k + 3 <= s.len() && s.subrange(k, k + 3) == delim()
}

/// The position of the first delimiter occurrence in `s`, if any.
pub open spec fn find_delim(s: Seq<char>) -> Option<nat>
    decreases s.len(),
{
    if s.len() < 3 {
        None
    } else if s.subrange(0, 3) == delim() {
        Some(0)
    } else {
        match find_delim(s.drop_first()) {
            Some(i) => Some((i + 1) as nat),
            None => None,
        }
    }
}

/// Dropping the first character shifts delimiter occurrences by one.
proof fn lemma_delim_shift(s: Seq<char>, k: int)
    requires
        s.len() > 0,
        k >= 0,
    ensures
        has_delim_at(s, k + 1) == has_delim_at(s.drop_first(), k),
{
    if k + 4 <= s.len() {
        assert(s.drop_first().subrange(k, k + 3) =~= s.subrange(k + 1, k + 4));
    }
}

/// `find_delim` returns the first delimiter occurrence: the position it
/// returns carries the delimiter and no earlier position does; `None`
/// means no position does.
pub proof fn lemma_find_delim_props(s: Seq<char>)
    ensures
        match find_delim(s) {
            Some(i) => has_delim_at(s, i as int) && forall|k: int|
                0 <= k < i ==> !has_delim_at(s, k),
            None => forall|k: int| !has_delim_at(s, k),
        },
    decreases s.len(),
{
    if s.len() < 3 {
        assert forall|k: int| !has_delim_at(s, k) by {}
    } else if s.subrange(0, 3) == delim() {
    } else {
        let t = s.drop_first();
        lemma_find_delim_props(t);
        match find_delim(t) {
            Some(i) => {
                lemma_delim_shift(s, i as int);
                assert forall|k: int| 0 <= k < i + 1 implies !has_delim_at(s, k) by {
                    if k == 0 {
                        assert(s.subrange(0, 3) != delim());
                    } else {
                        lemma_delim_shift(s, k - 1);
                    }
                }
            },
            None => {
                assert forall|k: int| !has_delim_at(s, k) by {
                    if k == 0 {
                        if has_delim_at(s, 0) {
                            assert(s.subrange(0, 3) == delim());
                        }
                    } else if k > 0 {
                        lemma_delim_shift(s, k - 1);
                    }
                }
            },
        }
    }
}

/// Delimiter occurrences in a suffix are occurrences of the whole,
/// shifted by the suffix's start.
pub proof fn lemma_delim_at_subrange(s: Seq<char>, start: int, m: int)
    requires
        0 <= start <= s.len(),
        0 <= m,
    ensures
        has_delim_at(s.subrange(start, s.len() as int), m) == has_delim_at(s, start + m),
{
    let sub = s.subrange(start, s.len() as int);
    if m + 3 <= sub.len() {
        assert(sub.subrange(m, m + 3) =~= s.subrange(start + m, start + m + 3));
    }
}

/// The pieces of `s` between delimiter occurrences, in order, as
/// `str::split` produces them.
pub open spec fn split_delim(s: Seq<char>) -> Seq<Seq<char>>
    decreases s.len(),
    via split_delim_decreases
{
    match find_delim(s) {
        None => seq![s],
        Some(i) => seq![s.subrange(0, i as int)] + split_delim(
            s.subrange(i as int + 3, s.len() as int),
        ),
    }
}

#[via_fn]
proof fn split_delim_decreases(s: Seq<char>) {
    lemma_find_delim_props(s);
}

/// Render a number in decimal.
pub fn decimal_string(n: u64) -> (r: String)
    ensures
        r@ == dec_digits(n as nat),
    decreases n,
{
    if n < 10 {
        digit_str(n).to_owned()
    } else {
        let mut s = decimal_string(n / 10);
        s.append(digit_str(n % 10));
        s
    }
}

} // verus!
