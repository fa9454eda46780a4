//! The little text handling that the command line needs: trimming, finding
//! one text in another, and recognising an unsigned decimal number.

use vstd::prelude::*;
use vstd::string::*;

verus! {

/// Whether `c` has the Unicode property White_Space: the controls from tab to
/// carriage return, the space, the next-line control, the no-break space, the
/// ogham space mark, the spaces from en quad to hair space, the line and the
/// paragraph separator, the narrow no-break space, the medium mathematical
/// space, and the ideographic space.
pub open spec fn white_space(c: char) -> bool {
    let u = c as u32;
    ||| 0x09 <= u <= 0x0d
    ||| u == 0x20
    ||| u == 0x85
    ||| u == 0xa0
    ||| u == 0x1680
    ||| 0x2000 <= u <= 0x200a
    ||| u == 0x2028
    ||| u == 0x2029
    ||| u == 0x202f
    ||| u == 0x205f
    ||| u == 0x3000
}

/// Whether `c` has the Unicode property White_Space.
pub fn is_white_space(c: char) -> (b: bool)
    ensures
        b == white_space(c),
{
    let u = c as u32;
    (0x09 <= u && u <= 0x0d) || u == 0x20 || u == 0x85 || u == 0xa0 || u == 0x1680 || (0x2000 <= u
        && u <= 0x200a) || u == 0x2028 || u == 0x2029 || u == 0x202f || u == 0x205f || u == 0x3000
}

/// First position at or after `from` that holds no whitespace, or the end.
pub open spec fn skip_space(s: Seq<char>, from: int) -> int
    decreases s.len() - from,
{
    if 0 <= from < s.len() && white_space(s[from]) {
        skip_space(s, from + 1)
    } else {
        from
    }
}

/// End of `s[from..to]` once trailing whitespace is cut off.
pub open spec fn drop_space(s: Seq<char>, from: int, to: int) -> int
    decreases to,
{
    if 0 <= from < to <= s.len() && white_space(s[to - 1]) {
        drop_space(s, from, to - 1)
    } else {
        to
    }
}

/// `s` without leading and trailing whitespace.
pub open spec fn trimmed(s: Seq<char>) -> Seq<char> {
    let from = skip_space(s, 0);
    s.subrange(from, drop_space(s, from, s.len() as int))
}

/// The bounds of the trimmed text lie in order inside the text.
pub proof fn lemma_trim_bounds(s: Seq<char>, from: int, to: int)
    requires
        0 <= from <= to <= s.len(),
    ensures
        from <= skip_space(s, from) <= s.len(),
        from <= drop_space(s, from, to) <= to,
        skip_space(s, from) < s.len() ==> !white_space(s[skip_space(s, from)]),
        from < drop_space(s, from, to) ==> !white_space(s[drop_space(s, from, to) - 1]),
        forall|i: int| from <= i < skip_space(s, from) ==> white_space(#[trigger] s[i]),
        forall|i: int| drop_space(s, from, to) <= i < to ==> white_space(#[trigger] s[i]),
    decreases s.len() - from, to,
{
    if from < s.len() && white_space(s[from]) {
        if from < to {
            lemma_trim_bounds(s, from + 1, to);
        } else {
            lemma_trim_bounds(s, from + 1, to + 1);
        }
    }
    if from < to && white_space(s[to - 1]) {
        lemma_trim_bounds(s, from, to - 1);
    }
}

/// Trimmed text neither starts nor ends with whitespace.
pub proof fn lemma_trimmed_is_tight(s: Seq<char>)
    ensures
        trimmed(s).len() > 0 ==> !white_space(trimmed(s).first()) && !white_space(
            trimmed(s).last(),
        ),
        trimmed(s).len() <= s.len(),
{
    lemma_trim_bounds(s, 0, s.len() as int);
    let from = skip_space(s, 0);
    lemma_trim_bounds(s, from, s.len() as int);
}

/// `s` without leading and trailing whitespace.
pub fn trim(s: &str) -> (t: &str)
    ensures
        t@ == trimmed(s@),
{
    let len = s.unicode_len();
    let mut from: usize = 0;
    while from < len && is_white_space(s.get_char(from))
        invariant
            len == s@.len(),
            from <= len,
            skip_space(s@, 0) == skip_space(s@, from as int),
        decreases len - from,
    {
        from += 1;
    }
    let mut to: usize = len;
    while from < to && is_white_space(s.get_char(to - 1))
        invariant
            len == s@.len(),
            from <= to <= len,
            drop_space(s@, from as int, len as int) == drop_space(s@, from as int, to as int),
        decreases to,
    {
        to -= 1;
    }
    s.substring_char(from, to)
}

/// `needle` stands in `hay` at position `at`.
pub open spec fn occurs_at(hay: Seq<char>, at: int, needle: Seq<char>) -> bool {
    &&& 0 <= at
    &&& at + needle.len() <= hay.len()
    &&& hay.subrange(at, at + needle.len()) == needle
}

/// `needle` stands somewhere in `hay`.
pub open spec fn contains_text(hay: Seq<char>, needle: Seq<char>) -> bool {
    exists|at: int| occurs_at(hay, at, needle)
}

/// Whether `needle` stands in `hay` at position `at`.
pub fn found_at(hay: &str, at: usize, needle: &str) -> (b: bool)
    ensures
        b == occurs_at(hay@, at as int, needle@),
{
    let hay_len = hay.unicode_len();
    let len = needle.unicode_len();
    if at > hay_len || len > hay_len - at {
        return false;
    }
    let mut k: usize = 0;
    while k < len
        invariant
            hay_len == hay@.len(),
            len == needle@.len(),
            at + len <= hay_len,
            k <= len,
            forall|j: int| 0 <= j < k ==> hay@[at + j] == needle@[j],
        decreases len - k,
    {
        if hay.get_char(at + k) != needle.get_char(k) {
            proof {
                let piece = hay@.subrange(at as int, at + len);
                assert(piece[k as int] == hay@[at + k]);
            }
            return false;
        }
        k += 1;
    }
    assert(hay@.subrange(at as int, at + len) =~= needle@);
    true
}

/// Whether `a` and `b` are the same text.
pub fn same_text(a: &str, b: &str) -> (same: bool)
    ensures
        same == (a@ == b@),
{
    let same = a.unicode_len() == b.unicode_len() && found_at(a, 0, b);
    proof {
        if a@.len() == b@.len() {
            assert(a@.subrange(0, a@.len() as int) =~= a@);
        }
    }
    same
}

/// Whether `needle` stands somewhere in `hay`.
pub fn contains(hay: &str, needle: &str) -> (b: bool)
    ensures
        b == contains_text(hay@, needle@),
{
    let hay_len = hay.unicode_len();
    let mut at: usize = 0;
    while at < hay_len
        invariant
            hay_len == hay@.len(),
            at <= hay_len,
            forall|j: int| 0 <= j < at ==> !occurs_at(hay@, j, needle@),
        decreases hay_len - at,
    {
        if found_at(hay, at, needle) {
            return true;
        }
        at += 1;
    }
    found_at(hay, hay_len, needle)
}

/// A decimal digit.
pub open spec fn is_digit(c: char) -> bool {
    '0' <= c <= '9'
}

/// `s` is a bare decimal integer: one or more decimal digits and nothing
/// else, of any length.
pub open spec fn is_decimal(s: Seq<char>) -> bool {
    s.len() > 0 && forall|i: int| 0 <= i < s.len() ==> is_digit(#[trigger] s[i])
}

/// Whether `s` is a bare decimal integer.
pub fn is_decimal_text(s: &str) -> (b: bool)
    ensures
        b == is_decimal(s@),
{
    let len = s.unicode_len();
    if len == 0 {
        return false;
    }
    let mut i: usize = 0;
    while i < len
        invariant
            len == s@.len(),
            i <= len,
            forall|k: int| 0 <= k < i ==> is_digit(#[trigger] s@[k]),
        decreases len - i,
    {
        let c = s.get_char(i);
        if !(c >= '0' && c <= '9') {
            assert(!is_digit(s@[i as int]));
            return false;
        }
        i += 1;
    }
    true
}

/// Text that is not empty and neither starts nor ends with whitespace is
/// its own trimmed text.
pub proof fn lemma_tight_is_trimmed(s: Seq<char>)
    requires
        s.len() == 0 || (!white_space(s.first()) && !white_space(s.last())),
    ensures
        trimmed(s) == s,
{
    assert(s.subrange(0, s.len() as int) =~= s);
}

/// Trimming what is trimmed changes nothing.
pub proof fn lemma_trim_idempotent(s: Seq<char>)
    ensures
        trimmed(trimmed(s)) == trimmed(s),
{
    lemma_trimmed_is_tight(s);
    lemma_tight_is_trimmed(trimmed(s));
}

} // verus!
