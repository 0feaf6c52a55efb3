//! Verified text utilities: substring containment over character sequences.
//!
//! The kernel stat files are matched by substring containment of fixed tags
//! (`"rc"`, `"io"`, `"net"`, `"type: open"`, ...), so containment is the one
//! primitive every reader shares.

use vstd::prelude::*;

verus! {

/// `needle` occurs in `hay` starting at character position `i`.
pub open spec fn matches_at(hay: Seq<char>, needle: Seq<char>, i: int) -> bool {
    0 <= i && i + needle.len() <= hay.len() && hay.subrange(i, i + needle.len()) == needle
}

/// `needle` occurs somewhere in `hay` as a contiguous run of characters.
pub open spec fn contains_seq(hay: Seq<char>, needle: Seq<char>) -> bool {
    exists|i: int| matches_at(hay, needle, i)
}

/// Character-by-character comparison of `needle` against `hay[i..]`.
fn match_at(hay: &str, needle: &str, i: usize, hay_len: usize, needle_len: usize) -> (r: bool)
    requires
        hay_len == hay@.len(),
        needle_len == needle@.len(),
        i + needle_len <= hay_len,
    ensures
        r == matches_at(hay@, needle@, i as int),
{
    let mut j: usize = 0;
    while j < needle_len
        invariant
            hay_len == hay@.len(),
            needle_len == needle@.len(),
            i + needle_len <= hay_len,
            j <= needle_len,
            forall|k: int| 0 <= k < j ==> hay@[i + k] == needle@[k],
        decreases needle_len - j,
    {
        if hay.get_char(i + j) != needle.get_char(j) {
            assert(hay@.subrange(i as int, i + needle@.len())[j as int] != needle@[j as int]);
            return false;
        }
        j = j + 1;
    }
    assert(hay@.subrange(i as int, i + needle@.len()) =~= needle@);
    true
}

/// Character position of the first occurrence of `sep` in `s`, or `s.len()`
/// when `sep` does not occur.
pub open spec fn sep_or_len(s: Seq<char>, sep: char) -> int
    decreases s.len(),
{
    if s.len() == 0 {
        0
    } else if s[0] == sep {
        0
    } else {
        1 + sep_or_len(s.drop_first(), sep)
    }
}

pub proof fn lemma_sep_or_len(s: Seq<char>, sep: char)
    ensures
        0 <= sep_or_len(s, sep) <= s.len(),
        sep_or_len(s, sep) < s.len() ==> s[sep_or_len(s, sep)] == sep,
        forall|k: int| 0 <= k < sep_or_len(s, sep) ==> s[k] != sep,
    decreases s.len(),
{
    if s.len() > 0 && s[0] != sep {
        lemma_sep_or_len(s.drop_first(), sep);
        assert forall|k: int| 0 <= k < sep_or_len(s, sep) implies s[k] != sep by {
            if k > 0 {
                assert(s[k] == s.drop_first()[k - 1]);
            }
        }
    }
}

/// The first occurrence of `sep` in `s` is exactly at `j`.
pub proof fn lemma_sep_or_len_at(s: Seq<char>, sep: char, j: int)
    requires
        0 <= j <= s.len(),
        j < s.len() ==> s[j] == sep,
        forall|k: int| 0 <= k < j ==> s[k] != sep,
    ensures
        j < s.len() ==> sep_or_len(s, sep) == j,
        j == s.len() && (forall|k: int| 0 <= k < s.len() ==> s[k] != sep) ==> sep_or_len(s, sep)
            == j,
    decreases s.len(),
{
    if s.len() > 0 && s[0] != sep {
        lemma_sep_or_len_at(s.drop_first(), sep, j - 1);
    }
}

/// `s` split at every occurrence of `sep`; adjacent separators and
/// separators at either end yield empty pieces, so the result always has one
/// piece more than `s` has separators.
pub open spec fn split_char_spec(s: Seq<char>, sep: char) -> Seq<Seq<char>>
    decreases s.len(),
    via split_char_spec_decreases
{
    let j = sep_or_len(s, sep);
    if j == s.len() {
        seq![s]
    } else {
        seq![s.take(j)] + split_char_spec(s.skip(j + 1), sep)
    }
}

#[via_fn]
proof fn split_char_spec_decreases(s: Seq<char>, sep: char) {
    lemma_sep_or_len(s, sep);
}

/// Unfolding rule for [`split_char_spec`] when the first separator is at `j`.
proof fn lemma_split_at(s: Seq<char>, sep: char, j: int)
    requires
        0 <= j < s.len(),
        s[j] == sep,
        forall|k: int| 0 <= k < j ==> s[k] != sep,
    ensures
        split_char_spec(s, sep) == seq![s.take(j)] + split_char_spec(s.skip(j + 1), sep),
{
    lemma_sep_or_len_at(s, sep, j);
}

/// Unfolding rule for [`split_char_spec`] when `sep` does not occur in `s`.
proof fn lemma_split_none(s: Seq<char>, sep: char)
    requires
        forall|k: int| 0 <= k < s.len() ==> s[k] != sep,
    ensures
        split_char_spec(s, sep) == seq![s],
{
    lemma_sep_or_len_at(s, sep, s.len() as int);
}

/// Splits `s` at each occurrence of `sep`, the executable side of
/// [`split_char_spec`].
pub fn split_char(s: &str, sep: char) -> (r: Vec<String>)
    ensures
        r.deep_view() == split_char_spec(s@, sep),
{
    let len = s.unicode_len();
    let mut out: Vec<String> = Vec::new();
    let mut start: usize = 0;
    let mut i: usize = 0;
    proof {
        assert(s@.skip(0) =~= s@);
        assert(out.deep_view() + split_char_spec(s@, sep) =~= split_char_spec(s@, sep));
    }
    while i < len
        invariant
            len == s@.len(),
            start <= i <= len,
            forall|k: int| start <= k < i ==> s@[k] != sep,
            split_char_spec(s@, sep) == out.deep_view() + split_char_spec(
                s@.skip(start as int),
                sep,
            ),
        decreases len - i,
    {
        if s.get_char(i) == sep {
            let piece = s.substring_char(start, i).to_owned();
            let ghost prev = out.deep_view();
            out.push(piece);
            proof {
                let t = s@.skip(start as int);
                assert forall|k: int| 0 <= k < i - start implies t[k] != sep by {
                    assert(t[k] == s@[start + k]);
                }
                lemma_split_at(t, sep, i - start);
                assert(t.take(i - start) =~= piece@);
                assert(t.skip(i - start + 1) =~= s@.skip(i + 1));
                assert(out.deep_view() =~~= prev + seq![piece@]);
                assert(prev + (seq![piece@] + split_char_spec(s@.skip(i + 1), sep)) =~~= (prev
                    + seq![piece@]) + split_char_spec(s@.skip(i + 1), sep));
            }
            start = i + 1;
        }
        i = i + 1;
    }
    let piece = s.substring_char(start, len).to_owned();
    let ghost prev = out.deep_view();
    out.push(piece);
    proof {
        let t = s@.skip(start as int);
        assert forall|k: int| 0 <= k < t.len() implies t[k] != sep by {
            assert(t[k] == s@[start + k]);
        }
        lemma_split_none(t, sep);
        assert(t =~= piece@);
        assert(out.deep_view() =~~= prev + seq![piece@]);
    }
    out
}

/// Substring search, the executable side of [`contains_seq`].
pub fn contains_str(hay: &str, needle: &str) -> (r: bool)
    ensures
        r == contains_seq(hay@, needle@),
{
    let hay_len = hay.unicode_len();
    let needle_len = needle.unicode_len();
    if needle_len > hay_len {
        return false;
    }
    if needle_len == 0 {
        assert(hay@.subrange(0, 0) =~= needle@);
        assert(matches_at(hay@, needle@, 0));
        return true;
    }
    let mut i: usize = 0;
    while i <= hay_len - needle_len
        invariant
            hay_len == hay@.len(),
            needle_len == needle@.len(),
            1 <= needle_len <= hay_len,
            i <= hay_len - needle_len + 1,
            forall|k: int| 0 <= k < i ==> !matches_at(hay@, needle@, k),
        decreases hay_len - i,
    {
        if match_at(hay, needle, i, hay_len, needle_len) {
            return true;
        }
        i = i + 1;
    }
    false
}

/// `c` is an ASCII decimal digit.
pub open spec fn is_digit_char(c: char) -> bool {
    48 <= (c as u32) && (c as u32) <= 57
}

/// Numeric value of an ASCII decimal digit.
pub open spec fn digit_val(c: char) -> int {
    (c as u32) - 48
}

pub open spec fn all_digits(s: Seq<char>) -> bool {
    forall|i: int| 0 <= i < s.len() ==> is_digit_char(s[i])
}

/// Value of a digit string read most-significant first; 0 when empty.
pub open spec fn digits_value(s: Seq<char>) -> int
    decreases s.len(),
{
    if s.len() == 0 {
        0
    } else {
        digits_value(s.drop_last()) * 10 + digit_val(s.last())
    }
}

/// What `str::parse::<i64>` accepts and returns: an optional leading `+` or
/// `-` sign, then at least one ASCII digit, the value within `i64` range.
pub open spec fn parse_i64_spec(s: Seq<char>) -> Option<int> {
    let signed = s.len() > 0 && (s[0] == '-' || s[0] == '+');
    let neg = s.len() > 0 && s[0] == '-';
    let ds = if signed {
        s.skip(1)
    } else {
        s
    };
    if ds.len() > 0 && all_digits(ds) {
        let v = if neg {
            -digits_value(ds)
        } else {
            digits_value(ds)
        };
        if i64::MIN <= v <= i64::MAX {
            Some(v)
        } else {
            None
        }
    } else {
        None
    }
}

pub proof fn lemma_digits_value_nonneg(s: Seq<char>)
    requires
        all_digits(s),
    ensures
        digits_value(s) >= 0,
    decreases s.len(),
{
    if s.len() > 0 {
        assert(all_digits(s.drop_last()));
        lemma_digits_value_nonneg(s.drop_last());
    }
}

/// Reading further digits can only grow the value.
proof fn lemma_digits_value_prefix(s: Seq<char>, k: int)
    requires
        all_digits(s),
        0 <= k <= s.len(),
    ensures
        digits_value(s.take(k)) <= digits_value(s),
    decreases s.len() - k,
{
    if k < s.len() {
        lemma_digits_value_prefix(s, k + 1);
        let t = s.take(k + 1);
        assert(t.drop_last() =~= s.take(k));
        lemma_digits_value_nonneg(s.take(k));
        assert(digits_value(s.take(k)) <= digits_value(t));
    } else {
        assert(s.take(k) =~= s);
    }
}

/// Parses `s` as a decimal `i64`, accepting exactly what
/// [`parse_i64_spec`] describes (the grammar of `str::parse::<i64>`).
pub fn parse_i64(s: &str) -> (r: Option<i64>)
    ensures
        r is Some <==> parse_i64_spec(s@) is Some,
        r matches Some(v) ==> parse_i64_spec(s@) == Some(v as int),
{
    let len = s.unicode_len();
    if len == 0 {
        return None;
    }
    let c0 = s.get_char(0);
    let neg = c0 == '-';
    let idx: usize = if c0 == '-' || c0 == '+' {
        1
    } else {
        0
    };
    if idx == len {
        return None;
    }
    let ghost ds = if idx == 1 {
        s@.skip(1)
    } else {
        s@
    };
    let limit: u64 = if neg {
        9223372036854775808
    } else {
        9223372036854775807
    };
    let mut mag: u64 = 0;
    let mut i: usize = idx;
    while i < len
        invariant
            len == s@.len(),
            idx <= i <= len,
            idx == 0 || idx == 1,
            idx == 1 ==> s@[0] == '-' || s@[0] == '+',
            idx == 0 ==> s@.len() == 0 || !(s@[0] == '-' || s@[0] == '+'),
            neg <==> (s@.len() > 0 && s@[0] == '-'),
            idx < len,
            ds == if idx == 1 {
                s@.skip(1)
            } else {
                s@
            },
            limit == if neg {
                9223372036854775808u64
            } else {
                9223372036854775807u64
            },
            all_digits(ds.take(i - idx)),
            mag as int == digits_value(ds.take(i - idx)),
            mag <= limit,
        decreases len - i,
    {
        let c = s.get_char(i);
        let d = c as u32;
        proof {
            assert(ds[i - idx] == s@[i as int]);
        }
        if d < 48 || d > 57 {
            proof {
                assert(!is_digit_char(ds[i - idx]));
                assert(!all_digits(ds));
            }
            return None;
        }
        let dv = (d - 48) as u64;
        proof {
            assert(ds.take(i - idx + 1).drop_last() =~= ds.take(i - idx));
            assert(all_digits(ds.take(i - idx + 1)));
        }
        if mag > limit / 10 || (mag == limit / 10 && dv > limit % 10) {
            proof {
                assert(mag * 10 + dv > limit) by (nonlinear_arith)
                    requires
                        mag > limit / 10 || (mag == limit / 10 && dv > limit % 10),
                        limit == limit / 10 * 10 + limit % 10,
                        dv >= 0,
                {}
                assert(digits_value(ds.take(i - idx + 1)) > limit);
                if parse_i64_spec(s@) is Some {
                    assert(all_digits(ds));
                    lemma_digits_value_prefix(ds, i - idx + 1);
                    assert(digits_value(ds) > limit);
                    assert(false);
                }
            }
            return None;
        }
        proof {
            assert(mag * 10 + dv <= limit) by (nonlinear_arith)
                requires
                    mag <= limit / 10,
                    !(mag == limit / 10 && dv > limit % 10),
                    dv <= 9,
                    limit == limit / 10 * 10 + limit % 10,
                    limit % 10 <= 9,
            {}
        }
        mag = mag * 10 + dv;
        i = i + 1;
    }
    proof {
        assert(ds.take(i - idx) =~= ds);
    }
    if neg {
        if mag == 9223372036854775808 {
            Some(i64::MIN)
        } else {
            Some(-(mag as i64))
        }
    } else {
        Some(mag as i64)
    }
}

/// ASCII-range whitespace, the characters `str::trim` strips from the
/// kernel's (ASCII) stat files.
pub open spec fn is_ws_char(c: char) -> bool {
    c == ' ' || c == '\t' || c == '\n' || c == '\r' || c == '\u{0B}' || c == '\u{0C}'
}

pub open spec fn trim_start_spec(s: Seq<char>) -> Seq<char>
    decreases s.len(),
{
    if s.len() > 0 && is_ws_char(s[0]) {
        trim_start_spec(s.drop_first())
    } else {
        s
    }
}

pub open spec fn trim_end_spec(s: Seq<char>) -> Seq<char>
    decreases s.len(),
{
    if s.len() > 0 && is_ws_char(s.last()) {
        trim_end_spec(s.drop_last())
    } else {
        s
    }
}

/// `s` without leading and trailing whitespace.
pub open spec fn trim_spec(s: Seq<char>) -> Seq<char> {
    trim_end_spec(trim_start_spec(s))
}

proof fn lemma_trim_start_at(s: Seq<char>, lo: int)
    requires
        0 <= lo <= s.len(),
        forall|k: int| 0 <= k < lo ==> is_ws_char(s[k]),
        lo < s.len() ==> !is_ws_char(s[lo]),
    ensures
        trim_start_spec(s) == s.skip(lo),
    decreases lo,
{
    if lo == 0 {
        assert(s.skip(0) =~= s);
    } else {
        lemma_trim_start_at(s.drop_first(), lo - 1);
        assert(s.drop_first().skip(lo - 1) =~= s.skip(lo));
    }
}

proof fn lemma_trim_end_at(s: Seq<char>, hi: int)
    requires
        0 <= hi <= s.len(),
        forall|k: int| hi <= k < s.len() ==> is_ws_char(s[k]),
        hi > 0 ==> !is_ws_char(s[hi - 1]),
    ensures
        trim_end_spec(s) == s.take(hi),
    decreases s.len() - hi,
{
    if hi == s.len() {
        assert(s.take(hi) =~= s);
    } else {
        lemma_trim_end_at(s.drop_last(), hi);
        assert(s.drop_last().take(hi) =~= s.take(hi));
    }
}

fn is_ws(c: char) -> (r: bool)
    ensures
        r == is_ws_char(c),
{
    c == ' ' || c == '\t' || c == '\n' || c == '\r' || c == '\u{0B}' || c == '\u{0C}'
}

/// Strips leading and trailing whitespace, the executable side of
/// [`trim_spec`].
pub fn trim_str(s: &str) -> (r: String)
    ensures
        r@ == trim_spec(s@),
{
    let len = s.unicode_len();
    let mut lo: usize = 0;
    while lo < len && is_ws(s.get_char(lo))
        invariant
            len == s@.len(),
            lo <= len,
            forall|k: int| 0 <= k < lo ==> is_ws_char(s@[k]),
        decreases len - lo,
    {
        lo = lo + 1;
    }
    let mut hi: usize = len;
    while hi > lo && is_ws(s.get_char(hi - 1))
        invariant
            len == s@.len(),
            lo <= hi <= len,
            forall|k: int| hi <= k < len ==> is_ws_char(s@[k]),
        decreases hi,
    {
        hi = hi - 1;
    }
    let r = s.substring_char(lo, hi).to_owned();
    proof {
        lemma_trim_start_at(s@, lo as int);
        let t = s@.skip(lo as int);
        assert forall|k: int| hi - lo <= k < t.len() implies is_ws_char(t[k]) by {
            assert(t[k] == s@[lo + k]);
        }
        assert(hi - lo > 0 ==> t[hi - lo - 1] == s@[hi - 1]);
        lemma_trim_end_at(t, hi - lo);
        assert(t.take(hi - lo) =~= s@.subrange(lo as int, hi as int));
    }
    r
}

/// `s` with every (non-overlapping, leftmost-first) occurrence of `pat`
/// deleted; what `str::replace(pat, "")` returns. With a one-character `pat`
/// this deletes each occurrence of that character.
pub open spec fn remove_all_spec(s: Seq<char>, pat: Seq<char>) -> Seq<char>
    decreases s.len(),
{
    if pat.len() == 0 {
        s
    } else if s.len() == 0 {
        Seq::empty()
    } else if s.len() >= pat.len() && s.take(pat.len() as int) == pat {
        remove_all_spec(s.skip(pat.len() as int), pat)
    } else {
        seq![s[0]] + remove_all_spec(s.drop_first(), pat)
    }
}

/// Deletes every occurrence of `pat`, the executable side of
/// [`remove_all_spec`].
pub fn remove_all(s: &str, pat: &str) -> (r: String)
    requires
        pat@.len() >= 1,
    ensures
        r@ == remove_all_spec(s@, pat@),
{
    let len = s.unicode_len();
    let plen = pat.unicode_len();
    let mut out = String::new();
    let mut i: usize = 0;
    proof {
        assert(s@.skip(0) =~= s@);
        assert(out@ + remove_all_spec(s@, pat@) =~= remove_all_spec(s@, pat@));
    }
    while i < len
        invariant
            len == s@.len(),
            plen == pat@.len(),
            1 <= plen,
            i <= len,
            remove_all_spec(s@, pat@) == out@ + remove_all_spec(s@.skip(i as int), pat@),
        decreases len - i,
    {
        let ghost t = s@.skip(i as int);
        if plen <= len - i && match_at(s, pat, i, len, plen) {
            proof {
                assert(t.take(plen as int) =~= s@.subrange(i as int, i + plen));
                assert(t.skip(plen as int) =~= s@.skip(i + plen));
            }
            i = i + plen;
        } else {
            let ghost prevout = out@;
            out.append(s.substring_char(i, i + 1));
            proof {
                if plen <= len - i {
                    assert(t.take(plen as int) =~= s@.subrange(i as int, i + plen));
                }
                assert(t.drop_first() =~= s@.skip(i + 1));
                assert(seq![t[0]] =~= s@.subrange(i as int, i + 1));
                assert(prevout + (seq![t[0]] + remove_all_spec(s@.skip(i + 1), pat@)) =~= (prevout
                    + seq![t[0]]) + remove_all_spec(s@.skip(i + 1), pat@));
            }
            i = i + 1;
        }
    }
    proof {
        assert(s@.skip(len as int) =~= Seq::<char>::empty());
        assert(out@ + Seq::<char>::empty() =~= out@);
    }
    out
}

} // verus!

