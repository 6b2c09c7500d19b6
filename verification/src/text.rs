//! Small utilities on character sequences: bridges between `String` and
//! `Vec<char>`, comparisons, prefix tests, and decimal rendering of integers.

use vstd::prelude::*;

verus! {

/// Relies on str::chars with Iterator::collect: yields the characters of the
/// string, in order, as a vector.
#[verifier::external_body]
pub fn chars_of(s: &str) -> (r: Vec<char>)
    ensures
        r@ == s@,
{
    s.chars().collect()
}

/// Relies on String's FromIterator<char> impl: collecting characters builds
/// the string holding exactly those characters in order.
#[verifier::external_body]
pub fn string_from_chars(v: &Vec<char>) -> (r: String)
    ensures
        r@ == v@,
{
    v.iter().collect()
}

/// Appends the characters of `s` to `out`.
pub fn push_chars(out: &mut Vec<char>, s: &str)
    ensures
        final(out)@ == old(out)@ + s@,
{
    let mut v = chars_of(s);
    out.append(&mut v);
}

/// Character-wise equality of two string slices.
pub fn str_eq(a: &str, b: &str) -> (r: bool)
    ensures
        r == (a@ == b@),
{
    let va = chars_of(a);
    let vb = chars_of(b);
    chars_eq(&va, &vb)
}

/// Element-wise equality of two character vectors.
pub fn chars_eq(a: &Vec<char>, b: &Vec<char>) -> (r: bool)
    ensures
        r == (a@ == b@),
{
    if a.len() != b.len() {
        return false;
    }
    let mut i: usize = 0;
    while i < a.len()
        invariant
            0 <= i <= a@.len(),
            a@.len() == b@.len(),
            forall|j: int| 0 <= j < i ==> a@[j] == b@[j],
        decreases a@.len() - i,
    {
        if a[i] != b[i] {
            return false;
        }
        i = i + 1;
    }
    proof {
        assert(a@ =~= b@);
    }
    true
}

/// True when the sequence `p` is an initial segment of `s`.
pub open spec fn is_prefix_of(p: Seq<char>, s: Seq<char>) -> bool {
    p.len() <= s.len() && s.subrange(0, p.len() as int) == p
}

/// Prefix test on character vectors.
pub fn has_prefix(s: &Vec<char>, p: &Vec<char>) -> (r: bool)
    ensures
        r == is_prefix_of(p@, s@),
{
    if p.len() > s.len() {
        return false;
    }
    let mut i: usize = 0;
    while i < p.len()
        invariant
            0 <= i <= p@.len(),
            p@.len() <= s@.len(),
            forall|j: int| 0 <= j < i ==> s@[j] == p@[j],
        decreases p@.len() - i,
    {
        if s[i] != p[i] {
            proof {
                assert(s@.subrange(0, p@.len() as int)[i as int] == s@[i as int]);
            }
            return false;
        }
        i = i + 1;
    }
    proof {
        assert(s@.subrange(0, p@.len() as int) =~= p@);
    }
    true
}

/// Membership test for a character in a vector.
pub fn contains_char(s: &Vec<char>, c: char) -> (r: bool)
    ensures
        r == s@.contains(c),
{
    let mut i: usize = 0;
    while i < s.len()
        invariant
            0 <= i <= s@.len(),
            forall|j: int| 0 <= j < i ==> s@[j] != c,
        decreases s@.len() - i,
    {
        if s[i] == c {
            return true;
        }
        i = i + 1;
    }
    false
}

/// True when the sequence `p` is a final segment of `s`.
pub open spec fn is_suffix_of(p: Seq<char>, s: Seq<char>) -> bool {
    p.len() <= s.len() && s.subrange(s.len() - p.len(), s.len() as int) == p
}

/// Suffix test on character vectors.
pub fn has_suffix(s: &Vec<char>, p: &Vec<char>) -> (r: bool)
    ensures
        r == is_suffix_of(p@, s@),
{
    if p.len() > s.len() {
        return false;
    }
    let n = s.len();
    let off = n - p.len();
    let mut i: usize = 0;
    while i < p.len()
        invariant
            0 <= i <= p@.len(),
            p@.len() <= s@.len(),
            n == s@.len(),
            off == s@.len() - p@.len(),
            forall|j: int| 0 <= j < i ==> s@[off + j] == p@[j],
        decreases p@.len() - i,
    {
        if s[off + i] != p[i] {
            proof {
                assert(s@.subrange(s@.len() - p@.len(), s@.len() as int)[i as int] == s@[off + i]);
            }
            return false;
        }
        i = i + 1;
    }
    proof {
        assert(s@.subrange(s@.len() - p@.len(), s@.len() as int) =~= p@);
    }
    true
}

/// The meaning of a decimal digit run read from position `i` with the
/// digits seen so far worth `acc`: the whole remaining text must be
/// digits, and the value must fit in a u64.
pub open spec fn spec_u64_from(s: Seq<char>, i: int, acc: int) -> Option<u64>
    decreases s.len() - i,
{
    if i < 0 || i > s.len() {
        None
    } else if i == s.len() {
        if 0 <= acc <= u64::MAX {
            Some(acc as u64)
        } else {
            None
        }
    } else if 48 <= s[i] as u32 <= 57 {
        if acc * 10 + (s[i] as u32 - 48) <= u64::MAX {
            spec_u64_from(s, i + 1, acc * 10 + (s[i] as u32 - 48))
        } else {
            None
        }
    } else {
        None
    }
}

/// The u64 a text denotes: all characters decimal digits, at least one,
/// value within range.
pub open spec fn spec_parse_u64(s: Seq<char>) -> Option<u64> {
    if s.len() == 0 {
        None
    } else {
        spec_u64_from(s, 0, 0)
    }
}

/// Parses a u64 from decimal text, as `spec_parse_u64` describes.
pub fn parse_u64(s: &str) -> (r: Option<u64>)
    ensures
        r == spec_parse_u64(s@),
{
    let chars = chars_of(s);
    if chars.len() == 0 {
        return None;
    }
    let mut acc: u64 = 0;
    let mut i: usize = 0;
    while i < chars.len()
        invariant
            0 <= i <= chars@.len(),
            chars@ == s@,
            spec_u64_from(s@, 0, 0) == spec_u64_from(s@, i as int, acc as int),
        decreases chars@.len() - i,
    {
        let code = chars[i] as u32;
        if !(48 <= code && code <= 57) {
            return None;
        }
        let d = (code - 48) as u64;
        if acc > (u64::MAX - d) / 10 {
            proof {
                assert(acc as int * 10 + d > u64::MAX) by (nonlinear_arith)
                    requires
                        acc > (u64::MAX - d) / 10,
                        0 <= d <= 9,
                        acc <= u64::MAX,
                ;
            }
            return None;
        }
        proof {
            assert(acc * 10 + d <= u64::MAX) by (nonlinear_arith)
                requires
                    acc <= (u64::MAX - d) / 10,
                    d <= 9,
            ;
        }
        acc = acc * 10 + d;
        i = i + 1;
    }
    Some(acc)
}

/// The index of the first occurrence of `c` in `s`, or `s.len()` if there
/// is none.
pub open spec fn spec_char_index(s: Seq<char>, c: char) -> int
    decreases s.len(),
{
    if s.len() == 0 {
        0
    } else if s[0] == c {
        0
    } else {
        1 + spec_char_index(s.drop_first(), c)
    }
}

/// `spec_char_index` points at the first occurrence: everything before it
/// differs from `c`, and it is either the end or an occurrence.
pub proof fn lemma_char_index(s: Seq<char>, c: char)
    ensures
        0 <= spec_char_index(s, c) <= s.len(),
        forall|j: int| 0 <= j < spec_char_index(s, c) ==> s[j] != c,
        spec_char_index(s, c) < s.len() ==> s[spec_char_index(s, c)] == c,
    decreases s.len(),
{
    if s.len() == 0 {
    } else if s[0] == c {
    } else {
        lemma_char_index(s.drop_first(), c);
        assert forall|j: int| 0 <= j < spec_char_index(s, c) implies s[j] != c by {
            if j > 0 {
                assert(s.drop_first()[j - 1] == s[j]);
            }
        }
        if spec_char_index(s, c) < s.len() {
            assert(s.drop_first()[spec_char_index(s, c) - 1] == s[spec_char_index(s, c)]);
        }
    }
}

/// The segments of `s` between occurrences of `c`. A trailing separator
/// closes the last segment; text after the last separator forms a final
/// segment of its own.
pub open spec fn spec_split_on(s: Seq<char>, c: char) -> Seq<Seq<char>>
    decreases s.len(),
{
    if s.len() == 0 {
        Seq::empty()
    } else {
        let k = spec_char_index(s, c);
        if 0 <= k && k < s.len() {
            seq![s.subrange(0, k)] + spec_split_on(s.subrange(k + 1, s.len() as int), c)
        } else {
            seq![s]
        }
    }
}

/// The segments of `s` between newline characters.
pub open spec fn spec_split_lines(s: Seq<char>) -> Seq<Seq<char>> {
    spec_split_on(s, '\n')
}

fn split_on_from(text: &Vec<char>, c: char, i: usize) -> (r: Vec<Vec<char>>)
    requires
        i <= text@.len(),
    ensures
        r@.map_values(|l: Vec<char>| l@) == spec_split_on(text@.skip(i as int), c),
    decreases text@.len() - i,
{
    let ghost s = text@.skip(i as int);
    proof {
        lemma_char_index(s, c);
    }
    if i == text.len() {
        let r: Vec<Vec<char>> = Vec::new();
        proof {
            assert(s =~= Seq::<char>::empty());
            assert(r@.map_values(|l: Vec<char>| l@) =~= spec_split_on(s, c));
        }
        return r;
    }
    // Find the first separator at or after `i`.
    let n = text.len();
    let mut k: usize = i;
    while k < n && text[k] != c
        invariant
            i <= k <= n,
            n == text@.len(),
            forall|j: int| i <= j < k ==> text@[j] != c,
        decreases n - k,
    {
        k = k + 1;
    }
    proof {
        assert(k - i == spec_char_index(s, c)) by {
            assert(forall|j: int| 0 <= j < s.len() ==> s[j] == text@[i + j]);
            if k - i < spec_char_index(s, c) {
                assert(s[k - i] == c);
            }
            if k - i > spec_char_index(s, c) {
                assert(text@[i + spec_char_index(s, c)] == c);
            }
        }
    }
    // Copy the segment [i, k).
    let mut line: Vec<char> = Vec::new();
    let mut m: usize = i;
    while m < k
        invariant
            i <= m <= k <= n,
            n == text@.len(),
            line@ =~= text@.subrange(i as int, m as int),
        decreases k - m,
    {
        line.push(text[m]);
        proof {
            assert(text@.subrange(i as int, m + 1) =~= text@.subrange(i as int, m as int).push(
                text@[m as int],
            ));
        }
        m = m + 1;
    }
    proof {
        assert(line@ =~= s.subrange(0, k - i));
    }
    if k == n {
        let mut r: Vec<Vec<char>> = Vec::new();
        r.push(line);
        proof {
            assert(s.subrange(0, k - i) =~= s);
            assert(r@.map_values(|l: Vec<char>| l@) =~= spec_split_on(s, c));
        }
        r
    } else {
        let rest = split_on_from(text, c, k + 1);
        let mut r: Vec<Vec<char>> = Vec::new();
        r.push(line);
        let mut rest = rest;
        r.append(&mut rest);
        proof {
            assert(text@.skip(k + 1) =~= s.subrange(k - i + 1, s.len() as int));
            assert(r@.map_values(|l: Vec<char>| l@) =~= spec_split_on(s, c));
        }
        r
    }
}

/// Splits a text at each occurrence of `c`, as `spec_split_on` describes.
pub fn split_on(text: &Vec<char>, c: char) -> (r: Vec<Vec<char>>)
    ensures
        r@.map_values(|l: Vec<char>| l@) == spec_split_on(text@, c),
{
    let r = split_on_from(text, c, 0);
    proof {
        assert(text@.skip(0) =~= text@);
    }
    r
}

/// Splits a text into its lines.
pub fn split_lines(text: &Vec<char>) -> (r: Vec<Vec<char>>)
    ensures
        r@.map_values(|l: Vec<char>| l@) == spec_split_lines(text@),
{
    split_on(text, '\n')
}

/// The character for one decimal digit.
pub open spec fn spec_digit_char(d: int) -> char {
    ((48 + d) as u8) as char
}

/// The decimal rendering of a natural number, most significant digit first.
pub open spec fn spec_dec_digits(n: nat) -> Seq<char>
    decreases n,
{
    if n < 10 {
        seq![spec_digit_char(n as int)]
    } else {
        spec_dec_digits(n / 10).push(spec_digit_char((n % 10) as int))
    }
}

/// Appends the decimal rendering of `n` to `out`.
pub fn push_u64_dec(n: u64, out: &mut Vec<char>)
    ensures
        final(out)@ == old(out)@ + spec_dec_digits(n as nat),
    decreases n,
{
    if n < 10 {
        out.push(((48 + n as u8)) as char);
    } else {
        push_u64_dec(n / 10, out);
        out.push((48 + (n % 10) as u8) as char);
    }
}

} // verus!
