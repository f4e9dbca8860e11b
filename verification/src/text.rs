//! Verified text utilities: decimal rendering of integers, parsing of
//! non-negative decimal literals, lexicographic comparison of strings, and
//! removal of the first occurrence of a substring.

use vstd::prelude::*;

verus! {

use vstd::string::StrSliceExecFns;
use vstd::string::StringExecFns;

/// The decimal digit character for a value in 0..10.
pub open spec fn dec_digit(d: int) -> char {
    if d == 0 {
        '0'
    } else if d == 1 {
        '1'
    } else if d == 2 {
        '2'
    } else if d == 3 {
        '3'
    } else if d == 4 {
        '4'
    } else if d == 5 {
        '5'
    } else if d == 6 {
        '6'
    } else if d == 7 {
        '7'
    } else if d == 8 {
        '8'
    } else {
        '9'
    }
}

/// Decimal text of a non-negative integer, without leading zeros
/// (except for the single digit of zero itself).
pub open spec fn nat_text(n: nat) -> Seq<char>
    decreases n,
{
    if n < 10 {
        seq![dec_digit(n as int)]
    } else {
        nat_text(n / 10).push(dec_digit((n % 10) as int))
    }
}

/// Decimal text of an integer: a leading minus sign for negative values.
pub open spec fn int_text(i: int) -> Seq<char> {
    if i < 0 {
        seq!['-'] + nat_text((-i) as nat)
    } else {
        nat_text(i as nat)
    }
}

/// Relies on String::push: appends one character to the string.
#[verifier::external_body]
pub fn push_char(s: &mut String, c: char)
    ensures
        final(s)@ == old(s)@.push(c),
{
    s.push(c);
}

fn dec_digit_char(d: u32) -> (c: char)
    requires
        d < 10,
    ensures
        c == dec_digit(d as int),
{
    if d == 0 {
        '0'
    } else if d == 1 {
        '1'
    } else if d == 2 {
        '2'
    } else if d == 3 {
        '3'
    } else if d == 4 {
        '4'
    } else if d == 5 {
        '5'
    } else if d == 6 {
        '6'
    } else if d == 7 {
        '7'
    } else if d == 8 {
        '8'
    } else {
        '9'
    }
}

fn push_nat_text(s: &mut String, n: u128)
    ensures
        final(s)@ == old(s)@ + nat_text(n as nat),
    decreases n,
{
    if n >= 10 {
        push_nat_text(s, n / 10);
    }
    let d: u32 = (n % 10) as u32;
    push_char(s, dec_digit_char(d));
    proof {
        if n < 10 {
            assert(old(s)@ + nat_text(n as nat) =~= old(s)@.push(dec_digit(n as int)));
        } else {
            assert(old(s)@ + nat_text(n as nat) =~= (old(s)@ + nat_text(n as nat / 10)).push(
                dec_digit((n % 10) as int),
            ));
        }
    }
}

/// Decimal rendering of an unsigned 128-bit value.
pub fn u128_to_string(n: u128) -> (s: String)
    ensures
        s@ == nat_text(n as nat),
{
    let mut s = String::new();
    push_nat_text(&mut s, n);
    proof {
        assert(s@ =~= nat_text(n as nat));
    }
    s
}

/// Decimal rendering of a signed 128-bit value.
pub fn i128_to_string(i: i128) -> (s: String)
    ensures
        s@ == int_text(i as int),
{
    if i >= 0 {
        u128_to_string(i as u128)
    } else {
        let mag: u128 = ((-(i + 1)) as u128) + 1;
        let mut s = String::new();
        push_char(&mut s, '-');
        push_nat_text(&mut s, mag);
        proof {
            assert(s@ =~= int_text(i as int));
        }
        s
    }
}

/// Decimal rendering of an unsigned 32-bit value.
pub fn u32_to_string(n: u32) -> (s: String)
    ensures
        s@ == nat_text(n as nat),
{
    u128_to_string(n as u128)
}

/// Decimal rendering of a signed 32-bit value.
pub fn i32_to_string(i: i32) -> (s: String)
    ensures
        s@ == int_text(i as int),
{
    i128_to_string(i as i128)
}

/// True for an ASCII decimal digit.
pub open spec fn is_dec_digit(c: char) -> bool {
    '0' <= c && c <= '9'
}

/// The numeric value of an ASCII decimal digit.
pub open spec fn digit_value(c: char) -> int {
    c as int - '0' as int
}

/// The value of a sequence of decimal digit characters, most significant first.
pub open spec fn digits_value(s: Seq<char>) -> int
    decreases s.len(),
{
    if s.len() == 0 {
        0
    } else {
        digits_value(s.drop_last()) * 10 + digit_value(s.last())
    }
}

/// True when the text is a well-formed non-negative decimal integer literal:
/// non-empty and made of decimal digits only.
pub open spec fn is_decimal_text(s: Seq<char>) -> bool {
    s.len() > 0 && (forall|i: int| 0 <= i < s.len() ==> is_dec_digit(#[trigger] s[i]))
}

proof fn lemma_digits_value_nonneg(s: Seq<char>)
    requires
        forall|i: int| 0 <= i < s.len() ==> is_dec_digit(#[trigger] s[i]),
    ensures
        digits_value(s) >= 0,
    decreases s.len(),
{
    if s.len() > 0 {
        lemma_digits_value_nonneg(s.drop_last());
    }
}

proof fn lemma_digits_value_grows(s: Seq<char>, i: int)
    requires
        0 <= i <= s.len(),
        digits_value(s.take(i)) >= 0,
        forall|k: int| i <= k < s.len() ==> is_dec_digit(#[trigger] s[k]),
    ensures
        digits_value(s) >= digits_value(s.take(i)),
    decreases s.len() - i,
{
    if i == s.len() {
        assert(s.take(i) =~= s);
    } else {
        assert(s.take(i + 1).drop_last() =~= s.take(i));
        assert(digits_value(s.take(i + 1)) == digits_value(s.take(i)) * 10 + digit_value(s[i]));
        lemma_digits_value_grows(s, i + 1);
    }
}

/// Parses a non-negative decimal integer literal.
/// Returns `Some` exactly for a non-empty all-digit string whose value fits
/// in 32 bits, and then returns that value.
pub fn parse_u32(s: &str) -> (r: Option<u32>)
    ensures
        r matches Some(v) ==> is_decimal_text(s@) && v == digits_value(s@) && digits_value(s@)
            <= u32::MAX,
        r is None ==> !is_decimal_text(s@) || digits_value(s@) > u32::MAX,
{
    let n = s.unicode_len();
    if n == 0 {
        return None;
    }
    let mut acc: u64 = 0;
    let mut i: usize = 0;
    while i < n
        invariant
            0 < n == s@.len(),
            0 <= i <= n,
            forall|k: int| 0 <= k < i ==> is_dec_digit(#[trigger] s@[k]),
            acc == digits_value(s@.take(i as int)),
            acc <= u32::MAX,
        decreases n - i,
    {
        let c = s.get_char(i);
        let cv = c as u32;
        if cv < 48 || cv > 57 {
            return None;
        }
        let d: u64 = (cv - 48) as u64;
        proof {
            assert(s@.take(i + 1).drop_last() =~= s@.take(i as int));
        }
        acc = acc * 10 + d;
        i = i + 1;
        if acc > 0xFFFF_FFFF {
            proof {
                if is_decimal_text(s@) {
                    lemma_digits_value_grows(s@, i as int);
                    assert(s@.take(n as int) =~= s@);
                }
            }
            return None;
        }
    }
    proof {
        assert(s@.take(n as int) =~= s@);
    }
    Some(acc as u32)
}

/// Lexicographic order on character sequences, by code point, with a proper
/// prefix ordered before any extension of it.
pub open spec fn lex_lt(a: Seq<char>, b: Seq<char>) -> bool
    decreases a.len(),
{
    if b.len() == 0 {
        false
    } else if a.len() == 0 {
        true
    } else if (a[0] as int) < (b[0] as int) {
        true
    } else if (a[0] as int) > (b[0] as int) {
        false
    } else {
        lex_lt(a.skip(1), b.skip(1))
    }
}

/// The three-way outcome of a comparison.
#[derive(PartialEq, Eq, Structural, Clone, Copy, Debug)]
pub enum Order {
    Less,
    Equal,
    Greater,
}

proof fn lemma_lex_skip(a: Seq<char>, b: Seq<char>, i: int)
    requires
        0 <= i < a.len(),
        0 <= i < b.len(),
        a[i] == b[i],
    ensures
        lex_lt(a.skip(i), b.skip(i)) == lex_lt(a.skip(i + 1), b.skip(i + 1)),
{
    assert(a.skip(i).skip(1) =~= a.skip(i + 1));
    assert(b.skip(i).skip(1) =~= b.skip(i + 1));
    assert(a.skip(i)[0] == a[i]);
    assert(b.skip(i)[0] == b[i]);
}

/// Three-way lexicographic comparison of two strings by their characters.
pub fn str_compare(a: &str, b: &str) -> (r: Order)
    ensures
        (r == Order::Less) == lex_lt(a@, b@),
        (r == Order::Equal) == (a@ == b@),
        (r == Order::Greater) == lex_lt(b@, a@),
{
    let alen = a.unicode_len();
    let blen = b.unicode_len();
    let min: usize = if alen < blen {
        alen
    } else {
        blen
    };
    proof {
        assert(a@.skip(0) =~= a@);
        assert(b@.skip(0) =~= b@);
    }
    let mut i: usize = 0;
    while i < min
        invariant
            a@.len() == alen,
            b@.len() == blen,
            min == if alen < blen {
                alen as int
            } else {
                blen as int
            },
            0 <= i <= min,
            forall|j: int| 0 <= j < i ==> a@[j] == b@[j],
            lex_lt(a@, b@) == lex_lt(a@.skip(i as int), b@.skip(i as int)),
            lex_lt(b@, a@) == lex_lt(b@.skip(i as int), a@.skip(i as int)),
        decreases min - i,
    {
        let ca = a.get_char(i) as u32;
        let cb = b.get_char(i) as u32;
        proof {
            assert(a@.skip(i as int)[0] == a@[i as int]);
            assert(b@.skip(i as int)[0] == b@[i as int]);
        }
        if ca < cb {
            proof {
                assert(lex_lt(a@.skip(i as int), b@.skip(i as int)));
                assert(!lex_lt(b@.skip(i as int), a@.skip(i as int)));
                assert(a@[i as int] != b@[i as int]);
            }
            return Order::Less;
        } else if ca > cb {
            proof {
                assert(lex_lt(b@.skip(i as int), a@.skip(i as int)));
                assert(!lex_lt(a@.skip(i as int), b@.skip(i as int)));
                assert(a@[i as int] != b@[i as int]);
            }
            return Order::Greater;
        }
        proof {
            lemma_lex_skip(a@, b@, i as int);
            lemma_lex_skip(b@, a@, i as int);
        }
        i = i + 1;
    }
    proof {
        assert(a@.skip(i as int).len() == alen - i);
        assert(b@.skip(i as int).len() == blen - i);
    }
    if alen < blen {
        Order::Less
    } else if alen > blen {
        Order::Greater
    } else {
        proof {
            assert(a@ =~= b@);
        }
        Order::Equal
    }
}

/// A console line with at most one trailing newline removed, and then at
/// most one trailing carriage return.
pub open spec fn strip_line(s: Seq<char>) -> Seq<char> {
    let s1 = if s.len() > 0 && s.last() == '\n' {
        s.drop_last()
    } else {
        s
    };
    if s1.len() > 0 && s1.last() == '\r' {
        s1.drop_last()
    } else {
        s1
    }
}

/// Removes at most one trailing newline and then at most one trailing
/// carriage return from a console line.
pub fn strip_line_end(s: &str) -> (r: String)
    ensures
        r@ == strip_line(s@),
{
    let n = s.unicode_len();
    let mut end: usize = n;
    if end > 0 && s.get_char(end - 1) == '\n' {
        end = end - 1;
    }
    if end > 0 && s.get_char(end - 1) == '\r' {
        end = end - 1;
    }
    let r = s.substring_char(0, end).to_owned();
    proof {
        assert(r@ =~= strip_line(s@));
    }
    r
}

/// True when `needle` occurs in `hay` starting at index `i`.
pub open spec fn matches_at(hay: Seq<char>, needle: Seq<char>, i: int) -> bool {
    0 <= i && i + needle.len() <= hay.len() && hay.subrange(i, i + needle.len()) == needle
}

/// The least index at or after `i` where `needle` occurs in `hay`,
/// or -1 when there is none.
pub open spec fn match_from(hay: Seq<char>, needle: Seq<char>, i: int) -> int
    decreases hay.len() - i + 1,
{
    if i < 0 || i + needle.len() > hay.len() {
        -1
    } else if matches_at(hay, needle, i) {
        i
    } else {
        match_from(hay, needle, i + 1)
    }
}

/// `hay` with the first occurrence of `needle` removed, or `hay` unchanged
/// when `needle` does not occur in it.
pub open spec fn remove_first(hay: Seq<char>, needle: Seq<char>) -> Seq<char> {
    let m = match_from(hay, needle, 0);
    if m >= 0 {
        hay.subrange(0, m) + hay.subrange(m + needle.len(), hay.len() as int)
    } else {
        hay
    }
}

fn check_match_at(hay: &str, needle: &str, i: usize) -> (r: bool)
    requires
        i + needle@.len() <= hay@.len(),
        hay@.len() <= usize::MAX,
    ensures
        r == matches_at(hay@, needle@, i as int),
{
    let nlen = needle.unicode_len();
    let mut k: usize = 0;
    while k < nlen
        invariant
            nlen == needle@.len(),
            i + nlen <= hay@.len(),
            hay@.len() <= usize::MAX,
            0 <= k <= nlen,
            forall|j: int| 0 <= j < k ==> hay@[i + j] == needle@[j],
        decreases nlen - k,
    {
        let hc = hay.get_char(i + k) as u32;
        let nc = needle.get_char(k) as u32;
        if hc != nc {
            proof {
                assert(hay@.subrange(i as int, i + needle@.len())[k as int] == hay@[i + k]);
            }
            return false;
        }
        k = k + 1;
    }
    proof {
        assert(hay@.subrange(i as int, i + needle@.len()) =~= needle@);
    }
    true
}

/// Removes the first occurrence of `needle` from `hay`, returning `hay`
/// unchanged when `needle` does not occur.
pub fn remove_first_occurrence(hay: &str, needle: &str) -> (r: String)
    ensures
        r@ == remove_first(hay@, needle@),
{
    let hlen = hay.unicode_len();
    let nlen = needle.unicode_len();
    if nlen > hlen {
        return hay.to_owned();
    }
    if nlen == 0 {
        proof {
            assert(matches_at(hay@, needle@, 0)) by {
                assert(hay@.subrange(0, 0) =~= needle@);
            }
            assert(match_from(hay@, needle@, 0) == 0);
            assert(remove_first(hay@, needle@) =~= hay@);
        }
        return hay.to_owned();
    }
    let mut i: usize = 0;
    while i <= hlen - nlen
        invariant
            hlen == hay@.len(),
            nlen == needle@.len(),
            0 < nlen <= hlen,
            0 <= i <= hlen - nlen + 1,
            match_from(hay@, needle@, 0) == match_from(hay@, needle@, i as int),
        decreases hlen - i,
    {
        if check_match_at(hay, needle, i) {
            let pre = hay.substring_char(0, i);
            let post = hay.substring_char(i + nlen, hlen);
            let mut r = pre.to_owned();
            r.append(post);
            proof {
                assert(match_from(hay@, needle@, i as int) == i);
            }
            return r;
        }
        proof {
            assert(match_from(hay@, needle@, i as int) == match_from(hay@, needle@, i + 1));
        }
        i = i + 1;
    }
    proof {
        assert(match_from(hay@, needle@, i as int) == -1);
    }
    hay.to_owned()
}

} // verus!
