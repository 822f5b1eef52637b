//! Reading text: comparison, prefixes, decimal numbers and UTF-8.

use vstd::prelude::*;
use vstd::utf8::{decode_utf8, valid_utf8};

verus! {

/// The characters of an optional text slice.
pub open spec fn opt_str(text: Option<&str>) -> Option<Seq<char>> {
    match text {
        Some(t) => Some(t@),
        None => None,
    }
}

/// The characters of an optional text.
pub open spec fn opt_text(text: Option<String>) -> Option<Seq<char>> {
    match text {
        Some(t) => Some(t@),
        None => None,
    }
}

/// Whether two texts hold the same characters.
pub fn same_text(a: &str, b: &str) -> (same: bool)
    ensures
        same == (a@ == b@),
{
    a.to_owned() == b.to_owned()
}

/// What follows `prefix` in `text`, or nothing when `text` does not begin with `prefix`.
pub fn strip_prefix<'a>(text: &'a str, prefix: &str) -> (rest: Option<&'a str>)
    ensures
        rest is Some <==> prefix@.is_prefix_of(text@),
        rest matches Some(r) ==> text@ == prefix@ + r@,
{
    let n: usize = text.unicode_len();
    let k: usize = prefix.unicode_len();
    if n < k {
        return None;
    }
    let head = text.substring_char(0, k);
    if !same_text(head, prefix) {
        return None;
    }
    let tail = text.substring_char(k, n);
    proof {
        assert(text@ =~= head@ + tail@);
    }
    Some(tail)
}

/// Whether `c` is one of the ten decimal digits.
pub open spec fn is_digit(c: char) -> bool {
    '0' <= c <= '9'
}

/// The number that a sequence of decimal digits writes, the most significant first.
pub open spec fn digits_value(s: Seq<char>) -> nat
    decreases s.len(),
{
    if s.len() == 0 {
        0
    } else {
        digits_value(s.drop_last()) * 10 + (s.last() as nat - '0' as nat) as nat
    }
}

/// The digits of an unsigned number: what stands behind an optional plus sign.
pub open spec fn unsigned_digits(s: Seq<char>) -> Seq<char> {
    if s.len() > 0 && s[0] == '+' {
        s.skip(1)
    } else {
        s
    }
}

/// The number that `s` writes: an optional plus sign and then digits, at least one.
pub open spec fn unsigned_value(s: Seq<char>) -> Option<nat> {
    let digits = unsigned_digits(s);
    if digits.len() > 0 && (forall|i: int| 0 <= i < digits.len() ==> is_digit(#[trigger] digits[i])) {
        Some(digits_value(digits))
    } else {
        None
    }
}

/// A longer sequence of digits never writes a smaller number.
proof fn lemma_digits_value_grows(s: Seq<char>, k: int)
    requires
        0 <= k <= s.len(),
    ensures
        digits_value(s.take(k)) <= digits_value(s),
    decreases s.len(),
{
    if k == s.len() {
        assert(s.take(k) =~= s);
    } else {
        lemma_digits_value_grows(s.drop_last(), k);
        assert(s.drop_last().take(k) =~= s.take(k));
    }
}

/// The unsigned number in `text`, or nothing when `text` is not one or it is above `max`.
pub fn parse_unsigned(text: &str, max: u64) -> (value: Option<u64>)
    ensures
        match unsigned_value(text@) {
            Some(v) => if v <= max {
                value == Some(v as u64)
            } else {
                value is None
            },
            None => value is None,
        },
{
    let n: usize = text.unicode_len();
    let signed: bool = n > 0 && text.get_char(0) == '+';
    let start: usize = if signed {
        1
    } else {
        0
    };
    let ghost digits = unsigned_digits(text@);
    if start == n {
        return None;
    }
    let mut value: u64 = 0;
    let mut i: usize = start;
    while i < n
        invariant
            n == text@.len(),
            start <= i <= n,
            start < n,
            digits == text@.skip(start as int),
            digits == unsigned_digits(text@),
            value <= max,
            value == digits_value(digits.take(i - start)),
            forall|j: int| 0 <= j < i - start ==> is_digit(#[trigger] digits[j]),
        decreases n - i,
    {
        let c = text.get_char(i);
        if c < '0' || c > '9' {
            proof {
                assert(!is_digit(digits[i - start]));
            }
            return None;
        }
        let d: u64 = (c as u32 - '0' as u32) as u64;
        proof {
            assert(digits.take(i + 1 - start).drop_last() =~= digits.take(i - start));
            assert(digits_value(digits.take(i + 1 - start)) == value * 10 + d);
            lemma_digits_value_grows(digits, i + 1 - start);
        }
        let next: u128 = value as u128 * 10 + d as u128;
        if next > max as u128 {
            return None;
        }
        value = next as u64;
        i = i + 1;
    }
    proof {
        assert(digits.take(n - start) =~= digits);
    }
    Some(value)
}

/// Calls `String::from_utf8`: bytes that are valid UTF-8 become the text that they encode, and
/// other bytes give nothing.
#[verifier::external_body]
pub(crate) fn string_from_utf8(bytes: Vec<u8>) -> (text: Option<String>)
    ensures
        text is Some <==> valid_utf8(bytes@),
        text matches Some(t) ==> t@ == decode_utf8(bytes@),
{
    String::from_utf8(bytes).ok()
}

/// An optional text shows its characters, all of them, exactly when it is there.
pub proof fn law_optional_text_is_shown_whole(text: String, slice: &str)
    ensures
        opt_text(Some(text)) == Some(text@),
        opt_text(None) is None,
        opt_str(Some(slice)) == Some(slice@),
        opt_str(None) is None,
{
}

/// A decimal digit writes its own value, with or without a plus sign; nothing and a sign alone write
/// no number.
pub proof fn law_digit_writes_its_value(c: char)
    requires
        '0' <= c <= '9',
    ensures
        unsigned_value(seq![c]) == Some((c as nat - '0' as nat) as nat),
        unsigned_value(seq!['+', c]) == Some((c as nat - '0' as nat) as nat),
        unsigned_value(Seq::empty()) is None,
        unsigned_value(seq!['+']) is None,
{
    let one = seq![c];
    assert(unsigned_digits(one) =~= one);
    assert(unsigned_digits(seq!['+', c]) =~= one);
    assert(unsigned_digits(seq!['+']) =~= Seq::empty());
    assert(one.drop_last() =~= Seq::empty());
    assert(is_digit(one[0]));
    assert(digits_value(Seq::empty()) == 0);
    assert(digits_value(one) == (c as nat - '0' as nat) as nat);
}

/// A digit behind a number makes it ten times as large and adds its own value; a digit behind what
/// is no number makes one only of nothing and of a sign alone; any other character at the end
/// leaves no number.
pub proof fn law_number_grows_by_its_digits(s: Seq<char>, c: char)
    ensures
        '0' <= c <= '9' ==> (unsigned_value(s) matches Some(v) ==> unsigned_value(s.push(c)) == Some(
            (10 * v + (c as nat - '0' as nat)) as nat,
        )),
        '0' <= c <= '9' && unsigned_value(s) is None && s.len() > 0 && s != seq!['+']
            ==> unsigned_value(s.push(c)) is None,
        !('0' <= c <= '9') ==> unsigned_value(s.push(c)) is None,
{
    let more = s.push(c);
    let d = unsigned_digits(s);
    let e = unsigned_digits(more);
    if s.len() > 0 {
        assert(more[0] == s[0]);
        assert(e =~= d.push(c));
        assert(e.drop_last() =~= d);
        assert(forall|i: int| 0 <= i < d.len() ==> e[i] == d[i]);
        assert(e[d.len() as int] == c);
        if unsigned_value(s) is None && s != seq!['+'] {
            if d.len() == 0 {
                assert(s =~= seq!['+']);
            }
            let i = choose|i: int| 0 <= i < d.len() && !is_digit(#[trigger] d[i]);
            assert(!is_digit(e[i]));
        }
    } else {
        assert(more =~= seq![c]);
        assert(e.len() > 0 ==> e[0] == c);
    }
}

} // verus!
