//! Catalogue identifiers: the prefix "SCP-" and a decimal number.

use crate::chars::{chars_of, to_string};
use crate::pattern::{find_group, first_group, opt_view};
use vstd::prelude::*;

verus! {

/// The character of the decimal digit `d`.
pub open spec fn digit_char(d: nat) -> char {
    ('0' as u32 + d) as char
}

/// The decimal numeral of `n`, without leading zeros.
pub open spec fn decimal(n: nat) -> Seq<char>
    decreases n,
{
    if n < 10 {
        seq![digit_char(n)]
    } else {
        decimal(n / 10).push(digit_char(n % 10))
    }
}

/// The three-digit numeral of a number below 1000, with leading zeros.
pub open spec fn padded3(n: nat) -> Seq<char> {
    seq![digit_char(n / 100), digit_char(n / 10 % 10), digit_char(n % 10)]
}

/// The numeral in the identifier of the catalogue entry `n`: three digits
/// where `n` is at most 99, and the plain numeral above that.
pub open spec fn numeral(n: nat) -> Seq<char> {
    if n <= 99 {
        padded3(n)
    } else {
        decimal(n)
    }
}

/// The identifier of the catalogue entry `n`: the prefix, then the numeral.
pub open spec fn identifier(n: nat) -> Seq<char> {
    "SCP-"@ + numeral(n)
}

/// Whether `c` is an ASCII decimal digit.
pub open spec fn is_digit(c: char) -> bool {
    '0' <= c && c <= '9'
}

/// Whether `s` holds ASCII decimal digits only.
pub open spec fn all_digits(s: Seq<char>) -> bool {
    forall|i: int| 0 <= i < s.len() ==> is_digit(#[trigger] s[i])
}

/// The number that the digit `c` denotes.
pub open spec fn digit_value(c: char) -> nat {
    (c as u32 - '0' as u32) as nat
}

/// The number that a string of decimal digits denotes.
pub open spec fn number_of(s: Seq<char>) -> nat
    decreases s.len(),
{
    if s.len() == 0 {
        0
    } else {
        number_of(s.drop_last()) * 10 + digit_value(s.last())
    }
}

/// The number denoted by `s`, where `s` is a non-empty string of ASCII digits
/// and the number fits in 16 bits.
pub open spec fn parse_u16(s: Seq<char>) -> Option<u16> {
    if s.len() > 0 && all_digits(s) && number_of(s) <= u16::MAX {
        Some(number_of(s) as u16)
    } else {
        None
    }
}

/// The number in a captured group, if there is a group and it is a number.
pub open spec fn group_number(group: Option<Seq<char>>) -> Option<u16> {
    match group {
        Some(d) => parse_u16(d),
        None => None,
    }
}

/// The identifier for a captured group; empty where the group holds no number.
pub open spec fn group_identifier(group: Option<Seq<char>>) -> Seq<char> {
    match group_number(group) {
        Some(n) => identifier(n as nat),
        None => Seq::empty(),
    }
}

/// The decimal numeral of a number is a string of digits, not empty, that
/// denotes the number.
pub proof fn lemma_decimal(n: nat)
    ensures
        decimal(n).len() > 0,
        all_digits(decimal(n)),
        number_of(decimal(n)) == n,
    decreases n,
{
    if n < 10 {
        let s = seq![digit_char(n)];
        assert(s.drop_last().len() == 0);
        assert(number_of(s.drop_last()) == 0);
        assert(s.last() == digit_char(n));
    } else {
        lemma_decimal(n / 10);
        let front = decimal(n / 10);
        let s = front.push(digit_char(n % 10));
        assert(s.drop_last() == front);
        assert(s.last() == digit_char(n % 10));
        assert forall|i: int| 0 <= i < s.len() implies is_digit(#[trigger] s[i]) by {
            if i < front.len() {
                assert(s[i] == front[i]);
            }
        }
    }
}

/// The numeral in an identifier is a string of digits, not empty, that
/// denotes the number of the entry.
pub proof fn lemma_numeral(n: nat)
    ensures
        numeral(n).len() > 0,
        all_digits(numeral(n)),
        number_of(numeral(n)) == n,
{
    if n <= 99 {
        let s = padded3(n);
        assert(s.drop_last() == seq![digit_char(n / 100), digit_char(n / 10 % 10)]);
        assert(s.drop_last().drop_last() == seq![digit_char(n / 100)]);
        assert(s.drop_last().drop_last().drop_last().len() == 0);
        reveal_with_fuel(number_of, 4);
    } else {
        lemma_decimal(n);
    }
}

/// Two entries with the same identifier are the same entry.
pub proof fn lemma_identifier_injective(a: nat, b: nat)
    requires
        identifier(a) == identifier(b),
    ensures
        a == b,
{
    let prefix = "SCP-"@;
    assert(identifier(a).skip(prefix.len() as int) == numeral(a));
    assert(identifier(b).skip(prefix.len() as int) == numeral(b));
    lemma_numeral(a);
    lemma_numeral(b);
}

fn digit(d: u16) -> (c: char)
    requires
        d < 10,
    ensures
        c == digit_char(d as nat),
{
    (48u8 + d as u8) as char
}

/// The identifier of the catalogue entry `number`.
pub fn format_number(number: u16) -> (r: String)
    ensures
        r@ == identifier(number as nat),
{
    let n = number;
    let mut v = chars_of("SCP-");
    let ghost n0 = n as nat;
    if n <= 99 {
        v.push('0');
        v.push(digit(n / 10));
        v.push(digit(n % 10));
        assert(v@ =~= "SCP-"@ + padded3(n0));
    } else {
        let ghost before = v@;
        if n >= 10000 {
            v.push(digit(n / 10000));
        }
        if n >= 1000 {
            v.push(digit(n / 1000 % 10));
        }
        v.push(digit(n / 100 % 10));
        v.push(digit(n / 10 % 10));
        v.push(digit(n % 10));
        proof {
            reveal_with_fuel(decimal, 6);
            assert(v@ =~= before + decimal(n0));
        }
    }
    to_string(&v)
}

proof fn lemma_number_of_prefix(s: Seq<char>, k: int)
    requires
        0 <= k <= s.len(),
    ensures
        number_of(s.take(k)) <= number_of(s),
    decreases s.len() - k,
{
    if k < s.len() {
        lemma_number_of_prefix(s, k + 1);
        assert(s.take(k + 1).drop_last() == s.take(k));
    } else {
        assert(s.take(k) == s);
    }
}

/// Reads a number from a non-empty string of ASCII digits.
pub fn parse_number(v: &Vec<char>) -> (r: Option<u16>)
    ensures
        r == parse_u16(v@),
{
    if v.len() == 0 {
        return None;
    }
    let mut value: u32 = 0;
    let mut i: usize = 0;
    while i < v.len()
        invariant
            i <= v.len(),
            all_digits(v@.take(i as int)),
            value == number_of(v@.take(i as int)),
            value <= u16::MAX,
        decreases v.len() - i,
    {
        let c = v[i];
        if !('0' <= c && c <= '9') {
            assert(!is_digit(v@[i as int]));
            return None;
        }
        let ghost next = v@.take(i + 1);
        assert(next.drop_last() == v@.take(i as int));
        assert(next.last() == c);
        value = value * 10 + (c as u32 - '0' as u32);
        assert(value == number_of(next));
        assert(all_digits(next)) by {
            assert forall|j: int| 0 <= j < next.len() implies is_digit(#[trigger] next[j]) by {
                if j < i {
                    assert(v@.take(i as int)[j] == next[j]);
                }
            }
        }
        if value > 65535 {
            proof {
                lemma_number_of_prefix(v@, i + 1);
            }
            return None;
        }
        i += 1;
    }
    assert(v@.take(v@.len() as int) == v@);
    Some(value as u16)
}

/// The number in a captured group.
pub fn number_from_group(group: Option<String>) -> (r: Option<u16>)
    ensures
        r == group_number(opt_view(group)),
{
    match group {
        Some(d) => {
            let v = chars_of(d.as_str());
            parse_number(&v)
        },
        None => None,
    }
}

/// The identifier for a captured group; empty where the group holds no number.
pub fn identifier_from_group(group: Option<String>) -> (r: String)
    ensures
        r@ == group_identifier(opt_view(group)),
{
    match number_from_group(group) {
        Some(n) => format_number(n),
        None => String::new(),
    }
}

/// The number that the first group of `pattern` captures in `text`.
pub fn identifier_number(text: &str, pattern: &str) -> (r: Option<u16>)
    ensures
        r == group_number(first_group(pattern@, text@)),
{
    number_from_group(find_group(pattern, text))
}

/// The identifier for the number that the first group of `pattern` captures
/// in `text`; empty where it captures none.
pub fn identifier_in(text: &str, pattern: &str) -> (r: String)
    ensures
        r@ == group_identifier(first_group(pattern@, text@)),
{
    identifier_from_group(find_group(pattern, text))
}

} // verus!
