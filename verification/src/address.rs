//! Addresses as the user types them.
use vstd::prelude::*;

use crate::text::push_hex;
#[allow(unused_imports)]
use crate::text::hex;

verus! {

/// White space as Unicode defines it.
pub open spec fn is_space(c: char) -> bool {
    ||| 0x09 <= c as int <= 0x0D
    ||| c as int == 0x20
    ||| c as int == 0x85
    ||| c as int == 0xA0
    ||| c as int == 0x1680
    ||| 0x2000 <= c as int <= 0x200A
    ||| c as int == 0x2028
    ||| c as int == 0x2029
    ||| c as int == 0x202F
    ||| c as int == 0x205F
    ||| c as int == 0x3000
}

/// Whether `c` is white space.
fn space(c: char) -> (r: bool)
    ensures
        r == is_space(c),
{
    let v = c as u32;
    (v >= 0x09 && v <= 0x0D) || v == 0x20 || v == 0x85 || v == 0xA0 || v == 0x1680 || (v >= 0x2000
        && v <= 0x200A) || v == 0x2028 || v == 0x2029 || v == 0x202F || v == 0x205F || v == 0x3000
}

/// The first index from `i` on that holds no white space.
pub open spec fn space_end(s: Seq<char>, i: int) -> int
    decreases s.len() - i,
{
    if i < s.len() && is_space(s[i]) {
        space_end(s, i + 1)
    } else {
        i
    }
}

/// The end of what is left once trailing white space is dropped, but no further
/// down than `low`.
pub open spec fn space_start(s: Seq<char>, low: int, i: int) -> int
    decreases i - low,
{
    if low < i && is_space(s[i - 1]) {
        space_start(s, low, i - 1)
    } else {
        i
    }
}

/// The text without leading and trailing white space.
pub open spec fn trimmed(s: Seq<char>) -> Seq<char> {
    let from = space_end(s, 0);
    s.subrange(from, space_start(s, from, s.len() as int))
}

/// The value of a digit in either case, up to 15.
pub open spec fn digit_of(c: char) -> Option<int> {
    let v = c as int;
    if 0x30 <= v <= 0x39 {
        Some(v - 0x30)
    } else if 0x41 <= v <= 0x46 {
        Some(v - 0x41 + 10)
    } else if 0x61 <= v <= 0x66 {
        Some(v - 0x61 + 10)
    } else {
        None
    }
}

/// Whether `c` is a digit of the radix.
pub open spec fn is_digit_of(c: char, radix: int) -> bool {
    digit_of(c) matches Some(d) && d < radix
}

/// Whether every character is a digit of the radix.
pub open spec fn all_digits(s: Seq<char>, radix: int) -> bool {
    forall|i: int| 0 <= i < s.len() ==> is_digit_of(#[trigger] s[i], radix)
}

/// The value of the digits.
pub open spec fn value_of(s: Seq<char>, radix: int) -> int
    decreases s.len(),
{
    if s.len() == 0 {
        0
    } else {
        value_of(s.drop_last(), radix) * radix + digit_of(s.last())->0
    }
}

/// The number that a text spells in the radix: at least one digit, a plus sign
/// in front if any, and no more than 32 bits.
pub open spec fn number_of(s: Seq<char>, radix: int) -> Option<int> {
    let digits = if s.len() > 0 && s[0] == '+' {
        s.skip(1)
    } else {
        s
    };
    if digits.len() > 0 && all_digits(digits, radix) && value_of(digits, radix) <= u32::MAX {
        Some(value_of(digits, radix))
    } else {
        None
    }
}

/// The number that an address spells: hexadecimal behind `$` or `0x`, decimal
/// if it has decimal digits only, and hexadecimal otherwise.
pub open spec fn address_number(t: Seq<char>) -> Option<int> {
    if t.len() >= 1 && t[0] == '$' {
        number_of(t.skip(1), 16)
    } else if t.len() >= 2 && t[0] == '0' && (t[1] == 'x' || t[1] == 'X') {
        number_of(t.skip(2), 16)
    } else if all_digits(t, 10) {
        number_of(t, 10)
    } else {
        number_of(t, 16)
    }
}

/// What a user-entered address means, or why it means nothing.
pub open spec fn parsed_address(s: Seq<char>) -> Result<u16, Seq<char>> {
    let t = trimmed(s);
    if t.len() == 0 {
        Err("empty address"@)
    } else {
        match address_number(t) {
            None => Err("invalid address: "@ + t),
            Some(v) => if v > 0xFFFF {
                Err("address $"@ + hex(v as nat) + " is above $FFFF"@)
            } else {
                Ok(v as u16)
            },
        }
    }
}

proof fn lemma_trim_range(s: Seq<char>, from: int, i: int)
    requires
        0 <= from <= i <= s.len(),
    ensures
        from <= space_start(s, from, i) <= i,
    decreases i - from,
{
    if from < i && is_space(s[i - 1]) {
        lemma_trim_range(s, from, i - 1);
    }
}

/// Digits only make a number larger.
proof fn lemma_value_grows(s: Seq<char>, t: Seq<char>, radix: int)
    requires
        2 <= radix,
        s.len() <= t.len(),
        t.take(s.len() as int) == s,
        all_digits(t, radix),
    ensures
        0 <= value_of(s, radix) <= value_of(t, radix),
    decreases t.len(),
{
    if s.len() == t.len() {
        assert(t.take(s.len() as int) =~= t);
        lemma_value_positive(t, radix);
    } else {
        let rest = t.drop_last();
        assert(rest.take(s.len() as int) =~= s);
        assert forall|k: int| 0 <= k < rest.len() implies is_digit_of(#[trigger] rest[k], radix) by {
            assert(is_digit_of(t[k], radix));
        }
        assert(is_digit_of(t[t.len() - 1], radix));
        lemma_value_grows(s, rest, radix);
        let v = value_of(rest, radix);
        assert(v <= v * radix) by (nonlinear_arith)
            requires
                0 <= v,
                2 <= radix,
        ;
    }
}

proof fn lemma_value_positive(t: Seq<char>, radix: int)
    requires
        2 <= radix,
        all_digits(t, radix),
    ensures
        0 <= value_of(t, radix),
    decreases t.len(),
{
    if t.len() > 0 {
        let rest = t.drop_last();
        assert forall|k: int| 0 <= k < rest.len() implies is_digit_of(#[trigger] rest[k], radix) by {
            assert(is_digit_of(t[k], radix));
        }
        assert(is_digit_of(t[t.len() - 1], radix));
        lemma_value_positive(rest, radix);
        let v = value_of(rest, radix);
        assert(0 <= v * radix) by (nonlinear_arith)
            requires
                0 <= v,
                2 <= radix,
        ;
    }
}

/// The value of a digit.
fn digit(c: char) -> (r: Option<u32>)
    ensures
        match (r, digit_of(c)) {
            (Some(a), Some(b)) => a == b && a <= 15,
            (None, None) => true,
            _ => false,
        },
{
    let v = c as u32;
    if v >= 0x30 && v <= 0x39 {
        Some(v - 0x30)
    } else if v >= 0x41 && v <= 0x46 {
        Some(v - 0x41 + 10)
    } else if v >= 0x61 && v <= 0x66 {
        Some(v - 0x61 + 10)
    } else {
        None
    }
}

/// Reads the number that a text spells in the radix.
fn read_number(t: &str, radix: u32) -> (r: Option<u32>)
    requires
        radix == 10 || radix == 16,
    ensures
        match (r, number_of(t@, radix as int)) {
            (Some(a), Some(b)) => a == b,
            (None, None) => true,
            _ => false,
        },
{
    let n = t.unicode_len();
    let mut i: usize = if n > 0 && t.get_char(0) == '+' {
        1
    } else {
        0
    };
    let ghost first = i as int;
    let ghost digits = t@.skip(first);
    assert(i == 0 ==> digits =~= t@);
    assert(number_of(t@, radix as int) == if digits.len() > 0 && all_digits(digits, radix as int)
        && value_of(digits, radix as int) <= u32::MAX {
        Some(value_of(digits, radix as int))
    } else {
        None
    });
    if i == n {
        return None;
    }
    let mut v: u32 = 0;
    assert(digits.take(0) =~= Seq::<char>::empty());
    while i < n
        invariant
            first <= i <= n,
            n == t@.len(),
            0 <= first,
            digits == t@.skip(first),
            digits.len() > 0,
            radix == 10 || radix == 16,
            v == value_of(digits.take(i - first), radix as int),
            forall|k: int| 0 <= k < i - first ==> is_digit_of(#[trigger] digits[k], radix as int),
            number_of(t@, radix as int) == if all_digits(digits, radix as int) && value_of(
                digits,
                radix as int,
            ) <= u32::MAX {
                Some(value_of(digits, radix as int))
            } else {
                None
            },
        decreases n - i,
    {
        let ghost k = i - first;
        let ghost sofar = digits.take(k);
        let ghost longer = digits.take(k + 1);
        proof {
            assert(longer.drop_last() =~= sofar);
            assert(longer.last() == digits[k]);
            assert(digits[k] == t@[i as int]);
        }
        let d = match digit(t.get_char(i)) {
            Some(d) => d,
            None => {
                assert(!is_digit_of(digits[k], radix as int));
                return None;
            },
        };
        if d >= radix {
            assert(!is_digit_of(digits[k], radix as int));
            return None;
        }
        let next: u64 = v as u64 * radix as u64 + d as u64;
        assert(next == value_of(longer, radix as int));
        if next > u32::MAX as u64 {
            proof {
                if all_digits(digits, radix as int) {
                    assert(digits.take(longer.len() as int) =~= longer);
                    lemma_value_grows(longer, digits, radix as int);
                }
            }
            return None;
        }
        v = next as u32;
        i += 1;
    }
    assert(digits.take(n - first) =~= digits);
    Some(v)
}

/// Whether every character is a decimal digit.
fn decimal_only(t: &str) -> (r: bool)
    ensures
        r == all_digits(t@, 10),
{
    let n = t.unicode_len();
    let mut i: usize = 0;
    while i < n
        invariant
            i <= n,
            n == t@.len(),
            forall|k: int| 0 <= k < i ==> is_digit_of(#[trigger] t@[k], 10),
        decreases n - i,
    {
        match digit(t.get_char(i)) {
            Some(d) => {
                if d >= 10 {
                    assert(!is_digit_of(t@[i as int], 10));
                    return false;
                }
            },
            None => {
                assert(!is_digit_of(t@[i as int], 10));
                return false;
            },
        }
        i += 1;
    }
    true
}

/// The text without leading and trailing white space.
pub fn trim(s: &str) -> (r: &str)
    ensures
        r@ == trimmed(s@),
{
    let n = s.unicode_len();
    let mut from: usize = 0;
    while from < n && space(s.get_char(from))
        invariant
            from <= n,
            n == s@.len(),
            space_end(s@, from as int) == space_end(s@, 0),
        decreases n - from,
    {
        from += 1;
    }
    let mut to: usize = n;
    while from < to && space(s.get_char(to - 1))
        invariant
            from <= to <= n,
            n == s@.len(),
            space_start(s@, from as int, to as int) == space_start(s@, from as int, n as int),
        decreases to - from,
    {
        to -= 1;
    }
    s.substring_char(from, to)
}

/// Parses a user-entered address: `$1000`, `0x1000`, bare hex (`c000`) or
/// decimal.
pub fn parse_addr(s: &str) -> (r: Result<u16, String>)
    ensures
        crate::plan::says(r, parsed_address(s@)),
{
    let t = trim(s);
    let n = t.unicode_len();
    if n == 0 {
        return Err("empty address".to_owned());
    }
    let number = if t.get_char(0) == '$' {
        let rest = t.substring_char(1, n);
        assert(rest@ =~= t@.skip(1));
        read_number(rest, 16)
    } else if n >= 2 && t.get_char(0) == '0' && (t.get_char(1) == 'x' || t.get_char(1) == 'X') {
        let rest = t.substring_char(2, n);
        assert(rest@ =~= t@.skip(2));
        read_number(rest, 16)
    } else if decimal_only(t) {
        read_number(t, 10)
    } else {
        read_number(t, 16)
    };
    match number {
        None => {
            let mut e = "invalid address: ".to_owned();
            e.append(t);
            Err(e)
        },
        Some(v) => {
            if v > 0xFFFF {
                let mut e = "address $".to_owned();
                push_hex(&mut e, v as u64);
                e.append(" is above $FFFF");
                Err(e)
            } else {
                Ok(v as u16)
            }
        },
    }
}

/// What a start field and a last-byte field mean: the start, and one past the
/// end.
pub open spec fn parsed_range(start: Seq<char>, end: Seq<char>) -> Result<(u16, u32), Seq<char>> {
    match (parsed_address(start), parsed_address(end)) {
        (Err(e), _) => Err("start: "@ + e),
        (_, Err(e)) => Err("end: "@ + e),
        (Ok(lo), Ok(last)) => if last < lo {
            Err("end is before start"@)
        } else {
            Ok((lo, (last + 1) as u32))
        },
    }
}

/// Parses a region's start and inclusive-end address fields into
/// `(start, end_exclusive)`. The end field is the last byte, so the exclusive
/// end is one past it (up to `$10000`).
pub fn parse_region_range(start_s: &str, end_s: &str) -> (r: Result<(u16, u32), String>)
    ensures
        crate::plan::says(r, parsed_range(start_s@, end_s@)),
{
    let start = match parse_addr(start_s) {
        Ok(a) => a,
        Err(e) => {
            let mut m = "start: ".to_owned();
            m.append(e.as_str());
            return Err(m);
        },
    };
    let last = match parse_addr(end_s) {
        Ok(a) => a,
        Err(e) => {
            let mut m = "end: ".to_owned();
            m.append(e.as_str());
            return Err(m);
        },
    };
    if last < start {
        return Err("end is before start".to_owned());
    }
    Ok((start, last as u32 + 1))
}

} // verus!
