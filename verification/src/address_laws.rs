//! What is written into an address field reads back.
use vstd::prelude::*;

#[allow(unused_imports)]
use crate::address::{
    address_number, all_digits, digit_of, is_digit_of, is_space, number_of, parsed_address,
    parsed_range, space_end, space_start, trimmed, value_of,
};
#[allow(unused_imports)]
use crate::text::{decimal, digit_char, digits, fill, hex, hex2, hex4};

verus! {

/// A written digit reads back.
proof fn lemma_digit(d: int)
    requires
        0 <= d < 16,
    ensures
        digit_of(digit_char(d)) == Some(d),
{
}

/// A written number reads back.
proof fn lemma_digits(v: nat, radix: nat)
    requires
        2 <= radix <= 16,
    ensures
        digits(v, radix).len() > 0,
        all_digits(digits(v, radix), radix as int),
        value_of(digits(v, radix), radix as int) == v,
    decreases v,
{
    let s = digits(v, radix);
    if v < radix {
        lemma_digit(v as int);
        reveal_with_fuel(value_of, 2);
        assert(s =~= seq![digit_char(v as int)]);
        assert(s.drop_last() =~= Seq::<char>::empty());
        assert(value_of(Seq::<char>::empty(), radix as int) == 0);
        assert(0 * radix == 0) by (nonlinear_arith);
        assert(value_of(s, radix as int) == value_of(s.drop_last(), radix as int) * radix
            + digit_of(s.last())->0);
    } else {
        assert(v / radix < v) by (nonlinear_arith)
            requires
                radix >= 2,
                v >= radix,
        ;
        assert(v == (v / radix) * radix + v % radix && 0 <= v % radix < radix) by (nonlinear_arith)
            requires
                radix >= 2,
        ;
        lemma_digits(v / radix, radix);
        lemma_digit((v % radix) as int);
        let rest = digits(v / radix, radix);
        assert(s.drop_last() =~= rest);
        assert(s.last() == digit_char((v % radix) as int));
        assert forall|i: int| 0 <= i < s.len() implies is_digit_of(#[trigger] s[i], radix as int) by {
            if i < rest.len() {
                assert(is_digit_of(rest[i], radix as int));
            }
        }
    }
}

/// Zeroes in front change nothing.
proof fn lemma_zeroes(n: nat, s: Seq<char>, radix: int)
    requires
        2 <= radix,
        all_digits(s, radix),
    ensures
        all_digits(fill(n, '0') + s, radix),
        value_of(fill(n, '0') + s, radix) == value_of(s, radix),
    decreases s.len(), n,
{
    let t = fill(n, '0') + s;
    assert forall|i: int| 0 <= i < t.len() implies is_digit_of(#[trigger] t[i], radix) by {
        if i >= n {
            assert(is_digit_of(s[i - n], radix));
        }
    }
    if s.len() > 0 {
        let rest = s.drop_last();
        assert forall|i: int| 0 <= i < rest.len() implies is_digit_of(#[trigger] rest[i], radix) by {
            assert(is_digit_of(s[i], radix));
        }
        assert(t.drop_last() =~= fill(n, '0') + rest);
        lemma_zeroes(n, rest, radix);
    } else if n > 0 {
        let fewer = fill((n - 1) as nat, '0');
        assert(t.drop_last() =~= fewer + s);
        lemma_zeroes((n - 1) as nat, s, radix);
        assert(0 * radix == 0) by (nonlinear_arith);
    } else {
        assert(t =~= s);
    }
}

/// White space only.
pub open spec fn blank(s: Seq<char>) -> bool {
    forall|i: int| 0 <= i < s.len() ==> is_space(#[trigger] s[i])
}

proof fn lemma_space_end(s: Seq<char>, i: int, n: int)
    requires
        0 <= i <= n < s.len(),
        forall|k: int| i <= k < n ==> is_space(#[trigger] s[k]),
        !is_space(s[n]),
    ensures
        space_end(s, i) == n,
    decreases n - i,
{
    if i < n {
        lemma_space_end(s, i + 1, n);
    }
}

proof fn lemma_space_start(s: Seq<char>, low: int, i: int, n: int)
    requires
        0 <= low < n <= i <= s.len(),
        forall|k: int| n <= k < i ==> is_space(#[trigger] s[k]),
        !is_space(s[n - 1]),
    ensures
        space_start(s, low, i) == n,
    decreases i - n,
{
    if n < i {
        lemma_space_start(s, low, i - 1, n);
    }
}

/// White space around a text is trimmed, and nothing else.
pub proof fn blanks_around_a_text_are_trimmed(before: Seq<char>, t: Seq<char>, after: Seq<char>)
    requires
        blank(before),
        blank(after),
        t.len() > 0,
        !is_space(t[0]),
        !is_space(t[t.len() - 1]),
    ensures
        trimmed(before + t + after) == t,
{
    let s = before + t + after;
    let from = before.len() as int;
    let to = from + t.len();
    assert(s[from] == t[0]);
    assert(s[to - 1] == t[t.len() - 1]);
    assert forall|k: int| 0 <= k < from implies is_space(#[trigger] s[k]) by {
        assert(s[k] == before[k]);
    }
    assert forall|k: int| to <= k < s.len() implies is_space(#[trigger] s[k]) by {
        assert(s[k] == after[k - to]);
    }
    lemma_space_end(s, 0, from);
    lemma_space_start(s, from, s.len() as int, to);
    assert(s.subrange(from, to) =~= t);
}

/// The lower-case form of a hexadecimal digit.
pub open spec fn lowered(c: char) -> char {
    if 'A' <= c <= 'F' {
        (c as int + 32) as char
    } else {
        c
    }
}

/// `v` in lower-case hexadecimal.
pub open spec fn lower_hex(v: nat) -> Seq<char> {
    Seq::new(hex(v).len(), |i: int| lowered(hex(v)[i]))
}

/// Digits read the same in either case.
proof fn lemma_lowered(s: Seq<char>)
    requires
        all_digits(s, 16),
    ensures
        ({
            let t = Seq::new(s.len(), |i: int| lowered(s[i]));
            all_digits(t, 16) && value_of(t, 16) == value_of(s, 16)
        }),
    decreases s.len(),
{
    let t = Seq::new(s.len(), |i: int| lowered(s[i]));
    assert forall|i: int| 0 <= i < t.len() implies is_digit_of(#[trigger] t[i], 16) by {
        assert(is_digit_of(s[i], 16));
    }
    if s.len() > 0 {
        let rest = s.drop_last();
        assert forall|i: int| 0 <= i < rest.len() implies is_digit_of(#[trigger] rest[i], 16) by {
            assert(is_digit_of(s[i], 16));
        }
        lemma_lowered(rest);
        assert(t.drop_last() =~= Seq::new(rest.len(), |i: int| lowered(rest[i])));
        assert(is_digit_of(s[s.len() - 1], 16));
        assert(digit_of(t.last()) == digit_of(s.last()));
    }
}

/// Digits spell their value.
proof fn lemma_spelled(s: Seq<char>, radix: int)
    requires
        s.len() > 0,
        all_digits(s, radix),
    ensures
        s[0] != '+',
        number_of(s, radix) == if value_of(s, radix) <= u32::MAX {
            Some(value_of(s, radix))
        } else {
            None
        },
        !is_space(s[0]),
        !is_space(s[s.len() - 1]),
{
    assert(is_digit_of(s[0], radix));
    assert(is_digit_of(s[s.len() - 1], radix));
}

/// Whether a field means the number `n`: it reads as `n`, or is refused where
/// `n` is above `$FFFF`.
pub open spec fn means(s: Seq<char>, n: nat) -> bool {
    match parsed_address(s) {
        Ok(a) => a == n,
        Err(_) => n > 0xFFFF,
    }
}

/// A text that spells `n` as an address means `n`, with blanks around it too.
proof fn lemma_means(before: Seq<char>, t: Seq<char>, after: Seq<char>, n: nat)
    requires
        blank(before),
        blank(after),
        t.len() > 0,
        !is_space(t[0]),
        !is_space(t[t.len() - 1]),
        address_number(t) == if n <= u32::MAX {
            Some(n as int)
        } else {
            None
        },
    ensures
        means(before + t + after, n),
{
    blanks_around_a_text_are_trimmed(before, t, after);
}

/// Hexadecimal digits behind a sign mean their value.
proof fn lemma_hex_means(before: Seq<char>, h: Seq<char>, after: Seq<char>, n: nat)
    requires
        blank(before),
        blank(after),
        h.len() > 0,
        all_digits(h, 16),
        value_of(h, 16) == n,
    ensures
        means(before + ("$"@ + h) + after, n),
        means(before + ("0x"@ + h) + after, n),
{
    reveal_strlit("$");
    reveal_strlit("0x");
    lemma_spelled(h, 16);
    let a = "$"@ + h;
    let b = "0x"@ + h;
    assert(a.skip(1) =~= h);
    assert(b.skip(2) =~= h);
    assert(a[a.len() - 1] == h[h.len() - 1]);
    assert(b[b.len() - 1] == h[h.len() - 1]);
    assert(b[0] == '0' && b[1] == 'x');
    lemma_means(before, a, after, n);
    lemma_means(before, b, after, n);
}

/// Every way to write a number reads back as that number, with or without white
/// space around it: `$` with at least four upper-case digits, `$` or `0x` with
/// upper-case or lower-case digits, and decimal. A number above `$FFFF` is
/// refused in each of them.
pub proof fn every_spelling_reads_back(n: nat, before: Seq<char>, after: Seq<char>)
    requires
        blank(before),
        blank(after),
    ensures
        means(before + ("$"@ + hex4(n)) + after, n),
        means(before + ("$"@ + hex(n)) + after, n),
        means(before + ("$"@ + lower_hex(n)) + after, n),
        means(before + ("0x"@ + hex(n)) + after, n),
        means(before + ("0x"@ + lower_hex(n)) + after, n),
        means(before + decimal(n) + after, n),
{
    let plain = hex(n);
    lemma_digits(n, 16);
    if plain.len() < 4 {
        lemma_zeroes((4 - plain.len()) as nat, plain, 16);
    }
    lemma_lowered(plain);
    lemma_hex_means(before, hex4(n), after, n);
    lemma_hex_means(before, plain, after, n);
    lemma_hex_means(before, lower_hex(n), after, n);
    let t = decimal(n);
    lemma_digits(n, 10);
    lemma_spelled(t, 10);
    assert(is_digit_of(t[0], 10));
    if t.len() >= 2 {
        assert(is_digit_of(t[1], 10));
    }
    lemma_means(before, t, after, n);
}

/// An address written as `$XXXX` reads back.
pub proof fn written_addresses_read_back(a: u16)
    ensures
        parsed_address("$"@ + hex4(a as nat)) == Ok::<u16, Seq<char>>(a),
{
    let none = Seq::<char>::empty();
    every_spelling_reads_back(a as nat, none, none);
    assert(none + ("$"@ + hex4(a as nat)) + none =~= "$"@ + hex4(a as nat));
}

/// A byte written as `$XX` reads back.
pub proof fn written_bytes_read_back(b: u8)
    ensures
        parsed_address("$"@ + hex2(b as nat)) == Ok::<u16, Seq<char>>(b as u16),
{
    let none = Seq::<char>::empty();
    let plain = hex(b as nat);
    lemma_digits(b as nat, 16);
    if plain.len() < 2 {
        lemma_zeroes((2 - plain.len()) as nat, plain, 16);
    }
    lemma_hex_means(none, hex2(b as nat), none, b as nat);
    assert(none + ("$"@ + hex2(b as nat)) + none =~= "$"@ + hex2(b as nat));
}

/// A byte count written in decimal reads back.
pub proof fn written_counts_read_back(n: u16)
    ensures
        parsed_address(decimal(n as nat)) == Ok::<u16, Seq<char>>(n),
{
    let none = Seq::<char>::empty();
    every_spelling_reads_back(n as nat, none, none);
    assert(none + decimal(n as nat) + none =~= decimal(n as nat));
}

/// The two fields that show a range, first and last byte, read back as that
/// range.
pub proof fn written_ranges_read_back(start: u16, end: u32)
    requires
        start < end <= 0x1_0000,
    ensures
        parsed_range("$"@ + hex4(start as nat), "$"@ + hex4((end - 1) as nat)) == Ok::<
            (u16, u32),
            Seq<char>,
        >((start, end)),
{
    written_addresses_read_back(start);
    written_addresses_read_back((end - 1) as u16);
}

/// An accepted range is not empty and ends inside the address space.
pub proof fn accepted_ranges_are_not_empty(start: Seq<char>, end: Seq<char>)
    ensures
        parsed_range(start, end) matches Ok((lo, hi)) ==> lo < hi <= 0x1_0000,
{
}

/// A bare number with a letter in it is read as hexadecimal, and `0X` is as
/// good as `0x`.
pub proof fn bare_letters_make_a_number_hexadecimal(
    n: nat,
    before: Seq<char>,
    after: Seq<char>,
)
    requires
        blank(before),
        blank(after),
    ensures
        !all_digits(hex(n), 10) ==> means(before + hex(n) + after, n),
        means(before + ("0X"@ + hex(n)) + after, n),
{
    let t = hex(n);
    lemma_digits(n, 16);
    lemma_spelled(t, 16);
    if !all_digits(t, 10) {
        assert(is_digit_of(t[0], 16));
        if t.len() >= 2 {
            assert(is_digit_of(t[1], 16));
        }
        lemma_means(before, t, after, n);
    }
    reveal_strlit("0X");
    let x = "0X"@ + t;
    assert(x.skip(2) =~= t);
    lemma_means(before, x, after, n);
}

/// A text in which some character is neither a digit nor a plus sign, behind
/// the two that may be a prefix, is no address; neither is one that holds nothing but blanks.
pub proof fn other_texts_are_no_address(t: Seq<char>, i: int)
    ensures
        blank(t) ==> parsed_address(t) == Err::<u16, Seq<char>>("empty address"@),
        2 <= i < t.len() && digit_of(t[i]) is None && t[i] != '+' && !is_space(t[0]) && !is_space(
            t[t.len() - 1],
        ) ==> parsed_address(t) == Err::<u16, Seq<char>>("invalid address: "@ + t),
{
    if blank(t) {
        lemma_all_space(t, 0);
        assert(trimmed(t).len() == 0);
    }
    if 2 <= i < t.len() && digit_of(t[i]) is None && t[i] != '+' && !is_space(t[0]) && !is_space(
        t[t.len() - 1],
    ) {
        blanks_around_a_text_are_trimmed(Seq::empty(), t, Seq::empty());
        assert(Seq::<char>::empty() + t + Seq::<char>::empty() =~= t);
        assert(!is_digit_of(t[i], 16) && !is_digit_of(t[i], 10));
        lemma_no_number(t, i, 16);
        lemma_no_number(t, i, 10);
        lemma_no_number(t.skip(1), i - 1, 16);
        lemma_no_number(t.skip(2), i - 2, 16);
    }
}

proof fn lemma_all_space(s: Seq<char>, i: int)
    requires
        0 <= i <= s.len(),
        blank(s),
    ensures
        space_end(s, i) == s.len(),
    decreases s.len() - i,
{
    if i < s.len() {
        assert(is_space(s[i]));
        lemma_all_space(s, i + 1);
    }
}

proof fn lemma_no_number(s: Seq<char>, i: int, radix: int)
    requires
        0 <= i < s.len(),
        i > 0 || s[0] != '+',
        !is_digit_of(s[i], radix),
    ensures
        number_of(s, radix) is None,
{
    assert(!all_digits(s, radix));
    if s[0] == '+' {
        assert(s.skip(1)[i - 1] == s[i]);
        assert(!all_digits(s.skip(1), radix));
    }
}

/// A range is read exactly if both of its ends are and the last address is not
/// below the first; it then goes from the one to behind the other.
pub proof fn ranges_hold_both_of_their_ends(start: Seq<char>, end: Seq<char>)
    ensures
        parsed_range(start, end) matches Ok((lo, hi)) ==> {
            &&& parsed_address(start) == Ok::<u16, Seq<char>>(lo)
            &&& parsed_address(end) == Ok::<u16, Seq<char>>((hi - 1) as u16)
        },
        parsed_range(start, end) is Ok <==> (parsed_address(start) matches Ok(lo) && (
        parsed_address(end) matches Ok(last) && lo <= last)),
{
}

/// Blanks are spaces, tabs and line ends; no printable character is one.
pub proof fn printable_characters_are_no_blanks(c: char)
    ensures
        c == ' ' || c == '\t' || c == '\n' || c == '\r' ==> is_space(c),
        0x21 <= c as int <= 0x7E ==> !is_space(c),
{
}

} // verus!
