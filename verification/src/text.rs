//! Text building: the numbers and joined lists that appear in messages.
use vstd::prelude::*;

verus! {

/// The upper-case digit that stands for `d` (0 to 15).
pub open spec fn digit_char(d: int) -> char {
    if d < 10 {
        (48 + d) as char
    } else {
        (55 + d) as char
    }
}

/// `v` in base `base`, most significant digit first, without leading zeroes.
pub open spec fn digits(v: nat, base: nat) -> Seq<char>
    decreases v,
{
    if base < 2 || v < base {
        seq![digit_char(v as int)]
    } else {
        proof {
            assert(v / base < v) by (nonlinear_arith)
                requires
                    base >= 2,
                    v >= base,
            ;
        }
        digits(v / base, base).push(digit_char((v % base) as int))
    }
}

/// `v` in decimal.
pub open spec fn decimal(v: nat) -> Seq<char> {
    digits(v, 10)
}

/// `v` in upper-case hexadecimal.
pub open spec fn hex(v: nat) -> Seq<char> {
    digits(v, 16)
}

/// `n` copies of `c`.
pub open spec fn fill(n: nat, c: char) -> Seq<char> {
    Seq::new(n, |i: int| c)
}

/// `s` with copies of `c` in front, up to `width` characters.
pub open spec fn right_aligned(s: Seq<char>, width: nat, c: char) -> Seq<char> {
    if s.len() >= width {
        s
    } else {
        fill((width - s.len()) as nat, c) + s
    }
}

/// `s` with spaces behind it, up to `width` characters.
pub open spec fn left_aligned(s: Seq<char>, width: nat) -> Seq<char> {
    if s.len() >= width {
        s
    } else {
        s + fill((width - s.len()) as nat, ' ')
    }
}

/// `v` in upper-case hexadecimal, at least four digits.
pub open spec fn hex4(v: nat) -> Seq<char> {
    right_aligned(hex(v), 4, '0')
}

/// `v` in upper-case hexadecimal, at least two digits.
pub open spec fn hex2(v: nat) -> Seq<char> {
    right_aligned(hex(v), 2, '0')
}

/// What the strings hold.
pub open spec fn texts(v: Seq<String>) -> Seq<Seq<char>> {
    Seq::new(v.len(), |i: int| v[i]@)
}

/// The parts in order, with `sep` between neighbours.
pub open spec fn joined(parts: Seq<Seq<char>>, sep: Seq<char>) -> Seq<char>
    decreases parts.len(),
{
    if parts.len() == 0 {
        Seq::empty()
    } else if parts.len() == 1 {
        parts[0]
    } else {
        joined(parts.drop_last(), sep) + sep + parts.last()
    }
}

/// Appends the upper-case digit `d`.
fn push_digit(s: &mut String, d: u64)
    requires
        d < 16,
    ensures
        final(s)@ == old(s)@.push(digit_char(d as int)),
{
    let lit: &str = match d {
        0 => "0",
        1 => "1",
        2 => "2",
        3 => "3",
        4 => "4",
        5 => "5",
        6 => "6",
        7 => "7",
        8 => "8",
        9 => "9",
        10 => "A",
        11 => "B",
        12 => "C",
        13 => "D",
        14 => "E",
        _ => "F",
    };
    proof {
        reveal_strlit("0");
        reveal_strlit("1");
        reveal_strlit("2");
        reveal_strlit("3");
        reveal_strlit("4");
        reveal_strlit("5");
        reveal_strlit("6");
        reveal_strlit("7");
        reveal_strlit("8");
        reveal_strlit("9");
        reveal_strlit("A");
        reveal_strlit("B");
        reveal_strlit("C");
        reveal_strlit("D");
        reveal_strlit("E");
        reveal_strlit("F");
        assert(lit@ =~= seq![digit_char(d as int)]);
        assert(s@ + lit@ =~= s@.push(digit_char(d as int)));
    }
    s.append(lit);
}

/// Appends `v` in base `base`.
fn push_digits(s: &mut String, v: u64, base: u64)
    requires
        2 <= base <= 16,
    ensures
        final(s)@ == old(s)@ + digits(v as nat, base as nat),
    decreases v,
{
    if v < base {
        push_digit(s, v);
        assert(s@ =~= old(s)@ + digits(v as nat, base as nat));
    } else {
        assert(v / base < v) by (nonlinear_arith)
            requires
                base >= 2,
                v >= base,
        ;
        push_digits(s, v / base, base);
        push_digit(s, v % base);
        assert(s@ =~= old(s)@ + digits(v as nat, base as nat));
    }
}

/// Appends `v` in decimal.
pub fn push_decimal(s: &mut String, v: u64)
    ensures
        final(s)@ == old(s)@ + decimal(v as nat),
{
    push_digits(s, v, 10);
}

/// Appends `v` in upper-case hexadecimal.
pub fn push_hex(s: &mut String, v: u64)
    ensures
        final(s)@ == old(s)@ + hex(v as nat),
{
    push_digits(s, v, 16);
}

/// Appends `n` copies of a one-character string.
fn push_fill(s: &mut String, n: usize, lit: &str)
    requires
        lit@.len() == 1,
    ensures
        final(s)@ == old(s)@ + fill(n as nat, lit@[0]),
{
    let mut i: usize = 0;
    assert(s@ =~= old(s)@ + fill(0, lit@[0]));
    while i < n
        invariant
            i <= n,
            lit@.len() == 1,
            s@ == old(s)@ + fill(i as nat, lit@[0]),
        decreases n - i,
    {
        s.append(lit);
        i += 1;
        assert(s@ =~= old(s)@ + fill(i as nat, lit@[0]));
    }
}

/// Appends `t`, with copies of a one-character string in front up to `width`
/// characters.
fn push_right_aligned(s: &mut String, t: &str, width: usize, lit: &str)
    requires
        lit@.len() == 1,
    ensures
        final(s)@ == old(s)@ + right_aligned(t@, width as nat, lit@[0]),
{
    let n: usize = t.unicode_len();
    if n < width {
        push_fill(s, width - n, lit);
    }
    s.append(t);
    assert(s@ =~= old(s)@ + right_aligned(t@, width as nat, lit@[0]));
}

/// Appends `t`, right-aligned with spaces in `width` characters.
pub fn push_right(s: &mut String, t: &str, width: usize)
    ensures
        final(s)@ == old(s)@ + right_aligned(t@, width as nat, ' '),
{
    proof {
        reveal_strlit(" ");
    }
    push_right_aligned(s, t, width, " ");
}

/// Appends `t`, left-aligned with spaces in `width` characters.
pub fn push_left(s: &mut String, t: &str, width: usize)
    ensures
        final(s)@ == old(s)@ + left_aligned(t@, width as nat),
{
    proof {
        reveal_strlit(" ");
    }
    let n: usize = t.unicode_len();
    s.append(t);
    if n < width {
        push_fill(s, width - n, " ");
    }
    assert(s@ =~= old(s)@ + left_aligned(t@, width as nat));
}

/// Appends `v` in upper-case hexadecimal, at least four digits.
pub fn push_hex4(s: &mut String, v: u64)
    ensures
        final(s)@ == old(s)@ + hex4(v as nat),
{
    proof {
        reveal_strlit("0");
    }
    let mut t = String::new();
    push_hex(&mut t, v);
    assert(t@ =~= hex(v as nat));
    push_right_aligned(s, t.as_str(), 4, "0");
}

/// Appends `v` in upper-case hexadecimal, at least two digits.
pub fn push_hex2(s: &mut String, v: u64)
    ensures
        final(s)@ == old(s)@ + hex2(v as nat),
{
    proof {
        reveal_strlit("0");
    }
    let mut t = String::new();
    push_hex(&mut t, v);
    assert(t@ =~= hex(v as nat));
    push_right_aligned(s, t.as_str(), 2, "0");
}

/// The parts in order, with `sep` between neighbours.
pub fn join(parts: &Vec<String>, sep: &str) -> (r: String)
    ensures
        r@ == joined(texts(parts@), sep@),
{
    let mut r = String::new();
    let mut i: usize = 0;
    assert(texts(parts@).take(0) =~= Seq::empty());
    while i < parts.len()
        invariant
            i <= parts.len(),
            r@ == joined(texts(parts@).take(i as int), sep@),
        decreases parts.len() - i,
    {
        let ghost so_far = texts(parts@).take(i as int);
        let ghost longer = texts(parts@).take(i + 1);
        assert(longer.drop_last() =~= so_far);
        if i > 0 {
            r.append(sep);
        }
        r.append(parts[i].as_str());
        assert(r@ =~= joined(longer, sep@));
        i += 1;
    }
    assert(texts(parts@).take(parts@.len() as int) =~= texts(parts@));
    r
}

/// A text that is set to the right or the left of a column is as wide as the
/// column, or as the text where that is wider; the text stands whole at its
/// side, and the rest is filled.
pub proof fn columns_hold_their_text(s: Seq<char>, width: nat, c: char)
    ensures
        ({
            let r = right_aligned(s, width, c);
            let l = left_aligned(s, width);
            &&& r.len() == if s.len() > width {
                s.len()
            } else {
                width
            }
            &&& l.len() == r.len()
            &&& r.skip(r.len() - s.len()) == s
            &&& l.take(s.len() as int) == s
            &&& forall|i: int| 0 <= i < r.len() - s.len() ==> #[trigger] r[i] == c
            &&& forall|i: int| s.len() <= i < l.len() ==> #[trigger] l[i] == ' '
        }),
{
    let r = right_aligned(s, width, c);
    let l = left_aligned(s, width);
    assert(r.skip(r.len() - s.len()) =~= s);
    assert(l.take(s.len() as int) =~= s);
}

/// Joining puts the separator between the parts and nowhere else.
pub proof fn joined_parts_are_separated(parts: Seq<Seq<char>>, part: Seq<char>, sep: Seq<char>)
    ensures
        joined(Seq::empty(), sep) == Seq::<char>::empty(),
        joined(seq![part], sep) == part,
        parts.len() > 0 ==> joined(parts.push(part), sep) == joined(parts, sep) + sep + part,
{
    assert(parts.push(part).drop_last() =~= parts);
}

/// An address is written with four digits and a byte with two.
pub proof fn addresses_are_written_with_four_digits(a: u16, b: u8)
    ensures
        hex4(a as nat).len() == 4,
        hex2(b as nat).len() == 2,
{
    reveal_with_fuel(digits, 5);
    let v = a as nat;
    assert(v / 16 / 16 / 16 < 16);
    assert(hex(v).len() <= 4);
    assert((b as nat) / 16 < 16);
    assert(hex(b as nat).len() <= 2);
}

/// Digits are written in capitals: `0` to `9` and `A` to `F`.
pub proof fn digits_are_written_in_capitals(v: nat, base: nat, i: int)
    requires
        2 <= base <= 16,
        0 <= i < digits(v, base).len(),
    ensures
        '0' <= digits(v, base)[i] <= '9' || 'A' <= digits(v, base)[i] <= 'F',
    decreases v,
{
    if v >= base {
        assert(v / base < v) by (nonlinear_arith)
            requires
                base >= 2,
                v >= base,
        ;
        let front = digits(v / base, base);
        if i < front.len() {
            digits_are_written_in_capitals(v / base, base, i);
            assert(digits(v, base)[i] == front[i]);
        } else {
            assert(v % base < base) by (nonlinear_arith)
                requires
                    base >= 2,
            ;
        }
    }
}

} // verus!
