//! Recognizing BASIC programs.
//!
//! A tokenized BASIC line is a 2-byte link to the next line, a 2-byte line
//! number, the tokens and text of its body, and a `$00` terminator.
use vstd::prelude::*;

verus! {

/// Where BASIC programs load.
pub const BASIC_START: u16 = 0x0801;

/// The first index from `from` on that holds `b`.
pub open spec fn first_at(s: Seq<u8>, from: int, b: u8) -> Option<int>
    decreases s.len() - from,
{
    if from >= s.len() {
        None
    } else if s[from] == b {
        Some(from)
    } else {
        first_at(s, from + 1, b)
    }
}

/// The body of the first line, without its terminator.
pub open spec fn first_body(data: Seq<u8>) -> Option<Seq<u8>> {
    match first_at(data, 4, 0x00) {
        Some(end) => Some(data.subrange(4, end)),
        None => None,
    }
}

/// What may stand between `SYS` and its number: a space, a shifted space or an
/// opening bracket.
pub open spec fn is_filler(b: u8) -> bool {
    b == 0x20 || b == 0xA0 || b == 0x28
}

pub open spec fn is_digit(b: u8) -> bool {
    0x30 <= b <= 0x39
}

/// The first index from `i` on that holds no filler.
pub open spec fn skip_filler(s: Seq<u8>, i: int) -> int
    decreases s.len() - i,
{
    if i < s.len() && is_filler(s[i]) {
        skip_filler(s, i + 1)
    } else {
        i
    }
}

/// The first index from `i` on that holds no digit.
pub open spec fn skip_digits(s: Seq<u8>, i: int) -> int
    decreases s.len() - i,
{
    if i < s.len() && is_digit(s[i]) {
        skip_digits(s, i + 1)
    } else {
        i
    }
}

/// The number that a run of digits spells.
pub open spec fn number(s: Seq<u8>) -> int
    decreases s.len(),
{
    if s.len() == 0 {
        0
    } else {
        number(s.drop_last()) * 10 + (s.last() - 0x30)
    }
}

/// The number after the first `SYS` token (`$9E`) of a line body, if there is
/// one between 1 and `$FFFF`.
pub open spec fn sys_number(body: Seq<u8>) -> Option<u16> {
    match first_at(body, 0, 0x9E) {
        None => None,
        Some(sys) => {
            let from = skip_filler(body, sys + 1);
            let to = skip_digits(body, from);
            let v = number(body.subrange(from, to));
            if 0 < v <= 0xFFFF {
                Some(v as u16)
            } else {
                None
            }
        },
    }
}

/// The `SYS` target on the first line of a program at `$0801`.
pub open spec fn sys_start(load: u16, data: Seq<u8>) -> Option<u16> {
    if load != BASIC_START || data.len() < 5 {
        None
    } else {
        match first_body(data) {
            Some(body) => sys_number(body),
            None => None,
        }
    }
}

proof fn lemma_skip_filler(s: Seq<u8>, i: int)
    requires
        0 <= i <= s.len(),
    ensures
        i <= skip_filler(s, i) <= s.len(),
    decreases s.len() - i,
{
    if i < s.len() && is_filler(s[i]) {
        lemma_skip_filler(s, i + 1);
    }
}

proof fn lemma_skip_digits(s: Seq<u8>, i: int)
    requires
        0 <= i <= s.len(),
    ensures
        i <= skip_digits(s, i) <= s.len(),
        forall|k: int| i <= k < skip_digits(s, i) ==> is_digit(#[trigger] s[k]),
    decreases s.len() - i,
{
    if i < s.len() && is_digit(s[i]) {
        lemma_skip_digits(s, i + 1);
    }
}

/// A number only grows as digits are appended.
proof fn lemma_number_grows(s: Seq<u8>, t: Seq<u8>)
    requires
        s.len() <= t.len(),
        t.take(s.len() as int) == s,
        forall|k: int| 0 <= k < t.len() ==> is_digit(#[trigger] t[k]),
    ensures
        0 <= number(s) <= number(t),
    decreases t.len(),
{
    if s.len() == t.len() {
        assert(t.take(s.len() as int) =~= t);
        if t.len() > 0 {
            let rest = t.drop_last();
            assert forall|k: int| 0 <= k < rest.len() implies is_digit(#[trigger] rest[k]) by {
                assert(is_digit(t[k]));
            }
            assert(rest.take(rest.len() as int) =~= rest);
            assert(is_digit(t[t.len() - 1]));
            lemma_number_grows(rest, rest);
        }
    } else {
        let rest = t.drop_last();
        assert forall|k: int| 0 <= k < rest.len() implies is_digit(#[trigger] rest[k]) by {
            assert(is_digit(t[k]));
        }
        assert(rest.take(s.len() as int) =~= s);
        assert(is_digit(t[t.len() - 1]));
        lemma_number_grows(s, rest);
    }
}

/// The first index from `from` on that holds `b`.
fn find_byte(s: &[u8], from: usize, end: usize, b: u8) -> (r: Option<usize>)
    requires
        from <= end <= s@.len(),
    ensures
        match (r, first_at(s@.take(end as int), from as int, b)) {
            (Some(i), Some(j)) => i == j && from <= i < end,
            (None, None) => true,
            _ => false,
        },
{
    let ghost t = s@.take(end as int);
    let mut i = from;
    while i < end
        invariant
            from <= i <= end <= s@.len(),
            t == s@.take(end as int),
            first_at(t, from as int, b) == first_at(t, i as int, b),
        decreases end - i,
    {
        if s[i] == b {
            return Some(i);
        }
        i += 1;
    }
    None
}

/// Detects a BASIC `SYS<addr>` autostart stub on the first line of a program
/// loading at `$0801`, and returns the `SYS` target.
///
/// The body is bounded by the line terminator, so a match can only come from
/// the first line; within it the `SYS` token is searched for, so a leading
/// statement before the `SYS` call is tolerated.
pub fn detect_sys_start(load: u16, data: &[u8]) -> (r: Option<u16>)
    ensures
        r == sys_start(load, data@),
{
    if load != BASIC_START || data.len() < 5 {
        return None;
    }
    assert(data@.take(data@.len() as int) =~= data@);
    let end = match find_byte(data, 4, data.len(), 0x00) {
        Some(e) => e,
        None => return None,
    };
    let ghost body = data@.subrange(4, end as int);
    let ghost line = data@.take(end as int);
    proof {
        lemma_first_in_tail(data@, end as int, 4, 0x9E);
    }
    let sys = match find_byte(data, 4, end, 0x9E) {
        Some(i) => i,
        None => return None,
    };
    let mut i = sys + 1;
    let ghost from = skip_filler(body, sys - 4 + 1);
    while i < end && (data[i] == 0x20 || data[i] == 0xA0 || data[i] == 0x28)
        invariant
            4 < i <= end <= data@.len(),
            body == data@.subrange(4, end as int),
            skip_filler(body, i - 4) == from,
        decreases end - i,
    {
        i += 1;
    }
    let ghost to = skip_digits(body, from);
    proof {
        lemma_skip_filler(body, sys - 4 + 1);
        lemma_skip_digits(body, from);
        assert(body.subrange(from, from) =~= Seq::<u8>::empty());
    }
    let mut v: u32 = 0;
    while i < end && data[i] >= 0x30 && data[i] <= 0x39
        invariant
            4 < i <= end <= data@.len(),
            body == data@.subrange(4, end as int),
            0 <= from <= i - 4 <= to <= body.len(),
            to == skip_digits(body, from),
            skip_digits(body, i - 4) == to,
            forall|k: int| from <= k < to ==> is_digit(#[trigger] body[k]),
            v == number(body.subrange(from, i - 4)),
            v <= 0xFFFF,
            sys_number(body) == (if 0 < number(body.subrange(from, to)) <= 0xFFFF {
                Some(number(body.subrange(from, to)) as u16)
            } else {
                None
            }),
            load == BASIC_START,
            data@.len() >= 5,
            first_body(data@) == Some(body),
        decreases end - i,
    {
        let ghost before = body.subrange(from, i - 4);
        v = v * 10 + (data[i] - 0x30) as u32;
        i += 1;
        let ghost after = body.subrange(from, i - 4);
        proof {
            assert(after.drop_last() =~= before);
            lemma_skip_digits(body, i - 4);
        }
        if v > 0xFFFF {
            proof {
                let all = body.subrange(from, to);
                assert forall|k: int| 0 <= k < all.len() implies is_digit(#[trigger] all[k]) by {
                    assert(is_digit(body[from + k]));
                }
                assert(all.take(after.len() as int) =~= after);
                lemma_number_grows(after, all);
            }
            return None;
        }
    }
    if v > 0 {
        Some(v as u16)
    } else {
        None
    }
}

/// Searching the body is searching the line from where the body starts.
proof fn lemma_first_in_tail(data: Seq<u8>, end: int, i: int, b: u8)
    requires
        4 <= i <= end <= data.len(),
    ensures
        first_at(data.take(end), i, b) == match first_at(data.subrange(4, end), i - 4, b) {
            Some(k) => Some(k + 4),
            None => None,
        },
    decreases end - i,
{
    if i < end {
        assert(data.take(end)[i] == data.subrange(4, end)[i - 4]);
        lemma_first_in_tail(data, end, i + 1, b);
    }
}

/// Whether a program looks like BASIC: it loads at `$0801` and the first line's
/// forward link lands exactly behind that line's own `$00` terminator, with a
/// next line or the end marker there.
pub open spec fn basic_shape(load: u16, data: Seq<u8>) -> bool {
    let link = data[0] + 256 * data[1];
    let off = link - load;
    &&& load == BASIC_START
    &&& data.len() >= 5
    &&& off < data.len()
    &&& first_at(data, 4, 0x00) == Some(off - 1)
}

/// Heuristic: does the region at `load` look like a runnable BASIC program (as
/// opposed to a machine-code program launched by a `SYS` stub, which
/// [`detect_sys_start`] catches first)? True when it loads at `$0801` and the
/// first line's forward link leads to that line's `$00` terminator, a structure
/// that raw machine code almost never has by accident.
pub fn looks_like_basic(load: u16, data: &[u8]) -> (r: bool)
    ensures
        r == basic_shape(load, data@),
{
    if load != BASIC_START || data.len() < 5 {
        return false;
    }
    let link: u16 = data[0] as u16 + 256 * data[1] as u16;
    if link <= load {
        proof {
            lemma_first_at_range(data@, 4, 0x00);
        }
        return false;
    }
    let off = (link - load) as usize;
    assert(data@.take(data@.len() as int) =~= data@);
    match find_byte(data, 4, data.len(), 0x00) {
        Some(end) => off < data.len() && off - 1 == end,
        None => false,
    }
}

/// A `SYS` target that was found is never zero, and only found in a program
/// that loads at `$0801`.
pub proof fn sys_target_is_a_real_address(load: u16, data: Seq<u8>)
    ensures
        sys_start(load, data) matches Some(a) ==> a > 0 && load == BASIC_START,
{
}

/// Nothing behind the first line's terminator decides about the `SYS` target.
pub proof fn later_lines_do_not_matter(load: u16, data: Seq<u8>, other: Seq<u8>, end: int)
    requires
        5 <= data.len(),
        5 <= other.len(),
        first_at(data, 4, 0x00) == Some(end),
        end < other.len(),
        data.take(end + 1) == other.take(end + 1),
    ensures
        sys_start(load, data) == sys_start(load, other),
{
    lemma_first_at_prefix(data, other, 4, end);
    assert(data.subrange(4, end) =~= other.subrange(4, end)) by {
        assert forall|k: int| 4 <= k < end implies data[k] == other[k] by {
            assert(data.take(end + 1)[k] == data[k]);
            assert(other.take(end + 1)[k] == other[k]);
        }
    }
}

proof fn lemma_first_at_prefix(data: Seq<u8>, other: Seq<u8>, i: int, end: int)
    requires
        0 <= i,
        first_at(data, i, 0x00) == Some(end),
        end < other.len(),
        data.take(end + 1) == other.take(end + 1),
    ensures
        first_at(other, i, 0x00) == Some(end),
        i <= end < data.len(),
    decreases data.len() - i,
{
    lemma_first_at_range(data, i, 0x00);
    assert(data.take(end + 1)[i] == data[i]);
    assert(other.take(end + 1)[i] == other[i]);
    if data[i] != 0x00 {
        lemma_first_at_prefix(data, other, i + 1, end);
    }
}

proof fn lemma_first_at_range(s: Seq<u8>, i: int, b: u8)
    ensures
        first_at(s, i, b) matches Some(k) ==> i <= k < s.len(),
    decreases s.len() - i,
{
    if i < s.len() && s[i] != b {
        lemma_first_at_range(s, i + 1, b);
    }
}

} // verus!
