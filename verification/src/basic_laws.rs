//! What BASIC lines are recognized by.
use vstd::prelude::*;

#[allow(unused_imports)]
use crate::basic::{
    basic_shape, first_at, is_digit, is_filler, number, skip_digits, skip_filler, sys_start,
};
#[allow(unused_imports)]
use crate::text::{decimal, digit_char};

verus! {

/// A number as it stands in a BASIC line.
pub open spec fn written(n: nat) -> Seq<u8> {
    Seq::new(decimal(n).len(), |i: int| decimal(n)[i] as u8)
}

/// Whether a stretch of bytes holds no such byte.
pub open spec fn lacks(s: Seq<u8>, b: u8) -> bool {
    forall|i: int| 0 <= i < s.len() ==> #[trigger] s[i] != b
}

/// Whether a stretch of bytes holds nothing but spaces, shifted spaces and
/// opening brackets.
pub open spec fn only_spaces(s: Seq<u8>) -> bool {
    forall|i: int|
        0 <= i < s.len() ==> #[trigger] s[i] == 0x20 || s[i] == 0xA0 || s[i] == 0x28
}

/// A first line: its four bytes of link and line number, its text, and the
/// byte that ends it.
pub open spec fn first_line(head: Seq<u8>, text: Seq<u8>) -> Seq<u8> {
    head + text + seq![0x00u8]
}

proof fn lemma_written(n: nat)
    ensures
        number(written(n)) == n,
        written(n).len() > 0,
        forall|i: int| 0 <= i < written(n).len() ==> 0x30 <= #[trigger] written(n)[i] <= 0x39,
    decreases n,
{
    if n < 10 {
        assert(decimal(n) == seq![digit_char(n as int)]);
        assert(written(n).drop_last() =~= Seq::empty());
        assert(number(written(n).drop_last()) == 0);
        assert(written(n).last() == 48 + n);
    } else {
        let m = n / 10;
        lemma_written(m);
        assert(decimal(n) == decimal(m).push(digit_char((n % 10) as int)));
        assert(written(n).drop_last() =~= written(m));
        assert(written(n).last() == 48 + n % 10);
        assert forall|i: int| 0 <= i < written(n).len() implies 0x30 <= #[trigger] written(n)[i]
            <= 0x39 by {
            if i < written(m).len() {
                assert(written(n)[i] == written(m)[i]);
            }
        }
    }
}

proof fn lemma_first(s: Seq<u8>, from: int, k: int, b: u8)
    requires
        0 <= from <= k < s.len(),
        s[k] == b,
        forall|i: int| from <= i < k ==> #[trigger] s[i] != b,
    ensures
        first_at(s, from, b) == Some(k),
    decreases k - from,
{
    if from < k {
        lemma_first(s, from + 1, k, b);
    }
}

proof fn lemma_absent(s: Seq<u8>, from: int, b: u8)
    requires
        0 <= from,
        forall|i: int| from <= i < s.len() ==> #[trigger] s[i] != b,
    ensures
        first_at(s, from, b) is None,
    decreases s.len() - from,
{
    if from < s.len() {
        lemma_absent(s, from + 1, b);
    }
}

proof fn lemma_filler(s: Seq<u8>, from: int, k: int)
    requires
        0 <= from <= k <= s.len(),
        forall|i: int| from <= i < k ==> is_filler(#[trigger] s[i]),
        k < s.len() ==> !is_filler(s[k]),
    ensures
        skip_filler(s, from) == k,
    decreases k - from,
{
    if from < k {
        assert(is_filler(s[from]));
        lemma_filler(s, from + 1, k);
    }
}

proof fn lemma_digit_run(s: Seq<u8>, from: int, k: int)
    requires
        0 <= from <= k <= s.len(),
        forall|i: int| from <= i < k ==> is_digit(#[trigger] s[i]),
        k < s.len() ==> !is_digit(s[k]),
    ensures
        skip_digits(s, from) == k,
    decreases k - from,
{
    if from < k {
        assert(is_digit(s[from]));
        lemma_digit_run(s, from + 1, k);
    }
}

proof fn lemma_line(head: Seq<u8>, text: Seq<u8>, rest: Seq<u8>)
    requires
        head.len() == 4,
        lacks(text, 0x00),
    ensures
        first_at(first_line(head, text) + rest, 4, 0x00) == Some(4int + text.len()),
        (first_line(head, text) + rest).subrange(4, 4int + text.len()) == text,
        (first_line(head, text) + rest).len() == 5 + text.len() + rest.len(),
{
    let data = first_line(head, text) + rest;
    assert forall|i: int| 4 <= i < 4int + text.len() implies #[trigger] data[i] != 0x00 by {
        assert(data[i] == text[i - 4]);
    }
    assert(data[4int + text.len()] == 0x00);
    lemma_first(data, 4, 4int + text.len(), 0x00);
    assert(data.subrange(4, 4int + text.len()) =~= text);
}

/// A `SYS` stub is read for what it says: the number behind the first `SYS` of
/// the first line, behind any spaces and opening brackets, is the start, as
/// long as it is an address other than zero. What stands before and behind it
/// in the line, the line number and whatever follows do not matter.
pub proof fn written_stubs_read_back(
    head: Seq<u8>,
    before: Seq<u8>,
    spaces: Seq<u8>,
    n: nat,
    behind: Seq<u8>,
    rest: Seq<u8>,
)
    requires
        head.len() == 4,
        lacks(before, 0x00),
        lacks(before, 0x9E),
        only_spaces(spaces),
        lacks(behind, 0x00),
        behind.len() > 0 ==> !(0x30 <= behind[0] <= 0x39),
    ensures
        sys_start(
            0x0801,
            first_line(head, before + seq![0x9Eu8] + spaces + written(n) + behind) + rest,
        ) == if 0 < n <= 0xFFFF {
            Some(n as u16)
        } else {
            None
        },
{
    let text = before + seq![0x9Eu8] + spaces + written(n) + behind;
    lemma_written(n);
    let sys = before.len() as int;
    let from = sys + 1 + spaces.len();
    let to = from + written(n).len();
    assert forall|i: int| 0 <= i < text.len() implies #[trigger] text[i] != 0x00 by {
        if i < sys {
            assert(text[i] == before[i]);
        } else if i == sys {
        } else if i < from {
            assert(text[i] == spaces[i - sys - 1]);
        } else if i < to {
            assert(text[i] == written(n)[i - from]);
        } else {
            assert(text[i] == behind[i - to]);
        }
    }
    lemma_line(head, text, rest);
    assert forall|i: int| 0 <= i < sys implies #[trigger] text[i] != 0x9E by {
        assert(text[i] == before[i]);
    }
    assert(text[sys] == 0x9E);
    lemma_first(text, 0, sys, 0x9E);
    assert forall|i: int| sys + 1 <= i < from implies is_filler(#[trigger] text[i]) by {
        assert(text[i] == spaces[i - sys - 1]);
    }
    assert(text[from] == written(n)[0]);
    lemma_filler(text, sys + 1, from);
    assert forall|i: int| from <= i < to implies is_digit(#[trigger] text[i]) by {
        assert(text[i] == written(n)[i - from]);
    }
    if behind.len() > 0 {
        assert(text[to] == behind[0]);
    }
    lemma_digit_run(text, from, to);
    assert(text.subrange(from, to) =~= written(n));
}

/// A first line without `SYS`, or data without a whole first line, is no stub;
/// neither is anything that loads elsewhere.
pub proof fn lines_without_sys_are_no_stub(head: Seq<u8>, text: Seq<u8>, rest: Seq<u8>)
    requires
        head.len() == 4,
        lacks(text, 0x00),
        lacks(text, 0x9E),
    ensures
        sys_start(0x0801, first_line(head, text) + rest) is None,
        sys_start(0x0801, head + text) is None,
        forall|load: u16, data: Seq<u8>|
            load != 0x0801 ==> (#[trigger] sys_start(load, data)) is None,
{
    lemma_line(head, text, rest);
    lemma_absent(text, 0, 0x9E);
    let cut = head + text;
    assert forall|i: int| 4 <= i < cut.len() implies #[trigger] cut[i] != 0x00 by {
        assert(cut[i] == text[i - 4]);
    }
    lemma_absent(cut, 4, 0x00);
}

/// A first line looks like BASIC exactly if its link points behind the byte
/// that ends it, and something stands there.
pub proof fn lines_look_like_basic_if_their_link_fits(
    head: Seq<u8>,
    text: Seq<u8>,
    rest: Seq<u8>,
)
    requires
        head.len() == 4,
        lacks(text, 0x00),
    ensures
        basic_shape(0x0801, first_line(head, text) + rest) <==> {
            &&& head[0] + 256 * head[1] == 0x0801 + 5 + text.len()
            &&& rest.len() > 0
        },
        !basic_shape(0x0801, head + text),
        forall|load: u16, data: Seq<u8>|
            load != 0x0801 ==> !#[trigger] basic_shape(load, data),
{
    lemma_line(head, text, rest);
    let data = first_line(head, text) + rest;
    assert(data[0] == head[0] && data[1] == head[1]);
    let cut = head + text;
    assert forall|i: int| 4 <= i < cut.len() implies #[trigger] cut[i] != 0x00 by {
        assert(cut[i] == text[i - 4]);
    }
    lemma_absent(cut, 4, 0x00);
}

/// `SYS` with anything but a number behind it, spaces and opening brackets
/// aside, is no stub.
pub proof fn sys_without_a_number_is_no_stub(
    head: Seq<u8>,
    before: Seq<u8>,
    spaces: Seq<u8>,
    behind: Seq<u8>,
    rest: Seq<u8>,
)
    requires
        head.len() == 4,
        lacks(before, 0x00),
        lacks(before, 0x9E),
        only_spaces(spaces),
        lacks(behind, 0x00),
        behind.len() > 0 ==> !(0x30 <= behind[0] <= 0x39) && behind[0] != 0x20 && behind[0] != 0xA0
            && behind[0] != 0x28,
    ensures
        sys_start(0x0801, first_line(head, before + seq![0x9Eu8] + spaces + behind) + rest) is None,
{
    let text = before + seq![0x9Eu8] + spaces + behind;
    let sys = before.len() as int;
    let from = sys + 1 + spaces.len();
    assert forall|i: int| 0 <= i < text.len() implies #[trigger] text[i] != 0x00 by {
        if i < sys {
            assert(text[i] == before[i]);
        } else if i == sys {
        } else if i < from {
            assert(text[i] == spaces[i - sys - 1]);
        } else {
            assert(text[i] == behind[i - from]);
        }
    }
    lemma_line(head, text, rest);
    assert forall|i: int| 0 <= i < sys implies #[trigger] text[i] != 0x9E by {
        assert(text[i] == before[i]);
    }
    assert(text[sys] == 0x9E);
    lemma_first(text, 0, sys, 0x9E);
    assert forall|i: int| sys + 1 <= i < from implies is_filler(#[trigger] text[i]) by {
        assert(text[i] == spaces[i - sys - 1]);
    }
    if behind.len() > 0 {
        assert(text[from] == behind[0]);
    }
    lemma_filler(text, sys + 1, from);
    lemma_digit_run(text, from, from);
    assert(text.subrange(from, from) =~= Seq::empty());
}

} // verus!
