//! Measured speeds for the cruncher list.
//!
//! Each format was measured on one fixed 14 KB payload: wall clock packing
//! time, and the 6502 cycles the whole generated program takes to unpack.
//! Unpacking is measured four times per format, for forward and backward
//! layout, each with the balanced decoder and with the fastest decoder that
//! priority speed selects. A backward decoder is a different routine with its
//! own cost, so it never borrows the forward number.
//!
//! All decode speeds share one reference, so a forward speed and a backward
//! speed are directly comparable.
use vstd::prelude::*;

use crate::formats::{cruncher_list, Direction, Format};
#[allow(unused_imports)]
use crate::formats::{crunchers, entries, every_format_is_listed_once};

verus! {

/// What was measured of a format. Lower is faster. A fast column equals its
/// standard sibling when the format has no faster decoder in that direction.
#[derive(Clone, Copy, PartialEq, Eq, Structural, Debug)]
pub struct Bench {
    /// Packing time in tenths of a millisecond.
    pub packing: u32,
    /// Cycles to unpack, forward.
    pub forward: u32,
    pub forward_fast: u32,
    /// Cycles to unpack, backward.
    pub backward: u32,
    pub backward_fast: u32,
}

/// The measurements of every format.
pub open spec fn bench(f: Format) -> Bench {
    match f {
        Format::LzanFull => Bench {
            packing: 9103,
            forward: 1_285_006,
            forward_fast: 653_218,
            backward: 2_168_212,
            backward_fast: 2_168_212,
        },
        Format::LzanMin => Bench {
            packing: 1070,
            forward: 582_416,
            forward_fast: 494_006,
            backward: 1_094_913,
            backward_fast: 1_094_913,
        },
        Format::Exomizer => Bench {
            packing: 5401,
            forward: 812_322,
            forward_fast: 812_322,
            backward: 797_476,
            backward_fast: 797_476,
        },
        Format::Subsizer => Bench {
            packing: 2751,
            forward: 1_179_343,
            forward_fast: 1_179_343,
            backward: 744_057,
            backward_fast: 744_057,
        },
        Format::Shrinkler => Bench {
            packing: 2203,
            forward: 25_467_199,
            forward_fast: 25_467_199,
            backward: 26_851_420,
            backward_fast: 26_851_420,
        },
        Format::Zx02 => Bench {
            packing: 2971,
            forward: 924_794,
            forward_fast: 924_794,
            backward: 1_085_095,
            backward_fast: 1_085_095,
        },
        Format::Zx0 => Bench {
            packing: 1044,
            forward: 589_390,
            forward_fast: 589_390,
            backward: 1_052_567,
            backward_fast: 1_052_567,
        },
        Format::Lzsa2 => Bench {
            packing: 762,
            forward: 792_226,
            forward_fast: 792_226,
            backward: 784_592,
            backward_fast: 784_592,
        },
        Format::Lzsa1 => Bench {
            packing: 796,
            forward: 767_146,
            forward_fast: 399_883,
            backward: 751_226,
            backward_fast: 751_226,
        },
        Format::Aplib => Bench {
            packing: 2592,
            forward: 739_369,
            forward_fast: 739_369,
            backward: 1_096_621,
            backward_fast: 1_096_621,
        },
        Format::TsCrunch => Bench {
            packing: 141,
            forward: 368_724,
            forward_fast: 327_836,
            backward: 405_543,
            backward_fast: 405_543,
        },
        Format::ByteBoozer2 => Bench {
            packing: 38,
            forward: 575_914,
            forward_fast: 575_914,
            backward: 1_003_083,
            backward_fast: 1_003_083,
        },
        Format::PuCrunch => Bench {
            packing: 1632,
            forward: 1_708_180,
            forward_fast: 1_665_311,
            backward: 1_861_707,
            backward_fast: 1_861_707,
        },
        Format::Upkr => Bench {
            packing: 7178,
            forward: 10_492_914,
            forward_fast: 10_492_914,
            backward: 10_486_594,
            backward_fast: 10_486_594,
        },
        Format::Bolt => Bench {
            packing: 32,
            forward: 356_042,
            forward_fast: 315_192,
            backward: 299_825,
            backward_fast: 276_410,
        },
    }
}

/// One line of the table.
fn measured(
    packing: u32,
    forward: u32,
    forward_fast: u32,
    backward: u32,
    backward_fast: u32,
) -> (r: Bench)
    ensures
        r == (Bench { packing, forward, forward_fast, backward, backward_fast }),
{
    Bench { packing, forward, forward_fast, backward, backward_fast }
}

/// The measurements of a format.
pub fn lookup(f: Format) -> (r: Bench)
    ensures
        r == bench(f),
{
    match f {
        Format::LzanFull => measured(9103, 1_285_006, 653_218, 2_168_212, 2_168_212),
        Format::LzanMin => measured(1070, 582_416, 494_006, 1_094_913, 1_094_913),
        Format::Exomizer => measured(5401, 812_322, 812_322, 797_476, 797_476),
        Format::Subsizer => measured(2751, 1_179_343, 1_179_343, 744_057, 744_057),
        Format::Shrinkler => measured(2203, 25_467_199, 25_467_199, 26_851_420, 26_851_420),
        Format::Zx02 => measured(2971, 924_794, 924_794, 1_085_095, 1_085_095),
        Format::Zx0 => measured(1044, 589_390, 589_390, 1_052_567, 1_052_567),
        Format::Lzsa2 => measured(762, 792_226, 792_226, 784_592, 784_592),
        Format::Lzsa1 => measured(796, 767_146, 399_883, 751_226, 751_226),
        Format::Aplib => measured(2592, 739_369, 739_369, 1_096_621, 1_096_621),
        Format::TsCrunch => measured(141, 368_724, 327_836, 405_543, 405_543),
        Format::ByteBoozer2 => measured(38, 575_914, 575_914, 1_003_083, 1_003_083),
        Format::PuCrunch => measured(1632, 1_708_180, 1_665_311, 1_861_707, 1_861_707),
        Format::Upkr => measured(7178, 10_492_914, 10_492_914, 10_486_594, 10_486_594),
        Format::Bolt => measured(32, 356_042, 315_192, 299_825, 276_410),
    }
}

/// The cycles of the decoder that will actually run.
pub open spec fn cycles(f: Format, priority_speed: bool, direction: Direction) -> u32 {
    match (direction, priority_speed) {
        (Direction::Forward, false) => bench(f).forward,
        (Direction::Forward, true) => bench(f).forward_fast,
        (Direction::Backward, false) => bench(f).backward,
        (Direction::Backward, true) => bench(f).backward_fast,
    }
}

/// The cycles of the decoder that will actually run: the column for
/// `direction`, fast when `priority_speed` is set.
pub fn decode_cycles(f: Format, priority_speed: bool, direction: Direction) -> (r: u32)
    ensures
        r == cycles(f, priority_speed, direction),
{
    let b = lookup(f);
    match (direction, priority_speed) {
        (Direction::Forward, false) => b.forward,
        (Direction::Forward, true) => b.forward_fast,
        (Direction::Backward, false) => b.backward,
        (Direction::Backward, true) => b.backward_fast,
    }
}

/// Whether the two are the least and the greatest decode cycles of all formats,
/// directions and modes.
pub open spec fn are_decode_bounds(lo: u32, hi: u32) -> bool {
    &&& forall|f: Format, fast: bool, d: Direction| lo <= #[trigger] cycles(f, fast, d) <= hi
    &&& exists|f: Format, fast: bool, d: Direction| #[trigger] cycles(f, fast, d) == lo
    &&& exists|f: Format, fast: bool, d: Direction| #[trigger] cycles(f, fast, d) == hi
}

/// Whether the two are the least and the greatest packing times.
pub open spec fn are_pack_bounds(lo: u32, hi: u32) -> bool {
    &&& forall|f: Format| lo <= (#[trigger] bench(f)).packing <= hi
    &&& exists|f: Format| (#[trigger] bench(f)).packing == lo
    &&& exists|f: Format| (#[trigger] bench(f)).packing == hi
}

/// The cycles of the listed formats so far lie between the bounds.
spec fn decode_seen(n: int, lo: u32, hi: u32) -> bool {
    forall|i: int, fast: bool, d: Direction|
        0 <= i < n ==> lo <= #[trigger] cycles(crunchers()[i].0, fast, d) <= hi
}

/// Both bounds were measured.
spec fn decode_met(lo: u32, hi: u32) -> bool {
    &&& exists|f: Format, fast: bool, d: Direction| #[trigger] cycles(f, fast, d) == lo
    &&& exists|f: Format, fast: bool, d: Direction| #[trigger] cycles(f, fast, d) == hi
}

/// Widens the bounds by one measurement.
fn widen(bounds: (u32, u32), v: u32) -> (r: (u32, u32))
    ensures
        r.0 <= bounds.0,
        r.1 >= bounds.1,
        r.0 <= v <= r.1,
        r.0 == bounds.0 || r.0 == v,
        r.1 == bounds.1 || r.1 == v,
{
    let lo = if v < bounds.0 {
        v
    } else {
        bounds.0
    };
    let hi = if v > bounds.1 {
        v
    } else {
        bounds.1
    };
    (lo, hi)
}

/// The least and the greatest decode cycles: the single reference shared by
/// both directions and both modes.
pub fn decode_bounds() -> (r: (u32, u32))
    ensures
        are_decode_bounds(r.0, r.1),
{
    let list = cruncher_list();
    let first = decode_cycles(Format::LzanFull, false, Direction::Forward);
    let mut b: (u32, u32) = (first, first);
    let mut i: usize = 0;
    assert(cycles(Format::LzanFull, false, Direction::Forward) == first);
    while i < list.len()
        invariant
            i <= list.len(),
            entries(list@) == crunchers(),
            decode_seen(i as int, b.0, b.1),
            decode_met(b.0, b.1),
        decreases list.len() - i,
    {
        let f = list[i].format;
        let ghost before = b;
        assert(entries(list@)[i as int].0 == f);
        let b0 = widen(b, decode_cycles(f, false, Direction::Forward));
        let b1 = widen(b0, decode_cycles(f, true, Direction::Forward));
        let b2 = widen(b1, decode_cycles(f, false, Direction::Backward));
        b = widen(b2, decode_cycles(f, true, Direction::Backward));
        proof {
            assert forall|k: int, fast: bool, d: Direction| 0 <= k < i + 1 implies b.0
                <= #[trigger] cycles(crunchers()[k].0, fast, d) <= b.1 by {
                if k == i {
                    match (d, fast) {
                        (Direction::Forward, false) => {},
                        (Direction::Forward, true) => {},
                        (Direction::Backward, false) => {},
                        (Direction::Backward, true) => {},
                    }
                } else {
                    assert(before.0 <= cycles(crunchers()[k].0, fast, d) <= before.1);
                }
            }
        }
        i += 1;
    }
    proof {
        assert(entries(list@).len() == list@.len());
        assert forall|f: Format, fast: bool, d: Direction| b.0 <= #[trigger] cycles(f, fast, d)
            <= b.1 by {
            every_format_is_listed_once(f);
            let k = choose|k: int| 0 <= k < crunchers().len() && (#[trigger] crunchers()[k]).0 == f;
            assert(b.0 <= cycles(crunchers()[k].0, fast, d) <= b.1);
        }
    }
    b
}

/// The least and the greatest packing times.
pub fn pack_bounds() -> (r: (u32, u32))
    ensures
        are_pack_bounds(r.0, r.1),
{
    let list = cruncher_list();
    let first = lookup(Format::LzanFull).packing;
    let mut b: (u32, u32) = (first, first);
    let mut i: usize = 0;
    assert(bench(Format::LzanFull).packing == first);
    while i < list.len()
        invariant
            i <= list.len(),
            entries(list@) == crunchers(),
            forall|k: int|
                0 <= k < i ==> b.0 <= bench((#[trigger] crunchers()[k]).0).packing <= b.1,
            exists|f: Format| (#[trigger] bench(f)).packing == b.0,
            exists|f: Format| (#[trigger] bench(f)).packing == b.1,
        decreases list.len() - i,
    {
        let f = list[i].format;
        assert(entries(list@)[i as int].0 == f);
        let ghost seen = bench(f);
        b = widen(b, lookup(f).packing);
        i += 1;
    }
    proof {
        assert(entries(list@).len() == list@.len());
        assert forall|f: Format| b.0 <= (#[trigger] bench(f)).packing <= b.1 by {
            every_format_is_listed_once(f);
            let k = choose|k: int| 0 <= k < crunchers().len() && (#[trigger] crunchers()[k]).0 == f;
            assert(b.0 <= bench(crunchers()[k].0).packing <= b.1);
        }
    }
    b
}

/// The fastest decoder is never slower than the balanced one, in either
/// direction.
pub proof fn priority_speed_never_slows_down(f: Format, d: Direction)
    ensures
        cycles(f, true, d) <= cycles(f, false, d),
{
}

/// Every format was measured, and took some time.
pub proof fn every_format_was_measured(f: Format, fast: bool, d: Direction)
    ensures
        cycles(f, fast, d) > 0,
        bench(f).packing > 0,
{
}

/// How the formats stand to each other in packing: BoltLZ takes the least time
/// and lzan-full the most.
pub proof fn formats_pack_in_this_order()
    ensures
        bench(Format::Bolt).packing < bench(Format::ByteBoozer2).packing < bench(
            Format::TsCrunch,
        ).packing < bench(Format::Lzsa2).packing < bench(Format::Lzsa1).packing < bench(
            Format::Zx0,
        ).packing < bench(Format::LzanMin).packing < bench(Format::PuCrunch).packing < bench(
            Format::Shrinkler,
        ).packing < bench(Format::Aplib).packing < bench(Format::Subsizer).packing < bench(
            Format::Zx02,
        ).packing < bench(Format::Exomizer).packing < bench(Format::Upkr).packing < bench(
            Format::LzanFull,
        ).packing,
{
}

/// How the formats stand to each other in unpacking forward: BoltLZ is the
/// fastest and Shrinkler the slowest.
pub proof fn formats_unpack_forward_in_this_order()
    ensures
        ({
            let c = |f: Format| cycles(f, false, Direction::Forward) as int;
            &&& c(Format::Bolt) < c(Format::TsCrunch) < c(Format::ByteBoozer2) < c(Format::LzanMin)
                < c(Format::Zx0) < c(Format::Aplib) < c(Format::Lzsa1) < c(Format::Lzsa2)
            &&& c(Format::Lzsa2) < c(Format::Exomizer) < c(Format::Zx02) < c(Format::Subsizer) < c(
                Format::LzanFull,
            ) < c(Format::PuCrunch) < c(Format::Upkr) < c(Format::Shrinkler)
        }),
{
}

/// How the formats stand to each other in unpacking backward.
pub proof fn formats_unpack_backward_in_this_order()
    ensures
        ({
            let c = |f: Format| cycles(f, false, Direction::Backward) as int;
            &&& c(Format::Bolt) < c(Format::TsCrunch) < c(Format::Subsizer) < c(Format::Lzsa1) < c(
                Format::Lzsa2,
            ) < c(Format::Exomizer) < c(Format::ByteBoozer2) < c(Format::Zx0)
            &&& c(Format::Zx0) < c(Format::Zx02) < c(Format::LzanMin) < c(Format::Aplib) < c(
                Format::PuCrunch,
            ) < c(Format::LzanFull) < c(Format::Upkr) < c(Format::Shrinkler)
        }),
{
}

/// Which formats have a faster routine: six of them forward, and BoltLZ
/// backward too. Elsewhere priority for speed changes nothing.
pub proof fn some_formats_have_a_faster_routine(f: Format)
    ensures
        cycles(f, true, Direction::Forward) < cycles(f, false, Direction::Forward) <==> f is LzanFull
            || f is LzanMin || f is Lzsa1 || f is TsCrunch || f is PuCrunch || f is Bolt,
        cycles(f, true, Direction::Backward) < cycles(f, false, Direction::Backward)
            <==> f is Bolt,
        !(f is Bolt) ==> cycles(f, true, Direction::Backward) == cycles(
            f,
            false,
            Direction::Backward,
        ),
{
}

/// Which formats unpack faster backward than forward.
pub proof fn some_formats_unpack_faster_backward(f: Format)
    ensures
        cycles(f, false, Direction::Backward) < cycles(f, false, Direction::Forward)
            <==> f is Exomizer || f is Subsizer || f is Lzsa2 || f is Lzsa1 || f is Upkr
            || f is Bolt,
{
}

/// A column of the benchmark, added up over the first `n` formats of the list.
pub open spec fn column_total(column: spec_fn(Bench) -> int, n: nat) -> int
    decreases n,
{
    if n == 0 {
        0
    } else {
        column_total(column, (n - 1) as nat) + column(bench(crunchers()[n - 1].0))
    }
}

/// What packing and unpacking with every format once takes: nearly four seconds
/// of packing, and 47 million cycles of unpacking forward.
pub proof fn the_columns_add_up()
    ensures
        column_total(|b: Bench| b.packing as int, 15) == 37714,
        column_total(|b: Bench| b.forward as int, 15) == 46640985,
        column_total(|b: Bench| b.forward_fast as int, 15) == 45428917,
        column_total(|b: Bench| b.backward as int, 15) == 50482931,
        column_total(|b: Bench| b.backward_fast as int, 15) == 50459516,
{
    reveal_with_fuel(column_total, 16);
}

} // verus!
