//! Where things may go, told by addresses alone.
use vstd::prelude::*;

#[allow(unused_imports)]
use crate::blocks::{
    all_cuttable, avoids, cuttable, free_stretch, lemma_without_all, lowest_room_is_lowest,
    room_at, within, without_all, zones, Block,
};
#[allow(unused_imports)]
use crate::formats::{Direction, FormatModel, RoutineSpec, ScratchSpec};
#[allow(unused_imports)]
use crate::placement::{code_size, epilogue_code, Placement};
#[allow(unused_imports)]
use crate::plan::{
    block, candidates, decoder_site, feasible, image_block, image_end, mover_site, packed_window,
    placed, placed_in, preview, ranges_meet, refusal, scratch_site, staged_routine, valid_span,
    wanted, worst_case, DecoderChoice,
};

verus! {

/// Whether a stretch of `len` bytes from `a` on shares no address with a block.
pub open spec fn misses(a: int, len: int, b: Block) -> bool {
    a + len <= b.start || b.end <= a
}

/// Whether a stretch of `len` bytes from `a` on lies between `$0334` and the top
/// of memory, and not across `$0400`.
pub open spec fn in_a_zone(a: int, len: int) -> bool {
    &&& 0x0334 <= a
    &&& a + len <= 0x1_0000
    &&& a + len <= 0x0400 || 0x0400 <= a
}

proof fn lemma_zone(lo: int, hi: int)
    requires
        lo < hi,
    ensures
        within(zones(), lo, hi) <==> in_a_zone(lo, hi - lo),
{
    if in_a_zone(lo, hi - lo) {
        if hi <= 0x0400 {
            assert(zones()[0].holds(lo, hi));
        } else {
            assert(zones()[1].holds(lo, hi));
        }
    }
}

proof fn lemma_room(cuts: Seq<Block>, used: Seq<Block>, len: int, page: bool, a: int)
    requires
        all_cuttable(cuts),
        forall|i: int| 0 <= i < used.len() ==> (#[trigger] used[i]).start <= used[i].end,
        len > 0,
    ensures
        room_at(without_all(zones(), cuts), used, len, page, a) <==> {
            &&& page ==> a % 256 == 0
            &&& in_a_zone(a, len)
            &&& avoids(cuts, a, a + len)
            &&& avoids(used, a, a + len)
        },
{
    let pool = without_all(zones(), cuts);
    assert(crate::blocks::pooled(zones()));
    lemma_without_all(zones(), cuts);
    lemma_zone(a, a + len);
    if room_at(pool, used, len, page, a) {
        let (lo, hi) = choose|lo: int, hi: int| #[trigger]
            free_stretch(pool, used, lo, hi) && lo <= a && a + len <= hi;
        lemma_zone(lo, hi);
        assert(within(pool, lo, hi));
        assert forall|i: int| 0 <= i < cuts.len() implies (#[trigger] cuts[i]).clear_of(
            a,
            a + len,
        ) by {
            assert(cuts[i].clear_of(lo, hi));
        }
        assert forall|i: int| 0 <= i < used.len() implies (#[trigger] used[i]).clear_of(
            a,
            a + len,
        ) by {
            assert(used[i].clear_of(lo, hi));
        }
        let i = choose|i: int| 0 <= i < zones().len() && (#[trigger] zones()[i]).holds(lo, hi);
        assert(zones()[i].holds(a, a + len));
    }
    if (page ==> a % 256 == 0) && in_a_zone(a, len) && avoids(cuts, a, a + len) && avoids(
        used,
        a,
        a + len,
    ) {
        assert(within(pool, a, a + len));
        assert(free_stretch(pool, used, a, a + len));
    }
}

/// Whether the decoder could go to `a`.
pub open spec fn decoder_fits(a: int, staged: int, span: Block, packed: Block, image: Block) -> bool {
    in_a_zone(a, staged) && misses(a, staged, span) && misses(a, staged, packed) && misses(
        a,
        staged,
        image,
    )
}

/// An automatic decoder that is too long for the stack page goes to the lowest
/// address at which it misses the output, the packed stream and the loaded
/// program; it is refused only if there is none.
pub proof fn automatic_decoders_go_as_low_as_they_can(
    p: Placement,
    staged: int,
    span: Block,
    packed: Block,
    image: Block,
)
    requires
        p.decruncher is None,
        staged > 0xE0,
        cuttable(span),
        cuttable(packed),
        cuttable(image),
    ensures
        match decoder_site(p, staged, span, packed, image) {
            Ok(a) => {
                &&& decoder_fits(a, staged, span, packed, image)
                &&& forall|b: int| #[trigger]
                    decoder_fits(b, staged, span, packed, image) ==> a <= b
            },
            Err(_) => forall|b: int| !#[trigger] decoder_fits(b, staged, span, packed, image),
        },
{
    let cuts = seq![span, packed, image];
    let pool = without_all(zones(), cuts);
    assert(crate::blocks::pooled(zones()));
    lemma_without_all(zones(), cuts);
    lowest_room_is_lowest(pool, Seq::empty(), staged, false);
    assert forall|b: int|
        room_at(pool, Seq::empty(), staged, false, b) <==> #[trigger] decoder_fits(
            b,
            staged,
            span,
            packed,
            image,
        ) by {
        lemma_room(cuts, Seq::empty(), staged, false, b);
        assert(cuts[0] == span && cuts[1] == packed && cuts[2] == image);
        if decoder_fits(b, staged, span, packed, image) {
            assert(avoids(cuts, b, b + staged));
        }
    }
    if decoder_site(p, staged, span, packed, image) is Ok {
        let a = decoder_site(p, staged, span, packed, image)->Ok_0;
        assert(decoder_fits(a, staged, span, packed, image));
    }
}

/// A decoder that fits the stack page goes to `$0100` and nowhere else.
pub proof fn small_decoders_go_to_the_stack_page(
    p: Placement,
    staged: int,
    span: Block,
    packed: Block,
    image: Block,
)
    requires
        p.decruncher is None,
        0 < staged <= 0xE0,
        span.start < span.end,
        packed.start < packed.end,
    ensures
        decoder_site(p, staged, span, packed, image) is Ok <==> misses(0x0100, staged, span)
            && misses(0x0100, staged, packed),
        decoder_site(p, staged, span, packed, image) matches Ok(a) ==> a == 0x0100,
{
}

/// A decoder address that was typed is taken exactly if the decoder misses the
/// output and the packed stream there and it is not in the zero page or the
/// stack; the one exception is `$0100` itself.
pub proof fn typed_decoder_addresses_are_taken_if_they_fit(
    p: Placement,
    a: u16,
    staged: int,
    span: Block,
    packed: Block,
    image: Block,
)
    requires
        p.decruncher == Some(a),
        0 < staged <= 0x1_1000,
        span.start < span.end,
        packed.start < packed.end,
    ensures
        decoder_site(p, staged, span, packed, image) is Ok <==> {
            &&& misses(a as int, staged, span)
            &&& misses(a as int, staged, packed)
            &&& a == 0x0100 || a >= 0x0200
        },
        decoder_site(p, staged, span, packed, image) matches Ok(at) ==> at == a,
{
}

/// Whether the buffer could go to `a`.
pub open spec fn buffer_fits(
    a: int,
    sc: ScratchSpec,
    span: Block,
    packed: Block,
    decoder: Block,
) -> bool {
    &&& sc.page_aligned ==> a % 256 == 0
    &&& in_a_zone(a, sc.len as int)
    &&& misses(a, sc.len as int, span)
    &&& misses(a, sc.len as int, packed)
    &&& misses(a, sc.len as int, decoder)
}

/// An automatic buffer goes to the lowest address at which it misses the
/// output, the packed stream and the decoder, at the start of a page if it must
/// be; it is refused only if there is none.
pub proof fn automatic_buffers_go_as_low_as_they_can(
    name: Seq<char>,
    p: Placement,
    sc: ScratchSpec,
    span: Block,
    packed: Block,
    decoder: Block,
)
    requires
        p.scratch is None,
        sc.len > 0,
        cuttable(span),
        cuttable(packed),
        decoder.start <= decoder.end,
    ensures
        match scratch_site(name, p, sc, span, packed, decoder) {
            Ok(a) => {
                &&& buffer_fits(a, sc, span, packed, decoder)
                &&& forall|b: int| #[trigger]
                    buffer_fits(b, sc, span, packed, decoder) ==> a <= b
            },
            Err(_) => forall|b: int| !#[trigger] buffer_fits(b, sc, span, packed, decoder),
        },
{
    let cuts = seq![span, packed];
    let used = seq![decoder];
    let pool = without_all(zones(), cuts);
    let len = sc.len as int;
    assert(crate::blocks::pooled(zones()));
    lemma_without_all(zones(), cuts);
    lowest_room_is_lowest(pool, used, len, sc.page_aligned);
    assert forall|b: int|
        room_at(pool, used, len, sc.page_aligned, b) <==> #[trigger] buffer_fits(
            b,
            sc,
            span,
            packed,
            decoder,
        ) by {
        lemma_room(cuts, used, len, sc.page_aligned, b);
        assert(cuts[0] == span && cuts[1] == packed && used[0] == decoder);
        if buffer_fits(b, sc, span, packed, decoder) {
            assert(avoids(cuts, b, b + len));
            assert(avoids(used, b, b + len));
        }
    }
    if scratch_site(name, p, sc, span, packed, decoder) is Ok {
        let a = scratch_site(name, p, sc, span, packed, decoder)->Ok_0;
        assert(buffer_fits(a, sc, span, packed, decoder));
    }
}

/// A buffer address that was typed is taken exactly if it starts a page where
/// it must, is not in the zero page, and the buffer misses the output, the
/// packed stream and the decoder there.
pub proof fn typed_buffer_addresses_are_taken_if_they_fit(
    name: Seq<char>,
    p: Placement,
    a: u16,
    sc: ScratchSpec,
    span: Block,
    packed: Block,
    decoder: Block,
)
    requires
        p.scratch == Some(a),
        sc.len > 0,
        span.start < span.end,
        packed.start < packed.end,
        decoder.start < decoder.end,
    ensures
        scratch_site(name, p, sc, span, packed, decoder) is Ok <==> {
            &&& sc.page_aligned ==> a % 256 == 0
            &&& a >= 0x0100
            &&& misses(a as int, sc.len as int, span)
            &&& misses(a as int, sc.len as int, packed)
            &&& misses(a as int, sc.len as int, decoder)
        },
        scratch_site(name, p, sc, span, packed, decoder) matches Ok(at) ==> at == a,
{
}

/// A mover address is taken exactly if its 64 bytes miss the packed stream and
/// everything that is already there.
pub proof fn mover_addresses_are_taken_if_they_fit(a: u16, packed: Block, used: Seq<Block>)
    requires
        packed.start < packed.end,
        forall|i: int| 0 <= i < used.len() ==> (#[trigger] used[i]).start < used[i].end,
    ensures
        mover_site(a, packed, used) is Ok <==> misses(a as int, 64, packed) && forall|i: int|
            0 <= i < used.len() ==> misses(a as int, 64, #[trigger] used[i]),
        mover_site(a, packed, used) matches Ok(at) ==> at == a,
{
    let b = block(a as int, a + 64);
    assert forall|i: int| 0 <= i < used.len() implies b.meets(#[trigger] used[i]) == !misses(
        a as int,
        64,
        used[i],
    ) by {
        assert(used[i].start < used[i].end);
    }
    if exists|i: int| 0 <= i < used.len() && b.meets(#[trigger] used[i]) {
        let i = choose|i: int| 0 <= i < used.len() && b.meets(#[trigger] used[i]);
        assert(!misses(a as int, 64, used[i]));
    }
}

/// A packed stream has a place exactly if it fits the layout: forward, above
/// the span start and up to the top of memory; backward, from the margin below
/// the span, which must stay above `$0200`, up to the span end; a TSCrunch
/// stream backward, above `$0200` and up to its shift above the span end.
pub proof fn streams_have_a_place_if_they_fit(
    span: (u32, u32),
    len: int,
    f: FormatModel,
    direction: Direction,
    p: Placement,
)
    requires
        valid_span(span),
        len >= 0,
    ensures
        ({
            let w = packed_window(span, len, f.format, direction, p, true);
            let shifted = f.format is TsCrunch && direction is Backward;
            &&& shifted ==> (w is Ok <==> span.1 + p.tsc_shift <= 0x1_0000 && span.1 + p.tsc_shift
                - len >= 0x0200)
            &&& !shifted && direction is Backward ==> (w is Ok <==> span.0 - p.margin > 0x0200
                && span.0 - p.margin + len <= span.1)
            &&& direction is Forward ==> (w is Ok <==> 0x1_0000 - len > span.0)
        }),
{
}

/// A direction is possible in principle: forward while 15 bytes are free above
/// the span, backward while the margin below the span stays above `$0200`.
pub proof fn directions_need_room_beside_the_span(span: (u32, u32), p: Placement)
    requires
        valid_span(span),
    ensures
        feasible(span, Direction::Forward, p) <==> span.1 + 15 <= 0x1_0000,
        feasible(span, Direction::Backward, p) <==> span.0 - p.margin > 0x0200,
{
}

/// A direction is offered exactly if it is possible, the format has a routine
/// for it, and everything can be placed for the longest stream that is
/// expected.
pub proof fn directions_are_offered_if_everything_has_a_place(
    span: (u32, u32),
    f: FormatModel,
    direction: Direction,
    p: Placement,
)
    requires
        valid_span(span),
    ensures
        ({
            let decoders = match direction {
                Direction::Forward => f.forward,
                Direction::Backward => f.backward,
            };
            let set = if p.allow_illegal {
                decoders.any
            } else {
                decoders.legal
            };
            let longest = worst_case(span.1 - span.0);
            refusal(span, f, direction, p) is None <==> {
                &&& direction is Forward ==> span.1 + 15 <= 0x1_0000
                &&& direction is Backward ==> span.0 - p.margin > 0x0200
                &&& set.balanced is Some
                &&& placed(span, longest, f, direction, p, false) is Ok
            }
        }),
{
}

/// What is tried: only the direction that was asked for, if one was; otherwise
/// forward first while the last byte is at or below `$FFF0` and backward first
/// above that, each only if it is offered.
pub proof fn directions_are_tried_as_asked(
    span: (u32, u32),
    f: FormatModel,
    p: Placement,
    d: Direction,
)
    requires
        valid_span(span),
    ensures
        candidates(span, f, p) matches Ok(plan) ==> {
            &&& plan.dirs.contains(d) ==> refusal(span, f, d, p) is None
            &&& p.direction is Forward ==> plan.dirs == seq![Direction::Forward]
            &&& p.direction is Backward ==> plan.dirs == seq![Direction::Backward]
            &&& p.direction is Auto && refusal(span, f, d, p) is None ==> plan.dirs.contains(d)
            &&& plan.dirs.len() == 2 ==> (plan.dirs[0] is Forward <==> span.1 - 1 <= 0xFFF0)
            &&& plan.dirs.len() == 2 ==> plan.dirs[0] != plan.dirs[1]
        },
        candidates(span, f, p) is Err ==> match p.direction {
            crate::placement::DirectionChoice::Forward => refusal(
                span,
                f,
                Direction::Forward,
                p,
            ) == Some(candidates(span, f, p)->Err_0),
            crate::placement::DirectionChoice::Backward => refusal(
                span,
                f,
                Direction::Backward,
                p,
            ) == Some(candidates(span, f, p)->Err_0),
            crate::placement::DirectionChoice::Auto => refusal(span, f, d, p) is Some,
        },
{
    let first = wanted(span, p.direction);
    if p.direction is Auto && candidates(span, f, p) is Ok {
        let plan = candidates(span, f, p)->Ok_0;
        let (a, b) = (
            crate::plan::accepted(span, f, first, p),
            crate::plan::accepted(span, f, first.opposite(), p),
        );
        assert(plan.dirs == a + b);
        if refusal(span, f, d, p) is None {
            if d == first {
                assert((a + b)[0] == d);
            } else {
                assert(b[0] == d);
                assert((a + b)[a.len() as int] == d);
            }
        }
    }
}

/// A preview shows the places of the first direction that is tried, for the
/// longest stream that is expected.
pub proof fn previews_show_the_first_places(span: (u32, u32), f: FormatModel, p: Placement)
    ensures
        candidates(span, f, p) matches Ok(plan) ==> {
            let v = preview(span, f, p);
            let at = placed(span, worst_case(span.1 - span.0), f, plan.dirs[0], p, false)->Ok_0;
            &&& placed(span, worst_case(span.1 - span.0), f, plan.dirs[0], p, false) is Ok
            &&& v.unavailable is None
            &&& v.direction == plan.dirs[0]
            &&& v.staged_size == at.staged
            &&& v.decruncher_at == Some(at.decr_at)
            &&& v.scratch == at.scratch
            &&& at.mover_at is Some ==> v.mover_at == at.mover_at->0
            &&& at.mover_at is None && p.mover is Some ==> v.mover_at == p.mover->0
            &&& at.mover_at is None && p.mover is None ==> v.mover_at == 0x02A7
        },
        candidates(span, f, p) matches Err(e) ==> {
            let v = preview(span, f, p);
            &&& v.unavailable == Some(e)
            &&& v.decruncher_at is None && v.scratch is None && v.staged_size == 0
            &&& v.direction is Forward <==> span.1 <= 0xFFF1
        },
{
    crate::plan::candidates_are_usable(span, f, p);
}

/// The routine that is staged: none exactly if the format has no usual one for
/// the direction; the stack-page one exactly if its code, 8 bytes of wrapper
/// and the code before the jump fit 224 bytes at an automatic address; else the
/// fastest one for speed, and the balanced one without.
pub proof fn the_stack_page_routine_is_staged_if_it_fits(
    f: FormatModel,
    direction: Direction,
    p: Placement,
)
    ensures
        ({
            let decoders = match direction {
                Direction::Forward => f.forward,
                Direction::Backward => f.backward,
            };
            let set = if p.allow_illegal {
                decoders.any
            } else {
                decoders.legal
            };
            let usual = if p.priority_speed {
                set.fastest
            } else {
                set.balanced
            };
            let small = p.decruncher is None && (set.stack_page matches Some(zp) && zp.code_bytes + 8
                + code_size(epilogue_code(p)) <= 224);
            &&& staged_routine(f, direction, p) is None <==> usual is None
            &&& staged_routine(f, direction, p) matches Some((r, c)) ==> {
                &&& small ==> set.stack_page == Some(r) && c is StackPage
                &&& !small ==> usual == Some(r) && (if p.priority_speed {
                    c is Fastest
                } else {
                    c is Balanced
                })
            }
        }),
{
    crate::placement::epilogue_size_matches_the_code(p);
}

/// The longest stream that is expected is the span, a sixteenth of it and 64
/// bytes, so never shorter than the span; a longer span never expects a shorter
/// one.
pub proof fn expected_streams_grow_with_the_span(n: int, m: int)
    requires
        0 <= n <= m,
    ensures
        n + 64 <= worst_case(n) <= worst_case(m),
        16 * (worst_case(n) - n - 64) <= n < 16 * (worst_case(n) - n - 64) + 16,
{
}

/// The loaded program starts at `$0801` and ends behind a stub, its code, the
/// staged decoder and the packed data: it grows with both byte for byte.
pub proof fn programs_grow_with_their_parts(staged: int, len: int, a: int, b: int)
    ensures
        image_end(staged + a, len + b) == image_end(staged, len) + a + b,
        image_end(staged, len) == 0x0801 + 620 + staged + len,
{
}

/// Two ranges meet exactly if an address lies in both.
pub proof fn ranges_meet_in_an_address(a0: int, a1: int, b0: int, b1: int)
    requires
        a0 < a1,
        b0 < b1,
    ensures
        ranges_meet(a0, a1, b0, b1) <==> exists|x: int| #[trigger]
            in_both(a0, a1, b0, b1, x),
{
    if ranges_meet(a0, a1, b0, b1) {
        let x = if a0 > b0 {
            a0
        } else {
            b0
        };
        assert(in_both(a0, a1, b0, b1, x));
    }
}

/// Whether an address lies in both ranges.
pub open spec fn in_both(a0: int, a1: int, b0: int, b1: int, x: int) -> bool {
    a0 <= x < a1 && b0 <= x < b1
}

/// The reasons against the directions: with no direction asked for, a plan
/// keeps the one against a direction that is left out, under its name, and a
/// plan that offers none gives both.
pub proof fn every_reason_is_given(span: (u32, u32), f: FormatModel, p: Placement)
    requires
        valid_span(span),
        p.direction is Auto,
    ensures
        ({
            let first = if span.1 - 1 <= 0xFFF0 {
                Direction::Forward
            } else {
                Direction::Backward
            };
            let second = first.opposite();
            let (a, b) = (refusal(span, f, first, p), refusal(span, f, second, p));
            match candidates(span, f, p) {
                Ok(plan) => {
                    &&& a is None && b is None ==> plan.skipped.len() == 0
                    &&& a is Some ==> plan.dirs == seq![second] && plan.skipped == seq![
                        first.name() + ": "@ + a->0,
                    ]
                    &&& b is Some ==> plan.dirs == seq![first] && plan.skipped == seq![
                        second.name() + ": "@ + b->0,
                    ]
                },
                Err(e) => {
                    &&& a is Some && b is Some
                    &&& e == first.name() + ": "@ + a->0 + "; "@ + second.name() + ": "@ + b->0
                },
            }
        }),
{
    reveal_with_fuel(crate::text::joined, 3);
    let first = wanted(span, p.direction);
    let second = first.opposite();
    let (a, b) = (refusal(span, f, first, p), refusal(span, f, second, p));
    if let Ok(plan) = candidates(span, f, p) {
        if a is Some {
            assert(plan.dirs =~= seq![second]);
            assert(plan.skipped =~= seq![first.name() + ": "@ + a->0]);
        }
        if b is Some {
            assert(plan.dirs =~= seq![first]);
            assert(plan.skipped =~= seq![second.name() + ": "@ + b->0]);
        }
    } else {
        let both = seq![first.name() + ": "@ + a->0, second.name() + ": "@ + b->0];
        assert(crate::plan::refused(span, f, first, p) + crate::plan::refused(span, f, second, p)
            =~= both);
        assert(both.drop_last() =~= seq![both[0]]);
        assert(crate::text::joined(both, "; "@) == both[0] + "; "@ + both[1]);
        assert(both[0] + "; "@ + both[1] =~= first.name() + ": "@ + a->0 + "; "@ + second.name()
            + ": "@ + b->0);
    }
}

/// A guess that fits is as good as the real length: the window is the same.
pub proof fn guesses_that_fit_have_the_real_window(
    span: (u32, u32),
    len: int,
    f: FormatModel,
    direction: Direction,
    p: Placement,
)
    requires
        valid_span(span),
        len >= 0,
        packed_window(span, len, f.format, direction, p, true) is Ok,
    ensures
        packed_window(span, len, f.format, direction, p, false) == packed_window(
            span,
            len,
            f.format,
            direction,
            p,
            true,
        ),
{
}

/// The loaded program is taken to lie from `$0801` to its expected end, or to
/// the top of memory where that is lower.
pub proof fn programs_load_at_0801(routine: RoutineSpec, p: Placement, len: int)
    requires
        0 <= len <= 0xFFFF_0000,
    ensures
        ({
            let b = image_block(routine, p, len);
            let end = 0x0801 + 620 + routine.code_bytes + (if routine.zp_stack {
                8int
            } else {
                16
            }) + code_size(epilogue_code(p)) + len;
            &&& b.start == 0x0801
            &&& b.end == if end < 0x1_0000 {
                end
            } else {
                0x1_0000
            }
        }),
{
    crate::placement::epilogue_size_matches_the_code(p);
}

/// Everything goes to its site: the decoder, the buffer and the mover of a
/// layout lie where each of them has its place beside the output, the packed
/// stream and what was placed before it.
pub proof fn everything_goes_to_its_site(
    span: (u32, u32),
    len: int,
    name: Seq<char>,
    routine: RoutineSpec,
    choice: DecoderChoice,
    p: Placement,
    w: (int, int),
)
    requires
        valid_span(span),
        0 <= len <= u32::MAX - 0x2_0000,
    ensures
        placed_in(span, len, name, routine, choice, p, w) matches Ok(at) ==> {
            let output = block(span.0 as int, span.1 as int);
            let packed = block(w.0, w.1);
            let image = image_block(routine, p, len);
            let decoder = decoder_site(p, at.staged as int, output, packed, image);
            &&& decoder is Ok && at.decr_at == decoder->Ok_0 as u16
            &&& routine.scratch matches Some(sc) ==> {
                let buffer = scratch_site(
                    name,
                    p,
                    sc,
                    output,
                    packed,
                    block(decoder->Ok_0, decoder->Ok_0 + at.staged),
                );
                &&& buffer is Ok
                &&& at.scratch == Some(((buffer->Ok_0 % 0x1_0000) as u16, sc.len))
            }
            &&& routine.scratch is None ==> at.scratch is None
            &&& at.choice == choice
        },
{
    lemma_staged_fits(routine, p, len, w);
}

proof fn lemma_staged_fits(routine: RoutineSpec, p: Placement, len: int, w: (int, int))
    ensures
        0 < crate::plan::staged_size(routine, p, len, w) <= 0x1_1000,
{
    crate::epilogue_laws::layouts_count_the_code_before_the_jump(p);
}

/// The places for the real stream are taken wherever there are any; those of
/// the plan only stand in for them.
pub proof fn real_places_are_preferred_to_planned_ones(
    span: (u32, u32),
    len: int,
    f: FormatModel,
    direction: Direction,
    p: Placement,
    exact: bool,
)
    requires
        staged_routine(f, direction, p) is Some,
        packed_window(span, len, f.format, direction, p, exact) is Ok,
    ensures
        ({
            let (routine, choice) = staged_routine(f, direction, p)->0;
            let w = packed_window(span, len, f.format, direction, p, exact)->Ok_0;
            placed_in(span, len, f.name, routine, choice, p, w) is Ok ==> placed(
                span,
                len,
                f,
                direction,
                p,
                exact,
            ) == placed_in(span, len, f.name, routine, choice, p, w)
        }),
{
}

/// A preview shows a buffer exactly if the routine that it stages needs one,
/// with the length that it needs.
pub proof fn previews_show_the_buffer_that_is_needed(span: (u32, u32), f: FormatModel, p: Placement)
    requires
        valid_span(span),
        candidates(span, f, p) is Ok,
        crate::plan_laws::sound_scratch(f, preview(span, f, p).direction, p),
    ensures
        ({
            let v = preview(span, f, p);
            let routine = (staged_routine(f, v.direction, p)->0).0;
            &&& staged_routine(f, v.direction, p) is Some
            &&& v.scratch is Some <==> routine.scratch is Some
            &&& v.scratch matches Some((a, n)) ==> {
                &&& n == routine.scratch->0.len
                &&& p.scratch matches Some(s) ==> a == s
            }
        }),
{
    previews_show_the_first_places(span, f, p);
    crate::plan_laws::scratch_keeps_clear(
        span,
        worst_case(span.1 - span.0),
        f,
        preview(span, f, p).direction,
        p,
        false,
    );
}

} // verus!
