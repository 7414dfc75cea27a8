//! What holds of every plan.
use vstd::prelude::*;

#[allow(unused_imports)]
use crate::blocks::{
    all_cuttable, pooled, avoids, cuttable, free_stretch, lemma_without_all, lowest_room,
    lowest_room_is_lowest, room_at, within, without_all, zones, Block,
};
#[allow(unused_imports)]
use crate::formats::{Direction, FormatModel, RoutineSpec, ScratchSpec};
#[allow(unused_imports)]
use crate::placement::{
    default_placement, epilogue_code, epilogue_size, DirectionChoice, Placement, DEFAULT_MOVER,
};
#[allow(unused_imports)]
use crate::plan::{
    base_staged, block, candidates, decoder_site, feasible, image_block, min_of, move_hits_image,
    mover_site, packed_window, placed, placed_in, planned_in, preview, refusal, rule, scratch_site,
    staged_routine, staged_size, taken_over, takes_stack_page, valid_span, wanted, worst_case, Placed,
    MOVER_FOLD, MOVER_SIZE, MOVER_SLOT_END, STACK_PAGE_SLOT,
};

verus! {

/// What a placement reserves for the staged decoder.
pub open spec fn decoder_block(at: Placed) -> Block {
    block(at.decr_at as int, at.decr_at + at.staged)
}

/// What a placement reserves for the scratch buffer.
pub open spec fn scratch_block(at: Placed) -> Block {
    block((at.scratch->0).0 as int, (at.scratch->0).0 + (at.scratch->0).1)
}

/// What a placement reserves for the relocated mover.
pub open spec fn mover_block(at: Placed) -> Block {
    block(at.mover_at->0 as int, at.mover_at->0 + MOVER_SIZE)
}

/// The output span as a block.
pub open spec fn span_block(span: (u32, u32)) -> Block {
    block(span.0 as int, span.1 as int)
}

/// Room in what is left of the zones lies in the pool and clear of every cut
/// and every used block.
proof fn lemma_auto_room(cuts: Seq<Block>, used: Seq<Block>, len: int, page: bool)
    requires
        all_cuttable(cuts),
        len > 0,
    ensures
        lowest_room(without_all(zones(), cuts), used, len, page) matches Some(a) ==> {
            &&& 0x0334 <= a
            &&& a + len <= 0x1_0000
            &&& page ==> a % 256 == 0
            &&& avoids(cuts, a, a + len)
            &&& avoids(used, a, a + len)
        },
{
    let pool = without_all(zones(), cuts);
    assert(pooled(zones()));
    lemma_without_all(zones(), cuts);
    lowest_room_is_lowest(pool, used, len, page);
    if lowest_room(pool, used, len, page) is Some {
        let a = lowest_room(pool, used, len, page)->0;
        assert(room_at(pool, used, len, page, a));
        let (lo, hi) = choose|lo: int, hi: int| #[trigger]
            free_stretch(pool, used, lo, hi) && lo <= a && a + len <= hi;
        let i = choose|i: int| 0 <= i < pool.len() && (#[trigger] pool[i]).holds(lo, hi);
        assert(pool[i].holds(lo, hi));
        assert(within(pool, lo, hi));
        assert forall|k: int| 0 <= k < cuts.len() implies (#[trigger] cuts[k]).clear_of(a, a + len) by {
            assert(cuts[k].clear_of(lo, hi));
        }
        assert forall|k: int| 0 <= k < used.len() implies (#[trigger] used[k]).clear_of(a, a + len) by {
            assert(used[k].clear_of(lo, hi));
        }
    }
}

/// The packed window is one that can be cut out of the pool.
proof fn lemma_window_cuttable(
    span: (u32, u32),
    len: int,
    f: FormatModel,
    direction: Direction,
    p: Placement,
    exact: bool,
)
    requires
        valid_span(span),
        0 <= len <= u32::MAX - 0x2_0000,
    ensures
        packed_window(span, len, f.format, direction, p, exact) matches Ok(w) ==> {
            &&& 0 <= w.0 <= u32::MAX
            &&& 0 <= w.1 <= 0x1_0000
            &&& cuttable(block(w.0, w.1))
        },
{
}

/// The block that the packed stream takes while the decoder runs.
pub open spec fn packed_block(
    span: (u32, u32),
    len: int,
    f: FormatModel,
    direction: Direction,
    p: Placement,
    exact: bool,
) -> Block {
    let w = packed_window(span, len, f.format, direction, p, exact)->Ok_0;
    block(w.0, w.1)
}

/// A length that placement takes, for a span inside the address space.
pub open spec fn plannable(span: (u32, u32), len: int) -> bool {
    valid_span(span) && 0 <= len <= u32::MAX - 0x2_0000
}

/// A routine whose scratch buffer, if it has one, is not empty.
pub open spec fn sound_scratch(f: FormatModel, direction: Direction, p: Placement) -> bool {
    staged_routine(f, direction, p) matches Some((routine, _)) ==> (routine.scratch matches Some(sc)
        ==> sc.len > 0)
}

/// What holds of the places that a layout gives to a routine, with the packed
/// stream in the window.
pub open spec fn good_places(
    at: Placed,
    span: (u32, u32),
    len: int,
    routine: RoutineSpec,
    p: Placement,
    window: (int, int),
) -> bool {
    let packed = block(window.0, window.1);
    let image = image_block(routine, p, len);
    let needed = move_hits_image(routine, p, len, window);
    &&& at.staged == base_staged(routine, p) + (if at.mover_folded {
        MOVER_FOLD as int
    } else {
        0
    })
    &&& at.packed_start == window.0
    &&& match p.decruncher {
        Some(a) => at.decr_at == a && (a == 0x0100 || a >= 0x0200),
        None => if at.staged <= STACK_PAGE_SLOT {
            at.decr_at == 0x0100
        } else {
            at.decr_at >= 0x0334 && at.decr_at + at.staged <= 0x1_0000
        },
    }
    &&& !decoder_block(at).meets(span_block(span))
    &&& !decoder_block(at).meets(packed)
    &&& p.decruncher is None ==> !decoder_block(at).meets(image)
    &&& at.scratch is Some <==> routine.scratch is Some
    &&& routine.scratch matches Some(sc) ==> (at.scratch->0).1 == sc.len && (sc.len > 0
        ==> good_scratch(at, span, sc, p, packed))
    &&& needed && p.mover is None ==> at.mover_folded
    &&& at.mover_folded ==> p.mover is None
    &&& at.mover_at == if needed {
        p.mover
    } else {
        None
    }
    &&& at.mover_at is Some ==> {
        &&& !mover_block(at).meets(packed)
        &&& !mover_block(at).meets(decoder_block(at))
        &&& at.scratch matches Some((_, n)) ==> n > 0 ==> !mover_block(at).meets(scratch_block(at))
    }
}

/// What holds of the place of a scratch buffer.
pub open spec fn good_scratch(
    at: Placed,
    span: (u32, u32),
    sc: ScratchSpec,
    p: Placement,
    packed: Block,
) -> bool {
    let s = (at.scratch->0).0;
    &&& sc.page_aligned ==> s % 256 == 0
    &&& !scratch_block(at).meets(span_block(span))
    &&& !scratch_block(at).meets(packed)
    &&& !scratch_block(at).meets(decoder_block(at))
    &&& match p.scratch {
        Some(a) => s == a && s >= 0x0100,
        None => s >= 0x0334 && s + sc.len <= 0x1_0000,
    }
}

/// A routine that was placed around a window has good places.
proof fn lemma_placed_in(
    span: (u32, u32),
    len: int,
    name: Seq<char>,
    routine: RoutineSpec,
    choice: crate::plan::DecoderChoice,
    p: Placement,
    window: (int, int),
)
    requires
        plannable(span, len),
        0 <= window.0 <= u32::MAX,
        0 <= window.1 <= 0x1_0000,
        cuttable(block(window.0, window.1)),
    ensures
        placed_in(span, len, name, routine, choice, p, window) matches Ok(at) ==> {
            &&& good_places(at, span, len, routine, p, window)
            &&& at.mover_folded == (move_hits_image(routine, p, len, window) && p.mover is None)
        },
{
    if placed_in(span, len, name, routine, choice, p, window) is Ok {
        let at = placed_in(span, len, name, routine, choice, p, window)->Ok_0;
        let out = span_block(span);
        let packed = block(window.0, window.1);
        let image = image_block(routine, p, len);
        let staged = staged_size(routine, p, len, window);
        let cuts = seq![out, packed, image];
        let fewer = seq![out, packed];
        assert(cuttable(out));
        assert(cuttable(image));
        lemma_auto_room(cuts, Seq::empty(), staged, false);
        let d = decoder_site(p, staged, out, packed, image)->Ok_0;
        if p.decruncher is None && staged > STACK_PAGE_SLOT {
            assert(cuts[0].clear_of(d, d + staged));
            assert(cuts[1].clear_of(d, d + staged));
            assert(cuts[2].clear_of(d, d + staged));
        }
        assert(0 <= d <= 0xFFFF);
        let decoder = block(d, d + staged);
        assert(decoder_block(at) == decoder);
        if routine.scratch is Some {
            let sc = routine.scratch->0;
            let used = seq![decoder];
            let site = scratch_site(name, p, sc, out, packed, decoder)->Ok_0;
            if sc.len > 0 {
                lemma_auto_room(fewer, used, sc.len as int, sc.page_aligned);
                if p.scratch is None {
                    assert(fewer[0].clear_of(site, site + sc.len));
                    assert(fewer[1].clear_of(site, site + sc.len));
                    assert(used[0].clear_of(site, site + sc.len));
                }
                assert(scratch_block(at) == block(site, site + sc.len));
                assert(good_scratch(at, span, sc, p, packed));
            }
        }
        if at.mover_at is Some {
            let used = match routine.scratch {
                None => seq![decoder],
                Some(sc) => {
                    let site = scratch_site(name, p, sc, out, packed, decoder)->Ok_0;
                    seq![decoder, block(site, site + sc.len)]
                },
            };
            assert(used[0] == decoder);
            if routine.scratch is Some {
                assert(used[1] == used.last());
            }
            assert(mover_site(p.mover->0, packed, used) is Ok);
        }
    }
}

/// `a` lies inside `b`.
spec fn inside(a: Block, b: Block) -> bool {
    b.start <= a.start && a.end <= b.end
}

/// The real window lies inside the worst-case one.
proof fn lemma_shorter_window(
    span: (u32, u32),
    len: int,
    f: FormatModel,
    direction: Direction,
    p: Placement,
    routine: RoutineSpec,
)
    requires
        valid_span(span),
        0 <= len <= worst_case(span.1 - span.0),
        packed_window(span, len, f.format, direction, p, true) is Ok,
        packed_window(span, worst_case(span.1 - span.0), f.format, direction, p, false) is Ok,
    ensures
        ({
            let worst = worst_case(span.1 - span.0);
            let w0 = packed_window(span, worst, f.format, direction, p, false)->Ok_0;
            let w1 = packed_window(span, len, f.format, direction, p, true)->Ok_0;
            &&& inside(block(w1.0, w1.1), block(w0.0, w0.1))
            &&& inside(image_block(routine, p, len), image_block(routine, p, worst))
            &&& move_hits_image(routine, p, len, w1) ==> move_hits_image(routine, p, worst, w0)
        }),
{
}

/// Whatever was placed has good places. Without the real length a mover is
/// folded in only where it is needed.
proof fn lemma_places(
    span: (u32, u32),
    len: int,
    f: FormatModel,
    direction: Direction,
    p: Placement,
    exact: bool,
)
    requires
        plannable(span, len),
    ensures
        placed(span, len, f, direction, p, exact) matches Ok(at) ==> {
            let routine = (staged_routine(f, direction, p)->0).0;
            let window = packed_window(span, len, f.format, direction, p, exact)->Ok_0;
            &&& staged_routine(f, direction, p) is Some
            &&& packed_window(span, len, f.format, direction, p, exact) is Ok
            &&& good_places(at, span, len, routine, p, window)
            &&& !exact ==> at.mover_folded == (move_hits_image(routine, p, len, window)
                && p.mover is None)
        },
{
    lemma_window_cuttable(span, len, f, direction, p, exact);
    if placed(span, len, f, direction, p, exact) is Ok {
        let (routine, choice) = staged_routine(f, direction, p)->0;
        let w = packed_window(span, len, f.format, direction, p, exact)->Ok_0;
        lemma_placed_in(span, len, f.name, routine, choice, p, w);
        if placed_in(span, len, f.name, routine, choice, p, w) is Err {
            let worst = worst_case(span.1 - span.0);
            let w0 = packed_window(span, worst, f.format, direction, p, false)->Ok_0;
            let planned = planned_in(span, f, direction, routine, choice, p)->Ok_0;
            lemma_window_cuttable(span, worst, f, direction, p, false);
            lemma_placed_in(span, worst, f.name, routine, choice, p, w0);
            lemma_shorter_window(span, len, f, direction, p, routine);
            lemma_taken_over(planned, span, len, routine, p, w0, w);
        }
    }
}

/// A plan that is taken over for a shorter stream keeps its good places.
proof fn lemma_taken_over(
    planned: Placed,
    span: (u32, u32),
    len: int,
    routine: RoutineSpec,
    p: Placement,
    w0: (int, int),
    w1: (int, int),
)
    requires
        valid_span(span),
        good_places(planned, span, worst_case(span.1 - span.0), routine, p, w0),
        0 <= w1.0 <= u32::MAX,
        inside(block(w1.0, w1.1), block(w0.0, w0.1)),
        inside(
            image_block(routine, p, len),
            image_block(routine, p, worst_case(span.1 - span.0)),
        ),
        move_hits_image(routine, p, len, w1) ==> move_hits_image(
            routine,
            p,
            worst_case(span.1 - span.0),
            w0,
        ),
    ensures
        good_places(taken_over(planned, len, routine, p, w1), span, len, routine, p, w1),
{
    let at = taken_over(planned, len, routine, p, w1);
    assert(decoder_block(at) == decoder_block(planned));
    if routine.scratch is Some && routine.scratch->0.len > 0 {
        assert(scratch_block(at) == scratch_block(planned));
        assert(good_scratch(
            at,
            span,
            routine.scratch->0,
            p,
            block(w1.0, w1.1),
        ));
    }
    if at.mover_at is Some {
        assert(mover_block(at) == mover_block(planned));
    }
}

/// The decoder address is the one asked for. Automatically it is the stack page
/// exactly if the staged blob fits its slot, and a free place in the pool
/// otherwise.
pub proof fn decoder_goes_where_asked_or_fits(
    span: (u32, u32),
    len: int,
    f: FormatModel,
    direction: Direction,
    p: Placement,
    exact: bool,
)
    requires
        plannable(span, len),
    ensures
        placed(span, len, f, direction, p, exact) matches Ok(at) ==> {
            match p.decruncher {
                Some(a) => at.decr_at == a && (a == 0x0100 || a >= 0x0200),
                None => {
                    &&& at.decr_at == 0x0100 <==> at.staged <= STACK_PAGE_SLOT
                    &&& at.staged > STACK_PAGE_SLOT ==> at.decr_at >= 0x0334 && at.decr_at
                        + at.staged <= 0x1_0000
                },
            }
        },
{
    lemma_places(span, len, f, direction, p, exact);
}

/// The decoder is staged outside the output span and off the packed stream.
pub proof fn decoder_keeps_clear(
    span: (u32, u32),
    len: int,
    f: FormatModel,
    direction: Direction,
    p: Placement,
    exact: bool,
)
    requires
        plannable(span, len),
    ensures
        placed(span, len, f, direction, p, exact) matches Ok(at) ==> {
            &&& !decoder_block(at).meets(span_block(span))
            &&& !decoder_block(at).meets(packed_block(span, len, f, direction, p, exact))
        },
{
    lemma_places(span, len, f, direction, p, exact);
}

/// An automatically placed decoder keeps clear of the loaded program, which is
/// still intact when the decoder is installed.
pub proof fn automatic_decoder_keeps_clear_of_the_image(
    span: (u32, u32),
    len: int,
    f: FormatModel,
    direction: Direction,
    p: Placement,
    exact: bool,
)
    requires
        plannable(span, len),
        p.decruncher is None,
    ensures
        placed(span, len, f, direction, p, exact) matches Ok(at) ==> !decoder_block(at).meets(
            image_block((staged_routine(f, direction, p)->0).0, p, len),
        ),
{
    lemma_places(span, len, f, direction, p, exact);
}

/// A scratch buffer of at least one byte has the length that the routine asks
/// for, is page-aligned if it must be, keeps clear of the output span, the
/// packed stream and the staged decoder, and lies where it was asked for (above
/// zero page) or, automatically, at or above `$0334`.
pub proof fn scratch_keeps_clear(
    span: (u32, u32),
    len: int,
    f: FormatModel,
    direction: Direction,
    p: Placement,
    exact: bool,
)
    requires
        plannable(span, len),
        sound_scratch(f, direction, p),
    ensures
        placed(span, len, f, direction, p, exact) matches Ok(at) ==> {
            let routine = (staged_routine(f, direction, p)->0).0;
            &&& at.scratch is Some <==> routine.scratch is Some
            &&& at.scratch matches Some((s, n)) ==> {
                &&& n == routine.scratch->0.len
                &&& routine.scratch->0.page_aligned ==> s % 256 == 0
                &&& !scratch_block(at).meets(span_block(span))
                &&& !scratch_block(at).meets(packed_block(span, len, f, direction, p, exact))
                &&& !scratch_block(at).meets(decoder_block(at))
                &&& match p.scratch {
                    Some(a) => s == a && s >= 0x0100,
                    None => s >= 0x0334 && s + n <= 0x1_0000,
                }
            }
        },
{
    lemma_places(span, len, f, direction, p, exact);
}

/// The staged decoder is as long as its parts: the code of the routine, its
/// wrapper (8 bytes in the stack page, 16 elsewhere), the code before the jump,
/// and 28 bytes for a mover that is folded in.
pub proof fn staged_sizes_count_every_part(
    span: (u32, u32),
    len: int,
    f: FormatModel,
    direction: Direction,
    p: Placement,
    exact: bool,
)
    requires
        plannable(span, len),
    ensures
        placed(span, len, f, direction, p, exact) matches Ok(at) ==> {
            let routine = (staged_routine(f, direction, p)->0).0;
            &&& staged_routine(f, direction, p) is Some
            &&& at.code_bytes == routine.code_bytes
            &&& at.staged == routine.code_bytes + (if routine.zp_stack {
                8int
            } else {
                16
            }) + crate::placement::code_size(epilogue_code(p)) + (if at.mover_folded {
                28int
            } else {
                0
            })
            &&& at.mover_folded ==> p.mover is None
        },
{
    lemma_places(span, len, f, direction, p, exact);
    crate::placement::epilogue_size_matches_the_code(p);
}

/// A relocated mover is used exactly when the move lands on the loaded program
/// and an address was given; without an address the move is folded into the
/// decoder, which grows by it (a build that falls back on its plan keeps the
/// mover that was folded in there). The mover keeps clear of the packed stream,
/// the decoder and the scratch buffer.
pub proof fn mover_keeps_clear(
    span: (u32, u32),
    len: int,
    f: FormatModel,
    direction: Direction,
    p: Placement,
    exact: bool,
)
    requires
        plannable(span, len),
        sound_scratch(f, direction, p),
    ensures
        placed(span, len, f, direction, p, exact) matches Ok(at) ==> {
            let routine = (staged_routine(f, direction, p)->0).0;
            let window = packed_window(span, len, f.format, direction, p, exact)->Ok_0;
            let needed = move_hits_image(routine, p, len, window);
            &&& needed && p.mover is None ==> at.mover_folded
            &&& !exact && at.mover_folded ==> needed
            &&& at.mover_folded ==> p.mover is None
            &&& at.staged == base_staged(routine, p) + (if at.mover_folded {
                MOVER_FOLD as int
            } else {
                0
            })
            &&& at.mover_at == if needed {
                p.mover
            } else {
                None
            }
            &&& at.mover_at is Some ==> {
                &&& !mover_block(at).meets(packed_block(span, len, f, direction, p, exact))
                &&& !mover_block(at).meets(decoder_block(at))
                &&& at.scratch is Some ==> !mover_block(at).meets(scratch_block(at))
            }
        },
{
    lemma_places(span, len, f, direction, p, exact);
}

/// The default mover fits its slot below `$0300`.
pub proof fn default_mover_fits_its_slot()
    ensures
        DEFAULT_MOVER + MOVER_SIZE <= MOVER_SLOT_END,
{
}

/// A real packed stream: forward it ends on `$FFFF` and starts above the span
/// start; backward it starts exactly `margin` below the span start and ends
/// inside the span; end-aligned it ends `tsc_shift` above the span end. It
/// never reaches below `$0200` unless the span does.
pub proof fn packed_stream_fits_its_layout(
    span: (u32, u32),
    len: int,
    f: FormatModel,
    direction: Direction,
    p: Placement,
)
    requires
        valid_span(span),
        len >= 0,
    ensures
        packed_window(span, len, f.format, direction, p, true) matches Ok(w) ==> {
            &&& w.1 - w.0 == len
            &&& w.1 <= 0x1_0000
            &&& w.0 >= min_of(0x0200, span.0 as int)
            &&& if crate::plan::end_aligned(f.format, direction) {
                w.1 == span.1 + p.tsc_shift
            } else {
                match direction {
                    Direction::Forward => w.1 == 0x1_0000 && w.0 > span.0,
                    Direction::Backward => w.0 == span.0 - p.margin && w.1 <= span.1,
                }
            }
        },
{
}

/// Where forward is feasible, at least sixteen addresses from the span's last
/// byte on lie in the top gap.
pub proof fn forward_leaves_a_top_gap(span: (u32, u32), p: Placement)
    requires
        valid_span(span),
        feasible(span, Direction::Forward, p),
    ensures
        0x1_0000 - (span.1 - 1) >= 16,
{
}

/// The span rule: forward exactly while the last byte is at or below `$FFF0`,
/// which is exactly where forward is feasible.
pub proof fn span_rule_follows_the_top_gap(span: (u32, u32), p: Placement)
    requires
        valid_span(span),
    ensures
        rule(span.1 as int) is Forward <==> span.1 - 1 <= 0xFFF0,
        rule(span.1 as int) is Forward <==> feasible(span, Direction::Forward, p),
{
}

/// A format is available exactly if it has a candidate direction, and the
/// preview then shows the first one.
pub proof fn preview_shows_the_first_candidate(span: (u32, u32), f: FormatModel, p: Placement)
    ensures
        preview(span, f, p).unavailable is None <==> candidates(span, f, p) is Ok,
        preview(span, f, p).unavailable is None ==> refusal(
            span,
            f,
            preview(span, f, p).direction,
            p,
        ) is None,
        !(p.direction is Auto) && preview(span, f, p).unavailable is None ==> preview(
            span,
            f,
            p,
        ).direction == wanted(span, p.direction),
{
}

/// `Auto` offers a format exactly if one of the two manual choices does, and
/// prefers the span rule's direction.
pub proof fn auto_offers_what_either_direction_offers(
    span: (u32, u32),
    f: FormatModel,
    p: Placement,
)
    ensures
        ({
            let auto = Placement { direction: DirectionChoice::Auto, ..p };
            let forward = Placement { direction: DirectionChoice::Forward, ..p };
            let backward = Placement { direction: DirectionChoice::Backward, ..p };
            let either = candidates(span, f, forward) is Ok || candidates(span, f, backward) is Ok;
            let preferred = match rule(span.1 as int) {
                Direction::Forward => candidates(span, f, forward) is Ok,
                Direction::Backward => candidates(span, f, backward) is Ok,
            };
            &&& candidates(span, f, auto) is Ok <==> either
            &&& either ==> (preview(span, f, auto).direction == rule(span.1 as int)
                <==> preferred)
        }),
{
    let auto = Placement { direction: DirectionChoice::Auto, ..p };
    let forward = Placement { direction: DirectionChoice::Forward, ..p };
    let backward = Placement { direction: DirectionChoice::Backward, ..p };
    lemma_refusal_ignores_choice(span, f, Direction::Forward, auto, forward);
    lemma_refusal_ignores_choice(span, f, Direction::Backward, auto, backward);
}

/// Whether a direction can be used does not depend on which one was asked for.
proof fn lemma_refusal_ignores_choice(
    span: (u32, u32),
    f: FormatModel,
    direction: Direction,
    p: Placement,
    q: Placement,
)
    requires
        q == (Placement { direction: q.direction, ..p }),
    ensures
        refusal(span, f, direction, p) == refusal(span, f, direction, q),
{
    places_ignore_the_tailoring(span, worst_case(span.1 - span.0), f, direction, p, q, false);
}

/// Where everything goes depends neither on the direction that was asked for
/// nor on how the decoder is tailored.
pub proof fn places_ignore_the_tailoring(
    span: (u32, u32),
    len: int,
    f: FormatModel,
    direction: Direction,
    p: Placement,
    q: Placement,
    exact: bool,
)
    requires
        q == (Placement { direction: q.direction, tailoring: q.tailoring, ..p }),
    ensures
        placed(span, len, f, direction, p, exact) == placed(span, len, f, direction, q, exact),
{
    let worst = worst_case(span.1 - span.0);
    assert(staged_routine(f, direction, p) == staged_routine(f, direction, q));
    let w = packed_window(span, len, f.format, direction, p, exact);
    let w0 = packed_window(span, worst, f.format, direction, p, false);
    assert(w == packed_window(span, len, f.format, direction, q, exact));
    assert(w0 == packed_window(span, worst, f.format, direction, q, false));
    if staged_routine(f, direction, p) is Some && w is Ok {
        let (routine, choice) = staged_routine(f, direction, p)->0;
        lemma_placed_in_ignores_choice(span, len, f.name, routine, choice, p, q, w->Ok_0);
        if w0 is Ok {
            lemma_placed_in_ignores_choice(span, worst, f.name, routine, choice, p, q, w0->Ok_0);
        }
    }
}

proof fn lemma_placed_in_ignores_choice(
    span: (u32, u32),
    len: int,
    name: Seq<char>,
    routine: RoutineSpec,
    choice: crate::plan::DecoderChoice,
    p: Placement,
    q: Placement,
    w: (int, int),
)
    requires
        q == (Placement { direction: q.direction, tailoring: q.tailoring, ..p }),
    ensures
        placed_in(span, len, name, routine, choice, p, w) == placed_in(
            span,
            len,
            name,
            routine,
            choice,
            q,
            w,
        ),
{
    let packed = block(w.0, w.1);
    let image = image_block(routine, p, len);
    let staged = staged_size(routine, p, len, w);
    assert(image == image_block(routine, q, len));
    assert(staged == staged_size(routine, q, len, w));
    let site = decoder_site(p, staged, span_block(span), packed, image);
    assert(site == decoder_site(q, staged, span_block(span), packed, image));
    if site is Ok && routine.scratch is Some {
        let d = block(site->Ok_0, site->Ok_0 + staged);
        assert(scratch_site(name, p, routine.scratch->0, span_block(span), packed, d)
            == scratch_site(name, q, routine.scratch->0, span_block(span), packed, d));
    }
}

/// The options before the final `JMP` grow the staged decoder by exactly the
/// code that they add, and the defaults add none.
pub proof fn options_grow_the_decoder_by_their_code(r: RoutineSpec, p: Placement)
    ensures
        base_staged(r, p) == base_staged(r, default_placement()) + epilogue_size(p),
        epilogue_code(default_placement()).len() == 0,
{
}

/// The stack-page routine is staged exactly when the decoder address is
/// automatic and its blob fits the slot; any other placement stages the
/// balanced or the fastest one.
pub proof fn stack_page_routine_needs_an_automatic_address(
    f: FormatModel,
    direction: Direction,
    p: Placement,
)
    ensures
        p.decruncher is Some ==> staged_routine(f, direction, p) == staged_routine(
            FormatModel {
                forward: crate::formats::Decoders {
                    any: crate::formats::DecoderSet { stack_page: None, ..f.forward.any },
                    legal: crate::formats::DecoderSet { stack_page: None, ..f.forward.legal },
                },
                backward: crate::formats::Decoders {
                    any: crate::formats::DecoderSet { stack_page: None, ..f.backward.any },
                    legal: crate::formats::DecoderSet { stack_page: None, ..f.backward.legal },
                },
                ..f
            },
            direction,
            p,
        ),
        staged_routine(f, direction, p) matches Some((r, c)) ==> c is StackPage ==> f.set(
            direction,
            p.allow_illegal,
        ).stack_page == Some(r) && takes_stack_page(r, p),
{
}

/// Legal-only mode never looks at a routine with undocumented opcodes.
pub proof fn legal_only_mode_ignores_other_routines(
    f: FormatModel,
    other: FormatModel,
    direction: Direction,
    p: Placement,
)
    requires
        !p.allow_illegal,
        other.forward.legal == f.forward.legal,
        other.backward.legal == f.backward.legal,
    ensures
        staged_routine(f, direction, p) == staged_routine(other, direction, p),
{
}

/// With an automatic direction, each of the two is either offered or explained.
pub proof fn every_direction_is_offered_or_explained(
    span: (u32, u32),
    f: FormatModel,
    p: Placement,
)
    requires
        p.direction is Auto,
    ensures
        candidates(span, f, p) matches Ok(plan) ==> plan.dirs.len() + plan.skipped.len() == 2,
{
}

/// A preview that fits is a build that fits: what was planned around the
/// worst-case packed stream can be placed around the real, shorter one, if that
/// fits its own window.
pub proof fn preview_that_fits_is_a_build_that_fits(
    span: (u32, u32),
    len: int,
    f: FormatModel,
    direction: Direction,
    p: Placement,
)
    requires
        valid_span(span),
        0 <= len <= worst_case(span.1 - span.0),
        packed_window(span, len, f.format, direction, p, true) is Ok,
        placed(span, worst_case(span.1 - span.0), f, direction, p, false) is Ok,
    ensures
        placed(span, len, f, direction, p, true) is Ok,
{
}

/// A worst-case guess never refuses a packed window that a real stream fits,
/// and its window holds the real one.
pub proof fn guessed_windows_hold_every_real_one(
    span: (u32, u32),
    len: int,
    guess: int,
    f: FormatModel,
    direction: Direction,
    p: Placement,
)
    requires
        valid_span(span),
        0 <= len <= guess,
        packed_window(span, len, f.format, direction, p, true) is Ok,
    ensures
        packed_window(span, guess, f.format, direction, p, false) matches Ok(g) && {
            let w = packed_window(span, len, f.format, direction, p, true)->Ok_0;
            g.0 <= w.0 && w.1 <= g.1
        },
{
}

/// Whether two placements differ in nothing but what runs before the final
/// `JMP`.
pub open spec fn alike_but_for_the_epilogue(p: Placement, q: Placement) -> bool {
    q == (Placement {
        restore_basic_end: q.restore_basic_end,
        bank_at_jmp: q.bank_at_jmp,
        basic_clr: q.basic_clr,
        cli_before_jmp: q.cli_before_jmp,
        ..p
    })
}

/// Whether the places of `p` also hold the decoder of `q`, which has more code
/// before the final `JMP`: the payload move lands on the loaded program for both
/// or for neither, both blobs go into the stack page or both above it, and the
/// longer one fits where the shorter one is, clear of the buffer and of the
/// mover.
pub open spec fn hold_longer(
    span: (u32, u32),
    len: int,
    name: Seq<char>,
    routine: RoutineSpec,
    choice: crate::plan::DecoderChoice,
    p: Placement,
    q: Placement,
    w: (int, int),
) -> bool {
    let at = placed_in(span, len, name, routine, choice, p, w)->Ok_0;
    let packed = block(w.0, w.1);
    let longer = staged_size(routine, q, len, w);
    let decoder = block(at.decr_at as int, at.decr_at + longer);
    let pool = without_all(
        zones(),
        seq![span_block(span), packed, image_block(routine, q, len)],
    );
    &&& placed_in(span, len, name, routine, choice, p, w) is Ok
    &&& move_hits_image(routine, p, len, w) == move_hits_image(routine, q, len, w)
    &&& p.decruncher is None ==> (at.staged <= STACK_PAGE_SLOT <==> longer <= STACK_PAGE_SLOT)
    &&& if p.decruncher is None && at.staged > STACK_PAGE_SLOT {
        room_at(pool, Seq::empty(), longer, false, at.decr_at as int)
    } else {
        !decoder.meets(span_block(span)) && !decoder.meets(packed)
    }
    &&& at.scratch is Some ==> !decoder.meets(scratch_block(at))
    &&& at.mover_at is Some ==> !decoder.meets(mover_block(at))
}

/// Whether a format is staged with the same routine for `p` and `q`, and the
/// places of `p` also hold the decoder of `q`.
pub open spec fn places_hold_longer(
    span: (u32, u32),
    len: int,
    f: FormatModel,
    direction: Direction,
    p: Placement,
    q: Placement,
    exact: bool,
) -> bool {
    let (routine, choice) = staged_routine(f, direction, p)->0;
    let w = packed_window(span, len, f.format, direction, p, exact)->Ok_0;
    &&& staged_routine(f, direction, p) is Some
    &&& staged_routine(f, direction, q) == staged_routine(f, direction, p)
    &&& packed_window(span, len, f.format, direction, p, exact) is Ok
    &&& hold_longer(span, len, f.name, routine, choice, p, q, w)
}

/// The options before the final `JMP` leave every place as it is and only grow
/// the staged decoder by their code, as long as the longer decoder fits where
/// the shorter one is.
pub proof fn epilogue_options_keep_the_places(
    span: (u32, u32),
    len: int,
    f: FormatModel,
    direction: Direction,
    p: Placement,
    q: Placement,
    exact: bool,
)
    requires
        plannable(span, len),
        sound_scratch(f, direction, p),
        alike_but_for_the_epilogue(p, q),
        epilogue_size(p) <= epilogue_size(q),
        places_hold_longer(span, len, f, direction, p, q, exact),
    ensures
        placed(span, len, f, direction, p, exact) matches Ok(at) && placed(
            span,
            len,
            f,
            direction,
            q,
            exact,
        ) == Ok::<Placed, Seq<char>>(
            Placed { staged: (at.staged + epilogue_size(q) - epilogue_size(p)) as u32, ..at },
        ),
{
    let (routine, choice) = staged_routine(f, direction, p)->0;
    let w = packed_window(span, len, f.format, direction, p, exact)->Ok_0;
    lemma_window_cuttable(span, len, f, direction, p, exact);
    assert(packed_window(span, len, f.format, direction, q, exact) == Ok::<
        (int, int),
        Seq<char>,
    >(w));
    lemma_sites_stay(span, len, f.name, routine, choice, p, q, w);
    lemma_same_steps(span, len, f.name, routine, choice, p, q, w);
}

/// The places that a routine gets, and those it would get with more code before
/// the final `JMP`.
spec fn sites_agree(
    span: (u32, u32),
    len: int,
    name: Seq<char>,
    routine: RoutineSpec,
    p: Placement,
    q: Placement,
    w: (int, int),
) -> bool {
    let out = span_block(span);
    let packed = block(w.0, w.1);
    let staged0 = staged_size(routine, p, len, w);
    let staged1 = staged_size(routine, q, len, w);
    let d0 = decoder_site(p, staged0, out, packed, image_block(routine, p, len));
    let d1 = decoder_site(q, staged1, out, packed, image_block(routine, q, len));
    let decoder0 = block(d0->Ok_0, d0->Ok_0 + staged0);
    let decoder1 = block(d0->Ok_0, d0->Ok_0 + staged1);
    &&& d0 is Ok
    &&& d1 == d0
    &&& routine.scratch matches Some(sc) ==> {
        let s0 = scratch_site(name, p, sc, out, packed, decoder0);
        s0 is Ok && scratch_site(name, q, sc, out, packed, decoder1) == s0
    }
    &&& p.mover is Some && move_hits_image(routine, p, len, w) ==> {
        let mover = block(p.mover->0 as int, p.mover->0 + MOVER_SIZE);
        &&& !mover.meets(packed)
        &&& !mover.meets(decoder1)
        &&& routine.scratch matches Some(sc) ==> {
            let s = scratch_site(name, p, sc, out, packed, decoder0)->Ok_0;
            !mover.meets(block(s, s + sc.len))
        }
    }
}

/// The places stay, if they hold the longer decoder.
proof fn lemma_sites_stay(
    span: (u32, u32),
    len: int,
    name: Seq<char>,
    routine: RoutineSpec,
    choice: crate::plan::DecoderChoice,
    p: Placement,
    q: Placement,
    w: (int, int),
)
    requires
        plannable(span, len),
        0 <= w.0 <= u32::MAX,
        0 <= w.1 <= 0x1_0000,
        cuttable(block(w.0, w.1)),
        routine.scratch matches Some(sc) ==> sc.len > 0,
        alike_but_for_the_epilogue(p, q),
        epilogue_size(p) <= epilogue_size(q),
        hold_longer(span, len, name, routine, choice, p, q, w),
    ensures
        sites_agree(span, len, name, routine, p, q, w),
{
    lemma_placed_in(span, len, name, routine, choice, p, w);
    let at = placed_in(span, len, name, routine, choice, p, w)->Ok_0;
    let out = span_block(span);
    let packed = block(w.0, w.1);
    let image0 = image_block(routine, p, len);
    let image1 = image_block(routine, q, len);
    let staged0 = staged_size(routine, p, len, w);
    let staged1 = staged_size(routine, q, len, w);
    lemma_decoder_range(p, staged0, out, packed, image0);
    let d = decoder_site(p, staged0, out, packed, image0)->Ok_0;
    assert(at.decr_at == d);
    assert(at.staged == staged0);
    let decoder0 = block(d, d + staged0);
    let decoder1 = block(d, d + staged1);
    lemma_decoder_stays(p, q, staged0, staged1, out, packed, image0, image1, d);
    if routine.scratch is Some {
        let sc = routine.scratch->0;
        let s = scratch_site(name, p, sc, out, packed, decoder0)->Ok_0;
        lemma_room_range(p, sc, out, packed, decoder0, name);
        assert(scratch_block(at) == block(s, s + sc.len));
        lemma_scratch_stays(name, p, q, sc, out, packed, decoder0, decoder1);
    }
}

/// The same places make the same placement, but for the size of the decoder.
proof fn lemma_same_steps(
    span: (u32, u32),
    len: int,
    name: Seq<char>,
    routine: RoutineSpec,
    choice: crate::plan::DecoderChoice,
    p: Placement,
    q: Placement,
    w: (int, int),
)
    requires
        alike_but_for_the_epilogue(p, q),
        move_hits_image(routine, p, len, w) == move_hits_image(routine, q, len, w),
        sites_agree(span, len, name, routine, p, q, w),
        placed_in(span, len, name, routine, choice, p, w) is Ok,
        epilogue_size(p) <= epilogue_size(q),
    ensures
        ({
            let at = placed_in(span, len, name, routine, choice, p, w)->Ok_0;
            placed_in(span, len, name, routine, choice, q, w) == Ok::<Placed, Seq<char>>(
                Placed { staged: (at.staged + epilogue_size(q) - epilogue_size(p)) as u32, ..at },
            )
        }),
{
    let packed = block(w.0, w.1);
    let out = span_block(span);
    let staged0 = staged_size(routine, p, len, w);
    let staged1 = staged_size(routine, q, len, w);
    assert(staged1 == staged0 + epilogue_size(q) - epilogue_size(p));
    let d = decoder_site(p, staged0, out, packed, image_block(routine, p, len))->Ok_0;
    let decoder1 = block(d, d + staged1);
    let used = match routine.scratch {
        None => seq![decoder1],
        Some(sc) => {
            let s = scratch_site(name, q, sc, out, packed, decoder1)->Ok_0;
            seq![decoder1, block(s, s + sc.len)]
        },
    };
    if p.mover is Some && move_hits_image(routine, p, len, w) {
        assert forall|i: int| 0 <= i < used.len() implies !block(
            p.mover->0 as int,
            p.mover->0 + MOVER_SIZE,
        ).meets(#[trigger] used[i]) by {}
        assert(mover_site(p.mover->0, packed, used) is Ok);
    }
}

/// A decoder that was placed starts inside the address space.
proof fn lemma_decoder_range(p: Placement, staged: int, out: Block, packed: Block, image: Block)
    requires
        staged > 0,
        cuttable(out),
        cuttable(packed),
        cuttable(image),
        decoder_site(p, staged, out, packed, image) is Ok,
    ensures
        0 <= decoder_site(p, staged, out, packed, image)->Ok_0 <= 0xFFFF,
{
    lemma_auto_room(seq![out, packed, image], Seq::empty(), staged, false);
}

/// A buffer that was placed lies inside the address space.
proof fn lemma_room_range(
    p: Placement,
    sc: ScratchSpec,
    out: Block,
    packed: Block,
    decoder: Block,
    name: Seq<char>,
)
    requires
        sc.len > 0,
        cuttable(out),
        cuttable(packed),
        scratch_site(name, p, sc, out, packed, decoder) is Ok,
    ensures
        0 <= scratch_site(name, p, sc, out, packed, decoder)->Ok_0 <= 0xFFFF,
{
    lemma_auto_room(seq![out, packed], seq![decoder], sc.len as int, sc.page_aligned);
}

/// A longer decoder that fits where the shorter one is goes there.
proof fn lemma_decoder_stays(
    p: Placement,
    q: Placement,
    staged0: int,
    staged1: int,
    out: Block,
    packed: Block,
    image0: Block,
    image1: Block,
    d: int,
)
    requires
        alike_but_for_the_epilogue(p, q),
        0 < staged0 <= staged1 <= 0x1_1000,
        0 <= d <= 0xFFFF,
        cuttable(out),
        cuttable(packed),
        cuttable(image0),
        cuttable(image1),
        inside(image0, image1),
        decoder_site(p, staged0, out, packed, image0) == Ok::<int, Seq<char>>(d),
        p.decruncher is None ==> (staged0 <= STACK_PAGE_SLOT <==> staged1 <= STACK_PAGE_SLOT),
        if p.decruncher is None && staged0 > STACK_PAGE_SLOT {
            room_at(
                without_all(zones(), seq![out, packed, image1]),
                Seq::empty(),
                staged1,
                false,
                d,
            )
        } else {
            !block(d, d + staged1).meets(out) && !block(d, d + staged1).meets(packed)
        },
    ensures
        decoder_site(q, staged1, out, packed, image1) == Ok::<int, Seq<char>>(d),
{
    if p.decruncher is None && staged0 > STACK_PAGE_SLOT {
        let none = Seq::<Block>::empty();
        let cuts0 = seq![out, packed, image0];
        let cuts1 = seq![out, packed, image1];
        let pool0 = without_all(zones(), cuts0);
        let pool1 = without_all(zones(), cuts1);
        assert(all_cuttable(cuts0) && all_cuttable(cuts1));
        assert(pooled(zones()));
        lemma_without_all(zones(), cuts0);
        lemma_without_all(zones(), cuts1);
        lowest_room_is_lowest(pool0, none, staged0, false);
        lowest_room_is_lowest(pool1, none, staged1, false);
        let a = lowest_room(pool1, none, staged1, false)->0;
        assert(room_at(pool1, none, staged1, false, a));
        let (lo, hi) = choose|lo: int, hi: int| #[trigger]
            free_stretch(pool1, none, lo, hi) && lo <= a && a + staged1 <= hi;
        assert(within(pool1, lo, hi));
        assert(avoids(cuts0, lo, hi)) by {
            assert(cuts1[0].clear_of(lo, hi) && cuts1[1].clear_of(lo, hi) && cuts1[2].clear_of(
                lo,
                hi,
            ));
        }
        assert(within(pool0, lo, hi));
        assert(free_stretch(pool0, none, lo, hi));
        assert(room_at(pool0, none, staged0, false, a));
        assert(d <= a);
    }
}

/// A buffer that the longer decoder keeps clear of stays where it is.
proof fn lemma_scratch_stays(
    name: Seq<char>,
    p: Placement,
    q: Placement,
    sc: ScratchSpec,
    out: Block,
    packed: Block,
    decoder0: Block,
    decoder1: Block,
)
    requires
        alike_but_for_the_epilogue(p, q),
        sc.len > 0,
        cuttable(out),
        cuttable(packed),
        decoder0.start < decoder0.end,
        inside(decoder0, decoder1),
        scratch_site(name, p, sc, out, packed, decoder0) is Ok,
        ({
            let s = scratch_site(name, p, sc, out, packed, decoder0)->Ok_0;
            !decoder1.meets(block(s, s + sc.len))
        }),
    ensures
        scratch_site(name, q, sc, out, packed, decoder1) == scratch_site(
            name,
            p,
            sc,
            out,
            packed,
            decoder0,
        ),
{
    if p.scratch is None {
        let n = sc.len as int;
        let cuts = seq![out, packed];
        let pool = without_all(zones(), cuts);
        let used0 = seq![decoder0];
        let used1 = seq![decoder1];
        assert(all_cuttable(cuts));
        assert(pooled(zones()));
        lemma_without_all(zones(), cuts);
        lemma_auto_room(cuts, used0, n, sc.page_aligned);
        lowest_room_is_lowest(pool, used0, n, sc.page_aligned);
        lowest_room_is_lowest(pool, used1, n, sc.page_aligned);
        let s = lowest_room(pool, used0, n, sc.page_aligned)->0;
        assert(room_at(pool, used0, n, sc.page_aligned, s));
        let (lo, hi) = choose|lo: int, hi: int| #[trigger]
            free_stretch(pool, used0, lo, hi) && lo <= s && s + n <= hi;
        let i = choose|i: int| 0 <= i < pool.len() && (#[trigger] pool[i]).holds(lo, hi);
        assert(pool[i].holds(s, s + n));
        assert(within(pool, s, s + n));
        assert(used1[0].clear_of(s, s + n));
        assert(avoids(used1, s, s + n));
        assert(free_stretch(pool, used1, s, s + n));
        assert(room_at(pool, used1, n, sc.page_aligned, s));
        let a = lowest_room(pool, used1, n, sc.page_aligned)->0;
        assert(room_at(pool, used1, n, sc.page_aligned, a));
        let (l1, h1) = choose|lo: int, hi: int| #[trigger]
            free_stretch(pool, used1, lo, hi) && lo <= a && a + n <= hi;
        assert(used1[0].clear_of(l1, h1));
        assert(avoids(used0, l1, h1));
        assert(free_stretch(pool, used0, l1, h1));
        assert(room_at(pool, used0, n, sc.page_aligned, a));
    }
}

/// Whatever runs before the final `JMP`, the places stay where the room below
/// `$0801` is free: an automatic forward decoder without a buffer that is too
/// large for the stack page goes to `$0400`, and up to `$0401` bytes fit there.
pub proof fn low_room_holds_every_epilogue(
    span: (u32, u32),
    len: int,
    f: FormatModel,
    p: Placement,
    q: Placement,
    exact: bool,
)
    requires
        plannable(span, len),
        span.0 >= 0x0801,
        alike_but_for_the_epilogue(p, q),
        p.decruncher is None,
        p.mover is None,
        packed_window(span, len, f.format, Direction::Forward, p, exact) is Ok,
        staged_routine(f, Direction::Forward, p) is Some,
        staged_routine(f, Direction::Forward, q) == staged_routine(f, Direction::Forward, p),
        ({
            let routine = (staged_routine(f, Direction::Forward, p)->0).0;
            let w = packed_window(span, len, f.format, Direction::Forward, p, exact)->Ok_0;
            &&& routine.scratch is None
            &&& base_staged(routine, p) > STACK_PAGE_SLOT
            &&& base_staged(routine, q) > STACK_PAGE_SLOT
            &&& base_staged(routine, p) + MOVER_FOLD <= 0x0401
            &&& base_staged(routine, q) + MOVER_FOLD <= 0x0401
            &&& move_hits_image(routine, p, len, w) == move_hits_image(routine, q, len, w)
        }),
    ensures
        places_hold_longer(span, len, f, Direction::Forward, p, q, exact),
        placed(span, len, f, Direction::Forward, p, exact) matches Ok(at) && at.decr_at == 0x0400,
{
    let (routine, choice) = staged_routine(f, Direction::Forward, p)->0;
    let w = packed_window(span, len, f.format, Direction::Forward, p, exact)->Ok_0;
    lemma_window_cuttable(span, len, f, Direction::Forward, p, exact);
    let staged0 = staged_size(routine, p, len, w);
    let staged1 = staged_size(routine, q, len, w);
    lemma_low_room(span_block(span), block(w.0, w.1), image_block(routine, p, len), staged0);
    lemma_low_room(span_block(span), block(w.0, w.1), image_block(routine, q, len), staged1);
    assert(placed_in(span, len, f.name, routine, choice, p, w) is Ok);
    assert(placed_in(span, len, f.name, routine, choice, p, w)->Ok_0.decr_at == 0x0400);
    assert(hold_longer(span, len, f.name, routine, choice, p, q, w));
}

/// The lowest room above the stack page, where everything lies at or above
/// `$0801`.
proof fn lemma_low_room(out: Block, packed: Block, image: Block, staged: int)
    requires
        STACK_PAGE_SLOT < staged <= 0x0401,
        0x0801 <= out.start <= out.end,
        0x0801 <= packed.start <= packed.end,
        0x0801 <= image.start <= image.end,
    ensures
        ({
            let pool = without_all(zones(), seq![out, packed, image]);
            &&& room_at(pool, Seq::empty(), staged, false, 0x0400)
            &&& lowest_room(pool, Seq::empty(), staged, false) == Some(0x0400int)
        }),
{
    let none = Seq::<Block>::empty();
    let cuts = seq![out, packed, image];
    let pool = without_all(zones(), cuts);
    assert(all_cuttable(cuts));
    assert(pooled(zones()));
    lemma_without_all(zones(), cuts);
    assert(zones()[1].holds(0x0400, 0x0801));
    assert(within(zones(), 0x0400, 0x0801));
    assert(avoids(cuts, 0x0400, 0x0801));
    assert(within(pool, 0x0400, 0x0801));
    assert(free_stretch(pool, none, 0x0400, 0x0801));
    assert(room_at(pool, none, staged, false, 0x0400));
    lowest_room_is_lowest(pool, none, staged, false);
    let a = lowest_room(pool, none, staged, false)->0;
    assert(room_at(pool, none, staged, false, a));
    let (lo, hi) = choose|lo: int, hi: int| #[trigger]
        free_stretch(pool, none, lo, hi) && lo <= a && a + staged <= hi;
    assert(within(pool, lo, hi));
    let i = choose|i: int| 0 <= i < zones().len() && (#[trigger] zones()[i]).holds(lo, hi);
    assert(zones()[i].holds(lo, hi));
}

} // verus!
