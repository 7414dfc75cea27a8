//! Planning: which way to unpack, and where everything goes.
//!
//! **Forward / top** is used whenever the span's last byte is at or below
//! `$FFF0`: the packed stream is moved so its last byte lands on `$FFFF` and a
//! forward decoder unpacks down at the span start. **Backward / bottom** is
//! used when the span reaches past `$FFF0`: the packed stream is moved down to
//! start `margin` bytes below the span start, and a backward decoder unpacks
//! from the span end downwards.
//!
//! In both layouts the decoder is staged outside the output region; the payload
//! move runs from inside the staged decoder (or from a relocated mover) when
//! its destination overlaps the loaded program image.
use vstd::prelude::*;

use crate::blocks::{auto_pool, first_fit, Block};
#[allow(unused_imports)]
use crate::blocks::{
    all_cuttable, pooled, cuttable, free_stretch, lemma_without_all, lowest_room, lowest_room_is_lowest,
    room_at, without_all, zones,
};
use crate::formats::{has_routine, Direction, Format, FormatInfo, RoutineSpec, ScratchSpec};
#[allow(unused_imports)]
use crate::formats::FormatModel;
use crate::image::MemoryImage;
#[allow(unused_imports)]
use crate::image::{span_of, RegionModel};
use crate::placement::{epilogue_len, DirectionChoice, Placement, DEFAULT_MOVER};
#[allow(unused_imports)]
use crate::placement::epilogue_size;
use crate::text::{join, push_decimal, push_hex4};
#[allow(unused_imports)]
use crate::text::{decimal, hex4, joined, texts};

verus! {

/// Forward/top layout applies while the span's last byte is at or below `$FFF0`
/// (exclusive end at or below `$FFF1`); past that there is no top gap and the
/// backward layout is required.
pub const FORWARD_MAX_END: u32 = 0xFFF1;

/// The small-decoder stack-page slot is `$0100-$01DF` (leaving `$01E0-$01FF`
/// for the CPU stack). A staged blob no larger than this is placed at `$0100`
/// automatically; a bigger one is relocated.
pub const STACK_PAGE_SLOT: u32 = 0xE0;

/// Wrapper bytes added around the routine body when staging (JSR entry and JMP
/// done), with slack.
pub const STAGE_WRAPPER: u32 = 16;

/// Wrapper bytes around the stack-page routine: the six that the wrapper takes,
/// and two to spare.
pub const ZP_STACK_WRAPPER: u32 = 8;

/// Room for the payload copy loop inside the staged blob.
pub const MOVER_FOLD: u32 = 28;

/// Room for a relocated copy loop.
pub const MOVER_SIZE: u32 = 64;

/// The `$02A7` mover slot ends here (exclusive).
pub const MOVER_SLOT_END: u32 = 0x0300;

/// Where the loaded program starts.
pub const IMAGE_START: u32 = 0x0801;

/// A non-empty span inside the 64 KB address space.
pub open spec fn valid_span(span: (u32, u32)) -> bool {
    span.0 < span.1 <= 0x1_0000
}

/// Direction per the span rule.
pub open spec fn rule(span_end: int) -> Direction {
    if span_end <= FORWARD_MAX_END {
        Direction::Forward
    } else {
        Direction::Backward
    }
}

/// Direction per the span rule: forward/top while the last byte is at or below
/// `$FFF0`, backward/bottom past that.
pub fn direction_for_span(span_end: u32) -> (r: Direction)
    ensures
        r == rule(span_end as int),
{
    if span_end <= FORWARD_MAX_END {
        Direction::Forward
    } else {
        Direction::Backward
    }
}

/// Whether the span leaves room for unpacking in this direction: forward needs
/// a top gap, backward needs room for the packed stream below the span start. A
/// span that starts at or below `$0200` plus the margin can never work backward.
pub open spec fn feasible(span: (u32, u32), direction: Direction, p: Placement) -> bool {
    match direction {
        Direction::Forward => span.1 <= FORWARD_MAX_END,
        Direction::Backward => span.0 > 0x0200 + p.margin,
    }
}

/// Why the span leaves no room for unpacking in this direction.
pub open spec fn infeasible_text(span: (u32, u32), direction: Direction, p: Placement) -> Seq<
    char,
> {
    match direction {
        Direction::Forward => "forward is impossible: the span ends at $"@ + hex4(
            (span.1 - 1) as nat,
        ) + " (above $FFF0) — there is no room for packed data above the output"@,
        Direction::Backward => "backward is impossible: the span starts at $"@ + hex4(
            span.0 as nat,
        ) + " — packed data must sit "@ + decimal(p.margin as nat)
            + " bytes below the span start and above $0200"@,
    }
}

/// Span-level feasibility of one direction.
fn direction_feasible(span: (u32, u32), direction: Direction, placement: &Placement) -> (r: Result<
    (),
    String,
>)
    ensures
        match r {
            Ok(_) => feasible(span, direction, *placement),
            Err(e) => !feasible(span, direction, *placement) && e@ == infeasible_text(
                span,
                direction,
                *placement,
            ),
        },
{
    match direction {
        Direction::Forward => {
            if span.1 > FORWARD_MAX_END {
                let mut e = "forward is impossible: the span ends at $".to_owned();
                push_hex4(&mut e, (span.1 - 1) as u64);
                e.append(" (above $FFF0) — there is no room for packed data above the output");
                Err(e)
            } else {
                Ok(())
            }
        },
        Direction::Backward => {
            if span.0 <= 0x0200 + placement.margin as u32 {
                let mut e = "backward is impossible: the span starts at $".to_owned();
                push_hex4(&mut e, span.0 as u64);
                e.append(" — packed data must sit ");
                push_decimal(&mut e, placement.margin as u64);
                e.append(" bytes below the span start and above $0200");
                Err(e)
            } else {
                Ok(())
            }
        },
    }
}

/// The direction that the choice asks for; `Auto` asks for the span rule's.
pub open spec fn wanted(span: (u32, u32), choice: DirectionChoice) -> Direction {
    match choice {
        DirectionChoice::Auto => rule(span.1 as int),
        DirectionChoice::Forward => Direction::Forward,
        DirectionChoice::Backward => Direction::Backward,
    }
}

/// Resolves the direction from a manual choice (used to explain an infeasible
/// selection). `Auto` resolves to the span rule's preference here.
pub fn resolve_direction(span: (u32, u32), placement: &Placement) -> (r: Result<Direction, String>)
    ensures
        ({
            let d = wanted(span, placement.direction);
            match r {
                Ok(got) => got == d && (placement.direction is Auto || feasible(
                    span,
                    d,
                    *placement,
                )),
                Err(e) => !(placement.direction is Auto) && !feasible(span, d, *placement) && e@
                    == infeasible_text(span, d, *placement),
            }
        }),
{
    match placement.direction {
        DirectionChoice::Auto => Ok(direction_for_span(span.1)),
        DirectionChoice::Forward => match direction_feasible(span, Direction::Forward, placement) {
            Ok(_) => Ok(Direction::Forward),
            Err(e) => Err(e),
        },
        DirectionChoice::Backward => match direction_feasible(
            span,
            Direction::Backward,
            placement,
        ) {
            Ok(_) => Ok(Direction::Backward),
            Err(e) => Err(e),
        },
    }
}

/// Worst-case packed size of a span.
pub open spec fn worst_case(span_len: int) -> int {
    span_len + span_len / 16 + 64
}

/// Worst-case compressed size (every format stays well under input + 1/16 + 64
/// even on pure noise). Used before compression for availability and preview.
pub fn clen_worst_case(span_len: u32) -> (r: u32)
    requires
        worst_case(span_len as int) <= u32::MAX,
    ensures
        r == worst_case(span_len as int),
{
    span_len + span_len / 16 + 64
}

/// Conservative end of the loaded program.
pub open spec fn image_end(staged: int, len: int) -> int {
    IMAGE_START + 12 + 512 + staged + 96 + len
}

/// Conservative end of the loaded program image: stub, init and install code,
/// staged blobs and payload, with slack. Over-estimating is safe (it only makes
/// placement more conservative and the mover trigger earlier).
pub fn image_end_estimate(staged: u32, embedded_len: u32) -> (r: u32)
    requires
        image_end(staged as int, embedded_len as int) <= u32::MAX,
    ensures
        r == image_end(staged as int, embedded_len as int),
{
    IMAGE_START + 12 + 512 + staged + 96 + embedded_len
}

/// Which of a format's routines is staged.
#[derive(Clone, Copy, PartialEq, Eq, Structural, Debug)]
pub enum DecoderChoice {
    Balanced,
    Fastest,
    StackPage,
}

/// Whether the stack-page routine is taken: the decoder address is automatic
/// and the whole staged blob fits the slot.
pub open spec fn takes_stack_page(zp: RoutineSpec, p: Placement) -> bool {
    p.decruncher is None && zp.code_bytes + ZP_STACK_WRAPPER + epilogue_size(p) <= STACK_PAGE_SLOT
}

/// The routine that is staged, if the format has one for the direction.
pub open spec fn staged_routine(f: FormatModel, direction: Direction, p: Placement) -> Option<
    (RoutineSpec, DecoderChoice),
> {
    let set = f.set(direction, p.allow_illegal);
    let usual = if p.priority_speed {
        (set.fastest, DecoderChoice::Fastest)
    } else {
        (set.balanced, DecoderChoice::Balanced)
    };
    match (usual.0, set.stack_page) {
        (None, _) => None,
        (Some(_), Some(zp)) if takes_stack_page(zp, p) => Some((zp, DecoderChoice::StackPage)),
        (Some(r), _) => Some((r, usual.1)),
    }
}

/// Staged size of the routine without a folded mover: the body, its wrapper and
/// the code before the final `JMP`.
pub open spec fn base_staged(r: RoutineSpec, p: Placement) -> int {
    r.code_bytes + (if r.zp_stack {
        ZP_STACK_WRAPPER
    } else {
        STAGE_WRAPPER
    }) + epilogue_size(p)
}

/// TSCrunch's backward routine is the format's native in-place mode: it reads
/// and writes forward, with the packed stream end-aligned with the output.
pub open spec fn end_aligned(format: Format, direction: Direction) -> bool {
    format is TsCrunch && direction is Backward
}

pub open spec fn max_of(a: int, b: int) -> int {
    if a > b {
        a
    } else {
        b
    }
}

pub open spec fn min_of(a: int, b: int) -> int {
    if a < b {
        a
    } else {
        b
    }
}

/// Where the packed stream sits while the decoder runs, first address and
/// exclusive end. With `exact` the length is real and a stream that does not
/// fit is refused; without it the length is a worst-case guess and the window
/// is clamped instead.
pub open spec fn packed_window(
    span: (u32, u32),
    len: int,
    format: Format,
    direction: Direction,
    p: Placement,
    exact: bool,
) -> Result<(int, int), Seq<char>> {
    if end_aligned(format, direction) {
        let end = span.1 + p.tsc_shift;
        if !exact {
            Ok((max_of(end - len, 0x0200), min_of(end, 0x1_0000)))
        } else if end > 0x1_0000 {
            Err(
                "tscrunch in-place needs "@ + decimal(p.tsc_shift as nat)
                    + " bytes above the span end, but the stream would cross $FFFF"@,
            )
        } else if end < len {
            Err("packed data is larger than the output span"@)
        } else if end - len < 0x0200 {
            Err("packed data reaches below $0200"@)
        } else {
            Ok((end - len, end))
        }
    } else {
        match direction {
            Direction::Forward => {
                let start = 0x1_0000 - len;
                if !exact {
                    Ok((max_of(start, span.0 + 1), 0x1_0000))
                } else if start < 0 {
                    Err("packed data is larger than the address space"@)
                } else if start <= span.0 {
                    Err(
                        "too big: packed data ($"@ + hex4(start as nat)
                            + "-$FFFF) reaches down to the span start $"@ + hex4(span.0 as nat),
                    )
                } else {
                    Ok((start, 0x1_0000))
                }
            },
            Direction::Backward => {
                let start = span.0 - p.margin;
                let end = start + len;
                if start <= 0x0200 {
                    Err(
                        "the span starts at $"@ + hex4(span.0 as nat)
                            + " — no room for packed data "@ + decimal(p.margin as nat)
                            + " bytes below the start (above $0200)"@,
                    )
                } else if exact && end > span.1 {
                    Err(
                        "too big: packed data ($"@ + hex4(start as nat) + "-$"@ + hex4(
                            (end - 1) as nat,
                        ) + ") reaches past the span end"@,
                    )
                } else {
                    Ok((start, min_of(end, span.1 as int)))
                }
            },
        }
    }
}

/// The block from `lo` up to `hi`.
pub open spec fn block(lo: int, hi: int) -> Block {
    Block { start: lo as u32, end: hi as u32 }
}

/// Why a decoder of `staged` bytes cannot be at `a`.
pub open spec fn collision_text(a: int, staged: int) -> Seq<char> {
    "the decoder at $"@ + hex4(a as nat) + " (+"@ + decimal(staged as nat)
        + " B) collides with the output span or packed data"@
}

/// Where the staged decoder goes. It never lies on the output span or on the
/// packed data.
pub open spec fn decoder_site(
    p: Placement,
    staged: int,
    span: Block,
    packed: Block,
    image: Block,
) -> Result<int, Seq<char>> {
    match p.decruncher {
        Some(a) => {
            let b = block(a as int, a + staged);
            if b.meets(span) || b.meets(packed) {
                Err(collision_text(a as int, staged))
            } else if a != 0x0100 && a < 0x0200 {
                Err(
                    "the decoder address $"@ + hex4(a as nat) + " is in the stack/zero page"@,
                )
            } else {
                Ok(a as int)
            }
        },
        None => if staged <= STACK_PAGE_SLOT {
            let b = block(0x0100, 0x0100 + staged);
            if b.meets(span) || b.meets(packed) {
                Err(collision_text(0x0100, staged))
            } else {
                Ok(0x0100)
            }
        } else {
            match lowest_room(
                without_all(zones(), seq![span, packed, image]),
                Seq::empty(),
                staged,
                false,
            ) {
                Some(a) => Ok(a),
                None => Err(
                    "no free space for the decoder ("@ + decimal(staged as nat) + " B)"@,
                ),
            }
        },
    }
}

/// Where the scratch buffer goes. It is first written while the stream is
/// unpacked, when the loaded program is no longer needed, so it only keeps
/// clear of the output, the packed stream and the decoder.
pub open spec fn scratch_site(
    name: Seq<char>,
    p: Placement,
    sc: ScratchSpec,
    span: Block,
    packed: Block,
    decoder: Block,
) -> Result<int, Seq<char>> {
    match p.scratch {
        Some(a) => {
            let b = block(a as int, a + sc.len);
            if sc.page_aligned && a % 256 != 0 {
                Err(
                    "the buffer for "@ + name + " must be page-aligned ($"@ + hex4(a as nat)
                        + " is not)"@,
                )
            } else if b.meets(span) || b.meets(packed) {
                Err(
                    "the buffer at $"@ + hex4(a as nat) + " (+"@ + decimal(sc.len as nat)
                        + " B) collides with the output span or packed data"@,
                )
            } else if b.meets(decoder) {
                Err("the buffer at $"@ + hex4(a as nat) + " collides with the decoder"@)
            } else if a < 0x0100 {
                Err("the buffer cannot be in zero page"@)
            } else {
                Ok(a as int)
            }
        },
        None => match lowest_room(
            without_all(zones(), seq![span, packed]),
            seq![decoder],
            sc.len as int,
            sc.page_aligned,
        ) {
            Some(a) => Ok(a),
            None => Err(
                name + " needs "@ + decimal(sc.len as nat) + " bytes of "@ + (if sc.page_aligned {
                    "page-aligned "@
                } else {
                    ""@
                }) + "buffer, but there is no free space outside the output span"@,
            ),
        },
    }
}

/// Whether the relocated mover at `a` is accepted.
pub open spec fn mover_site(a: u16, packed: Block, used: Seq<Block>) -> Result<u16, Seq<char>> {
    let b = block(a as int, a + MOVER_SIZE);
    if b.meets(packed) {
        Err(
            "the mover at $"@ + hex4(a as nat)
                + " collides with packed data — choose a different address"@,
        )
    } else if exists|i: int| 0 <= i < used.len() && b.meets(#[trigger] used[i]) {
        Err("the mover at $"@ + hex4(a as nat) + " collides with the decoder or buffer"@)
    } else {
        Ok(a)
    }
}

/// Where everything goes.
#[derive(Clone, Copy, Debug)]
pub struct Placed {
    /// Size of the staged decoder blob.
    pub staged: u32,
    /// Where the packed stream starts while the decoder runs.
    pub packed_start: u32,
    pub decr_at: u16,
    /// Scratch buffer, if the routine needs one: (address, length).
    pub scratch: Option<(u16, u16)>,
    pub mover_at: Option<u16>,
    /// The copy code of the payload move is folded into the staged decoder blob
    /// (no separate mover placement): the move overwrites the program image, or
    /// does so in the plan that was kept.
    pub mover_folded: bool,
    /// The routine this placement chose (the stack-page-resident extra-small
    /// one when it fits, otherwise the baseline).
    pub choice: DecoderChoice,
    /// Body size of that routine.
    pub code_bytes: u16,
}

/// The loaded program, estimated to the high side.
pub open spec fn image_block(routine: RoutineSpec, p: Placement, len: int) -> Block {
    block(IMAGE_START as int, min_of(image_end(base_staged(routine, p), len), 0x1_0000))
}

/// Whether the payload move lands on the loaded program, so that the copy code
/// must survive the overwrite.
pub open spec fn move_hits_image(
    routine: RoutineSpec,
    p: Placement,
    len: int,
    window: (int, int),
) -> bool {
    block(window.0, window.1).meets(image_block(routine, p, len))
}

/// Size of the staged decoder blob: without a mover address, a move that lands
/// on the loaded program is folded into it.
pub open spec fn staged_size(
    routine: RoutineSpec,
    p: Placement,
    len: int,
    window: (int, int),
) -> int {
    base_staged(routine, p) + (if move_hits_image(routine, p, len, window) && p.mover is None {
        MOVER_FOLD as int
    } else {
        0
    })
}

/// The placement of a routine, once the packed window is known.
pub open spec fn placed_in(
    span: (u32, u32),
    len: int,
    name: Seq<char>,
    routine: RoutineSpec,
    choice: DecoderChoice,
    p: Placement,
    window: (int, int),
) -> Result<Placed, Seq<char>> {
    let span_b = block(span.0 as int, span.1 as int);
    let packed_b = block(window.0, window.1);
    let image_b = image_block(routine, p, len);
    let needed = move_hits_image(routine, p, len, window);
    let staged = staged_size(routine, p, len, window);
    match decoder_site(p, staged, span_b, packed_b, image_b) {
        Err(e) => Err(e),
        Ok(at) => {
            let decoder_b = block(at, at + staged);
            let scratch = match routine.scratch {
                None => Ok(None),
                Some(sc) => match scratch_site(name, p, sc, span_b, packed_b, decoder_b) {
                    Err(e) => Err(e),
                    Ok(s) => Ok(Some((s, sc.len))),
                },
            };
            match scratch {
                Err(e) => Err(e),
                Ok(buffer) => {
                    let used = match buffer {
                        None => seq![decoder_b],
                        Some((s, n)) => seq![decoder_b, block(s, s + n)],
                    };
                    let mover = match p.mover {
                        Some(a) if needed => match mover_site(a, packed_b, used) {
                            Err(e) => Err(e),
                            Ok(a) => Ok(Some(a)),
                        },
                        _ => Ok(None),
                    };
                    match mover {
                        Err(e) => Err(e),
                        Ok(mover_at) => Ok(
                            Placed {
                                staged: staged as u32,
                                packed_start: window.0 as u32,
                                decr_at: at as u16,
                                scratch: match buffer {
                                    None => None,
                                    Some((s, n)) => Some(((s % 0x1_0000) as u16, n)),
                                },
                                mover_at,
                                mover_folded: needed && p.mover is None,
                                choice,
                                code_bytes: routine.code_bytes,
                            },
                        ),
                    }
                },
            }
        },
    }
}

/// The placement of a routine around the worst-case stream.
pub open spec fn planned_in(
    span: (u32, u32),
    f: FormatModel,
    direction: Direction,
    routine: RoutineSpec,
    choice: DecoderChoice,
    p: Placement,
) -> Result<Placed, Seq<char>> {
    let worst = worst_case(span.1 - span.0);
    match packed_window(span, worst, f.format, direction, p, false) {
        Err(e) => Err(e),
        Ok(w) => placed_in(span, worst, f.name, routine, choice, p, w),
    }
}

/// A plan around the worst-case stream, taken over for the real one: the
/// decoder and the buffer stay where they were planned, and the decoder keeps
/// the mover that was folded into it.
pub open spec fn taken_over(
    planned: Placed,
    len: int,
    routine: RoutineSpec,
    p: Placement,
    window: (int, int),
) -> Placed {
    let needed = move_hits_image(routine, p, len, window);
    Placed {
        packed_start: window.0 as u32,
        mover_at: if needed {
            p.mover
        } else {
            None
        },
        ..planned
    }
}

/// Where everything goes for `len` packed bytes, or why it does not fit. The
/// automatic places follow the real stream; where that leaves no place for the
/// buffer or the mover, those of the plan are kept, so a plan that fits is a
/// build that fits.
pub open spec fn placed(
    span: (u32, u32),
    len: int,
    f: FormatModel,
    direction: Direction,
    p: Placement,
    exact: bool,
) -> Result<Placed, Seq<char>> {
    match staged_routine(f, direction, p) {
        None => Err("no "@ + direction.name() + " routine for "@ + f.name),
        Some((routine, choice)) => match packed_window(
            span,
            len,
            f.format,
            direction,
            p,
            exact,
        ) {
            Err(e) => Err(e),
            Ok(window) => match placed_in(span, len, f.name, routine, choice, p, window) {
                Ok(at) => Ok(at),
                Err(e) => match planned_in(span, f, direction, routine, choice, p) {
                    Ok(planned) if exact && len <= worst_case(span.1 - span.0) => Ok(
                        taken_over(planned, len, routine, p, window),
                    ),
                    _ => Err(e),
                },
            },
        },
    }
}

/// Whether the result says what the model says.
pub open spec fn says<T>(r: Result<T, String>, model: Result<T, Seq<char>>) -> bool {
    match (r, model) {
        (Ok(a), Ok(b)) => a == b,
        (Err(a), Err(b)) => a@ == b,
        _ => false,
    }
}

/// The packed window of a layout.
fn find_window(
    span: (u32, u32),
    embedded_len: u32,
    format: Format,
    direction: Direction,
    placement: &Placement,
    exact: bool,
) -> (r: Result<(u32, u32), String>)
    requires
        valid_span(span),
        embedded_len <= u32::MAX - 0x2_0000,
    ensures
        match (
            r,
            packed_window(span, embedded_len as int, format, direction, *placement, exact),
        ) {
            (Ok(a), Ok(b)) => a.0 == b.0 && a.1 == b.1 && cuttable(Block { start: a.0, end: a.1 }),
            (Err(a), Err(b)) => a@ == b,
            _ => false,
        },
{
    if format == Format::TsCrunch && direction == Direction::Backward {
        let end = span.1 + placement.tsc_shift as u32;
        if !exact {
            let low = if end >= embedded_len && end - embedded_len > 0x0200 {
                end - embedded_len
            } else {
                0x0200
            };
            let high = if end < 0x1_0000 {
                end
            } else {
                0x1_0000
            };
            return Ok((low, high));
        }
        if end > 0x1_0000 {
            let mut e = "tscrunch in-place needs ".to_owned();
            push_decimal(&mut e, placement.tsc_shift as u64);
            e.append(" bytes above the span end, but the stream would cross $FFFF");
            return Err(e);
        }
        if end < embedded_len {
            return Err("packed data is larger than the output span".to_owned());
        }
        let start = end - embedded_len;
        if start < 0x0200 {
            return Err("packed data reaches below $0200".to_owned());
        }
        return Ok((start, end));
    }
    match direction {
        Direction::Forward => {
            if !exact {
                let low = if embedded_len <= 0x1_0000 && 0x1_0000 - embedded_len > span.0 + 1 {
                    0x1_0000 - embedded_len
                } else {
                    span.0 + 1
                };
                return Ok((low, 0x1_0000));
            }
            if embedded_len > 0x1_0000 {
                return Err("packed data is larger than the address space".to_owned());
            }
            let start = 0x1_0000 - embedded_len;
            if start <= span.0 {
                let mut e = "too big: packed data ($".to_owned();
                push_hex4(&mut e, start as u64);
                e.append("-$FFFF) reaches down to the span start $");
                push_hex4(&mut e, span.0 as u64);
                return Err(e);
            }
            Ok((start, 0x1_0000))
        },
        Direction::Backward => {
            if span.0 <= 0x0200 + placement.margin as u32 {
                let mut e = "the span starts at $".to_owned();
                push_hex4(&mut e, span.0 as u64);
                e.append(" — no room for packed data ");
                push_decimal(&mut e, placement.margin as u64);
                e.append(" bytes below the start (above $0200)");
                return Err(e);
            }
            let start = span.0 - placement.margin as u32;
            let end = start + embedded_len;
            if exact && end > span.1 {
                let mut e = "too big: packed data ($".to_owned();
                push_hex4(&mut e, start as u64);
                e.append("-$");
                push_hex4(&mut e, (end - 1) as u64);
                e.append(") reaches past the span end");
                return Err(e);
            }
            let high = if end < span.1 {
                end
            } else {
                span.1
            };
            Ok((start, high))
        },
    }
}

/// The pool that is left of the zones is in order.
proof fn lemma_pool(cuts: Seq<Block>)
    requires
        all_cuttable(cuts),
    ensures
        pooled(without_all(zones(), cuts)),
{
    assert(pooled(zones()));
    lemma_without_all(zones(), cuts);
}

/// Says that a decoder cannot be at `a`.
fn collision(a: u32, staged: u32) -> (e: String)
    ensures
        e@ == collision_text(a as int, staged as int),
{
    let mut e = "the decoder at $".to_owned();
    push_hex4(&mut e, a as u64);
    e.append(" (+");
    push_decimal(&mut e, staged as u64);
    e.append(" B) collides with the output span or packed data");
    e
}

/// Places the decoder.
fn find_decoder(placement: &Placement, staged: u32, span: Block, packed: Block, image: Block) -> (r:
    Result<u32, String>)
    requires
        0 < staged <= 0x1_1000,
        cuttable(span),
        cuttable(packed),
        cuttable(image),
    ensures
        match (r, decoder_site(*placement, staged as int, span, packed, image)) {
            (Ok(a), Ok(b)) => a == b && a <= 0xFFFF,
            (Err(a), Err(b)) => a@ == b,
            _ => false,
        },
{
    match placement.decruncher {
        Some(a) => {
            let b = Block { start: a as u32, end: a as u32 + staged };
            if b.overlaps(&span) || b.overlaps(&packed) {
                return Err(collision(a as u32, staged));
            }
            if a != 0x0100 && a < 0x0200 {
                let mut e = "the decoder address $".to_owned();
                push_hex4(&mut e, a as u64);
                e.append(" is in the stack/zero page");
                return Err(e);
            }
            Ok(a as u32)
        },
        None => {
            if staged <= STACK_PAGE_SLOT {
                let b = Block { start: 0x0100, end: 0x0100 + staged };
                if b.overlaps(&span) || b.overlaps(&packed) {
                    return Err(collision(0x0100, staged));
                }
                return Ok(0x0100);
            }
            let cuts: [Block; 3] = [span, packed, image];
            let pool = auto_pool(&cuts);
            let none: Vec<Block> = Vec::new();
            proof {
                assert(cuts@ =~= seq![span, packed, image]);
                assert(all_cuttable(cuts@));
                lemma_pool(cuts@);
                assert(none@ =~= Seq::<Block>::empty());
                lemma_room_below_top(pool@, none@, staged as int, false);
            }
            match first_fit(&pool, &none, staged, false) {
                Some(a) => Ok(a),
                None => {
                    let mut e = "no free space for the decoder (".to_owned();
                    push_decimal(&mut e, staged as u64);
                    e.append(" B)");
                    Err(e)
                },
            }
        },
    }
}

/// Room in the pool lies inside the 64 KB address space.
proof fn lemma_room_below_top(segs: Seq<Block>, used: Seq<Block>, len: int, page: bool)
    requires
        pooled(segs),
    ensures
        match lowest_room(segs, used, len, page) {
            Some(a) => 0x0334 <= a && a + len <= 0x1_0000 && (page ==> a % 256 == 0),
            None => true,
        },
{
    lowest_room_is_lowest(segs, used, len, page);
    if lowest_room(segs, used, len, page) is Some {
        let a = lowest_room(segs, used, len, page)->0;
        assert(room_at(segs, used, len, page, a));
        let (lo, hi) = choose|lo: int, hi: int| #[trigger]
            free_stretch(segs, used, lo, hi) && lo <= a && a + len <= hi;
        let i = choose|i: int| 0 <= i < segs.len() && (#[trigger] segs[i]).holds(lo, hi);
        assert(segs[i].holds(lo, hi));
    }
}

/// Places the scratch buffer.
fn find_scratch(
    name: &str,
    placement: &Placement,
    sc: ScratchSpec,
    span: Block,
    packed: Block,
    decoder: Block,
) -> (r: Result<u32, String>)
    requires
        cuttable(span),
        cuttable(packed),
        decoder.start <= decoder.end,
    ensures
        match (r, scratch_site(name@, *placement, sc, span, packed, decoder)) {
            (Ok(a), Ok(b)) => a == b && a <= 0x1_0000,
            (Err(a), Err(b)) => a@ == b,
            _ => false,
        },
{
    match placement.scratch {
        Some(a) => {
            if sc.page_aligned && a % 256 != 0 {
                let mut e = "the buffer for ".to_owned();
                e.append(name);
                e.append(" must be page-aligned ($");
                push_hex4(&mut e, a as u64);
                e.append(" is not)");
                return Err(e);
            }
            let b = Block { start: a as u32, end: a as u32 + sc.len as u32 };
            if b.overlaps(&span) || b.overlaps(&packed) {
                let mut e = "the buffer at $".to_owned();
                push_hex4(&mut e, a as u64);
                e.append(" (+");
                push_decimal(&mut e, sc.len as u64);
                e.append(" B) collides with the output span or packed data");
                return Err(e);
            }
            if b.overlaps(&decoder) {
                let mut e = "the buffer at $".to_owned();
                push_hex4(&mut e, a as u64);
                e.append(" collides with the decoder");
                return Err(e);
            }
            if a < 0x0100 {
                return Err("the buffer cannot be in zero page".to_owned());
            }
            Ok(a as u32)
        },
        None => {
            let cuts: [Block; 2] = [span, packed];
            let pool = auto_pool(&cuts);
            let mut used: Vec<Block> = Vec::new();
            used.push(decoder);
            proof {
                assert(cuts@ =~= seq![span, packed]);
                assert(all_cuttable(cuts@));
                lemma_pool(cuts@);
                assert(used@ =~= seq![decoder]);
                lemma_room_below_top(pool@, used@, sc.len as int, sc.page_aligned);
            }
            match first_fit(&pool, &used, sc.len as u32, sc.page_aligned) {
                Some(a) => Ok(a),
                None => {
                    let mut e = name.to_owned();
                    e.append(" needs ");
                    push_decimal(&mut e, sc.len as u64);
                    e.append(" bytes of ");
                    e.append(
                        if sc.page_aligned {
                            "page-aligned "
                        } else {
                            ""
                        },
                    );
                    e.append("buffer, but there is no free space outside the output span");
                    Err(e)
                },
            }
        },
    }
}

/// Checks an explicit mover address.
fn find_mover(a: u16, packed: Block, used: &Vec<Block>) -> (r: Result<u16, String>)
    ensures
        says(r, mover_site(a, packed, used@)),
{
    let b = Block { start: a as u32, end: a as u32 + MOVER_SIZE };
    if b.overlaps(&packed) {
        let mut e = "the mover at $".to_owned();
        push_hex4(&mut e, a as u64);
        e.append(" collides with packed data — choose a different address");
        return Err(e);
    }
    let mut i: usize = 0;
    while i < used.len()
        invariant
            i <= used.len(),
            b == block(a as int, a + MOVER_SIZE),
            !b.meets(packed),
            forall|k: int| 0 <= k < i ==> !b.meets(#[trigger] used@[k]),
        decreases used.len() - i,
    {
        if b.overlaps(&used[i]) {
            let mut e = "the mover at $".to_owned();
            push_hex4(&mut e, a as u64);
            e.append(" collides with the decoder or buffer");
            return Err(e);
        }
        i += 1;
    }
    Ok(a)
}

/// Picks the routine to stage: the balanced or the fastest one, or the
/// extra-small stack-page one when the decoder address is automatic and the
/// whole blob fits the `$0100` slot. The packed stream is the same either way.
fn choose_routine(format: &FormatInfo, direction: Direction, placement: &Placement) -> (r: Option<
    (RoutineSpec, DecoderChoice),
>)
    ensures
        r == staged_routine(format@, direction, *placement),
{
    let set = format.decoders(direction, placement.allow_illegal);
    let (usual, choice) = if placement.priority_speed {
        (set.fastest, DecoderChoice::Fastest)
    } else {
        (set.balanced, DecoderChoice::Balanced)
    };
    let epilogue = epilogue_len(placement);
    match usual {
        None => None,
        Some(baseline) => match set.stack_page {
            Some(zp) => {
                if placement.decruncher.is_none() && zp.code_bytes as u32 + ZP_STACK_WRAPPER
                    + epilogue <= STACK_PAGE_SLOT {
                    Some((zp, DecoderChoice::StackPage))
                } else {
                    Some((baseline, choice))
                }
            },
            None => Some((baseline, choice)),
        },
    }
}

/// Sizes the staged decoder blob up: its size without a mover, the loaded
/// program, and whether the payload move lands on that.
fn size_up(routine: RoutineSpec, placement: &Placement, embedded_len: u32, window: (u32, u32)) -> (r: (
    u32,
    Block,
    bool,
))
    requires
        embedded_len <= u32::MAX - 0x2_0000,
    ensures
        ({
            let len = embedded_len as int;
            let w = (window.0 as int, window.1 as int);
            &&& 0 < r.0 <= 0x1_1000
            &&& r.0 == staged_size(routine, *placement, len, w)
            &&& r.1 == image_block(routine, *placement, len)
            &&& r.2 == move_hits_image(routine, *placement, len, w)
        }),
{
    let base: u32 = routine.code_bytes as u32 + (if routine.zp_stack {
        ZP_STACK_WRAPPER
    } else {
        STAGE_WRAPPER
    }) + epilogue_len(placement);
    let estimate = image_end_estimate(base, embedded_len);
    let image_b = Block {
        start: IMAGE_START,
        end: if estimate < 0x1_0000 {
            estimate
        } else {
            0x1_0000
        },
    };
    let needed = Block { start: window.0, end: window.1 }.overlaps(&image_b);
    let staged: u32 = base + (if needed && placement.mover.is_none() {
        MOVER_FOLD
    } else {
        0
    });
    (staged, image_b, needed)
}

/// Places the decoder, the scratch buffer and the mover around the packed
/// window.
fn place_in(
    span: (u32, u32),
    embedded_len: u32,
    name: &str,
    routine: RoutineSpec,
    choice: DecoderChoice,
    placement: &Placement,
    window: (u32, u32),
) -> (r: Result<Placed, String>)
    requires
        valid_span(span),
        embedded_len <= u32::MAX - 0x2_0000,
        cuttable(Block { start: window.0, end: window.1 }),
    ensures
        says(
            r,
            placed_in(
                span,
                embedded_len as int,
                name@,
                routine,
                choice,
                *placement,
                (window.0 as int, window.1 as int),
            ),
        ),
{
    let span_b = Block { start: span.0, end: span.1 };
    let packed_b = Block { start: window.0, end: window.1 };
    let (staged, image_b, needed) = size_up(routine, placement, embedded_len, window);
    let folded = needed && placement.mover.is_none();
    let at = match find_decoder(placement, staged, span_b, packed_b, image_b) {
        Ok(a) => a,
        Err(e) => return Err(e),
    };
    let decoder_b = Block { start: at, end: at + staged };
    let mut used: Vec<Block> = Vec::new();
    used.push(decoder_b);
    assert(used@ =~= seq![decoder_b]);
    let scratch: Option<(u16, u16)> = match routine.scratch {
        None => None,
        Some(sc) => {
            let s = match find_scratch(name, placement, sc, span_b, packed_b, decoder_b) {
                Ok(s) => s,
                Err(e) => return Err(e),
            };
            used.push(Block { start: s, end: s + sc.len as u32 });
            assert(used@ =~= seq![decoder_b, block(s as int, s + sc.len)]);
            Some(((s % 0x1_0000) as u16, sc.len))
        },
    };
    let mover_at: Option<u16> = match placement.mover {
        Some(a) => {
            if needed {
                match find_mover(a, packed_b, &used) {
                    Ok(a) => Some(a),
                    Err(e) => return Err(e),
                }
            } else {
                None
            }
        },
        None => None,
    };
    Ok(
        Placed {
            staged,
            packed_start: window.0,
            decr_at: at as u16,
            scratch,
            mover_at,
            mover_folded: folded,
            choice,
            code_bytes: routine.code_bytes,
        },
    )
}

/// Shared placement computation for preview (worst-case packed size,
/// `exact = false`) and build (real packed size, `exact = true`). Size
/// feasibility ("too big") is only decidable with the real length, so those
/// checks run only when `exact`; the preview clamps the packed window instead,
/// so a worst-case guess never refuses a window that the real stream fits. A
/// decoder or a buffer for which only a shorter stream leaves room is still
/// refused by the preview. The build falls back on the planned places where
/// those of the shorter stream collide.
pub fn place(
    span: (u32, u32),
    embedded_len: u32,
    format: &FormatInfo,
    direction: Direction,
    placement: &Placement,
    exact: bool,
) -> (r: Result<Placed, String>)
    requires
        valid_span(span),
        embedded_len <= u32::MAX - 0x2_0000,
    ensures
        says(r, placed(span, embedded_len as int, format@, direction, *placement, exact)),
{
    let (routine, choice) = match choose_routine(format, direction, placement) {
        Some(c) => c,
        None => {
            let mut e = "no ".to_owned();
            e.append(direction.as_str());
            e.append(" routine for ");
            e.append(format.name.as_str());
            return Err(e);
        },
    };
    let name = format.name.as_str();
    let w = match find_window(span, embedded_len, format.format, direction, placement, exact) {
        Ok(w) => w,
        Err(e) => return Err(e),
    };
    let e = match place_in(span, embedded_len, name, routine, choice, placement, w) {
        Ok(at) => return Ok(at),
        Err(e) => e,
    };
    let worst = clen_worst_case(span.1 - span.0);
    if !exact || embedded_len > worst {
        return Err(e);
    }
    let planned = match find_window(span, worst, format.format, direction, placement, false) {
        Ok(guess) => match place_in(span, worst, name, routine, choice, placement, guess) {
            Ok(at) => at,
            Err(_) => return Err(e),
        },
        Err(_) => return Err(e),
    };
    let (_, _, needed) = size_up(routine, placement, embedded_len, w);
    Ok(
        Placed {
            packed_start: w.0,
            mover_at: if needed {
                placement.mover
            } else {
                None
            },
            ..planned
        },
    )
}

/// Why a direction cannot be used before compression has run; `None` if it can.
pub open spec fn refusal(span: (u32, u32), f: FormatModel, direction: Direction, p: Placement) -> Option<
    Seq<char>,
> {
    if !feasible(span, direction, p) {
        Some(infeasible_text(span, direction, p))
    } else if f.set(direction, p.allow_illegal).balanced is None {
        Some(
            f.name + " has no "@ + direction.name() + " "@ + (if p.allow_illegal {
                ""@
            } else {
                "legal "@
            }) + "decoder"@,
        )
    } else {
        match placed(span, worst_case(span.1 - span.0), f, direction, p, false) {
            Ok(_) => None,
            Err(e) => Some(e),
        }
    }
}

/// The directions to try, in order, and why the others were left out.
pub struct PlanModel {
    pub dirs: Seq<Direction>,
    pub skipped: Seq<Seq<char>>,
}

/// `direction` if it can be used.
pub open spec fn accepted(span: (u32, u32), f: FormatModel, direction: Direction, p: Placement) -> Seq<
    Direction,
> {
    if refusal(span, f, direction, p) is None {
        seq![direction]
    } else {
        Seq::empty()
    }
}

/// The reason against `direction`, if there is one.
pub open spec fn refused(span: (u32, u32), f: FormatModel, direction: Direction, p: Placement) -> Seq<
    Seq<char>,
> {
    match refusal(span, f, direction, p) {
        None => Seq::empty(),
        Some(e) => seq![direction.name() + ": "@ + e],
    }
}

/// The directions to try in preference order. A manual choice is tried alone.
/// `Auto` takes the span rule's direction first, then the other one, so a
/// format that only fits one way is offered with that direction instead of
/// being hidden.
pub open spec fn candidates(span: (u32, u32), f: FormatModel, p: Placement) -> Result<
    PlanModel,
    Seq<char>,
> {
    let first = wanted(span, p.direction);
    if p.direction is Auto {
        let second = first.opposite();
        let dirs = accepted(span, f, first, p) + accepted(span, f, second, p);
        let skipped = refused(span, f, first, p) + refused(span, f, second, p);
        if dirs.len() == 0 {
            Err(joined(skipped, "; "@))
        } else {
            Ok(PlanModel { dirs, skipped })
        }
    } else {
        match refusal(span, f, first, p) {
            None => Ok(PlanModel { dirs: seq![first], skipped: Seq::empty() }),
            Some(e) => Err(e),
        }
    }
}

/// Directions the build will try, in order, plus, for `Auto`, the reason a
/// direction was pruned (surfaced when the surviving candidates also fail, so
/// the pruned direction's problem is never silently masked).
pub struct DirectionPlan {
    pub dirs: Vec<Direction>,
    pub skipped: Vec<String>,
}

impl View for DirectionPlan {
    type V = PlanModel;

    open spec fn view(&self) -> PlanModel {
        PlanModel { dirs: self.dirs@, skipped: texts(self.skipped@) }
    }
}

/// Checks one direction for span feasibility, routine existence and worst-case
/// placement.
fn try_direction(
    span: (u32, u32),
    format: &FormatInfo,
    direction: Direction,
    placement: &Placement,
) -> (r: Result<Placed, String>)
    requires
        valid_span(span),
    ensures
        match r {
            Ok(p) => refusal(span, format@, direction, *placement) is None && placed(
                span,
                worst_case(span.1 - span.0),
                format@,
                direction,
                *placement,
                false,
            ) == Ok::<Placed, Seq<char>>(p),
            Err(e) => refusal(span, format@, direction, *placement) == Some(e@),
        },
{
    if let Err(e) = direction_feasible(span, direction, placement) {
        return Err(e);
    }
    if !has_routine(format, direction, placement.allow_illegal) {
        let mut e = format.name.clone();
        e.append(" has no ");
        e.append(direction.as_str());
        e.append(" ");
        e.append(
            if placement.allow_illegal {
                ""
            } else {
                "legal "
            },
        );
        e.append("decoder");
        return Err(e);
    }
    let estimate = clen_worst_case(span.1 - span.0);
    place(span, estimate, format, direction, placement, false)
}

/// The reason against a direction, with the direction in front.
fn with_direction(direction: Direction, e: &String) -> (r: String)
    ensures
        r@ == direction.name() + ": "@ + e@,
{
    let mut s = direction.as_str().to_owned();
    s.append(": ");
    s.append(e.as_str());
    s
}

/// Directions to try, in preference order, each pre-checked for span
/// feasibility, routine existence and worst-case placement.
pub fn direction_candidates(span: (u32, u32), format: &FormatInfo, placement: &Placement) -> (r:
    Result<DirectionPlan, String>)
    requires
        valid_span(span),
    ensures
        match (r, candidates(span, format@, *placement)) {
            (Ok(a), Ok(b)) => a.dirs@ == b.dirs && texts(a.skipped@) == b.skipped,
            (Err(a), Err(b)) => a@ == b,
            _ => false,
        },
{
    let first = match placement.direction {
        DirectionChoice::Auto => direction_for_span(span.1),
        DirectionChoice::Forward => Direction::Forward,
        DirectionChoice::Backward => Direction::Backward,
    };
    let mut dirs: Vec<Direction> = Vec::new();
    let mut skipped: Vec<String> = Vec::new();
    if placement.direction != DirectionChoice::Auto {
        return match try_direction(span, format, first, placement) {
            Ok(_) => {
                dirs.push(first);
                assert(dirs@ =~= seq![first]);
                assert(texts(skipped@) =~= Seq::<Seq<char>>::empty());
                Ok(DirectionPlan { dirs, skipped })
            },
            Err(e) => Err(e),
        };
    }
    let second = first.other();
    match try_direction(span, format, first, placement) {
        Ok(_) => {
            dirs.push(first);
        },
        Err(e) => {
            skipped.push(with_direction(first, &e));
        },
    }
    assert(dirs@ =~= accepted(span, format@, first, *placement));
    assert(texts(skipped@) =~= refused(span, format@, first, *placement));
    match try_direction(span, format, second, placement) {
        Ok(_) => {
            dirs.push(second);
        },
        Err(e) => {
            let ghost before = skipped@;
            skipped.push(with_direction(second, &e));
            assert(texts(skipped@) =~= texts(before) + refused(span, format@, second, *placement));
        },
    }
    assert(dirs@ =~= accepted(span, format@, first, *placement) + accepted(
        span,
        format@,
        second,
        *placement,
    ));
    assert(texts(skipped@) =~= refused(span, format@, first, *placement) + refused(
        span,
        format@,
        second,
        *placement,
    ));
    if dirs.len() == 0 {
        Err(join(&skipped, "; "))
    } else {
        Ok(DirectionPlan { dirs, skipped })
    }
}

/// Plan before compression (everything derivable without running the encoder),
/// shown live and used to filter the format list.
pub struct PlanPreview {
    pub direction: Direction,
    /// Estimated staged decruncher size (routine and wrapper).
    pub staged_size: u32,
    /// Resolved decruncher address (override or automatic).
    pub decruncher_at: Option<u16>,
    /// Resolved mover address (only used if the payload move needs relocation).
    pub mover_at: u16,
    /// Scratch buffer placement, if the format needs one: (address, length).
    pub scratch: Option<(u16, u16)>,
    /// Why this format cannot be used for the current image (`None` = usable).
    pub unavailable: Option<String>,
}

/// What a [`PlanPreview`] holds.
pub struct PreviewModel {
    pub direction: Direction,
    pub staged_size: int,
    pub decruncher_at: Option<u16>,
    pub mover_at: u16,
    pub scratch: Option<(u16, u16)>,
    pub unavailable: Option<Seq<char>>,
}

impl View for PlanPreview {
    type V = PreviewModel;

    open spec fn view(&self) -> PreviewModel {
        PreviewModel {
            direction: self.direction,
            staged_size: self.staged_size as int,
            decruncher_at: self.decruncher_at,
            mover_at: self.mover_at,
            scratch: self.scratch,
            unavailable: match self.unavailable {
                Some(e) => Some(e@),
                None => None,
            },
        }
    }
}

/// The explicit mover address, or the default one.
pub open spec fn mover_address(p: Placement) -> u16 {
    match p.mover {
        Some(a) => a,
        None => DEFAULT_MOVER,
    }
}

/// The plan of a span: that of the first candidate direction at the worst-case
/// packed size, or the reason why there is none.
pub open spec fn preview(span: (u32, u32), f: FormatModel, p: Placement) -> PreviewModel {
    match candidates(span, f, p) {
        Err(e) => PreviewModel {
            direction: rule(span.1 as int),
            staged_size: 0,
            decruncher_at: None,
            mover_at: mover_address(p),
            scratch: None,
            unavailable: Some(e),
        },
        Ok(plan) => {
            let at = placed(span, worst_case(span.1 - span.0), f, plan.dirs[0], p, false)->Ok_0;
            PreviewModel {
                direction: plan.dirs[0],
                staged_size: at.staged as int,
                decruncher_at: Some(at.decr_at),
                mover_at: match at.mover_at {
                    Some(a) => a,
                    None => mover_address(p),
                },
                scratch: at.scratch,
                unavailable: None,
            }
        },
    }
}

/// The span of an image as addresses.
pub open spec fn image_span(regs: Seq<RegionModel>) -> (u32, u32) {
    let s = span_of(regs)->0;
    (s.0 as u32, s.1 as u32)
}

/// Computes the live plan without compressing (worst-case packed size). A
/// format whose plan is `unavailable` is left out of the list.
pub fn plan_preview(image: &MemoryImage, format: &FormatInfo, placement: &Placement) -> (r: Result<
    PlanPreview,
    String,
>)
    requires
        image.wf(),
    ensures
        match r {
            Err(e) => image@.len() == 0 && e@ == "no .prg added"@,
            Ok(v) => image@.len() > 0 && v@ == preview(image_span(image@), format@, *placement),
        },
{
    let span = match image.span() {
        Some(s) => s,
        None => return Err("no .prg added".to_owned()),
    };
    let mover = match placement.mover {
        Some(a) => a,
        None => DEFAULT_MOVER,
    };
    let plan = match direction_candidates(span, format, placement) {
        Ok(c) => c,
        Err(e) => {
            return Ok(
                PlanPreview {
                    direction: direction_for_span(span.1),
                    staged_size: 0,
                    decruncher_at: None,
                    mover_at: mover,
                    scratch: None,
                    unavailable: Some(e),
                },
            );
        },
    };
    proof {
        candidates_are_usable(span, format@, *placement);
    }
    let direction = plan.dirs[0];
    match try_direction(span, format, direction, placement) {
        Ok(p) => Ok(
            PlanPreview {
                direction,
                staged_size: p.staged,
                decruncher_at: Some(p.decr_at),
                mover_at: match p.mover_at {
                    Some(a) => a,
                    None => mover,
                },
                scratch: p.scratch,
                unavailable: None,
            },
        ),
        Err(e) => {
            assert(false);
            Err(e)
        },
    }
}

/// There is a candidate in every plan, each candidate can be used, and each
/// occurs once.
pub proof fn candidates_are_usable(span: (u32, u32), f: FormatModel, p: Placement)
    ensures
        candidates(span, f, p) matches Ok(plan) ==> {
            &&& 1 <= plan.dirs.len() <= 2
            &&& forall|i: int|
                0 <= i < plan.dirs.len() ==> refusal(span, f, #[trigger] plan.dirs[i], p) is None
            &&& plan.dirs.len() == 2 ==> plan.dirs[0] == rule(span.1 as int) && plan.dirs[1]
                == plan.dirs[0].opposite()
        },
{
}

/// Whether the half-open address ranges share an address.
pub open spec fn ranges_meet(a0: int, a1: int, b0: int, b1: int) -> bool {
    a0 < b1 && b0 < a1
}

/// Whether the half-open address ranges share an address.
pub fn overlaps(a0: u32, a1: u32, b0: u32, b1: u32) -> (r: bool)
    ensures
        r == ranges_meet(a0 as int, a1 as int, b0 as int, b1 as int),
{
    a0 < b1 && b0 < a1
}

/// Whether the decompressed span overwrites the IRQ vector at `$0314/15` with
/// program data. A `CLI` before the final `JMP` is only safe if this is false;
/// otherwise a stray interrupt could jump through garbage.
pub fn span_covers_irq_vector(span: (u32, u32)) -> (r: bool)
    ensures
        r == ranges_meet(span.0 as int, span.1 as int, 0x0314, 0x0316),
{
    overlaps(span.0, span.1, 0x0314, 0x0316)
}

/// A span covers the IRQ vector exactly if one of its two bytes lies in it.
pub proof fn irq_vector_has_two_bytes(span: (u32, u32))
    requires
        valid_span(span),
    ensures
        ranges_meet(span.0 as int, span.1 as int, 0x0314, 0x0316) <==> (span.0 <= 0x0314 < span.1
            || span.0 <= 0x0315 < span.1),
{
}

} // verus!
