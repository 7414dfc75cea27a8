//! In-place safety: the write head must never reach an unread stream byte.
//!
//! A packed stream can be momentarily larger than the output it has produced,
//! so a fixed margin is not always enough. Only the exact stream reveals how
//! much room it needs; that measure is taken outside and handed in.
use vstd::prelude::*;

use crate::formats::{Direction, Format, FormatInfo};
#[allow(unused_imports)]
use crate::formats::FormatModel;
use crate::placement::Placement;
use crate::text::{push_decimal, push_hex4};
#[allow(unused_imports)]
use crate::text::{decimal, hex4};
#[allow(unused_imports)]
use crate::plan::{end_aligned, min_of, packed_window, says, valid_span};

verus! {

/// Headroom for the decoder's partial-byte bit buffer, and for any off-by-one
/// between the measured gap and the 6502 pointer arithmetic.
pub const SLACK: u32 = 8;

/// Size of the header that a PuCrunch gap is measured against.
pub const CONTAINER_HEADER: u32 = 19;

/// What has to be measured of a packed stream before its layout is settled.
#[derive(Clone, Copy, PartialEq, Eq, Structural, Debug)]
pub enum Measure {
    /// The largest gap against the container.
    ContainerGap,
    /// How far the stream must move up for the token copies to stay clear.
    UpwardShift,
    /// The largest amount by which reading falls behind writing.
    MaxGap,
    /// Nothing: no exact measure exists.
    Nothing,
}

/// What has to be measured for a format and a direction.
pub open spec fn needed_measure(format: Format, direction: Direction) -> Measure {
    match format {
        Format::PuCrunch => Measure::ContainerGap,
        Format::TsCrunch => match direction {
            Direction::Backward => Measure::UpwardShift,
            Direction::Forward => Measure::Nothing,
        },
        Format::LzanFull | Format::Shrinkler => Measure::Nothing,
        _ => Measure::MaxGap,
    }
}

/// What has to be measured for a format and a direction.
pub fn measure_for(format: Format, direction: Direction) -> (r: Measure)
    ensures
        r == needed_measure(format, direction),
{
    match format {
        Format::PuCrunch => Measure::ContainerGap,
        Format::TsCrunch => match direction {
            Direction::Backward => Measure::UpwardShift,
            Direction::Forward => Measure::Nothing,
        },
        Format::LzanFull => Measure::Nothing,
        Format::Shrinkler => Measure::Nothing,
        _ => Measure::MaxGap,
    }
}

/// A measure, or why it could not be taken.
pub open spec fn measured(gap: Result<i64, String>) -> Result<int, Seq<char>> {
    match gap {
        Ok(g) => Ok(g as int),
        Err(e) => Err(e@),
    }
}

/// The placement with its backward margin raised to `need`.
pub open spec fn with_margin(p: Placement, need: int) -> Placement {
    if p.margin < need {
        Placement { margin: min_of(need, 0xFFFF) as u16, ..p }
    } else {
        p
    }
}

/// Free addresses above the span.
pub open spec fn top_gap(span: (u32, u32)) -> int {
    0x1_0000 - span.1
}

/// The first gap at which a forward PuCrunch container overwrites itself.
pub open spec fn forward_bound(clen: int, span: (u32, u32)) -> int {
    0x1_0000 - clen + CONTAINER_HEADER - span.0
}

/// The first gap at which a backward PuCrunch container at `packed_start`
/// overwrites itself.
pub open spec fn backward_bound(clen: int, span: (u32, u32), packed_start: int) -> int {
    (span.1 - packed_start) - (clen - CONTAINER_HEADER)
}

/// The placement that this stream needs, or why it cannot be unpacked in place
/// in this direction.
pub open spec fn effective(
    f: FormatModel,
    direction: Direction,
    gap: Result<int, Seq<char>>,
    clen: int,
    span: (u32, u32),
    p: Placement,
) -> Result<Placement, Seq<char>> {
    match needed_measure(f.format, direction) {
        Measure::ContainerGap => match (gap, direction) {
            (Err(e), _) => Err(e),
            (Ok(g), Direction::Backward) => Ok(
                with_margin(
                    p,
                    g - (span.1 - span.0) + clen - (CONTAINER_HEADER - 1) + SLACK,
                ),
            ),
            (Ok(g), Direction::Forward) => if g >= forward_bound(clen, span) {
                Err(
                    "pucrunch forward in-place would overwrite "@ + decimal(
                        (g - forward_bound(clen, span) + 1) as nat,
                    ) + " unread stream byte(s) (escape-expanded stretch); try backward"@,
                )
            } else {
                Ok(p)
            },
        },
        Measure::UpwardShift => match gap {
            Err(e) => Err(e),
            Ok(shift) => if shift <= 0 {
                Ok(p)
            } else if top_gap(span) < shift + SLACK {
                Err(
                    "tscrunch in-place needs "@ + decimal((shift + SLACK) as nat)
                        + " bytes above $"@ + hex4((span.1 - 1) as nat)
                        + " (its token copies would overwrite unread stream bytes), but only "@
                        + decimal(top_gap(span) as nat) + " are free below $FFFF"@,
                )
            } else {
                Ok(Placement { tsc_shift: (shift + SLACK) as u16, ..p })
            },
        },
        Measure::MaxGap => match (gap, direction) {
            (Err(e), _) => Err(e),
            (Ok(g), Direction::Backward) => Ok(with_margin(p, g + SLACK)),
            (Ok(g), Direction::Forward) => if top_gap(span) < g + SLACK {
                Err(
                    f.name + " forward in-place needs a "@ + decimal((g + SLACK) as nat)
                        + "-byte gap above $"@ + hex4((span.1 - 1) as nat) + ", but only "@
                        + decimal(top_gap(span) as nat)
                        + " are free below $FFFF (an incompressible tail expands the stream); try backward"@,
                )
            } else {
                Ok(p)
            },
        },
        Measure::Nothing => if direction is Forward && clen > top_gap(span) {
            Err(
                f.name
                    + " forward in-place: packed data overlaps the output and its exact expansion is not modeled; try backward"@,
            )
        } else {
            Ok(p)
        },
    }
}

/// Raises the backward margin.
fn raise_margin(placement: &Placement, need: i128) -> (r: Placement)
    ensures
        r == with_margin(*placement, need as int),
{
    if (placement.margin as i128) < need {
        let margin: u16 = if need < 0xFFFF {
            need as u16
        } else {
            0xFFFF
        };
        Placement { margin, ..*placement }
    } else {
        *placement
    }
}

/// Effective placement for a packed stream of `clen` bytes whose `gap` was
/// measured as [`measure_for`] asks.
///
/// * **Backward**: the margin is raised to the stream's requirement. Placement
///   then rejects it if the larger margin no longer fits below the span start.
/// * **Forward**: the top-aligned layout has no margin knob; the safety gap is
///   the free space above the span. The stream is rejected when that cannot
///   cover the requirement.
///
/// Without a measure, forward is accepted only when the packed stream cannot
/// overlap the output, and backward passes through unchanged.
pub fn inplace_effective_placement(
    format: &FormatInfo,
    direction: Direction,
    gap: &Result<i64, String>,
    clen: usize,
    span: (u32, u32),
    placement: &Placement,
) -> (r: Result<Placement, String>)
    requires
        valid_span(span),
        clen <= u32::MAX,
    ensures
        says(r, effective(format@, direction, measured(*gap), clen as int, span, *placement)),
{
    let measure = measure_for(format.format, direction);
    let avail: u32 = 0x1_0000 - span.1;
    if measure == Measure::Nothing {
        if direction == Direction::Forward && clen > avail as usize {
            let mut e = format.name.clone();
            e.append(
                " forward in-place: packed data overlaps the output and its exact expansion is not modeled; try backward",
            );
            return Err(e);
        }
        return Ok(*placement);
    }
    let gap: i128 = match gap {
        Ok(g) => *g as i128,
        Err(e) => return Err(e.clone()),
    };
    match measure {
        Measure::ContainerGap => match direction {
            Direction::Backward => {
                let need: i128 = gap - (span.1 - span.0) as i128 + clen as i128 - 18 + 8;
                Ok(raise_margin(placement, need))
            },
            Direction::Forward => {
                let bound: i128 = 0x1_0000 - clen as i128 + 19 - span.0 as i128;
                if gap >= bound {
                    let mut e = "pucrunch forward in-place would overwrite ".to_owned();
                    push_decimal(&mut e, (gap - bound + 1) as u64);
                    e.append(" unread stream byte(s) (escape-expanded stretch); try backward");
                    Err(e)
                } else {
                    Ok(*placement)
                }
            },
        },
        Measure::UpwardShift => {
            if gap <= 0 {
                return Ok(*placement);
            }
            let need: i128 = gap + 8;
            if (avail as i128) < need {
                let mut e = "tscrunch in-place needs ".to_owned();
                push_decimal(&mut e, need as u64);
                e.append(" bytes above $");
                push_hex4(&mut e, (span.1 - 1) as u64);
                e.append(" (its token copies would overwrite unread stream bytes), but only ");
                push_decimal(&mut e, avail as u64);
                e.append(" are free below $FFFF");
                return Err(e);
            }
            assert(0 < need <= 0xFFFF);
            Ok(Placement { tsc_shift: need as u16, ..*placement })
        },
        _ => match direction {
            Direction::Backward => Ok(raise_margin(placement, gap + 8)),
            Direction::Forward => {
                let need: i128 = gap + 8;
                if (avail as i128) < need {
                    let mut e = format.name.clone();
                    e.append(" forward in-place needs a ");
                    push_decimal(&mut e, need as u64);
                    e.append("-byte gap above $");
                    push_hex4(&mut e, (span.1 - 1) as u64);
                    e.append(", but only ");
                    push_decimal(&mut e, avail as u64);
                    e.append(
                        " are free below $FFFF (an incompressible tail expands the stream); try backward",
                    );
                    Err(e)
                } else {
                    Ok(*placement)
                }
            },
        },
    }
}

/// Whether a PuCrunch stream overwrites itself in its final place.
pub open spec fn container_check(
    direction: Direction,
    gap: Result<int, Seq<char>>,
    clen: int,
    span: (u32, u32),
    packed_start: int,
) -> Result<(), Seq<char>> {
    let bound = match direction {
        Direction::Forward => forward_bound(clen, span),
        Direction::Backward => backward_bound(clen, span, packed_start),
    };
    match gap {
        Err(e) => Err(e),
        Ok(g) => if g >= bound {
            Err(
                "pucrunch "@ + direction.name() + " in-place decode would overwrite "@ + decimal(
                    (g - bound + 1) as nat,
                )
                    + " unread stream byte(s) (escape-expanded stretch); try the other direction or a larger margin"@,
            )
        } else {
            Ok(())
        },
    }
}

/// Exact in-place safety check for a PuCrunch stream: the write head must never
/// reach an unread stream byte. Forward: container end-aligned at `$10000`,
/// output ascending from the span start. Backward: container at `packed_start`,
/// output descending from the span end.
pub fn pucrunch_inplace_safe(
    direction: Direction,
    gap: &Result<i64, String>,
    clen: usize,
    span: (u32, u32),
    packed_start: u32,
) -> (r: Result<(), String>)
    requires
        valid_span(span),
        clen <= u32::MAX,
    ensures
        says(r, container_check(direction, measured(*gap), clen as int, span, packed_start as int)),
{
    let gap: i128 = match gap {
        Ok(g) => *g as i128,
        Err(e) => return Err(e.clone()),
    };
    let bound: i128 = match direction {
        Direction::Forward => 0x1_0000 - clen as i128 + 19 - span.0 as i128,
        Direction::Backward => (span.1 as i128 - packed_start as i128) - (clen as i128 - 19),
    };
    if gap >= bound {
        let mut e = "pucrunch ".to_owned();
        e.append(direction.as_str());
        e.append(" in-place decode would overwrite ");
        push_decimal(&mut e, (gap - bound + 1) as u64);
        e.append(
            " unread stream byte(s) (escape-expanded stretch); try the other direction or a larger margin",
        );
        return Err(e);
    }
    Ok(())
}

/// Settling a layout only ever raises the backward margin or sets the upward
/// shift; everything that the user chose stays.
pub proof fn settling_keeps_the_users_choices(
    f: FormatModel,
    direction: Direction,
    gap: Result<int, Seq<char>>,
    clen: int,
    span: (u32, u32),
    p: Placement,
)
    ensures
        effective(f, direction, gap, clen, span, p) matches Ok(e) ==> {
            &&& e == Placement { margin: e.margin, tsc_shift: e.tsc_shift, ..p }
            &&& e.margin >= p.margin
            &&& direction is Forward ==> e == p
            &&& e.tsc_shift != p.tsc_shift ==> end_aligned(f.format, direction)
        },
{
}

/// A stream whose measured layout is placed never overwrites an unread byte.
/// Backward, the margin covers the gap and the slack; forward, the free space
/// above the span does; a shifted stream ends at least the shift and the slack
/// above the span end; a forward stream that nothing is measured of does not
/// overlap the output at all. (A PuCrunch stream: see
/// [`settled_container_is_safe`].)
pub proof fn settled_layout_covers_the_gap(
    f: FormatModel,
    direction: Direction,
    gap: int,
    clen: int,
    span: (u32, u32),
    p: Placement,
    len: int,
)
    requires
        valid_span(span),
        0 <= len,
    ensures
        effective(f, direction, Ok(gap), clen, span, p) matches Ok(e) ==> packed_window(
            span,
            len,
            f.format,
            direction,
            e,
            true,
        ) is Ok ==> match needed_measure(f.format, direction) {
            Measure::MaxGap => match direction {
                Direction::Backward => e.margin >= gap + SLACK,
                Direction::Forward => top_gap(span) >= gap + SLACK,
            },
            Measure::UpwardShift => gap > 0 ==> e.tsc_shift == gap + SLACK,
            Measure::ContainerGap => true,
            Measure::Nothing => direction is Forward && len <= clen ==> (packed_window(
                span,
                len,
                f.format,
                direction,
                e,
                true,
            )->Ok_0).0 >= span.1,
        },
{
}

/// A PuCrunch stream whose layout was settled and placed passes the exact
/// check.
pub proof fn settled_container_is_safe(
    f: FormatModel,
    direction: Direction,
    gap: int,
    clen: int,
    span: (u32, u32),
    p: Placement,
    len: int,
)
    requires
        valid_span(span),
        f.format is PuCrunch,
        0 <= len,
    ensures
        effective(f, direction, Ok(gap), clen, span, p) matches Ok(e) ==> (packed_window(
            span,
            len,
            f.format,
            direction,
            e,
            true,
        ) matches Ok(w) ==> container_check(direction, Ok(gap), clen, span, w.0) == Ok::<
            (),
            Seq<char>,
        >(())),
{
}

/// The adjusted placement of a PuCrunch stream always passes the exact check:
/// backward at the raised margin, unless that margin is cut off at `$FFFF`, and
/// forward wherever the container is said to start.
pub proof fn adjusted_containers_pass_the_check(
    f: FormatModel,
    direction: Direction,
    gap: Result<int, Seq<char>>,
    clen: int,
    span: (u32, u32),
    p: Placement,
    start: int,
)
    requires
        f.format is PuCrunch,
    ensures
        effective(f, direction, gap, clen, span, p) matches Ok(e) ==> match direction {
            Direction::Backward => e.margin < 0xFFFF ==> container_check(
                direction,
                gap,
                clen,
                span,
                span.0 - e.margin,
            ) == Ok::<(), Seq<char>>(()),
            Direction::Forward => container_check(direction, gap, clen, span, start) == Ok::<
                (),
                Seq<char>,
            >(()),
        },
{
}

/// A measure is taken at face value.
pub proof fn measures_are_taken_at_face_value(gap: Result<i64, String>)
    ensures
        gap is Ok <==> measured(gap) is Ok,
        gap matches Ok(g) ==> measured(gap)->Ok_0 == g,
        gap matches Err(e) ==> measured(gap)->Err_0 == e@,
{
}

} // verus!
