//! What a build asks its host for.
use vstd::prelude::*;

#[allow(unused_imports)]
use crate::formats::{Direction, Format, FormatModel, RoutineSpec};
#[allow(unused_imports)]
use crate::inplace::{container_check, effective, Measure};
#[allow(unused_imports)]
use crate::placement::Placement;
#[allow(unused_imports)]
use crate::plan::{
    block, image_block, packed_window, placed, staged_routine, valid_span, DecoderChoice, Placed,
};
#[allow(unused_imports)]
use crate::plan_laws::{
    mover_keeps_clear, packed_stream_fits_its_layout, scratch_keeps_clear, sound_scratch,
};
#[allow(unused_imports)]
use crate::sfx::{
    asked, placement_failed, recipe, settled, stage_wf, stays_clear, step, BuiltModel, ChosenModel,
    FaultModel, JobModel, PayloadMove, RecipeModel, ReplyModel, RequestModel, StageModel,
};
#[allow(unused_imports)]
use crate::text::joined;
#[allow(unused_imports)]
use crate::sfx_laws::{sound, sound_choice};

verus! {

/// A format whose largest gap is measured: every one but lzan-full and
/// Shrinkler, which have no measure, and TSCrunch and PuCrunch, which have
/// their own.
pub open spec fn has_gap_function(f: Format) -> bool {
    match f {
        Format::Aplib => true,
        Format::ByteBoozer2 => true,
        Format::Subsizer => true,
        Format::Upkr => true,
        Format::Zx02 => true,
        Format::Zx0 => true,
        Format::Lzsa1 => true,
        Format::Lzsa2 => true,
        Format::Exomizer => true,
        Format::LzanMin => true,
        Format::Bolt => true,
        Format::LzanFull => false,
        Format::Shrinkler => false,
        Format::TsCrunch => false,
        Format::PuCrunch => false,
    }
}

/// Whether nothing is measured of a format's streams in a direction.
pub open spec fn goes_unmeasured(f: Format, direction: Direction) -> bool {
    f is LzanFull || f is Shrinkler || (f is TsCrunch && direction is Forward)
}

/// Before a stream is placed, the build asks for its measure: the largest gap
/// for every format with a gap function, in both directions; the container gap
/// for PuCrunch; the upward shift for TSCrunch backward. Only lzan-full,
/// Shrinkler and TSCrunch forward go without.
pub proof fn streams_are_measured_before_they_are_placed(
    job: JobModel,
    next: int,
    errs: Seq<Seq<char>>,
    stream: Seq<u8>,
    mode: Option<u8>,
)
    requires
        0 <= next < job.dirs.len(),
    ensures
        ({
            let f = job.format.format;
            let direction = job.dirs[next];
            let after = step(
                job,
                StageModel::Compressing { next, errs },
                ReplyModel::Compressed(Ok((stream, mode))),
            );
            &&& has_gap_function(f) ==> asked(job, after) == (RequestModel::Measure {
                format: f,
                direction,
                measure: Measure::MaxGap,
                stream,
            })
            &&& f is PuCrunch ==> asked(job, after) == (RequestModel::Measure {
                format: f,
                direction,
                measure: Measure::ContainerGap,
                stream,
            })
            &&& f is TsCrunch && direction is Backward ==> asked(job, after) == (
            RequestModel::Measure { format: f, direction, measure: Measure::UpwardShift, stream })
            &&& goes_unmeasured(f, direction) <==> !(asked(job, after) is Measure)
        }),
{
}

/// What is measured decides the place: a stream of a format with a gap function
/// that is placed backward starts at least its gap and 8 bytes below the span,
/// and no less than the margin that was asked for; one that is placed forward
/// has its gap and 8 bytes free above the span. A measure that failed is the
/// reason against the direction.
pub proof fn placed_streams_leave_their_gap(
    job: JobModel,
    direction: Direction,
    gap: Result<int, Seq<char>>,
    stream: Seq<u8>,
)
    requires
        job.wf(),
        has_gap_function(job.format.format),
    ensures
        settled(job, direction, gap, stream) matches Ok(at) ==> {
            &&& gap is Ok
            &&& direction is Backward ==> {
                &&& at.packed_start + gap->Ok_0 + 8 <= job.span.0
                &&& at.packed_start + job.placement.margin <= job.span.0
            }
            &&& direction is Forward ==> {
                &&& job.span.1 + gap->Ok_0 + 8 <= 0x1_0000
                &&& at.packed_start + job.embedded_len(direction, stream) == 0x1_0000
            }
        },
        gap is Err ==> settled(job, direction, gap, stream) == Err::<Placed, Seq<char>>(
            gap->Err_0,
        ),
{
    lemma_packed_start(job, direction, gap, stream);
}

/// The margin is raised no further than the gap asks for, and a forward stream
/// is refused over its gap only where the room above the span is too small.
pub proof fn gaps_ask_for_no_more_than_they_need(
    f: FormatModel,
    direction: Direction,
    gap: int,
    clen: int,
    span: (u32, u32),
    p: Placement,
)
    requires
        valid_span(span),
        has_gap_function(f.format),
        gap <= 0xFFF7,
    ensures
        direction is Backward ==> effective(f, direction, Ok(gap), clen, span, p) == Ok::<
            Placement,
            Seq<char>,
        >(
            Placement {
                margin: if p.margin >= gap + 8 {
                    p.margin
                } else {
                    (gap + 8) as u16
                },
                ..p
            },
        ),
        direction is Forward ==> {
            &&& effective(f, direction, Ok(gap), clen, span, p) is Ok <==> span.1 + gap + 8
                <= 0x1_0000
            &&& effective(f, direction, Ok(gap), clen, span, p) matches Ok(e) ==> e == p
        },
{
}

/// A TSCrunch stream that is placed backward ends 8 bytes and its shift above
/// the span end where it has to move up, and at the span end where it has not.
pub proof fn placed_tscrunch_streams_end_above_the_span(
    job: JobModel,
    gap: Result<int, Seq<char>>,
    stream: Seq<u8>,
)
    requires
        job.wf(),
        job.format.format is TsCrunch,
        job.placement.tsc_shift == 0,
    ensures
        settled(job, Direction::Backward, gap, stream) matches Ok(at) ==> {
            let end = at.packed_start + job.embedded_len(Direction::Backward, stream);
            &&& gap is Ok
            &&& gap->Ok_0 > 0 ==> end == job.span.1 + gap->Ok_0 + 8
            &&& gap->Ok_0 <= 0 ==> end == job.span.1
            &&& end <= 0x1_0000
        },
        gap is Err ==> settled(job, Direction::Backward, gap, stream) == Err::<Placed, Seq<char>>(
            gap->Err_0,
        ),
{
    lemma_packed_start(job, Direction::Backward, gap, stream);
}

/// A PuCrunch stream is placed only where its container gap stays short of the
/// first unread byte.
pub proof fn placed_containers_are_read_before_they_are_overwritten(
    job: JobModel,
    direction: Direction,
    gap: Result<int, Seq<char>>,
    stream: Seq<u8>,
)
    requires
        job.wf(),
        job.format.format is PuCrunch,
    ensures
        settled(job, direction, gap, stream) matches Ok(at) ==> {
            &&& gap is Ok
            &&& direction is Forward ==> gap->Ok_0 + job.span.0 + stream.len() < 0x1_0000 + 19
            &&& direction is Backward ==> gap->Ok_0 + at.packed_start + stream.len() < job.span.1
                + 19
        },
        gap is Err ==> settled(job, direction, gap, stream) is Err,
{
}

/// A forward stream that nothing is measured of does not overlap the output.
pub proof fn unmeasured_streams_stay_above_the_span(
    job: JobModel,
    gap: Result<int, Seq<char>>,
    stream: Seq<u8>,
)
    requires
        job.wf(),
        goes_unmeasured(job.format.format, Direction::Forward),
    ensures
        settled(job, Direction::Forward, gap, stream) is Ok ==> job.span.1 + stream.len()
            <= 0x1_0000,
        settled(job, Direction::Forward, gap, stream) == settled(
            job,
            Direction::Forward,
            Ok(0),
            stream,
        ),
{
}

/// Where the packed stream of a settled placement starts and ends.
proof fn lemma_packed_start(
    job: JobModel,
    direction: Direction,
    gap: Result<int, Seq<char>>,
    stream: Seq<u8>,
)
    requires
        job.wf(),
    ensures
        settled(job, direction, gap, stream) matches Ok(at) ==> {
            let eff = effective(
                job.format,
                direction,
                gap,
                stream.len() as int,
                job.span,
                job.placement,
            )->Ok_0;
            let len = job.embedded_len(direction, stream);
            let w = packed_window(job.span, len, job.format.format, direction, eff, true);
            &&& effective(
                job.format,
                direction,
                gap,
                stream.len() as int,
                job.span,
                job.placement,
            ) is Ok
            &&& w is Ok
            &&& at.packed_start == w->Ok_0.0
            &&& w->Ok_0.1 == w->Ok_0.0 + len
        },
{
    if settled(job, direction, gap, stream) is Ok {
        let eff = effective(
            job.format,
            direction,
            gap,
            stream.len() as int,
            job.span,
            job.placement,
        )->Ok_0;
        packed_stream_fits_its_layout(
            job.span,
            job.embedded_len(direction, stream),
            job.format,
            direction,
            eff,
        );
    }
}

/// The placement that a stream settles for.
pub open spec fn settled_for(
    job: JobModel,
    direction: Direction,
    gap: Result<int, Seq<char>>,
    stream: Seq<u8>,
) -> Placement {
    effective(
        job.format,
        direction,
        gap,
        stream.len() as int,
        job.span,
        job.placement,
    )->Ok_0
}

/// Two placements that differ in nothing but the margin and the upward shift.
spec fn same_wishes(p: Placement, e: Placement) -> bool {
    e == Placement { margin: e.margin, tsc_shift: e.tsc_shift, ..p }
}

proof fn lemma_settled(
    job: JobModel,
    direction: Direction,
    gap: Result<int, Seq<char>>,
    stream: Seq<u8>,
)
    requires
        valid_span(job.span),
    ensures
        settled(job, direction, gap, stream) matches Ok(at) ==> {
            let eff = settled_for(job, direction, gap, stream);
            &&& same_wishes(job.placement, eff)
            &&& placed(
                job.span,
                job.embedded_len(direction, stream),
                job.format,
                direction,
                eff,
                true,
            ) == Ok::<Placed, Seq<char>>(at)
        },
{
    crate::inplace::settling_keeps_the_users_choices(
        job.format,
        direction,
        gap,
        stream.len() as int,
        job.span,
        job.placement,
    );
}

proof fn lemma_same_routine(f: FormatModel, direction: Direction, p: Placement, e: Placement)
    requires
        same_wishes(p, e),
    ensures
        staged_routine(f, direction, e) == staged_routine(f, direction, p),
        forall|r: RoutineSpec, n: int| #[trigger] image_block(r, e, n) == image_block(r, p, n),
{
}

proof fn lemma_window(
    span: (u32, u32),
    len: int,
    f: FormatModel,
    direction: Direction,
    e: Placement,
    at: Placed,
)
    requires
        valid_span(span),
        0 <= len <= u32::MAX - 0x2_0000,
        placed(span, len, f, direction, e, true) == Ok::<Placed, Seq<char>>(at),
    ensures
        packed_window(span, len, f.format, direction, e, true) == Ok::<(int, int), Seq<char>>(
            (at.packed_start as int, at.packed_start + len),
        ),
        direction is Forward ==> at.packed_start + len == 0x1_0000,
        at.packed_start + len <= 0x1_0000,
        at.packed_start < 0x1_0000 || len == 0,
{
    packed_stream_fits_its_layout(span, len, f, direction, e);
}

proof fn lemma_reserved(
    span: (u32, u32),
    len: int,
    f: FormatModel,
    direction: Direction,
    p: Placement,
    e: Placement,
    at: Placed,
)
    requires
        valid_span(span),
        0 <= len <= u32::MAX - 0x2_0000,
        same_wishes(p, e),
        sound_scratch(f, direction, p),
        placed(span, len, f, direction, e, true) == Ok::<Placed, Seq<char>>(at),
    ensures
        ({
            let routine = (staged_routine(f, direction, p)->0).0;
            let packed = block(at.packed_start as int, at.packed_start + len);
            let decoder = block(at.decr_at as int, at.decr_at + at.staged);
            let output = block(span.0 as int, span.1 as int);
            &&& at.scratch is Some <==> routine.scratch is Some
            &&& at.scratch matches Some((a, n)) ==> {
                &&& n == routine.scratch->0.len
                &&& !block(a as int, a + n).meets(output)
                &&& !block(a as int, a + n).meets(packed)
                &&& !block(a as int, a + n).meets(decoder)
                &&& routine.scratch->0.page_aligned ==> a % 256 == 0
                &&& p.scratch matches Some(s) ==> a == s
            }
            &&& !decoder.meets(packed)
            &&& !decoder.meets(output)
            &&& p.decruncher matches Some(d) ==> at.decr_at == d
        }),
{
    lemma_same_routine(f, direction, p, e);
    lemma_window(span, len, f, direction, e, at);
    scratch_keeps_clear(span, len, f, direction, e, true);
    crate::plan_laws::decoder_keeps_clear(span, len, f, direction, e, true);
    crate::plan_laws::decoder_goes_where_asked_or_fits(span, len, f, direction, e, true);
}

proof fn lemma_moved(
    span: (u32, u32),
    len: int,
    f: FormatModel,
    direction: Direction,
    p: Placement,
    e: Placement,
    at: Placed,
)
    requires
        valid_span(span),
        0 <= len <= u32::MAX - 0x2_0000,
        same_wishes(p, e),
        sound_scratch(f, direction, p),
        placed(span, len, f, direction, e, true) == Ok::<Placed, Seq<char>>(at),
    ensures
        ({
            let routine = (staged_routine(f, direction, p)->0).0;
            let hits = block(at.packed_start as int, at.packed_start + len).meets(
                image_block(routine, p, len),
            );
            &&& hits && p.mover is None ==> at.mover_folded
            &&& at.mover_folded ==> p.mover is None
            &&& at.mover_at == if hits {
                p.mover
            } else {
                None
            }
            &&& direction is Forward ==> at.packed_start + len == 0x1_0000
        }),
{
    lemma_same_routine(f, direction, p, e);
    lemma_window(span, len, f, direction, e, at);
    mover_keeps_clear(span, len, f, direction, e, true);
}

/// Whether a program is asked for with everything where a settled placement
/// reserved it.
pub open spec fn asks_for_the_placed(
    q: RecipeModel,
    job: JobModel,
    gap: Result<int, Seq<char>>,
) -> bool {
    let at = settled(job, q.direction, gap, q.stream)->Ok_0;
    &&& settled(job, q.direction, gap, q.stream) is Ok
    &&& q.stage_at == at.decr_at
    &&& q.scratch is Some <==> at.scratch is Some
    &&& q.scratch matches Some(a) ==> (at.scratch->0).0 == a
    &&& q.decoder == at.choice
    &&& q.mover_at is Some ==> q.mover_at == at.mover_at
}

/// Every program that a build asks to have assembled is one of a settled
/// stream: the decoder, the buffer and a mover are asked for where placement
/// reserved them.
pub proof fn programs_are_asked_for_as_placed(job: JobModel, stage: StageModel)
    requires
        sound(job, stage),
        asked(job, stage) is Assemble,
    ensures
        job.dirs.contains(asked(job, stage)->Assemble_0.direction),
        exists|gap: Result<int, Seq<char>>| #[trigger]
            asks_for_the_placed(asked(job, stage)->Assemble_0, job, gap),
{
    let q = asked(job, stage)->Assemble_0;
    let chosen = match stage {
        StageModel::Probing { chosen, tailored } => chosen,
        StageModel::Assembling { chosen, tailored, moved } => chosen,
        StageModel::AssemblingTailored { chosen, source, moved, standard } => chosen,
        _ => arbitrary(),
    };
    assert(sound_choice(job, chosen));
    let gap = choose|gap: Result<int, Seq<char>>| #[trigger]
        settled(job, chosen.direction, gap, chosen.stream) == Ok::<Placed, Seq<char>>(
            chosen.placed,
        );
    assert(asks_for_the_placed(q, job, gap));
}

/// The routine that a settled placement stages.
pub open spec fn routine_of(job: JobModel, direction: Direction) -> RoutineSpec {
    (staged_routine(job.format, direction, job.placement)->0).0
}

/// The buffer that a program is asked for with is the one that placement
/// reserved: there is one exactly if the routine needs one, and the block from
/// its address, as long as the routine's buffer, meets neither the output span
/// nor the packed stream nor the staged decoder.
pub proof fn the_buffer_asked_for_is_the_one_reserved(
    job: JobModel,
    q: RecipeModel,
    gap: Result<int, Seq<char>>,
)
    requires
        job.wf(),
        q.stream.len() <= u32::MAX - 0x3_0000,
        sound_scratch(job.format, q.direction, job.placement),
        asks_for_the_placed(q, job, gap),
    ensures
        ({
            let at = settled(job, q.direction, gap, q.stream)->Ok_0;
            let routine = routine_of(job, q.direction);
            let packed = block(
                at.packed_start as int,
                at.packed_start + job.embedded_len(q.direction, q.stream),
            );
            &&& q.scratch is Some <==> routine.scratch is Some
            &&& q.scratch matches Some(a) ==> {
                let buffer = block(a as int, a + routine.scratch->0.len);
                &&& at.scratch == Some((a, routine.scratch->0.len))
                &&& !buffer.meets(block(job.span.0 as int, job.span.1 as int))
                &&& !buffer.meets(packed)
                &&& !buffer.meets(block(q.stage_at as int, q.stage_at + at.staged))
                &&& routine.scratch->0.page_aligned ==> a % 256 == 0
                &&& job.placement.scratch matches Some(s) ==> a == s
            }
            &&& !block(q.stage_at as int, q.stage_at + at.staged).meets(packed)
            &&& !block(q.stage_at as int, q.stage_at + at.staged).meets(
                block(job.span.0 as int, job.span.1 as int),
            )
            &&& job.placement.decruncher matches Some(d) ==> q.stage_at == d
        }),
{
    lemma_settled(job, q.direction, gap, q.stream);
    lemma_reserved(
        job.span,
        job.embedded_len(q.direction, q.stream),
        job.format,
        q.direction,
        job.placement,
        settled_for(job, q.direction, gap, q.stream),
        settled(job, q.direction, gap, q.stream)->Ok_0,
    );
}

/// Whether the buffer of a program that is asked for is the one that placement
/// reserved, clear of everything else.
pub open spec fn has_its_reserved_buffer(
    q: RecipeModel,
    job: JobModel,
    gap: Result<int, Seq<char>>,
) -> bool {
    let at = settled(job, q.direction, gap, q.stream)->Ok_0;
    let routine = routine_of(job, q.direction);
    &&& settled(job, q.direction, gap, q.stream) is Ok
    &&& q.scratch is Some <==> at.scratch is Some
    &&& q.scratch matches Some(a) ==> {
        let buffer = block(a as int, a + routine.scratch->0.len);
        &&& routine.scratch is Some
        &&& at.scratch == Some((a, routine.scratch->0.len))
        &&& !buffer.meets(block(job.span.0 as int, job.span.1 as int))
        &&& !buffer.meets(
            block(
                at.packed_start as int,
                at.packed_start + job.embedded_len(q.direction, q.stream),
            ),
        )
        &&& !buffer.meets(block(q.stage_at as int, q.stage_at + at.staged))
    }
}

/// Every program that a build asks to have assembled is asked for with the
/// buffer that placement reserved, at the address that the finished program
/// reports.
pub proof fn every_program_asked_for_has_its_buffer(
    job: JobModel,
    stage: StageModel,
    reply: ReplyModel,
)
    requires
        job.wf(),
        stage_wf(job, stage),
        sound(job, stage),
        asked(job, stage) is Assemble,
        sound_scratch(job.format, asked(job, stage)->Assemble_0.direction, job.placement),
    ensures
        exists|gap: Result<int, Seq<char>>| #[trigger]
            has_its_reserved_buffer(asked(job, stage)->Assemble_0, job, gap),
        step(job, stage, reply) matches StageModel::Finished { result: Ok(r) } ==> {
            &&& r.scratch is Some <==> asked(job, stage)->Assemble_0.scratch is Some
            &&& r.scratch matches Some((a, n)) ==> {
                &&& asked(job, stage)->Assemble_0.scratch == Some(a)
                &&& n == routine_of(job, r.direction).scratch->0.len
            }
        },
{
    let q = asked(job, stage)->Assemble_0;
    programs_are_asked_for_as_placed(job, stage);
    let gap = choose|gap: Result<int, Seq<char>>| #[trigger] asks_for_the_placed(q, job, gap);
    lemma_buffer(job, stage, gap);
    assert(has_its_reserved_buffer(q, job, gap));
    if step(job, stage, reply) matches StageModel::Finished { result: Ok(_) } {
        finished_programs_report_what_was_asked_for(job, stage, reply);
        lemma_reported_buffer(job, stage, reply);
    }
}

proof fn lemma_buffer(job: JobModel, stage: StageModel, gap: Result<int, Seq<char>>)
    requires
        job.wf(),
        stage_wf(job, stage),
        asked(job, stage) is Assemble,
        sound_scratch(job.format, asked(job, stage)->Assemble_0.direction, job.placement),
        asks_for_the_placed(asked(job, stage)->Assemble_0, job, gap),
    ensures
        has_its_reserved_buffer(asked(job, stage)->Assemble_0, job, gap),
{
    the_buffer_asked_for_is_the_one_reserved(job, asked(job, stage)->Assemble_0, gap);
}

proof fn lemma_reported_buffer(job: JobModel, stage: StageModel, reply: ReplyModel)
    requires
        job.wf(),
        stage_wf(job, stage),
        sound(job, stage),
        asked(job, stage) is Assemble,
        sound_scratch(job.format, asked(job, stage)->Assemble_0.direction, job.placement),
        step(job, stage, reply) matches StageModel::Finished { result: Ok(_) },
    ensures
        ({
            let r = step(job, stage, reply)->result->Ok_0;
            r.scratch matches Some((_, n)) ==> n == routine_of(job, r.direction).scratch->0.len
        }),
{
    let chosen = match stage {
        StageModel::Assembling { chosen, tailored, moved } => chosen,
        StageModel::AssemblingTailored { chosen, source, moved, standard } => chosen,
        _ => arbitrary(),
    };
    assert(sound_choice(job, chosen));
    let gap = choose|gap: Result<int, Seq<char>>| #[trigger]
        settled(job, chosen.direction, gap, chosen.stream) == Ok::<Placed, Seq<char>>(
            chosen.placed,
        );
    lemma_settled(job, chosen.direction, gap, chosen.stream);
    lemma_reserved(
        job.span,
        job.embedded_len(chosen.direction, chosen.stream),
        job.format,
        chosen.direction,
        job.placement,
        settled_for(job, chosen.direction, gap, chosen.stream),
        chosen.placed,
    );
}

/// The routine that a program is asked for with: the fastest one for speed and
/// the balanced one otherwise, unless the stack-page one fits its slot at an
/// automatic address. It is the one that its placement was sized for.
pub proof fn the_routine_asked_for_is_the_one_placed(
    job: JobModel,
    q: RecipeModel,
    gap: Result<int, Seq<char>>,
)
    requires
        asks_for_the_placed(q, job, gap),
    ensures
        ({
            let at = settled(job, q.direction, gap, q.stream)->Ok_0;
            let decoders = match q.direction {
                Direction::Forward => job.format.forward,
                Direction::Backward => job.format.backward,
            };
            let set = if job.placement.allow_illegal {
                decoders.any
            } else {
                decoders.legal
            };
            match q.decoder {
                DecoderChoice::Balanced => !job.placement.priority_speed && (
                set.balanced matches Some(r) && r.code_bytes == at.code_bytes),
                DecoderChoice::Fastest => job.placement.priority_speed && (
                set.fastest matches Some(r) && r.code_bytes == at.code_bytes),
                DecoderChoice::StackPage => job.placement.decruncher is None && (
                set.stack_page matches Some(r) && r.code_bytes == at.code_bytes),
            }
        }),
{
}

/// What every program is asked for with: the format and the target of the jump
/// that the build was started with, and the output from the first byte of the
/// span to its last.
pub proof fn programs_unpack_the_span_and_jump_to_the_start(job: JobModel, stage: StageModel)
    requires
        job.wf(),
        asked(job, stage) is Assemble,
    ensures
        ({
            let q = asked(job, stage)->Assemble_0;
            &&& q.format == job.format.format
            &&& q.jmp == job.start_addr
            &&& q.output == job.span.0
            &&& q.output + q.output_len == job.span.1
            &&& q.output_len == job.data.len()
        }),
{
}

/// How a recipe moves the payload, for any stream and placement.
pub proof fn lemma_payload(job: JobModel, chosen: ChosenModel, moved: bool, body: Option<Seq<char>>)
    ensures
        ({
            let q = recipe(job, chosen, moved, body);
            let start = chosen.placed.packed_start;
            let folds = moved && chosen.placed.mover_folded;
            &&& q.payload is Stay <==> !moved
            &&& moved && chosen.direction is Forward ==> q.payload is ToTop
            &&& moved && chosen.direction is Backward ==> match q.payload {
                PayloadMove::InPlace(a) => a == start % 0x1_0000,
                PayloadMove::To(a) => a == start % 0x1_0000,
                _ => false,
            }
            &&& q.payload is InPlace ==> !(job.format.format is TsCrunch) && !q.fold_mover && folds
            &&& q.fold_mover ==> folds
            &&& folds ==> q.payload is InPlace || q.fold_mover
            &&& q.mover_at == if moved {
                chosen.placed.mover_at
            } else {
                None
            }
        }),
{
}

/// How the payload reaches its place: a program that keeps its payload has no
/// mover. A moved payload of a forward stream ends at `$FFFF`; one of a
/// backward stream starts where the placement put the packed stream. A move
/// that overwrites the program has its copy code out of harm's way, in exactly
/// one of three places: a mover of its own, the staged decoder, or the head of
/// the payload; and the last is never for TSCrunch.
pub proof fn moves_survive_overwriting_the_program(
    job: JobModel,
    chosen: ChosenModel,
    gap: Result<int, Seq<char>>,
    moved: bool,
    body: Option<Seq<char>>,
)
    requires
        job.wf(),
        chosen.stream.len() <= u32::MAX - 0x3_0000,
        sound_scratch(job.format, chosen.direction, job.placement),
        settled(job, chosen.direction, gap, chosen.stream) == Ok::<Placed, Seq<char>>(
            chosen.placed,
        ),
    ensures
        ({
            let q = recipe(job, chosen, moved, body);
            let len = job.embedded_len(chosen.direction, chosen.stream);
            let start = chosen.placed.packed_start;
            let hits = block(start as int, start + len).meets(
                image_block(routine_of(job, chosen.direction), job.placement, len),
            );
            &&& q.payload is Stay <==> !moved
            &&& !moved ==> q.mover_at is None && !q.fold_mover
            &&& moved && chosen.direction is Forward ==> q.payload is ToTop && start + len
                == 0x1_0000
            &&& moved && chosen.direction is Backward ==> match q.payload {
                PayloadMove::InPlace(a) => a == start % 0x1_0000,
                PayloadMove::To(a) => a == start % 0x1_0000,
                _ => false,
            }
            &&& q.payload is InPlace ==> !(job.format.format is TsCrunch) && !q.fold_mover
                && q.mover_at is None
            &&& q.fold_mover ==> q.mover_at is None
            &&& moved && hits ==> q.payload is InPlace || q.fold_mover || q.mover_at is Some
            &&& q.mover_at is Some ==> hits && q.mover_at == job.placement.mover
            &&& job.placement.mover is Some ==> !(q.payload is InPlace) && !q.fold_mover
        }),
{
    lemma_payload(job, chosen, moved, body);
    lemma_settled(job, chosen.direction, gap, chosen.stream);
    lemma_moved(
        job.span,
        job.embedded_len(chosen.direction, chosen.stream),
        job.format,
        chosen.direction,
        job.placement,
        settled_for(job, chosen.direction, gap, chosen.stream),
        chosen.placed,
    );
}

/// A finished program reports what it was asked for with: the direction, the
/// stream, the decoder's and the buffer's address, the mover, the span, and
/// whether and where its payload was moved.
pub proof fn finished_programs_report_what_was_asked_for(
    job: JobModel,
    stage: StageModel,
    reply: ReplyModel,
)
    requires
        job.wf(),
        asked(job, stage) is Assemble,
        step(job, stage, reply) matches StageModel::Finished { result: Ok(_) },
    ensures
        ({
            let q = asked(job, stage)->Assemble_0;
            let r = step(job, stage, reply)->result->Ok_0;
            &&& r.direction == q.direction
            &&& r.stream == q.stream && r.stream_len == q.stream.len()
            &&& r.decruncher_at == q.stage_at
            &&& r.scratch is Some <==> q.scratch is Some
            &&& r.scratch matches Some((a, _)) ==> q.scratch == Some(a)
            &&& r.span.0 == q.output && r.span.1 == q.output + q.output_len
            &&& r.mover_at == q.mover_at
            &&& r.mover_folded <==> q.fold_mover || q.payload is InPlace
            &&& r.payload_moved <==> !(q.payload is Stay)
            &&& q.payload matches PayloadMove::To(a) ==> r.packed_at == a
            &&& q.payload matches PayloadMove::InPlace(a) ==> r.packed_at == a
            &&& r.decoder_tailored ==> q.body is Some
            &&& stage is Assembling && r.decoder_saved == 0 ==> q.body is None
        }),
{
}

/// The body that is asked for: the standard one while probing and at first, and
/// the tailored source that the host composed afterwards, with everything else
/// as it was.
pub proof fn only_the_body_changes_with_tailoring(
    job: JobModel,
    chosen: ChosenModel,
    source: Seq<char>,
    moved: bool,
    standard: BuiltModel,
)
    ensures
        ({
            let before = asked(
                job,
                StageModel::Assembling { chosen, tailored: Some(source), moved },
            );
            let after = step(
                job,
                StageModel::Assembling { chosen, tailored: Some(source), moved },
                ReplyModel::Assembled(Ok(standard)),
            );
            &&& before is Assemble && before->Assemble_0.body is None
            &&& asked(job, after) == RequestModel::Assemble(
                RecipeModel { body: Some(source), ..before->Assemble_0 },
            )
        }),
{
}

/// The probe asks for the program as it will be asked for if its payload can
/// stay: the standard body with the payload where it is loaded.
pub proof fn the_probe_is_the_program_that_stays(
    job: JobModel,
    chosen: ChosenModel,
    tailored: Option<Seq<char>>,
    built: BuiltModel,
)
    requires
        stays_clear(job, chosen, built),
    ensures
        ({
            let probe = StageModel::Probing { chosen, tailored };
            let after = step(job, probe, ReplyModel::Assembled(Ok(built)));
            &&& asked(job, probe) is Assemble
            &&& asked(job, probe)->Assemble_0.payload is Stay
            &&& asked(job, probe)->Assemble_0.body is None
            &&& asked(job, after) == asked(job, probe)
        }),
{
}

/// The probe decides by distances alone: the payload stays exactly if the
/// assembled program lies at least the clearance away from the output span, and
/// the buffer, if there is one, that far away from both.
pub proof fn payloads_stay_exactly_if_everything_keeps_its_distance(
    job: JobModel,
    chosen: ChosenModel,
    tailored: Option<Seq<char>>,
    built: BuiltModel,
)
    ensures
        ({
            let lo = built.origin;
            let hi = lo + built.bytes.len();
            let c = job.placement.clearance;
            let (s0, s1) = job.span;
            let program = hi + c <= s0 || s1 + c <= lo;
            let buffer = chosen.placed.scratch matches Some((a, n)) ==> {
                &&& a + n + c <= lo || hi + c <= a
                &&& a + n + c <= s0 || s1 + c <= a
            };
            let after = step(
                job,
                StageModel::Probing { chosen, tailored },
                ReplyModel::Assembled(Ok(built)),
            );
            &&& asked(job, after) is Assemble
            &&& asked(job, after)->Assemble_0.payload is Stay <==> program && buffer
            &&& after matches StageModel::Assembling { chosen: kept, tailored: found, moved: _ }
                && kept == chosen && found == tailored
        }),
{
}

/// A payload is moved unless a probe showed that it can stay: a failed probe
/// and a forward or TSCrunch stream move it.
pub proof fn payloads_stay_only_if_probed(
    job: JobModel,
    chosen: ChosenModel,
    tailored: Option<Seq<char>>,
    e: FaultModel,
)
    ensures
        ({
            let after = step(
                job,
                StageModel::Probing { chosen, tailored },
                ReplyModel::Assembled(Err(e)),
            );
            let found = step(
                job,
                StageModel::Tailoring { chosen },
                ReplyModel::Tailored(tailored),
            );
            &&& asked(job, after) matches RequestModel::Assemble(q) && !(q.payload is Stay)
            &&& asked(job, found) is Assemble
            &&& found is Probing <==> chosen.direction is Backward && !(
            job.format.format is TsCrunch)
            &&& !(found is Probing) ==> !(asked(job, found)->Assemble_0.payload is Stay)
        }),
{
}

/// A stream is asked for with the bytes of the span and its end, which wraps to
/// zero at the top of memory; a tailored body is asked for with the stream that
/// was placed.
pub proof fn hosts_are_handed_the_job(
    job: JobModel,
    next: int,
    errs: Seq<Seq<char>>,
    chosen: ChosenModel,
)
    requires
        job.wf(),
    ensures
        asked(job, StageModel::Compressing { next, errs }) matches RequestModel::Compress {
            format,
            direction,
            data,
            out_end,
        } && {
            &&& format == job.format.format
            &&& direction == job.dirs[next]
            &&& data == job.data
            &&& job.span.1 < 0x1_0000 ==> out_end == job.span.0 + data.len()
            &&& job.span.1 == 0x1_0000 ==> out_end == 0
        },
        asked(job, StageModel::Tailoring { chosen }) == (RequestModel::Tailor {
            format: job.format.format,
            direction: chosen.direction,
            stream: chosen.stream,
        }),
{
}

/// Directions are tried in the order of the plan: the one whose stream could
/// not be placed is followed by the next, and its reason is kept behind the
/// earlier ones, under its name.
pub proof fn directions_are_tried_in_turn(
    job: JobModel,
    next: int,
    errs: Seq<Seq<char>>,
    stream: Seq<u8>,
    mode: Option<u8>,
    gap: Result<int, Seq<char>>,
)
    requires
        0 <= next,
        next + 1 < job.dirs.len(),
        settled(job, job.dirs[next], gap, stream) is Err,
    ensures
        ({
            let after = step(
                job,
                StageModel::Measuring { next, errs, stream, mode },
                ReplyModel::Measured(gap),
            );
            let name = match job.dirs[next] {
                Direction::Forward => "forward"@,
                Direction::Backward => "backward"@,
            };
            &&& asked(job, after) matches RequestModel::Compress { direction, .. } && direction
                == job.dirs[next + 1]
            &&& after == (StageModel::Compressing {
                next: next + 1,
                errs: errs.push(
                    name + ": "@ + settled(job, job.dirs[next], gap, stream)->Err_0,
                ),
            })
        }),
{
}

/// A host that fails ends the build: a refused decoder with its own words, a
/// failed encoder or assembler with what failed in front of them.
pub proof fn failed_hosts_end_the_build(
    job: JobModel,
    next: int,
    errs: Seq<Seq<char>>,
    chosen: ChosenModel,
    tailored: Option<Seq<char>>,
    moved: bool,
    e: Seq<char>,
)
    ensures
        ({
            let compressing = StageModel::Compressing { next, errs };
            let assembling = StageModel::Assembling { chosen, tailored, moved };
            &&& step(job, compressing, ReplyModel::Compressed(Err(FaultModel::Decoder(e)))) == (
            StageModel::Finished { result: Err(e) })
            &&& step(job, compressing, ReplyModel::Compressed(Err(FaultModel::Tool(e)))) == (
            StageModel::Finished { result: Err("Compression failed: "@ + e) })
            &&& step(job, assembling, ReplyModel::Assembled(Err(FaultModel::Decoder(e)))) == (
            StageModel::Finished { result: Err(e) })
            &&& step(job, assembling, ReplyModel::Assembled(Err(FaultModel::Tool(e)))) == (
            StageModel::Finished { result: Err("Build/assembly failed: "@ + e) })
        }),
{
}

/// A tailored body that fails to assemble leaves the standard program as it
/// was.
pub proof fn failed_tailoring_leaves_the_standard_program(
    job: JobModel,
    chosen: ChosenModel,
    source: Seq<char>,
    moved: bool,
    standard: BuiltModel,
    f: FaultModel,
)
    ensures
        step(
            job,
            StageModel::AssemblingTailored { chosen, source, moved, standard },
            ReplyModel::Assembled(Err(f)),
        ) matches StageModel::Finished { result: Ok(r) } && {
            &&& !r.decoder_tailored
            &&& r.decoder_saved == 0
            &&& r.prg.skip(2) == standard.bytes
            &&& r.warnings == standard.warnings
        },
{
    let second = StageModel::AssemblingTailored { chosen, source, moved, standard };
    let r = step(job, second, ReplyModel::Assembled(Err(f)))->result->Ok_0;
    assert(r.prg.skip(2) =~= standard.bytes);
}

/// A PuCrunch margin is raised to what the container needs and 8 bytes more,
/// and no further: the container passes the check at 8 bytes less, and fails it
/// at one byte less than that.
pub proof fn container_margins_are_raised_as_far_as_needed(
    f: FormatModel,
    gap: int,
    clen: int,
    span: (u32, u32),
    p: Placement,
)
    requires
        f.format is PuCrunch,
    ensures
        effective(f, Direction::Backward, Ok(gap), clen, span, p) matches Ok(e) && {
            &&& e == Placement { margin: e.margin, ..p }
            &&& e.margin >= p.margin
            &&& p.margin < e.margin < 0xFFFF ==> {
                &&& container_check(
                    Direction::Backward,
                    Ok(gap),
                    clen,
                    span,
                    span.0 - (e.margin - 8),
                ) is Ok
                &&& container_check(
                    Direction::Backward,
                    Ok(gap),
                    clen,
                    span,
                    span.0 - (e.margin - 9),
                ) is Err
            }
        },
        effective(f, Direction::Forward, Ok(gap), clen, span, p) is Ok <==> gap + span.0 + clen
            < 0x1_0000 + 19,
        effective(f, Direction::Forward, Ok(gap), clen, span, p) matches Ok(e) ==> e == p,
{
}

/// A TSCrunch stream that has to move up is refused only where its shift and 8
/// bytes are not free above the span; one that has not is placed as asked. A
/// stream that nothing is measured of is placed as asked backward, and forward
/// exactly if it fits above the span.
pub proof fn other_streams_are_placed_as_asked(
    f: FormatModel,
    direction: Direction,
    gap: int,
    clen: int,
    span: (u32, u32),
    p: Placement,
)
    requires
        valid_span(span),
    ensures
        f.format is TsCrunch && direction is Backward ==> {
            &&& effective(f, direction, Ok(gap), clen, span, p) is Ok <==> gap <= 0 || span.1 + gap
                + 8 <= 0x1_0000
            &&& gap <= 0 ==> effective(f, direction, Ok(gap), clen, span, p) == Ok::<
                Placement,
                Seq<char>,
            >(p)
        },
        goes_unmeasured(f.format, direction) ==> {
            &&& effective(f, direction, Ok(gap), clen, span, p) is Ok <==> direction is Backward
                || span.1 + clen <= 0x1_0000
            &&& effective(f, direction, Ok(gap), clen, span, p) matches Ok(e) ==> e == p
        },
{
}

/// The message of a build that placed nothing holds the reasons, one behind the
/// other.
pub proof fn failed_placements_give_the_reasons(errs: Seq<Seq<char>>)
    requires
        errs.len() > 0,
    ensures
        ({
            let all = joined(errs, "; "@);
            let text = placement_failed(errs);
            &&& text.len() > 18 + all.len()
            &&& text.subrange(18, 18int + all.len()) == all
        }),
{
    reveal_strlit("Placement failed: ");
    reveal_strlit(". Try a different format or adjust the addresses.");
    let all = joined(errs, "; "@);
    assert(placement_failed(errs).subrange(18, 18int + all.len()) =~= all);
}

} // verus!
