//! What holds of every build.
use vstd::prelude::*;

#[allow(unused_imports)]
use crate::formats::{Direction, FormatModel};
#[allow(unused_imports)]
use crate::image::RegionModel;
#[allow(unused_imports)]
use crate::inplace::effective;
#[allow(unused_imports)]
use crate::placement::Placement;
#[allow(unused_imports)]
use crate::plan::{
    candidates, candidates_are_usable, image_span, preview, staged_routine, Placed,
};
#[allow(unused_imports)]
use crate::plan_laws::{
    decoder_block, decoder_keeps_clear, mover_block, mover_keeps_clear, packed_block,
    packed_stream_fits_its_layout, scratch_block, scratch_keeps_clear, sound_scratch, span_block,
};
#[allow(unused_imports)]
use crate::sfx::{
    after_settling, after_standard, after_tailored, finished, may_stay, placement_failed,
    prg_bytes, settled, stage_wf, started, stays_clear, step, takes_tailored, BuiltModel,
    ChosenModel, FaultModel, JobModel, ReplyModel, SfxModel, StageModel,
};

verus! {

/// Whether the reply is of the kind that the stage asked for.
pub open spec fn answers(stage: StageModel, reply: ReplyModel) -> bool {
    match stage {
        StageModel::Compressing { next, errs } => reply is Compressed,
        StageModel::Measuring { next, errs, stream, mode } => reply is Measured,
        StageModel::Tailoring { chosen } => reply is Tailored,
        StageModel::Probing { chosen, tailored } => reply is Assembled,
        StageModel::Assembling { chosen, tailored, moved } => reply is Assembled,
        StageModel::AssemblingTailored { chosen, source, moved, standard } => reply is Assembled,
        StageModel::Finished { result } => false,
    }
}

/// A bound on the replies that a build still needs.
pub open spec fn replies_left(job: JobModel, stage: StageModel) -> int {
    match stage {
        StageModel::Compressing { next, errs } => 4 + 2 * (job.dirs.len() - next),
        StageModel::Measuring { next, errs, stream, mode } => 3 + 2 * (job.dirs.len() - next),
        StageModel::Tailoring { chosen } => 4,
        StageModel::Probing { chosen, tailored } => 3,
        StageModel::Assembling { chosen, tailored, moved } => 2,
        StageModel::AssemblingTailored { chosen, source, moved, standard } => 1,
        StageModel::Finished { result } => 0,
    }
}

/// Every answer brings a build closer to its end, which takes eight answers at
/// most; any other reply leaves it as it is.
pub proof fn every_answer_brings_the_end_closer(
    job: JobModel,
    stage: StageModel,
    reply: ReplyModel,
)
    requires
        job.wf(),
        stage_wf(job, stage),
    ensures
        answers(stage, reply) ==> 0 <= replies_left(job, step(job, stage, reply)) < replies_left(
            job,
            stage,
        ),
        !answers(stage, reply) ==> step(job, stage, reply) == stage,
        replies_left(job, stage) <= 8,
{
    candidates_are_usable(job.span, job.format, job.placement);
}

/// A stream whose place was settled for a direction that the plan offers.
pub open spec fn sound_choice(job: JobModel, chosen: ChosenModel) -> bool {
    &&& job.dirs.contains(chosen.direction)
    &&& exists|gap: Result<int, Seq<char>>|
        #[trigger] settled(job, chosen.direction, gap, chosen.stream) == Ok::<Placed, Seq<char>>(
            chosen.placed,
        )
}

/// The reasons so far: those against the pruned directions, then one for each
/// direction that was tried.
pub open spec fn sound_reasons(job: JobModel, next: int, errs: Seq<Seq<char>>) -> bool {
    let skipped = candidates(job.span, job.format, job.placement)->Ok_0.skipped;
    &&& errs.len() == skipped.len() + next
    &&& errs.take(skipped.len() as int) == skipped
}

/// A payload that is not moved was probed and keeps clear.
pub open spec fn sound_move(job: JobModel, chosen: ChosenModel, moved: bool) -> bool {
    !moved ==> may_stay(job, chosen) && exists|built: BuiltModel| #[trigger]
        stays_clear(job, chosen, built)
}

/// A finished program that was put together from a settled stream.
pub open spec fn sound_result(job: JobModel, r: SfxModel) -> bool {
    exists|
        chosen: ChosenModel,
        moved: bool,
        built: BuiltModel,
        saved: int,
        warnings: Seq<Seq<char>>,
    | #[trigger]
        finished(job, chosen, moved, built, r.decoder_tailored, saved, warnings) == r && sound_choice(
            job,
            chosen,
        ) && sound_move(job, chosen, moved) && (!r.decoder_tailored ==> saved == 0) && (
        r.decoder_tailored ==> !(job.placement.tailoring is Standard))
}

/// What every stage that a build reaches satisfies.
pub open spec fn sound(job: JobModel, stage: StageModel) -> bool {
    match stage {
        StageModel::Compressing { next, errs } => sound_reasons(job, next, errs),
        StageModel::Measuring { next, errs, stream, mode } => sound_reasons(job, next, errs),
        StageModel::Tailoring { chosen } => sound_choice(job, chosen)
            && !(job.placement.tailoring is Standard),
        StageModel::Probing { chosen, tailored } => sound_choice(job, chosen) && may_stay(
            job,
            chosen,
        ) && (job.placement.tailoring is Standard ==> tailored is None),
        StageModel::Assembling { chosen, tailored, moved } => sound_choice(job, chosen)
            && sound_move(job, chosen, moved) && (job.placement.tailoring is Standard
            ==> tailored is None),
        StageModel::AssemblingTailored { chosen, source, moved, standard } => sound_choice(
            job,
            chosen,
        ) && sound_move(job, chosen, moved) && !(job.placement.tailoring is Standard),
        StageModel::Finished { result } => result matches Ok(r) ==> sound_result(job, r),
    }
}

/// A build starts sound.
pub proof fn builds_start_sound(
    regs: Seq<RegionModel>,
    f: FormatModel,
    start_addr: u16,
    p: Placement,
)
    ensures
        started(regs, f, start_addr, p) matches Ok(b) ==> sound(b.job, b.stage),
{
    if started(regs, f, start_addr, p) is Ok {
        let b = started(regs, f, start_addr, p)->Ok_0;
        let skipped = candidates(b.job.span, f, p)->Ok_0.skipped;
        assert(skipped.take(skipped.len() as int) =~= skipped);
    }
}

proof fn lemma_settling_is_sound(
    job: JobModel,
    next: int,
    errs: Seq<Seq<char>>,
    stream: Seq<u8>,
    mode: Option<u8>,
    gap: Result<int, Seq<char>>,
)
    requires
        0 <= next < job.dirs.len(),
        sound_reasons(job, next, errs),
    ensures
        sound(job, after_settling(job, next, errs, stream, mode, gap)),
{
    let direction = job.dirs[next];
    match settled(job, direction, gap, stream) {
        Ok(placed) => {
            let chosen = ChosenModel { direction, stream, mode, placed };
            assert(job.dirs.contains(direction));
            assert(sound_choice(job, chosen));
            assert(sound_move(job, chosen, true));
        },
        Err(e) => {
            let skipped = candidates(job.span, job.format, job.placement)->Ok_0.skipped;
            let longer = errs.push(direction.name() + ": "@ + e);
            assert(longer.take(skipped.len() as int) =~= errs.take(skipped.len() as int));
        },
    }
}

proof fn lemma_standard_is_sound(
    job: JobModel,
    chosen: ChosenModel,
    tailored: Option<Seq<char>>,
    moved: bool,
    reply: Result<BuiltModel, FaultModel>,
)
    requires
        sound_choice(job, chosen),
        sound_move(job, chosen, moved),
        job.placement.tailoring is Standard ==> tailored is None,
    ensures
        sound(job, after_standard(job, chosen, tailored, moved, reply)),
{
    if reply is Ok && tailored is None {
        let standard = reply->Ok_0;
        let warnings = if job.placement.tailoring is Tailored {
            standard.warnings.push(crate::sfx::already_minimal())
        } else {
            standard.warnings
        };
        let r = finished(job, chosen, moved, standard, false, 0, warnings);
        assert(finished(job, chosen, moved, standard, r.decoder_tailored, 0, warnings) == r);
        assert(sound_result(job, r));
    }
}

proof fn lemma_first_stages_stay_sound(job: JobModel, stage: StageModel, reply: ReplyModel)
    requires
        job.wf(),
        stage_wf(job, stage),
        sound(job, stage),
        stage is Compressing || stage is Measuring,
    ensures
        sound(job, step(job, stage, reply)),
{
    match (stage, reply) {
        (
            StageModel::Compressing { next, errs },
            ReplyModel::Compressed(Ok((stream, mode))),
        ) => {
            lemma_settling_is_sound(job, next, errs, stream, mode, Ok(0));
        },
        (StageModel::Measuring { next, errs, stream, mode }, ReplyModel::Measured(gap)) => {
            lemma_settling_is_sound(job, next, errs, stream, mode, gap);
        },
        _ => {},
    }
}

proof fn lemma_middle_stages_stay_sound(job: JobModel, stage: StageModel, reply: ReplyModel)
    requires
        sound(job, stage),
        stage is Tailoring || stage is Probing,
    ensures
        sound(job, step(job, stage, reply)),
{
}

proof fn lemma_last_stages_stay_sound(job: JobModel, stage: StageModel, reply: ReplyModel)
    requires
        sound(job, stage),
        stage is Assembling || stage is AssemblingTailored,
    ensures
        sound(job, step(job, stage, reply)),
{
    match (stage, reply) {
        (StageModel::Assembling { chosen, tailored, moved }, ReplyModel::Assembled(r)) => {
            lemma_standard_is_sound(job, chosen, tailored, moved, r);
        },
        (
            StageModel::AssemblingTailored { chosen, source, moved, standard },
            ReplyModel::Assembled(r),
        ) => {
            lemma_kept_is_sound(job, chosen, moved, standard, r);
        },
        _ => {},
    }
}

/// Every reply keeps a build sound.
pub proof fn every_reply_keeps_a_build_sound(job: JobModel, stage: StageModel, reply: ReplyModel)
    requires
        job.wf(),
        stage_wf(job, stage),
        sound(job, stage),
    ensures
        sound(job, step(job, stage, reply)),
{
    if stage is Compressing || stage is Measuring {
        lemma_first_stages_stay_sound(job, stage, reply);
    } else if stage is Tailoring || stage is Probing {
        lemma_middle_stages_stay_sound(job, stage, reply);
    } else if stage is Assembling || stage is AssemblingTailored {
        lemma_last_stages_stay_sound(job, stage, reply);
    } else {
        assert(step(job, stage, reply) == stage);
    }
}

proof fn lemma_kept_is_sound(
    job: JobModel,
    chosen: ChosenModel,
    moved: bool,
    standard: BuiltModel,
    reply: Result<BuiltModel, FaultModel>,
)
    requires
        sound_choice(job, chosen),
        sound_move(job, chosen, moved),
        !(job.placement.tailoring is Standard),
    ensures
        sound_result(job, after_tailored(job, chosen, moved, standard, reply)),
{
    let r = after_tailored(job, chosen, moved, standard, reply);
    match reply {
        Ok(tailored) if takes_tailored(job.placement.tailoring, tailored, standard) => {
            let saved = if standard.bytes.len() >= tailored.bytes.len() {
                standard.bytes.len() - tailored.bytes.len()
            } else {
                0
            };
            assert(finished(job, chosen, moved, tailored, true, saved, tailored.warnings) == r);
        },
        _ => {
            assert(finished(job, chosen, moved, standard, false, 0, standard.warnings) == r);
        },
    }
}

/// A finished program: its direction is one that the plan offers, its stream is
/// reported whole, it covers the job's span and starts with its load address,
/// nothing is saved without tailoring, and a payload that is not moved has no
/// mover and is unpacked backward.
pub proof fn finished_program_is_as_reported(job: JobModel, r: SfxModel)
    requires
        sound_result(job, r),
    ensures
        job.dirs.contains(r.direction),
        r.stream_len == r.stream.len(),
        r.span == job.span,
        r.prg.len() >= 2,
        !r.decoder_tailored ==> r.decoder_saved == 0,
        job.placement.tailoring is Standard ==> !r.decoder_tailored,
        !r.payload_moved ==> r.direction is Backward && !(job.format.format is TsCrunch)
            && r.mover_at is None && !r.mover_folded,
        exists|gap: Result<int, Seq<char>>|
            (#[trigger] settled(job, r.direction, gap, r.stream)) matches Ok(at) && {
                &&& r.decruncher_at == at.decr_at
                &&& r.scratch == at.scratch
                &&& r.payload_moved ==> r.packed_at == at.packed_start % 0x1_0000
                &&& r.payload_moved ==> r.mover_at == at.mover_at
                &&& r.payload_moved ==> r.mover_folded == at.mover_folded
            },
{
    let (chosen, moved, built, saved, warnings) = choose|
        chosen: ChosenModel,
        moved: bool,
        built: BuiltModel,
        saved: int,
        warnings: Seq<Seq<char>>,
    | #[trigger]
        finished(job, chosen, moved, built, r.decoder_tailored, saved, warnings) == r && sound_choice(
            job,
            chosen,
        ) && sound_move(job, chosen, moved) && (!r.decoder_tailored ==> saved == 0) && (
        r.decoder_tailored ==> !(job.placement.tailoring is Standard));
    assert(prg_bytes(built).len() >= 2);
    let gap = choose|gap: Result<int, Seq<char>>| #[trigger]
        settled(job, chosen.direction, gap, chosen.stream) == Ok::<Placed, Seq<char>>(
            chosen.placed,
        );
    assert(settled(job, r.direction, gap, r.stream) is Ok);
}

/// When every direction fails, the message names the reason against each
/// direction that was pruned and against each that was tried, and is never the
/// bare "unknown".
pub proof fn failure_names_every_reason(
    job: JobModel,
    next: int,
    errs: Seq<Seq<char>>,
    stream: Seq<u8>,
    mode: Option<u8>,
    gap: Result<int, Seq<char>>,
)
    requires
        job.wf(),
        0 <= next < job.dirs.len(),
        sound_reasons(job, next, errs),
        after_settling(job, next, errs, stream, mode, gap) is Finished,
    ensures
        ({
            let skipped = candidates(job.span, job.format, job.placement)->Ok_0.skipped;
            exists|all: Seq<Seq<char>>|
                #![trigger placement_failed(all)]
                after_settling(job, next, errs, stream, mode, gap) == (StageModel::Finished {
                    result: Err(placement_failed(all)),
                }) && all.len() == skipped.len() + job.dirs.len() && all.len() > 0 && all.take(
                    skipped.len() as int,
                ) == skipped
        }),
{
    candidates_are_usable(job.span, job.format, job.placement);
    let direction = job.dirs[next];
    let skipped = candidates(job.span, job.format, job.placement)->Ok_0.skipped;
    match settled(job, direction, gap, stream) {
        Ok(_) => {
            assert(false);
        },
        Err(e) => {
            let all = errs.push(direction.name() + ": "@ + e);
            assert(all.take(skipped.len() as int) =~= errs.take(skipped.len() as int));
            assert(after_settling(job, next, errs, stream, mode, gap) == (StageModel::Finished {
                result: Err(placement_failed(all)),
            }));
        },
    }
}

/// With automatic tailoring the program is never larger than with the standard
/// body, and a tie keeps the standard one.
pub proof fn automatic_tailoring_never_grows_the_program(
    job: JobModel,
    chosen: ChosenModel,
    moved: bool,
    standard: BuiltModel,
    reply: Result<BuiltModel, FaultModel>,
)
    requires
        job.placement.tailoring is Auto,
    ensures
        ({
            let r = after_tailored(job, chosen, moved, standard, reply);
            &&& r.prg.len() <= prg_bytes(standard).len()
            &&& r.decoder_tailored <==> r.prg.len() < prg_bytes(standard).len()
            &&& r.decoder_saved == prg_bytes(standard).len() - r.prg.len()
        }),
{
}

/// Everything that a settled stream's placement reserves keeps clear: the
/// scratch buffer of the output, the packed stream and the decoder; a mover of
/// the packed stream, the decoder and the buffer; the decoder of the output and
/// the packed stream. The packed stream has its full length inside the address
/// space.
pub proof fn settled_streams_keep_clear(
    job: JobModel,
    direction: Direction,
    gap: Result<int, Seq<char>>,
    stream: Seq<u8>,
)
    requires
        job.wf(),
        stream.len() <= u32::MAX - 0x3_0000,
        sound_scratch(job.format, direction, job.placement),
    ensures
        settled(job, direction, gap, stream) matches Ok(at) ==> {
            let eff = effective(
                job.format,
                direction,
                gap,
                stream.len() as int,
                job.span,
                job.placement,
            )->Ok_0;
            let len = job.embedded_len(direction, stream);
            let packed = packed_block(job.span, len, job.format, direction, eff, true);
            &&& packed.start == at.packed_start
            &&& packed.end - packed.start == len
            &&& packed.end <= 0x1_0000
            &&& at.scratch is Some ==> {
                &&& !scratch_block(at).meets(span_block(job.span))
                &&& !scratch_block(at).meets(packed)
                &&& !scratch_block(at).meets(decoder_block(at))
            }
            &&& at.mover_at is Some ==> {
                &&& !mover_block(at).meets(packed)
                &&& !mover_block(at).meets(decoder_block(at))
                &&& at.scratch is Some ==> !mover_block(at).meets(scratch_block(at))
            }
            &&& !decoder_block(at).meets(span_block(job.span))
            &&& !decoder_block(at).meets(packed)
        },
{
    if settled(job, direction, gap, stream) is Ok {
        let at = settled(job, direction, gap, stream)->Ok_0;
        let eff = effective(
            job.format,
            direction,
            gap,
            stream.len() as int,
            job.span,
            job.placement,
        )->Ok_0;
        let len = job.embedded_len(direction, stream);
        assert(staged_routine(job.format, direction, eff) == staged_routine(
            job.format,
            direction,
            job.placement,
        ));
        packed_stream_fits_its_layout(job.span, len, job.format, direction, eff);
        scratch_keeps_clear(job.span, len, job.format, direction, eff, true);
        mover_keeps_clear(job.span, len, job.format, direction, eff, true);
        decoder_keeps_clear(job.span, len, job.format, direction, eff, true);
    }
}

/// The payload also stays clear in a smaller program at the same address: a
/// layout that was probed with the standard body holds for a tailored one.
pub proof fn smaller_programs_stay_clear(
    job: JobModel,
    chosen: ChosenModel,
    probed: BuiltModel,
    built: BuiltModel,
)
    requires
        stays_clear(job, chosen, probed),
        built.origin == probed.origin,
        built.bytes.len() <= probed.bytes.len(),
    ensures
        stays_clear(job, chosen, built),
{
}

/// A build tries what the preview shows: it starts with the direction of the
/// preview, and it is refused with the preview's reason.
pub proof fn builds_try_what_the_preview_shows(
    regs: Seq<RegionModel>,
    f: FormatModel,
    start_addr: u16,
    p: Placement,
)
    requires
        regs.len() > 0,
        image_span(regs).1 - image_span(regs).0 <= 0xFFFF,
    ensures
        match started(regs, f, start_addr, p) {
            Ok(b) => {
                &&& preview(image_span(regs), f, p).unavailable is None
                &&& b.job.dirs[0] == preview(image_span(regs), f, p).direction
            },
            Err(e) => preview(image_span(regs), f, p).unavailable == Some(e),
        },
{
}

} // verus!
