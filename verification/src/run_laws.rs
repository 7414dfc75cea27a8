//! What holds of whole builds.
//!
//! A build hands every request to a host. Where the host is a function, one
//! answer for one request, whole builds can be held against each other.
use vstd::prelude::*;

#[allow(unused_imports)]
use crate::formats::{Direction, FormatModel};
#[allow(unused_imports)]
use crate::image::{all_wf, RegionModel};
#[allow(unused_imports)]
use crate::inplace::{effective, needed_measure};
#[allow(unused_imports)]
use crate::placement::{
    code_size, code_text, epilogue_code, epilogue_size, epilogue_size_matches_the_code, Instr,
    Placement, TailoringChoice,
};
#[allow(unused_imports)]
use crate::plan::{
    candidates, candidates_are_usable, image_span, packed_window, refusal, staged_routine, valid_span,
    worst_case, Placed,
};
#[allow(unused_imports)]
use crate::plan_laws::{
    alike_but_for_the_epilogue, epilogue_options_keep_the_places, places_hold_longer,
    places_ignore_the_tailoring, sound_scratch,
};
#[allow(unused_imports)]
use crate::sfx::{
    after_choice, after_settling, asked, clears, finished, may_stay, prg_bytes, recipe, settled,
    started, stays_clear, step, takes_tailored, BuiltModel, ChosenModel, JobModel, RecipeModel,
    ReplyModel, RequestModel, SfxModel, StageModel,
};
#[allow(unused_imports)]
use crate::sfx_laws::replies_left;

verus! {

/// How a build ends if `host` answers its requests. `None` if an answer is not
/// of the kind that was asked for.
pub open spec fn outcome(
    job: JobModel,
    stage: StageModel,
    host: spec_fn(RequestModel) -> ReplyModel,
) -> Option<Result<SfxModel, Seq<char>>>
    decreases replies_left(job, stage),
{
    if stage is Finished {
        Some(stage->result)
    } else {
        let next = step(job, stage, host(asked(job, stage)));
        if 0 <= replies_left(job, next) < replies_left(job, stage) {
            outcome(job, next, host)
        } else {
            None
        }
    }
}

/// How the build of an image ends if `host` answers its requests.
pub open spec fn built_by(
    regs: Seq<RegionModel>,
    f: FormatModel,
    start_addr: u16,
    p: Placement,
    host: spec_fn(RequestModel) -> ReplyModel,
) -> Option<Result<SfxModel, Seq<char>>> {
    match started(regs, f, start_addr, p) {
        Err(e) => Some(Err(e)),
        Ok(b) => outcome(b.job, b.stage, host),
    }
}

/// Whether a host answers every request in kind.
pub open spec fn obliging(host: spec_fn(RequestModel) -> ReplyModel) -> bool {
    forall|q: RequestModel|
        match q {
            RequestModel::Compress { .. } => (#[trigger] host(q)) is Compressed,
            RequestModel::Measure { .. } => host(q) is Measured,
            RequestModel::Tailor { .. } => host(q) is Tailored,
            RequestModel::Assemble(_) => host(q) is Assembled,
            RequestModel::Nothing => true,
        }
}

/// Whether the direction that a stage works on is one of the job's.
pub open spec fn on_the_way(job: JobModel, stage: StageModel) -> bool {
    match stage {
        StageModel::Compressing { next, errs } => 0 <= next < job.dirs.len(),
        StageModel::Measuring { next, errs, stream, mode } => 0 <= next < job.dirs.len(),
        _ => true,
    }
}

/// A build whose requests are answered in kind ends.
pub proof fn answered_builds_end(
    job: JobModel,
    stage: StageModel,
    host: spec_fn(RequestModel) -> ReplyModel,
)
    requires
        on_the_way(job, stage),
        obliging(host),
    ensures
        outcome(job, stage, host) is Some,
    decreases replies_left(job, stage),
{
    if !(stage is Finished) {
        let next = step(job, stage, host(asked(job, stage)));
        assert(on_the_way(job, next) && 0 <= replies_left(job, next) < replies_left(job, stage));
        answered_builds_end(job, next, host);
    }
}

/// What is asked for the stream of a direction.
pub open spec fn compress_request(job: JobModel, direction: Direction) -> RequestModel {
    RequestModel::Compress {
        format: job.format.format,
        direction,
        data: job.data,
        out_end: (job.span.1 % 0x1_0000) as int,
    }
}

/// What the host measures of a stream, or 0 where nothing is asked.
pub open spec fn gap_by(
    job: JobModel,
    direction: Direction,
    stream: Seq<u8>,
    host: spec_fn(RequestModel) -> ReplyModel,
) -> Option<Result<int, Seq<char>>> {
    let measure = needed_measure(job.format.format, direction);
    if measure is Nothing {
        Some(Ok(0))
    } else {
        match host(
            RequestModel::Measure { format: job.format.format, direction, measure, stream },
        ) {
            ReplyModel::Measured(gap) => Some(gap),
            _ => None,
        }
    }
}

/// The stream that a build goes on with: that of the first direction from
/// `next` on whose stream can be placed.
pub open spec fn chosen_by(
    job: JobModel,
    next: int,
    host: spec_fn(RequestModel) -> ReplyModel,
) -> Option<ChosenModel>
    decreases job.dirs.len() - next,
{
    if 0 <= next < job.dirs.len() {
        let direction = job.dirs[next];
        match host(compress_request(job, direction)) {
            ReplyModel::Compressed(Ok((stream, mode))) => match gap_by(
                job,
                direction,
                stream,
                host,
            ) {
                Some(gap) => match settled(job, direction, gap, stream) {
                    Ok(placed) => Some(ChosenModel { direction, stream, mode, placed }),
                    Err(_) => chosen_by(job, next + 1, host),
                },
                None => None,
            },
            _ => None,
        }
    } else {
        None
    }
}

/// Whether the payload is moved: it stays only where it may, and where the
/// probed program keeps clear.
pub open spec fn moved_by(
    job: JobModel,
    chosen: ChosenModel,
    host: spec_fn(RequestModel) -> ReplyModel,
) -> bool {
    !(may_stay(job, chosen) && (host(RequestModel::Assemble(recipe(job, chosen, false, None)))
        matches ReplyModel::Assembled(Ok(b)) && stays_clear(job, chosen, b)))
}

/// The program with the standard body.
pub open spec fn standard_by(
    job: JobModel,
    chosen: ChosenModel,
    host: spec_fn(RequestModel) -> ReplyModel,
) -> Option<BuiltModel> {
    let moved = moved_by(job, chosen, host);
    match host(RequestModel::Assemble(recipe(job, chosen, moved, None))) {
        ReplyModel::Assembled(Ok(b)) => Some(b),
        _ => None,
    }
}

/// The program with a tailored body, where one is asked for and comes about.
pub open spec fn tailored_by(
    job: JobModel,
    chosen: ChosenModel,
    host: spec_fn(RequestModel) -> ReplyModel,
) -> Option<BuiltModel> {
    let moved = moved_by(job, chosen, host);
    let tailor = RequestModel::Tailor {
        format: job.format.format,
        direction: chosen.direction,
        stream: chosen.stream,
    };
    match host(tailor) {
        ReplyModel::Tailored(Some(source)) if !(job.placement.tailoring is Standard) => match host(
            RequestModel::Assemble(recipe(job, chosen, moved, Some(source))),
        ) {
            ReplyModel::Assembled(Ok(b)) => Some(b),
            _ => None,
        },
        _ => None,
    }
}

/// The program that is kept, and whether it is the tailored one.
pub open spec fn kept_by(
    job: JobModel,
    chosen: ChosenModel,
    host: spec_fn(RequestModel) -> ReplyModel,
) -> (BuiltModel, bool) {
    let standard = standard_by(job, chosen, host)->0;
    match tailored_by(job, chosen, host) {
        Some(t) if takes_tailored(job.placement.tailoring, t, standard) => (t, true),
        _ => (standard, false),
    }
}

/// What a finished program comes from.
pub open spec fn comes_from(
    r: SfxModel,
    job: JobModel,
    chosen: ChosenModel,
    host: spec_fn(RequestModel) -> ReplyModel,
) -> bool {
    let (kept, tailored) = kept_by(job, chosen, host);
    let standard = standard_by(job, chosen, host)->0;
    &&& standard_by(job, chosen, host) is Some
    &&& r.prg == prg_bytes(kept)
    &&& r.decoder_tailored == tailored
    &&& r.decoder_saved == if tailored && standard.bytes.len() >= kept.bytes.len() {
        standard.bytes.len() - kept.bytes.len()
    } else {
        0
    }
    &&& r.payload_moved == moved_by(job, chosen, host)
    &&& r.direction == chosen.direction
    &&& r.stream == chosen.stream
    &&& r.stream_len == chosen.stream.len()
    &&& r.scratch == chosen.placed.scratch
    &&& r.span == job.span
    &&& r.decruncher_at == chosen.placed.decr_at
    &&& r.mover_at == if r.payload_moved {
        chosen.placed.mover_at
    } else {
        None
    }
    &&& r.mover_folded == (r.payload_moved && chosen.placed.mover_folded)
    &&& r.payload_moved ==> r.packed_at == chosen.placed.packed_start % 0x1_0000
    &&& !r.payload_moved ==> r.packed_at == (kept.origin + kept.bytes.len() - chosen.stream.len())
        % 0x1_0000
    &&& r.decoder_saved < 0x1_0000 ==> r.decoder_bytes == if chosen.placed.code_bytes
        >= r.decoder_saved {
        chosen.placed.code_bytes - r.decoder_saved
    } else {
        0
    }
}

/// A build goes on with the first stream that can be placed.
proof fn lemma_choice(
    job: JobModel,
    next: int,
    errs: Seq<Seq<char>>,
    host: spec_fn(RequestModel) -> ReplyModel,
)
    requires
        0 <= next < job.dirs.len(),
    ensures
        ({
            let end = outcome(job, StageModel::Compressing { next, errs }, host);
            match chosen_by(job, next, host) {
                Some(chosen) => end == outcome(job, after_choice(job, chosen), host),
                None => !(end matches Some(Ok(_))),
            }
        }),
    decreases job.dirs.len() - next,
{
    let direction = job.dirs[next];
    let stage = StageModel::Compressing { next, errs };
    assert(asked(job, stage) == compress_request(job, direction));
    let reply = host(compress_request(job, direction));
    if let ReplyModel::Compressed(Ok((stream, mode))) = reply {
        let after = step(job, stage, reply);
        if gap_by(job, direction, stream, host) is Some {
            let gap = gap_by(job, direction, stream, host)->0;
            let settled_stage = after_settling(job, next, errs, stream, mode, gap);
            assert(outcome(job, stage, host) == outcome(job, settled_stage, host)) by {
                reveal_with_fuel(outcome, 3);
                if !(needed_measure(job.format.format, direction) is Nothing) {
                    assert(after == (StageModel::Measuring { next, errs, stream, mode }));
                    assert(step(job, after, host(asked(job, after))) == settled_stage);
                }
            }
            if let Err(e) = settled(job, direction, gap, stream) {
                if next + 1 < job.dirs.len() {
                    lemma_choice(job, next + 1, errs.push(direction.name() + ": "@ + e), host);
                } else {
                    reveal_with_fuel(outcome, 2);
                }
            }
        } else {
            reveal_with_fuel(outcome, 3);
            assert(after == (StageModel::Measuring { next, errs, stream, mode }));
        }
    } else {
        reveal_with_fuel(outcome, 3);
    }
}

/// What the chosen stream answers, and where it settles.
pub proof fn lemma_chosen(job: JobModel, next: int, host: spec_fn(RequestModel) -> ReplyModel)
    ensures
        chosen_by(job, next, host) matches Some(chosen) ==> {
            let gap = gap_by(job, chosen.direction, chosen.stream, host);
            &&& host(compress_request(job, chosen.direction)) == ReplyModel::Compressed(
                Ok((chosen.stream, chosen.mode)),
            )
            &&& gap is Some
            &&& settled(job, chosen.direction, gap->0, chosen.stream) == Ok::<Placed, Seq<char>>(
                chosen.placed,
            )
        },
    decreases job.dirs.len() - next,
{
    if 0 <= next < job.dirs.len() {
        lemma_chosen(job, next + 1, host);
    }
}

/// What becomes of a chosen stream.
proof fn lemma_finish(
    job: JobModel,
    chosen: ChosenModel,
    host: spec_fn(RequestModel) -> ReplyModel,
)
    ensures
        outcome(job, after_choice(job, chosen), host) matches Some(Ok(r)) ==> comes_from(
            r,
            job,
            chosen,
            host,
        ),
{
    if let Some(Ok(r)) = outcome(job, after_choice(job, chosen), host) {
        lemma_end(job, chosen, host, r);
    }
}

/// Bytes that the program that is kept is shorter than the standard one.
spec fn saved_by(
    job: JobModel,
    chosen: ChosenModel,
    host: spec_fn(RequestModel) -> ReplyModel,
) -> int {
    let (kept, tailored) = kept_by(job, chosen, host);
    let standard = standard_by(job, chosen, host)->0;
    if tailored && standard.bytes.len() >= kept.bytes.len() {
        standard.bytes.len() - kept.bytes.len()
    } else {
        0
    }
}

proof fn lemma_end(
    job: JobModel,
    chosen: ChosenModel,
    host: spec_fn(RequestModel) -> ReplyModel,
    r: SfxModel,
)
    requires
        outcome(job, after_choice(job, chosen), host) == Some(Ok::<SfxModel, Seq<char>>(r)),
    ensures
        standard_by(job, chosen, host) is Some,
        r == finished(
            job,
            chosen,
            moved_by(job, chosen, host),
            kept_by(job, chosen, host).0,
            kept_by(job, chosen, host).1,
            saved_by(job, chosen, host),
            r.warnings,
        ),
{
    reveal_with_fuel(outcome, 6);
}

/// A program that a build ends with comes from the stream that it chose.
pub proof fn lemma_built(
    regs: Seq<RegionModel>,
    f: FormatModel,
    start_addr: u16,
    p: Placement,
    host: spec_fn(RequestModel) -> ReplyModel,
)
    ensures
        built_by(regs, f, start_addr, p, host) matches Some(Ok(r)) ==> {
            let job = started(regs, f, start_addr, p)->Ok_0.job;
            &&& started(regs, f, start_addr, p) is Ok
            &&& chosen_by(job, 0, host) is Some
            &&& comes_from(r, job, chosen_by(job, 0, host)->0, host)
        },
{
    if started(regs, f, start_addr, p) is Ok {
        let b = started(regs, f, start_addr, p)->Ok_0;
        candidates_are_usable(b.job.span, f, p);
        let errs = b.stage->Compressing_errs;
        assert(b.stage == (StageModel::Compressing { next: 0, errs }));
        lemma_choice(b.job, 0, errs, host);
        if chosen_by(b.job, 0, host) is Some {
            lemma_finish(b.job, chosen_by(b.job, 0, host)->0, host);
        }
    }
}

/// The options change the decoder, never the packed data: two builds of one
/// image in one format that end up in the same direction hold the same stream
/// and cover the same span, whatever their placements and start addresses. The
/// stream is the host's answer to a request that names neither.
pub proof fn options_never_change_the_packed_data(
    regs: Seq<RegionModel>,
    f: FormatModel,
    s1: u16,
    p1: Placement,
    s2: u16,
    p2: Placement,
    host: spec_fn(RequestModel) -> ReplyModel,
    r1: SfxModel,
    r2: SfxModel,
)
    requires
        built_by(regs, f, s1, p1, host) == Some(Ok::<SfxModel, Seq<char>>(r1)),
        built_by(regs, f, s2, p2, host) == Some(Ok::<SfxModel, Seq<char>>(r2)),
        r1.direction == r2.direction,
    ensures
        r1.stream == r2.stream,
        r1.stream_len == r1.stream.len(),
        r1.span == r2.span,
        r1.span == image_span(regs),
{
    lemma_built(regs, f, s1, p1, host);
    lemma_built(regs, f, s2, p2, host);
    let j1 = started(regs, f, s1, p1)->Ok_0.job;
    let j2 = started(regs, f, s2, p2)->Ok_0.job;
    lemma_chosen(j1, 0, host);
    lemma_chosen(j2, 0, host);
    assert(compress_request(j1, r1.direction) == compress_request(j2, r2.direction));
}

/// How the decoder is tailored does not change which stream is chosen.
proof fn lemma_tailoring_keeps_the_choice(
    job: JobModel,
    other: JobModel,
    next: int,
    host: spec_fn(RequestModel) -> ReplyModel,
)
    requires
        other == (JobModel {
            placement: Placement { tailoring: other.placement.tailoring, ..job.placement },
            ..job
        }),
    ensures
        chosen_by(job, next, host) == chosen_by(other, next, host),
    decreases job.dirs.len() - next,
{
    if 0 <= next < job.dirs.len() {
        lemma_tailoring_keeps_the_choice(job, other, next + 1, host);
        let direction = job.dirs[next];
        if let ReplyModel::Compressed(Ok((stream, mode))) = host(
            compress_request(job, direction),
        ) {
            if gap_by(job, direction, stream, host) is Some {
                let gap = gap_by(job, direction, stream, host)->0;
                lemma_tailoring_keeps_the_place(job, other, direction, gap, stream);
            }
        }
    }
}

/// How the decoder is tailored does not change what a stream settles for.
proof fn lemma_tailoring_keeps_the_layout(
    f: FormatModel,
    direction: Direction,
    gap: Result<int, Seq<char>>,
    clen: int,
    span: (u32, u32),
    p: Placement,
    q: Placement,
)
    requires
        q == (Placement { tailoring: q.tailoring, ..p }),
    ensures
        match (
            effective(f, direction, gap, clen, span, p),
            effective(f, direction, gap, clen, span, q),
        ) {
            (Ok(a), Ok(b)) => b == (Placement { tailoring: b.tailoring, ..a }),
            (Err(a), Err(b)) => a == b,
            _ => false,
        },
{
}

proof fn lemma_tailoring_keeps_the_place(
    job: JobModel,
    other: JobModel,
    direction: Direction,
    gap: Result<int, Seq<char>>,
    stream: Seq<u8>,
)
    requires
        other == (JobModel {
            placement: Placement { tailoring: other.placement.tailoring, ..job.placement },
            ..job
        }),
    ensures
        settled(job, direction, gap, stream) == settled(other, direction, gap, stream),
{
    let clen = stream.len() as int;
    let len = job.embedded_len(direction, stream);
    let (f, span) = (job.format, job.span);
    assert(len == other.embedded_len(direction, stream));
    lemma_tailoring_keeps_the_layout(
        f,
        direction,
        gap,
        clen,
        span,
        job.placement,
        other.placement,
    );
    let a = effective(f, direction, gap, clen, span, job.placement);
    let b = effective(f, direction, gap, clen, span, other.placement);
    if a is Ok {
        places_ignore_the_tailoring(span, len, f, direction, a->Ok_0, b->Ok_0, true);
    }
}

/// How the decoder is tailored does not change what the assembler is told
/// besides the body.
proof fn lemma_tailoring_keeps_the_recipes(
    job: JobModel,
    other: JobModel,
    chosen: ChosenModel,
    host: spec_fn(RequestModel) -> ReplyModel,
)
    requires
        other == (JobModel {
            placement: Placement { tailoring: other.placement.tailoring, ..job.placement },
            ..job
        }),
    ensures
        moved_by(job, chosen, host) == moved_by(other, chosen, host),
        standard_by(job, chosen, host) == standard_by(other, chosen, host),
        !(job.placement.tailoring is Standard) && !(other.placement.tailoring is Standard)
            ==> tailored_by(job, chosen, host) == tailored_by(other, chosen, host),
{
    assert(epilogue_code(job.placement) == epilogue_code(other.placement));
    assert forall|moved: bool, body: Option<Seq<char>>| #[trigger]
        recipe(job, chosen, moved, body) == recipe(other, chosen, moved, body) by {}
}

/// Automatic tailoring gives the smaller of the standard and the tailored
/// program, and a tie keeps the standard one. It saves exactly what it is
/// smaller by. The three builds hold the same stream.
pub proof fn automatic_tailoring_gives_the_smaller_program(
    regs: Seq<RegionModel>,
    f: FormatModel,
    start_addr: u16,
    p: Placement,
    host: spec_fn(RequestModel) -> ReplyModel,
    rs: SfxModel,
    rt: SfxModel,
    ra: SfxModel,
)
    requires
        ({
            let standard = Placement { tailoring: TailoringChoice::Standard, ..p };
            let tailored = Placement { tailoring: TailoringChoice::Tailored, ..p };
            let auto = Placement { tailoring: TailoringChoice::Auto, ..p };
            &&& built_by(regs, f, start_addr, standard, host) == Some(Ok::<SfxModel, Seq<char>>(rs))
            &&& built_by(regs, f, start_addr, tailored, host) == Some(Ok::<SfxModel, Seq<char>>(rt))
            &&& built_by(regs, f, start_addr, auto, host) == Some(Ok::<SfxModel, Seq<char>>(ra))
        }),
    ensures
        ra.prg.len() == if rt.prg.len() < rs.prg.len() {
            rt.prg.len()
        } else {
            rs.prg.len()
        },
        ra.decoder_tailored ==> ra.prg == rt.prg && ra.decoder_saved == rs.prg.len()
            - ra.prg.len() && ra.decoder_saved > 0,
        !ra.decoder_tailored ==> ra.prg == rs.prg && ra.decoder_saved == 0,
        !rs.decoder_tailored,
        ra.stream == rs.stream,
        rt.stream == rs.stream,
{
    let ps = Placement { tailoring: TailoringChoice::Standard, ..p };
    let pt = Placement { tailoring: TailoringChoice::Tailored, ..p };
    let pa = Placement { tailoring: TailoringChoice::Auto, ..p };
    lemma_built(regs, f, start_addr, ps, host);
    lemma_built(regs, f, start_addr, pt, host);
    lemma_built(regs, f, start_addr, pa, host);
    let js = started(regs, f, start_addr, ps)->Ok_0.job;
    let jt = started(regs, f, start_addr, pt)->Ok_0.job;
    let ja = started(regs, f, start_addr, pa)->Ok_0.job;
    lemma_tailoring_keeps_the_plan(image_span(regs), f, ps, pt);
    lemma_tailoring_keeps_the_plan(image_span(regs), f, ps, pa);
    assert(jt == (JobModel { placement: pt, ..js }));
    assert(ja == (JobModel { placement: pa, ..js }));
    lemma_tailoring_keeps_the_choice(js, jt, 0, host);
    lemma_tailoring_keeps_the_choice(js, ja, 0, host);
    lemma_smaller(js, jt, ja, chosen_by(js, 0, host)->0, host, rs, rt, ra);
}

proof fn lemma_smaller(
    js: JobModel,
    jt: JobModel,
    ja: JobModel,
    chosen: ChosenModel,
    host: spec_fn(RequestModel) -> ReplyModel,
    rs: SfxModel,
    rt: SfxModel,
    ra: SfxModel,
)
    requires
        js.placement.tailoring is Standard,
        jt == (JobModel {
            placement: Placement { tailoring: TailoringChoice::Tailored, ..js.placement },
            ..js
        }),
        ja == (JobModel {
            placement: Placement { tailoring: TailoringChoice::Auto, ..js.placement },
            ..js
        }),
        comes_from(rs, js, chosen, host),
        comes_from(rt, jt, chosen, host),
        comes_from(ra, ja, chosen, host),
    ensures
        ra.prg.len() == if rt.prg.len() < rs.prg.len() {
            rt.prg.len()
        } else {
            rs.prg.len()
        },
        ra.decoder_tailored ==> ra.prg == rt.prg && ra.decoder_saved == rs.prg.len()
            - ra.prg.len() && ra.decoder_saved > 0,
        !ra.decoder_tailored ==> ra.prg == rs.prg && ra.decoder_saved == 0,
        !rs.decoder_tailored,
        ra.stream == rs.stream,
        rt.stream == rs.stream,
{
    lemma_tailoring_keeps_the_recipes(js, jt, chosen, host);
    lemma_tailoring_keeps_the_recipes(js, ja, chosen, host);
    lemma_tailoring_keeps_the_recipes(jt, ja, chosen, host);
    let standard = standard_by(js, chosen, host)->0;
    let tailored = tailored_by(jt, chosen, host);
    assert(prg_bytes(standard).len() == 2 + standard.bytes.len());
    if tailored is Some {
        assert(prg_bytes(tailored->0).len() == 2 + tailored->0.bytes.len());
    }
    assert(kept_by(js, chosen, host) == (standard, false));
}

/// How the decoder is tailored does not change which directions are tried.
proof fn lemma_tailoring_keeps_the_plan(
    span: (u32, u32),
    f: FormatModel,
    p: Placement,
    q: Placement,
)
    requires
        q == (Placement { tailoring: q.tailoring, ..p }),
    ensures
        candidates(span, f, p) == candidates(span, f, q),
{
    let worst = worst_case(span.1 - span.0);
    places_ignore_the_tailoring(span, worst, f, Direction::Forward, p, q, false);
    places_ignore_the_tailoring(span, worst, f, Direction::Backward, p, q, false);
    assert(refusal(span, f, Direction::Forward, p) == refusal(
        span,
        f,
        Direction::Forward,
        q,
    ));
    assert(refusal(span, f, Direction::Backward, p) == refusal(
        span,
        f,
        Direction::Backward,
        q,
    ));
}

/// Where a finished program is loaded, as its first two bytes say.
pub open spec fn loads_at(r: SfxModel) -> int {
    r.prg[0] + 256 * r.prg[1]
}

/// Whether a finished program keeps clear of its output by the clearance, and
/// its scratch buffer of both.
pub open spec fn program_keeps_clear(r: SfxModel, clearance: int) -> bool {
    let lo = loads_at(r);
    let hi = lo + r.prg.len() - 2;
    &&& clears(lo, hi, r.span.0 as int, r.span.1 as int, clearance)
    &&& r.scratch matches Some((at, n)) ==> {
        &&& clears(at as int, at + n, lo, hi, clearance)
        &&& clears(at as int, at + n, r.span.0 as int, r.span.1 as int, clearance)
    }
}

/// A program whose payload is read where it was loaded keeps clear of its
/// output by the clearance, and so does its scratch buffer of both. A tailored
/// body counts where it keeps the load address; one that was asked for at any
/// size, where it is not larger than the standard one.
pub proof fn unmoved_programs_keep_clear(
    regs: Seq<RegionModel>,
    f: FormatModel,
    start_addr: u16,
    p: Placement,
    host: spec_fn(RequestModel) -> ReplyModel,
    r: SfxModel,
)
    requires
        built_by(regs, f, start_addr, p, host) == Some(Ok::<SfxModel, Seq<char>>(r)),
        !r.payload_moved,
        forall|q: RequestModel|
            (#[trigger] host(q)) matches ReplyModel::Assembled(Ok(b)) ==> 0 <= b.origin <= 0xFFFF,
        r.decoder_tailored ==> {
            let job = started(regs, f, start_addr, p)->Ok_0.job;
            let chosen = chosen_by(job, 0, host)->0;
            let standard = standard_by(job, chosen, host)->0;
            let tailored = tailored_by(job, chosen, host)->0;
            &&& tailored.origin == standard.origin
            &&& p.tailoring is Tailored ==> tailored.bytes.len() <= standard.bytes.len()
        },
    ensures
        program_keeps_clear(r, p.clearance as int),
{
    lemma_built(regs, f, start_addr, p, host);
    let job = started(regs, f, start_addr, p)->Ok_0.job;
    let chosen = chosen_by(job, 0, host)->0;
    let standard = standard_by(job, chosen, host)->0;
    let kept = kept_by(job, chosen, host).0;
    assert(stays_clear(job, chosen, standard));
    crate::sfx_laws::smaller_programs_stay_clear(job, chosen, standard, kept);
    assert(prg_bytes(kept)[0] == (kept.origin % 256) as u8);
    assert(prg_bytes(kept)[1] == (kept.origin / 256) as u8);
    assert(loads_at(r) == kept.origin);
}

/// Whether two streams are chosen for the same places, but for the size of the
/// staged decoder.
pub open spec fn alike_but_for_the_size(a: ChosenModel, b: ChosenModel) -> bool {
    b == (ChosenModel { placed: Placed { staged: b.placed.staged, ..a.placed }, ..a })
}

/// The options before the final `JMP` change nothing of what the assembler is
/// told but the code before the final `JMP`, and that by exactly the bytes that
/// placement reserves for it.
pub proof fn epilogue_options_only_change_the_code_before_the_jmp(
    job: JobModel,
    other: JobModel,
    chosen: ChosenModel,
    same: ChosenModel,
    moved: bool,
    body: Option<Seq<char>>,
)
    requires
        other == (JobModel { placement: other.placement, ..job }),
        alike_but_for_the_epilogue(job.placement, other.placement),
        alike_but_for_the_size(chosen, same),
    ensures
        recipe(other, same, moved, body) == (RecipeModel {
            post: code_text(epilogue_code(other.placement)),
            ..recipe(job, chosen, moved, body)
        }),
        recipe(job, chosen, moved, body).post == code_text(epilogue_code(job.placement)),
        code_size(epilogue_code(other.placement)) - code_size(epilogue_code(job.placement))
            == epilogue_size(other.placement) - epilogue_size(job.placement),
{
    epilogue_size_matches_the_code(job.placement);
    epilogue_size_matches_the_code(other.placement);
}

/// Whether an assembler emits the code before the final `JMP` as it is, beside
/// the `rest` of the program: neither the size of that rest nor whether there is
/// a program at all depends on it.
pub open spec fn emits_plainly(
    host: spec_fn(RequestModel) -> ReplyModel,
    rest: spec_fn(RecipeModel) -> Option<int>,
) -> bool {
    forall|q: RecipeModel, code: Seq<Instr>|
        #![trigger host(RequestModel::Assemble(q)), code_size(code)]
        q.post == code_text(code) ==> match (
            host(RequestModel::Assemble(q)),
            rest(RecipeModel { post: Seq::empty(), ..q }),
        ) {
            (ReplyModel::Assembled(Ok(b)), Some(n)) => b.bytes.len() == n + code_size(code),
            (ReplyModel::Assembled(Ok(_)), None) => false,
            (_, n) => n is None,
        }
}

/// The placement that a stream settles for.
pub open spec fn settled_placement(
    job: JobModel,
    direction: Direction,
    stream: Seq<u8>,
    host: spec_fn(RequestModel) -> ReplyModel,
) -> Placement {
    effective(
        job.format,
        direction,
        gap_by(job, direction, stream, host)->0,
        stream.len() as int,
        job.span,
        job.placement,
    )->Ok_0
}

/// The code before the final `JMP` makes a program longer by exactly its
/// reserved size, with an assembler that emits it as it is: two builds in one
/// direction that differ in those options alone differ by it in length, as long
/// as the longer decoder fits where the shorter one is. Whether a backward
/// payload can stay where it is loaded depends on the length itself, so it is
/// the same for both there.
pub proof fn programs_grow_by_the_code_before_the_jmp(
    regs: Seq<RegionModel>,
    f: FormatModel,
    start_addr: u16,
    p: Placement,
    q: Placement,
    host: spec_fn(RequestModel) -> ReplyModel,
    rest: spec_fn(RecipeModel) -> Option<int>,
    r1: SfxModel,
    r2: SfxModel,
)
    requires
        all_wf(regs),
        built_by(regs, f, start_addr, p, host) == Some(Ok::<SfxModel, Seq<char>>(r1)),
        built_by(regs, f, start_addr, q, host) == Some(Ok::<SfxModel, Seq<char>>(r2)),
        alike_but_for_the_epilogue(p, q),
        epilogue_size(p) <= epilogue_size(q),
        r1.direction == r2.direction,
        r1.direction is Backward ==> r1.payload_moved == r2.payload_moved,
        r1.stream.len() <= u32::MAX - 0x3_0000,
        sound_scratch(f, r1.direction, p),
        ({
            let j1 = started(regs, f, start_addr, p)->Ok_0.job;
            let j2 = started(regs, f, start_addr, q)->Ok_0.job;
            places_hold_longer(
                r1.span,
                j1.embedded_len(r1.direction, r1.stream),
                f,
                r1.direction,
                settled_placement(j1, r1.direction, r1.stream, host),
                settled_placement(j2, r1.direction, r1.stream, host),
                true,
            )
        }),
        emits_plainly(host, rest),
    ensures
        r2.prg.len() - r1.prg.len() == epilogue_size(q) - epilogue_size(p),
{
    lemma_built(regs, f, start_addr, p, host);
    lemma_built(regs, f, start_addr, q, host);
    let j1 = started(regs, f, start_addr, p)->Ok_0.job;
    let j2 = started(regs, f, start_addr, q)->Ok_0.job;
    crate::image::span_bounds_every_region(regs);
    lemma_longer(
        j1,
        j2,
        chosen_by(j1, 0, host)->0,
        chosen_by(j2, 0, host)->0,
        host,
        rest,
        r1,
        r2,
    );
}

proof fn lemma_longer(
    j1: JobModel,
    j2: JobModel,
    c1: ChosenModel,
    c2: ChosenModel,
    host: spec_fn(RequestModel) -> ReplyModel,
    rest: spec_fn(RecipeModel) -> Option<int>,
    r1: SfxModel,
    r2: SfxModel,
)
    requires
        valid_span(j1.span),
        j2 == (JobModel { placement: j2.placement, dirs: j2.dirs, ..j1 }),
        alike_but_for_the_epilogue(j1.placement, j2.placement),
        epilogue_size(j1.placement) <= epilogue_size(j2.placement),
        chosen_by(j1, 0, host) == Some(c1),
        chosen_by(j2, 0, host) == Some(c2),
        comes_from(r1, j1, c1, host),
        comes_from(r2, j2, c2, host),
        r1.direction == r2.direction,
        r1.direction is Backward ==> r1.payload_moved == r2.payload_moved,
        r1.stream.len() <= u32::MAX - 0x3_0000,
        sound_scratch(j1.format, r1.direction, j1.placement),
        places_hold_longer(
            j1.span,
            j1.embedded_len(r1.direction, r1.stream),
            j1.format,
            r1.direction,
            settled_placement(j1, r1.direction, r1.stream, host),
            settled_placement(j2, r1.direction, r1.stream, host),
            true,
        ),
        emits_plainly(host, rest),
    ensures
        r2.prg.len() - r1.prg.len() == epilogue_size(j2.placement) - epilogue_size(j1.placement),
{
    lemma_chosen(j1, 0, host);
    lemma_chosen(j2, 0, host);
    assert(compress_request(j1, c1.direction) == compress_request(j2, c2.direction));
    lemma_epilogue_keeps_the_choice(j1, j2, c1, c2, host);
    lemma_kept_lengths(j1, j2, c1, c2, host, rest);
    let k1 = kept_by(j1, c1, host).0;
    let k2 = kept_by(j2, c2, host).0;
    assert(prg_bytes(k1).len() == 2 + k1.bytes.len());
    assert(prg_bytes(k2).len() == 2 + k2.bytes.len());
}

/// The options before the final `JMP` do not change what a stream settles for.
proof fn lemma_epilogue_keeps_the_layout(
    f: FormatModel,
    direction: Direction,
    gap: Result<int, Seq<char>>,
    clen: int,
    span: (u32, u32),
    p: Placement,
    q: Placement,
)
    requires
        alike_but_for_the_epilogue(p, q),
    ensures
        match (
            effective(f, direction, gap, clen, span, p),
            effective(f, direction, gap, clen, span, q),
        ) {
            (Ok(a), Ok(b)) => {
                &&& alike_but_for_the_epilogue(a, b)
                &&& epilogue_size(a) == epilogue_size(p)
                &&& epilogue_size(b) == epilogue_size(q)
                &&& staged_routine(f, direction, a) == staged_routine(f, direction, p)
            },
            (Err(a), Err(b)) => a == b,
            _ => false,
        },
{
}

/// Two builds that differ in the code before the final `JMP` choose the same
/// places, but for the size of the staged decoder.
proof fn lemma_epilogue_keeps_the_choice(
    j1: JobModel,
    j2: JobModel,
    c1: ChosenModel,
    c2: ChosenModel,
    host: spec_fn(RequestModel) -> ReplyModel,
)
    requires
        valid_span(j1.span),
        j2 == (JobModel { placement: j2.placement, dirs: j2.dirs, ..j1 }),
        alike_but_for_the_epilogue(j1.placement, j2.placement),
        epilogue_size(j1.placement) <= epilogue_size(j2.placement),
        c2.direction == c1.direction,
        c2.stream == c1.stream,
        c2.mode == c1.mode,
        c1.stream.len() <= u32::MAX - 0x3_0000,
        sound_scratch(j1.format, c1.direction, j1.placement),
        settled(
            j1,
            c1.direction,
            gap_by(j1, c1.direction, c1.stream, host)->0,
            c1.stream,
        ) == Ok::<Placed, Seq<char>>(c1.placed),
        settled(
            j2,
            c2.direction,
            gap_by(j2, c2.direction, c2.stream, host)->0,
            c2.stream,
        ) == Ok::<Placed, Seq<char>>(c2.placed),
        places_hold_longer(
            j1.span,
            j1.embedded_len(c1.direction, c1.stream),
            j1.format,
            c1.direction,
            settled_placement(j1, c1.direction, c1.stream, host),
            settled_placement(j2, c1.direction, c1.stream, host),
            true,
        ),
    ensures
        alike_but_for_the_size(c1, c2),
{
    let gap = gap_by(j1, c1.direction, c1.stream, host)->0;
    lemma_epilogue_keeps_the_layout(
        j1.format,
        c1.direction,
        gap,
        c1.stream.len() as int,
        j1.span,
        j1.placement,
        j2.placement,
    );
    epilogue_options_keep_the_places(
        j1.span,
        j1.embedded_len(c1.direction, c1.stream),
        j1.format,
        c1.direction,
        settled_placement(j1, c1.direction, c1.stream, host),
        settled_placement(j2, c1.direction, c1.stream, host),
        true,
    );
}

/// What two programs that differ in the code before the final `JMP` differ by.
proof fn lemma_emitted(
    j1: JobModel,
    j2: JobModel,
    c1: ChosenModel,
    c2: ChosenModel,
    moved: bool,
    body: Option<Seq<char>>,
    host: spec_fn(RequestModel) -> ReplyModel,
    rest: spec_fn(RecipeModel) -> Option<int>,
)
    requires
        j2 == (JobModel { placement: j2.placement, dirs: j2.dirs, ..j1 }),
        alike_but_for_the_epilogue(j1.placement, j2.placement),
        alike_but_for_the_size(c1, c2),
        emits_plainly(host, rest),
    ensures
        match (
            host(RequestModel::Assemble(recipe(j1, c1, moved, body))),
            host(RequestModel::Assemble(recipe(j2, c2, moved, body))),
        ) {
            (ReplyModel::Assembled(Ok(a)), ReplyModel::Assembled(Ok(b))) => b.bytes.len()
                - a.bytes.len() == epilogue_size(j2.placement) - epilogue_size(j1.placement),
            (ReplyModel::Assembled(Ok(_)), _) => false,
            (_, ReplyModel::Assembled(Ok(_))) => false,
            _ => true,
        },
{
    let same = JobModel { dirs: j2.dirs, ..j1 };
    epilogue_options_only_change_the_code_before_the_jmp(same, j2, c1, c2, moved, body);
    let a = recipe(j1, c1, moved, body);
    let b = recipe(j2, c2, moved, body);
    assert(a == recipe(same, c1, moved, body));
    assert((RecipeModel { post: Seq::empty(), ..a }) == (RecipeModel { post: Seq::empty(), ..b }));
    let n1 = code_size(epilogue_code(j1.placement));
    let n2 = code_size(epilogue_code(j2.placement));
}

/// The programs that are kept differ as much, tailored or not.
proof fn lemma_kept_lengths(
    j1: JobModel,
    j2: JobModel,
    c1: ChosenModel,
    c2: ChosenModel,
    host: spec_fn(RequestModel) -> ReplyModel,
    rest: spec_fn(RecipeModel) -> Option<int>,
)
    requires
        j2 == (JobModel { placement: j2.placement, dirs: j2.dirs, ..j1 }),
        alike_but_for_the_epilogue(j1.placement, j2.placement),
        alike_but_for_the_size(c1, c2),
        emits_plainly(host, rest),
        standard_by(j1, c1, host) is Some,
        standard_by(j2, c2, host) is Some,
        c1.direction is Backward ==> moved_by(j1, c1, host) == moved_by(j2, c2, host),
    ensures
        kept_by(j2, c2, host).0.bytes.len() - kept_by(j1, c1, host).0.bytes.len() == epilogue_size(
            j2.placement,
        ) - epilogue_size(j1.placement),
{
    let moved = moved_by(j1, c1, host);
    assert(moved == moved_by(j2, c2, host));
    lemma_emitted(j1, j2, c1, c2, moved, None, host, rest);
    let tailor = RequestModel::Tailor {
        format: j1.format.format,
        direction: c1.direction,
        stream: c1.stream,
    };
    if let ReplyModel::Tailored(Some(source)) = host(tailor) {
        lemma_emitted(j1, j2, c1, c2, moved, Some(source), host, rest);
    }
}

/// A direction that the preview offers is one that can be built in: a stream no
/// longer than the worst case, whose measured gap the placement already covers
/// and that fits its window, has its place. PuCrunch containers are checked on
/// their own as well.
pub proof fn offered_directions_have_a_place(
    job: JobModel,
    next: int,
    gap: Result<int, Seq<char>>,
    stream: Seq<u8>,
)
    requires
        job.wf(),
        0 <= next < job.dirs.len(),
        !(job.format.format is PuCrunch),
        job.embedded_len(job.dirs[next], stream) <= worst_case(job.span.1 - job.span.0),
        effective(
            job.format,
            job.dirs[next],
            gap,
            stream.len() as int,
            job.span,
            job.placement,
        ) == Ok::<Placement, Seq<char>>(job.placement),
        packed_window(
            job.span,
            job.embedded_len(job.dirs[next], stream),
            job.format.format,
            job.dirs[next],
            job.placement,
            true,
        ) is Ok,
    ensures
        settled(job, job.dirs[next], gap, stream) is Ok,
{
    candidates_are_usable(job.span, job.format, job.placement);
    crate::plan_laws::preview_that_fits_is_a_build_that_fits(
        job.span,
        job.embedded_len(job.dirs[next], stream),
        job.format,
        job.dirs[next],
        job.placement,
    );
}

} // verus!
