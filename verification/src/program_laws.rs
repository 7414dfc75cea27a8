//! What a finished program is made of.
use vstd::prelude::*;

#[allow(unused_imports)]
use crate::formats::{Direction, FormatModel};
#[allow(unused_imports)]
use crate::image::{all_wf, byte_at, span_bounds_every_region, span_of, RegionModel};
#[allow(unused_imports)]
use crate::inplace::Measure;
#[allow(unused_imports)]
use crate::placement::{code_text, epilogue_code, Placement};
#[allow(unused_imports)]
use crate::plan::{candidates, image_span, valid_span, Placed};
#[allow(unused_imports)]
use crate::request_laws::{
    asks_for_the_placed, has_gap_function, lemma_payload, placed_streams_leave_their_gap,
    the_buffer_asked_for_is_the_one_reserved,
};
#[allow(unused_imports)]
use crate::run_laws::{
    built_by, chosen_by, comes_from, gap_by, kept_by, lemma_built, lemma_chosen,
};
#[allow(unused_imports)]
use crate::sfx::{
    asked, recipe, settled, started, step, BuildModel, BuiltModel, ChosenModel, JobModel,
    PayloadMove, RecipeModel, ReplyModel, RequestModel, SfxModel, StageModel,
};

verus! {

/// Whether bytes are those of the image from the start of its span to its end.
pub open spec fn are_span_bytes(regs: Seq<RegionModel>, data: Seq<u8>) -> bool {
    &&& data.len() == image_span(regs).1 - image_span(regs).0
    &&& forall|k: int|
        0 <= k < data.len() ==> #[trigger] data[k] == byte_at(regs, image_span(regs).0 + k)
}

/// A finished program is what the host assembled for one request, behind its
/// load address. That request is for the format, the target of the jump and the
/// span that the build was started with, and for the stream and mode byte that
/// the host packed from the bytes of the image. What the program reports is
/// what the request says.
pub proof fn finished_programs_are_assembled_as_asked(
    regs: Seq<RegionModel>,
    f: FormatModel,
    start_addr: u16,
    p: Placement,
    host: spec_fn(RequestModel) -> ReplyModel,
    r: SfxModel,
) -> (q: RecipeModel)
    requires
        all_wf(regs),
        built_by(regs, f, start_addr, p, host) == Some(Ok::<SfxModel, Seq<char>>(r)),
    ensures
        host(RequestModel::Assemble(q)) matches ReplyModel::Assembled(Ok(b)) && {
            &&& r.prg.skip(2) == b.bytes
            &&& 0 <= b.origin <= 0xFFFF ==> r.prg[0] + 256 * r.prg[1] == b.origin
        },
        q.format == f.format,
        q.jmp == start_addr,
        q.output == image_span(regs).0,
        q.output + q.output_len == image_span(regs).1,
        q.post == code_text(epilogue_code(p)),
        exists|data: Seq<u8>| #[trigger]
            are_span_bytes(regs, data) && host(
                RequestModel::Compress {
                    format: f.format,
                    direction: q.direction,
                    data,
                    out_end: (image_span(regs).1 % 0x1_0000) as int,
                },
            ) == ReplyModel::Compressed(Ok((q.stream, q.mode))),
        q.body is Some <==> r.decoder_tailored,
        q.body matches Some(source) ==> host(
            RequestModel::Tailor { format: f.format, direction: q.direction, stream: q.stream },
        ) == ReplyModel::Tailored(Some(source)),
        r.direction == q.direction,
        r.stream == q.stream,
        r.decruncher_at == q.stage_at,
        r.scratch is Some <==> q.scratch is Some,
        r.scratch matches Some((a, _)) ==> q.scratch == Some(a),
        r.mover_at == q.mover_at,
        r.mover_folded <==> q.fold_mover || q.payload is InPlace,
        r.payload_moved <==> !(q.payload is Stay),
        q.payload matches PayloadMove::To(a) ==> r.packed_at == a,
        q.payload matches PayloadMove::InPlace(a) ==> r.packed_at == a,
        q.payload is Stay ==> {
            let b = host(RequestModel::Assemble(q))->Assembled_0->Ok_0;
            r.packed_at == (b.origin + b.bytes.len() - r.stream.len()) % 0x1_0000
        },
        r.span == image_span(regs),
{
    lemma_built(regs, f, start_addr, p, host);
    let job = started(regs, f, start_addr, p)->Ok_0.job;
    let chosen = chosen_by(job, 0, host)->0;
    lemma_chosen(job, 0, host);
    lemma_span(regs);
    assert(are_span_bytes(regs, job.data));
    lemma_kept(job, chosen, host, r)
}

proof fn lemma_span(regs: Seq<RegionModel>)
    requires
        all_wf(regs),
        regs.len() > 0,
    ensures
        valid_span(image_span(regs)),
        span_of(regs) == Some((image_span(regs).0 as int, image_span(regs).1 as int)),
{
    span_bounds_every_region(regs);
    let i = choose|i: int| 0 <= i < regs.len() && (#[trigger] regs[i]).load
        == crate::image::lowest_start(regs);
    let j = choose|j: int| 0 <= j < regs.len() && (#[trigger] regs[j]).end()
        == crate::image::highest_end(regs);
    assert(regs[i].wf() && regs[j].wf());
}

proof fn lemma_kept(
    job: JobModel,
    chosen: ChosenModel,
    host: spec_fn(RequestModel) -> ReplyModel,
    r: SfxModel,
) -> (q: RecipeModel)
    requires
        comes_from(r, job, chosen, host),
    ensures
        q == recipe(job, chosen, r.payload_moved, q.body),
        host(RequestModel::Assemble(q)) matches ReplyModel::Assembled(Ok(b)) && {
            &&& r.prg.skip(2) == b.bytes
            &&& 0 <= b.origin <= 0xFFFF ==> r.prg[0] + 256 * r.prg[1] == b.origin
        },
        q.body is Some <==> r.decoder_tailored,
        q.body matches Some(source) ==> host(
            RequestModel::Tailor {
                format: job.format.format,
                direction: q.direction,
                stream: q.stream,
            },
        ) == ReplyModel::Tailored(Some(source)),
        r.mover_folded <==> q.fold_mover || q.payload is InPlace,
        r.payload_moved <==> !(q.payload is Stay),
        q.payload matches PayloadMove::To(a) ==> r.packed_at == a,
        q.payload matches PayloadMove::InPlace(a) ==> r.packed_at == a,
        q.payload is Stay ==> {
            let b = host(RequestModel::Assemble(q))->Assembled_0->Ok_0;
            r.packed_at == (b.origin + b.bytes.len() - r.stream.len()) % 0x1_0000
        },
        r.mover_at == q.mover_at,
        r.scratch is Some <==> q.scratch is Some,
        r.scratch matches Some((a, _)) ==> q.scratch == Some(a),
{
    let (kept, tailored) = kept_by(job, chosen, host);
    assert(r.prg.skip(2) =~= kept.bytes);
    let body = if tailored {
        let reply = host(
            RequestModel::Tailor {
                format: job.format.format,
                direction: chosen.direction,
                stream: chosen.stream,
            },
        );
        reply->Tailored_0
    } else {
        None
    };
    lemma_payload(job, chosen, r.payload_moved, body);
    recipe(job, chosen, r.payload_moved, body)
}

/// What a finished program reports of its layout: it was placed for a measure
/// that the host took of its stream; the block of its buffer meets neither the
/// output span nor the packed stream nor the staged decoder; and nothing that
/// it reports was left to the build where the placement asked for an address.
pub proof fn finished_programs_are_laid_out_as_placed(
    regs: Seq<RegionModel>,
    f: FormatModel,
    start_addr: u16,
    p: Placement,
    host: spec_fn(RequestModel) -> ReplyModel,
    r: SfxModel,
) -> (at: Placed)
    requires
        all_wf(regs),
        built_by(regs, f, start_addr, p, host) == Some(Ok::<SfxModel, Seq<char>>(r)),
        r.stream.len() <= u32::MAX - 0x3_0000,
        crate::plan_laws::sound_scratch(f, r.direction, p),
    ensures
        at.decr_at == r.decruncher_at,
        at.scratch == r.scratch,
        ({
            let job = started(regs, f, start_addr, p)->Ok_0.job;
            let len = job.embedded_len(r.direction, r.stream);
            let packed = crate::plan::block(at.packed_start as int, at.packed_start + len);
            let output = crate::plan::block(r.span.0 as int, r.span.1 as int);
            let decoder = crate::plan::block(
                r.decruncher_at as int,
                r.decruncher_at + at.staged,
            );
            &&& r.scratch matches Some((a, n)) ==> {
                let buffer = crate::plan::block(a as int, a + n);
                !buffer.meets(output) && !buffer.meets(packed) && !buffer.meets(decoder)
            }
            &&& !decoder.meets(output) && !decoder.meets(packed)
            &&& r.payload_moved ==> r.packed_at == at.packed_start % 0x1_0000
            &&& has_gap_function(f.format) ==> (host(
                RequestModel::Measure {
                    format: f.format,
                    direction: r.direction,
                    measure: Measure::MaxGap,
                    stream: r.stream,
                },
            ) matches ReplyModel::Measured(Ok(gap)) && match r.direction {
                Direction::Backward => at.packed_start + gap + 8 <= r.span.0,
                Direction::Forward => r.span.1 + gap + 8 <= 0x1_0000,
            })
        }),
        p.decruncher matches Some(a) ==> r.decruncher_at == a,
        p.scratch matches Some(a) ==> r.scratch matches Some((s, _)) ==> s == a,
        !r.decoder_tailored ==> r.decoder_bytes == at.code_bytes,
        r.decoder_tailored && r.decoder_saved <= at.code_bytes ==> r.decoder_bytes
            + r.decoder_saved == at.code_bytes,
{
    lemma_built(regs, f, start_addr, p, host);
    let b = started(regs, f, start_addr, p)->Ok_0;
    let job = b.job;
    let chosen = chosen_by(job, 0, host)->0;
    lemma_chosen(job, 0, host);
    lemma_span(regs);
    assert(job.wf());
    let gap = gap_by(job, chosen.direction, chosen.stream, host)->0;
    let q = recipe(job, chosen, r.payload_moved, None);
    assert(asks_for_the_placed(q, job, gap));
    the_buffer_asked_for_is_the_one_reserved(job, q, gap);
    if has_gap_function(f.format) {
        placed_streams_leave_their_gap(job, chosen.direction, gap, chosen.stream);
    }
    chosen.placed
}

/// When a build starts: there is an image, it spans less than 64 KB, and some
/// direction can be tried. It starts with the first such direction, on the
/// bytes of the span, and keeps the format, the jump and the placement.
pub proof fn builds_start_on_the_bytes_of_the_span(
    regs: Seq<RegionModel>,
    f: FormatModel,
    start_addr: u16,
    p: Placement,
)
    requires
        all_wf(regs),
    ensures
        regs.len() == 0 ==> started(regs, f, start_addr, p) == Err::<BuildModel, Seq<char>>(
            "no .prg added"@,
        ),
        regs.len() > 0 && image_span(regs).1 - image_span(regs).0 >= 0x1_0000 ==> started(
            regs,
            f,
            start_addr,
            p,
        ) is Err,
        regs.len() > 0 && image_span(regs).1 - image_span(regs).0 < 0x1_0000 ==> match (
            started(regs, f, start_addr, p),
            candidates(image_span(regs), f, p),
        ) {
            (Ok(b), Ok(plan)) => {
                &&& are_span_bytes(regs, b.job.data)
                &&& b.job.span == image_span(regs)
                &&& b.job.format == f && b.job.start_addr == start_addr && b.job.placement == p
                &&& b.job.dirs == plan.dirs
                &&& b.stage == (StageModel::Compressing { next: 0, errs: plan.skipped })
                &&& asked(b.job, b.stage) matches RequestModel::Compress { direction, data, .. }
                    && direction == plan.dirs[0] && are_span_bytes(regs, data)
            },
            (Err(e), Err(why)) => e == why,
            _ => false,
        },
{
    if regs.len() > 0 {
        lemma_span(regs);
    }
}

/// Which of two assembled programs is kept: the tailored one wherever it was
/// asked for outright, the shorter one where the choice is automatic (the
/// standard one of two equals), never a tailored one where the standard one was
/// asked for. What is reported as saved is the difference, and the warnings are
/// those of the program that is kept.
pub proof fn the_program_kept_is_the_one_asked_for(
    job: JobModel,
    chosen: ChosenModel,
    source: Seq<char>,
    moved: bool,
    standard: BuiltModel,
    tailored: BuiltModel,
)
    ensures
        step(
            job,
            StageModel::AssemblingTailored { chosen, source, moved, standard },
            ReplyModel::Assembled(Ok(tailored)),
        ) matches StageModel::Finished { result: Ok(r) } && {
            let shorter = tailored.bytes.len() < standard.bytes.len();
            &&& job.placement.tailoring is Tailored ==> r.decoder_tailored
            &&& job.placement.tailoring is Auto ==> (r.decoder_tailored <==> shorter)
            &&& job.placement.tailoring is Standard ==> !r.decoder_tailored
            &&& r.decoder_tailored ==> {
                &&& r.prg.skip(2) == tailored.bytes
                &&& r.warnings == tailored.warnings
                &&& shorter ==> r.decoder_saved == standard.bytes.len() - tailored.bytes.len()
                &&& !shorter ==> r.decoder_saved == 0
            }
            &&& !r.decoder_tailored ==> {
                &&& r.prg.skip(2) == standard.bytes
                &&& r.warnings == standard.warnings
                &&& r.decoder_saved == 0
            }
        },
{
    let stage = StageModel::AssemblingTailored { chosen, source, moved, standard };
    let r = step(job, stage, ReplyModel::Assembled(Ok(tailored)))->result->Ok_0;
    assert(r.prg.skip(2) =~= if r.decoder_tailored {
        tailored.bytes
    } else {
        standard.bytes
    });
}

/// Without a tailored body the standard program is the result, with a warning
/// more exactly if a tailored one was asked for outright.
pub proof fn untailored_programs_warn_if_tailoring_was_asked_for(
    job: JobModel,
    chosen: ChosenModel,
    moved: bool,
    standard: BuiltModel,
)
    ensures
        step(
            job,
            StageModel::Assembling { chosen, tailored: None, moved },
            ReplyModel::Assembled(Ok(standard)),
        ) matches StageModel::Finished { result: Ok(r) } && {
            &&& r.prg.skip(2) == standard.bytes
            &&& !r.decoder_tailored && r.decoder_saved == 0
            &&& r.payload_moved == moved
            &&& job.placement.tailoring is Tailored ==> {
                &&& r.warnings.len() == standard.warnings.len() + 1
                &&& r.warnings.drop_last() == standard.warnings
            }
            &&& !(job.placement.tailoring is Tailored) ==> r.warnings == standard.warnings
        },
{
    let stage = StageModel::Assembling { chosen, tailored: None, moved };
    let r = step(job, stage, ReplyModel::Assembled(Ok(standard)))->result->Ok_0;
    assert(r.prg.skip(2) =~= standard.bytes);
    if job.placement.tailoring is Tailored {
        assert(r.warnings.drop_last() =~= standard.warnings);
    }
}

/// A tailored body is asked for exactly if the placement does not want the
/// standard one.
pub proof fn tailored_bodies_are_asked_for_unless_unwanted(
    job: JobModel,
    next: int,
    errs: Seq<Seq<char>>,
    stream: Seq<u8>,
    mode: Option<u8>,
    gap: Result<int, Seq<char>>,
)
    requires
        settled(job, job.dirs[next], gap, stream) is Ok,
    ensures
        ({
            let after = step(
                job,
                StageModel::Measuring { next, errs, stream, mode },
                ReplyModel::Measured(gap),
            );
            &&& asked(job, after) is Tailor <==> !(job.placement.tailoring is Standard)
            &&& asked(job, after) is Tailor || asked(job, after) is Assemble
        }),
{
}

/// A stream takes two bytes more in the program than it has exactly if the
/// balanced routine of its direction reads the output address in front of it.
pub proof fn embedded_streams_may_start_with_their_output(
    job: JobModel,
    direction: Direction,
    stream: Seq<u8>,
)
    ensures
        ({
            let decoders = match direction {
                Direction::Forward => job.format.forward,
                Direction::Backward => job.format.backward,
            };
            let set = if job.placement.allow_illegal {
                decoders.any
            } else {
                decoders.legal
            };
            let prefixed = set.balanced matches Some(r) && r.dst_prefixed;
            job.embedded_len(direction, stream) == stream.len() + (if prefixed {
                2int
            } else {
                0
            })
        }),
{
}

/// The span of an image holds every region, and starts and ends with one.
pub proof fn the_span_holds_every_region(regs: Seq<RegionModel>)
    requires
        all_wf(regs),
        regs.len() > 0,
    ensures
        valid_span(image_span(regs)),
        forall|i: int|
            0 <= i < regs.len() ==> image_span(regs).0 <= (#[trigger] regs[i]).load
                && regs[i].end() <= image_span(regs).1,
        exists|i: int| 0 <= i < regs.len() && (#[trigger] regs[i]).load == image_span(regs).0,
        exists|i: int| 0 <= i < regs.len() && (#[trigger] regs[i]).end() == image_span(regs).1,
{
    span_bounds_every_region(regs);
    lemma_span(regs);
}

} // verus!
