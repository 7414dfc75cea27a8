//! Building a self-extracting program.
//!
//! Compressing, measuring and assembling are done outside. A [`Build`] decides
//! what to ask for next and what to make of each reply, and ends with the
//! finished program or with the reason why there is none.
use vstd::prelude::*;

use crate::formats::{Direction, Format, FormatInfo};
#[allow(unused_imports)]
use crate::formats::FormatModel;
use crate::image::MemoryImage;
#[allow(unused_imports)]
use crate::image::{byte_at, span_of, RegionModel};
use crate::inplace::{inplace_effective_placement, measure_for, pucrunch_inplace_safe, Measure};
#[allow(unused_imports)]
use crate::inplace::{container_check, effective, measured, needed_measure};
use crate::placement::{epilogue_source, Placement, TailoringChoice};
#[allow(unused_imports)]
use crate::placement::{code_text, epilogue_code};
use crate::plan::{direction_candidates, place, DecoderChoice, Placed};
#[allow(unused_imports)]
use crate::plan::{candidates, image_span, placed, says, valid_span};
use crate::text::{join, push_decimal, push_hex4};
#[allow(unused_imports)]
use crate::text::{decimal, hex4, joined, texts};

verus! {

/// Why an outside step failed.
pub enum Fault {
    /// The decoder itself was refused; the message stands as it is.
    Decoder(String),
    /// The encoder or the assembler failed.
    Tool(String),
}

/// What a [`Fault`] holds.
pub enum FaultModel {
    Decoder(Seq<char>),
    Tool(Seq<char>),
}

impl View for Fault {
    type V = FaultModel;

    open spec fn view(&self) -> FaultModel {
        match self {
            Fault::Decoder(e) => FaultModel::Decoder(e@),
            Fault::Tool(e) => FaultModel::Tool(e@),
        }
    }
}

/// An assembled program.
pub struct Built {
    /// Load address.
    pub origin: u16,
    pub bytes: Vec<u8>,
    pub warnings: Vec<String>,
}

/// What a [`Built`] holds.
pub struct BuiltModel {
    pub origin: int,
    pub bytes: Seq<u8>,
    pub warnings: Seq<Seq<char>>,
}

impl View for Built {
    type V = BuiltModel;

    open spec fn view(&self) -> BuiltModel {
        BuiltModel {
            origin: self.origin as int,
            bytes: self.bytes@,
            warnings: texts(self.warnings@),
        }
    }
}

/// The answer to a [`Request`].
pub enum Reply {
    /// The packed stream, and the mode byte of formats that have one.
    Compressed(Result<(Vec<u8>, Option<u8>), Fault>),
    /// The measured gap or shift.
    Measured(Result<i64, String>),
    /// The source of a decoder body tailored to the stream, if it admits one.
    Tailored(Option<String>),
    /// The assembled program.
    Assembled(Result<Built, Fault>),
}

/// What a [`Reply`] holds.
pub enum ReplyModel {
    Compressed(Result<(Seq<u8>, Option<u8>), FaultModel>),
    Measured(Result<int, Seq<char>>),
    Tailored(Option<Seq<char>>),
    Assembled(Result<BuiltModel, FaultModel>),
}

impl View for Reply {
    type V = ReplyModel;

    open spec fn view(&self) -> ReplyModel {
        match self {
            Reply::Compressed(Ok((stream, mode))) => ReplyModel::Compressed(Ok((stream@, *mode))),
            Reply::Compressed(Err(e)) => ReplyModel::Compressed(Err(e@)),
            Reply::Measured(gap) => ReplyModel::Measured(measured(*gap)),
            Reply::Tailored(Some(source)) => ReplyModel::Tailored(Some(source@)),
            Reply::Tailored(None) => ReplyModel::Tailored(None),
            Reply::Assembled(Ok(built)) => ReplyModel::Assembled(Ok(built@)),
            Reply::Assembled(Err(e)) => ReplyModel::Assembled(Err(e@)),
        }
    }
}

/// A packed stream whose place is settled.
pub struct Chosen {
    pub direction: Direction,
    pub stream: Vec<u8>,
    pub mode: Option<u8>,
    pub placed: Placed,
}

/// What a [`Chosen`] holds.
#[verifier::ext_equal]
pub struct ChosenModel {
    pub direction: Direction,
    pub stream: Seq<u8>,
    pub mode: Option<u8>,
    pub placed: Placed,
}

impl View for Chosen {
    type V = ChosenModel;

    open spec fn view(&self) -> ChosenModel {
        ChosenModel {
            direction: self.direction,
            stream: self.stream@,
            mode: self.mode,
            placed: self.placed,
        }
    }
}

/// A finished self-extracting program.
#[derive(Debug)]
pub struct SfxResult {
    /// The finished self-extracting `.prg` (2-byte load address and image).
    pub prg: Vec<u8>,
    pub direction: Direction,
    /// Raw compressed stream length (before prefixes and wrapper).
    pub stream_len: usize,
    /// Where the packed stream sits when the decoder runs.
    pub packed_at: u16,
    pub decruncher_at: u16,
    /// Scratch buffer (address, length) for formats that need one.
    pub scratch: Option<(u16, u16)>,
    /// Explicit relocated-mover address, when one was used. `None` = the
    /// payload move runs inline from the main program, or (see
    /// [`SfxResult::mover_folded`]) folded into the staged decoder blob.
    pub mover_at: Option<u16>,
    /// The copy code of the payload move was folded into the front of the staged
    /// decoder blob, since the move overwrites the program image or did so in the
    /// plan that was kept (the default; an explicit mover address keeps the
    /// separate mover).
    pub mover_folded: bool,
    pub span: (u32, u32),
    pub warnings: Vec<String>,
    /// The embedded decoder was tailored to this stream. `false` = the standard
    /// body.
    pub decoder_tailored: bool,
    /// Bytes the whole program shrank by choosing the tailored decoder over the
    /// standard one (0 when not tailored).
    pub decoder_saved: usize,
    /// Size of the decoder body that was actually built, after any tailoring.
    pub decoder_bytes: u16,
    /// The raw compressed stream embedded in the program, before the wrapper
    /// and any prefix.
    pub stream: Vec<u8>,
    /// Whether the payload was moved or copied to its decode position. `false`
    /// = the "no move" in-place layout was used (the image sits clear of the
    /// output span, so the decoder reads the payload where it was loaded).
    pub payload_moved: bool,
}

/// What a [`SfxResult`] holds.
#[verifier::ext_equal]
pub struct SfxModel {
    pub prg: Seq<u8>,
    pub direction: Direction,
    pub stream_len: int,
    pub packed_at: int,
    pub decruncher_at: u16,
    pub scratch: Option<(u16, u16)>,
    pub mover_at: Option<u16>,
    pub mover_folded: bool,
    pub span: (u32, u32),
    pub warnings: Seq<Seq<char>>,
    pub decoder_tailored: bool,
    pub decoder_saved: int,
    pub decoder_bytes: int,
    pub stream: Seq<u8>,
    pub payload_moved: bool,
}

impl View for SfxResult {
    type V = SfxModel;

    open spec fn view(&self) -> SfxModel {
        SfxModel {
            prg: self.prg@,
            direction: self.direction,
            stream_len: self.stream_len as int,
            packed_at: self.packed_at as int,
            decruncher_at: self.decruncher_at,
            scratch: self.scratch,
            mover_at: self.mover_at,
            mover_folded: self.mover_folded,
            span: self.span,
            warnings: texts(self.warnings@),
            decoder_tailored: self.decoder_tailored,
            decoder_saved: self.decoder_saved as int,
            decoder_bytes: self.decoder_bytes as int,
            stream: self.stream@,
            payload_moved: self.payload_moved,
        }
    }
}

/// What a build works on.
struct Job {
    format: FormatInfo,
    start_addr: u16,
    placement: Placement,
    span: (u32, u32),
    data: Vec<u8>,
    dirs: Vec<Direction>,
}

/// What a build works on: the format, the target of the final `JMP`, the
/// placement, the span and its bytes, and the directions to try in order.
#[verifier::ext_equal]
pub struct JobModel {
    pub format: FormatModel,
    pub start_addr: u16,
    pub placement: Placement,
    pub span: (u32, u32),
    pub data: Seq<u8>,
    pub dirs: Seq<Direction>,
}

impl View for Job {
    type V = JobModel;

    closed spec fn view(&self) -> JobModel {
        JobModel {
            format: self.format@,
            start_addr: self.start_addr,
            placement: self.placement,
            span: self.span,
            data: self.data@,
            dirs: self.dirs@,
        }
    }
}

impl JobModel {
    /// The span holds the data, and the directions are those of the plan.
    pub open spec fn wf(self) -> bool {
        &&& valid_span(self.span)
        &&& self.data.len() == self.span.1 - self.span.0
        &&& self.data.len() <= 0xFFFF
        &&& candidates(self.span, self.format, self.placement) matches Ok(plan)
        &&& plan.dirs == self.dirs
    }

    /// Whether the payload of the routine for this direction starts with the
    /// output address.
    pub open spec fn prefixed(self, direction: Direction) -> bool {
        self.format.set(direction, self.placement.allow_illegal).balanced matches Some(r)
            && r.dst_prefixed
    }

    /// Bytes that a stream takes inside the program.
    pub open spec fn embedded_len(self, direction: Direction, stream: Seq<u8>) -> int {
        stream.len() + (if self.prefixed(direction) {
            2int
        } else {
            0
        })
    }
}

/// How far a build has come.
enum Stage {
    Compressing { next: usize, errs: Vec<String> },
    Measuring { next: usize, errs: Vec<String>, stream: Vec<u8>, mode: Option<u8> },
    Tailoring { chosen: Chosen },
    Probing { chosen: Chosen, tailored: Option<String> },
    Assembling { chosen: Chosen, tailored: Option<String>, moved: bool },
    AssemblingTailored { chosen: Chosen, source: String, moved: bool, standard: Built },
    Finished { result: Result<SfxResult, String> },
}

/// How far a build has come: compressing for the direction `next` (with the
/// reasons against the earlier ones), measuring the stream that came back,
/// asking for a tailored body, probing whether the payload can stay where it is
/// loaded, assembling the standard body, assembling the tailored one, finished.
pub enum StageModel {
    Compressing { next: int, errs: Seq<Seq<char>> },
    Measuring { next: int, errs: Seq<Seq<char>>, stream: Seq<u8>, mode: Option<u8> },
    Tailoring { chosen: ChosenModel },
    Probing { chosen: ChosenModel, tailored: Option<Seq<char>> },
    Assembling { chosen: ChosenModel, tailored: Option<Seq<char>>, moved: bool },
    AssemblingTailored {
        chosen: ChosenModel,
        source: Seq<char>,
        moved: bool,
        standard: BuiltModel,
    },
    Finished { result: Result<SfxModel, Seq<char>> },
}

/// What an optional string holds.
pub open spec fn opt_text(s: Option<String>) -> Option<Seq<char>> {
    match s {
        Some(t) => Some(t@),
        None => None,
    }
}

impl View for Stage {
    type V = StageModel;

    closed spec fn view(&self) -> StageModel {
        match self {
            Stage::Compressing { next, errs } => StageModel::Compressing {
                next: *next as int,
                errs: texts(errs@),
            },
            Stage::Measuring { next, errs, stream, mode } => StageModel::Measuring {
                next: *next as int,
                errs: texts(errs@),
                stream: stream@,
                mode: *mode,
            },
            Stage::Tailoring { chosen } => StageModel::Tailoring { chosen: chosen@ },
            Stage::Probing { chosen, tailored } => StageModel::Probing {
                chosen: chosen@,
                tailored: opt_text(*tailored),
            },
            Stage::Assembling { chosen, tailored, moved } => StageModel::Assembling {
                chosen: chosen@,
                tailored: opt_text(*tailored),
                moved: *moved,
            },
            Stage::AssemblingTailored { chosen, source, moved, standard } =>
            StageModel::AssemblingTailored {
                chosen: chosen@,
                source: source@,
                moved: *moved,
                standard: standard@,
            },
            Stage::Finished { result } => StageModel::Finished {
                result: match result {
                    Ok(r) => Ok(r@),
                    Err(e) => Err(e@),
                },
            },
        }
    }
}

/// Why no direction could be built.
pub open spec fn placement_failed(errs: Seq<Seq<char>>) -> Seq<char> {
    "Placement failed: "@ + (if errs.len() == 0 {
        "unknown"@
    } else {
        joined(errs, "; "@)
    }) + ". Try a different format or adjust the addresses."@
}

/// The next direction, or the end if there is none.
pub open spec fn try_next(job: JobModel, next: int, errs: Seq<Seq<char>>) -> StageModel {
    if next < job.dirs.len() {
        StageModel::Compressing { next, errs }
    } else {
        StageModel::Finished { result: Err(placement_failed(errs)) }
    }
}

/// Where a stream goes, or why it cannot be unpacked in this direction.
pub open spec fn settled(
    job: JobModel,
    direction: Direction,
    gap: Result<int, Seq<char>>,
    stream: Seq<u8>,
) -> Result<Placed, Seq<char>> {
    let clen = stream.len() as int;
    match effective(job.format, direction, gap, clen, job.span, job.placement) {
        Err(e) => Err(e),
        Ok(eff) => match placed(
            job.span,
            job.embedded_len(direction, stream),
            job.format,
            direction,
            eff,
            true,
        ) {
            Err(e) => Err(e),
            Ok(at) => if job.format.format is PuCrunch {
                match container_check(direction, gap, clen, job.span, at.packed_start as int) {
                    Err(e) => Err(e),
                    Ok(_) => Ok(at),
                }
            } else {
                Ok(at)
            },
        },
    }
}

/// After a stream was settled: go on with it, or try the next direction.
pub open spec fn after_settling(
    job: JobModel,
    next: int,
    errs: Seq<Seq<char>>,
    stream: Seq<u8>,
    mode: Option<u8>,
    gap: Result<int, Seq<char>>,
) -> StageModel {
    let direction = job.dirs[next];
    match settled(job, direction, gap, stream) {
        Ok(placed) => after_choice(job, ChosenModel { direction, stream, mode, placed }),
        Err(e) => try_next(job, next + 1, errs.push(direction.name() + ": "@ + e)),
    }
}

/// Only a choice other than the standard body asks for a tailored one.
pub open spec fn after_choice(job: JobModel, chosen: ChosenModel) -> StageModel {
    if job.placement.tailoring is Standard {
        after_tailoring(job, chosen, None)
    } else {
        StageModel::Tailoring { chosen }
    }
}

/// Whether the payload may stay where it is loaded: backward only, and not for
/// TSCrunch, which keeps its own in-place move.
pub open spec fn may_stay(job: JobModel, chosen: ChosenModel) -> bool {
    chosen.direction is Backward && !(job.format.format is TsCrunch)
}

/// Next comes the probe, where the payload may stay.
pub open spec fn after_tailoring(
    job: JobModel,
    chosen: ChosenModel,
    tailored: Option<Seq<char>>,
) -> StageModel {
    if may_stay(job, chosen) {
        StageModel::Probing { chosen, tailored }
    } else {
        StageModel::Assembling { chosen, tailored, moved: true }
    }
}

/// Whether the addresses from `lo` up to `hi` keep `gap` bytes clear of those
/// from `start` up to `end`.
pub open spec fn clears(lo: int, hi: int, start: int, end: int, gap: int) -> bool {
    hi + gap <= start || lo >= end + gap
}

/// Whether a program assembled with the payload in place keeps clear of the
/// output by the clearance, and the scratch buffer of both.
pub open spec fn stays_clear(job: JobModel, chosen: ChosenModel, built: BuiltModel) -> bool {
    let end = built.origin + built.bytes.len();
    let gap = job.placement.clearance as int;
    &&& clears(built.origin, end, job.span.0 as int, job.span.1 as int, gap)
    &&& chosen.placed.scratch matches Some((at, len)) ==> {
        &&& clears(at as int, at + len, built.origin, end, gap)
        &&& clears(at as int, at + len, job.span.0 as int, job.span.1 as int, gap)
    }
}

/// The bytes of a `.prg` file.
pub open spec fn prg_bytes(built: BuiltModel) -> Seq<u8> {
    seq![(built.origin % 256) as u8, (built.origin / 256) as u8] + built.bytes
}

/// The finished program.
pub open spec fn finished(
    job: JobModel,
    chosen: ChosenModel,
    moved: bool,
    built: BuiltModel,
    tailored: bool,
    saved: int,
    warnings: Seq<Seq<char>>,
) -> SfxModel {
    SfxModel {
        prg: prg_bytes(built),
        direction: chosen.direction,
        stream_len: chosen.stream.len() as int,
        packed_at: (if moved {
            chosen.placed.packed_start as int
        } else {
            built.origin + built.bytes.len() - chosen.stream.len()
        }) % 0x1_0000,
        decruncher_at: chosen.placed.decr_at,
        scratch: chosen.placed.scratch,
        mover_at: if moved {
            chosen.placed.mover_at
        } else {
            None
        },
        mover_folded: moved && chosen.placed.mover_folded,
        span: job.span,
        warnings,
        decoder_tailored: tailored,
        decoder_saved: saved,
        decoder_bytes: if chosen.placed.code_bytes >= saved % 0x1_0000 {
            chosen.placed.code_bytes - saved % 0x1_0000
        } else {
            0
        },
        stream: chosen.stream,
        payload_moved: moved,
    }
}

/// Said where a tailored body was asked for and the stream admits none.
pub open spec fn already_minimal() -> Seq<char> {
    "Tailored decoder requested, but this stream uses every decoder feature — the standard body is already minimal."@
}

/// After the standard body was assembled.
pub open spec fn after_standard(
    job: JobModel,
    chosen: ChosenModel,
    tailored: Option<Seq<char>>,
    moved: bool,
    reply: Result<BuiltModel, FaultModel>,
) -> StageModel {
    match reply {
        Err(FaultModel::Decoder(e)) => StageModel::Finished { result: Err(e) },
        Err(FaultModel::Tool(e)) => StageModel::Finished {
            result: Err("Build/assembly failed: "@ + e),
        },
        Ok(standard) => match tailored {
            Some(source) => StageModel::AssemblingTailored { chosen, source, moved, standard },
            None => {
                let warnings = if job.placement.tailoring is Tailored {
                    standard.warnings.push(already_minimal())
                } else {
                    standard.warnings
                };
                StageModel::Finished {
                    result: Ok(finished(job, chosen, moved, standard, false, 0, warnings)),
                }
            },
        },
    }
}

/// Whether the tailored program is taken over the standard one.
pub open spec fn takes_tailored(
    choice: TailoringChoice,
    tailored: BuiltModel,
    standard: BuiltModel,
) -> bool {
    match choice {
        TailoringChoice::Tailored => true,
        TailoringChoice::Auto => tailored.bytes.len() < standard.bytes.len(),
        TailoringChoice::Standard => false,
    }
}

/// After the tailored body was assembled: the program that is kept. A tailored
/// body that fails to assemble falls back to the standard one.
pub open spec fn after_tailored(
    job: JobModel,
    chosen: ChosenModel,
    moved: bool,
    standard: BuiltModel,
    reply: Result<BuiltModel, FaultModel>,
) -> SfxModel {
    match reply {
        Ok(tailored) if takes_tailored(job.placement.tailoring, tailored, standard) => {
            let saved = if standard.bytes.len() >= tailored.bytes.len() {
                standard.bytes.len() - tailored.bytes.len()
            } else {
                0
            };
            finished(job, chosen, moved, tailored, true, saved, tailored.warnings)
        },
        _ => finished(job, chosen, moved, standard, false, 0, standard.warnings),
    }
}

/// After compressing: a failure ends the build, a stream is measured where its
/// format asks for it, and settled.
pub open spec fn after_compressing(
    job: JobModel,
    next: int,
    errs: Seq<Seq<char>>,
    reply: Result<(Seq<u8>, Option<u8>), FaultModel>,
) -> StageModel {
    match reply {
        Err(FaultModel::Decoder(e)) => StageModel::Finished { result: Err(e) },
        Err(FaultModel::Tool(e)) => StageModel::Finished {
            result: Err("Compression failed: "@ + e),
        },
        Ok((stream, mode)) => if needed_measure(job.format.format, job.dirs[next]) is Nothing {
            after_settling(job, next, errs, stream, mode, Ok(0))
        } else {
            StageModel::Measuring { next, errs, stream, mode }
        },
    }
}

/// How a reply moves a build on. A reply that was not asked for changes
/// nothing.
pub open spec fn step(job: JobModel, stage: StageModel, reply: ReplyModel) -> StageModel {
    match (stage, reply) {
        (StageModel::Compressing { next, errs }, ReplyModel::Compressed(r)) => after_compressing(
            job,
            next,
            errs,
            r,
        ),
        (StageModel::Measuring { next, errs, stream, mode }, ReplyModel::Measured(gap)) =>
        after_settling(job, next, errs, stream, mode, gap),
        (StageModel::Tailoring { chosen }, ReplyModel::Tailored(tailored)) => after_tailoring(
            job,
            chosen,
            tailored,
        ),
        (StageModel::Probing { chosen, tailored }, ReplyModel::Assembled(r)) => {
            let stays = match r {
                Ok(built) => stays_clear(job, chosen, built),
                Err(_) => false,
            };
            StageModel::Assembling { chosen, tailored, moved: !stays }
        },
        (StageModel::Assembling { chosen, tailored, moved }, ReplyModel::Assembled(r)) =>
        after_standard(job, chosen, tailored, moved, r),
        (
            StageModel::AssemblingTailored { chosen, source, moved, standard },
            ReplyModel::Assembled(r),
        ) => StageModel::Finished { result: Ok(after_tailored(job, chosen, moved, standard, r)) },
        _ => stage,
    }
}

/// What the stage relies on.
pub open spec fn stage_wf(job: JobModel, stage: StageModel) -> bool {
    match stage {
        StageModel::Compressing { next, errs } => 0 <= next < job.dirs.len(),
        StageModel::Measuring { next, errs, stream, mode } => 0 <= next < job.dirs.len()
            && stream.len() <= u32::MAX - 0x3_0000,
        StageModel::Tailoring { chosen } => chosen.stream.len() <= u32::MAX - 0x3_0000,
        StageModel::Probing { chosen, tailored } => chosen.stream.len() <= u32::MAX - 0x3_0000,
        StageModel::Assembling { chosen, tailored, moved } => chosen.stream.len() <= u32::MAX
            - 0x3_0000,
        StageModel::AssemblingTailored { chosen, source, moved, standard } => chosen.stream.len()
            <= u32::MAX - 0x3_0000,
        StageModel::Finished { result } => true,
    }
}

/// A stream that is short enough for 32-bit addresses.
pub open spec fn reply_wf(reply: ReplyModel) -> bool {
    reply matches ReplyModel::Compressed(Ok((stream, _))) ==> stream.len() <= u32::MAX - 0x3_0000
}

/// A build under way.
pub struct Build {
    job: Job,
    stage: Stage,
}

/// What a [`Build`] holds.
pub struct BuildModel {
    pub job: JobModel,
    pub stage: StageModel,
}

impl View for Build {
    type V = BuildModel;

    closed spec fn view(&self) -> BuildModel {
        BuildModel { job: self.job@, stage: self.stage@ }
    }
}

impl BuildModel {
    pub open spec fn wf(self) -> bool {
        self.job.wf() && stage_wf(self.job, self.stage)
    }
}

/// Why a span is too long.
pub open spec fn too_long_text(span: (u32, u32)) -> Seq<char> {
    "The span $"@ + hex4(span.0 as nat) + "-$"@ + hex4((span.1 - 1) as nat) + " is "@ + decimal(
        (span.1 - span.0) as nat,
    ) + " bytes — more than 64 KB cannot be unpacked."@
}

/// The bytes of the span.
pub open spec fn span_bytes(regs: Seq<RegionModel>) -> Seq<u8> {
    let span = span_of(regs)->0;
    Seq::new((span.1 - span.0) as nat, |k: int| byte_at(regs, span.0 + k))
}

/// How a build starts: compressing for the first candidate direction, with the
/// reasons against the pruned ones.
pub open spec fn started(
    regs: Seq<RegionModel>,
    f: FormatModel,
    start_addr: u16,
    p: Placement,
) -> Result<BuildModel, Seq<char>> {
    let span = image_span(regs);
    if regs.len() == 0 {
        Err("no .prg added"@)
    } else if span.1 - span.0 > 0xFFFF {
        Err(too_long_text(span))
    } else {
        match candidates(span, f, p) {
            Err(e) => Err(e),
            Ok(plan) => Ok(
                BuildModel {
                    job: JobModel {
                        format: f,
                        start_addr,
                        placement: p,
                        span,
                        data: span_bytes(regs),
                        dirs: plan.dirs,
                    },
                    stage: StageModel::Compressing { next: 0, errs: plan.skipped },
                },
            ),
        }
    }
}

/// Starts building the self-extracting `.prg`. `start_addr` is the `JMP` target
/// after decrunching. `Auto` falls back to the other direction when the
/// preferred one cannot host the format; compression runs per candidate, and
/// the first whose exact placement fits wins.
pub fn build_sfx(image: &MemoryImage, format: FormatInfo, start_addr: u16, placement: &Placement) -> (r:
    Result<Build, String>)
    requires
        image.wf(),
    ensures
        match (r, started(image@, format@, start_addr, *placement)) {
            (Ok(b), Ok(m)) => b@ == m && b@.wf(),
            (Err(e), Err(m)) => e@ == m,
            _ => false,
        },
{
    let (lo, data) = match image.span_buffer() {
        Some(b) => b,
        None => return Err("no .prg added".to_owned()),
    };
    let span: (u32, u32) = (lo, lo + data.len() as u32);
    assert(span == image_span(image@));
    assert(data@ =~= span_bytes(image@));
    if data.len() > 0xFFFF {
        let mut e = "The span $".to_owned();
        push_hex4(&mut e, span.0 as u64);
        e.append("-$");
        push_hex4(&mut e, (span.1 - 1) as u64);
        e.append(" is ");
        push_decimal(&mut e, data.len() as u64);
        e.append(" bytes — more than 64 KB cannot be unpacked.");
        return Err(e);
    }
    match direction_candidates(span, &format, placement) {
        Err(e) => Err(e),
        Ok(plan) => {
            proof {
                crate::plan::candidates_are_usable(span, format@, *placement);
            }
            Ok(
                Build {
                    job: Job {
                        format,
                        start_addr,
                        placement: *placement,
                        span,
                        data,
                        dirs: plan.dirs,
                    },
                    stage: Stage::Compressing { next: 0, errs: plan.skipped },
                },
            )
        },
    }
}

/// The next direction, or the end if there is none.
fn next_direction(job: &Job, next: usize, errs: Vec<String>) -> (r: Stage)
    ensures
        r@ == try_next(job@, next as int, texts(errs@)),
{
    if next < job.dirs.len() {
        return Stage::Compressing { next, errs };
    }
    let mut e = "Placement failed: ".to_owned();
    if errs.len() == 0 {
        e.append("unknown");
    } else {
        let all = join(&errs, "; ");
        e.append(all.as_str());
    }
    e.append(". Try a different format or adjust the addresses.");
    Stage::Finished { result: Err(e) }
}

/// Sizes the layout to the stream and places everything.
fn settle(job: &Job, direction: Direction, gap: &Result<i64, String>, stream: &Vec<u8>) -> (r: Result<
    Placed,
    String,
>)
    requires
        job@.wf(),
        stream@.len() <= u32::MAX - 0x3_0000,
    ensures
        says(r, settled(job@, direction, measured(*gap), stream@)),
{
    let eff = match inplace_effective_placement(
        &job.format,
        direction,
        gap,
        stream.len(),
        job.span,
        &job.placement,
    ) {
        Ok(p) => p,
        Err(e) => return Err(e),
    };
    let prefix: u32 = match job.format.decoders(direction, job.placement.allow_illegal).balanced {
        Some(r) => if r.dst_prefixed {
            2
        } else {
            0
        },
        None => 0,
    };
    let at = match place(
        job.span,
        stream.len() as u32 + prefix,
        &job.format,
        direction,
        &eff,
        true,
    ) {
        Ok(at) => at,
        Err(e) => return Err(e),
    };
    if job.format.format == Format::PuCrunch {
        match pucrunch_inplace_safe(direction, gap, stream.len(), job.span, at.packed_start) {
            Ok(_) => {},
            Err(e) => return Err(e),
        }
    }
    Ok(at)
}

/// The stage after a tailored body was or was not found.
fn probe_or_assemble(job: &Job, chosen: Chosen, tailored: Option<String>) -> (r: Stage)
    ensures
        r@ == after_tailoring(job@, chosen@, opt_text(tailored)),
{
    if chosen.direction == Direction::Backward && job.format.format != Format::TsCrunch {
        Stage::Probing { chosen, tailored }
    } else {
        Stage::Assembling { chosen, tailored, moved: true }
    }
}

/// Settles a stream and goes on with it, or tries the next direction.
fn settle_and_go_on(
    job: &Job,
    next: usize,
    errs: Vec<String>,
    stream: Vec<u8>,
    mode: Option<u8>,
    gap: &Result<i64, String>,
) -> (r: Stage)
    requires
        job@.wf(),
        next < job@.dirs.len(),
        stream@.len() <= u32::MAX - 0x3_0000,
    ensures
        r@ == after_settling(job@, next as int, texts(errs@), stream@, mode, measured(*gap)),
        stage_wf(job@, r@),
{
    let direction = job.dirs[next];
    match settle(job, direction, gap, &stream) {
        Ok(placed) => {
            let chosen = Chosen { direction, stream, mode, placed };
            if job.placement.tailoring == TailoringChoice::Standard {
                probe_or_assemble(job, chosen, None)
            } else {
                Stage::Tailoring { chosen }
            }
        },
        Err(e) => {
            let mut line = direction.as_str().to_owned();
            line.append(": ");
            line.append(e.as_str());
            let ghost before = texts(errs@);
            let mut errs = errs;
            errs.push(line);
            assert(texts(errs@) =~= before.push(line@));
            next_direction(job, next + 1, errs)
        },
    }
}

/// Whether the addresses from `lo` up to `hi` keep `gap` bytes clear.
fn keeps_clear(lo: u128, hi: u128, start: u128, end: u128, gap: u128) -> (r: bool)
    requires
        hi + gap <= u128::MAX,
        end + gap <= u128::MAX,
    ensures
        r == clears(lo as int, hi as int, start as int, end as int, gap as int),
{
    hi + gap <= start || lo >= end + gap
}

/// Whether the payload can stay where it is loaded.
fn payload_stays(job: &Job, chosen: &Chosen, built: &Built) -> (r: bool)
    ensures
        r == stays_clear(job@, chosen@, built@),
{
    let lo = built.origin as u128;
    let hi = lo + built.bytes.len() as u128;
    let gap = job.placement.clearance as u128;
    let start = job.span.0 as u128;
    let end = job.span.1 as u128;
    if !keeps_clear(lo, hi, start, end, gap) {
        return false;
    }
    match chosen.placed.scratch {
        Some((at, len)) => {
            let s0 = at as u128;
            let s1 = s0 + len as u128;
            keeps_clear(s0, s1, lo, hi, gap) && keeps_clear(s0, s1, start, end, gap)
        },
        None => true,
    }
}

/// Puts the load address in front of the program.
fn prg_from(built: &Built) -> (r: Vec<u8>)
    ensures
        r@ == prg_bytes(built@),
{
    let mut prg: Vec<u8> = Vec::new();
    prg.push((built.origin % 256) as u8);
    prg.push((built.origin / 256) as u8);
    prg.extend_from_slice(built.bytes.as_slice());
    assert(prg@ =~= prg_bytes(built@));
    prg
}

/// Puts the finished program together.
fn finish(
    job: &Job,
    chosen: Chosen,
    moved: bool,
    built: &Built,
    decoder_tailored: bool,
    saved: usize,
    warnings: Vec<String>,
) -> (r: SfxResult)
    ensures
        r@ == finished(
            job@,
            chosen@,
            moved,
            built@,
            decoder_tailored,
            saved as int,
            texts(warnings@),
        ),
{
    let at = chosen.placed;
    let stream_len = chosen.stream.len();
    let packed_at: u16 = if moved {
        (at.packed_start % 0x1_0000) as u16
    } else {
        let len = built.bytes.len();
        ((built.origin as u32 + (len % 0x1_0000) as u32 + 0x1_0000 - (stream_len % 0x1_0000) as u32)
            % 0x1_0000) as u16
    };
    let saved_low: u16 = (saved % 0x1_0000) as u16;
    SfxResult {
        prg: prg_from(built),
        direction: chosen.direction,
        stream_len,
        packed_at,
        decruncher_at: at.decr_at,
        scratch: at.scratch,
        mover_at: if moved {
            at.mover_at
        } else {
            None
        },
        mover_folded: moved && at.mover_folded,
        span: job.span,
        warnings,
        decoder_tailored,
        decoder_saved: saved,
        decoder_bytes: if at.code_bytes >= saved_low {
            at.code_bytes - saved_low
        } else {
            0
        },
        stream: chosen.stream,
        payload_moved: moved,
    }
}

/// The stage after the standard body was assembled.
fn standard_assembled(
    job: &Job,
    chosen: Chosen,
    tailored: Option<String>,
    moved: bool,
    reply: Result<Built, Fault>,
) -> (r: Stage)
    ensures
        r@ == after_standard(
            job@,
            chosen@,
            opt_text(tailored),
            moved,
            match reply {
                Ok(b) => Ok(b@),
                Err(e) => Err(e@),
            },
        ),
{
    let standard = match reply {
        Ok(b) => b,
        Err(Fault::Decoder(e)) => return Stage::Finished { result: Err(e) },
        Err(Fault::Tool(e)) => {
            let mut line = "Build/assembly failed: ".to_owned();
            line.append(e.as_str());
            return Stage::Finished { result: Err(line) };
        },
    };
    match tailored {
        Some(source) => Stage::AssemblingTailored { chosen, source, moved, standard },
        None => {
            let Built { origin, bytes, warnings } = standard;
            let ghost before = texts(warnings@);
            let mut warnings = warnings;
            let wants = job.placement.tailoring == TailoringChoice::Tailored;
            if wants {
                warnings.push(
                    "Tailored decoder requested, but this stream uses every decoder feature — the standard body is already minimal.".to_owned(),
                );
                assert(texts(warnings@) =~= before.push(already_minimal()));
            }
            let kept = Built { origin, bytes, warnings: Vec::new() };
            let r = finish(job, chosen, moved, &kept, false, 0, warnings);
            Stage::Finished { result: Ok(r) }
        },
    }
}

/// The program that is kept once the tailored body was assembled.
fn tailored_assembled(
    job: &Job,
    chosen: Chosen,
    moved: bool,
    standard: Built,
    reply: Result<Built, Fault>,
) -> (r: SfxResult)
    ensures
        r@ == after_tailored(
            job@,
            chosen@,
            moved,
            standard@,
            match reply {
                Ok(b) => Ok(b@),
                Err(e) => Err(e@),
            },
        ),
{
    match reply {
        Ok(tailored) => {
            let take = match job.placement.tailoring {
                TailoringChoice::Tailored => true,
                TailoringChoice::Auto => tailored.bytes.len() < standard.bytes.len(),
                TailoringChoice::Standard => false,
            };
            if take {
                let saved: usize = if standard.bytes.len() >= tailored.bytes.len() {
                    standard.bytes.len() - tailored.bytes.len()
                } else {
                    0
                };
                let Built { origin, bytes, warnings } = tailored;
                let kept = Built { origin, bytes, warnings: Vec::new() };
                finish(job, chosen, moved, &kept, true, saved, warnings)
            } else {
                let Built { origin, bytes, warnings } = standard;
                let kept = Built { origin, bytes, warnings: Vec::new() };
                finish(job, chosen, moved, &kept, false, 0, warnings)
            }
        },
        Err(_) => {
            let Built { origin, bytes, warnings } = standard;
            let kept = Built { origin, bytes, warnings: Vec::new() };
            finish(job, chosen, moved, &kept, false, 0, warnings)
        },
    }
}

/// The stage after compressing.
fn compressed(job: &Job, next: usize, errs: Vec<String>, reply: Result<(Vec<u8>, Option<u8>), Fault>) -> (r:
    Stage)
    requires
        job@.wf(),
        next < job@.dirs.len(),
        reply matches Ok((stream, _)) ==> stream@.len() <= u32::MAX - 0x3_0000,
    ensures
        r@ == after_compressing(
            job@,
            next as int,
            texts(errs@),
            match reply {
                Ok((stream, mode)) => Ok((stream@, mode)),
                Err(e) => Err(e@),
            },
        ),
        stage_wf(job@, r@),
{
    match reply {
        Err(Fault::Decoder(e)) => Stage::Finished { result: Err(e) },
        Err(Fault::Tool(e)) => {
            let mut line = "Compression failed: ".to_owned();
            line.append(e.as_str());
            Stage::Finished { result: Err(line) }
        },
        Ok((stream, mode)) => {
            if measure_for(job.format.format, job.dirs[next]) == Measure::Nothing {
                let none: Result<i64, String> = Ok(0);
                settle_and_go_on(job, next, errs, stream, mode, &none)
            } else {
                Stage::Measuring { next, errs, stream, mode }
            }
        },
    }
}

impl Build {
    /// Moves the build on by the reply to its request.
    pub fn advance(self, reply: Reply) -> (r: Build)
        requires
            self@.wf(),
            reply_wf(reply@),
        ensures
            r@.job == self@.job,
            r@.stage == step(self@.job, self@.stage, reply@),
            r@.wf(),
    {
        let Build { job, stage } = self;
        let stage = match (stage, reply) {
            (Stage::Compressing { next, errs }, Reply::Compressed(r)) => compressed(
                &job,
                next,
                errs,
                r,
            ),
            (Stage::Measuring { next, errs, stream, mode }, Reply::Measured(gap)) =>
            settle_and_go_on(&job, next, errs, stream, mode, &gap),
            (Stage::Tailoring { chosen }, Reply::Tailored(tailored)) => probe_or_assemble(
                &job,
                chosen,
                tailored,
            ),
            (Stage::Probing { chosen, tailored }, Reply::Assembled(r)) => {
                let stays = match &r {
                    Ok(built) => payload_stays(&job, &chosen, built),
                    Err(_) => false,
                };
                Stage::Assembling { chosen, tailored, moved: !stays }
            },
            (Stage::Assembling { chosen, tailored, moved }, Reply::Assembled(r)) =>
            standard_assembled(&job, chosen, tailored, moved, r),
            (
                Stage::AssemblingTailored { chosen, source, moved, standard },
                Reply::Assembled(r),
            ) => Stage::Finished { result: Ok(tailored_assembled(&job, chosen, moved, standard, r)) },
            (stage, _) => stage,
        };
        Build { job, stage }
    }
}

/// How the payload gets to where the decoder reads it.
#[derive(Clone, Copy, PartialEq, Eq, Structural, Debug)]
pub enum PayloadMove {
    /// It stays where it is loaded.
    Stay,
    /// Its last byte is moved to `$FFFF`.
    ToTop,
    /// Its head window is folded in so that it starts at the address.
    InPlace(u16),
    /// It is moved so that it starts at the address.
    To(u16),
}

/// Everything the assembler is told about the program. Init is always all RAM
/// ([`crate::placement::INIT_BANK`]).
pub struct Recipe<'a> {
    pub format: Format,
    pub direction: Direction,
    pub decoder: DecoderChoice,
    /// The packed stream, embedded behind a BASIC stub.
    pub stream: &'a Vec<u8>,
    /// Where the output goes.
    pub output: u16,
    pub output_len: u16,
    /// Where the decoder is staged.
    pub stage_at: u16,
    /// Target of the final `JMP`.
    pub jmp: u16,
    pub payload: PayloadMove,
    pub scratch: Option<u16>,
    /// Source of the code before the final `JMP`.
    pub post: String,
    /// Fold the payload move into the staged decoder.
    pub fold_mover: bool,
    /// Relocated mover.
    pub mover_at: Option<u16>,
    pub mode: Option<u8>,
    /// Source of the decoder body, where it is not the standard one.
    pub body: Option<&'a String>,
}

/// What a [`Recipe`] holds.
#[verifier::ext_equal]
pub struct RecipeModel {
    pub format: Format,
    pub direction: Direction,
    pub decoder: DecoderChoice,
    pub stream: Seq<u8>,
    pub output: int,
    pub output_len: int,
    pub stage_at: u16,
    pub jmp: u16,
    pub payload: PayloadMove,
    pub scratch: Option<u16>,
    pub post: Seq<char>,
    pub fold_mover: bool,
    pub mover_at: Option<u16>,
    pub mode: Option<u8>,
    pub body: Option<Seq<char>>,
}

impl<'a> View for Recipe<'a> {
    type V = RecipeModel;

    open spec fn view(&self) -> RecipeModel {
        RecipeModel {
            format: self.format,
            direction: self.direction,
            decoder: self.decoder,
            stream: self.stream@,
            output: self.output as int,
            output_len: self.output_len as int,
            stage_at: self.stage_at,
            jmp: self.jmp,
            payload: self.payload,
            scratch: self.scratch,
            post: self.post@,
            fold_mover: self.fold_mover,
            mover_at: self.mover_at,
            mode: self.mode,
            body: match self.body {
                Some(b) => Some(b@),
                None => None,
            },
        }
    }
}

/// Whether a moved payload is folded in at its place rather than copied there.
pub open spec fn moves_in_place(job: JobModel, chosen: ChosenModel) -> bool {
    may_stay(job, chosen) && chosen.placed.mover_folded
}

/// How the payload of a stream gets to where the decoder reads it.
pub open spec fn payload_move(job: JobModel, chosen: ChosenModel, moved: bool) -> PayloadMove {
    let at = (chosen.placed.packed_start % 0x1_0000) as u16;
    if !moved {
        PayloadMove::Stay
    } else if chosen.direction is Forward {
        PayloadMove::ToTop
    } else if moves_in_place(job, chosen) {
        PayloadMove::InPlace(at)
    } else {
        PayloadMove::To(at)
    }
}

/// What the assembler is told.
pub open spec fn recipe(
    job: JobModel,
    chosen: ChosenModel,
    moved: bool,
    body: Option<Seq<char>>,
) -> RecipeModel {
    RecipeModel {
        format: job.format.format,
        direction: chosen.direction,
        decoder: chosen.placed.choice,
        stream: chosen.stream,
        output: job.span.0 as int,
        output_len: job.data.len() as int,
        stage_at: chosen.placed.decr_at,
        jmp: job.start_addr,
        payload: payload_move(job, chosen, moved),
        scratch: match chosen.placed.scratch {
            Some((at, _)) => Some(at),
            None => None,
        },
        post: code_text(epilogue_code(job.placement)),
        fold_mover: moved && chosen.placed.mover_folded && !moves_in_place(job, chosen),
        mover_at: if moved {
            chosen.placed.mover_at
        } else {
            None
        },
        mode: chosen.mode,
        body,
    }
}

/// What a build asks for next.
pub enum Request<'a> {
    /// Compress the data for the direction. `out_end` is the end of the output
    /// (`$10000` wraps to 0).
    Compress { format: Format, direction: Direction, data: &'a Vec<u8>, out_end: u16 },
    /// Measure the stream.
    Measure { format: Format, direction: Direction, measure: Measure, stream: &'a Vec<u8> },
    /// Compose a decoder body that is trimmed to the stream.
    Tailor { format: Format, direction: Direction, stream: &'a Vec<u8> },
    /// Assemble the program.
    Assemble(Recipe<'a>),
    /// Nothing: the build has ended.
    Nothing,
}

/// What a [`Request`] holds.
pub enum RequestModel {
    Compress { format: Format, direction: Direction, data: Seq<u8>, out_end: int },
    Measure { format: Format, direction: Direction, measure: Measure, stream: Seq<u8> },
    Tailor { format: Format, direction: Direction, stream: Seq<u8> },
    Assemble(RecipeModel),
    Nothing,
}

impl<'a> View for Request<'a> {
    type V = RequestModel;

    open spec fn view(&self) -> RequestModel {
        match self {
            Request::Compress { format, direction, data, out_end } => RequestModel::Compress {
                format: *format,
                direction: *direction,
                data: data@,
                out_end: *out_end as int,
            },
            Request::Measure { format, direction, measure, stream } => RequestModel::Measure {
                format: *format,
                direction: *direction,
                measure: *measure,
                stream: stream@,
            },
            Request::Tailor { format, direction, stream } => RequestModel::Tailor {
                format: *format,
                direction: *direction,
                stream: stream@,
            },
            Request::Assemble(recipe) => RequestModel::Assemble(recipe@),
            Request::Nothing => RequestModel::Nothing,
        }
    }
}

/// What is asked for in a stage. The probe asks for the standard body with the
/// payload in place: a tailored body is only smaller, so its payload sits even
/// lower.
pub open spec fn asked(job: JobModel, stage: StageModel) -> RequestModel {
    match stage {
        StageModel::Compressing { next, errs } => RequestModel::Compress {
            format: job.format.format,
            direction: job.dirs[next],
            data: job.data,
            out_end: (job.span.1 % 0x1_0000) as int,
        },
        StageModel::Measuring { next, errs, stream, mode } => RequestModel::Measure {
            format: job.format.format,
            direction: job.dirs[next],
            measure: needed_measure(job.format.format, job.dirs[next]),
            stream,
        },
        StageModel::Tailoring { chosen } => RequestModel::Tailor {
            format: job.format.format,
            direction: chosen.direction,
            stream: chosen.stream,
        },
        StageModel::Probing { chosen, tailored } => RequestModel::Assemble(
            recipe(job, chosen, false, None),
        ),
        StageModel::Assembling { chosen, tailored, moved } => RequestModel::Assemble(
            recipe(job, chosen, moved, None),
        ),
        StageModel::AssemblingTailored { chosen, source, moved, standard } =>
        RequestModel::Assemble(recipe(job, chosen, moved, Some(source))),
        StageModel::Finished { result } => RequestModel::Nothing,
    }
}

/// Writes down what the assembler is told.
fn write_recipe<'a>(job: &Job, chosen: &'a Chosen, moved: bool, body: Option<&'a String>) -> (r:
    Recipe<'a>)
    requires
        job@.wf(),
    ensures
        r@ == recipe(
            job@,
            chosen@,
            moved,
            match body {
                Some(b) => Some(b@),
                None => None,
            },
        ),
{
    let at = chosen.placed;
    let start = (at.packed_start % 0x1_0000) as u16;
    let in_place = chosen.direction == Direction::Backward && job.format.format != Format::TsCrunch
        && at.mover_folded;
    let payload = if !moved {
        PayloadMove::Stay
    } else {
        match chosen.direction {
            Direction::Forward => PayloadMove::ToTop,
            Direction::Backward => if in_place {
                PayloadMove::InPlace(start)
            } else {
                PayloadMove::To(start)
            },
        }
    };
    Recipe {
        format: job.format.format,
        direction: chosen.direction,
        decoder: at.choice,
        stream: &chosen.stream,
        output: job.span.0 as u16,
        output_len: job.data.len() as u16,
        stage_at: at.decr_at,
        jmp: job.start_addr,
        payload,
        scratch: match at.scratch {
            Some((s, _)) => Some(s),
            None => None,
        },
        post: epilogue_source(&job.placement),
        fold_mover: moved && at.mover_folded && !in_place,
        mover_at: if moved {
            at.mover_at
        } else {
            None
        },
        mode: chosen.mode,
        body,
    }
}

impl Build {
    /// What to do next.
    pub fn request(&self) -> (r: Request<'_>)
        requires
            self@.wf(),
        ensures
            r@ == asked(self@.job, self@.stage),
    {
        let job = &self.job;
        let format = job.format.format;
        match &self.stage {
            Stage::Compressing { next, errs } => Request::Compress {
                format,
                direction: job.dirs[*next],
                data: &job.data,
                out_end: (job.span.1 % 0x1_0000) as u16,
            },
            Stage::Measuring { next, errs, stream, mode } => Request::Measure {
                format,
                direction: job.dirs[*next],
                measure: measure_for(format, job.dirs[*next]),
                stream,
            },
            Stage::Tailoring { chosen } => Request::Tailor {
                format,
                direction: chosen.direction,
                stream: &chosen.stream,
            },
            Stage::Probing { chosen, tailored } => Request::Assemble(
                write_recipe(job, chosen, false, None),
            ),
            Stage::Assembling { chosen, tailored, moved } => Request::Assemble(
                write_recipe(job, chosen, *moved, None),
            ),
            Stage::AssemblingTailored { chosen, source, moved, standard } => Request::Assemble(
                write_recipe(job, chosen, *moved, Some(source)),
            ),
            Stage::Finished { result } => Request::Nothing,
        }
    }

    /// The outcome, once the build has ended.
    pub fn into_result(self) -> (r: Option<Result<SfxResult, String>>)
        ensures
            match (r, self@.stage) {
                (Some(Ok(a)), StageModel::Finished { result: Ok(b) }) => a@ == b,
                (Some(Err(a)), StageModel::Finished { result: Err(b) }) => a@ == b,
                (None, stage) => !(stage is Finished),
                _ => false,
            },
    {
        match self.stage {
            Stage::Finished { result } => Some(result),
            _ => None,
        }
    }
}

} // verus!
