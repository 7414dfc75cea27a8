//! Planning and building, driven by a small stand-in for the encoders and the
//! assembler.
use lazy_cruncher_workshop::formats::{
    cruncher_list, DecoderSet, Decoders, Direction, Format, FormatInfo, RoutineSpec, ScratchSpec,
};
use lazy_cruncher_workshop::image::MemoryImage;
use lazy_cruncher_workshop::inplace::{measure_for, Measure};
use lazy_cruncher_workshop::placement::{
    epilogue_len, epilogue_source, DirectionChoice, Placement, TailoringChoice, DEFAULT_MARGIN,
    DEFAULT_MOVER, INIT_BANK, RUN_BASIC_BANK, RUN_BASIC_LOOP,
};
use lazy_cruncher_workshop::plan::{
    clen_worst_case, direction_candidates, direction_for_span, image_end_estimate, place,
    plan_preview, resolve_direction, span_covers_irq_vector, DecoderChoice, STACK_PAGE_SLOT,
};
use lazy_cruncher_workshop::sfx::{
    build_sfx, Build, Built, Fault, PayloadMove, Recipe, Reply, Request, SfxResult,
};

fn prg_bytes(load: u16, data: &[u8]) -> Vec<u8> {
    let mut v = vec![(load & 0xFF) as u8, (load >> 8) as u8];
    v.extend_from_slice(data);
    v
}

fn compressible(len: usize) -> Vec<u8> {
    (0..len)
        .map(|i| ((i / 64) as u8) ^ ((i % 7) as u8))
        .collect()
}

fn image_of(load: u16, len: usize) -> MemoryImage {
    let mut img = MemoryImage::default();
    img.add_prg("a.prg", &prg_bytes(load, &compressible(len))).unwrap();
    img
}

fn routine(code_bytes: u16, scratch: Option<(u16, bool)>) -> RoutineSpec {
    RoutineSpec {
        code_bytes,
        scratch: scratch.map(|(len, page_aligned)| ScratchSpec { len, page_aligned }),
        dst_prefixed: false,
        zp_stack: false,
    }
}

fn set(r: RoutineSpec) -> DecoderSet {
    DecoderSet { balanced: Some(r), fastest: Some(r), stack_page: None }
}

/// Decoders with the buffer sizes of the real formats.
fn info(format: Format) -> FormatInfo {
    let (name, any, legal, scratch) = match format {
        Format::LzanFull => ("lzan-full", 475, 475, None),
        Format::LzanMin => ("lzan-min", 180, 180, None),
        Format::Exomizer => ("exomizer", 250, 250, Some((156, false))),
        Format::Subsizer => ("subsizer", 280, 280, Some((188, false))),
        Format::Shrinkler => ("shrinkler", 200, 200, Some((1536, true))),
        Format::Zx02 => ("zx02", 138, 138, None),
        Format::Zx0 => ("zx0", 150, 150, None),
        Format::Lzsa2 => ("lzsa2", 190, 200, None),
        Format::Lzsa1 => ("lzsa1", 150, 160, None),
        Format::Aplib => ("aplib", 200, 200, None),
        Format::TsCrunch => ("tscrunch", 140, 150, None),
        Format::ByteBoozer2 => ("byteboozer2", 180, 180, None),
        Format::PuCrunch => ("pucrunch", 270, 275, None),
        Format::Upkr => ("upkr", 230, 240, Some((319, true))),
        Format::Bolt => ("bolt", 120, 120, None),
    };
    let mut decoders = Decoders {
        any: set(routine(any, scratch)),
        legal: set(routine(legal, scratch)),
    };
    let backward = decoders;
    if format == Format::PuCrunch {
        let mut zp = routine(211, None);
        zp.zp_stack = true;
        decoders.any.stack_page = Some(zp);
    }
    FormatInfo { format, name: name.to_string(), forward: decoders, backward }
}

/// Assembles the code before the final `JMP`.
fn assemble_post(post: &str) -> Vec<u8> {
    let hex = |t: &str| u16::from_str_radix(t, 16).unwrap();
    let mut out = Vec::new();
    for line in post.lines() {
        let t = line.trim();
        if let Some(v) = t.strip_prefix("LDA #$") {
            out.extend_from_slice(&[0xA9, hex(v) as u8]);
        } else if let Some(v) = t.strip_prefix("STA $") {
            out.extend_from_slice(&[0x85, hex(v) as u8]);
        } else if let Some(v) = t.strip_prefix("JSR $") {
            out.extend_from_slice(&[0x20, hex(v) as u8, (hex(v) >> 8) as u8]);
        } else {
            assert_eq!(t, "CLI");
            out.push(0x58);
        }
    }
    out
}

/// What the stand-in tools answer.
struct Host {
    /// Length of the packed stream for a number of input bytes.
    packed: fn(usize) -> usize,
    gap: Result<i64, String>,
    tailored: Option<String>,
    /// Bytes that the tailored body takes less (or, negative, more).
    tailored_saves: i64,
    origin: u16,
    asked: Vec<String>,
}

impl Host {
    fn new() -> Host {
        Host {
            packed: |n| n / 4 + 16,
            gap: Ok(0),
            tailored: None,
            tailored_saves: 0,
            origin: 0x0801,
            asked: Vec::new(),
        }
    }

    fn body_size(recipe: &Recipe) -> usize {
        let i = info(recipe.format);
        let d = match recipe.direction {
            Direction::Forward => i.forward,
            Direction::Backward => i.backward,
        };
        let r = match recipe.decoder {
            DecoderChoice::Balanced => d.any.balanced,
            DecoderChoice::Fastest => d.any.fastest,
            DecoderChoice::StackPage => d.any.stack_page,
        };
        r.unwrap().code_bytes as usize
    }

    fn assemble(&mut self, recipe: &Recipe) -> Result<Built, Fault> {
        let post = assemble_post(&recipe.post);
        let body = Host::body_size(recipe);
        if recipe.stage_at == 0x0100 && body + post.len() + 6 > STACK_PAGE_SLOT as usize {
            return Err(Fault::Tool("not enough stack headroom".to_string()));
        }
        let mut bytes = vec![0x0B, 0x08, 0x0A, 0x00, 0x9E];
        let size = match recipe.body {
            Some(_) => (body as i64 - self.tailored_saves) as usize,
            None => body,
        };
        bytes.extend(vec![0xEA; size]);
        bytes.extend(post);
        bytes.extend_from_slice(&[0x4C, recipe.jmp as u8, (recipe.jmp >> 8) as u8]);
        bytes.extend_from_slice(recipe.stream);
        Ok(Built { origin: self.origin, bytes, warnings: vec!["checked".to_string()] })
    }

    fn run(&mut self, mut build: Build) -> Result<SfxResult, String> {
        loop {
            let reply = match build.request() {
                Request::Compress { format, direction, data, out_end } => {
                    self.asked.push(format!("compress {} {out_end:04X}", direction.as_str()));
                    let n = (self.packed)(data.len());
                    let mode = if format == Format::LzanFull { Some(0x12) } else { None };
                    Reply::Compressed(Ok((vec![0x55; n], mode)))
                }
                Request::Measure { direction, stream, .. } => {
                    self.asked.push(format!("measure {} {}", direction.as_str(), stream.len()));
                    Reply::Measured(self.gap.clone())
                }
                Request::Tailor { .. } => {
                    self.asked.push("tailor".to_string());
                    Reply::Tailored(self.tailored.clone())
                }
                Request::Assemble(recipe) => {
                    self.asked.push(format!("assemble {:?}", recipe.payload));
                    Reply::Assembled(self.assemble(&recipe))
                }
                Request::Nothing => break,
            };
            build = build.advance(reply);
        }
        build.into_result().unwrap()
    }
}

fn build(img: &MemoryImage, f: Format, start: u16, p: &Placement) -> Result<SfxResult, String> {
    Host::new().run(build_sfx(img, info(f), start, p)?)
}

fn run_placement(end: u16) -> Placement {
    Placement {
        restore_basic_end: Some(end),
        bank_at_jmp: RUN_BASIC_BANK,
        cli_before_jmp: true,
        basic_clr: true,
        ..Placement::default()
    }
}

#[test]
fn zp_stack_variant_selected_when_it_fits() {
    let img = image_of(0x0801, 4096);
    let auto = Placement::default();
    let r = build(&img, Format::PuCrunch, 0x0801, &auto).unwrap();
    assert_eq!(
        r.decruncher_at, 0x0100,
        "auto must stage the zp-stack variant in page 1"
    );

    let manual = Placement { decruncher: Some(0x0400), ..Placement::default() };
    let m = build(&img, Format::PuCrunch, 0x0801, &manual).unwrap();
    assert_eq!(m.decruncher_at, 0x0400);
    assert!(
        m.prg.len() > r.prg.len(),
        "manual placement uses the (bigger) standard body: {} vs {} B",
        m.prg.len(),
        r.prg.len()
    );
    assert_eq!(m.stream_len, r.stream_len);
    assert_eq!(r.decoder_bytes, 211);
    assert_eq!(m.decoder_bytes, 270);
}

#[test]
fn direction_rule_fff0() {
    assert_eq!(direction_for_span(0xFFF1), Direction::Forward); // last byte $FFF0
    assert_eq!(direction_for_span(0xFFF2), Direction::Backward);
    assert_eq!(direction_for_span(0x1_0000), Direction::Backward);
}

#[test]
fn forward_layout_builds_for_all_formats() {
    let img = image_of(0x0801, 4096);
    for c in &cruncher_list() {
        let r = build(&img, c.format, 0x0801, &Placement::default())
            .unwrap_or_else(|e| panic!("{}: {e}", c.label));
        assert_eq!(&r.prg[..2], &[0x01, 0x08], "{}: not $0801 autostart", c.label);
        assert_eq!(r.direction, Direction::Forward, "{}", c.label);
    }
}

#[test]
fn backward_layout_builds_for_full_range_span() {
    let mut img = MemoryImage::default();
    let len = 0x1_0000 - 0x0801;
    img.add_prg("full.prg", &prg_bytes(0x0801, &compressible(len))).unwrap();
    let r = build(&img, Format::LzanFull, 0x0801, &Placement::default()).unwrap();
    assert_eq!(r.direction, Direction::Backward);
    assert_eq!(r.packed_at, 0x0801 - DEFAULT_MARGIN);
    assert!(r.mover_folded, "full-range move must survive the image overwrite");
    assert!(r.mover_at.is_none(), "no separate mover when folded");
    let manual = Placement { mover: Some(DEFAULT_MOVER), ..Placement::default() };
    let r = build(&img, Format::LzanFull, 0x0801, &manual).unwrap();
    assert!(!r.mover_folded);
    assert_eq!(r.mover_at, Some(DEFAULT_MOVER), "explicit mover honored");
    for fmt in [Format::Upkr, Format::LzanMin] {
        let r = build(&img, fmt, 0x0801, &Placement::default())
            .unwrap_or_else(|e| panic!("{fmt:?}: {e}"));
        assert_eq!(r.direction, Direction::Backward, "{fmt:?}");
    }
}

#[test]
fn scratch_placement_exploding_shape() {
    let mut img = MemoryImage::default();
    img.add_prg("big.prg", &prg_bytes(0x0801, &compressible(58035))).unwrap();
    let p = Placement::default();

    let exo = plan_preview(&img, &info(Format::Exomizer), &p).unwrap();
    assert!(exo.unavailable.is_none(), "{:?}", exo.unavailable);
    assert_eq!(exo.scratch, Some((0x0334, 156)));

    let upkr = plan_preview(&img, &info(Format::Upkr), &p).unwrap();
    assert!(upkr.unavailable.is_none(), "{:?}", upkr.unavailable);
    let (at, len) = upkr.scratch.unwrap();
    assert_eq!(at & 0xFF, 0, "upkr probs must be page-aligned");
    assert_eq!(len, 319);
    let d = upkr.decruncher_at.unwrap() as u32;
    assert!(
        at as u32 + 319 <= d || d + upkr.staged_size <= at as u32,
        "scratch ${at:04X} overlaps decoder ${d:04X}"
    );

    let shr = plan_preview(&img, &info(Format::Shrinkler), &p).unwrap();
    assert_eq!(shr.direction, Direction::Backward);
    assert!(shr.unavailable.is_none());
}

#[test]
fn auto_falls_back_to_backward_for_shrinkler() {
    let mut img = MemoryImage::default();
    img.add_prg("big.prg", &prg_bytes(0x0801, &compressible(58035))).unwrap();
    let span_end = 0x0801 + 58035u32;

    let auto = plan_preview(&img, &info(Format::Shrinkler), &Placement::default()).unwrap();
    assert!(auto.unavailable.is_none(), "{:?}", auto.unavailable);
    assert_eq!(
        auto.direction,
        Direction::Backward,
        "auto must pick the only feasible direction"
    );
    let (at, len) = auto.scratch.unwrap();
    assert_eq!(len, 1536);
    assert!(
        (at as u32) >= span_end,
        "scratch ${at:04X} should sit above the span end ${span_end:04X}"
    );

    let fwd = Placement { direction: DirectionChoice::Forward, ..Placement::default() };
    let p = plan_preview(&img, &info(Format::Shrinkler), &fwd).unwrap();
    assert!(p.unavailable.is_some(), "forced forward must stay hidden");

    let back = Placement { direction: DirectionChoice::Backward, ..Placement::default() };
    let p = plan_preview(&img, &info(Format::Shrinkler), &back).unwrap();
    assert!(p.unavailable.is_none(), "{:?}", p.unavailable);

    let r = build(&img, Format::Shrinkler, 0x0801, &Placement::default()).unwrap();
    assert_eq!(r.direction, Direction::Backward);
    assert_eq!(r.scratch.unwrap().1, 1536);
}

#[test]
fn scratch_placement_small_span_allows_shrinkler() {
    let mut img = MemoryImage::default();
    img.add_prg("small.prg", &prg_bytes(0x0801, &compressible(0x3000))).unwrap();
    let p = plan_preview(&img, &info(Format::Shrinkler), &Placement::default()).unwrap();
    assert!(p.unavailable.is_none(), "{:?}", p.unavailable);
    let (at, len) = p.scratch.unwrap();
    assert_eq!(at & 0xFF, 0);
    assert_eq!(len, 1536);
}

#[test]
fn manual_scratch_override_allows_system_area() {
    let img = image_of(0x0801, 4096);
    let auto = plan_preview(&img, &info(Format::Exomizer), &Placement::default()).unwrap();
    assert!(auto.scratch.unwrap().0 >= 0x0334);
    let manual = Placement { scratch: Some(0x0200), ..Placement::default() };
    let p = plan_preview(&img, &info(Format::Exomizer), &manual).unwrap();
    assert!(p.unavailable.is_none(), "{:?}", p.unavailable);
    assert_eq!(p.scratch, Some((0x0200, 156)));
}

#[test]
fn direction_override_feasibility() {
    let fwd_only = Placement { direction: DirectionChoice::Forward, ..Placement::default() };
    let back_only = Placement { direction: DirectionChoice::Backward, ..Placement::default() };

    let img = image_of(0x0801, 8000);
    let r = build(&img, Format::LzanFull, 0x0801, &back_only).unwrap();
    assert_eq!(r.direction, Direction::Backward);
    assert_eq!(r.packed_at, 0x0801 - DEFAULT_MARGIN);
    let r = build(&img, Format::LzanFull, 0x0801, &fwd_only).unwrap();
    assert_eq!(r.direction, Direction::Forward);

    let mut img = MemoryImage::default();
    img.add_prg("f.prg", &prg_bytes(0xF000, &compressible(0x1000))).unwrap();
    let e = build(&img, Format::LzanFull, 0xF000, &fwd_only).err().unwrap();
    assert!(e.contains("forward is impossible"), "{e}");

    let mut img = MemoryImage::default();
    img.add_prg("low.prg", &prg_bytes(0x0200, &compressible(0x1000))).unwrap();
    let e = build(&img, Format::LzanFull, 0x0200, &back_only).err().unwrap();
    assert!(e.contains("backward is impossible"), "{e}");
    let p = plan_preview(&img, &info(Format::LzanFull), &back_only).unwrap();
    assert!(p.unavailable.unwrap().contains("backward is impossible"));

    let img = image_of(0x0801, 4000);
    for fmt in [Format::Upkr, Format::LzanMin] {
        let r = build(&img, fmt, 0x0801, &back_only).unwrap_or_else(|e| panic!("{fmt:?}: {e}"));
        assert_eq!(r.direction, Direction::Backward, "{fmt:?}");
    }
}

#[test]
fn build_sfx_places_scratch_for_exomizer() {
    let img = image_of(0x0801, 4096);
    let r = build(&img, Format::Exomizer, 0x0801, &Placement::default()).unwrap();
    assert_eq!(r.scratch, Some((0x0334, 156)));
}

#[test]
fn multi_prg_two_regions_forward() {
    let mut img = MemoryImage::default();
    img.add_prg("main.prg", &prg_bytes(0x0801, &compressible(8000))).unwrap();
    img.add_prg("data.prg", &prg_bytes(0xC000, &compressible(0x1000))).unwrap();
    let r = build(&img, Format::Lzsa2, 0x0801, &Placement::default()).unwrap();
    assert_eq!(r.direction, Direction::Forward);
    assert_eq!(r.span, (0x0801, 0xD000));
}

#[test]
fn bank_and_cli_before_jmp_add_only_the_requested_bytes() {
    let img = image_of(0x0801, 4096);
    let base = build(&img, Format::LzanFull, 0x0801, &Placement::default()).unwrap();

    let cli_only = Placement { cli_before_jmp: true, ..Placement::default() };
    let r = build(&img, Format::LzanFull, 0x0801, &cli_only).unwrap();
    assert_eq!(r.prg.len(), base.prg.len() + 1, "CLI alone must add exactly 1 byte");

    let bank_only = Placement { bank_at_jmp: 0x37, ..Placement::default() };
    let r = build(&img, Format::LzanFull, 0x0801, &bank_only).unwrap();
    assert_eq!(
        r.prg.len(),
        base.prg.len() + 4,
        "LDA #imm + STA zp must add exactly 4 bytes"
    );

    let both = Placement { bank_at_jmp: 0x37, cli_before_jmp: true, ..Placement::default() };
    let r = build(&img, Format::LzanFull, 0x0801, &both).unwrap();
    assert_eq!(r.prg.len(), base.prg.len() + 5, "bank + CLI must add exactly 5 bytes");

    let explicit_default = Placement { bank_at_jmp: INIT_BANK, ..Placement::default() };
    let r = build(&img, Format::LzanFull, 0x0801, &explicit_default).unwrap();
    assert_eq!(r.prg.len(), base.prg.len());
}

#[test]
fn span_covers_irq_vector_detects_overlap() {
    assert!(!span_covers_irq_vector((0x0200, 0x0314))); // span ends right before the vector
    assert!(span_covers_irq_vector((0x0200, 0x0315))); // span includes the low byte ($0314)
    assert!(span_covers_irq_vector((0x0200, 0x0400))); // span covers the whole vector
    assert!(!span_covers_irq_vector((0x0316, 0x0400))); // span starts right after the vector
}

#[test]
fn restore_basic_end_adds_eight_bytes() {
    let img = image_of(0x0801, 4096);
    let base = build(&img, Format::LzanFull, 0x0801, &Placement::default()).unwrap();
    let p = Placement { restore_basic_end: Some(0x1234), ..Placement::default() };
    let r = build(&img, Format::LzanFull, 0x0801, &p).unwrap();
    assert_eq!(r.prg.len(), base.prg.len() + 8);
}

#[test]
fn run_epilogue_emits_clr_and_interpreter_jump() {
    let img = image_of(0x0801, 4096);
    let base = build(&img, Format::LzanFull, 0x0801, &Placement::default()).unwrap();
    let p = run_placement(0x1801);
    let r = build(&img, Format::LzanFull, RUN_BASIC_LOOP, &p).unwrap();
    assert_eq!(r.prg.len(), base.prg.len() + 16);
    let has = |n: &[u8]| r.prg.windows(n.len()).any(|w| w == n);
    assert!(has(&[0x20, 0x59, 0xA6]), "JSR $A659 (CLR)");
    assert!(has(&[0x4C, 0xAE, 0xA7]), "JMP $A7AE (interpreter loop)");
}

#[test]
fn run_epilogue_reserved_scratch_clears_decoder() {
    let mut img = MemoryImage::default();
    img.add_prg("data.prg", &prg_bytes(0x0340, &compressible(16))).unwrap();
    img.add_prg("basic.prg", &prg_bytes(0x0801, &compressible(4096))).unwrap();
    let end = 0x0801 + 4096u16;
    let run = run_placement(end);
    let plan = plan_preview(&img, &info(Format::Exomizer), &run).unwrap();
    assert!(plan.unavailable.is_none(), "{:?}", plan.unavailable);
    if let (Some(d), Some((s, slen))) = (plan.decruncher_at, plan.scratch) {
        let (d, staged, s, slen) = (d as u32, plan.staged_size, s as u32, slen as u32);
        assert!(
            s + slen <= d || d + staged <= s,
            "scratch ${s:04X}(+{slen}) overlaps reserved decoder ${d:04X}(+{staged})"
        );
    }
    build(&img, Format::Exomizer, RUN_BASIC_LOOP, &run).unwrap();
}

#[test]
fn epilogue_len_matches_emitted_bytes() {
    let img = image_of(0x0801, 4096);
    let base = build(&img, Format::LzanFull, 0x0801, &Placement::default()).unwrap();
    let cases = [
        Placement { cli_before_jmp: true, ..Placement::default() },
        Placement { bank_at_jmp: 0x37, ..Placement::default() },
        Placement { restore_basic_end: Some(0x1801), ..Placement::default() },
        Placement { basic_clr: true, bank_at_jmp: 0x37, ..Placement::default() },
        Placement {
            restore_basic_end: Some(0x1801),
            bank_at_jmp: RUN_BASIC_BANK,
            basic_clr: true,
            cli_before_jmp: true,
            ..Placement::default()
        },
    ];
    for p in cases {
        let r = build(&img, Format::LzanFull, 0x0801, &p).unwrap();
        assert_eq!(
            r.prg.len(),
            base.prg.len() + epilogue_len(&p) as usize,
            "epilogue_len disagrees with emitted bytes for {p:?}",
        );
    }
}

#[test]
fn staged_size_reflects_options_and_never_overflows_stack_page() {
    let img = image_of(0x0801, 4096);
    let run = run_placement(0x1801);
    let d = plan_preview(&img, &info(Format::LzanFull), &Placement::default()).unwrap();
    let r = plan_preview(&img, &info(Format::LzanFull), &run).unwrap();
    assert_eq!(r.staged_size, d.staged_size + epilogue_len(&run));
    for c in cruncher_list() {
        for p in [Placement::default(), run] {
            if let Ok(plan) = plan_preview(&img, &info(c.format), &p) {
                if plan.unavailable.is_none() && plan.decruncher_at == Some(0x0100) {
                    assert!(
                        plan.staged_size <= STACK_PAGE_SLOT,
                        "{}: $0100 decoder staged {} > slot {}",
                        c.label,
                        plan.staged_size,
                        STACK_PAGE_SLOT
                    );
                }
            }
        }
    }
}

#[test]
fn manual_decoder_override_honored_or_caught() {
    let img = image_of(0x0801, 4096);
    let opts = run_placement(0x1801);

    let safe = Placement { decruncher: Some(0xC000), ..opts };
    let r = build(&img, Format::LzanFull, RUN_BASIC_LOOP, &safe).unwrap();
    assert_eq!(r.decruncher_at, 0xC000, "safe override honored");

    let forced = Placement { decruncher: Some(0x0100), ..opts };
    let plan = plan_preview(&img, &info(Format::LzanFull), &forced).unwrap();
    assert_eq!(plan.decruncher_at, Some(0x0100));
    assert!(plan.staged_size > STACK_PAGE_SLOT);
    let e = build(&img, Format::LzanFull, RUN_BASIC_LOOP, &forced).err().unwrap();
    assert!(e.contains("headroom") || e.contains("stack"), "{e}");
    assert_eq!(e, "Build/assembly failed: not enough stack headroom");
}

#[test]
fn legal_only_mode_selects_legal_decoder() {
    let img = image_of(0x0801, 4096);
    let illegal = Placement::default(); // allow_illegal = true
    let legal = Placement { allow_illegal: false, ..Placement::default() };

    for fmt in [Format::Lzsa1, Format::Lzsa2, Format::TsCrunch, Format::Upkr, Format::PuCrunch] {
        let r = build(&img, fmt, 0x0801, &legal)
            .unwrap_or_else(|e| panic!("{fmt:?} legal build: {e}"));
        assert_eq!(&r.prg[..2], &[0x01, 0x08], "{fmt:?}: not $0801 autostart");

        let p_ill = plan_preview(&img, &info(fmt), &illegal).unwrap();
        let p_leg = plan_preview(&img, &info(fmt), &legal).unwrap();
        assert!(
            p_leg.staged_size >= p_ill.staged_size,
            "{fmt:?}: legal decoder ({} B staged) must not be smaller than the illegal \
             baseline ({} B staged) — otherwise the baseline should BE the legal body",
            p_leg.staged_size,
            p_ill.staged_size
        );
    }

    let a = build(&img, Format::Zx02, 0x0801, &illegal).unwrap();
    let b = build(&img, Format::Zx02, 0x0801, &legal).unwrap();
    assert_eq!(a.prg, b.prg, "already-legal format must not change");
}

// -- every step and every refusal of a build ---------------------------------

#[test]
fn empty_and_oversized_images_are_refused() {
    let e = build_sfx(
        &MemoryImage::default(),
        info(Format::Zx0),
        0x0801,
        &Placement::default(),
    )
    .err()
    .unwrap();
    assert_eq!(e, "no .prg added");
    let e = plan_preview(&MemoryImage::default(), &info(Format::Zx0), &Placement::default())
        .err()
        .unwrap();
    assert_eq!(e, "no .prg added");
    let img = image_of(0, 0x1_0000);
    let e = build_sfx(&img, info(Format::Zx0), 0, &Placement::default()).err().unwrap();
    assert_eq!(
        e,
        "The span $0000-$FFFF is 65536 bytes — more than 64 KB cannot be unpacked."
    );
}

#[test]
fn a_build_asks_in_order() {
    let img = image_of(0x0801, 4096);
    let mut host = Host::new();
    let b = build_sfx(&img, info(Format::Exomizer), 0x0810, &Placement::default()).unwrap();
    host.run(b).unwrap();
    assert_eq!(
        host.asked,
        vec!["compress forward 1801", "measure forward 1040", "tailor", "assemble ToTop"]
    );
    // A format without a measure, forced backward and moved in place.
    let back = Placement {
        direction: DirectionChoice::Backward,
        tailoring: TailoringChoice::Standard,
        ..Placement::default()
    };
    let mut host = Host::new();
    let b = build_sfx(&img, info(Format::LzanFull), 0x0810, &back).unwrap();
    let r = host.run(b).unwrap();
    assert_eq!(
        host.asked,
        vec!["compress backward 1801", "assemble Stay", "assemble InPlace(2017)"]
    );
    assert_eq!(r.packed_at, 0x07E1);
    assert!(r.payload_moved);
}

#[test]
fn a_clear_image_is_read_where_it_was_loaded() {
    // The program sits far above the image, so nothing has to move.
    let img = image_of(0xA000, 0x1000);
    let back = Placement { direction: DirectionChoice::Backward, ..Placement::default() };
    let r = build(&img, Format::LzanFull, 0xA000, &back).unwrap();
    assert!(!r.payload_moved);
    assert_eq!(r.mover_at, None);
    assert!(!r.mover_folded);
    let end = 0x0801 + r.prg.len() - 2;
    assert_eq!(r.packed_at as usize, end - r.stream_len);
    // A clearance that reaches into the output keeps the move.
    let wide = Placement { clearance: 0x9C00, ..back };
    let r = build(&img, Format::LzanFull, 0xA000, &wide).unwrap();
    assert!(r.payload_moved);
    assert_eq!(r.packed_at, 0xA000 - DEFAULT_MARGIN);
    // TSCrunch keeps its own end-aligned move.
    let r = build(&img, Format::TsCrunch, 0xA000, &back).unwrap();
    assert!(r.payload_moved);
    assert_eq!(r.packed_at as usize, 0xB000 - r.stream_len);
}

#[test]
fn tailoring_keeps_the_smaller_program() {
    let img = image_of(0x0801, 4096);
    let with = |choice, saves| {
        let mut host = Host::new();
        host.tailored = Some("body".to_string());
        host.tailored_saves = saves;
        let p = Placement { tailoring: choice, ..Placement::default() };
        host.run(build_sfx(&img, info(Format::Exomizer), 0x0801, &p).unwrap()).unwrap()
    };
    let standard = with(TailoringChoice::Standard, 20);
    assert!(!standard.decoder_tailored);
    let auto = with(TailoringChoice::Auto, 20);
    assert!(auto.decoder_tailored);
    assert_eq!(auto.decoder_saved, 20);
    assert_eq!(auto.decoder_bytes, 230);
    assert_eq!(auto.prg.len(), standard.prg.len() - 20);
    // Ties and larger bodies keep the standard one.
    for saves in [0, -5] {
        let r = with(TailoringChoice::Auto, saves);
        assert!(!r.decoder_tailored);
        assert_eq!(r.decoder_saved, 0);
        assert_eq!(r.prg.len(), standard.prg.len());
    }
    // Asked for, a larger body is taken all the same.
    let r = with(TailoringChoice::Tailored, -5);
    assert!(r.decoder_tailored);
    assert_eq!(r.decoder_saved, 0);
    assert_eq!(r.prg.len(), standard.prg.len() + 5);
    // Asked for, and not to be had.
    let p = Placement { tailoring: TailoringChoice::Tailored, ..Placement::default() };
    let r = build(&img, Format::Exomizer, 0x0801, &p).unwrap();
    assert_eq!(r.warnings.len(), 2);
    assert_eq!(
        r.warnings[1],
        "Tailored decoder requested, but this stream uses every decoder feature — the standard \
         body is already minimal."
    );
}

#[test]
fn faults_end_a_build_with_their_message() {
    let img = image_of(0x0801, 4096);
    let fresh = || build_sfx(&img, info(Format::Zx0), 0x0801, &Placement::default()).unwrap();
    let end = |b: Build| b.into_result().unwrap().err().unwrap();
    let e = end(fresh().advance(Reply::Compressed(Err(Fault::Tool("boom".to_string())))));
    assert_eq!(e, "Compression failed: boom");
    let e = end(fresh().advance(Reply::Compressed(Err(Fault::Decoder("no body".to_string())))));
    assert_eq!(e, "no body");
    // A reply that was not asked for changes nothing.
    let b = fresh().advance(Reply::Tailored(None));
    assert!(matches!(b.request(), Request::Compress { .. }));
    assert!(b.into_result().is_none());
    let settled = || {
        fresh()
            .advance(Reply::Compressed(Ok((vec![0x55; 900], None))))
            .advance(Reply::Measured(Ok(3)))
            .advance(Reply::Tailored(None))
    };
    let e = end(settled().advance(Reply::Assembled(Err(Fault::Decoder("odd".to_string())))));
    assert_eq!(e, "odd");
    let e = end(settled().advance(Reply::Assembled(Err(Fault::Tool("odd".to_string())))));
    assert_eq!(e, "Build/assembly failed: odd");
}

#[test]
fn a_failed_direction_gives_way_to_the_other_one() {
    // Forward needs more room above the span than there is; backward raises its
    // margin instead.
    let img = image_of(0xE000, 0x1F00);
    let mut host = Host::new();
    host.gap = Ok(300);
    let b = build_sfx(&img, info(Format::Aplib), 0xE000, &Placement::default()).unwrap();
    let r = host.run(b).unwrap();
    assert_eq!(r.direction, Direction::Backward);
    // With no room below either, both reasons are named.
    let img = image_of(0x0400, 0xFB00);
    let mut host = Host::new();
    host.gap = Ok(0x2000);
    let b = build_sfx(&img, info(Format::Zx0), 0x0400, &Placement::default()).unwrap();
    let e = host.run(b).err().unwrap();
    assert_eq!(
        e,
        "Placement failed: forward: zx0 forward in-place needs a 8200-byte gap above $FEFF, but \
         only 256 are free below $FFFF (an incompressible tail expands the stream); try backward; \
         backward: the span starts at $0400 — no room for packed data 8200 bytes below the start \
         (above $0200). Try a different format or adjust the addresses."
    );
}

#[test]
fn measures_raise_the_margin_or_shift_the_stream() {
    assert_eq!(measure_for(Format::PuCrunch, Direction::Forward), Measure::ContainerGap);
    assert_eq!(measure_for(Format::TsCrunch, Direction::Backward), Measure::UpwardShift);
    assert_eq!(measure_for(Format::TsCrunch, Direction::Forward), Measure::Nothing);
    assert_eq!(measure_for(Format::Shrinkler, Direction::Backward), Measure::Nothing);
    assert_eq!(measure_for(Format::Zx0, Direction::Forward), Measure::MaxGap);
    let back = Placement { direction: DirectionChoice::Backward, ..Placement::default() };
    let img = image_of(0xA000, 0x1000);
    let run = |f, gap, p: &Placement| {
        let mut host = Host::new();
        host.gap = gap;
        host.origin = 0xA000; // in the way, so the payload moves
        host.run(build_sfx(&img, info(f), 0xA000, p).unwrap())
    };
    let r = run(Format::Zx0, Ok(100), &back).unwrap();
    assert_eq!(r.packed_at, 0xA000 - 108);
    let r = run(Format::TsCrunch, Ok(10), &back).unwrap();
    assert_eq!(r.packed_at as usize, 0xB000 + 18 - r.stream_len);
    // gap - output + stream - 18 + 8 = 5000 - 4096 + 1040 - 10
    let r = run(Format::PuCrunch, Ok(5000), &back).unwrap();
    assert_eq!(r.packed_at, 0xA000 - 1934);
    let e = run(Format::PuCrunch, Err("bad container".to_string()), &back).err().unwrap();
    assert_eq!(
        e,
        "Placement failed: backward: bad container. Try a different format or adjust the addresses."
    );
    let forward = Placement { direction: DirectionChoice::Forward, ..Placement::default() };
    let e = run(Format::PuCrunch, Ok(60000), &forward).err().unwrap();
    // bound = 65536 - 1040 + 19 - 40960
    assert!(e.contains("would overwrite 36446 unread stream byte(s)"), "{e}");
}

#[test]
fn an_unmeasured_forward_stream_must_clear_the_output() {
    let img = image_of(0xD000, 0x2000);
    let forward = Placement { direction: DirectionChoice::Forward, ..Placement::default() };
    let mut host = Host::new();
    host.packed = |n| n;
    let b = build_sfx(&img, info(Format::Shrinkler), 0xD000, &forward).unwrap();
    let e = host.run(b).err().unwrap();
    assert!(
        e.contains(
            "shrinkler forward in-place: packed data overlaps the output and its exact expansion \
             is not modeled; try backward"
        ),
        "{e}"
    );
}

#[test]
fn tscrunch_shift_needs_room_above_the_span() {
    let mut img = MemoryImage::default();
    img.add_prg("t.prg", &prg_bytes(0x4000, &compressible(0xBFF8))).unwrap();
    let back = Placement { direction: DirectionChoice::Backward, ..Placement::default() };
    let mut host = Host::new();
    host.gap = Ok(5);
    let e = host
        .run(build_sfx(&img, info(Format::TsCrunch), 0x4000, &back).unwrap())
        .err()
        .unwrap();
    assert!(
        e.contains(
            "tscrunch in-place needs 13 bytes above $FFF7 (its token copies would overwrite \
             unread stream bytes), but only 8 are free below $FFFF"
        ),
        "{e}"
    );
}

// -- placing ------------------------------------------------------------------

fn place_err(span: (u32, u32), len: u32, f: Format, d: Direction, p: &Placement) -> String {
    place(span, len, &info(f), d, p, true).err().unwrap()
}

#[test]
fn placing_names_what_is_in_the_way() {
    let p = Placement::default();
    let (fwd, back) = (Direction::Forward, Direction::Backward);
    let span = (0x0801, 0x2000);
    assert_eq!(
        place_err(span, 0x1_0001, Format::Zx0, fwd, &p),
        "packed data is larger than the address space"
    );
    assert_eq!(
        place_err(span, 0xF800, Format::Zx0, fwd, &p),
        "too big: packed data ($0800-$FFFF) reaches down to the span start $0801"
    );
    assert_eq!(
        place_err((0x0220, 0x2000), 16, Format::Zx0, back, &p),
        "the span starts at $0220 — no room for packed data 32 bytes below the start (above $0200)"
    );
    assert_eq!(
        place((0x0221, 0x2000), 16, &info(Format::Zx0), back, &p, true).unwrap().packed_start,
        0x0201
    );
    assert_eq!(
        place_err((0x0100, 0x1000), 16, Format::Zx02, fwd, &p),
        "the decoder at $0100 (+154 B) collides with the output span or packed data"
    );
    assert_eq!(
        place_err(span, 0x1900, Format::Zx0, back, &p),
        "too big: packed data ($07E1-$20E0) reaches past the span end"
    );
    assert_eq!(
        place_err(span, 0x3000, Format::TsCrunch, back, &p),
        "packed data is larger than the output span"
    );
    assert_eq!(
        place_err(span, 0x1F00, Format::TsCrunch, back, &p),
        "packed data reaches below $0200"
    );
    let shifted = Placement { tsc_shift: 0xF000, ..p };
    assert_eq!(
        place_err(span, 0x100, Format::TsCrunch, back, &shifted),
        "tscrunch in-place needs 61440 bytes above the span end, but the stream would cross $FFFF"
    );
    let at = |a| Placement { decruncher: Some(a), ..Placement::default() };
    assert_eq!(
        place_err(span, 0x100, Format::Zx0, fwd, &at(0x1000)),
        "the decoder at $1000 (+166 B) collides with the output span or packed data"
    );
    assert_eq!(
        place_err(span, 0x100, Format::Zx0, fwd, &at(0x0080)),
        "the decoder address $0080 is in the stack/zero page"
    );
    let buf = |a| Placement { scratch: Some(a), ..Placement::default() };
    assert_eq!(
        place_err(span, 0x100, Format::Upkr, fwd, &buf(0x0440)),
        "the buffer for upkr must be page-aligned ($0440 is not)"
    );
    assert_eq!(
        place_err(span, 0x100, Format::Upkr, fwd, &buf(0x1000)),
        "the buffer at $1000 (+319 B) collides with the output span or packed data"
    );
    assert_eq!(
        place_err(span, 0x100, Format::Exomizer, fwd, &buf(0x0080)),
        "the buffer cannot be in zero page"
    );
    let both = Placement { decruncher: Some(0x0400), scratch: Some(0x0400), ..p };
    assert_eq!(
        place_err(span, 0x100, Format::Exomizer, fwd, &both),
        "the buffer at $0400 collides with the decoder"
    );
    let mover = |a| Placement { mover: Some(a), ..Placement::default() };
    assert_eq!(
        place_err(span, 0x100, Format::Zx0, back, &mover(0x0800)),
        "the mover at $0800 collides with packed data — choose a different address"
    );
    let near = Placement { decruncher: Some(0x0400), ..mover(0x0400) };
    assert_eq!(
        place_err(span, 0x100, Format::Zx0, back, &near),
        "the mover at $0400 collides with the decoder or buffer"
    );
    let full = (0x0221, 0x1_0000);
    assert_eq!(
        place_err(full, 0x4000, Format::LzanFull, back, &p),
        "no free space for the decoder (519 B)"
    );
    assert_eq!(
        place_err(full, 0x4000, Format::Shrinkler, back, &at(0x0100)),
        "shrinkler needs 1536 bytes of page-aligned buffer, but there is no free space outside \
         the output span"
    );
    let mut none = info(Format::Zx0);
    none.forward.any = DecoderSet { balanced: None, fastest: None, stack_page: None };
    assert_eq!(
        place(span, 16, &none, fwd, &p, true).err().unwrap(),
        "no forward routine for zx0"
    );
}

#[test]
fn priority_speed_takes_the_fastest_routine() {
    let mut i = info(Format::Bolt);
    i.forward.any.fastest = Some(routine(300, None));
    let p = place((0x0801, 0x2000), 0x100, &i, Direction::Forward, &Placement::default(), true)
        .unwrap();
    assert_eq!((p.choice, p.code_bytes), (DecoderChoice::Balanced, 120));
    let fast = Placement { priority_speed: true, ..Placement::default() };
    let p = place((0x0801, 0x2000), 0x100, &i, Direction::Forward, &fast, true).unwrap();
    assert_eq!((p.choice, p.code_bytes), (DecoderChoice::Fastest, 300));
}

#[test]
fn plans_name_the_direction_they_leave_out() {
    let span = (0x0801, 0xFFF5);
    let plan = direction_candidates(span, &info(Format::LzanFull), &Placement::default()).unwrap();
    assert_eq!(plan.dirs, vec![Direction::Backward]);
    assert_eq!(
        plan.skipped,
        vec![
            "forward: forward is impossible: the span ends at $FFF4 (above $FFF0) — there is no \
             room for packed data above the output"
        ]
    );
    let mut i = info(Format::Zx0);
    i.backward.legal.balanced = None;
    let legal = Placement {
        allow_illegal: false,
        direction: DirectionChoice::Backward,
        ..Placement::default()
    };
    let e = direction_candidates((0x0801, 0x2000), &i, &legal).err().unwrap();
    assert_eq!(e, "zx0 has no backward legal decoder");
    assert_eq!(
        resolve_direction(span, &Placement::default()).unwrap(),
        Direction::Backward
    );
    let fwd = Placement { direction: DirectionChoice::Forward, ..Placement::default() };
    assert!(resolve_direction(span, &fwd).is_err());
    assert_eq!(
        resolve_direction((0x0801, 0x2000), &fwd).unwrap(),
        Direction::Forward
    );
}

#[test]
fn sizes_are_estimated_to_the_high_side() {
    assert_eq!(clen_worst_case(4096), 4096 + 256 + 64);
    assert_eq!(image_end_estimate(200, 1000), 0x0801 + 12 + 512 + 200 + 96 + 1000);
}

#[test]
fn epilogue_source_is_assembler_text() {
    let p = run_placement(0x1801);
    assert_eq!(
        epilogue_source(&p),
        "        LDA #$01\n        STA $2D\n        LDA #$18\n        STA $2E\n        \
         LDA #$37\n        STA $01\n        JSR $A659\n        CLI\n"
    );
    assert_eq!(epilogue_source(&Placement::default()), "");
    assert_eq!(assemble_post(&epilogue_source(&p)).len(), epilogue_len(&p) as usize);
}

#[test]
fn a_recipe_tells_the_assembler_everything() {
    let img = image_of(0x0801, 4096);
    let p = Placement {
        mover: Some(DEFAULT_MOVER),
        direction: DirectionChoice::Backward,
        ..Placement::default()
    };
    let b = build_sfx(&img, info(Format::LzanFull), 0x0900, &p)
        .unwrap()
        .advance(Reply::Compressed(Ok((vec![3; 64], Some(7)))))
        .advance(Reply::Tailored(None));
    // The probe leaves the payload in place.
    match b.request() {
        Request::Assemble(r) => {
            assert_eq!(r.payload, PayloadMove::Stay);
            assert_eq!(r.mover_at, None);
        }
        _ => panic!("a probe was due"),
    }
    let b = b.advance(Reply::Assembled(Err(Fault::Tool("no".to_string()))));
    match b.request() {
        Request::Assemble(r) => {
            assert_eq!(r.payload, PayloadMove::To(0x07E1));
            assert_eq!((r.output, r.output_len, r.jmp), (0x0801, 4096, 0x0900));
            assert_eq!(r.mover_at, Some(DEFAULT_MOVER));
            assert!(!r.fold_mover);
            assert_eq!(r.mode, Some(7));
            assert_eq!(r.stream, &vec![3; 64]);
            assert!(r.body.is_none());
            assert_eq!(r.post, "");
        }
        _ => panic!("a program was due"),
    }
    // A move to the top that lands on the program folds its copy code.
    let img = image_of(0x0801, 0xF000);
    let b = build_sfx(&img, info(Format::Zx0), 0x0801, &Placement::default())
        .unwrap()
        .advance(Reply::Compressed(Ok((vec![9; 0xE000], None))))
        .advance(Reply::Measured(Ok(0)))
        .advance(Reply::Tailored(None));
    match b.request() {
        Request::Assemble(r) => {
            assert_eq!(r.payload, PayloadMove::ToTop);
            assert!(r.fold_mover);
        }
        _ => panic!("a program was due"),
    }
}
