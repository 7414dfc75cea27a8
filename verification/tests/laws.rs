//! Laws of the library on concrete values.
use lazy_cruncher_workshop::address::{parse_addr, parse_region_range};
use lazy_cruncher_workshop::basic::detect_sys_start;
use lazy_cruncher_workshop::blocks::{auto_pool, first_fit, Block};
use lazy_cruncher_workshop::compare::{compare_data, shown_direction};
use lazy_cruncher_workshop::formats::{
    DecoderSet, Decoders, Direction, Format, FormatInfo, RoutineSpec, ScratchSpec,
};
use lazy_cruncher_workshop::image::MemoryImage;
use lazy_cruncher_workshop::inplace::{inplace_effective_placement, pucrunch_inplace_safe};
use lazy_cruncher_workshop::placement::{DirectionChoice, Placement, TailoringChoice};
use lazy_cruncher_workshop::plan::{
    clen_worst_case, direction_candidates, place, plan_preview, resolve_direction, Placed,
};
use lazy_cruncher_workshop::settings::{address_field, byte_field};
use lazy_cruncher_workshop::sfx::{build_sfx, Build, Built, Reply, Request, SfxResult};
use lazy_cruncher_workshop::workshop::{LogKind, Status, Workshop};

fn prg(load: u16, data: &[u8]) -> Vec<u8> {
    let mut v = vec![(load & 0xFF) as u8, (load >> 8) as u8];
    v.extend_from_slice(data);
    v
}

fn routine(code_bytes: u16, scratch: Option<(u16, bool)>) -> RoutineSpec {
    RoutineSpec {
        code_bytes,
        scratch: scratch.map(|(len, page_aligned)| ScratchSpec { len, page_aligned }),
        dst_prefixed: false,
        zp_stack: false,
    }
}

fn info(format: Format, r: RoutineSpec) -> FormatInfo {
    let set = DecoderSet { balanced: Some(r), fastest: Some(r), stack_page: None };
    let decoders = Decoders { any: set, legal: set };
    FormatInfo { format, name: "f".to_string(), forward: decoders, backward: decoders }
}

fn meets(a: (u32, u32), b: (u32, u32)) -> bool {
    a.0 < b.1 && b.0 < a.1
}

fn decoder(p: &Placed) -> (u32, u32) {
    (p.decr_at as u32, p.decr_at as u32 + p.staged)
}

// -- written numbers -----------------------------------------------------------

#[test]
fn written_numbers_read_back() {
    for a in [0u16, 1, 9, 0x0801, 0xA7AE, 0xFFFF] {
        assert_eq!(parse_addr(&address_field(a as u32)), Ok(a));
        assert_eq!(parse_addr(&a.to_string()), Ok(a));
    }
    for b in [0u8, 0x30, 0x37, 0xFF] {
        assert_eq!(parse_addr(&byte_field(b)), Ok(b as u16));
    }
    assert_eq!(address_field(0x0801), "$0801");
    assert_eq!(byte_field(7), "$07");
    assert_eq!(
        parse_region_range(&address_field(0x0801), &address_field(0x3FFF)),
        Ok((0x0801, 0x4000))
    );
    assert_eq!(parse_region_range("$FFFF", "$FFFF"), Ok((0xFFFF, 0x1_0000)));
}

#[test]
fn every_spelling_of_a_number_reads_back() {
    for n in [0u64, 7, 0xA, 0xBEEF, 0xFFFF, 0x1_0000, 0xFFFF_FFFF, 0x1_0000_0000] {
        for w in ["", " ", " \t\u{3000}"] {
            for t in [
                format!("${n:04X}"),
                format!("${n:x}"),
                format!("0x{n:x}"),
                format!("0x{n:X}"),
                format!("{n}"),
            ] {
                let read = parse_addr(&format!("{w}{t}{w}"));
                assert_eq!(read.ok(), u16::try_from(n).ok(), "{t}");
            }
        }
    }
}

#[test]
fn only_the_first_basic_line_counts() {
    let line = [0x0C, 0x08, 0x0A, 0x00, 0x9E, b'2', b'0', b'6', b'1', 0x00];
    let mut longer = line.to_vec();
    longer.extend_from_slice(&[0x15, 0x08, 0x14, 0x00, 0x9E, b'4', b'0', b'9', b'6', 0x00]);
    assert_eq!(detect_sys_start(0x0801, &line), Some(2061));
    assert_eq!(detect_sys_start(0x0801, &longer), Some(2061));
}

// -- the image -----------------------------------------------------------------

#[test]
fn removing_undoes_adding() {
    let mut img = MemoryImage::default();
    img.add_prg("a", &prg(0x1000, &[1, 2, 3])).unwrap();
    let before = img.full_buffer();
    img.add_prg("b", &prg(0x1001, &[9; 8])).unwrap();
    assert_ne!(img.full_buffer(), before);
    img.remove(1);
    assert_eq!(img.full_buffer(), before);
    assert_eq!(img.span(), Some((0x1000, 0x1003)));
}

#[test]
fn growing_and_shrinking_cancel_out() {
    let mut img = MemoryImage::default();
    img.add_prg("a", &prg(0x1000, &[1, 2, 3])).unwrap();
    let before = img.full_buffer();
    img.resize_region(0, 0x0F00, 0x1200).unwrap();
    assert_eq!(img.span(), Some((0x0F00, 0x1200)));
    assert_eq!(img.full_buffer(), before);
    img.resize_region(0, 0x1000, 0x1003).unwrap();
    assert_eq!(img.regions()[0].data, vec![1, 2, 3]);
    img.resize_region(0, 0x1000, 0x1003).unwrap();
    assert_eq!(img.regions()[0].data, vec![1, 2, 3]);
}

#[test]
fn room_is_found_at_the_lowest_address() {
    let pool = auto_pool(&[Block { start: 0x0400, end: 0x2000 }]);
    assert_eq!(first_fit(&pool, &vec![], 0xCC, false), Some(0x0334));
    assert_eq!(first_fit(&pool, &vec![], 0xCD, false), Some(0x2000));
    let used = vec![Block { start: 0x2000, end: 0x2001 }];
    assert_eq!(first_fit(&pool, &used, 0xCD, false), Some(0x2001));
    assert_eq!(first_fit(&pool, &used, 0xCD, true), Some(0x2100));
    let low = vec![Block { start: 0x10, end: 0x20 }, Block { start: 0x2_0000, end: 0x3_0000 }];
    assert_eq!(first_fit(&low, &vec![], 0x10, false), Some(0x10));
    assert_eq!(first_fit(&low, &vec![], 0x11, false), Some(0x2_0000));
}

// -- placing -------------------------------------------------------------------

#[test]
fn placed_blocks_keep_clear_of_each_other() {
    let f = info(Format::Exomizer, routine(300, Some((156, false))));
    for (span, d) in [
        ((0x0801u32, 0x9000u32), Direction::Forward),
        ((0x0801, 0x9000), Direction::Backward),
        ((0x2000, 0x1_0000), Direction::Backward),
    ] {
        let len = (span.1 - span.0) / 3;
        let p = place(span, len, &f, d, &Placement::default(), true).unwrap();
        let packed = (p.packed_start, p.packed_start + len);
        let (at, n) = p.scratch.unwrap();
        let buffer = (at as u32, at as u32 + n as u32);
        assert!(!meets(decoder(&p), span) && !meets(decoder(&p), packed));
        assert!(!meets(buffer, span) && !meets(buffer, packed));
        assert!(!meets(buffer, decoder(&p)));
    }
}

#[test]
fn a_preview_that_fits_is_a_build_that_fits() {
    let f = info(Format::Exomizer, routine(300, Some((156, false))));
    let span = (0x0801, 0x9000);
    let p = Placement::default();
    let guess = clen_worst_case(span.1 - span.0);
    assert!(place(span, guess, &f, Direction::Forward, &p, false).is_ok());
    for len in [1u32, 100, 0x1000, 0x6000] {
        assert!(place(span, len, &f, Direction::Forward, &p, true).is_ok(), "{len}");
    }
}

#[test]
fn planned_places_are_kept_where_the_real_ones_collide() {
    // The worst case folds the mover in and goes above the stack page; the real
    // stream does not need it, and the smaller decoder would land on the buffer.
    let f = info(Format::Zx0, routine(200, Some((64, false))));
    let span = (0x0900, 0xF000);
    let p = Placement { scratch: Some(0x0180), ..Placement::default() };
    let guess = clen_worst_case(span.1 - span.0);
    let planned = place(span, guess, &f, Direction::Forward, &p, false).unwrap();
    assert_ne!(planned.decr_at, 0x0100);
    let at = place(span, 0x1000, &f, Direction::Forward, &p, true).unwrap();
    assert_eq!((at.decr_at, at.scratch), (planned.decr_at, Some((0x0180, 64))));
    assert_eq!((at.staged, at.packed_start, at.mover_folded), (244, 0xF000, true));
    assert_eq!((at.code_bytes, at.choice), (200, planned.choice));
    // A buffer at the stack page itself is no different.
    let f = info(Format::Zx0, routine(200, Some((32, false))));
    let p = Placement { scratch: Some(0x0100), ..Placement::default() };
    let at = place((0x1000, 0xA000), 100, &f, Direction::Forward, &p, true).unwrap();
    assert!(at.decr_at >= 0x0334 && at.staged == 244 && at.mover_folded);
    // Without the buffer in the way the decoder goes to the stack page.
    let free = place(span, 0x1000, &f, Direction::Forward, &Placement::default(), true).unwrap();
    assert_eq!((free.decr_at, free.staged), (0x0100, 216));
}

#[test]
fn epilogues_keep_the_places() {
    let f = info(Format::LzanFull, routine(475, None));
    let p = Placement::default();
    let q = Placement {
        restore_basic_end: Some(0x1234),
        bank_at_jmp: 0x37,
        basic_clr: true,
        cli_before_jmp: true,
        ..p
    };
    let at = |p: &Placement| {
        place((0x0801, 0x1801), 0x0400, &f, Direction::Forward, p, true).unwrap()
    };
    assert_eq!((at(&p).decr_at, at(&p).staged), (0x0400, 491));
    assert_eq!((at(&q).decr_at, at(&q).staged), (0x0400, 507));
    assert_eq!(at(&p).packed_start, at(&q).packed_start);
    assert_eq!((at(&p).mover_at, at(&p).mover_folded), (at(&q).mover_at, at(&q).mover_folded));
}

#[test]
fn decoders_are_staged_outside_the_output() {
    let f = info(Format::Zx0, routine(100, None));
    let p = Placement::default();
    for span in [(0x0100, 0x1000), (0x0000, 0x1000), (0x0173, 0x1000)] {
        let e = place(span, 16, &f, Direction::Forward, &p, true).unwrap_err();
        assert_eq!(
            e,
            "the decoder at $0100 (+116 B) collides with the output span or packed data"
        );
    }
    let p1 = place((0x0174, 0x1000), 16, &f, Direction::Forward, &p, true).unwrap();
    assert_eq!(p1.decr_at, 0x0100);
}

#[test]
fn backward_needs_packed_data_above_the_system_page() {
    let p = Placement { direction: DirectionChoice::Backward, ..Placement::default() };
    assert_eq!(
        resolve_direction((0x0220, 0x1000), &p).unwrap_err(),
        "backward is impossible: the span starts at $0220 — packed data must sit 32 bytes below \
         the span start and above $0200"
    );
    assert_eq!(resolve_direction((0x0221, 0x1000), &p), Ok(Direction::Backward));
}

#[test]
fn automatic_choice_offers_what_either_direction_offers() {
    let f = info(Format::Zx0, routine(150, None));
    let span = (0x2000, 0x4000);
    let plan = |direction: DirectionChoice| {
        let p = Placement { direction, ..Placement::default() };
        direction_candidates(span, &f, &p).unwrap().dirs
    };
    assert_eq!(plan(DirectionChoice::Forward), vec![Direction::Forward]);
    assert_eq!(plan(DirectionChoice::Backward), vec![Direction::Backward]);
    assert_eq!(plan(DirectionChoice::Auto), vec![Direction::Forward, Direction::Backward]);
}

// -- settling ------------------------------------------------------------------

#[test]
fn settling_covers_the_measured_gap() {
    let f = info(Format::Aplib, routine(200, None));
    let span = (0x2000, 0x8000);
    let p = Placement::default();
    let settle = |d: Direction, gap: i64| {
        inplace_effective_placement(&f, d, &Ok(gap), 0x1000, span, &p)
    };
    let raised = settle(Direction::Backward, 100).unwrap();
    assert_eq!(raised.margin, 108);
    assert_eq!(raised.direction, p.direction);
    assert_eq!(raised.clearance, p.clearance);
    assert_eq!(settle(Direction::Backward, 3).unwrap().margin, p.margin);
    assert_eq!(settle(Direction::Forward, 0x7FF8).unwrap().margin, p.margin);
    assert!(settle(Direction::Forward, 0x7FF9).is_err());
}

#[test]
fn settled_containers_are_safe() {
    let f = info(Format::PuCrunch, routine(270, None));
    let span = (0x2000u32, 0x3000u32);
    for gap in [0i64, 100, 0x500, 0xE00] {
        let len = 0x0E00usize;
        let p = Placement::default();
        let eff =
            inplace_effective_placement(&f, Direction::Backward, &Ok(gap), len, span, &p).unwrap();
        let start = span.0 - eff.margin as u32;
        assert_eq!(pucrunch_inplace_safe(Direction::Backward, &Ok(gap), len, span, start), Ok(()));
    }
    // The bound of an unraised margin: $1000 + 32 - $0E00 + 19.
    let at = |gap: i64| {
        pucrunch_inplace_safe(Direction::Backward, &Ok(gap), 0x0E00, span, span.0 - 32)
    };
    assert_eq!(at(562), Ok(()));
    assert_eq!(
        at(563).unwrap_err(),
        "pucrunch backward in-place decode would overwrite 1 unread stream byte(s) \
         (escape-expanded stretch); try the other direction or a larger margin"
    );
    assert_eq!(
        pucrunch_inplace_safe(Direction::Forward, &Err("x".to_string()), 1, span, 0),
        Err("x".to_string())
    );
}

// -- building ------------------------------------------------------------------

/// Runs a build with streams of the given length and programs of 64 bytes more.
/// Returns the compressed requests beside the outcome.
fn run(mut b: Build, stream_len: usize) -> (Vec<(Direction, Vec<u8>, u16)>, Result<SfxResult, String>) {
    let mut compressed = Vec::new();
    loop {
        let reply = match b.request() {
            Request::Compress { direction, data, out_end, .. } => {
                compressed.push((direction, data.clone(), out_end));
                Reply::Compressed(Ok((vec![0x55; stream_len], None)))
            }
            Request::Measure { .. } => Reply::Measured(Ok(0)),
            Request::Tailor { .. } => Reply::Tailored(None),
            Request::Assemble(r) => Reply::Assembled(Ok(Built {
                origin: 0x0801,
                bytes: vec![0; r.stream.len() + 64],
                warnings: Vec::new(),
            })),
            Request::Nothing => break,
        };
        b = b.advance(reply);
    }
    (compressed, b.into_result().unwrap())
}

#[test]
fn builds_try_the_direction_that_the_preview_shows() {
    let mut img = MemoryImage::default();
    img.add_prg("a", &prg(0x2000, &[7; 4096])).unwrap();
    for direction in [DirectionChoice::Auto, DirectionChoice::Forward, DirectionChoice::Backward] {
        let p = Placement { direction, ..Placement::default() };
        let shown = plan_preview(&img, &info(Format::Zx0, routine(150, None)), &p).unwrap();
        let b = build_sfx(&img, info(Format::Zx0, routine(150, None)), 0x2000, &p).unwrap();
        let (compressed, r) = run(b, 100);
        assert_eq!(compressed[0].0, shown.direction);
        assert_eq!(r.unwrap().direction, shown.direction);
    }
}

#[test]
fn the_decoder_options_do_not_change_what_is_compressed() {
    let mut img = MemoryImage::default();
    img.add_prg("a", &prg(0x2000, &[7; 4096])).unwrap();
    let balanced = Placement::default();
    let fast = Placement { priority_speed: true, ..balanced };
    let banked = Placement { bank_at_jmp: 0x37, cli_before_jmp: true, ..balanced };
    let requests = |p: &Placement| {
        run(build_sfx(&img, info(Format::Zx0, routine(150, None)), 0x2000, p).unwrap(), 100).0
    };
    assert_eq!(requests(&fast), requests(&balanced));
    assert_eq!(requests(&banked), requests(&balanced));
    assert_eq!(requests(&balanced)[0], (Direction::Forward, vec![7; 4096], 0x3000));
}

#[test]
fn finished_programs_are_as_reported() {
    let mut img = MemoryImage::default();
    img.add_prg("a", &prg(0x2000, &[7; 4096])).unwrap();
    let p = Placement { direction: DirectionChoice::Backward, ..Placement::default() };
    let b = build_sfx(&img, info(Format::Zx0, routine(150, None)), 0x2000, &p).unwrap();
    let r = run(b, 100).1.unwrap();
    assert!(!r.payload_moved);
    assert_eq!((r.stream_len, r.stream.len()), (100, 100));
    assert_eq!(r.prg.len(), 2 + 164);
    assert_eq!((r.prg[0], r.prg[1]), (0x01, 0x08));
    assert_eq!(r.packed_at, 0x0801 + 64);
    assert_eq!((r.mover_at, r.mover_folded), (None, false));
    assert_eq!(r.span, (0x2000, 0x3000));
    assert_eq!(r.decoder_bytes, 150);
    let d = compare_data(&r, "4.1".to_string(), "9.5/10".to_string());
    assert_eq!((d.total_len, d.stream_len, d.decoder_bytes), (166, 100, 150));
    assert_eq!(d.direction, Direction::Backward);
    assert_eq!((d.ratio.as_str(), d.score.as_str()), ("4.1", "9.5/10"));
}

/// Builds with a host whose tailored bodies take `n` bytes.
fn tailored_run(tailoring: TailoringChoice, n: usize) -> SfxResult {
    let mut img = MemoryImage::default();
    img.add_prg("a", &prg(0x2000, &[7; 4096])).unwrap();
    let p = Placement { tailoring, ..Placement::default() };
    let mut b = build_sfx(&img, info(Format::Exomizer, routine(150, None)), 0x2000, &p).unwrap();
    loop {
        let reply = match b.request() {
            Request::Compress { .. } => Reply::Compressed(Ok((vec![0x55; 100], None))),
            Request::Measure { .. } => Reply::Measured(Ok(0)),
            Request::Tailor { .. } => Reply::Tailored(Some("body".to_string())),
            Request::Assemble(r) => Reply::Assembled(Ok(Built {
                origin: 0x0801,
                bytes: vec![0; if r.body.is_some() { n } else { 300 }],
                warnings: Vec::new(),
            })),
            Request::Nothing => break,
        };
        b = b.advance(reply);
    }
    b.into_result().unwrap().unwrap()
}

#[test]
fn automatic_tailoring_gives_the_smaller_program() {
    for n in [250usize, 300, 350] {
        let standard = tailored_run(TailoringChoice::Standard, n);
        let tailored = tailored_run(TailoringChoice::Tailored, n);
        let auto = tailored_run(TailoringChoice::Auto, n);
        assert_eq!((standard.prg.len(), tailored.prg.len()), (302, n + 2));
        assert_eq!(auto.prg.len(), standard.prg.len().min(tailored.prg.len()));
        assert_eq!(auto.decoder_tailored, n < 300);
        assert_eq!(auto.decoder_saved, standard.prg.len() - auto.prg.len());
        assert_eq!((&auto.stream, &tailored.stream), (&standard.stream, &standard.stream));
    }
}

// -- the workspace -------------------------------------------------------------

#[test]
fn scores_are_shown_for_the_planned_direction() {
    let f = info(Format::Bolt, routine(120, None));
    let mut w = Workshop::new();
    w.settings.dir_choice = DirectionChoice::Backward;
    assert_eq!(shown_direction(&w.image, &w.settings, &f), Direction::Forward);
    w.add_prg("a.prg", &Ok(prg(0x2000, &[1; 4096])));
    assert_eq!(shown_direction(&w.image, &w.settings, &f), Direction::Backward);
    w.settings.dir_choice = DirectionChoice::Auto;
    assert_eq!(shown_direction(&w.image, &w.settings, &f), Direction::Forward);
    w.settings.dir_choice = DirectionChoice::Backward;
    w.settings.margin_text = "x".to_string();
    assert_eq!(shown_direction(&w.image, &w.settings, &f), Direction::Forward);
}

#[test]
fn later_files_keep_the_users_start() {
    let mut w = Workshop::new();
    w.add_prg("a.prg", &Ok(prg(0x2000, &[1; 16])));
    w.settings.start_auto = false;
    w.settings.start_text = "$2004".to_string();
    w.add_prg("b.prg", &Ok(prg(0x1000, &[1; 16])));
    assert_eq!(w.settings.start_text, "$2004");
    w.settings.start_auto = true;
    w.settings.refresh_start_default(&w.image, w.import_hint);
    assert_eq!(w.settings.start_text, "$1000");
    w.settings.cli_before_jmp = true;
    w.settings.reset_after_run(&w.image, w.import_hint);
    assert!(!w.settings.cli_before_jmp && w.settings.start_auto);
    assert_eq!(w.settings.bank_text, "$30");
}

#[test]
fn refused_files_leave_the_image_alone() {
    let mut w = Workshop::new();
    w.add_prg("a.prg", &Ok(prg(0x2000, &[1; 16])));
    let before = w.image.full_buffer();
    w.add_prg("b.prg", &Ok(vec![1]));
    assert_eq!(w.image.regions().len(), 1);
    assert_eq!(w.image.full_buffer(), before);
    assert!(w.load_error.is_some());
}

#[test]
fn wiping_keeps_the_log() {
    let mut w = Workshop::new();
    w.add_prg("a.prg", &Ok(prg(0x2000, &[1; 16])));
    w.settings.margin_text = "99".to_string();
    w.push_load_error(&"x".to_string());
    w.push_load_error(&"y".to_string());
    assert_eq!(w.load_error.as_deref(), Some("x\ny"));
    let n = w.log.len();
    w.clear_workspace();
    assert!(w.image.is_empty() && w.load_error.is_none());
    assert_eq!(w.settings.margin_text, "32");
    assert_eq!(w.log.len(), n + 1);
    assert_eq!(w.log[n].kind, LogKind::Head);
    assert_eq!(w.log[n].text, "— Workspace cleared (1 file(s) removed) —");
    w.status = Status::Failed("x".to_string());
    w.clear_status();
    assert!(matches!(w.status, Status::Idle));
}
