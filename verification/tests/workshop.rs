use lazy_cruncher_workshop::blocks::{auto_pool, first_fit, subtract, Block};
use lazy_cruncher_workshop::compare::{
    available_crunchers, compare_workers, cruncher_availability, cruncher_entry, decoder_bytes,
    ranking, usable_selection, CompareData, CompareRow,
};
use lazy_cruncher_workshop::config::{window_title, APP_NAME, VERSION};
use lazy_cruncher_workshop::formats::{
    cruncher_list, has_routine, DecoderSet, Decoders, Direction, Format, FormatInfo, RoutineSpec,
    ScratchSpec,
};
use lazy_cruncher_workshop::import::{
    import_crunched_with, needs_signature, probe_deeper_layer, ImportedPart,
};
use lazy_cruncher_workshop::names::{
    crunched_name, short_label, stream_name, uncompressed_name,
};
use lazy_cruncher_workshop::placement::Placement;
use lazy_cruncher_workshop::plan::{plan_preview, PlanPreview};
use lazy_cruncher_workshop::ranks::{decode_bounds, decode_cycles, lookup, pack_bounds};
use lazy_cruncher_workshop::report::{
    needs_buffer, plan_lines, range_text, report_of, stack_page_warning, Report,
};
use lazy_cruncher_workshop::sfx::SfxResult;
use lazy_cruncher_workshop::workshop::{
    crash_message, input_len, Activity, Level, LogKind, Status, Workshop,
};

fn prg(load: u16, data: &[u8]) -> Vec<u8> {
    let mut v = vec![(load & 0xFF) as u8, (load >> 8) as u8];
    v.extend_from_slice(data);
    v
}

fn part(load: u16, data: &[u8], jump: u16) -> ImportedPart {
    ImportedPart {
        cruncher: "RLE".to_string(),
        start: load,
        end: load + data.len() as u16 - 1,
        jump_start: jump,
        prg: prg(load, data),
    }
}

fn last(w: &Workshop) -> (LogKind, &str) {
    let l = w.log.last().unwrap();
    (l.kind, l.text.as_str())
}

fn info(format: Format, code_bytes: u16, scratch: Option<(u16, bool)>) -> FormatInfo {
    let r = Some(RoutineSpec {
        code_bytes,
        scratch: scratch.map(|(len, page_aligned)| ScratchSpec { len, page_aligned }),
        dst_prefixed: false,
        zp_stack: false,
    });
    let set = DecoderSet { balanced: r, fastest: r, stack_page: None };
    let decoders = Decoders { any: set, legal: set };
    FormatInfo { format, name: "f".to_string(), forward: decoders, backward: decoders }
}

// -- speeds -------------------------------------------------------------------

const DIRS: [Direction; 2] = [Direction::Forward, Direction::Backward];

fn score_on(value: f64, bounds: (u32, u32), unit: f64) -> f64 {
    let l = |v: f64| v.max(1.0).ln();
    let (lo, hi) = (l(bounds.0 as f64 / unit), l(bounds.1 as f64 / unit));
    (1.0 + 9.0 * (hi - l(value)) / (hi - lo)).clamp(1.0, 10.0)
}

fn pack_score(f: Format) -> f64 {
    score_on(lookup(f).packing as f64 / 10.0, pack_bounds(), 10.0)
}

fn decode_score(f: Format, fast: bool, d: Direction) -> f64 {
    score_on(decode_cycles(f, fast, d) as f64, decode_bounds(), 1.0)
}

#[test]
fn scale_endpoints() {
    let min = |v: &[f64]| v.iter().cloned().fold(f64::MAX, f64::min);
    let max = |v: &[f64]| v.iter().cloned().fold(f64::MIN, f64::max);

    let pack: Vec<f64> = cruncher_list().iter().map(|c| pack_score(c.format)).collect();
    assert!((max(&pack) - 10.0).abs() < 1e-9 && (min(&pack) - 1.0).abs() < 1e-9);

    let mut dec = Vec::new();
    for c in cruncher_list() {
        for d in DIRS {
            dec.push(decode_score(c.format, false, d));
            dec.push(decode_score(c.format, true, d));
        }
    }
    assert!((max(&dec) - 10.0).abs() < 1e-9, "fastest decode must be 10.0");
    assert!((min(&dec) - 1.0).abs() < 1e-9, "slowest decode must be 1.0");
    assert_eq!(decode_bounds(), (276_410, 26_851_420));
    assert_eq!(pack_bounds(), (32, 9103));
}

#[test]
fn every_format_is_benched() {
    for c in cruncher_list() {
        assert!(lookup(c.format).packing > 0);
        for d in DIRS {
            assert!(decode_cycles(c.format, false, d) > 0);
            assert!(decode_cycles(c.format, true, d) > 0);
        }
    }
    assert_eq!(lookup(Format::LzanFull).packing, 9103);
    assert_eq!(decode_cycles(Format::Lzsa1, true, Direction::Forward), 399_883);
}

#[test]
fn priority_speed_never_lowers_any_score() {
    for c in cruncher_list() {
        for d in DIRS {
            let f = c.format;
            let std = decode_score(f, false, d);
            let fast = decode_score(f, true, d);
            assert!(fast >= std - 1e-9, "priority speed lowered {f:?} {d:?}");
        }
    }
}

#[test]
fn backward_has_its_own_score() {
    let f = decode_score(Format::Bolt, true, Direction::Forward);
    let b = decode_score(Format::Bolt, true, Direction::Backward);
    assert!((f - b).abs() > 1e-6, "bolt forward and backward must differ");
}

// -- lists and names ----------------------------------------------------------

#[test]
fn the_list_offers_every_format_once() {
    let list = cruncher_list();
    assert_eq!(list.len(), 15);
    assert_eq!((list[0].format, list[0].label), (Format::LzanFull, "LZAN full"));
    assert_eq!((list[14].format, list[14].label), (Format::Bolt, "BoltLZ"));
    let i = info(Format::Zx0, 150, None);
    assert!(has_routine(&i, Direction::Forward, false));
}

#[test]
fn labels_and_file_names() {
    assert_eq!(short_label("LZAN full  (fast, small)"), "LZAN full");
    assert_eq!(short_label(" ZX0 "), "ZX0");
    assert_eq!(short_label(""), "");
    assert_eq!(crunched_name("game"), "game-crunched.prg");
    assert_eq!(uncompressed_name("game-crunched"), "game-uncompressed.prg");
    assert_eq!(uncompressed_name("game"), "game-uncompressed.prg");
    assert_eq!(stream_name(Some("game-crunched")), "game-crunched.bin");
    assert_eq!(stream_name(Some("crunched")), "crunched-crunched.bin");
    assert_eq!(stream_name(None), "output-crunched.bin");
    assert_eq!(window_title(), format!("{APP_NAME} v{VERSION}"));
    assert_eq!(VERSION, "0.9.1");
}

#[test]
fn blocks_are_cut_and_filled() {
    let b = |start, end| Block { start, end };
    assert!(b(1, 3).overlaps(&b(2, 9)));
    assert!(!b(1, 3).overlaps(&b(3, 9)));
    assert_eq!(
        subtract(&vec![b(0, 10), b(20, 30)], b(5, 25)),
        vec![b(0, 5), b(25, 30)]
    );
    let pool = auto_pool(&[b(0x0801, 0x9000), b(0xC000, 0x1_0000)]);
    assert_eq!(pool, vec![b(0x0334, 0x0400), b(0x0400, 0x0801), b(0x9000, 0xC000)]);
    let used = vec![b(0x0334, 0x0380), b(0x0400, 0x0500)];
    assert_eq!(first_fit(&pool, &used, 0x80, false), Some(0x0380));
    assert_eq!(first_fit(&pool, &used, 0x200, true), Some(0x0500));
    assert_eq!(first_fit(&pool, &used, 0x2000, false), Some(0x9000));
    assert_eq!(first_fit(&pool, &used, 0x4000, false), None);
}

// -- importing ----------------------------------------------------------------

#[test]
fn imports_are_judged() {
    let ok = import_crunched_with(Ok(Some(part(0x1000, &[1, 2], 0x1001))), None).unwrap();
    assert_eq!((ok.start, ok.end, ok.jump_start), (0x1000, 0x1001, 0x1001));
    assert!(needs_signature(&Ok(None)));
    assert!(!needs_signature(&Err("x".to_string())));
    assert!(!needs_signature(&Ok(Some(part(0x1000, &[1], 0)))));
    let e = import_crunched_with(Ok(None), Some("Exomizer".to_string())).err().unwrap();
    assert_eq!(e, "recognized as \"Exomizer\" but the depacker did not finish.");
    let e = import_crunched_with(Ok(None), None).err().unwrap();
    assert_eq!(
        e,
        "not recognized as a crunched file (or its BASIC entry line could not be parsed)."
    );
    let e = import_crunched_with(Err("bad".to_string()), None).err().unwrap();
    assert_eq!(e, "bad");
}

#[test]
fn only_a_different_program_is_a_deeper_layer() {
    let outer = prg(0x1000, &[1, 2]);
    assert!(probe_deeper_layer(&outer, Ok(Some(part(0x1000, &[1, 2], 0)))).is_none());
    let deeper = probe_deeper_layer(&outer, Ok(Some(part(0x1000, &[1, 3], 0)))).unwrap();
    assert_eq!(deeper.prg, prg(0x1000, &[1, 3]));
    assert!(probe_deeper_layer(&outer, Ok(None)).is_none());
    assert!(probe_deeper_layer(&outer, Err("x".to_string())).is_none());
}

// -- the workspace ------------------------------------------------------------

#[test]
fn adding_files_is_logged() {
    let mut w = Workshop::new();
    w.add_prg("a.prg", &Ok(prg(0xC000, &[0x60; 4])));
    assert_eq!(w.log[0].kind, LogKind::Good);
    assert_eq!(w.log[0].text, "Added a.prg: $C000-$C003 (4 B)");
    assert_eq!(last(&w), (LogKind::Info, "Start address: $C000"));
    assert_eq!(w.settings.start_text, "$C000");
    assert_eq!(input_len(&w.image), 6);
    // A later, lower file moves an automatic start.
    w.add_prg("b.prg", &Ok(prg(0x1000, &[1])));
    assert_eq!(w.settings.start_text, "$1000");
    assert_eq!(last(&w), (LogKind::Good, "Added b.prg: $1000-$1000 (1 B)"));
    w.add_prg("c.prg", &Ok(vec![1]));
    let text = "c.prg: too short to be a .prg (2-byte load address + data).";
    assert_eq!(w.load_error.as_deref(), Some(text));
    assert_eq!(w.log.last().unwrap().text, format!("c.prg: {text}"));
    assert_eq!(w.image.regions().len(), 2);
    w.add_prg("d.prg", &Err("gone".to_string()));
    assert_eq!(last(&w), (LogKind::Error, "d.prg: could not read the file: gone"));
}

#[test]
fn imports_can_be_peeled() {
    let mut w = Workshop::new();
    w.begin_import(1);
    assert_eq!(last(&w), (LogKind::Info, "Importing 1 crunched file(s)…"));
    let level = w.apply_import("g.prg", &part(0xC000, &[1, 2, 3], 0xC001)).unwrap();
    assert_eq!(level, Level { region_idx: 0, load: 0xC000, len: 3, depth: 1 });
    assert_eq!(w.import_notes, vec!["g.prg: RLE unpacked to $C000-$C002 (3 B)"]);
    assert_eq!(w.image.regions()[0].name, "g.prg (RLE)");
    assert_eq!(w.settings.start_text, "$C001");
    w.offer_found("RLE");
    let next = w.accept_deeper("g.prg", level, &part(0x4000, &[9, 9], 0x4000)).unwrap();
    assert_eq!(next, Level { region_idx: 0, load: 0x4000, len: 2, depth: 2 });
    assert_eq!(w.image.regions().len(), 1, "the shallower level went");
    assert_eq!(w.image.regions()[0].name, "g.prg (level 2 · RLE)");
    assert_eq!(w.import_hint, Some(0x4000));
    // A region list that changed keeps its regions.
    let stale = Level { len: 7, ..next };
    w.accept_deeper("g.prg", stale, &part(0x5000, &[1], 0x5000)).unwrap();
    assert_eq!(w.image.regions().len(), 2);
    assert!(w.apply_import("bad", &ImportedPart { prg: vec![], ..part(1, &[1], 1) }).is_none());
    assert!(w.load_error.is_some());
    w.import_failed("second".to_string());
    assert!(w.load_error.as_ref().unwrap().ends_with("\nsecond"));
    w.kept_level(2);
    assert_eq!(last(&w), (LogKind::Muted, "Kept level 2."));
    // Removing forgets the jump.
    w.remove_region(0);
    assert_eq!(w.import_hint, None);
    assert!(w.import_notes.is_empty());
    assert_eq!(last(&w), (LogKind::Info, "Removed a region."));
}

#[test]
fn regions_are_edited_and_logged() {
    let mut w = Workshop::new();
    w.add_prg("a.prg", &Ok(prg(0x1000, &[1, 2, 3, 4])));
    w.begin_edit(0);
    assert_eq!((w.edit_start_text.as_str(), w.edit_end_text.as_str()), ("$1000", "$1003"));
    w.apply_region_resize(0, 0x1001, 0x1006);
    assert_eq!(
        last(&w),
        (LogKind::Good, "Resized a.prg: $1000-$1003 → $1001-$1005 (5 B)")
    );
    assert_eq!(w.editing_region, None);
    assert_eq!(w.settings.start_text, "$1001");
    w.apply_region_resize(0, 0x1001, 0x1001);
    assert_eq!(
        last(&w),
        (LogKind::Error, "Resize failed: the end address must be at or after the start")
    );
    let old = w.image.full_buffer();
    let mut new = old.clone();
    new[0x1001] = 7;
    new[0x0F00] = 8;
    w.apply_memory_edits(&old, &new);
    assert_eq!(w.image.full_buffer(), new);
    assert_eq!(w.image.regions().len(), 2);
    assert_eq!(w.settings.start_text, "$0F00");
    w.clear_workspace();
    assert!(w.image.is_empty());
    assert_eq!(last(&w), (LogKind::Head, "— Workspace cleared (2 file(s) removed) —"));
    assert_eq!(w.settings.start_text, "");
}

#[test]
fn a_crunch_owns_the_status() {
    let mut w = Workshop::new();
    assert!(w.begin_crunch("ZX0").is_none());
    assert!(w.log.is_empty());
    w.add_prg("a.prg", &Ok(prg(0xC000, &[0x60; 4])));
    let idle = Activity { importing: false, comparing: false, exporting: false, probing: false };
    assert!(w.can_crunch(&idle, true) && !w.can_crunch(&idle, false));
    let job = w.begin_crunch("ZX0").unwrap();
    assert_eq!(job.start_addr, 0xC000);
    assert_eq!(last(&w), (LogKind::Info, "Crunching with ZX0…"));
    assert!(w.busy(&idle) && !w.can_crunch(&idle, true));
    w.remove_region(0);
    assert!(matches!(w.status, Status::Working), "a running crunch keeps its status");
    w.finish_crunch(Err("no room".to_string()));
    assert_eq!(last(&w), (LogKind::Error, "Crunch failed: no room"));
    assert!(matches!(&w.status, Status::Failed(e) if e == "no room"));
    assert!(!w.busy(&idle));
    assert!(w.busy(&Activity { probing: true, ..idle }));
    w.add_prg("a.prg", &Ok(prg(0xC000, &[0x60; 4])));
    w.settings.margin_text = "x".to_string();
    assert!(w.begin_crunch("ZX0").is_none());
    assert_eq!(last(&w), (LogKind::Error, "Invalid margin: x"));
    assert!(w.begin_export().is_none());
    w.settings.margin_text = "32".to_string();
    assert!(w.begin_export().is_some());
    w.export_started("ZX0");
    assert_eq!(last(&w), (LogKind::Info, "Exporting ZX0 compressed stream…"));
    w.finish_export(&Ok(("s.bin".to_string(), 12)));
    assert_eq!(last(&w), (LogKind::Good, "Exported 12 B compressed stream → s.bin"));
    w.finish_export(&Err("full".to_string()));
    assert_eq!(last(&w), (LogKind::Error, "Stream export failed: full"));
    w.finish_uncompressed("u.prg", &Ok(()));
    assert_eq!(
        last(&w),
        (LogKind::Good, "exported uncompressed $C000-$C003 (4 B) to u.prg")
    );
    w.finish_uncompressed("u.prg", &Err("full".to_string()));
    assert_eq!(last(&w), (LogKind::Error, "Could not write u.prg: full"));
    assert_eq!(
        crash_message("zx0", "index"),
        "Compression crashed internally in \"zx0\": index. Try a different cruncher."
    );
}

fn result() -> SfxResult {
    SfxResult {
        prg: vec![0; 300],
        direction: Direction::Backward,
        stream_len: 200,
        packed_at: 0x07E1,
        decruncher_at: 0x0100,
        scratch: Some((0x0334, 156)),
        mover_at: None,
        mover_folded: true,
        span: (0x0801, 0x1001),
        warnings: vec!["w1".to_string()],
        decoder_tailored: true,
        decoder_saved: 9,
        decoder_bytes: 90,
        stream: vec![0; 200],
        payload_moved: true,
    }
}

fn report(r: SfxResult, input_len: usize) -> Report {
    report_of(
        r,
        input_len,
        "o.prg".to_string(),
        "ZX0".to_string(),
        "15.0".to_string(),
        "9.5/10".to_string(),
    )
}

#[test]
fn reports_show_what_was_built() {
    let r = report(result(), 2000);
    assert_eq!(
        r.line(),
        "ZX0: 2000 → 300 B (15.0%, saved 1700 B); stream 200 B, decoder 90 B (tailored, −9 B), \
         unpacking speed 9.5/10, backward"
    );
    assert_eq!(r.size(), "300 bytes  (15.0 %, 1700 saved)");
    assert_eq!(r.span_range(), "$0801-$1000");
    assert_eq!(r.unpacking(), "backward, packed data @ $07E1 (200 B)");
    assert_eq!(r.routine(), "$0100  (90 B code, tailored −9 B, unpacking speed 9.5/10)");
    assert_eq!(r.buffer(), "$0334 (156 B)");
    assert_eq!(r.mover(), "folded into the decoder blob");
    let r = report(
        SfxResult {
            decoder_tailored: false,
            decoder_saved: 0,
            scratch: None,
            mover_folded: false,
            ..result()
        },
        100,
    );
    assert_eq!(r.size(), "300 bytes  (15.0 %, -200 saved)");
    assert_eq!(r.routine(), "$0100  (90 B code, unpacking speed 9.5/10)");
    assert_eq!(r.buffer(), "not needed");
    assert_eq!(r.mover(), "inline (from the main program)");
    let r = report(SfxResult { mover_at: Some(0x02A7), ..result() }, 100);
    assert_eq!(r.mover(), "$02A7");
    let r = report(SfxResult { payload_moved: false, ..result() }, 100);
    assert_eq!(r.mover(), "not needed — payload read in place");
    let mut w = Workshop::new();
    w.finish_crunch(Ok(r));
    assert_eq!(last(&w), (LogKind::Warn, "w1"));
    assert!(matches!(w.status, Status::Done(_)));
}

fn plan(at: u16, staged: u32, scratch: Option<(u16, u16)>) -> PlanPreview {
    PlanPreview {
        direction: Direction::Forward,
        staged_size: staged,
        decruncher_at: Some(at),
        mover_at: 0x02A7,
        scratch,
        unavailable: None,
    }
}

#[test]
fn plans_are_shown_in_rows() {
    let rows = plan_lines(&plan(0x0400, 300, Some((0x0334, 156))), true);
    assert_eq!(rows[0].1, "forward unpacking, packed data moved to $FFFF");
    assert_eq!((rows[1].0, rows[1].1.as_str()), ("Decrunch", "300 B staged @ $0400"));
    assert_eq!((rows[2].0, rows[2].1.as_str()), ("Buffer", "156 B @ $0334"));
    assert_eq!(
        rows[3].1,
        "folded into the decoder blob if the payload move needs to survive"
    );
    let rows = plan_lines(&plan(0x0400, 300, None), false);
    assert_eq!(rows.len(), 3);
    assert_eq!(
        rows[2].1,
        "$02A7 (used only if the payload move needs relocation)"
    );
    assert_eq!(stack_page_warning(&plan(0x0100, 224, None)), None);
    assert_eq!(
        stack_page_warning(&plan(0x0100, 225, None)).unwrap(),
        "⚠ 225 B spills past the $0100-$01DF slot into the stack"
    );
    assert_eq!(stack_page_warning(&plan(0x0400, 225, None)), None);
    let exo = info(Format::Exomizer, 250, Some((156, false)));
    assert!(needs_buffer(None, &exo, true));
    assert!(!needs_buffer(Some(&plan(0x0400, 300, None)), &exo, true));
    assert_eq!(range_text(0x0801, 0x1_0000), "$0801-$FFFF");
}

// -- comparing ----------------------------------------------------------------

fn row(label: &str, total: Option<usize>) -> CompareRow {
    CompareRow {
        label: label.to_string(),
        result: match total {
            Some(total_len) => Ok(CompareData {
                total_len,
                stream_len: 100,
                decoder_bytes: 90,
                direction: Direction::Forward,
                ratio: "15.0".to_string(),
                score: "9.5/10".to_string(),
            }),
            None => Err("no".to_string()),
        },
    }
}

#[test]
fn only_fitting_formats_are_offered() {
    let mut w = Workshop::new();
    let infos = vec![
        info(Format::Shrinkler, 200, Some((0xF000, true))),
        info(Format::Zx0, 150, None),
    ];
    assert_eq!(available_crunchers(&w.image, &w.settings, &infos), vec![0, 1]);
    w.add_prg("a.prg", &Ok(prg(0x0801, &[1; 4096])));
    let avail = cruncher_availability(&w.image, &w.settings, &infos);
    assert!(avail[0].as_ref().unwrap().contains("page-aligned buffer"));
    assert_eq!(avail[1], None);
    assert_eq!(available_crunchers(&w.image, &w.settings, &infos), vec![1]);
    assert_eq!(usable_selection(&avail, 0), 1);
    assert_eq!(usable_selection(&avail, 1), 1);
    assert_eq!(usable_selection(&avail, 9), 9);
    assert_eq!(usable_selection(&vec![Some("x".to_string())], 0), 0);
    assert_eq!(decoder_bytes(&w.image, &w.settings, &infos[1]), Some(166));
    assert_eq!(decoder_bytes(&w.image, &w.settings, &infos[0]), Some(200));
    assert_eq!(
        plan_preview(&w.image, &infos[1], &Placement::default()).unwrap().staged_size,
        166
    );
    assert_eq!(
        cruncher_entry("ZX0", "5.0/10", "7.0/10", Some(166)),
        "ZX0  (packing speed 5.0/10, unpacking speed 7.0/10, decoder 166 B)"
    );
    assert!(cruncher_entry("ZX0", "-", "-", None).ends_with("decoder —)"));
    let job = w.begin_compare(&infos, 4).unwrap();
    assert_eq!((job.formats, job.workers, job.input_len), (vec![1], 1, 4098));
    assert_eq!(
        last(&w),
        (LogKind::Head, "— Compare Crunchers: 1 formats on 1 of 4 cores —")
    );
    assert!(w.begin_compare(&vec![], 4).is_none());
    assert_eq!(
        last(&w),
        (LogKind::Warn, "Compare: no cruncher fits the current layout.")
    );
    w.settings.margin_text = "x".to_string();
    assert!(w.begin_compare(&infos, 4).is_none());
    assert_eq!(last(&w), (LogKind::Error, "Compare: Invalid margin: x"));
}

#[test]
fn workers_leave_room() {
    assert_eq!(compare_workers(12, 15), 8);
    assert_eq!(compare_workers(1, 15), 1);
    assert_eq!(compare_workers(64, 15), 15);
}

#[test]
fn rows_are_ranked_smallest_first() {
    let rows = vec![row("B", Some(20)), row("X", None), row("A", Some(10)), row("C", Some(20))];
    assert_eq!(ranking(&rows), vec![2, 0, 3]);
    let mut w = Workshop::new();
    w.log_compare_row(&rows[0]);
    assert_eq!(
        last(&w),
        (
            LogKind::Info,
            "  B               20 B   15.0%  stream    100 B  decoder  90 B  unpack  9.5/10  forward"
        )
    );
    w.log_compare_row(&rows[1]);
    assert_eq!(
        last(&w),
        (LogKind::Muted, "  X           skipped — does not fit this layout")
    );
    w.log_compare_summary(&rows, "1.5");
    let texts: Vec<&str> = w.log[2..].iter().map(|l| l.text.as_str()).collect();
    assert_eq!(texts[0], "Ranking — smallest total .prg first:");
    assert_eq!(
        texts[1],
        "   1. A               10 B   15.0%  stream    100 B  decoder  90 B  unpack  9.5/10  \
         forward   best"
    );
    assert!(texts[2].ends_with("forward   +10 B"), "{}", texts[2]);
    assert_eq!(texts[4], "Skipped 1 that do not fit this layout: X");
    assert_eq!(texts[5], "Compare finished in 1.5s.");
    assert_eq!(w.log[3].kind, LogKind::Good);
    assert_eq!(w.log[4].kind, LogKind::Info);
}
