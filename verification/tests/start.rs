use lazy_cruncher_workshop::address::{parse_addr, parse_region_range};
use lazy_cruncher_workshop::basic::{detect_sys_start, looks_like_basic};
use lazy_cruncher_workshop::image::MemoryImage;
use lazy_cruncher_workshop::placement::{DirectionChoice, Placement, TailoringChoice};
use lazy_cruncher_workshop::settings::Settings;
use lazy_cruncher_workshop::start::{
    basic_end_default, default_start, detect_start_kind, StartKind,
};

fn image(load: u16, data: &[u8]) -> MemoryImage {
    let mut v = vec![(load & 0xFF) as u8, (load >> 8) as u8];
    v.extend_from_slice(data);
    let mut img = MemoryImage::default();
    img.add_prg("a.prg", &v).unwrap();
    img
}

const STUB: [u8; 12] = [
    0x0B, 0x08, 0x0A, 0x00, 0x9E, 0x32, 0x30, 0x36, 0x31, 0x00, 0x00, 0x00,
];
const LISTING: [u8; 8] = [0x07, 0x08, 0x0A, 0x00, 0x99, 0x00, 0x00, 0x00];

#[test]
fn detect_sys_start_parses_exploding_style_stub() {
    // 0 SYS2061 stub: next-line ptr, line 0, $9E, "2061", EOL, end.
    let stub = [
        0x0B, 0x08, 0x0A, 0x00, 0x9E, 0x32, 0x30, 0x36, 0x31, 0x00, 0x00, 0x00,
    ];
    assert_eq!(detect_sys_start(0x0801, &stub), Some(0x080D));
    assert_eq!(detect_sys_start(0x1000, &stub), None);
    assert_eq!(detect_sys_start(0x0801, &[0; 12]), None);
}

#[test]
fn detect_sys_start_tolerates_a_statement_before_sys() {
    // 1 POKE1,1:SYS2061 — SYS is not the first token on the line, and a
    // second line with its own $9E must not be picked up instead.
    let mut stub = vec![0x00, 0x00, 0x01, 0x00]; // next-line ptr (patched below), line 1
    stub.extend_from_slice(b"POKE1,1:");
    stub.push(0x9E); // SYS
    stub.extend_from_slice(b"2061");
    stub.push(0x00); // end of line 1
    let line1_len = stub.len() as u16;
    stub[0] = (0x0801 + line1_len) as u8;
    stub[1] = ((0x0801 + line1_len) >> 8) as u8;
    // A second line whose own SYS token must be ignored.
    stub.extend_from_slice(&[0x00, 0x00, 0x02, 0x00, 0x9E, b'1', 0x00]);
    assert_eq!(detect_sys_start(0x0801, &stub), Some(0x080D));
}

#[test]
fn sys_numbers_are_bounded_and_may_be_padded() {
    let line = |text: &[u8]| {
        let mut v = vec![0x20, 0x08, 0x00, 0x00];
        v.extend_from_slice(text);
        v.push(0);
        v
    };
    assert_eq!(detect_sys_start(0x0801, &line(b"\x9E 4096")), Some(4096));
    assert_eq!(detect_sys_start(0x0801, &line(b"\x9E(2064)")), Some(2064));
    assert_eq!(detect_sys_start(0x0801, &line(b"\x9E\xA065535")), Some(65535));
    assert_eq!(detect_sys_start(0x0801, &line(b"\x9E65536")), None);
    assert_eq!(detect_sys_start(0x0801, &line(b"\x9E99999999999")), None);
    assert_eq!(detect_sys_start(0x0801, &line(b"\x9E0")), None);
    assert_eq!(detect_sys_start(0x0801, &line(b"\x9EPI")), None);
    assert_eq!(detect_sys_start(0x0801, &line(b"\x99")), None);
    // No terminator, no line.
    assert_eq!(detect_sys_start(0x0801, &[1, 8, 1, 1, 0x9E, 0x31]), None);
}

#[test]
fn looks_like_basic_recognizes_line_structure() {
    // 10 <PRINT>: link → $0807 (the end marker), line 10, token $99, $00,
    // then the $0000 end-of-program. The forward link lands on the line's
    // $00 terminator, so this is BASIC.
    let prog = [0x07, 0x08, 0x0A, 0x00, 0x99, 0x00, 0x00, 0x00];
    assert!(looks_like_basic(0x0801, &prog));
    // Same bytes anywhere but $0801 are not a BASIC start segment.
    assert!(!looks_like_basic(0xC000, &prog));
    // Raw machine code (SEI; LDA #$37; STA $01; JMP $1000): the "link" points
    // far outside the block.
    let ml = [0x78, 0xA9, 0x37, 0x85, 0x01, 0x4C, 0x00, 0x10];
    assert!(!looks_like_basic(0x0801, &ml));
    // Too short to be a line.
    assert!(!looks_like_basic(0x0801, &[0x00, 0x00]));
}

#[test]
fn links_lead_to_the_first_lines_own_terminator() {
    let with_link = |link: u8| [link, 0x08, 0x0A, 0x00, 0x99, 0x00, 0x99, 0x00, 0x00, 0x00];
    // Into the line header, into the body, and past the first terminator.
    assert!(!looks_like_basic(0x0801, &with_link(0x05)));
    assert!(!looks_like_basic(0x0801, &with_link(0x06)));
    assert!(!looks_like_basic(0x0801, &with_link(0x09)));
    assert!(looks_like_basic(0x0801, &with_link(0x07)));
    // Nothing behind the terminator.
    assert!(!looks_like_basic(0x0801, &[0x07, 0x08, 0x0A, 0x00, 0x99, 0x00]));
}

#[test]
fn parse_addr_accepts_the_usual_forms() {
    assert_eq!(parse_addr("$C000").unwrap(), 0xC000);
    assert_eq!(parse_addr("0x1000").unwrap(), 0x1000);
    assert_eq!(parse_addr("c000").unwrap(), 0xC000);
    assert_eq!(parse_addr("2049").unwrap(), 2049);
    assert!(parse_addr("$1FFFF").is_err());
    assert!(parse_addr("").is_err());
}

#[test]
fn parse_addr_explains_what_is_wrong() {
    assert_eq!(parse_addr(" \t\u{2003}").unwrap_err(), "empty address");
    assert_eq!(parse_addr(" zebra ").unwrap_err(), "invalid address: zebra");
    assert_eq!(parse_addr("$").unwrap_err(), "invalid address: $");
    assert_eq!(parse_addr("$-1").unwrap_err(), "invalid address: $-1");
    assert_eq!(parse_addr("$1FFFF").unwrap_err(), "address $1FFFF is above $FFFF");
    assert_eq!(parse_addr("65536").unwrap_err(), "address $10000 is above $FFFF");
    assert_eq!(
        parse_addr("99999999999").unwrap_err(),
        "invalid address: 99999999999"
    );
    assert_eq!(parse_addr("  0XfF\n").unwrap(), 0xFF);
    assert_eq!(parse_addr("$+10").unwrap(), 0x10);
    assert_eq!(parse_addr("10").unwrap(), 10);
    assert_eq!(parse_addr("1a").unwrap(), 0x1A);
}

#[test]
fn ranges_name_the_last_byte() {
    assert_eq!(parse_region_range("$0801", "$0802").unwrap(), (0x0801, 0x0803));
    assert_eq!(parse_region_range("$FFFF", "$FFFF").unwrap(), (0xFFFF, 0x1_0000));
    assert_eq!(parse_region_range("", "$1").unwrap_err(), "start: empty address");
    assert_eq!(parse_region_range("1", "").unwrap_err(), "end: empty address");
    assert_eq!(parse_region_range("$10", "$0F").unwrap_err(), "end is before start");
}

#[test]
fn starts_are_found_in_order() {
    let sys = image(0x0801, &STUB);
    assert_eq!(default_start(&sys, Some(0x0803)), Some(0x080D));
    assert_eq!(detect_start_kind(&sys, None), StartKind::Sys(0x080D));
    let basic = image(0x0801, &LISTING);
    assert_eq!(detect_start_kind(&basic, None), StartKind::Basic);
    assert_eq!(default_start(&basic, None), Some(0x0801));
    let code = image(0xC000, &[0x60; 16]);
    assert_eq!(detect_start_kind(&code, None), StartKind::Address(0xC000));
    assert_eq!(detect_start_kind(&code, Some(0xC005)), StartKind::Address(0xC005));
    // A jump that points outside the image no longer counts.
    assert_eq!(default_start(&code, Some(0xC010)), Some(0xC000));
    let none = MemoryImage::default();
    assert_eq!(default_start(&none, Some(1)), None);
    assert_eq!(detect_start_kind(&none, None), StartKind::Address(0x0801));
}

#[test]
fn basic_end_is_a_valid_pointer_or_nothing() {
    assert_eq!(basic_end_default(&image(0x0801, &LISTING)), Some(0x0809));
    assert_eq!(basic_end_default(&image(0x1000, &LISTING)), None);
    assert_eq!(basic_end_default(&image(0x0801, &vec![1; 0xF7FF])), None);
}

#[test]
fn fresh_fields_ask_for_the_defaults() {
    let s = Settings::default();
    assert_eq!(s.mover_text, "$02A7");
    assert_eq!(s.margin_text, "32");
    assert_eq!(s.bank_text, "$30");
    let p = s.placement().unwrap();
    let d = Placement::default();
    assert_eq!(format!("{p:?}"), format!("{d:?}"));
    assert_eq!(d.direction, DirectionChoice::default());
    assert_eq!(d.tailoring, TailoringChoice::default());
}

#[test]
fn every_field_can_be_wrong() {
    let wrong = |change: fn(&mut Settings)| {
        let mut s = Settings::default();
        change(&mut s);
        s.placement().unwrap_err()
    };
    assert_eq!(
        wrong(|s| {
            s.decr_auto = false;
            s.decr_text = "q".to_string();
        }),
        "Decrunch address: invalid address: q"
    );
    assert_eq!(
        wrong(|s| {
            s.mover_auto = false;
            s.mover_text = String::new();
        }),
        "Mover address: empty address"
    );
    assert_eq!(
        wrong(|s| {
            s.scratch_auto = false;
            s.scratch_text = "$10000".to_string();
        }),
        "Buffer address: address $10000 is above $FFFF"
    );
    assert_eq!(wrong(|s| s.margin_text = "many".to_string()), "Invalid margin: many");
    assert_eq!(wrong(|s| s.clearance_text = "?".to_string()), "Invalid clearance: ?");
    assert_eq!(wrong(|s| s.bank_text = "?".to_string()), "$01 value: invalid address: ?");
    assert_eq!(
        wrong(|s| s.bank_text = "$100".to_string()),
        "$01 value: $100 is not a single byte (max $FF)"
    );
    assert_eq!(
        wrong(|s| s.restore_2d2e = true),
        "Restore $2D/$2E: empty address"
    );
}

#[test]
fn running_as_basic_takes_over_and_gives_back() {
    let img = image(0x0801, &LISTING);
    let mut s = Settings::default();
    let line = s.detect_and_apply_start(&img, None);
    assert_eq!(
        line,
        "BASIC program detected — Force basic run on ($01=#$37, CLI, JMP $A7AE)"
    );
    assert!(s.run_basic && s.restore_2d2e);
    assert_eq!(s.restore_2d2e_text, "$0809");
    let p = s.placement().unwrap();
    assert_eq!((p.bank_at_jmp, p.cli_before_jmp, p.basic_clr), (0x37, true, true));
    assert_eq!(p.restore_basic_end, Some(0x0809));
    assert_eq!(s.resolved_start(&img, None).unwrap(), 0xA7AE);
    // Switching on again does not touch later edits.
    s.bank_text = "$36".to_string();
    s.set_basic_run(&img, None, true);
    assert_eq!(s.bank_text, "$36");
    s.restore_2d2e = false;
    s.drop_run_without_restore(&img, None);
    assert!(!s.run_basic && s.start_auto && !s.cli_before_jmp);
    assert_eq!(s.bank_text, "$30");
    assert_eq!(s.start_text, "$0801");
    assert_eq!(s.resolved_start(&img, None).unwrap(), 0x0801);
}

#[test]
fn typed_starts_are_used() {
    let img = image(0xC000, &[0x60; 4]);
    let mut s = Settings::default();
    assert_eq!(s.detect_and_apply_start(&img, Some(0xC002)), "Start address: $C002");
    assert_eq!(s.start_text, "$C002");
    s.start_auto = false;
    s.start_text = "$1234".to_string();
    assert_eq!(s.resolved_start(&img, None).unwrap(), 0x1234);
    s.start_text = "?".to_string();
    assert_eq!(
        s.resolved_start(&img, None).unwrap_err(),
        "Start address: invalid address: ?"
    );
    // An empty image has no automatic start.
    s.start_auto = true;
    assert!(s.resolved_start(&MemoryImage::default(), None).is_err());
    let stub = image(0x0801, &STUB);
    assert_eq!(
        s.detect_and_apply_start(&stub, None),
        "Start address from BASIC SYS: $080D"
    );
}

#[test]
fn basic_end_is_tracked_until_it_is_edited() {
    let img = image(0x0801, &LISTING);
    let mut s = Settings::default();
    s.track_basic_end(&img);
    assert_eq!(s.restore_2d2e_text, "$0809");
    s.restore_2d2e_auto = false;
    s.restore_2d2e_text = "$1000".to_string();
    s.track_basic_end(&img);
    assert_eq!(s.restore_2d2e_text, "$1000");
}
