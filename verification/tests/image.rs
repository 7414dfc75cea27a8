use lazy_cruncher_workshop::image::MemoryImage;
use lazy_cruncher_workshop::workshop::uncompressed_prg;

fn prg_bytes(load: u16, data: &[u8]) -> Vec<u8> {
    let mut v = vec![(load & 0xFF) as u8, (load >> 8) as u8];
    v.extend_from_slice(data);
    v
}

#[test]
fn image_span_and_zero_gap() {
    let mut img = MemoryImage::default();
    img.add_prg("a.prg", &prg_bytes(0x0801, &[1, 2, 3])).unwrap();
    img.add_prg("b.prg", &prg_bytes(0xC000, &[9, 8])).unwrap();
    assert_eq!(img.span(), Some((0x0801, 0xC002)));
    let (lo, buf) = img.span_buffer().unwrap();
    assert_eq!(lo, 0x0801);
    assert_eq!(buf.len(), 0xC002 - 0x0801);
    assert_eq!(&buf[..3], &[1, 2, 3]);
    assert!(buf[3..buf.len() - 2].iter().all(|&b| b == 0), "gap must be zeroes");
    assert_eq!(&buf[buf.len() - 2..], &[9, 8]);
}

#[test]
fn image_sorted_view_and_remove() {
    let mut img = MemoryImage::default();
    img.add_prg("high.prg", &prg_bytes(0xC000, &[1])).unwrap();
    img.add_prg("low.prg", &prg_bytes(0x0801, &[2])).unwrap();
    let order = img.sorted_indices();
    assert_eq!(img.regions()[order[0]].load, 0x0801);
    img.remove(1); // removes low.prg (insertion index 1)
    assert_eq!(img.span(), Some((0xC000, 0xC001)));
}

#[test]
fn resize_region_trims_grows_and_shifts() {
    let mut img = MemoryImage::default();
    img.add_prg("a.prg", &prg_bytes(0x1000, &[1, 2, 3, 4, 5, 6, 7, 8])).unwrap();
    // Shrink from the front (fix an imprecise load address): drops 1, 2.
    img.resize_region(0, 0x1002, 0x1008).unwrap();
    assert_eq!(img.regions()[0].start(), 0x1002);
    assert_eq!(img.regions()[0].data, vec![3, 4, 5, 6, 7, 8]);
    // Trim trailing bytes.
    img.resize_region(0, 0x1002, 0x1006).unwrap();
    assert_eq!(img.regions()[0].data, vec![3, 4, 5, 6]);
    // Grow right: the new area is zero-filled.
    img.resize_region(0, 0x1002, 0x100A).unwrap();
    assert_eq!(img.regions()[0].data, vec![3, 4, 5, 6, 0, 0, 0, 0]);
    // Grow left: prepends zeros.
    img.resize_region(0, 0x1000, 0x100A).unwrap();
    assert_eq!(img.regions()[0].start(), 0x1000);
    assert_eq!(img.regions()[0].data, vec![0, 0, 3, 4, 5, 6, 0, 0, 0, 0]);
    // A region may end at $FFFF (exclusive $10000); past that is an error.
    assert!(img.resize_region(0, 0xFFFE, 0x1_0000).is_ok());
    assert!(img.resize_region(0, 0x1000, 0x1000).is_err()); // empty
    assert!(img.resize_region(0, 0x1000, 0x1_0001).is_err()); // above $FFFF
}

#[test]
fn apply_edits_writes_regions_and_creates_patches() {
    let mut img = MemoryImage::default();
    img.add_prg("a.prg", &prg_bytes(0x1000, &[1, 2, 3, 4])).unwrap();
    img.add_prg("b.prg", &prg_bytes(0x1008, &[9, 9])).unwrap();
    let old = img.full_buffer();
    assert_eq!(&old[0x1000..0x100A], &[1, 2, 3, 4, 0, 0, 0, 0, 9, 9]);

    let mut new = old.clone();
    new[0x1001] = 0xAA; // inside a.prg
    new[0x1002] = 0xBB; // inside a.prg (same run)
    new[0x1005] = 0xCC; // gap between the regions -> new region
    new[0x2000] = 0xDD; // far outside everything -> new region
    let log = img.apply_edits(&old, &new);

    assert_eq!(img.regions()[0].data, vec![1, 0xAA, 0xBB, 4]);
    assert_eq!(img.regions().len(), 4);
    assert_eq!(img.regions()[2].start(), 0x1005);
    assert_eq!(img.regions()[2].data, vec![0xCC]);
    assert_eq!(img.regions()[3].start(), 0x2000);
    assert_eq!(img.full_buffer(), new, "edits must round-trip");
    assert_eq!(log.len(), 3);
    assert_eq!(log[0], "Edited $1001-$1002 (2 B) in a.prg");
    assert_eq!(log[1], "New region edit @ $1005 ($1005-$1005, 1 B)");

    // A run crossing a region edge splits: in-region part edits the
    // region, the rest becomes a patch region.
    let old = img.full_buffer();
    let mut new = old.clone();
    new[0x1002..0x1007].fill(0x77);
    img.apply_edits(&old, &new);
    assert_eq!(img.full_buffer(), new, "boundary-crossing edits must round-trip");
    assert_eq!(img.regions()[0].data, vec![1, 0xAA, 0x77, 0x77]);

    // Overlapping regions: the byte goes to the LAST painted (visible) one.
    let mut img = MemoryImage::default();
    img.add_prg("under.prg", &prg_bytes(0x1000, &[1, 1, 1, 1])).unwrap();
    img.add_prg("over.prg", &prg_bytes(0x1001, &[2, 2])).unwrap();
    let old = img.full_buffer();
    let mut new = old.clone();
    new[0x1001] = 0xEE;
    img.apply_edits(&old, &new);
    assert_eq!(img.regions()[0].data, vec![1, 1, 1, 1], "hidden region untouched");
    assert_eq!(img.regions()[1].data, vec![0xEE, 2]);
    assert_eq!(img.full_buffer(), new);
}

#[test]
fn files_that_are_no_programs_are_refused() {
    let mut img = MemoryImage::default();
    assert_eq!(
        img.add_prg("x.prg", &[1, 8]).unwrap_err(),
        "x.prg: too short to be a .prg (2-byte load address + data)."
    );
    assert_eq!(
        img.add_prg("x.prg", &prg_bytes(0xFFFF, &[1, 2])).unwrap_err(),
        "x.prg: loads at $FFFF with 2 bytes — crosses $FFFF."
    );
    assert!(img.is_empty());
    assert_eq!(img.span(), None);
    assert!(img.span_buffer().is_none());
    // The last address may be used.
    img.add_prg("x.prg", &prg_bytes(0xFFFF, &[1])).unwrap();
    assert_eq!(img.span(), Some((0xFFFF, 0x1_0000)));
}

#[test]
fn resizing_refuses_with_a_reason() {
    let mut img = MemoryImage::default();
    img.add_prg("a.prg", &prg_bytes(0x1000, &[1, 2])).unwrap();
    assert_eq!(
        img.resize_region(0, 0x1000, 0x0FFF).unwrap_err(),
        "the end address must be at or after the start"
    );
    assert_eq!(
        img.resize_region(0, 0x1000, 0x1_0001).unwrap_err(),
        "the end address is above $FFFF"
    );
    assert_eq!(img.resize_region(1, 0x1000, 0x1001).unwrap_err(), "no such region");
    assert_eq!(img.regions()[0].data, vec![1, 2]);
}

#[test]
fn later_regions_hide_earlier_ones() {
    let mut img = MemoryImage::default();
    img.add_prg("a.prg", &prg_bytes(0x1000, &[1, 1, 1])).unwrap();
    img.add_prg("b.prg", &prg_bytes(0x1001, &[2])).unwrap();
    assert_eq!(img.overlap_pairs(), vec![(0, 1)]);
    assert_eq!(img.span_buffer().unwrap().1, vec![1, 2, 1]);
    img.remove(7); // no such region
    img.remove(1);
    assert_eq!(img.span_buffer().unwrap().1, vec![1, 1, 1]);
    assert!(img.overlap_pairs().is_empty());
}

#[test]
fn equal_ranges_keep_their_order() {
    let mut img = MemoryImage::default();
    img.add_prg("a.prg", &prg_bytes(0x2000, &[1, 1])).unwrap();
    img.add_prg("b.prg", &prg_bytes(0x1000, &[1, 1])).unwrap();
    img.add_prg("c.prg", &prg_bytes(0x2000, &[1])).unwrap();
    img.add_prg("d.prg", &prg_bytes(0x2000, &[1, 1])).unwrap();
    assert_eq!(img.sorted_indices(), vec![1, 2, 0, 3]);
}

#[test]
fn unchanged_buffers_change_nothing() {
    let mut img = MemoryImage::default();
    img.add_prg("a.prg", &prg_bytes(0x1000, &[1, 2])).unwrap();
    let buf = img.full_buffer();
    assert!(img.apply_edits(&buf, &buf).is_empty());
    assert_eq!(img.regions().len(), 1);
}

#[test]
fn uncompressed_exports_load_back() {
    let mut img = MemoryImage::default();
    assert!(uncompressed_prg(&img).is_none());
    img.add_prg("a.prg", &prg_bytes(0x1000, &[1, 2])).unwrap();
    img.add_prg("b.prg", &prg_bytes(0x1004, &[3])).unwrap();
    let prg = uncompressed_prg(&img).unwrap();
    assert_eq!(prg, vec![0x00, 0x10, 1, 2, 0, 0, 3]);
    let mut again = MemoryImage::default();
    again.add_prg("again.prg", &prg).unwrap();
    assert_eq!(again.full_buffer(), img.full_buffer());
}
