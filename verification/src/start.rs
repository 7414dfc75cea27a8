//! Where the unpacked program starts.
use vstd::prelude::*;

use crate::address::parse_addr;
use crate::basic::{detect_sys_start, looks_like_basic, BASIC_START};
#[allow(unused_imports)]
use crate::basic::{basic_shape, sys_start};
use crate::image::MemoryImage;
#[allow(unused_imports)]
use crate::image::{models, span_of, RegionModel};
use crate::placement::{INIT_BANK, RUN_BASIC_BANK, RUN_BASIC_LOOP};
#[allow(unused_imports)]
use crate::plan::says;
use crate::settings::{address_field, byte_field, Settings};
#[allow(unused_imports)]
use crate::settings::{address_text, byte_text, labelled, SettingsModel};
use crate::text::{push_hex2, push_hex4};
#[allow(unused_imports)]
use crate::text::{hex2, hex4};

verus! {

/// What the loaded program's entry looks like.
#[derive(Clone, Copy, PartialEq, Eq, Structural, Debug)]
pub enum StartKind {
    /// Machine code launched by a `SYS <addr>` BASIC stub.
    Sys(u16),
    /// A runnable BASIC program at `$0801`.
    Basic,
    /// Plain machine code: the depacker's jump target, or the load address.
    Address(u16),
}

/// The first region from `i` on that loads at `$0801`.
pub open spec fn basic_region(regs: Seq<RegionModel>, i: int) -> Option<int>
    decreases regs.len() - i,
{
    if i >= regs.len() {
        None
    } else if regs[i].load == BASIC_START {
        Some(i)
    } else {
        basic_region(regs, i + 1)
    }
}

/// The `SYS` target of the region at `$0801`.
pub open spec fn sys_entry(regs: Seq<RegionModel>) -> Option<u16> {
    match basic_region(regs, 0) {
        Some(i) => sys_start(BASIC_START, regs[i].data),
        None => None,
    }
}

/// Whether the region at `$0801` looks like a BASIC program.
pub open spec fn basic_entry(regs: Seq<RegionModel>) -> bool {
    basic_region(regs, 0) matches Some(i) && basic_shape(BASIC_START, regs[i].data)
}

/// The entry that the last imported file's depacker jumped to, while it still
/// points into the image, else the lowest load address.
pub open spec fn code_entry(regs: Seq<RegionModel>, hint: Option<u16>) -> Option<u16> {
    match span_of(regs) {
        None => None,
        Some((lo, hi)) => match hint {
            Some(jump) if lo <= jump < hi => Some(jump),
            _ => Some(lo as u16),
        },
    }
}

/// The default start: the `SYS` target of the region at `$0801`, else the code
/// entry.
pub open spec fn start_default(regs: Seq<RegionModel>, hint: Option<u16>) -> Option<u16> {
    match sys_entry(regs) {
        Some(sys) => Some(sys),
        None => code_entry(regs, hint),
    }
}

/// What kind of start the image has.
pub open spec fn start_kind(regs: Seq<RegionModel>, hint: Option<u16>) -> StartKind {
    match sys_entry(regs) {
        Some(sys) => StartKind::Sys(sys),
        None => if basic_entry(regs) {
            StartKind::Basic
        } else {
            match code_entry(regs, hint) {
                Some(a) => StartKind::Address(a),
                None => StartKind::Address(BASIC_START),
            }
        },
    }
}

/// The end of the BASIC program at `$0801`, if it is a valid pointer.
pub open spec fn basic_end(regs: Seq<RegionModel>) -> Option<u16> {
    match basic_region(regs, 0) {
        Some(i) => if regs[i].end() <= 0xFFFF {
            Some(regs[i].end() as u16)
        } else {
            None
        },
        None => None,
    }
}

/// Finds the first region that loads at `$0801`.
fn find_basic(image: &MemoryImage) -> (r: Option<usize>)
    ensures
        match (r, basic_region(image@, 0)) {
            (Some(i), Some(j)) => i == j && i < image@.len(),
            (None, None) => true,
            _ => false,
        },
{
    let regions = image.regions();
    let mut i: usize = 0;
    assert(models(regions@).len() == regions@.len());
    while i < regions.len()
        invariant
            i <= regions@.len(),
            models(regions@) == image@,
            basic_region(image@, i as int) == basic_region(image@, 0),
        decreases regions.len() - i,
    {
        assert(models(regions@)[i as int] == regions@[i as int]@);
        if regions[i].load == BASIC_START {
            return Some(i);
        }
        i += 1;
    }
    None
}

/// The code entry of the image.
fn find_code_entry(image: &MemoryImage, hint: Option<u16>) -> (r: Option<u16>)
    requires
        image.wf(),
    ensures
        r == code_entry(image@, hint),
{
    match image.span() {
        None => None,
        Some((lo, hi)) => match hint {
            Some(jump) => {
                if jump as u32 >= lo && (jump as u32) < hi {
                    Some(jump)
                } else {
                    Some(lo as u16)
                }
            },
            None => Some(lo as u16),
        },
    }
}

/// Default start: the detected `SYS` target of the region at `$0801`, else the
/// entry the last imported file's depacker jumped to (when it still points into
/// the image), else the lowest region's load address.
pub fn default_start(image: &MemoryImage, hint: Option<u16>) -> (r: Option<u16>)
    requires
        image.wf(),
    ensures
        r == start_default(image@, hint),
{
    if let Some(i) = find_basic(image) {
        let regions = image.regions();
        assert(models(regions@)[i as int] == regions@[i as int]@);
        let sys = detect_sys_start(BASIC_START, regions[i].data.as_slice());
        if sys.is_some() {
            return sys;
        }
    }
    find_code_entry(image, hint)
}

/// Classifies the loaded program to pick a start address: a `SYS` stub, a
/// runnable BASIC program, or plain machine code.
pub fn detect_start_kind(image: &MemoryImage, hint: Option<u16>) -> (r: StartKind)
    requires
        image.wf(),
    ensures
        r == start_kind(image@, hint),
{
    if let Some(i) = find_basic(image) {
        let regions = image.regions();
        assert(models(regions@)[i as int] == regions@[i as int]@);
        if let Some(sys) = detect_sys_start(BASIC_START, regions[i].data.as_slice()) {
            return StartKind::Sys(sys);
        }
        if looks_like_basic(BASIC_START, regions[i].data.as_slice()) {
            return StartKind::Basic;
        }
    }
    match find_code_entry(image, hint) {
        Some(a) => StartKind::Address(a),
        None => StartKind::Address(BASIC_START),
    }
}

/// End address (`$2D/$2E`, VARTAB) of the BASIC segment loaded at `$0801`. A
/// program filling to `$FFFF` ends at `$10000`, which is not a valid VARTAB, so
/// such a region yields no default.
pub fn basic_end_default(image: &MemoryImage) -> (r: Option<u16>)
    requires
        image.wf(),
    ensures
        r == basic_end(image@),
{
    match find_basic(image) {
        None => None,
        Some(i) => {
            let regions = image.regions();
            assert(models(regions@)[i as int] == regions@[i as int]@);
            assert(image@[i as int].wf());
            let end = regions[i].end();
            if end <= 0xFFFF {
                Some(end as u16)
            } else {
                None
            }
        },
    }
}

/// The settings with an automatic start field brought up to date.
pub open spec fn refreshed(regs: Seq<RegionModel>, hint: Option<u16>, s: SettingsModel) -> SettingsModel {
    match start_default(regs, hint) {
        Some(a) if s.start_auto => SettingsModel { start_text: address_text(a as int), ..s },
        _ => s,
    }
}

/// The settings once running as BASIC is undone.
pub open spec fn without_run(regs: Seq<RegionModel>, hint: Option<u16>, s: SettingsModel) -> SettingsModel {
    let r = refreshed(regs, hint, SettingsModel { start_auto: true, ..s });
    SettingsModel { bank_text: byte_text(INIT_BANK as int), cli_before_jmp: false, ..r }
}

/// The settings once running as BASIC is switched on or off. Switching on twice
/// does not touch later edits.
pub open spec fn with_run(
    regs: Seq<RegionModel>,
    hint: Option<u16>,
    s: SettingsModel,
    on: bool,
) -> SettingsModel {
    if on == s.run_basic {
        s
    } else if on {
        SettingsModel {
            restore_2d2e: true,
            restore_2d2e_auto: true,
            restore_2d2e_text: match basic_end(regs) {
                Some(end) => address_text(end as int),
                None => s.restore_2d2e_text,
            },
            run_basic: true,
            start_auto: false,
            start_text: address_text(RUN_BASIC_LOOP as int),
            bank_text: byte_text(RUN_BASIC_BANK as int),
            cli_before_jmp: true,
            ..s
        }
    } else {
        without_run(regs, hint, SettingsModel { run_basic: false, ..s })
    }
}

/// The settings that the detected start asks for.
pub open spec fn with_detected_start(
    regs: Seq<RegionModel>,
    hint: Option<u16>,
    s: SettingsModel,
) -> SettingsModel {
    match start_kind(regs, hint) {
        StartKind::Sys(a) => SettingsModel {
            start_auto: true,
            start_text: address_text(a as int),
            ..with_run(regs, hint, s, false)
        },
        StartKind::Basic => with_run(regs, hint, s, true),
        StartKind::Address(_) => refreshed(
            regs,
            hint,
            SettingsModel { start_auto: true, ..with_run(regs, hint, s, false) },
        ),
    }
}

/// What is said about the detected start.
pub open spec fn start_line(kind: StartKind) -> Seq<char> {
    match kind {
        StartKind::Sys(a) => "Start address from BASIC SYS: $"@ + hex4(a as nat),
        StartKind::Basic => "BASIC program detected — Force basic run on ($01=#$"@ + hex2(
            RUN_BASIC_BANK as nat,
        ) + ", CLI, JMP $"@ + hex4(RUN_BASIC_LOOP as nat) + ")"@,
        StartKind::Address(a) => "Start address: $"@ + hex4(a as nat),
    }
}

impl Settings {
    /// Brings an automatic start field up to date.
    pub fn refresh_start_default(&mut self, image: &MemoryImage, hint: Option<u16>)
        requires
            image.wf(),
        ensures
            final(self)@ == refreshed(image@, hint, old(self)@),
    {
        if self.start_auto {
            if let Some(s) = default_start(image, hint) {
                self.start_text = address_field(s as u32);
            }
        }
    }

    /// Undoes the field overrides that running as BASIC applied.
    pub fn reset_after_run(&mut self, image: &MemoryImage, hint: Option<u16>)
        requires
            image.wf(),
        ensures
            final(self)@ == without_run(image@, hint, old(self)@),
    {
        self.bank_text = byte_field(INIT_BANK);
        self.cli_before_jmp = false;
        self.start_auto = true;
        self.refresh_start_default(image, hint);
    }

    /// Switches "Force basic run": bank ROM in, CLI, restore `$2D/$2E` to the
    /// program end, CLR, and `JMP` the BASIC run loop.
    pub fn set_basic_run(&mut self, image: &MemoryImage, hint: Option<u16>, on: bool)
        requires
            image.wf(),
        ensures
            final(self)@ == with_run(image@, hint, old(self)@, on),
    {
        if on {
            if self.run_basic {
                return;
            }
            self.restore_2d2e = true;
            self.restore_2d2e_auto = true;
            if let Some(end) = basic_end_default(image) {
                self.restore_2d2e_text = address_field(end as u32);
            }
            self.run_basic = true;
            self.start_auto = false;
            self.start_text = address_field(RUN_BASIC_LOOP as u32);
            self.bank_text = byte_field(RUN_BASIC_BANK);
            self.cli_before_jmp = true;
        } else if self.run_basic {
            self.run_basic = false;
            self.reset_after_run(image, hint);
        }
    }

    /// Applies the detected start: fills the automatic field with a `SYS`
    /// target, turns on "Force basic run" for a BASIC program, or uses the
    /// extracted machine-code entry. Returns what it chose, for the log.
    pub fn detect_and_apply_start(&mut self, image: &MemoryImage, hint: Option<u16>) -> (line: String)
        requires
            image.wf(),
        ensures
            final(self)@ == with_detected_start(image@, hint, old(self)@),
            line@ == start_line(start_kind(image@, hint)),
    {
        match detect_start_kind(image, hint) {
            StartKind::Sys(a) => {
                self.set_basic_run(image, hint, false);
                self.start_auto = true;
                self.start_text = address_field(a as u32);
                let mut line = "Start address from BASIC SYS: $".to_owned();
                push_hex4(&mut line, a as u64);
                line
            },
            StartKind::Basic => {
                self.set_basic_run(image, hint, true);
                let mut line = "BASIC program detected — Force basic run on ($01=#$".to_owned();
                push_hex2(&mut line, RUN_BASIC_BANK as u64);
                line.append(", CLI, JMP $");
                push_hex4(&mut line, RUN_BASIC_LOOP as u64);
                line.append(")");
                line
            },
            StartKind::Address(a) => {
                self.set_basic_run(image, hint, false);
                self.start_auto = true;
                self.refresh_start_default(image, hint);
                let mut line = "Start address: $".to_owned();
                push_hex4(&mut line, a as u64);
                line
            },
        }
    }

    /// Keeps the `$2D/$2E` restore value tracking the BASIC segment end until
    /// the user edits it by hand.
    pub fn track_basic_end(&mut self, image: &MemoryImage)
        requires
            image.wf(),
        ensures
            final(self)@ == tracked_end(image@, old(self)@),
    {
        if self.restore_2d2e_auto {
            if let Some(end) = basic_end_default(image) {
                self.restore_2d2e_text = address_field(end as u32);
            }
        }
    }

    /// Running as BASIC needs the `$2D/$2E` restore; drops it (and undoes its
    /// field overrides) if that is turned off.
    pub fn drop_run_without_restore(&mut self, image: &MemoryImage, hint: Option<u16>)
        requires
            image.wf(),
        ensures
            final(self)@ == if old(self)@.restore_2d2e {
                old(self)@
            } else {
                with_run(image@, hint, old(self)@, false)
            },
    {
        if !self.restore_2d2e {
            self.set_basic_run(image, hint, false);
        }
    }

    /// The target of the `JMP` after unpacking that the fields resolve to.
    pub fn resolved_start(&self, image: &MemoryImage, hint: Option<u16>) -> (r: Result<u16, String>)
        requires
            image.wf(),
        ensures
            says(r, start_target(image@, hint, self@)),
    {
        if self.run_basic {
            return Ok(RUN_BASIC_LOOP);
        }
        if self.start_auto {
            if let Some(s) = default_start(image, hint) {
                return Ok(s);
            }
        }
        match parse_addr(self.start_text.as_str()) {
            Ok(a) => Ok(a),
            Err(e) => {
                let mut m = "Start address: ".to_owned();
                m.append(e.as_str());
                Err(m)
            },
        }
    }
}

/// The settings with an automatic `$2D/$2E` field brought up to date.
pub open spec fn tracked_end(regs: Seq<RegionModel>, s: SettingsModel) -> SettingsModel {
    match basic_end(regs) {
        Some(end) if s.restore_2d2e_auto => SettingsModel {
            restore_2d2e_text: address_text(end as int),
            ..s
        },
        _ => s,
    }
}

/// Where the unpacked program is entered.
pub open spec fn start_target(
    regs: Seq<RegionModel>,
    hint: Option<u16>,
    s: SettingsModel,
) -> Result<u16, Seq<char>> {
    if s.run_basic {
        Ok(RUN_BASIC_LOOP)
    } else {
        match start_default(regs, hint) {
            Some(a) if s.start_auto => Ok(a),
            _ => labelled("Start address: "@, s.start_text),
        }
    }
}

/// Whatever the fields held, a detected start can be used at once: the jump
/// goes to the `SYS` target, to the BASIC run loop or to the code entry, and the
/// start field shows where.
pub proof fn detected_start_is_taken(regs: Seq<RegionModel>, hint: Option<u16>, s: SettingsModel)
    requires
        regs.len() > 0,
        !s.run_basic,
    ensures
        ({
            let t = with_detected_start(regs, hint, s);
            let target = match start_kind(regs, hint) {
                StartKind::Sys(a) => a,
                StartKind::Basic => RUN_BASIC_LOOP,
                StartKind::Address(a) => a,
            };
            &&& start_target(regs, hint, t) == Ok::<u16, Seq<char>>(target)
            &&& t.start_text == address_text(target as int)
            &&& t.run_basic <==> start_kind(regs, hint) is Basic
        }),
{
}

/// Switching "Force basic run" on and off again leaves the plain defaults:
/// automatic start, the init bank and interrupts off, with everything else but
/// the `$2D/$2E` fields as it was.
pub proof fn run_can_be_undone(regs: Seq<RegionModel>, hint: Option<u16>, s: SettingsModel)
    requires
        !s.run_basic,
    ensures
        ({
            let t = with_run(regs, hint, with_run(regs, hint, s, true), false);
            &&& !t.run_basic
            &&& t.start_auto
            &&& t.bank_text == byte_text(INIT_BANK as int)
            &&& !t.cli_before_jmp
            &&& t == SettingsModel {
                start_auto: t.start_auto,
                start_text: t.start_text,
                bank_text: t.bank_text,
                cli_before_jmp: t.cli_before_jmp,
                restore_2d2e: t.restore_2d2e,
                restore_2d2e_auto: t.restore_2d2e_auto,
                restore_2d2e_text: t.restore_2d2e_text,
                ..s
            }
        }),
{
}

} // verus!
