//! The settings as they stand in the input fields.
use vstd::prelude::*;

use crate::address::parse_addr;
#[allow(unused_imports)]
use crate::address::parsed_address;
use crate::placement::{
    DirectionChoice, Placement, TailoringChoice, DEFAULT_CLEARANCE, DEFAULT_MARGIN, DEFAULT_MOVER,
    INIT_BANK, RUN_BASIC_BANK,
};
#[allow(unused_imports)]
use crate::plan::says;
use crate::text::{push_decimal, push_hex, push_hex2, push_hex4};
#[allow(unused_imports)]
use crate::text::{decimal, hex, hex2, hex4};

verus! {

/// The input fields, all overridable.
pub struct Settings {
    pub start_auto: bool,
    pub start_text: String,
    pub decr_auto: bool,
    pub decr_text: String,
    pub mover_auto: bool,
    pub mover_text: String,
    pub scratch_auto: bool,
    pub scratch_text: String,
    pub margin_text: String,
    /// "No move" in-place clearance in bytes.
    pub clearance_text: String,
    pub bank_text: String,
    pub cli_before_jmp: bool,
    /// Restore `$2D/$2E` (VARTAB).
    pub restore_2d2e: bool,
    pub restore_2d2e_text: String,
    pub restore_2d2e_auto: bool,
    /// Run the unpacked program as BASIC.
    pub run_basic: bool,
    pub dir_choice: DirectionChoice,
    /// Allow undocumented 6502 opcodes in the decoder.
    pub allow_illegal: bool,
    pub tailoring_choice: TailoringChoice,
    /// Pick the fastest decoder instead of the balanced one.
    pub priority_speed: bool,
}

/// What [`Settings`] hold.
#[verifier::ext_equal]
pub struct SettingsModel {
    pub start_auto: bool,
    pub start_text: Seq<char>,
    pub decr_auto: bool,
    pub decr_text: Seq<char>,
    pub mover_auto: bool,
    pub mover_text: Seq<char>,
    pub scratch_auto: bool,
    pub scratch_text: Seq<char>,
    pub margin_text: Seq<char>,
    pub clearance_text: Seq<char>,
    pub bank_text: Seq<char>,
    pub cli_before_jmp: bool,
    pub restore_2d2e: bool,
    pub restore_2d2e_text: Seq<char>,
    pub restore_2d2e_auto: bool,
    pub run_basic: bool,
    pub dir_choice: DirectionChoice,
    pub allow_illegal: bool,
    pub tailoring_choice: TailoringChoice,
    pub priority_speed: bool,
}

impl View for Settings {
    type V = SettingsModel;

    open spec fn view(&self) -> SettingsModel {
        SettingsModel {
            start_auto: self.start_auto,
            start_text: self.start_text@,
            decr_auto: self.decr_auto,
            decr_text: self.decr_text@,
            mover_auto: self.mover_auto,
            mover_text: self.mover_text@,
            scratch_auto: self.scratch_auto,
            scratch_text: self.scratch_text@,
            margin_text: self.margin_text@,
            clearance_text: self.clearance_text@,
            bank_text: self.bank_text@,
            cli_before_jmp: self.cli_before_jmp,
            restore_2d2e: self.restore_2d2e,
            restore_2d2e_text: self.restore_2d2e_text@,
            restore_2d2e_auto: self.restore_2d2e_auto,
            run_basic: self.run_basic,
            dir_choice: self.dir_choice,
            allow_illegal: self.allow_illegal,
            tailoring_choice: self.tailoring_choice,
            priority_speed: self.priority_speed,
        }
    }
}

/// How an address is written into a field.
pub open spec fn address_text(a: int) -> Seq<char> {
    "$"@ + hex4(a as nat)
}

/// How a byte is written into a field.
pub open spec fn byte_text(b: int) -> Seq<char> {
    "$"@ + hex2(b as nat)
}

/// Writes an address for a field.
pub fn address_field(a: u32) -> (r: String)
    ensures
        r@ == address_text(a as int),
{
    let mut s = "$".to_owned();
    push_hex4(&mut s, a as u64);
    s
}

/// Writes a byte for a field.
pub fn byte_field(b: u8) -> (r: String)
    ensures
        r@ == byte_text(b as int),
{
    let mut s = "$".to_owned();
    push_hex2(&mut s, b as u64);
    s
}

/// Writes a count for a field.
fn count_field(n: u16) -> (r: String)
    ensures
        r@ == decimal(n as nat),
{
    let mut s = "".to_owned();
    proof {
        reveal_strlit("");
    }
    push_decimal(&mut s, n as u64);
    assert(s@ =~= decimal(n as nat));
    s
}

/// The fields of a fresh start.
pub open spec fn fresh_settings() -> SettingsModel {
    SettingsModel {
        start_auto: true,
        start_text: Seq::empty(),
        decr_auto: true,
        decr_text: Seq::empty(),
        mover_auto: true,
        mover_text: address_text(DEFAULT_MOVER as int),
        scratch_auto: true,
        scratch_text: Seq::empty(),
        margin_text: decimal(DEFAULT_MARGIN as nat),
        clearance_text: decimal(DEFAULT_CLEARANCE as nat),
        bank_text: byte_text(INIT_BANK as int),
        cli_before_jmp: false,
        restore_2d2e: false,
        restore_2d2e_text: Seq::empty(),
        restore_2d2e_auto: true,
        run_basic: false,
        dir_choice: DirectionChoice::Auto,
        allow_illegal: true,
        tailoring_choice: TailoringChoice::Auto,
        priority_speed: false,
    }
}

impl Default for Settings {
    fn default() -> (r: Self)
        ensures
            r@ == fresh_settings(),
    {
        let r = Settings {
            start_auto: true,
            start_text: String::new(),
            decr_auto: true,
            decr_text: String::new(),
            mover_auto: true,
            mover_text: address_field(DEFAULT_MOVER as u32),
            scratch_auto: true,
            scratch_text: String::new(),
            margin_text: count_field(DEFAULT_MARGIN),
            clearance_text: count_field(DEFAULT_CLEARANCE),
            bank_text: byte_field(INIT_BANK),
            cli_before_jmp: false,
            restore_2d2e: false,
            restore_2d2e_text: String::new(),
            restore_2d2e_auto: true,
            run_basic: false,
            dir_choice: DirectionChoice::Auto,
            allow_illegal: true,
            tailoring_choice: TailoringChoice::Auto,
            priority_speed: false,
        };
        assert(r@ =~= fresh_settings());
        r
    }
}

/// A field whose error is shown behind a label.
pub open spec fn labelled(label: Seq<char>, field: Seq<char>) -> Result<u16, Seq<char>> {
    match parsed_address(field) {
        Ok(a) => Ok(a),
        Err(e) => Err(label + e),
    }
}

/// A field that only counts if it is switched on.
pub open spec fn optional(on: bool, label: Seq<char>, field: Seq<char>) -> Result<
    Option<u16>,
    Seq<char>,
> {
    if !on {
        Ok(None)
    } else {
        match labelled(label, field) {
            Ok(a) => Ok(Some(a)),
            Err(e) => Err(e),
        }
    }
}

/// A count field, named with its text where it is not one.
pub open spec fn counted(label: Seq<char>, field: Seq<char>) -> Result<u16, Seq<char>> {
    match parsed_address(field) {
        Ok(a) => Ok(a),
        Err(_) => Err(label + field),
    }
}

/// The `$01` field.
pub open spec fn bank_field(field: Seq<char>) -> Result<u8, Seq<char>> {
    match labelled("$01 value: "@, field) {
        Err(e) => Err(e),
        Ok(v) => if v > 0xFF {
            Err("$01 value: $"@ + hex(v as nat) + " is not a single byte (max $FF)"@)
        } else {
            Ok(v as u8)
        },
    }
}

/// The placement that the fields ask for, or the first field that is wrong.
/// Running as BASIC forces the banking and interrupt state that BASIC needs
/// plus the CLR call, whatever the manual fields hold.
pub open spec fn asked_placement(s: SettingsModel) -> Result<Placement, Seq<char>> {
    let decruncher = optional(!s.decr_auto, "Decrunch address: "@, s.decr_text);
    let mover = optional(!s.mover_auto, "Mover address: "@, s.mover_text);
    let scratch = optional(!s.scratch_auto, "Buffer address: "@, s.scratch_text);
    let margin = counted("Invalid margin: "@, s.margin_text);
    let clearance = counted("Invalid clearance: "@, s.clearance_text);
    let bank = bank_field(s.bank_text);
    let restore = optional(s.restore_2d2e, "Restore $2D/$2E: "@, s.restore_2d2e_text);
    if decruncher is Err {
        Err(decruncher->Err_0)
    } else if mover is Err {
        Err(mover->Err_0)
    } else if scratch is Err {
        Err(scratch->Err_0)
    } else if margin is Err {
        Err(margin->Err_0)
    } else if clearance is Err {
        Err(clearance->Err_0)
    } else if bank is Err {
        Err(bank->Err_0)
    } else if restore is Err {
        Err(restore->Err_0)
    } else {
        Ok(
            Placement {
                decruncher: decruncher->Ok_0,
                mover: mover->Ok_0,
                scratch: scratch->Ok_0,
                margin: margin->Ok_0,
                direction: s.dir_choice,
                bank_at_jmp: if s.run_basic {
                    RUN_BASIC_BANK
                } else {
                    bank->Ok_0
                },
                cli_before_jmp: s.run_basic || s.cli_before_jmp,
                restore_basic_end: restore->Ok_0,
                basic_clr: s.run_basic,
                allow_illegal: s.allow_illegal,
                tsc_shift: 0,
                tailoring: s.tailoring_choice,
                clearance: clearance->Ok_0,
                priority_speed: s.priority_speed,
            },
        )
    }
}

/// Puts a label in front of an error.
fn with_label(label: &str, e: &String) -> (r: String)
    ensures
        r@ == label@ + e@,
{
    let mut m = label.to_owned();
    m.append(e.as_str());
    m
}

/// Reads a field that only counts if it is switched on.
fn read_optional(on: bool, label: &str, field: &String) -> (r: Result<Option<u16>, String>)
    ensures
        says(r, optional(on, label@, field@)),
{
    if !on {
        return Ok(None);
    }
    match parse_addr(field.as_str()) {
        Ok(a) => Ok(Some(a)),
        Err(e) => Err(with_label(label, &e)),
    }
}

/// Reads a count field.
fn read_count(label: &str, field: &String) -> (r: Result<u16, String>)
    ensures
        says(r, counted(label@, field@)),
{
    match parse_addr(field.as_str()) {
        Ok(a) => Ok(a),
        Err(_) => Err(with_label(label, field)),
    }
}

/// Reads the `$01` field.
fn read_bank(field: &String) -> (r: Result<u8, String>)
    ensures
        says(r, bank_field(field@)),
{
    match parse_addr(field.as_str()) {
        Err(e) => Err(with_label("$01 value: ", &e)),
        Ok(v) => {
            if v > 0xFF {
                let mut m = "$01 value: $".to_owned();
                push_hex(&mut m, v as u64);
                m.append(" is not a single byte (max $FF)");
                Err(m)
            } else {
                Ok(v as u8)
            }
        },
    }
}

impl Settings {
    /// The placement that the fields ask for.
    pub fn placement(&self) -> (r: Result<Placement, String>)
        ensures
            says(r, asked_placement(self@)),
    {
        let decruncher = match read_optional(
            !self.decr_auto,
            "Decrunch address: ",
            &self.decr_text,
        ) {
            Ok(a) => a,
            Err(e) => return Err(e),
        };
        let mover = match read_optional(!self.mover_auto, "Mover address: ", &self.mover_text) {
            Ok(a) => a,
            Err(e) => return Err(e),
        };
        let scratch = match read_optional(
            !self.scratch_auto,
            "Buffer address: ",
            &self.scratch_text,
        ) {
            Ok(a) => a,
            Err(e) => return Err(e),
        };
        let margin = match read_count("Invalid margin: ", &self.margin_text) {
            Ok(a) => a,
            Err(e) => return Err(e),
        };
        let clearance = match read_count("Invalid clearance: ", &self.clearance_text) {
            Ok(a) => a,
            Err(e) => return Err(e),
        };
        let bank = match read_bank(&self.bank_text) {
            Ok(a) => a,
            Err(e) => return Err(e),
        };
        let restore = match read_optional(
            self.restore_2d2e,
            "Restore $2D/$2E: ",
            &self.restore_2d2e_text,
        ) {
            Ok(a) => a,
            Err(e) => return Err(e),
        };
        Ok(
            Placement {
                decruncher,
                mover,
                scratch,
                margin,
                direction: self.dir_choice,
                bank_at_jmp: if self.run_basic {
                    RUN_BASIC_BANK
                } else {
                    bank
                },
                cli_before_jmp: self.run_basic || self.cli_before_jmp,
                restore_basic_end: restore,
                basic_clr: self.run_basic,
                allow_illegal: self.allow_illegal,
                tsc_shift: 0,
                tailoring: self.tailoring_choice,
                clearance,
                priority_speed: self.priority_speed,
            },
        )
    }
}

/// A fresh start asks for the computed defaults.
pub proof fn fresh_settings_ask_for_the_defaults()
    ensures
        asked_placement(fresh_settings()) == Ok::<Placement, Seq<char>>(
            crate::placement::default_placement(),
        ),
{
    crate::address_laws::written_counts_read_back(DEFAULT_MARGIN);
    crate::address_laws::written_counts_read_back(DEFAULT_CLEARANCE);
    crate::address_laws::written_bytes_read_back(INIT_BANK);
}

} // verus!
