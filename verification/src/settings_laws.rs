//! What the setting fields are for.
use vstd::prelude::*;

#[allow(unused_imports)]
use crate::address::parsed_address;
#[allow(unused_imports)]
use crate::placement::{DirectionChoice, Placement, TailoringChoice};
#[allow(unused_imports)]
use crate::settings::{asked_placement, fresh_settings, SettingsModel};
#[allow(unused_imports)]
use crate::text::{decimal, hex, hex2, hex4};

verus! {

/// Whether a text reads as an address or a count.
pub open spec fn readable(t: Seq<char>) -> bool {
    parsed_address(t) is Ok
}

/// Whether an optional address is the one that was typed: none while the field
/// is not used, else what its text reads as.
pub open spec fn as_typed(asked: Option<u16>, used: bool, t: Seq<char>) -> bool {
    match asked {
        None => !used,
        Some(a) => used && parsed_address(t) == Ok::<u16, Seq<char>>(a),
    }
}

/// The placement holds what each field reads as, and is owed as soon as every
/// field that is used can be read and the `$01` field is a byte.
pub proof fn placements_hold_what_was_typed(s: SettingsModel)
    ensures
        asked_placement(s) is Ok <==> {
            &&& s.decr_auto || readable(s.decr_text)
            &&& s.mover_auto || readable(s.mover_text)
            &&& s.scratch_auto || readable(s.scratch_text)
            &&& readable(s.margin_text)
            &&& readable(s.clearance_text)
            &&& parsed_address(s.bank_text) matches Ok(b) && b <= 0xFF
            &&& !s.restore_2d2e || readable(s.restore_2d2e_text)
        },
        asked_placement(s) matches Ok(p) ==> {
            &&& as_typed(p.decruncher, !s.decr_auto, s.decr_text)
            &&& as_typed(p.mover, !s.mover_auto, s.mover_text)
            &&& as_typed(p.scratch, !s.scratch_auto, s.scratch_text)
            &&& as_typed(p.restore_basic_end, s.restore_2d2e, s.restore_2d2e_text)
            &&& parsed_address(s.margin_text) == Ok::<u16, Seq<char>>(p.margin)
            &&& parsed_address(s.clearance_text) == Ok::<u16, Seq<char>>(p.clearance)
            &&& !s.run_basic ==> parsed_address(s.bank_text) == Ok::<u16, Seq<char>>(
                p.bank_at_jmp as u16,
            )
        },
{
}

/// With "Force basic run" off, whatever reads as a byte in the `$01` field is
/// the value at the `JMP`, and nothing else of the placement depends on it.
pub proof fn typed_bank_reaches_the_jmp(s: SettingsModel, t: Seq<char>, b: u8)
    requires
        !s.run_basic,
        asked_placement(s) is Ok,
        parsed_address(t) == Ok::<u16, Seq<char>>(b as u16),
    ensures
        asked_placement(SettingsModel { bank_text: t, ..s }) == Ok::<Placement, Seq<char>>(
            Placement { bank_at_jmp: b, ..asked_placement(s)->Ok_0 },
        ),
{
}

/// Writing any byte into the `$01` field reads back as that byte in the
/// placement, whatever the field held before.
pub proof fn written_bank_reads_back(s: SettingsModel, b: u8)
    requires
        !s.run_basic,
        s.decr_auto || readable(s.decr_text),
        s.mover_auto || readable(s.mover_text),
        s.scratch_auto || readable(s.scratch_text),
        readable(s.margin_text),
        readable(s.clearance_text),
        !s.restore_2d2e || readable(s.restore_2d2e_text),
    ensures
        asked_placement(SettingsModel { bank_text: "$"@ + hex2(b as nat), ..s }) matches Ok(p)
            && p.bank_at_jmp == b,
{
    crate::address_laws::written_bytes_read_back(b);
}

/// Writing an address into one of the address fields reads back as that
/// address, in the part of the placement that the field is for and in no other.
pub proof fn written_addresses_reach_the_placement(s: SettingsModel, a: u16)
    requires
        asked_placement(s) is Ok,
    ensures
        ({
            let p = asked_placement(s)->Ok_0;
            let t = "$"@ + hex4(a as nat);
            &&& asked_placement(SettingsModel { decr_auto: false, decr_text: t, ..s }) == Ok::<
                Placement,
                Seq<char>,
            >(Placement { decruncher: Some(a), ..p })
            &&& asked_placement(SettingsModel { mover_auto: false, mover_text: t, ..s }) == Ok::<
                Placement,
                Seq<char>,
            >(Placement { mover: Some(a), ..p })
            &&& asked_placement(SettingsModel { scratch_auto: false, scratch_text: t, ..s })
                == Ok::<Placement, Seq<char>>(Placement { scratch: Some(a), ..p })
            &&& asked_placement(
                SettingsModel { restore_2d2e: true, restore_2d2e_text: t, ..s },
            ) == Ok::<Placement, Seq<char>>(Placement { restore_basic_end: Some(a), ..p })
        }),
{
    crate::address_laws::written_addresses_read_back(a);
}

/// Writing a count into the margin or the clearance field reads back as that
/// count, and changes nothing else.
pub proof fn written_counts_reach_the_placement(s: SettingsModel, n: u16)
    requires
        asked_placement(s) is Ok,
    ensures
        ({
            let p = asked_placement(s)->Ok_0;
            let t = decimal(n as nat);
            &&& asked_placement(SettingsModel { margin_text: t, ..s }) == Ok::<
                Placement,
                Seq<char>,
            >(Placement { margin: n, ..p })
            &&& asked_placement(SettingsModel { clearance_text: t, ..s }) == Ok::<
                Placement,
                Seq<char>,
            >(Placement { clearance: n, ..p })
        }),
{
    crate::address_laws::written_counts_read_back(n);
}

/// An automatic field asks for nothing, whatever its text says.
pub proof fn automatic_fields_ask_for_nothing(s: SettingsModel, t: Seq<char>)
    requires
        asked_placement(s) is Ok,
    ensures
        ({
            let p = asked_placement(s)->Ok_0;
            &&& asked_placement(SettingsModel { decr_auto: true, decr_text: t, ..s }) == Ok::<
                Placement,
                Seq<char>,
            >(Placement { decruncher: None, ..p })
            &&& asked_placement(SettingsModel { mover_auto: true, mover_text: t, ..s }) == Ok::<
                Placement,
                Seq<char>,
            >(Placement { mover: None, ..p })
            &&& asked_placement(SettingsModel { scratch_auto: true, scratch_text: t, ..s }) == Ok::<
                Placement,
                Seq<char>,
            >(Placement { scratch: None, ..p })
            &&& asked_placement(
                SettingsModel { restore_2d2e: false, restore_2d2e_text: t, ..s },
            ) == Ok::<Placement, Seq<char>>(Placement { restore_basic_end: None, ..p })
        }),
{
}

/// Each switch sets its own part of the placement and no other.
pub proof fn switches_reach_the_placement(
    s: SettingsModel,
    direction: DirectionChoice,
    illegal: bool,
    tailoring: TailoringChoice,
    fast: bool,
    cli: bool,
)
    requires
        asked_placement(s) is Ok,
    ensures
        ({
            let p = asked_placement(s)->Ok_0;
            &&& asked_placement(SettingsModel { dir_choice: direction, ..s }) == Ok::<
                Placement,
                Seq<char>,
            >(Placement { direction, ..p })
            &&& asked_placement(SettingsModel { allow_illegal: illegal, ..s }) == Ok::<
                Placement,
                Seq<char>,
            >(Placement { allow_illegal: illegal, ..p })
            &&& asked_placement(SettingsModel { tailoring_choice: tailoring, ..s }) == Ok::<
                Placement,
                Seq<char>,
            >(Placement { tailoring, ..p })
            &&& asked_placement(SettingsModel { priority_speed: fast, ..s }) == Ok::<
                Placement,
                Seq<char>,
            >(Placement { priority_speed: fast, ..p })
            &&& !s.run_basic ==> asked_placement(SettingsModel { cli_before_jmp: cli, ..s })
                == Ok::<Placement, Seq<char>>(Placement { cli_before_jmp: cli, ..p })
            &&& !s.run_basic ==> !p.basic_clr
            &&& p.tsc_shift == 0
        }),
{
}

/// "Force basic run" banks the ROM in, enables interrupts and calls CLR,
/// whatever the manual fields hold, and changes nothing else.
pub proof fn forced_run_banks_the_rom_in(s: SettingsModel)
    requires
        !s.run_basic,
        asked_placement(s) is Ok,
    ensures
        asked_placement(SettingsModel { run_basic: true, ..s }) == Ok::<Placement, Seq<char>>(
            Placement {
                bank_at_jmp: 0x37,
                cli_before_jmp: true,
                basic_clr: true,
                ..asked_placement(s)->Ok_0
            },
        ),
{
}

/// The placement does not depend on the start fields.
pub proof fn start_fields_do_not_place_anything(
    s: SettingsModel,
    auto: bool,
    t: Seq<char>,
    follow: bool,
)
    ensures
        asked_placement(
            SettingsModel { start_auto: auto, start_text: t, restore_2d2e_auto: follow, ..s },
        ) == asked_placement(s),
{
}

/// When fields cannot be read, the first of them is named: the decoder, the
/// mover, the buffer, the margin, the clearance, the `$01` value, the
/// `$2D/$2E` restore.
pub proof fn the_first_wrong_field_is_named(s: SettingsModel)
    requires
        asked_placement(s) is Err,
    ensures
        ({
            let e = asked_placement(s)->Err_0;
            let decr = s.decr_auto || readable(s.decr_text);
            let mover = decr && (s.mover_auto || readable(s.mover_text));
            let scratch = mover && (s.scratch_auto || readable(s.scratch_text));
            let margin = scratch && readable(s.margin_text);
            let clearance = margin && readable(s.clearance_text);
            let bank = clearance && (parsed_address(s.bank_text) matches Ok(b) && b <= 0xFF);
            &&& !decr ==> e == "Decrunch address: "@ + parsed_address(s.decr_text)->Err_0
            &&& decr && !mover ==> e == "Mover address: "@ + parsed_address(s.mover_text)->Err_0
            &&& mover && !scratch ==> e == "Buffer address: "@ + parsed_address(
                s.scratch_text,
            )->Err_0
            &&& scratch && !margin ==> e == "Invalid margin: "@ + s.margin_text
            &&& margin && !clearance ==> e == "Invalid clearance: "@ + s.clearance_text
            &&& clearance && !bank ==> e == match parsed_address(s.bank_text) {
                Err(why) => "$01 value: "@ + why,
                Ok(v) => "$01 value: $"@ + hex(v as nat) + " is not a single byte (max $FF)"@,
            }
            &&& bank ==> e == "Restore $2D/$2E: "@ + parsed_address(s.restore_2d2e_text)->Err_0
        }),
{
}

/// A fresh start asks for nothing in particular: every address automatic, 32
/// bytes of margin and of clearance, all RAM at the `JMP` with interrupts off.
pub proof fn fresh_settings_leave_everything_open()
    ensures
        asked_placement(fresh_settings()) matches Ok(p) && {
            &&& p.decruncher is None && p.mover is None && p.scratch is None
            &&& p.margin == 32 && p.clearance == 32
            &&& p.bank_at_jmp == 0x30 && !p.cli_before_jmp && !p.basic_clr
            &&& p.restore_basic_end is None
            &&& p.direction is Auto && p.tailoring is Auto
            &&& p.allow_illegal && !p.priority_speed
        },
        fresh_settings().start_auto,
        fresh_settings().restore_2d2e_auto,
        !fresh_settings().run_basic,
        parsed_address(fresh_settings().mover_text) == Ok::<u16, Seq<char>>(0x02A7),
{
    crate::address_laws::written_addresses_read_back(0x02A7);
    crate::settings::fresh_settings_ask_for_the_defaults();
}

} // verus!
