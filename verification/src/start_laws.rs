//! What the start of the unpacked program is found by.
use vstd::prelude::*;

#[allow(unused_imports)]
use crate::address::parsed_address;
#[allow(unused_imports)]
use crate::basic::{basic_shape, sys_start};
#[allow(unused_imports)]
use crate::image::{all_wf, highest_end, lowest_start, span_bounds_every_region, RegionModel};
#[allow(unused_imports)]
use crate::placement::Placement;
#[allow(unused_imports)]
use crate::settings::{asked_placement, SettingsModel};
#[allow(unused_imports)]
use crate::start::{
    basic_end, basic_region, refreshed, start_default, start_kind, start_target, tracked_end,
    with_detected_start, with_run, StartKind,
};

verus! {

/// Whether a region is the first of the image that loads at `$0801`.
pub open spec fn is_first_basic(regs: Seq<RegionModel>, i: int) -> bool {
    &&& 0 <= i < regs.len()
    &&& regs[i].load == 0x0801
    &&& forall|j: int| 0 <= j < i ==> (#[trigger] regs[j]).load != 0x0801
}

/// Whether any region of the image loads at `$0801`.
pub open spec fn has_basic(regs: Seq<RegionModel>) -> bool {
    exists|i: int| 0 <= i < regs.len() && (#[trigger] regs[i]).load == 0x0801
}

proof fn lemma_search(regs: Seq<RegionModel>, from: int)
    requires
        0 <= from <= regs.len(),
    ensures
        match basic_region(regs, from) {
            Some(i) => {
                &&& from <= i < regs.len()
                &&& regs[i].load == 0x0801
                &&& forall|j: int| from <= j < i ==> (#[trigger] regs[j]).load != 0x0801
            },
            None => forall|j: int| from <= j < regs.len() ==> (#[trigger] regs[j]).load != 0x0801,
        },
    decreases regs.len() - from,
{
    if from < regs.len() && regs[from].load != 0x0801 {
        lemma_search(regs, from + 1);
    }
}

/// Whenever any region loads at `$0801`, the region that is looked at is the
/// first of them; none is found only if no region loads there.
pub proof fn the_first_region_at_0801_is_looked_at(regs: Seq<RegionModel>)
    ensures
        has_basic(regs) <==> basic_region(regs, 0) is Some,
        basic_region(regs, 0) matches Some(i) ==> is_first_basic(regs, i),
        forall|i: int| #[trigger]
            is_first_basic(regs, i) ==> basic_region(regs, 0) == Some(i),
{
    lemma_search(regs, 0);
    assert forall|i: int| #[trigger] is_first_basic(regs, i) implies basic_region(regs, 0) == Some(
        i,
    ) by {
        assert(regs[i].load == 0x0801);
        let k = basic_region(regs, 0)->0;
        if k < i {
            assert(regs[k].load != 0x0801);
        }
    }
}

/// A `SYS` stub in the first region at `$0801` is the start, wherever that
/// region stands in the list and whatever the last depacker jumped to.
pub proof fn a_sys_stub_is_the_start(regs: Seq<RegionModel>, i: int, hint: Option<u16>, a: u16)
    requires
        is_first_basic(regs, i),
        sys_start(0x0801, regs[i].data) == Some(a),
    ensures
        start_default(regs, hint) == Some(a),
        start_kind(regs, hint) == StartKind::Sys(a),
{
    the_first_region_at_0801_is_looked_at(regs);
}

/// Without a `SYS` stub the image is a BASIC program exactly if the first
/// region at `$0801` has the shape of one.
pub proof fn a_basic_program_is_told_by_its_region(regs: Seq<RegionModel>, hint: Option<u16>)
    ensures
        start_kind(regs, hint) is Basic <==> exists|i: int| #[trigger]
            is_first_basic(regs, i) && sys_start(0x0801, regs[i].data) is None && basic_shape(
                0x0801,
                regs[i].data,
            ),
        start_kind(regs, hint) matches StartKind::Sys(a) ==> exists|i: int| #[trigger]
            is_first_basic(regs, i) && sys_start(0x0801, regs[i].data) == Some(a),
{
    the_first_region_at_0801_is_looked_at(regs);
    if basic_region(regs, 0) is Some {
        assert(is_first_basic(regs, basic_region(regs, 0)->0));
    }
}

/// The BASIC end is the address behind the first region at `$0801`, as long as
/// that is a 16-bit address; without such a region there is none.
pub proof fn the_basic_end_is_behind_its_region(regs: Seq<RegionModel>, i: int)
    ensures
        !has_basic(regs) ==> basic_end(regs) is None,
        is_first_basic(regs, i) && 0x0801 + regs[i].data.len() <= 0xFFFF ==> basic_end(regs)
            == Some((0x0801 + regs[i].data.len()) as u16),
        is_first_basic(regs, i) && 0x0801 + regs[i].data.len() > 0xFFFF ==> basic_end(regs) is None,
{
    the_first_region_at_0801_is_looked_at(regs);
}

/// Without a `SYS` stub the start is where the last depacker jumped to, if that
/// lies in the span of the image, else the lowest load address; an empty image
/// has none.
pub proof fn plain_code_starts_at_its_entry(regs: Seq<RegionModel>, hint: Option<u16>)
    requires
        all_wf(regs),
        forall|i: int| #[trigger]
            is_first_basic(regs, i) ==> sys_start(0x0801, regs[i].data) is None,
    ensures
        start_default(regs, hint) is Some <==> regs.len() > 0,
        ({
            let entered = hint matches Some(h) && (exists|i: int|
                0 <= i < regs.len() && (#[trigger] regs[i]).load <= h) && (exists|j: int|
                0 <= j < regs.len() && h < (#[trigger] regs[j]).end());
            &&& entered ==> start_default(regs, hint) == hint
            &&& !entered && regs.len() > 0 ==> {
                let a = start_default(regs, hint)->0;
                &&& exists|i: int| 0 <= i < regs.len() && (#[trigger] regs[i]).load == a
                &&& forall|i: int| 0 <= i < regs.len() ==> a <= (#[trigger] regs[i]).load
            }
        }),
        regs.len() > 0 ==> (start_kind(regs, hint) is Basic || start_kind(regs, hint)
            == StartKind::Address(start_default(regs, hint)->0)),
{
    the_first_region_at_0801_is_looked_at(regs);
    if basic_region(regs, 0) is Some {
        assert(is_first_basic(regs, basic_region(regs, 0)->0));
    }
    if regs.len() > 0 {
        span_bounds_every_region(regs);
        let lo = choose|i: int| 0 <= i < regs.len() && (#[trigger] regs[i]).load == lowest_start(
            regs,
        );
        let hi = choose|i: int| 0 <= i < regs.len() && (#[trigger] regs[i]).end() == highest_end(
            regs,
        );
        assert(regs[lo].wf() && regs[hi].wf());
        assert(regs[lo].load <= regs[lo].load);
    }
}

proof fn lemma_inserted_elsewhere(regs: Seq<RegionModel>, k: int, r: RegionModel)
    requires
        0 <= k <= regs.len(),
        r.load != 0x0801,
    ensures
        has_basic(regs) <==> has_basic(regs.insert(k, r)),
        match (basic_region(regs, 0), basic_region(regs.insert(k, r), 0)) {
            (Some(i), Some(j)) => regs.insert(k, r)[j].data == regs[i].data,
            (None, None) => true,
            _ => false,
        },
{
    let more = regs.insert(k, r);
    the_first_region_at_0801_is_looked_at(regs);
    the_first_region_at_0801_is_looked_at(more);
    if basic_region(regs, 0) is Some {
        let i = basic_region(regs, 0)->0;
        let j = if i < k {
            i
        } else {
            i + 1
        };
        assert(more[j] == regs[i]);
        assert forall|m: int| 0 <= m < j implies (#[trigger] more[m]).load != 0x0801 by {
            if m < k {
                assert(more[m] == regs[m]);
            } else if m > k {
                assert(more[m] == regs[m - 1]);
            }
        }
        assert(is_first_basic(more, j));
    } else {
        assert forall|m: int| 0 <= m < more.len() implies (#[trigger] more[m]).load != 0x0801 by {
            if m < k {
                assert(more[m] == regs[m]);
            } else if m > k {
                assert(more[m] == regs[m - 1]);
            }
        }
    }
}

/// Regions that load elsewhere, before or behind, change neither the `SYS`
/// start nor whether the image is a BASIC program nor the BASIC end.
pub proof fn regions_elsewhere_do_not_matter(
    regs: Seq<RegionModel>,
    k: int,
    r: RegionModel,
    hint: Option<u16>,
    other: Option<u16>,
)
    requires
        0 <= k <= regs.len(),
        r.load != 0x0801,
    ensures
        ({
            let more = regs.insert(k, r);
            &&& basic_end(more) == basic_end(regs)
            &&& start_kind(regs, hint) is Basic <==> start_kind(more, other) is Basic
            &&& start_kind(regs, hint) is Address <==> start_kind(more, other) is Address
            &&& start_kind(regs, hint) is Sys ==> {
                &&& start_kind(more, other) == start_kind(regs, hint)
                &&& start_default(more, other) == start_default(regs, hint)
            }
        }),
{
    lemma_inserted_elsewhere(regs, k, r);
    the_first_region_at_0801_is_looked_at(regs);
    the_first_region_at_0801_is_looked_at(regs.insert(k, r));
}

/// The jump that the fields resolve to: the BASIC run loop while "Force basic
/// run" is on, the default start while the start is automatic and there is
/// one, and what was typed otherwise.
pub proof fn the_jump_goes_where_the_fields_say(
    regs: Seq<RegionModel>,
    hint: Option<u16>,
    s: SettingsModel,
)
    ensures
        s.run_basic ==> start_target(regs, hint, s) == Ok::<u16, Seq<char>>(0xA7AE),
        !s.run_basic && s.start_auto && regs.len() > 0 ==> (start_target(
            regs,
            hint,
            s,
        ) matches Ok(a) && start_default(regs, hint) == Some(a)),
        !s.run_basic && !s.start_auto ==> match (
            start_target(regs, hint, s),
            parsed_address(s.start_text),
        ) {
            (Ok(a), Ok(b)) => a == b,
            (Err(e), Err(why)) => e == "Start address: "@ + why,
            _ => false,
        },
{
}

/// An automatic start field shows the address that the jump goes to, and reads
/// back as it; a typed one is left alone.
pub proof fn an_automatic_start_field_shows_the_jump(
    regs: Seq<RegionModel>,
    hint: Option<u16>,
    s: SettingsModel,
)
    requires
        regs.len() > 0,
        !s.run_basic,
    ensures
        ({
            let t = refreshed(regs, hint, s);
            &&& t == SettingsModel { start_text: t.start_text, ..s }
            &&& s.start_auto ==> start_target(regs, hint, t) == parsed_address(t.start_text)
            &&& !s.start_auto ==> t == s
        }),
{
    if s.start_auto {
        crate::address_laws::written_addresses_read_back(start_default(regs, hint)->0);
    }
}

/// Switching "Force basic run" on makes the program run as BASIC: the jump goes
/// to the run loop with the ROM banked in, interrupts on and CLR called, and
/// `$2D/$2E` is restored to the end of the program at `$0801`. Every other
/// field stays.
pub proof fn forced_run_runs_the_program(
    regs: Seq<RegionModel>,
    hint: Option<u16>,
    s: SettingsModel,
    i: int,
)
    requires
        !s.run_basic,
        is_first_basic(regs, i),
        0x0801 + regs[i].data.len() <= 0xFFFF,
    ensures
        ({
            let t = with_run(regs, hint, s, true);
            let end = (0x0801 + regs[i].data.len()) as u16;
            &&& t.run_basic
            &&& start_target(regs, hint, t) == Ok::<u16, Seq<char>>(0xA7AE)
            &&& parsed_address(t.start_text) == Ok::<u16, Seq<char>>(0xA7AE)
            &&& parsed_address(t.bank_text) == Ok::<u16, Seq<char>>(0x37)
            &&& t.cli_before_jmp
            &&& t.restore_2d2e && t.restore_2d2e_auto
            &&& parsed_address(t.restore_2d2e_text) == Ok::<u16, Seq<char>>(end)
            &&& t == SettingsModel {
                run_basic: t.run_basic,
                start_auto: t.start_auto,
                start_text: t.start_text,
                bank_text: t.bank_text,
                cli_before_jmp: t.cli_before_jmp,
                restore_2d2e: t.restore_2d2e,
                restore_2d2e_auto: t.restore_2d2e_auto,
                restore_2d2e_text: t.restore_2d2e_text,
                ..s
            }
            &&& asked_placement(s) is Ok ==> asked_placement(t) == Ok::<Placement, Seq<char>>(
                Placement {
                    bank_at_jmp: 0x37,
                    cli_before_jmp: true,
                    basic_clr: true,
                    restore_basic_end: Some(end),
                    ..asked_placement(s)->Ok_0
                },
            )
        }),
{
    the_basic_end_is_behind_its_region(regs, i);
    crate::address_laws::written_addresses_read_back((0x0801 + regs[i].data.len()) as u16);
    crate::address_laws::written_addresses_read_back(0xA7AE);
    crate::address_laws::written_bytes_read_back(0x37);
}

/// Switching "Force basic run" to what it is changes nothing; switching it off
/// leaves all RAM at the `JMP`, interrupts off and the automatic start.
pub proof fn switching_run_off_restores_the_defaults(
    regs: Seq<RegionModel>,
    hint: Option<u16>,
    s: SettingsModel,
)
    ensures
        with_run(regs, hint, s, s.run_basic) == s,
        s.run_basic ==> {
            let t = with_run(regs, hint, s, false);
            &&& !t.run_basic && t.start_auto && !t.cli_before_jmp
            &&& parsed_address(t.bank_text) == Ok::<u16, Seq<char>>(0x30)
            &&& regs.len() > 0 ==> start_target(regs, hint, t) == parsed_address(t.start_text)
            &&& t.restore_2d2e == s.restore_2d2e && t.restore_2d2e_text == s.restore_2d2e_text
        },
{
    crate::address_laws::written_bytes_read_back(0x30);
    if s.run_basic && regs.len() > 0 {
        crate::address_laws::written_addresses_read_back(start_default(regs, hint)->0);
    }
}

/// Detecting the start turns "Force basic run" on for a BASIC program and off
/// for anything else, from any fields; the jump then goes where the field says.
pub proof fn detecting_settles_the_run(
    regs: Seq<RegionModel>,
    hint: Option<u16>,
    s: SettingsModel,
)
    requires
        regs.len() > 0,
    ensures
        ({
            let t = with_detected_start(regs, hint, s);
            &&& t.run_basic <==> start_kind(regs, hint) is Basic
            &&& !t.run_basic ==> {
                &&& t.start_auto
                &&& start_target(regs, hint, t) == parsed_address(t.start_text)
                &&& start_default(regs, hint) == Some(start_target(regs, hint, t)->Ok_0)
            }
        }),
{
    if start_default(regs, hint) is Some {
        crate::address_laws::written_addresses_read_back(start_default(regs, hint)->0);
    }
}

/// While the `$2D/$2E` field follows the program, it shows the end of the first
/// region at `$0801`; a field that was edited by hand is left alone, and so is
/// everything else.
pub proof fn the_end_field_follows_the_program(regs: Seq<RegionModel>, s: SettingsModel, i: int)
    ensures
        ({
            let t = tracked_end(regs, s);
            &&& t == SettingsModel { restore_2d2e_text: t.restore_2d2e_text, ..s }
            &&& !s.restore_2d2e_auto || !has_basic(regs) ==> t == s
            &&& s.restore_2d2e_auto && is_first_basic(regs, i) && 0x0801 + regs[i].data.len()
                <= 0xFFFF ==> parsed_address(t.restore_2d2e_text) == Ok::<u16, Seq<char>>(
                (0x0801 + regs[i].data.len()) as u16,
            )
        }),
{
    the_basic_end_is_behind_its_region(regs, i);
    if is_first_basic(regs, i) && 0x0801 + regs[i].data.len() <= 0xFFFF {
        crate::address_laws::written_addresses_read_back((0x0801 + regs[i].data.len()) as u16);
    }
}

} // verus!
