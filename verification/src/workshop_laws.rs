//! What the operations on the workspace do.
use vstd::prelude::*;

#[allow(unused_imports)]
use crate::address::parsed_address;
#[allow(unused_imports)]
use crate::image::{
    after_edits, all_wf, edit_line, parsed_prg, patch_name, resized, EditRun, RegionModel,
};
#[allow(unused_imports)]
use crate::import::PartModel;
#[allow(unused_imports)]
use crate::report::{span_text, the_span_shown_reads_back, ReportModel};
#[allow(unused_imports)]
use crate::settings::{asked_placement, fresh_settings, SettingsModel};
#[allow(unused_imports)]
use crate::start::{start_default, start_kind, start_line, start_target, StartKind};
#[allow(unused_imports)]
use crate::text::{addresses_are_written_with_four_digits, decimal, hex4};
#[allow(unused_imports)]
use crate::workshop::{
    added_line, asked_job, cleared, crunched, crunching, exported_note, fresh_workshop, input_total,
    is_owned, last_level, may_crunch, resized_line, still_there, unpacked_note, wiped, with_deeper,
    with_edits, with_error, with_file, with_import, with_resize, with_unreadable, without_region,
    Activity, CrunchJob, Level, LineModel, LogKind, StatusModel, WorkshopModel,
};

verus! {

/// Whether the history of one workspace goes on from that of another.
pub open spec fn goes_on_from(after: WorkshopModel, before: WorkshopModel) -> bool {
    &&& after.log.len() > before.log.len()
    &&& after.log.take(before.log.len() as int) == before.log
}

/// Whether a region is the one that was added last, in front of which nothing
/// changed.
pub open spec fn joins(after: Seq<RegionModel>, before: Seq<RegionModel>, r: RegionModel) -> bool {
    &&& after.len() == before.len() + 1
    &&& after.last() == r
    &&& forall|i: int| 0 <= i < before.len() ==> #[trigger] after[i] == before[i]
}

/// A file that can be loaded joins the image as its last region, under its name
/// and where its first two bytes say. Earlier complaints and notes are gone,
/// the entry of the last import stays, and the history goes on with a success.
pub proof fn files_join_the_image(
    w: WorkshopModel,
    name: Seq<char>,
    load: u16,
    data: Seq<u8>,
)
    requires
        data.len() > 0,
        load + data.len() <= 0x1_0000,
    ensures
        ({
            let bytes = seq![(load % 256) as u8, (load / 256) as u8] + data;
            let t = with_file(w, name, bytes);
            &&& joins(t.image, w.image, RegionModel { name, load: load as int, data })
            &&& t.load_error is None
            &&& t.import_notes.len() == 0
            &&& t.import_hint == w.import_hint
            &&& t.format_idx == w.format_idx
            &&& t.editing_region == w.editing_region
            &&& goes_on_from(t, w)
            &&& t.log[w.log.len() as int].kind is Good
            &&& !(t.status is Done) && !(t.status is Failed)
        }),
{
    let bytes = seq![(load % 256) as u8, (load / 256) as u8] + data;
    crate::image_laws::files_load_where_they_say(name, load, data);
    let t = with_file(w, name, bytes);
    assert(t.image =~= w.image.push(RegionModel { name, load: load as int, data }));
    assert(t.log.take(w.log.len() as int) =~= w.log);
}

/// A file that cannot be loaded is complained about, in the place for errors
/// and in the history, and nothing else of the workspace but notes and an old
/// result changes.
pub proof fn refused_files_are_complained_about(
    w: WorkshopModel,
    name: Seq<char>,
    bytes: Seq<u8>,
)
    requires
        parsed_prg(name, bytes) is Err,
    ensures
        ({
            let t = with_file(w, name, bytes);
            &&& t.load_error == Some(parsed_prg(name, bytes)->Err_0)
            &&& goes_on_from(t, w)
            &&& t.log.len() == w.log.len() + 1
            &&& t.log.last().kind is Error
            &&& t.image == w.image && t.settings == w.settings && t.import_hint == w.import_hint
        }),
{
    let t = with_file(w, name, bytes);
    assert(t.log.take(w.log.len() as int) =~= w.log);
}

/// The same goes for a file that could not be read; what is shown names the
/// file and gives the reason.
pub proof fn unreadable_files_are_complained_about(
    w: WorkshopModel,
    name: Seq<char>,
    e: Seq<char>,
)
    ensures
        ({
            let t = with_unreadable(w, name, e);
            &&& t.load_error matches Some(text) && {
                &&& text.len() >= name.len() + e.len()
                &&& text.take(name.len() as int) == name
                &&& text.skip(text.len() - e.len()) == e
                &&& t.log.last().text == text
            }
            &&& goes_on_from(t, w)
            &&& t.log.last().kind is Error
            &&& t.image == w.image && t.settings == w.settings && t.import_hint == w.import_hint
        }),
{
    let t = with_unreadable(w, name, e);
    let text = t.load_error->0;
    assert(t.log.take(w.log.len() as int) =~= w.log);
    assert(text.take(name.len() as int) =~= name);
    assert(text.skip(text.len() - e.len()) =~= e);
}

/// The first file settles the start: the program runs as BASIC exactly if it is
/// one, and otherwise the jump goes to the default start of the image.
pub proof fn the_first_file_settles_the_start(
    w: WorkshopModel,
    name: Seq<char>,
    bytes: Seq<u8>,
)
    requires
        w.image.len() == 0,
        parsed_prg(name, bytes) is Ok,
    ensures
        ({
            let t = with_file(w, name, bytes);
            let jump = start_target(t.image, t.import_hint, t.settings);
            &&& t.settings.run_basic <==> start_kind(t.image, t.import_hint) is Basic
            &&& t.settings.run_basic ==> jump == Ok::<u16, Seq<char>>(0xA7AE)
            &&& !t.settings.run_basic ==> {
                &&& t.settings.start_auto
                &&& start_default(t.image, t.import_hint) == Some(jump->Ok_0)
                &&& parsed_address(t.settings.start_text) == jump
            }
            &&& t.settings.restore_2d2e_auto
        }),
{
    let t = with_file(w, name, bytes);
    let s = SettingsModel { restore_2d2e_auto: true, ..w.settings };
    crate::start_laws::detecting_settles_the_run(t.image, t.import_hint, s);
}

/// Every later file keeps an automatic start field up to date, and everything
/// else that was set but for the `$2D/$2E` field, which follows the program
/// again.
pub proof fn later_files_keep_the_start_up_to_date(
    w: WorkshopModel,
    name: Seq<char>,
    bytes: Seq<u8>,
)
    requires
        w.image.len() > 0,
        parsed_prg(name, bytes) is Ok,
    ensures
        ({
            let t = with_file(w, name, bytes);
            &&& t.settings == SettingsModel {
                start_text: t.settings.start_text,
                restore_2d2e_auto: true,
                ..w.settings
            }
            &&& w.settings.start_auto ==> parsed_address(t.settings.start_text) == Ok::<
                u16,
                Seq<char>,
            >(start_default(t.image, t.import_hint)->0)
        }),
{
    let t = with_file(w, name, bytes);
    crate::address_laws::written_addresses_read_back(start_default(t.image, t.import_hint)->0);
}

/// An unpacked program joins the image as its last region, under the name of
/// its file and cruncher; the entry that its depacker jumped to is kept as a
/// start, and a note says what was unpacked.
pub proof fn imports_join_the_image(w: WorkshopModel, name: Seq<char>, part: PartModel)
    requires
        parsed_prg(name + " ("@ + part.cruncher + ")"@, part.prg) is Ok,
    ensures
        ({
            let t = with_import(w, name, part);
            &&& joins(
                t.image,
                w.image,
                parsed_prg(name + " ("@ + part.cruncher + ")"@, part.prg)->Ok_0,
            )
            &&& t.import_hint == Some(part.jump_start)
            &&& t.import_notes.len() == w.import_notes.len() + 1
            &&& t.import_notes.take(w.import_notes.len() as int) == w.import_notes
            &&& t.load_error == w.load_error
            &&& goes_on_from(t, w)
            &&& t.log[w.log.len() as int] == (LineModel {
                kind: LogKind::Good,
                text: t.import_notes.last(),
            })
            &&& !(t.status is Done) && !(t.status is Failed)
        }),
{
    let t = with_import(w, name, part);
    let r = parsed_prg(name + " ("@ + part.cruncher + ")"@, part.prg)->Ok_0;
    assert(t.image =~= w.image.push(r));
    assert(t.log.take(w.log.len() as int) =~= w.log);
    assert(t.import_notes.take(w.import_notes.len() as int) =~= w.import_notes);
}

/// An unpacked program that cannot be loaded leaves the image and the start as
/// they were and is complained about, behind earlier complaints.
pub proof fn refused_imports_are_complained_about(
    w: WorkshopModel,
    name: Seq<char>,
    part: PartModel,
)
    requires
        parsed_prg(name + " ("@ + part.cruncher + ")"@, part.prg) is Err,
    ensures
        ({
            let t = with_import(w, name, part);
            &&& t.image == w.image && t.settings == w.settings && t.import_hint == w.import_hint
            &&& t.import_notes == w.import_notes
            &&& t.load_error is Some
            &&& goes_on_from(t, w)
            &&& t.log.last().kind is Error
        }),
{
    let t = with_import(w, name, part);
    assert(t.log.take(w.log.len() as int) =~= w.log);
}

/// Complaints add up: each stands on a line of its own behind the earlier ones.
pub proof fn complaints_add_up(prev: Seq<char>, msg: Seq<char>)
    ensures
        with_error(None, msg) == Some(msg),
        with_error(Some(prev), msg) matches Some(text) && {
            &&& text.len() == prev.len() + 1 + msg.len()
            &&& text.take(prev.len() as int) == prev
            &&& text[prev.len() as int] == '\n'
            &&& text.skip(prev.len() as int + 1) == msg
        },
{
    reveal_strlit("\n");
    let text = with_error(Some(prev), msg)->0;
    assert(text.take(prev.len() as int) =~= prev);
    assert(text.skip(prev.len() as int + 1) =~= msg);
}

/// A level that was just imported is where it is said to be.
pub proof fn imported_levels_are_the_last_region(regs: Seq<RegionModel>, depth: int)
    requires
        all_wf(regs),
        0 < regs.len() <= usize::MAX,
        0 <= depth <= usize::MAX,
    ensures
        ({
            let level = last_level(regs, depth);
            &&& level.region_idx == regs.len() - 1
            &&& level.load == regs[regs.len() - 1].load
            &&& level.len == regs[regs.len() - 1].data.len()
            &&& level.depth == depth
            &&& still_there(regs, level)
        }),
{
    assert(regs[regs.len() - 1].wf());
}

/// A deeper layer takes the place of the level under which it was found: that
/// region goes, as long as it is still the one that was looked at, and the
/// unpacked program joins as the last. A region that was changed meanwhile
/// stays.
pub proof fn deeper_layers_replace_their_level(
    w: WorkshopModel,
    name: Seq<char>,
    level: Level,
    part: PartModel,
)
    requires
        parsed_prg(
            name + " (level "@ + decimal((level.depth + 1) as nat) + " · "@ + part.cruncher + ")"@,
            part.prg,
        ) is Ok,
    ensures
        ({
            let t = with_deeper(w, name, level, part);
            let i = level.region_idx as int;
            let same = 0 <= i < w.image.len() && w.image[i].load == level.load
                && w.image[i].data.len() == level.len;
            let r = parsed_prg(
                name + " (level "@ + decimal((level.depth + 1) as nat) + " · "@ + part.cruncher
                    + ")"@,
                part.prg,
            )->Ok_0;
            &&& same ==> joins(t.image, w.image.remove(i), r)
            &&& !same ==> joins(t.image, w.image, r)
            &&& t.import_hint == Some(part.jump_start)
            &&& goes_on_from(t, w)
        }),
{
    let t = with_deeper(w, name, level, part);
    let i = level.region_idx as int;
    let r = parsed_prg(
        name + " (level "@ + decimal((level.depth + 1) as nat) + " · "@ + part.cruncher + ")"@,
        part.prg,
    )->Ok_0;
    if still_there(w.image, level) {
        assert(t.image =~= w.image.remove(i).push(r));
    } else {
        assert(t.image =~= w.image.push(r));
    }
    assert(t.log.take(w.log.len() as int) =~= w.log);
}

/// Removing a region removes that one alone; the others move up in their order.
/// What an import left behind goes with it, the start field is brought up to
/// date, and the rest of the settings stays.
pub proof fn removing_a_region_removes_that_one(w: WorkshopModel, idx: int)
    requires
        0 <= idx < w.image.len(),
    ensures
        ({
            let t = without_region(w, idx);
            &&& t.image.len() == w.image.len() - 1
            &&& forall|i: int| 0 <= i < idx ==> #[trigger] t.image[i] == w.image[i]
            &&& forall|i: int| idx <= i < t.image.len() ==> #[trigger] t.image[i] == w.image[i + 1]
            &&& t.import_hint is None && t.editing_region is None
            &&& t.settings == SettingsModel { start_text: t.settings.start_text, ..w.settings }
            &&& w.settings.start_auto && t.image.len() > 0 ==> parsed_address(
                t.settings.start_text,
            ) == Ok::<u16, Seq<char>>(start_default(t.image, None)->0)
            &&& goes_on_from(t, w)
        }),
{
    let t = without_region(w, idx);
    assert(t.log.take(w.log.len() as int) =~= w.log);
    if t.image.len() > 0 {
        crate::address_laws::written_addresses_read_back(start_default(t.image, None)->0);
    }
}

/// A resize that is refused changes nothing but the history; one that is done
/// ends the editing, and the start field is brought up to date.
pub proof fn resizing_ends_the_editing(w: WorkshopModel, idx: int, start: int, end: int)
    requires
        0 <= idx < w.image.len(),
    ensures
        ({
            let t = with_resize(w, idx, start, end);
            &&& goes_on_from(t, w)
            &&& t.log.len() == w.log.len() + 1
            &&& start < end <= 0x1_0000 ==> {
                &&& resized(w.image, idx, start, end) == Ok::<Seq<RegionModel>, Seq<char>>(t.image)
                &&& t.image[idx].load == start && t.image[idx].end() == end
                &&& t.editing_region is None
                &&& t.log.last().kind is Good
                &&& w.settings.start_auto ==> parsed_address(t.settings.start_text) == Ok::<
                    u16,
                    Seq<char>,
                >(start_default(t.image, t.import_hint)->0)
            }
            &&& !(start < end <= 0x1_0000) ==> {
                &&& t == WorkshopModel { log: t.log, ..w }
                &&& t.log.last().kind is Error
            }
        }),
{
    let t = with_resize(w, idx, start, end);
    assert(t.log.take(w.log.len() as int) =~= w.log);
    if start < end <= 0x1_0000 {
        crate::address_laws::written_addresses_read_back(start_default(t.image, t.import_hint)->0);
    }
}

/// Edits in the memory view change the image and say so, one line for each run;
/// as long as no region was added the settings and notes stay, and with one the
/// start is brought up to date.
pub proof fn memory_edits_change_the_image(w: WorkshopModel, synced: Seq<u8>, new: Seq<u8>)
    ensures
        ({
            let t = with_edits(w, synced, new);
            let runs = crate::image::edit_runs(w.image, synced, new, 0);
            &&& t.image == after_edits(w.image, synced, new)
            &&& t.log.len() == w.log.len() + runs.len()
            &&& t.log.take(w.log.len() as int) == w.log
            &&& forall|k: int|
                0 <= k < runs.len() ==> #[trigger] t.log[w.log.len() + k] == (LineModel {
                    kind: LogKind::Info,
                    text: edit_line(w.image, runs[k]),
                })
            &&& t.import_hint == w.import_hint
            &&& t.image.len() == w.image.len() ==> t.settings == w.settings && t.import_notes
                == w.import_notes
            &&& t.image.len() != w.image.len() && w.settings.start_auto && t.image.len() > 0
                ==> parsed_address(t.settings.start_text) == Ok::<u16, Seq<char>>(
                start_default(t.image, t.import_hint)->0,
            )
        }),
{
    let t = with_edits(w, synced, new);
    assert(t.log.take(w.log.len() as int) =~= w.log);
    if t.image.len() > 0 {
        crate::address_laws::written_addresses_read_back(start_default(t.image, t.import_hint)->0);
    }
}

/// Wiping brings back a fresh workspace; only the history stays, and says so.
pub proof fn wiping_brings_back_a_fresh_workspace(w: WorkshopModel)
    ensures
        ({
            let t = wiped(w);
            &&& t == WorkshopModel {
                log: t.log,
                edit_start_text: w.edit_start_text,
                edit_end_text: w.edit_end_text,
                ..fresh_workshop()
            }
            &&& goes_on_from(t, w)
            &&& t.image.len() == 0 && t.import_notes.len() == 0
            &&& t.import_hint is None && t.load_error is None && t.editing_region is None
            &&& t.status is Idle
            &&& t.format_idx == 0
            &&& t.settings == fresh_settings()
        }),
{
    let t = wiped(w);
    assert(t.log.take(w.log.len() as int) =~= w.log);
}

/// An old result is cleared by whatever changes the workspace; a crunch that is
/// under way is not.
pub proof fn only_a_running_crunch_survives(status: StatusModel)
    ensures
        status is Working ==> cleared(status) is Working,
        !(status is Working) ==> cleared(status) is Idle,
{
}

/// A crunch starts exactly if the jump and the placement can be read from the
/// fields, with those two; otherwise it fails with the first reason, the jump's
/// before the placement's.
pub proof fn crunches_start_with_what_the_fields_say(w: WorkshopModel, label: Seq<char>)
    ensures
        ({
            let t = crunching(w, label);
            let jump = start_target(w.image, w.import_hint, w.settings);
            let place = asked_placement(w.settings);
            &&& t == WorkshopModel { log: t.log, status: t.status, ..w }
            &&& goes_on_from(t, w)
            &&& jump is Ok && place is Ok ==> t.status is Working && asked_job(w) == Ok::<
                CrunchJob,
                Seq<char>,
            >(CrunchJob { start_addr: jump->Ok_0, placement: place->Ok_0 })
            &&& jump matches Err(e) ==> t.status == StatusModel::Failed(e) && t.log.last().text == e
            &&& jump is Ok && place is Err ==> t.status == StatusModel::Failed(place->Err_0)
                && t.log.last().text == place->Err_0
            &&& t.status is Failed ==> t.log.last().kind is Error
        }),
{
    let t = crunching(w, label);
    assert(t.log.take(w.log.len() as int) =~= w.log);
}

/// A crunch ends with its report, and each of its warnings is told in the
/// history; or with the reason why it failed. Nothing else changes.
pub proof fn crunches_end_with_their_report(
    w: WorkshopModel,
    r: ReportModel,
    e: Seq<char>,
)
    ensures
        ({
            let t = crunched(w, Ok(r));
            &&& t == WorkshopModel { log: t.log, status: StatusModel::Done(r), ..w }
            &&& goes_on_from(t, w)
            &&& t.log.len() == w.log.len() + 1 + r.warnings.len()
            &&& t.log[w.log.len() as int].kind is Good
            &&& forall|i: int|
                0 <= i < r.warnings.len() ==> #[trigger] t.log[w.log.len() + 1 + i] == (LineModel {
                    kind: LogKind::Warn,
                    text: r.warnings[i],
                })
        }),
        ({
            let t = crunched(w, Err(e));
            &&& t == WorkshopModel { log: t.log, status: StatusModel::Failed(e), ..w }
            &&& goes_on_from(t, w)
            &&& t.log.last().kind is Error
            &&& t.log.last().text.skip(t.log.last().text.len() - e.len()) == e
        }),
{
    let t = crunched(w, Ok(r));
    assert(t.log.take(w.log.len() as int) =~= w.log);
    let u = crunched(w, Err(e));
    assert(u.log.take(w.log.len() as int) =~= w.log);
    assert(u.log.last().text.skip(u.log.last().text.len() - e.len()) =~= e);
}

/// The input is counted as the files were: each region with the two bytes of
/// its load address.
pub proof fn the_input_counts_every_file(regs: Seq<RegionModel>, r: RegionModel)
    ensures
        input_total(Seq::empty()) == 0,
        input_total(regs.push(r)) == input_total(regs) + r.data.len() + 2,
        input_total(regs) >= 2 * regs.len(),
    decreases regs.len(),
{
    assert(regs.push(r).drop_last() =~= regs);
    if regs.len() > 0 {
        the_input_counts_every_file(regs.drop_last(), r);
    }
}

/// What is said about the detected start ends with the address, if it is one.
pub proof fn the_start_line_shows_the_start(a: u16)
    ensures
        ({
            let t = start_line(StartKind::Sys(a));
            t.skip(t.len() - 4) == hex4(a as nat)
        }),
        ({
            let t = start_line(StartKind::Address(a));
            t.skip(t.len() - 4) == hex4(a as nat)
        }),
{
    addresses_are_written_with_four_digits(a, 0);
    let t = start_line(StartKind::Sys(a));
    assert(t.skip(t.len() - 4) =~= hex4(a as nat));
    let u = start_line(StartKind::Address(a));
    assert(u.skip(u.len() - 4) =~= hex4(a as nat));
}

/// An unpacked program settles the start like a file does: alone in the image
/// it runs as BASIC exactly if it is one, and otherwise the jump goes to the
/// default start, for which the entry of its depacker counts; beside others it
/// brings an automatic start field up to date and leaves a typed one alone.
pub proof fn imports_settle_the_start(w: WorkshopModel, name: Seq<char>, part: PartModel)
    requires
        parsed_prg(name + " ("@ + part.cruncher + ")"@, part.prg) is Ok,
    ensures
        ({
            let t = with_import(w, name, part);
            let jump = start_target(t.image, Some(part.jump_start), t.settings);
            let kind = start_kind(t.image, Some(part.jump_start));
            &&& t.settings.restore_2d2e_auto
            &&& w.image.len() == 0 ==> {
                &&& t.settings.run_basic <==> kind is Basic
                &&& t.settings.run_basic ==> jump == Ok::<u16, Seq<char>>(0xA7AE)
                &&& !t.settings.run_basic ==> {
                    &&& start_default(t.image, Some(part.jump_start)) == Some(jump->Ok_0)
                    &&& parsed_address(t.settings.start_text) == jump
                }
            }
            &&& w.image.len() > 0 ==> {
                &&& t.settings.run_basic == w.settings.run_basic
                &&& !w.settings.start_auto ==> t.settings.start_text == w.settings.start_text
                &&& w.settings.start_auto ==> parsed_address(t.settings.start_text) == Ok::<
                    u16,
                    Seq<char>,
                >(start_default(t.image, Some(part.jump_start))->0)
            }
        }),
{
    let t = with_import(w, name, part);
    let s = SettingsModel { restore_2d2e_auto: true, ..w.settings };
    crate::start_laws::detecting_settles_the_run(t.image, t.import_hint, s);
    crate::address_laws::written_addresses_read_back(start_default(t.image, t.import_hint)->0);
}

/// Whether a range stands in a text from a position on, written so that it
/// reads back.
pub open spec fn shows_range(t: Seq<char>, from: int, lo: int, hi: int) -> bool {
    &&& t.len() >= from + 11
    &&& t.subrange(from, from + 11) == span_text((lo as u32, hi as u32))
}

proof fn lemma_shows(head: Seq<char>, lo: int, hi: int, rest: Seq<char>)
    requires
        0 <= lo < hi <= 0x1_0000,
    ensures
        span_text((lo as u32, hi as u32)).len() == 11,
        shows_range(head + span_text((lo as u32, hi as u32)) + rest, head.len() as int, lo, hi),
{
    the_span_shown_reads_back(lo as u16, hi as u32);
    let w = span_text((lo as u32, hi as u32));
    let t = head + w + rest;
    assert(t.subrange(head.len() as int, head.len() as int + 11) =~= w);
}

/// A range in the middle of a line, where the `$` belongs to the words before.
proof fn lemma_middle(before: Seq<char>, head: Seq<char>, lo: nat, last: nat, rest: Seq<char>)
    requires
        before == head + "$"@,
    ensures
        before + hex4(lo) + "-$"@ + hex4(last) + rest == head + ("$"@ + hex4(lo) + "-$"@ + hex4(
            last,
        )) + rest,
{
    let w = "$"@ + hex4(lo) + "-$"@ + hex4(last);
    assert(head + ("$"@ + hex4(lo)) =~= before + hex4(lo));
    assert(head + ("$"@ + hex4(lo) + "-$"@) =~= before + hex4(lo) + "-$"@);
    assert(head + w =~= before + hex4(lo) + "-$"@ + hex4(last));
}

/// A line about a file that was added names it and shows the range that it
/// takes.
pub proof fn added_files_show_their_range(name: Seq<char>, r: RegionModel)
    requires
        r.wf(),
    ensures
        added_line(name, r).subrange(6, 6 + name.len() as int) == name,
        shows_range(added_line(name, r), name.len() as int + 8, r.load, r.end()),
{
    reveal_strlit("Added ");
    reveal_strlit(": $");
    reveal_strlit(": ");
    reveal_strlit("$");
    let t = added_line(name, r);
    let head = "Added "@ + name + ": "@;
    let rest = " ("@ + decimal(r.data.len()) + " B)"@;
    assert("Added "@ + name + ": $"@ =~= head + "$"@);
    lemma_middle(
        "Added "@ + name + ": $"@,
        head,
        r.load as nat,
        (r.end() - 1) as nat,
        rest,
    );
    lemma_shows(head, r.load, r.end(), rest);
    assert(t =~= "Added "@ + name + ": $"@ + hex4(r.load as nat) + "-$"@ + hex4(
        (r.end() - 1) as nat,
    ) + rest);
    assert(t.subrange(6, 6 + name.len() as int) =~= name);
}

/// A note about an unpacked program names its cruncher and shows its range.
pub proof fn unpacked_programs_show_their_range(intro: Seq<char>, part: PartModel)
    requires
        part.start <= part.end,
    ensures
        ({
            let t = unpacked_note(intro, part);
            let from = intro.len() + part.cruncher.len() as int;
            &&& t.subrange(intro.len() as int, from) == part.cruncher
            &&& shows_range(t, from + 13, part.start as int, part.end + 1)
        }),
{
    reveal_strlit(" unpacked to $");
    reveal_strlit(" unpacked to ");
    reveal_strlit("$");
    let t = unpacked_note(intro, part);
    let head = intro + part.cruncher + " unpacked to "@;
    let rest = " ("@ + decimal((part.end - part.start + 1) as nat) + " B)"@;
    let before = intro + part.cruncher + " unpacked to $"@;
    assert(before =~= head + "$"@);
    lemma_middle(before, head, part.start as nat, part.end as nat, rest);
    lemma_shows(head, part.start as int, part.end + 1, rest);
    assert(t =~= before + hex4(part.start as nat) + "-$"@ + hex4(part.end as nat) + rest);
    assert(t.subrange(intro.len() as int, intro.len() + part.cruncher.len() as int)
        =~= part.cruncher);
}

/// A note about an uncompressed export shows the range that was written.
pub proof fn exports_show_their_range(name: Seq<char>, lo: u16, hi: u32)
    requires
        lo < hi <= 0x1_0000,
    ensures
        shows_range(exported_note((lo as u32, hi), name), 22, lo as int, hi as int),
{
    reveal_strlit("exported uncompressed $");
    reveal_strlit("exported uncompressed ");
    reveal_strlit("$");
    let t = exported_note((lo as u32, hi), name);
    let head = "exported uncompressed "@;
    let rest = " ("@ + decimal((hi - lo) as nat) + " B) to "@ + name;
    assert("exported uncompressed $"@ =~= head + "$"@);
    lemma_middle("exported uncompressed $"@, head, lo as nat, (hi - 1) as nat, rest);
    lemma_shows(head, lo as int, hi as int, rest);
    assert(t =~= "exported uncompressed $"@ + hex4(lo as nat) + "-$"@ + hex4((hi - 1) as nat)
        + rest);
}

/// A line about a resize names the region and shows the range that it had.
pub proof fn resizes_show_the_range_before(r: RegionModel, lo: int, hi: int)
    requires
        0 <= lo < hi <= 0x1_0000,
        r.wf(),
    ensures
        shows_range(resized_line(r, lo, hi), r.name.len() as int + 10, r.load, r.end()),
{
    reveal_strlit("Resized ");
    reveal_strlit(": $");
    reveal_strlit(": ");
    reveal_strlit("$");
    let t = resized_line(r, lo, hi);
    let head = "Resized "@ + r.name + ": "@;
    let before = "Resized "@ + r.name + ": $"@;
    let rest = " → $"@ + hex4(lo as nat) + "-$"@ + hex4((hi - 1) as nat) + " ("@ + decimal(
        (hi - lo) as nat,
    ) + " B)"@;
    assert(before =~= head + "$"@);
    lemma_middle(before, head, r.load as nat, (r.end() - 1) as nat, rest);
    lemma_shows(head, r.load, r.end(), rest);
    assert(t =~= before + hex4(r.load as nat) + "-$"@ + hex4((r.end() - 1) as nat) + rest);
}

/// A line about a resize shows the range that the region got behind the one
/// that it had.
pub proof fn resizes_show_the_range_behind(r: RegionModel, lo: int, hi: int)
    requires
        0 <= lo < hi <= 0x1_0000,
        r.wf(),
    ensures
        shows_range(resized_line(r, lo, hi), r.name.len() as int + 24, lo, hi),
{
    reveal_strlit("Resized ");
    reveal_strlit(": $");
    reveal_strlit("-$");
    reveal_strlit(" → $");
    reveal_strlit(" → ");
    reveal_strlit("$");
    addresses_are_written_with_four_digits(r.load as u16, 0);
    addresses_are_written_with_four_digits((r.end() - 1) as u16, 0);
    let t = resized_line(r, lo, hi);
    let had = "Resized "@ + r.name + ": $"@ + hex4(r.load as nat) + "-$"@ + hex4(
        (r.end() - 1) as nat,
    );
    let rest = " ("@ + decimal((hi - lo) as nat) + " B)"@;
    assert(had + " → $"@ =~= had + " → "@ + "$"@);
    lemma_middle(had + " → $"@, had + " → "@, lo as nat, (hi - 1) as nat, rest);
    lemma_shows(had + " → "@, lo, hi, rest);
    assert(t =~= had + " → $"@ + hex4(lo as nat) + "-$"@ + hex4((hi - 1) as nat) + rest);
    assert((had + " → "@).len() == r.name.len() + 24);
}

/// A line about an edit within a region shows the range that was changed.
pub proof fn edits_show_their_range(regs: Seq<RegionModel>, run: EditRun, i: int)
    requires
        0 <= run.start < run.end <= 0x1_0000,
        run.owner == Some(i),
    ensures
        shows_range(edit_line(regs, run), 7, run.start, run.end),
{
    reveal_strlit("Edited $");
    reveal_strlit("Edited ");
    reveal_strlit("$");
    let t = edit_line(regs, run);
    let rest = " ("@ + decimal((run.end - run.start) as nat) + " B) in "@ + regs[i].name;
    assert("Edited $"@ =~= "Edited "@ + "$"@);
    lemma_middle("Edited $"@, "Edited "@, run.start as nat, (run.end - 1) as nat, rest);
    lemma_shows("Edited "@, run.start, run.end, rest);
    assert(t =~= "Edited $"@ + hex4(run.start as nat) + "-$"@ + hex4((run.end - 1) as nat) + rest);
}

/// A line about a region that an edit added shows its range.
pub proof fn added_patches_show_their_range(regs: Seq<RegionModel>, run: EditRun)
    requires
        0 <= run.start < run.end <= 0x1_0000,
        run.owner is None,
    ensures
        shows_range(edit_line(regs, run), 25, run.start, run.end),
{
    reveal_strlit("New region ");
    reveal_strlit("edit @ $");
    reveal_strlit(" ($");
    reveal_strlit(" (");
    reveal_strlit("$");
    addresses_are_written_with_four_digits(run.start as u16, 0);
    let t = edit_line(regs, run);
    let head = "New region "@ + patch_name(run.start) + " ("@;
    let before = "New region "@ + patch_name(run.start) + " ($"@;
    let rest = ", "@ + decimal((run.end - run.start) as nat) + " B)"@;
    assert(before =~= head + "$"@);
    lemma_middle(before, head, run.start as nat, (run.end - 1) as nat, rest);
    lemma_shows(head, run.start, run.end, rest);
    assert(t =~= before + hex4(run.start as nat) + "-$"@ + hex4((run.end - 1) as nat) + rest);
    assert(head.len() == 25);
}

/// Edits are blocked by every job on its own, and by nothing else. A crunch is
/// kept from starting by a crunch, an import or a comparison, by an empty image
/// and by a missing file; an export or a probe alone does not.
pub proof fn running_jobs_own_the_workspace(w: WorkshopModel, a: Activity, has_output: bool)
    ensures
        w.status is Working ==> is_owned(w, a) && !may_crunch(w, a, has_output),
        a.importing || a.comparing ==> is_owned(w, a) && !may_crunch(w, a, has_output),
        a.exporting || a.probing ==> is_owned(w, a),
        is_owned(w, a) ==> w.status is Working || a != (Activity {
            importing: false,
            comparing: false,
            exporting: false,
            probing: false,
        }),
        may_crunch(w, a, has_output) && is_owned(w, a) ==> a.exporting || a.probing,
        !is_owned(w, a) && w.image.len() > 0 && has_output ==> may_crunch(w, a, has_output),
        may_crunch(w, a, has_output) ==> w.image.len() > 0 && has_output,
        may_crunch(w, a, has_output) == may_crunch(
            w,
            Activity { exporting: !a.exporting, probing: !a.probing, ..a },
            has_output,
        ),
{
}

} // verus!
