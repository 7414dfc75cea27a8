//! The workspace: the image, the settings and the history of what happened.
use vstd::prelude::*;

#[allow(unused_imports)]
use crate::address::parsed_range;
use crate::image::MemoryImage;
#[allow(unused_imports)]
use crate::image::{
    after_edits, all_wf, byte_at, edit_lines, edit_runs, models, parsed_prg, resized,
    span_bounds_every_region, span_of, RegionModel,
};
use crate::import::ImportedPart;
#[allow(unused_imports)]
use crate::import::PartModel;
use crate::placement::Placement;
#[allow(unused_imports)]
use crate::plan::image_span;
use crate::report::Report;
#[allow(unused_imports)]
use crate::report::{crunch_line, ReportModel};
use crate::settings::{address_field, Settings};
#[allow(unused_imports)]
use crate::sfx::span_bytes;
#[allow(unused_imports)]
use crate::settings::{address_text, asked_placement, fresh_settings, SettingsModel};
#[allow(unused_imports)]
use crate::start::{refreshed, start_kind, start_line, start_target, with_detected_start};
use crate::text::{push_decimal, push_hex4};
#[allow(unused_imports)]
use crate::text::{decimal, hex4, texts};

verus! {

/// How a line of the history is shown.
#[derive(Clone, Copy, PartialEq, Eq, Structural, Debug)]
pub enum LogKind {
    /// Section divider or headline.
    Head,
    /// Neutral fact.
    Info,
    /// Success.
    Good,
    /// Non-fatal problem.
    Warn,
    /// Failure.
    Error,
    /// De-emphasized aside.
    Muted,
}

/// A line of the history.
pub struct LogLine {
    pub kind: LogKind,
    pub text: String,
}

/// What a [`LogLine`] holds.
pub struct LineModel {
    pub kind: LogKind,
    pub text: Seq<char>,
}

impl View for LogLine {
    type V = LineModel;

    open spec fn view(&self) -> LineModel {
        LineModel { kind: self.kind, text: self.text@ }
    }
}

/// What the lines hold.
pub open spec fn lines(log: Seq<LogLine>) -> Seq<LineModel> {
    Seq::new(log.len(), |i: int| log[i]@)
}

/// The state of the last crunch.
pub enum Status {
    Idle,
    Working,
    Done(Report),
    Failed(String),
}

/// What a [`Status`] holds.
pub enum StatusModel {
    Idle,
    Working,
    Done(ReportModel),
    Failed(Seq<char>),
}

impl View for Status {
    type V = StatusModel;

    open spec fn view(&self) -> StatusModel {
        match self {
            Status::Idle => StatusModel::Idle,
            Status::Working => StatusModel::Working,
            Status::Done(r) => StatusModel::Done(r@),
            Status::Failed(e) => StatusModel::Failed(e@),
        }
    }
}

/// The workspace.
pub struct Workshop {
    pub image: MemoryImage,
    pub settings: Settings,
    /// Selected entry of the cruncher list.
    pub format_idx: usize,
    /// Entry point the last imported file's depacker jumped to; start-address
    /// fallback when the image has no `SYS` stub.
    pub import_hint: Option<u16>,
    pub import_notes: Vec<String>,
    pub load_error: Option<String>,
    /// Region whose start and end address is being edited, with its fields.
    pub editing_region: Option<usize>,
    pub edit_start_text: String,
    pub edit_end_text: String,
    pub status: Status,
    pub log: Vec<LogLine>,
}

/// What a [`Workshop`] holds.
#[verifier::ext_equal]
pub struct WorkshopModel {
    pub image: Seq<RegionModel>,
    pub settings: SettingsModel,
    pub format_idx: int,
    pub import_hint: Option<u16>,
    pub import_notes: Seq<Seq<char>>,
    pub load_error: Option<Seq<char>>,
    pub editing_region: Option<int>,
    pub edit_start_text: Seq<char>,
    pub edit_end_text: Seq<char>,
    pub status: StatusModel,
    pub log: Seq<LineModel>,
}

impl View for Workshop {
    type V = WorkshopModel;

    open spec fn view(&self) -> WorkshopModel {
        WorkshopModel {
            image: self.image@,
            settings: self.settings@,
            format_idx: self.format_idx as int,
            import_hint: self.import_hint,
            import_notes: texts(self.import_notes@),
            load_error: match self.load_error {
                Some(e) => Some(e@),
                None => None,
            },
            editing_region: match self.editing_region {
                Some(i) => Some(i as int),
                None => None,
            },
            edit_start_text: self.edit_start_text@,
            edit_end_text: self.edit_end_text@,
            status: self.status@,
            log: lines(self.log@),
        }
    }
}

/// The workspace with a line added to its history.
pub open spec fn logged(w: WorkshopModel, kind: LogKind, text: Seq<char>) -> WorkshopModel {
    WorkshopModel { log: w.log.push(LineModel { kind, text }), ..w }
}

/// A status that may be dropped is dropped; a running crunch owns it until it
/// finishes.
pub open spec fn cleared(status: StatusModel) -> StatusModel {
    if status is Working {
        status
    } else {
        StatusModel::Idle
    }
}

/// A fresh workspace.
pub open spec fn fresh_workshop() -> WorkshopModel {
    WorkshopModel {
        image: Seq::empty(),
        settings: fresh_settings(),
        format_idx: 0,
        import_hint: None,
        import_notes: Seq::empty(),
        load_error: None,
        editing_region: None,
        edit_start_text: Seq::empty(),
        edit_end_text: Seq::empty(),
        status: StatusModel::Idle,
        log: Seq::empty(),
    }
}

impl Workshop {
    /// Every region is well formed.
    pub open spec fn wf(&self) -> bool {
        self.image.wf()
    }

    /// A fresh workspace.
    pub fn new() -> (r: Workshop)
        ensures
            r@ == fresh_workshop(),
            r.wf(),
    {
        let r = Workshop {
            image: MemoryImage::default(),
            settings: Settings::default(),
            format_idx: 0,
            import_hint: None,
            import_notes: Vec::new(),
            load_error: None,
            editing_region: None,
            edit_start_text: String::new(),
            edit_end_text: String::new(),
            status: Status::Idle,
            log: Vec::new(),
        };
        assert(r@ =~= fresh_workshop());
        r
    }

    /// Adds a line to the history.
    pub fn log(&mut self, kind: LogKind, text: String)
        ensures
            final(self)@ == logged(old(self)@, kind, text@),
            final(self).image == old(self).image,
    {
        self.log.push(LogLine { kind, text });
        assert(self@ =~= logged(old(self)@, kind, text@));
    }

    /// Resets to idle unless a crunch is running. Region edits must not wipe the
    /// status of a running crunch, which would also let a second one race for
    /// the output file.
    pub fn clear_status(&mut self)
        ensures
            final(self)@ == (WorkshopModel { status: cleared(old(self)@.status), ..old(self)@ }),
            final(self).image == old(self).image,
    {
        match self.status {
            Status::Working => {},
            _ => {
                self.status = Status::Idle;
            },
        }
        assert(self@ =~= WorkshopModel { status: cleared(old(self)@.status), ..old(self)@ });
    }
}

/// The errors with one more behind them, on a line of its own.
pub open spec fn with_error(load_error: Option<Seq<char>>, msg: Seq<char>) -> Option<Seq<char>> {
    match load_error {
        Some(prev) => Some(prev + "\n"@ + msg),
        None => Some(msg),
    }
}

/// Bookkeeping once a region landed in the image: `$2D/$2E` is tracked again,
/// and only the first file drives the start default and BASIC detection; later
/// additions do not clobber the user's choices.
pub open spec fn after_region(w: WorkshopModel) -> WorkshopModel {
    let s = SettingsModel { restore_2d2e_auto: true, ..w.settings };
    if w.image.len() == 1 {
        logged(
            WorkshopModel { settings: with_detected_start(w.image, w.import_hint, s), ..w },
            LogKind::Info,
            start_line(start_kind(w.image, w.import_hint)),
        )
    } else {
        WorkshopModel { settings: refreshed(w.image, w.import_hint, s), ..w }
    }
}

impl Workshop {
    /// Puts an error behind those that are already shown.
    pub fn push_load_error(&mut self, msg: &String)
        ensures
            final(self)@ == (WorkshopModel {
                load_error: with_error(old(self)@.load_error, msg@),
                ..old(self)@
            }),
            final(self).image == old(self).image,
    {
        let text = match &self.load_error {
            Some(prev) => {
                let mut s = prev.clone();
                s.append("\n");
                s.append(msg.as_str());
                s
            },
            None => msg.clone(),
        };
        self.load_error = Some(text);
        assert(self@ =~= WorkshopModel {
            load_error: with_error(old(self)@.load_error, msg@),
            ..old(self)@
        });
    }

    /// Bookkeeping shared by adding and importing once a region landed in the
    /// image.
    pub fn after_region_added(&mut self)
        requires
            old(self).wf(),
        ensures
            final(self)@ == after_region(old(self)@),
            final(self).image == old(self).image,
    {
        self.settings.restore_2d2e_auto = true;
        let ghost s = self.settings@;
        assert(s == (SettingsModel { restore_2d2e_auto: true, ..old(self)@.settings }));
        if self.image.regions().len() == 1 {
            let line = self.settings.detect_and_apply_start(&self.image, self.import_hint);
            self.log(LogKind::Info, line);
        } else {
            self.settings.refresh_start_default(&self.image, self.import_hint);
        }
    }
}

/// A fresh round of loading: old errors and notes go.
pub open spec fn loading(w: WorkshopModel) -> WorkshopModel {
    WorkshopModel {
        load_error: None,
        import_notes: Seq::empty(),
        status: cleared(w.status),
        ..w
    }
}

/// Why a file could not be read.
pub open spec fn unreadable_text(name: Seq<char>, e: Seq<char>) -> Seq<char> {
    name + ": could not read the file: "@ + e
}

/// What is said about an added file.
pub open spec fn added_line(name: Seq<char>, r: RegionModel) -> Seq<char> {
    "Added "@ + name + ": $"@ + hex4(r.load as nat) + "-$"@ + hex4((r.end() - 1) as nat) + " ("@
        + decimal(r.data.len()) + " B)"@
}

/// The workspace after a file was added.
pub open spec fn with_file(w: WorkshopModel, name: Seq<char>, bytes: Seq<u8>) -> WorkshopModel {
    let w = loading(w);
    match parsed_prg(name, bytes) {
        Err(e) => logged(
            WorkshopModel { load_error: Some(e), ..w },
            LogKind::Error,
            name + ": "@ + e,
        ),
        Ok(r) => after_region(
            logged(
                WorkshopModel { image: w.image.push(r), ..w },
                LogKind::Good,
                added_line(name, r),
            ),
        ),
    }
}

/// The workspace after a file could not be read.
pub open spec fn with_unreadable(w: WorkshopModel, name: Seq<char>, e: Seq<char>) -> WorkshopModel {
    let w = loading(w);
    let text = unreadable_text(name, e);
    logged(WorkshopModel { load_error: Some(text), ..w }, LogKind::Error, text)
}

/// Joins a name and a message.
fn name_and(name: &str, sep: &str, e: &str) -> (r: String)
    ensures
        r@ == name@ + sep@ + e@,
{
    let mut s = name.to_owned();
    s.append(sep);
    s.append(e);
    s
}

impl Workshop {
    /// Starts a fresh round of loading.
    pub fn begin_loading(&mut self)
        ensures
            final(self)@ == loading(old(self)@),
            final(self).image == old(self).image,
    {
        self.load_error = None;
        self.import_notes = Vec::new();
        self.clear_status();
        assert(self@ =~= loading(old(self)@));
    }

    /// Adds a `.prg` file that was read, or says why it could not be.
    pub fn add_prg(&mut self, name: &str, bytes: &Result<Vec<u8>, String>)
        requires
            old(self).wf(),
        ensures
            final(self).wf(),
            final(self)@ == match bytes {
                Ok(b) => with_file(old(self)@, name@, b@),
                Err(e) => with_unreadable(old(self)@, name@, e@),
            },
    {
        self.begin_loading();
        let ghost start = self@;
        match bytes {
            Ok(bytes) => {
                match self.image.add_prg(name, bytes.as_slice()) {
                    Err(e) => {
                        let line = name_and(name, ": ", e.as_str());
                        self.load_error = Some(e);
                        assert(self@ =~= WorkshopModel { load_error: Some(e@), ..start });
                        self.log(LogKind::Error, line);
                    },
                    Ok(_) => {
                        let ghost r = parsed_prg(name@, bytes@)->Ok_0;
                        assert(self@ =~= WorkshopModel { image: start.image.push(r), ..start });
                        let load: u16 = bytes[0] as u16 + bytes[1] as u16 * 256;
                        let size = bytes.len() - 2;
                        let mut line = "Added ".to_owned();
                        line.append(name);
                        line.append(": $");
                        push_hex4(&mut line, load as u64);
                        line.append("-$");
                        push_hex4(&mut line, (load as u64 + size as u64) - 1);
                        line.append(" (");
                        push_decimal(&mut line, size as u64);
                        line.append(" B)");
                        assert(line@ == added_line(name@, r));
                        self.log(LogKind::Good, line);
                        self.after_region_added();
                    },
                }
            },
            Err(e) => {
                let text = name_and(name, ": could not read the file: ", e.as_str());
                self.load_error = Some(text.clone());
                assert(self@ =~= WorkshopModel {
                    load_error: Some(unreadable_text(name@, e@)),
                    ..start
                });
                self.log(LogKind::Error, text);
            },
        }
    }
}

/// What is said about an unpacked file.
pub open spec fn unpacked_note(intro: Seq<char>, part: PartModel) -> Seq<char> {
    intro + part.cruncher + " unpacked to $"@ + hex4(part.start as nat) + "-$"@ + hex4(
        part.end as nat,
    ) + " ("@ + decimal((part.end - part.start + 1) as nat) + " B)"@
}

/// The workspace after an unpacked program joined the image under `listed`.
pub open spec fn with_part(
    w: WorkshopModel,
    name: Seq<char>,
    listed: Seq<char>,
    intro: Seq<char>,
    part: PartModel,
) -> WorkshopModel {
    match parsed_prg(listed, part.prg) {
        Err(e) => logged(
            WorkshopModel { load_error: with_error(w.load_error, e), ..w },
            LogKind::Error,
            name + ": "@ + e,
        ),
        Ok(r) => {
            let note = unpacked_note(intro, part);
            let noted = logged(
                WorkshopModel {
                    image: w.image.push(r),
                    import_notes: w.import_notes.push(note),
                    ..w
                },
                LogKind::Good,
                note,
            );
            after_region(
                WorkshopModel {
                    import_hint: Some(part.jump_start),
                    status: cleared(w.status),
                    ..noted
                },
            )
        },
    }
}

/// The workspace after an imported file.
pub open spec fn with_import(w: WorkshopModel, name: Seq<char>, part: PartModel) -> WorkshopModel {
    with_part(
        WorkshopModel { status: cleared(w.status), ..w },
        name,
        name + " ("@ + part.cruncher + ")"@,
        name + ": "@,
        part,
    )
}

/// A region that may itself be crunched, to be probed one level deeper.
#[derive(Clone, Copy, PartialEq, Eq, Structural, Debug)]
pub struct Level {
    /// Index of the region holding the level.
    pub region_idx: usize,
    /// Load address and length of that region, to confirm later that it is
    /// still the one probed.
    pub load: u16,
    pub len: usize,
    /// Depth of the level (1 = first import).
    pub depth: usize,
}

/// Whether the region list still holds the level where it was probed.
pub open spec fn still_there(regs: Seq<RegionModel>, level: Level) -> bool {
    &&& level.region_idx < regs.len()
    &&& regs[level.region_idx as int].load == level.load
    &&& regs[level.region_idx as int].data.len() == level.len
}

/// The workspace after the user went one level deeper: the region of the
/// current level goes if it is still the one that was probed, and the deeper
/// program joins.
pub open spec fn with_deeper(
    w: WorkshopModel,
    name: Seq<char>,
    level: Level,
    part: PartModel,
) -> WorkshopModel {
    let deeper = decimal((level.depth + 1) as nat);
    let kept = if still_there(w.image, level) {
        WorkshopModel { image: w.image.remove(level.region_idx as int), ..w }
    } else {
        w
    };
    with_part(
        kept,
        name,
        name + " (level "@ + deeper + " · "@ + part.cruncher + ")"@,
        name + ": level "@ + deeper + " "@,
        part,
    )
}

/// The level that the last region holds.
pub open spec fn last_level(regs: Seq<RegionModel>, depth: int) -> Level {
    Level {
        region_idx: (regs.len() - 1) as usize,
        load: regs.last().load as u16,
        len: regs.last().data.len() as usize,
        depth: depth as usize,
    }
}

impl Workshop {
    /// Joins an unpacked program to the image.
    fn join_part(&mut self, name: &str, listed: String, intro: String, part: &ImportedPart) -> (joined:
        bool)
        requires
            old(self).wf(),
            part.start <= part.end,
        ensures
            final(self).wf(),
            final(self)@ == with_part(old(self)@, name@, listed@, intro@, part@),
            joined == (parsed_prg(listed@, part.prg@) is Ok),
            joined ==> final(self)@.image == old(self)@.image.push(
                parsed_prg(listed@, part.prg@)->Ok_0,
            ),
    {
        let ghost start = self@;
        match self.image.add_prg(listed.as_str(), part.prg.as_slice()) {
            Err(e) => {
                assert(self@ =~= start);
                self.push_load_error(&e);
                let line = name_and(name, ": ", e.as_str());
                self.log(LogKind::Error, line);
                false
            },
            Ok(_) => {
                let ghost r = parsed_prg(listed@, part.prg@)->Ok_0;
                let mut note = intro.clone();
                note.append(part.cruncher.as_str());
                note.append(" unpacked to $");
                push_hex4(&mut note, part.start as u64);
                note.append("-$");
                push_hex4(&mut note, part.end as u64);
                note.append(" (");
                push_decimal(&mut note, (part.end - part.start) as u64 + 1);
                note.append(" B)");
                assert(note@ == unpacked_note(intro@, part@));
                self.import_notes.push(note.clone());
                assert(self@ =~= WorkshopModel {
                    image: start.image.push(r),
                    import_notes: start.import_notes.push(note@),
                    ..start
                });
                self.log(LogKind::Good, note);
                let ghost noted = self@;
                self.import_hint = Some(part.jump_start);
                self.clear_status();
                assert(self@ =~= WorkshopModel {
                    import_hint: Some(part.jump_start),
                    status: cleared(start.status),
                    ..noted
                });
                self.after_region_added();
                true
            },
        }
    }

    /// The level that the last region holds.
    fn newest_level(&self, depth: usize) -> (r: Level)
        requires
            self@.image.len() > 0,
        ensures
            r == last_level(self@.image, depth as int),
    {
        let regions = self.image.regions();
        let i = regions.len() - 1;
        assert(models(regions@)[i as int] == regions@[i as int]@);
        Level { region_idx: i, load: regions[i].load, len: regions[i].data.len(), depth }
    }

    /// Adds a detected and unpacked file. If it joined the image, returns its
    /// region, which may itself be crunched.
    pub fn apply_import(&mut self, name: &str, part: &ImportedPart) -> (r: Option<Level>)
        requires
            old(self).wf(),
            part.start <= part.end,
        ensures
            final(self).wf(),
            final(self)@ == with_import(old(self)@, name@, part@),
            r == if parsed_prg(name@ + " ("@ + part@.cruncher + ")"@, part@.prg) is Ok {
                Some(last_level(final(self)@.image, 1))
            } else {
                None
            },
    {
        self.clear_status();
        let mut listed = name.to_owned();
        listed.append(" (");
        listed.append(part.cruncher.as_str());
        listed.append(")");
        let intro = name_and(name, ": ", "");
        proof {
            reveal_strlit("");
            assert(intro@ =~= name@ + ": "@);
        }
        if self.join_part(name, listed, intro, part) {
            Some(self.newest_level(1))
        } else {
            None
        }
    }

    /// Replaces the current level's region with the deeper one. If it joined the
    /// image, returns its region, which may be crunched once more.
    pub fn accept_deeper(&mut self, name: &str, level: Level, part: &ImportedPart) -> (r: Option<
        Level,
    >)
        requires
            old(self).wf(),
            part.start <= part.end,
            level.depth < usize::MAX,
        ensures
            final(self).wf(),
            final(self)@ == with_deeper(old(self)@, name@, level, part@),
            r is Some ==> r == Some(last_level(final(self)@.image, level.depth + 1)),
            r is Some <==> parsed_prg(
                name@ + " (level "@ + decimal((level.depth + 1) as nat) + " · "@ + part@.cruncher
                    + ")"@,
                part@.prg,
            ) is Ok,
    {
        let ghost start = self@;
        let depth = level.depth + 1;
        let there = {
            let regions = self.image.regions();
            let i = level.region_idx;
            proof {
                if i < regions@.len() {
                    assert(models(regions@)[i as int] == regions@[i as int]@);
                }
            }
            i < regions.len() && regions[i].load == level.load && regions[i].data.len() == level.len
        };
        if there {
            self.image.remove(level.region_idx);
            assert(self@ =~= WorkshopModel {
                image: start.image.remove(level.region_idx as int),
                ..start
            });
        }
        let mut listed = name.to_owned();
        listed.append(" (level ");
        push_decimal(&mut listed, depth as u64);
        listed.append(" · ");
        listed.append(part.cruncher.as_str());
        listed.append(")");
        let mut intro = name.to_owned();
        intro.append(": level ");
        push_decimal(&mut intro, depth as u64);
        intro.append(" ");
        if self.join_part(name, listed, intro, part) {
            Some(self.newest_level(depth))
        } else {
            None
        }
    }
}

/// The workspace after a region was removed. An imported region's leftovers do
/// not outlive it: a stale depacker jump would otherwise become the start of an
/// unrelated region.
pub open spec fn without_region(w: WorkshopModel, idx: int) -> WorkshopModel {
    let image = if idx < w.image.len() {
        w.image.remove(idx)
    } else {
        w.image
    };
    logged(
        WorkshopModel {
            image,
            import_hint: None,
            import_notes: Seq::empty(),
            editing_region: None,
            settings: refreshed(image, None, w.settings),
            status: cleared(w.status),
            ..w
        },
        LogKind::Info,
        "Removed a region."@,
    )
}

/// The workspace once the defaults that the span drives were tracked again and
/// notes that describe stale addresses dropped.
pub open spec fn retracked(w: WorkshopModel) -> WorkshopModel {
    WorkshopModel {
        import_notes: Seq::empty(),
        settings: refreshed(
            w.image,
            w.import_hint,
            SettingsModel { restore_2d2e_auto: true, ..w.settings },
        ),
        ..w
    }
}

/// What is said about a resized region.
pub open spec fn resized_line(r: RegionModel, start: int, end: int) -> Seq<char> {
    "Resized "@ + r.name + ": $"@ + hex4(r.load as nat) + "-$"@ + hex4((r.end() - 1) as nat)
        + " → $"@ + hex4(start as nat) + "-$"@ + hex4((end - 1) as nat) + " ("@ + decimal(
        (end - start) as nat,
    ) + " B)"@
}

/// The workspace after a region's range was edited.
pub open spec fn with_resize(w: WorkshopModel, idx: int, start: int, end: int) -> WorkshopModel {
    match resized(w.image, idx, start, end) {
        Err(e) => logged(w, LogKind::Error, "Resize failed: "@ + e),
        Ok(image) => logged(
            retracked(
                WorkshopModel {
                    image,
                    editing_region: None,
                    status: cleared(w.status),
                    ..w
                },
            ),
            LogKind::Good,
            resized_line(w.image[idx], start, end),
        ),
    }
}

/// The lines as neutral facts.
pub open spec fn facts(texts: Seq<Seq<char>>) -> Seq<LineModel> {
    Seq::new(texts.len(), |i: int| LineModel { kind: LogKind::Info, text: texts[i] })
}

/// The workspace after an edited memory buffer was applied. New patch regions
/// can move the span, so they track the derived defaults again.
pub open spec fn with_edits(w: WorkshopModel, synced: Seq<u8>, new: Seq<u8>) -> WorkshopModel {
    let image = after_edits(w.image, synced, new);
    let said = edit_lines(w.image, edit_runs(w.image, synced, new, 0));
    let done = WorkshopModel {
        image,
        log: w.log + facts(said),
        status: cleared(w.status),
        ..w
    };
    if image.len() != w.image.len() {
        retracked(done)
    } else {
        done
    }
}

/// The workspace after it was wiped: everything is fresh but the history.
pub open spec fn wiped(w: WorkshopModel) -> WorkshopModel {
    logged(
        WorkshopModel {
            log: w.log,
            edit_start_text: w.edit_start_text,
            edit_end_text: w.edit_end_text,
            ..fresh_workshop()
        },
        LogKind::Head,
        "— Workspace cleared ("@ + decimal(w.image.len()) + " file(s) removed) —"@,
    )
}

impl Workshop {
    /// Tracks the defaults that the span drives again and drops notes that
    /// describe stale addresses.
    fn retrack(&mut self)
        requires
            old(self).wf(),
        ensures
            final(self)@ == retracked(old(self)@),
            final(self).image == old(self).image,
    {
        let ghost start = self@;
        self.import_notes = Vec::new();
        self.settings.restore_2d2e_auto = true;
        assert(self.settings@ == (SettingsModel { restore_2d2e_auto: true, ..start.settings }));
        self.settings.refresh_start_default(&self.image, self.import_hint);
        assert(self@ =~= retracked(start));
    }

    /// Removes a region.
    pub fn remove_region(&mut self, idx: usize)
        requires
            old(self).wf(),
        ensures
            final(self).wf(),
            final(self)@ == without_region(old(self)@, idx as int),
    {
        let ghost start = self@;
        self.image.remove(idx);
        self.import_hint = None;
        self.import_notes = Vec::new();
        self.editing_region = None;
        self.settings.refresh_start_default(&self.image, None);
        self.clear_status();
        self.log(LogKind::Info, "Removed a region.".to_owned());
        assert(self@ =~= without_region(start, idx as int));
    }

    /// Opens a region's range for editing.
    pub fn begin_edit(&mut self, idx: usize)
        requires
            old(self).wf(),
            idx < old(self)@.image.len(),
        ensures
            final(self).wf(),
            final(self)@ == (WorkshopModel {
                editing_region: Some(idx as int),
                edit_start_text: address_text(old(self)@.image[idx as int].load),
                edit_end_text: address_text(old(self)@.image[idx as int].end() - 1),
                ..old(self)@
            }),
            parsed_range(final(self)@.edit_start_text, final(self)@.edit_end_text) matches Ok(range)
                && range.0 == old(self)@.image[idx as int].load && range.1
                == old(self)@.image[idx as int].end(),
    {
        let ghost start = self@;
        proof {
            let r = start.image[idx as int];
            assert(r.wf());
            crate::address_laws::written_ranges_read_back(r.load as u16, r.end() as u32);
        }
        let (lo, hi) = {
            let regions = self.image.regions();
            assert(models(regions@)[idx as int] == regions@[idx as int]@);
            assert(start.image[idx as int].wf());
            (regions[idx].start(), regions[idx].end())
        };
        self.edit_start_text = address_field(lo);
        self.edit_end_text = address_field(hi - 1);
        self.editing_region = Some(idx);
    }

    /// Applies an accepted start and end edit to region `idx`, then tracks the
    /// defaults that the moved span affects.
    pub fn apply_region_resize(&mut self, idx: usize, s: u16, e: u32)
        requires
            old(self).wf(),
            idx < old(self)@.image.len(),
        ensures
            final(self).wf(),
            final(self)@ == with_resize(old(self)@, idx as int, s as int, e as int),
    {
        let ghost start = self@;
        let ghost r = start.image[idx as int];
        let (lo, hi, name) = {
            let regions = self.image.regions();
            assert(models(regions@)[idx as int] == regions@[idx as int]@);
            assert(r.wf());
            (regions[idx].start(), regions[idx].end(), regions[idx].name.clone())
        };
        match self.image.resize_region(idx, s, e) {
            Ok(_) => {
                let ghost image = resized(start.image, idx as int, s as int, e as int)->Ok_0;
                self.editing_region = None;
                self.clear_status();
                assert(self@ =~= WorkshopModel {
                    image,
                    editing_region: None,
                    status: cleared(start.status),
                    ..start
                });
                self.retrack();
                let mut line = "Resized ".to_owned();
                line.append(name.as_str());
                line.append(": $");
                push_hex4(&mut line, lo as u64);
                line.append("-$");
                push_hex4(&mut line, (hi - 1) as u64);
                line.append(" → $");
                push_hex4(&mut line, s as u64);
                line.append("-$");
                push_hex4(&mut line, (e - 1) as u64);
                line.append(" (");
                push_decimal(&mut line, (e - s as u32) as u64);
                line.append(" B)");
                assert(line@ == resized_line(r, s as int, e as int));
                self.log(LogKind::Good, line);
            },
            Err(msg) => {
                assert(self@ =~= start);
                let line = name_and("Resize failed", ": ", msg.as_str());
                proof {
                    reveal_strlit("Resize failed");
                    reveal_strlit(": ");
                    reveal_strlit("Resize failed: ");
                    assert(line@ =~= "Resize failed: "@ + msg@);
                }
                self.log(LogKind::Error, line);
            },
        }
    }

    /// Applies the memory editor's buffer: `synced` is the last buffer that was
    /// shown, `new` the edited one.
    pub fn apply_memory_edits(&mut self, synced: &[u8], new: &[u8])
        requires
            old(self).wf(),
            synced@.len() == 0x1_0000,
            new@.len() == 0x1_0000,
        ensures
            final(self).wf(),
            final(self)@ == with_edits(old(self)@, synced@, new@),
    {
        let ghost start = self@;
        let before = self.image.regions().len();
        let said = self.image.apply_edits(synced, new);
        let ghost all = texts(said@);
        let ghost image = self.image@;
        let mut i: usize = 0;
        assert(self@ =~= WorkshopModel { image, log: start.log + facts(all.take(0)), ..start });
        while i < said.len()
            invariant
                i <= said.len(),
                all == texts(said@),
                self@ == (WorkshopModel {
                    image,
                    log: start.log + facts(all.take(i as int)),
                    ..start
                }),
                self.wf(),
            decreases said.len() - i,
        {
            let ghost sofar = self@;
            self.log(LogKind::Info, said[i].clone());
            assert(start.log + facts(all.take(i + 1)) =~= sofar.log.push(
                LineModel { kind: LogKind::Info, text: all[i as int] },
            ));
            i += 1;
        }
        assert(all.take(all.len() as int) =~= all);
        self.clear_status();
        if self.image.regions().len() != before {
            self.retrack();
        }
    }

    /// Wipes the whole workspace back to a fresh start. Keeps the history and
    /// appends a marker.
    pub fn clear_workspace(&mut self)
        requires
            old(self).wf(),
        ensures
            final(self).wf(),
            final(self)@ == wiped(old(self)@),
    {
        let ghost start = self@;
        let n = self.image.regions().len();
        self.image = MemoryImage::default();
        self.settings = Settings::default();
        self.format_idx = 0;
        self.import_hint = None;
        self.import_notes = Vec::new();
        self.load_error = None;
        self.editing_region = None;
        self.status = Status::Idle;
        let mut line = "— Workspace cleared (".to_owned();
        push_decimal(&mut line, n as u64);
        line.append(" file(s) removed) —");
        assert(self@ =~= WorkshopModel {
            log: start.log,
            edit_start_text: start.edit_start_text,
            edit_end_text: start.edit_end_text,
            ..fresh_workshop()
        });
        self.log(LogKind::Head, line);
    }
}

/// Size of the input files: every region with its two load-address bytes.
pub open spec fn input_total(regs: Seq<RegionModel>) -> int
    decreases regs.len(),
{
    if regs.len() == 0 {
        0
    } else {
        input_total(regs.drop_last()) + regs.last().data.len() + 2
    }
}

proof fn lemma_input_total_grows(regs: Seq<RegionModel>, n: int)
    requires
        0 <= n <= regs.len(),
    ensures
        0 <= input_total(regs.take(n)) <= input_total(regs),
    decreases regs.len() - n,
{
    if n == regs.len() {
        assert(regs.take(n) =~= regs);
        lemma_input_total_positive(regs);
    } else {
        assert(regs.take(n + 1).drop_last() =~= regs.take(n));
        lemma_input_total_grows(regs, n + 1);
        lemma_input_total_positive(regs.take(n));
    }
}

proof fn lemma_input_total_positive(regs: Seq<RegionModel>)
    ensures
        0 <= input_total(regs),
    decreases regs.len(),
{
    if regs.len() > 0 {
        lemma_input_total_positive(regs.drop_last());
    }
}

/// Size of the input files.
pub fn input_len(image: &MemoryImage) -> (r: usize)
    requires
        input_total(image@) <= usize::MAX,
    ensures
        r == input_total(image@),
{
    let regions = image.regions();
    let mut n: usize = 0;
    let mut i: usize = 0;
    assert(image@.take(0) =~= Seq::empty());
    assert(models(regions@).len() == regions@.len());
    while i < regions.len()
        invariant
            i <= regions@.len(),
            models(regions@) == image@,
            n == input_total(image@.take(i as int)),
            input_total(image@) <= usize::MAX,
        decreases regions.len() - i,
    {
        proof {
            assert(models(regions@)[i as int] == regions@[i as int]@);
            assert(image@.take(i + 1).drop_last() =~= image@.take(i as int));
            lemma_input_total_grows(image@, i + 1);
        }
        n = n + regions[i].data.len() + 2;
        i += 1;
    }
    assert(image@.take(image@.len() as int) =~= image@);
    n
}

/// What a crunch needs: the target of the final `JMP` and the placement.
pub struct CrunchJob {
    pub start_addr: u16,
    pub placement: Placement,
}

/// What the fields ask for, or the first field that is wrong.
pub open spec fn asked_job(w: WorkshopModel) -> Result<CrunchJob, Seq<char>> {
    match start_target(w.image, w.import_hint, w.settings) {
        Err(e) => Err(e),
        Ok(start_addr) => match asked_placement(w.settings) {
            Err(e) => Err(e),
            Ok(placement) => Ok(CrunchJob { start_addr, placement }),
        },
    }
}

/// The workspace after a crunch was asked for with something in the image.
pub open spec fn crunching(w: WorkshopModel, label: Seq<char>) -> WorkshopModel {
    match asked_job(w) {
        Err(e) => logged(
            WorkshopModel { status: StatusModel::Failed(e), ..w },
            LogKind::Error,
            e,
        ),
        Ok(_) => logged(
            WorkshopModel { status: StatusModel::Working, ..w },
            LogKind::Info,
            "Crunching with "@ + label + "…"@,
        ),
    }
}

/// The lines as warnings.
pub open spec fn warnings(texts: Seq<Seq<char>>) -> Seq<LineModel> {
    Seq::new(texts.len(), |i: int| LineModel { kind: LogKind::Warn, text: texts[i] })
}

/// The workspace after a crunch ended.
pub open spec fn crunched(w: WorkshopModel, outcome: Result<ReportModel, Seq<char>>) -> WorkshopModel {
    match outcome {
        Ok(r) => {
            let said = logged(w, LogKind::Good, crunch_line(r));
            WorkshopModel {
                status: StatusModel::Done(r),
                log: said.log + warnings(r.warnings),
                ..said
            }
        },
        Err(e) => logged(
            WorkshopModel { status: StatusModel::Failed(e), ..w },
            LogKind::Error,
            "Crunch failed: "@ + e,
        ),
    }
}

impl Workshop {
    /// What the fields ask for, or the first field that is wrong.
    pub fn job(&self) -> (r: Result<CrunchJob, String>)
        requires
            self.wf(),
        ensures
            crate::plan::says(r, asked_job(self@)),
    {
        let start_addr = match self.settings.resolved_start(&self.image, self.import_hint) {
            Ok(a) => a,
            Err(e) => return Err(e),
        };
        match self.settings.placement() {
            Ok(placement) => Ok(CrunchJob { start_addr, placement }),
            Err(e) => Err(e),
        }
    }

    /// Starts a crunch: nothing happens without a region, and a wrong field is
    /// reported instead.
    pub fn begin_crunch(&mut self, label: &str) -> (r: Option<CrunchJob>)
        requires
            old(self).wf(),
        ensures
            final(self).wf(),
            final(self)@ == if old(self)@.image.len() == 0 {
                old(self)@
            } else {
                crunching(old(self)@, label@)
            },
            match r {
                Some(job) => old(self)@.image.len() > 0 && asked_job(old(self)@) == Ok::<
                    CrunchJob,
                    Seq<char>,
                >(job),
                None => old(self)@.image.len() == 0 || asked_job(old(self)@) is Err,
            },
    {
        if self.image.is_empty() {
            return None;
        }
        match self.job() {
            Ok(job) => {
                self.status = Status::Working;
                let mut line = "Crunching with ".to_owned();
                line.append(label);
                line.append("…");
                self.log(LogKind::Info, line);
                Some(job)
            },
            Err(e) => {
                self.status = Status::Failed(e.clone());
                self.log(LogKind::Error, e);
                None
            },
        }
    }

    /// Takes in the outcome of a crunch.
    pub fn finish_crunch(&mut self, outcome: Result<Report, String>)
        ensures
            final(self).image == old(self).image,
            final(self)@ == crunched(
                old(self)@,
                match outcome {
                    Ok(r) => Ok(r@),
                    Err(e) => Err(e@),
                },
            ),
    {
        match outcome {
            Ok(r) => {
                let ghost start = self@;
                let line = r.line();
                self.log(LogKind::Good, line);
                let ghost said = self@;
                let ghost all = texts(r.warnings@);
                let mut i: usize = 0;
                assert(self@ =~= WorkshopModel { log: said.log + warnings(all.take(0)), ..said });
                while i < r.warnings.len()
                    invariant
                        i <= r.warnings.len(),
                        all == texts(r.warnings@),
                        self.image == old(self).image,
                        self@ == (WorkshopModel {
                            log: said.log + warnings(all.take(i as int)),
                            ..said
                        }),
                    decreases r.warnings.len() - i,
                {
                    let ghost sofar = self@;
                    self.log(LogKind::Warn, r.warnings[i].clone());
                    assert(said.log + warnings(all.take(i + 1)) =~= sofar.log.push(
                        LineModel { kind: LogKind::Warn, text: all[i as int] },
                    ));
                    i += 1;
                }
                assert(all.take(all.len() as int) =~= all);
                self.status = Status::Done(r);
            },
            Err(e) => {
                let mut line = "Crunch failed: ".to_owned();
                line.append(e.as_str());
                self.status = Status::Failed(e);
                self.log(LogKind::Error, line);
            },
        }
    }

    /// Takes in the outcome of a stream export: the file's name and the bytes
    /// written.
    pub fn finish_export(&mut self, outcome: &Result<(String, usize), String>)
        ensures
            final(self).image == old(self).image,
            final(self)@ == match outcome {
                Ok((name, len)) => logged(
                    old(self)@,
                    LogKind::Good,
                    "Exported "@ + decimal(*len as nat) + " B compressed stream → "@ + name@,
                ),
                Err(e) => logged(old(self)@, LogKind::Error, "Stream export failed: "@ + e@),
            },
    {
        match outcome {
            Ok((name, len)) => {
                let mut line = "Exported ".to_owned();
                push_decimal(&mut line, *len as u64);
                line.append(" B compressed stream → ");
                line.append(name.as_str());
                self.log(LogKind::Good, line);
            },
            Err(e) => {
                let mut line = "Stream export failed: ".to_owned();
                line.append(e.as_str());
                self.log(LogKind::Error, line);
            },
        }
    }
}

/// What is said about an uncompressed export: the span, which the file is two
/// bytes larger than.
pub open spec fn exported_note(span: (u32, u32), name: Seq<char>) -> Seq<char> {
    "exported uncompressed $"@ + hex4(span.0 as nat) + "-$"@ + hex4((span.1 - 1) as nat) + " ("@
        + decimal((span.1 - span.0) as nat) + " B) to "@ + name
}

/// The bytes of an uncompressed export: the load address, then the span.
pub open spec fn plain_prg(regs: Seq<RegionModel>) -> Seq<u8> {
    let span = span_of(regs)->0;
    seq![(span.0 % 256) as u8, (span.0 / 256) as u8] + span_bytes(regs)
}

/// The current image as a plain, uncompressed `.prg` (load address = span
/// start, gaps zero-filled), if there is anything in it.
pub fn uncompressed_prg(image: &MemoryImage) -> (r: Option<Vec<u8>>)
    requires
        image.wf(),
    ensures
        match r {
            Some(prg) => image@.len() > 0 && prg@ == plain_prg(image@),
            None => image@.len() == 0,
        },
{
    match image.span_buffer() {
        None => None,
        Some((lo, buf)) => {
            let mut prg: Vec<u8> = Vec::new();
            prg.push((lo % 256) as u8);
            prg.push((lo / 256) as u8);
            prg.extend_from_slice(buf.as_slice());
            assert(buf@ =~= span_bytes(image@));
            assert(prg@ =~= plain_prg(image@));
            Some(prg)
        },
    }
}

impl Workshop {
    /// Takes in the outcome of an uncompressed export to the file `name`.
    pub fn finish_uncompressed(&mut self, name: &str, outcome: &Result<(), String>)
        requires
            old(self).wf(),
            old(self)@.image.len() > 0,
        ensures
            final(self).wf(),
            final(self)@ == ({
                let w = old(self)@;
                match outcome {
                    Ok(_) => {
                        let note = exported_note(image_span(w.image), name@);
                        logged(
                            WorkshopModel {
                                load_error: None,
                                import_notes: w.import_notes.push(note),
                                ..w
                            },
                            LogKind::Good,
                            note,
                        )
                    },
                    Err(e) => {
                        let text = "Could not write "@ + name@ + ": "@ + e@;
                        logged(
                            WorkshopModel { load_error: with_error(w.load_error, text), ..w },
                            LogKind::Error,
                            text,
                        )
                    },
                }
            }),
    {
        let ghost w = self@;
        match outcome {
            Ok(_) => {
                let (lo, hi) = match self.image.span() {
                    Some(s) => s,
                    None => (0, 1),
                };
                let mut note = "exported uncompressed $".to_owned();
                push_hex4(&mut note, lo as u64);
                note.append("-$");
                push_hex4(&mut note, (hi - 1) as u64);
                note.append(" (");
                push_decimal(&mut note, (hi - lo) as u64);
                note.append(" B) to ");
                note.append(name);
                self.load_error = None;
                self.import_notes.push(note.clone());
                assert(self@ =~= WorkshopModel {
                    load_error: None,
                    import_notes: w.import_notes.push(note@),
                    ..w
                });
                self.log(LogKind::Good, note);
            },
            Err(e) => {
                let mut text = "Could not write ".to_owned();
                text.append(name);
                text.append(": ");
                text.append(e.as_str());
                self.push_load_error(&text);
                self.log(LogKind::Error, text);
            },
        }
    }

    /// Starts importing `count` crunched files.
    pub fn begin_import(&mut self, count: usize)
        ensures
            final(self).image == old(self).image,
            final(self)@ == logged(
                loading(old(self)@),
                LogKind::Info,
                "Importing "@ + decimal(count as nat) + " crunched file(s)…"@,
            ),
    {
        self.begin_loading();
        let mut line = "Importing ".to_owned();
        push_decimal(&mut line, count as u64);
        line.append(" crunched file(s)…");
        self.log(LogKind::Info, line);
    }

    /// Takes in a file that could not be imported.
    pub fn import_failed(&mut self, e: String)
        ensures
            final(self).image == old(self).image,
            final(self)@ == logged(
                WorkshopModel {
                    load_error: with_error(old(self)@.load_error, e@),
                    ..old(self)@
                },
                LogKind::Error,
                e@,
            ),
    {
        self.push_load_error(&e);
        self.log(LogKind::Error, e);
    }
}

/// The background jobs that are running.
#[derive(Clone, Copy, PartialEq, Eq, Structural, Debug)]
pub struct Activity {
    pub importing: bool,
    pub comparing: bool,
    pub exporting: bool,
    /// Probing whether the last unpacked level is itself crunched.
    pub probing: bool,
}

/// Whether a background job owns the workspace.
pub open spec fn is_owned(w: WorkshopModel, a: Activity) -> bool {
    w.status is Working || a.importing || a.comparing || a.exporting || a.probing
}

/// Whether a crunch can be started.
pub open spec fn may_crunch(w: WorkshopModel, a: Activity, has_output: bool) -> bool {
    w.image.len() > 0 && has_output && !(w.status is Working) && !a.importing && !a.comparing
}

impl Workshop {
    /// A background job owns the workspace: edits are blocked while any of them
    /// run.
    pub fn busy(&self, activity: &Activity) -> (r: bool)
        ensures
            r == (self@.status is Working || activity.importing || activity.comparing
                || activity.exporting || activity.probing),
            r == is_owned(self@, *activity),
    {
        let working = match self.status {
            Status::Working => true,
            _ => false,
        };
        working || activity.importing || activity.comparing || activity.exporting
            || activity.probing
    }

    /// Whether a crunch can be started: with a region, a chosen output file, and
    /// no crunch, import or comparison under way.
    pub fn can_crunch(&self, activity: &Activity, has_output: bool) -> (r: bool)
        ensures
            r == (self@.image.len() > 0 && has_output && !(self@.status is Working)
                && !activity.importing && !activity.comparing),
            r == may_crunch(self@, *activity, has_output),
    {
        let working = match self.status {
            Status::Working => true,
            _ => false,
        };
        !self.image.is_empty() && has_output && !working && !activity.importing
            && !activity.comparing
    }

    /// Starts a stream export: a wrong field is reported instead.
    pub fn begin_export(&mut self) -> (r: Option<CrunchJob>)
        requires
            old(self).wf(),
        ensures
            final(self).wf(),
            match (r, asked_job(old(self)@)) {
                (Some(a), Ok(b)) => a == b && final(self)@ == old(self)@,
                (None, Err(e)) => final(self)@ == logged(old(self)@, LogKind::Error, e),
                _ => false,
            },
    {
        match self.job() {
            Ok(job) => Some(job),
            Err(e) => {
                self.log(LogKind::Error, e);
                None
            },
        }
    }

    /// Notes that a stream export is under way.
    pub fn export_started(&mut self, label: &str)
        ensures
            final(self).image == old(self).image,
            final(self)@ == logged(
                old(self)@,
                LogKind::Info,
                "Exporting "@ + label@ + " compressed stream…"@,
            ),
    {
        let mut line = "Exporting ".to_owned();
        line.append(label);
        line.append(" compressed stream…");
        self.log(LogKind::Info, line);
    }

    /// Notes that a deeper layer was found.
    pub fn offer_found(&mut self, cruncher: &str)
        ensures
            final(self).image == old(self).image,
            final(self)@ == logged(
                old(self)@,
                LogKind::Info,
                "Detected a deeper crunched layer ("@ + cruncher@ + ") under the last import."@,
            ),
    {
        let mut line = "Detected a deeper crunched layer (".to_owned();
        line.append(cruncher);
        line.append(") under the last import.");
        self.log(LogKind::Info, line);
    }

    /// Notes that the user keeps the current level.
    pub fn kept_level(&mut self, depth: usize)
        ensures
            final(self).image == old(self).image,
            final(self)@ == logged(
                old(self)@,
                LogKind::Muted,
                "Kept level "@ + decimal(depth as nat) + "."@,
            ),
    {
        let mut line = "Kept level ".to_owned();
        push_decimal(&mut line, depth as u64);
        line.append(".");
        self.log(LogKind::Muted, line);
    }
}

/// What is said when an encoder crashes.
pub fn crash_message(format_name: &str, raw: &str) -> (r: String)
    ensures
        r@ == "Compression crashed internally in \""@ + format_name@ + "\": "@ + raw@
            + ". Try a different cruncher."@,
{
    let mut s = "Compression crashed internally in \"".to_owned();
    s.append(format_name);
    s.append("\": ");
    s.append(raw);
    s.append(". Try a different cruncher.");
    s
}

/// An uncompressed export is a `.prg` that loads back as one region over the
/// whole span, showing the very same bytes.
pub proof fn uncompressed_export_loads_back(regs: Seq<RegionModel>, name: Seq<char>)
    requires
        all_wf(regs),
        regs.len() > 0,
    ensures
        ({
            let (lo, hi) = span_of(regs)->0;
            parsed_prg(name, plain_prg(regs)) matches Ok(r) && r.load == lo && r.end() == hi
                && forall|a: int| lo <= a < hi ==> #[trigger] byte_at(seq![r], a) == byte_at(regs, a)
        }),
{
    span_bounds_every_region(regs);
    let (lo, hi) = span_of(regs)->0;
    let i = choose|i: int| 0 <= i < regs.len() && (#[trigger] regs[i]).load == lo;
    let j = choose|j: int| 0 <= j < regs.len() && (#[trigger] regs[j]).end() == hi;
    assert(regs[i].wf() && regs[j].wf());
    let bytes = plain_prg(regs);
    assert(bytes.len() == hi - lo + 2);
    assert(bytes[0] + bytes[1] * 256 == lo);
    assert(bytes.skip(2) =~= span_bytes(regs));
    let r = parsed_prg(name, bytes)->Ok_0;
    assert forall|a: int| lo <= a < hi implies #[trigger] byte_at(seq![r], a) == byte_at(regs, a) by {
        assert(seq![r].last() == r);
        assert(r.covers(a));
        assert(r.data[a - lo] == byte_at(regs, lo + (a - lo)));
    }
}

/// Removing the region that was imported last also forgets its entry point, so
/// it cannot become the start of another one.
pub proof fn removed_imports_leave_no_start(w: WorkshopModel, idx: int)
    ensures
        without_region(w, idx).import_hint is None,
        without_region(w, idx).import_notes.len() == 0,
{
}

/// Only the first file decides about the start: a later one keeps a start that
/// the user typed in, and running as BASIC.
pub proof fn later_files_keep_the_users_start(w: WorkshopModel, name: Seq<char>, bytes: Seq<u8>)
    requires
        w.image.len() > 0,
        !w.settings.start_auto,
    ensures
        with_file(w, name, bytes).settings.start_text == w.settings.start_text,
        with_file(w, name, bytes).settings.run_basic == w.settings.run_basic,
        !with_file(w, name, bytes).settings.start_auto,
{
}

/// A file that is refused changes no region and no setting.
pub proof fn refused_files_change_nothing(w: WorkshopModel, name: Seq<char>, bytes: Seq<u8>)
    requires
        parsed_prg(name, bytes) is Err,
    ensures
        with_file(w, name, bytes).image == w.image,
        with_file(w, name, bytes).settings == w.settings,
{
}

/// A running crunch keeps its status whatever is done to the regions.
pub proof fn a_running_crunch_keeps_its_status(
    w: WorkshopModel,
    name: Seq<char>,
    bytes: Seq<u8>,
    idx: int,
    start: int,
    end: int,
    synced: Seq<u8>,
    new: Seq<u8>,
)
    requires
        w.status is Working,
    ensures
        with_file(w, name, bytes).status is Working,
        without_region(w, idx).status is Working,
        with_resize(w, idx, start, end).status is Working,
        with_edits(w, synced, new).status is Working,
{
}

/// Wiping keeps the whole history and adds one line.
pub proof fn wiping_keeps_the_history(w: WorkshopModel)
    ensures
        wiped(w).log.drop_last() == w.log,
        wiped(w).image.len() == 0,
        wiped(w).settings == fresh_settings(),
{
    assert(wiped(w).log.drop_last() =~= w.log);
}

} // verus!
