//! Which crunchers fit, and comparing them with each other.
use vstd::prelude::*;

use crate::formats::{Direction, FormatInfo};
#[allow(unused_imports)]
use crate::formats::FormatModel;
use crate::image::MemoryImage;
#[allow(unused_imports)]
use crate::image::RegionModel;
use crate::placement::Placement;
use crate::plan::plan_preview;
#[allow(unused_imports)]
use crate::plan::{image_span, preview};
use crate::settings::Settings;
#[allow(unused_imports)]
use crate::settings::{asked_placement, SettingsModel};
use crate::sfx::SfxResult;
#[allow(unused_imports)]
use crate::sfx::SfxModel;
use crate::text::{join, push_decimal, push_left, push_right};
#[allow(unused_imports)]
use crate::text::{decimal, joined, left_aligned, right_aligned, texts};
use crate::workshop::{input_len, LogKind, Workshop};
#[allow(unused_imports)]
use crate::workshop::{asked_job, input_total, logged, LineModel, WorkshopModel};

verus! {

/// What the formats hold.
pub open spec fn format_models(infos: Seq<FormatInfo>) -> Seq<FormatModel> {
    Seq::new(infos.len(), |i: int| infos[i]@)
}

/// Why a format does not fit the image, `None` if it does. Without an image, or
/// with a wrong field, nothing speaks against a format yet.
pub open spec fn misfit(regs: Seq<RegionModel>, s: SettingsModel, f: FormatModel) -> Option<
    Seq<char>,
> {
    match asked_placement(s) {
        Ok(p) if regs.len() > 0 => preview(image_span(regs), f, p).unavailable,
        _ => None,
    }
}

/// Why each format does not fit.
pub open spec fn misfits(regs: Seq<RegionModel>, s: SettingsModel, fs: Seq<FormatModel>) -> Seq<
    Option<Seq<char>>,
> {
    Seq::new(fs.len(), |i: int| misfit(regs, s, fs[i]))
}

/// What optional strings hold.
pub open spec fn opt_texts(v: Seq<Option<String>>) -> Seq<Option<Seq<char>>> {
    Seq::new(
        v.len(),
        |i: int|
            match v[i] {
                Some(t) => Some(t@),
                None => None,
            },
    )
}

/// Per-cruncher availability for the current image and settings: `None` when
/// the format fits, the reason when it does not. A format whose in-place
/// feasibility depends on how well the data compresses counts as available
/// here and is resolved when it is built.
pub fn cruncher_availability(image: &MemoryImage, settings: &Settings, infos: &Vec<FormatInfo>) -> (r:
    Vec<Option<String>>)
    requires
        image.wf(),
    ensures
        opt_texts(r@) == misfits(image@, settings@, format_models(infos@)),
{
    let ghost fs = format_models(infos@);
    let placement = settings.placement();
    let empty = image.is_empty();
    let mut r: Vec<Option<String>> = Vec::new();
    let mut i: usize = 0;
    while i < infos.len()
        invariant
            i <= infos.len(),
            image.wf(),
            fs == format_models(infos@),
            empty == (image@.len() == 0),
            crate::plan::says(placement, asked_placement(settings@)),
            opt_texts(r@) == misfits(image@, settings@, fs).take(i as int),
        decreases infos.len() - i,
    {
        assert(fs[i as int] == infos@[i as int]@);
        let reason: Option<String> = if empty {
            None
        } else {
            match &placement {
                Err(_) => None,
                Ok(p) => match plan_preview(image, &infos[i], p) {
                    Ok(plan) => plan.unavailable,
                    Err(e) => Some(e),
                },
            }
        };
        let ghost before = r@;
        r.push(reason);
        assert(opt_texts(r@) =~= misfits(image@, settings@, fs).take(i + 1)) by {
            assert(opt_texts(r@) =~= opt_texts(before).push(
                match reason {
                    Some(t) => Some(t@),
                    None => None,
                },
            ));
        }
        i += 1;
    }
    assert(misfits(image@, settings@, fs).take(fs.len() as int) =~= misfits(
        image@,
        settings@,
        fs,
    ));
    r
}

/// The indices below `n` that nothing speaks against, in order.
pub open spec fn fitting(reasons: Seq<Option<Seq<char>>>, n: int) -> Seq<int>
    decreases n,
{
    if n <= 0 {
        Seq::empty()
    } else if reasons[n - 1] is None {
        fitting(reasons, n - 1).push(n - 1)
    } else {
        fitting(reasons, n - 1)
    }
}

/// What indices hold.
pub open spec fn ints(v: Seq<usize>) -> Seq<int> {
    Seq::new(v.len(), |i: int| v[i] as int)
}

/// Indices of the crunchers that fit: the ones that comparing and building
/// actually attempt.
pub fn available_crunchers(image: &MemoryImage, settings: &Settings, infos: &Vec<FormatInfo>) -> (r:
    Vec<usize>)
    requires
        image.wf(),
    ensures
        ints(r@) == fitting(
            misfits(image@, settings@, format_models(infos@)),
            infos@.len() as int,
        ),
        forall|k: int| 0 <= k < r@.len() ==> #[trigger] r@[k] < infos@.len(),
{
    let avail = cruncher_availability(image, settings, infos);
    let ghost reasons = misfits(image@, settings@, format_models(infos@));
    let mut r: Vec<usize> = Vec::new();
    let mut i: usize = 0;
    assert(opt_texts(avail@).len() == avail@.len());
    while i < avail.len()
        invariant
            i <= avail.len(),
            avail@.len() == infos@.len(),
            opt_texts(avail@) == reasons,
            ints(r@) == fitting(reasons, i as int),
            forall|k: int| 0 <= k < r@.len() ==> #[trigger] r@[k] < i,
        decreases avail.len() - i,
    {
        assert(opt_texts(avail@)[i as int] is None <==> avail@[i as int] is None);
        if avail[i].is_none() {
            let ghost before = ints(r@);
            r.push(i);
            assert(ints(r@) =~= before.push(i as int));
        }
        i += 1;
    }
    r
}

/// The selected format if it fits, else the first one that does.
pub open spec fn selection(reasons: Seq<Option<Seq<char>>>, idx: int) -> int {
    if idx < reasons.len() && reasons[idx] is Some && fitting(
        reasons,
        reasons.len() as int,
    ).len() > 0 {
        fitting(reasons, reasons.len() as int)[0]
    } else {
        idx
    }
}

proof fn lemma_first_fitting(reasons: Seq<Option<Seq<char>>>, n: int, i: int)
    requires
        0 <= i < n <= reasons.len(),
        reasons[i] is None,
        forall|k: int| 0 <= k < i ==> (#[trigger] reasons[k]) is Some,
    ensures
        fitting(reasons, n).len() > 0,
        fitting(reasons, n)[0] == i,
    decreases n,
{
    if n == i + 1 {
        lemma_none_fitting(reasons, i);
    } else {
        lemma_first_fitting(reasons, n - 1, i);
    }
}

proof fn lemma_none_fitting(reasons: Seq<Option<Seq<char>>>, n: int)
    requires
        0 <= n <= reasons.len(),
        forall|k: int| 0 <= k < n ==> (#[trigger] reasons[k]) is Some,
    ensures
        fitting(reasons, n).len() == 0,
    decreases n,
{
    if n > 0 {
        lemma_none_fitting(reasons, n - 1);
    }
}

/// Moves a selection that does not fit to the first format that does.
pub fn usable_selection(avail: &Vec<Option<String>>, idx: usize) -> (r: usize)
    ensures
        r == selection(opt_texts(avail@), idx as int),
{
    let ghost reasons = opt_texts(avail@);
    if idx >= avail.len() || avail[idx].is_none() {
        assert(idx < avail@.len() ==> reasons[idx as int] is None);
        return idx;
    }
    assert(reasons[idx as int] is Some);
    let mut i: usize = 0;
    while i < avail.len()
        invariant
            i <= avail.len(),
            reasons == opt_texts(avail@),
            idx < avail@.len(),
            reasons[idx as int] is Some,
            forall|k: int| 0 <= k < i ==> (#[trigger] reasons[k]) is Some,
        decreases avail.len() - i,
    {
        assert(reasons[i as int] is None <==> avail@[i as int] is None);
        if avail[i].is_none() {
            proof {
                lemma_first_fitting(reasons, reasons.len() as int, i as int);
            }
            return i;
        }
        i += 1;
    }
    proof {
        lemma_none_fitting(reasons, reasons.len() as int);
    }
    idx
}

/// Size of the decoder that a format would be staged with: that of the live
/// plan, or the bare forward routine while there is none.
pub open spec fn decoder_size(regs: Seq<RegionModel>, s: SettingsModel, f: FormatModel) -> Option<
    int,
> {
    let bare = match f.set(Direction::Forward, s.allow_illegal).balanced {
        Some(r) => Some(r.code_bytes as int),
        None => None,
    };
    match asked_placement(s) {
        Ok(p) if regs.len() > 0 && preview(image_span(regs), f, p).unavailable is None => Some(
            preview(image_span(regs), f, p).staged_size,
        ),
        _ => bare,
    }
}

/// Staged decruncher size for a format under the current settings: routine,
/// entry wrapper and the code before the final `JMP`. Recomputed from the live
/// options, so it tracks every choice that changes the emitted decruncher.
pub fn decoder_bytes(image: &MemoryImage, settings: &Settings, info: &FormatInfo) -> (r: Option<u32>)
    requires
        image.wf(),
    ensures
        match (r, decoder_size(image@, settings@, info@)) {
            (Some(a), Some(b)) => a == b,
            (None, None) => true,
            _ => false,
        },
{
    if let Ok(p) = settings.placement() {
        if let Ok(plan) = plan_preview(image, info, &p) {
            if plan.unavailable.is_none() {
                return Some(plan.staged_size);
            }
        }
    }
    match info.decoders(Direction::Forward, settings.allow_illegal).balanced {
        Some(s) => Some(s.code_bytes as u32),
        None => None,
    }
}

/// The direction that a format would unpack in: that of the live plan, or
/// forward while there is none.
pub open spec fn planned_direction(
    regs: Seq<RegionModel>,
    s: SettingsModel,
    f: FormatModel,
) -> Direction {
    match asked_placement(s) {
        Ok(p) if regs.len() > 0 => preview(image_span(regs), f, p).direction,
        _ => Direction::Forward,
    }
}

/// The direction whose unpacking score the cruncher list shows for a format.
pub fn shown_direction(image: &MemoryImage, settings: &Settings, info: &FormatInfo) -> (r: Direction)
    requires
        image.wf(),
    ensures
        r == planned_direction(image@, settings@, info@),
{
    if let Ok(p) = settings.placement() {
        if let Ok(plan) = plan_preview(image, info, &p) {
            return plan.direction;
        }
    }
    Direction::Forward
}

/// The text of an entry of the cruncher list.
pub open spec fn entry_text(
    label: Seq<char>,
    packing: Seq<char>,
    unpacking: Seq<char>,
    decoder: Option<int>,
) -> Seq<char> {
    label + "  (packing speed "@ + packing + ", unpacking speed "@ + unpacking + ", decoder "@ + (
    match decoder {
        Some(b) => decimal(b as nat) + " B"@,
        None => "—"@,
    }) + ")"@
}

/// Text of an entry of the cruncher list: the bare name plus benchmarked speeds
/// and the live decoder size.
pub fn cruncher_entry(label: &str, packing: &str, unpacking: &str, decoder: Option<u32>) -> (r:
    String)
    ensures
        r@ == entry_text(
            label@,
            packing@,
            unpacking@,
            match decoder {
                Some(b) => Some(b as int),
                None => None,
            },
        ),
{
    let mut s = label.to_owned();
    s.append("  (packing speed ");
    s.append(packing);
    s.append(", unpacking speed ");
    s.append(unpacking);
    s.append(", decoder ");
    match decoder {
        Some(b) => {
            let ghost before = s@;
            push_decimal(&mut s, b as u64);
            s.append(" B");
            assert(s@ =~= before + (decimal(b as nat) + " B"@));
        },
        None => {
            s.append("—");
        },
    }
    s.append(")");
    s
}

/// One format's outcome. The ratio and the unpacking score are already written
/// out.
pub struct CompareData {
    pub total_len: usize,
    pub stream_len: usize,
    pub decoder_bytes: u16,
    pub direction: Direction,
    /// Output size as a percentage of the input, with one decimal.
    pub ratio: String,
    pub score: String,
}

/// What [`CompareData`] hold.
pub struct DataModel {
    pub total_len: int,
    pub stream_len: int,
    pub decoder_bytes: int,
    pub direction: Direction,
    pub ratio: Seq<char>,
    pub score: Seq<char>,
}

impl View for CompareData {
    type V = DataModel;

    open spec fn view(&self) -> DataModel {
        DataModel {
            total_len: self.total_len as int,
            stream_len: self.stream_len as int,
            decoder_bytes: self.decoder_bytes as int,
            direction: self.direction,
            ratio: self.ratio@,
            score: self.score@,
        }
    }
}

/// The facts of a built program.
pub open spec fn built_facts(r: SfxModel, ratio: Seq<char>, score: Seq<char>) -> DataModel {
    DataModel {
        total_len: r.prg.len() as int,
        stream_len: r.stream_len,
        decoder_bytes: r.decoder_bytes,
        direction: r.direction,
        ratio,
        score,
    }
}

/// The facts of a built program. The decoder size is that of the decoder that
/// was built.
pub fn compare_data(r: &SfxResult, ratio: String, score: String) -> (o: CompareData)
    ensures
        o@ == (DataModel {
            total_len: r@.prg.len() as int,
            stream_len: r@.stream_len,
            decoder_bytes: r@.decoder_bytes,
            direction: r@.direction,
            ratio: ratio@,
            score: score@,
        }),
        o@ == built_facts(r@, ratio@, score@),
{
    CompareData {
        total_len: r.prg.len(),
        stream_len: r.stream_len,
        decoder_bytes: r.decoder_bytes,
        direction: r.direction,
        ratio,
        score,
    }
}

/// One row of a comparison.
pub struct CompareRow {
    pub label: String,
    pub result: Result<CompareData, String>,
}

/// What a [`CompareRow`] holds.
pub struct RowModel {
    pub label: Seq<char>,
    pub result: Result<DataModel, Seq<char>>,
}

impl View for CompareRow {
    type V = RowModel;

    open spec fn view(&self) -> RowModel {
        RowModel {
            label: self.label@,
            result: match self.result {
                Ok(d) => Ok(d@),
                Err(e) => Err(e@),
            },
        }
    }
}

/// What the rows hold.
pub open spec fn rows_of(rows: Seq<CompareRow>) -> Seq<RowModel> {
    Seq::new(rows.len(), |i: int| rows[i]@)
}

/// A number in a column of the given width.
pub open spec fn column(v: int, width: nat) -> Seq<char> {
    right_aligned(decimal(v as nat), width, ' ')
}

/// The columns that every built format shows.
pub open spec fn facts_text(label: Seq<char>, d: DataModel) -> Seq<char> {
    left_aligned(label, 11) + " "@ + column(d.total_len, 6) + " B  "@ + right_aligned(
        d.ratio,
        5,
        ' ',
    ) + "%  stream "@ + column(d.stream_len, 6) + " B  decoder "@ + column(d.decoder_bytes, 3)
        + " B  unpack "@ + right_aligned(d.score, 7, ' ') + "  "@
}

/// The line of a row as it comes in. A format that cannot fit the layout is
/// skipped, which is no error.
pub open spec fn row_line(row: RowModel) -> LineModel {
    match row.result {
        Ok(d) => LineModel {
            kind: LogKind::Info,
            text: "  "@ + facts_text(row.label, d) + d.direction.name(),
        },
        Err(_) => LineModel {
            kind: LogKind::Muted,
            text: "  "@ + left_aligned(row.label, 11) + " skipped — does not fit this layout"@,
        },
    }
}

/// Appends a number in a column.
fn push_column(s: &mut String, v: u64, width: usize)
    ensures
        final(s)@ == old(s)@ + column(v as int, width as nat),
{
    let mut t = String::new();
    push_decimal(&mut t, v);
    assert(t@ =~= decimal(v as nat));
    push_right(s, t.as_str(), width);
}

/// Appends the columns that every built format shows.
fn push_facts(s: &mut String, label: &str, d: &CompareData)
    ensures
        final(s)@ == old(s)@ + facts_text(label@, d@),
{
    push_left(s, label, 11);
    s.append(" ");
    push_column(s, d.total_len as u64, 6);
    s.append(" B  ");
    push_right(s, d.ratio.as_str(), 5);
    s.append("%  stream ");
    push_column(s, d.stream_len as u64, 6);
    s.append(" B  decoder ");
    push_column(s, d.decoder_bytes as u64, 3);
    s.append(" B  unpack ");
    push_right(s, d.score.as_str(), 7);
    s.append("  ");
    assert(s@ =~= old(s)@ + facts_text(label@, d@));
}

impl Workshop {
    /// Logs a row as it comes in.
    pub fn log_compare_row(&mut self, row: &CompareRow)
        ensures
            final(self).image == old(self).image,
            final(self)@ == logged(old(self)@, row_line(row@).kind, row_line(row@).text),
    {
        match &row.result {
            Ok(d) => {
                let mut s = "  ".to_owned();
                push_facts(&mut s, row.label.as_str(), d);
                s.append(d.direction.as_str());
                self.log(LogKind::Info, s);
            },
            Err(_) => {
                let mut s = "  ".to_owned();
                push_left(&mut s, row.label.as_str(), 11);
                s.append(" skipped — does not fit this layout");
                self.log(LogKind::Muted, s);
            },
        }
    }
}

/// Whether row `i` ranks before row `j`: by total size, then as they came in.
pub open spec fn ranks_before(rows: Seq<RowModel>, i: int, j: int) -> bool {
    let a = rows[i].result->Ok_0.total_len;
    let b = rows[j].result->Ok_0.total_len;
    a < b || (a == b && i < j)
}

/// Whether `order` ranks the built rows, smallest total first.
pub open spec fn is_ranking(rows: Seq<RowModel>, order: Seq<int>) -> bool {
    &&& forall|k: int|
        0 <= k < order.len() ==> 0 <= #[trigger] order[k] < rows.len()
            && rows[order[k]].result is Ok
    &&& forall|i: int|
        0 <= i < rows.len() && (#[trigger] rows[i]).result is Ok ==> order.contains(i)
    &&& forall|a: int, b: int|
        0 <= a < b < order.len() ==> ranks_before(rows, #[trigger] order[a], #[trigger] order[b])
}

/// There is only one ranking.
pub proof fn ranking_is_unique(rows: Seq<RowModel>, x: Seq<int>, y: Seq<int>)
    requires
        is_ranking(rows, x),
        is_ranking(rows, y),
    ensures
        x == y,
{
    lemma_ranking_prefix(rows, x, y, x.len() as int);
    lemma_ranking_prefix(rows, y, x, y.len() as int);
    assert(x =~= y);
}

/// The first `n` entries of one ranking are those of the other.
proof fn lemma_ranking_prefix(rows: Seq<RowModel>, x: Seq<int>, y: Seq<int>, n: int)
    requires
        is_ranking(rows, x),
        is_ranking(rows, y),
        0 <= n <= x.len(),
    ensures
        n <= y.len(),
        forall|k: int| 0 <= k < n ==> x[k] == y[k],
    decreases n,
{
    if n > 0 {
        lemma_ranking_prefix(rows, x, y, n - 1);
        let k = n - 1;
        assert(rows[x[k]].result is Ok);
        assert(y.contains(x[k]));
        let m = choose|m: int| 0 <= m < y.len() && y[m] == x[k];
        if m < k {
            assert(x[m] == y[m]);
            assert(ranks_before(rows, x[m], x[k]));
        }
        assert(m >= k);
        if m > k {
            assert(rows[y[k]].result is Ok);
            assert(x.contains(y[k]));
            let q = choose|q: int| 0 <= q < x.len() && x[q] == y[k];
            assert(ranks_before(rows, y[k], y[m]));
            if q < k {
                assert(x[q] == y[q]);
                assert(ranks_before(rows, y[q], y[k]));
            } else if q > k {
                assert(ranks_before(rows, x[k], x[q]));
            }
        }
    }
}

/// Total size of a built row.
fn total_of(row: &CompareRow) -> (r: usize)
    requires
        row@.result is Ok,
    ensures
        r == row@.result->Ok_0.total_len,
{
    match &row.result {
        Ok(d) => d.total_len,
        Err(_) => 0,
    }
}

/// Ranks the built rows, smallest total first; rows of one size keep their
/// order.
pub fn ranking(rows: &Vec<CompareRow>) -> (order: Vec<usize>)
    ensures
        is_ranking(rows_of(rows@), ints(order@)),
{
    let ghost all = rows_of(rows@);
    let mut order: Vec<usize> = Vec::new();
    let mut i: usize = 0;
    while i < rows.len()
        invariant
            i <= rows.len(),
            all == rows_of(rows@),
            forall|k: int|
                0 <= k < order@.len() ==> #[trigger] order@[k] < i && all[order@[k] as int].result is Ok,
            forall|j: int|
                0 <= j < i && (#[trigger] all[j]).result is Ok ==> order@.contains(j as usize),
            forall|a: int, b: int|
                0 <= a < b < order@.len() ==> ranks_before(
                    all,
                    #[trigger] order@[a] as int,
                    #[trigger] order@[b] as int,
                ),
        decreases rows.len() - i,
    {
        assert(all[i as int] == rows@[i as int]@);
        if rows[i].result.is_ok() {
            let total = total_of(&rows[i]);
            let mut at: usize = order.len();
            while at > 0 && larger(rows, order[at - 1], total)
                invariant
                    at <= order@.len(),
                    i < rows.len(),
                    all == rows_of(rows@),
                    all[i as int].result is Ok,
                    total == all[i as int].result->Ok_0.total_len,
                    forall|k: int|
                        0 <= k < order@.len() ==> #[trigger] order@[k] < i
                            && all[order@[k] as int].result is Ok,
                    forall|k: int|
                        at <= k < order@.len() ==> all[#[trigger] order@[k] as int].result->Ok_0.total_len
                            > total,
                decreases at,
            {
                at -= 1;
            }
            let ghost before = order@;
            order.insert(at, i);
            proof {
                lemma_inserted(all, before, order@, at as int, i, total as int);
            }
        }
        i += 1;
    }
    proof {
        let o = ints(order@);
        assert forall|j: int| 0 <= j < all.len() && (#[trigger] all[j]).result is Ok implies o.contains(
            j,
        ) by {
            assert(order@.contains(j as usize));
            let k = choose|k: int| 0 <= k < order@.len() && order@[k] == j as usize;
            assert(o[k] == j);
        }
        assert forall|a: int, b: int| 0 <= a < b < o.len() implies ranks_before(
            all,
            #[trigger] o[a],
            #[trigger] o[b],
        ) by {
            assert(ranks_before(all, order@[a] as int, order@[b] as int));
        }
        assert forall|k: int| 0 <= k < o.len() implies 0 <= #[trigger] o[k] < all.len()
            && all[o[k]].result is Ok by {
            assert(order@[k] < all.len());
        }
    }
    order
}

/// Whether a ranked row is larger than `total`.
fn larger(rows: &Vec<CompareRow>, j: usize, total: usize) -> (r: bool)
    requires
        j < rows@.len(),
        rows_of(rows@)[j as int].result is Ok,
    ensures
        r == (rows_of(rows@)[j as int].result->Ok_0.total_len > total),
{
    assert(rows_of(rows@)[j as int] == rows@[j as int]@);
    total_of(&rows[j]) > total
}

/// Inserting a row behind the last one that is not larger keeps the ranking.
proof fn lemma_inserted(
    all: Seq<RowModel>,
    before: Seq<usize>,
    after: Seq<usize>,
    at: int,
    i: usize,
    total: int,
)
    requires
        0 <= at <= before.len(),
        i < all.len(),
        after == before.insert(at, i),
        all[i as int].result is Ok,
        total == all[i as int].result->Ok_0.total_len,
        forall|k: int|
            0 <= k < before.len() ==> #[trigger] before[k] < i && all[before[k] as int].result is Ok,
        forall|j: int|
            0 <= j < i && (#[trigger] all[j]).result is Ok ==> before.contains(j as usize),
        forall|a: int, b: int|
            0 <= a < b < before.len() ==> ranks_before(
                all,
                #[trigger] before[a] as int,
                #[trigger] before[b] as int,
            ),
        forall|k: int|
            at <= k < before.len() ==> all[#[trigger] before[k] as int].result->Ok_0.total_len > total,
        at > 0 ==> all[before[at - 1] as int].result->Ok_0.total_len <= total,
    ensures
        forall|k: int|
            0 <= k < after.len() ==> #[trigger] after[k] < i + 1 && all[after[k] as int].result is Ok,
        forall|j: int|
            0 <= j < i + 1 && (#[trigger] all[j]).result is Ok ==> after.contains(j as usize),
        forall|a: int, b: int|
            0 <= a < b < after.len() ==> ranks_before(
                all,
                #[trigger] after[a] as int,
                #[trigger] after[b] as int,
            ),
{
    assert forall|k: int| 0 <= k < after.len() implies #[trigger] after[k] < i + 1
        && all[after[k] as int].result is Ok by {
        if k < at {
            assert(after[k] == before[k]);
        } else if k > at {
            assert(after[k] == before[k - 1]);
        }
    }
    assert forall|j: int| 0 <= j < i + 1 && (#[trigger] all[j]).result is Ok implies after.contains(
        j as usize,
    ) by {
        if j == i {
            assert(after[at] == i);
        } else {
            assert(before.contains(j as usize));
            let k = choose|k: int| 0 <= k < before.len() && before[k] == j as usize;
            if k < at {
                assert(after[k] == before[k]);
            } else {
                assert(after[k + 1] == before[k]);
            }
        }
    }
    assert forall|a: int, b: int| 0 <= a < b < after.len() implies ranks_before(
        all,
        #[trigger] after[a] as int,
        #[trigger] after[b] as int,
    ) by {
        let x = if a < at {
            a
        } else {
            a - 1
        };
        let y = if b < at {
            b
        } else {
            b - 1
        };
        if a == at {
            assert(after[b] == before[b - 1]);
            assert(before[b - 1] < i);
        } else if b == at {
            assert(after[a] == before[a]);
            assert(before[a] < i);
            if a < at - 1 {
                assert(ranks_before(all, before[a] as int, before[at - 1] as int));
            }
        } else {
            assert(after[a] == before[x] && after[b] == before[y]);
        }
    }
}

/// How far a row is behind the best one.
pub open spec fn tag_text(delta: int) -> Seq<char> {
    if delta == 0 {
        "best"@
    } else {
        "+"@ + decimal(delta as nat) + " B"@
    }
}

/// The line of the `k`-th row of a ranking.
pub open spec fn rank_line(rows: Seq<RowModel>, order: Seq<int>, k: int) -> LineModel {
    let row = rows[order[k]];
    let d = row.result->Ok_0;
    let best = rows[order[0]].result->Ok_0.total_len;
    LineModel {
        kind: if k == 0 {
            LogKind::Good
        } else {
            LogKind::Info
        },
        text: "  "@ + column(k + 1, 2) + ". "@ + facts_text(row.label, d) + left_aligned(
            d.direction.name(),
            8,
        ) + "  "@ + tag_text(d.total_len - best),
    }
}

/// The lines of the first `n` rows of a ranking.
pub open spec fn rank_lines(rows: Seq<RowModel>, order: Seq<int>, n: int) -> Seq<LineModel> {
    Seq::new(n as nat, |k: int| rank_line(rows, order, k))
}

/// The labels of the rows below `n` that could not be built.
pub open spec fn skipped_labels(rows: Seq<RowModel>, n: int) -> Seq<Seq<char>>
    decreases n,
{
    if n <= 0 {
        Seq::empty()
    } else if rows[n - 1].result is Err {
        skipped_labels(rows, n - 1).push(rows[n - 1].label)
    } else {
        skipped_labels(rows, n - 1)
    }
}

/// The line about the rows that could not be built, if there are any.
pub open spec fn skipped_lines(rows: Seq<RowModel>) -> Seq<LineModel> {
    let skipped = skipped_labels(rows, rows.len() as int);
    if skipped.len() == 0 {
        Seq::empty()
    } else {
        seq![
            LineModel {
                kind: LogKind::Muted,
                text: "Skipped "@ + decimal(skipped.len()) + " that do not fit this layout: "@
                    + joined(skipped, ", "@),
            },
        ]
    }
}

/// The lines that end a comparison.
pub open spec fn summary(rows: Seq<RowModel>, order: Seq<int>, secs: Seq<char>) -> Seq<LineModel> {
    seq![LineModel { kind: LogKind::Head, text: "Ranking — smallest total .prg first:"@ }]
        + rank_lines(rows, order, order.len() as int) + skipped_lines(rows) + seq![
        LineModel {
            kind: LogKind::Muted,
            text: "Compare finished in "@ + secs + "s."@,
        },
    ]
}

/// The labels of the rows that could not be built.
fn find_skipped(rows: &Vec<CompareRow>) -> (r: Vec<String>)
    ensures
        texts(r@) == skipped_labels(rows_of(rows@), rows@.len() as int),
{
    let ghost all = rows_of(rows@);
    let mut r: Vec<String> = Vec::new();
    let mut i: usize = 0;
    assert(texts(r@) =~= skipped_labels(all, 0));
    while i < rows.len()
        invariant
            i <= rows.len(),
            all == rows_of(rows@),
            texts(r@) == skipped_labels(all, i as int),
        decreases rows.len() - i,
    {
        assert(all[i as int] == rows@[i as int]@);
        if rows[i].result.is_err() {
            let ghost before = texts(r@);
            r.push(rows[i].label.clone());
            assert(texts(r@) =~= before.push(all[i as int].label));
        }
        i += 1;
    }
    r
}

impl Workshop {
    /// Logs one row of a ranking.
    fn log_rank(&mut self, rows: &Vec<CompareRow>, order: &Vec<usize>, k: usize)
        requires
            is_ranking(rows_of(rows@), ints(order@)),
            k < order@.len(),
        ensures
            final(self).image == old(self).image,
            final(self)@ == ({
                let line = rank_line(rows_of(rows@), ints(order@), k as int);
                logged(old(self)@, line.kind, line.text)
            }),
    {
        let ghost all = rows_of(rows@);
        let ghost o = ints(order@);
        proof {
            assert(o[k as int] == order@[k as int] && o[0] == order@[0]);
            assert(all[o[k as int]].result is Ok && all[o[0]].result is Ok);
            assert(all[o[k as int]] == rows@[o[k as int]]@ && all[o[0]] == rows@[o[0]]@);
            if k > 0 {
                assert(ranks_before(all, o[0], o[k as int]));
            }
        }
        assert(k < order.len());
        let row = &rows[order[k]];
        let best = total_of(&rows[order[0]]);
        let mut s = "  ".to_owned();
        push_column(&mut s, (k + 1) as u64, 2);
        s.append(". ");
        match &row.result {
            Ok(d) => {
                push_facts(&mut s, row.label.as_str(), d);
                push_left(&mut s, d.direction.as_str(), 8);
                s.append("  ");
                let delta = d.total_len - best;
                let ghost before = s@;
                if delta == 0 {
                    s.append("best");
                } else {
                    s.append("+");
                    push_decimal(&mut s, delta as u64);
                    s.append(" B");
                }
                assert(s@ =~= before + tag_text(delta as int));
            },
            Err(_) => {},
        }
        let kind = if k == 0 {
            LogKind::Good
        } else {
            LogKind::Info
        };
        self.log(kind, s);
    }

    /// Logs the ranking that ends a comparison.
    pub fn log_compare_summary(&mut self, rows: &Vec<CompareRow>, secs: &str)
        ensures
            final(self).image == old(self).image,
            exists|order: Seq<int>| #[trigger]
                is_ranking(rows_of(rows@), order) && final(self)@ == (WorkshopModel {
                    log: old(self)@.log + summary(rows_of(rows@), order, secs@),
                    ..old(self)@
                }),
    {
        let ghost start = self@;
        let ghost all = rows_of(rows@);
        let order = ranking(rows);
        let ghost o = ints(order@);
        self.log(LogKind::Head, "Ranking — smallest total .prg first:".to_owned());
        let ghost head = seq![
            LineModel { kind: LogKind::Head, text: "Ranking — smallest total .prg first:"@ },
        ];
        assert(self@.log =~= start.log + (head + rank_lines(all, o, 0)));
        let mut k: usize = 0;
        while k < order.len()
            invariant
                k <= order.len(),
                all == rows_of(rows@),
                o == ints(order@),
                is_ranking(all, o),
                self.image == old(self).image,
                self@ == (WorkshopModel {
                    log: start.log + (head + rank_lines(all, o, k as int)),
                    ..start
                }),
            decreases order.len() - k,
        {
            let ghost before = self@.log;
            self.log_rank(rows, &order, k);
            assert(self@.log =~= before.push(rank_line(all, o, k as int)));
            assert(rank_lines(all, o, k + 1) =~= rank_lines(all, o, k as int).push(
                rank_line(all, o, k as int),
            ));
            assert(self@.log =~= start.log + (head + rank_lines(all, o, k + 1)));
            k += 1;
        }
        let skipped = find_skipped(rows);
        let ghost ranked = head + rank_lines(all, o, o.len() as int);
        assert(texts(skipped@).len() == skipped@.len());
        if skipped.len() > 0 {
            let mut s = "Skipped ".to_owned();
            push_decimal(&mut s, skipped.len() as u64);
            s.append(" that do not fit this layout: ");
            let names = join(&skipped, ", ");
            s.append(names.as_str());
            self.log(LogKind::Muted, s);
        }
        assert(self@.log =~= start.log + (ranked + skipped_lines(all)));
        let mut s = "Compare finished in ".to_owned();
        s.append(secs);
        s.append("s.");
        self.log(LogKind::Muted, s);
        assert(self@.log =~= start.log + summary(all, o, secs@));
        assert(is_ranking(rows_of(rows@), o));
    }
}

/// How many formats are built at once: capacity is left for the user interface.
pub open spec fn worker_count(cores: int, total: int) -> int {
    let most = if cores * 2 / 3 > 1 {
        cores * 2 / 3
    } else {
        1
    };
    if most < total {
        most
    } else {
        total
    }
}

/// How many formats are built at once.
pub fn compare_workers(cores: usize, total: usize) -> (r: usize)
    requires
        cores * 2 <= usize::MAX,
    ensures
        r == worker_count(cores as int, total as int),
{
    let most: usize = if cores * 2 / 3 > 1 {
        cores * 2 / 3
    } else {
        1
    };
    if most < total {
        most
    } else {
        total
    }
}

/// What a comparison needs.
pub struct CompareJob {
    pub start_addr: u16,
    pub placement: Placement,
    /// Indices of the formats to build.
    pub formats: Vec<usize>,
    pub workers: usize,
    pub input_len: usize,
}

/// The formats that a comparison builds.
pub open spec fn compared(w: WorkshopModel, fs: Seq<FormatModel>) -> Seq<int> {
    fitting(misfits(w.image, w.settings, fs), fs.len() as int)
}

/// The workspace after a comparison was asked for with something in the image.
pub open spec fn comparing(w: WorkshopModel, fs: Seq<FormatModel>, cores: int) -> WorkshopModel {
    let total = compared(w, fs).len() as int;
    match asked_job(w) {
        Err(e) => logged(w, LogKind::Error, "Compare: "@ + e),
        Ok(_) => if total == 0 {
            logged(w, LogKind::Warn, "Compare: no cruncher fits the current layout."@)
        } else {
            logged(
                w,
                LogKind::Head,
                "— Compare Crunchers: "@ + decimal(total as nat) + " formats on "@ + decimal(
                    worker_count(cores, total) as nat,
                ) + " of "@ + decimal(cores as nat) + " cores —"@,
            )
        },
    }
}

impl Workshop {
    /// Starts a comparison: nothing happens without a region; a wrong field, or
    /// a layout that no format fits, is reported instead.
    pub fn begin_compare(&mut self, infos: &Vec<FormatInfo>, cores: usize) -> (r: Option<CompareJob>)
        requires
            old(self).wf(),
            input_total(old(self)@.image) <= usize::MAX,
            cores * 2 <= usize::MAX,
        ensures
            final(self).wf(),
            final(self)@ == if old(self)@.image.len() == 0 {
                old(self)@
            } else {
                comparing(old(self)@, format_models(infos@), cores as int)
            },
            match r {
                Some(job) => {
                    let w = old(self)@;
                    let formats = compared(w, format_models(infos@));
                    &&& w.image.len() > 0
                    &&& asked_job(w) matches Ok(asked) && asked.start_addr == job.start_addr
                        && asked.placement == job.placement
                    &&& ints(job.formats@) == formats
                    &&& formats.len() > 0
                    &&& job.workers == worker_count(cores as int, formats.len() as int)
                    &&& job.input_len == input_total(w.image)
                },
                None => old(self)@.image.len() == 0 || asked_job(old(self)@) is Err || compared(
                    old(self)@,
                    format_models(infos@),
                ).len() == 0,
            },
    {
        if self.image.is_empty() {
            return None;
        }
        let job = match self.job() {
            Ok(j) => j,
            Err(e) => {
                let mut s = "Compare: ".to_owned();
                s.append(e.as_str());
                self.log(LogKind::Error, s);
                return None;
            },
        };
        let formats = available_crunchers(&self.image, &self.settings, infos);
        assert(ints(formats@).len() == formats@.len());
        assert(format_models(infos@).len() == infos@.len());
        if formats.len() == 0 {
            self.log(
                LogKind::Warn,
                "Compare: no cruncher fits the current layout.".to_owned(),
            );
            return None;
        }
        let total = formats.len();
        let workers = compare_workers(cores, total);
        let input = input_len(&self.image);
        let mut s = "— Compare Crunchers: ".to_owned();
        push_decimal(&mut s, total as u64);
        s.append(" formats on ");
        push_decimal(&mut s, workers as u64);
        s.append(" of ");
        push_decimal(&mut s, cores as u64);
        s.append(" cores —");
        self.log(LogKind::Head, s);
        Some(
            CompareJob {
                start_addr: job.start_addr,
                placement: job.placement,
                formats,
                workers,
                input_len: input,
            },
        )
    }
}

/// A comparison always runs, on no more workers than there are formats.
pub proof fn comparisons_have_workers(cores: int, total: int)
    requires
        cores >= 0,
        total > 0,
    ensures
        1 <= worker_count(cores, total) <= total,
{
}

/// A selection stays if it fits; otherwise it moves to a format that fits, as
/// long as there is one.
pub proof fn selections_fit_if_anything_does(reasons: Seq<Option<Seq<char>>>, idx: int)
    requires
        0 <= idx < reasons.len(),
    ensures
        reasons[idx] is None ==> selection(reasons, idx) == idx,
        (exists|i: int| 0 <= i < reasons.len() && (#[trigger] reasons[i]) is None) ==> {
            &&& 0 <= selection(reasons, idx) < reasons.len()
            &&& reasons[selection(reasons, idx)] is None
        },
{
    if exists|i: int| 0 <= i < reasons.len() && (#[trigger] reasons[i]) is None {
        let i = choose|i: int| 0 <= i < reasons.len() && (#[trigger] reasons[i]) is None;
        lemma_fitting_holds(reasons, reasons.len() as int, i);
    }
}

proof fn lemma_fitting_holds(reasons: Seq<Option<Seq<char>>>, n: int, i: int)
    requires
        0 <= i < n <= reasons.len(),
        reasons[i] is None,
    ensures
        fitting(reasons, n).len() > 0,
        0 <= fitting(reasons, n)[0] < n,
        reasons[fitting(reasons, n)[0]] is None,
    decreases n,
{
    if i < n - 1 {
        lemma_fitting_holds(reasons, n - 1, i);
    } else {
        lemma_fitting_starts(reasons, n - 1);
    }
}

proof fn lemma_fitting_starts(reasons: Seq<Option<Seq<char>>>, n: int)
    requires
        0 <= n <= reasons.len(),
    ensures
        fitting(reasons, n).len() > 0 ==> 0 <= fitting(reasons, n)[0] < n
            && reasons[fitting(reasons, n)[0]] is None,
    decreases n,
{
    if n > 0 {
        lemma_fitting_starts(reasons, n - 1);
    }
}

/// The best row of a ranking is the smallest of all built rows.
pub proof fn ranking_starts_with_the_smallest(rows: Seq<RowModel>, order: Seq<int>, i: int)
    requires
        is_ranking(rows, order),
        0 <= i < rows.len(),
        rows[i].result is Ok,
    ensures
        order.len() > 0,
        rows[order[0]].result->Ok_0.total_len <= rows[i].result->Ok_0.total_len,
{
    assert(order.contains(i));
    let k = choose|k: int| 0 <= k < order.len() && order[k] == i;
    if k > 0 {
        assert(ranks_before(rows, order[0], order[k]));
    }
}

} // verus!
