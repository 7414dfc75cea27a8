//! What the offered crunchers and the comparison are for.
use vstd::prelude::*;

#[allow(unused_imports)]
use crate::compare::{
    built_facts, compared, comparing, decoder_size, fitting, is_ranking, misfit, misfits,
    planned_direction, rank_line, row_line, selection, skipped_labels, summary, tag_text,
    worker_count, RowModel,
};
#[allow(unused_imports)]
use crate::formats::{Direction, FormatModel};
#[allow(unused_imports)]
use crate::image::RegionModel;
#[allow(unused_imports)]
use crate::placement::{code_size, epilogue_code, Placement};
#[allow(unused_imports)]
use crate::plan::{image_span, staged_routine, worst_case};
#[allow(unused_imports)]
use crate::report::reported;
#[allow(unused_imports)]
use crate::settings::{asked_placement, SettingsModel};
#[allow(unused_imports)]
use crate::sfx::{started, SfxModel};
#[allow(unused_imports)]
use crate::sfx_laws::builds_try_what_the_preview_shows;
#[allow(unused_imports)]
use crate::text::decimal;
#[allow(unused_imports)]
use crate::workshop::{asked_job, LogKind, WorkshopModel};

verus! {

/// A format is offered exactly if a build of the image with the placement that
/// the fields ask for would start, and the reason against it is the one that
/// the build would be refused with.
pub proof fn formats_are_offered_if_they_would_build(
    regs: Seq<RegionModel>,
    s: SettingsModel,
    f: FormatModel,
    start_addr: u16,
    p: Placement,
)
    requires
        regs.len() > 0,
        image_span(regs).1 - image_span(regs).0 <= 0xFFFF,
        asked_placement(s) == Ok::<Placement, Seq<char>>(p),
    ensures
        misfit(regs, s, f) is None <==> started(regs, f, start_addr, p) is Ok,
        started(regs, f, start_addr, p) matches Err(e) ==> misfit(regs, s, f) == Some(e),
{
    builds_try_what_the_preview_shows(regs, f, start_addr, p);
}

/// The direction that is shown for an offered format is the one that its build
/// tries first.
pub proof fn the_direction_shown_is_tried_first(
    regs: Seq<RegionModel>,
    s: SettingsModel,
    f: FormatModel,
    start_addr: u16,
    p: Placement,
)
    requires
        regs.len() > 0,
        asked_placement(s) == Ok::<Placement, Seq<char>>(p),
        started(regs, f, start_addr, p) is Ok,
    ensures
        planned_direction(regs, s, f) == started(regs, f, start_addr, p)->Ok_0.job.dirs[0],
{
    builds_try_what_the_preview_shows(regs, f, start_addr, p);
}

/// The size that is shown of a format that is not offered is that of its
/// balanced routine, unpacking forward.
pub proof fn formats_that_do_not_fit_show_their_routine(
    regs: Seq<RegionModel>,
    s: SettingsModel,
    f: FormatModel,
)
    requires
        misfit(regs, s, f) is Some,
    ensures
        match (
            decoder_size(regs, s, f),
            (if s.allow_illegal {
                f.forward.any
            } else {
                f.forward.legal
            }).balanced,
        ) {
            (Some(n), Some(r)) => n == r.code_bytes,
            (None, None) => true,
            _ => false,
        },
{
}

/// Without an image, or with a field that cannot be read, every format is
/// offered, and shown unpacking forward with the size of its balanced routine.
pub proof fn nothing_speaks_against_a_format_yet(
    regs: Seq<RegionModel>,
    s: SettingsModel,
    f: FormatModel,
)
    requires
        regs.len() == 0 || asked_placement(s) is Err,
    ensures
        misfit(regs, s, f) is None,
        planned_direction(regs, s, f) is Forward,
        match (
            decoder_size(regs, s, f),
            (if s.allow_illegal {
                f.forward.any
            } else {
                f.forward.legal
            }).balanced,
        ) {
            (Some(n), Some(r)) => n == r.code_bytes,
            (None, None) => true,
            _ => false,
        },
{
}

/// The size that is shown of an offered format's decoder: the code of the
/// routine that its first direction stages, the wrapper, the code before the
/// jump, and 28 bytes where the mover is folded in.
pub proof fn the_size_shown_is_the_staged_decoder(
    regs: Seq<RegionModel>,
    s: SettingsModel,
    f: FormatModel,
    p: Placement,
)
    requires
        regs.len() > 0,
        crate::plan::valid_span(image_span(regs)),
        asked_placement(s) == Ok::<Placement, Seq<char>>(p),
        misfit(regs, s, f) is None,
    ensures
        ({
            let routine = (staged_routine(f, planned_direction(regs, s, f), p)->0).0;
            let plain = routine.code_bytes + (if routine.zp_stack {
                8int
            } else {
                16
            }) + code_size(epilogue_code(p));
            &&& decoder_size(regs, s, f) is Some
            &&& decoder_size(regs, s, f)->0 == plain || decoder_size(regs, s, f)->0 == plain + 28
            &&& p.mover is Some ==> decoder_size(regs, s, f)->0 == plain
        }),
{
    let span = image_span(regs);
    let d = planned_direction(regs, s, f);
    let len = worst_case(span.1 - span.0);
    crate::plan::candidates_are_usable(span, f, p);
    crate::plan_laws::staged_sizes_count_every_part(span, len, f, d, p, false);
}

proof fn lemma_fitting(reasons: Seq<Option<Seq<char>>>, n: int)
    requires
        0 <= n <= reasons.len(),
    ensures
        forall|k: int|
            0 <= k < fitting(reasons, n).len() ==> 0 <= #[trigger] fitting(reasons, n)[k] < n
                && reasons[fitting(reasons, n)[k]] is None,
        forall|i: int|
            0 <= i < n && (#[trigger] reasons[i]) is None ==> fitting(reasons, n).contains(i),
        forall|j: int, k: int|
            0 <= j < k < fitting(reasons, n).len() ==> #[trigger] fitting(reasons, n)[j]
                < #[trigger] fitting(reasons, n)[k],
    decreases n,
{
    if n > 0 {
        lemma_fitting(reasons, n - 1);
        let before = fitting(reasons, n - 1);
        let all = fitting(reasons, n);
        if reasons[n - 1] is None {
            assert(all == before.push(n - 1));
            assert(all[before.len() as int] == n - 1);
        }
        assert forall|i: int| 0 <= i < n && (#[trigger] reasons[i]) is None implies all.contains(
            i,
        ) by {
            if i < n - 1 {
                assert(before.contains(i));
                let k = choose|k: int| 0 <= k < before.len() && before[k] == i;
                assert(all[k] == i);
            }
        }
    }
}

/// A comparison builds every format that is offered and no other, each once and
/// in the order of the list.
pub proof fn comparisons_build_what_is_offered(
    w: WorkshopModel,
    fs: Seq<FormatModel>,
    start_addr: u16,
    p: Placement,
    i: int,
)
    requires
        w.image.len() > 0,
        image_span(w.image).1 - image_span(w.image).0 <= 0xFFFF,
        asked_placement(w.settings) == Ok::<Placement, Seq<char>>(p),
        0 <= i < fs.len(),
    ensures
        compared(w, fs).contains(i) <==> started(w.image, fs[i], start_addr, p) is Ok,
        forall|j: int, k: int|
            0 <= j < k < compared(w, fs).len() ==> #[trigger] compared(w, fs)[j]
                < #[trigger] compared(w, fs)[k],
        forall|k: int| 0 <= k < compared(w, fs).len() ==> 0 <= #[trigger] compared(w, fs)[k]
            < fs.len(),
{
    let reasons = misfits(w.image, w.settings, fs);
    lemma_fitting(reasons, fs.len() as int);
    formats_are_offered_if_they_would_build(w.image, w.settings, fs[i], start_addr, p);
    assert(reasons[i] == misfit(w.image, w.settings, fs[i]));
}

/// A selection that does not fit is replaced by the first format that does; one
/// that fits, or that nothing could replace, stays.
pub proof fn selections_move_to_the_first_that_fits(reasons: Seq<Option<Seq<char>>>, idx: int)
    requires
        0 <= idx,
    ensures
        ({
            let to = selection(reasons, idx);
            &&& idx >= reasons.len() || reasons[idx] is None ==> to == idx
            &&& idx < reasons.len() && reasons[idx] is Some ==> if forall|i: int|
                0 <= i < reasons.len() ==> (#[trigger] reasons[i]) is Some {
                to == idx
            } else {
                &&& 0 <= to < reasons.len()
                &&& reasons[to] is None
                &&& forall|i: int| 0 <= i < to ==> (#[trigger] reasons[i]) is Some
            }
        }),
{
    let n = reasons.len() as int;
    let all = fitting(reasons, n);
    lemma_fitting(reasons, n);
    if !(forall|i: int| 0 <= i < reasons.len() ==> (#[trigger] reasons[i]) is Some) {
        let i = choose|i: int| 0 <= i < reasons.len() && (#[trigger] reasons[i]) is None;
        assert(all.contains(i));
        assert(all.len() > 0);
        assert(all[0] == all[0]);
        assert forall|k: int| 0 <= k < all[0] implies (#[trigger] reasons[k]) is Some by {
            if reasons[k] is None {
                assert(all.contains(k));
                let m = choose|m: int| 0 <= m < all.len() && all[m] == k;
                assert(m > 0);
                assert(all[0] < all[m]);
            }
        }
    } else if all.len() > 0 {
        assert(reasons[all[0]] is None);
    }
}

/// Two thirds of the cores work on a comparison, but at least one and no more
/// than there are formats.
pub proof fn two_thirds_of_the_cores_compare(cores: int, total: int)
    requires
        cores >= 0,
        total > 0,
    ensures
        ({
            let n = worker_count(cores, total);
            &&& 3 * n <= 2 * cores || n == 1
            &&& n < total ==> 2 * cores < 3 * (n + 1)
            &&& 1 <= n <= total
        }),
{
}

proof fn lemma_skipped(rows: Seq<RowModel>, n: int)
    requires
        0 <= n <= rows.len(),
    ensures
        forall|k: int|
            0 <= k < skipped_labels(rows, n).len() ==> exists|i: int|
                0 <= i < n && (#[trigger] rows[i]).result is Err && rows[i].label
                    == #[trigger] skipped_labels(rows, n)[k],
        forall|i: int|
            0 <= i < n && (#[trigger] rows[i]).result is Err ==> skipped_labels(rows, n).contains(
                rows[i].label,
            ),
        skipped_labels(rows, n).len() <= n,
    decreases n,
{
    if n > 0 {
        lemma_skipped(rows, n - 1);
        let before = skipped_labels(rows, n - 1);
        let all = skipped_labels(rows, n);
        if rows[n - 1].result is Err {
            assert(all[before.len() as int] == rows[n - 1].label);
        }
        assert forall|k: int| 0 <= k < all.len() implies exists|i: int|
            0 <= i < n && (#[trigger] rows[i]).result is Err && rows[i].label
                == #[trigger] all[k] by {
            if k < before.len() {
                assert(all[k] == before[k]);
                let i = choose|i: int|
                    0 <= i < n - 1 && (#[trigger] rows[i]).result is Err && rows[i].label
                        == before[k];
                assert(rows[i].label == all[k]);
            } else {
                assert(rows[n - 1].label == all[k]);
            }
        }
        assert forall|i: int| 0 <= i < n && (#[trigger] rows[i]).result is Err implies all.contains(
            rows[i].label,
        ) by {
            if i < n - 1 {
                assert(before.contains(rows[i].label));
                let k = choose|k: int| 0 <= k < before.len() && before[k] == rows[i].label;
                assert(all[k] == rows[i].label);
            }
        }
    }
}

/// Every row of a comparison is accounted for: one that was built is ranked,
/// one that was not is named among the skipped, and nothing else is.
pub proof fn every_row_is_ranked_or_skipped(rows: Seq<RowModel>, order: Seq<int>, i: int)
    requires
        is_ranking(rows, order),
        0 <= i < rows.len(),
    ensures
        rows[i].result is Ok <==> order.contains(i),
        rows[i].result is Err ==> skipped_labels(rows, rows.len() as int).contains(rows[i].label),
        forall|k: int|
            0 <= k < skipped_labels(rows, rows.len() as int).len() ==> exists|j: int|
                0 <= j < rows.len() && (#[trigger] rows[j]).result is Err && rows[j].label
                    == #[trigger] skipped_labels(rows, rows.len() as int)[k],
{
    lemma_skipped(rows, rows.len() as int);
}

/// In a ranking nobody stands behind a larger program, only the first line is
/// marked as good, and each line ends with how many bytes its program is larger
/// than the smallest; the smallest is called the best.
pub proof fn rankings_go_from_small_to_large(rows: Seq<RowModel>, order: Seq<int>, a: int, b: int)
    requires
        is_ranking(rows, order),
        0 <= a < b < order.len(),
    ensures
        rows[order[a]].result->Ok_0.total_len <= rows[order[b]].result->Ok_0.total_len,
        rank_line(rows, order, a).kind is Good <==> a == 0,
        rank_line(rows, order, b).kind is Info,
        ({
            let least = rows[order[0]].result->Ok_0.total_len;
            let more = rows[order[b]].result->Ok_0.total_len - least;
            &&& more >= 0
            &&& tag_text(more) == if rows[order[b]].result->Ok_0.total_len == least {
                "best"@
            } else {
                "+"@ + decimal(more as nat) + " B"@
            }
        }),
{
    assert(crate::compare::ranks_before(rows, order[a], order[b]));
    if a > 0 {
        assert(crate::compare::ranks_before(rows, order[0], order[b]));
    }
}

/// A comparison starts its builds with the placement and the jump that a single
/// crunch would use.
pub proof fn comparisons_use_the_crunch_settings(w: WorkshopModel)
    ensures
        asked_job(w) matches Ok(job) ==> {
            &&& asked_placement(w.settings) == Ok::<Placement, Seq<char>>(job.placement)
            &&& crate::start::start_target(w.image, w.import_hint, w.settings) == Ok::<
                u16,
                Seq<char>,
            >(job.start_addr)
        },
        asked_job(w) is Err <==> asked_placement(w.settings) is Err || crate::start::start_target(
            w.image,
            w.import_hint,
            w.settings,
        ) is Err,
{
}

/// Programs of the same length are ranked in the order of the list.
pub proof fn ties_keep_the_order_of_the_list(rows: Seq<RowModel>, order: Seq<int>, a: int, b: int)
    requires
        is_ranking(rows, order),
        0 <= a < b < order.len(),
        rows[order[a]].result->Ok_0.total_len == rows[order[b]].result->Ok_0.total_len,
    ensures
        order[a] < order[b],
{
    assert(crate::compare::ranks_before(rows, order[a], order[b]));
}

/// Starting a comparison changes nothing but the history, which goes on with
/// one line: a wrong field as an error, a layout that nothing fits as a
/// warning, and a headline where there is something to build.
pub proof fn comparisons_are_announced(w: WorkshopModel, fs: Seq<FormatModel>, cores: int)
    ensures
        ({
            let t = comparing(w, fs, cores);
            &&& t == WorkshopModel { log: t.log, ..w }
            &&& t.log.len() == w.log.len() + 1
            &&& t.log.drop_last() == w.log
            &&& t.log.last().kind == if asked_job(w) is Err {
                LogKind::Error
            } else if compared(w, fs).len() == 0 {
                LogKind::Warn
            } else {
                LogKind::Head
            }
        }),
{
    let t = comparing(w, fs, cores);
    assert(t.log.drop_last() =~= w.log);
}

/// A row that was built is told as a fact and shows how its program unpacks;
/// one that was not is told in passing.
pub proof fn rows_tell_what_was_built(row: RowModel)
    ensures
        row_line(row).kind is Info <==> row.result is Ok,
        row.result is Err ==> row_line(row).kind is Muted,
        row.result matches Ok(d) ==> {
            let t = row_line(row).text;
            let way = match d.direction {
                Direction::Forward => "forward"@,
                Direction::Backward => "backward"@,
            };
            t.len() >= way.len() && t.skip(t.len() - way.len()) == way
        },
{
    if let Ok(d) = row.result {
        let t = row_line(row).text;
        assert(t.skip(t.len() - d.direction.name().len()) =~= d.direction.name());
    }
}

/// A summary is a headline, one line for each program from the smallest on, one
/// for the skipped if there are any, and the time that it took.
pub proof fn summaries_list_every_program(
    rows: Seq<RowModel>,
    order: Seq<int>,
    secs: Seq<char>,
    k: int,
)
    requires
        is_ranking(rows, order),
    ensures
        ({
            let all = summary(rows, order, secs);
            let skips = exists|i: int| 0 <= i < rows.len() && (#[trigger] rows[i]).result is Err;
            &&& all.len() == order.len() + (if skips {
                3int
            } else {
                2
            })
            &&& all[0].kind is Head
            &&& 0 <= k < order.len() ==> all[k + 1] == rank_line(rows, order, k)
            &&& all.last().kind is Muted
        }),
{
    let n = rows.len() as int;
    lemma_skipped(rows, n);
    let skipped = skipped_labels(rows, n);
    if exists|i: int| 0 <= i < rows.len() && (#[trigger] rows[i]).result is Err {
        let i = choose|i: int| 0 <= i < rows.len() && (#[trigger] rows[i]).result is Err;
        assert(skipped.contains(rows[i].label));
        assert(skipped.len() > 0);
    } else if skipped.len() > 0 {
        assert(skipped[0] == skipped[0]);
    }
}

/// A row of a comparison says of a program what a report of it would say.
pub proof fn rows_agree_with_reports(
    r: SfxModel,
    input_len: int,
    file: Seq<char>,
    label: Seq<char>,
    ratio: Seq<char>,
    score: Seq<char>,
)
    ensures
        ({
            let row = built_facts(r, ratio, score);
            let o = reported(r, input_len, file, label, ratio, score);
            &&& row.total_len == o.output_len && row.total_len == r.prg.len()
            &&& row.stream_len == o.stream_len
            &&& row.decoder_bytes == o.decoder_bytes && row.decoder_bytes == r.decoder_bytes
            &&& row.direction == o.direction
            &&& row.ratio == o.ratio && row.score == o.score
        }),
{
}

} // verus!
