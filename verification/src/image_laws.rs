//! What holds of the memory image as a whole.
use vstd::prelude::*;

#[allow(unused_imports)]
use crate::image::{
    after_edits, all_wf, byte_at, changed, edit_runs, edited, listed_before, owner_at,
    owner_is_last_covering, parsed_prg, patch_name, patches, regions_overlap, resized, rewindowed,
    run_end, EditRun, RegionModel,
};
#[allow(unused_imports)]
use crate::text::hex4;

verus! {

/// The runs of an edit lie one behind the other, hold only changed addresses
/// with one visible region, and miss no changed address.
pub proof fn runs_hold_the_changed_addresses(
    regs: Seq<RegionModel>,
    old: Seq<u8>,
    new: Seq<u8>,
    a: int,
)
    requires
        0 <= a <= 0x1_0000,
    ensures
        forall|k: int|
            0 <= k < edit_runs(regs, old, new, a).len() ==> a <= (#[trigger] edit_runs(
                regs,
                old,
                new,
                a,
            )[k]).start < edit_runs(regs, old, new, a)[k].end <= 0x1_0000,
        forall|k: int, x: int|
            0 <= k < edit_runs(regs, old, new, a).len() && (#[trigger] edit_runs(
                regs,
                old,
                new,
                a,
            )[k]).start <= x < edit_runs(regs, old, new, a)[k].end ==> #[trigger] changed(
                old,
                new,
                x,
            ) && owner_at(regs, x) == edit_runs(regs, old, new, a)[k].owner,
        forall|x: int|
            a <= x < 0x1_0000 && #[trigger] changed(old, new, x) ==> exists|k: int|
                0 <= k < edit_runs(regs, old, new, a).len() && (#[trigger] edit_runs(
                    regs,
                    old,
                    new,
                    a,
                )[k]).start <= x < edit_runs(regs, old, new, a)[k].end,
        forall|j: int, k: int|
            0 <= j < k < edit_runs(regs, old, new, a).len() ==> (#[trigger] edit_runs(
                regs,
                old,
                new,
                a,
            )[j]).end <= (#[trigger] edit_runs(regs, old, new, a)[k]).start,
    decreases 0x1_0000 - a,
{
    let runs = edit_runs(regs, old, new, a);
    if a < 0x1_0000 {
        if !changed(old, new, a) {
            runs_hold_the_changed_addresses(regs, old, new, a + 1);
        } else {
            let own = owner_at(regs, a);
            let end = run_end(regs, old, new, own, a);
            lemma_run_end(regs, old, new, own, a);
            runs_hold_the_changed_addresses(regs, old, new, end);
            let rest = edit_runs(regs, old, new, end);
            let first = EditRun { start: a, end, owner: own };
            assert(runs == seq![first] + rest);
            assert(runs[0] == first);
            assert forall|k: int| 1 <= k < runs.len() implies #[trigger] runs[k] == rest[k - 1] by {
            }
            assert forall|x: int| a <= x < 0x1_0000 && #[trigger] changed(old, new, x) implies exists|
                k: int,
            |
                0 <= k < runs.len() && (#[trigger] runs[k]).start <= x < runs[k].end by {
                if x < end {
                    assert(runs[0].start <= x < runs[0].end);
                } else {
                    let k = choose|k: int|
                        0 <= k < rest.len() && (#[trigger] rest[k]).start <= x < rest[k].end;
                    assert(runs[k + 1] == rest[k]);
                }
            }
        }
    }
}

proof fn lemma_run_end(
    regs: Seq<RegionModel>,
    old: Seq<u8>,
    new: Seq<u8>,
    own: Option<int>,
    a: int,
)
    requires
        a < 0x1_0000,
        changed(old, new, a),
        owner_at(regs, a) == own,
    ensures
        a < run_end(regs, old, new, own, a) <= 0x1_0000,
        forall|x: int|
            a <= x < run_end(regs, old, new, own, a) ==> #[trigger] changed(old, new, x) && owner_at(
                regs,
                x,
            ) == own,
    decreases 0x1_0000 - a,
{
    let b = a + 1;
    if b < 0x1_0000 && changed(old, new, b) && owner_at(regs, b) == own {
        lemma_run_end(regs, old, new, own, b);
    } else {
        assert(run_end(regs, old, new, own, b) == b);
    }
}

/// The region that a run outside every region becomes.
pub open spec fn patch_of(run: EditRun, new: Seq<u8>) -> RegionModel {
    RegionModel {
        name: patch_name(run.start),
        load: run.start,
        data: new.subrange(run.start, run.end),
    }
}

/// The run that a patch region comes from.
proof fn lemma_patch_source(runs: Seq<EditRun>, new: Seq<u8>, j: int) -> (k: int)
    requires
        0 <= j < patches(runs, new).len(),
    ensures
        0 <= k < runs.len(),
        runs[k].owner is None,
        patches(runs, new)[j] == patch_of(runs[k], new),
    decreases runs.len(),
{
    let rest = runs.drop_last();
    if j < patches(rest, new).len() {
        lemma_patch_source(rest, new, j)
    } else {
        runs.len() - 1
    }
}

/// The patch region that a run outside every region becomes.
proof fn lemma_patch_target(runs: Seq<EditRun>, new: Seq<u8>, k: int) -> (j: int)
    requires
        0 <= k < runs.len(),
        runs[k].owner is None,
    ensures
        0 <= j < patches(runs, new).len(),
        patches(runs, new)[j] == patch_of(runs[k], new),
    decreases runs.len(),
{
    let rest = runs.drop_last();
    if k < rest.len() {
        lemma_patch_target(rest, new, k)
    } else {
        patches(rest, new).len() as int
    }
}

/// Where a list of regions follows another, its bytes show first.
proof fn lemma_behind(first: Seq<RegionModel>, then: Seq<RegionModel>, a: int)
    ensures
        byte_at(first + then, a) == if owner_at(then, a) is Some {
            byte_at(then, a)
        } else {
            byte_at(first, a)
        },
    decreases then.len(),
{
    let all = first + then;
    if then.len() == 0 {
        assert(all =~= first);
    } else {
        assert(all.drop_last() =~= first + then.drop_last());
        assert(all.last() == then.last());
        if !then.last().covers(a) {
            lemma_behind(first, then.drop_last(), a);
            owner_is_last_covering(first, a);
            owner_is_last_covering(then.drop_last(), a);
            owner_is_last_covering(all.drop_last(), a);
        }
    }
}

/// The visible region depends on what the regions cover alone.
proof fn lemma_same_owner(x: Seq<RegionModel>, y: Seq<RegionModel>, a: int)
    requires
        x.len() == y.len(),
        forall|i: int| 0 <= i < x.len() ==> (#[trigger] x[i]).covers(a) == y[i].covers(a),
    ensures
        owner_at(x, a) == owner_at(y, a),
    decreases x.len(),
{
    if x.len() > 0 {
        assert(x[x.len() - 1].covers(a) == y[y.len() - 1].covers(a));
        assert forall|i: int| 0 <= i < x.drop_last().len() implies (
        #[trigger] x.drop_last()[i]).covers(a) == y.drop_last()[i].covers(a) by {
            assert(x[i].covers(a) == y[i].covers(a));
        }
        lemma_same_owner(x.drop_last(), y.drop_last(), a);
    }
}

/// What one run says of an address in it.
proof fn lemma_run(regs: Seq<RegionModel>, old: Seq<u8>, new: Seq<u8>, k: int, a: int)
    requires
        0 <= k < edit_runs(regs, old, new, 0).len(),
    ensures
        0 <= edit_runs(regs, old, new, 0)[k].start < edit_runs(regs, old, new, 0)[k].end
            <= 0x1_0000,
        edit_runs(regs, old, new, 0)[k].start <= a < edit_runs(regs, old, new, 0)[k].end
            ==> changed(old, new, a) && owner_at(regs, a) == edit_runs(regs, old, new, 0)[k].owner,
{
    runs_hold_the_changed_addresses(regs, old, new, 0);
    let run = edit_runs(regs, old, new, 0)[k];
    if run.start <= a < run.end {
        assert(changed(old, new, a));
    }
}

/// The run that holds a changed address.
proof fn lemma_run_of(regs: Seq<RegionModel>, old: Seq<u8>, new: Seq<u8>, a: int) -> (k: int)
    requires
        0 <= a < 0x1_0000,
        changed(old, new, a),
    ensures
        0 <= k < edit_runs(regs, old, new, 0).len(),
        edit_runs(regs, old, new, 0)[k].start <= a < edit_runs(regs, old, new, 0)[k].end,
        owner_at(regs, a) == edit_runs(regs, old, new, 0)[k].owner,
{
    runs_hold_the_changed_addresses(regs, old, new, 0);
    let runs = edit_runs(regs, old, new, 0);
    let k = choose|k: int| 0 <= k < runs.len() && (#[trigger] runs[k]).start <= a < runs[k].end;
    assert(runs[k].start <= a < runs[k].end);
    k
}

/// The patch regions cover exactly the changed addresses outside every region,
/// and hold the edited bytes there.
proof fn lemma_patches_cover(regs: Seq<RegionModel>, old: Seq<u8>, new: Seq<u8>, a: int)
    requires
        0 <= a < 0x1_0000,
        new.len() == 0x1_0000,
    ensures
        ({
            let fresh = patches(edit_runs(regs, old, new, 0), new);
            &&& owner_at(fresh, a) is Some <==> changed(old, new, a) && owner_at(regs, a) is None
            &&& owner_at(fresh, a) is Some ==> byte_at(fresh, a) == new[a]
        }),
{
    let runs = edit_runs(regs, old, new, 0);
    let fresh = patches(runs, new);
    owner_is_last_covering(fresh, a);
    if owner_at(fresh, a) is Some {
        let k = lemma_patch_source(runs, new, owner_at(fresh, a)->0);
        lemma_run(regs, old, new, k, a);
    } else if changed(old, new, a) && owner_at(regs, a) is None {
        let k = lemma_run_of(regs, old, new, a);
        let j = lemma_patch_target(runs, new, k);
        assert(fresh[j].covers(a)) by {
            lemma_run(regs, old, new, k, a);
        }
    }
}

/// Edits round-trip: after a change set against the current buffer is applied,
/// the image shows the edited buffer.
pub proof fn edits_round_trip(regs: Seq<RegionModel>, old: Seq<u8>, new: Seq<u8>)
    requires
        new.len() == 0x1_0000,
        forall|a: int| 0 <= a < 0x1_0000 ==> #[trigger] old[a] == byte_at(regs, a),
    ensures
        forall|a: int|
            0 <= a < 0x1_0000 ==> #[trigger] byte_at(after_edits(regs, old, new), a) == new[a],
{
    let kept = Seq::new(regs.len(), |i: int| edited(regs, old, new, i, 0x1_0000));
    let fresh = patches(edit_runs(regs, old, new, 0), new);
    assert forall|a: int| 0 <= a < 0x1_0000 implies #[trigger] byte_at(
        after_edits(regs, old, new),
        a,
    ) == new[a] by {
        assert(old[a] == byte_at(regs, a));
        lemma_behind(kept, fresh, a);
        lemma_patches_cover(regs, old, new, a);
        lemma_same_owner(kept, regs, a);
        owner_is_last_covering(regs, a);
        if owner_at(fresh, a) is None && owner_at(regs, a) is Some {
            let i = owner_at(regs, a)->0;
            assert(kept[i] == edited(regs, old, new, i, 0x1_0000));
            assert(regs[i].load + (a - regs[i].load) == a);
        }
    }
}

/// An edit never moves, resizes, renames, drops or reorders a region, and never
/// touches a byte that another region hides.
pub proof fn edits_touch_only_visible_bytes(
    regs: Seq<RegionModel>,
    old: Seq<u8>,
    new: Seq<u8>,
    i: int,
)
    requires
        0 <= i < regs.len(),
    ensures
        after_edits(regs, old, new).len() >= regs.len(),
        after_edits(regs, old, new)[i].name == regs[i].name,
        after_edits(regs, old, new)[i].load == regs[i].load,
        after_edits(regs, old, new)[i].data.len() == regs[i].data.len(),
        forall|a: int|
            regs[i].covers(a) && #[trigger] owner_at(regs, a) != Some(i) ==> after_edits(
                regs,
                old,
                new,
            )[i].data[a - regs[i].load] == regs[i].data[a - regs[i].load],
{
    let r = after_edits(regs, old, new)[i];
    assert(r == edited(regs, old, new, i, 0x1_0000));
    assert forall|a: int| regs[i].covers(a) && #[trigger] owner_at(regs, a) != Some(i) implies r.data[a
        - regs[i].load] == regs[i].data[a - regs[i].load] by {
        assert(regs[i].load + (a - regs[i].load) == a);
    }
}

/// Applying an unchanged buffer changes nothing and logs nothing.
pub proof fn no_edit_no_effect(regs: Seq<RegionModel>, buf: Seq<u8>)
    ensures
        after_edits(regs, buf, buf) == regs,
        edit_runs(regs, buf, buf, 0).len() == 0,
{
    runs_hold_the_changed_addresses(regs, buf, buf, 0);
    let runs = edit_runs(regs, buf, buf, 0);
    if runs.len() > 0 {
        assert(changed(buf, buf, runs[0].start));
    }
    assert forall|i: int| 0 <= i < regs.len() implies #[trigger] edited(
        regs,
        buf,
        buf,
        i,
        0x1_0000,
    ) == regs[i] by {
        assert(edited(regs, buf, buf, i, 0x1_0000) =~= regs[i]);
    }
    assert(after_edits(regs, buf, buf) =~= regs);
}

/// A region added last shows wherever it covers an address, and leaves the
/// image as it was everywhere else.
pub proof fn last_added_region_wins(regs: Seq<RegionModel>, r: RegionModel, a: int)
    ensures
        byte_at(regs.push(r), a) == if r.covers(a) {
            r.data[a - r.load]
        } else {
            byte_at(regs, a)
        },
{
    assert(regs.push(r).drop_last() =~= regs);
    owner_is_last_covering(regs, a);
}

/// Removing the region that was added last undoes the addition.
pub proof fn remove_undoes_add(regs: Seq<RegionModel>, r: RegionModel)
    ensures
        regs.push(r).remove(regs.len() as int) == regs,
{
    assert(regs.push(r).remove(regs.len() as int) =~= regs);
}

/// Every address outside the span, and every gap between regions, is zero.
pub proof fn gaps_are_zero(regs: Seq<RegionModel>, a: int)
    requires
        forall|i: int| 0 <= i < regs.len() ==> !(#[trigger] regs[i]).covers(a),
    ensures
        byte_at(regs, a) == 0,
{
    owner_is_last_covering(regs, a);
}

/// Re-windowing keeps the bytes of the addresses that both windows cover.
pub proof fn resize_keeps_shared_bytes(
    regs: Seq<RegionModel>,
    idx: int,
    start: int,
    end: int,
    a: int,
)
    requires
        0 <= idx < regs.len(),
        start < end <= 0x1_0000,
    ensures
        ({
            let r = resized(regs, idx, start, end)->Ok_0[idx];
            &&& resized(regs, idx, start, end) is Ok
            &&& r.covers(a) == (start <= a < end)
            &&& start <= a < end ==> r.data[a - r.load] == if regs[idx].covers(a) {
                regs[idx].data[a - regs[idx].load]
            } else {
                0
            }
        }),
{
    if start <= a < end {
        assert(start + (a - start) == a);
    }
}

/// Re-windowing a region to its own range changes nothing.
pub proof fn resize_to_same_range_is_identity(regs: Seq<RegionModel>, idx: int)
    requires
        all_wf(regs),
        0 <= idx < regs.len(),
    ensures
        resized(regs, idx, regs[idx].load, regs[idx].end()) == Ok::<Seq<RegionModel>, Seq<char>>(regs),
{
    let r = regs[idx];
    assert(r.wf());
    assert(rewindowed(r, r.load, r.end()) =~= r);
    assert(regs.update(idx, r) =~= regs);
}

/// Growing a region and shrinking it back restores it.
pub proof fn shrink_undoes_grow(r: RegionModel, start: int, end: int)
    requires
        r.wf(),
        start <= r.load,
        r.end() <= end,
    ensures
        rewindowed(rewindowed(r, start, end), r.load, r.end()) == r,
{
    let wide = rewindowed(r, start, end);
    let back = rewindowed(wide, r.load, r.end());
    assert forall|k: int| 0 <= k < r.data.len() implies back.data[k] == r.data[k] by {
        let a = r.load + k;
        assert(wide.covers(a));
        assert(wide.data[a - start] == r.data[k]);
    }
    assert(back =~= r);
}

/// Two regions overlap exactly if some address lies in both.
pub proof fn regions_overlap_in_an_address(a: RegionModel, b: RegionModel)
    requires
        a.wf(),
        b.wf(),
    ensures
        regions_overlap(a, b) <==> exists|x: int| #[trigger] a.covers(x) && b.covers(x),
        regions_overlap(a, b) == regions_overlap(b, a),
{
    if regions_overlap(a, b) {
        let x = if a.load > b.load {
            a.load
        } else {
            b.load
        };
        assert(a.covers(x) && b.covers(x));
    }
}

/// Regions are listed by where they start, those that start together by where
/// they end, and equal ranges in the order in which they were added; of two
/// regions one always stands before the other.
pub proof fn regions_are_listed_from_low_to_high(regs: Seq<RegionModel>, i: int, j: int)
    ensures
        listed_before(regs, i, j) ==> regs[i].load <= regs[j].load,
        listed_before(regs, i, j) && regs[i].load == regs[j].load ==> regs[i].end()
            <= regs[j].end(),
        listed_before(regs, i, j) && regs[i].load == regs[j].load && regs[i].end()
            == regs[j].end() ==> i < j,
        i != j ==> (listed_before(regs, i, j) <==> !listed_before(regs, j, i)),
        !listed_before(regs, i, i),
{
}

/// A file loads where its first two bytes say, low byte first, with the bytes
/// behind them, exactly if there are any and they end by the top of memory.
pub proof fn files_load_where_they_say(name: Seq<char>, load: u16, data: Seq<u8>)
    ensures
        ({
            let bytes = seq![(load % 256) as u8, (load / 256) as u8] + data;
            &&& parsed_prg(name, bytes) is Ok <==> data.len() > 0 && load + data.len() <= 0x1_0000
            &&& parsed_prg(name, bytes) matches Ok(r) ==> {
                &&& r.load == load
                &&& r.data == data
                &&& r.name == name
                &&& r.wf()
            }
        }),
        forall|bytes: Seq<u8>| bytes.len() < 3 ==> (#[trigger] parsed_prg(name, bytes)) is Err,
{
    let bytes = seq![(load % 256) as u8, (load / 256) as u8] + data;
    assert(bytes.skip(2) =~= data);
    assert(bytes[0] + bytes[1] * 256 == load);
}

/// A resize is refused exactly if the range is empty, ends above `$FFFF` or
/// names no region; otherwise it changes that region alone, whose name stays.
pub proof fn resizes_change_one_region(regs: Seq<RegionModel>, idx: int, start: int, end: int)
    requires
        0 <= idx,
    ensures
        resized(regs, idx, start, end) is Ok <==> start < end <= 0x1_0000 && idx < regs.len(),
        resized(regs, idx, start, end) matches Ok(after) ==> {
            &&& after.len() == regs.len()
            &&& after[idx].name == regs[idx].name
            &&& after[idx].load == start
            &&& after[idx].end() == end
            &&& forall|j: int|
                0 <= j < regs.len() && j != idx ==> #[trigger] after[j] == regs[j]
        },
{
}

/// Runs are as long as they can be: where one ends and the next starts, the
/// visible region changes.
pub proof fn runs_are_not_split(
    regs: Seq<RegionModel>,
    old: Seq<u8>,
    new: Seq<u8>,
    a: int,
    k: int,
)
    requires
        0 <= a <= 0x1_0000,
        0 <= k,
        k + 1 < edit_runs(regs, old, new, a).len(),
    ensures
        ({
            let runs = edit_runs(regs, old, new, a);
            runs[k].end == runs[k + 1].start ==> runs[k].owner != runs[k + 1].owner
        }),
    decreases 0x1_0000 - a,
{
    let runs = edit_runs(regs, old, new, a);
    if a < 0x1_0000 {
        if !changed(old, new, a) {
            runs_are_not_split(regs, old, new, a + 1, k);
        } else {
            let own = owner_at(regs, a);
            let end = run_end(regs, old, new, own, a);
            lemma_run_end(regs, old, new, own, a);
            lemma_run_stops(regs, old, new, own, a);
            let rest = edit_runs(regs, old, new, end);
            let first = EditRun { start: a, end, owner: own };
            assert(runs == seq![first] + rest);
            assert(runs[k + 1] == rest[k]);
            if k == 0 {
                runs_hold_the_changed_addresses(regs, old, new, end);
                assert(rest[0].start <= rest[0].start < rest[0].end);
                assert(changed(old, new, rest[0].start) && owner_at(regs, rest[0].start)
                    == rest[0].owner);
            } else {
                assert(runs[k] == rest[k - 1]);
                runs_are_not_split(regs, old, new, end, k - 1);
            }
        }
    }
}

proof fn lemma_run_stops(
    regs: Seq<RegionModel>,
    old: Seq<u8>,
    new: Seq<u8>,
    own: Option<int>,
    a: int,
)
    ensures
        ({
            let e = run_end(regs, old, new, own, a);
            e >= 0x1_0000 || !changed(old, new, e) || owner_at(regs, e) != own
        }),
    decreases 0x1_0000 - a,
{
    if a < 0x1_0000 && changed(old, new, a) && owner_at(regs, a) == own {
        lemma_run_stops(regs, old, new, own, a + 1);
    }
}

/// A region that an edit adds holds the new bytes of a run that no region
/// showed before, and is named after its address.
pub proof fn edits_add_regions_only_in_gaps(
    regs: Seq<RegionModel>,
    old: Seq<u8>,
    new: Seq<u8>,
    i: int,
)
    requires
        new.len() == 0x1_0000,
        regs.len() <= i < after_edits(regs, old, new).len(),
    ensures
        ({
            let r = after_edits(regs, old, new)[i];
            &&& r.wf()
            &&& r.name == "edit @ $"@ + hex4(r.load as nat)
            &&& forall|a: int| #[trigger]
                r.covers(a) ==> owner_at(regs, a) is None && old[a] != new[a] && r.data[a - r.load]
                    == new[a]
        }),
{
    let runs = edit_runs(regs, old, new, 0);
    let j = i - regs.len();
    let k = lemma_patch_source(runs, new, j);
    let r = after_edits(regs, old, new)[i];
    assert(r == patch_of(runs[k], new));
    lemma_run(regs, old, new, k, runs[k].start);
    assert forall|a: int| #[trigger] r.covers(a) implies owner_at(regs, a) is None && old[a]
        != new[a] && r.data[a - r.load] == new[a] by {
        lemma_run(regs, old, new, k, a);
    }
}

proof fn lemma_patches_ascend(runs: Seq<EditRun>, new: Seq<u8>)
    requires
        forall|k: int|
            0 <= k < runs.len() ==> 0 <= (#[trigger] runs[k]).start < runs[k].end <= new.len(),
        forall|j: int, k: int|
            0 <= j < k < runs.len() ==> (#[trigger] runs[j]).end <= (#[trigger] runs[k]).start,
    ensures
        forall|i: int|
            0 <= i < patches(runs, new).len() && runs.len() > 0 ==> (#[trigger] patches(
                runs,
                new,
            )[i]).end() <= runs.last().end,
        forall|i: int, j: int|
            0 <= i < j < patches(runs, new).len() ==> (#[trigger] patches(runs, new)[i]).end() <= (
            #[trigger] patches(runs, new)[j]).load,
    decreases runs.len(),
{
    if runs.len() > 0 {
        let front = runs.drop_last();
        lemma_patches_ascend(front, new);
        let run = runs.last();
        let all = patches(runs, new);
        let before = patches(front, new);
        assert forall|i: int| 0 <= i < before.len() implies (#[trigger] before[i]).end()
            <= run.start by {
            if front.len() > 0 {
                assert(front.last() == runs[runs.len() - 2]);
                assert(runs[runs.len() - 2].end <= runs[runs.len() - 1].start);
            }
        }
        if run.owner is None {
            let last = patch_of(run, new);
            assert(last.end() == run.end);
            assert(all == before.push(last));
            assert forall|i: int, j: int| 0 <= i < j < all.len() implies (
            #[trigger] all[i]).end() <= (#[trigger] all[j]).load by {
                if j < before.len() {
                    assert(all[i] == before[i] && all[j] == before[j]);
                } else {
                    assert(all[i] == before[i]);
                }
            }
            assert forall|i: int| 0 <= i < all.len() implies (#[trigger] all[i]).end()
                <= run.end by {
                if i < before.len() {
                    assert(all[i] == before[i]);
                }
            }
        } else {
            assert(all == before);
        }
    }
}

/// The regions that an edit adds lie one behind the other, from low to high.
pub proof fn edits_add_regions_from_low_to_high(
    regs: Seq<RegionModel>,
    old: Seq<u8>,
    new: Seq<u8>,
    i: int,
    j: int,
)
    requires
        new.len() == 0x1_0000,
        regs.len() <= i < j < after_edits(regs, old, new).len(),
    ensures
        after_edits(regs, old, new)[i].end() <= after_edits(regs, old, new)[j].load,
{
    let runs = edit_runs(regs, old, new, 0);
    runs_hold_the_changed_addresses(regs, old, new, 0);
    lemma_patches_ascend(runs, new);
    let fresh = patches(runs, new);
    let n = regs.len() as int;
    assert(after_edits(regs, old, new)[i] == fresh[i - n]);
    assert(after_edits(regs, old, new)[j] == fresh[j - n]);
}

} // verus!
