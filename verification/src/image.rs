//! The 64 KB memory image under construction.
//!
//! Any number of `.prg` files are added into a 64 KB buffer of zeroes (zeroes
//! in the gaps compress to almost nothing). The compressed span runs from the
//! lowest region start to the highest region end.
use vstd::prelude::*;

use crate::text::{push_decimal, push_hex4};
#[allow(unused_imports)]
use crate::text::{decimal, hex4, texts};

verus! {

/// One added `.prg`: its load address and program bytes (load address bytes
/// stripped). Kept verbatim so the 64 KB buffer can be rebuilt after removals.
#[derive(Clone)]
pub struct Region {
    pub name: String,
    pub load: u16,
    pub data: Vec<u8>,
}

/// What a region holds.
#[verifier::ext_equal]
pub struct RegionModel {
    pub name: Seq<char>,
    pub load: int,
    pub data: Seq<u8>,
}

impl RegionModel {
    /// One past the last address (can be `$10000`).
    pub open spec fn end(self) -> int {
        self.load + self.data.len()
    }

    /// Whether the region holds a byte for `addr`.
    pub open spec fn covers(self, addr: int) -> bool {
        self.load <= addr < self.end()
    }

    /// Not empty, and inside the 64 KB address space.
    pub open spec fn wf(self) -> bool {
        &&& 0 <= self.load <= 0xFFFF
        &&& self.data.len() > 0
        &&& self.end() <= 0x1_0000
    }
}

impl View for Region {
    type V = RegionModel;

    open spec fn view(&self) -> RegionModel {
        RegionModel { name: self.name@, load: self.load as int, data: self.data@ }
    }
}

impl Region {
    /// First address.
    pub fn start(&self) -> (r: u32)
        ensures
            r == self@.load,
    {
        self.load as u32
    }

    /// Exclusive end (can be `$10000`).
    pub fn end(&self) -> (r: u32)
        requires
            self@.end() <= u32::MAX,
        ensures
            r == self@.end(),
    {
        self.load as u32 + self.data.len() as u32
    }
}

/// What the regions hold, in insertion order.
pub open spec fn models(regions: Seq<Region>) -> Seq<RegionModel> {
    Seq::new(regions.len(), |i: int| regions[i]@)
}

/// Every region is well formed.
pub open spec fn all_wf(regs: Seq<RegionModel>) -> bool {
    forall|i: int| 0 <= i < regs.len() ==> (#[trigger] regs[i]).wf()
}

/// The region that is visible at `addr`: the last one added that covers it.
pub open spec fn owner_at(regs: Seq<RegionModel>, addr: int) -> Option<int>
    decreases regs.len(),
{
    if regs.len() == 0 {
        None
    } else if regs.last().covers(addr) {
        Some(regs.len() - 1)
    } else {
        owner_at(regs.drop_last(), addr)
    }
}

/// The byte of the image at `addr`: that of the visible region, or zero where
/// no region covers the address.
pub open spec fn byte_at(regs: Seq<RegionModel>, addr: int) -> u8 {
    match owner_at(regs, addr) {
        Some(i) => regs[i].data[addr - regs[i].load],
        None => 0,
    }
}

/// Lowest region start (of at least one region).
pub open spec fn lowest_start(regs: Seq<RegionModel>) -> int
    decreases regs.len(),
{
    if regs.len() <= 1 {
        regs[0].load
    } else {
        let rest = lowest_start(regs.drop_last());
        if regs.last().load < rest {
            regs.last().load
        } else {
            rest
        }
    }
}

/// Highest region end, exclusive (of at least one region).
pub open spec fn highest_end(regs: Seq<RegionModel>) -> int
    decreases regs.len(),
{
    if regs.len() <= 1 {
        regs[0].end()
    } else {
        let rest = highest_end(regs.drop_last());
        if regs.last().end() > rest {
            regs.last().end()
        } else {
            rest
        }
    }
}

/// Lowest start and highest end across all regions.
pub open spec fn span_of(regs: Seq<RegionModel>) -> Option<(int, int)> {
    if regs.len() == 0 {
        None
    } else {
        Some((lowest_start(regs), highest_end(regs)))
    }
}

/// Whether the two regions share an address.
pub open spec fn regions_overlap(a: RegionModel, b: RegionModel) -> bool {
    a.load < b.end() && b.load < a.end()
}

/// `r` moved to the window from `start` up to `end`: bytes of addresses that it
/// covered stay, the others are zero.
pub open spec fn rewindowed(r: RegionModel, start: int, end: int) -> RegionModel {
    RegionModel {
        name: r.name,
        load: start,
        data: Seq::new(
            (end - start) as nat,
            |k: int|
                if r.covers(start + k) {
                    r.data[start + k - r.load]
                } else {
                    0u8
                },
        ),
    }
}

/// Whether region `i` comes before region `j` in a list by start address, then
/// end address, then insertion order.
pub open spec fn listed_before(regs: Seq<RegionModel>, i: int, j: int) -> bool {
    ||| regs[i].load < regs[j].load
    ||| regs[i].load == regs[j].load && regs[i].end() < regs[j].end()
    ||| regs[i].load == regs[j].load && regs[i].end() == regs[j].end() && i < j
}

/// Lexicographic order of index pairs.
pub open spec fn pair_before(a: (usize, usize), b: (usize, usize)) -> bool {
    a.0 < b.0 || (a.0 == b.0 && a.1 < b.1)
}

/// The visible region covers the address and no later region does; where there
/// is none, no region covers the address.
pub proof fn owner_is_last_covering(regs: Seq<RegionModel>, addr: int)
    ensures
        match owner_at(regs, addr) {
            Some(i) => 0 <= i < regs.len() && regs[i].covers(addr) && forall|j: int|
                i < j < regs.len() ==> !(#[trigger] regs[j]).covers(addr),
            None => forall|j: int| 0 <= j < regs.len() ==> !(#[trigger] regs[j]).covers(addr),
        },
    decreases regs.len(),
{
    if regs.len() > 0 && !regs.last().covers(addr) {
        let rest = regs.drop_last();
        owner_is_last_covering(rest, addr);
        assert forall|j: int| 0 <= j < regs.len() && (match owner_at(rest, addr) {
            Some(i) => i < j,
            None => true,
        }) implies !(#[trigger] regs[j]).covers(addr) by {
            if j < rest.len() {
                assert(!rest[j].covers(addr));
            }
        }
    }
}

/// The span reaches from the start of a region to the end of a region, and
/// holds every region.
pub proof fn span_bounds_every_region(regs: Seq<RegionModel>)
    requires
        regs.len() > 0,
    ensures
        forall|i: int|
            0 <= i < regs.len() ==> lowest_start(regs) <= (#[trigger] regs[i]).load && regs[i].end()
                <= highest_end(regs),
        exists|i: int| 0 <= i < regs.len() && (#[trigger] regs[i]).load == lowest_start(regs),
        exists|i: int| 0 <= i < regs.len() && (#[trigger] regs[i]).end() == highest_end(regs),
    decreases regs.len(),
{
    if regs.len() > 1 {
        let rest = regs.drop_last();
        span_bounds_every_region(rest);
        let a = choose|i: int| 0 <= i < rest.len() && (#[trigger] rest[i]).load == lowest_start(rest);
        let b = choose|i: int| 0 <= i < rest.len() && (#[trigger] rest[i]).end() == highest_end(rest);
        assert(regs[a].load == lowest_start(rest));
        assert(regs[b].end() == highest_end(rest));
        assert(regs[regs.len() - 1] == regs.last());
        assert forall|i: int| 0 <= i < regs.len() implies lowest_start(regs) <= (
        #[trigger] regs[i]).load && regs[i].end() <= highest_end(regs) by {
            if i < rest.len() {
                assert(rest[i] == regs[i]);
            }
        }
    } else {
        assert(regs[0].load == lowest_start(regs));
    }
}

/// A maximal run of edited addresses with one visible region (or none).
pub struct EditRun {
    pub start: int,
    pub end: int,
    pub owner: Option<int>,
}

/// Whether the editor changed the byte at `a`.
pub open spec fn changed(old: Seq<u8>, new: Seq<u8>, a: int) -> bool {
    old[a] != new[a]
}

/// The end of the run of changed addresses from `a` on that `own` owns.
pub open spec fn run_end(
    regs: Seq<RegionModel>,
    old: Seq<u8>,
    new: Seq<u8>,
    own: Option<int>,
    a: int,
) -> int
    decreases 0x1_0000 - a,
{
    if a >= 0x1_0000 || !changed(old, new, a) || owner_at(regs, a) != own {
        a
    } else {
        run_end(regs, old, new, own, a + 1)
    }
}

/// The maximal changed runs from address `a` on, split wherever the visible
/// region changes.
pub open spec fn edit_runs(regs: Seq<RegionModel>, old: Seq<u8>, new: Seq<u8>, a: int) -> Seq<
    EditRun,
>
    decreases 0x1_0000 - a, 0int,
    via edit_runs_decreases
{
    if a >= 0x1_0000 {
        Seq::empty()
    } else if !changed(old, new, a) {
        edit_runs(regs, old, new, a + 1)
    } else {
        let own = owner_at(regs, a);
        let end = run_end(regs, old, new, own, a);
        seq![EditRun { start: a, end, owner: own }] + edit_runs(regs, old, new, end)
    }
}

#[via_fn]
proof fn edit_runs_decreases(regs: Seq<RegionModel>, old: Seq<u8>, new: Seq<u8>, a: int) {
    if a < 0x1_0000 && changed(old, new, a) {
        lemma_run_end(regs, old, new, owner_at(regs, a), a);
    }
}

proof fn lemma_run_end(
    regs: Seq<RegionModel>,
    old: Seq<u8>,
    new: Seq<u8>,
    own: Option<int>,
    a: int,
)
    ensures
        a <= run_end(regs, old, new, own, a),
        a <= 0x1_0000 ==> run_end(regs, old, new, own, a) <= 0x1_0000,
        a < 0x1_0000 && changed(old, new, a) && owner_at(regs, a) == own ==> a < run_end(
            regs,
            old,
            new,
            own,
            a,
        ),
        forall|x: int|
            a <= x < run_end(regs, old, new, own, a) ==> #[trigger] changed(old, new, x) && owner_at(
                regs,
                x,
            ) == own,
    decreases 0x1_0000 - a,
{
    if a < 0x1_0000 && changed(old, new, a) && owner_at(regs, a) == own {
        lemma_run_end(regs, old, new, own, a + 1);
    }
}

/// Region `i` after the edits below address `upto` were written into it.
pub open spec fn edited(
    regs: Seq<RegionModel>,
    old: Seq<u8>,
    new: Seq<u8>,
    i: int,
    upto: int,
) -> RegionModel {
    RegionModel {
        name: regs[i].name,
        load: regs[i].load,
        data: Seq::new(
            regs[i].data.len(),
            |k: int|
                {
                    let a = regs[i].load + k;
                    if a < upto && changed(old, new, a) && owner_at(regs, a) == Some(i) {
                        new[a]
                    } else {
                        regs[i].data[k]
                    }
                },
        ),
    }
}

/// The name of a region made from edits outside every region.
pub open spec fn patch_name(start: int) -> Seq<char> {
    "edit @ $"@ + hex4(start as nat)
}

/// The regions that the runs outside every region become.
pub open spec fn patches(runs: Seq<EditRun>, new: Seq<u8>) -> Seq<RegionModel>
    decreases runs.len(),
{
    if runs.len() == 0 {
        Seq::empty()
    } else {
        let run = runs.last();
        let rest = patches(runs.drop_last(), new);
        if run.owner is Some {
            rest
        } else {
            rest.push(
                RegionModel {
                    name: patch_name(run.start),
                    load: run.start,
                    data: new.subrange(run.start, run.end),
                },
            )
        }
    }
}

/// The regions after an edit: edited bytes are written into the region that
/// was visible there, and runs outside every region become new regions.
pub open spec fn after_edits(regs: Seq<RegionModel>, old: Seq<u8>, new: Seq<u8>) -> Seq<RegionModel> {
    Seq::new(regs.len(), |i: int| edited(regs, old, new, i, 0x1_0000)) + patches(
        edit_runs(regs, old, new, 0),
        new,
    )
}

/// The log line of one run.
pub open spec fn edit_line(regs: Seq<RegionModel>, run: EditRun) -> Seq<char> {
    match run.owner {
        Some(i) => "Edited $"@ + hex4(run.start as nat) + "-$"@ + hex4((run.end - 1) as nat)
            + " ("@ + decimal((run.end - run.start) as nat) + " B) in "@ + regs[i].name,
        None => "New region "@ + patch_name(run.start) + " ($"@ + hex4(run.start as nat) + "-$"@
            + hex4((run.end - 1) as nat) + ", "@ + decimal((run.end - run.start) as nat) + " B)"@,
    }
}

/// The log lines of the runs.
pub open spec fn edit_lines(regs: Seq<RegionModel>, runs: Seq<EditRun>) -> Seq<Seq<char>> {
    Seq::new(runs.len(), |k: int| edit_line(regs, runs[k]))
}

/// A run found by the editor scan.
struct Run {
    start: usize,
    end: usize,
    owner: Option<usize>,
}

impl View for Run {
    type V = EditRun;

    closed spec fn view(&self) -> EditRun {
        EditRun {
            start: self.start as int,
            end: self.end as int,
            owner: match self.owner {
                Some(i) => Some(i as int),
                None => None,
            },
        }
    }
}

/// What the runs hold.
spec fn run_models(runs: Seq<Run>) -> Seq<EditRun> {
    Seq::new(runs.len(), |k: int| runs[k]@)
}

/// The first run from `a` on: where it is, and what lies before it.
proof fn lemma_first_run(regs: Seq<RegionModel>, old: Seq<u8>, new: Seq<u8>, a: int)
    requires
        0 <= a <= 0x1_0000,
    ensures
        ({
            let runs = edit_runs(regs, old, new, a);
            if runs.len() == 0 {
                forall|x: int| a <= x < 0x1_0000 ==> !#[trigger] changed(old, new, x)
            } else {
                let r = runs[0];
                &&& a <= r.start < r.end <= 0x1_0000
                &&& forall|x: int| a <= x < r.start ==> !#[trigger] changed(old, new, x)
                &&& forall|x: int|
                    r.start <= x < r.end ==> #[trigger] changed(old, new, x) && owner_at(regs, x)
                        == r.owner
                &&& runs == seq![r] + edit_runs(regs, old, new, r.end)
            }
        }),
    decreases 0x1_0000 - a,
{
    if a < 0x1_0000 {
        if !changed(old, new, a) {
            lemma_first_run(regs, old, new, a + 1);
        } else {
            lemma_run_end(regs, old, new, owner_at(regs, a), a);
        }
    }
}

/// The 64 KB image under construction. Regions are kept in insertion order
/// (later additions overwrite earlier ones where they overlap); use
/// [`MemoryImage::sorted_indices`] for display.
#[derive(Clone)]
pub struct MemoryImage {
    regions: Vec<Region>,
}

impl View for MemoryImage {
    type V = Seq<RegionModel>;

    closed spec fn view(&self) -> Seq<RegionModel> {
        models(self.regions@)
    }
}

impl Default for MemoryImage {
    /// An image without regions.
    fn default() -> (r: Self)
        ensures
            r@ == Seq::<RegionModel>::empty(),
            r.wf(),
    {
        let r = MemoryImage { regions: Vec::new() };
        assert(r@ =~= Seq::<RegionModel>::empty());
        r
    }
}

/// Why bytes of this length are no `.prg` file.
pub open spec fn too_short_text(name: Seq<char>) -> Seq<char> {
    name + ": too short to be a .prg (2-byte load address + data)."@
}

/// Why a program does not fit the address space.
pub open spec fn crosses_top_text(name: Seq<char>, load: int, len: int) -> Seq<char> {
    name + ": loads at $"@ + hex4(load as nat) + " with "@ + decimal(len as nat)
        + " bytes — crosses $FFFF."@
}

/// What adding a `.prg` file gives: the region, or why there is none.
pub open spec fn parsed_prg(name: Seq<char>, bytes: Seq<u8>) -> Result<RegionModel, Seq<char>> {
    if bytes.len() < 3 {
        Err(too_short_text(name))
    } else {
        let load = bytes[0] + bytes[1] * 256;
        let data = bytes.skip(2);
        if load + data.len() > 0x1_0000 {
            Err(crosses_top_text(name, load, data.len() as int))
        } else {
            Ok(RegionModel { name, load, data })
        }
    }
}

/// What re-windowing region `idx` gives: the regions, or why they stay.
pub open spec fn resized(
    regs: Seq<RegionModel>,
    idx: int,
    start: int,
    end: int,
) -> Result<Seq<RegionModel>, Seq<char>> {
    if end <= start {
        Err("the end address must be at or after the start"@)
    } else if end > 0x1_0000 {
        Err("the end address is above $FFFF"@)
    } else if idx >= regs.len() {
        Err("no such region"@)
    } else {
        Ok(regs.update(idx, rewindowed(regs[idx], start, end)))
    }
}

/// A copy of the slice.
fn to_vec(s: &[u8], from: usize, to: usize) -> (r: Vec<u8>)
    requires
        from <= to <= s@.len(),
    ensures
        r@ == s@.subrange(from as int, to as int),
{
    let mut r: Vec<u8> = Vec::new();
    let mut i: usize = from;
    while i < to
        invariant
            from <= i <= to <= s@.len(),
            r@ == s@.subrange(from as int, i as int),
        decreases to - i,
    {
        r.push(s[i]);
        i += 1;
        assert(r@ =~= s@.subrange(from as int, i as int));
    }
    r
}

/// A buffer of zeroes.
fn zeroes(len: usize) -> (r: Vec<u8>)
    ensures
        r@.len() == len,
        forall|k: int| 0 <= k < len ==> r@[k] == 0,
{
    let r: Vec<u8> = vec![0u8; len];
    r
}

impl MemoryImage {
    /// Every region is non-empty and inside the address space.
    pub open spec fn wf(&self) -> bool {
        all_wf(self@)
    }

    /// Adds the program file `bytes` (two-byte load address, then data).
    pub fn add_prg(&mut self, name: &str, bytes: &[u8]) -> (r: Result<(), String>)
        requires
            old(self).wf(),
        ensures
            final(self).wf(),
            match parsed_prg(name@, bytes@) {
                Ok(region) => r is Ok && final(self)@ == old(self)@.push(region),
                Err(text) => r is Err && r->Err_0@ == text && final(self)@ == old(self)@,
            },
    {
        if bytes.len() < 3 {
            let mut m = name.to_owned();
            m.append(": too short to be a .prg (2-byte load address + data).");
            return Err(m);
        }
        let load: u16 = bytes[0] as u16 + bytes[1] as u16 * 256;
        let data = to_vec(bytes, 2, bytes.len());
        assert(data@ =~= bytes@.skip(2));
        if data.len() > 0x1_0000 - load as usize {
            let mut m = name.to_owned();
            m.append(": loads at $");
            push_hex4(&mut m, load as u64);
            m.append(" with ");
            push_decimal(&mut m, data.len() as u64);
            m.append(" bytes — crosses $FFFF.");
            return Err(m);
        }
        self.regions.push(Region { name: name.to_owned(), load, data });
        proof {
            let region = parsed_prg(name@, bytes@)->Ok_0;
            assert(self@ =~= old(self)@.push(region));
            assert forall|i: int| 0 <= i < self@.len() implies (#[trigger] self@[i]).wf() by {
                if i < old(self)@.len() {
                    assert(old(self)@[i].wf());
                }
            }
        }
        Ok(())
    }

    /// Removes region `idx`; an index past the end changes nothing.
    pub fn remove(&mut self, idx: usize)
        requires
            old(self).wf(),
        ensures
            final(self).wf(),
            final(self)@ == if idx < old(self)@.len() {
                old(self)@.remove(idx as int)
            } else {
                old(self)@
            },
    {
        if idx < self.regions.len() {
            self.regions.remove(idx);
            assert(self@ =~= old(self)@.remove(idx as int));
            assert forall|i: int| 0 <= i < self@.len() implies (#[trigger] self@[i]).wf() by {
                if i < idx {
                    assert(old(self)@[i].wf());
                } else {
                    assert(old(self)@[i + 1].wf());
                }
            }
        }
    }

    /// Re-windows region `idx` to the address range `[new_start, new_end_excl)`.
    /// Bytes shared with the old range are preserved; bytes the new range adds
    /// (growing) are zero-filled, and bytes the new range drops (shrinking) are
    /// discarded. This can adjust a program's load address or trim or extend a
    /// chunk. `new_end_excl` may be `$10000` (a region ending at `$FFFF`).
    pub fn resize_region(&mut self, idx: usize, new_start: u16, new_end_excl: u32) -> (r: Result<
        (),
        String,
    >)
        requires
            old(self).wf(),
        ensures
            final(self).wf(),
            match resized(old(self)@, idx as int, new_start as int, new_end_excl as int) {
                Ok(regs) => r is Ok && final(self)@ == regs,
                Err(text) => r is Err && r->Err_0@ == text && final(self)@ == old(self)@,
            },
    {
        let start = new_start as u32;
        if new_end_excl <= start {
            return Err("the end address must be at or after the start".to_owned());
        }
        if new_end_excl > 0x1_0000 {
            return Err("the end address is above $FFFF".to_owned());
        }
        if idx >= self.regions.len() {
            return Err("no such region".to_owned());
        }
        let ghost r = self@[idx as int];
        assert(r.wf());
        assert(r == self.regions@[idx as int]@);
        let old_start = self.regions[idx].start();
        let old_end = self.regions[idx].end();
        let mut new_data: Vec<u8> = Vec::new();
        let mut addr: u32 = start;
        while addr < new_end_excl
            invariant
                start <= addr <= new_end_excl <= 0x1_0000,
                idx < self.regions@.len(),
                r == self.regions@[idx as int]@,
                old_start == r.load,
                old_end == r.end(),
                new_data@.len() == addr - start,
                forall|k: int|
                    0 <= k < addr - start ==> #[trigger] new_data@[k] == rewindowed(
                        r,
                        start as int,
                        new_end_excl as int,
                    ).data[k],
            decreases new_end_excl - addr,
        {
            if old_start <= addr && addr < old_end {
                new_data.push(self.regions[idx].data[(addr - old_start) as usize]);
            } else {
                new_data.push(0);
            }
            addr += 1;
        }
        let ghost window = rewindowed(r, start as int, new_end_excl as int);
        assert(new_data@ =~= window.data);
        let name = self.regions[idx].name.clone();
        self.regions[idx] = Region { name, load: new_start, data: new_data };
        proof {
            assert(self@[idx as int] =~= window);
            assert(self@ =~= old(self)@.update(idx as int, window));
            assert forall|i: int| 0 <= i < self@.len() implies (#[trigger] self@[i]).wf() by {
                assert(old(self)@[i].wf());
            }
        }
        Ok(())
    }

    /// Whether no region was added.
    pub fn is_empty(&self) -> (r: bool)
        ensures
            r == (self@.len() == 0),
    {
        self.regions.len() == 0
    }

    /// The regions, in insertion order.
    pub fn regions(&self) -> (r: &[Region])
        ensures
            models(r@) == self@,
    {
        self.regions.as_slice()
    }

    /// Region indices sorted by start address (for the always-sorted list), then
    /// by end address; regions alike in both keep their insertion order.
    pub fn sorted_indices(&self) -> (r: Vec<usize>)
        requires
            self.wf(),
        ensures
            r@.len() == self@.len(),
            forall|k: int| 0 <= k < r@.len() ==> #[trigger] r@[k] < self@.len(),
            forall|i: usize| i < self@.len() ==> #[trigger] r@.contains(i),
            forall|j: int, k: int|
                0 <= j < k < r@.len() ==> listed_before(self@, #[trigger] r@[j] as int, #[trigger] r@[k] as int),
    {
        let mut idx: Vec<usize> = Vec::new();
        let mut n: usize = 0;
        while n < self.regions.len()
            invariant
                n <= self.regions.len(),
                self.wf(),
                idx@.len() == n,
                forall|k: int| 0 <= k < n ==> #[trigger] idx@[k] < n,
                forall|i: usize| i < n ==> #[trigger] idx@.contains(i),
                forall|j: int, k: int|
                    0 <= j < k < n ==> listed_before(self@, #[trigger] idx@[j] as int, #[trigger] idx@[k] as int),
            decreases self.regions.len() - n,
        {
            // Insert behind every index that is listed before the new one.
            let mut at: usize = n;
            while at > 0 && self.starts_lower(n, idx[at - 1])
                invariant
                    at <= n,
                    n < self.regions.len(),
                    self.wf(),
                    idx@.len() == n,
                    forall|k: int| 0 <= k < n ==> #[trigger] idx@[k] < n,
                    forall|k: int|
                        at <= k < n ==> listed_before(self@, n as int, #[trigger] idx@[k] as int),
                decreases at,
            {
                at -= 1;
            }
            let ghost before = idx@;
            idx.insert(at, n);
            proof {
                assert(idx@ =~= before.insert(at as int, n));
                assert forall|i: usize| i < n + 1 implies #[trigger] idx@.contains(i) by {
                    if i == n {
                        assert(idx@[at as int] == n);
                    } else {
                        assert(before.contains(i));
                        let k = choose|k: int| 0 <= k < n && before[k] == i;
                        assert(idx@[if k < at {
                            k
                        } else {
                            k + 1
                        }] == i);
                    }
                }
                assert forall|j: int, k: int| 0 <= j < k < n + 1 implies listed_before(
                    self@,
                    #[trigger] idx@[j] as int,
                    #[trigger] idx@[k] as int,
                ) by {
                    let pj = if j < at {
                        j
                    } else {
                        j - 1
                    };
                    let pk = if k < at {
                        k
                    } else {
                        k - 1
                    };
                    if j == at {
                        assert(listed_before(self@, n as int, before[pk] as int));
                    } else if k == at {
                        assert(at > 0);
                        let last = before[at - 1] as int;
                        if j < at - 1 {
                            assert(listed_before(self@, before[j] as int, last));
                        }
                    } else {
                        assert(listed_before(self@, before[pj] as int, before[pk] as int));
                    }
                }
            }
            n += 1;
        }
        idx
    }

    /// Whether region `a` is listed before region `b` by its addresses alone.
    fn starts_lower(&self, a: usize, b: usize) -> (r: bool)
        requires
            self.wf(),
            a < self@.len(),
            b < self@.len(),
        ensures
            r == ({
                let (x, y) = (self@[a as int], self@[b as int]);
                x.load < y.load || (x.load == y.load && x.end() < y.end())
            }),
    {
        let (x, y) = (&self.regions[a], &self.regions[b]);
        assert(self@[a as int].wf() && self@[b as int].wf());
        x.start() < y.start() || (x.start() == y.start() && x.end() < y.end())
    }

    /// Lowest start and highest end (exclusive) across all regions.
    pub fn span(&self) -> (r: Option<(u32, u32)>)
        requires
            self.wf(),
        ensures
            match r {
                Some((lo, hi)) => span_of(self@) == Some((lo as int, hi as int)) && lo < hi
                    <= 0x1_0000,
                None => span_of(self@) is None,
            },
    {
        if self.regions.len() == 0 {
            return None;
        }
        let ghost regs = self@;
        assert(regs[0].wf());
        let mut lo = self.regions[0].start();
        let mut hi = self.regions[0].end();
        let mut i: usize = 1;
        assert(regs.take(1)[0] == regs[0]);
        while i < self.regions.len()
            invariant
                1 <= i <= self.regions.len(),
                self.wf(),
                regs == self@,
                lo == lowest_start(regs.take(i as int)),
                hi == highest_end(regs.take(i as int)),
                lo < hi <= 0x1_0000,
            decreases self.regions.len() - i,
        {
            assert(regs[i as int].wf());
            assert(regs.take(i + 1).drop_last() =~= regs.take(i as int));
            assert(regs.take(i + 1).last() == regs[i as int]);
            let s = self.regions[i].start();
            let e = self.regions[i].end();
            if s < lo {
                lo = s;
            }
            if e > hi {
                hi = e;
            }
            i += 1;
        }
        assert(regs.take(regs.len() as int) =~= regs);
        Some((lo, hi))
    }

    /// Writes the regions, in insertion order, over a buffer of zeroes that
    /// stands for the addresses from `base` on.
    fn paint(&self, base: u32, len: usize) -> (buf: Vec<u8>)
        requires
            self.wf(),
            forall|i: int|
                0 <= i < self@.len() ==> base <= (#[trigger] self@[i]).load && self@[i].end() <= base
                    + len,
            base + len <= 0x1_0000,
        ensures
            buf@.len() == len,
            forall|k: int| 0 <= k < len ==> #[trigger] buf@[k] == byte_at(self@, base + k),
    {
        let ghost regs = self@;
        let mut buf = zeroes(len);
        let mut i: usize = 0;
        while i < self.regions.len()
            invariant
                i <= self.regions.len(),
                self.wf(),
                regs == self@,
                base + len <= 0x1_0000,
                forall|i: int|
                    0 <= i < regs.len() ==> base <= (#[trigger] regs[i]).load && regs[i].end() <= base
                        + len,
                buf@.len() == len,
                forall|k: int|
                    0 <= k < len ==> #[trigger] buf@[k] == byte_at(regs.take(i as int), base + k),
            decreases self.regions.len() - i,
        {
            let ghost r = regs[i as int];
            assert(r.wf());
            assert(regs.take(i + 1).drop_last() =~= regs.take(i as int));
            assert(regs.take(i + 1).last() == r);
            let at = (self.regions[i].start() - base) as usize;
            let n = self.regions[i].data.len();
            let ghost before = buf@;
            let mut k: usize = 0;
            while k < n
                invariant
                    k <= n,
                    i < self.regions.len(),
                    r == self.regions@[i as int]@,
                    n == r.data.len(),
                    at == r.load - base,
                    at + n <= len,
                    buf@.len() == len,
                    before.len() == len,
                    forall|m: int|
                        0 <= m < len ==> #[trigger] buf@[m] == if at <= m < at + k {
                            r.data[m - at]
                        } else {
                            before[m]
                        },
                decreases n - k,
            {
                buf.set(at + k, self.regions[i].data[k]);
                k += 1;
            }
            proof {
                assert forall|k: int| 0 <= k < len implies #[trigger] buf@[k] == byte_at(
                    regs.take(i + 1),
                    base + k,
                ) by {
                    owner_is_last_covering(regs.take(i as int), base + k);
                    assert(before[k] == byte_at(regs.take(i as int), base + k));
                    let o = owner_at(regs.take(i as int), base + k);
                    if o is Some {
                        assert(regs.take(i + 1)[o->0] == regs.take(i as int)[o->0]);
                    }
                }
            }
            i += 1;
        }
        assert(regs.take(regs.len() as int) =~= regs);
        buf
    }

    /// The span slice of the zero-initialized 64 KB buffer, regions applied in
    /// insertion order (later overwrites earlier).
    pub fn span_buffer(&self) -> (r: Option<(u32, Vec<u8>)>)
        requires
            self.wf(),
        ensures
            match r {
                Some((lo, buf)) => {
                    &&& span_of(self@) == Some((lo as int, lo + buf@.len()))
                    &&& buf@.len() > 0
                    &&& lo + buf@.len() <= 0x1_0000
                    &&& forall|k: int|
                        0 <= k < buf@.len() ==> #[trigger] buf@[k] == byte_at(self@, lo + k)
                },
                None => span_of(self@) is None,
            },
    {
        match self.span() {
            None => None,
            Some((lo, hi)) => {
                proof {
                    span_bounds_every_region(self@);
                }
                let buf = self.paint(lo, (hi - lo) as usize);
                Some((lo, buf))
            },
        }
    }

    /// The full 64 KB address space with all regions painted in insertion order
    /// (later regions win where they overlap, like [`Self::span_buffer`]);
    /// everything else is zero. Backs the memory viewer and editor.
    pub fn full_buffer(&self) -> (buf: Vec<u8>)
        requires
            self.wf(),
        ensures
            buf@.len() == 0x1_0000,
            forall|a: int| 0 <= a < 0x1_0000 ==> #[trigger] buf@[a] == byte_at(self@, a),
    {
        assert forall|i: int| 0 <= i < self@.len() implies 0 <= (#[trigger] self@[i]).load
            && self@[i].end() <= 0x1_0000 by {
            assert(self@[i].wf());
        }
        let buf = self.paint(0, 0x1_0000);
        assert forall|a: int| 0 <= a < 0x1_0000 implies #[trigger] buf@[a] == byte_at(self@, a) by {
            assert(buf@[a] == byte_at(self@, 0 + a));
        }
        buf
    }

    /// Pairs of region indices that overlap in memory, in ascending order (for
    /// warnings in the region list).
    pub fn overlap_pairs(&self) -> (out: Vec<(usize, usize)>)
        requires
            self.wf(),
        ensures
            forall|k: int|
                0 <= k < out@.len() ==> (#[trigger] out@[k]).0 < out@[k].1 < self@.len()
                    && regions_overlap(self@[out@[k].0 as int], self@[out@[k].1 as int]),
            forall|i: usize, j: usize|
                i < j < self@.len() && regions_overlap(self@[i as int], self@[j as int])
                    ==> #[trigger] out@.contains((i, j)),
            forall|a: int, b: int|
                0 <= a < b < out@.len() ==> pair_before(#[trigger] out@[a], #[trigger] out@[b]),
    {
        let ghost regs = self@;
        let mut out: Vec<(usize, usize)> = Vec::new();
        let mut i: usize = 0;
        while i < self.regions.len()
            invariant
                i <= self.regions.len(),
                self.wf(),
                regs == self@,
                forall|k: int|
                    0 <= k < out@.len() ==> (#[trigger] out@[k]).0 < i && out@[k].0 < out@[k].1
                        < regs.len() && regions_overlap(
                        regs[out@[k].0 as int],
                        regs[out@[k].1 as int],
                    ),
                forall|a: usize, b: usize|
                    a < i && a < b < regs.len() && regions_overlap(regs[a as int], regs[b as int])
                        ==> #[trigger] out@.contains((a, b)),
                forall|a: int, b: int|
                    0 <= a < b < out@.len() ==> pair_before(#[trigger] out@[a], #[trigger] out@[b]),
            decreases self.regions.len() - i,
        {
            let mut j: usize = i + 1;
            while j < self.regions.len()
                invariant
                    i < j <= self.regions.len(),
                    self.wf(),
                    regs == self@,
                    forall|k: int|
                        0 <= k < out@.len() ==> pair_before(#[trigger] out@[k], (i, j)) && out@[k].0
                            < out@[k].1 < regs.len() && regions_overlap(
                            regs[out@[k].0 as int],
                            regs[out@[k].1 as int],
                        ),
                    forall|a: usize, b: usize|
                        (a < i && a < b < regs.len() || a == i && i < b < j) && regions_overlap(
                            regs[a as int],
                            regs[b as int],
                        ) ==> #[trigger] out@.contains((a, b)),
                    forall|a: int, b: int|
                        0 <= a < b < out@.len() ==> pair_before(
                            #[trigger] out@[a],
                            #[trigger] out@[b],
                        ),
                decreases self.regions.len() - j,
            {
                let (a, b) = (&self.regions[i], &self.regions[j]);
                assert(regs[i as int].wf() && regs[j as int].wf());
                let ghost before = out@;
                if a.start() < b.end() && b.start() < a.end() {
                    out.push((i, j));
                    assert(out@[before.len() as int] == (i, j));
                }
                assert forall|x: usize, y: usize|
                    (x < i && x < y < regs.len() || x == i && i < y < j + 1) && regions_overlap(
                        regs[x as int],
                        regs[y as int],
                    ) implies #[trigger] out@.contains((x, y)) by {
                    if (x, y) != (i, j) {
                        assert(before.contains((x, y)));
                        let k = choose|k: int| 0 <= k < before.len() && before[k] == (x, y);
                        assert(out@[k] == (x, y));
                    }
                }
                j += 1;
            }
            i += 1;
        }
        out
    }

    /// The visible region at `addr`, by index.
    fn owner(&self, addr: usize) -> (r: Option<usize>)
        requires
            self.wf(),
            addr < 0x1_0000,
        ensures
            match r {
                Some(i) => owner_at(self@, addr as int) == Some(i as int) && i < self@.len(),
                None => owner_at(self@, addr as int) is None,
            },
    {
        let ghost regs = self@;
        let mut i: usize = self.regions.len();
        assert(regs.take(regs.len() as int) =~= regs);
        while i > 0
            invariant
                i <= self.regions.len(),
                self.wf(),
                regs == self@,
                addr < 0x1_0000,
                owner_at(regs.take(i as int), addr as int) == owner_at(regs, addr as int),
            decreases i,
        {
            assert(regs[i - 1].wf());
            assert(regs.take(i as int).drop_last() =~= regs.take(i - 1));
            assert(regs.take(i as int).last() == regs[i - 1]);
            let r = &self.regions[i - 1];
            if r.start() as usize <= addr && addr < r.end() as usize {
                return Some(i - 1);
            }
            i -= 1;
        }
        None
    }

    /// The maximal changed runs, split wherever the visible region changes.
    fn find_runs(&self, old: &[u8], new: &[u8]) -> (runs: Vec<Run>)
        requires
            self.wf(),
            old@.len() == 0x1_0000,
            new@.len() == 0x1_0000,
        ensures
            run_models(runs@) == edit_runs(self@, old@, new@, 0),
    {
        let ghost regs = self@;
        let mut runs: Vec<Run> = Vec::new();
        let mut addr: usize = 0;
        assert(run_models(runs@) + edit_runs(regs, old@, new@, 0) =~= edit_runs(regs, old@, new@, 0));
        while addr < 0x1_0000
            invariant
                addr <= 0x1_0000,
                self.wf(),
                regs == self@,
                old@.len() == 0x1_0000,
                new@.len() == 0x1_0000,
                run_models(runs@) + edit_runs(regs, old@, new@, addr as int) == edit_runs(
                    regs,
                    old@,
                    new@,
                    0,
                ),
            decreases 0x1_0000 - addr,
        {
            if old[addr] == new[addr] {
                addr += 1;
            } else {
                let own = self.owner(addr);
                let start = addr;
                let ghost o = owner_at(regs, start as int);
                addr += 1;
                while addr < 0x1_0000 && old[addr] != new[addr] && same(self.owner(addr), own)
                    invariant
                        start < addr <= 0x1_0000,
                        self.wf(),
                        regs == self@,
                        old@.len() == 0x1_0000,
                        new@.len() == 0x1_0000,
                        match own {
                            Some(i) => o == Some(i as int),
                            None => o is None,
                        },
                        run_end(regs, old@, new@, o, start as int) == run_end(
                            regs,
                            old@,
                            new@,
                            o,
                            addr as int,
                        ),
                    decreases 0x1_0000 - addr,
                {
                    addr += 1;
                }
                let ghost before = run_models(runs@);
                let run = Run { start, end: addr, owner: own };
                runs.push(run);
                proof {
                    let rest = edit_runs(regs, old@, new@, addr as int);
                    assert(run_models(runs@) =~= before.push(run@));
                    assert(before + (seq![run@] + rest) =~= before.push(run@) + rest);
                }
            }
        }
        assert(run_models(runs@) + Seq::<EditRun>::empty() =~= run_models(runs@));
        runs
    }

    /// Writes the addresses of one run into the region that was visible there.
    fn write_run(&mut self, i: usize, start: usize, end: usize, new: &[u8])
        requires
            i < old(self)@.len(),
            new@.len() == 0x1_0000,
            old(self)@[i as int].wf(),
            start < end <= 0x1_0000,
            old(self)@[i as int].load <= start,
            end <= old(self)@[i as int].end(),
        ensures
            final(self)@.len() == old(self)@.len(),
            forall|j: int|
                0 <= j < old(self)@.len() && j != i ==> #[trigger] final(self)@[j] == old(self)@[j],
            final(self)@[i as int].name == old(self)@[i as int].name,
            final(self)@[i as int].load == old(self)@[i as int].load,
            final(self)@[i as int].data.len() == old(self)@[i as int].data.len(),
            forall|k: int|
                0 <= k < old(self)@[i as int].data.len() ==> #[trigger] final(self)@[i as int].data[k]
                    == {
                    let a = old(self)@[i as int].load + k;
                    if start <= a < end {
                        new@[a]
                    } else {
                        old(self)@[i as int].data[k]
                    }
                },
    {
        let ghost r = self@[i as int];
        let load = self.regions[i].load as usize;
        let mut a: usize = start;
        while a < end
            invariant
                i < self.regions@.len(),
                new@.len() == 0x1_0000,
                r == old(self)@[i as int],
                load == r.load,
                load <= start <= a <= end <= r.end(),
                end <= 0x1_0000,
                self.regions@.len() == old(self).regions@.len(),
                forall|j: int|
                    0 <= j < self.regions@.len() && j != i ==> #[trigger] self.regions@[j]
                        == old(self).regions@[j],
                self.regions@[i as int].name == old(self).regions@[i as int].name,
                self.regions@[i as int].load == old(self).regions@[i as int].load,
                self.regions@[i as int].data@.len() == r.data.len(),
                forall|k: int|
                    0 <= k < r.data.len() ==> #[trigger] self.regions@[i as int].data@[k] == {
                        let x = r.load + k;
                        if start <= x < a {
                            new@[x]
                        } else {
                            r.data[k]
                        }
                    },
            decreases end - a,
        {
            let b = new[a];
            self.regions[i].data[a - load] = b;
            a += 1;
        }
    }

    /// Applies a memory-editor change set: `synced` is the last
    /// [`Self::full_buffer`] snapshot, `new` the edited buffer (both 64 KB).
    /// Bytes covered by a region are written into the last region painted there
    /// (the visible one); contiguous edited runs outside every region become
    /// new regions named `edit @ $XXXX`, so the change survives the span rebuild
    /// and shows up in the region list. Returns log lines describing what was
    /// applied.
    pub fn apply_edits(&mut self, synced: &[u8], new: &[u8]) -> (log: Vec<String>)
        requires
            old(self).wf(),
            synced@.len() == 0x1_0000,
            new@.len() == 0x1_0000,
        ensures
            final(self).wf(),
            final(self)@ == after_edits(old(self)@, synced@, new@),
            texts(log@) == edit_lines(old(self)@, edit_runs(old(self)@, synced@, new@, 0)),
    {
        let ghost regs = self@;
        let ghost all = edit_runs(regs, synced@, new@, 0);
        let runs = self.find_runs(synced, new);
        let n = self.regions.len();
        let mut log: Vec<String> = Vec::new();
        let mut m: usize = 0;
        let ghost mut at: int = 0;
        proof {
            assert(all.take(0) =~= Seq::empty());
            assert(all.skip(0) =~= all);
            assert(self@ =~= Seq::new(regs.len(), |i: int| edited(regs, synced@, new@, i, 0)) + patches(
                all.take(0),
                new@,
            )) by {
                assert forall|i: int| 0 <= i < regs.len() implies self@[i] == edited(
                    regs,
                    synced@,
                    new@,
                    i,
                    0,
                ) by {
                    assert(regs[i].wf());
                    assert(self@[i] =~= edited(regs, synced@, new@, i, 0));
                }
            }
            assert(texts(log@) =~= edit_lines(regs, all.take(0)));
        }
        while m < runs.len()
            invariant
                m <= runs.len(),
                regs == old(self)@,
                all_wf(regs),
                n == regs.len(),
                synced@.len() == 0x1_0000,
                new@.len() == 0x1_0000,
                all == edit_runs(regs, synced@, new@, 0),
                run_models(runs@) == all,
                0 <= at <= 0x1_0000,
                all.skip(m as int) == edit_runs(regs, synced@, new@, at),
                self@ == Seq::new(regs.len(), |i: int| edited(regs, synced@, new@, i, at)) + patches(
                    all.take(m as int),
                    new@,
                ),
                all_wf(self@),
                texts(log@) == edit_lines(regs, all.take(m as int)),
            decreases runs.len() - m,
        {
            let ghost run = all[m as int];
            let ghost fresh = patches(all.take(m as int), new@);
            proof {
                lemma_first_run(regs, synced@, new@, at);
                assert(all.skip(m as int)[0] == run);
                assert(run == runs@[m as int]@);
                assert(all.take(m + 1).drop_last() =~= all.take(m as int));
                assert(all.skip(m + 1) =~= edit_runs(regs, synced@, new@, run.end)) by {
                    assert(all.skip(m as int).skip(1) =~= all.skip(m + 1));
                    assert((seq![run] + edit_runs(regs, synced@, new@, run.end)).skip(1)
                        =~= edit_runs(regs, synced@, new@, run.end));
                }
            }
            let start = runs[m].start;
            let end = runs[m].end;
            let ghost before = self@;
            let ghost lines = log@;
            match runs[m].owner {
                Some(i) => {
                    proof {
                        owner_is_last_covering(regs, start as int);
                        owner_is_last_covering(regs, end - 1);
                        assert(changed(synced@, new@, start as int));
                        assert(changed(synced@, new@, end - 1));
                        assert(regs[i as int].wf());
                        assert(before[i as int] == edited(regs, synced@, new@, i as int, at));
                    }
                    self.write_run(i, start, end, new);
                    let mut line = "Edited $".to_owned();
                    push_hex4(&mut line, start as u64);
                    line.append("-$");
                    push_hex4(&mut line, (end - 1) as u64);
                    line.append(" (");
                    push_decimal(&mut line, (end - start) as u64);
                    line.append(" B) in ");
                    line.append(self.regions[i].name.as_str());
                    assert(self@[i as int].name == self.regions@[i as int].name@);
                    assert(line@ == edit_line(regs, run));
                    log.push(line);
                },
                None => {
                    let mut name = "edit @ $".to_owned();
                    push_hex4(&mut name, start as u64);
                    let mut line = "New region ".to_owned();
                    line.append(name.as_str());
                    line.append(" ($");
                    push_hex4(&mut line, start as u64);
                    line.append("-$");
                    push_hex4(&mut line, (end - 1) as u64);
                    line.append(", ");
                    push_decimal(&mut line, (end - start) as u64);
                    line.append(" B)");
                    let data = to_vec(new, start, end);
                    self.regions.push(Region { name, load: start as u16, data });
                    assert(self@ =~= before.push(
                        RegionModel {
                            name: patch_name(start as int),
                            load: start as int,
                            data: new@.subrange(start as int, end as int),
                        },
                    ));
                    assert(line@ == edit_line(regs, run));
                    log.push(line);
                },
            }
            proof {
                let next = Seq::new(regs.len(), |i: int| edited(regs, synced@, new@, i, run.end))
                    + patches(all.take(m + 1), new@);
                assert(self@.len() == next.len());
                assert forall|j: int| 0 <= j < next.len() implies self@[j] == next[j] by {
                    if j < regs.len() {
                        assert(before[j] == edited(regs, synced@, new@, j, at));
                        let goal = edited(regs, synced@, new@, j, run.end);
                        assert(regs[j].wf());
                        assert(self@[j].data.len() == goal.data.len());
                        assert forall|k: int| 0 <= k < goal.data.len() implies self@[j].data[k]
                            == goal.data[k] by {
                            let a = regs[j].load + k;
                            if at <= a < run.end {
                                assert(changed(synced@, new@, a) == (run.start <= a));
                            }
                        }
                        assert(self@[j] =~= goal);
                    }
                }
                assert(self@ =~= next);
                assert(texts(log@) =~= texts(lines).push(edit_line(regs, run)));
                assert(edit_lines(regs, all.take(m + 1)) =~= edit_lines(regs, all.take(m as int)).push(
                    edit_line(regs, run),
                ));
                assert forall|j: int| 0 <= j < self@.len() implies (#[trigger] self@[j]).wf() by {
                    if j < before.len() {
                        assert(before[j].wf());
                    }
                }
                at = run.end;
            }
            m += 1;
        }
        proof {
            lemma_first_run(regs, synced@, new@, at);
            assert(all.take(all.len() as int) =~= all);
            assert(self@ =~= after_edits(regs, synced@, new@)) by {
                assert forall|j: int| 0 <= j < regs.len() implies edited(regs, synced@, new@, j, at)
                    == edited(regs, synced@, new@, j, 0x1_0000) by {
                    assert(regs[j].wf());
                    assert(edited(regs, synced@, new@, j, at) =~= edited(
                        regs,
                        synced@,
                        new@,
                        j,
                        0x1_0000,
                    )) by {
                        let x = edited(regs, synced@, new@, j, at);
                        let y = edited(regs, synced@, new@, j, 0x1_0000);
                        assert forall|k: int| 0 <= k < x.data.len() implies x.data[k] == y.data[k] by {
                            let a = regs[j].load + k;
                            if at <= a {
                                assert(!changed(synced@, new@, a));
                            }
                        }
                        assert(x.data =~= y.data);
                    }
                }
            }
        }
        log
    }
}

/// Whether the two owners are the same.
fn same(a: Option<usize>, b: Option<usize>) -> (r: bool)
    ensures
        r == (a == b),
{
    match (a, b) {
        (Some(x), Some(y)) => x == y,
        (None, None) => true,
        _ => false,
    }
}

} // verus!
