//! Free-space model.
//!
//! Reserved while a program is unpacked (automatic placement never touches
//! these):
//!
//! * `$0000-$00FF` zero page
//! * `$0100-$01DF` decoder-only slot for small decoders
//! * `$01E0-$01FF` CPU stack working area
//! * `$0200-$02A6` system area, manual override only
//! * `$02A7-$02FF` mover slot
//! * `$0300-$0333` kernal vectors
//!
//! The automatic pool is `$0334-$03FF` plus `$0400-$FFFF`, minus whatever the
//! caller cuts out of it.
use vstd::prelude::*;

verus! {

/// Half-open address block.
#[derive(Clone, Copy, PartialEq, Eq, Structural, Debug)]
pub struct Block {
    pub start: u32,
    pub end: u32,
}

impl Block {
    /// Whether the two blocks share an address.
    pub open spec fn meets(self, o: Block) -> bool {
        self.start < o.end && o.start < self.end
    }

    /// Whether the addresses from `lo` up to `hi` stay on one side of this
    /// block.
    pub open spec fn clear_of(self, lo: int, hi: int) -> bool {
        hi <= self.start || self.end <= lo
    }

    /// Whether the addresses from `lo` up to `hi` lie inside this block.
    pub open spec fn holds(self, lo: int, hi: int) -> bool {
        self.start <= lo && hi <= self.end
    }

    /// Whether the two blocks share an address.
    pub fn overlaps(&self, o: &Block) -> (r: bool)
        ensures
            r == self.meets(*o),
    {
        self.start < o.end && o.start < self.end
    }
}

/// What is left of `s` once `cut` is taken out, lower part first.
pub open spec fn pieces(s: Block, cut: Block) -> Seq<Block> {
    if !s.meets(cut) {
        seq![s]
    } else {
        let low = if s.start < cut.start {
            seq![Block { start: s.start, end: cut.start }]
        } else {
            Seq::<Block>::empty()
        };
        let high = if cut.end < s.end {
            seq![Block { start: cut.end, end: s.end }]
        } else {
            Seq::<Block>::empty()
        };
        low + high
    }
}

/// What is left of the segments once `cut` is taken out of each.
pub open spec fn without(segs: Seq<Block>, cut: Block) -> Seq<Block>
    decreases segs.len(),
{
    if segs.len() == 0 {
        Seq::empty()
    } else {
        without(segs.drop_last(), cut) + pieces(segs.last(), cut)
    }
}

/// What is left of the segments once all the cuts are taken out of each.
pub open spec fn without_all(segs: Seq<Block>, cuts: Seq<Block>) -> Seq<Block>
    decreases cuts.len(),
{
    if cuts.len() == 0 {
        segs
    } else {
        without(without_all(segs, cuts.drop_last()), cuts.last())
    }
}

/// The two zones that automatic placement draws from.
pub open spec fn zones() -> Seq<Block> {
    seq![Block { start: 0x0334, end: 0x0400 }, Block { start: 0x0400, end: 0x1_0000 }]
}

/// Non-empty, disjoint segments in ascending order.
pub open spec fn ascending(segs: Seq<Block>) -> bool {
    &&& forall|i: int| 0 <= i < segs.len() ==> (#[trigger] segs[i]).start < segs[i].end
    &&& forall|i: int, j: int| 0 <= i < j < segs.len() ==> segs[i].end <= segs[j].start
}

/// Whether the segments lie between `low` and `high`.
pub open spec fn bounded(segs: Seq<Block>, low: int, high: int) -> bool {
    forall|i: int| 0 <= i < segs.len() ==> low <= (#[trigger] segs[i]).start && segs[i].end <= high
}

/// Ascending segments of the pool.
pub open spec fn pooled(segs: Seq<Block>) -> bool {
    ascending(segs) && bounded(segs, 0x0334, 0x1_0000)
}

/// A block that runs upwards, or that ends at `low` or below, or starts at
/// `high` or above.
pub open spec fn cuts_between(b: Block, low: int, high: int) -> bool {
    b.start <= b.end || b.end <= low || b.start >= high
}

/// A block that runs upwards, or that ends below the pool or starts above it.
pub open spec fn cuttable(b: Block) -> bool {
    cuts_between(b, 0x0334, 0x1_0000)
}

/// Whether all the blocks are cuttable.
pub open spec fn all_cuttable(blocks: Seq<Block>) -> bool {
    forall|i: int| 0 <= i < blocks.len() ==> cuttable(#[trigger] blocks[i])
}

/// Whether all the blocks run upwards.
pub open spec fn all_upright(blocks: Seq<Block>) -> bool {
    forall|i: int| 0 <= i < blocks.len() ==> (#[trigger] blocks[i]).start <= blocks[i].end
}

/// Whether one of the segments holds the addresses from `lo` up to `hi`.
pub open spec fn within(segs: Seq<Block>, lo: int, hi: int) -> bool {
    exists|i: int| 0 <= i < segs.len() && (#[trigger] segs[i]).holds(lo, hi)
}

/// Whether the addresses from `lo` up to `hi` stay clear of every block.
pub open spec fn avoids(blocks: Seq<Block>, lo: int, hi: int) -> bool {
    forall|i: int| 0 <= i < blocks.len() ==> (#[trigger] blocks[i]).clear_of(lo, hi)
}

/// Whether `len` bytes at `a` lie in a free stretch: a non-empty stretch inside
/// one of the segments that avoids the used blocks. With `page`, `a` must also
/// be a page boundary.
pub open spec fn room_at(segs: Seq<Block>, used: Seq<Block>, len: int, page: bool, a: int) -> bool {
    &&& page ==> a % 256 == 0
    &&& exists|lo: int, hi: int| #[trigger] free_stretch(segs, used, lo, hi) && lo <= a && a + len <= hi
}

/// A non-empty stretch inside one of the segments that avoids the used blocks.
pub open spec fn free_stretch(segs: Seq<Block>, used: Seq<Block>, lo: int, hi: int) -> bool {
    lo < hi && within(segs, lo, hi) && avoids(used, lo, hi)
}

/// The lowest address with room for `len` bytes, if there is one.
pub open spec fn lowest_room(segs: Seq<Block>, used: Seq<Block>, len: int, page: bool) -> Option<int> {
    if exists|a: int| room_at(segs, used, len, page, a) {
        Some(choose|a: int| is_lowest_room(segs, used, len, page, a))
    } else {
        None
    }
}

/// Whether `a` has room for `len` bytes and no lower address has.
pub open spec fn is_lowest_room(segs: Seq<Block>, used: Seq<Block>, len: int, page: bool, a: int) -> bool {
    &&& room_at(segs, used, len, page, a)
    &&& forall|b: int| #[trigger] room_at(segs, used, len, page, b) ==> a <= b
}

proof fn lemma_lowest_room_unique(segs: Seq<Block>, used: Seq<Block>, len: int, page: bool, a: int)
    requires
        is_lowest_room(segs, used, len, page, a),
    ensures
        lowest_room(segs, used, len, page) == Some(a),
{
    let c = choose|c: int| is_lowest_room(segs, used, len, page, c);
    assert(is_lowest_room(segs, used, len, page, c));
    assert(room_at(segs, used, len, page, c) && room_at(segs, used, len, page, a));
}

/// The lowest address with room has room, no lower one has, and there is one
/// as soon as any address has room.
pub proof fn lowest_room_is_lowest(segs: Seq<Block>, used: Seq<Block>, len: int, page: bool)
    requires
        ascending(segs),
    ensures
        match lowest_room(segs, used, len, page) {
            Some(a) => is_lowest_room(segs, used, len, page, a),
            None => forall|a: int| !#[trigger] room_at(segs, used, len, page, a),
        },
{
    if exists|a: int| room_at(segs, used, len, page, a) {
        let a = choose|a: int| room_at(segs, used, len, page, a);
        let least = lemma_descend(segs, used, len, page, a);
        lemma_lowest_room_unique(segs, used, len, page, least);
    }
}

/// From an address with room, the lowest one.
proof fn lemma_descend(segs: Seq<Block>, used: Seq<Block>, len: int, page: bool, a: int) -> (r: int)
    requires
        ascending(segs),
        room_at(segs, used, len, page, a),
    ensures
        is_lowest_room(segs, used, len, page, r),
    decreases a,
{
    if is_lowest_room(segs, used, len, page, a) {
        a
    } else {
        let b = choose|b: int| #[trigger] room_at(segs, used, len, page, b) && b < a;
        let (lo, hi) = choose|lo: int, hi: int| #[trigger]
            free_stretch(segs, used, lo, hi) && lo <= b && b + len <= hi;
        let i = choose|i: int| 0 <= i < segs.len() && (#[trigger] segs[i]).holds(lo, hi);
        assert(segs[i].start <= lo);
        lemma_descend(segs, used, len, page, b)
    }
}

/// Joining two ascending sequences of segments that do not cross.
proof fn lemma_ascending_concat(a: Seq<Block>, b: Seq<Block>, low: int, high: int)
    requires
        ascending(a),
        ascending(b),
        bounded(a, low, high),
        bounded(b, low, high),
        forall|i: int, j: int| 0 <= i < a.len() && 0 <= j < b.len() ==> a[i].end <= b[j].start,
    ensures
        ascending(a + b),
        bounded(a + b, low, high),
        forall|lo: int, hi: int|
            #[trigger] within(a + b, lo, hi) <==> within(a, lo, hi) || within(b, lo, hi),
{
    assert forall|lo: int, hi: int|
        #[trigger] within(a + b, lo, hi) <==> within(a, lo, hi) || within(b, lo, hi) by {
        if within(a, lo, hi) {
            let i = choose|i: int| 0 <= i < a.len() && (#[trigger] a[i]).holds(lo, hi);
            assert((a + b)[i].holds(lo, hi));
        }
        if within(b, lo, hi) {
            let i = choose|i: int| 0 <= i < b.len() && (#[trigger] b[i]).holds(lo, hi);
            assert((a + b)[a.len() + i].holds(lo, hi));
        }
        if within(a + b, lo, hi) {
            let i = choose|i: int| 0 <= i < (a + b).len() && (#[trigger] (a + b)[i]).holds(lo, hi);
            if i < a.len() {
                assert(a[i].holds(lo, hi));
            } else {
                assert(b[i - a.len()].holds(lo, hi));
            }
        }
    }
}

/// The pieces of one segment.
proof fn lemma_pieces(s: Block, cut: Block, low: int, high: int)
    requires
        ascending(seq![s]),
        bounded(seq![s], low, high),
        cuts_between(cut, low, high),
    ensures
        ascending(pieces(s, cut)),
        bounded(pieces(s, cut), low, high),
        forall|i: int|
            0 <= i < pieces(s, cut).len() ==> s.start <= (#[trigger] pieces(s, cut)[i]).start
                && pieces(s, cut)[i].end <= s.end,
        forall|lo: int, hi: int|
            lo < hi ==> (#[trigger] within(pieces(s, cut), lo, hi) <==> s.holds(lo, hi)
                && cut.clear_of(lo, hi)),
{
    assert(seq![s][0] == s);
    let p = pieces(s, cut);
    assert forall|lo: int, hi: int| lo < hi implies (#[trigger] within(p, lo, hi) <==> s.holds(
        lo,
        hi,
    ) && cut.clear_of(lo, hi)) by {
        if s.holds(lo, hi) && cut.clear_of(lo, hi) {
            if !s.meets(cut) || hi <= cut.start {
                assert(p[0].holds(lo, hi));
            } else {
                assert(p.last().holds(lo, hi));
            }
        }
    }
}

/// Taking `cut` out keeps the segments ascending, and leaves exactly the
/// stretches that were inside a segment and stay clear of `cut`.
proof fn lemma_without(segs: Seq<Block>, cut: Block, low: int, high: int)
    requires
        ascending(segs),
        bounded(segs, low, high),
        cuts_between(cut, low, high),
    ensures
        ascending(without(segs, cut)),
        bounded(without(segs, cut), low, high),
        segs.len() > 0 ==> forall|i: int|
            0 <= i < without(segs, cut).len() ==> (#[trigger] without(segs, cut)[i]).end
                <= segs.last().end,
        forall|lo: int, hi: int|
            lo < hi ==> (#[trigger] within(without(segs, cut), lo, hi) <==> within(segs, lo, hi)
                && cut.clear_of(lo, hi)),
    decreases segs.len(),
{
    if segs.len() > 0 {
        let rest = segs.drop_last();
        let s = segs.last();
        lemma_without(rest, cut, low, high);
        assert(seq![s][0] == s);
        assert(ascending(seq![s]));
        assert(bounded(seq![s], low, high));
        lemma_pieces(s, cut, low, high);
        let a = without(rest, cut);
        let b = pieces(s, cut);
        assert(segs =~= rest + seq![s]);
        lemma_ascending_concat(rest, seq![s], low, high);
        assert forall|i: int, j: int| 0 <= i < a.len() && 0 <= j < b.len() implies a[i].end
            <= b[j].start by {
            if rest.len() > 0 {
                assert(a[i].end <= rest.last().end);
                assert(segs[segs.len() - 2].end <= segs[segs.len() - 1].start);
            }
        }
        lemma_ascending_concat(a, b, low, high);
        assert forall|lo: int, hi: int| lo < hi implies (#[trigger] within(
            without(segs, cut),
            lo,
            hi,
        ) <==> within(segs, lo, hi) && cut.clear_of(lo, hi)) by {
            assert(within(rest + seq![s], lo, hi) <==> within(rest, lo, hi) || within(
                seq![s],
                lo,
                hi,
            ));
            assert(within(seq![s], lo, hi) <==> s.holds(lo, hi)) by {
                if s.holds(lo, hi) {
                    assert(seq![s][0].holds(lo, hi));
                }
            }
            assert(within(a + b, lo, hi) <==> within(a, lo, hi) || within(b, lo, hi));
        }
    }
}

/// Taking the cuts out keeps the segments ascending, and leaves exactly the
/// stretches that were inside a segment and avoid every cut.
proof fn lemma_cut_all(segs: Seq<Block>, cuts: Seq<Block>, low: int, high: int)
    requires
        ascending(segs),
        bounded(segs, low, high),
        forall|i: int| 0 <= i < cuts.len() ==> cuts_between(#[trigger] cuts[i], low, high),
    ensures
        ascending(without_all(segs, cuts)),
        bounded(without_all(segs, cuts), low, high),
        forall|lo: int, hi: int|
            lo < hi ==> (#[trigger] within(without_all(segs, cuts), lo, hi) <==> within(
                segs,
                lo,
                hi,
            ) && avoids(cuts, lo, hi)),
    decreases cuts.len(),
{
    if cuts.len() > 0 {
        let rest = cuts.drop_last();
        lemma_cut_all(segs, rest, low, high);
        lemma_without(without_all(segs, rest), cuts.last(), low, high);
        assert forall|lo: int, hi: int| lo < hi implies (#[trigger] within(
            without_all(segs, cuts),
            lo,
            hi,
        ) <==> within(segs, lo, hi) && avoids(cuts, lo, hi)) by {
            assert(within(without(without_all(segs, rest), cuts.last()), lo, hi) <==> within(
                without_all(segs, rest),
                lo,
                hi,
            ) && cuts.last().clear_of(lo, hi));
            if avoids(cuts, lo, hi) {
                assert forall|i: int| 0 <= i < rest.len() implies (#[trigger] rest[i]).clear_of(
                    lo,
                    hi,
                ) by {
                    assert(cuts[i].clear_of(lo, hi));
                }
                assert(cuts[cuts.len() - 1].clear_of(lo, hi));
            }
            if avoids(rest, lo, hi) && cuts.last().clear_of(lo, hi) {
                assert forall|i: int| 0 <= i < cuts.len() implies (#[trigger] cuts[i]).clear_of(
                    lo,
                    hi,
                ) by {
                    if i < rest.len() {
                        assert(rest[i].clear_of(lo, hi));
                    }
                }
            }
        }
    }
}

/// Taking the cuts out of the pool leaves ascending segments of the pool, and
/// exactly the stretches that were inside a segment and avoid every cut.
pub proof fn lemma_without_all(segs: Seq<Block>, cuts: Seq<Block>)
    requires
        pooled(segs),
        all_cuttable(cuts),
    ensures
        pooled(without_all(segs, cuts)),
        forall|lo: int, hi: int|
            lo < hi ==> (#[trigger] within(without_all(segs, cuts), lo, hi) <==> within(
                segs,
                lo,
                hi,
            ) && avoids(cuts, lo, hi)),
{
    lemma_cut_all(segs, cuts, 0x0334, 0x1_0000);
}

/// Cuts `cut` out of every segment, keeping the order.
pub fn subtract(segs: &Vec<Block>, cut: Block) -> (out: Vec<Block>)
    ensures
        out@ == without(segs@, cut),
{
    let mut out: Vec<Block> = Vec::new();
    let mut i: usize = 0;
    assert(segs@.take(0) =~= Seq::empty());
    while i < segs.len()
        invariant
            i <= segs.len(),
            out@ == without(segs@.take(i as int), cut),
        decreases segs.len() - i,
    {
        let s = segs[i];
        let ghost before = out@;
        assert(segs@.take(i + 1).drop_last() =~= segs@.take(i as int));
        if !s.overlaps(&cut) {
            out.push(s);
        } else {
            if s.start < cut.start {
                out.push(Block { start: s.start, end: cut.start });
            }
            if cut.end < s.end {
                out.push(Block { start: cut.end, end: s.end });
            }
        }
        assert(out@ =~= before + pieces(s, cut));
        i += 1;
    }
    assert(segs@.take(segs@.len() as int) =~= segs@);
    out
}

/// Cuts every block of `cuts` out of every segment, keeping the order.
fn subtract_all(segs: Vec<Block>, cuts: &[Block]) -> (out: Vec<Block>)
    ensures
        out@ == without_all(segs@, cuts@),
{
    let ghost all = segs@;
    let mut out = segs;
    let mut i: usize = 0;
    assert(cuts@.take(0) =~= Seq::empty());
    while i < cuts.len()
        invariant
            i <= cuts.len(),
            out@ == without_all(all, cuts@.take(i as int)),
        decreases cuts.len() - i,
    {
        assert(cuts@.take(i + 1).drop_last() =~= cuts@.take(i as int));
        out = subtract(&out, cuts[i]);
        i += 1;
    }
    assert(cuts@.take(cuts@.len() as int) =~= cuts@);
    out
}

/// The automatic placement pool: `$0334-$03FF` and `$0400` upward, minus the
/// given cut-outs.
pub fn auto_pool(cuts: &[Block]) -> (pool: Vec<Block>)
    ensures
        pool@ == without_all(zones(), cuts@),
{
    let mut segs: Vec<Block> = Vec::new();
    segs.push(Block { start: 0x0334, end: 0x0400 });
    segs.push(Block { start: 0x0400, end: 0x1_0000 });
    assert(segs@ =~= zones());
    subtract_all(segs, cuts)
}

/// Whether `len` bytes at `a` lie inside `b`, on a page boundary if asked.
spec fn fits(b: Block, len: int, page: bool, a: int) -> bool {
    b.start <= a && a + len <= b.end && (page ==> a % 256 == 0)
}

/// Room in one segment is room in one of the parts that the used blocks leave
/// of it.
proof fn lemma_room_in_segment(
    segs: Seq<Block>,
    used: Seq<Block>,
    len: int,
    page: bool,
    a: int,
) -> (r: (int, int))
    requires
        ascending(segs),
        all_upright(used),
        room_at(segs, used, len, page, a),
    ensures
        0 <= r.0 < segs.len(),
        ({
            let subs = without_all(seq![segs[r.0]], used);
            &&& 0 <= r.1 < subs.len()
            &&& fits(subs[r.1], len, page, a)
            &&& segs[r.0].start <= a
        }),
{
    let (lo, hi) = choose|lo: int, hi: int| #[trigger]
        free_stretch(segs, used, lo, hi) && lo <= a && a + len <= hi;
    let i = choose|i: int| 0 <= i < segs.len() && (#[trigger] segs[i]).holds(lo, hi);
    let one = seq![segs[i]];
    assert(one[0] == segs[i]);
    lemma_cut_all(one, used, 0, u32::MAX as int);
    assert(one[0].holds(lo, hi));
    assert(within(one, lo, hi));
    let subs = without_all(one, used);
    assert(within(subs, lo, hi));
    let k = choose|k: int| 0 <= k < subs.len() && (#[trigger] subs[k]).holds(lo, hi);
    (i, k)
}

/// A place inside one of the parts is room.
proof fn lemma_part_is_room(
    segs: Seq<Block>,
    used: Seq<Block>,
    len: int,
    page: bool,
    i: int,
    k: int,
    a: int,
)
    requires
        ascending(segs),
        all_upright(used),
        0 <= i < segs.len(),
        0 <= k < without_all(seq![segs[i]], used).len(),
        fits(without_all(seq![segs[i]], used)[k], len, page, a),
    ensures
        room_at(segs, used, len, page, a),
        without_all(seq![segs[i]], used)[k].end <= segs[i].end,
{
    let one = seq![segs[i]];
    assert(one[0] == segs[i]);
    lemma_cut_all(one, used, 0, u32::MAX as int);
    let subs = without_all(one, used);
    let lo = subs[k].start as int;
    let hi = subs[k].end as int;
    assert(subs[k].holds(lo, hi));
    assert(within(subs, lo, hi));
    assert(within(one, lo, hi));
    assert(segs[i].holds(lo, hi));
    assert(free_stretch(segs, used, lo, hi));
}

/// First fit into the pool, skipping the used blocks: the lowest address with
/// room for `len` bytes. With `page`, only page boundaries count.
pub fn first_fit(pool: &Vec<Block>, used: &Vec<Block>, len: u32, page: bool) -> (r: Option<u32>)
    requires
        ascending(pool@),
        all_upright(used@),
        bounded(pool@, 0, u32::MAX - 0xFF - len),
    ensures
        match r {
            Some(a) => lowest_room(pool@, used@, len as int, page) == Some(a as int),
            None => lowest_room(pool@, used@, len as int, page) is None,
        },
{
    let ghost l = len as int;
    let mut i: usize = 0;
    while i < pool.len()
        invariant
            i <= pool.len(),
            ascending(pool@),
            all_upright(used@),
            bounded(pool@, 0, u32::MAX - 0xFF - len),
            l == len,
            forall|j: int, k: int, a: int|
                0 <= j < i && 0 <= k < without_all(seq![pool@[j]], used@).len() ==> !#[trigger] fits(
                    without_all(seq![pool@[j]], used@)[k],
                    l,
                    page,
                    a,
                ),
        decreases pool.len() - i,
    {
        let mut segment: Vec<Block> = Vec::new();
        segment.push(pool[i]);
        assert(segment@ =~= seq![pool@[i as int]]);
        let subs = subtract_all(segment, used.as_slice());
        proof {
            assert(segment@[0] == pool@[i as int]);
            lemma_cut_all(segment@, used@, segment@[0].start as int, segment@[0].end as int);
        }
        let mut k: usize = 0;
        while k < subs.len()
            invariant
                k <= subs.len(),
                i < pool.len(),
                ascending(pool@),
                all_upright(used@),
                bounded(pool@, 0, u32::MAX - 0xFF - len),
                bounded(subs@, 0, u32::MAX - 0xFF - len),
                l == len,
                subs@ == without_all(seq![pool@[i as int]], used@),
                ascending(subs@),
                forall|j: int, k: int, a: int|
                    0 <= j < i && 0 <= k < without_all(seq![pool@[j]], used@).len()
                        ==> !#[trigger] fits(without_all(seq![pool@[j]], used@)[k], l, page, a),
                forall|m: int, a: int| 0 <= m < k ==> !#[trigger] fits(subs@[m], l, page, a),
            decreases subs.len() - k,
        {
            let sub = subs[k];
            let start: u32 = if page {
                (sub.start + 0xFF) / 0x100 * 0x100
            } else {
                sub.start
            };
            if start + len <= sub.end {
                proof {
                    assert(fits(subs@[k as int], l, page, start as int));
                    lemma_part_is_room(pool@, used@, l, page, i as int, k as int, start as int);
                    assert forall|b: int| #[trigger] room_at(pool@, used@, l, page, b) implies start
                        <= b by {
                        let (j, m) = lemma_room_in_segment(pool@, used@, l, page, b);
                        if j < i {
                            assert(fits(without_all(seq![pool@[j]], used@)[m], l, page, b));
                        } else if j == i {
                            assert(fits(subs@[m], l, page, b));
                            if m > k {
                                assert(subs@[k as int].end <= subs@[m].start);
                            }
                        } else {
                            assert(pool@[i as int].end <= pool@[j].start);
                        }
                    }
                    lemma_lowest_room_unique(pool@, used@, l, page, start as int);
                }
                return Some(start);
            }
            assert forall|a: int| !#[trigger] fits(subs@[k as int], l, page, a) by {
            }
            k += 1;
        }
        i += 1;
    }
    proof {
        assert forall|a: int| !room_at(pool@, used@, l, page, a) by {
            if room_at(pool@, used@, l, page, a) {
                let (j, m) = lemma_room_in_segment(pool@, used@, l, page, a);
                assert(fits(without_all(seq![pool@[j]], used@)[m], l, page, a));
            }
        }
    }
    None
}

} // verus!
