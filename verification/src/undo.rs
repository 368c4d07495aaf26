//! The bounded undo system: per-pixel diffs between image versions, a
//! capacity-bounded history that evicts its oldest entry first, and the
//! application of a diff's `before` colors that restores the earlier image.

use crate::color::Rgba;
use crate::image::{
    coord_dom, diff_exact, image_dims, image_pixels, image_valid, set_pixel_raw,
};
use bmp_rust::bmp::BMP;
use vstd::prelude::*;

verus! {

/// One changed pixel in a diff between two image versions: the coordinate,
/// the color in the first version and the color in the second. A color is
/// `None` when the coordinate lies outside that version's bounds.
#[derive(Clone, Copy, Debug)]
pub struct DiffEntry {
    pub x: u16,
    pub y: u16,
    pub before: Option<Rgba>,
    pub after: Option<Rgba>,
}

/// The structural diff between two image versions: both sizes and the list
/// of changed pixels.
#[derive(Debug)]
pub struct Diff {
    pub size1: (u32, u32),
    pub size2: (u32, u32),
    pub entries: Vec<DiffEntry>,
}

/// How many diffs the undo history keeps at most.
pub const UNDO_CAPACITY: usize = 10;

impl Diff {
    /// A diff the undo system can trust: when it compares two versions of
    /// one size, every entry lies in bounds and carries both colors.
    pub open spec fn wf(self) -> bool {
        self.size1 == self.size2 ==> forall|i: int|
            0 <= i < self.entries@.len() ==> {
                let e = #[trigger] self.entries@[i];
                &&& (e.x as int) < self.size1.0
                &&& (e.y as int) < self.size1.1
                &&& e.before is Some
                &&& e.after is Some
            }
    }

    /// Whether the two compared image versions had the same dimensions;
    /// only such a diff can be undone.
    pub fn same_size(&self) -> (r: bool)
        ensures
            r == (self.size1 == self.size2),
    {
        self.size1.0 == self.size2.0 && self.size1.1 == self.size2.1
    }
}

/// The ordered history of the most recent edits' diffs, capacity-bounded:
/// a push beyond the bound evicts the oldest entry, and undo pops the most
/// recent one.
pub struct UndoHistory {
    pub diffs: Vec<Diff>,
}

/// What pushing one diff leaves in the history: the diff appended, with the
/// oldest entry evicted first when the history is full.
pub open spec fn spec_push(s: Seq<Diff>, d: Diff) -> Seq<Diff> {
    if s.len() < UNDO_CAPACITY {
        s.push(d)
    } else {
        s.drop_first().push(d)
    }
}

impl UndoHistory {
    pub open spec fn wf(self) -> bool {
        &&& self.diffs@.len() <= UNDO_CAPACITY
        &&& forall|i: int| 0 <= i < self.diffs@.len() ==> (#[trigger] self.diffs@[i]).wf()
    }

    pub fn new() -> (h: UndoHistory)
        ensures
            h.wf(),
            h.diffs@.len() == 0,
    {
        UndoHistory { diffs: Vec::new() }
    }

    pub fn len(&self) -> (n: usize)
        ensures
            n == self.diffs@.len(),
    {
        self.diffs.len()
    }

    /// Appends the diff of one edit; when the history already holds its
    /// full capacity, the single oldest diff is evicted first, so the
    /// history always keeps the most recent edits in order.
    pub fn push(&mut self, d: Diff)
        requires
            old(self).wf(),
            d.wf(),
        ensures
            final(self).wf(),
            final(self).diffs@ == spec_push(old(self).diffs@, d),
    {
        if self.diffs.len() == UNDO_CAPACITY {
            self.diffs.remove(0);
        }
        self.diffs.push(d);
    }

    /// Removes and returns the most recently pushed diff, or `None` when
    /// the history is empty, in which case nothing changes.
    pub fn pop(&mut self) -> (r: Option<Diff>)
        requires
            old(self).wf(),
        ensures
            final(self).wf(),
            old(self).diffs@.len() == 0 ==> r is None && final(self).diffs@ == old(self).diffs@,
            old(self).diffs@.len() > 0 ==> {
                &&& (r matches Some(d) && d == old(self).diffs@.last() && d.wf())
                &&& final(self).diffs@ == old(self).diffs@.drop_last()
            },
    {
        self.diffs.pop()
    }
}

/// After pushing any run of diffs into an empty history, the history holds
/// exactly the most recent `UNDO_CAPACITY` of them, oldest first: earlier
/// pushes beyond the bound have been evicted in order.
pub open spec fn spec_push_all(s: Seq<Diff>, ds: Seq<Diff>) -> Seq<Diff>
    decreases ds.len(),
{
    if ds.len() == 0 {
        s
    } else {
        spec_push(spec_push_all(s, ds.drop_last()), ds.last())
    }
}

pub proof fn lemma_push_all_keeps_latest(ds: Seq<Diff>)
    ensures
        ds.len() <= UNDO_CAPACITY ==> spec_push_all(Seq::empty(), ds) == ds,
        ds.len() > UNDO_CAPACITY ==> spec_push_all(Seq::empty(), ds) == ds.skip(
            ds.len() - UNDO_CAPACITY,
        ),
    decreases ds.len(),
{
    if ds.len() == 0 {
        assert(spec_push_all(Seq::<Diff>::empty(), ds) =~= ds);
    } else {
        lemma_push_all_keeps_latest(ds.drop_last());
        if ds.len() <= UNDO_CAPACITY {
            assert(spec_push_all(Seq::empty(), ds) =~= ds);
        } else if ds.len() == UNDO_CAPACITY + 1 {
            assert(spec_push_all(Seq::empty(), ds) =~= ds.skip(1));
        } else {
            assert(spec_push_all(Seq::empty(), ds) =~= ds.skip(ds.len() - UNDO_CAPACITY));
        }
    }
}

/// The coordinate of one diff entry.
pub open spec fn entry_coord(e: DiffEntry) -> (int, int) {
    (e.x as int, e.y as int)
}

/// The `before` color of one diff entry that carries one.
pub open spec fn entry_before_px(e: DiffEntry) -> (u8, u8, u8, u8) {
    e.before->0@
}

/// Whether some entry of the list touches the coordinate.
pub open spec fn covers(es: Seq<DiffEntry>, c: (int, int)) -> bool {
    exists|i: int| 0 <= i < es.len() && entry_coord(#[trigger] es[i]) == c
}

/// The contents of an image after every entry's `before` color has been
/// written back at its coordinate, in order.
pub open spec fn apply_befores(
    m: Map<(int, int), (u8, u8, u8, u8)>,
    es: Seq<DiffEntry>,
) -> Map<(int, int), (u8, u8, u8, u8)>
    decreases es.len(),
{
    if es.len() == 0 {
        m
    } else {
        apply_befores(m, es.drop_last()).insert(entry_coord(es.last()), entry_before_px(es.last()))
    }
}

/// One step of `apply_befores`: applying one more entry inserts its
/// `before` color at its coordinate.
proof fn lemma_apply_take_snoc(m: Map<(int, int), (u8, u8, u8, u8)>, es: Seq<DiffEntry>, i: int)
    requires
        0 <= i < es.len(),
    ensures
        apply_befores(m, es.take(i + 1)) == apply_befores(m, es.take(i)).insert(
            entry_coord(es[i]),
            entry_before_px(es[i]),
        ),
{
    let t = es.take(i + 1);
    assert(t.drop_last() =~= es.take(i));
    assert(t.last() == es[i]);
}

/// Writes a same-size diff's `before` colors back into the image, pixel by
/// pixel in diff order.
pub fn apply_diff_befores(b: &mut BMP, d: &Diff)
    requires
        image_valid(*old(b)),
        d.wf(),
        d.size1 == d.size2,
        d.size2 == image_dims(*old(b)),
    ensures
        image_valid(*final(b)),
        image_dims(*final(b)) == image_dims(*old(b)),
        image_pixels(*final(b)) == apply_befores(image_pixels(*old(b)), d.entries@),
{
    let ghost m0 = image_pixels(*b);
    let n = d.entries.len();
    let mut i: usize = 0;
    while i < n
        invariant
            i <= n,
            n == d.entries@.len(),
            d.wf(),
            d.size1 == d.size2,
            d.size2 == image_dims(*b),
            image_valid(*b),
            image_pixels(*b) == apply_befores(m0, d.entries@.take(i as int)),
        decreases n - i,
    {
        let e = d.entries[i];
        proof {
            lemma_apply_take_snoc(m0, d.entries@, i as int);
        }
        set_pixel_raw(b, e.x, e.y, e.before.unwrap());
        i += 1;
    }
    proof {
        assert(d.entries@.take(n as int) =~= d.entries@);
    }
}

/// How applying a run of entries treats one coordinate: a covered
/// coordinate ends at its recorded `before` color, an uncovered one keeps
/// the color it had.
proof fn lemma_apply_restores_at(
    a: Map<(int, int), (u8, u8, u8, u8)>,
    b: Map<(int, int), (u8, u8, u8, u8)>,
    es: Seq<DiffEntry>,
    c: (int, int),
)
    requires
        forall|i: int|
            0 <= i < es.len() ==> {
                let cc = entry_coord(#[trigger] es[i]);
                &&& a.dom().contains(cc)
                &&& es[i].before is Some
                &&& entry_before_px(es[i]) == a[cc]
            },
    ensures
        covers(es, c) ==> apply_befores(b, es).dom().contains(c) && apply_befores(b, es)[c]
            == a[c],
        !covers(es, c) ==> (apply_befores(b, es).dom().contains(c) <==> b.dom().contains(c)),
        !covers(es, c) && b.dom().contains(c) ==> apply_befores(b, es)[c] == b[c],
    decreases es.len(),
{
    if es.len() > 0 {
        let prefix = es.drop_last();
        assert forall|i: int| 0 <= i < prefix.len() implies {
            let cc = entry_coord(#[trigger] prefix[i]);
            &&& a.dom().contains(cc)
            &&& prefix[i].before is Some
            &&& entry_before_px(prefix[i]) == a[cc]
        } by {
            assert(prefix[i] == es[i]);
        }
        lemma_apply_restores_at(a, b, prefix, c);
        let last = es.last();
        if entry_coord(last) != c {
            if covers(es, c) {
                let i = choose|i: int| 0 <= i < es.len() && entry_coord(#[trigger] es[i]) == c;
                assert(prefix[i] == es[i]);
                assert(covers(prefix, c));
            }
            if covers(prefix, c) {
                let i = choose|i: int|
                    0 <= i < prefix.len() && entry_coord(#[trigger] prefix[i]) == c;
                assert(es[i] == prefix[i]);
                assert(covers(es, c));
            }
        }
    }
}

/// Undo restores the earlier image exactly: when the entries are the exact
/// per-pixel diff between an earlier image `a` and a later image `b` of the
/// same size, writing every entry's `before` color back into `b` yields `a`
/// again, every touched pixel at its exact prior color.
pub proof fn lemma_undo_restores(
    a: Map<(int, int), (u8, u8, u8, u8)>,
    b: Map<(int, int), (u8, u8, u8, u8)>,
    es: Seq<DiffEntry>,
    width: int,
    height: int,
)
    requires
        a.dom() == coord_dom(width, height),
        b.dom() == coord_dom(width, height),
        diff_exact(es, a, b, width, height),
    ensures
        apply_befores(b, es) == a,
{
    assert forall|c: (int, int)|
        #![trigger apply_befores(b, es).dom().contains(c)]
        #![trigger a.dom().contains(c)]
        true implies {
        &&& (apply_befores(b, es).dom().contains(c) <==> a.dom().contains(c))
        &&& a.dom().contains(c) ==> apply_befores(b, es)[c] == a[c]
    } by {
        lemma_apply_restores_at(a, b, es, c);
        if covers(es, c) {
            let i = choose|i: int| 0 <= i < es.len() && entry_coord(#[trigger] es[i]) == c;
            assert(a.dom().contains(c));
        } else {
            if a.dom().contains(c) {
                assert(coord_dom(width, height).contains(c));
                if a[c] != b[c] {
                    let i = choose|i: int|
                        0 <= i < es.len() && ((#[trigger] es[i]).x as int, es[i].y as int) == c;
                    assert(entry_coord(es[i]) == c);
                    assert(false);
                }
            }
        }
    }
    assert(apply_befores(b, es) =~= a);
}

} // verus!
