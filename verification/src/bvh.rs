use vstd::prelude::*;
use vstd::arithmetic::power2::{pow2, lemma_pow2_unfold};
use vstd::arithmetic::power::lemma_pow0;

verus! {

/// The shape of a bounding volume hierarchy over the objects at positions
/// `start..end` of a list. Which object sits at which position is decided
/// while the hierarchy is assembled: before a `Split` node's children are
/// laid out, its positions are sorted along the longest axis of their
/// enclosing box.
pub enum BvhLayout {
    /// One object, which both children of the node refer to.
    Single(usize),
    /// Two neighbouring objects, one per child.
    Pair(usize, usize),
    /// The positions `start..end`, with the first half (`start..mid`) under
    /// `left` and the rest under `right`.
    Split { start: usize, mid: usize, end: usize, left: Box<BvhLayout>, right: Box<BvhLayout> },
}

impl BvhLayout {
    /// Whether this layout is the one built for the positions `start..end`:
    /// one position makes a `Single`, two make a `Pair`, and more are split
    /// at `start + (end - start) / 2`.
    pub open spec fn covers(self, start: int, end: int) -> bool
        decreases self,
    {
        match self {
            BvhLayout::Single(i) => i == start && end == start + 1,
            BvhLayout::Pair(a, b) => a == start && b == start + 1 && end == start + 2,
            BvhLayout::Split { start: s, mid, end: e, left, right } => {
                &&& s == start
                &&& e == end
                &&& end - start > 2
                &&& mid == start + (end - start) / 2
                &&& left.covers(start, mid as int)
                &&& right.covers(mid as int, end)
            },
        }
    }

    /// The positions reached from this node, left to right, each once.
    pub open spec fn positions(self) -> Seq<usize>
        decreases self,
    {
        match self {
            BvhLayout::Single(i) => seq![i],
            BvhLayout::Pair(a, b) => seq![a, b],
            BvhLayout::Split { left, right, .. } => left.positions() + right.positions(),
        }
    }

    /// The number of nodes on the longest path from this node to a leaf
    /// node (a `Single` or a `Pair`), this node included.
    pub open spec fn height(self) -> nat
        decreases self,
    {
        match self {
            BvhLayout::Single(_) => 1,
            BvhLayout::Pair(_, _) => 1,
            BvhLayout::Split { left, right, .. } => {
                let l = left.height();
                let r = right.height();
                1 + if l >= r { l } else { r }
            },
        }
    }

    /// Lays out the hierarchy over the positions `start..end`.
    pub fn build(start: usize, end: usize) -> (r: BvhLayout)
        requires
            start < end,
        ensures
            r.covers(start as int, end as int),
            r.positions() == Seq::new((end - start) as nat, |k: int| (start + k) as usize),
        decreases end - start,
    {
        let span = end - start;
        if span == 1 {
            let r = BvhLayout::Single(start);
            assert(r.positions() =~= Seq::new((end - start) as nat, |k: int| (start + k) as usize));
            r
        } else if span == 2 {
            let r = BvhLayout::Pair(start, start + 1);
            assert(r.positions() =~= Seq::new((end - start) as nat, |k: int| (start + k) as usize));
            r
        } else {
            let mid = start + span / 2;
            let left = BvhLayout::build(start, mid);
            let right = BvhLayout::build(mid, end);
            let r = BvhLayout::Split { start, mid, end, left: Box::new(left), right: Box::new(right) };
            assert(r.positions() =~= Seq::new((end - start) as nat, |k: int| (start + k) as usize));
            r
        }
    }

    /// A hierarchy over `n` objects is about `log2(n)` nodes deep: for
    /// two or more objects, `2^(height - 1) < n`, and a single object makes
    /// a hierarchy of height 1.
    pub proof fn lemma_height_logarithmic(self, start: int, end: int)
        requires
            self.covers(start, end),
        ensures
            end - start == 1 ==> self.height() == 1,
            end - start >= 2 ==> pow2((self.height() - 1) as nat) < end - start,
        decreases self,
    {
        lemma_pow0(2);
        match self {
            BvhLayout::Single(_) => {},
            BvhLayout::Pair(_, _) => {},
            BvhLayout::Split { mid, left, right, .. } => {
                left.lemma_height_logarithmic(start, mid as int);
                right.lemma_height_logarithmic(mid as int, end);
                let l = left.height();
                let r = right.height();
                let h = self.height();
                let c = end - mid;
                assert(c >= 2);
                assert(mid - start <= c);
                lemma_pow2_unfold((h - 1) as nat);
                // The taller child spans at most `c` positions, so two to the
                // power of its height less one is below `c`.
                assert(pow2((h - 2) as nat) < c) by {
                    if l >= r {
                        assert(h - 2 == l - 1);
                    } else {
                        assert(h - 2 == r - 1);
                    }
                }
                assert(2 * c <= end - start + 1);
            },
        }
    }
}

} // verus!
