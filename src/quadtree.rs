//! A region quadtree over rectangles. A node keeps up to `CAPACITY` entries
//! before it splits into four quadrants; an entry goes down into the
//! quadrant that the center of its rectangle falls in, when the rectangle
//! lies within that quadrant, so an entry that straddles a center line stays
//! in the node above.
use vstd::prelude::*;

use crate::geometry::{Cells, Rect, RenderingRect};

verus! {

/// Entries a leaf holds before it splits.
pub const CAPACITY: usize = 4;

/// Levels of splitting below the root.
pub const MAX_DEPTH: usize = 6;

/// An item of the tree: the index of a ball and the rectangle it occupies.
#[derive(Clone, Copy, Debug, PartialEq, Eq, Structural)]
pub struct Entry {
    pub index: usize,
    pub bounds: Rect,
}

/// A node of the tree; `depth` counts the levels it may still split into.
pub enum QuadTree {
    Leaf { boundary: Rect, depth: usize, entries: Vec<Entry> },
    Node {
        boundary: Rect,
        depth: usize,
        entries: Vec<Entry>,
        top_left: Box<QuadTree>,
        top_right: Box<QuadTree>,
        bottom_left: Box<QuadTree>,
        bottom_right: Box<QuadTree>,
    },
}

/// The entries whose rectangles meet `q`.
pub open spec fn meeting(s: Set<Entry>, q: Rect) -> Set<Entry> {
    s.filter(|e: Entry| e.bounds.intersects_spec(q))
}

impl QuadTree {
    pub open spec fn boundary_spec(self) -> Rect {
        match self {
            QuadTree::Leaf { boundary, .. } => boundary,
            QuadTree::Node { boundary, .. } => boundary,
        }
    }

    pub open spec fn depth_spec(self) -> nat {
        match self {
            QuadTree::Leaf { depth, .. } => depth as nat,
            QuadTree::Node { depth, .. } => depth as nat,
        }
    }

    pub open spec fn own(self) -> Seq<Entry> {
        match self {
            QuadTree::Leaf { entries, .. } => entries@,
            QuadTree::Node { entries, .. } => entries@,
        }
    }

    pub open spec fn rank(self) -> nat {
        match self {
            QuadTree::Leaf { .. } => 1,
            QuadTree::Node { .. } => 0,
        }
    }

    /// The boundaries of the nodes, each before its quadrants; a split node
    /// is marked `many`.
    pub open spec fn outline(self) -> Seq<RenderingRect>
        decreases self,
    {
        match self {
            QuadTree::Leaf { boundary, .. } => seq![RenderingRect { rect: boundary, many: false }],
            QuadTree::Node { boundary, top_left, top_right, bottom_left, bottom_right, .. } => {
                seq![RenderingRect { rect: boundary, many: true }] + top_left.outline()
                    + top_right.outline() + bottom_left.outline() + bottom_right.outline()
            },
        }
    }

    /// `e` goes down into the quadrant that the center of its rectangle
    /// falls in, which holds the whole rectangle.
    pub open spec fn home(self, e: Entry) -> bool {
        let b = self.boundary_spec();
        b.quadrant_spec(b.cell_of(e.bounds.center_spec())).contains_rect(e.bounds)
    }

    /// Every entry held by this node or below it.
    pub open spec fn contents(self) -> Set<Entry>
        decreases self,
    {
        match self {
            QuadTree::Leaf { entries, .. } => entries@.to_set(),
            QuadTree::Node { entries, top_left, top_right, bottom_left, bottom_right, .. } => {
                entries@.to_set() + top_left.contents() + top_right.contents()
                    + bottom_left.contents() + bottom_right.contents()
            },
        }
    }

    /// Where a child of `self` in quadrant `c` must stand, and what it may
    /// hold.
    pub open spec fn child_ok(self, child: QuadTree, c: Cells) -> bool {
        &&& child.boundary_spec() == self.boundary_spec().quadrant_spec(c)
        &&& child.depth_spec() + 1 == self.depth_spec()
        &&& forall|e: Entry|
            #![trigger child.contents().contains(e)]
            child.contents().contains(e) ==> child.boundary_spec().contains_rect(e.bounds)
    }

    pub open spec fn wf(self) -> bool
        decreases self,
    {
        &&& self.boundary_spec().wf()
        &&& forall|e: Entry|
            #![trigger self.contents().contains(e)]
            self.contents().contains(e) ==> e.bounds.wf()
        &&& match self {
            QuadTree::Leaf { .. } => true,
            QuadTree::Node { top_left, top_right, bottom_left, bottom_right, .. } => {
                &&& top_left.wf() && self.child_ok(*top_left, Cells::TopLeft)
                &&& top_right.wf() && self.child_ok(*top_right, Cells::TopRight)
                &&& bottom_left.wf() && self.child_ok(*bottom_left, Cells::BottomLeft)
                &&& bottom_right.wf() && self.child_ok(*bottom_right, Cells::BottomRight)
            },
        }
    }

    /// An empty tree over `boundary`.
    pub fn new(boundary: Rect) -> (r: QuadTree)
        requires
            boundary.wf(),
        ensures
            r.wf(),
            r.boundary_spec() == boundary,
            r.depth_spec() == MAX_DEPTH,
            r.contents() == Set::<Entry>::empty(),
    {
        QuadTree::empty_leaf(boundary, MAX_DEPTH)
    }

    fn empty_leaf(boundary: Rect, depth: usize) -> (r: QuadTree)
        requires
            boundary.wf(),
        ensures
            r.wf(),
            r is Leaf,
            r.boundary_spec() == boundary,
            r.depth_spec() == depth,
            r.contents() == Set::<Entry>::empty(),
    {
        let r = QuadTree::Leaf { boundary, depth, entries: Vec::new() };
        assert(r.contents() =~= Set::<Entry>::empty());
        r
    }

    /// A node with four empty quadrants.
    fn split(boundary: Rect, depth: usize) -> (r: QuadTree)
        requires
            boundary.wf(),
            depth > 0,
        ensures
            r.wf(),
            r is Node,
            r.boundary_spec() == boundary,
            r.depth_spec() == depth,
            r.contents() == Set::<Entry>::empty(),
    {
        proof {
            crate::geometry::lemma_split_partitions(boundary);
        }
        let (tl, tr, bl, br) = boundary.split_to_four_cells();
        let r = QuadTree::Node {
            boundary,
            depth,
            entries: Vec::new(),
            top_left: Box::new(QuadTree::empty_leaf(tl, depth - 1)),
            top_right: Box::new(QuadTree::empty_leaf(tr, depth - 1)),
            bottom_left: Box::new(QuadTree::empty_leaf(bl, depth - 1)),
            bottom_right: Box::new(QuadTree::empty_leaf(br, depth - 1)),
        };
        assert(r.contents() =~= Set::<Entry>::empty());
        r
    }

    pub fn boundary(&self) -> (r: Rect)
        ensures
            r == self.boundary_spec(),
    {
        match self {
            QuadTree::Leaf { boundary, .. } => *boundary,
            QuadTree::Node { boundary, .. } => *boundary,
        }
    }

    /// The node boundaries to draw for a debug view.
    pub fn rendering_rects(&self) -> (r: Vec<RenderingRect>)
        ensures
            r@ == self.outline(),
        decreases self,
    {
        match self {
            QuadTree::Leaf { boundary, .. } => {
                let mut r = Vec::new();
                r.push(RenderingRect { rect: *boundary, many: false });
                assert(r@ =~= self.outline());
                r
            },
            QuadTree::Node { boundary, top_left, top_right, bottom_left, bottom_right, .. } => {
                let mut r = Vec::new();
                r.push(RenderingRect { rect: *boundary, many: true });
                let mut a = top_left.rendering_rects();
                r.append(&mut a);
                let mut b = top_right.rendering_rects();
                r.append(&mut b);
                let mut c = bottom_left.rendering_rects();
                r.append(&mut c);
                let mut d = bottom_right.rendering_rects();
                r.append(&mut d);
                assert(r@ =~= self.outline());
                r
            },
        }
    }

    /// Adds `e` to the tree. A full leaf that may still split becomes a node
    /// and hands its entries down; an entry that lies within a quadrant goes
    /// into it, any other stays at this node.
    pub fn insert(self, e: Entry) -> (r: QuadTree)
        requires
            self.wf(),
            e.bounds.wf(),
        ensures
            r.wf(),
            r.boundary_spec() == self.boundary_spec(),
            r.depth_spec() == self.depth_spec(),
            r.contents() == self.contents().insert(e),
            self is Node ==> r is Node,
            self is Leaf && (self.own().len() < CAPACITY || self.depth_spec() == 0) ==> r is Leaf
                && r.own() == self.own().push(e),
            self is Leaf && self.own().len() >= CAPACITY && self.depth_spec() > 0 ==> r is Node,
            self is Node ==> r.own() == if self.home(e) {
                self.own()
            } else {
                self.own().push(e)
            },
        decreases self.depth_spec(), self.rank(),
    {
        let ghost held = self.contents();
        match self {
            QuadTree::Leaf { boundary, depth, entries } => {
                assert(held == entries@.to_set());
                let mut entries = entries;
                if entries.len() < CAPACITY || depth == 0 {
                    let ghost before = entries@;
                    entries.push(e);
                    let r = QuadTree::Leaf { boundary, depth, entries };
                    proof {
                        lemma_push_to_set(before, e);
                    }
                    r
                } else {
                    let ghost whole = entries@;
                    assert forall|k: int| 0 <= k < whole.len() implies (#[trigger] whole[k]).bounds.wf() by {
                        assert(whole.to_set().contains(whole[k]));
                        assert(held.contains(whole[k]));
                    }
                    let mut node = QuadTree::split(boundary, depth);
                    let mut i: usize = 0;
                    while i < entries.len()
                        invariant
                            node.wf(),
                            node is Node,
                            node.boundary_spec() == boundary,
                            node.depth_spec() == depth,
                            depth > 0,
                            self.depth_spec() == depth,
                            self.rank() == 1,
                            i <= entries.len(),
                            forall|k: int| 0 <= k < entries.len() ==> (#[trigger] entries@[k]).bounds.wf(),
                            node.contents() == entries@.subrange(0, i as int).to_set(),
                        decreases entries.len() - i,
                    {
                        let ghost prev = node.contents();
                        assert(entries@.to_set().contains(entries@[i as int]));
                        node = node.insert(entries[i]);
                        assert(entries@.subrange(0, i + 1) == entries@.subrange(0, i as int).push(
                            entries@[i as int],
                        ));
                        proof {
                            lemma_push_to_set(entries@.subrange(0, i as int), entries@[i as int]);
                        }
                        i = i + 1;
                    }
                    assert(entries@.subrange(0, entries.len() as int) == entries@);
                    node.insert(e)
                }
            },
            QuadTree::Node {
                boundary,
                depth,
                entries,
                top_left,
                top_right,
                bottom_left,
                bottom_right,
            } => {
                let mut entries = entries;
                let ghost before = QuadTree::Node {
                    boundary,
                    depth,
                    entries,
                    top_left,
                    top_right,
                    bottom_left,
                    bottom_right,
                };
                let ghost own = entries@;
                let cell = boundary.where_is_point_relative_to_center(e.bounds.center());
                let target = match cell {
                    Cells::TopLeft => boundary.top_left(),
                    Cells::TopRight => boundary.top_right(),
                    Cells::BottomLeft => boundary.bottom_left(),
                    Cells::BottomRight => boundary.bottom_right(),
                };
                let r = if !target.contains(&e.bounds) {
                    entries.push(e);
                    proof {
                        lemma_push_to_set(own, e);
                    }
                    QuadTree::Node {
                        boundary,
                        depth,
                        entries,
                        top_left,
                        top_right,
                        bottom_left,
                        bottom_right,
                    }
                } else {
                    match cell {
                        Cells::TopLeft => {
                            let c = (*top_left).insert(e);
                            QuadTree::Node {
                                boundary,
                                depth,
                                entries,
                                top_left: Box::new(c),
                                top_right,
                                bottom_left,
                                bottom_right,
                            }
                        },
                        Cells::TopRight => {
                            let c = (*top_right).insert(e);
                            QuadTree::Node {
                                boundary,
                                depth,
                                entries,
                                top_left,
                                top_right: Box::new(c),
                                bottom_left,
                                bottom_right,
                            }
                        },
                        Cells::BottomLeft => {
                            let c = (*bottom_left).insert(e);
                            QuadTree::Node {
                                boundary,
                                depth,
                                entries,
                                top_left,
                                top_right,
                                bottom_left: Box::new(c),
                                bottom_right,
                            }
                        },
                        Cells::BottomRight => {
                            let c = (*bottom_right).insert(e);
                            QuadTree::Node {
                                boundary,
                                depth,
                                entries,
                                top_left,
                                top_right,
                                bottom_left,
                                bottom_right: Box::new(c),
                            }
                        },
                    }
                };
                assert(r.contents() =~= before.contents().insert(e));
                r
            },
        }
    }

    /// The entries in the tree whose rectangles meet `q`.
    pub fn query_region(&self, q: &Rect) -> (r: Vec<Entry>)
        requires
            self.wf(),
            q.wf(),
        ensures
            r@.to_set() == meeting(self.contents(), *q),
        decreases self.depth_spec(), 0nat,
    {
        proof {
            let own = self.own();
            assert forall|k: int| 0 <= k < own.len() implies (#[trigger] own[k]).bounds.wf() by {
                assert(own.to_set().contains(own[k]));
                assert(self.contents().contains(own[k]));
            }
        }
        match self {
            QuadTree::Leaf { entries, .. } => matching(entries, q),
            QuadTree::Node { entries, top_left, top_right, bottom_left, bottom_right, .. } => {
                let mut r = matching(entries, q);
                r = join(r, query_child(top_left, q));
                r = join(r, query_child(top_right, q));
                r = join(r, query_child(bottom_left, q));
                r = join(r, query_child(bottom_right, q));
                assert(meeting(self.contents(), *q) =~= meeting(entries@.to_set(), *q) + meeting(
                    top_left.contents(),
                    *q,
                ) + meeting(top_right.contents(), *q) + meeting(bottom_left.contents(), *q)
                    + meeting(bottom_right.contents(), *q));
                r
            },
        }
    }
}

/// The query on one quadrant: skipped when the quadrant misses `q`, which
/// then no entry within it meets.
fn query_child(child: &QuadTree, q: &Rect) -> (r: Vec<Entry>)
    requires
        child.wf(),
        q.wf(),
        forall|e: Entry|
            #![trigger child.contents().contains(e)]
            child.contents().contains(e) ==> child.boundary_spec().contains_rect(e.bounds),
    ensures
        r@.to_set() == meeting(child.contents(), *q),
    decreases child.depth_spec(), 1nat,
{
    if child.boundary().intersects(q) {
        child.query_region(q)
    } else {
        assert forall|e: Entry| child.contents().contains(e) implies !e.bounds.intersects_spec(
            *q,
        ) by {
            if e.bounds.intersects_spec(*q) {
                crate::geometry::lemma_intersects_within(child.boundary_spec(), e.bounds, *q);
            }
        }
        let r = Vec::new();
        assert(r@.to_set() =~= meeting(child.contents(), *q));
        r
    }
}

/// The entries of `entries` whose rectangles meet `q`, by a scan.
fn matching(entries: &Vec<Entry>, q: &Rect) -> (r: Vec<Entry>)
    requires
        q.wf(),
        forall|k: int| 0 <= k < entries.len() ==> (#[trigger] entries@[k]).bounds.wf(),
    ensures
        r@.to_set() == meeting(entries@.to_set(), *q),
{
    let mut r: Vec<Entry> = Vec::new();
    let mut i: usize = 0;
    while i < entries.len()
        invariant
            i <= entries.len(),
            q.wf(),
            forall|k: int| 0 <= k < entries.len() ==> (#[trigger] entries@[k]).bounds.wf(),
            r@.to_set() == meeting(entries@.subrange(0, i as int).to_set(), *q),
        decreases entries.len() - i,
    {
        let e = entries[i];
        let ghost pre = entries@.subrange(0, i as int);
        assert(entries@.subrange(0, i + 1) == pre.push(e));
        proof {
            lemma_push_to_set(pre, e);
        }
        if e.bounds.intersects(q) {
            let ghost rb = r@;
            r.push(e);
            proof {
                lemma_push_to_set(rb, e);
            }
            assert(r@.to_set() =~= meeting(pre.push(e).to_set(), *q));
        } else {
            assert(r@.to_set() =~= meeting(pre.push(e).to_set(), *q));
        }
        i = i + 1;
    }
    assert(entries@.subrange(0, entries.len() as int) == entries@);
    r
}

/// `a` followed by `b`.
fn join(a: Vec<Entry>, b: Vec<Entry>) -> (r: Vec<Entry>)
    ensures
        r@.to_set() == a@.to_set() + b@.to_set(),
{
    let mut a = a;
    let mut b = b;
    let ghost sa = a@;
    let ghost sb = b@;
    a.append(&mut b);
    assert(a@ == sa + sb);
    assert forall|x: Entry| #[trigger] (sa + sb).contains(x) <==> sa.contains(x) || sb.contains(x) by {
        if sa.contains(x) {
            let i = choose|i: int| 0 <= i < sa.len() && sa[i] == x;
            assert((sa + sb)[i] == x);
        }
        if sb.contains(x) {
            let i = choose|i: int| 0 <= i < sb.len() && sb[i] == x;
            assert((sa + sb)[sa.len() + i] == x);
        }
        if (sa + sb).contains(x) {
            let k = choose|k: int| 0 <= k < sa.len() + sb.len() && (sa + sb)[k] == x;
            if k < sa.len() {
                assert(sa[k] == x);
            } else {
                assert(sb[k - sa.len()] == x);
            }
        }
    }
    assert(a@.to_set() =~= sa.to_set() + sb.to_set());
    a
}

proof fn lemma_push_to_set(s: Seq<Entry>, e: Entry)
    ensures
        s.push(e).to_set() == s.to_set().insert(e),
{
    assert forall|x: Entry| #[trigger] s.push(e).contains(x) <==> s.contains(x) || x == e by {
        if s.contains(x) {
            let i = choose|i: int| 0 <= i < s.len() && s[i] == x;
            assert(s.push(e)[i] == x);
        }
        if x == e {
            assert(s.push(e)[s.len() as int] == x);
        }
        if s.push(e).contains(x) {
            let k = choose|k: int| 0 <= k < s.len() + 1 && s.push(e)[k] == x;
            if k < s.len() {
                assert(s[k] == x);
            }
        }
    }
    assert(s.push(e).to_set() =~= s.to_set().insert(e));
}

} // verus!
