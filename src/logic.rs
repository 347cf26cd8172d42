//! The simulation: the live balls of an arena, the step that advances them
//! all and resolves collisions through a quadtree, and the input handlers.
use vstd::prelude::*;

use crate::ball::{
    advanced, arena_ok, bounds_of, ignited, touching, Ball, Phase, lemma_square_bound,
};
use crate::constants::COORD_LIMIT;
use crate::geometry::{Point, Rect};
use crate::quadtree::{meeting, Entry, QuadTree};

verus! {

/// The simulation state of one arena.
pub struct GameState {
    pub width: i64,
    pub height: i64,
    pub balls: Vec<Ball>,
    pub paused: bool,
    pub debug: bool,
}

pub open spec fn live(b: Ball) -> bool {
    b.phase != Phase::Removed
}

/// Every ball advanced by one tick, collisions aside.
pub open spec fn advanced_all(s: Seq<Ball>, width: int, height: int) -> Seq<Ball> {
    Seq::new(s.len(), |k: int| advanced(s[k], width, height))
}

/// Some other live ball touches the live ball at `i`.
pub open spec fn is_hit(s: Seq<Ball>, i: int) -> bool {
    live(s[i]) && exists|j: int|
        0 <= j < s.len() && j != i && live(#[trigger] s[j]) && touching(s[i], s[j])
}

/// Every ball that was hit is ignited.
pub open spec fn resolved(s: Seq<Ball>) -> Seq<Ball> {
    Seq::new(
        s.len(),
        |k: int|
            if is_hit(s, k) {
                ignited(s[k])
            } else {
                s[k]
            },
    )
}

/// The balls after one tick: advanced, collisions resolved, removed ones
/// dropped, in their order.
pub open spec fn ticked(s: Seq<Ball>, width: int, height: int) -> Seq<Ball> {
    resolved(advanced_all(s, width, height)).filter(|b: Ball| live(b))
}

pub open spec fn dist2(b: Ball, x: int, y: int) -> int {
    (b.position.x - x) * (b.position.x - x) + (b.position.y - y) * (b.position.y - y)
}

/// `k` is the first of the balls nearest to `(x, y)`.
pub open spec fn is_nearest(s: Seq<Ball>, x: int, y: int, k: int) -> bool {
    &&& 0 <= k < s.len()
    &&& forall|j: int| 0 <= j < s.len() ==> dist2(s[k], x, y) <= #[trigger] dist2(s[j], x, y)
    &&& forall|j: int| 0 <= j < k ==> dist2(s[k], x, y) < #[trigger] dist2(s[j], x, y)
}

/// The entry a live ball has in the collision tree.
pub open spec fn entry_of(s: Seq<Ball>, i: int) -> Entry {
    Entry { index: i as usize, bounds: bounds_of(s[i]) }
}

pub open spec fn in_arena(p: Point, width: int, height: int) -> bool {
    0 <= p.x <= width && 0 <= p.y <= height
}

pub open spec fn speed_ok(v: Point) -> bool {
    -COORD_LIMIT <= v.x <= COORD_LIMIT && -COORD_LIMIT <= v.y <= COORD_LIMIT
}

/// What a key does: a space or `p` pauses and resumes, `c` clears the arena,
/// `d` switches the debug overlay; any other key does nothing.
pub open spec fn key_is(key: Seq<char>, c: char) -> bool {
    key.len() == 1 && key[0] == c
}

impl GameState {
    pub open spec fn wf(self) -> bool {
        &&& arena_ok(self.width as int, self.height as int)
        &&& forall|i: int|
            0 <= i < self.balls@.len() ==> (#[trigger] self.balls@[i]).wf(
                self.width as int,
                self.height as int,
            ) && live(self.balls@[i])
    }

    pub open spec fn arena_spec(self) -> Rect {
        Rect { x: 0, y: 0, w: self.width, h: self.height }
    }

    /// An empty, running arena of the given size.
    pub fn new(width: usize, height: usize) -> (r: GameState)
        requires
            width <= COORD_LIMIT as usize,
            height <= COORD_LIMIT as usize,
        ensures
            r.wf(),
            r.width == width,
            r.height == height,
            r.balls@ == Seq::<Ball>::empty(),
            !r.paused,
            !r.debug,
    {
        GameState {
            width: width as i64,
            height: height as i64,
            balls: Vec::new(),
            paused: false,
            debug: false,
        }
    }

    /// The arena as a rectangle at the origin.
    pub fn arena(&self) -> (r: Rect)
        requires
            self.wf(),
        ensures
            r == self.arena_spec(),
            r.wf(),
    {
        Rect { x: 0, y: 0, w: self.width, h: self.height }
    }

    /// Adds a fresh ball at `position` moving by `velocity`, when the
    /// position lies in the arena and the velocity within `COORD_LIMIT`.
    pub fn spawn(&mut self, position: Point, velocity: Point) -> (r: bool)
        requires
            old(self).wf(),
        ensures
            final(self).wf(),
            r == (in_arena(position, old(self).width as int, old(self).height as int)
                && speed_ok(velocity)),
            r ==> final(self).balls@ == old(self).balls@.push(Ball::new_spec(position, velocity)),
            !r ==> final(self).balls@ == old(self).balls@,
            final(self).width == old(self).width && final(self).height == old(self).height,
            final(self).paused == old(self).paused && final(self).debug == old(self).debug,
    {
        if position.x < 0 || position.x > self.width || position.y < 0 || position.y > self.height
            || velocity.x < -COORD_LIMIT || velocity.x > COORD_LIMIT || velocity.y < -COORD_LIMIT
            || velocity.y > COORD_LIMIT {
            return false;
        }
        let b = Ball::new(position, velocity);
        self.balls.push(b);
        assert forall|i: int| 0 <= i < self.balls@.len() implies (#[trigger] self.balls@[i]).wf(
            self.width as int,
            self.height as int,
        ) && live(self.balls@[i]) by {
            if i < old(self).balls@.len() {
                assert(self.balls@[i] == old(self).balls@[i]);
            }
        }
        true
    }

    /// The index of the first ball nearest to `(x, y)`; `None` when there
    /// are no balls.
    pub fn nearest_ball(&self, x: i64, y: i64) -> (r: Option<usize>)
        requires
            self.wf(),
            0 <= x <= self.width,
            0 <= y <= self.height,
        ensures
            r is None <==> self.balls@.len() == 0,
            r is Some ==> is_nearest(self.balls@, x as int, y as int, r->0 as int),
    {
        if self.balls.len() == 0 {
            return None;
        }
        let mut best: usize = 0;
        let mut best_d: i64 = self.distance2(0, x, y);
        let mut i: usize = 1;
        while i < self.balls.len()
            invariant
                self.wf(),
                0 <= x <= self.width,
                0 <= y <= self.height,
                1 <= i <= self.balls@.len(),
                best < i,
                best_d == dist2(self.balls@[best as int], x as int, y as int),
                forall|j: int|
                    0 <= j < i ==> best_d <= #[trigger] dist2(self.balls@[j], x as int, y as int),
                forall|j: int|
                    0 <= j < best ==> best_d < #[trigger] dist2(self.balls@[j], x as int, y as int),
            decreases self.balls@.len() - i,
        {
            let d = self.distance2(i, x, y);
            if d < best_d {
                best = i;
                best_d = d;
            }
            i = i + 1;
        }
        Some(best)
    }

    fn distance2(&self, i: usize, x: i64, y: i64) -> (r: i64)
        requires
            self.wf(),
            i < self.balls@.len(),
            0 <= x <= self.width,
            0 <= y <= self.height,
        ensures
            r == dist2(self.balls@[i as int], x as int, y as int),
    {
        let b = self.balls[i];
        let dx = b.position.x - x;
        let dy = b.position.y - y;
        proof {
            lemma_square_bound(dx as int, 1000000);
            lemma_square_bound(dy as int, 1000000);
        }
        dx * dx + dy * dy
    }

    /// The left button (`0`) spawns a ball with `velocity` at `(x, y)`; any
    /// other button removes the ball nearest to `(x, y)`. A click outside
    /// the arena is ignored.
    pub fn handle_mouse_event(&mut self, button: i16, x: i64, y: i64, velocity: Point)
        requires
            old(self).wf(),
        ensures
            final(self).wf(),
            final(self).width == old(self).width && final(self).height == old(self).height,
            final(self).paused == old(self).paused && final(self).debug == old(self).debug,
            !in_arena(Point { x, y }, old(self).width as int, old(self).height as int)
                ==> final(self).balls@ == old(self).balls@,
            in_arena(Point { x, y }, old(self).width as int, old(self).height as int) && button
                == 0 ==> final(self).balls@ == if speed_ok(velocity) {
                old(self).balls@.push(Ball::new_spec(Point { x, y }, velocity))
            } else {
                old(self).balls@
            },
            in_arena(Point { x, y }, old(self).width as int, old(self).height as int) && button
                != 0 ==> if old(self).balls@.len() == 0 {
                final(self).balls@ == old(self).balls@
            } else {
                exists|k: int|
                    #![trigger is_nearest(old(self).balls@, x as int, y as int, k)]
                    is_nearest(old(self).balls@, x as int, y as int, k) && final(self).balls@
                        == old(self).balls@.remove(k)
            },
    {
        if x < 0 || x > self.width || y < 0 || y > self.height {
            return ;
        }
        if button == 0 {
            self.spawn(Point { x, y }, velocity);
        } else {
            match self.nearest_ball(x, y) {
                Some(k) => {
                    self.balls.remove(k);
                    assert forall|i: int| 0 <= i < self.balls@.len() implies (
                    #[trigger] self.balls@[i]).wf(self.width as int, self.height as int) && live(
                        self.balls@[i],
                    ) by {
                        if i < k {
                            assert(self.balls@[i] == old(self).balls@[i]);
                        } else {
                            assert(self.balls@[i] == old(self).balls@[i + 1]);
                        }
                    }
                    assert(is_nearest(old(self).balls@, x as int, y as int, k as int));
                },
                None => {},
            }
        }
    }

    /// A space or `p` pauses and resumes, `c` removes every ball, `d`
    /// switches the debug overlay; other keys are ignored.
    pub fn handle_keydown_event(&mut self, key: &str)
        requires
            old(self).wf(),
        ensures
            final(self).wf(),
            final(self).width == old(self).width && final(self).height == old(self).height,
            final(self).paused == (old(self).paused != (key_is(key@, ' ') || key_is(key@, 'p'))),
            final(self).debug == (old(self).debug != key_is(key@, 'd')),
            final(self).balls@ == if key_is(key@, 'c') {
                Seq::<Ball>::empty()
            } else {
                old(self).balls@
            },
    {
        if key.unicode_len() != 1 {
            return ;
        }
        let c = key.get_char(0);
        if c == ' ' || c == 'p' {
            self.paused = !self.paused;
        } else if c == 'c' {
            self.balls.clear();
        } else if c == 'd' {
            self.debug = !self.debug;
        }
    }

    /// One simulation step, unless paused: every ball bounces off the walls,
    /// moves and grows; the balls are indexed in a quadtree; each growing
    /// ball that touches another live ball starts exploding; removed balls
    /// are dropped.
    pub fn tick(&mut self)
        requires
            old(self).wf(),
        ensures
            final(self).wf(),
            final(self).width == old(self).width && final(self).height == old(self).height,
            final(self).paused == old(self).paused && final(self).debug == old(self).debug,
            old(self).paused ==> final(self).balls@ == old(self).balls@,
            !old(self).paused ==> final(self).balls@ == ticked(
                old(self).balls@,
                old(self).width as int,
                old(self).height as int,
            ),
    {
        if self.paused {
            return ;
        }
        let moved = self.advance_all();
        let hits = collisions(&moved, self.width, self.height);
        let resolved = apply_hits(&moved, &hits, self.width, self.height);
        self.balls = drop_removed(&resolved, self.width, self.height);
    }

    fn advance_all(&self) -> (r: Vec<Ball>)
        requires
            self.wf(),
        ensures
            r@ == advanced_all(self.balls@, self.width as int, self.height as int),
            forall|i: int|
                0 <= i < r@.len() ==> (#[trigger] r@[i]).wf(
                    self.width as int,
                    self.height as int,
                ),
    {
        let mut r: Vec<Ball> = Vec::new();
        let mut i: usize = 0;
        while i < self.balls.len()
            invariant
                self.wf(),
                i <= self.balls@.len(),
                r@.len() == i,
                forall|k: int|
                    0 <= k < i ==> #[trigger] r@[k] == advanced(
                        self.balls@[k],
                        self.width as int,
                        self.height as int,
                    ),
                forall|k: int|
                    0 <= k < i ==> (#[trigger] r@[k]).wf(self.width as int, self.height as int),
            decreases self.balls@.len() - i,
        {
            let mut b = self.balls[i];
            b.advance(self.width, self.height);
            r.push(b);
            i = i + 1;
        }
        assert(r@ =~= advanced_all(self.balls@, self.width as int, self.height as int));
        r
    }
}

/// Circles that overlap have boxes that overlap.
proof fn lemma_touching_boxes(a: Ball, b: Ball)
    requires
        a.wf(COORD_LIMIT as int, COORD_LIMIT as int),
        b.wf(COORD_LIMIT as int, COORD_LIMIT as int),
        live(a),
        live(b),
        touching(a, b),
    ensures
        bounds_of(b).intersects_spec(bounds_of(a)),
{
    crate::ball::lemma_size_in_bands(a, COORD_LIMIT as int, COORD_LIMIT as int);
    crate::ball::lemma_size_in_bands(b, COORD_LIMIT as int, COORD_LIMIT as int);
    let dx = a.position.x - b.position.x;
    let dy = a.position.y - b.position.y;
    let rs = a.size + b.size;
    assert(-rs < dx < rs) by (nonlinear_arith)
        requires
            dx * dx + dy * dy < rs * rs,
            rs > 0,
    ;
    assert(-rs < dy < rs) by (nonlinear_arith)
        requires
            dx * dx + dy * dy < rs * rs,
            rs > 0,
    ;
}

/// For each ball, whether another live ball touches it; found through a
/// quadtree over the arena holding each live ball's box.
fn collisions(s: &Vec<Ball>, width: i64, height: i64) -> (r: Vec<bool>)
    requires
        arena_ok(width as int, height as int),
        forall|i: int| 0 <= i < s@.len() ==> (#[trigger] s@[i]).wf(width as int, height as int),
    ensures
        r@.len() == s@.len(),
        forall|i: int| 0 <= i < s@.len() ==> #[trigger] r@[i] == is_hit(s@, i),
{
    let tree = index_balls(s, width, height);
    let mut r: Vec<bool> = Vec::new();
    let mut i: usize = 0;
    while i < s.len()
        invariant
            arena_ok(width as int, height as int),
            forall|k: int| 0 <= k < s@.len() ==> (#[trigger] s@[k]).wf(width as int, height as int),
            tree.wf(),
            forall|e: Entry|
                #[trigger] tree.contents().contains(e) <==> (0 <= e.index < s@.len() && live(
                    s@[e.index as int],
                ) && e == entry_of(s@, e.index as int)),
            i <= s@.len(),
            r@.len() == i,
            forall|k: int| 0 <= k < i ==> #[trigger] r@[k] == is_hit(s@, k),
        decreases s@.len() - i,
    {
        let hit = if s[i].is_removed() {
            false
        } else {
            hit_at(s, &tree, i, width, height)
        };
        r.push(hit);
        i = i + 1;
    }
    r
}

impl GameState {
    /// The quadtree over the arena that indexes the live balls by their boxes.
    pub fn collision_tree(&self) -> (tree: QuadTree)
        requires
            self.wf(),
        ensures
            tree.wf(),
            tree.boundary_spec() == self.arena_spec(),
            forall|e: Entry|
                #[trigger] tree.contents().contains(e) <==> (0 <= e.index < self.balls@.len()
                    && e == entry_of(self.balls@, e.index as int)),
    {
        index_balls(&self.balls, self.width, self.height)
    }
}

/// A quadtree over the arena with an entry for each live ball.
fn index_balls(s: &Vec<Ball>, width: i64, height: i64) -> (tree: QuadTree)
    requires
        arena_ok(width as int, height as int),
        forall|i: int| 0 <= i < s@.len() ==> (#[trigger] s@[i]).wf(width as int, height as int),
    ensures
        tree.wf(),
        tree.boundary_spec() == (Rect { x: 0, y: 0, w: width, h: height }),
        forall|e: Entry|
            #[trigger] tree.contents().contains(e) <==> (0 <= e.index < s@.len() && live(
                s@[e.index as int],
            ) && e == entry_of(s@, e.index as int)),
{
    let mut tree = QuadTree::new(Rect { x: 0, y: 0, w: width, h: height });
    let mut i: usize = 0;
    while i < s.len()
        invariant
            arena_ok(width as int, height as int),
            forall|k: int| 0 <= k < s@.len() ==> (#[trigger] s@[k]).wf(width as int, height as int),
            tree.wf(),
            tree.boundary_spec() == (Rect { x: 0, y: 0, w: width, h: height }),
            i <= s@.len(),
            forall|e: Entry|
                #[trigger] tree.contents().contains(e) <==> (0 <= e.index < i && live(
                    s@[e.index as int],
                ) && e == entry_of(s@, e.index as int)),
        decreases s@.len() - i,
    {
        let b = s[i];
        if !b.is_removed() {
            proof {
                crate::ball::lemma_size_in_bands(b, width as int, height as int);
            }
            let e = Entry { index: i, bounds: b.bounding_box() };
            tree = tree.insert(e);
        }
        i = i + 1;
    }
    tree
}

/// Whether some other live ball touches the live ball at `i`, looking only
/// at the entries whose boxes meet its box.
fn hit_at(s: &Vec<Ball>, tree: &QuadTree, i: usize, width: i64, height: i64) -> (r: bool)
    requires
        arena_ok(width as int, height as int),
        forall|k: int| 0 <= k < s@.len() ==> (#[trigger] s@[k]).wf(width as int, height as int),
        tree.wf(),
        forall|e: Entry|
            #[trigger] tree.contents().contains(e) <==> (0 <= e.index < s@.len() && live(
                s@[e.index as int],
            ) && e == entry_of(s@, e.index as int)),
        i < s@.len(),
        live(s@[i as int]),
    ensures
        r == is_hit(s@, i as int),
{
    let n: usize = s.len();
    let me = s[i];
    proof {
        crate::ball::lemma_size_in_bands(me, width as int, height as int);
    }
    let q = me.bounding_box();
    let near = tree.query_region(&q);
    let mut found = false;
    let mut k: usize = 0;
    while k < near.len()
        invariant
            arena_ok(width as int, height as int),
            forall|m: int| 0 <= m < s@.len() ==> (#[trigger] s@[m]).wf(width as int, height as int),
            forall|e: Entry|
                #[trigger] tree.contents().contains(e) <==> (0 <= e.index < s@.len() && live(
                    s@[e.index as int],
                ) && e == entry_of(s@, e.index as int)),
            near@.to_set() == meeting(tree.contents(), q),
            i < s@.len(),
            me == s@[i as int],
            live(me),
            k <= near@.len(),
            found ==> is_hit(s@, i as int),
            !found ==> forall|m: int|
                0 <= m < k ==> !(near@[m].index != i && touching(
                    me,
                    #[trigger] s@[near@[m].index as int],
                )),
        decreases near@.len() - k,
    {
        let e = near[k];
        assert(near@.to_set().contains(e));
        assert(tree.contents().contains(e));
        if e.index != i {
            let other = s[e.index];
            if me.collides_with(&other) {
                found = true;
            }
        }
        k = k + 1;
    }
    if !found {
        assert forall|j: int|
            0 <= j < s@.len() && j != i && live(#[trigger] s@[j]) implies !touching(
            me,
            s@[j],
        ) by {
            if touching(me, s@[j]) {
                let e = entry_of(s@, j);
                assert(j < n);
                assert(e.index as int == j);
                assert(tree.contents().contains(e));
                lemma_touching_boxes(me, s@[j]);
                assert(meeting(tree.contents(), q).contains(e));
                assert(near@.to_set().contains(e));
                let m = choose|m: int| 0 <= m < near@.len() && near@[m] == e;
                assert(!(near@[m].index != i && touching(me, s@[near@[m].index as int])));
            }
        }
    }
    found
}

/// Ignites each ball whose flag is set.
fn apply_hits(s: &Vec<Ball>, hits: &Vec<bool>, width: i64, height: i64) -> (r: Vec<Ball>)
    requires
        hits@.len() == s@.len(),
        forall|i: int| 0 <= i < s@.len() ==> #[trigger] hits@[i] == is_hit(s@, i),
        forall|i: int| 0 <= i < s@.len() ==> (#[trigger] s@[i]).wf(width as int, height as int),
    ensures
        r@ == resolved(s@),
        forall|i: int| 0 <= i < r@.len() ==> (#[trigger] r@[i]).wf(width as int, height as int),
{
    let mut r: Vec<Ball> = Vec::new();
    let mut i: usize = 0;
    while i < s.len()
        invariant
            hits@.len() == s@.len(),
            forall|k: int| 0 <= k < s@.len() ==> #[trigger] hits@[k] == is_hit(s@, k),
            forall|k: int| 0 <= k < s@.len() ==> (#[trigger] s@[k]).wf(width as int, height as int),
            i <= s@.len(),
            r@.len() == i,
            forall|k: int| 0 <= k < i ==> #[trigger] r@[k] == resolved(s@)[k],
            forall|k: int| 0 <= k < i ==> (#[trigger] r@[k]).wf(width as int, height as int),
        decreases s@.len() - i,
    {
        let mut b = s[i];
        if hits[i] {
            b.ignite();
        }
        r.push(b);
        i = i + 1;
    }
    assert(r@ =~= resolved(s@));
    r
}

/// The live balls of `s`, in order.
fn drop_removed(s: &Vec<Ball>, width: i64, height: i64) -> (r: Vec<Ball>)
    requires
        forall|i: int| 0 <= i < s@.len() ==> (#[trigger] s@[i]).wf(width as int, height as int),
    ensures
        r@ == s@.filter(|b: Ball| live(b)),
        forall|i: int|
            0 <= i < r@.len() ==> (#[trigger] r@[i]).wf(width as int, height as int) && live(
                r@[i],
            ),
{
    let mut r: Vec<Ball> = Vec::new();
    let mut i: usize = 0;
    while i < s.len()
        invariant
            forall|k: int| 0 <= k < s@.len() ==> (#[trigger] s@[k]).wf(width as int, height as int),
            i <= s@.len(),
            r@ == s@.subrange(0, i as int).filter(|b: Ball| live(b)),
            forall|k: int|
                0 <= k < r@.len() ==> (#[trigger] r@[k]).wf(width as int, height as int) && live(
                    r@[k],
                ),
        decreases s@.len() - i,
    {
        let b = s[i];
        proof {
            let next = s@.subrange(0, i + 1);
            assert(next.drop_last() == s@.subrange(0, i as int));
            assert(next.last() == b);
            reveal(Seq::filter);
        }
        if !b.is_removed() {
            r.push(b);
        }
        i = i + 1;
    }
    assert(s@.subrange(0, s@.len() as int) == s@);
    r
}

/// A tick leaves no removed ball behind.
pub proof fn lemma_ticked_all_live(s: Seq<Ball>, width: int, height: int)
    ensures
        forall|k: int|
            0 <= k < ticked(s, width, height).len() ==> live(#[trigger] ticked(s, width, height)[k]),
{
    let t = resolved(advanced_all(s, width, height));
    assert forall|k: int| 0 <= k < ticked(s, width, height).len() implies live(
        #[trigger] ticked(s, width, height)[k],
    ) by {
        t.lemma_filter_pred(|b: Ball| live(b), k);
    }
}

/// A ball alone in the arena that stays live is, after a tick, exactly the
/// ball advanced by one step: nothing else touches it.
pub proof fn lemma_lone_ball_tick(b: Ball, width: int, height: int)
    requires
        live(advanced(b, width, height)),
    ensures
        ticked(seq![b], width, height) == seq![advanced(b, width, height)],
{
    let a = advanced_all(seq![b], width, height);
    assert(a =~= seq![advanced(b, width, height)]);
    assert(!is_hit(a, 0));
    let r = resolved(a);
    assert(r =~= seq![advanced(b, width, height)]);
    reveal_with_fuel(Seq::filter, 2);
    assert(r.drop_last() =~= Seq::<Ball>::empty());
    assert(ticked(seq![b], width, height) =~= seq![advanced(b, width, height)]);
}

} // verus!
