//! A ball: its motion with wall bounces, and its lifecycle from growing
//! through exploding and shrinking to removal.
use vstd::prelude::*;

use crate::constants::{COLOSSAL, COORD_LIMIT, EXPLODES, FULL, GROWS, SHRINK, TINY};
use crate::geometry::{Point, Rect};

verus! {

/// Where a ball stands in its lifecycle.
#[derive(Clone, Copy, Debug, PartialEq, Eq, Structural)]
pub enum Phase {
    Growing,
    Exploding,
    Shrinking,
    Removed,
}

/// A circular entity: `size` is its radius.
#[derive(Clone, Copy, Debug, PartialEq, Eq, Structural)]
pub struct Ball {
    pub position: Point,
    pub velocity: Point,
    pub size: i64,
    pub phase: Phase,
}

/// The sizes each phase admits. A shrinking ball started from `COLOSSAL` and
/// lost whole steps of `SHRINK` since.
pub open spec fn size_fits_phase(size: int, phase: Phase) -> bool {
    match phase {
        Phase::Growing => TINY <= size < FULL,
        Phase::Exploding => TINY <= size < COLOSSAL,
        Phase::Shrinking => 0 < size <= COLOSSAL && (COLOSSAL - size) % (-SHRINK) == 0,
        Phase::Removed => SHRINK < size <= 0,
    }
}

/// Size and phase after one tick without collision.
pub open spec fn grown(size: int, phase: Phase) -> (int, Phase) {
    match phase {
        Phase::Growing => if size + GROWS >= FULL {
            (size + GROWS, Phase::Exploding)
        } else {
            (size + GROWS, Phase::Growing)
        },
        Phase::Exploding => if size + EXPLODES >= COLOSSAL {
            (COLOSSAL as int, Phase::Shrinking)
        } else {
            (size + EXPLODES, Phase::Exploding)
        },
        Phase::Shrinking => if size + SHRINK <= 0 {
            (size + SHRINK, Phase::Removed)
        } else {
            (size + SHRINK, Phase::Shrinking)
        },
        Phase::Removed => (size, Phase::Removed),
    }
}

/// The velocity along one axis after a wall check: it is reversed when the
/// next step would carry the ball's extent past a wall it is moving toward.
pub open spec fn bounced(pos: int, vel: int, size: int, limit: int) -> int {
    if (pos + vel - size < 0 && vel < 0) || (pos + vel + size > limit && vel > 0) {
        -vel
    } else {
        vel
    }
}

pub open spec fn clamp(v: int, lo: int, hi: int) -> int {
    if v < lo {
        lo
    } else if v > hi {
        hi
    } else {
        v
    }
}

/// The position along one axis after a step: moved by the checked velocity,
/// and kept within `[0, limit]`.
pub open spec fn stepped(pos: int, vel: int, size: int, limit: int) -> int {
    clamp(pos + bounced(pos, vel, size, limit), 0, limit)
}

/// The ball after one tick in an arena of the given size, collisions aside.
pub open spec fn advanced(b: Ball, width: int, height: int) -> Ball {
    if b.phase == Phase::Removed {
        b
    } else {
        let (s, p) = grown(b.size as int, b.phase);
        Ball {
            position: Point {
                x: stepped(b.position.x as int, b.velocity.x as int, b.size as int, width) as i64,
                y: stepped(b.position.y as int, b.velocity.y as int, b.size as int, height) as i64,
            },
            velocity: Point {
                x: bounced(b.position.x as int, b.velocity.x as int, b.size as int, width) as i64,
                y: bounced(b.position.y as int, b.velocity.y as int, b.size as int, height) as i64,
            },
            size: s as i64,
            phase: p,
        }
    }
}

/// The ball after a collision: a growing ball starts exploding.
pub open spec fn ignited(b: Ball) -> Ball {
    if b.phase == Phase::Growing {
        Ball { phase: Phase::Exploding, ..b }
    } else {
        b
    }
}

/// The two balls' circles overlap.
pub open spec fn touching(a: Ball, b: Ball) -> bool {
    let dx = a.position.x - b.position.x;
    let dy = a.position.y - b.position.y;
    let rs = a.size + b.size;
    dx * dx + dy * dy < rs * rs
}

/// The square `[x - size, x + size] x [y - size, y + size]` around a ball.
pub open spec fn bounds_of(b: Ball) -> Rect {
    Rect {
        x: (b.position.x - b.size) as i64,
        y: (b.position.y - b.size) as i64,
        w: (2 * b.size) as i64,
        h: (2 * b.size) as i64,
    }
}

pub open spec fn arena_ok(width: int, height: int) -> bool {
    0 <= width <= COORD_LIMIT && 0 <= height <= COORD_LIMIT
}

impl Ball {
    /// The center lies in the arena, each velocity component is within
    /// `COORD_LIMIT`, and the size fits the phase.
    pub open spec fn wf(self, width: int, height: int) -> bool {
        &&& 0 <= self.position.x <= width
        &&& 0 <= self.position.y <= height
        &&& -COORD_LIMIT <= self.velocity.x <= COORD_LIMIT
        &&& -COORD_LIMIT <= self.velocity.y <= COORD_LIMIT
        &&& size_fits_phase(self.size as int, self.phase)
    }

    pub open spec fn new_spec(position: Point, velocity: Point) -> Ball {
        Ball { position, velocity, size: TINY, phase: Phase::Growing }
    }

    /// A fresh ball: size `TINY`, growing.
    pub fn new(position: Point, velocity: Point) -> (r: Ball)
        ensures
            r == Ball::new_spec(position, velocity),
    {
        Ball { position, velocity, size: TINY, phase: Phase::Growing }
    }

    pub fn is_removed(&self) -> (r: bool)
        ensures
            r == (self.phase == Phase::Removed),
    {
        match self.phase {
            Phase::Removed => true,
            _ => false,
        }
    }

    /// Advances the ball by one tick: bounce off the walls, move, then grow,
    /// explode or shrink as the phase says. A removed ball stays as it is.
    pub fn advance(&mut self, width: i64, height: i64)
        requires
            arena_ok(width as int, height as int),
            old(self).wf(width as int, height as int),
        ensures
            *final(self) == advanced(*old(self), width as int, height as int),
            final(self).wf(width as int, height as int),
    {
        if self.is_removed() {
            return ;
        }
        let (x, vx) = step_axis(self.position.x, self.velocity.x, self.size, width);
        let (y, vy) = step_axis(self.position.y, self.velocity.y, self.size, height);
        self.position = Point { x, y };
        self.velocity = Point { x: vx, y: vy };
        self.grow();
    }

    /// One lifecycle step of size and phase.
    fn grow(&mut self)
        requires
            size_fits_phase(old(self).size as int, old(self).phase),
        ensures
            (final(self).size as int, final(self).phase) == grown(
                old(self).size as int,
                old(self).phase,
            ),
            final(self).position == old(self).position,
            final(self).velocity == old(self).velocity,
            size_fits_phase(final(self).size as int, final(self).phase),
    {
        match self.phase {
            Phase::Growing => {
                self.size = self.size + GROWS;
                if self.size >= FULL {
                    self.phase = Phase::Exploding;
                }
            },
            Phase::Exploding => {
                if self.size + EXPLODES >= COLOSSAL {
                    self.size = COLOSSAL;
                    self.phase = Phase::Shrinking;
                } else {
                    self.size = self.size + EXPLODES;
                }
            },
            Phase::Shrinking => {
                self.size = self.size + SHRINK;
                if self.size <= 0 {
                    self.phase = Phase::Removed;
                }
            },
            Phase::Removed => {},
        }
    }

    /// A growing ball that was hit starts exploding.
    pub fn ignite(&mut self)
        ensures
            *final(self) == ignited(*old(self)),
    {
        if let Phase::Growing = self.phase {
            self.phase = Phase::Exploding;
        }
    }

    /// The circles of the two balls overlap.
    pub fn collides_with(&self, other: &Ball) -> (r: bool)
        requires
            self.wf(COORD_LIMIT as int, COORD_LIMIT as int),
            other.wf(COORD_LIMIT as int, COORD_LIMIT as int),
        ensures
            r == touching(*self, *other),
    {
        let dx = self.position.x - other.position.x;
        let dy = self.position.y - other.position.y;
        let rs = self.size + other.size;
        proof {
            lemma_square_bound(dx as int, 1000000);
            lemma_square_bound(dy as int, 1000000);
            lemma_square_bound(rs as int, 176);
        }
        dx * dx + dy * dy < rs * rs
    }

    /// The square around the ball that its circle touches.
    pub fn bounding_box(&self) -> (r: Rect)
        requires
            self.wf(COORD_LIMIT as int, COORD_LIMIT as int),
        ensures
            r == bounds_of(*self),
    {
        Rect {
            x: self.position.x - self.size,
            y: self.position.y - self.size,
            w: 2 * self.size,
            h: 2 * self.size,
        }
    }
}

pub(crate) proof fn lemma_square_bound(v: int, m: int)
    requires
        -m <= v <= m,
    ensures
        0 <= v * v <= m * m,
{
    assert(0 <= v * v <= m * m) by (nonlinear_arith)
        requires
            -m <= v <= m,
    ;
}

/// One axis of a step: the checked velocity and the new position.
fn step_axis(pos: i64, vel: i64, size: i64, limit: i64) -> (r: (i64, i64))
    requires
        0 <= pos <= limit <= COORD_LIMIT,
        -COORD_LIMIT <= vel <= COORD_LIMIT,
        SHRINK < size <= COLOSSAL,
    ensures
        r.0 == stepped(pos as int, vel as int, size as int, limit as int),
        r.1 == bounced(pos as int, vel as int, size as int, limit as int),
{
    let next = pos + vel;
    let v = if (next - size < 0 && vel < 0) || (next + size > limit && vel > 0) {
        -vel
    } else {
        vel
    };
    let moved = pos + v;
    let p = if moved < 0 {
        0
    } else if moved > limit {
        limit
    } else {
        moved
    };
    (p, v)
}

/// Away from collisions, a ball whose next extent stays inside the arena
/// moves by exactly its velocity, keeps its velocity, and changes size only
/// by its phase's rate.
pub proof fn lemma_free_flight(b: Ball, width: int, height: int)
    requires
        arena_ok(width, height),
        b.wf(width, height),
        b.phase != Phase::Removed,
        0 <= b.position.x + b.velocity.x - b.size,
        b.position.x + b.velocity.x + b.size <= width,
        0 <= b.position.y + b.velocity.y - b.size,
        b.position.y + b.velocity.y + b.size <= height,
    ensures
        advanced(b, width, height).position.x == b.position.x + b.velocity.x,
        advanced(b, width, height).position.y == b.position.y + b.velocity.y,
        advanced(b, width, height).velocity == b.velocity,
        advanced(b, width, height).size == grown(b.size as int, b.phase).0,
        b.phase == Phase::Growing ==> advanced(b, width, height).size == b.size + GROWS
            || advanced(b, width, height).size == FULL,
        b.phase == Phase::Exploding ==> advanced(b, width, height).size == b.size + EXPLODES
            || advanced(b, width, height).size == COLOSSAL,
        b.phase == Phase::Shrinking ==> advanced(b, width, height).size == b.size + SHRINK,
{
}

/// A ball about to pass the right wall while moving right has its horizontal
/// velocity reversed, and no step takes a center out of the arena.
pub proof fn lemma_wall_bounce(b: Ball, width: int, height: int)
    requires
        arena_ok(width, height),
        b.wf(width, height),
        b.phase != Phase::Removed,
        b.velocity.x > 0,
        b.position.x + b.velocity.x + b.size > width,
    ensures
        advanced(b, width, height).velocity.x == -b.velocity.x,
        0 <= advanced(b, width, height).position.x <= width,
        0 <= advanced(b, width, height).position.y <= height,
{
}

/// Every live ball's size lies between `TINY` and `COLOSSAL`.
pub proof fn lemma_size_in_bands(b: Ball, width: int, height: int)
    requires
        b.wf(width, height),
        b.phase != Phase::Removed,
    ensures
        TINY <= b.size <= COLOSSAL,
{
}

/// A growing ball that reaches `FULL` is exploding after that tick; a
/// shrinking ball whose size would reach zero is removed.
pub proof fn lemma_lifecycle_progress(b: Ball, width: int, height: int)
    requires
        b.wf(width, height),
    ensures
        b.phase == Phase::Growing && b.size + GROWS >= FULL ==> advanced(b, width, height).phase
            == Phase::Exploding,
        b.phase == Phase::Shrinking && b.size + SHRINK <= 0 ==> advanced(b, width, height).phase
            == Phase::Removed,
{
}

} // verus!
