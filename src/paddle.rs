use vstd::prelude::*;

use crate::geometry::{clamp, clamp_i64, in_limit, Vec2, COORD_LIMIT};

verus! {

/// The movement command for a paddle during one tick.
#[derive(Clone, Copy, Debug, PartialEq, Eq, Structural)]
pub enum MovementDirection {
    Up,
    Down,
    Idle,
}

/// Which horizontal edge of the field a paddle guards.
#[derive(Clone, Copy, Debug, PartialEq, Eq, Structural)]
pub enum Side {
    Left,
    Right,
}

/// A paddle: its top-left corner, its height, how far it moves per tick and
/// the vertical extent of the field it must stay within.
#[derive(Clone, Copy, Debug, PartialEq, Eq, Structural)]
pub struct Paddle {
    pub position: Vec2,
    pub height: i64,
    pub speed: i64,
    pub top: i64,
    pub bottom: i64,
    pub side: Side,
}

impl Paddle {
    /// The largest `y` the paddle's top edge may take.
    pub open spec fn lowest_y(self) -> int {
        self.bottom - self.height
    }

    /// The paddle lies wholly inside the field, and every quantity is bounded.
    pub open spec fn wf(self) -> bool {
        &&& 0 < self.height
        &&& 0 <= self.speed <= COORD_LIMIT
        &&& in_limit(self.top) && in_limit(self.bottom)
        &&& in_limit(self.position.x)
        &&& self.top <= self.lowest_y()
        &&& self.top <= self.position.y <= self.lowest_y()
    }

    /// The `y` after one tick under `direction`.
    pub open spec fn next_y(self, direction: MovementDirection) -> int {
        match direction {
            MovementDirection::Up => clamp(self.position.y - self.speed, self.top as int, self.lowest_y()),
            MovementDirection::Down => clamp(self.position.y + self.speed, self.top as int, self.lowest_y()),
            MovementDirection::Idle => self.position.y as int,
        }
    }

    /// The paddle after one tick under `direction`: only `y` changes.
    pub open spec fn moved(self, direction: MovementDirection) -> Paddle {
        Paddle {
            position: Vec2 { x: self.position.x, y: self.next_y(direction) as i64 },
            height: self.height,
            speed: self.speed,
            top: self.top,
            bottom: self.bottom,
            side: self.side,
        }
    }

    /// The paddle after one tick for each command of `directions`, in order.
    pub open spec fn moved_all(self, directions: Seq<MovementDirection>) -> Paddle
        decreases directions.len(),
    {
        if directions.len() == 0 {
            self
        } else {
            self.moved_all(directions.drop_last()).moved(directions.last())
        }
    }

    pub fn new(x: i64, y: i64, height: i64, speed: i64, top: i64, bottom: i64, side: Side) -> (r: Paddle)
        requires
            0 < height,
            0 <= speed <= COORD_LIMIT,
            in_limit(top) && in_limit(bottom) && in_limit(x),
            top <= y,
            y + height <= bottom,
        ensures
            r.wf(),
            r == (Paddle { position: Vec2 { x, y }, height, speed, top, bottom, side }),
    {
        Paddle { position: Vec2 { x, y }, height, speed, top, bottom, side }
    }

    /// Moves the paddle one tick: up or down by `speed`, clamped to the field.
    pub fn update(&mut self, direction: MovementDirection)
        requires
            old(self).wf(),
        ensures
            *final(self) == old(self).moved(direction),
            final(self).wf(),
    {
        let lowest = self.bottom - self.height;
        match direction {
            MovementDirection::Up => {
                self.position.y = clamp_i64(self.position.y - self.speed, self.top, lowest);
            },
            MovementDirection::Down => {
                self.position.y = clamp_i64(self.position.y + self.speed, self.top, lowest);
            },
            MovementDirection::Idle => {},
        }
    }
}

/// Whatever the sequence of commands, the paddle stays inside the field.
pub proof fn lemma_paddle_stays_in_field(p: Paddle, directions: Seq<MovementDirection>)
    requires
        p.wf(),
    ensures
        p.moved_all(directions).wf(),
        p.top <= p.moved_all(directions).position.y <= p.lowest_y(),
    decreases directions.len(),
{
    if directions.len() > 0 {
        lemma_paddle_stays_in_field(p, directions.drop_last());
    }
    lemma_moved_all_keeps_field(p, directions);
}

proof fn lemma_moved_all_keeps_field(p: Paddle, directions: Seq<MovementDirection>)
    ensures
        p.moved_all(directions).top == p.top,
        p.moved_all(directions).bottom == p.bottom,
        p.moved_all(directions).height == p.height,
    decreases directions.len(),
{
    if directions.len() > 0 {
        lemma_moved_all_keeps_field(p, directions.drop_last());
    }
}

/// Any number of idle ticks leaves the paddle exactly where it was.
pub proof fn lemma_idle_keeps_paddle(p: Paddle, directions: Seq<MovementDirection>)
    requires
        forall|i: int| 0 <= i < directions.len() ==> directions[i] == MovementDirection::Idle,
    ensures
        p.moved_all(directions) == p,
    decreases directions.len(),
{
    if directions.len() > 0 {
        lemma_idle_keeps_paddle(p, directions.drop_last());
    }
}

} // verus!
