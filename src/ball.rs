use vstd::prelude::*;

use crate::geometry::{clamp, clamp_i64, in_limit, Vec2};

verus! {

/// The ball: its position, its displacement per tick, and the box it moves in.
/// `left` and `right` are the contact lines in front of the two paddles;
/// `top` and `bottom` are the walls.
#[derive(Clone, Copy, Debug, PartialEq, Eq, Structural)]
pub struct Ball {
    pub position: Vec2,
    pub velocity: Vec2,
    pub left: i64,
    pub right: i64,
    pub top: i64,
    pub bottom: i64,
}

impl Ball {
    /// The ball lies inside its box, and every quantity is bounded.
    pub open spec fn wf(self) -> bool {
        &&& in_limit(self.left) && in_limit(self.right)
        &&& in_limit(self.top) && in_limit(self.bottom)
        &&& in_limit(self.velocity.x) && in_limit(self.velocity.y)
        &&& self.left <= self.position.x <= self.right
        &&& self.top <= self.position.y <= self.bottom
    }

    /// The middle of the box, where the ball is served from after a miss.
    pub open spec fn center(self) -> Vec2 {
        Vec2 {
            x: (self.left + (self.right - self.left) / 2) as i64,
            y: (self.top + (self.bottom - self.top) / 2) as i64,
        }
    }

    /// The ball stands on a contact line and is heading out of the box.
    pub open spec fn at_contact_line(self) -> bool {
        (self.position.x <= self.left && self.velocity.x < 0)
            || (self.position.x >= self.right && self.velocity.x > 0)
    }

    /// This tick's move would reach or cross a wall.
    pub open spec fn at_wall(self) -> bool {
        (self.position.y + self.velocity.y <= self.top && self.velocity.y < 0)
            || (self.position.y + self.velocity.y >= self.bottom && self.velocity.y > 0)
    }

    /// The ball reached a contact line with no paddle there: a point is lost.
    pub open spec fn misses(self, touches_paddle: bool) -> bool {
        self.at_contact_line() && !touches_paddle
    }

    /// The displacement used for this tick, after any bounce.
    pub open spec fn bounced_velocity(self) -> Vec2 {
        Vec2 {
            x: (if self.at_contact_line() { -self.velocity.x } else { self.velocity.x as int }) as i64,
            y: (if self.at_wall() { -self.velocity.y } else { self.velocity.y as int }) as i64,
        }
    }

    /// The ball after one tick. A wall always reflects it. At a contact line a
    /// touching paddle reflects it; with no paddle it is put back at the
    /// center, keeping its horizontal heading.
    pub open spec fn stepped(self, touches_paddle: bool) -> Ball {
        let v = self.bounced_velocity();
        if self.misses(touches_paddle) {
            Ball { position: self.center(), velocity: Vec2 { x: self.velocity.x, y: v.y }, ..self }
        } else {
            Ball {
                position: Vec2 {
                    x: clamp(self.position.x + v.x, self.left as int, self.right as int) as i64,
                    y: clamp(self.position.y + v.y, self.top as int, self.bottom as int) as i64,
                },
                velocity: v,
                ..self
            }
        }
    }

    pub fn new(position: Vec2, velocity: Vec2, left: i64, right: i64, top: i64, bottom: i64) -> (r: Ball)
        requires
            (Ball { position, velocity, left, right, top, bottom }).wf(),
        ensures
            r.wf(),
            r == (Ball { position, velocity, left, right, top, bottom }),
    {
        Ball { position, velocity, left, right, top, bottom }
    }

    /// Advances the ball one tick; `touches_paddle` tells whether a paddle
    /// stands where the ball meets a contact line.
    pub fn update(&mut self, touches_paddle: bool)
        requires
            old(self).wf(),
        ensures
            *final(self) == old(self).stepped(touches_paddle),
            final(self).wf(),
    {
        let x = self.position.x;
        let y = self.position.y;
        let at_line = (x <= self.left && self.velocity.x < 0) || (x >= self.right && self.velocity.x > 0);
        let vy0 = self.velocity.y;
        let at_wall = (y + vy0 <= self.top && vy0 < 0) || (y + vy0 >= self.bottom && vy0 > 0);
        let vy = if at_wall { -self.velocity.y } else { self.velocity.y };
        if at_line && !touches_paddle {
            self.position = Vec2 {
                x: self.left + (self.right - self.left) / 2,
                y: self.top + (self.bottom - self.top) / 2,
            };
            self.velocity.y = vy;
        } else {
            let vx = if at_line { -self.velocity.x } else { self.velocity.x };
            self.position = Vec2 {
                x: clamp_i64(x + vx, self.left, self.right),
                y: clamp_i64(y + vy, self.top, self.bottom),
            };
            self.velocity = Vec2 { x: vx, y: vy };
        }
    }
}

/// The ball never leaves the band between the walls, tick after tick.
pub proof fn lemma_ball_stays_between_walls(b: Ball, touches_paddle: bool)
    requires
        b.wf(),
    ensures
        b.stepped(touches_paddle).wf(),
        b.top <= b.stepped(touches_paddle).position.y <= b.bottom,
{
}

/// A ball whose move this tick would reach the top wall turns back on that
/// tick: its vertical displacement changes sign and, unless it is served
/// again after a miss, it does not move up, and moves down whenever there is
/// room below.
pub proof fn lemma_top_wall_reflects(b: Ball, touches_paddle: bool)
    requires
        b.wf(),
        b.velocity.y < 0,
        b.position.y + b.velocity.y <= b.top,
    ensures
        b.stepped(touches_paddle).velocity.y == -b.velocity.y,
        b.stepped(touches_paddle).velocity.y > 0,
        b.left < b.position.x < b.right ==> !b.misses(touches_paddle),
        !b.misses(touches_paddle) ==> b.stepped(touches_paddle).position.y >= b.position.y,
        !b.misses(touches_paddle) && b.position.y < b.bottom
            ==> b.stepped(touches_paddle).position.y > b.position.y,
{
}

} // verus!
