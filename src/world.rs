use vstd::prelude::*;

use crate::ball::Ball;
use crate::geometry::{in_limit, Vec2};
use crate::paddle::{MovementDirection, Paddle, Side};

verus! {

pub const FIELD_WIDTH: i64 = 640;
pub const FIELD_HEIGHT: i64 = 400;
pub const PADDLE_WIDTH: i64 = 12;
pub const PADDLE_HEIGHT: i64 = 128;
/// Gap between a paddle and the side edge of the field behind it.
pub const PADDLE_MARGIN: i64 = 20;
pub const PADDLE_SPEED: i64 = 2;
pub const BALL_SPEED_X: i64 = 2;
pub const BALL_SPEED_Y: i64 = 1;

/// What a world is: the ball, the paddles, which paddle the player steers,
/// the dimensions the renderer reads, and the current movement command.
pub struct WorldModel {
    pub ball: Ball,
    pub paddles: Seq<Paddle>,
    pub player: int,
    pub paddle_width: i64,
    pub paddle_height: i64,
    pub width: i64,
    pub height: i64,
    pub movement: MovementDirection,
}

/// Whether the ball is in the half of its box on `side`.
pub open spec fn on_side(ball: Ball, side: Side) -> bool {
    match side {
        Side::Left => ball.position.x - ball.left <= ball.right - ball.position.x,
        Side::Right => ball.position.x - ball.left >= ball.right - ball.position.x,
    }
}

/// Whether the ball is in contact with paddle `p` of width `width`: it is on
/// the paddle's half, has reached the paddle's facing edge, and lies within
/// the paddle's vertical span, all bounds inclusive.
pub open spec fn touches(ball: Ball, p: Paddle, width: int) -> bool {
    &&& on_side(ball, p.side)
    &&& match p.side {
        Side::Left => ball.position.x <= p.position.x + width,
        Side::Right => ball.position.x >= p.position.x,
    }
    &&& p.position.y <= ball.position.y <= p.position.y + p.height
}

impl WorldModel {
    pub open spec fn wf(self) -> bool {
        &&& self.ball.wf()
        &&& 0 <= self.player < self.paddles.len()
        &&& 0 < self.paddle_width && in_limit(self.paddle_width)
        &&& self.ball.top == 0 && self.ball.bottom == self.height
        &&& forall|i: int|
            0 <= i < self.paddles.len() ==> #[trigger] self.paddles[i].wf()
                && self.fits(self.paddles[i])
    }

    /// Paddle `p` has the world's paddle height, shares the ball's walls, and
    /// its facing edge is the ball's contact line on its side.
    pub open spec fn fits(self, p: Paddle) -> bool {
        &&& p.height == self.paddle_height
        &&& p.top == self.ball.top && p.bottom == self.ball.bottom
        &&& match p.side {
            Side::Left => self.ball.left == p.position.x + self.paddle_width,
            Side::Right => self.ball.right == p.position.x,
        }
    }

    /// Whether some paddle is in contact with the ball.
    pub open spec fn touching(self) -> bool {
        exists|i: int|
            0 <= i < self.paddles.len() && #[trigger] touches(self.ball, self.paddles[i], self.paddle_width as int)
    }

    /// One tick: the player's paddle moves under the current command, then the
    /// ball moves, told whether a paddle touches it after that move.
    pub open spec fn next(self) -> WorldModel {
        let moved = WorldModel {
            paddles: self.paddles.update(self.player, self.paddles[self.player].moved(self.movement)),
            ..self
        };
        WorldModel { ball: moved.ball.stepped(moved.touching()), ..moved }
    }

    /// The world after `n` ticks.
    pub open spec fn steps(self, n: nat) -> WorldModel
        decreases n,
    {
        if n == 0 {
            self
        } else {
            self.steps((n - 1) as nat).next()
        }
    }
}

/// An axis-aligned rectangle: top-left corner and size.
#[derive(Clone, Copy, Debug, PartialEq, Eq, Structural)]
pub struct Rect {
    pub x: i64,
    pub y: i64,
    pub w: i64,
    pub h: i64,
}

/// The simulation state: it owns the ball and the paddles.
pub struct World {
    pub ball: Ball,
    pub paddles: Vec<Paddle>,
    pub player: usize,
    pub paddle_width: i64,
    pub paddle_height: i64,
    pub width: i64,
    pub height: i64,
    pub movement: MovementDirection,
}

impl View for World {
    type V = WorldModel;

    open spec fn view(&self) -> WorldModel {
        WorldModel {
            ball: self.ball,
            paddles: self.paddles@,
            player: self.player as int,
            paddle_width: self.paddle_width,
            paddle_height: self.paddle_height,
            width: self.width,
            height: self.height,
            movement: self.movement,
        }
    }
}

/// The left paddle of a fresh world.
pub open spec fn initial_left_paddle() -> Paddle {
    Paddle {
        position: Vec2 { x: PADDLE_MARGIN, y: ((FIELD_HEIGHT - PADDLE_HEIGHT) / 2) as i64 },
        height: PADDLE_HEIGHT,
        speed: PADDLE_SPEED,
        top: 0,
        bottom: FIELD_HEIGHT,
        side: Side::Left,
    }
}

/// The right paddle of a fresh world.
pub open spec fn initial_right_paddle() -> Paddle {
    Paddle {
        position: Vec2 {
            x: (FIELD_WIDTH - PADDLE_MARGIN - PADDLE_WIDTH) as i64,
            y: ((FIELD_HEIGHT - PADDLE_HEIGHT) / 2) as i64,
        },
        height: PADDLE_HEIGHT,
        speed: PADDLE_SPEED,
        top: 0,
        bottom: FIELD_HEIGHT,
        side: Side::Right,
    }
}

/// A fresh world: the ball at the center, heading right and down, the two
/// paddles centered vertically, the left one steered, no movement.
pub open spec fn initial_world() -> WorldModel {
    WorldModel {
        ball: Ball {
            position: Vec2 { x: (FIELD_WIDTH / 2) as i64, y: (FIELD_HEIGHT / 2) as i64 },
            velocity: Vec2 { x: BALL_SPEED_X, y: BALL_SPEED_Y },
            left: (PADDLE_MARGIN + PADDLE_WIDTH) as i64,
            right: (FIELD_WIDTH - PADDLE_MARGIN - PADDLE_WIDTH) as i64,
            top: 0,
            bottom: FIELD_HEIGHT,
        },
        paddles: seq![initial_left_paddle(), initial_right_paddle()],
        player: 0,
        paddle_width: PADDLE_WIDTH,
        paddle_height: PADDLE_HEIGHT,
        width: FIELD_WIDTH,
        height: FIELD_HEIGHT,
        movement: MovementDirection::Idle,
    }
}

impl World {
    pub fn new() -> (r: World)
        ensures
            r@ == initial_world(),
            r@.wf(),
    {
        let paddle_y = (FIELD_HEIGHT - PADDLE_HEIGHT) / 2;
        let left = Paddle::new(PADDLE_MARGIN, paddle_y, PADDLE_HEIGHT, PADDLE_SPEED, 0, FIELD_HEIGHT, Side::Left);
        let right = Paddle::new(
            FIELD_WIDTH - PADDLE_MARGIN - PADDLE_WIDTH,
            paddle_y,
            PADDLE_HEIGHT,
            PADDLE_SPEED,
            0,
            FIELD_HEIGHT,
            Side::Right,
        );
        let mut paddles: Vec<Paddle> = Vec::new();
        paddles.push(left);
        paddles.push(right);
        let ball = Ball::new(
            Vec2 { x: FIELD_WIDTH / 2, y: FIELD_HEIGHT / 2 },
            Vec2 { x: BALL_SPEED_X, y: BALL_SPEED_Y },
            PADDLE_MARGIN + PADDLE_WIDTH,
            FIELD_WIDTH - PADDLE_MARGIN - PADDLE_WIDTH,
            0,
            FIELD_HEIGHT,
        );
        let r = World {
            ball,
            paddles,
            player: 0,
            paddle_width: PADDLE_WIDTH,
            paddle_height: PADDLE_HEIGHT,
            width: FIELD_WIDTH,
            height: FIELD_HEIGHT,
            movement: MovementDirection::Idle,
        };
        assert(left == initial_left_paddle());
        assert(right == initial_right_paddle());
        assert(r@.paddles =~= initial_world().paddles);
        r
    }

    /// The rectangle that paddle `i` covers, for drawing.
    pub fn paddle_rect(&self, i: usize) -> (r: Rect)
        requires
            i < self.paddles.len(),
        ensures
            r == (Rect {
                x: self.paddles@[i as int].position.x,
                y: self.paddles@[i as int].position.y,
                w: self.paddle_width,
                h: self.paddle_height,
            }),
    {
        let p = self.paddles[i];
        Rect { x: p.position.x, y: p.position.y, w: self.paddle_width, h: self.paddle_height }
    }

    /// Stores the command that steers the player's paddle from the next tick on.
    pub fn set_movement(&mut self, direction: MovementDirection)
        ensures
            final(self)@ == (WorldModel { movement: direction, ..old(self)@ }),
    {
        self.movement = direction;
    }

    /// Whether some paddle is in contact with the ball.
    pub fn ball_touches_paddle(&self) -> (r: bool)
        requires
            self@.wf(),
        ensures
            r == self@.touching(),
    {
        let mut i: usize = 0;
        while i < self.paddles.len()
            invariant
                self@.wf(),
                0 <= i <= self.paddles.len(),
                forall|j: int| 0 <= j < i ==> !touches(self.ball, #[trigger] self.paddles@[j], self.paddle_width as int),
            decreases self.paddles.len() - i,
        {
            let p = self.paddles[i];
            assert(self.paddles@[i as int].wf());
            let x = self.ball.position.x;
            let y = self.ball.position.y;
            let dist_left = x - self.ball.left;
            let dist_right = self.ball.right - x;
            let reaches = match p.side {
                Side::Left => dist_left <= dist_right && x <= p.position.x + self.paddle_width,
                Side::Right => dist_left >= dist_right && x >= p.position.x,
            };
            if reaches && p.position.y <= y && y <= p.position.y + p.height {
                assert(touches(self.ball, self.paddles@[i as int], self.paddle_width as int));
                return true;
            }
            i += 1;
        }
        false
    }

    /// Advances the world one tick.
    pub fn update(&mut self)
        requires
            old(self)@.wf(),
        ensures
            final(self)@ == old(self)@.next(),
            final(self)@.wf(),
    {
        let i = self.player;
        let mut p = self.paddles[i];
        p.update(self.movement);
        self.paddles.set(i, p);
        assert(self@.paddles =~= old(self)@.paddles.update(i as int, old(self)@.paddles[i as int].moved(old(self).movement)));
        assert forall|j: int| 0 <= j < self@.paddles.len() implies #[trigger] self@.paddles[j].wf()
            && self@.fits(self@.paddles[j]) by {
            if j != i as int {
                assert(old(self)@.paddles[j].wf());
                assert(self@.paddles[j] == old(self)@.paddles[j]);
            } else {
                assert(old(self)@.paddles[j].wf());
                assert(self@.paddles[j] == p);
            }
        }
        assert(self@.wf());
        let touching = self.ball_touches_paddle();
        self.ball.update(touching);
        proof {
            lemma_next_wf(old(self)@);
        }
    }
}

/// Every tick keeps the world well formed: the paddles stay inside the field
/// and the ball stays between the walls, whatever the movement command.
pub proof fn lemma_world_stays_in_field(w: WorldModel, n: nat)
    requires
        w.wf(),
    ensures
        w.steps(n).wf(),
        forall|i: int| 0 <= i < w.steps(n).paddles.len() ==>
            w.steps(n).paddles[i].top <= #[trigger] w.steps(n).paddles[i].position.y <= w.steps(n).paddles[i].lowest_y(),
        w.steps(n).ball.top <= w.steps(n).ball.position.y <= w.steps(n).ball.bottom,
    decreases n,
{
    if n > 0 {
        lemma_world_stays_in_field(w, (n - 1) as nat);
        lemma_next_wf(w.steps((n - 1) as nat));
    }
    let s = w.steps(n);
    assert forall|i: int| 0 <= i < s.paddles.len() implies
        s.paddles[i].top <= #[trigger] s.paddles[i].position.y <= s.paddles[i].lowest_y() by {
        assert(s.paddles[i].wf());
    }
}

/// One tick keeps the world well formed.
pub proof fn lemma_next_wf(w: WorldModel)
    requires
        w.wf(),
    ensures
        w.next().wf(),
{
    let p = w.paddles[w.player];
    assert(p.wf());
    let n = w.next();
    assert(n.ball.left == w.ball.left && n.ball.right == w.ball.right);
    assert forall|j: int| 0 <= j < n.paddles.len() implies #[trigger] n.paddles[j].wf()
        && n.fits(n.paddles[j]) by {
        if j != w.player {
            assert(w.paddles[j].wf());
        }
    }
}

/// Ticks compose: `a` ticks followed by `b` ticks are `a + b` ticks.
pub proof fn lemma_steps_add(w: WorldModel, a: nat, b: nat)
    ensures
        w.steps(a).steps(b) == w.steps(a + b),
    decreases b,
{
    if b > 0 {
        lemma_steps_add(w, a, (b - 1) as nat);
        assert((a + b - 1) as nat == a + (b - 1) as nat);
    }
}

/// Contact is inclusive at the paddle's edges: a ball on the paddle's half,
/// at the paddle's facing edge and level with its top or bottom end, touches it.
pub proof fn lemma_contact_inclusive(ball: Ball, p: Paddle, width: int)
    requires
        on_side(ball, p.side),
        ball.position.x == match p.side {
            Side::Left => p.position.x + width,
            Side::Right => p.position.x as int,
        },
        ball.position.y == p.position.y || ball.position.y == p.position.y + p.height,
        0 < p.height,
    ensures
        touches(ball, p, width),
{
}

} // verus!
