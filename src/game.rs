use vstd::prelude::*;

use crate::paddle::MovementDirection;
use crate::timestep::{lemma_chunking_exact, tick_frames, tick_once, total, FixedStep};
use crate::world::{initial_world, lemma_steps_add, World, WorldModel};

verus! {

pub const NANOS_PER_SECOND: u64 = 1_000_000_000;
pub const UPDATES_PER_SECOND: u64 = 100;

/// A key as far as the game cares.
#[derive(Clone, Copy, Debug, PartialEq, Eq, Structural)]
pub enum Key {
    Up,
    Down,
    Other,
}

/// The game: the world, advanced at a fixed rate by an accumulator of elapsed
/// nanoseconds.
pub struct MyGame {
    pub world: World,
    pub clock: FixedStep,
}

/// The world and the accumulated time after feeding `deltas` one frame at a
/// time to a game holding `world` and `acc`.
pub open spec fn run_frames(world: WorldModel, acc: int, step: int, deltas: Seq<int>) -> (WorldModel, int)
    decreases deltas.len(),
{
    if deltas.len() == 0 {
        (world, acc)
    } else {
        let before = run_frames(world, acc, step, deltas.drop_last());
        let once = tick_once(before.1, step, deltas.last());
        (before.0.steps(once.0 as nat), once.1)
    }
}

/// The movement command after `key` goes down under `current`.
pub open spec fn pressed(current: MovementDirection, key: Key) -> MovementDirection {
    match key {
        Key::Up => MovementDirection::Up,
        Key::Down => MovementDirection::Down,
        Key::Other => current,
    }
}

/// The movement command after `key` goes up under `current`: releasing the
/// key of the current command stops the paddle; any other release changes
/// nothing.
pub open spec fn released(current: MovementDirection, key: Key) -> MovementDirection {
    match (current, key) {
        (MovementDirection::Up, Key::Up) => MovementDirection::Idle,
        (MovementDirection::Down, Key::Down) => MovementDirection::Idle,
        _ => current,
    }
}

impl MyGame {
    pub open spec fn wf(&self) -> bool {
        self.world@.wf() && self.clock.wf()
    }

    /// A fresh world, stepped a hundred times a second.
    pub fn new() -> (r: MyGame)
        ensures
            r.wf(),
            r.world@ == initial_world(),
            r.clock == (FixedStep {
                accumulated_time: 0,
                fixed_time_step: NANOS_PER_SECOND / UPDATES_PER_SECOND,
            }),
    {
        MyGame { world: World::new(), clock: FixedStep::new(NANOS_PER_SECOND / UPDATES_PER_SECOND) }
    }

    /// Takes the nanoseconds elapsed since the last frame and runs as many
    /// world ticks as the accumulated time now covers; returns that count.
    /// Catch-up is not capped: after a long stall one call may run a very
    /// large number of ticks, which keeps the tick count exact for any
    /// split of elapsed time into frames.
    pub fn update(&mut self, delta: u64) -> (ticks: u64)
        requires
            old(self).wf(),
        ensures
            final(self).wf(),
            final(self).clock.fixed_time_step == old(self).clock.fixed_time_step,
            (ticks as int, final(self).clock.accumulated_time as int) == tick_once(
                old(self).clock.accumulated_time as int,
                old(self).clock.fixed_time_step as int,
                delta as int,
            ),
            final(self).world@ == old(self).world@.steps(ticks as nat),
    {
        let ticks = self.clock.advance(delta);
        let ghost start = self.world@;
        let ghost clock = self.clock;
        let mut done: u64 = 0;
        while done < ticks
            invariant
                self.wf(),
                done <= ticks,
                self.clock == clock,
                self.world@ == start.steps(done as nat),
            decreases ticks - done,
        {
            self.world.update();
            done += 1;
        }
        ticks
    }

    /// A key went down: the arrow keys set the paddle's command.
    pub fn key_down(&mut self, key: Key)
        ensures
            final(self).clock == old(self).clock,
            final(self).world@ == (WorldModel { movement: pressed(old(self).world.movement, key), ..old(self).world@ }),
    {
        match key {
            Key::Up => self.world.set_movement(MovementDirection::Up),
            Key::Down => self.world.set_movement(MovementDirection::Down),
            Key::Other => {},
        }
    }

    /// A key went up: releasing the key of the current command stops the paddle.
    pub fn key_up(&mut self, key: Key)
        ensures
            final(self).clock == old(self).clock,
            final(self).world@ == (WorldModel { movement: released(old(self).world.movement, key), ..old(self).world@ }),
    {
        match (self.world.movement, key) {
            (MovementDirection::Up, Key::Up) => self.world.set_movement(MovementDirection::Idle),
            (MovementDirection::Down, Key::Down) => self.world.set_movement(MovementDirection::Idle),
            _ => {},
        }
    }
}

/// Feeding frames to the game ticks the world exactly as often as the
/// accumulator owes: the world ends as after that many ticks.
pub proof fn lemma_run_frames_ticks(world: WorldModel, acc: int, step: int, deltas: Seq<int>)
    requires
        0 < step,
        0 <= acc < step,
        forall|i: int| 0 <= i < deltas.len() ==> 0 <= #[trigger] deltas[i],
    ensures
        0 <= tick_frames(acc, step, deltas).0,
        0 <= tick_frames(acc, step, deltas).1 < step,
        run_frames(world, acc, step, deltas).0 == world.steps(tick_frames(acc, step, deltas).0 as nat),
        run_frames(world, acc, step, deltas).1 == tick_frames(acc, step, deltas).1,
    decreases deltas.len(),
{
    if deltas.len() > 0 {
        let init = deltas.drop_last();
        assert forall|i: int| 0 <= i < init.len() implies 0 <= #[trigger] init[i] by {
            assert(init[i] == deltas[i]);
        }
        lemma_run_frames_ticks(world, acc, step, init);
        let before = tick_frames(acc, step, init);
        let once = tick_once(before.1, step, deltas.last());
        assert(0 <= deltas[deltas.len() - 1]);
        assert(once.0 >= 0) by (nonlinear_arith)
            requires
                once.0 == (before.1 + deltas.last()) / step,
                before.1 >= 0,
                deltas.last() >= 0,
                step > 0,
        ;
        lemma_steps_add(world, before.0 as nat, once.0 as nat);
    }
}

/// Frames whose elapsed times sum to exactly `n` steps, however they are
/// chunked, take a fresh accumulator through exactly `n` world ticks and
/// leave it empty.
pub proof fn lemma_frames_round_trip(world: WorldModel, step: int, deltas: Seq<int>, n: nat)
    requires
        0 < step,
        forall|i: int| 0 <= i < deltas.len() ==> 0 <= #[trigger] deltas[i],
        total(deltas) == n * step,
    ensures
        run_frames(world, 0, step, deltas) == (world.steps(n), 0int),
{
    lemma_run_frames_ticks(world, 0, step, deltas);
    lemma_chunking_exact(step, deltas, n as int);
}

} // verus!
