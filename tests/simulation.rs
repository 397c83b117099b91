use pong::ball::Ball;
use pong::game::{Key, MyGame};
use pong::geometry::{clamp_i64, Vec2};
use pong::paddle::{MovementDirection, Paddle, Side};
use pong::timestep::FixedStep;
use pong::world::{Rect, World};

fn field_ball(x: i64, y: i64, vx: i64, vy: i64) -> Ball {
    Ball::new(Vec2 { x, y }, Vec2 { x: vx, y: vy }, 32, 608, 0, 400)
}

#[test]
fn clamp_keeps_inside_values() {
    assert_eq!(clamp_i64(5, 0, 10), 5);
    assert_eq!(clamp_i64(-3, 0, 10), 0);
    assert_eq!(clamp_i64(12, 0, 10), 10);
}

#[test]
fn paddle_down_clamps_at_field_bottom() {
    let mut p = Paddle::new(20, 100, 128, 2, 0, 400, Side::Left);
    for _ in 0..300 {
        p.update(MovementDirection::Down);
        assert!(p.position.y <= 400 - 128);
        assert!(p.position.y >= 0);
    }
    assert_eq!(p.position.y, 272);
    assert_eq!(p.position.x, 20);
}

#[test]
fn paddle_up_clamps_at_field_top() {
    let mut p = Paddle::new(20, 3, 128, 2, 0, 400, Side::Left);
    p.update(MovementDirection::Up);
    assert_eq!(p.position.y, 1);
    p.update(MovementDirection::Up);
    assert_eq!(p.position.y, 0);
    p.update(MovementDirection::Up);
    assert_eq!(p.position.y, 0);
}

#[test]
fn paddle_idle_never_moves() {
    let mut p = Paddle::new(20, 77, 128, 2, 0, 400, Side::Left);
    for _ in 0..50 {
        p.update(MovementDirection::Idle);
        assert_eq!(p.position.y, 77);
    }
}

#[test]
fn paddle_stays_in_field_under_mixed_commands() {
    let mut p = Paddle::new(20, 136, 128, 7, 0, 400, Side::Left);
    let commands = [MovementDirection::Up, MovementDirection::Down, MovementDirection::Idle];
    for i in 0..500usize {
        p.update(commands[(i * 7 + i / 13) % 3]);
        assert!(p.position.y >= 0 && p.position.y <= 272);
    }
}

#[test]
fn ball_at_contact_line_with_paddle_reverses() {
    let mut b = field_ball(32, 100, -2, 1);
    b.update(true);
    assert_eq!(b.velocity.x, 2);
    assert_eq!(b.position, Vec2 { x: 34, y: 101 });
}

#[test]
fn ball_at_contact_line_without_paddle_is_served_again() {
    let mut b = field_ball(32, 100, -2, 1);
    b.update(false);
    assert_eq!(b.position, Vec2 { x: 320, y: 200 });
    assert_eq!(b.velocity, Vec2 { x: -2, y: 1 });
}

#[test]
fn ball_moving_up_reflects_at_top_wall() {
    let mut b = field_ball(300, 1, 2, -3);
    b.update(false);
    assert_eq!(b.velocity.y, 3);
    assert_eq!(b.position, Vec2 { x: 302, y: 4 });
    b.update(false);
    assert_eq!(b.position, Vec2 { x: 304, y: 7 });
}

#[test]
fn ball_on_top_wall_moving_up_turns_down() {
    let mut b = field_ball(320, 0, 2, -1);
    b.update(false);
    assert_eq!(b.velocity.y, 1);
    assert_eq!(b.position, Vec2 { x: 322, y: 1 });
}

#[test]
fn ball_moving_down_reflects_at_bottom_wall() {
    let mut b = field_ball(300, 399, 2, 3);
    b.update(false);
    assert_eq!(b.velocity.y, -3);
    assert_eq!(b.position.y, 396);
    b.update(false);
    assert_eq!(b.position.y, 393);
}

#[test]
fn ball_stays_between_walls() {
    let mut b = field_ball(320, 200, 5, 13);
    for _ in 0..1000 {
        b.update(true);
        assert!(b.position.y >= 0 && b.position.y <= 400);
        assert!(b.position.x >= 32 && b.position.x <= 608);
    }
}

#[test]
fn new_world_layout() {
    let w = World::new();
    assert_eq!(w.ball.position, Vec2 { x: 320, y: 200 });
    assert_eq!(w.ball.velocity, Vec2 { x: 2, y: 1 });
    assert_eq!(w.paddles.len(), 2);
    assert_eq!(w.paddles[0].position, Vec2 { x: 20, y: 136 });
    assert_eq!(w.paddles[1].position, Vec2 { x: 608, y: 136 });
    assert_eq!(w.paddles[0].side, Side::Left);
    assert_eq!(w.paddles[1].side, Side::Right);
    assert_eq!(w.player, 0);
    assert_eq!(w.movement, MovementDirection::Idle);
    assert_eq!((w.width, w.height, w.paddle_width, w.paddle_height), (640, 400, 12, 128));
}

#[test]
fn paddle_rect_covers_paddle() {
    let w = World::new();
    assert_eq!(w.paddle_rect(1), Rect { x: 608, y: 136, w: 12, h: 128 });
}

#[test]
fn world_tick_moves_player_paddle_and_ball() {
    let mut w = World::new();
    w.set_movement(MovementDirection::Up);
    w.update();
    assert_eq!(w.paddles[0].position.y, 134);
    assert_eq!(w.paddles[1].position.y, 136);
    assert_eq!(w.ball.position, Vec2 { x: 322, y: 201 });
}

#[test]
fn contact_is_inclusive_at_paddle_ends() {
    let mut w = World::new();
    w.ball.position = Vec2 { x: 32, y: 136 };
    assert!(w.ball_touches_paddle());
    w.ball.position = Vec2 { x: 32, y: 264 };
    assert!(w.ball_touches_paddle());
    w.ball.position = Vec2 { x: 32, y: 135 };
    assert!(!w.ball_touches_paddle());
    w.ball.position = Vec2 { x: 32, y: 265 };
    assert!(!w.ball_touches_paddle());
    w.ball.position = Vec2 { x: 608, y: 200 };
    assert!(w.ball_touches_paddle());
    w.ball.position = Vec2 { x: 320, y: 200 };
    assert!(!w.ball_touches_paddle());
}

#[test]
fn world_ball_bounces_off_moved_paddle() {
    let mut w = World::new();
    w.paddles[0].position.y = 50;
    w.ball.position = Vec2 { x: 32, y: 100 };
    w.ball.velocity = Vec2 { x: -2, y: 1 };
    assert!(w.ball_touches_paddle());
    w.update();
    assert_eq!(w.ball.velocity.x, 2);
    assert_eq!(w.ball.position, Vec2 { x: 34, y: 101 });
}

#[test]
fn world_ball_missing_right_paddle_is_served_again() {
    let mut w = World::new();
    w.ball.position = Vec2 { x: 608, y: 10 };
    w.update();
    assert_eq!(w.ball.position, Vec2 { x: 320, y: 200 });
    assert_eq!(w.ball.velocity, Vec2 { x: 2, y: 1 });
}

#[test]
fn world_ball_bounces_off_right_paddle() {
    let mut w = World::new();
    w.ball.position = Vec2 { x: 608, y: 200 };
    w.update();
    assert_eq!(w.ball.velocity.x, -2);
    assert_eq!(w.ball.position, Vec2 { x: 606, y: 201 });
}

#[test]
fn accumulator_drains_whole_steps() {
    let mut c = FixedStep::new(10);
    assert_eq!(c.advance(3), 0);
    assert_eq!(c.accumulated_time, 3);
    assert_eq!(c.advance(7), 1);
    assert_eq!(c.accumulated_time, 0);
    assert_eq!(c.advance(25), 2);
    assert_eq!(c.accumulated_time, 5);
}

#[test]
fn accumulator_handles_largest_delta() {
    let mut c = FixedStep::new(3);
    c.advance(2);
    assert_eq!(c.advance(u64::MAX), 6148914691236517205);
    assert_eq!(c.accumulated_time, 2);
    let mut one = FixedStep::new(1);
    assert_eq!(one.advance(u64::MAX), u64::MAX);
    assert_eq!(one.accumulated_time, 0);
}

#[test]
fn game_update_runs_owed_ticks() {
    let mut g = MyGame::new();
    assert_eq!(g.clock.fixed_time_step, 10_000_000);
    assert_eq!(g.update(25_000_000), 2);
    assert_eq!(g.clock.accumulated_time, 5_000_000);
    assert_eq!(g.world.ball.position, Vec2 { x: 324, y: 202 });
    assert_eq!(g.update(4_000_000), 0);
    assert_eq!(g.update(1_000_000), 1);
    assert_eq!(g.clock.accumulated_time, 0);
}

#[test]
fn chunked_frames_match_one_frame() {
    let mut chunked = MyGame::new();
    let mut whole = MyGame::new();
    chunked.key_down(Key::Down);
    whole.key_down(Key::Down);
    let mut ticks = 0;
    for d in [3_000_000u64, 7_000_000, 25_000_000, 5_000_000, 0, 160_000_000] {
        ticks += chunked.update(d);
    }
    assert_eq!(ticks, 20);
    assert_eq!(whole.update(200_000_000), 20);
    assert_eq!(chunked.clock.accumulated_time, 0);
    assert_eq!(whole.clock.accumulated_time, 0);
    assert_eq!(chunked.world.ball, whole.world.ball);
    assert_eq!(chunked.world.paddles, whole.world.paddles);
    assert_eq!(whole.world.paddles[0].position.y, 176);
}

#[test]
fn keys_set_movement() {
    let mut g = MyGame::new();
    g.key_down(Key::Up);
    assert_eq!(g.world.movement, MovementDirection::Up);
    g.key_down(Key::Other);
    assert_eq!(g.world.movement, MovementDirection::Up);
    g.key_up(Key::Up);
    assert_eq!(g.world.movement, MovementDirection::Idle);
    g.key_down(Key::Down);
    assert_eq!(g.world.movement, MovementDirection::Down);
}

#[test]
fn releasing_other_key_keeps_movement() {
    let mut g = MyGame::new();
    g.key_down(Key::Up);
    g.key_up(Key::Other);
    assert_eq!(g.world.movement, MovementDirection::Up);
    g.key_up(Key::Down);
    assert_eq!(g.world.movement, MovementDirection::Up);
    g.key_down(Key::Down);
    g.key_up(Key::Up);
    assert_eq!(g.world.movement, MovementDirection::Down);
    g.key_up(Key::Down);
    assert_eq!(g.world.movement, MovementDirection::Idle);
}

#[test]
fn game_ball_reverses_on_tick_reaching_top() {
    let mut g = MyGame::new();
    g.world.ball.position = Vec2 { x: 320, y: 1 };
    g.world.ball.velocity = Vec2 { x: 2, y: -3 };
    assert_eq!(g.update(10_000_000), 1);
    assert_eq!(g.world.ball.velocity.y, 3);
    assert_eq!(g.world.ball.position, Vec2 { x: 322, y: 4 });
}
