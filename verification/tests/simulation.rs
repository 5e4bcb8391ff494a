use breakout::ball::Ball;
use breakout::block::{Block, BlockColor, BlockKind};
use breakout::game::{FrameInput, Game, Mode};
use breakout::geom::{Pos, Rect, Vel, resolve_collision};
use breakout::round::GameState;
use breakout::timer::PowerupTimer;

const SW: i64 = 800_000;
const SH: i64 = 600_000;

fn idle_input() -> FrameInput {
    FrameInput {
        dt: 0,
        left_down: false,
        right_down: false,
        start_pressed: false,
        screen_w: SW,
        screen_h: SH,
    }
}

fn start_input() -> FrameInput {
    FrameInput { start_pressed: true, ..idle_input() }
}

fn ball_above_first_block() -> Ball {
    Ball { rect: Rect { x: 100_000, y: 20_000, w: 50_000, h: 50_000 }, vel: Vel { x: 0, y: 1000 } }
}

#[test]
fn move_dir_prefers_single_key() {
    assert_eq!(breakout::move_dir(true, false), -1);
    assert_eq!(breakout::move_dir(false, true), 1);
    assert_eq!(breakout::move_dir(true, true), 0);
    assert_eq!(breakout::move_dir(false, false), 0);
}

#[test]
fn timer_counts_down_exactly_and_stays_done() {
    let mut t = PowerupTimer::new();
    assert!(t.is_timer_done());
    t.start_timer(10_000);
    assert!(!t.is_timer_done());
    t.update(4_000);
    assert_eq!(t.time_left, 6_000);
    assert!(!t.is_timer_done());
    t.update(6_000);
    assert_eq!(t.time_left, 0);
    assert!(t.is_timer_done());
    t.update(1_000);
    assert_eq!(t.time_left, -1_000);
    assert!(t.is_timer_done());
    t.start_timer(5);
    t.update(10);
    assert_eq!(t.time_left, -5);
    assert!(t.is_timer_done());
}

#[test]
fn resolve_disjoint_is_noop() {
    let mut a = Rect { x: 0, y: 0, w: 50_000, h: 50_000 };
    let mut v = Vel { x: 700, y: 700 };
    let b = Rect { x: 200_000, y: 200_000, w: 100_000, h: 40_000 };
    let hit = resolve_collision(&mut a, &mut v, &b);
    assert!(!hit);
    assert_eq!(a, Rect { x: 0, y: 0, w: 50_000, h: 50_000 });
    assert_eq!(v, Vel { x: 700, y: 700 });
    let hit_again = resolve_collision(&mut a, &mut v, &b);
    assert!(!hit_again);
    assert_eq!(a.x, 0);
    assert_eq!(v.y, 700);
}

#[test]
fn resolve_vertical_pushes_and_flips() {
    let mut a = Rect { x: 0, y: 0, w: 50_000, h: 50_000 };
    let mut v = Vel { x: 0, y: 1000 };
    let b = Rect { x: 0, y: 40_000, w: 100_000, h: 40_000 };
    let hit = resolve_collision(&mut a, &mut v, &b);
    assert!(hit);
    assert_eq!(a.y, -10_000);
    assert_eq!(v.y, -1000);
    assert_eq!(a.x, 0);
    assert_eq!(v.x, 0);
}

#[test]
fn resolve_horizontal_push_reuses_overlap_height() {
    let mut a = Rect { x: 0, y: 0, w: 50_000, h: 50_000 };
    let mut v = Vel { x: 1000, y: 0 };
    let b = Rect { x: 40_000, y: -10_000, w: 100_000, h: 100_000 };
    let hit = resolve_collision(&mut a, &mut v, &b);
    assert!(hit);
    // overlap is 10_000 wide but 50_000 tall: the horizontal push
    // deliberately uses the overlap's height
    assert_eq!(a.x, -50_000);
    assert_eq!(v.x, -1000);
    assert_eq!(a.y, 0);
}

#[test]
fn paddle_clamps_to_screen() {
    let mut p = breakout::player::Player::new(SW, SH);
    assert_eq!(p.rect.x, 325_000);
    assert_eq!(p.rect.y, 500_000);
    assert_eq!(p.speed, 700);
    p.update(false, true, 100_000, SW);
    assert_eq!(p.rect.x, SW - p.rect.w);
    p.update(true, false, 100_000, SW);
    assert_eq!(p.rect.x, 0);
    p.update(false, true, 100, SW);
    assert_eq!(p.rect.x, 70_000);
}

#[test]
fn ball_moves_and_bounces() {
    let mut b = Ball::with_steer(Pos { x: 100_000, y: 100_000 }, 0);
    assert_eq!(b.vel, Vel { x: 0, y: 1000 });
    b.update(1_000, SW);
    assert_eq!(b.rect.y, 500_000);
    assert_eq!(b.rect.x, 100_000);
    assert_eq!(b.vel, Vel { x: 0, y: 1000 });
    let mut left = Ball { rect: Rect { x: -10, y: 100_000, w: 50_000, h: 50_000 }, vel: Vel { x: -1000, y: 0 } };
    left.update(0, SW);
    assert_eq!(left.vel.x, 1000);
    let mut top = Ball { rect: Rect { x: 100_000, y: -10, w: 50_000, h: 50_000 }, vel: Vel { x: 0, y: -1000 } };
    top.update(0, SW);
    assert_eq!(top.vel.y, 1000);
}

#[test]
fn new_ball_starts_downward_and_near_unit() {
    let b = Ball::new(Pos { x: 10_000, y: 20_000 });
    assert_eq!(b.rect, Rect { x: 10_000, y: 20_000, w: 50_000, h: 50_000 });
    assert!(b.vel.y >= 1 && b.vel.y <= 1000);
    assert!(b.vel.x >= -1000 && b.vel.x <= 1000);
    let sq = b.vel.x * b.vel.x + b.vel.y * b.vel.y;
    assert!(sq <= 1_000_000);
}

#[test]
fn fresh_round_has_full_grid() {
    let g = GameState::new(SW, SH);
    assert_eq!(g.score, 0);
    assert_eq!(g.player_lives, 3);
    assert!(g.balls.is_empty());
    assert_eq!(g.blocks.len(), 36);
    let first = &g.blocks[0];
    assert_eq!(first.rect, Rect { x: 85_000, y: 50_000, w: 100_000, h: 40_000 });
    let last = &g.blocks[35];
    assert_eq!(last.rect, Rect { x: 610_000, y: 275_000, w: 100_000, h: 40_000 });
    let mut spawn = 0;
    let mut size = 0;
    let mut speed = 0;
    for b in g.blocks.iter() {
        assert_eq!(b.lives, 2);
        match b.kind {
            BlockKind::SpawnBallOnDeath => spawn += 1,
            BlockKind::SizeIncrease => size += 1,
            BlockKind::SpeedIncrease => speed += 1,
            BlockKind::Regular => {}
        }
    }
    assert!(spawn <= 3 && size <= 3 && speed <= 3);
    // the speed variant is stamped last, so at least one always survives
    assert!(speed >= 1);
    assert!(spawn + size + speed <= 9);
}

#[test]
fn block_colors_follow_damage_tiers() {
    let cases = [
        (BlockKind::Regular, BlockColor::Red, BlockColor::Orange),
        (BlockKind::SpawnBallOnDeath, BlockColor::DarkGreen, BlockColor::Green),
        (BlockKind::SizeIncrease, BlockColor::DarkBlue, BlockColor::Blue),
        (BlockKind::SpeedIncrease, BlockColor::Purple, BlockColor::Pink),
    ];
    for (kind, full, damaged) in cases.into_iter() {
        let mut b = Block::new(0, 0, kind);
        assert_eq!(b.color(), full);
        b.lives = 1;
        assert_eq!(b.color(), damaged);
    }
}

#[test]
fn start_then_two_hits_take_a_block() {
    let mut game = Game::new(SW, SH);
    assert_eq!(game.mode, Mode::Menu);
    assert_eq!(game.round.balls.len(), 1);
    assert_eq!(game.round.blocks.len(), 36);
    assert_eq!(game.round.score, 0);
    assert_eq!(game.round.player_lives, 3);
    game.frame(start_input());
    assert_eq!(game.mode, Mode::Playing);
    assert_eq!(game.round.balls.len(), 1);
    assert_eq!(game.round.blocks.len(), 36);

    // drive a ball straight down onto the first block, twice
    game.round.blocks[0].kind = BlockKind::Regular;
    game.round.balls = vec![ball_above_first_block()];
    game.frame(idle_input());
    assert_eq!(game.round.blocks[0].lives, 1);
    assert_eq!(game.round.blocks[0].color(), BlockColor::Orange);
    assert_eq!(game.round.score, 0);
    assert_eq!(game.round.blocks.len(), 36);

    game.round.balls = vec![ball_above_first_block()];
    game.frame(idle_input());
    assert_eq!(game.round.score, 1);
    assert_eq!(game.round.blocks.len(), 35);
    assert_eq!(game.mode, Mode::Playing);
}

#[test]
fn lost_last_ball_spawns_near_paddle() {
    let mut game = Game::new(SW, SH);
    game.mode = Mode::Playing;
    game.round.balls = vec![Ball {
        rect: Rect { x: 100_000, y: 700_000, w: 50_000, h: 50_000 },
        vel: Vel { x: 0, y: 1000 },
    }];
    game.frame(idle_input());
    assert_eq!(game.round.player_lives, 2);
    assert_eq!(game.round.balls.len(), 1);
    let nb = &game.round.balls[0];
    assert_eq!(nb.rect.x, 325_000);
    assert_eq!(nb.rect.y, 450_000);
    assert!(nb.vel.y >= 1);
    assert_eq!(game.mode, Mode::Playing);
}

#[test]
fn last_life_ends_the_round_and_start_resets() {
    let mut game = Game::new(SW, SH);
    game.mode = Mode::Playing;
    game.round.player_lives = 1;
    game.round.score = 5;
    game.round.balls = vec![Ball {
        rect: Rect { x: 100_000, y: 700_000, w: 50_000, h: 50_000 },
        vel: Vel { x: 0, y: 1000 },
    }];
    game.frame(idle_input());
    assert_eq!(game.mode, Mode::Dead);
    assert_eq!(game.round.player_lives, 0);
    assert_eq!(game.round.score, 5);
    assert!(game.round.balls.is_empty());
    assert_eq!(game.round.blocks.len(), 36);

    // the terminal screen freezes the round until start is pressed
    game.frame(idle_input());
    assert_eq!(game.mode, Mode::Dead);
    assert_eq!(game.round.score, 5);

    game.frame(start_input());
    assert_eq!(game.mode, Mode::Menu);
    assert_eq!(game.round.score, 0);
    assert_eq!(game.round.player_lives, 3);
    assert!(game.round.balls.is_empty());
    assert_eq!(game.round.blocks.len(), 36);
}

#[test]
fn clearing_last_block_completes_level() {
    let mut game = Game::new(SW, SH);
    game.mode = Mode::Playing;
    let mut only = Block::new(85_000, 50_000, BlockKind::Regular);
    only.lives = 1;
    game.round.blocks = vec![only];
    game.round.balls = vec![ball_above_first_block()];
    game.frame(idle_input());
    assert_eq!(game.round.score, 1);
    assert!(game.round.blocks.is_empty());
    assert_eq!(game.mode, Mode::LevelCompleted);
    assert_eq!(game.round.balls.len(), 1);
}

#[test]
fn two_balls_on_one_block_score_it_once() {
    let mut game = Game::new(SW, SH);
    game.mode = Mode::Playing;
    let mut only = Block::new(85_000, 50_000, BlockKind::SpawnBallOnDeath);
    only.lives = 1;
    game.round.blocks = vec![only];
    game.round.balls = vec![
        ball_above_first_block(),
        Ball {
            rect: Rect { x: 120_000, y: 20_000, w: 50_000, h: 50_000 },
            vel: Vel { x: 0, y: 1000 },
        },
    ];
    game.frame(idle_input());
    // the first ball depletes the block; the second still bounces off it that
    // frame but scores nothing and spawns nothing more
    assert_eq!(game.round.score, 1);
    assert_eq!(game.round.balls.len(), 3);
    assert!(game.round.blocks.is_empty());
    assert_eq!(game.mode, Mode::LevelCompleted);
}

#[test]
fn size_powerup_widens_then_restores() {
    let mut game = Game::new(SW, SH);
    game.mode = Mode::Playing;
    let mut only = Block::new(85_000, 50_000, BlockKind::SizeIncrease);
    only.lives = 1;
    game.round.blocks = vec![only];
    game.round.balls = vec![ball_above_first_block()];
    game.frame(idle_input());
    assert_eq!(game.round.player.rect.w, 200_000);
    assert_eq!(game.round.increase_size_timer.time_left, 10_000);
    assert_eq!(game.round.score, 1);

    game.mode = Mode::Playing;
    let mut inp = idle_input();
    inp.dt = 10_000;
    game.round.balls = vec![];
    game.frame(inp);
    assert_eq!(game.round.player.rect.w, 150_000);
    assert_eq!(game.round.increase_size_timer.time_left, 0);
}

#[test]
fn speed_powerup_boosts_then_restores() {
    let mut game = Game::new(SW, SH);
    game.mode = Mode::Playing;
    let mut only = Block::new(85_000, 50_000, BlockKind::SpeedIncrease);
    only.lives = 1;
    game.round.blocks = vec![only];
    game.round.balls = vec![ball_above_first_block()];
    game.frame(idle_input());
    assert_eq!(game.round.player.speed, 1000);
    assert_eq!(game.round.increase_speed_timer.time_left, 10_000);

    game.mode = Mode::Playing;
    let mut inp = idle_input();
    inp.dt = 10_000;
    game.round.balls = vec![];
    game.frame(inp);
    assert_eq!(game.round.player.speed, 700);
}

#[test]
fn spawn_block_adds_a_ball_where_it_died() {
    let mut game = Game::new(SW, SH);
    game.mode = Mode::Playing;
    let mut only = Block::new(85_000, 50_000, BlockKind::SpawnBallOnDeath);
    only.lives = 1;
    game.round.blocks = vec![only];
    game.round.balls = vec![ball_above_first_block()];
    game.frame(idle_input());
    assert_eq!(game.round.score, 1);
    assert_eq!(game.round.balls.len(), 2);
    // the new ball appears at the colliding ball's post-collision position
    let spawned = &game.round.balls[1];
    assert_eq!(spawned.rect.x, 100_000);
    assert_eq!(spawned.rect.y, 0);
    assert!(spawned.vel.y >= 1 && spawned.vel.y <= 1000);
    assert_eq!(game.mode, Mode::LevelCompleted);
}

#[test]
fn well_formedness_and_input_checks() {
    let game = Game::new(SW, SH);
    assert!(game.is_well_formed());
    assert!(breakout::game::input_within(&idle_input()));
    let mut bad = idle_input();
    bad.dt = -1;
    assert!(!breakout::game::input_within(&bad));
    let mut huge = Game::new(SW, SH);
    huge.round.score = -3;
    assert!(!huge.is_well_formed());
}
