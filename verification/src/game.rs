use crate::ball::{BALL_SIZE, Ball, BallV, MOVED_COORD, ball_bounded, ball_ok, dir_for, spec_ball_move};
use crate::block::{Block, BlockKind, BlockV, block_ok};
use crate::geom::{DIM_LIMIT, Pos, PosV, RectV, rect_ok, resolve_collision, spec_resolve};
use crate::player::{
    DT_LIMIT, PLAYER_BASE_SPEED, PLAYER_BOOST_SPEED, PLAYER_W, PLAYER_WIDE_W, PlayerV, player_ok,
    spec_player_update,
};
use crate::round::{
    GameState, RoundModel, START_LIVES, balls_model, blocks_model, fresh_round,
    lemma_balls_model_push, lemma_balls_model_update, lemma_blocks_model_update, round_ok,
};
use crate::timer::{TIMER_LIMIT, spec_timer_tick};
use vstd::prelude::*;

verus! {

/// Duration of a powerup, in milliseconds.
pub const POWERUP_MS: i64 = 10_000;

/// Vertical offset above the paddle at which a replacement ball appears.
pub const RESPAWN_ABOVE: i64 = 50_000;

/// The top-level game mode; exactly one is active and drives the frame.
#[derive(Clone, Copy, PartialEq, Eq, Structural, Debug)]
pub enum Mode {
    Menu,
    Playing,
    LevelCompleted,
    Dead,
}

/// Everything one frame reads from the platform: elapsed time, the two
/// movement key states, the edge-triggered start key, and the screen size.
#[derive(Clone, Copy, PartialEq, Eq, Structural, Debug)]
pub struct FrameInput {
    pub dt: i64,
    pub left_down: bool,
    pub right_down: bool,
    pub start_pressed: bool,
    pub screen_w: i64,
    pub screen_h: i64,
}

pub open spec fn input_ok(inp: FrameInput) -> bool {
    &&& 0 <= inp.dt <= DT_LIMIT
    &&& 0 < inp.screen_w <= DIM_LIMIT
    &&& 0 < inp.screen_h <= DIM_LIMIT
}

/// The model view of a sequence of spawn positions.
pub open spec fn pos_model(s: Seq<Pos>) -> Seq<PosV> {
    s.map_values(|p: Pos| p@)
}

/// The rectangle of a ball spawned at `p`.
pub open spec fn spec_ball_rect(p: PosV) -> RectV {
    RectV { x: p.x, y: p.y, w: BALL_SIZE as int, h: BALL_SIZE as int }
}

/// Where a replacement ball appears after a lost life: just above the paddle.
pub open spec fn respawn_pos(p: PlayerV) -> PosV {
    PosV { x: p.rect.x, y: p.rect.y - RESPAWN_ABOVE as int }
}

/// A freshly drawn ball: its slant comes from some raw draw in [-1000, 1000).
pub open spec fn freshly_drawn(b: BallV) -> bool {
    &&& exists|s: int| -1000 <= s < 1000 && dir_for(s, b.vel)
    &&& 1 <= b.vel.y <= 1000
    &&& -1000 <= b.vel.x <= 1000
}

/// Movement phase of a frame: the paddle moves and clamps, every ball moves
/// and bounces off the side and top edges, both powerup timers count down,
/// and a done timer restores the matching paddle attribute to its base.
pub open spec fn spec_moved(m: RoundModel, inp: FrameInput) -> RoundModel {
    let p1 = spec_player_update(
        m.player,
        inp.left_down,
        inp.right_down,
        inp.dt as int,
        inp.screen_w as int,
    );
    let balls1 = m.balls.map_values(
        |b: BallV| spec_ball_move(b, inp.dt as int, inp.screen_w as int),
    );
    let size1 = spec_timer_tick(m.size_left, inp.dt as int);
    let speed1 = spec_timer_tick(m.speed_left, inp.dt as int);
    RoundModel {
        score: m.score,
        lives: m.lives,
        blocks: m.blocks,
        balls: balls1,
        player: PlayerV {
            rect: RectV {
                x: p1.rect.x,
                y: p1.rect.y,
                w: if size1 <= 0 {
                    PLAYER_W as int
                } else {
                    p1.rect.w
                },
                h: p1.rect.h,
            },
            speed: if speed1 <= 0 {
                PLAYER_BASE_SPEED as int
            } else {
                p1.speed
            },
        },
        size_left: size1,
        speed_left: speed1,
    }
}

/// One ball against one block: resolve the collision; on a hit a block with
/// a life left loses one, never below zero, and the block reaching exactly
/// zero scores one point — once, since lives never rise again — and fires
/// its variant effect: a spawn position at the ball, or a powerup timer
/// start with the paddle attribute applied at once.  A block already
/// depleted this frame still bounces the ball but changes nothing else.
pub open spec fn spec_hit_one(m: RoundModel, ball: BallV, pts: Seq<PosV>, j: int) -> (
    RoundModel,
    BallV,
    Seq<PosV>,
) {
    let r = spec_resolve(ball.rect, ball.vel, m.blocks[j].rect);
    let ball2 = BallV { rect: r.0, vel: r.1 };
    if !r.2 || m.blocks[j].lives <= 0 {
        (m, ball2, pts)
    } else {
        let blk = m.blocks[j];
        let blk2 = BlockV { rect: blk.rect, lives: blk.lives - 1, kind: blk.kind };
        let m2 = RoundModel { blocks: m.blocks.update(j, blk2), ..m };
        if blk2.lives == 0 {
            let m3 = RoundModel { score: m2.score + 1, ..m2 };
            match blk.kind {
                BlockKind::Regular => (m3, ball2, pts),
                BlockKind::SpawnBallOnDeath => (
                    m3,
                    ball2,
                    pts.push(PosV { x: ball2.rect.x, y: ball2.rect.y }),
                ),
                BlockKind::SizeIncrease => (
                    RoundModel {
                        size_left: POWERUP_MS as int,
                        player: PlayerV {
                            rect: RectV {
                                x: m3.player.rect.x,
                                y: m3.player.rect.y,
                                w: PLAYER_WIDE_W as int,
                                h: m3.player.rect.h,
                            },
                            speed: m3.player.speed,
                        },
                        ..m3
                    },
                    ball2,
                    pts,
                ),
                BlockKind::SpeedIncrease => (
                    RoundModel {
                        speed_left: POWERUP_MS as int,
                        player: PlayerV {
                            rect: m3.player.rect,
                            speed: PLAYER_BOOST_SPEED as int,
                        },
                        ..m3
                    },
                    ball2,
                    pts,
                ),
            }
        } else {
            (m2, ball2, pts)
        }
    }
}

/// One ball against the first `j` blocks, in grid order.
pub open spec fn spec_ball_blocks(m: RoundModel, ball: BallV, pts: Seq<PosV>, j: int) -> (
    RoundModel,
    BallV,
    Seq<PosV>,
)
    decreases j,
{
    if j <= 0 {
        (m, ball, pts)
    } else {
        let prev = spec_ball_blocks(m, ball, pts, j - 1);
        spec_hit_one(prev.0, prev.1, prev.2, j - 1)
    }
}

/// One ball's whole collision pass: first against the paddle (the result is
/// not scored), then against every block, then the ball is written back.
pub open spec fn spec_ball_pass(m: RoundModel, pts: Seq<PosV>, i: int) -> (RoundModel, Seq<PosV>) {
    let ball = m.balls[i];
    let r = spec_resolve(ball.rect, ball.vel, m.player.rect);
    let ball1 = BallV { rect: r.0, vel: r.1 };
    let done = spec_ball_blocks(m, ball1, pts, m.blocks.len() as int);
    (RoundModel { balls: done.0.balls.update(i, done.1), ..done.0 }, done.2)
}

/// The collision pass over the first `i` balls, with the spawn positions
/// gathered along the way.
pub open spec fn spec_collide(m: RoundModel, i: int) -> (RoundModel, Seq<PosV>)
    decreases i,
{
    if i <= 0 {
        (m, Seq::empty())
    } else {
        let prev = spec_collide(m, i - 1);
        spec_ball_pass(prev.0, prev.1, i - 1)
    }
}

/// The balls that survive the frame: those still above the bottom edge.
pub open spec fn keep_balls(s: Seq<BallV>, sh: int) -> Seq<BallV>
    decreases s.len(),
{
    if s.len() == 0 {
        Seq::empty()
    } else {
        let pre = keep_balls(s.drop_last(), sh);
        if s.last().rect.y < sh {
            pre.push(s.last())
        } else {
            pre
        }
    }
}

/// The blocks that survive the frame: those with a life left.
pub open spec fn keep_blocks(s: Seq<BlockV>) -> Seq<BlockV>
    decreases s.len(),
{
    if s.len() == 0 {
        Seq::empty()
    } else {
        let pre = keep_blocks(s.drop_last());
        if s.last().lives > 0 {
            pre.push(s.last())
        } else {
            pre
        }
    }
}

/// End of a Playing frame, after the spawned balls were appended: balls past
/// the bottom are dropped; losing the last ball costs a life, ending the
/// round (mode Dead, depleted blocks left in place) when no life remains and
/// spawning `respawn` just above the paddle otherwise; then depleted blocks
/// are dropped, and an empty grid completes the level.
pub open spec fn end_rel(
    c: RoundModel,
    inp: FrameInput,
    post: RoundModel,
    m: Mode,
    respawn: BallV,
) -> bool {
    let kept = keep_balls(c.balls, inp.screen_h as int);
    let lost_last = kept.len() < c.balls.len() && kept.len() == 0;
    if lost_last && c.lives - 1 <= 0 {
        &&& m == Mode::Dead
        &&& post == RoundModel { lives: c.lives - 1, balls: kept, ..c }
    } else {
        let balls3 = if lost_last {
            kept.push(respawn)
        } else {
            kept
        };
        let lives3 = if lost_last {
            c.lives - 1
        } else {
            c.lives
        };
        let blocks3 = keep_blocks(c.blocks);
        &&& (lost_last ==> respawn.rect == spec_ball_rect(respawn_pos(c.player)) && freshly_drawn(
            respawn,
        ))
        &&& m == (if blocks3.len() == 0 {
            Mode::LevelCompleted
        } else {
            Mode::Playing
        })
        &&& post == RoundModel { lives: lives3, balls: balls3, blocks: blocks3, ..c }
    }
}

/// Whether `spawned` matches the gathered spawn positions: one freshly drawn
/// ball per position, in order.
pub open spec fn spawned_ok(pts: Seq<PosV>, spawned: Seq<BallV>) -> bool {
    &&& spawned.len() == pts.len()
    &&& forall|k: int|
        0 <= k < pts.len() ==> (#[trigger] spawned[k]).rect == spec_ball_rect(pts[k])
            && freshly_drawn(spawned[k])
}

/// One whole Playing frame, from the state at its start to the state at its
/// end: movement, the collision pass, the spawned balls appended, then the
/// end-of-frame removals, life loss and mode exits.  `spawned` and `respawn`
/// stand for the randomly slanted balls the frame created.
pub open spec fn playing_step_rel(
    pre: RoundModel,
    inp: FrameInput,
    post: RoundModel,
    m: Mode,
    spawned: Seq<BallV>,
    respawn: BallV,
) -> bool {
    let mv = spec_moved(pre, inp);
    let c = spec_collide(mv, mv.balls.len() as int);
    let c2 = RoundModel { balls: c.0.balls + spawned, ..c.0 };
    &&& spawned_ok(c.1, spawned)
    &&& end_rel(c2, inp, post, m, respawn)
}

/// A hit moves the paddle's width or speed at most, never its position.
proof fn lemma_hit_one_keeps_paddle_x(m: RoundModel, ball: BallV, pts: Seq<PosV>, j: int)
    ensures
        spec_hit_one(m, ball, pts, j).0.player.rect.x == m.player.rect.x,
{
}

/// A ball's block pass keeps the paddle's position.
proof fn lemma_ball_blocks_keeps_paddle_x(m: RoundModel, ball: BallV, pts: Seq<PosV>, j: int)
    ensures
        spec_ball_blocks(m, ball, pts, j).0.player.rect.x == m.player.rect.x,
    decreases j,
{
    if j > 0 {
        lemma_ball_blocks_keeps_paddle_x(m, ball, pts, j - 1);
        let prev = spec_ball_blocks(m, ball, pts, j - 1);
        lemma_hit_one_keeps_paddle_x(prev.0, prev.1, prev.2, j - 1);
    }
}

/// The whole collision pass keeps the paddle's position.
proof fn lemma_collide_keeps_paddle_x(m: RoundModel, i: int)
    ensures
        spec_collide(m, i).0.player.rect.x == m.player.rect.x,
    decreases i,
{
    if i > 0 {
        lemma_collide_keeps_paddle_x(m, i - 1);
        let prev = spec_collide(m, i - 1);
        lemma_ball_blocks_keeps_paddle_x(
            prev.0,
            BallV {
                rect: spec_resolve(prev.0.balls[i - 1].rect, prev.0.balls[i - 1].vel, prev.0.player.rect).0,
                vel: spec_resolve(prev.0.balls[i - 1].rect, prev.0.balls[i - 1].vel, prev.0.player.rect).1,
            },
            prev.1,
            prev.0.blocks.len() as int,
        );
    }
}

/// The paddle never leaves the screen: over any whole Playing frame its x
/// offset ends within [0, screen width - paddle width], measured with the
/// width the paddle moved with (a size powerup collected the same frame
/// widens the paddle in place; the next frame's clamp accounts for it).
pub proof fn lemma_frame_paddle_on_screen(
    pre: RoundModel,
    inp: FrameInput,
    post: RoundModel,
    m: Mode,
    spawned: Seq<BallV>,
    respawn: BallV,
)
    requires
        playing_step_rel(pre, inp, post, m, spawned, respawn),
        inp.screen_w >= pre.player.rect.w,
    ensures
        0 <= post.player.rect.x <= inp.screen_w - pre.player.rect.w,
{
    crate::player::lemma_paddle_stays_on_screen(
        pre.player,
        inp.left_down,
        inp.right_down,
        inp.dt as int,
        inp.screen_w as int,
    );
    let mv = spec_moved(pre, inp);
    lemma_collide_keeps_paddle_x(mv, mv.balls.len() as int);
}

/// Every ball past the bottom edge survives nothing.
pub proof fn lemma_keep_balls_none(s: Seq<BallV>, sh: int)
    requires
        forall|k: int| 0 <= k < s.len() ==> (#[trigger] s[k]).rect.y >= sh,
    ensures
        keep_balls(s, sh).len() == 0,
    decreases s.len(),
{
    if s.len() > 0 {
        lemma_keep_balls_none(s.drop_last(), sh);
    }
}

/// Every surviving block has a life left.
pub proof fn lemma_kept_blocks_alive(s: Seq<BlockV>)
    ensures
        forall|k: int| 0 <= k < keep_blocks(s).len() ==> (#[trigger] keep_blocks(s)[k]).lives >= 1,
    decreases s.len(),
{
    if s.len() > 0 {
        lemma_kept_blocks_alive(s.drop_last());
    }
}

/// A collision that brings a block's lives to exactly zero scores exactly
/// one point, that frame, on that hit.
pub proof fn lemma_block_depletion_scores(m: RoundModel, ball: BallV, pts: Seq<PosV>, j: int)
    requires
        0 <= j < m.blocks.len(),
        spec_resolve(ball.rect, ball.vel, m.blocks[j].rect).2,
        m.blocks[j].lives == 1,
    ensures
        spec_hit_one(m, ball, pts, j).0.score == m.score + 1,
        spec_hit_one(m, ball, pts, j).0.blocks[j].lives == 0,
{
}

/// A block already at zero lives is never scored again: a later hit the same
/// frame bounces the ball and changes nothing else, so each block scores
/// exactly once.
pub proof fn lemma_depleted_block_not_rescored(m: RoundModel, ball: BallV, pts: Seq<PosV>, j: int)
    requires
        0 <= j < m.blocks.len(),
        m.blocks[j].lives <= 0,
    ensures
        spec_hit_one(m, ball, pts, j).0 == m,
        spec_hit_one(m, ball, pts, j).2 == pts,
{
}

/// A block's life counter only decreases and never below zero.
pub proof fn lemma_lives_never_negative(m: RoundModel, ball: BallV, pts: Seq<PosV>, j: int)
    requires
        0 <= j < m.blocks.len(),
        forall|k: int| 0 <= k < m.blocks.len() ==> (#[trigger] m.blocks[k]).lives >= 0,
    ensures
        forall|k: int|
            0 <= k < spec_hit_one(m, ball, pts, j).0.blocks.len() ==> {
                let b2 = (#[trigger] spec_hit_one(m, ball, pts, j).0.blocks[k]);
                0 <= b2.lives <= m.blocks[k].lives
            },
{
}

/// No depleted block outlives its frame: unless the frame ended the round,
/// every block still in the collection has a life left.
pub proof fn lemma_depleted_blocks_removed(
    c: RoundModel,
    inp: FrameInput,
    post: RoundModel,
    m: Mode,
    respawn: BallV,
)
    requires
        end_rel(c, inp, post, m, respawn),
        m != Mode::Dead,
    ensures
        forall|k: int| 0 <= k < post.blocks.len() ==> (#[trigger] post.blocks[k]).lives >= 1,
{
    lemma_kept_blocks_alive(c.blocks);
}

/// Losing the last ball: when every ball has passed the bottom edge, a life
/// is lost; with more than one life left a fresh ball appears just above the
/// paddle, and with exactly one the round ends with no ball spawned.
pub proof fn lemma_last_ball_exits(
    c: RoundModel,
    inp: FrameInput,
    post: RoundModel,
    m: Mode,
    respawn: BallV,
)
    requires
        end_rel(c, inp, post, m, respawn),
        c.balls.len() > 0,
        forall|k: int| 0 <= k < c.balls.len() ==> (#[trigger] c.balls[k]).rect.y >= inp.screen_h,
    ensures
        post.lives == c.lives - 1,
        c.lives == 1 ==> m == Mode::Dead && post.balls.len() == 0,
        c.lives > 1 ==> m != Mode::Dead && post.balls.len() == 1 && post.balls[0].rect
            == spec_ball_rect(respawn_pos(c.player)),
{
    lemma_keep_balls_none(c.balls, inp.screen_h as int);
}

/// Pushing a position onto a viewed sequence pushes its view.
proof fn lemma_pos_model_push(s: Seq<Pos>, p: Pos)
    ensures
        pos_model(s.push(p)) =~= pos_model(s).push(p@),
{
}

/// Movement phase over the ball collection.
#[verifier::loop_isolation(false)]
fn move_balls(balls: &mut Vec<Ball>, dt: i64, sw: i64)
    requires
        forall|k: int| 0 <= k < old(balls)@.len() ==> ball_ok(#[trigger] balls_model(old(balls)@)[k]),
        0 <= dt <= DT_LIMIT,
        0 <= sw <= DIM_LIMIT,
    ensures
        final(balls)@.len() == old(balls)@.len(),
        balls_model(final(balls)@) == balls_model(old(balls)@).map_values(
            |b: BallV| spec_ball_move(b, dt as int, sw as int),
        ),
        forall|k: int|
            0 <= k < final(balls)@.len() ==> ball_bounded(
                #[trigger] balls_model(final(balls)@)[k],
                MOVED_COORD as int,
            ),
{
    let n = balls.len();
    let mut i: usize = 0;
    while i < n
        invariant
            n == balls@.len(),
            i <= n,
            0 <= dt <= DT_LIMIT,
            0 <= sw <= DIM_LIMIT,
            forall|k: int| 0 <= k < n ==> ball_ok(#[trigger] balls_model(old(balls)@)[k]),
            forall|k: int| i <= k < n ==> #[trigger] balls@[k] == old(balls)@[k],
            forall|k: int|
                0 <= k < i ==> #[trigger] balls@[k]@ == spec_ball_move(
                    balls_model(old(balls)@)[k],
                    dt as int,
                    sw as int,
                ),
            forall|k: int|
                0 <= k < i ==> ball_bounded(#[trigger] balls@[k]@, MOVED_COORD as int),
        decreases n - i,
    {
        let mut b = balls[i];
        proof {
            assert(balls_model(old(balls)@)[i as int] == old(balls)@[i as int]@);
            assert(ball_ok(b@));
        }
        b.update(dt, sw);
        balls[i] = b;
        proof {
            assert(balls@[i as int]@ == spec_ball_move(
                balls_model(old(balls)@)[i as int],
                dt as int,
                sw as int,
            ));
        }
        i = i + 1;
    }
    proof {
        assert(balls_model(balls@) =~= balls_model(old(balls)@).map_values(
            |b: BallV| spec_ball_move(b, dt as int, sw as int),
        ));
    }
}

/// Append one freshly drawn ball per gathered spawn position.
#[verifier::loop_isolation(false)]
fn append_spawned(balls: &mut Vec<Ball>, pts: &Vec<Pos>)
    ensures
        final(balls)@.len() == old(balls)@.len() + pts@.len(),
        forall|q: int| 0 <= q < old(balls)@.len() ==> #[trigger] final(balls)@[q] == old(balls)@[q],
        forall|q: int|
            old(balls)@.len() <= q < final(balls)@.len() ==> (#[trigger] final(balls)@[q])@.rect
                == spec_ball_rect(pos_model(pts@)[q - old(balls)@.len()]) && freshly_drawn(
                final(balls)@[q]@,
            ),
{
    let n0 = balls.len();
    let mut k: usize = 0;
    while k < pts.len()
        invariant
            n0 == old(balls)@.len(),
            k <= pts@.len(),
            balls@.len() == n0 + k,
            forall|q: int| 0 <= q < n0 ==> #[trigger] balls@[q] == old(balls)@[q],
            forall|q: int|
                n0 <= q < n0 + k ==> (#[trigger] balls@[q])@.rect == spec_ball_rect(
                    pos_model(pts@)[q - n0],
                ) && freshly_drawn(balls@[q]@),
        decreases pts@.len() - k,
    {
        let p = pts[k];
        let nb = Ball::new(p);
        balls.push(nb);
        k = k + 1;
    }
}

/// Keep the balls that are still above the bottom of the screen.
#[verifier::loop_isolation(false)]
fn retain_balls(balls: &mut Vec<Ball>, sh: i64)
    ensures
        balls_model(final(balls)@) == keep_balls(balls_model(old(balls)@), sh as int),
{
    let ghost s = balls_model(old(balls)@);
    let mut kept: Vec<Ball> = Vec::new();
    let mut t: usize = 0;
    while t < balls.len()
        invariant
            t <= balls@.len(),
            balls@ == old(balls)@,
            balls_model(kept@) == keep_balls(s.take(t as int), sh as int),
        decreases balls@.len() - t,
    {
        let ghost kv = kept@;
        let b = balls[t];
        proof {
            assert(s.len() == balls@.len());
            assert(s[t as int] == balls@[t as int]@);
            assert(s.take(t as int + 1).drop_last() =~= s.take(t as int));
            assert(s.take(t as int + 1).last() == b@);
        }
        if b.rect.y < sh {
            kept.push(b);
            proof {
                lemma_balls_model_push(kv, b);
            }
        }
        t = t + 1;
    }
    proof {
        assert(s.take(balls@.len() as int) =~= s);
    }
    *balls = kept;
}

/// Keep the blocks that still have a life left.
#[verifier::loop_isolation(false)]
fn retain_blocks(blocks: &mut Vec<Block>)
    ensures
        blocks_model(final(blocks)@) == keep_blocks(blocks_model(old(blocks)@)),
{
    let ghost s = blocks_model(old(blocks)@);
    let mut kept: Vec<Block> = Vec::new();
    let mut t: usize = 0;
    while t < blocks.len()
        invariant
            t <= blocks@.len(),
            blocks@ == old(blocks)@,
            blocks_model(kept@) == keep_blocks(s.take(t as int)),
        decreases blocks@.len() - t,
    {
        let ghost kv = kept@;
        let b = blocks[t];
        proof {
            assert(s.len() == blocks@.len());
            assert(s[t as int] == blocks@[t as int]@);
            assert(s.take(t as int + 1).drop_last() =~= s.take(t as int));
            assert(s.take(t as int + 1).last() == b@);
        }
        if b.lives > 0 {
            kept.push(b);
            proof {
                crate::round::lemma_blocks_model_push(kv, b);
            }
        }
        t = t + 1;
    }
    proof {
        assert(s.take(blocks@.len() as int) =~= s);
    }
    *blocks = kept;
}

/// Clearing the grid completes the level: when no block survives the frame
/// and the round did not end, the mode becomes LevelCompleted on that frame.
pub proof fn lemma_blocks_cleared(
    c: RoundModel,
    inp: FrameInput,
    post: RoundModel,
    m: Mode,
    respawn: BallV,
)
    requires
        end_rel(c, inp, post, m, respawn),
        keep_blocks(c.blocks).len() == 0,
        m != Mode::Dead,
    ensures
        m == Mode::LevelCompleted,
{
}

impl GameState {
    /// The collision pass of a frame: every ball is resolved against the
    /// paddle and then against every block in grid order, with block damage,
    /// scoring and variant effects applied along the way; the positions at
    /// which new balls are owed are gathered and returned.
    #[verifier::loop_isolation(false)]
    #[verifier::rlimit(100)]
    fn collide_pass(&mut self) -> (pts: Vec<Pos>)
        requires
            forall|k: int|
                0 <= k < old(self)@.balls.len() ==> ball_bounded(
                    #[trigger] old(self)@.balls[k],
                    MOVED_COORD as int,
                ),
            forall|k: int|
                0 <= k < old(self)@.blocks.len() ==> block_ok(#[trigger] old(self)@.blocks[k]),
            old(self)@.balls.len() <= 10_000,
            old(self)@.blocks.len() <= 10_000,
            player_ok(old(self)@.player),
            0 <= old(self)@.score <= 1_000_000_000_000,
            -TIMER_LIMIT <= old(self)@.size_left <= TIMER_LIMIT,
            -TIMER_LIMIT <= old(self)@.speed_left <= TIMER_LIMIT,
        ensures
            final(self)@ == spec_collide(old(self)@, old(self)@.balls.len() as int).0,
            pos_model(pts@) == spec_collide(old(self)@, old(self)@.balls.len() as int).1,
            final(self).player_lives == old(self).player_lives,
            player_ok(final(self)@.player),
    {
        let ghost m0 = self@;
        let ghost bl = m0.blocks.len() as int;
        let mut pts: Vec<Pos> = Vec::new();
        let n = self.balls.len();
        let mut i: usize = 0;
        while i < n
            invariant
                i <= n,
                self.balls@.len() == n,
                self.blocks@.len() == bl,
                self@ == spec_collide(m0, i as int).0,
                pos_model(pts@) == spec_collide(m0, i as int).1,
                forall|k: int|
                    i <= k < n ==> ball_bounded(#[trigger] self@.balls[k], MOVED_COORD as int),
                forall|k: int| 0 <= k < bl ==> rect_ok((#[trigger] self@.blocks[k]).rect),
                forall|k: int|
                    0 <= k < bl ==> 0 <= (#[trigger] self@.blocks[k]).lives
                        <= 1_000_000_000_000,
                0 <= self.score as int <= 1_000_000_000_000 + (i as int) * bl,
                player_ok(self@.player),
                -TIMER_LIMIT <= self@.size_left <= TIMER_LIMIT,
                -TIMER_LIMIT <= self@.speed_left <= TIMER_LIMIT,
                self.player_lives == old(self).player_lives,
            decreases n - i,
        {
            proof {
                assert(0 <= (i as int) * bl <= 100_000_000 && (i as int + 1) * bl == (i as int)
                    * bl + bl) by (nonlinear_arith)
                    requires
                        0 <= i as int <= 10_000,
                        0 <= bl <= 10_000,
                ;
            }
            let ghost m_i = self@;
            let ghost pts_i = pos_model(pts@);
            let mut ball = self.balls[i];
            proof {
                assert(ball@ == m_i.balls[i as int]);
            }
            let prect = self.player.rect;
            resolve_collision(&mut ball.rect, &mut ball.vel, &prect);
            let ghost ball1 = ball@;
            let bcount = self.blocks.len();
            let mut j: usize = 0;
            while j < bcount
                invariant
                    j <= bcount,
                    bcount == bl,
                    self.balls@.len() == n,
                    self.blocks@.len() == bl,
                    self@ == spec_ball_blocks(m_i, ball1, pts_i, j as int).0,
                    ball@ == spec_ball_blocks(m_i, ball1, pts_i, j as int).1,
                    pos_model(pts@) == spec_ball_blocks(m_i, ball1, pts_i, j as int).2,
                    ball_bounded(ball@, MOVED_COORD + (1 + j as int) * (DIM_LIMIT as int)),
                    forall|k: int| 0 <= k < bl ==> rect_ok((#[trigger] self@.blocks[k]).rect),
                    forall|k: int|
                        0 <= k < bl ==> 0 <= (#[trigger] self@.blocks[k]).lives
                            <= 1_000_000_000_000,
                    0 <= self.score as int <= 1_000_000_000_000 + (i as int) * bl + j as int,
                    player_ok(self@.player),
                    -TIMER_LIMIT <= self@.size_left <= TIMER_LIMIT,
                    -TIMER_LIMIT <= self@.speed_left <= TIMER_LIMIT,
                    self.player_lives == old(self).player_lives,
                    forall|k: int|
                        i <= k < n ==> ball_bounded(#[trigger] self@.balls[k], MOVED_COORD as int),
                decreases bcount - j,
            {
                proof {
                    assert(0 <= (i as int) * bl <= 100_000_000) by (nonlinear_arith)
                        requires
                            0 <= i as int <= 10_000,
                            0 <= bl <= 10_000,
                    ;
                }
                let ghost st0 = self@;
                let ghost b0 = ball@;
                let ghost pts0 = pos_model(pts@);
                let brect = self.blocks[j].rect;
                proof {
                    assert(brect@ == st0.blocks[j as int].rect);
                }
                let hit = resolve_collision(&mut ball.rect, &mut ball.vel, &brect);
                if hit && self.blocks[j].lives > 0 {
                    let ghost bv = self.blocks@;
                    let mut blk = self.blocks[j];
                    blk.lives = blk.lives - 1;
                    self.blocks[j] = blk;
                    proof {
                        lemma_blocks_model_update(bv, j as int, blk);
                    }
                    if blk.lives == 0 {
                        self.score = self.score + 1;
                        match blk.kind {
                            BlockKind::SpawnBallOnDeath => {
                                let ghost pv = pts@;
                                pts.push(Pos { x: ball.rect.x, y: ball.rect.y });
                                proof {
                                    lemma_pos_model_push(pv, Pos { x: ball.rect.x, y: ball.rect.y });
                                }
                            },
                            BlockKind::SizeIncrease => {
                                self.increase_size_timer.start_timer(POWERUP_MS);
                                self.player.rect.w = PLAYER_WIDE_W;
                            },
                            BlockKind::SpeedIncrease => {
                                self.increase_speed_timer.start_timer(POWERUP_MS);
                                self.player.speed = PLAYER_BOOST_SPEED;
                            },
                            BlockKind::Regular => {},
                        }
                    }
                }
                proof {
                    let step = spec_hit_one(st0, b0, pts0, j as int);
                    assert(spec_ball_blocks(m_i, ball1, pts_i, j as int + 1) == step);
                    assert(self@ =~= step.0);
                    assert(ball@ == step.1);
                    assert(pos_model(pts@) =~= step.2);
                }
                j = j + 1;
            }
            let ghost bvv = self.balls@;
            self.balls[i] = ball;
            proof {
                lemma_balls_model_update(bvv, i as int, ball);
                let pass = spec_ball_pass(m_i, pts_i, i as int);
                assert(self@ =~= pass.0);
                assert(spec_collide(m0, i as int + 1).0 == pass.0);
                assert(spec_collide(m0, i as int + 1).1 == pass.1);
            }
            i = i + 1;
        }
        pts
    }

    /// One Playing-mode frame over this round, in pipeline order: the paddle
    /// and every ball move, the powerup timers count down and restore done
    /// attributes, the collision pass runs, the balls it spawned are
    /// appended, balls past the bottom edge are dropped (losing the last one
    /// costs a life and either ends the round or respawns a ball above the
    /// paddle), and depleted blocks are dropped (an empty grid completes the
    /// level).  Returns the mode the game is in afterwards.
    #[verifier::rlimit(100)]
    pub fn tick(&mut self, inp: FrameInput) -> (m: Mode)
        requires
            round_ok(old(self)@),
            input_ok(inp),
        ensures
            exists|spawned: Seq<BallV>, respawn: BallV|
                playing_step_rel(old(self)@, inp, final(self)@, m, spawned, respawn),
    {
        let ghost pre = self@;
        self.player.update(inp.left_down, inp.right_down, inp.dt, inp.screen_w);
        move_balls(&mut self.balls, inp.dt, inp.screen_w);
        self.increase_size_timer.update(inp.dt);
        self.increase_speed_timer.update(inp.dt);
        if self.increase_size_timer.is_timer_done() {
            self.player.rect.w = PLAYER_W;
        }
        if self.increase_speed_timer.is_timer_done() {
            self.player.speed = PLAYER_BASE_SPEED;
        }
        proof {
            assert(self@ =~= spec_moved(pre, inp));
        }
        let ghost mv = self@;
        let pts = self.collide_pass();
        let ghost c = spec_collide(mv, mv.balls.len() as int);
        let ghost n0 = self.balls@.len() as int;
        let ghost before_append = self.balls@;
        append_spawned(&mut self.balls, &pts);
        let ghost spawned = balls_model(self.balls@).skip(n0);
        let ghost c2 = RoundModel { balls: c.0.balls + spawned, ..c.0 };
        proof {
            assert(spawned_ok(c.1, spawned)) by {
                assert(spawned.len() == c.1.len());
                assert forall|k: int| 0 <= k < c.1.len() implies (#[trigger] spawned[k]).rect
                    == spec_ball_rect(c.1[k]) && freshly_drawn(spawned[k]) by {
                    assert(spawned[k] == self.balls@[n0 + k]@);
                }
            }
            assert(self@ =~= c2);
        }
        let n_before = self.balls.len();
        retain_balls(&mut self.balls, inp.screen_h);
        let ghost kept = keep_balls(c2.balls, inp.screen_h as int);
        proof {
            assert(balls_model(self.balls@) == kept);
        }
        let ghost mut rw: BallV = BallV {
            rect: RectV { x: 0, y: 0, w: 0, h: 0 },
            vel: crate::geom::VelV { x: 0, y: 0 },
        };
        if self.balls.len() < n_before && self.balls.len() == 0 {
            self.player_lives = self.player_lives - 1;
            if self.player_lives <= 0 {
                proof {
                    assert(self@ =~= RoundModel { lives: c2.lives - 1, balls: kept, ..c2 });
                    assert(end_rel(c2, inp, self@, Mode::Dead, rw));
                    assert(playing_step_rel(pre, inp, self@, Mode::Dead, spawned, rw));
                }
                return Mode::Dead;
            }
            let nb = Ball::new(
                Pos { x: self.player.rect.x, y: self.player.rect.y - RESPAWN_ABOVE },
            );
            let ghost bv2 = self.balls@;
            self.balls.push(nb);
            proof {
                lemma_balls_model_push(bv2, nb);
                rw = nb@;
                assert(balls_model(self.balls@) =~= kept.push(rw));
            }
        }
        retain_blocks(&mut self.blocks);
        let m = if self.blocks.len() == 0 {
            Mode::LevelCompleted
        } else {
            Mode::Playing
        };
        proof {
            let lost_last = kept.len() < c2.balls.len() && kept.len() == 0;
            let lives3: int = if lost_last {
                c2.lives - 1
            } else {
                c2.lives
            };
            let balls3 = if lost_last {
                kept.push(rw)
            } else {
                kept
            };
            assert(self@ =~= RoundModel {
                lives: lives3,
                balls: balls3,
                blocks: keep_blocks(c2.blocks),
                ..c2
            });
            assert(end_rel(c2, inp, self@, m, rw));
            assert(playing_step_rel(pre, inp, self@, m, spawned, rw));
        }
        m
    }
}

/// The whole game: the top-level mode and the current round.
pub struct Game {
    pub mode: Mode,
    pub round: GameState,
}

impl Game {
    /// A new game: in the Menu, with a fresh round and one ball waiting at
    /// the middle of the screen, seven tenths of the way down.
    pub fn new(sw: i64, sh: i64) -> (g: Game)
        requires
            0 < sw <= DIM_LIMIT,
            0 < sh <= DIM_LIMIT,
        ensures
            g.mode == Mode::Menu,
            g.round@.score == 0,
            g.round@.lives == START_LIVES as int,
            g.round@.balls.len() == 1,
            g.round@.balls[0].rect == spec_ball_rect(
                PosV { x: sw as int / 2, y: sh as int * 7 / 10 },
            ),
            freshly_drawn(g.round@.balls[0]),
            crate::round::blocks_fresh(g.round@.blocks, sw as int),
            g.round@.player == crate::player::spec_player_new(sw as int, sh as int),
            g.round@.size_left == 0,
            g.round@.speed_left == 0,
            round_ok(g.round@),
    {
        let mut round = GameState::new(sw, sh);
        let ghost bv = round.balls@;
        let nb = Ball::new(Pos { x: sw / 2, y: sh * 7 / 10 });
        round.balls.push(nb);
        proof {
            lemma_balls_model_push(bv, nb);
        }
        Game { mode: Mode::Menu, round }
    }

    /// One frame of the game-mode state machine: the Menu starts playing on
    /// the start key; Playing runs the round's pipeline and adopts its exit
    /// mode; the two terminal screens return to the Menu on the start key
    /// with the whole round replaced by a fresh one.
    pub fn frame(&mut self, inp: FrameInput)
        requires
            round_ok(old(self).round@),
            input_ok(inp),
        ensures
            old(self).mode == Mode::Menu ==> final(self).round == old(self).round
                && final(self).mode == (if inp.start_pressed {
                Mode::Playing
            } else {
                Mode::Menu
            }),
            old(self).mode == Mode::Playing ==> exists|spawned: Seq<BallV>, respawn: BallV|
                playing_step_rel(
                    old(self).round@,
                    inp,
                    final(self).round@,
                    final(self).mode,
                    spawned,
                    respawn,
                ),
            (old(self).mode == Mode::LevelCompleted || old(self).mode == Mode::Dead)
                ==> if inp.start_pressed {
                final(self).mode == Mode::Menu && fresh_round(
                    final(self).round@,
                    inp.screen_w as int,
                    inp.screen_h as int,
                ) && round_ok(final(self).round@)
            } else {
                *final(self) == *old(self)
            },
    {
        match self.mode {
            Mode::Menu => {
                if inp.start_pressed {
                    self.mode = Mode::Playing;
                }
            },
            Mode::Playing => {
                let ghost pre_round = self.round@;
                let m = self.round.tick(inp);
                self.mode = m;
                proof {
                    let (s, r) = choose|s: Seq<BallV>, r: BallV|
                        playing_step_rel(pre_round, inp, self.round@, m, s, r);
                    assert(playing_step_rel(
                        old(self).round@,
                        inp,
                        self.round@,
                        self.mode,
                        s,
                        r,
                    ));
                }
            },
            Mode::LevelCompleted | Mode::Dead => {
                if inp.start_pressed {
                    self.mode = Mode::Menu;
                    self.round = GameState::new(inp.screen_w, inp.screen_h);
                }
            },
        }
    }
}

/// Runtime check of `input_ok`; the platform loop guards each frame with it.
pub fn input_within(inp: &FrameInput) -> (ok: bool)
    ensures
        ok == input_ok(*inp),
{
    0 <= inp.dt && inp.dt <= DT_LIMIT && 0 < inp.screen_w && inp.screen_w <= DIM_LIMIT && 0
        < inp.screen_h && inp.screen_h <= DIM_LIMIT
}

impl Game {
    /// Runtime check of the bounds `frame` requires of the round; the
    /// platform loop guards each frame with it.
    #[verifier::loop_isolation(false)]
    pub fn is_well_formed(&self) -> (r: bool)
        ensures
            r == round_ok(self.round@),
    {
        if !(0 <= self.round.score && self.round.score <= 1_000_000_000_000) {
            return false;
        }
        if !(0 <= self.round.player_lives && self.round.player_lives <= 1_000_000_000_000) {
            return false;
        }
        if self.round.balls.len() > 10_000 {
            return false;
        }
        if self.round.blocks.len() > 10_000 {
            return false;
        }
        if !(crate::geom::rect_within(&self.round.player.rect) && 0 <= self.round.player.speed
            && self.round.player.speed <= crate::player::SPEED_LIMIT) {
            return false;
        }
        if !(-TIMER_LIMIT <= self.round.increase_size_timer.time_left
            && self.round.increase_size_timer.time_left <= TIMER_LIMIT) {
            return false;
        }
        if !(-TIMER_LIMIT <= self.round.increase_speed_timer.time_left
            && self.round.increase_speed_timer.time_left <= TIMER_LIMIT) {
            return false;
        }
        let mut i: usize = 0;
        while i < self.round.balls.len()
            invariant
                i <= self.round.balls@.len(),
                forall|k: int| 0 <= k < i ==> ball_ok(#[trigger] self.round@.balls[k]),
            decreases self.round.balls@.len() - i,
        {
            let b = &self.round.balls[i];
            if !(crate::geom::rect_within(&b.rect) && crate::geom::vel_within(&b.vel)) {
                proof {
                    assert(!ball_ok(self.round@.balls[i as int]));
                }
                return false;
            }
            i = i + 1;
        }
        let mut j: usize = 0;
        while j < self.round.blocks.len()
            invariant
                j <= self.round.blocks@.len(),
                forall|k: int| 0 <= k < j ==> block_ok(#[trigger] self.round@.blocks[k]),
            decreases self.round.blocks@.len() - j,
        {
            let b = &self.round.blocks[j];
            if !(crate::geom::rect_within(&b.rect) && 0 <= b.lives && b.lives
                <= 1_000_000_000_000) {
                proof {
                    assert(!block_ok(self.round@.blocks[j as int]));
                }
                return false;
            }
            j = j + 1;
        }
        true
    }
}

} // verus!
