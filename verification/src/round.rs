use crate::ball::{Ball, BallV, ball_ok};
use crate::block::{BLOCK_H, BLOCK_W, Block, BlockKind, BlockV, block_ok};
use crate::geom::{DIM_LIMIT, RectV};
use crate::player::{Player, PlayerV, player_ok, spec_player_new};
use crate::timer::{PowerupTimer, TIMER_LIMIT};
use vstd::prelude::*;

verus! {

/// Cell pitch of the grid: block size plus padding, in thousandths of a pixel.
pub const CELL_W: i64 = 105_000;

/// Vertical cell pitch of the grid.
pub const CELL_H: i64 = 45_000;

/// Total width of the grid, in thousandths of a pixel.
pub const GRID_W: i64 = 630_000;

/// Vertical offset of the grid from the top of the screen.
pub const GRID_TOP: i64 = 50_000;

/// Lives a round starts with.
pub const START_LIVES: i64 = 3;

/// The model view of one sequence of blocks.
pub open spec fn blocks_model(s: Seq<Block>) -> Seq<BlockV> {
    s.map_values(|b: Block| b@)
}

/// The model view of one sequence of balls.
pub open spec fn balls_model(s: Seq<Ball>) -> Seq<BallV> {
    s.map_values(|b: Ball| b@)
}

/// How many blocks of `s` carry the kind `k`.
pub open spec fn count_kind(s: Seq<BlockV>, k: BlockKind) -> int
    decreases s.len(),
{
    if s.len() == 0 {
        0
    } else {
        count_kind(s.drop_last(), k) + if s.last().kind == k {
            1int
        } else {
            0int
        }
    }
}

/// Overwriting one block's kind raises the count of a kind by at most one,
/// and only of the kind written.
pub proof fn lemma_count_update(s: Seq<BlockV>, i: int, b: BlockV, k: BlockKind)
    requires
        0 <= i < s.len(),
    ensures
        count_kind(s.update(i, b), k) <= count_kind(s, k) + if b.kind == k {
            1int
        } else {
            0int
        },
    decreases s.len(),
{
    let su = s.update(i, b);
    if i == s.len() - 1 {
        assert(su.drop_last() =~= s.drop_last());
    } else {
        assert(su.drop_last() =~= s.drop_last().update(i, b));
        lemma_count_update(s.drop_last(), i, b, k);
        assert(su.last() == s.last());
    }
}

/// A kind count is never negative.
pub proof fn lemma_count_nonneg(s: Seq<BlockV>, k: BlockKind)
    ensures
        count_kind(s, k) >= 0,
    decreases s.len(),
{
    if s.len() > 0 {
        lemma_count_nonneg(s.drop_last(), k);
    }
}

/// Writing a block of kind `k` leaves at least one block of kind `k`.
pub proof fn lemma_count_update_present(s: Seq<BlockV>, i: int, b: BlockV, k: BlockKind)
    requires
        0 <= i < s.len(),
        b.kind == k,
    ensures
        count_kind(s.update(i, b), k) >= 1,
    decreases s.len(),
{
    let su = s.update(i, b);
    if i == s.len() - 1 {
        assert(su.drop_last() =~= s.drop_last());
        lemma_count_nonneg(s.drop_last(), k);
    } else {
        assert(su.drop_last() =~= s.drop_last().update(i, b));
        lemma_count_update_present(s.drop_last(), i, b, k);
        assert(su.last() == s.last());
    }
}

/// Pushing an element onto a viewed sequence pushes its view.
pub proof fn lemma_blocks_model_push(s: Seq<Block>, b: Block)
    ensures
        blocks_model(s.push(b)) =~= blocks_model(s).push(b@),
{
}

/// Updating an element of a viewed sequence updates its view.
pub proof fn lemma_blocks_model_update(s: Seq<Block>, i: int, b: Block)
    requires
        0 <= i < s.len(),
    ensures
        blocks_model(s.update(i, b)) =~= blocks_model(s).update(i, b@),
{
}

/// Pushing a ball onto a viewed sequence pushes its view.
pub proof fn lemma_balls_model_push(s: Seq<Ball>, b: Ball)
    ensures
        balls_model(s.push(b)) =~= balls_model(s).push(b@),
{
}

/// Updating a ball of a viewed sequence updates its view.
pub proof fn lemma_balls_model_update(s: Seq<Ball>, i: int, b: Ball)
    requires
        0 <= i < s.len(),
    ensures
        balls_model(s.update(i, b)) =~= balls_model(s).update(i, b@),
{
}

/// Horizontal start of the grid: the leftover screen width split in half
/// (negative when the screen is narrower than the grid).
pub open spec fn grid_start_x(sw: int) -> int {
    if sw >= GRID_W {
        (sw - GRID_W) / 2
    } else {
        -((GRID_W - sw) / 2)
    }
}

/// Position of grid cell `i`, row-major over a 6 by 6 grid.
pub open spec fn grid_x(sw: int, i: int) -> int {
    grid_start_x(sw) + (i % 6) * CELL_W
}

pub open spec fn grid_y(i: int) -> int {
    GRID_TOP + (i / 6) * CELL_H
}

/// A freshly generated grid: exactly 36 blocks laid out row-major, all with
/// both lives, and at most 3 blocks of each special variant (fewer when the
/// random picks collide or a later pass overwrites an earlier one).  The
/// speed variant is stamped by the last pass, so at least one of it always
/// survives.
pub open spec fn blocks_fresh(s: Seq<BlockV>, sw: int) -> bool {
    &&& s.len() == 36
    &&& forall|i: int|
        0 <= i < 36 ==> (#[trigger] s[i]).rect == (RectV {
            x: grid_x(sw, i),
            y: grid_y(i),
            w: BLOCK_W as int,
            h: BLOCK_H as int,
        }) && s[i].lives == 2
    &&& count_kind(s, BlockKind::SpawnBallOnDeath) <= 3
    &&& count_kind(s, BlockKind::SizeIncrease) <= 3
    &&& 1 <= count_kind(s, BlockKind::SpeedIncrease) <= 3
}

/// A fresh grid has at most 9 special blocks in all.
pub proof fn lemma_fresh_specials_at_most_nine(s: Seq<BlockV>, sw: int)
    requires
        blocks_fresh(s, sw),
    ensures
        count_kind(s, BlockKind::SpawnBallOnDeath) + count_kind(s, BlockKind::SizeIncrease)
            + count_kind(s, BlockKind::SpeedIncrease) <= 9,
{
}

/// Relies on macroquad::rand::gen_range::<usize> (quad_rand): it returns
/// low + (high - low) * k / 2^32 truncated for a pseudo-random k < 2^32,
/// which for these small ranges always lies in [0, n).
#[verifier::external_body]
fn random_index(n: usize) -> (r: usize)
    requires
        0 < n <= 100_000,
    ensures
        r < n,
{
    macroquad::rand::gen_range(0usize, n)
}

/// One reassignment pass: pick a uniformly random cell three times and
/// overwrite its variant with `kind` (picks may repeat).
fn assign_kind(blocks: &mut Vec<Block>, kind: BlockKind)
    requires
        old(blocks)@.len() == 36,
    ensures
        final(blocks)@.len() == 36,
        forall|i: int|
            0 <= i < 36 ==> (#[trigger] final(blocks)@[i])@.rect == old(blocks)@[i]@.rect
                && final(blocks)@[i]@.lives == old(blocks)@[i]@.lives,
        count_kind(blocks_model(final(blocks)@), kind) <= count_kind(
            blocks_model(old(blocks)@),
            kind,
        ) + 3,
        count_kind(blocks_model(final(blocks)@), kind) >= 1,
        forall|k2: BlockKind|
            k2 != kind ==> #[trigger] count_kind(blocks_model(final(blocks)@), k2) <= count_kind(
                blocks_model(old(blocks)@),
                k2,
            ),
{
    let mut t: usize = 0;
    while t < 3
        invariant
            t <= 3,
            blocks@.len() == 36,
            forall|i: int|
                0 <= i < 36 ==> (#[trigger] blocks@[i])@.rect == old(blocks)@[i]@.rect && blocks@[i]@.lives
                    == old(blocks)@[i]@.lives,
            count_kind(blocks_model(blocks@), kind) <= count_kind(blocks_model(old(blocks)@), kind)
                + t,
            t >= 1 ==> count_kind(blocks_model(blocks@), kind) >= 1,
            forall|k2: BlockKind|
                k2 != kind ==> #[trigger] count_kind(blocks_model(blocks@), k2) <= count_kind(
                    blocks_model(old(blocks)@),
                    k2,
                ),
        decreases 3 - t,
    {
        let idx = random_index(36);
        let ghost pre = blocks@;
        let mut b = blocks[idx];
        b.kind = kind;
        blocks[idx] = b;
        proof {
            lemma_blocks_model_update(pre, idx as int, b);
            lemma_count_update(blocks_model(pre), idx as int, b@, kind);
            lemma_count_update_present(blocks_model(pre), idx as int, b@, kind);
            assert forall|k2: BlockKind| k2 != kind implies #[trigger] count_kind(
                blocks_model(blocks@),
                k2,
            ) <= count_kind(blocks_model(old(blocks)@), k2) by {
                lemma_count_update(blocks_model(pre), idx as int, b@, k2);
            }
        }
        t = t + 1;
    }
}

/// Lay out the round's grid: 36 regular blocks centered horizontally with
/// fixed padding, then three random-pick passes that stamp each special
/// variant onto three (not necessarily distinct) cells.
pub fn init_blocks(sw: i64) -> (blocks: Vec<Block>)
    requires
        0 <= sw <= DIM_LIMIT,
    ensures
        blocks_fresh(blocks_model(blocks@), sw as int),
{
    let mut blocks: Vec<Block> = Vec::new();
    let start_x: i64 = if sw >= GRID_W {
        (sw - GRID_W) / 2
    } else {
        -((GRID_W - sw) / 2)
    };
    let mut i: usize = 0;
    while i < 36
        invariant
            i <= 36,
            blocks@.len() == i,
            0 <= sw <= DIM_LIMIT,
            start_x as int == grid_start_x(sw as int),
            forall|j: int|
                0 <= j < i ==> (#[trigger] blocks@[j])@ == (BlockV {
                    rect: RectV {
                        x: grid_x(sw as int, j),
                        y: grid_y(j),
                        w: BLOCK_W as int,
                        h: BLOCK_H as int,
                    },
                    lives: 2,
                    kind: BlockKind::Regular,
                }),
        decreases 36 - i,
    {
        let bx = start_x + ((i % 6) as i64) * CELL_W;
        let by = GRID_TOP + ((i / 6) as i64) * CELL_H;
        blocks.push(Block::new(bx, by, BlockKind::Regular));
        i = i + 1;
    }
    proof {
        assert(count_kind(blocks_model(blocks@), BlockKind::SpawnBallOnDeath) == 0
            && count_kind(blocks_model(blocks@), BlockKind::SizeIncrease) == 0
            && count_kind(blocks_model(blocks@), BlockKind::SpeedIncrease) == 0) by {
            lemma_count_regular(blocks_model(blocks@));
        }
    }
    assign_kind(&mut blocks, BlockKind::SpawnBallOnDeath);
    assign_kind(&mut blocks, BlockKind::SizeIncrease);
    assign_kind(&mut blocks, BlockKind::SpeedIncrease);
    blocks
}

/// A sequence of regular blocks holds none of any other kind.
proof fn lemma_count_regular(s: Seq<BlockV>)
    requires
        forall|i: int| 0 <= i < s.len() ==> (#[trigger] s[i]).kind == BlockKind::Regular,
    ensures
        forall|k: BlockKind|
            k != BlockKind::Regular ==> #[trigger] count_kind(s, k) == 0,
    decreases s.len(),
{
    if s.len() > 0 {
        assert forall|i: int| 0 <= i < s.drop_last().len() implies (#[trigger] s.drop_last()[i]).kind
            == BlockKind::Regular by {
            assert(s.drop_last()[i] == s[i]);
        }
        lemma_count_regular(s.drop_last());
        assert forall|k: BlockKind| k != BlockKind::Regular implies #[trigger] count_kind(s, k)
            == 0 by {
            assert(s.last().kind == BlockKind::Regular);
            assert(count_kind(s.drop_last(), k) == 0);
        }
    }
}

/// The per-round aggregate: score, lives, the entity collections, the paddle
/// and the two powerup timers.  A new round replaces the whole value.
pub struct GameState {
    pub score: i64,
    pub player_lives: i64,
    pub blocks: Vec<Block>,
    pub balls: Vec<Ball>,
    pub player: Player,
    pub increase_size_timer: PowerupTimer,
    pub increase_speed_timer: PowerupTimer,
}

/// Mathematical image of a round.
#[verifier::ext_equal]
pub struct RoundModel {
    pub score: int,
    pub lives: int,
    pub blocks: Seq<BlockV>,
    pub balls: Seq<BallV>,
    pub player: PlayerV,
    pub size_left: int,
    pub speed_left: int,
}

impl View for GameState {
    type V = RoundModel;

    open spec fn view(&self) -> RoundModel {
        RoundModel {
            score: self.score as int,
            lives: self.player_lives as int,
            blocks: blocks_model(self.blocks@),
            balls: balls_model(self.balls@),
            player: self.player@,
            size_left: self.increase_size_timer.time_left as int,
            speed_left: self.increase_speed_timer.time_left as int,
        }
    }
}

/// Bounds under which one frame of the round stays exact i64 arithmetic.
pub open spec fn round_ok(m: RoundModel) -> bool {
    &&& 0 <= m.score <= 1_000_000_000_000
    &&& 0 <= m.lives <= 1_000_000_000_000
    &&& m.balls.len() <= 10_000
    &&& m.blocks.len() <= 10_000
    &&& forall|i: int| 0 <= i < m.balls.len() ==> ball_ok(#[trigger] m.balls[i])
    &&& forall|i: int| 0 <= i < m.blocks.len() ==> block_ok(#[trigger] m.blocks[i])
    &&& player_ok(m.player)
    &&& -TIMER_LIMIT <= m.size_left <= TIMER_LIMIT
    &&& -TIMER_LIMIT <= m.speed_left <= TIMER_LIMIT
}

/// A round as a new game or a reset leaves it: zero score, full lives, no
/// balls, a fresh grid, the base paddle, both timers expired.
pub open spec fn fresh_round(m: RoundModel, sw: int, sh: int) -> bool {
    &&& m.score == 0
    &&& m.lives == START_LIVES as int
    &&& m.balls.len() == 0
    &&& blocks_fresh(m.blocks, sw)
    &&& m.player == spec_player_new(sw, sh)
    &&& m.size_left == 0
    &&& m.speed_left == 0
}

impl GameState {
    /// A fresh round for the given screen size.
    pub fn new(sw: i64, sh: i64) -> (g: GameState)
        requires
            0 <= sw <= DIM_LIMIT,
            0 <= sh <= DIM_LIMIT,
        ensures
            fresh_round(g@, sw as int, sh as int),
            round_ok(g@),
    {
        let g = GameState {
            score: 0,
            player_lives: START_LIVES,
            balls: Vec::new(),
            blocks: init_blocks(sw),
            player: Player::new(sw, sh),
            increase_size_timer: PowerupTimer::new(),
            increase_speed_timer: PowerupTimer::new(),
        };
        proof {
            assert forall|i: int| 0 <= i < g@.blocks.len() implies block_ok(
                #[trigger] g@.blocks[i],
            ) by {
                assert(blocks_fresh(g@.blocks, sw as int));
            }
        }
        g
    }
}

} // verus!
