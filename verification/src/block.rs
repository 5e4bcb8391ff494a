use crate::geom::{Rect, RectV, rect_ok};
use vstd::prelude::*;

verus! {

/// Width of a block, in thousandths of a pixel.
pub const BLOCK_W: i64 = 100_000;

/// Height of a block, in thousandths of a pixel.
pub const BLOCK_H: i64 = 40_000;

/// Lives a block starts with.
pub const BLOCK_START_LIVES: i64 = 2;

/// The special behaviour a block triggers when its lives run out.
#[derive(Clone, Copy, PartialEq, Eq, Structural, Debug)]
pub enum BlockKind {
    Regular,
    SpawnBallOnDeath,
    SizeIncrease,
    SpeedIncrease,
}

/// One tint per (kind, damage tier): the first of each pair is the full
/// two-life tint, the second the damaged one.
#[derive(Clone, Copy, PartialEq, Eq, Structural, Debug)]
pub enum BlockColor {
    Red,
    Orange,
    DarkGreen,
    Green,
    DarkBlue,
    Blue,
    Purple,
    Pink,
}

/// A grid block: a fixed-size rectangle, a life counter and a variant tag.
#[derive(Clone, Copy, PartialEq, Eq, Structural, Debug)]
pub struct Block {
    pub rect: Rect,
    pub lives: i64,
    pub kind: BlockKind,
}

/// Mathematical image of a block.
pub struct BlockV {
    pub rect: RectV,
    pub lives: int,
    pub kind: BlockKind,
}

impl View for Block {
    type V = BlockV;

    open spec fn view(&self) -> BlockV {
        BlockV { rect: self.rect@, lives: self.lives as int, kind: self.kind }
    }
}

pub open spec fn block_ok(b: BlockV) -> bool {
    &&& rect_ok(b.rect)
    &&& 0 <= b.lives <= 1_000_000_000_000
}

/// The tint a block is drawn with: one tier while it has both lives, the
/// damaged tier of the same kind otherwise.
pub open spec fn spec_block_color(kind: BlockKind, lives: int) -> BlockColor {
    match kind {
        BlockKind::Regular => if lives == 2 {
            BlockColor::Red
        } else {
            BlockColor::Orange
        },
        BlockKind::SpawnBallOnDeath => if lives == 2 {
            BlockColor::DarkGreen
        } else {
            BlockColor::Green
        },
        BlockKind::SizeIncrease => if lives == 2 {
            BlockColor::DarkBlue
        } else {
            BlockColor::Blue
        },
        BlockKind::SpeedIncrease => if lives == 2 {
            BlockColor::Purple
        } else {
            BlockColor::Pink
        },
    }
}

impl Block {
    /// A fresh block of the given kind at the given position, with both lives.
    pub fn new(x: i64, y: i64, kind: BlockKind) -> (b: Block)
        ensures
            b@ == (BlockV {
                rect: RectV { x: x as int, y: y as int, w: BLOCK_W as int, h: BLOCK_H as int },
                lives: BLOCK_START_LIVES as int,
                kind,
            }),
    {
        Block { rect: Rect { x, y, w: BLOCK_W, h: BLOCK_H }, lives: BLOCK_START_LIVES, kind }
    }

    /// The tint this block is drawn with.
    pub fn color(&self) -> (c: BlockColor)
        ensures
            c == spec_block_color(self.kind, self.lives as int),
    {
        match self.kind {
            BlockKind::Regular => if self.lives == 2 {
                BlockColor::Red
            } else {
                BlockColor::Orange
            },
            BlockKind::SpawnBallOnDeath => if self.lives == 2 {
                BlockColor::DarkGreen
            } else {
                BlockColor::Green
            },
            BlockKind::SizeIncrease => if self.lives == 2 {
                BlockColor::DarkBlue
            } else {
                BlockColor::Blue
            },
            BlockKind::SpeedIncrease => if self.lives == 2 {
                BlockColor::Purple
            } else {
                BlockColor::Pink
            },
        }
    }
}

} // verus!
