//! The static terrain of the arena: where its walls and platforms stand.

use crate::geometry::{ArenaBounds, Vec2};
use vstd::prelude::*;

verus! {

/// Half the thickness of a wall or platform.
pub const DEFAULT_PLATFORM_THICKNESS: i32 = 12_000;

/// Half the width of a floating platform.
pub const PLATFORM_HALF_WIDTH: i32 = 200_000;

/// One piece of terrain: a box with its centre, its half extents, the scale
/// applied to it, and whether it is drawn.
#[derive(Clone, Copy, Debug, PartialEq, Eq, Structural)]
pub struct Block {
    pub translation: Vec2,
    pub half_extents: Vec2,
    pub scale: Vec2,
    pub sprite: bool,
}

/// A box that is neither scaled nor drawn.
pub open spec fn wall(x: int, y: int, half_width: int, half_height: int) -> Block {
    Block {
        translation: Vec2 { x: x as i32, y: y as i32 },
        half_extents: Vec2 { x: half_width as i32, y: half_height as i32 },
        scale: Vec2 { x: 1000, y: 1000 },
        sprite: false,
    }
}

/// A box that is drawn, with its scale.
pub open spec fn tile(x: int, y: int, half_width: int, half_height: int, sx: int, sy: int) -> Block {
    Block {
        translation: Vec2 { x: x as i32, y: y as i32 },
        half_extents: Vec2 { x: half_width as i32, y: half_height as i32 },
        scale: Vec2 { x: sx as i32, y: sy as i32 },
        sprite: true,
    }
}

/// The largest side of a window for which the terrain is laid out.
pub const WINDOW_LIMIT: i32 = 1_000_000_000;

/// The terrain of a window of the given width and height: a ceiling, a
/// drawn floor, a wall on either side, each one platform thickness inside
/// the edge of the window, and eight floating platforms in three columns,
/// a hundred units apart in height above the floor.
pub open spec fn map_layout(width: int, height: int) -> Seq<Block> {
    let t = DEFAULT_PLATFORM_THICKNESS as int;
    let floor = -(height / 2) + t;
    let p = PLATFORM_HALF_WIDTH as int;
    seq![
        wall(0, height / 2 - t, width, t),
        tile(0, floor, 1000, 4000, width, 2000),
        wall(-(width / 2) + t, 0, t, height),
        wall(width / 2 - t, 0, t, height),
        wall(-300_000, floor + 100_000, p, t),
        wall(300_000, floor + 100_000, p, t),
        wall(0, floor + 200_000, p, t),
        wall(-300_000, floor + 300_000, p, t),
        wall(300_000, floor + 300_000, p, t),
        wall(0, floor + 400_000, p, t),
        wall(-300_000, floor + 500_000, p, t),
        wall(300_000, floor + 500_000, p, t),
    ]
}

/// The terrain of the small arena: four drawn platforms, below, left, right
/// and above the centre.
pub open spec fn block_layout() -> Seq<Block> {
    seq![
        tile(1000, -100_000, 192_000, 4000, 50_000, 1000),
        tile(-110_000, 0, 60_000, 4000, 16_000, 1000),
        tile(110_000, 0, 60_000, 4000, 16_000, 1000),
        tile(0, 100_000, 60_000, 4000, 16_000, 1000),
    ]
}

/// A box that is neither scaled nor drawn.
fn make_wall(x: i32, y: i32, half_width: i32, half_height: i32) -> (b: Block)
    ensures
        b == wall(x as int, y as int, half_width as int, half_height as int),
{
    Block {
        translation: Vec2 { x, y },
        half_extents: Vec2 { x: half_width, y: half_height },
        scale: Vec2 { x: 1000, y: 1000 },
        sprite: false,
    }
}

/// A box that is drawn, with its scale.
fn make_tile(x: i32, y: i32, half_width: i32, half_height: i32, sx: i32, sy: i32) -> (b: Block)
    ensures
        b == tile(x as int, y as int, half_width as int, half_height as int, sx as int, sy as int),
{
    Block {
        translation: Vec2 { x, y },
        half_extents: Vec2 { x: half_width, y: half_height },
        scale: Vec2 { x: sx, y: sy },
        sprite: true,
    }
}

/// Lays out the terrain for a window of the given width and height, or
/// nothing where a side is negative or beyond the limit.
pub fn setup_map(width: i32, height: i32) -> (r: Option<Vec<Block>>)
    ensures
        r.is_some() == (0 <= width <= WINDOW_LIMIT && 0 <= height <= WINDOW_LIMIT),
        r matches Some(blocks) ==> blocks@ == map_layout(width as int, height as int),
{
    if width < 0 || width > WINDOW_LIMIT || height < 0 || height > WINDOW_LIMIT {
        return None;
    }
    let t: i32 = DEFAULT_PLATFORM_THICKNESS;
    let floor: i32 = -(height / 2) + t;
    let p: i32 = PLATFORM_HALF_WIDTH;
    let mut blocks: Vec<Block> = Vec::new();
    blocks.push(make_wall(0, height / 2 - t, width, t));
    blocks.push(make_tile(0, floor, 1000, 4000, width, 2000));
    blocks.push(make_wall(-(width / 2) + t, 0, t, height));
    blocks.push(make_wall(width / 2 - t, 0, t, height));
    blocks.push(make_wall(-300_000, floor + 100_000, p, t));
    blocks.push(make_wall(300_000, floor + 100_000, p, t));
    blocks.push(make_wall(0, floor + 200_000, p, t));
    blocks.push(make_wall(-300_000, floor + 300_000, p, t));
    blocks.push(make_wall(300_000, floor + 300_000, p, t));
    blocks.push(make_wall(0, floor + 400_000, p, t));
    blocks.push(make_wall(-300_000, floor + 500_000, p, t));
    blocks.push(make_wall(300_000, floor + 500_000, p, t));
    assert(blocks@ =~= map_layout(width as int, height as int));
    Some(blocks)
}

/// Lays out the terrain of the small arena.
pub fn add_block() -> (blocks: Vec<Block>)
    ensures
        blocks@ == block_layout(),
{
    let mut blocks: Vec<Block> = Vec::new();
    blocks.push(make_tile(1000, -100_000, 192_000, 4000, 50_000, 1000));
    blocks.push(make_tile(-110_000, 0, 60_000, 4000, 16_000, 1000));
    blocks.push(make_tile(110_000, 0, 60_000, 4000, 16_000, 1000));
    blocks.push(make_tile(0, 100_000, 60_000, 4000, 16_000, 1000));
    assert(blocks@ =~= block_layout());
    blocks
}

/// The bounds of the arena for a window of the given width and height:
/// half of each, or nothing where a side is negative.
pub fn window_bounds(width: i32, height: i32) -> (r: Option<ArenaBounds>)
    ensures
        r.is_some() == (0 <= width && 0 <= height),
        r matches Some(b) ==> b.half_width == width / 2 && b.half_height == height / 2,
{
    if width < 0 || height < 0 {
        None
    } else {
        Some(ArenaBounds { half_width: width / 2, half_height: height / 2 })
    }
}

} // verus!
