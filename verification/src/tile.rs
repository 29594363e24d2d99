//! Terrain tiles.

use vstd::prelude::*;

verus! {

/// One cell of terrain: an optional sprite and whether it blocks movement.
#[derive(Clone, Copy, Debug, PartialEq, Eq)]
pub struct Tile {
    pub sprite_index: Option<usize>,
    pub is_wall: bool,
}

/// The blank tile outside the playable area; it blocks movement.
pub open spec fn nothing_tile() -> Tile {
    Tile { sprite_index: None, is_wall: true }
}

/// An open floor tile.
pub open spec fn floor_tile() -> Tile {
    Tile { sprite_index: Some(870usize), is_wall: false }
}

/// A wall tile running along a column.
pub open spec fn vert_wall_tile() -> Tile {
    Tile { sprite_index: Some(851usize), is_wall: true }
}

/// A wall tile running along a row.
pub open spec fn horiz_wall_tile() -> Tile {
    Tile { sprite_index: Some(852usize), is_wall: true }
}

/// The top-left corner wall tile.
pub open spec fn top_left_wall_tile() -> Tile {
    Tile { sprite_index: Some(853usize), is_wall: true }
}

/// The top-right corner wall tile.
pub open spec fn top_right_wall_tile() -> Tile {
    Tile { sprite_index: Some(854usize), is_wall: true }
}

/// The bottom-left corner wall tile.
pub open spec fn bot_left_wall_tile() -> Tile {
    Tile { sprite_index: Some(855usize), is_wall: true }
}

/// The bottom-right corner wall tile.
pub open spec fn bot_right_wall_tile() -> Tile {
    Tile { sprite_index: Some(856usize), is_wall: true }
}

impl Tile {
    pub fn nothing() -> (r: Tile)
        ensures
            r == nothing_tile(),
    {
        Tile { sprite_index: None, is_wall: true }
    }

    pub fn floor() -> (r: Tile)
        ensures
            r == floor_tile(),
    {
        Tile { sprite_index: Some(870), is_wall: false }
    }

    pub fn vert_wall() -> (r: Tile)
        ensures
            r == vert_wall_tile(),
    {
        Tile { sprite_index: Some(851), is_wall: true }
    }

    pub fn horiz_wall() -> (r: Tile)
        ensures
            r == horiz_wall_tile(),
    {
        Tile { sprite_index: Some(852), is_wall: true }
    }

    pub fn top_left_wall() -> (r: Tile)
        ensures
            r == top_left_wall_tile(),
    {
        Tile { sprite_index: Some(853), is_wall: true }
    }

    pub fn top_right_wall() -> (r: Tile)
        ensures
            r == top_right_wall_tile(),
    {
        Tile { sprite_index: Some(854), is_wall: true }
    }

    pub fn bot_left_wall() -> (r: Tile)
        ensures
            r == bot_left_wall_tile(),
    {
        Tile { sprite_index: Some(855), is_wall: true }
    }

    pub fn bot_right_wall() -> (r: Tile)
        ensures
            r == bot_right_wall_tile(),
    {
        Tile { sprite_index: Some(856), is_wall: true }
    }
}

} // verus!
