use vstd::prelude::*;

verus! {

/// Side length of the square grid the engine plays on.
pub const GRID_SIZE: u8 = 16;

/// Number of cells of the engine's grid: the baseline score, the reward for
/// eating, and the body length at which the game is won.
pub const CELL_COUNT: usize = 256;

/// A grid cell. Coordinates may leave the grid transiently, so that a
/// candidate move can be rejected before it is committed.
#[derive(Debug, Clone, Copy, PartialEq, Eq, Structural)]
pub struct Position {
    pub x: i8,
    pub y: i8,
}

/// Whether `p` lies on the engine's `GRID_SIZE` by `GRID_SIZE` grid.
pub open spec fn in_grid(p: Position) -> bool {
    0 <= p.x < GRID_SIZE && 0 <= p.y < GRID_SIZE
}

/// The bounds of the playing field.
#[derive(Debug, Clone, Copy, PartialEq, Eq, Structural)]
pub struct Stage {
    pub w: u8,
    pub h: u8,
}

impl Stage {
    /// Whether `p` lies outside the `w` by `h` field.
    pub open spec fn outside(self, p: Position) -> bool {
        p.x < 0 || p.x >= self.w || p.y < 0 || p.y >= self.h
    }

    /// The field of the engine.
    pub fn grid() -> (r: Stage)
        ensures
            r.w == GRID_SIZE,
            r.h == GRID_SIZE,
    {
        Stage { w: GRID_SIZE, h: GRID_SIZE }
    }

    /// True iff some coordinate of `pos` is negative or not below the
    /// matching dimension.
    pub fn out_of_bounds(&self, pos: &Position) -> (r: bool)
        ensures
            r == self.outside(*pos),
            r == (pos.x < 0 || pos.x >= self.w || pos.y < 0 || pos.y >= self.h),
    {
        pos.x < 0 || (pos.x as i16) >= (self.w as i16) || pos.y < 0 || (pos.y as i16) >= (
        self.h as i16)
    }
}

/// Every cell strictly inside a `w` by `h` field is in bounds.
pub proof fn lemma_inside_is_in_bounds(stage: Stage, p: Position)
    requires
        0 <= p.x < stage.w,
        0 <= p.y < stage.h,
    ensures
        !stage.outside(p),
{
}

} // verus!
