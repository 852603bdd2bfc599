use vstd::prelude::*;
use vstd::set_lib::{lemma_int_range, lemma_len_subset, set_int_range};
use crate::rng::random_u8;
use crate::snake::Snake;
use crate::stage::{in_grid, Position, CELL_COUNT, GRID_SIZE};

verus! {

/// The food item.
#[derive(Debug, Clone, Copy, PartialEq, Eq, Structural)]
pub struct Apple {
    pub pos: Position,
}

/// Whether `p` lies in the square of side `size` whose corner is `(ox, oy)`.
pub open spec fn in_square(p: Position, ox: int, oy: int, size: int) -> bool {
    ox <= p.x < ox + size && oy <= p.y < oy + size
}

/// A snake whose segments lie on the grid and cover every cell of it has at
/// least as many segments as the grid has cells.
pub proof fn lemma_covering_snake_fills_grid(body: Seq<Position>)
    requires
        forall|i: int| 0 <= i < body.len() ==> #[trigger] in_grid(body[i]),
        forall|p: Position| in_grid(p) ==> #[trigger] body.contains(p),
    ensures
        body.len() >= CELL_COUNT,
{
    let keys = body.map_values(|p: Position| p.x * 16 + p.y);
    let all = set_int_range(0, 256);
    assert forall|k: int| all.contains(k) implies #[trigger] keys.to_set().contains(k) by {
        let p = Position { x: (k / 16) as i8, y: (k % 16) as i8 };
        assert(in_grid(p));
        assert(body.contains(p));
        let i = choose|i: int| 0 <= i < body.len() && body[i] == p;
        assert(keys[i] == k);
    }
    lemma_int_range(0, 256);
    lemma_len_subset(all, keys.to_set());
    keys.lemma_cardinality_of_set();
}

impl Apple {
    /// Whether the food lies on `pos`.
    pub fn is_at(&self, pos: &Position) -> (r: bool)
        ensures
            r == (self.pos == *pos),
    {
        self.pos == *pos
    }

    /// Places food for `snake` over the whole grid: first by the quadrant
    /// search of `next_pos`, then, if that landed on the snake, on the first
    /// free cell in row-major order. On a grid the snake does not fill, the
    /// food is never on the snake.
    pub fn new(snake: &Snake) -> (r: Apple)
        requires
            snake.wf(),
            snake.on_grid(),
        ensures
            in_grid(r.pos),
            snake.body@.len() < CELL_COUNT ==> !snake.body@.contains(r.pos),
    {
        let pos = Self::next_pos(snake, 0, 0, GRID_SIZE);
        if !snake.contains(&pos) {
            return Apple { pos };
        }
        match Self::first_free(snake) {
            Some(p) => Apple { pos: p },
            None => {
                proof {
                    lemma_covering_snake_fills_grid(snake.body@);
                }
                Apple { pos }
            },
        }
    }

    /// Draws a random cell in the square of side `area_size` at
    /// `(off_x, off_y)`. If it lies on the snake and the square can still be
    /// halved, searches again in the first quadrant (in the order (0,0), (0,1),
    /// (1,0), (1,1)) that holds the snake's tail; with no such quadrant, the
    /// drawn cell is returned as it is.
    pub fn next_pos(snake: &Snake, off_x: u8, off_y: u8, area_size: u8) -> (r: Position)
        requires
            snake.wf(),
            1 <= area_size,
            off_x + area_size <= GRID_SIZE,
            off_y + area_size <= GRID_SIZE,
        ensures
            in_square(r, off_x as int, off_y as int, area_size as int),
            in_grid(r),
        decreases area_size,
    {
        let pos = Position {
            x: (off_x + random_u8() % area_size) as i8,
            y: (off_y + random_u8() % area_size) as i8,
        };
        if area_size < 2 || !snake.contains(&pos) {
            return pos;
        }
        let half: u8 = area_size / 2;
        let tail = snake.body[snake.body.len() - 1];
        let mut k: u8 = 0;
        while k < 4
            invariant
                snake.wf(),
                1 <= half,
                2 * half <= area_size,
                off_x + area_size <= GRID_SIZE,
                off_y + area_size <= GRID_SIZE,
                in_square(pos, off_x as int, off_y as int, area_size as int),
                0 <= pos.x < GRID_SIZE,
                0 <= pos.y < GRID_SIZE,
            decreases 4 - k,
        {
            let qx: u8 = if k < 2 { off_x } else { off_x + half };
            let qy: u8 = if k % 2 == 0 { off_y } else { off_y + half };
            if qx as i16 <= tail.x as i16 && (tail.x as i16) < (qx + half) as i16 && qy as i16
                <= tail.y as i16 && (tail.y as i16) < (qy + half) as i16 {
                let r = Self::next_pos(snake, qx, qy, half);
                return r;
            }
            k = k + 1;
        }
        pos
    }

    /// The first cell, in row-major order, that the snake does not occupy;
    /// `None` when it occupies every cell of the grid.
    pub fn first_free(snake: &Snake) -> (r: Option<Position>)
        ensures
            match r {
                Some(p) => in_grid(p) && !snake.body@.contains(p),
                None => forall|p: Position| in_grid(p) ==> #[trigger] snake.body@.contains(p),
            },
    {
        let mut x: u8 = 0;
        while x < GRID_SIZE
            invariant
                x <= GRID_SIZE,
                forall|p: Position|
                    in_grid(p) && p.x < x ==> #[trigger] snake.body@.contains(p),
            decreases GRID_SIZE - x,
        {
            let mut y: u8 = 0;
            while y < GRID_SIZE
                invariant
                    x < GRID_SIZE,
                    y <= GRID_SIZE,
                    forall|p: Position|
                        in_grid(p) && (p.x < x || (p.x == x && p.y < y))
                            ==> #[trigger] snake.body@.contains(p),
                decreases GRID_SIZE - y,
            {
                let p = Position { x: x as i8, y: y as i8 };
                if !snake.contains(&p) {
                    return Some(p);
                }
                y = y + 1;
            }
            x = x + 1;
        }
        None
    }
}

} // verus!
