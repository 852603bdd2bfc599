use std::collections::VecDeque;
use vstd::prelude::*;
use crate::direction::Direction;
use crate::rng::random_u8;
use crate::stage::{in_grid, Position, GRID_SIZE};

verus! {

/// The snake: its body, head first and tail last, and its heading.
pub struct Snake {
    pub dir: Direction,
    pub body: VecDeque<Position>,
}

/// The cell one step from `p` along `d`.
pub open spec fn step_from(p: Position, d: Direction) -> (int, int) {
    (p.x + d.delta().0, p.y + d.delta().1)
}

/// The shape of a fresh snake: two cells, the head right above the tail,
/// the tail in the central half of the grid.
pub open spec fn is_fresh_body(body: Seq<Position>) -> bool {
    &&& body.len() == 2
    &&& body[0].x == body[1].x
    &&& body[0].y == body[1].y - 1
    &&& GRID_SIZE / 4 <= body[1].x < GRID_SIZE / 4 + GRID_SIZE / 2
    &&& GRID_SIZE / 4 <= body[1].y < GRID_SIZE / 4 + GRID_SIZE / 2
}

impl Snake {
    /// The body as a sequence, head first.
    pub open spec fn cells(&self) -> Seq<Position> {
        self.body@
    }

    pub open spec fn wf(&self) -> bool {
        self.body@.len() >= 1
    }

    pub open spec fn head(&self) -> Position {
        self.body@[0]
    }

    pub open spec fn tail(&self) -> Position {
        self.body@.last()
    }

    /// Every segment lies on the grid.
    pub open spec fn on_grid(&self) -> bool {
        forall|i: int| 0 <= i < self.body@.len() ==> #[trigger] in_grid(self.body@[i])
    }

    /// A fresh snake: one cell drawn at random in the central half of the
    /// grid, grown once upwards, heading up.
    pub fn new() -> (r: Snake)
        ensures
            r.wf(),
            r.on_grid(),
            is_fresh_body(r.body@),
            r.dir == Direction::UP,
    {
        let x: u8 = random_u8() % (GRID_SIZE / 2) + GRID_SIZE / 4;
        let y: u8 = random_u8() % (GRID_SIZE / 2) + GRID_SIZE / 4;
        let mut body: VecDeque<Position> = VecDeque::new();
        body.push_back(Position { x: x as i8, y: y as i8 });
        let mut snake = Snake { dir: Direction::UP, body };
        let next = snake.next_head(Direction::UP);
        snake.grow(next);
        snake
    }

    /// The cell one step from the head along `dir`; the snake is unchanged.
    pub fn next_head(&self, dir: Direction) -> (r: Position)
        requires
            self.wf(),
            -128 < self.head().x < 127,
            -128 < self.head().y < 127,
        ensures
            (r.x as int, r.y as int) == step_from(self.head(), dir),
    {
        let head = self.body[0];
        match dir {
            Direction::UP => Position { x: head.x, y: head.y - 1 },
            Direction::DOWN => Position { x: head.x, y: head.y + 1 },
            Direction::LEFT => Position { x: head.x - 1, y: head.y },
            Direction::RIGHT => Position { x: head.x + 1, y: head.y },
        }
    }

    /// True iff some segment equals `pos`.
    pub fn contains(&self, pos: &Position) -> (r: bool)
        ensures
            r == self.body@.contains(*pos),
    {
        let n = self.body.len();
        let mut i: usize = 0;
        while i < n
            invariant
                n == self.body@.len(),
                0 <= i <= n,
                forall|k: int| 0 <= k < i ==> self.body@[k] != *pos,
            decreases n - i,
        {
            if self.body[i] == *pos {
                return true;
            }
            i = i + 1;
        }
        false
    }

    /// Puts `pos` in front as the new head and keeps the tail: one segment
    /// longer.
    pub fn grow(&mut self, pos: Position)
        ensures
            final(self).body@ == seq![pos] + old(self).body@,
            final(self).body@.len() == old(self).body@.len() + 1,
            final(self).head() == pos,
            final(self).dir == old(self).dir,
    {
        self.body.push_front(pos);
    }

    /// Puts `pos` in front as the new head and drops the tail: same length.
    pub fn advance(&mut self, pos: Position)
        requires
            old(self).wf(),
        ensures
            final(self).body@ == seq![pos] + old(self).body@.drop_last(),
            final(self).body@.len() == old(self).body@.len(),
            final(self).head() == pos,
            final(self).dir == old(self).dir,
            pos != old(self).tail() && !old(self).body@.drop_last().contains(old(self).tail())
                ==> !final(self).body@.contains(old(self).tail()),
    {
        let _ = self.body.pop_back();
        self.body.push_front(pos);
        proof {
            let old_tail = old(self).tail();
            let rest = old(self).body@.drop_last();
            if pos != old_tail && !rest.contains(old_tail) {
                if self.body@.contains(old_tail) {
                    let k = choose|k: int| 0 <= k < self.body@.len() && self.body@[k] == old_tail;
                    assert(k > 0);
                    assert(rest[k - 1] == old_tail);
                }
            }
        }
    }
}

} // verus!
