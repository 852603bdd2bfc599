use vstd::prelude::*;
use crate::apple::Apple;
use crate::direction::{turn, Action, Direction};
use crate::snake::{is_fresh_body, step_from, Snake};
use crate::stage::{in_grid, Position, Stage, CELL_COUNT, GRID_SIZE};

verus! {

/// Tag of an empty cell in the board view.
pub const EMPTY: i32 = 0;

/// Tag of a cell under the snake in the board view.
pub const SNAKE: i32 = 1;

/// Tag of the food cell in the board view.
pub const FOOD: i32 = 2;

/// The mathematical state of an engine.
pub struct GameModel {
    pub score: int,
    pub max_score: int,
    pub dir: Direction,
    /// Head first, tail last.
    pub body: Seq<Position>,
    pub food: Position,
}

/// The cell at `(x, y)`, for coordinates that fit.
pub open spec fn cell(c: (int, int)) -> Position {
    Position { x: c.0 as i8, y: c.1 as i8 }
}

/// Whether the coordinates `c` name a cell of the grid.
pub open spec fn on_grid(c: (int, int)) -> bool {
    0 <= c.0 < GRID_SIZE && 0 <= c.1 < GRID_SIZE
}

/// The tag the board view shows at `(x, y)`: the food is drawn over the snake.
pub open spec fn tag_at(m: GameModel, x: int, y: int) -> i32 {
    if m.food.x == x && m.food.y == y {
        FOOD
    } else if m.body.contains(cell((x, y))) {
        SNAKE
    } else {
        EMPTY
    }
}

/// Whether `board`, indexed `[x][y]`, is the view of `m`.
pub open spec fn shows(board: Seq<Seq<i32>>, m: GameModel) -> bool {
    &&& board.len() == GRID_SIZE
    &&& forall|x: int| 0 <= x < GRID_SIZE ==> #[trigger] board[x].len() == GRID_SIZE
    &&& forall|x: int, y: int|
        0 <= x < GRID_SIZE && 0 <= y < GRID_SIZE ==> #[trigger] board[x][y] == tag_at(m, x, y)
}

impl GameModel {
    /// A state the engine can be in: the snake lies on the grid, does not
    /// exceed it and covers no cell twice; the food lies on the grid, and off
    /// the snake unless the snake fills the grid; the scores are bounded by
    /// what the snake's length allows.
    pub open spec fn wf(self) -> bool {
        &&& 1 <= self.body.len() <= CELL_COUNT
        &&& forall|i: int| 0 <= i < self.body.len() ==> #[trigger] in_grid(self.body[i])
        &&& self.body.no_duplicates()
        &&& in_grid(self.food)
        &&& self.body.len() < CELL_COUNT ==> !self.body.contains(self.food)
        &&& self.score <= CELL_COUNT * self.body.len()
        &&& CELL_COUNT <= self.max_score <= CELL_COUNT * CELL_COUNT
        &&& self.score <= self.max_score
    }

    /// A state with the given snake and food and both scores at the baseline.
    pub open spec fn at_baseline(dir: Direction, body: Seq<Position>, food: Position) -> GameModel {
        GameModel { score: CELL_COUNT as int, max_score: CELL_COUNT as int, dir, body, food }
    }

    /// The cell the head would move to after `action`.
    pub open spec fn target(self, action: Action) -> (int, int) {
        step_from(self.body[0], self.dir.turned(action))
    }

    /// The step taken on `action` went from `pre` to `post`, with `reward`
    /// and `done` as its result. Won: the snake fills the grid. Died: the
    /// target is off the grid or on the snake. Ate: the target holds the
    /// food. Moved: anything else.
    pub open spec fn stepped(pre: GameModel, post: GameModel, action: Action, reward: int, done: bool) -> bool {
        let c = pre.target(action);
        &&& post.dir == pre.dir.turned(action)
        &&& post.max_score == (if post.score > pre.max_score {
            post.score
        } else {
            pre.max_score
        })
        &&& if pre.body.len() >= CELL_COUNT {
            &&& reward == CELL_COUNT
            &&& done
            &&& post.body == pre.body
            &&& post.food == pre.food
            &&& post.score == pre.score
        } else if !on_grid(c) || pre.body.contains(cell(c)) {
            &&& reward == -(pre.score - CELL_COUNT)
            &&& done
            &&& post.body == pre.body
            &&& post.food == pre.food
            &&& post.score == pre.score
        } else if cell(c) == pre.food {
            &&& reward == CELL_COUNT
            &&& !done
            &&& post.body == seq![cell(c)] + pre.body
            &&& post.score == pre.score + CELL_COUNT
        } else {
            &&& reward == -1
            &&& !done
            &&& post.body == seq![cell(c)] + pre.body.drop_last()
            &&& post.food == pre.food
            &&& post.score == pre.score - 1
        }
    }

    /// A reset went from `pre` to `post`: a fresh snake of two cells with
    /// food off it, the score back at its baseline, the best score kept.
    pub open spec fn was_reset(pre: GameModel, post: GameModel) -> bool {
        &&& post.score == CELL_COUNT
        &&& post.max_score == pre.max_score
        &&& is_fresh_body(post.body)
        &&& !post.body.contains(post.food)
        &&& post.dir == Direction::UP
    }
}

/// The simulation engine.
pub struct Game {
    score: i64,
    max_score: i64,
    snake: Snake,
    apple: Apple,
    stage: Stage,
}

impl View for Game {
    type V = GameModel;

    closed spec fn view(&self) -> GameModel {
        GameModel {
            score: self.score as int,
            max_score: self.max_score as int,
            dir: self.snake.dir,
            body: self.snake.body@,
            food: self.apple.pos,
        }
    }
}

impl Game {
    /// The engine's invariant.
    pub closed spec fn inv(&self) -> bool {
        &&& self.stage == Stage { w: GRID_SIZE, h: GRID_SIZE }
        &&& self@.wf()
    }

    /// A fresh engine on the 16 by 16 grid, with a random snake and food.
    pub fn new() -> (r: Game)
        ensures
            r.inv(),
            r@.score == CELL_COUNT,
            r@.max_score == CELL_COUNT,
            is_fresh_body(r@.body),
            r@.dir == Direction::UP,
            !r@.body.contains(r@.food),
    {
        let snake = Snake::new();
        let apple = Apple::new(&snake);
        Game { score: CELL_COUNT as i64, max_score: CELL_COUNT as i64, snake, apple, stage: Stage::grid() }
    }

    /// An engine on the 16 by 16 grid holding `snake` and `apple`, with the
    /// score at its baseline; `None` unless that is a state the engine can be
    /// in.
    pub fn from_parts(snake: Snake, apple: Apple) -> (r: Option<Game>)
        ensures
            r.is_some() == GameModel::at_baseline(snake.dir, snake.body@, apple.pos).wf(),
            match r {
                Some(g) => {
                    &&& g.inv()
                    &&& g@.score == CELL_COUNT
                    &&& g@.max_score == CELL_COUNT
                    &&& g@.dir == snake.dir
                    &&& g@.body == snake.body@
                    &&& g@.food == apple.pos
                },
                None => true,
            },
    {
        let n = snake.body.len();
        if n < 1 || n > CELL_COUNT {
            return None;
        }
        let mut i: usize = 0;
        while i < n
            invariant
                n == snake.body@.len(),
                i <= n,
                forall|k: int| 0 <= k < i ==> #[trigger] in_grid(snake.body@[k]),
            decreases n - i,
        {
            let p = snake.body[i];
            if p.x < 0 || p.x >= GRID_SIZE as i8 || p.y < 0 || p.y >= GRID_SIZE as i8 {
                assert(!in_grid(snake.body@[i as int]));
                return None;
            }
            i = i + 1;
        }
        if !Self::all_distinct(&snake) {
            return None;
        }
        let f = apple.pos;
        if f.x < 0 || f.x >= GRID_SIZE as i8 || f.y < 0 || f.y >= GRID_SIZE as i8 {
            return None;
        }
        if n < CELL_COUNT && snake.contains(&f) {
            return None;
        }
        Some(Game { score: CELL_COUNT as i64, max_score: CELL_COUNT as i64, snake, apple, stage: Stage::grid() })
    }

    /// Whether no two segments of `snake` share a cell.
    fn all_distinct(snake: &Snake) -> (r: bool)
        ensures
            r == snake.body@.no_duplicates(),
    {
        let n = snake.body.len();
        let mut i: usize = 0;
        while i < n
            invariant
                n == snake.body@.len(),
                i <= n,
                forall|a: int, b: int|
                    0 <= a < b < n && a < i ==> snake.body@[a] != snake.body@[b],
            decreases n - i,
        {
            let mut j: usize = i + 1;
            while j < n
                invariant
                    n == snake.body@.len(),
                    i < n,
                    i < j <= n,
                    forall|a: int, b: int|
                        0 <= a < b < n && a < i ==> snake.body@[a] != snake.body@[b],
                    forall|b: int| i < b < j ==> snake.body@[i as int] != snake.body@[b],
                decreases n - j,
            {
                if snake.body[i] == snake.body[j] {
                    return false;
                }
                j = j + 1;
            }
            i = i + 1;
        }
        true
    }

    /// Advances the engine by one tick on `action`, returning the board view,
    /// the reward and whether the episode ended. On a death or a win the snake
    /// and the food stay where they were, and the view shows them so.
    pub fn step(&mut self, action: Action) -> (r: (Vec<Vec<i32>>, i64, bool))
        requires
            old(self).inv(),
            old(self)@.score > i64::MIN + CELL_COUNT,
        ensures
            final(self).inv(),
            GameModel::stepped(old(self)@, final(self)@, action, r.1 as int, r.2),
            shows(r.0@.map_values(|row: Vec<i32>| row@), final(self)@),
    {
        let dir = turn(self.snake.dir, action);
        self.snake.dir = dir;
        let reward: i64;
        let done: bool;
        if self.snake.body.len() >= CELL_COUNT {
            reward = CELL_COUNT as i64;
            done = true;
        } else {
            proof {
                assert(in_grid(self.snake.body@[0]));
            }
            let next = self.snake.next_head(dir);
            if self.stage.out_of_bounds(&next) || self.snake.contains(&next) {
                reward = -(self.score - CELL_COUNT as i64);
                done = true;
            } else if self.apple.is_at(&next) {
                self.snake.grow(next);
                proof {
                    assert forall|i: int| 0 <= i < self.snake.body@.len() implies #[trigger] in_grid(
                        self.snake.body@[i],
                    ) by {
                        if i > 0 {
                            assert(self.snake.body@[i] == old(self).snake.body@[i - 1]);
                        }
                    }
                }
                self.apple = Apple::new(&self.snake);
                self.score = self.score + CELL_COUNT as i64;
                reward = CELL_COUNT as i64;
                done = false;
            } else {
                self.snake.advance(next);
                proof {
                    assert forall|i: int| 0 <= i < self.snake.body@.len() implies #[trigger] in_grid(
                        self.snake.body@[i],
                    ) by {
                        if i > 0 {
                            assert(self.snake.body@[i] == old(self).snake.body@[i - 1]);
                        }
                    }
                    if self.snake.body@.contains(self.apple.pos) {
                        let k = choose|k: int|
                            0 <= k < self.snake.body@.len() && self.snake.body@[k] == self.apple.pos;
                        assert(old(self).snake.body@[k - 1] == self.apple.pos);
                    }
                }
                self.score = self.score - 1;
                reward = -1;
                done = false;
            }
        }
        if self.score > self.max_score {
            self.max_score = self.score;
        }
        (self.board(), reward, done)
    }

    /// Replaces the snake and the food with fresh ones and puts the score back
    /// at its baseline; the best score is kept. Returns the new board view.
    pub fn reset(&mut self) -> (r: Vec<Vec<i32>>)
        requires
            old(self).inv(),
        ensures
            final(self).inv(),
            GameModel::was_reset(old(self)@, final(self)@),
            shows(r@.map_values(|row: Vec<i32>| row@), final(self)@),
    {
        self.snake = Snake::new();
        self.apple = Apple::new(&self.snake);
        self.score = CELL_COUNT as i64;
        self.board()
    }

    /// The board view, indexed `[x][y]`: `FOOD` on the food, `SNAKE` on the
    /// rest of the snake, `EMPTY` elsewhere.
    pub fn board(&self) -> (r: Vec<Vec<i32>>)
        ensures
            shows(r@.map_values(|row: Vec<i32>| row@), self@),
    {
        let mut board: Vec<Vec<i32>> = Vec::new();
        let mut x: u8 = 0;
        while x < GRID_SIZE
            invariant
                x <= GRID_SIZE,
                board@.len() == x,
                forall|i: int| 0 <= i < x ==> #[trigger] board@[i]@.len() == GRID_SIZE,
                forall|i: int, j: int|
                    0 <= i < x && 0 <= j < GRID_SIZE ==> #[trigger] board@[i]@[j] == tag_at(self@, i, j),
            decreases GRID_SIZE - x,
        {
            let mut row: Vec<i32> = Vec::new();
            let mut y: u8 = 0;
            while y < GRID_SIZE
                invariant
                    x < GRID_SIZE,
                    y <= GRID_SIZE,
                    row@.len() == y,
                    forall|j: int| 0 <= j < y ==> #[trigger] row@[j] == tag_at(self@, x as int, j),
                decreases GRID_SIZE - y,
            {
                let p = Position { x: x as i8, y: y as i8 };
                let tag = if self.apple.is_at(&p) {
                    FOOD
                } else if self.snake.contains(&p) {
                    SNAKE
                } else {
                    EMPTY
                };
                row.push(tag);
                y = y + 1;
            }
            board.push(row);
            x = x + 1;
        }
        let ghost views = board@.map_values(|row: Vec<i32>| row@);
        assert forall|i: int| 0 <= i < GRID_SIZE implies #[trigger] views[i].len() == GRID_SIZE by {
            assert(views[i] == board@[i]@);
        }
        assert forall|i: int, j: int| 0 <= i < GRID_SIZE && 0 <= j < GRID_SIZE implies #[trigger] views[i][j]
            == tag_at(self@, i, j) by {
            assert(views[i] == board@[i]@);
        }
        board
    }
    /// The current score.
    pub fn score(&self) -> (r: i64)
        ensures
            r == self@.score,
    {
        self.score
    }

    /// The best score reached since the engine was made.
    pub fn max_score(&self) -> (r: i64)
        ensures
            r == self@.max_score,
    {
        self.max_score
    }

    /// The number of cells of the snake.
    pub fn snake_len(&self) -> (r: usize)
        ensures
            r == self@.body.len(),
    {
        self.snake.body.len()
    }

    /// The width of the grid.
    pub fn width(&self) -> (r: u8)
        requires
            self.inv(),
        ensures
            r == GRID_SIZE,
    {
        self.stage.w
    }

    /// The height of the grid.
    pub fn height(&self) -> (r: u8)
        requires
            self.inv(),
        ensures
            r == GRID_SIZE,
    {
        self.stage.h
    }

    /// The cell of the snake's head.
    pub fn head(&self) -> (r: Position)
        requires
            self.inv(),
        ensures
            r == self@.body[0],
    {
        self.snake.body[0]
    }

    /// The cell of the food.
    pub fn food(&self) -> (r: Position)
        ensures
            r == self@.food,
    {
        self.apple.pos
    }

    /// The snake's heading.
    pub fn direction(&self) -> (r: Direction)
        ensures
            r == self@.dir,
    {
        self.snake.dir
    }
}

/// `post` comes from `pre` by one step or one reset.
pub open spec fn follows(pre: GameModel, post: GameModel) -> bool {
    (exists|a: Action, reward: int, done: bool| GameModel::stepped(pre, post, a, reward, done))
        || GameModel::was_reset(pre, post)
}

/// On a step that does not end the episode, the score changes by exactly the
/// reward: up by `CELL_COUNT` when the snake ate (and grew by one), down by one
/// when it only moved. On a death the score stays and the reward is the
/// negative of what had been gained above the baseline.
pub proof fn lemma_score_follows_reward(
    pre: GameModel,
    post: GameModel,
    action: Action,
    reward: int,
    done: bool,
)
    requires
        pre.wf(),
        GameModel::stepped(pre, post, action, reward, done),
    ensures
        !done ==> post.score == pre.score + reward,
        !done ==> (reward == CELL_COUNT <==> post.body.len() == pre.body.len() + 1),
        !done ==> (reward == -1 <==> post.body.len() == pre.body.len()),
        done && pre.body.len() < CELL_COUNT ==> reward == -(pre.score - CELL_COUNT)
            && post.score == pre.score,
        done && pre.body.len() >= CELL_COUNT ==> reward == CELL_COUNT,
{
}

/// Along any run of steps and resets, the best score never goes down.
pub proof fn lemma_max_score_never_decreases(run: Seq<GameModel>)
    requires
        forall|i: int| 0 <= i < run.len() - 1 ==> #[trigger] follows(run[i], run[i + 1]),
    ensures
        forall|i: int, j: int| 0 <= i <= j < run.len() ==> run[i].max_score <= run[j].max_score,
    decreases run.len(),
{
    if run.len() > 1 {
        let prefix = run.drop_last();
        assert forall|i: int| 0 <= i < prefix.len() - 1 implies #[trigger] follows(
            prefix[i],
            prefix[i + 1],
        ) by {
            assert(follows(run[i], run[i + 1]));
        }
        lemma_max_score_never_decreases(prefix);
        let n = run.len() - 1;
        let m = n - 1;
        assert(follows(run[m], run[m + 1]));
        assert(run[n - 1].max_score <= run[n].max_score);
        assert forall|i: int, j: int| 0 <= i <= j < run.len() implies run[i].max_score
            <= run[j].max_score by {
            if j < n {
                assert(prefix[i] == run[i] && prefix[j] == run[j]);
            } else if i < n {
                assert(prefix[i] == run[i] && prefix[n - 1] == run[n - 1]);
            }
        }
    }
}

} // verus!
