use snake_game::apple::Apple;
use snake_game::direction::{Action, Direction};
use snake_game::game::{Game, EMPTY, FOOD, SNAKE};
use snake_game::snake::Snake;
use snake_game::stage::{Position, CELL_COUNT};
use std::collections::VecDeque;

fn pos(x: i8, y: i8) -> Position {
    Position { x, y }
}

fn game_of(dir: Direction, cells: &[(i8, i8)], food: (i8, i8)) -> Game {
    let body: VecDeque<Position> = cells.iter().map(|&(x, y)| pos(x, y)).collect();
    Game::from_parts(Snake { dir, body }, Apple { pos: pos(food.0, food.1) }).unwrap()
}

fn serpentine() -> Vec<(i8, i8)> {
    let mut v = Vec::new();
    for x in 0..16i8 {
        for y in 0..16i8 {
            v.push(if x % 2 == 0 { (x, y) } else { (x, 15 - y) });
        }
    }
    v
}

#[test]
fn fresh_engine_state() {
    let g = Game::new();
    assert_eq!(g.score(), 256);
    assert_eq!(g.max_score(), 256);
    assert_eq!(g.snake_len(), 2);
    assert_eq!((g.width(), g.height()), (16, 16));
    assert_eq!(g.direction(), Direction::UP);
    let b = g.board();
    let f = g.food();
    assert_eq!(b[f.x as usize][f.y as usize], FOOD);
    let h = g.head();
    assert_eq!(b[h.x as usize][h.y as usize], SNAKE);
}

#[test]
fn moved_step() {
    let mut g = game_of(Direction::UP, &[(5, 5), (5, 6)], (9, 9));
    let (_, reward, done) = g.step(Action::FORWARD);
    assert_eq!((reward, done), (-1, false));
    assert_eq!(g.score(), 255);
    assert_eq!(g.snake_len(), 2);
    assert_eq!(g.head(), pos(5, 4));
    assert_eq!(g.max_score(), 256);
}

#[test]
fn moved_then_ate() {
    let mut g = game_of(Direction::UP, &[(5, 5), (5, 6)], (5, 3));
    let (_, reward, done) = g.step(Action::FORWARD);
    assert_eq!((reward, done, g.score()), (-1, false, 255));
    let (view, reward, done) = g.step(Action::FORWARD);
    assert_eq!((reward, done), (256, false));
    assert_eq!(g.score(), 511);
    assert_eq!(g.max_score(), 511);
    assert_eq!(g.snake_len(), 3);
    assert_eq!(g.head(), pos(5, 3));
    let f = g.food();
    assert!(![pos(5, 3), pos(5, 4), pos(5, 5)].contains(&f));
    assert_eq!(view[f.x as usize][f.y as usize], FOOD);
    assert_eq!(view[5][3], SNAKE);
}

#[test]
fn death_at_boundary_after_eating() {
    let mut g = game_of(Direction::UP, &[(5, 5), (5, 6)], (5, 3));
    g.step(Action::FORWARD);
    g.step(Action::FORWARD);
    assert_eq!(g.score(), 511);
    for expected in [510, 509, 508] {
        let (_, reward, done) = g.step(Action::FORWARD);
        assert_eq!((reward, done), (-1, false));
        assert_eq!(g.score(), expected);
    }
    assert_eq!(g.head(), pos(5, 0));
    let (view, reward, done) = g.step(Action::FORWARD);
    assert!(done);
    assert_eq!(reward, -(508 - 256));
    assert_eq!(g.score(), 508);
    assert_eq!(g.max_score(), 511);
    assert_eq!(g.head(), pos(5, 0));
    assert_eq!(view[5][0], SNAKE);
}

#[test]
fn death_below_baseline_is_positive_reward() {
    let mut g = game_of(Direction::LEFT, &[(1, 8), (2, 8)], (9, 9));
    let (_, reward, done) = g.step(Action::FORWARD);
    assert_eq!((reward, done, g.score()), (-1, false, 255));
    let (_, reward, done) = g.step(Action::FORWARD);
    assert!(done);
    assert_eq!(reward, 1);
}

#[test]
fn death_into_own_body() {
    let mut g = game_of(Direction::UP, &[(5, 5), (4, 5), (4, 6), (5, 6), (6, 6)], (9, 9));
    let (_, reward, done) = g.step(Action::LEFT);
    assert!(done);
    assert_eq!(reward, 0);
    assert_eq!(g.direction(), Direction::LEFT);
    assert_eq!(g.snake_len(), 5);
    assert_eq!(g.score(), 256);
}

#[test]
fn turning_right_avoids_body() {
    let mut g = game_of(Direction::UP, &[(5, 5), (4, 5), (4, 6), (5, 6), (6, 6)], (9, 9));
    let (_, reward, done) = g.step(Action::RIGHT);
    assert_eq!((reward, done), (-1, false));
    assert_eq!(g.head(), pos(6, 5));
    assert_eq!(g.direction(), Direction::RIGHT);
}

#[test]
fn full_grid_wins_whatever_the_command() {
    for a in [Action::FORWARD, Action::LEFT, Action::RIGHT] {
        let mut g = game_of(Direction::UP, &serpentine(), (3, 3));
        assert_eq!(g.snake_len(), CELL_COUNT);
        let (_, reward, done) = g.step(a);
        assert_eq!((reward, done), (256, true));
        assert_eq!(g.score(), 256);
        assert_eq!(g.snake_len(), 256);
    }
}

#[test]
fn eating_the_last_cell_then_winning() {
    let mut cells = serpentine();
    let last = cells.pop().unwrap();
    cells.reverse();
    // head is at the end of the serpentine path, next to `last`
    let mut g = game_of(Direction::UP, &cells, last);
    assert_eq!(g.head(), pos(15, 1));
    let (_, reward, done) = g.step(Action::FORWARD);
    assert_eq!((reward, done), (256, false));
    assert_eq!(g.snake_len(), 256);
    let (_, reward, done) = g.step(Action::FORWARD);
    assert_eq!((reward, done), (256, true));
}

#[test]
fn reset_restores_baseline_keeps_max() {
    let mut g = game_of(Direction::UP, &[(5, 5), (5, 6)], (5, 4));
    g.step(Action::FORWARD);
    assert_eq!(g.max_score(), 512);
    let view = g.reset();
    assert_eq!(g.score(), 256);
    assert_eq!(g.max_score(), 512);
    assert_eq!(g.snake_len(), 2);
    assert_eq!(g.direction(), Direction::UP);
    let f = g.food();
    let h = g.head();
    assert_ne!(f, h);
    assert_ne!(f, pos(h.x, h.y + 1));
    assert_eq!(view[f.x as usize][f.y as usize], FOOD);
    assert_eq!(view[h.x as usize][h.y as usize], SNAKE);
    let snake_cells = view.iter().flatten().filter(|&&t| t == SNAKE).count();
    assert_eq!(snake_cells, 2);
}

#[test]
fn max_score_never_drops() {
    let mut g = Game::new();
    let mut best = g.max_score();
    for i in 0..300 {
        let a = match i % 7 {
            0 => Action::LEFT,
            3 => Action::RIGHT,
            _ => Action::FORWARD,
        };
        let (_, _, done) = g.step(a);
        assert!(g.max_score() >= best);
        best = g.max_score();
        if done {
            g.reset();
            assert_eq!(g.max_score(), best);
        }
    }
}

#[test]
fn board_view_tags() {
    let g = game_of(Direction::UP, &[(5, 5), (5, 6), (6, 6)], (0, 15));
    let b = g.board();
    assert_eq!(b.len(), 16);
    assert!(b.iter().all(|row| row.len() == 16));
    assert_eq!(b[5][5], SNAKE);
    assert_eq!(b[5][6], SNAKE);
    assert_eq!(b[6][6], SNAKE);
    assert_eq!(b[0][15], FOOD);
    assert_eq!(b[6][5], EMPTY);
    let total: usize = b.iter().flatten().filter(|&&t| t != EMPTY).count();
    assert_eq!(total, 4);
}

#[test]
fn from_parts_rejects_bad_layouts() {
    let snake = |cells: &[(i8, i8)]| Snake {
        dir: Direction::UP,
        body: cells.iter().map(|&(x, y)| pos(x, y)).collect(),
    };
    assert!(Game::from_parts(snake(&[]), Apple { pos: pos(1, 1) }).is_none());
    assert!(Game::from_parts(snake(&[(16, 0)]), Apple { pos: pos(1, 1) }).is_none());
    assert!(Game::from_parts(snake(&[(0, -1)]), Apple { pos: pos(1, 1) }).is_none());
    assert!(Game::from_parts(snake(&[(2, 2)]), Apple { pos: pos(2, 2) }).is_none());
    assert!(Game::from_parts(snake(&[(2, 2)]), Apple { pos: pos(2, 16) }).is_none());
    assert!(Game::from_parts(snake(&[(2, 2), (2, 3), (2, 2)]), Apple { pos: pos(5, 5) }).is_none());
    assert!(Game::from_parts(snake(&[(2, 2)]), Apple { pos: pos(2, 3) }).is_some());
}
