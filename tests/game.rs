use std::cell::{Cell, RefCell};
use std::rc::Rc;

use snake_game::{Direction, SnakeGame, SnakeProvider};

/// Hands out a fixed list of numbers, then repeats the last one, and keeps
/// every message it is sent.
struct Scripted {
    numbers: Vec<u32>,
    next: Cell<usize>,
    log: Rc<RefCell<Vec<String>>>,
}

impl SnakeProvider for Scripted {
    fn provide_random_number(&self, size: u32) -> u32 {
        let i = self.next.get();
        self.next.set(i + 1);
        let n = if i < self.numbers.len() { self.numbers[i] } else { *self.numbers.last().unwrap() };
        assert!(n < size);
        n
    }

    fn debug_log(&self, message: &str) {
        self.log.borrow_mut().push(message.to_string());
    }
}

fn scripted(numbers: &[u32]) -> (Scripted, Rc<RefCell<Vec<String>>>) {
    let log = Rc::new(RefCell::new(Vec::new()));
    let provider = Scripted { numbers: numbers.to_vec(), next: Cell::new(0), log: log.clone() };
    (provider, log)
}

fn game(size: u32, numbers: &[u32]) -> SnakeGame<Scripted> {
    SnakeGame::new(size, scripted(numbers).0)
}

fn rgb(g: &SnakeGame<Scripted>, row: u32, column: u32) -> (u8, u8, u8) {
    let p = g.cells()[(row * g.size() + column) as usize];
    (p.red(), p.green(), p.blue())
}

fn only_black_but(g: &SnakeGame<Scripted>, except: &[(u32, u32)]) -> bool {
    let mut ok = true;
    for r in 0..g.size() {
        for c in 0..g.size() {
            if !except.contains(&(r, c)) {
                ok = ok && rgb(g, r, c) == (0, 0, 0);
            }
        }
    }
    ok
}

#[test]
fn new_game_has_one_segment_at_centre() {
    for size in 1..=7u32 {
        let g = game(size, &[0, 0]);
        assert_eq!(g.size(), size);
        assert_eq!(g.cells().len(), (size * size) as usize);
        assert_eq!(g.snake(), &vec![(size / 2, size / 2)]);
        assert_eq!(g.direction(), Direction::Up);
        assert!(only_black_but(&g, &[]));
    }
}

#[test]
fn new_game_draws_food_row_then_column() {
    let g = game(5, &[3, 1]);
    assert_eq!(g.food(), (3, 1));
}

#[test]
fn moving_up_from_top_row_wraps_to_bottom() {
    let mut g = game(4, &[3, 0]);
    g.tick();
    assert_eq!(g.snake(), &vec![(1, 2)]);
    g.tick();
    assert_eq!(g.snake(), &vec![(0, 2)]);
    g.tick();
    assert_eq!(g.snake(), &vec![(3, 2)]);
}

#[test]
fn moving_left_from_first_column_wraps_to_last() {
    let mut g = game(4, &[0, 0]);
    g.set_direction(Direction::Left);
    g.tick();
    g.tick();
    assert_eq!(g.snake(), &vec![(2, 0)]);
    g.tick();
    assert_eq!(g.snake(), &vec![(2, 3)]);
}

#[test]
fn moving_down_and_right_from_last_row_and_column_wraps() {
    let mut g = game(4, &[0, 0]);
    g.set_direction_unchecked(Direction::Down);
    g.tick();
    assert_eq!(g.snake(), &vec![(3, 2)]);
    g.tick();
    assert_eq!(g.snake(), &vec![(0, 2)]);
    g.set_direction(Direction::Right);
    g.tick();
    assert_eq!(g.snake(), &vec![(0, 3)]);
    g.tick();
    assert_eq!(g.snake(), &vec![(0, 0)]);
}

#[test]
fn tick_paints_food_and_body() {
    let mut g = game(5, &[0, 0]);
    g.tick();
    assert_eq!(g.snake(), &vec![(1, 2)]);
    assert_eq!(rgb(&g, 0, 0), (0, 255, 0));
    assert_eq!(rgb(&g, 1, 2), (0, 125, 255));
    assert!(only_black_but(&g, &[(0, 0), (1, 2)]));
}

#[test]
fn eating_grows_snake_and_moves_food_off_it() {
    // Food at (1, 2); after eating, (0, 2) lies on the snake and is drawn
    // again, then (3, 3) is free.
    let (provider, log) = scripted(&[1, 2, 0, 2, 3, 3]);
    let mut g = SnakeGame::new(4, provider);
    g.tick();
    assert_eq!(g.snake(), &vec![(1, 2)]);
    assert_eq!(g.food(), (1, 2));
    g.tick();
    assert_eq!(g.snake(), &vec![(0, 2), (1, 2)]);
    assert_eq!(g.food(), (3, 3));
    assert!(!g.snake().contains(&g.food()));
    assert_eq!(log.borrow().as_slice(), &["Ate some food! new length 2".to_string()]);
    assert_eq!(rgb(&g, 0, 2), (0, 125, 255));
    assert_eq!(rgb(&g, 1, 2), (0, 125, 255));
    assert!(only_black_but(&g, &[(0, 2), (1, 2)]));
}

#[test]
fn eat_food_scenario_on_small_grid() {
    // Snake at (2, 2) heading up, food at (1, 2): the head reaches the food,
    // and the snake grows on the step that leaves it.
    let mut g = game(4, &[1, 2, 1, 2, 3, 0]);
    assert_eq!(g.snake(), &vec![(2, 2)]);
    g.tick();
    assert_eq!(g.snake(), &vec![(1, 2)]);
    g.tick();
    assert_eq!(g.snake().len(), 2);
    assert_eq!(g.snake()[1], (1, 2));
    assert_ne!(g.food(), (1, 2));
    assert_ne!(g.food(), g.snake()[0]);
    assert_eq!(g.food(), (3, 0));
}

#[test]
fn food_falls_back_to_first_free_cell() {
    // Every draw after the first food lands on the head; the first free cell
    // in row-major order is taken instead.
    let (provider, log) = scripted(&[0, 1, 1]);
    let mut g = SnakeGame::new(2, provider);
    g.tick();
    assert_eq!(g.snake(), &vec![(0, 1)]);
    g.tick();
    assert_eq!(g.snake(), &vec![(1, 1), (0, 1)]);
    assert_eq!(g.food(), (0, 0));
    assert_eq!(log.borrow().len(), 1);
}

#[test]
fn collision_restarts_game() {
    let (provider, log) = scripted(&[1, 2, 3, 2, 1, 0, 0, 1]);
    let mut g = SnakeGame::new(4, provider);
    g.tick();
    g.tick();
    assert_eq!(g.snake(), &vec![(0, 2), (1, 2)]);
    assert_eq!(g.food(), (3, 2));
    g.tick();
    g.tick();
    assert_eq!(g.snake(), &vec![(2, 2), (3, 2), (0, 2)]);
    assert_eq!(g.food(), (1, 0));
    g.set_direction_unchecked(Direction::Left);
    g.set_direction_unchecked(Direction::Down);
    g.tick();
    assert_eq!(g.snake(), &vec![(2, 2)]);
    assert_eq!(g.direction(), Direction::Up);
    assert_eq!(g.food(), (0, 1));
    assert_eq!(g.cells().len(), 16);
    assert!(only_black_but(&g, &[]));
    assert_eq!(log.borrow().last().unwrap(), "Game over! restarting...");
}

#[test]
fn single_cell_grid_restarts_every_tick() {
    let mut g = game(1, &[0]);
    g.tick();
    assert_eq!(g.snake(), &vec![(0, 0)]);
    assert_eq!(g.direction(), Direction::Up);
    assert_eq!(rgb(&g, 0, 0), (0, 0, 0));
}

#[test]
fn checked_setter_rejects_reversal() {
    let mut g = game(4, &[0, 0]);
    assert_eq!(g.direction(), Direction::Up);
    g.set_direction(Direction::Down);
    assert_eq!(g.direction(), Direction::Up);
    g.set_direction(Direction::Left);
    assert_eq!(g.direction(), Direction::Left);
    g.set_direction(Direction::Right);
    assert_eq!(g.direction(), Direction::Left);
    g.set_direction(Direction::Up);
    assert_eq!(g.direction(), Direction::Up);
}

#[test]
fn unchecked_setter_allows_reversal() {
    let mut g = game(4, &[0, 0]);
    g.set_direction_unchecked(Direction::Down);
    assert_eq!(g.direction(), Direction::Down);
}

#[test]
fn pixel_buffer_index_is_three_bytes_per_cell() {
    let g = game(4, &[0, 0]);
    assert_eq!(g.get_pixel_buffer_index(1, 2), 18);
    assert_eq!(g.get_pixel_buffer_index(3, 3), 45);
    for r in 0..4 {
        for c in 0..4 {
            assert_eq!(g.get_pixel_buffer_index(r, c), 3 * (r * 4 + c));
        }
    }
}

#[test]
fn direction_decodes_codes() {
    assert_eq!(Direction::from(0), Direction::Up);
    assert_eq!(Direction::from(1), Direction::Down);
    assert_eq!(Direction::from(2), Direction::Left);
    assert_eq!(Direction::from(3), Direction::Right);
}
