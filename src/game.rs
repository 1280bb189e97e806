use vstd::prelude::*;

use crate::direction::Direction;
use crate::grid::{
    all_in_grid, cell_index, centre, covers, has_free_cell, in_grid, lemma_short_body_leaves_free_cell,
    next_head, step_head,
    Position,
};
use crate::pixel::{black, body_colour, colours, food_colour, Pixel, Rgb};
use crate::provider::SnakeProvider;

verus! {

/// How many times a new food position is drawn at random before the first free
/// cell in row-major order is taken instead.
pub const FOOD_DRAWS: u32 = 64;

/// `count` black cells.
pub open spec fn all_black(count: nat) -> Seq<Rgb> {
    Seq::new(count, |i: int| black())
}

/// The cells of `base` with each position of `body` painted in the body's
/// colour, in order.
pub open spec fn paint_body(base: Seq<Rgb>, body: Seq<Position>, size: u32) -> Seq<Rgb>
    decreases body.len(),
{
    if body.len() == 0 {
        base
    } else {
        paint_body(base, body.drop_last(), size).update(
            cell_index(body.last(), size),
            body_colour(),
        )
    }
}

/// The state of one game: a `size` by `size` grid of cells, the snake's body
/// from head to tail, the food and the direction of travel.
pub struct SnakeGame<P: SnakeProvider> {
    size: u32,
    cells: Vec<Pixel>,
    snake: Vec<Position>,
    current_food: Position,
    current_direction: Direction,
    provider: P,
}

impl<P: SnakeProvider> SnakeGame<P> {
    /// The grid's side.
    pub closed spec fn spec_size(&self) -> u32 {
        self.size
    }

    /// The cells' colours, row by row.
    pub closed spec fn spec_cells(&self) -> Seq<Rgb> {
        colours(self.cells@)
    }

    /// The snake's body, head first.
    pub closed spec fn spec_snake(&self) -> Seq<Position> {
        self.snake@
    }

    /// Where the food lies.
    pub closed spec fn spec_food(&self) -> Position {
        self.current_food
    }

    /// The direction of travel.
    pub closed spec fn spec_direction(&self) -> Direction {
        self.current_direction
    }

    /// A renderable state: a grid of at least one cell, one colour per cell, a
    /// snake of at least one segment on the grid that never covers a cell
    /// twice, and food on the grid.
    pub open spec fn wf(&self) -> bool {
        &&& 1 <= self.spec_size()
        &&& self.spec_size() * self.spec_size() <= u32::MAX
        &&& self.spec_cells().len() == self.spec_size() * self.spec_size()
        &&& self.spec_snake().len() >= 1
        &&& all_in_grid(self.spec_snake(), self.spec_size())
        &&& self.spec_snake().no_duplicates()
        &&& in_grid(self.spec_food(), self.spec_size())
    }

    /// The state in which a game starts and to which a collision returns it:
    /// one segment at the centre, heading up, every cell black.
    pub open spec fn is_fresh(&self) -> bool {
        &&& self.spec_snake() == seq![centre(self.spec_size())]
        &&& self.spec_direction() == Direction::Up
        &&& self.spec_cells() == all_black((self.spec_size() * self.spec_size()) as nat)
    }

    /// Where the head goes on the next tick.
    pub open spec fn new_head(&self) -> Position {
        next_head(self.spec_snake()[0], self.spec_direction(), self.spec_size())
    }

    /// The next tick runs the head into the body.
    pub open spec fn collides(&self) -> bool {
        self.spec_snake().contains(self.new_head())
    }

    /// The head lies on the food, so the next tick makes the snake grow.
    pub open spec fn eats(&self) -> bool {
        self.spec_snake()[0] == self.spec_food()
    }

    /// The body after a tick without collision: the new head, then the old
    /// body, without its tail unless the snake grows.
    pub open spec fn moved_snake(&self) -> Seq<Position> {
        seq![self.new_head()] + if self.eats() {
            self.spec_snake()
        } else {
            self.spec_snake().drop_last()
        }
    }

    /// The cells after a tick without collision: the food painted, then the
    /// old tail cleared, then the new body painted.
    pub open spec fn repainted_cells(&self) -> Seq<Rgb> {
        let size = self.spec_size();
        let base = self.spec_cells().update(cell_index(self.spec_food(), size), food_colour()).update(
            cell_index(self.spec_snake().last(), size),
            black(),
        );
        paint_body(base, self.moved_snake(), size)
    }

    /// A new game on a `size` by `size` grid: every cell black, the snake one
    /// segment at the centre heading up, the food drawn from `provider` (row,
    /// then column). The first food may fall on the snake's single segment; it
    /// is not drawn again.
    pub fn new(size: u32, provider: P) -> (game: Self)
        requires
            1 <= size,
            size * size <= u32::MAX,
        ensures
            game.wf(),
            game.spec_size() == size,
            game.is_fresh(),
            game.spec_cells().len() == size * size,
            game.spec_snake() == seq![centre(size)],
    {
        let cells = black_cells(size * size);
        let row = provider.provide_random_number(size);
        let column = provider.provide_random_number(size);
        let game = SnakeGame {
            size,
            cells,
            snake: vec![(size / 2, size / 2)],
            current_food: (row, column),
            current_direction: Direction::Up,
            provider,
        };
        assert(game.snake@ =~= seq![centre(size)]);
        assert(game.spec_snake().no_duplicates());
        game
    }

    pub fn size(&self) -> (r: u32)
        ensures
            r == self.spec_size(),
    {
        self.size
    }

    pub fn cells(&self) -> (r: &Vec<Pixel>)
        ensures
            colours(r@) == self.spec_cells(),
    {
        &self.cells
    }

    /// The snake's body, head first.
    pub fn snake(&self) -> (r: &Vec<Position>)
        ensures
            r@ == self.spec_snake(),
    {
        &self.snake
    }

    pub fn food(&self) -> (r: Position)
        ensures
            r == self.spec_food(),
    {
        self.current_food
    }

    pub fn direction(&self) -> (r: Direction)
        ensures
            r == self.spec_direction(),
    {
        self.current_direction
    }

    /// Where a cell's first channel lies in a buffer of three bytes per cell.
    pub fn get_pixel_buffer_index(&self, row: u32, column: u32) -> (r: u32)
        requires
            row < self.spec_size(),
            column < self.spec_size(),
            3 * (row * self.spec_size() + column) <= u32::MAX,
        ensures
            r == 3 * (row * self.spec_size() + column),
            r == 3 * cell_index((row, column), self.spec_size()),
    {
        (row * self.size + column) * 3
    }

    /// Turns the snake towards `direction`, unless that would reverse it onto
    /// its own neck: a request for the opposite of the current direction is
    /// ignored.
    pub fn set_direction(&mut self, direction: Direction)
        ensures
            final(self).spec_direction() == if direction == old(self).spec_direction().opposite() {
                old(self).spec_direction()
            } else {
                direction
            },
            final(self).spec_size() == old(self).spec_size(),
            final(self).spec_cells() == old(self).spec_cells(),
            final(self).spec_snake() == old(self).spec_snake(),
            final(self).spec_food() == old(self).spec_food(),
    {
        let blocked = match direction {
            Direction::Up => self.current_direction == Direction::Down,
            Direction::Down => self.current_direction == Direction::Up,
            Direction::Left => self.current_direction == Direction::Right,
            Direction::Right => self.current_direction == Direction::Left,
        };
        if !blocked {
            self.current_direction = direction;
        }
    }

    /// Turns the snake towards `direction`, whatever it is.
    pub fn set_direction_unchecked(&mut self, direction: Direction)
        ensures
            final(self).spec_direction() == direction,
            final(self).spec_size() == old(self).spec_size(),
            final(self).spec_cells() == old(self).spec_cells(),
            final(self).spec_snake() == old(self).spec_snake(),
            final(self).spec_food() == old(self).spec_food(),
    {
        self.current_direction = direction;
    }

    /// A new food position off `body`. Positions are drawn from the provider up
    /// to `FOOD_DRAWS` times; if none of them is free, the first free cell in
    /// row-major order is taken. When `body` covers the whole grid the result
    /// is the first cell.
    fn place_food(&self, body: &Vec<Position>) -> (food: Position)
        requires
            1 <= self.spec_size(),
        ensures
            in_grid(food, self.spec_size()),
            has_free_cell(body@, self.spec_size()) ==> !body@.contains(food),
    {
        let size = self.size;
        let mut draws: u32 = 0;
        while draws < FOOD_DRAWS
            invariant
                size == self.spec_size(),
                1 <= size,
            decreases FOOD_DRAWS - draws,
        {
            let row = self.provider.provide_random_number(size);
            let column = self.provider.provide_random_number(size);
            if !covers(body, (row, column)) {
                return (row, column);
            }
            draws += 1;
        }
        let mut row: u32 = 0;
        while row < size
            invariant
                size == self.spec_size(),
                row <= size,
                forall|p: Position| in_grid(p, size) && p.0 < row ==> body@.contains(p),
            decreases size - row,
        {
            let mut column: u32 = 0;
            while column < size
                invariant
                    size == self.spec_size(),
                    row < size,
                    column <= size,
                    forall|p: Position| in_grid(p, size) && p.0 < row ==> body@.contains(p),
                    forall|c: u32| c < column ==> body@.contains((row, c)),
                decreases size - column,
            {
                if !covers(body, (row, column)) {
                    return (row, column);
                }
                column += 1;
            }
            row += 1;
        }
        assert(!has_free_cell(body@, size)) by {
            assert forall|p: Position| in_grid(p, size) implies body@.contains(p) by {
                assert(p.0 < row);
            }
        }
        (0, 0)
    }

    /// Starts over: one segment at the centre heading up, every cell black,
    /// new food from the provider.
    fn restart(&mut self)
        requires
            1 <= old(self).spec_size(),
            old(self).spec_size() * old(self).spec_size() <= u32::MAX,
        ensures
            final(self).wf(),
            final(self).is_fresh(),
            final(self).spec_size() == old(self).spec_size(),
    {
        let size = self.size;
        self.current_direction = Direction::Up;
        self.snake = vec![(size / 2, size / 2)];
        self.cells = black_cells(size * size);
        let row = self.provider.provide_random_number(size);
        let column = self.provider.provide_random_number(size);
        self.current_food = (row, column);
        assert(self.snake@ =~= seq![centre(size)]);
        assert(self.spec_snake().no_duplicates());
    }

    /// Advances the game by one step. The head moves one cell in the current
    /// direction, wrapping at the edges. If it runs into the body the game
    /// starts over. Otherwise the body follows the head; a snake whose head
    /// lay on the food keeps its tail, so it grows by one, and new food is
    /// placed off the new body. The cells show the food, then the cleared old
    /// tail, then the new body.
    pub fn tick(&mut self)
        requires
            old(self).wf(),
        ensures
            final(self).wf(),
            final(self).spec_size() == old(self).spec_size(),
            old(self).collides() ==> final(self).is_fresh(),
            !old(self).collides() ==> final(self).spec_snake() == old(self).moved_snake(),
            !old(self).collides() ==> final(self).spec_cells() == old(self).repainted_cells(),
            !old(self).collides() ==> final(self).spec_direction() == old(self).spec_direction(),
            !old(self).collides() ==> final(self).spec_snake()[0] == old(self).new_head(),
            !old(self).collides() && !old(self).eats() ==> final(self).spec_food()
                == old(self).spec_food(),
            !old(self).collides() && !old(self).eats() ==> final(self).spec_snake().len()
                == old(self).spec_snake().len(),
            !old(self).collides() && old(self).eats() ==> final(self).spec_snake().len()
                == old(self).spec_snake().len() + 1,
            !old(self).collides() && old(self).eats() && has_free_cell(
                final(self).spec_snake(),
                final(self).spec_size(),
            ) ==> !final(self).spec_snake().contains(final(self).spec_food()),
            !old(self).collides() && old(self).eats() && final(self).spec_snake().len()
                < final(self).spec_size() * final(self).spec_size() ==> !final(self).spec_snake().contains(
                final(self).spec_food(),
            ),
    {
        let size = self.size;
        let ghost old_snake = self.snake@;

        // Paint into a copy; it replaces the cells only if the move succeeds.
        let mut next = copy_cells(&self.cells);
        let food_index = self.get_cell_index(self.current_food.0, self.current_food.1);
        next.set(food_index, Pixel::rgb(0, 255, 0));
        proof {
            assert(colours(next@) =~= colours(self.cells@).update(food_index as int, food_colour()));
        }
        let tail = self.snake[self.snake.len() - 1];
        assert(in_grid(old_snake[old_snake.len() - 1], size));
        let tail_index = self.get_cell_index(tail.0, tail.1);
        let ghost food_painted = colours(next@);
        next.set(tail_index, Pixel::rgb(0, 0, 0));
        proof {
            assert(colours(next@) =~= food_painted.update(tail_index as int, black()));
        }

        let head = self.snake[0];
        assert(in_grid(old_snake[0], size));
        let new_head = step_head(head, self.current_direction, size);
        if covers(&self.snake, new_head) {
            self.provider.debug_log("Game over! restarting...");
            self.restart();
            return;
        }

        let eats = head.0 == self.current_food.0 && head.1 == self.current_food.1;
        let kept = if eats { self.snake.len() } else { self.snake.len() - 1 };
        let mut body: Vec<Position> = Vec::new();
        body.push(new_head);
        let mut i: usize = 0;
        while i < kept
            invariant
                kept <= self.snake@.len(),
                i <= kept,
                self.snake@ == old_snake,
                body@ == seq![new_head] + old_snake.subrange(0, i as int),
            decreases kept - i,
        {
            body.push(self.snake[i]);
            i += 1;
            assert(body@ =~= seq![new_head] + old_snake.subrange(0, i as int));
        }
        proof {
            if eats {
                assert(old_snake.subrange(0, kept as int) =~= old_snake);
            } else {
                assert(old_snake.subrange(0, kept as int) =~= old_snake.drop_last());
            }
            assert(body@ == self.moved_snake());
            assert forall|a: int, b: int| 0 <= a < body@.len() && 0 <= b < body@.len() && a != b
                implies body@[a] != body@[b] by {
                if a > 0 && b > 0 {
                    assert(body@[a] == old_snake[a - 1]);
                    assert(body@[b] == old_snake[b - 1]);
                } else if a == 0 {
                    assert(old_snake.contains(body@[b]));
                } else {
                    assert(old_snake.contains(body@[a]));
                }
            }
            assert forall|k: int| 0 <= k < body@.len() implies #[trigger] in_grid(body@[k], size) by {
                if k > 0 {
                    assert(in_grid(old_snake[k - 1], size));
                }
            }
        }

        if eats {
            let message = eat_message(body.len());
            self.provider.debug_log(message.as_str());
            self.current_food = self.place_food(&body);
            proof {
                if body@.len() < size * size {
                    lemma_short_body_leaves_free_cell(body@, size);
                }
            }
        }

        let ghost base = colours(next@);
        let mut k: usize = 0;
        while k < body.len()
            invariant
                k <= body@.len(),
                size == self.spec_size(),
                size * size <= u32::MAX,
                all_in_grid(body@, size),
                colours(next@).len() == size * size,
                colours(next@) == paint_body(base, body@.subrange(0, k as int), size),
            decreases body.len() - k,
        {
            let segment = body[k];
            assert(in_grid(body@[k as int], size));
            let index = self.get_cell_index(segment.0, segment.1);
            let ghost before = colours(next@);
            next.set(index, Pixel::rgb(0, 125, 255));
            k += 1;
            proof {
                assert(colours(next@) =~= before.update(index as int, body_colour()));
                assert(body@.subrange(0, k as int).drop_last() =~= body@.subrange(0, k - 1));
            }
        }
        assert(body@.subrange(0, body@.len() as int) =~= body@);
        self.snake = body;
        self.cells = next;
    }

    fn get_cell_index(&self, row: u32, column: u32) -> (r: usize)
        requires
            self.spec_size() * self.spec_size() <= u32::MAX,
            row < self.spec_size(),
            column < self.spec_size(),
        ensures
            r == cell_index((row, column), self.spec_size()),
            r < self.spec_size() * self.spec_size(),
    {
        let size = self.size;
        assert(row * size + column < size * size) by (nonlinear_arith)
            requires
                row < size,
                column < size,
        ;
        (row * size + column) as usize
    }
}

/// A copy of `cells`.
fn copy_cells(cells: &Vec<Pixel>) -> (v: Vec<Pixel>)
    ensures
        v@ == cells@,
{
    let mut v: Vec<Pixel> = Vec::new();
    let mut i: usize = 0;
    while i < cells.len()
        invariant
            i <= cells@.len(),
            v@ == cells@.subrange(0, i as int),
        decreases cells.len() - i,
    {
        v.push(cells[i]);
        i += 1;
        assert(v@ =~= cells@.subrange(0, i as int));
    }
    assert(v@ =~= cells@);
    v
}

/// Relies on std's `format!` to write the message that reports a meal.
#[verifier::external_body]
fn eat_message(length: usize) -> String {
    format!("Ate some food! new length {}", length)
}

/// A buffer of `count` black cells.
fn black_cells(count: u32) -> (v: Vec<Pixel>)
    ensures
        colours(v@) == all_black(count as nat),
{
    let mut v: Vec<Pixel> = Vec::new();
    let mut i: u32 = 0;
    while i < count
        invariant
            i <= count,
            v@.len() == i,
            forall|k: int| 0 <= k < i ==> (#[trigger] v@[k])@ == black(),
        decreases count - i,
    {
        v.push(Pixel::rgb(0, 0, 0));
        i += 1;
    }
    assert(colours(v@) =~= all_black(count as nat));
    v
}

} // verus!
