use vstd::prelude::*;

use vstd::arithmetic::div_mod::{lemma_div_pos_is_pos, lemma_fundamental_div_mod, lemma_multiply_divide_lt};
use vstd::relations::injective_on;
use vstd::set_lib::{lemma_int_range, lemma_len_subset, lemma_map_size, set_int_range};

use crate::direction::Direction;

verus! {

/// A cell of the grid as (row, column).
pub type Position = (u32, u32);

/// The position lies on a `size` by `size` grid.
pub open spec fn in_grid(p: Position, size: u32) -> bool {
    p.0 < size && p.1 < size
}

/// Every position of `body` lies on the grid.
pub open spec fn all_in_grid(body: Seq<Position>, size: u32) -> bool {
    forall|i: int| 0 <= i < body.len() ==> #[trigger] in_grid(body[i], size)
}

/// Where a position's cell stands in the row-major buffer.
pub open spec fn cell_index(p: Position, size: u32) -> int {
    p.0 * size + p.1
}

/// The middle of the grid, where a new snake starts.
pub open spec fn centre(size: u32) -> Position {
    ((size / 2) as u32, (size / 2) as u32)
}

/// One step from `p` in direction `d`; leaving the grid at one edge enters it
/// again at the opposite edge.
pub open spec fn next_head(p: Position, d: Direction, size: u32) -> Position {
    match d {
        Direction::Up => (if p.0 == 0 { (size - 1) as u32 } else { (p.0 - 1) as u32 }, p.1),
        Direction::Down => (if p.0 + 1 == size { 0 } else { (p.0 + 1) as u32 }, p.1),
        Direction::Left => (p.0, if p.1 == 0 { (size - 1) as u32 } else { (p.1 - 1) as u32 }),
        Direction::Right => (p.0, if p.1 + 1 == size { 0 } else { (p.1 + 1) as u32 }),
    }
}

/// The grid wraps around: a head on the top row moving up lands on the bottom
/// row, one in the leftmost column moving left lands in the rightmost column,
/// and the other way round for moves down and right.
pub proof fn lemma_wrap_around(p: Position, size: u32)
    requires
        in_grid(p, size),
    ensures
        p.0 == 0 ==> next_head(p, Direction::Up, size) == ((size - 1) as u32, p.1),
        p.1 == 0 ==> next_head(p, Direction::Left, size) == (p.0, (size - 1) as u32),
        p.0 == size - 1 ==> next_head(p, Direction::Down, size) == (0u32, p.1),
        p.1 == size - 1 ==> next_head(p, Direction::Right, size) == (p.0, 0u32),
{
}

/// Some cell of the grid is not covered by `body`.
pub open spec fn has_free_cell(body: Seq<Position>, size: u32) -> bool {
    exists|p: Position| in_grid(p, size) && !body.contains(p)
}

/// A body shorter than the number of cells leaves some cell of the grid free.
pub proof fn lemma_short_body_leaves_free_cell(body: Seq<Position>, size: u32)
    requires
        body.len() < size * size,
    ensures
        has_free_cell(body, size),
{
    if !has_free_cell(body, size) {
        let s = size as int;
        let n = s * s;
        let indices = set_int_range(0, n);
        lemma_int_range(0, n);
        let f = |i: int| ((i / s) as u32, (i % s) as u32);
        assert forall|i: int| #[trigger] indices.contains(i) implies 0 <= i / s < s && 0 <= i % s < s
            && i == s * (i / s) + i % s by {
            lemma_div_pos_is_pos(i, s);
            lemma_multiply_divide_lt(i, s, s);
            lemma_fundamental_div_mod(i, s);
        }
        assert(injective_on(f, indices)) by {
            assert forall|i: int, j: int|
                indices.contains(i) && indices.contains(j) && #[trigger] f(i) == #[trigger] f(j)
                implies i == j by {
                assert(i / s == j / s && i % s == j % s);
            }
        }
        let cells = indices.map(f);
        lemma_map_size(indices, cells, f);
        assert(cells.subset_of(body.to_set())) by {
            assert forall|p: Position| #[trigger] cells.contains(p) implies body.to_set().contains(p) by {
                let i = choose|i: int| indices.contains(i) && f(i) == p;
                assert(in_grid(p, size));
            }
        }
        body.lemma_cardinality_of_set();
        lemma_len_subset(cells, body.to_set());
    }
}

/// Computes `next_head`.
pub fn step_head(p: Position, d: Direction, size: u32) -> (r: Position)
    requires
        in_grid(p, size),
    ensures
        r == next_head(p, d, size),
        in_grid(r, size),
{
    match d {
        Direction::Up => (if p.0 == 0 { size - 1 } else { p.0 - 1 }, p.1),
        Direction::Down => (if p.0 + 1 == size { 0 } else { p.0 + 1 }, p.1),
        Direction::Left => (p.0, if p.1 == 0 { size - 1 } else { p.1 - 1 }),
        Direction::Right => (p.0, if p.1 + 1 == size { 0 } else { p.1 + 1 }),
    }
}

/// Whether `body` covers `p`.
pub fn covers(body: &Vec<Position>, p: Position) -> (r: bool)
    ensures
        r == body@.contains(p),
{
    let mut i: usize = 0;
    while i < body.len()
        invariant
            i <= body.len(),
            forall|j: int| 0 <= j < i ==> body@[j] != p,
        decreases body.len() - i,
    {
        let q = body[i];
        if q.0 == p.0 && q.1 == p.1 {
            assert(body@[i as int] == p);
            return true;
        }
        i += 1;
    }
    false
}

} // verus!
