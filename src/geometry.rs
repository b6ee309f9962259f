use vstd::prelude::*;

verus! {

/// One of the four headings of the snake.
#[derive(PartialEq, Eq, Structural, Clone, Copy, Debug)]
pub enum Direction {
    Up,
    Right,
    Down,
    Left,
}

/// A cell of the board, as `(x, y)`.
pub type Cell = (usize, usize);

/// The cell one unit from `c` in direction `d` on a `width` by `height` torus:
/// each axis wraps around independently.
pub open spec fn next_cell(d: Direction, c: Cell, width: usize, height: usize) -> Cell {
    match d {
        Direction::Up => (c.0, ((c.1 as int - 1 + height as int) % (height as int)) as usize),
        Direction::Right => (((c.0 as int + 1) % (width as int)) as usize, c.1),
        Direction::Down => (c.0, ((c.1 as int + 1) % (height as int)) as usize),
        Direction::Left => (((c.0 as int - 1 + width as int) % (width as int)) as usize, c.1),
    }
}

/// A cell lies on a `width` by `height` board.
pub open spec fn in_bounds(c: Cell, width: usize, height: usize) -> bool {
    c.0 < width && c.1 < height
}

/// Moving one unit keeps a cell on the board.
pub proof fn lemma_next_cell_in_bounds(d: Direction, c: Cell, width: usize, height: usize)
    requires
        width > 0,
        height > 0,
        in_bounds(c, width, height),
    ensures
        in_bounds(next_cell(d, c, width, height), width, height),
{
}

/// One step backwards on an axis of length `n`, with wraparound.
fn wrap_dec(v: usize, n: usize) -> (r: usize)
    requires
        v < n,
    ensures
        r as int == (v as int - 1 + n as int) % (n as int),
{
    if v == 0 {
        proof {
            vstd::arithmetic::div_mod::lemma_small_mod((n - 1) as nat, n as nat);
        }
        n - 1
    } else {
        proof {
            assert((v as int - 1 + n as int) % (n as int) == v as int - 1) by {
                vstd::arithmetic::div_mod::lemma_mod_add_multiples_vanish(v as int - 1, n as int);
                vstd::arithmetic::div_mod::lemma_small_mod((v - 1) as nat, n as nat);
            }
        }
        v - 1
    }
}

/// One step forwards on an axis of length `n`, with wraparound.
fn wrap_inc(v: usize, n: usize) -> (r: usize)
    requires
        v < n,
    ensures
        r as int == (v as int + 1) % (n as int),
{
    (v + 1) % n
}

/// The executable counterpart of [`next_cell`].
pub fn step_cell(d: Direction, c: Cell, width: usize, height: usize) -> (r: Cell)
    requires
        in_bounds(c, width, height),
    ensures
        r == next_cell(d, c, width, height),
{
    match d {
        Direction::Up => (c.0, wrap_dec(c.1, height)),
        Direction::Right => (wrap_inc(c.0, width), c.1),
        Direction::Down => (c.0, wrap_inc(c.1, height)),
        Direction::Left => (wrap_dec(c.0, width), c.1),
    }
}

} // verus!
