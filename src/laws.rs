//! Properties of the game that hold over every board and every state.

use vstd::prelude::*;

use crate::geometry::{in_bounds, next_cell, Cell, Direction};
use crate::world::{lemma_stepped_wf, GameStatus, WorldView, MIN_HEIGHT, MIN_WIDTH};

verus! {

/// One call a driver makes on a world.
pub enum Command {
    /// `change_snake_dir` with this direction.
    Turn(Direction),
    /// `step`.
    Tick,
    /// `place_food` with this drawn cell.
    Offer(usize, usize),
}

/// The state after one command.
pub open spec fn apply(s: WorldView, cmd: Command) -> WorldView {
    match cmd {
        Command::Turn(d) => s.turned(d),
        Command::Tick => s.stepped(),
        Command::Offer(x, y) => s.offered((x, y)),
    }
}

/// The state after a sequence of commands, applied in order.
pub open spec fn run(s: WorldView, cmds: Seq<Command>) -> WorldView
    decreases cmds.len(),
{
    if cmds.len() == 0 {
        s
    } else {
        run(apply(s, cmds[0]), cmds.drop_first())
    }
}

/// The state after `n` ticks.
pub open spec fn ticks(s: WorldView, n: nat) -> WorldView
    decreases n,
{
    if n == 0 {
        s
    } else {
        ticks(s.stepped(), (n - 1) as nat)
    }
}

/// A fresh world on any board of at least 3 by 5 cells has a three-cell
/// snake headed at `(2, 2)`, is being played and has scored nothing; a free
/// cell exists, and whichever cell is taken as food lies off the snake.
pub proof fn lemma_fresh_world(width: usize, height: usize, c: Cell)
    requires
        width >= MIN_WIDTH,
        height >= MIN_HEIGHT,
    ensures
        WorldView::initial(width, height).wf(),
        WorldView::initial(width, height).snake.len() == 3,
        WorldView::initial(width, height).head() == (2usize, 2usize),
        WorldView::initial(width, height).status == GameStatus::Played,
        WorldView::initial(width, height).score == 0,
        WorldView::initial(width, height).has_free_cell(),
        WorldView::initial(width, height).accepts_food(c) ==> {
            let t = WorldView::initial(width, height).offered(c);
            &&& t.wf()
            &&& t.food == Some(c)
            &&& !t.snake.contains(c)
        },
{
    let s = WorldView::initial(width, height);
    assert(!s.snake.contains((0usize, 0usize)));
    assert(in_bounds((0usize, 0usize), width, height));
}

/// Moving off one edge of the board enters at the opposite edge, on the
/// same row or column.
pub proof fn lemma_wraparound(width: usize, height: usize, x: usize, y: usize)
    requires
        width > 0,
        height > 0,
        x < width,
        y < height,
    ensures
        next_cell(Direction::Right, ((width - 1) as usize, y), width, height) == (0usize, y),
        next_cell(Direction::Left, (0usize, y), width, height) == ((width - 1) as usize, y),
        next_cell(Direction::Up, (x, 0usize), width, height) == (x, (height - 1) as usize),
        next_cell(Direction::Down, (x, (height - 1) as usize), width, height) == (x, 0usize),
{
    vstd::arithmetic::div_mod::lemma_mod_self_0(width as int);
    vstd::arithmetic::div_mod::lemma_mod_self_0(height as int);
    vstd::arithmetic::div_mod::lemma_small_mod((width - 1) as nat, width as nat);
    vstd::arithmetic::div_mod::lemma_small_mod((height - 1) as nat, height as nat);
}

/// A tick that moves the head onto the food grows the snake by one cell and
/// the score by one; the world then awaits new food, and any cell taken as
/// the new food lies off the snake.
pub proof fn lemma_growth(s: WorldView, c: Cell)
    requires
        s.wf(),
        s.status == GameStatus::Played,
        s.food == Some(s.target(s.direction)),
    ensures
        s.stepped().snake.len() == s.snake.len() + 1,
        s.stepped().score == s.score + 1,
        s.stepped().head() == s.target(s.direction),
        s.stepped().food is None,
        s.stepped().wf(),
        s.stepped().accepts_food(c) ==> {
            let t = s.stepped().offered(c);
            &&& t.wf()
            &&& t.food == Some(c)
            &&& !t.snake.contains(c)
        },
{
    lemma_stepped_wf(s);
}

/// A tick that moves the head onto a cell holding neither food nor body
/// keeps the length and the score: the head is added and the tail dropped.
pub proof fn lemma_plain_move(s: WorldView)
    requires
        s.wf(),
        s.status == GameStatus::Played,
        !s.snake.contains(s.target(s.direction)),
        s.food != Some(s.target(s.direction)),
    ensures
        s.stepped().snake.len() == s.snake.len(),
        s.stepped().score == s.score,
        s.stepped().head() == s.target(s.direction),
        s.stepped().snake.subrange(1, s.snake.len() as int) == s.snake.drop_last(),
        s.stepped().wf(),
{
    lemma_stepped_wf(s);
    assert(s.stepped().snake.subrange(1, s.snake.len() as int) =~= s.snake.drop_last());
}

/// A tick that moves the head onto a body cell loses the game and changes
/// nothing else: the snake stays where it was.
pub proof fn lemma_collision(s: WorldView)
    requires
        s.status == GameStatus::Played,
        s.snake.contains(s.target(s.direction)),
    ensures
        s.stepped().status == GameStatus::Lost,
        s.stepped().snake == s.snake,
        s.stepped().food == s.food,
        s.stepped().score == s.score,
        s.stepped().direction == s.direction,
{
}

/// Once the game is lost, any number of ticks leaves the state as it is.
pub proof fn lemma_lost_is_final(s: WorldView, n: nat)
    requires
        s.status == GameStatus::Lost,
    ensures
        ticks(s, n) == s,
    decreases n,
{
    if n > 0 {
        lemma_lost_is_final(s.stepped(), (n - 1) as nat);
    }
}

/// The same starting state and the same commands, the drawn food cells
/// included, give the same state; every state reached keeps the invariant,
/// so a placed food cell always lies on the board and off the snake.
pub proof fn lemma_deterministic_run(s: WorldView, t: WorldView, cmds: Seq<Command>)
    requires
        s.wf(),
        s == t,
    ensures
        run(s, cmds) == run(t, cmds),
        run(s, cmds).wf(),
    decreases cmds.len(),
{
    if cmds.len() > 0 {
        match cmds[0] {
            Command::Tick => lemma_stepped_wf(s),
            _ => {},
        }
        lemma_deterministic_run(apply(s, cmds[0]), apply(t, cmds[0]), cmds.drop_first());
    }
}

} // verus!
