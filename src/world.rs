use vstd::prelude::*;

use crate::geometry::{in_bounds, next_cell, step_cell, Cell, Direction};
use std::collections::VecDeque;

verus! {

/// Where the game stands. Only `Played` lets the snake move; `Lost` is final.
#[derive(PartialEq, Eq, Structural, Clone, Copy, Debug)]
pub enum GameStatus {
    Played,
    Paused,
    Lost,
}

/// Why a world could not be built.
#[derive(PartialEq, Eq, Structural, Clone, Copy, Debug)]
pub enum WorldError {
    /// The board is too small for the starting snake, which needs
    /// a width of at least 3 and a height of at least 5.
    InvalidDimension,
}

/// The smallest board width that holds the starting snake.
pub const MIN_WIDTH: usize = 3;

/// The smallest board height that holds the starting snake.
pub const MIN_HEIGHT: usize = 5;

/// The abstract state of a [`World`].
pub struct WorldView {
    pub width: usize,
    pub height: usize,
    /// The body, head first.
    pub snake: Seq<Cell>,
    /// The food cell; `None` while a new one waits to be placed.
    pub food: Option<Cell>,
    pub direction: Direction,
    pub status: GameStatus,
    pub score: nat,
}

/// The board coordinates of a body, flattened head first as `[x0, y0, x1, y1, ...]`.
pub open spec fn flatten(s: Seq<Cell>) -> Seq<usize>
    decreases s.len(),
{
    if s.len() == 0 {
        Seq::empty()
    } else {
        flatten(s.drop_last()).push(s.last().0).push(s.last().1)
    }
}

impl WorldView {
    /// The state that a fresh world starts in: a three-cell snake heading
    /// right, no food placed yet, nothing scored.
    pub open spec fn initial(width: usize, height: usize) -> WorldView {
        WorldView {
            width,
            height,
            snake: seq![(2usize, 2usize), (2usize, 3usize), (2usize, 4usize)],
            food: None,
            direction: Direction::Right,
            status: GameStatus::Played,
            score: 0,
        }
    }

    /// The invariant of every reachable state.
    pub open spec fn wf(self) -> bool {
        &&& self.width >= MIN_WIDTH
        &&& self.height >= MIN_HEIGHT
        &&& self.snake.len() == self.score + 3
        &&& self.snake.no_duplicates()
        &&& forall|i: int| 0 <= i < self.snake.len() ==> in_bounds(#[trigger] self.snake[i], self.width, self.height)
        &&& self.food matches Some(f) ==> in_bounds(f, self.width, self.height) && !self.snake.contains(f)
    }

    /// The cell of the head.
    pub open spec fn head(self) -> Cell {
        self.snake[0]
    }

    /// The cell the head enters when moving in direction `d`.
    pub open spec fn target(self, d: Direction) -> Cell {
        next_cell(d, self.head(), self.width, self.height)
    }

    /// The state after asking to head in direction `d`: the request is ignored
    /// when it would send the head onto the second segment.
    pub open spec fn turned(self, d: Direction) -> WorldView {
        if self.snake.len() >= 2 && self.target(d) == self.snake[1] {
            self
        } else {
            WorldView { direction: d, ..self }
        }
    }

    /// The state after one tick.
    pub open spec fn stepped(self) -> WorldView {
        if self.status != GameStatus::Played {
            self
        } else {
            let next = self.target(self.direction);
            if self.snake.contains(next) {
                WorldView { status: GameStatus::Lost, ..self }
            } else if self.food == Some(next) {
                WorldView { snake: seq![next] + self.snake, food: None, score: self.score + 1, ..self }
            } else {
                WorldView { snake: (seq![next] + self.snake).drop_last(), ..self }
            }
        }
    }

    /// A drawn cell is taken as the new food exactly when food is awaited
    /// and the cell is on the board and free of the snake.
    pub open spec fn accepts_food(self, c: Cell) -> bool {
        &&& self.food is None
        &&& in_bounds(c, self.width, self.height)
        &&& !self.snake.contains(c)
    }

    /// The same state with `c` as the food cell.
    pub open spec fn with_food(self, c: Cell) -> WorldView {
        WorldView { food: Some(c), ..self }
    }

    /// The state after offering the drawn cell `c` as food.
    pub open spec fn offered(self, c: Cell) -> WorldView {
        if self.accepts_food(c) {
            self.with_food(c)
        } else {
            self
        }
    }

    /// Some cell of the board is free of the snake.
    pub open spec fn has_free_cell(self) -> bool {
        exists|c: Cell| in_bounds(c, self.width, self.height) && !self.snake.contains(c)
    }
}

/// A tick keeps the invariant: the body stays on the board and free of
/// repeats, and a placed food cell stays off the body.
pub proof fn lemma_stepped_wf(s: WorldView)
    requires
        s.wf(),
    ensures
        s.stepped().wf(),
{
    if s.status == GameStatus::Played {
        let next = s.target(s.direction);
        crate::geometry::lemma_next_cell_in_bounds(s.direction, s.head(), s.width, s.height);
        if !s.snake.contains(next) {
            let grown = seq![next] + s.snake;
            assert(forall|i: int| 0 < i < grown.len() ==> grown[i] == s.snake[i - 1]);
            assert(grown.no_duplicates()) by {
                assert forall|i: int, j: int| 0 <= i < j < grown.len() implies grown[i] != grown[j] by {
                    if i == 0 {
                        assert(s.snake[j - 1] == grown[j]);
                    }
                }
            }
            if s.food != Some(next) {
                let kept = grown.drop_last();
                assert(forall|i: int| 0 <= i < kept.len() ==> kept[i] == grown[i]);
                if let Some(f) = s.food {
                    assert(!kept.contains(f)) by {
                        if kept.contains(f) {
                            let k = choose|k: int| 0 <= k < kept.len() && kept[k] == f;
                            assert(s.snake[k - 1] == f);
                        }
                    }
                }
            }
        }
    }
}

/// A snake game on a wrap-around board.
pub struct World {
    width: usize,
    height: usize,
    snake: VecDeque<Cell>,
    food: Option<Cell>,
    direction: Direction,
    status: GameStatus,
    score: usize,
}

impl View for World {
    type V = WorldView;

    closed spec fn view(&self) -> WorldView {
        WorldView {
            width: self.width,
            height: self.height,
            snake: self.snake@,
            food: self.food,
            direction: self.direction,
            status: self.status,
            score: self.score as nat,
        }
    }
}

impl World {
    /// The invariant that every operation keeps; see [`WorldView::wf`].
    pub open spec fn wf(&self) -> bool {
        self@.wf()
    }

    /// Builds a world on a `width` by `height` board with the snake at
    /// `[(2, 2), (2, 3), (2, 4)]` heading right. No food is placed yet:
    /// the caller offers drawn cells to [`World::place_food`].
    pub fn new(width: usize, height: usize) -> (r: Result<World, WorldError>)
        ensures
            r is Ok <==> (width >= MIN_WIDTH && height >= MIN_HEIGHT),
            r matches Ok(w) ==> w.wf() && w@ == WorldView::initial(width, height),
            r matches Err(e) ==> e == WorldError::InvalidDimension,
    {
        if width < MIN_WIDTH || height < MIN_HEIGHT {
            return Err(WorldError::InvalidDimension);
        }
        let mut snake: VecDeque<Cell> = VecDeque::new();
        snake.push_back((2, 2));
        snake.push_back((2, 3));
        snake.push_back((2, 4));
        let w = World {
            width,
            height,
            snake,
            food: None,
            direction: Direction::Right,
            status: GameStatus::Played,
            score: 0,
        };
        assert(w@.snake =~= WorldView::initial(width, height).snake);
        Ok(w)
    }

    /// Whether a body segment stands on cell `c`.
    fn occupied(&self, c: Cell) -> (r: bool)
        ensures
            r == self@.snake.contains(c),
    {
        let n = self.snake.len();
        let mut i: usize = 0;
        while i < n
            invariant
                n == self@.snake.len(),
                i <= n,
                forall|j: int| 0 <= j < i ==> self@.snake[j] != c,
            decreases n - i,
        {
            let s = self.snake[i];
            if s.0 == c.0 && s.1 == c.1 {
                assert(self@.snake[i as int] == c);
                return true;
            }
            i = i + 1;
        }
        false
    }

    /// Asks the snake to head in `direction`. The request is ignored when
    /// the head would move onto the second segment (an instant reversal);
    /// it is taken whatever the status.
    pub fn change_snake_dir(&mut self, direction: Direction)
        requires
            old(self).wf(),
        ensures
            final(self).wf(),
            final(self)@ == old(self)@.turned(direction),
    {
        let head = self.snake[0];
        let next = step_cell(direction, head, self.width, self.height);
        if self.snake.len() >= 2 {
            let second = self.snake[1];
            if next.0 == second.0 && next.1 == second.1 {
                return;
            }
        }
        self.direction = direction;
    }

    /// Advances the game by one tick. Outside `Played` nothing changes. The
    /// head moves one cell in the current direction, wrapping around the
    /// board; entering a body cell (the tail included) loses the game and
    /// leaves the snake where it was. Entering the food grows the snake by
    /// one, adds one to the score and leaves the food to be placed anew
    /// (see [`World::place_food`]); any other move drops the tail.
    pub fn step(&mut self)
        requires
            old(self).wf(),
        ensures
            final(self).wf(),
            final(self)@ == old(self)@.stepped(),
    {
        if self.status != GameStatus::Played {
            return;
        }
        let head = self.snake[0];
        let next = step_cell(self.direction, head, self.width, self.height);
        if self.occupied(next) {
            self.status = GameStatus::Lost;
            return;
        }
        // The body's length is a `usize` and exceeds the score by three,
        // so the score has room to grow by one.
        let len = self.snake.len();
        proof {
            lemma_stepped_wf(self@);
        }
        self.snake.push_front(next);
        let eaten = match self.food {
            Some(f) => f.0 == next.0 && f.1 == next.1,
            None => false,
        };
        if eaten {
            assert(self.score < len);
            self.score = self.score + 1;
            self.food = None;
        } else {
            self.snake.pop_back();
        }
    }

    /// Offers the cell `(x, y)`, drawn by the caller, as the new food. It is
    /// taken, and `true` returned, exactly when food is awaited and the cell
    /// is on the board and free of the snake; otherwise nothing changes. A
    /// caller that draws cells uniformly and offers them until one is taken
    /// performs rejection sampling over the free cells.
    pub fn place_food(&mut self, x: usize, y: usize) -> (accepted: bool)
        requires
            old(self).wf(),
        ensures
            final(self).wf(),
            accepted == old(self)@.accepts_food((x, y)),
            final(self)@ == old(self)@.offered((x, y)),
    {
        if self.food.is_some() || x >= self.width || y >= self.height {
            return false;
        }
        if self.occupied((x, y)) {
            return false;
        }
        self.food = Some((x, y));
        true
    }

    /// Whether the world waits for a food cell to be placed.
    pub fn needs_food(&self) -> (r: bool)
        ensures
            r == (self@.food is None),
    {
        self.food.is_none()
    }

    /// Whether some cell of the board is free of the snake, so that a
    /// food cell can be placed at all.
    pub fn has_free_cell(&self) -> (r: bool)
        requires
            self.wf(),
        ensures
            r == self@.has_free_cell(),
    {
        let mut x: usize = 0;
        while x < self.width
            invariant
                self.wf(),
                x <= self.width,
                forall|c: Cell| c.0 < x && c.1 < self.height ==> #[trigger] self@.snake.contains(c),
            decreases self.width - x,
        {
            let mut y: usize = 0;
            while y < self.height
                invariant
                    self.wf(),
                    x < self.width,
                    y <= self.height,
                    forall|c: Cell| c.0 < x && c.1 < self.height ==> #[trigger] self@.snake.contains(c),
                    forall|c: Cell| c.0 == x && c.1 < y ==> #[trigger] self@.snake.contains(c),
                decreases self.height - y,
            {
                if !self.occupied((x, y)) {
                    assert(in_bounds((x, y), self@.width, self@.height) && !self@.snake.contains((x, y)));
                    return true;
                }
                y = y + 1;
            }
            x = x + 1;
        }
        assert(!self@.has_free_cell());
        false
    }

    /// The food cell as `[x, y]`, or an empty vector while none is placed.
    pub fn food_position(&self) -> (r: Vec<usize>)
        ensures
            r@ == match self@.food {
                Some(f) => seq![f.0, f.1],
                None => Seq::<usize>::empty(),
            },
    {
        match self.food {
            Some(f) => {
                let v = vec![f.0, f.1];
                assert(v@ =~= seq![f.0, f.1]);
                v
            },
            None => Vec::new(),
        }
    }

    /// The body as `[x0, y0, x1, y1, ...]`, head first.
    pub fn snake_body(&self) -> (r: Vec<usize>)
        ensures
            r@ == flatten(self@.snake),
    {
        let n = self.snake.len();
        let mut out: Vec<usize> = Vec::new();
        let mut i: usize = 0;
        while i < n
            invariant
                n == self@.snake.len(),
                i <= n,
                out@ == flatten(self@.snake.subrange(0, i as int)),
            decreases n - i,
        {
            let c = self.snake[i];
            out.push(c.0);
            out.push(c.1);
            proof {
                let pre = self@.snake.subrange(0, i as int + 1);
                assert(pre.drop_last() =~= self@.snake.subrange(0, i as int));
            }
            i = i + 1;
        }
        assert(self@.snake.subrange(0, n as int) =~= self@.snake);
        out
    }

    pub fn width(&self) -> (r: usize)
        ensures
            r == self@.width,
    {
        self.width
    }

    pub fn height(&self) -> (r: usize)
        ensures
            r == self@.height,
    {
        self.height
    }

    pub fn game_status(&self) -> (r: GameStatus)
        ensures
            r == self@.status,
    {
        self.status
    }

    pub fn score(&self) -> (r: usize)
        ensures
            r == self@.score,
    {
        self.score
    }
}

} // verus!
