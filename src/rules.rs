use vstd::prelude::*;

verus! {

/// A board is a sequence of rows, each a sequence of cells (`true` is alive).
/// It is valid when it has at least one row and one column and every row
/// has the same length.
pub open spec fn valid(b: Seq<Seq<bool>>) -> bool {
    &&& b.len() > 0
    &&& b[0].len() > 0
    &&& forall|y: int| 0 <= y < b.len() ==> #[trigger] b[y].len() == b[0].len()
}

/// Number of columns of a board.
pub open spec fn width(b: Seq<Seq<bool>>) -> int {
    b[0].len() as int
}

/// Number of rows of a board.
pub open spec fn height(b: Seq<Seq<bool>>) -> int {
    b.len() as int
}

/// Whether `(x, y)` is a coordinate of the board.
pub open spec fn in_bounds(b: Seq<Seq<bool>>, x: int, y: int) -> bool {
    0 <= x < width(b) && 0 <= y < height(b)
}

/// Whether the cell at `(x, y)` is alive.
pub open spec fn alive(b: Seq<Seq<bool>>, x: int, y: int) -> bool {
    b[y][x]
}

/// Wraps a coordinate that is at most one step outside `[0, n)` back into it:
/// `-1` becomes `n - 1` and `n` becomes `0`.
pub open spec fn wrap(c: int, n: int) -> int {
    if c < 0 {
        c + n
    } else if c >= n {
        c - n
    } else {
        c
    }
}

/// 1 when the neighbour of `(x, y)` at offset `(dx, dy)`, on the torus, is alive.
pub open spec fn neighbor(b: Seq<Seq<bool>>, x: int, y: int, dx: int, dy: int) -> int {
    if alive(b, wrap(x + dx, width(b)), wrap(y + dy, height(b))) {
        1
    } else {
        0
    }
}

/// Number of live cells among the eight toroidal neighbours of `(x, y)`,
/// one for each offset from `(-1, -1)` to `(1, 1)` but `(0, 0)`.
pub open spec fn live_neighbors(b: Seq<Seq<bool>>, x: int, y: int) -> int {
    neighbor(b, x, y, -1, -1) + neighbor(b, x, y, 0, -1) + neighbor(b, x, y, 1, -1)
        + neighbor(b, x, y, -1, 0) + neighbor(b, x, y, 1, 0)
        + neighbor(b, x, y, -1, 1) + neighbor(b, x, y, 0, 1) + neighbor(b, x, y, 1, 1)
}

/// The Game-of-Life rule: whether a cell is alive in the next generation,
/// given whether it is alive now and how many of its neighbours are.
pub open spec fn rule(alive: bool, count: int) -> bool {
    if alive {
        count == 2 || count == 3
    } else {
        count == 3
    }
}

/// The next generation of a board: every cell follows [`rule`], with the
/// neighbour counts all taken from the current generation.
pub open spec fn next(b: Seq<Seq<bool>>) -> Seq<Seq<bool>> {
    Seq::new(
        b.len(),
        |y: int| Seq::new(width(b) as nat, |x: int| rule(alive(b, x, y), live_neighbors(b, x, y))),
    )
}

/// The board `b` with the cell at `(x, y)` set to `v`.
pub open spec fn with_cell(b: Seq<Seq<bool>>, x: int, y: int, v: bool) -> Seq<Seq<bool>> {
    b.update(y, b[y].update(x, v))
}

/// A board of the given size on which every cell is `v`.
pub open spec fn uniform(w: nat, h: nat, v: bool) -> Seq<Seq<bool>> {
    Seq::new(h, |y: int| Seq::new(w, |x: int| v))
}

/// Executable form of [`rule`].
pub fn next_alive(alive: bool, count: usize) -> (r: bool)
    ensures
        r == rule(alive, count as int),
{
    if alive {
        count == 2 || count == 3
    } else {
        count == 3
    }
}

/// Whether the simulation is paused after a frame, given whether it was
/// paused and whether the pause key was just pressed in that frame.
pub fn paused_after(paused: bool, toggle_pressed: bool) -> (r: bool)
    ensures
        r == (paused != toggle_pressed),
{
    if toggle_pressed {
        !paused
    } else {
        paused
    }
}

} // verus!
