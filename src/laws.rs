use vstd::prelude::*;

use crate::rules::{
    alive, height, in_bounds, live_neighbors, neighbor, next, uniform, valid, width, with_cell,
    wrap,
};

verus! {

/// 1 when `p` holds, 0 otherwise.
spec fn ind(p: bool) -> int {
    if p {
        1
    } else {
        0
    }
}

/// How many of the three positions `c - 1`, `c`, `c + 1` (wrapped on a
/// torus of size `n`) satisfy `p`.
spec fn window(p: spec_fn(int) -> bool, c: int, n: int) -> int {
    ind(p(wrap(c - 1, n))) + ind(p(c)) + ind(p(wrap(c + 1, n)))
}

/// A board on which exactly the cells whose column satisfies `cols` and whose
/// row satisfies `rows` are alive.
spec fn is_product(b: Seq<Seq<bool>>, cols: spec_fn(int) -> bool, rows: spec_fn(int) -> bool) -> bool {
    forall|i: int, j: int| in_bounds(b, i, j) ==> #[trigger] b[j][i] == (cols(i) && rows(j))
}

/// On such a board the neighbour count factors: the live cells of the 3 by 3
/// window around `(x, y)`, less the centre.
proof fn lemma_product_count(
    b: Seq<Seq<bool>>,
    cols: spec_fn(int) -> bool,
    rows: spec_fn(int) -> bool,
    x: int,
    y: int,
)
    requires
        valid(b),
        is_product(b, cols, rows),
        in_bounds(b, x, y),
    ensures
        live_neighbors(b, x, y) == window(cols, x, width(b)) * window(rows, y, height(b))
            - ind(cols(x) && rows(y)),
{
    let w = width(b);
    let h = height(b);
    let a0 = ind(cols(wrap(x - 1, w)));
    let a1 = ind(cols(x));
    let a2 = ind(cols(wrap(x + 1, w)));
    let c0 = ind(rows(wrap(y - 1, h)));
    let c1 = ind(rows(y));
    let c2 = ind(rows(wrap(y + 1, h)));
    assert(b[wrap(y - 1, h)].len() == w && b[y].len() == w && b[wrap(y + 1, h)].len() == w);
    assert(neighbor(b, x, y, -1, -1) == a0 * c0);
    assert(neighbor(b, x, y, 0, -1) == a1 * c0);
    assert(neighbor(b, x, y, 1, -1) == a2 * c0);
    assert(neighbor(b, x, y, -1, 0) == a0 * c1);
    assert(neighbor(b, x, y, 1, 0) == a2 * c1);
    assert(neighbor(b, x, y, -1, 1) == a0 * c2);
    assert(neighbor(b, x, y, 0, 1) == a1 * c2);
    assert(neighbor(b, x, y, 1, 1) == a2 * c2);
    assert(ind(cols(x) && rows(y)) == a1 * c1);
    assert((a0 + a1 + a2) * (c0 + c1 + c2) == a0 * c0 + a1 * c0 + a2 * c0 + a0 * c1 + a1 * c1
        + a2 * c1 + a0 * c2 + a1 * c2 + a2 * c2) by (nonlinear_arith);
}

/// Stepping is a function of the board alone: equal boards have equal next
/// generations.
pub proof fn lemma_step_deterministic(a: Seq<Seq<bool>>, b: Seq<Seq<bool>>)
    requires
        valid(a),
        a == b,
    ensures
        next(a) == next(b),
        valid(next(a)),
        width(next(a)) == width(a),
        height(next(a)) == height(a),
{
}

/// Birth: a dead cell with exactly three live neighbours is alive in the
/// next generation.
pub proof fn lemma_birth(b: Seq<Seq<bool>>, x: int, y: int)
    requires
        valid(b),
        in_bounds(b, x, y),
        !alive(b, x, y),
        live_neighbors(b, x, y) == 3,
    ensures
        alive(next(b), x, y),
{
}

/// Survival: a live cell with exactly two or three live neighbours stays
/// alive.
pub proof fn lemma_survival(b: Seq<Seq<bool>>, x: int, y: int)
    requires
        valid(b),
        in_bounds(b, x, y),
        alive(b, x, y),
        live_neighbors(b, x, y) == 2 || live_neighbors(b, x, y) == 3,
    ensures
        alive(next(b), x, y),
{
}

/// Death: a live cell with any other number of live neighbours dies, and a
/// dead cell with any number but three stays dead.
pub proof fn lemma_death(b: Seq<Seq<bool>>, x: int, y: int)
    requires
        valid(b),
        in_bounds(b, x, y),
        alive(b, x, y) ==> live_neighbors(b, x, y) != 2 && live_neighbors(b, x, y) != 3,
        !alive(b, x, y) ==> live_neighbors(b, x, y) != 3,
    ensures
        !alive(next(b), x, y),
{
}

/// Toroidal wrap: the cell at `(0, 0)` counts the opposite corner
/// `(width - 1, height - 1)` as a neighbour. Making that corner alive raises
/// the count of `(0, 0)`, by exactly one once the grid is at least 3 by 3
/// (on a narrower grid the same cell lies at several offsets).
pub proof fn lemma_corner_wraps(b: Seq<Seq<bool>>)
    requires
        valid(b),
    ensures
        live_neighbors(with_cell(b, width(b) - 1, height(b) - 1, true), 0, 0)
            > live_neighbors(with_cell(b, width(b) - 1, height(b) - 1, false), 0, 0),
        width(b) >= 3 && height(b) >= 3 ==> live_neighbors(
            with_cell(b, width(b) - 1, height(b) - 1, true),
            0,
            0,
        ) == live_neighbors(with_cell(b, width(b) - 1, height(b) - 1, false), 0, 0) + 1,
{
    let w = width(b);
    let h = height(b);
    let on = with_cell(b, w - 1, h - 1, true);
    let off = with_cell(b, w - 1, h - 1, false);
    assert(width(on) == w && height(on) == h && width(off) == w && height(off) == h);
    assert(neighbor(on, 0, 0, -1, -1) == 1);
    assert(neighbor(off, 0, 0, -1, -1) == 0);
}

/// An empty board stays empty.
pub proof fn lemma_empty_stays_empty(w: nat, h: nat)
    requires
        w > 0,
        h > 0,
    ensures
        next(uniform(w, h, false)) == uniform(w, h, false),
{
    let b = uniform(w, h, false);
    assert forall|y: int, x: int| 0 <= y < h && 0 <= x < w implies #[trigger] next(b)[y][x] == b[y][x] by {
        assert(live_neighbors(b, x, y) == 0);
    }
    assert(next(b) =~~= b);
}

/// The position `x` alone.
spec fn one(x: int) -> spec_fn(int) -> bool {
    |i: int| i == x
}

/// The positions `x` and `x + 1`, wrapped on a torus of size `n`.
spec fn two(x: int, n: int) -> spec_fn(int) -> bool {
    |i: int| i == x || i == wrap(x + 1, n)
}

/// The positions `x - 1`, `x` and `x + 1`, wrapped on a torus of size `n`.
spec fn three(x: int, n: int) -> spec_fn(int) -> bool {
    |i: int| i == wrap(x - 1, n) || i == x || i == wrap(x + 1, n)
}

/// The board of `w` columns and `h` rows whose live cells are those whose
/// column satisfies `cols` and whose row satisfies `rows`.
spec fn product(w: nat, h: nat, cols: spec_fn(int) -> bool, rows: spec_fn(int) -> bool) -> Seq<Seq<bool>> {
    Seq::new(h, |j: int| Seq::new(w, |i: int| cols(i) && rows(j)))
}

/// A 2 by 2 block with its top-left cell at `(x, y)`, every other cell dead.
pub open spec fn block(w: nat, h: nat, x: int, y: int) -> Seq<Seq<bool>> {
    Seq::new(
        h,
        |j: int| Seq::new(w, |i: int| (i == x || i == wrap(x + 1, w as int)) && (j == y || j == wrap(y + 1, h as int))),
    )
}

/// A horizontal line of three cells centred on `(x, y)`, every other cell dead.
pub open spec fn horizontal_blinker(w: nat, h: nat, x: int, y: int) -> Seq<Seq<bool>> {
    Seq::new(
        h,
        |j: int| Seq::new(w, |i: int| (i == wrap(x - 1, w as int) || i == x || i == wrap(x + 1, w as int)) && j == y),
    )
}

/// A vertical line of three cells centred on `(x, y)`, every other cell dead.
pub open spec fn vertical_blinker(w: nat, h: nat, x: int, y: int) -> Seq<Seq<bool>> {
    Seq::new(
        h,
        |j: int| Seq::new(w, |i: int| i == x && (j == wrap(y - 1, h as int) || j == y || j == wrap(y + 1, h as int))),
    )
}

proof fn lemma_window_one(x: int, n: int, c: int)
    requires
        n >= 2,
        0 <= x < n,
        0 <= c < n,
    ensures
        0 <= window(one(x), c, n) <= 2,
        c == x ==> window(one(x), c, n) == 1,
        n >= 3 ==> window(one(x), c, n) <= 1,
        n >= 3 ==> (window(one(x), c, n) == 1 <==> three(x, n)(c)),
{
}

proof fn lemma_window_two(x: int, n: int, c: int)
    requires
        n >= 3,
        0 <= x < n,
        0 <= c < n,
    ensures
        0 <= window(two(x, n), c, n) <= 2,
        two(x, n)(c) ==> window(two(x, n), c, n) == 2,
{
}

proof fn lemma_window_three(x: int, n: int, c: int)
    requires
        n >= 4,
        0 <= x < n,
        0 <= c < n,
    ensures
        0 <= window(three(x, n), c, n) <= 3,
        window(three(x, n), c, n) == 3 <==> c == x,
{
}

/// Still life: a 2 by 2 block with every other cell dead is unchanged by a
/// step, on any grid with room for a dead column and a dead row beside it.
pub proof fn lemma_block_is_still(w: nat, h: nat, x: int, y: int)
    requires
        w >= 3,
        h >= 3,
        0 <= x < w,
        0 <= y < h,
    ensures
        next(block(w, h, x, y)) == block(w, h, x, y),
{
    let b = block(w, h, x, y);
    let cols = two(x, w as int);
    let rows = two(y, h as int);
    assert(is_product(b, cols, rows));
    assert forall|j: int, i: int| 0 <= j < h && 0 <= i < w implies #[trigger] next(b)[j][i] == b[j][i] by {
        lemma_product_count(b, cols, rows, i, j);
        lemma_window_two(x, w as int, i);
        lemma_window_two(y, h as int, j);
        let cx = window(cols, i, w as int);
        let cy = window(rows, j, h as int);
        assert(cx * cy != 3) by (nonlinear_arith)
            requires
                0 <= cx <= 2,
                0 <= cy <= 2,
        ;
    }
    assert(next(b) =~~= b);
}

/// Oscillation: on a grid at least 4 by 4, a horizontal line of three cells
/// with every other cell dead turns into the vertical line through its centre
/// after one step, and back after a second.
pub proof fn lemma_blinker_oscillates(w: nat, h: nat, x: int, y: int)
    requires
        w >= 4,
        h >= 4,
        0 <= x < w,
        0 <= y < h,
    ensures
        next(horizontal_blinker(w, h, x, y)) == vertical_blinker(w, h, x, y),
        next(vertical_blinker(w, h, x, y)) == horizontal_blinker(w, h, x, y),
{
    let hb = horizontal_blinker(w, h, x, y);
    let vb = vertical_blinker(w, h, x, y);
    assert(is_product(hb, three(x, w as int), one(y)));
    assert(is_product(vb, one(x), three(y, h as int)));
    assert forall|j: int, i: int| 0 <= j < h && 0 <= i < w implies #[trigger] next(hb)[j][i] == vb[j][i] by {
        lemma_product_count(hb, three(x, w as int), one(y), i, j);
        lemma_window_three(x, w as int, i);
        lemma_window_one(y, h as int, j);
    }
    assert forall|j: int, i: int| 0 <= j < h && 0 <= i < w implies #[trigger] next(vb)[j][i] == hb[j][i] by {
        lemma_product_count(vb, one(x), three(y, h as int), i, j);
        lemma_window_one(x, w as int, i);
        lemma_window_three(y, h as int, j);
    }
    assert(next(hb) =~~= vb);
    assert(next(vb) =~~= hb);
}

/// A single live cell: setting one cell alive on an empty board makes that
/// cell alive and leaves every other cell dead; on a grid at least 2 by 2,
/// where no cell is its own neighbour, the next step empties the board again.
pub proof fn lemma_single_cell(w: nat, h: nat, x: int, y: int)
    requires
        w > 0,
        h > 0,
        0 <= x < w,
        0 <= y < h,
    ensures
        alive(with_cell(uniform(w, h, false), x, y, true), x, y),
        forall|i: int, j: int|
            0 <= i < w && 0 <= j < h && (i != x || j != y) ==> !alive(
                #[trigger] with_cell(uniform(w, h, false), x, y, true),
                i,
                j,
            ),
        w >= 2 && h >= 2 ==> next(with_cell(uniform(w, h, false), x, y, true)) == uniform(w, h, false),
{
    let b = with_cell(uniform(w, h, false), x, y, true);
    if w >= 2 && h >= 2 {
        assert(is_product(b, one(x), one(y)));
        assert forall|j: int, i: int| 0 <= j < h && 0 <= i < w implies !#[trigger] next(b)[j][i] by {
            lemma_product_count(b, one(x), one(y), i, j);
            lemma_window_one(x, w as int, i);
            lemma_window_one(y, h as int, j);
            let cx = window(one(x), i, w as int);
            let cy = window(one(y), j, h as int);
            assert(cx * cy != 3) by (nonlinear_arith)
                requires
                    0 <= cx <= 2,
                    0 <= cy <= 2,
            ;
        }
        assert(next(b) =~~= uniform(w, h, false));
    }
}

} // verus!
