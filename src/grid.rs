use rand::Rng;
use vstd::prelude::*;

use crate::rules::{
    alive, height, in_bounds, live_neighbors, next, next_alive, uniform, valid, width, with_cell,
    wrap,
};

verus! {

/// A toroidal grid of cells, stored as rows of equal length.
pub struct Grid {
    rows: Vec<Vec<bool>>,
}

impl View for Grid {
    type V = Seq<Seq<bool>>;

    closed spec fn view(&self) -> Seq<Seq<bool>> {
        self.rows@.map_values(|r: Vec<bool>| r@)
    }
}

/// Relies on rand's `Rng::gen_ratio` on the thread-local generator: it is
/// `true` with probability `numerator / denominator`, always `true` when the
/// two are equal and always `false` when `numerator` is 0. It panics when
/// `denominator` is 0 or `numerator > denominator`.
#[verifier::external_body]
fn draw_ratio(numerator: u32, denominator: u32) -> (r: bool)
    requires
        0 < denominator,
        numerator <= denominator,
    ensures
        numerator == denominator ==> r,
        numerator == 0 ==> !r,
{
    rand::thread_rng().gen_ratio(numerator, denominator)
}

/// Pushing `e` adds exactly `e` to what a sequence contains.
proof fn lemma_push_contains(s: Seq<(usize, usize)>, e: (usize, usize), a: (usize, usize))
    ensures
        s.push(e).contains(a) <==> (s.contains(a) || a == e),
{
    if s.contains(a) {
        let k = choose|k: int| 0 <= k < s.len() && s[k] == a;
        assert(s.push(e)[k] == a);
    }
    if a == e {
        assert(s.push(e)[s.len() as int] == e);
    }
    if s.push(e).contains(a) {
        let k = choose|k: int| 0 <= k < s.push(e).len() && s.push(e)[k] == a;
        if k < s.len() {
            assert(s[k] == a);
        }
    }
}

/// The row-major index of a coordinate lies within the grid's cell count.
proof fn lemma_row_major_index(x: int, y: int, w: int, h: int)
    requires
        0 <= x < w,
        0 <= y < h,
    ensures
        0 <= y * w + x < w * h,
{
    assert(0 <= y * w + x < w * h) by (nonlinear_arith)
        requires
            0 <= x < w,
            0 <= y < h,
    ;
}

impl Grid {

    /// Number of columns.
    pub fn width(&self) -> (r: usize)
        requires
            valid(self@),
        ensures
            r == width(self@),
    {
        self.rows[0].len()
    }

    /// Number of rows.
    pub fn height(&self) -> (r: usize)
        requires
            valid(self@),
        ensures
            r == height(self@),
    {
        self.rows.len()
    }

    /// Whether the cell at `(x, y)` is alive.
    pub fn get(&self, x: usize, y: usize) -> (r: bool)
        requires
            valid(self@),
            in_bounds(self@, x as int, y as int),
        ensures
            r == alive(self@, x as int, y as int),
    {
        assert(self.rows@[y as int]@ == self@[y as int]);
        self.rows[y][x]
    }

    /// Index of the column (or row) just before `c` on a torus of size `n`.
    fn before(c: usize, n: usize) -> (r: usize)
        requires
            c < n,
        ensures
            r == wrap(c - 1, n as int),
    {
        if c == 0 {
            n - 1
        } else {
            c - 1
        }
    }

    /// Index of the column (or row) just after `c` on a torus of size `n`.
    fn after(c: usize, n: usize) -> (r: usize)
        requires
            c < n,
        ensures
            r == wrap(c + 1, n as int),
    {
        if c + 1 == n {
            0
        } else {
            c + 1
        }
    }

    /// Number of live cells among the eight toroidal neighbours of `(x, y)`.
    pub fn surrounding_count(&self, x: usize, y: usize) -> (r: usize)
        requires
            valid(self@),
            in_bounds(self@, x as int, y as int),
        ensures
            r == live_neighbors(self@, x as int, y as int),
            r <= 8,
    {
        let w = self.width();
        let h = self.height();
        let (xm, xp) = (Self::before(x, w), Self::after(x, w));
        let (ym, yp) = (Self::before(y, h), Self::after(y, h));
        let mut count: usize = 0;
        if self.get(xm, ym) {
            count = count + 1;
        }
        if self.get(x, ym) {
            count = count + 1;
        }
        if self.get(xp, ym) {
            count = count + 1;
        }
        if self.get(xm, y) {
            count = count + 1;
        }
        if self.get(xp, y) {
            count = count + 1;
        }
        if self.get(xm, yp) {
            count = count + 1;
        }
        if self.get(x, yp) {
            count = count + 1;
        }
        if self.get(xp, yp) {
            count = count + 1;
        }
        count
    }
    /// A grid of `width` columns and `height` rows on which every cell is dead.
    pub fn new(width: usize, height: usize) -> (r: Grid)
        requires
            width > 0,
            height > 0,
        ensures
            r@ == uniform(width as nat, height as nat, false),
            valid(r@),
    {
        let mut rows: Vec<Vec<bool>> = Vec::new();
        for y in 0..height
            invariant
                rows@.len() == y,
                forall|j: int| 0 <= j < y ==> #[trigger] rows@[j]@ == Seq::new(width as nat, |x: int| false),
        {
            let mut row: Vec<bool> = Vec::new();
            for x in 0..width
                invariant
                    row@ == Seq::new(x as nat, |i: int| false),
            {
                row.push(false);
                assert(row@ =~= Seq::new((x + 1) as nat, |i: int| false));
            }
            rows.push(row);
        }
        let r = Grid { rows };
        assert(r@ =~~= uniform(width as nat, height as nat, false));
        r
    }

    /// The grid of `width` columns and `height` rows whose cell `(x, y)` is
    /// `cells[y * width + x]`, the cells being listed row by row.
    pub fn from_cells(width: usize, height: usize, cells: Vec<bool>) -> (r: Grid)
        requires
            width > 0,
            height > 0,
            cells@.len() == width * height,
        ensures
            valid(r@),
            r@ == Seq::new(
                height as nat,
                |y: int| Seq::new(width as nat, |x: int| cells@[y * width + x]),
            ),
    {
        let ghost target = Seq::new(
            height as nat,
            |y: int| Seq::new(width as nat, |x: int| cells@[y * width + x]),
        );
        let n = cells.len();
        let mut rows: Vec<Vec<bool>> = Vec::new();
        for y in 0..height
            invariant
                width > 0,
                n == cells@.len(),
                cells@.len() == width * height,
                target == Seq::new(
                    height as nat,
                    |y: int| Seq::new(width as nat, |x: int| cells@[y * width + x]),
                ),
                rows@.len() == y,
                forall|j: int| 0 <= j < y ==> #[trigger] rows@[j]@ == target[j],
        {
            let mut row: Vec<bool> = Vec::new();
            for x in 0..width
                invariant
                    width > 0,
                    y < height,
                    n == cells@.len(),
                    cells@.len() == width * height,
                    target == Seq::new(
                        height as nat,
                        |y: int| Seq::new(width as nat, |x: int| cells@[y * width + x]),
                    ),
                    row@.len() == x,
                    forall|i: int| 0 <= i < x ==> #[trigger] row@[i] == target[y as int][i],
            {
                proof {
                    lemma_row_major_index(x as int, y as int, width as int, height as int);
                }
                row.push(cells[y * width + x]);
            }
            assert(row@ =~= target[y as int]);
            rows.push(row);
        }
        let r = Grid { rows };
        assert(r@ =~~= target);
        r
    }

    /// A grid of `width` columns and `height` rows on which each cell is drawn
    /// alive independently, with probability `numerator / denominator`: one
    /// draw per cell, handed to [`Grid::from_cells`] row by row.
    pub fn random(width: usize, height: usize, numerator: u32, denominator: u32) -> (r: Grid)
        requires
            width > 0,
            height > 0,
            0 < denominator,
            numerator <= denominator,
        ensures
            valid(r@),
            crate::rules::width(r@) == width,
            crate::rules::height(r@) == height,
            numerator == 0 ==> r@ == uniform(width as nat, height as nat, false),
            numerator == denominator ==> r@ == uniform(width as nat, height as nat, true),
    {
        let mut cells: Vec<bool> = Vec::new();
        for y in 0..height
            invariant
                0 < denominator,
                numerator <= denominator,
                cells@.len() == y * width,
                forall|k: int| 0 <= k < cells@.len() && numerator == 0 ==> !(#[trigger] cells@[k]),
                forall|k: int| 0 <= k < cells@.len() && numerator == denominator ==> #[trigger] cells@[k],
        {
            for x in 0..width
                invariant
                    0 < denominator,
                    numerator <= denominator,
                    y < height,
                    cells@.len() == y * width + x,
                    forall|k: int| 0 <= k < cells@.len() && numerator == 0 ==> !(#[trigger] cells@[k]),
                    forall|k: int| 0 <= k < cells@.len() && numerator == denominator ==> #[trigger] cells@[k],
            {
                cells.push(draw_ratio(numerator, denominator));
            }
            assert((y + 1) * width == y * width + width) by (nonlinear_arith);
        }
        assert(cells@.len() == width * height) by (nonlinear_arith)
            requires
                cells@.len() == height * width,
        ;
        let ghost drawn = cells@;
        let r = Grid::from_cells(width, height, cells);
        assert forall|y: int, x: int| 0 <= y < height && 0 <= x < width implies 0 <= #[trigger] (y * width + x) < drawn.len() by {
            lemma_row_major_index(x, y, width as int, height as int);
        }
        if numerator == 0 {
            assert(r@ =~~= uniform(width as nat, height as nat, false));
        }
        if numerator == denominator {
            assert(r@ =~~= uniform(width as nat, height as nat, true));
        }
        r
    }

    /// The next generation, computed entirely from this one: every cell
    /// follows the Game-of-Life rule with toroidal neighbours.
    pub fn step(&self) -> (r: Grid)
        requires
            valid(self@),
        ensures
            r@ == next(self@),
            valid(r@),
    {
        let w = self.width();
        let h = self.height();
        let mut rows: Vec<Vec<bool>> = Vec::new();
        for y in 0..h
            invariant
                valid(self@),
                w == width(self@),
                h == height(self@),
                rows@.len() == y,
                forall|j: int| 0 <= j < y ==> #[trigger] rows@[j]@ == next(self@)[j],
        {
            let mut row: Vec<bool> = Vec::new();
            for x in 0..w
                invariant
                    valid(self@),
                    w == width(self@),
                    h == height(self@),
                    y < h,
                    row@.len() == x,
                    forall|i: int| 0 <= i < x ==> #[trigger] row@[i] == next(self@)[y as int][i],
            {
                let cell = next_alive(self.get(x, y), self.surrounding_count(x, y));
                row.push(cell);
            }
            assert(row@ =~= next(self@)[y as int]);
            rows.push(row);
        }
        let r = Grid { rows };
        assert(r@ =~~= next(self@));
        r
    }

    /// An independent copy of this grid.
    pub fn clone_snapshot(&self) -> (r: Grid)
        ensures
            r@ == self@,
    {
        let mut rows: Vec<Vec<bool>> = Vec::new();
        for y in 0..self.rows.len()
            invariant
                rows@.len() == y,
                forall|j: int| 0 <= j < y ==> #[trigger] rows@[j]@ == self.rows@[j]@,
        {
            let mut row: Vec<bool> = Vec::new();
            let src = &self.rows[y];
            for x in 0..src.len()
                invariant
                    row@ == src@.subrange(0, x as int),
            {
                row.push(src[x]);
                assert(row@ =~= src@.subrange(0, x + 1));
            }
            assert(row@ =~= src@);
            rows.push(row);
        }
        let r = Grid { rows };
        assert(r@ =~~= self@);
        r
    }

    /// Sets the cell at `(x, y)` alive or dead; every other cell is unchanged.
    pub fn set(&mut self, x: usize, y: usize, alive: bool)
        requires
            valid(old(self)@),
            in_bounds(old(self)@, x as int, y as int),
        ensures
            final(self)@ == with_cell(old(self)@, x as int, y as int, alive),
            valid(final(self)@),
    {
        let ghost before = self@;
        let mut row: Vec<bool> = Vec::new();
        assert(self.rows@[y as int]@ == before[y as int]);
        std::mem::swap(&mut row, &mut self.rows[y]);
        row.set(x, alive);
        self.rows.set(y, row);
        assert(self@ =~~= with_cell(before, x as int, y as int, alive));
    }

    /// Replaces this grid by its next generation when `due` holds, and leaves
    /// it as it is otherwise.
    pub fn tick(&mut self, due: bool)
        requires
            valid(old(self)@),
        ensures
            due ==> final(self)@ == next(old(self)@),
            !due ==> final(self)@ == old(self)@,
            valid(final(self)@),
    {
        if due {
            *self = self.step();
        }
    }

    /// Sets alive the cell at `(x, y)` when that is a coordinate of the grid,
    /// as a pointer position may fall outside it, and tells whether it did.
    /// Nothing changes otherwise.
    pub fn add_cell(&mut self, x: i64, y: i64) -> (r: bool)
        requires
            valid(old(self)@),
        ensures
            r == in_bounds(old(self)@, x as int, y as int),
            r ==> final(self)@ == with_cell(old(self)@, x as int, y as int, true),
            !r ==> final(self)@ == old(self)@,
            valid(final(self)@),
    {
        let w = self.width();
        let h = self.height();
        if 0 <= x && 0 <= y && (x as u64) < (w as u64) && (y as u64) < (h as u64) {
            self.set(x as usize, y as usize, true);
            true
        } else {
            false
        }
    }

    /// The coordinates `(x, y)` of the live cells, each listed once.
    pub fn live_cells(&self) -> (r: Vec<(usize, usize)>)
        requires
            valid(self@),
        ensures
            r@.no_duplicates(),
            forall|k: int| 0 <= k < r@.len() ==> in_bounds(self@, r@[k].0 as int, r@[k].1 as int),
            forall|x: int, y: int| in_bounds(self@, x, y) ==> (alive(self@, x, y) <==> r@.contains((x as usize, y as usize))),
    {
        let w = self.width();
        let h = self.height();
        let mut out: Vec<(usize, usize)> = Vec::new();
        for y in 0..h
            invariant
                valid(self@),
                w == width(self@),
                h == height(self@),
                forall|k: int| 0 <= k < out@.len() ==> #[trigger] out@[k].1 < y,
                out@.no_duplicates(),
                forall|k: int| 0 <= k < out@.len() ==> in_bounds(self@, #[trigger] out@[k].0 as int, out@[k].1 as int),
                forall|i: int, j: int| 0 <= i < w && 0 <= j < y ==> (alive(self@, i, j) <==> #[trigger] out@.contains((i as usize, j as usize))),
        {
            let ghost start = out@.len();
            for x in 0..w
                invariant
                    valid(self@),
                    w == width(self@),
                    h == height(self@),
                    y < h,
                    start <= out@.len(),
                    forall|k: int| 0 <= k < start ==> #[trigger] out@[k].1 < y,
                    forall|k: int| start <= k < out@.len() ==> #[trigger] out@[k].1 == y && out@[k].0 < x,
                    out@.no_duplicates(),
                    forall|k: int| 0 <= k < out@.len() ==> in_bounds(self@, #[trigger] out@[k].0 as int, out@[k].1 as int),
                    forall|i: int, j: int| 0 <= i < w && 0 <= j < y ==> (alive(self@, i, j) <==> #[trigger] out@.contains((i as usize, j as usize))),
                    forall|i: int| 0 <= i < x ==> (alive(self@, i, y as int) <==> #[trigger] out@.contains((i as usize, y))),
            {
                proof {
                    if out@.contains((x, y)) {
                        let k = choose|k: int| 0 <= k < out@.len() && out@[k] == (x, y);
                        assert(out@[k].1 < y || out@[k].0 < x);
                    }
                }
                if self.get(x, y) {
                    let ghost prev = out@;
                    out.push((x, y));
                    proof {
                        assert forall|a: (usize, usize)|
                            #[trigger] out@.contains(a) <==> (prev.contains(a) || a == (x, y)) by {
                            lemma_push_contains(prev, (x, y), a);
                        }
                    }
                }
            }
        }
        out
    }
}

} // verus!
