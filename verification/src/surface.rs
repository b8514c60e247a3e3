//! The correlation surface: a grid of similarity scores, one for every
//! placement of the template inside the target.
//!
//! A score is an `i32` on a scale chosen by whoever fills the surface. The
//! scores are only ever compared with each other and with a threshold, so any
//! encoding that keeps the order of the underlying similarity values will do.
//! A cell is either live and holds a score, or suppressed and holds none.

use vstd::prelude::*;
use crate::geometry::Rect;

verus! {

/// The mathematical model of a surface: its extent and its cells in
/// row-major order. A suppressed cell is `None`.
pub struct Grid {
    pub cols: nat,
    pub rows: nat,
    pub cells: Seq<Option<i32>>,
}

impl Grid {
    /// There is exactly one cell for every column of every row, and a
    /// column or row number fits in 32 bits.
    pub open spec fn wf(self) -> bool {
        &&& self.cells.len() == self.cols * self.rows
        &&& self.cols <= u32::MAX
        &&& self.rows <= u32::MAX
    }

    /// Cell `i` exists and has not been suppressed.
    pub open spec fn is_live(self, i: int) -> bool {
        0 <= i < self.cells.len() && self.cells[i] is Some
    }

    /// The score held by cell `i`.
    pub open spec fn score(self, i: int) -> int {
        self.cells[i]->0 as int
    }

    /// The set of live cells.
    pub open spec fn live_set(self) -> Set<int> {
        Set::new(|i: int| self.is_live(i))
    }

    /// The number of live cells.
    pub open spec fn live_count(self) -> nat {
        self.live_set().len()
    }

    /// Cell `i` is the peak: it is live, no live cell has a greater score,
    /// and every live cell before it in row-major order has a smaller one.
    pub open spec fn is_peak(self, i: int) -> bool {
        &&& self.is_live(i)
        &&& forall|j: int| #[trigger] self.is_live(j) ==> self.score(j) <= self.score(i)
        &&& forall|j: int| #[trigger] self.is_live(j) && j < i ==> self.score(j) < self.score(i)
    }

    /// Some cell is the peak.
    pub open spec fn has_peak(self) -> bool {
        exists|i: int| self.is_peak(i)
    }

    /// The index of the peak, where there is one.
    pub open spec fn peak_index(self) -> int {
        choose|i: int| self.is_peak(i)
    }

    /// The peak as a candidate match: where it lies and what it scores.
    pub open spec fn peak(self) -> MatchCandidate {
        MatchCandidate {
            left: self.column_of(self.peak_index()) as u32,
            top: self.row_of(self.peak_index()) as u32,
            score: self.cells[self.peak_index()]->0,
        }
    }

    /// The column of cell `i`.
    pub open spec fn column_of(self, i: int) -> int {
        i % (self.cols as int)
    }

    /// The row of cell `i`.
    pub open spec fn row_of(self, i: int) -> int {
        i / (self.cols as int)
    }

    /// The cells that lie inside `window`.
    pub open spec fn window_cells(self, window: Rect) -> Set<int> {
        Set::new(
            |i: int|
                0 <= i < self.cells.len() && window.covers(self.column_of(i), self.row_of(i)),
        )
    }

    /// Every cell inside `window` is live: no earlier suppression has
    /// reached into it.
    pub open spec fn is_fresh(self, window: Rect) -> bool {
        forall|i: int| #[trigger] self.window_cells(window).contains(i) ==> self.is_live(i)
    }

    /// The grid with every cell inside `window` suppressed and all other
    /// cells as they were.
    pub open spec fn suppress(self, window: Rect) -> Grid {
        Grid {
            cols: self.cols,
            rows: self.rows,
            cells: Seq::new(
                self.cells.len(),
                |i: int|
                    if window.covers(self.column_of(i), self.row_of(i)) {
                        None
                    } else {
                        self.cells[i]
                    },
            ),
        }
    }
}

/// A grid has at most one peak.
pub proof fn lemma_peak_unique(g: Grid, i: int, j: int)
    requires
        g.is_peak(i),
        g.is_peak(j),
    ensures
        i == j,
{
    if i < j {
        assert(g.is_live(i));
    } else if j < i {
        assert(g.is_live(j));
    }
}

/// The live cells of a grid are finitely many, and no more than its cells.
pub proof fn lemma_live_count_bounded(g: Grid)
    ensures
        g.live_set().finite(),
        g.live_count() <= g.cells.len(),
{
    let all = vstd::set_lib::set_int_range(0, g.cells.len() as int);
    vstd::set_lib::lemma_int_range(0, g.cells.len() as int);
    assert(g.live_set().subset_of(all));
    vstd::set_lib::lemma_len_subset(g.live_set(), all);
}

/// Suppressing a window never revives a cell, and every live cell it covers
/// is lost: if it covers the live cell `i`, fewer live cells remain.
pub proof fn lemma_suppress_shrinks(g: Grid, window: Rect, i: int)
    requires
        g.is_live(i),
        window.covers(g.column_of(i), g.row_of(i)),
    ensures
        g.suppress(window).live_count() < g.live_count(),
{
    let after = g.suppress(window);
    lemma_live_count_bounded(g);
    let rest = g.live_set().remove(i);
    assert forall|j: int| after.live_set().contains(j) implies rest.contains(j) by {
        assert(after.is_live(j));
        assert(g.is_live(j));
    }
    assert(after.live_set().subset_of(rest));
    vstd::set_lib::lemma_len_subset(after.live_set(), rest);
}

/// Where cell `y * cols + x` lies: in column `x` of row `y`, and inside a
/// grid of `rows` rows if `y` is one of them.
pub proof fn lemma_cell_position(cols: int, rows: int, x: int, y: int)
    requires
        0 <= x < cols,
        0 <= y,
    ensures
        (y * cols + x) / cols == y,
        (y * cols + x) % cols == x,
        0 <= y * cols + x,
        y < rows ==> y * cols + x < cols * rows,
{
    vstd::arithmetic::div_mod::lemma_fundamental_div_mod_converse(y * cols + x, cols, y, x);
    assert(0 <= y * cols) by (nonlinear_arith)
        requires
            0 <= y,
            0 < cols,
    ;
    if y < rows {
        assert((y + 1) * cols <= rows * cols) by (nonlinear_arith)
            requires
                y + 1 <= rows,
                0 < cols,
        ;
        assert((y + 1) * cols == y * cols + cols) by (nonlinear_arith);
        assert(rows * cols == cols * rows) by (nonlinear_arith);
    }
}

/// Every cell of a grid lies in one of its columns and one of its rows, and
/// its index is made of the two.
pub proof fn lemma_position_of_cell(cols: int, rows: int, i: int)
    requires
        0 <= i < cols * rows,
        0 < cols,
    ensures
        0 <= i % cols < cols,
        0 <= i / cols < rows,
        i == (i / cols) * cols + i % cols,
{
    vstd::arithmetic::div_mod::lemma_fundamental_div_mod(i, cols);
    vstd::arithmetic::div_mod::lemma_mod_bound(i, cols);
    let q = i / cols;
    assert(cols * q == q * cols) by (nonlinear_arith);
    assert(0 <= q) by (nonlinear_arith)
        requires
            i == q * cols + i % cols,
            0 <= i,
            0 <= i % cols < cols,
            0 < cols,
    ;
    assert(q < rows) by (nonlinear_arith)
        requires
            i == q * cols + i % cols,
            i < cols * rows,
            0 <= i % cols,
            0 < cols,
    ;
}

/// The cells of a grid of `cols` columns that lie in the columns from `x0`
/// up to `x0 + width` of the rows from `y0` up to `y0 + height`.
spec fn block(cols: int, x0: int, y0: int, width: int, height: int) -> Set<int> {
    Set::new(|i: int| x0 <= i % cols < x0 + width && y0 <= i / cols < y0 + height)
}

/// A block that lies between the borders of its grid holds `width * height`
/// cells.
proof fn lemma_block_count(cols: int, x0: int, y0: int, width: int, height: int)
    requires
        0 <= x0,
        0 <= width,
        x0 + width <= cols,
        0 <= y0,
        0 <= height,
    ensures
        block(cols, x0, y0, width, height).finite(),
        block(cols, x0, y0, width, height).len() == width * height,
    decreases height,
{
    let all = block(cols, x0, y0, width, height);
    if height == 0 || width == 0 {
        assert(all =~= Set::<int>::empty());
        assert(width * height == 0) by (nonlinear_arith)
            requires
                height == 0 || width == 0,
        ;
    } else {
        let above = block(cols, x0, y0, width, height - 1);
        let y = y0 + height - 1;
        let row = vstd::set_lib::set_int_range(y * cols + x0, y * cols + x0 + width);
        lemma_block_count(cols, x0, y0, width, height - 1);
        vstd::set_lib::lemma_int_range(y * cols + x0, y * cols + x0 + width);
        assert forall|i: int| row.contains(i) implies i / cols == y && i % cols == i - y * cols by {
            lemma_cell_position(cols, y + 1, i - y * cols, y);
        }
        assert forall|i: int| i / cols == y && x0 <= i % cols < x0 + width implies row.contains(
            i,
        ) by {
            vstd::arithmetic::div_mod::lemma_fundamental_div_mod(i, cols);
            assert(cols * y == y * cols) by (nonlinear_arith);
        }
        assert(all =~= above + row);
        assert(above.disjoint(row));
        vstd::set_lib::lemma_set_disjoint_lens(above, row);
        assert(width * height == width * (height - 1) + width) by (nonlinear_arith);
    }
}

/// A window that lies on the grid covers `width * height` cells.
pub proof fn lemma_window_cell_count(g: Grid, window: Rect)
    requires
        g.wf(),
        window.within(g.cols as int, g.rows as int),
    ensures
        g.window_cells(window).finite(),
        g.window_cells(window).len() == window.width * window.height,
{
    let cols = g.cols as int;
    let b = block(cols, window.x as int, window.y as int, window.width as int, window.height as int);
    lemma_block_count(cols, window.x as int, window.y as int, window.width as int, window.height as int);
    assert forall|i: int| b.contains(i) implies 0 <= i < g.cells.len() by {
        vstd::arithmetic::div_mod::lemma_fundamental_div_mod(i, cols);
        let q = i / cols;
        let r = i % cols;
        assert(cols * q == q * cols) by (nonlinear_arith);
        lemma_cell_position(cols, g.rows as int, r, q);
    }
    assert(g.window_cells(window) =~= b);
}

/// Suppressing a window on the grid whose cells are all live takes away
/// exactly as many live cells as the window covers.
pub proof fn lemma_fresh_window_clears_its_area(g: Grid, window: Rect)
    requires
        g.wf(),
        window.within(g.cols as int, g.rows as int),
        g.is_fresh(window),
    ensures
        g.suppress(window).live_count() + window.width * window.height == g.live_count(),
{
    let after = g.suppress(window);
    let taken = g.window_cells(window);
    lemma_window_cell_count(g, window);
    lemma_live_count_bounded(after);
    assert forall|i: int| g.live_set().contains(i) implies (after.live_set() + taken).contains(
        i,
    ) by {
        assert(g.is_live(i));
        if !taken.contains(i) {
            assert(after.is_live(i));
        }
    }
    assert forall|i: int| (after.live_set() + taken).contains(i) implies g.live_set().contains(
        i,
    ) by {
        if taken.contains(i) {
            assert(g.is_live(i));
        } else {
            assert(after.is_live(i));
            assert(g.is_live(i));
        }
    }
    assert(g.live_set() =~= after.live_set() + taken);
    assert forall|i: int| after.live_set().contains(i) implies !taken.contains(i) by {
        assert(after.is_live(i));
    }
    assert(after.live_set().disjoint(taken));
    vstd::set_lib::lemma_set_disjoint_lens(after.live_set(), taken);
}

/// The location and score of a surface's peak.
#[derive(Clone, Copy, Debug, PartialEq, Eq, Structural)]
pub struct MatchCandidate {
    pub left: u32,
    pub top: u32,
    pub score: i32,
}

/// A correlation surface. It belongs to one matching call, which consumes it
/// while extracting the matches.
pub struct Surface {
    cols: u32,
    rows: u32,
    cells: Vec<Option<i32>>,
}

impl View for Surface {
    type V = Grid;

    closed spec fn view(&self) -> Grid {
        Grid { cols: self.cols as nat, rows: self.rows as nat, cells: self.cells@ }
    }
}

impl Surface {
    /// The surface holds one cell for every column of every row.
    pub open spec fn wf(&self) -> bool {
        self@.wf()
    }

    /// Makes a surface of `cols` columns and `rows` rows from its scores in
    /// row-major order. Every cell starts live. Returns `None` exactly when
    /// the number of scores is not `cols * rows`.
    pub fn new(cols: u32, rows: u32, scores: Vec<i32>) -> (made: Option<Surface>)
        ensures
            made is Some <==> scores@.len() == cols * rows,
            made matches Some(s) ==> {
                &&& s.wf()
                &&& s@.cols == cols
                &&& s@.rows == rows
                &&& s@.cells == scores@.map_values(|v: i32| Some(v))
            },
    {
        assert(cols * rows <= u64::MAX) by (nonlinear_arith)
            requires
                cols <= u32::MAX,
                rows <= u32::MAX,
        ;
        let wanted: u64 = (cols as u64) * (rows as u64);
        if scores.len() as u64 != wanted {
            return None;
        }
        let mut cells: Vec<Option<i32>> = Vec::new();
        let mut i: usize = 0;
        while i < scores.len()
            invariant
                i <= scores.len(),
                cells@.len() == i,
                forall|k: int| 0 <= k < i ==> cells@[k] == Some(scores@[k]),
            decreases scores.len() - i,
        {
            cells.push(Some(scores[i]));
            i = i + 1;
        }
        assert(cells@ =~= scores@.map_values(|v: i32| Some(v)));
        Some(Surface { cols, rows, cells })
    }

    /// The number of columns.
    pub fn cols(&self) -> (n: u32)
        ensures
            n == self@.cols,
    {
        self.cols
    }

    /// The number of rows.
    pub fn rows(&self) -> (n: u32)
        ensures
            n == self@.rows,
    {
        self.rows
    }

    /// The score in column `x` of row `y`, or `None` if that cell has been
    /// suppressed or lies outside the surface.
    pub fn score_at(&self, x: u32, y: u32) -> (score: Option<i32>)
        requires
            self.wf(),
        ensures
            score == if x < self@.cols && y < self@.rows {
                self@.cells[y * self@.cols + x]
            } else {
                None
            },
    {
        let cells: usize = self.cells.len();
        if x < self.cols && y < self.rows {
            proof {
                lemma_cell_position(self.cols as int, self.rows as int, x as int, y as int);
                assert(y * self.cols + x < cells);
            }
            let i: usize = (y as usize) * (self.cols as usize) + (x as usize);
            self.cells[i]
        } else {
            None
        }
    }

    /// Finds the peak: the greatest score among the live cells, and of the
    /// cells that hold it the first in row-major order. Returns `None`
    /// exactly when no cell is live.
    pub fn peak(&self) -> (found: Option<MatchCandidate>)
        requires
            self.wf(),
        ensures
            found == if self@.has_peak() {
                Some(self@.peak())
            } else {
                None::<MatchCandidate>
            },
            self@.has_peak() <==> exists|i: int| self@.is_live(i),
            found matches Some(c) ==> {
                &&& c.left < self@.cols
                &&& c.top < self@.rows
                &&& c.top * self@.cols + c.left == self@.peak_index()
            },
    {
        let ghost g = self@;
        let mut best: Option<(usize, i32)> = None;
        let mut i: usize = 0;
        while i < self.cells.len()
            invariant
                g == self@,
                i <= self.cells.len(),
                best is None ==> forall|j: int| 0 <= j < i ==> !g.is_live(j),
                best matches Some((b, v)) ==> {
                    &&& b < i
                    &&& g.is_live(b as int)
                    &&& v == g.score(b as int)
                    &&& forall|j: int| 0 <= j < i && #[trigger] g.is_live(j) ==> g.score(j) <= v
                    &&& forall|j: int| 0 <= j < b && #[trigger] g.is_live(j) ==> g.score(j) < v
                },
            decreases self.cells.len() - i,
        {
            match self.cells[i] {
                Some(score) => {
                    match best {
                        Some((_, v)) => {
                            if score > v {
                                best = Some((i, score));
                            }
                        },
                        None => {
                            best = Some((i, score));
                        },
                    }
                },
                None => {},
            }
            i = i + 1;
        }
        match best {
            Some((b, v)) => {
                proof {
                    assert(g.is_peak(b as int));
                    lemma_peak_unique(g, b as int, g.peak_index());
                    assert(self.cols > 0) by (nonlinear_arith)
                        requires
                            b < self.cols * self.rows,
                    ;
                    lemma_position_of_cell(self.cols as int, self.rows as int, b as int);
                }
                let left: usize = b % (self.cols as usize);
                let top: usize = b / (self.cols as usize);
                Some(MatchCandidate { left: left as u32, top: top as u32, score: v })
            },
            None => {
                proof {
                    assert forall|k: int| !g.is_peak(k) by {
                        if g.is_peak(k) {
                            assert(g.is_live(k));
                        }
                    }
                }
                None
            },
        }
    }

    /// Suppresses every cell that lies inside `window`, whether or not the
    /// window lies inside the surface. Every other cell keeps its state.
    pub fn suppress(&mut self, window: Rect)
        requires
            old(self).wf(),
        ensures
            final(self).wf(),
            final(self)@ == old(self)@.suppress(window),
    {
        let ghost before = self@;
        let cols: usize = self.cols as usize;
        let rows: usize = self.rows as usize;
        let cells: usize = self.cells.len();
        let (x0, x1) = covered_span(window.x, window.width, self.cols);
        let (y0, y1) = covered_span(window.y, window.height, self.rows);
        let mut y: usize = y0 as usize;
        if x0 >= x1 || y0 >= y1 {
            proof {
                assert forall|i: int| 0 <= i < before.cells.len() implies !window.covers(
                    before.column_of(i),
                    before.row_of(i),
                ) by {
                    if before.cols > 0 {
                        lemma_position_of_cell(before.cols as int, before.rows as int, i);
                    }
                    lemma_covers_by_spans(window, before.column_of(i), before.row_of(i));
                }
                assert(self@.cells =~= before.suppress(window).cells);
            }
            return ;
        }
        proof {
            assert forall|i: int| 0 <= i < cells implies !(window.covers(
                before.column_of(i),
                before.row_of(i),
            ) && before.row_of(i) < y) by {
                lemma_position_of_cell(cols as int, rows as int, i);
                lemma_covers_by_spans(window, before.column_of(i), before.row_of(i));
            }
        }
        while y < y1 as usize
            invariant
                before.wf(),
                before.cols == cols == self.cols,
                before.rows == rows == self.rows,
                cells == self.cells@.len() == before.cells.len(),
                x0 < x1 <= cols,
                y0 <= y <= y1 <= rows,
                forall|c: int|
                    0 <= c < cols ==> (x0 <= c < x1 <==> #[trigger] in_span(
                        c,
                        window.x as int,
                        window.width as int,
                    )),
                forall|r: int|
                    0 <= r < rows ==> (y0 <= r < y1 <==> #[trigger] in_span(
                        r,
                        window.y as int,
                        window.height as int,
                    )),
                forall|i: int|
                    0 <= i < cells ==> #[trigger] self.cells@[i] == if window.covers(
                        before.column_of(i),
                        before.row_of(i),
                    ) && before.row_of(i) < y {
                        None
                    } else {
                        before.cells[i]
                    },
            decreases y1 - y,
        {
            let mut x: usize = x0 as usize;
            proof {
                assert forall|i: int| 0 <= i < cells implies !(window.covers(
                    before.column_of(i),
                    before.row_of(i),
                ) && before.row_of(i) == y && before.column_of(i) < x) by {
                    lemma_position_of_cell(cols as int, rows as int, i);
                    lemma_covers_by_spans(window, before.column_of(i), before.row_of(i));
                }
            }
            while x < x1 as usize
                invariant
                    before.wf(),
                    before.cols == cols == self.cols,
                    before.rows == rows == self.rows,
                    cells == self.cells@.len() == before.cells.len(),
                    x0 <= x <= x1 <= cols,
                    y0 <= y < y1 <= rows,
                    forall|c: int|
                    0 <= c < cols ==> (x0 <= c < x1 <==> #[trigger] in_span(
                        c,
                        window.x as int,
                        window.width as int,
                    )),
                    forall|r: int|
                    0 <= r < rows ==> (y0 <= r < y1 <==> #[trigger] in_span(
                        r,
                        window.y as int,
                        window.height as int,
                    )),
                    forall|i: int|
                        0 <= i < cells ==> #[trigger] self.cells@[i] == if window.covers(
                            before.column_of(i),
                            before.row_of(i),
                        ) && (before.row_of(i) < y || (before.row_of(i) == y && before.column_of(i)
                            < x)) {
                            None
                        } else {
                            before.cells[i]
                        },
                decreases x1 - x,
            {
                proof {
                    lemma_cell_position(cols as int, rows as int, x as int, y as int);
                }
                let k: usize = y * cols + x;
                let ghost earlier = self.cells@;
                self.cells.set(k, None);
                proof {
                    assert forall|i: int| 0 <= i < cells implies #[trigger] self.cells@[i]
                        == if window.covers(before.column_of(i), before.row_of(i)) && (
                    before.row_of(i) < y || (before.row_of(i) == y && before.column_of(i) < x
                        + 1)) {
                        None
                    } else {
                        before.cells[i]
                    } by {
                        lemma_position_of_cell(cols as int, rows as int, i);
                        lemma_covers_by_spans(window, before.column_of(i), before.row_of(i));
                        if i != k {
                            assert(self.cells@[i] == earlier[i]);
                        }
                    }
                }
                x = x + 1;
            }
            proof {
                assert forall|i: int| 0 <= i < cells implies #[trigger] self.cells@[i]
                    == if window.covers(before.column_of(i), before.row_of(i)) && before.row_of(i)
                    < y + 1 {
                    None
                } else {
                    before.cells[i]
                } by {
                    lemma_position_of_cell(cols as int, rows as int, i);
                    lemma_covers_by_spans(window, before.column_of(i), before.row_of(i));
                }
            }
            y = y + 1;
        }
        proof {
            assert forall|i: int| 0 <= i < cells implies self.cells@[i] == before.suppress(
                window,
            ).cells[i] by {
                lemma_position_of_cell(cols as int, rows as int, i);
                lemma_covers_by_spans(window, before.column_of(i), before.row_of(i));
            }
            assert(self@.cells =~= before.suppress(window).cells);
        }
    }
}

/// Whether `c` lies in the span of `extent` cells that starts at `origin`.
spec fn in_span(c: int, origin: int, extent: int) -> bool {
    origin <= c < origin + extent
}

/// In which columns and rows a rectangle covers a cell.
proof fn lemma_covers_by_spans(window: Rect, x: int, y: int)
    ensures
        window.covers(x, y) <==> in_span(x, window.x as int, window.width as int) && in_span(
            y,
            window.y as int,
            window.height as int,
        ),
{
}

/// The part `[first, end)` of `0..bound` that the span of `extent` cells
/// starting at `origin` covers; `first >= end` when it covers none of it.
fn covered_span(origin: i64, extent: i64, bound: u32) -> (span: (u32, u32))
    ensures
        span.0 <= bound,
        span.1 <= bound,
        forall|c: int|
            0 <= c < bound ==> (span.0 <= c < span.1 <==> #[trigger] in_span(
                c,
                origin as int,
                extent as int,
            )),
{
    if extent <= 0 || origin >= bound as i64 {
        return (0, 0);
    }
    let first: i64 = if origin < 0 {
        0
    } else {
        origin
    };
    let room: i64 = bound as i64 - first;
    let end: i64 = if origin < 0 {
        let reach: i64 = origin + extent;
        if reach <= 0 {
            0
        } else if reach > bound as i64 {
            bound as i64
        } else {
            reach
        }
    } else if extent > room {
        bound as i64
    } else {
        first + extent
    };
    (first as u32, end as u32)
}

} // verus!
