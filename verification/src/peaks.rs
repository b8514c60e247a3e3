//! Peak extraction: turning a correlation surface into a list of matches.
//!
//! The extraction works in rounds. A round takes the surface's peak, stops if
//! its score is below the threshold, accepts it as a match unless it collides
//! with a match accepted before, and then suppresses the window around it,
//! accepted or not. The peak itself always lies in that window, so every
//! round leaves fewer live cells and the extraction ends.

use vstd::prelude::*;
use crate::geometry::{clamp_rect, Rect};
use crate::matcher::{ImageMatchFilter, ImageMatchResult, ImageMatcher};
use crate::surface::{
    lemma_fresh_window_clears_its_area,
    lemma_live_count_bounded,
    lemma_position_of_cell,
    lemma_suppress_shrinks,
    Grid,
    MatchCandidate,
    Surface,
};

verus! {

/// The extent of the suppressed window along one axis before clamping: the
/// template's extent widened by the filter's delta on both sides.
pub open spec fn window_extent(template: u32, delta: u32) -> int {
    template + 2 * delta
}

/// Where a window of `extent` cells that is centred on the cell `at` starts
/// along one axis: half its extent before `at`, the half being rounded down.
pub open spec fn centred_origin(at: u32, extent: int) -> int {
    at - extent / 2
}

/// The window that is suppressed around a peak: the rectangle of
/// `template_width + 2 * x_delta` by `template_height + 2 * y_delta` cells
/// whose centre is the peak, clamped to the surface.
pub open spec fn suppression_window(
    g: Grid,
    peak: MatchCandidate,
    template_width: u32,
    template_height: u32,
    f: ImageMatchFilter,
) -> Rect {
    let width = window_extent(template_width, f.x_delta);
    let height = window_extent(template_height, f.y_delta);
    Rect {
        x: centred_origin(peak.left, width) as i64,
        y: centred_origin(peak.top, height) as i64,
        width: width as i64,
        height: height as i64,
    }.clamped(g.cols as int, g.rows as int)
}

/// Whether the extraction goes on for another round: the surface has a peak
/// and its score reaches the threshold.
pub open spec fn continues(g: Grid, threshold: i32) -> bool {
    g.has_peak() && g.peak().score >= threshold
}

/// The accepted matches after a round that found `peak`: the peak is added
/// at the end unless it collides with one of them.
pub open spec fn accept(
    f: ImageMatchFilter,
    peak: MatchCandidate,
    found: Seq<ImageMatchResult>,
) -> Seq<ImageMatchResult> {
    if f.collides_any(peak.left as int, peak.top as int, found) {
        found
    } else {
        found.push(ImageMatchResult { left: peak.left, top: peak.top, precision: peak.score })
    }
}

/// The surface as one round leaves it.
pub open spec fn after_round(
    g: Grid,
    template_width: u32,
    template_height: u32,
    f: ImageMatchFilter,
) -> Grid {
    g.suppress(suppression_window(g, g.peak(), template_width, template_height, f))
}

/// The matches that the extraction ends with when it starts from the surface
/// `g` with `found` already accepted.
pub open spec fn extract(
    g: Grid,
    threshold: i32,
    template_width: u32,
    template_height: u32,
    f: ImageMatchFilter,
    found: Seq<ImageMatchResult>,
) -> Seq<ImageMatchResult>
    decreases g.live_count(),
    when g.wf()
    via extract_terminates
{
    if continues(g, threshold) {
        extract(
            after_round(g, template_width, template_height, f),
            threshold,
            template_width,
            template_height,
            f,
            accept(f, g.peak(), found),
        )
    } else {
        found
    }
}

#[via_fn]
proof fn extract_terminates(
    g: Grid,
    threshold: i32,
    template_width: u32,
    template_height: u32,
    f: ImageMatchFilter,
    found: Seq<ImageMatchResult>,
) {
    if continues(g, threshold) {
        lemma_round_shrinks(g, template_width, template_height, f);
    }
}

/// The number of rounds that the extraction takes from the surface `g`.
pub open spec fn rounds(
    g: Grid,
    threshold: i32,
    template_width: u32,
    template_height: u32,
    f: ImageMatchFilter,
) -> nat
    decreases g.live_count(),
    when g.wf()
    via rounds_terminates
{
    if continues(g, threshold) {
        1 + rounds(
            after_round(g, template_width, template_height, f),
            threshold,
            template_width,
            template_height,
            f,
        )
    } else {
        0
    }
}

#[via_fn]
proof fn rounds_terminates(
    g: Grid,
    threshold: i32,
    template_width: u32,
    template_height: u32,
    f: ImageMatchFilter,
) {
    if continues(g, threshold) {
        lemma_round_shrinks(g, template_width, template_height, f);
    }
}

/// The peak lies on the surface, and the window suppressed around it lies on
/// the surface too and covers the peak.
pub proof fn lemma_window_covers_peak(
    g: Grid,
    template_width: u32,
    template_height: u32,
    f: ImageMatchFilter,
)
    requires
        g.wf(),
        g.has_peak(),
    ensures
        g.peak().left == g.column_of(g.peak_index()),
        g.peak().top == g.row_of(g.peak_index()),
        g.peak().left < g.cols,
        g.peak().top < g.rows,
        suppression_window(g, g.peak(), template_width, template_height, f).within(
            g.cols as int,
            g.rows as int,
        ),
        suppression_window(g, g.peak(), template_width, template_height, f).covers(
            g.peak().left as int,
            g.peak().top as int,
        ),
{
    let p = g.peak_index();
    assert(g.is_peak(p));
    assert(g.is_live(p));
    assert(g.cols > 0) by (nonlinear_arith)
        requires
            p < g.cols * g.rows,
            0 <= p,
    ;
    lemma_position_of_cell(g.cols as int, g.rows as int, p);
}

/// A round leaves a well-formed surface of the same extent with fewer live
/// cells.
pub proof fn lemma_round_shrinks(
    g: Grid,
    template_width: u32,
    template_height: u32,
    f: ImageMatchFilter,
)
    requires
        g.wf(),
        g.has_peak(),
    ensures
        after_round(g, template_width, template_height, f).wf(),
        after_round(g, template_width, template_height, f).cols == g.cols,
        after_round(g, template_width, template_height, f).rows == g.rows,
        after_round(g, template_width, template_height, f).live_count() < g.live_count(),
{
    let p = g.peak_index();
    assert(g.is_peak(p));
    assert(g.is_live(p));
    assert(g.cols > 0 && g.rows > 0) by (nonlinear_arith)
        requires
            p < g.cols * g.rows,
            0 <= p,
    ;
    lemma_position_of_cell(g.cols as int, g.rows as int, p);
    let c = g.column_of(p);
    let r = g.row_of(p);
    let w = suppression_window(g, g.peak(), template_width, template_height, f);
    lemma_window_covers_peak(g, template_width, template_height, f);
    lemma_suppress_shrinks(g, w, p);
}

/// The match `m` is a live cell of `g`: it lies on the surface, and the
/// cell there holds the match's score.
pub open spec fn is_cell_of(g: Grid, m: ImageMatchResult) -> bool {
    &&& m.left < g.cols
    &&& m.top < g.rows
    &&& g.cells[m.top * g.cols + m.left] == Some(m.precision)
}

/// What holds of the matches that an extraction adds to those it started
/// with: it keeps the earlier ones in place, takes at most one match per
/// round, takes only live cells that reach the threshold, takes them in
/// order of falling score, and takes none that collides with a match before
/// it in the list.
pub proof fn lemma_extract_adds(
    g: Grid,
    threshold: i32,
    template_width: u32,
    template_height: u32,
    f: ImageMatchFilter,
    found: Seq<ImageMatchResult>,
)
    requires
        g.wf(),
    ensures
        ({
            let r = extract(g, threshold, template_width, template_height, f, found);
            &&& found.len() <= r.len() <= found.len() + rounds(
                g,
                threshold,
                template_width,
                template_height,
                f,
            )
            &&& forall|k: int| 0 <= k < found.len() ==> r[k] == found[k]
            &&& forall|k: int|
                found.len() <= k < r.len() ==> #[trigger] is_cell_of(g, r[k]) && r[k].precision
                    >= threshold
            &&& forall|a: int, b: int|
                found.len() <= a <= b < r.len() ==> #[trigger] r[a].precision
                    >= #[trigger] r[b].precision
            &&& forall|a: int, b: int|
                0 <= a < b < r.len() && found.len() <= b ==> !f.collides(
                    #[trigger] r[b].left as int,
                    r[b].top as int,
                    #[trigger] r[a].left as int,
                    r[a].top as int,
                )
        }),
    decreases g.live_count(),
{
    let r = extract(g, threshold, template_width, template_height, f, found);
    if continues(g, threshold) {
        let peak = g.peak();
        let p = g.peak_index();
        let next = after_round(g, template_width, template_height, f);
        let taken = accept(f, peak, found);
        lemma_round_shrinks(g, template_width, template_height, f);
        lemma_window_covers_peak(g, template_width, template_height, f);
        lemma_extract_adds(next, threshold, template_width, template_height, f, taken);
        assert(r == extract(next, threshold, template_width, template_height, f, taken));
        assert(g.is_peak(p));
        lemma_position_of_cell(g.cols as int, g.rows as int, p);
        let m = ImageMatchResult { left: peak.left, top: peak.top, precision: peak.score };
        assert(is_cell_of(g, m));
        assert forall|k: int| found.len() <= k < r.len() implies #[trigger] is_cell_of(g, r[k])
            && r[k].precision >= threshold && r[k].precision <= peak.score by {
            if k < taken.len() {
                assert(r[k] == taken[k]);
                assert(r[k] == m);
            } else {
                assert(is_cell_of(next, r[k]));
                crate::surface::lemma_cell_position(
                    g.cols as int,
                    g.rows as int,
                    r[k].left as int,
                    r[k].top as int,
                );
                let i = r[k].top * g.cols + r[k].left;
                assert(next.is_live(i));
                assert(g.is_live(i));
            }
        }
        assert forall|a: int, b: int| found.len() <= a <= b < r.len() implies #[trigger] r[a].precision
            >= #[trigger] r[b].precision by {
            if a < taken.len() {
                assert(r[a] == taken[a]);
                assert(is_cell_of(g, r[b]));
            }
        }
        assert forall|a: int, b: int| 0 <= a < b < r.len() && found.len() <= b implies !f.collides(
            #[trigger] r[b].left as int,
            r[b].top as int,
            #[trigger] r[a].left as int,
            r[a].top as int,
        ) by {
            if b < taken.len() {
                assert(r[b] == taken[b]);
                assert(r[a] == taken[a]);
                assert(taken[a] == found[a]);
                assert(!f.collides_any(peak.left as int, peak.top as int, found));
            }
        }
    }
}

/// The extraction ends after no more rounds than the surface has live cells,
/// which are no more than its cells.
pub proof fn lemma_rounds_bounded(
    g: Grid,
    threshold: i32,
    template_width: u32,
    template_height: u32,
    f: ImageMatchFilter,
)
    requires
        g.wf(),
    ensures
        rounds(g, threshold, template_width, template_height, f) <= g.live_count(),
        g.live_count() <= g.cols * g.rows,
    decreases g.live_count(),
{
    lemma_live_count_bounded(g);
    if continues(g, threshold) {
        lemma_round_shrinks(g, template_width, template_height, f);
        lemma_rounds_bounded(
            after_round(g, template_width, template_height, f),
            threshold,
            template_width,
            template_height,
            f,
        );
    }
}

/// Whether every round of the extraction from `g` suppresses at least
/// `area` cells that were live before it.
pub open spec fn every_round_clears(
    g: Grid,
    threshold: i32,
    template_width: u32,
    template_height: u32,
    f: ImageMatchFilter,
    area: nat,
) -> bool
    decreases g.live_count(),
    when g.wf()
    via every_round_clears_terminates
{
    continues(g, threshold) ==> {
        &&& after_round(g, template_width, template_height, f).live_count() + area
            <= g.live_count()
        &&& every_round_clears(
            after_round(g, template_width, template_height, f),
            threshold,
            template_width,
            template_height,
            f,
            area,
        )
    }
}

#[via_fn]
proof fn every_round_clears_terminates(
    g: Grid,
    threshold: i32,
    template_width: u32,
    template_height: u32,
    f: ImageMatchFilter,
    area: nat,
) {
    if continues(g, threshold) {
        lemma_round_shrinks(g, template_width, template_height, f);
    }
}

/// Where every round suppresses at least `area` live cells, the rounds
/// together cannot suppress more cells than the surface has: their number
/// times `area` stays within the surface's cell count.
pub proof fn lemma_rounds_bounded_by_area(
    g: Grid,
    threshold: i32,
    template_width: u32,
    template_height: u32,
    f: ImageMatchFilter,
    area: nat,
)
    requires
        g.wf(),
        every_round_clears(g, threshold, template_width, template_height, f, area),
    ensures
        rounds(g, threshold, template_width, template_height, f) * area <= g.live_count(),
        rounds(g, threshold, template_width, template_height, f) * area <= g.cols * g.rows,
        area > 0 ==> rounds(g, threshold, template_width, template_height, f) <= (g.cols * g.rows
            + area - 1) / (area as int),
    decreases g.live_count(),
{
    lemma_live_count_bounded(g);
    let n = rounds(g, threshold, template_width, template_height, f);
    if continues(g, threshold) {
        let next = after_round(g, template_width, template_height, f);
        lemma_round_shrinks(g, template_width, template_height, f);
        lemma_rounds_bounded_by_area(next, threshold, template_width, template_height, f, area);
        let m = rounds(next, threshold, template_width, template_height, f);
        assert(n == 1 + m);
        assert((1 + m) * area == area + m * area) by (nonlinear_arith);
    } else {
        assert(n == 0);
        assert(0 * area == 0) by (nonlinear_arith);
    }
    if area > 0 {
        let cells = g.cols * g.rows;
        assert(n <= (cells + area - 1) / (area as int)) by (nonlinear_arith)
            requires
                n * area <= cells,
                area > 0,
                n >= 0,
        ;
    }
}

/// Whether the windows that the extraction from `g` suppresses are all of
/// `area` cells and do not overlap: every round finds all cells of its
/// window live.
pub open spec fn windows_are_disjoint(
    g: Grid,
    threshold: i32,
    template_width: u32,
    template_height: u32,
    f: ImageMatchFilter,
    area: nat,
) -> bool
    decreases g.live_count(),
    when g.wf()
    via windows_are_disjoint_terminates
{
    continues(g, threshold) ==> {
        let window = suppression_window(g, g.peak(), template_width, template_height, f);
        &&& window.width * window.height == area
        &&& g.is_fresh(window)
        &&& windows_are_disjoint(
            after_round(g, template_width, template_height, f),
            threshold,
            template_width,
            template_height,
            f,
            area,
        )
    }
}

#[via_fn]
proof fn windows_are_disjoint_terminates(
    g: Grid,
    threshold: i32,
    template_width: u32,
    template_height: u32,
    f: ImageMatchFilter,
    area: nat,
) {
    if continues(g, threshold) {
        lemma_round_shrinks(g, template_width, template_height, f);
    }
}

/// Where the suppressed windows are all of `area` cells and do not overlap,
/// the extraction takes no more rounds than such windows fit into the
/// surface: the number of cells divided by `area`, rounded up.
pub proof fn lemma_rounds_bounded_by_window_area(
    g: Grid,
    threshold: i32,
    template_width: u32,
    template_height: u32,
    f: ImageMatchFilter,
    area: nat,
)
    requires
        g.wf(),
        windows_are_disjoint(g, threshold, template_width, template_height, f, area),
    ensures
        every_round_clears(g, threshold, template_width, template_height, f, area),
        rounds(g, threshold, template_width, template_height, f) * area <= g.cols * g.rows,
        area > 0 ==> rounds(g, threshold, template_width, template_height, f) <= (g.cols * g.rows
            + area - 1) / (area as int),
    decreases g.live_count(),
{
    if continues(g, threshold) {
        let next = after_round(g, template_width, template_height, f);
        let window = suppression_window(g, g.peak(), template_width, template_height, f);
        lemma_round_shrinks(g, template_width, template_height, f);
        lemma_window_covers_peak(g, template_width, template_height, f);
        lemma_fresh_window_clears_its_area(g, window);
        lemma_rounds_bounded_by_window_area(
            next,
            threshold,
            template_width,
            template_height,
            f,
            area,
        );
    }
    lemma_rounds_bounded_by_area(g, threshold, template_width, template_height, f, area);
}

/// The cell `i` of `g` as a candidate: where it lies and what it scores.
pub open spec fn candidate_at(g: Grid, i: int) -> MatchCandidate {
    MatchCandidate {
        left: g.column_of(i) as u32,
        top: g.row_of(i) as u32,
        score: g.cells[i]->0,
    }
}

/// The cell `i` of `g` as a match.
pub open spec fn match_at(g: Grid, i: int) -> ImageMatchResult {
    ImageMatchResult {
        left: g.column_of(i) as u32,
        top: g.row_of(i) as u32,
        precision: g.cells[i]->0,
    }
}

/// Whether the cells `i` and `j` of `g` collide.
pub open spec fn near(g: Grid, f: ImageMatchFilter, i: int, j: int) -> bool {
    f.collides(g.column_of(i), g.row_of(i), g.column_of(j), g.row_of(j))
}

/// Whether the window suppressed around the cell `at` covers the cell `i`.
pub open spec fn window_covers(
    g: Grid,
    template_width: u32,
    template_height: u32,
    f: ImageMatchFilter,
    at: int,
    i: int,
) -> bool {
    suppression_window(g, candidate_at(g, at), template_width, template_height, f).covers(
        g.column_of(i),
        g.row_of(i),
    )
}

/// With a template of at least one pixel, the window suppressed around a
/// cell covers every cell that collides with it.
pub proof fn lemma_neighbours_are_suppressed(
    g: Grid,
    template_width: u32,
    template_height: u32,
    f: ImageMatchFilter,
    at: int,
    i: int,
)
    requires
        g.wf(),
        template_width >= 1,
        template_height >= 1,
        0 <= at < g.cells.len(),
        0 <= i < g.cells.len(),
        near(g, f, i, at),
    ensures
        window_covers(g, template_width, template_height, f, at, i),
{
    assert(g.cols > 0) by (nonlinear_arith)
        requires
            at < g.cols * g.rows,
            0 <= at,
    ;
    lemma_position_of_cell(g.cols as int, g.rows as int, at);
    lemma_position_of_cell(g.cols as int, g.rows as int, i);
}

/// Two features give two matches. Let `a` be the peak of the surface and
/// `b` a cell that neither lies in the window around `a` nor collides with
/// `a`, both reaching the threshold. If every live cell that reaches the
/// threshold collides with `a` or with `b`, and `b` is the best of those
/// around it that the first window leaves, the extraction yields exactly the
/// two matches `a` and `b`, in that order.
pub proof fn lemma_two_features(
    g: Grid,
    threshold: i32,
    template_width: u32,
    template_height: u32,
    f: ImageMatchFilter,
    a: int,
    b: int,
)
    requires
        g.wf(),
        template_width >= 1,
        template_height >= 1,
        g.is_peak(a),
        g.score(a) >= threshold,
        g.is_live(b),
        g.score(b) >= threshold,
        !window_covers(g, template_width, template_height, f, a, b),
        !near(g, f, b, a),
        forall|i: int|
            #[trigger] g.is_live(i) && g.score(i) >= threshold ==> near(g, f, i, a) || near(
                g,
                f,
                i,
                b,
            ),
        forall|i: int|
            #[trigger] g.is_live(i) && near(g, f, i, b) && !window_covers(
                g,
                template_width,
                template_height,
                f,
                a,
                i,
            ) ==> g.score(i) <= g.score(b) && (i < b ==> g.score(i) < g.score(b)),
    ensures
        extract(g, threshold, template_width, template_height, f, Seq::empty()) == seq![
            match_at(g, a),
            match_at(g, b),
        ],
        rounds(g, threshold, template_width, template_height, f) == 2,
{
    let none: Seq<ImageMatchResult> = Seq::empty();
    crate::surface::lemma_peak_unique(g, a, g.peak_index());
    assert(g.peak() == candidate_at(g, a));
    assert(continues(g, threshold));
    lemma_round_shrinks(g, template_width, template_height, f);
    lemma_window_covers_peak(g, template_width, template_height, f);
    let first = accept(f, g.peak(), none);
    assert(first =~= seq![match_at(g, a)]);
    let next = after_round(g, template_width, template_height, f);
    assert(next.is_live(b));
    assert forall|i: int| #[trigger] next.is_live(i) implies next.score(i) <= next.score(b) && (i
        < b ==> next.score(i) < next.score(b)) by {
        assert(g.is_live(i));
        if g.score(i) >= threshold {
            if near(g, f, i, a) {
                lemma_neighbours_are_suppressed(g, template_width, template_height, f, a, i);
            }
        }
    }
    assert(next.is_peak(b));
    crate::surface::lemma_peak_unique(next, b, next.peak_index());
    assert(next.peak() == candidate_at(g, b));
    assert(continues(next, threshold));
    lemma_round_shrinks(next, template_width, template_height, f);
    let second = accept(f, next.peak(), first);
    assert(!f.collides_any(next.peak().left as int, next.peak().top as int, first)) by {
        lemma_position_of_cell(g.cols as int, g.rows as int, a);
        lemma_position_of_cell(g.cols as int, g.rows as int, b);
    }
    assert(second =~= seq![match_at(g, a), match_at(g, b)]);
    let last = after_round(next, template_width, template_height, f);
    assert forall|i: int| #[trigger] last.is_live(i) implies last.score(i) < threshold by {
        assert(next.is_live(i));
        assert(g.is_live(i));
        if g.score(i) >= threshold {
            if near(g, f, i, a) {
                lemma_neighbours_are_suppressed(g, template_width, template_height, f, a, i);
            } else {
                lemma_neighbours_are_suppressed(g, template_width, template_height, f, b, i);
            }
        }
    }
    if last.has_peak() {
        assert(last.is_peak(last.peak_index()));
        assert(last.is_live(last.peak_index()));
    }
    assert(!continues(last, threshold));
    assert(extract(last, threshold, template_width, template_height, f, second) == second);
    assert(rounds(last, threshold, template_width, template_height, f) == 0);
    assert(extract(next, threshold, template_width, template_height, f, first) == second);
    assert(rounds(next, threshold, template_width, template_height, f) == 1);
}

/// A surface of a single cell whose score reaches the threshold yields
/// exactly one match, at the origin and with that score, in one round.
pub proof fn lemma_single_cell(
    g: Grid,
    threshold: i32,
    template_width: u32,
    template_height: u32,
    f: ImageMatchFilter,
    score: i32,
)
    requires
        g.cols == 1,
        g.rows == 1,
        g.cells == seq![Some(score)],
        score >= threshold,
    ensures
        extract(g, threshold, template_width, template_height, f, Seq::empty()) == seq![
            ImageMatchResult { left: 0, top: 0, precision: score },
        ],
        rounds(g, threshold, template_width, template_height, f) == 1,
{
    assert(g.wf());
    assert(g.is_live(0));
    assert(g.is_peak(0));
    crate::surface::lemma_peak_unique(g, 0, g.peak_index());
    let peak = g.peak();
    assert(peak == MatchCandidate { left: 0, top: 0, score });
    let none: Seq<ImageMatchResult> = Seq::empty();
    let taken = accept(f, peak, none);
    assert(taken =~= seq![ImageMatchResult { left: 0, top: 0, precision: score }]);
    let next = after_round(g, template_width, template_height, f);
    lemma_round_shrinks(g, template_width, template_height, f);
    lemma_window_covers_peak(g, template_width, template_height, f);
    assert(next.cells[0] is None);
    assert forall|i: int| !next.is_peak(i) by {
        if next.is_peak(i) {
            assert(next.is_live(i));
        }
    }
    assert(!continues(next, threshold));
    assert(extract(next, threshold, template_width, template_height, f, taken) == taken);
    assert(rounds(next, threshold, template_width, template_height, f) == 0);
}

/// Computes the window to suppress around `peak` on a surface.
fn window_around(
    surface: &Surface,
    peak: MatchCandidate,
    template_width: u32,
    template_height: u32,
    f: ImageMatchFilter,
) -> (w: Rect)
    requires
        surface.wf(),
        surface@.cols >= 1,
        surface@.rows >= 1,
    ensures
        w == suppression_window(surface@, peak, template_width, template_height, f),
{
    let width: i64 = template_width as i64 + 2 * (f.x_delta as i64);
    let height: i64 = template_height as i64 + 2 * (f.y_delta as i64);
    let x: i64 = peak.left as i64 - width / 2;
    let y: i64 = peak.top as i64 - height / 2;
    clamp_rect(Rect { x, y, width, height }, surface.cols() as i64, surface.rows() as i64)
}

/// Extracts the matches from a correlation surface.
///
/// `precision` is the threshold below which no score is accepted,
/// `template_width` and `template_height` give the size of the template, and
/// `filter` tells when a candidate is the same feature as an earlier match.
/// Around every peak the window of `suppression_window`, centred on the
/// peak, is suppressed.
/// The matches come in the order of their discovery, which is the order of
/// falling score. Each is a cell of the surface whose score reaches the
/// threshold, no two of them collide, and there are no more of them than the
/// extraction takes rounds, which are no more than the surface has cells.
pub fn extract_peaks(
    surface: Surface,
    precision: i32,
    template_width: u32,
    template_height: u32,
    filter: ImageMatchFilter,
) -> (list: Vec<ImageMatchResult>)
    requires
        surface.wf(),
    ensures
        list@ == extract(
            surface@,
            precision,
            template_width,
            template_height,
            filter,
            Seq::empty(),
        ),
        list@.len() <= rounds(surface@, precision, template_width, template_height, filter)
            <= surface@.cols * surface@.rows,
        forall|k: int|
            0 <= k < list@.len() ==> #[trigger] is_cell_of(surface@, list@[k])
                && list@[k].precision >= precision,
        forall|a: int, b: int|
            0 <= a <= b < list@.len() ==> #[trigger] list@[a].precision
                >= #[trigger] list@[b].precision,
        forall|a: int, b: int|
            0 <= a < b < list@.len() ==> !filter.collides(
                #[trigger] list@[b].left as int,
                list@[b].top as int,
                #[trigger] list@[a].left as int,
                list@[a].top as int,
            ),
{
    let ghost start = surface@;
    proof {
        lemma_extract_adds(
            start,
            precision,
            template_width,
            template_height,
            filter,
            Seq::empty(),
        );
        lemma_rounds_bounded(start, precision, template_width, template_height, filter);
    }
    let mut surface = surface;
    let mut list: Vec<ImageMatchResult> = Vec::new();
    loop
        invariant
            surface.wf(),
            extract(surface@, precision, template_width, template_height, filter, list@)
                == extract(start, precision, template_width, template_height, filter, Seq::empty()),
        ensures
            list@ == extract(
                start,
                precision,
                template_width,
                template_height,
                filter,
                Seq::empty(),
            ),
        decreases surface@.live_count(),
    {
        let candidate = match surface.peak() {
            Some(c) => c,
            None => {
                break ;
            },
        };
        if candidate.score < precision {
            break ;
        }
        let ghost before = surface@;
        let ghost found = list@;
        proof {
            lemma_round_shrinks(before, template_width, template_height, filter);
            lemma_window_covers_peak(before, template_width, template_height, filter);
        }
        if !ImageMatcher::need_filter(candidate.left, candidate.top, &list, &filter) {
            list.push(
                ImageMatchResult {
                    left: candidate.left,
                    top: candidate.top,
                    precision: candidate.score,
                },
            );
        }
        assert(list@ == accept(filter, candidate, found));
        let window = window_around(&surface, candidate, template_width, template_height, filter);
        surface.suppress(window);
        assert(surface@ == after_round(before, template_width, template_height, filter));
    }
    list
}

} // verus!
