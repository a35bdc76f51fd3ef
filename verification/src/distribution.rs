//! Distributions of random points that keep apart from each other.
//!
//! The points are values of a type parameter. Where a point has to be drawn or
//! a distance measured, the caller's functions do it, with random numbers from
//! a source that the caller passes in; distances are handed over as whole
//! numbers that are in the order of the distances. What is decided here is
//! which of the points drawn are kept.

use vstd::prelude::*;

verus! {

/// The number of candidates that are drawn for every point of a blue noise
/// distribution.
pub const NUM_CANDIDATES: usize = 10;

/// The least of the values; `u64::MAX` if there is none.
pub open spec fn least(values: Seq<u64>) -> u64
    decreases values.len(),
{
    if values.len() == 0 {
        u64::MAX
    } else if values.last() < least(values.drop_last()) {
        values.last()
    } else {
        least(values.drop_last())
    }
}

/// The least of the values is below none of them.
pub proof fn lemma_least_is_lower_bound(values: Seq<u64>)
    ensures
        forall|k: int| 0 <= k < values.len() ==> least(values) <= #[trigger] values[k],
        values.len() > 0 ==> values.contains(least(values)),
    decreases values.len(),
{
    if values.len() > 0 {
        let front = values.drop_last();
        lemma_least_is_lower_bound(front);
        assert forall|k: int| 0 <= k < values.len() implies least(values) <= #[trigger] values[k] by {
            if k < front.len() {
                assert(front[k] == values[k]);
            }
        }
        if values.last() < least(front) || front.len() == 0 {
            assert(values[values.len() - 1] == values.last());
            if front.len() == 0 && !(values.last() < least(front)) {
                assert(least(values) == u64::MAX);
                assert(values.last() == u64::MAX);
            }
        } else {
            let k = choose|k: int| 0 <= k < front.len() && front[k] == least(front);
            assert(values[k] == least(values));
        }
    }
}

/// Whether `distances` are the distances from `point` to each of `others`, as
/// `distance` measures them.
pub open spec fn measured<P, D: Fn(P, P) -> u64>(
    point: P,
    others: Seq<P>,
    distance: D,
    distances: Seq<u64>,
) -> bool {
    &&& distances.len() == others.len()
    &&& forall|k: int|
        0 <= k < others.len() ==> call_ensures(distance, (point, others[k]), #[trigger] distances[k])
}

/// Whether `score` is the distance from `point` to the nearest of `others`, as
/// `distance` measures it; with no others, the score is `u64::MAX`.
pub open spec fn scored<P, D: Fn(P, P) -> u64>(
    point: P,
    others: Seq<P>,
    distance: D,
    score: u64,
) -> bool {
    exists|distances: Seq<u64>|
        #[trigger] measured(point, others, distance, distances) && score == least(distances)
}

/// Whether `gen_candidate` can hand out `point`.
pub open spec fn generated<R, P, G: Fn(&mut R) -> P>(gen_candidate: G, point: P) -> bool {
    exists|rng: &mut R| #[trigger] call_ensures(gen_candidate, (rng,), point)
}

/// Whether `chosen` is the best of `candidates`: each candidate was generated
/// and has the score that stands for it in `scores`, and no candidate has a
/// greater score than `chosen`.
pub open spec fn best_of<R, P, G: Fn(&mut R) -> P, D: Fn(P, P) -> u64>(
    accepted: Seq<P>,
    gen_candidate: G,
    distance: D,
    candidates: Seq<P>,
    scores: Seq<u64>,
    chosen: P,
) -> bool {
    &&& candidates.len() == NUM_CANDIDATES
    &&& scores.len() == NUM_CANDIDATES
    &&& forall|j: int|
        0 <= j < NUM_CANDIDATES ==> generated::<R, P, G>(gen_candidate, #[trigger] candidates[j])
    &&& forall|j: int|
        0 <= j < NUM_CANDIDATES ==> scored(candidates[j], accepted, distance, #[trigger] scores[j])
    &&& exists|best: int|
        {
            &&& 0 <= best < NUM_CANDIDATES
            &&& chosen == #[trigger] candidates[best]
            &&& forall|j: int| 0 <= j < NUM_CANDIDATES ==> #[trigger] scores[j] <= scores[best]
            &&& forall|j: int| 0 <= j < best ==> #[trigger] scores[j] < scores[best]
        }
}

/// Whether `chosen` is the best candidate to add to `accepted`: of
/// [`NUM_CANDIDATES`] generated points, one that lies farthest from its
/// nearest point in `accepted`.
pub open spec fn best_candidate<R, P, G: Fn(&mut R) -> P, D: Fn(P, P) -> u64>(
    accepted: Seq<P>,
    gen_candidate: G,
    distance: D,
    chosen: P,
) -> bool {
    exists|candidates: Seq<P>, scores: Seq<u64>| #[trigger]
        best_of::<R, P, G, D>(accepted, gen_candidate, distance, candidates, scores, chosen)
}

/// Measures the distance from `point` to the nearest of `others`.
pub fn nearest_distance<P: Copy, D: Fn(P, P) -> u64>(point: P, others: &Vec<P>, distance: &D) -> (score:
    u64)
    requires
        forall|k: int|
            0 <= k < others@.len() ==> call_requires(*distance, (point, #[trigger] others@[k])),
    ensures
        scored(point, others@, *distance, score),
{
    let mut score: u64 = u64::MAX;
    let ghost mut distances: Seq<u64> = Seq::empty();
    let mut k: usize = 0;
    while k < others.len()
        invariant
            k <= others@.len(),
            forall|k: int|
                0 <= k < others@.len() ==> call_requires(*distance, (point, #[trigger] others@[k])),
            measured(point, others@.take(k as int), *distance, distances),
            score == least(distances),
        decreases others@.len() - k,
    {
        let d = distance(point, others[k]);
        proof {
            let before = distances;
            distances = distances.push(d);
            assert(distances.drop_last() =~= before);
            assert(others@.take(k + 1) =~= others@.take(k as int).push(others@[k as int]));
        }
        if d < score {
            score = d;
        }
        k += 1;
    }
    proof {
        assert(others@.take(k as int) =~= others@);
    }
    score
}

/// Distributes `number` points by Mitchell's best candidate algorithm.
///
/// For every point, [`NUM_CANDIDATES`] candidates are drawn with
/// `gen_candidate` from the random number source `rng`, and the one that lies
/// farthest from its nearest point among those placed before is placed, the
/// first of them if there are several. The points stand in the order in which
/// they were placed.
pub fn blue_noise<R, P: Copy, G: Fn(&mut R) -> P, D: Fn(P, P) -> u64>(
    number: u64,
    rng: &mut R,
    gen_candidate: G,
    distance: D,
) -> (points: Vec<P>)
    requires
        forall|rng: &mut R| call_requires(gen_candidate, (rng,)),
        forall|a: P, b: P| call_requires(distance, (a, b)),
    ensures
        points@.len() == number,
        forall|i: int|
            0 <= i < points@.len() ==> best_candidate::<R, P, G, D>(
                points@.take(i),
                gen_candidate,
                distance,
                #[trigger] points@[i],
            ),
        number == 0 ==> *final(rng) == *old(rng),
{
    let mut points: Vec<P> = Vec::new();
    let mut count: u64 = 0;
    while count < number
        invariant
            count <= number,
            points@.len() == count,
            forall|rng: &mut R| call_requires(gen_candidate, (rng,)),
            forall|a: P, b: P| call_requires(distance, (a, b)),
            forall|i: int|
                0 <= i < points@.len() ==> best_candidate::<R, P, G, D>(
                    points@.take(i),
                    gen_candidate,
                    distance,
                    #[trigger] points@[i],
                ),
            count == 0 ==> *rng == *old(rng),
        decreases number - count,
    {
        let ghost accepted = points@;
        let first = gen_candidate(rng);
        let mut chosen = first;
        let mut chosen_score = nearest_distance(first, &points, &distance);
        let ghost mut candidates: Seq<P> = seq![first];
        let ghost mut scores: Seq<u64> = seq![chosen_score];
        let ghost mut best: int = 0;
        proof {
            assert(generated::<R, P, G>(gen_candidate, first));
        }
        let mut j: usize = 1;
        while j < NUM_CANDIDATES
            invariant
                1 <= j <= NUM_CANDIDATES,
                points@ == accepted,
                forall|rng: &mut R| call_requires(gen_candidate, (rng,)),
                forall|a: P, b: P| call_requires(distance, (a, b)),
                candidates.len() == j,
                scores.len() == j,
                forall|c: int|
                    0 <= c < j ==> generated::<R, P, G>(gen_candidate, #[trigger] candidates[c]),
                forall|c: int|
                    0 <= c < j ==> scored(candidates[c], accepted, distance, #[trigger] scores[c]),
                0 <= best < j,
                chosen == candidates[best],
                chosen_score == scores[best],
                forall|c: int| 0 <= c < j ==> #[trigger] scores[c] <= scores[best],
                forall|c: int| 0 <= c < best ==> #[trigger] scores[c] < scores[best],
            decreases NUM_CANDIDATES - j,
        {
            let candidate = gen_candidate(rng);
            let score = nearest_distance(candidate, &points, &distance);
            proof {
                assert(generated::<R, P, G>(gen_candidate, candidate));
                candidates = candidates.push(candidate);
                scores = scores.push(score);
            }
            if score > chosen_score {
                chosen = candidate;
                chosen_score = score;
                proof {
                    best = j as int;
                }
            }
            j += 1;
        }
        proof {
            assert(best_of::<R, P, G, D>(
                accepted,
                gen_candidate,
                distance,
                candidates,
                scores,
                chosen,
            ));
            assert(points@.push(chosen).take(count as int) =~= accepted);
            assert forall|i: int| 0 <= i < count implies points@.push(chosen).take(i)
                =~= points@.take(i) by {}
        }
        points.push(chosen);
        count += 1;
    }
    points
}

/// The number of candidates that are drawn around a point of a Poisson disc
/// distribution before the point is given up.
pub const NUM_ATTEMPTS: usize = 30;

/// Why a distribution could not be generated.
#[derive(Clone, Copy, Debug, PartialEq, Eq, Structural)]
pub enum DistributionError {
    /// The area to distribute points in has no size.
    InvalidParameter,
    /// Not a single point was placed.
    EmptyResult,
}

/// Whether a cell, given by its column and its row, lies in a grid of `cols`
/// by `rows` cells.
pub open spec fn in_grid(cols: usize, rows: usize, cell: (usize, usize)) -> bool {
    cell.0 < cols && cell.1 < rows
}

/// The place of a cell in a grid of `cols` columns whose cells are counted row
/// by row.
pub open spec fn cell_index(cols: usize, cell: (usize, usize)) -> int {
    cell.1 * cols + cell.0
}

/// Whether two cells are at most two columns and two rows apart.
pub open spec fn neighbours(a: (usize, usize), b: (usize, usize)) -> bool {
    a.0 <= b.0 + 2 && b.0 <= a.0 + 2 && a.1 <= b.1 + 2 && b.1 <= a.1 + 2
}

/// The number of cells of a grid that hold no point.
pub open spec fn vacant(grid: Seq<Option<usize>>) -> nat
    decreases grid.len(),
{
    if grid.len() == 0 {
        0
    } else if grid.last() is None {
        vacant(grid.drop_last()) + 1
    } else {
        vacant(grid.drop_last())
    }
}

/// A grid in which a vacant cell is filled has one vacant cell less.
proof fn lemma_vacant_filled(grid: Seq<Option<usize>>, at: int, index: usize)
    requires
        0 <= at < grid.len(),
        grid[at] is None,
    ensures
        vacant(grid.update(at, Some(index))) + 1 == vacant(grid),
    decreases grid.len(),
{
    let filled = grid.update(at, Some(index));
    if at == grid.len() - 1 {
        assert(filled.drop_last() =~= grid.drop_last());
    } else {
        lemma_vacant_filled(grid.drop_last(), at, index);
        assert(filled.drop_last() =~= grid.drop_last().update(at, Some(index)));
    }
}

/// A cell of a grid has an index of its own below the number of cells.
proof fn lemma_cell_index(cols: usize, rows: usize, cell: (usize, usize))
    requires
        in_grid(cols, rows, cell),
    ensures
        0 <= cell_index(cols, cell) < cols * rows,
        cell_index(cols, cell) / (cols as int) == cell.1,
        cell_index(cols, cell) % (cols as int) == cell.0,
{
    let index = cell_index(cols, cell);
    vstd::arithmetic::div_mod::lemma_fundamental_div_mod_converse(
        index,
        cols as int,
        cell.1 as int,
        cell.0 as int,
    );
    assert(cell.1 * cols + cell.0 < cols * rows) by (nonlinear_arith)
        requires
            cell.0 < cols,
            cell.1 < rows,
    ;
}

/// The points of a Poisson disc distribution, in the order in which they were
/// placed, and the cell of the background grid that each lies in.
#[derive(Clone, Debug, PartialEq)]
pub struct PoissonDisc<P> {
    pub points: Vec<P>,
    pub cells: Vec<(usize, usize)>,
    /// Whether fewer points were placed than were expected.
    pub underpopulated: bool,
}

impl<P> PoissonDisc<P> {
    /// Whether every point lies in the cell that stands for it, these cells
    /// are cells of the grid, and no two points share one.
    pub open spec fn in_cells<C: Fn(P) -> Option<(usize, usize)>>(
        self,
        cols: usize,
        rows: usize,
        cell_of: C,
    ) -> bool {
        &&& self.cells@.len() == self.points@.len()
        &&& forall|i: int|
            0 <= i < self.points@.len() ==> {
                &&& in_grid(cols, rows, #[trigger] self.cells@[i])
                &&& call_ensures(cell_of, (self.points@[i],), Some(self.cells@[i]))
            }
        &&& forall|i: int, j: int|
            0 <= i < j < self.points@.len() ==> #[trigger] self.cells@[i] != #[trigger] self.cells@[j]
    }

    /// Whether every point was found far enough from all points placed before
    /// it in cells that neighbour its own.
    pub open spec fn kept_apart<F: Fn(P, P) -> bool>(self, far_enough: F) -> bool {
        forall|i: int, j: int|
            0 <= i < j < self.points@.len() && neighbours(
                #[trigger] self.cells@[i],
                #[trigger] self.cells@[j],
            ) ==> call_ensures(far_enough, (self.points@[j], self.points@[i]), true)
    }

    /// Whether a point in the cell `at` blocks `candidate` from lying there:
    /// the cell is taken, or `far_enough` found the candidate too close to a
    /// point in a cell that neighbours `at`.
    pub open spec fn blocked<F: Fn(P, P) -> bool>(
        self,
        far_enough: F,
        candidate: P,
        at: (usize, usize),
    ) -> bool {
        exists|k: int|
            {
                &&& 0 <= k < self.points@.len()
                &&& neighbours(#[trigger] self.cells@[k], at)
                &&& (self.cells@[k] == at || call_ensures(
                    far_enough,
                    (candidate, self.points@[k]),
                    false,
                ))
            }
    }

    /// Whether `candidate` cannot be placed: it lies outside the grid, or a
    /// point blocks it.
    pub open spec fn rejected<C: Fn(P) -> Option<(usize, usize)>, F: Fn(P, P) -> bool>(
        self,
        cols: usize,
        rows: usize,
        cell_of: C,
        far_enough: F,
        candidate: P,
    ) -> bool {
        exists|cell: Option<(usize, usize)>|
            {
                &&& #[trigger] call_ensures(cell_of, (candidate,), cell)
                &&& match cell {
                    None => true,
                    Some(at) => !in_grid(cols, rows, at) || self.blocked(far_enough, candidate, at),
                }
            }
    }

    /// Whether `candidates` are [`NUM_ATTEMPTS`] candidates that were drawn
    /// around the point with the index `i` and cannot be placed.
    pub open spec fn all_rejected<R, G, C, F>(
        self,
        cols: usize,
        rows: usize,
        gen_point: G,
        cell_of: C,
        far_enough: F,
        i: int,
        candidates: Seq<P>,
    ) -> bool where
        G: Fn(&mut R, Option<P>) -> P,
        C: Fn(P) -> Option<(usize, usize)>,
        F: Fn(P, P) -> bool,
     {
        &&& candidates.len() == NUM_ATTEMPTS
        &&& forall|a: int|
            0 <= a < NUM_ATTEMPTS ==> {
                &&& drawn_around::<R, P, G>(
                    gen_point,
                    Some(self.points@[i]),
                    #[trigger] candidates[a],
                )
                &&& self.rejected(cols, rows, cell_of, far_enough, candidates[a])
            }
    }

    /// Whether the point with the index `i` was given up for good reason:
    /// [`NUM_ATTEMPTS`] candidates were drawn around it, none of which can be
    /// placed.
    pub open spec fn given_up<R, G, C, F>(
        self,
        cols: usize,
        rows: usize,
        gen_point: G,
        cell_of: C,
        far_enough: F,
        i: int,
    ) -> bool where
        G: Fn(&mut R, Option<P>) -> P,
        C: Fn(P) -> Option<(usize, usize)>,
        F: Fn(P, P) -> bool,
     {
        exists|candidates: Seq<P>| #[trigger]
            self.all_rejected::<R, G, C, F>(
                cols,
                rows,
                gen_point,
                cell_of,
                far_enough,
                i,
                candidates,
            )
    }

    /// Whether the point with the index `j` was drawn around one placed
    /// before it.
    pub open spec fn grown<R, G: Fn(&mut R, Option<P>) -> P>(self, gen_point: G, j: int) -> bool {
        exists|i: int|
            0 <= i < j && #[trigger] drawn_around::<R, P, G>(
                gen_point,
                Some(self.points@[i]),
                self.points@[j],
            )
    }

    /// Whether the first point was drawn as the seed and every other point
    /// around one placed before it.
    pub open spec fn sprouted<R, G: Fn(&mut R, Option<P>) -> P>(self, gen_point: G) -> bool {
        &&& self.points@.len() > 0
        &&& drawn_around::<R, P, G>(gen_point, None, self.points@[0])
        &&& forall|j: int| 0 < j < self.points@.len() ==> #[trigger] self.grown::<R, G>(gen_point, j)
    }
}

/// Whether `gen_point` can hand out `point` when asked for a point around
/// `around`, or for a seed if `around` is `None`.
pub open spec fn drawn_around<R, P, G: Fn(&mut R, Option<P>) -> P>(
    gen_point: G,
    around: Option<P>,
    point: P,
) -> bool {
    exists|rng: &mut R| #[trigger] call_ensures(gen_point, (rng, around), point)
}

/// Whether a grid holds the index of every point in the cell of the point and
/// nothing else.
spec fn registered(
    cols: usize,
    rows: usize,
    cells: Seq<(usize, usize)>,
    grid: Seq<Option<usize>>,
) -> bool {
    &&& grid.len() == cols * rows
    &&& forall|i: int|
        0 <= i < cells.len() ==> {
            &&& in_grid(cols, rows, #[trigger] cells[i])
            &&& grid[cell_index(cols, cells[i])] matches Some(index)
            &&& index == i
        }
    &&& forall|at: int|
        0 <= at < grid.len() ==> (#[trigger] grid[at] matches Some(i) ==> {
            &&& i < cells.len()
            &&& cell_index(cols, cells[i as int]) == at
        })
}

/// Tells whether `candidate`, which lies in `cell`, is far enough from every
/// point in the cells that neighbour `cell`.
fn clear_of_neighbours<P: Copy, F: Fn(P, P) -> bool>(
    cols: usize,
    rows: usize,
    grid: &Vec<Option<usize>>,
    points: &Vec<P>,
    cells: &Vec<(usize, usize)>,
    candidate: P,
    cell: (usize, usize),
    far_enough: &F,
) -> (clear: bool)
    requires
        registered(cols, rows, cells@, grid@),
        cells@.len() == points@.len(),
        cols * rows <= usize::MAX,
        in_grid(cols, rows, cell),
        forall|p: P, q: P| call_requires(*far_enough, (p, q)),
    ensures
        clear ==> forall|i: int|
            0 <= i < points@.len() && neighbours(#[trigger] cells@[i], cell) ==> call_ensures(
                *far_enough,
                (candidate, points@[i]),
                true,
            ),
        !clear ==> exists|k: int|
            {
                &&& 0 <= k < points@.len()
                &&& neighbours(#[trigger] cells@[k], cell)
                &&& call_ensures(*far_enough, (candidate, points@[k]), false)
            },
{
    let row_lo = if cell.1 >= 2 { cell.1 - 2 } else { 0 };
    let row_hi = if rows - 1 - cell.1 >= 2 { cell.1 + 2 } else { rows - 1 };
    let col_lo = if cell.0 >= 2 { cell.0 - 2 } else { 0 };
    let col_hi = if cols - 1 - cell.0 >= 2 { cell.0 + 2 } else { cols - 1 };
    let mut row = row_lo;
    while row <= row_hi
        invariant
            registered(cols, rows, cells@, grid@),
            cells@.len() == points@.len(),
            cols * rows <= usize::MAX,
            in_grid(cols, rows, cell),
            forall|p: P, q: P| call_requires(*far_enough, (p, q)),
            row_lo == (if cell.1 >= 2 { cell.1 - 2 } else { 0 }),
            row_hi == (if cell.1 + 2 < rows { cell.1 + 2 } else { rows - 1 }),
            col_lo == (if cell.0 >= 2 { cell.0 - 2 } else { 0 }),
            col_hi == (if cell.0 + 2 < cols { cell.0 + 2 } else { cols - 1 }),
            row_lo <= row <= row_hi + 1,
            forall|i: int|
                0 <= i < points@.len() && neighbours(#[trigger] cells@[i], cell) && cells@[i].1
                    < row ==> call_ensures(*far_enough, (candidate, points@[i]), true),
        decreases row_hi + 1 - row,
    {
        let mut col = col_lo;
        while col <= col_hi
            invariant
                registered(cols, rows, cells@, grid@),
                cells@.len() == points@.len(),
                cols * rows <= usize::MAX,
                in_grid(cols, rows, cell),
                forall|p: P, q: P| call_requires(*far_enough, (p, q)),
                row_lo == (if cell.1 >= 2 { cell.1 - 2 } else { 0 }),
                row_hi == (if cell.1 + 2 < rows { cell.1 + 2 } else { rows - 1 }),
                col_lo == (if cell.0 >= 2 { cell.0 - 2 } else { 0 }),
                col_hi == (if cell.0 + 2 < cols { cell.0 + 2 } else { cols - 1 }),
                row_lo <= row <= row_hi,
                col_lo <= col <= col_hi + 1,
                forall|i: int|
                    0 <= i < points@.len() && neighbours(#[trigger] cells@[i], cell) && (cells@[i].1
                        < row || (cells@[i].1 == row && cells@[i].0 < col)) ==> call_ensures(
                        *far_enough,
                        (candidate, points@[i]),
                        true,
                    ),
            decreases col_hi + 1 - col,
        {
            proof {
                lemma_cell_index(cols, rows, (col, row));
            }
            let at = row * cols + col;
            match grid[at] {
                Some(index) => {
                    if !far_enough(candidate, points[index]) {
                        proof {
                            lemma_cell_index(cols, rows, cells@[index as int]);
                            assert(cells@[index as int] == (col, row));
                        }
                        return false;
                    }
                },
                None => {},
            }
            proof {
                assert forall|i: int|
                    0 <= i < points@.len() && neighbours(#[trigger] cells@[i], cell) && cells@[i]
                        == (col, row) implies call_ensures(
                    *far_enough,
                    (candidate, points@[i]),
                    true,
                ) by {
                    assert(grid@[cell_index(cols, cells@[i])] matches Some(index) && index == i);
                }
            }
            col += 1;
        }
        row += 1;
    }
    true
}

/// Distributes points by Bridson's algorithm for Poisson disc sampling.
///
/// The area is covered by a background grid of `cols` by `rows` cells, of
/// which each takes one point at most. A seed is drawn first. Then a point is
/// picked among the active ones, and up to [`NUM_ATTEMPTS`] candidates are
/// drawn around it: one that lies in a vacant cell of the grid and far enough
/// from all points in the cells around is placed and becomes active too; when
/// none is placed, the point picked is active no longer. This goes on until no
/// point is active.
///
/// `gen_point` draws the seed, asked with `None`, and the candidates around a
/// point; `pick` chooses one of a number of active points, which is taken
/// modulo that number; `cell_of` tells the cell that a point lies in, if it
/// lies in the area; `far_enough` tells whether the first point may lie where
/// it does when the second is placed. All that is random is drawn from `rng`.
///
/// A grid without cells is an invalid parameter, and nothing is drawn for it.
/// A seed that does not lie in a cell of the grid leaves the result empty.
/// Where fewer points are placed than the `expected` number, which the
/// density asked for gives, the distribution is marked as underpopulated.
pub fn poisson_disc<R, P: Copy, G, K, C, F>(
    cols: usize,
    rows: usize,
    expected: usize,
    rng: &mut R,
    gen_point: G,
    pick: K,
    cell_of: C,
    far_enough: F,
) -> (result: Result<PoissonDisc<P>, DistributionError>) where
    G: Fn(&mut R, Option<P>) -> P,
    K: Fn(&mut R, usize) -> usize,
    C: Fn(P) -> Option<(usize, usize)>,
    F: Fn(P, P) -> bool,

    requires
        forall|rng: &mut R, around: Option<P>| call_requires(gen_point, (rng, around)),
        forall|rng: &mut R, number: usize| number > 0 ==> call_requires(pick, (rng, number)),
        forall|point: P| call_requires(cell_of, (point,)),
        forall|p: P, q: P| call_requires(far_enough, (p, q)),
    ensures
        match result {
            Ok(disc) => {
                &&& 0 < cols * rows <= usize::MAX
                &&& 0 < disc.points@.len() <= cols * rows
                &&& disc.underpopulated == (disc.points@.len() < expected)
                &&& disc.sprouted::<R, G>(gen_point)
                &&& disc.in_cells(cols, rows, cell_of)
                &&& disc.kept_apart(far_enough)
                &&& forall|i: int|
                    0 <= i < disc.points@.len() ==> #[trigger] disc.given_up::<R, G, C, F>(
                        cols,
                        rows,
                        gen_point,
                        cell_of,
                        far_enough,
                        i,
                    )
            },
            Err(DistributionError::InvalidParameter) => {
                &&& cols == 0 || rows == 0 || cols * rows > usize::MAX
                &&& *final(rng) == *old(rng)
            },
            Err(DistributionError::EmptyResult) => {
                &&& 0 < cols * rows <= usize::MAX
                &&& exists|seed: P, cell: Option<(usize, usize)>|
                    {
                        &&& #[trigger] drawn_around::<R, P, G>(gen_point, None, seed)
                        &&& #[trigger] call_ensures(cell_of, (seed,), cell)
                        &&& !(cell matches Some(inner) && in_grid(cols, rows, inner))
                    }
            },
        },
{
    if cols == 0 || rows == 0 {
        return Err(DistributionError::InvalidParameter);
    }
    let size = match cols.checked_mul(rows) {
        Some(size) => size,
        None => {
            return Err(DistributionError::InvalidParameter);
        },
    };
    proof {
        assert(0 < cols * rows) by (nonlinear_arith)
            requires
                cols > 0,
                rows > 0,
        ;
    }

    let seed = gen_point(rng, None);
    let seed_cell = match cell_of(seed) {
        Some(cell) => {
            if cell.0 < cols && cell.1 < rows {
                cell
            } else {
                assert(drawn_around::<R, P, G>(gen_point, None, seed));
                return Err(DistributionError::EmptyResult);
            }
        },
        None => {
            assert(drawn_around::<R, P, G>(gen_point, None, seed));
            return Err(DistributionError::EmptyResult);
        },
    };

    let mut grid: Vec<Option<usize>> = Vec::new();
    let mut filled: usize = 0;
    while filled < size
        invariant
            filled <= size,
            grid@.len() == filled,
            forall|at: int| 0 <= at < filled ==> #[trigger] grid@[at] is None,
        decreases size - filled,
    {
        grid.push(None);
        filled += 1;
    }

    proof {
        lemma_cell_index(cols, rows, seed_cell);
        lemma_vacant_bound(grid@);
        lemma_vacant_filled(grid@, cell_index(cols, seed_cell), 0);
    }
    let mut disc = PoissonDisc { points: Vec::new(), cells: Vec::new(), underpopulated: false };
    disc.points.push(seed);
    disc.cells.push(seed_cell);
    disc.underpopulated = 1 < expected;
    grid[seed_cell.1 * cols + seed_cell.0] = Some(0);
    let mut active: Vec<usize> = Vec::new();
    active.push(0);
    proof {
        assert(drawn_around::<R, P, G>(gen_point, None, seed));
        assert(active@[0] == 0);
    }

    while active.len() > 0
        invariant
            forall|rng: &mut R, around: Option<P>| call_requires(gen_point, (rng, around)),
            forall|rng: &mut R, number: usize| number > 0 ==> call_requires(pick, (rng, number)),
            forall|point: P| call_requires(cell_of, (point,)),
            forall|p: P, q: P| call_requires(far_enough, (p, q)),
            0 < cols * rows <= usize::MAX,
            registered(cols, rows, disc.cells@, grid@),
            disc.points@.len() + vacant(grid@) <= cols * rows,
            disc.underpopulated == (disc.points@.len() < expected),
            disc.sprouted::<R, G>(gen_point),
            disc.in_cells(cols, rows, cell_of),
            disc.kept_apart(far_enough),
            forall|a: int| 0 <= a < active@.len() ==> #[trigger] active@[a] < disc.points@.len(),
            forall|i: usize|
                i < disc.points@.len() ==> active@.contains(i) || #[trigger] disc.given_up::<
                    R,
                    G,
                    C,
                    F,
                >(cols, rows, gen_point, cell_of, far_enough, i as int),
        decreases vacant(grid@), active@.len(),
    {
        let choice = pick(rng, active.len()) % active.len();
        let around = disc.points[active[choice]];
        let ghost around_index = active@[choice as int] as int;
        let mut attempt: usize = 0;
        let mut placed = false;
        let ghost vacant_before = vacant(grid@);
        let ghost active_before = active@;
        let ghost mut tried: Seq<P> = Seq::empty();
        while attempt < NUM_ATTEMPTS && !placed
            invariant
                forall|rng: &mut R, around: Option<P>| call_requires(gen_point, (rng, around)),
                forall|point: P| call_requires(cell_of, (point,)),
                forall|p: P, q: P| call_requires(far_enough, (p, q)),
                0 < cols * rows <= usize::MAX,
                registered(cols, rows, disc.cells@, grid@),
                disc.points@.len() + vacant(grid@) <= cols * rows,
                disc.underpopulated == (disc.points@.len() < expected),
                disc.sprouted::<R, G>(gen_point),
                disc.in_cells(cols, rows, cell_of),
                disc.kept_apart(far_enough),
                forall|a: int| 0 <= a < active@.len() ==> #[trigger] active@[a] < disc.points@.len(),
                forall|i: usize|
                    i < disc.points@.len() ==> active@.contains(i) || #[trigger] disc.given_up::<
                        R,
                        G,
                        C,
                        F,
                    >(cols, rows, gen_point, cell_of, far_enough, i as int),
                0 <= around_index < disc.points@.len(),
                around == disc.points@[around_index],
                choice < active@.len(),
                attempt <= NUM_ATTEMPTS,
                !placed ==> vacant(grid@) == vacant_before && active@ == active_before,
                !placed ==> tried.len() == attempt,
                !placed ==> forall|a: int|
                    0 <= a < attempt ==> {
                        &&& drawn_around::<R, P, G>(gen_point, Some(around), #[trigger] tried[a])
                        &&& disc.rejected(cols, rows, cell_of, far_enough, tried[a])
                    },
                placed ==> vacant(grid@) < vacant_before,
            decreases NUM_ATTEMPTS - attempt, if placed { 0int } else { 1int },
        {
            let candidate = gen_point(rng, Some(around));
            proof {
                assert(drawn_around::<R, P, G>(gen_point, Some(around), candidate));
                tried = tried.push(candidate);
            }
            match cell_of(candidate) {
                Some(cell) => {
                    if cell.0 < cols && cell.1 < rows {
                        proof {
                            lemma_cell_index(cols, rows, cell);
                        }
                        let at = cell.1 * cols + cell.0;
                        match grid[at] {
                            Some(taken) => {
                                proof {
                                    lemma_cell_index(cols, rows, disc.cells@[taken as int]);
                                    assert(disc.cells@[taken as int] == cell);
                                    assert(disc.blocked(far_enough, candidate, cell));
                                    assert(call_ensures(cell_of, (candidate,), Some(cell)));
                                }
                            },
                            None => {
                                if clear_of_neighbours(
                                    cols,
                                    rows,
                                    &grid,
                                    &disc.points,
                                    &disc.cells,
                                    candidate,
                                    cell,
                                    &far_enough,
                                ) {
                                    let index = disc.points.len();
                                    proof {
                                        lemma_vacant_filled(grid@, at as int, index);
                                    }
                                    let ghost old_disc = disc;
                                    let ghost old_grid = grid@;
                                    let ghost old_active = active@;
                                    disc.points.push(candidate);
                                    disc.cells.push(cell);
                                    disc.underpopulated = disc.points.len() < expected;
                                    grid[at] = Some(index);
                                    active.push(index);
                                    placed = true;
                                    proof {
                                        lemma_placed(
                                            cols,
                                            rows,
                                            old_disc,
                                            old_grid,
                                            disc,
                                            grid@,
                                            candidate,
                                            cell,
                                            index,
                                            around_index,
                                            gen_point,
                                            cell_of,
                                            far_enough,
                                        );
                                        assert(active@.last() == index);
                                        assert forall|i: usize|
                                            i < disc.points@.len() implies active@.contains(i)
                                            || #[trigger] disc.given_up::<R, G, C, F>(
                                            cols,
                                            rows,
                                            gen_point,
                                            cell_of,
                                            far_enough,
                                            i as int,
                                        ) by {
                                            if i < index {
                                                if old_active.contains(i) {
                                                    let at_old = choose|a: int|
                                                        0 <= a < old_active.len() && old_active[a]
                                                            == i;
                                                    assert(active@[at_old] == i);
                                                } else {
                                                    assert(old_disc.given_up::<R, G, C, F>(
                                                        cols,
                                                        rows,
                                                        gen_point,
                                                        cell_of,
                                                        far_enough,
                                                        i as int,
                                                    ));
                                                }
                                            } else {
                                                assert(active@[active@.len() - 1] == i);
                                            }
                                        }
                                    }
                                } else {
                                    proof {
                                        assert(disc.blocked(far_enough, candidate, cell));
                                        assert(call_ensures(cell_of, (candidate,), Some(cell)));
                                    }
                                }
                            },
                        }
                    } else {
                        proof {
                            assert(call_ensures(cell_of, (candidate,), Some(cell)));
                        }
                    }
                },
                None => {
                    proof {
                        assert(call_ensures(cell_of, (candidate,), None::<(usize, usize)>));
                    }
                },
            }
            proof {
                if !placed {
                    assert(disc.rejected(cols, rows, cell_of, far_enough, candidate));
                }
            }
            attempt += 1;
        }
        if !placed {
            proof {
                assert(disc.all_rejected::<R, G, C, F>(
                    cols,
                    rows,
                    gen_point,
                    cell_of,
                    far_enough,
                    around_index,
                    tried,
                ));
            }
            active.swap_remove(choice);
            proof {
                assert forall|i: usize| i < disc.points@.len() implies active@.contains(i)
                    || #[trigger] disc.given_up::<R, G, C, F>(
                    cols,
                    rows,
                    gen_point,
                    cell_of,
                    far_enough,
                    i as int,
                ) by {
                    if i as int != around_index && active_before.contains(i) {
                        let at_old = choose|a: int|
                            0 <= a < active_before.len() && active_before[a] == i;
                        if at_old == active_before.len() - 1 {
                            assert(active@[choice as int] == i);
                        } else {
                            assert(active@[at_old] == i);
                        }
                    }
                }
            }
        }
    }
    proof {
        lemma_vacant_bound(grid@);
        assert forall|i: int| 0 <= i < disc.points@.len() implies #[trigger] disc.given_up::<
            R,
            G,
            C,
            F,
        >(cols, rows, gen_point, cell_of, far_enough, i) by {
            let index = i as usize;
            assert(!active@.contains(index));
            assert(disc.given_up::<R, G, C, F>(
                cols,
                rows,
                gen_point,
                cell_of,
                far_enough,
                index as int,
            ));
        }
    }
    Ok(disc)
}

/// No two points of a Poisson disc distribution lie close to each other,
/// where the grid is fine enough for the distance that is to be kept: if
/// points that `far_enough` accepts are apart, and points in cells that do not
/// neighbour each other are apart as well, then every two points of the
/// distribution are apart.
pub proof fn lemma_poisson_disc_separation<P, C, F>(
    disc: PoissonDisc<P>,
    cols: usize,
    rows: usize,
    cell_of: C,
    far_enough: F,
    apart: spec_fn(P, P) -> bool,
) where C: Fn(P) -> Option<(usize, usize)>, F: Fn(P, P) -> bool
    requires
        disc.in_cells(cols, rows, cell_of),
        disc.kept_apart(far_enough),
        forall|p: P, q: P| #[trigger] call_ensures(far_enough, (p, q), true) ==> apart(p, q),
        forall|p: P, q: P, a: (usize, usize), b: (usize, usize)|
            #[trigger] call_ensures(cell_of, (p,), Some(a)) && #[trigger] call_ensures(
                cell_of,
                (q,),
                Some(b),
            ) && !neighbours(a, b) ==> apart(p, q),
    ensures
        forall|i: int, j: int|
            0 <= i < j < disc.points@.len() ==> apart(
                #[trigger] disc.points@[j],
                #[trigger] disc.points@[i],
            ),
{
    assert forall|i: int, j: int| 0 <= i < j < disc.points@.len() implies apart(
        #[trigger] disc.points@[j],
        #[trigger] disc.points@[i],
    ) by {
        let a = disc.cells@[j];
        let b = disc.cells@[i];
        assert(call_ensures(cell_of, (disc.points@[j],), Some(a)));
        assert(call_ensures(cell_of, (disc.points@[i],), Some(b)));
        if neighbours(b, a) {
            assert(call_ensures(far_enough, (disc.points@[j], disc.points@[i]), true));
        }
    }
}

/// No more cells of a grid are vacant than the grid has.
proof fn lemma_vacant_bound(grid: Seq<Option<usize>>)
    ensures
        vacant(grid) <= grid.len(),
    decreases grid.len(),
{
    if grid.len() > 0 {
        lemma_vacant_bound(grid.drop_last());
    }
}

/// A candidate that cannot be placed cannot be placed either when more points
/// have been placed.
proof fn lemma_still_rejected<P, C, F>(
    cols: usize,
    rows: usize,
    before: PoissonDisc<P>,
    after: PoissonDisc<P>,
    candidate: P,
    cell_of: C,
    far_enough: F,
) where C: Fn(P) -> Option<(usize, usize)>, F: Fn(P, P) -> bool
    requires
        before.rejected(cols, rows, cell_of, far_enough, candidate),
        before.cells@.len() == before.points@.len(),
        after.cells@.len() == after.points@.len(),
        before.points@.len() <= after.points@.len(),
        before.points@ == after.points@.take(before.points@.len() as int),
        before.cells@ == after.cells@.take(before.points@.len() as int),
    ensures
        after.rejected(cols, rows, cell_of, far_enough, candidate),
{
    let cell = choose|cell: Option<(usize, usize)>|
        {
            &&& #[trigger] call_ensures(cell_of, (candidate,), cell)
            &&& match cell {
                None => true,
                Some(at) => !in_grid(cols, rows, at) || before.blocked(far_enough, candidate, at),
            }
        };
    if let Some(at) = cell {
        if in_grid(cols, rows, at) {
            let k = choose|k: int|
                {
                    &&& 0 <= k < before.points@.len()
                    &&& neighbours(#[trigger] before.cells@[k], at)
                    &&& (before.cells@[k] == at || call_ensures(
                        far_enough,
                        (candidate, before.points@[k]),
                        false,
                    ))
                };
            let n = before.points@.len() as int;
            assert(after.cells@.take(n)[k] == after.cells@[k]);
            assert(after.points@.take(n)[k] == after.points@[k]);
            assert(after.blocked(far_enough, candidate, at));
        }
    }
}

/// A distribution stays in order when a candidate is placed that lies in a
/// vacant cell and far enough from the points in the cells around.
proof fn lemma_placed<R, P, G, C, F>(
    cols: usize,
    rows: usize,
    before: PoissonDisc<P>,
    grid_before: Seq<Option<usize>>,
    after: PoissonDisc<P>,
    grid_after: Seq<Option<usize>>,
    candidate: P,
    cell: (usize, usize),
    index: usize,
    around: int,
    gen_point: G,
    cell_of: C,
    far_enough: F,
) where
    G: Fn(&mut R, Option<P>) -> P,
    C: Fn(P) -> Option<(usize, usize)>,
    F: Fn(P, P) -> bool,

    requires
        registered(cols, rows, before.cells@, grid_before),
        before.cells@.len() == before.points@.len(),
        index == before.points@.len(),
        before.sprouted::<R, G>(gen_point),
        before.in_cells(cols, rows, cell_of),
        before.kept_apart(far_enough),
        in_grid(cols, rows, cell),
        grid_before[cell_index(cols, cell)] is None,
        call_ensures(cell_of, (candidate,), Some(cell)),
        0 <= around < before.points@.len(),
        drawn_around::<R, P, G>(gen_point, Some(before.points@[around]), candidate),
        forall|i: int|
            0 <= i < before.points@.len() && neighbours(#[trigger] before.cells@[i], cell)
                ==> call_ensures(far_enough, (candidate, before.points@[i]), true),
        after.points@ == before.points@.push(candidate),
        after.cells@ == before.cells@.push(cell),
        grid_after == grid_before.update(cell_index(cols, cell), Some(index)),
    ensures
        registered(cols, rows, after.cells@, grid_after),
        after.sprouted::<R, G>(gen_point),
        after.in_cells(cols, rows, cell_of),
        after.kept_apart(far_enough),
        forall|i: int|
            0 <= i < before.points@.len() && before.given_up::<R, G, C, F>(
                cols,
                rows,
                gen_point,
                cell_of,
                far_enough,
                i,
            ) ==> #[trigger] after.given_up::<R, G, C, F>(
                cols,
                rows,
                gen_point,
                cell_of,
                far_enough,
                i,
            ),
{
    let n = before.points@.len() as int;
    assert(after.points@.take(n) =~= before.points@);
    assert(after.cells@.take(n) =~= before.cells@);
    assert forall|i: int|
        0 <= i < n && before.given_up::<R, G, C, F>(
            cols,
            rows,
            gen_point,
            cell_of,
            far_enough,
            i,
        ) implies #[trigger] after.given_up::<R, G, C, F>(
        cols,
        rows,
        gen_point,
        cell_of,
        far_enough,
        i,
    ) by {
        let candidates = choose|candidates: Seq<P>| #[trigger]
            before.all_rejected::<R, G, C, F>(
                cols,
                rows,
                gen_point,
                cell_of,
                far_enough,
                i,
                candidates,
            );
        assert(after.points@[i] == before.points@[i]);
        assert forall|a: int| 0 <= a < NUM_ATTEMPTS implies after.rejected(
            cols,
            rows,
            cell_of,
            far_enough,
            #[trigger] candidates[a],
        ) by {
            lemma_still_rejected(cols, rows, before, after, candidates[a], cell_of, far_enough);
        }
        assert(after.all_rejected::<R, G, C, F>(
            cols,
            rows,
            gen_point,
            cell_of,
            far_enough,
            i,
            candidates,
        ));
    }
    let at = cell_index(cols, cell);
    lemma_cell_index(cols, rows, cell);
    assert forall|i: int| 0 <= i < n implies #[trigger] before.cells@[i] != cell by {
        assert(grid_before[cell_index(cols, before.cells@[i])] is Some);
    }
    assert forall|i: int| 0 <= i < after.cells@.len() implies {
        &&& in_grid(cols, rows, #[trigger] after.cells@[i])
        &&& grid_after[cell_index(cols, after.cells@[i])] matches Some(k)
        &&& k == i
    } by {
        if i < n {
            assert(after.cells@[i] == before.cells@[i]);
            lemma_cell_index(cols, rows, before.cells@[i]);
            assert(grid_before[cell_index(cols, before.cells@[i])] matches Some(k) && k == i);
        }
    }
    assert forall|g: int| 0 <= g < grid_after.len() implies (#[trigger] grid_after[g] matches Some(
        i,
    ) ==> {
        &&& i < after.cells@.len()
        &&& cell_index(cols, after.cells@[i as int]) == g
    }) by {
        if g != at {
            assert(grid_after[g] == grid_before[g]);
            if let Some(i) = grid_before[g] {
                assert(after.cells@[i as int] == before.cells@[i as int]);
            }
        }
    }
    assert forall|j: int| 0 < j < after.points@.len() implies #[trigger] after.grown::<R, G>(
        gen_point,
        j,
    ) by {
        if j < n {
            assert(before.grown::<R, G>(gen_point, j));
            let i = choose|i: int|
                0 <= i < j && #[trigger] drawn_around::<R, P, G>(
                    gen_point,
                    Some(before.points@[i]),
                    before.points@[j],
                );
            assert(after.points@[i] == before.points@[i]);
            assert(after.points@[j] == before.points@[j]);
            assert(drawn_around::<R, P, G>(gen_point, Some(after.points@[i]), after.points@[j]));
        } else {
            assert(after.points@[around] == before.points@[around]);
            assert(after.points@[j] == candidate);
            assert(drawn_around::<R, P, G>(
                gen_point,
                Some(after.points@[around]),
                after.points@[j],
            ));
        }
    }
    assert(after.points@[0] == before.points@[0]);
    assert forall|i: int| 0 <= i < after.points@.len() implies {
        &&& in_grid(cols, rows, #[trigger] after.cells@[i])
        &&& call_ensures(cell_of, (after.points@[i],), Some(after.cells@[i]))
    } by {
        if i < n {
            assert(after.cells@[i] == before.cells@[i]);
            assert(after.points@[i] == before.points@[i]);
        }
    }
    assert forall|i: int, j: int| 0 <= i < j < after.points@.len() implies #[trigger] after.cells@[i]
        != #[trigger] after.cells@[j] by {
        assert(after.cells@[i] == before.cells@[i]);
        if j < n {
            assert(after.cells@[j] == before.cells@[j]);
        }
    }
    assert forall|i: int, j: int|
        0 <= i < j < after.points@.len() && neighbours(
            #[trigger] after.cells@[i],
            #[trigger] after.cells@[j],
        ) implies call_ensures(far_enough, (after.points@[j], after.points@[i]), true) by {
        assert(after.cells@[i] == before.cells@[i]);
        assert(after.points@[i] == before.points@[i]);
        if j < n {
            assert(after.cells@[j] == before.cells@[j]);
            assert(after.points@[j] == before.points@[j]);
        }
    }
}

} // verus!
