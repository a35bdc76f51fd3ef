//! Periodic two-dimensional lattices, in units of their crystal's spacing.
//!
//! A lattice replicates a crystal cell `nx` times along its first vector and
//! `ny` times along its second. A [`Site`] names the replica by its column and
//! row, which are the site's exact coordinates in the basis of the two crystal
//! vectors; the sites are listed row by row. The hexagonal lattice leaves out
//! every third site to form a honeycomb and widens the requested counts so that
//! the pattern stays whole when the lattice is repeated.

use vstd::arithmetic::div_mod::lemma_fundamental_div_mod_converse;
use vstd::prelude::*;

verus! {

/// The kinds of lattice that can be replicated from a crystal.
#[derive(Clone, Copy, Debug, PartialEq, Eq, Structural)]
pub enum LatticeType {
    /// A honeycomb: both vectors have one length and are 120 degrees apart.
    Hexagonal,
    /// Two vectors of any lengths, any angle apart; every site is kept.
    Triclinic,
}

/// A lattice site: `col` steps along the first crystal vector and `row` steps
/// along the second.
#[derive(Clone, Copy, Debug, PartialEq, Eq, Structural)]
pub struct Site {
    pub col: u64,
    pub row: u64,
}

/// The least multiple of `step` that is not below `n`.
pub open spec fn round_up(n: nat, step: nat) -> nat {
    if n % step == 0 {
        n
    } else {
        (n + step - n % step) as nat
    }
}

/// The numbers of columns and rows that a lattice of this kind really has when
/// `nx` by `ny` are asked for: a honeycomb needs a multiple of three columns
/// and an even number of rows.
pub open spec fn replicas(kind: LatticeType, nx: nat, ny: nat) -> (nat, nat) {
    match kind {
        LatticeType::Hexagonal => (round_up(nx, 3), round_up(ny, 2)),
        LatticeType::Triclinic => (nx, ny),
    }
}

/// The site at position `i` of a row-by-row walk over rows of `nx` columns.
pub open spec fn grid_site(nx: nat, i: int) -> Site {
    Site { col: (i % (nx as int)) as u64, row: (i / (nx as int)) as u64 }
}

/// The first `n` sites of a row-by-row walk over rows of `nx` columns.
pub open spec fn grid_prefix(nx: nat, n: nat) -> Seq<Site> {
    Seq::new(n, |i: int| grid_site(nx, i))
}

/// All sites of `ny` rows of `nx` columns, row by row.
pub open spec fn grid_sites(nx: nat, ny: nat) -> Seq<Site> {
    grid_prefix(nx, nx * ny)
}

/// Whether the honeycomb keeps the site at a column and a row, in a lattice or
/// beyond it. Every third site of a row is the centre of a hexagon and left
/// out; the pattern shifts by one column in every row.
pub open spec fn honeycomb_keeps_at(col: int, row: int) -> bool {
    (col + row + 1) % 3 != 0
}

/// Whether the honeycomb keeps a site.
pub open spec fn honeycomb_keeps(site: Site) -> bool {
    honeycomb_keeps_at(site.col as int, site.row as int)
}

/// [`honeycomb_keeps`] as a predicate to filter by.
pub open spec fn honeycomb() -> spec_fn(Site) -> bool {
    |site: Site| honeycomb_keeps(site)
}

/// The sites of `ny` rows of `nx` columns that the honeycomb keeps, row by row.
pub open spec fn honeycomb_sites(nx: nat, ny: nat) -> Seq<Site> {
    grid_sites(nx, ny).filter(honeycomb())
}

/// The sites of a lattice of the given kind for which `nx` by `ny` replicas
/// were asked.
pub open spec fn lattice_sites(kind: LatticeType, nx: nat, ny: nat) -> Seq<Site> {
    let (cols, rows) = replicas(kind, nx, ny);
    match kind {
        LatticeType::Hexagonal => honeycomb_sites(cols, rows),
        LatticeType::Triclinic => grid_sites(cols, rows),
    }
}

/// A lattice: its numbers of replicas and its sites.
///
/// Where the crystal's vectors have the spacing `dx` between columns, `dy`
/// between rows and a shear of `dx_per_row` per row, the lattice spans
/// `nx * dx` by `ny * dy` and the site `(col, row)` lies at
/// `(col * dx + row * dx_per_row, row * dy)`.
#[derive(Clone, Debug, PartialEq, Eq)]
pub struct Lattice {
    /// Replicas along the first crystal vector.
    pub nx: u64,
    /// Replicas along the second crystal vector.
    pub ny: u64,
    /// The sites, row by row.
    pub sites: Vec<Site>,
}

impl Lattice {
    /// Replicates a crystal of the given kind `nx` by `ny` times.
    ///
    /// A hexagonal lattice gets its counts rounded up to the next multiples of
    /// three and two before any site is placed, so the counts of the result
    /// may exceed those asked for.
    pub fn new(kind: LatticeType, nx: u64, ny: u64) -> (lattice: Lattice)
        requires
            kind == LatticeType::Hexagonal ==> ny < u64::MAX,
        ensures
            (lattice.nx as nat, lattice.ny as nat) == replicas(kind, nx as nat, ny as nat),
            lattice.sites@ == lattice_sites(kind, nx as nat, ny as nat),
    {
        LatticeBuilder::new(kind, nx, ny)
    }

    /// The positions of the sites, in the order of the sites. `place` gives the
    /// position of the site at a column and a row.
    pub fn coords<P, F: Fn(u64, u64) -> P>(&self, place: F) -> (coords: Vec<P>)
        requires
            forall|i: int|
                0 <= i < self.sites@.len() ==> call_requires(
                    place,
                    (#[trigger] self.sites@[i].col, self.sites@[i].row),
                ),
        ensures
            coords@.len() == self.sites@.len(),
            forall|i: int|
                0 <= i < coords@.len() ==> call_ensures(
                    place,
                    (self.sites@[i].col, self.sites@[i].row),
                    #[trigger] coords@[i],
                ),
    {
        let mut coords: Vec<P> = Vec::new();
        let mut i: usize = 0;
        while i < self.sites.len()
            invariant
                i <= self.sites@.len(),
                coords@.len() == i,
                forall|i: int|
                    0 <= i < self.sites@.len() ==> call_requires(
                        place,
                        (#[trigger] self.sites@[i].col, self.sites@[i].row),
                    ),
                forall|k: int|
                    0 <= k < coords@.len() ==> call_ensures(
                        place,
                        (self.sites@[k].col, self.sites@[k].row),
                        #[trigger] coords@[k],
                    ),
            decreases self.sites@.len() - i,
        {
            let site = self.sites[i];
            coords.push(place(site.col, site.row));
            i += 1;
        }
        coords
    }
}

/// Whether `moved` is `coords` translated by `shift`: as long as `coords`, with
/// every position moved by `shift`. `plus` moves a position by another.
pub open spec fn translated<P, F: Fn(P, P) -> P>(
    coords: Seq<P>,
    shift: P,
    plus: F,
    moved: Seq<P>,
) -> bool {
    &&& moved.len() == coords.len()
    &&& forall|i: int|
        0 <= i < moved.len() ==> call_ensures(plus, (coords[i], shift), #[trigger] moved[i])
}

/// Translates a list of positions by `shift`: every position is moved by it,
/// and the list keeps its length and order. `plus` moves a position by another.
pub fn translate<P: Copy, F: Fn(P, P) -> P>(coords: &Vec<P>, shift: P, plus: F) -> (moved: Vec<P>)
    requires
        forall|i: int| 0 <= i < coords@.len() ==> call_requires(plus, (#[trigger] coords@[i], shift)),
    ensures
        translated(coords@, shift, plus, moved@),
{
    let mut moved: Vec<P> = Vec::new();
    let mut i: usize = 0;
    while i < coords.len()
        invariant
            i <= coords@.len(),
            moved@.len() == i,
            forall|i: int|
                0 <= i < coords@.len() ==> call_requires(plus, (#[trigger] coords@[i], shift)),
            forall|k: int|
                0 <= k < moved@.len() ==> call_ensures(
                    plus,
                    (coords@[k], shift),
                    #[trigger] moved@[k],
                ),
        decreases coords@.len() - i,
    {
        moved.push(plus(coords[i], shift));
        i += 1;
    }
    moved
}

/// Translating by `there` and then by `back` brings every position as near to
/// where it was as `plus` brings a single position: whatever holds between a
/// position and what `plus` makes of it by `there` and then by `back`, holds
/// between each position of the list and the one in its place after the list
/// was translated twice.
pub proof fn lemma_translate_round_trip<P, F: Fn(P, P) -> P>(
    coords: Seq<P>,
    there: P,
    back: P,
    plus: F,
    moved: Seq<P>,
    returned: Seq<P>,
    near: spec_fn(P, P) -> bool,
)
    requires
        translated(coords, there, plus, moved),
        translated(moved, back, plus, returned),
        forall|from: P, via: P, to: P|
            #[trigger] call_ensures(plus, (from, there), via) && #[trigger] call_ensures(
                plus,
                (via, back),
                to,
            ) ==> near(from, to),
    ensures
        returned.len() == coords.len(),
        forall|i: int| 0 <= i < coords.len() ==> near(coords[i], #[trigger] returned[i]),
{
    assert forall|i: int| 0 <= i < coords.len() implies near(coords[i], #[trigger] returned[i]) by {
        assert(call_ensures(plus, (coords[i], there), moved[i]));
        assert(call_ensures(plus, (moved[i], back), returned[i]));
    }
}

/// The state of a lattice under construction.
struct LatticeBuilder {
    nx: u64,
    ny: u64,
    sites: Vec<Site>,
}

impl LatticeBuilder {
    fn new(kind: LatticeType, nx: u64, ny: u64) -> (lattice: Lattice)
        requires
            kind == LatticeType::Hexagonal ==> ny < u64::MAX,
        ensures
            (lattice.nx as nat, lattice.ny as nat) == replicas(kind, nx as nat, ny as nat),
            lattice.sites@ == lattice_sites(kind, nx as nat, ny as nat),
    {
        let mut builder = LatticeBuilder { nx, ny, sites: Vec::new() };
        match kind {
            LatticeType::Hexagonal => builder.hexagonal(),
            LatticeType::Triclinic => builder.generic(),
        }
        builder.finalize()
    }

    /// Keeps every site of the grid.
    fn generic(&mut self)
        ensures
            final(self).nx == old(self).nx,
            final(self).ny == old(self).ny,
            final(self).sites@ == grid_sites(old(self).nx as nat, old(self).ny as nat),
    {
        let nx = self.nx;
        let ny = self.ny;
        let mut sites: Vec<Site> = Vec::new();
        let mut row: u64 = 0;
        while row < ny
            invariant
                row <= ny,
                sites@ == grid_prefix(nx as nat, (nx * row) as nat),
            decreases ny - row,
        {
            let mut col: u64 = 0;
            while col < nx
                invariant
                    row < ny,
                    col <= nx,
                    sites@ == grid_prefix(nx as nat, (nx * row + col) as nat),
                decreases nx - col,
            {
                proof {
                    lemma_grid_prefix_push(nx as nat, row as nat, col as nat);
                }
                sites.push(Site { col, row });
                col += 1;
            }
            proof {
                assert(nx * row + nx == nx * (row + 1)) by (nonlinear_arith);
            }
            row += 1;
        }
        self.sites = sites;
    }

    /// Widens the counts to whole honeycomb cells, then keeps the sites of the
    /// grid that are no centre of a hexagon.
    fn hexagonal(&mut self)
        requires
            old(self).ny < u64::MAX,
        ensures
            final(self).nx == round_up(old(self).nx as nat, 3),
            final(self).ny == round_up(old(self).ny as nat, 2),
            final(self).sites@ == honeycomb_sites(final(self).nx as nat, final(self).ny as nat),
    {
        let nx = round_up_to(self.nx, 3);
        let ny = round_up_to(self.ny, 2);
        let mut sites: Vec<Site> = Vec::new();
        let mut row: u64 = 0;
        while row < ny
            invariant
                row <= ny,
                sites@ == grid_prefix(nx as nat, (nx * row) as nat).filter(honeycomb()),
            decreases ny - row,
        {
            let mut col: u64 = 0;
            while col < nx
                invariant
                    row < ny,
                    col <= nx,
                    sites@ == grid_prefix(nx as nat, (nx * row + col) as nat).filter(honeycomb()),
                decreases nx - col,
            {
                proof {
                    lemma_grid_prefix_push(nx as nat, row as nat, col as nat);
                    grid_prefix(nx as nat, (nx * row + col) as nat).lemma_filter_push(
                        Site { col, row },
                        honeycomb(),
                    );
                }
                if (col % 3 + row % 3 + 1) % 3 > 0 {
                    sites.push(Site { col, row });
                }
                col += 1;
            }
            proof {
                assert(nx * row + nx == nx * (row + 1)) by (nonlinear_arith);
            }
            row += 1;
        }
        self.nx = nx;
        self.ny = ny;
        self.sites = sites;
    }

    /// Hands out the lattice with the counts that its sites were placed for.
    fn finalize(self) -> (lattice: Lattice)
        ensures
            lattice.nx == self.nx,
            lattice.ny == self.ny,
            lattice.sites == self.sites,
    {
        Lattice { nx: self.nx, ny: self.ny, sites: self.sites }
    }
}

/// Rounds `n` up to the next multiple of `step`, which is two or three.
fn round_up_to(n: u64, step: u64) -> (rounded: u64)
    requires
        step == 2 || step == 3,
        step == 2 ==> n < u64::MAX,
    ensures
        rounded == round_up(n as nat, step as nat),
{
    let rest = n % step;
    if rest == 0 {
        n
    } else {
        n - rest + step
    }
}

/// A hexagonal lattice asked for with `nx` by `ny` replicas is the one asked
/// for with the counts that it is widened to: the same counts and the same
/// sites. Asked for with 4 by 1 it is the lattice of 6 by 2.
pub proof fn lemma_hexagonal_periodicity(nx: nat, ny: nat)
    ensures
        replicas(LatticeType::Hexagonal, nx, ny) == replicas(
            LatticeType::Hexagonal,
            round_up(nx, 3),
            round_up(ny, 2),
        ),
        lattice_sites(LatticeType::Hexagonal, nx, ny) == lattice_sites(
            LatticeType::Hexagonal,
            round_up(nx, 3),
            round_up(ny, 2),
        ),
        round_up(nx, 3) % 3 == 0,
        round_up(ny, 2) % 2 == 0,
        nx <= round_up(nx, 3) < nx + 3,
        ny <= round_up(ny, 2) < ny + 2,
{
}

/// The position of the site `(col, row)` in a row-by-row walk over rows of
/// `nx` columns.
pub open spec fn site_index(nx: nat, col: nat, row: nat) -> int {
    (nx * row + col) as int
}

/// The honeycomb of a hexagonal lattice goes on unbroken in the copies of the
/// lattice that are set beside it and above it. A copy beside it starts `nx`
/// columns further on. A copy above it starts `ny` rows further up and, as
/// every row is shifted back by half a column against the row below, `ny / 2`
/// columns further on. With `nx` a multiple of three and `ny` even, as the
/// counts of a hexagonal lattice are, the honeycomb keeps a site of a copy
/// exactly if it keeps the site of the lattice that was copied.
pub proof fn lemma_honeycomb_tiles(nx: nat, ny: nat, col: int, row: int)
    requires
        nx % 3 == 0,
        ny % 2 == 0,
    ensures
        honeycomb_keeps_at(col + nx, row) == honeycomb_keeps_at(col, row),
        honeycomb_keeps_at(col + ny / 2, row + ny) == honeycomb_keeps_at(col, row),
{
}

/// A triclinic lattice of `nx` by `ny` replicas has `nx * ny` sites, one for
/// each column of each row, and holds them row by row.
pub proof fn lemma_triclinic_count(nx: nat, ny: nat)
    requires
        nx <= u64::MAX,
        ny <= u64::MAX,
    ensures
        replicas(LatticeType::Triclinic, nx, ny) == (nx, ny),
        lattice_sites(LatticeType::Triclinic, nx, ny).len() == nx * ny,
        forall|col: nat, row: nat|
            col < nx && row < ny ==> {
                &&& 0 <= #[trigger] site_index(nx, col, row) < nx * ny
                &&& lattice_sites(LatticeType::Triclinic, nx, ny)[site_index(nx, col, row)] == (Site {
                    col: col as u64,
                    row: row as u64,
                })
            },
{
    assert forall|col: nat, row: nat| col < nx && row < ny implies {
        &&& 0 <= #[trigger] site_index(nx, col, row) < nx * ny
        &&& lattice_sites(LatticeType::Triclinic, nx, ny)[site_index(nx, col, row)] == (Site {
            col: col as u64,
            row: row as u64,
        })
    } by {
        lemma_grid_prefix_push(nx, row, col);
        assert(nx * row + col < nx * ny) by (nonlinear_arith)
            requires
                row < ny,
                col < nx,
        ;
        let i = site_index(nx, col, row);
        assert(grid_prefix(nx, (i + 1) as nat)[i] == grid_prefix(nx, i as nat).push(
            Site { col: col as u64, row: row as u64 },
        )[i]);
    }
}

/// The sites of a grid that the honeycomb leaves out.
pub open spec fn honeycomb_gaps(nx: nat, ny: nat) -> Seq<Site> {
    grid_sites(nx, ny).filter(|site: Site| !honeycomb_keeps(site))
}

/// A hexagonal lattice has the sites of its grid less those that the honeycomb
/// leaves out, which are a third of them: two sites for every three columns of
/// every row.
pub proof fn lemma_hexagonal_count(nx: nat, ny: nat)
    requires
        nx <= u64::MAX,
        ny < u64::MAX,
    ensures
        ({
            let (cols, rows) = replicas(LatticeType::Hexagonal, nx, ny);
            let sites = lattice_sites(LatticeType::Hexagonal, nx, ny);
            &&& sites.len() == cols * rows - honeycomb_gaps(cols, rows).len()
            &&& 3 * honeycomb_gaps(cols, rows).len() == cols * rows
            &&& 3 * sites.len() == 2 * cols * rows
        }),
{
    let (cols, rows) = replicas(LatticeType::Hexagonal, nx, ny);
    let triples = (cols / 3) * rows;
    assert(3 * triples == cols * rows) by (nonlinear_arith)
        requires
            triples == (cols / 3) * rows,
            cols % 3 == 0,
    ;
    lemma_honeycomb_prefix_count(cols, rows, triples);
    lemma_filter_partition(grid_sites(cols, rows), honeycomb());
    assert(honeycomb_gaps(cols, rows) == grid_sites(cols, rows).filter(negated(honeycomb()))) by {
        assert((|site: Site| !honeycomb_keeps(site)) =~= negated(honeycomb()));
    }
    assert(2 * (cols * rows) == 2 * cols * rows) by (nonlinear_arith);
}

/// The predicate that holds where `pred` does not.
spec fn negated(pred: spec_fn(Site) -> bool) -> spec_fn(Site) -> bool {
    |site: Site| !pred(site)
}

/// What a predicate keeps of a sequence and what it leaves out make up the
/// sequence.
proof fn lemma_filter_partition(sites: Seq<Site>, pred: spec_fn(Site) -> bool)
    ensures
        sites.filter(pred).len() + sites.filter(negated(pred)).len() == sites.len(),
    decreases sites.len(),
{
    reveal(Seq::filter);
    if sites.len() > 0 {
        lemma_filter_partition(sites.drop_last(), pred);
    }
}

/// Of the first `3 * triples` sites of a grid whose rows hold a multiple of
/// three columns, the honeycomb keeps two of every three.
proof fn lemma_honeycomb_prefix_count(nx: nat, ny: nat, triples: nat)
    requires
        nx % 3 == 0,
        nx <= u64::MAX,
        ny <= u64::MAX,
        3 * triples <= nx * ny,
    ensures
        grid_prefix(nx, 3 * triples).filter(honeycomb()).len() == 2 * triples,
    decreases triples,
{
    reveal(Seq::filter);
    if triples > 0 {
        let k = (triples - 1) as nat;
        lemma_honeycomb_prefix_count(nx, ny, k);
        let start = 3 * k;
        let row = start / nx;
        let col = start % nx;
        assert(nx > 0) by (nonlinear_arith)
            requires
                nx * ny > 0,
        ;
        assert(start == nx * row + col && col < nx) by {
            vstd::arithmetic::div_mod::lemma_fundamental_div_mod(start as int, nx as int);
        }
        assert(col % 3 == 0) by {
            assert(nx * row == 3 * ((nx / 3) * row)) by (nonlinear_arith)
                requires
                    nx % 3 == 0,
            ;
        }
        assert(row < ny) by {
            if row >= ny {
                assert(nx * row >= nx * ny) by (nonlinear_arith)
                    requires
                        row >= ny,
                ;
            }
        }
        let before = grid_prefix(nx, start);
        let s0 = Site { col: col as u64, row: row as u64 };
        let s1 = Site { col: (col + 1) as u64, row: row as u64 };
        let s2 = Site { col: (col + 2) as u64, row: row as u64 };
        lemma_grid_prefix_push(nx, row, col);
        lemma_grid_prefix_push(nx, row, col + 1);
        lemma_grid_prefix_push(nx, row, col + 2);
        before.lemma_filter_len_push(honeycomb(), s0);
        before.push(s0).lemma_filter_len_push(honeycomb(), s1);
        before.push(s0).push(s1).lemma_filter_len_push(honeycomb(), s2);
        assert(grid_prefix(nx, 3 * triples) == before.push(s0).push(s1).push(s2));
    }
}

/// The site that follows the first `nx * row + col` sites of the walk is
/// `(col, row)`.
proof fn lemma_grid_prefix_push(nx: nat, row: nat, col: nat)
    requires
        col < nx,
        nx <= u64::MAX,
        row <= u64::MAX,
    ensures
        grid_prefix(nx, nx * row + col + 1) == grid_prefix(nx, nx * row + col).push(
            Site { col: col as u64, row: row as u64 },
        ),
{
    let n = nx * row + col;
    assert(n == row * nx + col) by (nonlinear_arith)
        requires
            n == nx * row + col,
    ;
    lemma_fundamental_div_mod_converse(n as int, nx as int, row as int, col as int);
    assert(grid_prefix(nx, n + 1) =~= grid_prefix(nx, n).push(
        Site { col: col as u64, row: row as u64 },
    ));
}

} // verus!
