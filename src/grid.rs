use vstd::prelude::*;

use crate::cell::Cell;
use crate::geometry::Coord;

verus! {

/// A rectangular arrangement of cells, stored row by row.
#[derive(Debug)]
pub struct Grid(pub Vec<Vec<Cell>>);

impl View for Grid {
    type V = Seq<Seq<Cell>>;

    open spec fn view(&self) -> Seq<Seq<Cell>> {
        self.0@.map_values(|row: Vec<Cell>| row@)
    }
}

/// At least one row, and every row as long as the first.
pub open spec fn rectangular(g: Seq<Seq<Cell>>) -> bool {
    &&& g.len() >= 1
    &&& forall|i: int| 0 <= i < g.len() ==> #[trigger] g[i].len() == g[0].len()
}

/// Rectangular, with both dimensions addressable by a `u16` coordinate.
pub open spec fn well_shaped(g: Seq<Seq<Cell>>) -> bool {
    &&& rectangular(g)
    &&& g.len() <= u16::MAX
    &&& g[0].len() <= u16::MAX
}

pub open spec fn in_bounds(g: Seq<Seq<Cell>>, c: Coord) -> bool {
    &&& (c.1 as int) < g.len()
    &&& (c.0 as int) < g[c.1 as int].len()
}

/// The cell at a coordinate.
pub open spec fn at(g: Seq<Seq<Cell>>, c: Coord) -> Cell {
    g[c.1 as int][c.0 as int]
}

/// The grid with one cell replaced.
pub open spec fn put(g: Seq<Seq<Cell>>, c: Coord, v: Cell) -> Seq<Seq<Cell>> {
    g.update(c.1 as int, g[c.1 as int].update(c.0 as int, v))
}

pub open spec fn same_shape(a: Seq<Seq<Cell>>, b: Seq<Seq<Cell>>) -> bool {
    &&& a.len() == b.len()
    &&& forall|i: int| 0 <= i < a.len() ==> #[trigger] a[i].len() == b[i].len()
}

pub open spec fn ind(b: bool) -> nat {
    if b {
        1
    } else {
        0
    }
}

/// How many cells of a row satisfy `f`.
pub open spec fn row_count(r: Seq<Cell>, f: spec_fn(Cell) -> bool) -> nat
    decreases r.len(),
{
    if r.len() == 0 {
        0
    } else {
        row_count(r.drop_last(), f) + ind(f(r.last()))
    }
}

/// How many cells of a grid satisfy `f`.
pub open spec fn grid_count(g: Seq<Seq<Cell>>, f: spec_fn(Cell) -> bool) -> nat
    decreases g.len(),
{
    if g.len() == 0 {
        0
    } else {
        grid_count(g.drop_last(), f) + row_count(g.last(), f)
    }
}

/// Holds of the cells equal to `v`.
pub open spec fn equal_to(v: Cell) -> spec_fn(Cell) -> bool {
    |c: Cell| c == v
}

/// Holds of player cells.
pub open spec fn players() -> spec_fn(Cell) -> bool {
    |c: Cell| c is Player
}

/// Holds of box cells, locked or not.
pub open spec fn boxes() -> spec_fn(Cell) -> bool {
    |c: Cell| c is Box
}

/// Holds of boxes that do not rest on a target.
pub open spec fn unlocked_boxes() -> spec_fn(Cell) -> bool {
    equal_to(Cell::Box { locked: false })
}

/// Whether `c` precedes `d` in row-major order.
pub open spec fn row_major_before(c: Coord, d: Coord) -> bool {
    c.1 < d.1 || (c.1 == d.1 && c.0 < d.0)
}

/// `g` surrounded by a ring of `w` one cell thick.
pub open spec fn wrapped(g: Seq<Seq<Cell>>, w: Cell) -> Seq<Seq<Cell>> {
    let ring = Seq::new((g[0].len() + 2) as nat, |j: int| w);
    seq![ring] + g.map_values(|r: Seq<Cell>| seq![w] + r + seq![w]) + seq![ring]
}

pub proof fn lemma_row_count_update(r: Seq<Cell>, i: int, v: Cell, f: spec_fn(Cell) -> bool)
    requires
        0 <= i < r.len(),
    ensures
        row_count(r.update(i, v), f) + ind(f(r[i])) == row_count(r, f) + ind(f(v)),
    decreases r.len(),
{
    let u = r.update(i, v);
    if i == r.len() - 1 {
        assert(u.drop_last() =~= r.drop_last());
    } else {
        assert(u.drop_last() =~= r.drop_last().update(i, v));
        lemma_row_count_update(r.drop_last(), i, v, f);
    }
}

pub proof fn lemma_grid_count_update(g: Seq<Seq<Cell>>, c: Coord, v: Cell, f: spec_fn(Cell) -> bool)
    requires
        in_bounds(g, c),
    ensures
        grid_count(put(g, c, v), f) + ind(f(at(g, c))) == grid_count(g, f) + ind(f(v)),
    decreases g.len(),
{
    let u = put(g, c, v);
    let y = c.1 as int;
    if y == g.len() - 1 {
        assert(u.drop_last() =~= g.drop_last());
        lemma_row_count_update(g[y], c.0 as int, v, f);
    } else {
        assert(u.drop_last() =~= put(g.drop_last(), c, v));
        lemma_grid_count_update(g.drop_last(), c, v, f);
    }
}

/// A row where no cell satisfies `f` counts zero.
pub proof fn lemma_row_count_none(r: Seq<Cell>, f: spec_fn(Cell) -> bool)
    requires
        forall|j: int| 0 <= j < r.len() ==> !f(#[trigger] r[j]),
    ensures
        row_count(r, f) == 0,
    decreases r.len(),
{
    if r.len() > 0 {
        lemma_row_count_none(r.drop_last(), f);
    }
}

/// A grid where no cell satisfies `f` counts zero.
pub proof fn lemma_grid_count_none(g: Seq<Seq<Cell>>, f: spec_fn(Cell) -> bool)
    requires
        forall|i: int, j: int| 0 <= i < g.len() && 0 <= j < g[i].len() ==> !f(#[trigger] g[i][j]),
    ensures
        grid_count(g, f) == 0,
    decreases g.len(),
{
    if g.len() > 0 {
        let l = g.last();
        assert forall|j: int| 0 <= j < l.len() implies !f(#[trigger] l[j]) by {
            assert(!f(g[g.len() - 1][j]));
        }
        lemma_row_count_none(l, f);
        lemma_grid_count_none(g.drop_last(), f);
    }
}

/// A grid with some cell satisfying `f` counts at least one.
pub proof fn lemma_grid_count_some(g: Seq<Seq<Cell>>, c: Coord, f: spec_fn(Cell) -> bool)
    requires
        in_bounds(g, c),
        f(at(g, c)),
        !f(Cell::Empty),
    ensures
        grid_count(g, f) >= 1,
{
    lemma_grid_count_update(g, c, Cell::Empty, f);
}

/// Where only the cell at `c` may satisfy `f`, the count is one or zero according to it.
pub proof fn lemma_grid_count_single(g: Seq<Seq<Cell>>, c: Coord, f: spec_fn(Cell) -> bool)
    requires
        in_bounds(g, c),
        !f(Cell::Empty),
        forall|i: int, j: int|
            0 <= i < g.len() && 0 <= j < g[i].len() && !(i == c.1 && j == c.0) ==> !f(
                #[trigger] g[i][j],
            ),
    ensures
        grid_count(g, f) == ind(f(at(g, c))),
{
    let h = put(g, c, Cell::Empty);
    assert forall|i: int, j: int| 0 <= i < h.len() && 0 <= j < h[i].len() implies !f(
        #[trigger] h[i][j],
    ) by {
        if i == c.1 && j == c.0 {
        } else {
            assert(h[i][j] == g[i][j]);
        }
    }
    lemma_grid_count_none(h, f);
    lemma_grid_count_update(g, c, Cell::Empty, f);
}

/// Grids of one shape whose cells agree on `f` count alike.
pub proof fn lemma_grid_count_agree(
    a: Seq<Seq<Cell>>,
    b: Seq<Seq<Cell>>,
    f: spec_fn(Cell) -> bool,
)
    requires
        same_shape(a, b),
        forall|i: int, j: int|
            0 <= i < a.len() && 0 <= j < a[i].len() ==> f(#[trigger] a[i][j]) == f(b[i][j]),
    ensures
        grid_count(a, f) == grid_count(b, f),
    decreases a.len(),
{
    if a.len() > 0 {
        let (ra, rb) = (a.last(), b.last());
        assert(row_count(ra, f) == row_count(rb, f)) by {
            lemma_row_count_agree(ra, rb, f);
        }
        lemma_grid_count_agree(a.drop_last(), b.drop_last(), f);
    }
}

proof fn lemma_row_count_concat(a: Seq<Cell>, b: Seq<Cell>, f: spec_fn(Cell) -> bool)
    ensures
        row_count(a + b, f) == row_count(a, f) + row_count(b, f),
    decreases b.len(),
{
    if b.len() > 0 {
        assert((a + b).drop_last() =~= a + b.drop_last());
        lemma_row_count_concat(a, b.drop_last(), f);
    } else {
        assert(a + b =~= a);
    }
}

proof fn lemma_grid_count_concat(a: Seq<Seq<Cell>>, b: Seq<Seq<Cell>>, f: spec_fn(Cell) -> bool)
    ensures
        grid_count(a + b, f) == grid_count(a, f) + grid_count(b, f),
    decreases b.len(),
{
    if b.len() > 0 {
        assert((a + b).drop_last() =~= a + b.drop_last());
        lemma_grid_count_concat(a, b.drop_last(), f);
    } else {
        assert(a + b =~= a);
    }
}

proof fn lemma_grid_count_padded(g: Seq<Seq<Cell>>, w: Cell, f: spec_fn(Cell) -> bool)
    requires
        !f(w),
    ensures
        grid_count(g.map_values(|r: Seq<Cell>| seq![w] + r + seq![w]), f) == grid_count(g, f),
    decreases g.len(),
{
    if g.len() > 0 {
        let m = g.map_values(|r: Seq<Cell>| seq![w] + r + seq![w]);
        assert(m.drop_last() =~= g.drop_last().map_values(|r: Seq<Cell>| seq![w] + r + seq![w]));
        lemma_grid_count_padded(g.drop_last(), w, f);
        let r = g.last();
        lemma_row_count_concat(seq![w] + r, seq![w], f);
        lemma_row_count_concat(seq![w], r, f);
        lemma_row_count_none(seq![w], f);
    }
}

/// Surrounding a grid with cells that fail `f` leaves its count unchanged.
pub proof fn lemma_wrapped_count(g: Seq<Seq<Cell>>, w: Cell, f: spec_fn(Cell) -> bool)
    requires
        g.len() >= 1,
        !f(w),
    ensures
        grid_count(wrapped(g, w), f) == grid_count(g, f),
{
    let ring = Seq::new((g[0].len() + 2) as nat, |j: int| w);
    let m = g.map_values(|r: Seq<Cell>| seq![w] + r + seq![w]);
    assert(wrapped(g, w) == seq![ring] + m + seq![ring]);
    lemma_row_count_none(ring, f);
    assert(grid_count(seq![ring], f) == 0) by {
        assert(seq![ring].drop_last() =~= Seq::<Seq<Cell>>::empty());
        assert(grid_count(Seq::<Seq<Cell>>::empty(), f) == 0);
        assert(seq![ring].last() == ring);
    }
    lemma_grid_count_concat(seq![ring] + m, seq![ring], f);
    lemma_grid_count_concat(seq![ring], m, f);
    lemma_grid_count_padded(g, w, f);
}

/// The wrapped grid is rectangular and two cells larger each way.
pub proof fn lemma_wrapped_shape(g: Seq<Seq<Cell>>, w: Cell)
    requires
        rectangular(g),
    ensures
        rectangular(wrapped(g, w)),
        wrapped(g, w).len() == g.len() + 2,
        wrapped(g, w)[0].len() == g[0].len() + 2,
{
    let ring = Seq::new((g[0].len() + 2) as nat, |j: int| w);
    let m = g.map_values(|r: Seq<Cell>| seq![w] + r + seq![w]);
    let v = wrapped(g, w);
    assert(v == seq![ring] + m + seq![ring]);
    assert forall|i: int| 0 <= i < v.len() implies #[trigger] v[i].len() == v[0].len() by {
        if 0 < i < v.len() - 1 {
            assert(v[i] == m[i - 1]);
            assert(g[i - 1].len() == g[0].len());
        }
    }
}

/// Replacing one cell keeps the shape and changes only that cell.
pub proof fn lemma_put(g: Seq<Seq<Cell>>, c: Coord, v: Cell)
    requires
        in_bounds(g, c),
    ensures
        same_shape(put(g, c, v), g),
        rectangular(g) ==> rectangular(put(g, c, v)),
        well_shaped(g) ==> well_shaped(put(g, c, v)),
        forall|d: Coord| #[trigger] in_bounds(put(g, c, v), d) == in_bounds(g, d),
        forall|d: Coord|
            in_bounds(g, d) ==> #[trigger] at(put(g, c, v), d) == (if d == c {
                v
            } else {
                at(g, d)
            }),
{
    let h = put(g, c, v);
    if rectangular(g) {
        assert forall|i: int| 0 <= i < h.len() implies #[trigger] h[i].len() == h[0].len() by {
            assert(g[i].len() == g[0].len());
        }
    }
}

/// Inside its ring, a wrapped grid holds the original cells one step down
/// and right; on the ring it holds the wrapping cell.
pub proof fn lemma_wrapped_at(g: Seq<Seq<Cell>>, w: Cell, c: Coord)
    requires
        rectangular(g),
        (c.1 as int) < g.len() + 2,
        (c.0 as int) < g[0].len() + 2,
    ensures
        in_bounds(wrapped(g, w), c),
        at(wrapped(g, w), c) == if 1 <= c.1 <= g.len() && 1 <= c.0 <= g[0].len() {
            g[c.1 - 1][c.0 - 1]
        } else {
            w
        },
{
    let ring = Seq::new((g[0].len() + 2) as nat, |j: int| w);
    let m = g.map_values(|r: Seq<Cell>| seq![w] + r + seq![w]);
    let v = wrapped(g, w);
    assert(v == seq![ring] + m + seq![ring]);
    lemma_wrapped_shape(g, w);
    if 1 <= c.1 <= g.len() {
        assert(v[c.1 as int] == m[c.1 - 1]);
        assert(g[c.1 - 1].len() == g[0].len());
    }
}

/// A count never exceeds the number of cells.
pub proof fn lemma_grid_count_bound(g: Seq<Seq<Cell>>, f: spec_fn(Cell) -> bool)
    requires
        rectangular(g),
    ensures
        grid_count(g, f) <= g.len() * g[0].len(),
    decreases g.len(),
{
    lemma_row_count_bound(g.last(), f);
    assert(g.last().len() == g[0].len()) by {
        assert(g[g.len() - 1].len() == g[0].len());
    }
    if g.len() > 1 {
        let h = g.drop_last();
        assert(rectangular(h)) by {
            assert forall|i: int| 0 <= i < h.len() implies #[trigger] h[i].len() == h[0].len() by {
                assert(g[i].len() == g[0].len());
            }
        }
        lemma_grid_count_bound(h, f);
        assert(h.len() * h[0].len() + g[0].len() == g.len() * g[0].len()) by (nonlinear_arith)
            requires
                h.len() == g.len() - 1,
                h[0].len() == g[0].len(),
        ;
    } else {
        assert(g.drop_last() =~= Seq::<Seq<Cell>>::empty());
        assert(grid_count(Seq::<Seq<Cell>>::empty(), f) == 0);
        assert(g.len() * g[0].len() == g[0].len()) by (nonlinear_arith)
            requires
                g.len() == 1,
        ;
    }
}

proof fn lemma_row_count_bound(r: Seq<Cell>, f: spec_fn(Cell) -> bool)
    ensures
        row_count(r, f) <= r.len(),
    decreases r.len(),
{
    if r.len() > 0 {
        lemma_row_count_bound(r.drop_last(), f);
    }
}

proof fn lemma_row_count_prefix(r: Seq<Cell>, j: int, f: spec_fn(Cell) -> bool)
    requires
        0 <= j < r.len(),
    ensures
        row_count(r.take(j + 1), f) == row_count(r.take(j), f) + ind(f(r[j])),
{
    assert(r.take(j + 1).drop_last() =~= r.take(j));
}

proof fn lemma_grid_count_prefix(g: Seq<Seq<Cell>>, i: int, f: spec_fn(Cell) -> bool)
    requires
        0 <= i < g.len(),
    ensures
        grid_count(g.take(i + 1), f) == grid_count(g.take(i), f) + row_count(g[i], f),
{
    assert(g.take(i + 1).drop_last() =~= g.take(i));
}

proof fn lemma_row_count_agree(a: Seq<Cell>, b: Seq<Cell>, f: spec_fn(Cell) -> bool)
    requires
        a.len() == b.len(),
        forall|j: int| 0 <= j < a.len() ==> f(#[trigger] a[j]) == f(b[j]),
    ensures
        row_count(a, f) == row_count(b, f),
    decreases a.len(),
{
    if a.len() > 0 {
        lemma_row_count_agree(a.drop_last(), b.drop_last(), f);
    }
}

impl Grid {
    /// The number of rows and the number of columns.
    pub fn bounds(&self) -> (r: (u16, u16))
        requires
            well_shaped(self@),
        ensures
            r.0 == self@.len(),
            r.1 == self@[0].len(),
    {
        (self.0.len() as u16, self.0[0].len() as u16)
    }

    /// The cell at `c`, or `None` where `c` lies outside the grid.
    pub fn cell(&self, c: Coord) -> (r: Option<Cell>)
        ensures
            r == (if in_bounds(self@, c) {
                Some(at(self@, c))
            } else {
                None::<Cell>
            }),
    {
        let y = c.1 as usize;
        let x = c.0 as usize;
        if y < self.0.len() && x < self.0[y].len() {
            Some(self.0[y][x])
        } else {
            None
        }
    }

    /// Replaces the cell at `c`.
    pub fn set(&mut self, c: Coord, v: Cell)
        requires
            in_bounds(old(self)@, c),
        ensures
            final(self)@ == put(old(self)@, c, v),
    {
        let y = c.1 as usize;
        let x = c.0 as usize;
        self.0[y][x] = v;
        assert(final(self)@ =~= put(old(self)@, c, v));
    }

    /// The coordinates of every cell equal to `getting`, in row-major order.
    pub fn get(&self, getting: Cell) -> (r: Vec<Coord>)
        requires
            well_shaped(self@),
        ensures
            r@.len() == grid_count(self@, equal_to(getting)),
            forall|k: int|
                0 <= k < r@.len() ==> in_bounds(self@, #[trigger] r@[k]) && at(self@, r@[k])
                    == getting,
            forall|k: int, l: int|
                0 <= k < l < r@.len() ==> row_major_before(#[trigger] r@[k], #[trigger] r@[l]),
    {
        let ghost g = self@;
        let ghost f = equal_to(getting);
        let mut out: Vec<Coord> = Vec::new();
        let mut i: usize = 0;
        while i < self.0.len()
            invariant
                g == self@,
                f == equal_to(getting),
                well_shaped(g),
                i <= g.len(),
                out@.len() == grid_count(g.take(i as int), f),
                forall|k: int|
                    0 <= k < out@.len() ==> in_bounds(g, #[trigger] out@[k]) && at(g, out@[k])
                        == getting && (out@[k].1 as int) < i,
                forall|k: int, l: int|
                    0 <= k < l < out@.len() ==> row_major_before(
                        #[trigger] out@[k],
                        #[trigger] out@[l],
                    ),
            decreases g.len() - i,
        {
            let row = &self.0[i];
            let ghost base = out@.len();
            let mut j: usize = 0;
            while j < row.len()
                invariant
                    g == self@,
                    f == equal_to(getting),
                    well_shaped(g),
                    i < g.len(),
                    row@ == g[i as int],
                    j <= row@.len(),
                    base == grid_count(g.take(i as int), f),
                    out@.len() == base + row_count(row@.take(j as int), f),
                    forall|k: int|
                        0 <= k < out@.len() ==> in_bounds(g, #[trigger] out@[k]) && at(
                            g,
                            out@[k],
                        ) == getting && row_major_before(out@[k], Coord(j as u16, i as u16)),
                    forall|k: int, l: int|
                        0 <= k < l < out@.len() ==> row_major_before(
                            #[trigger] out@[k],
                            #[trigger] out@[l],
                        ),
                decreases row@.len() - j,
            {
                proof {
                    lemma_row_count_prefix(row@, j as int, f);
                    assert(f(row@[j as int]) == (row@[j as int] == getting));
                }
                if row[j] == getting {
                    out.push(Coord(j as u16, i as u16));
                }
                j += 1;
            }
            proof {
                assert(row@.take(j as int) =~= row@);
                lemma_grid_count_prefix(g, i as int, f);
            }
            i += 1;
        }
        proof {
            assert(g.take(i as int) =~= g);
        }
        out
    }

    /// How many cells equal `getting`.
    pub fn count(&self, getting: Cell) -> (r: usize)
        requires
            well_shaped(self@),
        ensures
            r == grid_count(self@, equal_to(getting)),
    {
        self.get(getting).len()
    }

    /// The first player cell in row-major order, if there is one.
    pub fn get_player(&self) -> (r: Option<Coord>)
        requires
            well_shaped(self@),
        ensures
            r is None <==> grid_count(self@, players()) == 0,
            r matches Some(c) ==> in_bounds(self@, c) && at(self@, c) is Player && forall|d: Coord|
                in_bounds(self@, d) && row_major_before(d, c) ==> !(at(self@, d) is Player),
    {
        let ghost g = self@;
        let mut i: usize = 0;
        while i < self.0.len()
            invariant
                g == self@,
                well_shaped(g),
                i <= g.len(),
                forall|y: int, x: int| 0 <= y < i && 0 <= x < g[y].len() ==> !(#[trigger] g[y][x] is Player),
            decreases g.len() - i,
        {
            let row = &self.0[i];
            let mut j: usize = 0;
            while j < row.len()
                invariant
                    g == self@,
                    well_shaped(g),
                    i < g.len(),
                    row@ == g[i as int],
                    j <= row@.len(),
                    forall|y: int, x: int| 0 <= y < i && 0 <= x < g[y].len() ==> !(#[trigger] g[y][x] is Player),
                    forall|x: int| 0 <= x < j ==> !(#[trigger] g[i as int][x] is Player),
                decreases row@.len() - j,
            {
                if let Cell::Player { .. } = row[j] {
                    let c = Coord(j as u16, i as u16);
                    proof {
                        lemma_grid_count_some(g, c, players());
                        assert forall|d: Coord|
                            in_bounds(g, d) && row_major_before(d, c) implies !(at(g, d) is Player) by {
                            if d.1 < c.1 {
                                assert(!(g[d.1 as int][d.0 as int] is Player));
                            }
                        }
                    }
                    return Some(c);
                }
                j += 1;
            }
            i += 1;
        }
        proof {
            lemma_grid_count_none(g, players());
        }
        None
    }

    /// Whether the grid has a row and all its rows have one length.
    pub fn is_rectangular(&self) -> (r: bool)
        ensures
            r == rectangular(self@),
    {
        if self.0.len() == 0 {
            return false;
        }
        let width = self.0[0].len();
        let mut i: usize = 1;
        while i < self.0.len()
            invariant
                1 <= i <= self@.len(),
                width == self@[0].len(),
                forall|k: int| 0 <= k < i ==> #[trigger] self@[k].len() == width,
            decreases self@.len() - i,
        {
            if self.0[i].len() != width {
                assert(self@[i as int].len() != self@[0].len());
                return false;
            }
            i += 1;
        }
        true
    }

    /// How many player cells the grid holds.
    pub fn player_count(&self) -> (r: usize)
        requires
            well_shaped(self@),
        ensures
            r == grid_count(self@, players()),
    {
        let ghost g = self@;
        let ghost f = players();
        proof {
            lemma_grid_count_bound(g, f);
            assert(g.len() * g[0].len() <= 65535 * 65535) by (nonlinear_arith)
                requires
                    g.len() <= 65535,
                    g[0].len() <= 65535,
            ;
        }
        let mut n: usize = 0;
        let mut i: usize = 0;
        while i < self.0.len()
            invariant
                g == self@,
                f == players(),
                well_shaped(g),
                i <= g.len(),
                n == grid_count(g.take(i as int), f),
                grid_count(g, f) <= 65535 * 65535,
            decreases g.len() - i,
        {
            let row = &self.0[i];
            let ghost base = n;
            proof {
                lemma_grid_count_prefix(g, i as int, f);
                assert(g.take(i as int + 1) + g.skip(i as int + 1) =~= g);
                lemma_grid_count_concat(g.take(i as int + 1), g.skip(i as int + 1), f);
            }
            let mut j: usize = 0;
            while j < row.len()
                invariant
                    g == self@,
                    f == players(),
                    well_shaped(g),
                    i < g.len(),
                    row@ == g[i as int],
                    j <= row@.len(),
                    base == grid_count(g.take(i as int), f),
                    base + row_count(row@, f) <= 65535 * 65535,
                    n == base + row_count(row@.take(j as int), f),
                decreases row@.len() - j,
            {
                proof {
                    lemma_row_count_prefix(row@, j as int, f);
                    assert(row@.take(j as int + 1) + row@.skip(j as int + 1) =~= row@);
                    lemma_row_count_concat(row@.take(j as int + 1), row@.skip(j as int + 1), f);
                }
                if let Cell::Player { .. } = row[j] {
                    n += 1;
                }
                j += 1;
            }
            proof {
                assert(row@.take(j as int) =~= row@);
            }
            i += 1;
        }
        proof {
            assert(g.take(i as int) =~= g);
        }
        n
    }

    /// Surrounds the grid with a ring of `with`, one cell thick.
    pub fn wrap(&mut self, with: Cell)
        requires
            rectangular(old(self)@),
            old(self)@[0].len() + 2 <= usize::MAX,
            old(self)@.len() + 2 <= usize::MAX,
        ensures
            final(self)@ == wrapped(old(self)@, with),
    {
        let g = Ghost(self@);
        let width = self.0[0].len() + 2;
        let mut ring: Vec<Cell> = Vec::new();
        let mut j: usize = 0;
        while j < width
            invariant
                j <= width,
                ring@ =~= Seq::new(j as nat, |k: int| with),
            decreases width - j,
        {
            ring.push(with);
            j += 1;
        }
        let mut out: Vec<Vec<Cell>> = Vec::new();
        out.push(ring.clone());
        let mut i: usize = 0;
        while i < self.0.len()
            invariant
                self@ == g@,
                rectangular(g@),
                i <= g@.len(),
                width == g@[0].len() + 2,
                ring@ =~= Seq::new(width as nat, |k: int| with),
                out@.len() == i + 1,
                out@[0]@ == ring@,
                forall|k: int|
                    0 <= k < i ==> (#[trigger] out@[k + 1])@ == seq![with] + g@[k] + seq![with],
            decreases g@.len() - i,
        {
            let mut row: Vec<Cell> = Vec::new();
            row.push(with);
            let mut k: usize = 0;
            while k < self.0[i].len()
                invariant
                    self@ == g@,
                    i < g@.len(),
                    k <= g@[i as int].len(),
                    row@ =~= seq![with] + g@[i as int].take(k as int),
                decreases g@[i as int].len() - k,
            {
                row.push(self.0[i][k]);
                k += 1;
            }
            row.push(with);
            assert(g@[i as int].take(k as int) =~= g@[i as int]);
            out.push(row);
            i += 1;
        }
        out.push(ring);
        self.0 = out;
        assert(self@ =~= wrapped(g@, with)) by {
            let w = wrapped(g@, with);
            assert(w.len() == g@.len() + 2);
            assert forall|k: int| 0 <= k < w.len() implies #[trigger] self@[k] == w[k] by {
                let ring_s = Seq::new((g@[0].len() + 2) as nat, |j: int| with);
                let mid = g@.map_values(|r: Seq<Cell>| seq![with] + r + seq![with]);
                assert(w == seq![ring_s] + mid + seq![ring_s]);
                assert(self@[k] == out@[k]@);
                if k == 0 {
                    assert(w[k] == ring_s);
                } else if k == w.len() - 1 {
                    assert(w[k] == ring_s);
                } else {
                    assert(w[k] == mid[k - 1]);
                    assert(out@[(k - 1) + 1]@ == seq![with] + g@[k - 1] + seq![with]);
                }
            }
        }
    }
}

} // verus!
