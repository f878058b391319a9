//! Buffering of the data on pressure levels: the decoded messages are put in
//! the order of their levels, laid out as grids and cut to the window that
//! covers the domain and its margins.

use super::bisection::{is_sorted, sorted};
use super::grid::{lemma_offset2, lemma_offset3, offset2, pick, Grid2, Grid3};
use super::{DomainExtent, EnvFields};
use crate::errors::InputError;
use rustc_hash::FxHashSet;
use vstd::prelude::*;

verus! {

/// The hasher of `rustc_hash`, carried through as the parameter of its hash
/// set. Nothing is claimed of it here.
#[verifier::external_type_specification]
#[verifier::external_body]
pub struct ExFxHasher(rustc_hash::FxHasher);

/// The builder that makes a hasher by `Default`, carried through as the
/// parameter of the hash set. Nothing is claimed of it here.
#[verifier::external_type_specification]
#[verifier::external_body]
#[verifier::reject_recursive_types(H)]
pub struct ExBuildHasherDefault<H>(core::hash::BuildHasherDefault<H>);

/// `HashSet::insert` on the set of `rustc_hash`: afterwards the set holds
/// the identifier beside what it held before. Whether it was new is not
/// handed on.
#[verifier::external_body]
fn insert_level(unique_levels: &mut FxHashSet<i64>, id: i64)
    ensures
        final(unique_levels)@ == old(unique_levels)@.insert(id),
{
    unique_levels.insert(id);
}

/// `HashSet::into_iter` collected into a vector: every identifier of the set
/// once and no other. The order in which the set is walked is left open.
#[verifier::external_body]
fn collect_levels(unique_levels: FxHashSet<i64>) -> (ids: Vec<i64>)
    ensures
        ids@.no_duplicates(),
        ids@.to_set() == unique_levels@,
{
    unique_levels.into_iter().collect()
}

/// Each element is larger than every element after it.
pub open spec fn strictly_descending(s: Seq<i64>) -> bool {
    forall|p: int, q: int| 0 <= p < q < s.len() ==> s[p] > s[q]
}

/// Gets the list of unique levels among the level identifiers of the given
/// messages, the largest identifier first.
pub fn list_levels(ids: &[i64]) -> (levels: Vec<i64>)
    ensures
        strictly_descending(levels@),
        levels@.to_set() == ids@.to_set(),
{
    let mut unique_levels: FxHashSet<i64> = FxHashSet::default();
    let mut m: usize = 0;
    while m < ids.len()
        invariant
            m <= ids@.len(),
            unique_levels@ == ids@.take(m as int).to_set(),
        decreases ids@.len() - m,
    {
        insert_level(&mut unique_levels, ids[m]);
        proof {
            let shorter = ids@.take(m as int);
            let longer = ids@.take(m + 1);
            assert(longer == shorter.push(ids@[m as int]));
            assert forall|x: i64| longer.to_set().contains(x) <==> shorter.to_set().insert(
                ids@[m as int],
            ).contains(x) by {
                if longer.contains(x) {
                    let p = choose|p: int| 0 <= p < longer.len() && longer[p] == x;
                    if p < m {
                        assert(shorter[p] == x);
                    }
                }
                if shorter.contains(x) {
                    let p = choose|p: int| 0 <= p < shorter.len() && shorter[p] == x;
                    assert(longer[p] == x);
                }
                assert(longer[m as int] == ids@[m as int]);
            }
            assert(longer.to_set() == shorter.to_set().insert(ids@[m as int]));
        }
        m += 1;
    }
    assert(ids@.take(ids@.len() as int) == ids@);
    let unique: Vec<i64> = collect_levels(unique_levels);
    let count: usize = unique.len();
    let order: Vec<usize> = level_order(unique.as_slice());
    let levels: Vec<i64> = pick(unique.as_slice(), order.as_slice());
    proof {
        assert forall|p: int, q: int| 0 <= p < q < levels@.len() implies levels@[p]
            > levels@[q] by {
            assert(comes_before(unique@, order@[p] as int, order@[q] as int));
        }
        assert forall|x: i64| levels@.to_set().contains(x) <==> unique@.to_set().contains(x) by {
            if levels@.contains(x) {
                let p = choose|p: int| 0 <= p < levels@.len() && levels@[p] == x;
                assert(unique@[order@[p] as int] == x);
            }
            if unique@.contains(x) {
                let a = choose|a: int| 0 <= a < unique@.len() && unique@[a] == x;
                assert(a < count);
                let place: usize = a as usize;
                assert(order@.contains(place));
                let p = choose|p: int| 0 <= p < order@.len() && order@[p] == place;
                assert(levels@[p] == unique@[order@[p] as int]);
            }
        }
        assert(levels@.to_set() == unique@.to_set());
    }
    levels
}

/// The environment on levels above ground (pressure levels), as the field
/// accessor needs it: the axes of the buffered grid, the height of every
/// gridpoint on every level, and for each field the record of every cell.
///
/// The axes and the heights are held as order keys. A cell lies between
/// neighbouring gridpoints, so the records form grids that are one shorter
/// than the gridpoints along each axis. What a record holds, the
/// coefficients of the polynomial fitted to the cell, is no concern of the
/// core.
pub struct Fields<C> {
    pub(crate) lons: Vec<i64>,
    pub(crate) lats: Vec<i64>,
    pub(crate) height: Grid3<i64>,
    pub(crate) pressure: Grid3<C>,
    pub(crate) temperature: Grid3<C>,
    pub(crate) virtual_temp: Grid3<C>,
    pub(crate) u_wind: Grid3<C>,
    pub(crate) v_wind: Grid3<C>,
    pub(crate) vertical_vel: Grid3<C>,
}

/// The heights above one place of a grid, lowest level first.
pub open spec fn heights_above(height: Grid3<i64>, i: int, j: int) -> Seq<i64> {
    Seq::new(height.nl(), |k: int| height.at(k, i, j))
}

/// Above every place of the grid the heights are sorted.
pub open spec fn columns_sorted(height: Grid3<i64>) -> bool {
    forall|i: int, j: int|
        0 <= i < height.nx() && 0 <= j < height.ny() ==> sorted(
            #[trigger] heights_above(height, i, j),
        )
}

/// The grid of records has one cell between each pair of neighbouring
/// gridpoints of the grid of heights.
pub open spec fn cells_of<C>(records: Grid3<C>, height: Grid3<i64>) -> bool {
    &&& records.nl() + 1 == height.nl()
    &&& records.nx() + 1 == height.nx()
    &&& records.ny() + 1 == height.ny()
}

/// The heights fit the axes, and every grid of records has the cells of the
/// grid of heights.
pub open spec fn shapes_fit<C>(
    lons: Seq<i64>,
    lats: Seq<i64>,
    height: Grid3<i64>,
    pressure: Grid3<C>,
    temperature: Grid3<C>,
    virtual_temp: Grid3<C>,
    u_wind: Grid3<C>,
    v_wind: Grid3<C>,
    vertical_vel: Grid3<C>,
) -> bool {
    &&& height.nx() == lons.len()
    &&& height.ny() == lats.len()
    &&& cells_of(pressure, height)
    &&& cells_of(temperature, height)
    &&& cells_of(virtual_temp, height)
    &&& cells_of(u_wind, height)
    &&& cells_of(v_wind, height)
    &&& cells_of(vertical_vel, height)
}

impl<C> Fields<C> {
    #[verifier::type_invariant]
    pub(crate) open spec fn well_formed(self) -> bool {
        self.valid()
    }

    /// What every value of the type fulfils: sorted axes and heights, and
    /// grids of records that fit the gridpoints.
    pub open(crate) spec fn valid(&self) -> bool {
        &&& sorted(self.lons@)
        &&& sorted(self.lats@)
        &&& self.height.nx() == self.lons@.len()
        &&& self.height.ny() == self.lats@.len()
        &&& columns_sorted(self.height)
        &&& forall|field: EnvFields| cells_of(#[trigger] self.records(field), self.height)
    }

    /// Order keys of the longitudes of the gridpoints, along the first
    /// horizontal axis.
    pub open(crate) spec fn lons(&self) -> Seq<i64> {
        self.lons@
    }

    /// Order keys of the latitudes of the gridpoints, along the second
    /// horizontal axis.
    pub open(crate) spec fn lats(&self) -> Seq<i64> {
        self.lats@
    }

    /// Order keys of the heights of the gridpoints.
    pub open(crate) spec fn height(&self) -> Grid3<i64> {
        self.height
    }

    /// The records of the cells for one field.
    pub open(crate) spec fn records(&self, field: EnvFields) -> Grid3<C> {
        match field {
            EnvFields::Pressure => self.pressure,
            EnvFields::Temperature => self.temperature,
            EnvFields::VirtualTemperature => self.virtual_temp,
            EnvFields::UWind => self.u_wind,
            EnvFields::VWind => self.v_wind,
            EnvFields::VerticalVel => self.vertical_vel,
        }
    }

    /// Puts the buffered environment on levels together.
    ///
    /// Fails with `IncorrectShape` unless the heights fit the axes and every
    /// grid of records is one shorter than the heights along each axis, and
    /// with `DataNotSufficient` unless the axes and the heights above every
    /// place are sorted.
    pub fn new(
        lons: Vec<i64>,
        lats: Vec<i64>,
        height: Grid3<i64>,
        pressure: Grid3<C>,
        temperature: Grid3<C>,
        virtual_temp: Grid3<C>,
        u_wind: Grid3<C>,
        v_wind: Grid3<C>,
        vertical_vel: Grid3<C>,
    ) -> (r: Result<Self, InputError>)
        ensures
            r.is_ok() <==> {
                &&& shapes_fit(
                    lons@,
                    lats@,
                    height,
                    pressure,
                    temperature,
                    virtual_temp,
                    u_wind,
                    v_wind,
                    vertical_vel,
                )
                &&& sorted(lons@)
                &&& sorted(lats@)
                &&& columns_sorted(height)
            },
            r matches Err(InputError::IncorrectShape) <==> !shapes_fit(
                lons@,
                lats@,
                height,
                pressure,
                temperature,
                virtual_temp,
                u_wind,
                v_wind,
                vertical_vel,
            ),
            r matches Err(e) ==> e is IncorrectShape || e is DataNotSufficient,
            r matches Ok(fields) ==> {
                &&& fields.valid()
                &&& fields.lons() == lons@
                &&& fields.lats() == lats@
                &&& fields.height() == height
                &&& fields.records(EnvFields::Pressure) == pressure
                &&& fields.records(EnvFields::Temperature) == temperature
                &&& fields.records(EnvFields::VirtualTemperature) == virtual_temp
                &&& fields.records(EnvFields::UWind) == u_wind
                &&& fields.records(EnvFields::VWind) == v_wind
                &&& fields.records(EnvFields::VerticalVel) == vertical_vel
            },
    {
        let (nl, nx, ny) = height.shape();
        if nx != lons.len() || ny != lats.len() {
            return Err(InputError::IncorrectShape);
        }
        if !has_cells_of(&pressure, &height) || !has_cells_of(&temperature, &height)
            || !has_cells_of(&virtual_temp, &height) || !has_cells_of(&u_wind, &height)
            || !has_cells_of(&v_wind, &height) || !has_cells_of(&vertical_vel, &height) {
            return Err(InputError::IncorrectShape);
        }
        if !is_sorted(lons.as_slice()) || !is_sorted(lats.as_slice()) {
            return Err(
                InputError::DataNotSufficient("Coordinates of the gridpoints are not sorted"),
            );
        }
        let mut i: usize = 0;
        while i < nx
            invariant
                i <= nx,
                nx == height.nx(),
                ny == height.ny(),
                shapes_fit(
                    lons@,
                    lats@,
                    height,
                    pressure,
                    temperature,
                    virtual_temp,
                    u_wind,
                    v_wind,
                    vertical_vel,
                ),
                forall|a: int, b: int|
                    0 <= a < i && 0 <= b < ny ==> sorted(#[trigger] heights_above(height, a, b)),
            decreases nx - i,
        {
            let mut j: usize = 0;
            while j < ny
                invariant
                    i < nx,
                    j <= ny,
                    nx == height.nx(),
                    ny == height.ny(),
                    shapes_fit(
                        lons@,
                        lats@,
                        height,
                        pressure,
                        temperature,
                        virtual_temp,
                        u_wind,
                        v_wind,
                        vertical_vel,
                    ),
                    forall|a: int, b: int|
                        0 <= a < i && 0 <= b < ny ==> sorted(
                            #[trigger] heights_above(height, a, b),
                        ),
                    forall|b: int|
                        0 <= b < j ==> sorted(#[trigger] heights_above(height, i as int, b)),
                decreases ny - j,
            {
                let column: Vec<i64> = height.column(i, j);
                assert(column@ == heights_above(height, i as int, j as int));
                if !is_sorted(column.as_slice()) {
                    return Err(
                        InputError::DataNotSufficient("Heights of the levels are not sorted"),
                    );
                }
                j += 1;
            }
            i += 1;
        }
        Ok(
            Fields {
                lons,
                lats,
                height,
                pressure,
                temperature,
                virtual_temp,
                u_wind,
                v_wind,
                vertical_vel,
            },
        )
    }
}

/// Tells whether the grid of records has one cell between each pair of
/// neighbouring gridpoints of the grid of heights.
pub fn has_cells_of<C>(records: &Grid3<C>, height: &Grid3<i64>) -> (b: bool)
    ensures
        b == cells_of(*records, *height),
{
    let gridpoints: (usize, usize, usize) = height.shape();
    let cells: (usize, usize, usize) = records.shape();
    gridpoints.0 >= 1 && gridpoints.1 >= 1 && gridpoints.2 >= 1 && cells.0 == gridpoints.0 - 1
        && cells.1 == gridpoints.1 - 1 && cells.2 == gridpoints.2 - 1
}

/// In the order of the levels, the message at `a` comes before the one at
/// `b`: its level identifier is larger, or they are equal and it was given
/// first. Levels are identified by their pressure, so the lowest level of
/// the atmosphere comes first.
pub open spec fn comes_before(ids: Seq<i64>, a: int, b: int) -> bool {
    ids[a] > ids[b] || (ids[a] == ids[b] && a < b)
}

/// `order` lists every place of `ids` once, in the order of the levels.
pub open spec fn is_level_order(ids: Seq<i64>, order: Seq<usize>) -> bool {
    &&& order.len() == ids.len()
    &&& forall|p: int| 0 <= p < order.len() ==> order[p] < ids.len()
    &&& forall|p: int, q: int|
        0 <= p < q < order.len() ==> comes_before(ids, order[p] as int, order[q] as int)
    &&& forall|m: usize| m < ids.len() ==> order.contains(m)
}

/// Two orders of the levels of the same messages agree on their first `p`
/// places.
proof fn lemma_level_orders_agree(ids: Seq<i64>, first: Seq<usize>, second: Seq<usize>, p: int)
    requires
        is_level_order(ids, first),
        is_level_order(ids, second),
        0 <= p <= ids.len(),
    ensures
        forall|q: int| 0 <= q < p ==> first[q] == second[q],
    decreases p,
{
    if p > 0 {
        lemma_level_orders_agree(ids, first, second, p - 1);
        let a = first[p - 1];
        let b = second[p - 1];
        if a != b {
            // each of the two stands further back in the other order
            assert(second.contains(a));
            let qa = choose|q: int| 0 <= q < second.len() && second[q] == a;
            if qa < p - 1 {
                assert(first[qa] == a);
                assert(comes_before(ids, first[qa] as int, first[p - 1] as int));
            }
            assert(comes_before(ids, second[p - 1] as int, second[qa] as int));
            assert(first.contains(b));
            let qb = choose|q: int| 0 <= q < first.len() && first[q] == b;
            if qb < p - 1 {
                assert(second[qb] == b);
                assert(comes_before(ids, second[qb] as int, second[p - 1] as int));
            }
            assert(comes_before(ids, first[p - 1] as int, first[qb] as int));
        }
    }
}

/// The order of the levels is unique: messages can be put in it in one way
/// only.
pub proof fn lemma_level_order_unique(ids: Seq<i64>, first: Seq<usize>, second: Seq<usize>)
    requires
        is_level_order(ids, first),
        is_level_order(ids, second),
    ensures
        first == second,
{
    lemma_level_orders_agree(ids, first, second, ids.len() as int);
    assert(first =~= second);
}

/// Puts level identifiers in the order of the levels: returns the places of
/// `ids`, the place of the largest identifier first. Equal identifiers keep
/// the order in which they were given.
pub fn level_order(ids: &[i64]) -> (order: Vec<usize>)
    ensures
        is_level_order(ids@, order@),
{
    let mut order: Vec<usize> = Vec::new();
    let mut m: usize = 0;
    while m < ids.len()
        invariant
            m <= ids@.len(),
            order@.len() == m,
            forall|p: int| 0 <= p < order@.len() ==> order@[p] < m,
            forall|p: int, q: int|
                0 <= p < q < order@.len() ==> comes_before(
                    ids@,
                    order@[p] as int,
                    order@[q] as int,
                ),
            forall|a: usize| a < m ==> order@.contains(a),
        decreases ids@.len() - m,
    {
        let mut pos: usize = 0;
        while pos < order.len() && ids[order[pos]] >= ids[m]
            invariant
                pos <= order@.len(),
                m < ids@.len(),
                forall|p: int| 0 <= p < order@.len() ==> order@[p] < m,
                forall|p: int| 0 <= p < pos ==> ids@[order@[p] as int] >= ids@[m as int],
            decreases order@.len() - pos,
        {
            pos += 1;
        }
        let ghost before = order@;
        order.insert(pos, m);
        proof {
            assert forall|a: usize| a < m + 1 implies order@.contains(a) by {
                if a < m {
                    assert(before.contains(a));
                    let p = choose|p: int| 0 <= p < before.len() && before[p] == a;
                    if p < pos {
                        assert(order@[p] == a);
                    } else {
                        assert(order@[p + 1] == a);
                    }
                } else {
                    assert(order@[pos as int] == a);
                }
            }
            assert forall|p: int, q: int| 0 <= p < q < order@.len() implies comes_before(
                ids@,
                order@[p] as int,
                order@[q] as int,
            ) by {
                let bp = if p < pos { p } else { p - 1 };
                let bq = if q < pos { q } else { q - 1 };
                if p != pos && q != pos {
                    assert(comes_before(ids@, before[bp] as int, before[bq] as int));
                } else if p == pos {
                    // what follows the new place lies below the new level
                    if pos < bq {
                        assert(comes_before(ids@, before[pos as int] as int, before[bq] as int));
                    }
                }
            }
        }
        m += 1;
    }
    order
}

/// The level identifiers of the messages, in the order of the messages.
pub open spec fn level_ids<T>(data_levels: Seq<(i64, Vec<T>)>) -> Seq<i64> {
    Seq::new(data_levels.len(), |m: int| data_levels[m].0)
}

/// Every message holds one value for each gridpoint of a grid of the given
/// shape.
pub open spec fn all_fit<T>(data_levels: Seq<(i64, Vec<T>)>, shape: (usize, usize)) -> bool {
    forall|m: int|
        0 <= m < data_levels.len() ==> (#[trigger] data_levels[m]).1@.len() == shape.0 * shape.1
}

/// Collects data from the messages of one variable on all levels into a
/// three-dimensional grid.
///
/// A message is given by its level identifier and its values. The values
/// come row by row, a row running from west to east, so the value at the
/// gridpoint `(i, j)` of a grid with the first axis from west to east stands
/// at `j * shape.0 + i`. The levels of the result are in the order of the
/// levels, the largest identifier first.
///
/// Fails with `IncorrectShape` if there is no message, or a message does not
/// hold exactly one value for each gridpoint.
pub fn messages_to_array<T: Copy>(data_levels: &[(i64, Vec<T>)], shape: (usize, usize)) -> (r:
    Result<Grid3<T>, InputError>)
    ensures
        r.is_ok() <==> data_levels@.len() > 0 && all_fit(data_levels@, shape),
        r matches Err(e) ==> e == InputError::IncorrectShape,
        r matches Ok(g) ==> {
            &&& g.wf()
            &&& g.nl() == data_levels@.len()
            &&& g.nx() == shape.0
            &&& g.ny() == shape.1
            &&& exists|order: Seq<usize>|
                {
                    &&& is_level_order(level_ids(data_levels@), order)
                    &&& forall|k: int, i: int, j: int|
                        g.holds(k, i, j) ==> g.at(k, i, j) == data_levels@[order[k] as int].1@[offset2(
                            shape.0 as int,
                            j,
                            i,
                        )]
                }
        },
{
    let nl: usize = data_levels.len();
    let (nx, ny) = shape;
    if nl == 0 {
        return Err(InputError::IncorrectShape);
    }
    let plane: usize = match nx.checked_mul(ny) {
        Some(n) => n,
        None => {
            // no message holds as many values as such a grid has gridpoints
            let held: usize = data_levels[0].1.len();
            assert(held < nx * ny);
            return Err(InputError::IncorrectShape);
        },
    };
    let mut ids: Vec<i64> = Vec::new();
    let mut m: usize = 0;
    while m < nl
        invariant
            m <= nl,
            nl == data_levels@.len(),
            plane == nx * ny,
            shape == (nx, ny),
            ids@.len() == m,
            forall|a: int| 0 <= a < m ==> ids@[a] == data_levels@[a].0,
            forall|a: int| 0 <= a < m ==> (#[trigger] data_levels@[a]).1@.len() == plane,
        decreases nl - m,
    {
        if data_levels[m].1.len() != plane {
            return Err(InputError::IncorrectShape);
        }
        ids.push(data_levels[m].0);
        m += 1;
    }
    assert(ids@ == level_ids(data_levels@));
    let order: Vec<usize> = level_order(ids.as_slice());
    let mut data: Vec<T> = Vec::new();
    let mut k: usize = 0;
    assert(0 * nx * ny == 0) by (nonlinear_arith);
    while k < nl
        invariant
            k <= nl,
            nl == data_levels@.len(),
            plane == nx * ny,
            is_level_order(level_ids(data_levels@), order@),
            forall|a: int| 0 <= a < nl ==> (#[trigger] data_levels@[a]).1@.len() == plane,
            data@.len() == k * nx * ny,
            forall|q: int|
                0 <= q < data@.len() ==> data@[q] == data_levels@[order@[q / (ny as int) / (
                nx as int)] as int].1@[offset2(
                    nx as int,
                    q % (ny as int),
                    (q / (ny as int)) % (nx as int),
                )],
        decreases nl - k,
    {
        let values: &Vec<T> = &data_levels[order[k]].1;
        let mut i: usize = 0;
        assert(k * nx * ny == (k * nx + 0) * ny) by (nonlinear_arith);
        while i < nx
            invariant
                k < nl,
                i <= nx,
                nl == data_levels@.len(),
                plane == nx * ny,
                order@.len() == nl,
                order@[k as int] < nl,
                *values == data_levels@[order@[k as int] as int].1,
                values@.len() == plane,
                data@.len() == (k * nx + i) * ny,
                forall|q: int|
                    0 <= q < data@.len() ==> data@[q] == data_levels@[order@[q / (ny as int) / (
                    nx as int)] as int].1@[offset2(
                        nx as int,
                        q % (ny as int),
                        (q / (ny as int)) % (nx as int),
                    )],
            decreases nx - i,
        {
            let mut j: usize = 0;
            while j < ny
                invariant
                    k < nl,
                    i < nx,
                    j <= ny,
                    nl == data_levels@.len(),
                    plane == nx * ny,
                    order@.len() == nl,
                    order@[k as int] < nl,
                    *values == data_levels@[order@[k as int] as int].1,
                    values@.len() == plane,
                    data@.len() == (k * nx + i) * ny + j,
                    forall|q: int|
                        0 <= q < data@.len() ==> data@[q] == data_levels@[order@[q / (ny as int) / (
                        nx as int)] as int].1@[offset2(
                            nx as int,
                            q % (ny as int),
                            (q / (ny as int)) % (nx as int),
                        )],
                decreases ny - j,
            {
                proof {
                    lemma_offset2(ny as int, nx as int, j as int, i as int);
                    assert(ny * nx == nx * ny) by (nonlinear_arith);
                    lemma_offset3(nl as int, nx as int, ny as int, k as int, i as int, j as int);
                }
                let value: T = values[j * nx + i];
                data.push(value);
                j += 1;
            }
            proof {
                assert((k * nx + i) * ny + ny == (k * nx + (i + 1)) * ny) by (nonlinear_arith);
            }
            i += 1;
        }
        proof {
            assert((k * nx + nx) * ny == (k + 1) * nx * ny) by (nonlinear_arith);
        }
        k += 1;
    }
    match Grid3::from_shape_vec((nl, nx, ny), data) {
        Ok(g) => {
            proof {
                assert forall|k: int, i: int, j: int| g.holds(k, i, j) implies g.at(k, i, j)
                    == data_levels@[order@[k] as int].1@[offset2(nx as int, j, i)] by {
                    lemma_offset3(nl as int, nx as int, ny as int, k, i, j);
                }
            }
            Ok(g)
        },
        Err(e) => Err(e),
    }
}

/// Truncates a field on levels that covers the whole source grid to the
/// window that covers the domain and its margins. Every level is kept. The
/// cell `(k, i, j)` of the result is the cell of the source that lies `i`
/// longitudes east of the western edge, across the seam where the window
/// wraps, and `j` latitudes south of the northern edge.
pub fn truncate_field_to_extent<T: Copy>(
    raw_field: &Grid3<T>,
    domain_edges: DomainExtent<usize>,
) -> (r: Grid3<T>)
    requires
        domain_edges.within(raw_field.nx() as int, raw_field.ny() as int),
    ensures
        r.wf(),
        r.nl() == raw_field.nl(),
        r.nx() == domain_edges.lon_span(raw_field.nx() as int),
        r.ny() == domain_edges.lat_span(),
        forall|k: int, i: int, j: int|
            r.holds(k, i, j) ==> r.at(k, i, j) == raw_field.at(
                k,
                domain_edges.source_lon(raw_field.nx() as int, i),
                domain_edges.source_lat(j),
            ),
{
    let shape: (usize, usize, usize) = raw_field.shape();
    let xs: Vec<usize> = domain_edges.lon_indices(shape.1);
    let ys: Vec<usize> = domain_edges.lat_indices(shape.2);
    raw_field.select(xs.as_slice(), ys.as_slice())
}

/// Buffers longitudes and latitudes of the gridpoints in the window: cuts
/// the distinct longitudes and latitudes of the source grid to the window
/// and spreads each over a grid of the shape of the window. In the first
/// grid the cell `(i, j)` holds the `i`-th longitude of the window, in the
/// second the `j`-th latitude.
pub fn cast_lonlat_fields_coords<T: Copy>(
    distinct_lonlats: &(Vec<T>, Vec<T>),
    domain_edges: DomainExtent<usize>,
) -> (coords: (Grid2<T>, Grid2<T>))
    requires
        domain_edges.within(distinct_lonlats.0@.len() as int, distinct_lonlats.1@.len() as int),
    ensures
        coords.0.wf(),
        coords.1.wf(),
        coords.0.nx() == domain_edges.lon_span(distinct_lonlats.0@.len() as int),
        coords.0.ny() == domain_edges.lat_span(),
        coords.1.nx() == coords.0.nx(),
        coords.1.ny() == coords.0.ny(),
        forall|i: int, j: int|
            coords.0.holds(i, j) ==> coords.0.at(i, j) == distinct_lonlats.0@[domain_edges.source_lon(
                distinct_lonlats.0@.len() as int,
                i,
            )],
        forall|i: int, j: int|
            coords.1.holds(i, j) ==> coords.1.at(i, j)
                == distinct_lonlats.1@[domain_edges.source_lat(j)],
{
    let xs: Vec<usize> = domain_edges.lon_indices(distinct_lonlats.0.len());
    let ys: Vec<usize> = domain_edges.lat_indices(distinct_lonlats.1.len());
    let lons: Vec<T> = pick(distinct_lonlats.0.as_slice(), xs.as_slice());
    let lats: Vec<T> = pick(distinct_lonlats.1.as_slice(), ys.as_slice());
    let lons_grid: Grid2<T> = Grid2::along_first(lons.as_slice(), lats.len());
    let lats_grid: Grid2<T> = Grid2::along_second(lats.as_slice(), lons.len());
    (lons_grid, lats_grid)
}

/// Creates the three-dimensional grid of the pressure on the levels, of
/// the shape of the other fields in the window. On pressure levels the
/// pressure is known from the level alone, so every cell of level `k` holds
/// `levels[k]`.
pub fn read_truncated_pressure<T: Copy>(
    levels: &[T],
    domain_edges: DomainExtent<usize>,
    source_lons: usize,
) -> (r: Grid3<T>)
    requires
        domain_edges.north <= domain_edges.south < usize::MAX,
        domain_edges.west < source_lons,
        domain_edges.east < source_lons,
    ensures
        r.wf(),
        r.nl() == levels@.len(),
        r.nx() == domain_edges.lon_span(source_lons as int),
        r.ny() == domain_edges.lat_span(),
        forall|k: int, i: int, j: int| r.holds(k, i, j) ==> r.at(k, i, j) == levels@[k],
{
    let nx: usize = if domain_edges.west > domain_edges.east {
        source_lons - domain_edges.west + domain_edges.east + 1
    } else {
        domain_edges.east - domain_edges.west + 1
    };
    let ny: usize = domain_edges.south - domain_edges.north + 1;
    Grid3::level_wise(levels, nx, ny)
}

} // verus!
