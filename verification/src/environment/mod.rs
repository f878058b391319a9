//! Storage and lookup of the boundary conditions (the environment).

pub mod accesser;
pub mod bisection;
pub mod fields;
pub mod grid;
pub mod surfaces;

use self::fields::Fields;
use self::surfaces::Surfaces;
use crate::errors::SearchError;
use bisection::{
    find_left_closest, find_right_closest, left_closest, lemma_closest_enclose, outside_span,
    right_closest, runs_upwards, scan_left_closest, scan_right_closest, sorted,
};
use vstd::prelude::*;

verus! {

/// The environment: the buffered boundary conditions on levels and at the
/// surface, ready for lookup. `S` is the record of a cell of a surface
/// field, `F` the record of a cell of a field on levels.
pub struct Environment<S, F> {
    pub fields: Fields<F>,
    pub surfaces: Surfaces<S>,
}

impl<S, F> Environment<S, F> {
    /// Puts the environment together from its two parts.
    pub fn new(fields: Fields<F>, surfaces: Surfaces<S>) -> (environment: Self)
        ensures
            environment.fields == fields,
            environment.surfaces == surfaces,
    {
        Environment { fields, surfaces }
    }
}

/// The four edges of a window on the source grid: as geographic coordinates
/// (or their order keys) while the window is laid out, as indices on the
/// axes of the source grid once it is found.
///
/// The first index on the latitude axis is the northernmost, so an index
/// window has `north` at most `south`. On the longitude axis the window may
/// wrap across the seam of the grid: then `west` is larger than `east`, and
/// the window runs from `west` to the end of the axis and on from its start
/// to `east`.
#[derive(Copy, Clone, Debug, PartialEq, PartialOrd, Default)]
pub struct DomainExtent<T> {
    pub north: T,
    pub south: T,
    pub west: T,
    pub east: T,
}

impl DomainExtent<usize> {
    /// The window wraps across the seam of the longitude axis.
    pub open spec fn wraps(&self) -> bool {
        self.west > self.east
    }

    /// The window lies on a grid with `nx` longitudes and `ny` latitudes.
    pub open spec fn within(&self, nx: int, ny: int) -> bool {
        &&& self.north <= self.south < ny
        &&& self.west < nx
        &&& self.east < nx
    }

    /// Number of longitudes in the window on an axis of `nx` longitudes.
    pub open spec fn lon_span(&self, nx: int) -> int {
        if self.wraps() {
            nx - self.west + self.east + 1
        } else {
            self.east - self.west + 1
        }
    }

    /// Number of latitudes in the window.
    pub open spec fn lat_span(&self) -> int {
        self.south - self.north + 1
    }

    /// Index on the source axis of the `i`-th longitude of the window.
    pub open spec fn source_lon(&self, nx: int, i: int) -> int {
        if self.west + i < nx {
            self.west + i
        } else {
            self.west + i - nx
        }
    }

    /// Index on the source axis of the `j`-th latitude of the window.
    pub open spec fn source_lat(&self, j: int) -> int {
        self.north + j
    }

    /// Tells whether the window lies on a grid of the given shape.
    pub fn is_within(&self, shape: (usize, usize)) -> (b: bool)
        ensures
            b == self.within(shape.0 as int, shape.1 as int),
    {
        self.north <= self.south && self.south < shape.1 && self.west < shape.0 && self.east
            < shape.0
    }

    /// The indices on the source axis of the longitudes of the window, from
    /// west to east. This is the one place that splits a window at the seam.
    pub fn lon_indices(&self, nx: usize) -> (indices: Vec<usize>)
        requires
            self.west < nx,
            self.east < nx,
        ensures
            indices@.len() == self.lon_span(nx as int),
            forall|i: int|
                0 <= i < indices@.len() ==> #[trigger] indices@[i] == self.source_lon(
                    nx as int,
                    i,
                ) && indices@[i] < nx,
    {
        let mut indices: Vec<usize> = Vec::new();
        if self.west > self.east {
            let mut i: usize = self.west;
            while i < nx
                invariant
                    self.west <= i <= nx,
                    self.east < self.west < nx,
                    indices@.len() == i - self.west,
                    forall|a: int|
                        0 <= a < indices@.len() ==> #[trigger] indices@[a] == self.source_lon(
                            nx as int,
                            a,
                        ) && indices@[a] < nx,
                decreases nx - i,
            {
                indices.push(i);
                i += 1;
            }
            let mut i: usize = 0;
            while i <= self.east
                invariant
                    i <= self.east + 1,
                    self.east < self.west < nx,
                    indices@.len() == nx - self.west + i,
                    forall|a: int|
                        0 <= a < indices@.len() ==> #[trigger] indices@[a] == self.source_lon(
                            nx as int,
                            a,
                        ) && indices@[a] < nx,
                decreases self.east + 1 - i,
            {
                indices.push(i);
                i += 1;
            }
        } else {
            let mut i: usize = self.west;
            while i <= self.east
                invariant
                    self.west <= i <= self.east + 1,
                    self.west <= self.east < nx,
                    indices@.len() == i - self.west,
                    forall|a: int|
                        0 <= a < indices@.len() ==> #[trigger] indices@[a] == self.west + a
                            && indices@[a] < nx,
                decreases self.east + 1 - i,
            {
                indices.push(i);
                i += 1;
            }
        }
        indices
    }

    /// The indices on the source axis of the latitudes of the window, from
    /// north to south.
    pub fn lat_indices(&self, ny: usize) -> (indices: Vec<usize>)
        requires
            self.north <= self.south < ny,
        ensures
            indices@.len() == self.lat_span(),
            forall|j: int|
                0 <= j < indices@.len() ==> #[trigger] indices@[j] == self.source_lat(j)
                    && indices@[j] < ny,
    {
        let mut indices: Vec<usize> = Vec::new();
        let mut j: usize = self.north;
        while j <= self.south
            invariant
                self.north <= j <= self.south + 1,
                self.south < ny,
                indices@.len() == j - self.north,
                forall|a: int|
                    0 <= a < indices@.len() ==> #[trigger] indices@[a] == self.north + a
                        && indices@[a] < ny,
            decreases self.south + 1 - j,
        {
            indices.push(j);
            j += 1;
        }
        indices
    }
}

/// Finds the closest indices on the axes of the source grid that fully
/// cover a window given by the order keys of its edges (that is, with some
/// excess).
///
/// `distinct_lonlats` holds the keys of the distinct longitudes and of the
/// distinct latitudes of the source grid. The northern and western edges are
/// searched to the left, the southern and eastern edges to the right, the
/// latitudes first. The first search that fails gives the error.
pub fn find_extent_edge_indices(
    distinct_lonlats: &(Vec<i64>, Vec<i64>),
    domain_extent: DomainExtent<i64>,
) -> (r: Result<DomainExtent<usize>, SearchError>)
    ensures
        r.is_ok() <==> {
            &&& distinct_lonlats.0@.len() > 0
            &&& distinct_lonlats.1@.len() > 0
            &&& !outside_span(distinct_lonlats.1@, domain_extent.north)
            &&& !outside_span(distinct_lonlats.1@, domain_extent.south)
            &&& !outside_span(distinct_lonlats.0@, domain_extent.west)
            &&& !outside_span(distinct_lonlats.0@, domain_extent.east)
        },
        r == Err::<DomainExtent<usize>, SearchError>(SearchError::EmptyArray) <==> {
            ||| distinct_lonlats.1@.len() == 0
            ||| (distinct_lonlats.0@.len() == 0 && !outside_span(
                distinct_lonlats.1@,
                domain_extent.north,
            ) && !outside_span(distinct_lonlats.1@, domain_extent.south))
        },
        r matches Ok(edges) ==> {
            &&& edges.north < distinct_lonlats.1@.len()
            &&& edges.south < distinct_lonlats.1@.len()
            &&& edges.west < distinct_lonlats.0@.len()
            &&& edges.east < distinct_lonlats.0@.len()
            &&& left_closest(distinct_lonlats.1@, domain_extent.north, edges.north as int)
            &&& right_closest(distinct_lonlats.1@, domain_extent.south, edges.south as int)
            &&& left_closest(distinct_lonlats.0@, domain_extent.west, edges.west as int)
            &&& right_closest(distinct_lonlats.0@, domain_extent.east, edges.east as int)
        },
        r matches Ok(edges) ==> (sorted(distinct_lonlats.1@) ==> edges.north == scan_left_closest(
            distinct_lonlats.1@,
            domain_extent.north,
        ) && edges.south == scan_right_closest(distinct_lonlats.1@, domain_extent.south)),
        r matches Ok(edges) ==> (sorted(distinct_lonlats.0@) ==> edges.west == scan_left_closest(
            distinct_lonlats.0@,
            domain_extent.west,
        ) && edges.east == scan_right_closest(distinct_lonlats.0@, domain_extent.east)),
{
    let lons: &[i64] = distinct_lonlats.0.as_slice();
    let lats: &[i64] = distinct_lonlats.1.as_slice();
    let north: usize = match find_left_closest(lats, &domain_extent.north) {
        Ok(i) => i,
        Err(e) => {
            return Err(e);
        },
    };
    let south: usize = match find_right_closest(lats, &domain_extent.south) {
        Ok(i) => i,
        Err(e) => {
            return Err(e);
        },
    };
    let west: usize = match find_left_closest(lons, &domain_extent.west) {
        Ok(i) => i,
        Err(e) => {
            return Err(e);
        },
    };
    let east: usize = match find_right_closest(lons, &domain_extent.east) {
        Ok(i) => i,
        Err(e) => {
            return Err(e);
        },
    };
    Ok(DomainExtent { north, south, west, east })
}

/// Fields on pressure levels that can be requested.
#[derive(Copy, Clone, Debug, PartialEq, Eq, PartialOrd, Ord, Hash, Structural)]
pub enum EnvFields {
    Pressure,
    Temperature,
    VirtualTemperature,
    UWind,
    VWind,
    VerticalVel,
}

/// Surface fields that can be requested.
#[derive(Copy, Clone, Debug, PartialEq, Eq, PartialOrd, Ord, Hash, Structural)]
pub enum SurfaceFields {
    Temperature,
    Dewpoint,
    Pressure,
    Height,
    UWind,
    VWind,
}

/// The edges found on sorted axes cover the window: with longitudes that
/// run upwards and latitudes that run from north to south, the gridpoint at
/// each edge lies on the edge of the window or outside it, and no gridpoint
/// lies strictly between them.
pub proof fn lemma_edges_cover_window(
    lons: Seq<i64>,
    lats: Seq<i64>,
    window: DomainExtent<i64>,
    edges: DomainExtent<usize>,
)
    requires
        sorted(lons),
        sorted(lats),
        runs_upwards(lons) || lons.len() == 1,
        !runs_upwards(lats),
        lons.len() > 0,
        lats.len() > 0,
        !outside_span(lats, window.north),
        !outside_span(lats, window.south),
        !outside_span(lons, window.west),
        !outside_span(lons, window.east),
        edges.north == scan_left_closest(lats, window.north),
        edges.south == scan_right_closest(lats, window.south),
        edges.west == scan_left_closest(lons, window.west),
        edges.east == scan_right_closest(lons, window.east),
    ensures
        edges.north < lats.len(),
        edges.south < lats.len(),
        edges.west < lons.len(),
        edges.east < lons.len(),
        lats[edges.north as int] >= window.north,
        lats[edges.south as int] <= window.south,
        lons[edges.west as int] <= window.west,
        lons[edges.east as int] >= window.east,
        forall|j: int|
            0 <= j < lats.len() ==> !(window.north < #[trigger] lats[j] < lats[edges.north as int])
                && !(lats[edges.south as int] < lats[j] < window.south),
        forall|i: int|
            0 <= i < lons.len() ==> !(lons[edges.west as int] < #[trigger] lons[i] < window.west)
                && !(window.east < lons[i] < lons[edges.east as int]),
{
    lemma_closest_enclose(lats, window.north);
    lemma_closest_enclose(lats, window.south);
    lemma_closest_enclose(lons, window.west);
    lemma_closest_enclose(lons, window.east);
}

} // verus!
