//! Buffering of the data at the surface: the decoded values are laid out as
//! grids and cut to the window that covers the domain and its margins.

use super::bisection::{is_sorted, sorted};
use super::fields::cast_lonlat_fields_coords;
use super::grid::Grid2;
use super::{DomainExtent, SurfaceFields};
use crate::errors::InputError;
use vstd::prelude::*;

verus! {

/// The environment at the surface, as the field accessor needs it: the axes
/// of the buffered grid and for each field the record of every cell.
///
/// The axes are held as order keys. A cell lies between neighbouring
/// gridpoints, so the records form grids that are one shorter than the
/// gridpoints along each axis.
pub struct Surfaces<C> {
    pub(crate) lons: Vec<i64>,
    pub(crate) lats: Vec<i64>,
    pub(crate) temperature: Grid2<C>,
    pub(crate) dewpoint: Grid2<C>,
    pub(crate) pressure: Grid2<C>,
    pub(crate) height: Grid2<C>,
    pub(crate) u_wind: Grid2<C>,
    pub(crate) v_wind: Grid2<C>,
}

/// The grid of records has one cell between each pair of neighbouring
/// gridpoints on the two axes.
pub open spec fn cells_between<C>(records: Grid2<C>, lons: Seq<i64>, lats: Seq<i64>) -> bool {
    records.nx() + 1 == lons.len() && records.ny() + 1 == lats.len()
}

/// Tells whether the grid of records has one cell between each pair of
/// neighbouring gridpoints on the two axes.
pub fn has_cells_between<C>(records: &Grid2<C>, lons: &Vec<i64>, lats: &Vec<i64>) -> (b: bool)
    ensures
        b == cells_between(*records, lons@, lats@),
{
    let cells: (usize, usize) = records.shape();
    lons.len() >= 1 && lats.len() >= 1 && cells.0 == lons.len() - 1 && cells.1 == lats.len() - 1
}

/// Every grid of records has the cells of the two axes.
pub open spec fn surface_shapes_fit<C>(
    lons: Seq<i64>,
    lats: Seq<i64>,
    temperature: Grid2<C>,
    dewpoint: Grid2<C>,
    pressure: Grid2<C>,
    height: Grid2<C>,
    u_wind: Grid2<C>,
    v_wind: Grid2<C>,
) -> bool {
    &&& cells_between(temperature, lons, lats)
    &&& cells_between(dewpoint, lons, lats)
    &&& cells_between(pressure, lons, lats)
    &&& cells_between(height, lons, lats)
    &&& cells_between(u_wind, lons, lats)
    &&& cells_between(v_wind, lons, lats)
}

impl<C> Surfaces<C> {
    #[verifier::type_invariant]
    pub(crate) open spec fn well_formed(self) -> bool {
        self.valid()
    }

    /// What every value of the type fulfils: sorted axes, and grids of
    /// records that fit the gridpoints.
    pub open(crate) spec fn valid(&self) -> bool {
        &&& sorted(self.lons@)
        &&& sorted(self.lats@)
        &&& forall|field: SurfaceFields|
            cells_between(#[trigger] self.records(field), self.lons@, self.lats@)
    }

    /// Order keys of the longitudes of the gridpoints, along the first axis.
    pub open(crate) spec fn lons(&self) -> Seq<i64> {
        self.lons@
    }

    /// Order keys of the latitudes of the gridpoints, along the second axis.
    pub open(crate) spec fn lats(&self) -> Seq<i64> {
        self.lats@
    }

    /// The records of the cells for one field.
    pub open(crate) spec fn records(&self, field: SurfaceFields) -> Grid2<C> {
        match field {
            SurfaceFields::Temperature => self.temperature,
            SurfaceFields::Dewpoint => self.dewpoint,
            SurfaceFields::Pressure => self.pressure,
            SurfaceFields::Height => self.height,
            SurfaceFields::UWind => self.u_wind,
            SurfaceFields::VWind => self.v_wind,
        }
    }

    /// Puts the buffered environment at the surface together.
    ///
    /// Fails with `IncorrectShape` unless every grid of records is one
    /// shorter than the gridpoints along each axis, and with
    /// `DataNotSufficient` unless the axes are sorted.
    pub fn new(
        lons: Vec<i64>,
        lats: Vec<i64>,
        temperature: Grid2<C>,
        dewpoint: Grid2<C>,
        pressure: Grid2<C>,
        height: Grid2<C>,
        u_wind: Grid2<C>,
        v_wind: Grid2<C>,
    ) -> (r: Result<Self, InputError>)
        ensures
            r.is_ok() <==> {
                &&& surface_shapes_fit(
                    lons@,
                    lats@,
                    temperature,
                    dewpoint,
                    pressure,
                    height,
                    u_wind,
                    v_wind,
                )
                &&& sorted(lons@)
                &&& sorted(lats@)
            },
            r matches Err(InputError::IncorrectShape) <==> !surface_shapes_fit(
                lons@,
                lats@,
                temperature,
                dewpoint,
                pressure,
                height,
                u_wind,
                v_wind,
            ),
            r matches Err(e) ==> e is IncorrectShape || e is DataNotSufficient,
            r matches Ok(surfaces) ==> {
                &&& surfaces.valid()
                &&& surfaces.lons() == lons@
                &&& surfaces.lats() == lats@
                &&& surfaces.records(SurfaceFields::Temperature) == temperature
                &&& surfaces.records(SurfaceFields::Dewpoint) == dewpoint
                &&& surfaces.records(SurfaceFields::Pressure) == pressure
                &&& surfaces.records(SurfaceFields::Height) == height
                &&& surfaces.records(SurfaceFields::UWind) == u_wind
                &&& surfaces.records(SurfaceFields::VWind) == v_wind
            },
    {
        if !has_cells_between(&temperature, &lons, &lats) || !has_cells_between(
            &dewpoint,
            &lons,
            &lats,
        ) || !has_cells_between(&pressure, &lons, &lats) || !has_cells_between(
            &height,
            &lons,
            &lats,
        ) || !has_cells_between(&u_wind, &lons, &lats) || !has_cells_between(
            &v_wind,
            &lons,
            &lats,
        ) {
            return Err(InputError::IncorrectShape);
        }
        if !is_sorted(lons.as_slice()) || !is_sorted(lats.as_slice()) {
            return Err(
                InputError::DataNotSufficient("Coordinates of the gridpoints are not sorted"),
            );
        }
        Ok(Surfaces { lons, lats, temperature, dewpoint, pressure, height, u_wind, v_wind })
    }
}

/// Lays the values of one surface variable out as a grid with the first
/// axis from west to east.
///
/// `data_level` holds the values of the message that carries the variable,
/// or nothing if no message does. The values come row by row, a row running
/// from west to east, so the value at the gridpoint `(i, j)` stands at
/// `j * shape.0 + i`.
///
/// Fails with `DataNotSufficient` if there is no message, and with
/// `IncorrectShape` unless the message holds exactly one value for each
/// gridpoint.
pub fn read_raw_surface<T: Copy>(data_level: Option<Vec<T>>, shape: (usize, usize)) -> (r: Result<
    Grid2<T>,
    InputError,
>)
    ensures
        data_level.is_none() ==> (r matches Err(InputError::DataNotSufficient(text)) && text@
            == "Not enough data on surface levels, check your input data"@),
        data_level matches Some(values) ==> {
            &&& r.is_ok() <==> values@.len() == shape.0 * shape.1
            &&& r matches Err(e) ==> e == InputError::IncorrectShape
            &&& r matches Ok(g) ==> {
                &&& g.wf()
                &&& g.nx() == shape.0
                &&& g.ny() == shape.1
                &&& forall|i: int, j: int|
                    g.holds(i, j) ==> g.at(i, j) == values@[super::grid::offset2(
                        shape.0 as int,
                        j,
                        i,
                    )]
            }
        },
{
    let values: Vec<T> = match data_level {
        Some(values) => values,
        None => {
            return Err(
                InputError::DataNotSufficient(
                    "Not enough data on surface levels, check your input data",
                ),
            );
        },
    };
    assert(shape.1 * shape.0 == shape.0 * shape.1) by (nonlinear_arith);
    match Grid2::from_shape_vec((shape.1, shape.0), values) {
        Ok(rows) => Ok(rows.transposed()),
        Err(e) => Err(e),
    }
}

/// Truncates a surface field that covers the whole source grid to the
/// window that covers the domain and its margins. The cell `(i, j)` of the
/// result is the cell of the source that lies `i` longitudes east of the
/// western edge, across the seam where the window wraps, and `j` latitudes
/// south of the northern edge.
pub fn truncate_surface_to_extent<T: Copy>(
    raw_field: &Grid2<T>,
    domain_edges: DomainExtent<usize>,
) -> (r: Grid2<T>)
    requires
        domain_edges.within(raw_field.nx() as int, raw_field.ny() as int),
    ensures
        r.wf(),
        r.nx() == domain_edges.lon_span(raw_field.nx() as int),
        r.ny() == domain_edges.lat_span(),
        forall|i: int, j: int|
            r.holds(i, j) ==> r.at(i, j) == raw_field.at(
                domain_edges.source_lon(raw_field.nx() as int, i),
                domain_edges.source_lat(j),
            ),
{
    let shape: (usize, usize) = raw_field.shape();
    let xs: Vec<usize> = domain_edges.lon_indices(shape.0);
    let ys: Vec<usize> = domain_edges.lat_indices(shape.1);
    raw_field.select(xs.as_slice(), ys.as_slice())
}

/// Buffers longitudes and latitudes of the surface gridpoints in the
/// window. The surface shares its grid with the levels above it, so the
/// coordinates are cut and spread in the same way.
pub fn cast_lonlat_surface_coords<T: Copy>(
    distinct_lonlats: &(Vec<T>, Vec<T>),
    domain_edges: DomainExtent<usize>,
) -> (coords: (Grid2<T>, Grid2<T>))
    requires
        domain_edges.within(distinct_lonlats.0@.len() as int, distinct_lonlats.1@.len() as int),
    ensures
        coords.0.wf(),
        coords.1.wf(),
        coords.0.nx() == domain_edges.lon_span(distinct_lonlats.0@.len() as int),
        coords.0.ny() == domain_edges.lat_span(),
        coords.1.nx() == coords.0.nx(),
        coords.1.ny() == coords.0.ny(),
        forall|i: int, j: int|
            coords.0.holds(i, j) ==> coords.0.at(i, j) == distinct_lonlats.0@[domain_edges.source_lon(
                distinct_lonlats.0@.len() as int,
                i,
            )],
        forall|i: int, j: int|
            coords.1.holds(i, j) ==> coords.1.at(i, j)
                == distinct_lonlats.1@[domain_edges.source_lat(j)],
{
    cast_lonlat_fields_coords(distinct_lonlats, domain_edges)
}

} // verus!
