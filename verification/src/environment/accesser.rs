//! Access to the boundary conditions: finds the cell of the buffered grid
//! that encloses a point and hands out the record stored for it.
//!
//! A point is given by the order keys of its geographic coordinates and of
//! its height. What is done with the record, the evaluation of the
//! polynomial at the point, is left to the caller.

use super::bisection::{
    find_left_closest, lemma_closest_enclose, lemma_scan_first_reached, scan_first_reached,
    scan_left_closest, scan_search_left, sorted,
};
use super::fields::heights_above;
use super::grid::{Grid2, Grid3};
use super::{EnvFields, Environment, SurfaceFields};
use crate::errors::{EnvironmentError, SearchError};
use vstd::prelude::*;

verus! {

/// A cell of the surface grid with the record stored for it. The indices
/// are those of the corner of the cell that comes first on each axis.
pub struct SurfaceCell<'a, S> {
    pub lon_index: usize,
    pub lat_index: usize,
    pub record: &'a S,
}

/// A cell of the grid on levels with the record stored for it. The indices
/// are those of the corner of the cell that comes first on each axis.
pub struct FieldCell<'a, F> {
    pub level_index: usize,
    pub lon_index: usize,
    pub lat_index: usize,
    pub record: &'a F,
}

/// The cell of a horizontal grid with the given axes that encloses a point,
/// or why there is none: a search along an axis fails, or the point lies on
/// the last gridpoint of an axis, where no cell begins.
pub open spec fn surface_cell_of(lons: Seq<i64>, lats: Seq<i64>, lon: i64, lat: i64) -> Result<
    (int, int),
    EnvironmentError,
> {
    match scan_search_left(lons, lon) {
        Err(e) => Err(EnvironmentError::SearchUnable(e)),
        Ok(i) => match scan_search_left(lats, lat) {
            Err(e) => Err(EnvironmentError::SearchUnable(e)),
            Ok(j) => if i == lons.len() - 1 || j == lats.len() - 1 {
                Err(EnvironmentError::SearchUnable(SearchError::OutOfBounds))
            } else {
                Ok((i, j))
            },
        },
    }
}

/// The level at or below a height in a column of heights. A height below
/// the first level of the column counts as on it, so that the first cell
/// serves for extrapolation; every other height outside the column fails.
pub open spec fn level_of(column: Seq<i64>, z: i64) -> Result<int, SearchError> {
    match scan_search_left(column, z) {
        Ok(k) => Ok(k),
        Err(SearchError::OutOfBounds) => if z < column[0] {
            Ok(0)
        } else {
            Err(SearchError::OutOfBounds)
        },
        Err(SearchError::EmptyArray) => Err(SearchError::EmptyArray),
    }
}

/// The cell of a grid on levels that encloses a point, as level, longitude
/// and latitude index, or why there is none: a search along an axis or up
/// the column of heights fails, or the point lies on the last gridpoint of
/// an axis or on the top level, where no cell begins.
pub open spec fn field_cell_of(
    lons: Seq<i64>,
    lats: Seq<i64>,
    height: Grid3<i64>,
    lon: i64,
    lat: i64,
    z: i64,
) -> Result<(int, int, int), EnvironmentError> {
    match scan_search_left(lons, lon) {
        Err(e) => Err(EnvironmentError::SearchUnable(e)),
        Ok(i) => match scan_search_left(lats, lat) {
            Err(e) => Err(EnvironmentError::SearchUnable(e)),
            Ok(j) => match level_of(heights_above(height, i, j), z) {
                Err(e) => Err(EnvironmentError::SearchUnable(e)),
                Ok(k) => if i == lons.len() - 1 || j == lats.len() - 1 || k == height.nl() - 1 {
                    Err(EnvironmentError::SearchUnable(SearchError::OutOfBounds))
                } else {
                    Ok((k, i, j))
                },
            },
        },
    }
}

impl<S, F> Environment<S, F> {
    /// Finds the cell of the surface grid that encloses the point with the
    /// given geographic coordinates and hands out the record of the given
    /// surface field for it.
    ///
    /// Fails with `SearchUnable` if the point lies outside the buffered
    /// grid or on its last gridpoint along an axis.
    pub fn get_surface_value(&self, lon: i64, lat: i64, field: SurfaceFields) -> (r: Result<
        SurfaceCell<'_, S>,
        EnvironmentError,
    >)
        ensures
            match surface_cell_of(self.surfaces.lons(), self.surfaces.lats(), lon, lat) {
                Err(e) => r == Err::<SurfaceCell<'_, S>, EnvironmentError>(e),
                Ok((i, j)) => r matches Ok(cell) && cell.lon_index == i && cell.lat_index == j
                    && self.surfaces.records(field).holds(i, j) && *cell.record
                    == self.surfaces.records(field).at(i, j),
            },
    {
        proof {
            use_type_invariant(&self.surfaces);
        }
        let west_lon_index: usize = match find_left_closest(
            self.surfaces.lons.as_slice(),
            &lon,
        ) {
            Ok(i) => i,
            Err(e) => {
                return Err(EnvironmentError::SearchUnable(e));
            },
        };
        let south_lat_index: usize = match find_left_closest(
            self.surfaces.lats.as_slice(),
            &lat,
        ) {
            Ok(j) => j,
            Err(e) => {
                return Err(EnvironmentError::SearchUnable(e));
            },
        };
        // check if indexes are not on the rightmost edge
        if west_lon_index == self.surfaces.lons.len() - 1 || south_lat_index
            == self.surfaces.lats.len() - 1 {
            return Err(EnvironmentError::SearchUnable(SearchError::OutOfBounds));
        }
        let records: &Grid2<S> = match field {
            SurfaceFields::Temperature => &self.surfaces.temperature,
            SurfaceFields::Dewpoint => &self.surfaces.dewpoint,
            SurfaceFields::Pressure => &self.surfaces.pressure,
            SurfaceFields::Height => &self.surfaces.height,
            SurfaceFields::UWind => &self.surfaces.u_wind,
            SurfaceFields::VWind => &self.surfaces.v_wind,
        };
        assert(*records == self.surfaces.records(field));
        Ok(
            SurfaceCell {
                lon_index: west_lon_index,
                lat_index: south_lat_index,
                record: records.cell(west_lon_index, south_lat_index),
            },
        )
    }

    /// Finds the cell of the grid on levels that encloses the point with
    /// the given geographic coordinates and height and hands out the record
    /// of the given field for it.
    ///
    /// A height below the lowest level above the point is taken to the
    /// lowest cell. Fails with `SearchUnable` if the point lies elsewhere
    /// outside the buffered grid, or on its last gridpoint along an axis or
    /// on its top level.
    pub fn get_field_value(&self, lon: i64, lat: i64, z: i64, field: EnvFields) -> (r: Result<
        FieldCell<'_, F>,
        EnvironmentError,
    >)
        ensures
            match field_cell_of(
                self.fields.lons(),
                self.fields.lats(),
                self.fields.height(),
                lon,
                lat,
                z,
            ) {
                Err(e) => r == Err::<FieldCell<'_, F>, EnvironmentError>(e),
                Ok((k, i, j)) => r matches Ok(cell) && cell.level_index == k && cell.lon_index == i
                    && cell.lat_index == j && self.fields.records(field).holds(k, i, j)
                    && *cell.record == self.fields.records(field).at(k, i, j),
            },
    {
        proof {
            use_type_invariant(&self.fields);
        }
        let west_lon_index: usize = match find_left_closest(self.fields.lons.as_slice(), &lon) {
            Ok(i) => i,
            Err(e) => {
                return Err(EnvironmentError::SearchUnable(e));
            },
        };
        let south_lat_index: usize = match find_left_closest(self.fields.lats.as_slice(), &lat) {
            Ok(j) => j,
            Err(e) => {
                return Err(EnvironmentError::SearchUnable(e));
            },
        };
        let z_index_search_array: Vec<i64> = self.fields.height.column(
            west_lon_index,
            south_lat_index,
        );
        assert(z_index_search_array@ == heights_above(
            self.fields.height,
            west_lon_index as int,
            south_lat_index as int,
        ));
        let z_index: usize = match find_left_closest(z_index_search_array.as_slice(), &z) {
            Ok(k) => k,
            // when searched height is below the lowest level we set the lowest
            // point to the first level for extrapolation; in all other cases
            // the error is returned
            Err(SearchError::OutOfBounds) => {
                if z < z_index_search_array[0] {
                    0
                } else {
                    return Err(EnvironmentError::SearchUnable(SearchError::OutOfBounds));
                }
            },
            Err(SearchError::EmptyArray) => {
                return Err(EnvironmentError::SearchUnable(SearchError::EmptyArray));
            },
        };
        // check if indexes are not on the rightmost edge
        if west_lon_index == self.fields.lons.len() - 1 || south_lat_index == self.fields.lats.len()
            - 1 || z_index == z_index_search_array.len() - 1 {
            return Err(EnvironmentError::SearchUnable(SearchError::OutOfBounds));
        }
        let records: &Grid3<F> = match field {
            EnvFields::Pressure => &self.fields.pressure,
            EnvFields::Temperature => &self.fields.temperature,
            EnvFields::VirtualTemperature => &self.fields.virtual_temp,
            EnvFields::UWind => &self.fields.u_wind,
            EnvFields::VWind => &self.fields.v_wind,
            EnvFields::VerticalVel => &self.fields.vertical_vel,
        };
        assert(*records == self.fields.records(field));
        Ok(
            FieldCell {
                level_index: z_index,
                lon_index: west_lon_index,
                lat_index: south_lat_index,
                record: records.cell(z_index, west_lon_index, south_lat_index),
            },
        )
    }
}

/// `x` lies between the neighbours `s[i]` and `s[i + 1]`, either of them
/// included.
pub open spec fn between_neighbours(s: Seq<i64>, i: int, x: i64) -> bool {
    &&& 0 <= i < s.len() - 1
    &&& (s[i] <= x <= s[i + 1] || s[i] >= x >= s[i + 1])
}

/// On a sorted array, the closest element at or before a target and its
/// successor, if it has one, have the target between them.
pub proof fn lemma_left_closest_begins_interval(s: Seq<i64>, x: i64)
    requires
        sorted(s),
        s.len() > 0,
        !super::bisection::outside_span(s, x),
        scan_left_closest(s, x) < s.len() - 1,
    ensures
        between_neighbours(s, scan_left_closest(s, x), x),
{
    lemma_closest_enclose(s, x);
    lemma_scan_first_reached(s, x, 0);
    let l = scan_left_closest(s, x);
    let r = scan_first_reached(s, x, 0);
    if r == l {
        // the target stands at `l`; its successor follows in the order of the array
        assert(s[l] == x);
    }
}

/// A lookup never leaves the buffered grid: the cell found for a point
/// has the point between its gridpoints along both horizontal axes, and
/// between its levels unless the point lies below the first level, where
/// the first cell serves.
pub proof fn lemma_cell_encloses_point(
    lons: Seq<i64>,
    lats: Seq<i64>,
    height: Grid3<i64>,
    lon: i64,
    lat: i64,
    z: i64,
)
    requires
        sorted(lons),
        sorted(lats),
        height.nx() == lons.len(),
        height.ny() == lats.len(),
        super::fields::columns_sorted(height),
        field_cell_of(lons, lats, height, lon, lat, z).is_ok(),
    ensures
        ({
            let (k, i, j) = field_cell_of(lons, lats, height, lon, lat, z).unwrap();
            let column = heights_above(height, i, j);
            &&& between_neighbours(lons, i, lon)
            &&& between_neighbours(lats, j, lat)
            &&& 0 <= k < height.nl() - 1
            &&& between_neighbours(column, k, z) || (k == 0 && super::bisection::outside_span(
                column,
                z,
            ) && z < column[0])
            &&& surface_cell_of(lons, lats, lon, lat) == Ok::<(int, int), EnvironmentError>((i, j))
        }),
{
    let (k, i, j) = field_cell_of(lons, lats, height, lon, lat, z).unwrap();
    lemma_closest_enclose(lons, lon);
    lemma_closest_enclose(lats, lat);
    lemma_left_closest_begins_interval(lons, lon);
    lemma_left_closest_begins_interval(lats, lat);
    let column = heights_above(height, i, j);
    assert(sorted(column));
    if scan_search_left(column, z).is_ok() {
        lemma_closest_enclose(column, z);
        lemma_left_closest_begins_interval(column, z);
    }
}

} // verus!
