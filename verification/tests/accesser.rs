use pats::environment::fields::Fields;
use pats::environment::grid::{Grid2, Grid3};
use pats::environment::surfaces::Surfaces;
use pats::environment::{EnvFields, Environment, SurfaceFields};
use pats::errors::{EnvironmentError, InputError, SearchError};
use pats::ordering::order_key;

fn key(x: f64) -> i64 {
    order_key(x.to_bits()).expect("not a number")
}

const LONS: [f64; 4] = [14.0, 14.5, 15.0, 15.5];
const LATS: [f64; 3] = [55.0, 54.5, 54.0];
const HEIGHTS: [f64; 6] = [110.0, 760.0, 1450.0, 3010.0, 5570.0, 11800.0];

/// A record that names its field and its cell.
fn records3(field: u32) -> Grid3<(u32, usize, usize, usize)> {
    let mut data = vec![];
    for k in 0..5 {
        for i in 0..3 {
            for j in 0..2 {
                data.push((field, k, i, j));
            }
        }
    }
    Grid3::from_shape_vec((5, 3, 2), data).unwrap()
}

fn records2(field: u32) -> Grid2<(u32, usize, usize)> {
    let mut data = vec![];
    for i in 0..3 {
        for j in 0..2 {
            data.push((field, i, j));
        }
    }
    Grid2::from_shape_vec((3, 2), data).unwrap()
}

fn heights() -> Grid3<i64> {
    // every place is raised a little from west to east and from north to south
    let mut data = vec![];
    for k in 0..6 {
        for i in 0..4 {
            for j in 0..3 {
                data.push(key(HEIGHTS[k] + (i as f64) * 10.0 + (j as f64)));
            }
        }
    }
    Grid3::from_shape_vec((6, 4, 3), data).unwrap()
}

fn fields() -> Fields<(u32, usize, usize, usize)> {
    Fields::new(
        LONS.iter().map(|v| key(*v)).collect(),
        LATS.iter().map(|v| key(*v)).collect(),
        heights(),
        records3(0),
        records3(1),
        records3(2),
        records3(3),
        records3(4),
        records3(5),
    )
    .unwrap()
}

fn surfaces() -> Surfaces<(u32, usize, usize)> {
    Surfaces::new(
        LONS.iter().map(|v| key(*v)).collect(),
        LATS.iter().map(|v| key(*v)).collect(),
        records2(0),
        records2(1),
        records2(2),
        records2(3),
        records2(4),
        records2(5),
    )
    .unwrap()
}

fn environment() -> Environment<(u32, usize, usize), (u32, usize, usize, usize)> {
    Environment::new(fields(), surfaces())
}

fn out_of_bounds<T>(r: Result<T, EnvironmentError>) -> bool {
    matches!(r, Err(EnvironmentError::SearchUnable(SearchError::OutOfBounds)))
}

#[test]
fn super_tests_pressure_interpolation() {
    let env = environment();
    let (lon, lat) = (key(14.6), key(54.3));
    for z in (250..=10_000).step_by(1) {
        let cell = env.get_field_value(lon, lat, key(z as f64), EnvFields::Pressure).unwrap();
        // above the place (1, 1) every level lies 11 m higher than listed
        let level = HEIGHTS.iter().filter(|h| **h + 11.0 <= z as f64).count() - 1;
        assert_eq!((cell.level_index, cell.lon_index, cell.lat_index), (level, 1, 1));
        assert_eq!(*cell.record, (0, level, 1, 1));
    }
}

#[test]
fn field_cell_encloses_the_point() {
    let env = environment();
    let cell = env.get_field_value(key(15.2), key(54.9), key(1500.0), EnvFields::UWind).unwrap();
    assert_eq!((cell.level_index, cell.lon_index, cell.lat_index), (2, 2, 0));
    assert_eq!(*cell.record, (3, 2, 2, 0));
    // a point on a gridpoint belongs to the cell that begins there
    let cell = env.get_field_value(key(14.5), key(54.5), key(771.0), EnvFields::VWind).unwrap();
    assert_eq!(*cell.record, (4, 1, 1, 1));
}

#[test]
fn every_field_has_its_own_records() {
    let env = environment();
    let all = [
        EnvFields::Pressure,
        EnvFields::Temperature,
        EnvFields::VirtualTemperature,
        EnvFields::UWind,
        EnvFields::VWind,
        EnvFields::VerticalVel,
    ];
    for (n, field) in all.iter().enumerate() {
        let cell = env.get_field_value(key(14.1), key(54.9), key(200.0), *field).unwrap();
        assert_eq!(*cell.record, (n as u32, 0, 0, 0));
    }
    let all = [
        SurfaceFields::Temperature,
        SurfaceFields::Dewpoint,
        SurfaceFields::Pressure,
        SurfaceFields::Height,
        SurfaceFields::UWind,
        SurfaceFields::VWind,
    ];
    for (n, field) in all.iter().enumerate() {
        let cell = env.get_surface_value(key(15.4), key(54.1), *field).unwrap();
        assert_eq!((cell.lon_index, cell.lat_index), (2, 1));
        assert_eq!(*cell.record, (n as u32, 2, 1));
    }
}

#[test]
fn height_below_the_lowest_level_is_extrapolated() {
    let env = environment();
    let cell = env.get_field_value(key(14.1), key(54.9), key(50.0), EnvFields::Pressure).unwrap();
    assert_eq!((cell.level_index, cell.lon_index, cell.lat_index), (0, 0, 0));
    let cell = env.get_field_value(key(14.1), key(54.9), key(-300.0), EnvFields::Pressure).unwrap();
    assert_eq!(cell.level_index, 0);
}

#[test]
fn height_at_or_above_the_top_level_fails() {
    let env = environment();
    assert!(out_of_bounds(env.get_field_value(key(14.0), key(55.0), key(11800.0), EnvFields::Pressure)));
    assert!(out_of_bounds(env.get_field_value(key(14.0), key(55.0), key(20000.0), EnvFields::Pressure)));
    assert!(env.get_field_value(key(14.0), key(55.0), key(11799.0), EnvFields::Pressure).is_ok());
}

#[test]
fn horizontal_edges_fail() {
    let env = environment();
    // outside the axes
    assert!(out_of_bounds(env.get_field_value(key(13.9), key(54.5), key(500.0), EnvFields::Pressure)));
    assert!(out_of_bounds(env.get_field_value(key(15.6), key(54.5), key(500.0), EnvFields::Pressure)));
    assert!(out_of_bounds(env.get_field_value(key(14.5), key(55.1), key(500.0), EnvFields::Pressure)));
    assert!(out_of_bounds(env.get_field_value(key(14.5), key(53.9), key(500.0), EnvFields::Pressure)));
    // on the last gridpoint of an axis no cell begins
    assert!(out_of_bounds(env.get_field_value(key(15.5), key(54.5), key(500.0), EnvFields::Pressure)));
    assert!(out_of_bounds(env.get_field_value(key(14.5), key(54.0), key(500.0), EnvFields::Pressure)));
    assert!(out_of_bounds(env.get_surface_value(key(15.5), key(54.5), SurfaceFields::Height)));
    assert!(out_of_bounds(env.get_surface_value(key(14.5), key(54.0), SurfaceFields::Height)));
    assert!(out_of_bounds(env.get_surface_value(key(13.0), key(54.5), SurfaceFields::Height)));
    assert!(env.get_surface_value(key(14.0), key(55.0), SurfaceFields::Height).is_ok());
}

#[test]
fn fields_of_unfitting_shape_are_refused() {
    let r = Fields::new(
        LONS.iter().map(|v| key(*v)).collect(),
        LATS.iter().map(|v| key(*v)).collect(),
        heights(),
        records3(0),
        records3(1),
        records3(2),
        Grid3::from_shape_vec((5, 3, 1), vec![(3, 0, 0, 0); 15]).unwrap(),
        records3(4),
        records3(5),
    );
    assert!(matches!(r, Err(InputError::IncorrectShape)));
    let r = Fields::new(
        LONS[..3].iter().map(|v| key(*v)).collect(),
        LATS.iter().map(|v| key(*v)).collect(),
        heights(),
        records3(0),
        records3(1),
        records3(2),
        records3(3),
        records3(4),
        records3(5),
    );
    assert!(matches!(r, Err(InputError::IncorrectShape)));
}

#[test]
fn unsorted_coordinates_are_refused() {
    let r = Fields::new(
        [14.0, 15.0, 14.5, 15.5].iter().map(|v| key(*v)).collect(),
        LATS.iter().map(|v| key(*v)).collect(),
        heights(),
        records3(0),
        records3(1),
        records3(2),
        records3(3),
        records3(4),
        records3(5),
    );
    assert!(matches!(r, Err(InputError::DataNotSufficient(_))));
    let mut data = vec![];
    for k in [0usize, 2, 1, 3, 4, 5] {
        for _ in 0..12 {
            data.push(key(HEIGHTS[k]));
        }
    }
    let r = Fields::new(
        LONS.iter().map(|v| key(*v)).collect(),
        LATS.iter().map(|v| key(*v)).collect(),
        Grid3::from_shape_vec((6, 4, 3), data).unwrap(),
        records3(0),
        records3(1),
        records3(2),
        records3(3),
        records3(4),
        records3(5),
    );
    assert!(matches!(r, Err(InputError::DataNotSufficient(_))));
    let r = Surfaces::new(
        LONS.iter().map(|v| key(*v)).collect(),
        [55.0, 54.0, 54.5].iter().map(|v| key(*v)).collect(),
        records2(0),
        records2(1),
        records2(2),
        records2(3),
        records2(4),
        records2(5),
    );
    assert!(matches!(r, Err(InputError::DataNotSufficient(_))));
    let r = Surfaces::new(
        LONS.iter().map(|v| key(*v)).collect(),
        LATS.iter().map(|v| key(*v)).collect(),
        records2(0),
        records2(1),
        Grid2::from_shape_vec((2, 2), vec![(2, 0, 0); 4]).unwrap(),
        records2(3),
        records2(4),
        records2(5),
    );
    assert!(matches!(r, Err(InputError::IncorrectShape)));
}

#[test]
fn found_cell_encloses_the_point() {
    let env = environment();
    for lon in [14.0, 14.2, 14.5, 14.99, 15.0, 15.3, 15.49] {
        for lat in [55.0, 54.8, 54.5, 54.2, 54.01] {
            for z in [0.0, 121.0, 125.0, 900.0, 3100.0, 9000.0, 11700.0] {
                let cell = env
                    .get_field_value(key(lon), key(lat), key(z), EnvFields::Temperature)
                    .unwrap();
                let (k, i, j) = (cell.level_index, cell.lon_index, cell.lat_index);
                assert!(LONS[i] <= lon && lon <= LONS[i + 1]);
                assert!(LATS[j] >= lat && lat >= LATS[j + 1]);
                let raised = (i as f64) * 10.0 + (j as f64);
                let below = HEIGHTS[k] + raised;
                let above = HEIGHTS[k + 1] + raised;
                assert!((below <= z && z <= above) || (k == 0 && z < below));
                assert_eq!(*cell.record, (1, k, i, j));
            }
        }
    }
}
