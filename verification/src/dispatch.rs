//! The list of parcels that a run releases.

use crate::environment::grid::{lemma_offset2, offset2};
use vstd::prelude::*;

verus! {

/// Gathers the initial positions of the parcels into a list.
///
/// The parcels start on a regular grid. Given the coordinates of its
/// columns and of its rows, the list holds one position for every crossing,
/// column by column: the parcel of column `i` and row `j` stands at
/// `i * y_coords.len() + j`.
pub fn prepare_parcels_list<T: Copy>(x_coords: &[T], y_coords: &[T]) -> (xy_coords: Vec<(T, T)>)
    ensures
        xy_coords@.len() == x_coords@.len() * y_coords@.len(),
        forall|i: int, j: int|
            0 <= i < x_coords@.len() && 0 <= j < y_coords@.len() ==> xy_coords@[offset2(
                y_coords@.len() as int,
                i,
                j,
            )] == (x_coords@[i], y_coords@[j]),
{
    let nx: usize = x_coords.len();
    let ny: usize = y_coords.len();
    let mut xy_coords: Vec<(T, T)> = Vec::new();
    let mut i: usize = 0;
    while i < nx
        invariant
            i <= nx,
            nx == x_coords@.len(),
            ny == y_coords@.len(),
            xy_coords@.len() == i * ny,
            forall|q: int|
                0 <= q < xy_coords@.len() ==> xy_coords@[q] == (
                    x_coords@[q / (ny as int)],
                    y_coords@[q % (ny as int)],
                ),
        decreases nx - i,
    {
        let mut j: usize = 0;
        while j < ny
            invariant
                i < nx,
                j <= ny,
                nx == x_coords@.len(),
                ny == y_coords@.len(),
                xy_coords@.len() == i * ny + j,
                forall|q: int|
                    0 <= q < xy_coords@.len() ==> xy_coords@[q] == (
                        x_coords@[q / (ny as int)],
                        y_coords@[q % (ny as int)],
                    ),
            decreases ny - j,
        {
            proof {
                lemma_offset2(nx as int, ny as int, i as int, j as int);
            }
            xy_coords.push((x_coords[i], y_coords[j]));
            j += 1;
        }
        proof {
            assert(i * ny + ny == (i + 1) * ny) by (nonlinear_arith);
        }
        i += 1;
    }
    proof {
        assert forall|i: int, j: int|
            0 <= i < x_coords@.len() && 0 <= j < y_coords@.len() implies xy_coords@[offset2(
            y_coords@.len() as int,
            i,
            j,
        )] == (x_coords@[i], y_coords@[j]) by {
            lemma_offset2(nx as int, ny as int, i, j);
        }
    }
    xy_coords
}

} // verus!
