//! Dense grids of two and three dimensions, stored row by row.
//!
//! A surface field is a grid of shape `(x, y)`, a field on levels one of
//! shape `(level, x, y)`. The last index runs fastest. The grids are generic
//! in what a cell holds: the core moves cells and never computes with them.

use crate::errors::InputError;
use vstd::prelude::*;

verus! {

/// Place of the cell `(i, j)` in a grid with rows of length `ny`.
pub open spec fn offset2(ny: int, i: int, j: int) -> int {
    i * ny + j
}

/// Place of the cell `(k, i, j)` in a grid with levels of shape `(nx, ny)`.
pub open spec fn offset3(nx: int, ny: int, k: int, i: int, j: int) -> int {
    (k * nx + i) * ny + j
}

/// A cell inside a two-dimensional grid lies inside its storage, and two
/// cells share a place only if they are the same.
pub proof fn lemma_offset2(nx: int, ny: int, i: int, j: int)
    requires
        0 <= i < nx,
        0 <= j < ny,
    ensures
        0 <= offset2(ny, i, j) < nx * ny,
        offset2(ny, i, j) / ny == i,
        offset2(ny, i, j) % ny == j,
{
    assert(0 <= i * ny <= (nx - 1) * ny) by (nonlinear_arith)
        requires
            0 <= i < nx,
            0 <= ny,
    ;
    assert((nx - 1) * ny + ny == nx * ny) by (nonlinear_arith);
    assert((i * ny + j) / ny == i && (i * ny + j) % ny == j) by (nonlinear_arith)
        requires
            0 <= j < ny,
            0 <= i,
    ;
}

/// A cell inside a three-dimensional grid lies inside its storage.
pub proof fn lemma_offset3(nl: int, nx: int, ny: int, k: int, i: int, j: int)
    requires
        0 <= k < nl,
        0 <= i < nx,
        0 <= j < ny,
    ensures
        0 <= k * nx + i < nl * nx,
        0 <= offset3(nx, ny, k, i, j) < nl * nx * ny,
        offset3(nx, ny, k, i, j) % ny == j,
        (offset3(nx, ny, k, i, j) / ny) % nx == i,
        (offset3(nx, ny, k, i, j) / ny) / nx == k,
{
    lemma_offset2(nl, nx, k, i);
    lemma_offset2(nl * nx, ny, k * nx + i, j);
}

/// The values at the given places, in the order of the places.
pub fn pick<T: Copy>(values: &[T], indices: &[usize]) -> (picked: Vec<T>)
    requires
        forall|i: int| 0 <= i < indices@.len() ==> indices@[i] < values@.len(),
    ensures
        picked@.len() == indices@.len(),
        forall|i: int| 0 <= i < indices@.len() ==> picked@[i] == values@[indices@[i] as int],
{
    let mut picked: Vec<T> = Vec::new();
    let mut i: usize = 0;
    while i < indices.len()
        invariant
            i <= indices@.len(),
            forall|a: int| 0 <= a < indices@.len() ==> indices@[a] < values@.len(),
            picked@.len() == i,
            forall|a: int| 0 <= a < i ==> picked@[a] == values@[indices@[a] as int],
        decreases indices@.len() - i,
    {
        picked.push(values[indices[i]]);
        i += 1;
    }
    picked
}

/// A grid of two dimensions.
pub struct Grid2<T> {
    nx: usize,
    ny: usize,
    data: Vec<T>,
}

impl<T> Grid2<T> {
    #[verifier::type_invariant]
    spec fn well_formed(self) -> bool {
        self.nx * self.ny == self.data@.len()
    }

    /// Length of the first axis.
    pub closed spec fn nx(&self) -> nat {
        self.nx as nat
    }

    /// Length of the second axis.
    pub closed spec fn ny(&self) -> nat {
        self.ny as nat
    }

    /// The cells, row by row.
    pub closed spec fn cells(&self) -> Seq<T> {
        self.data@
    }

    /// The grid has as many cells as its shape says.
    pub open spec fn wf(&self) -> bool {
        self.cells().len() == self.nx() * self.ny()
    }

    /// `(i, j)` names a cell of the grid.
    pub open spec fn holds(&self, i: int, j: int) -> bool {
        0 <= i < self.nx() && 0 <= j < self.ny()
    }

    /// The cell `(i, j)`.
    pub open spec fn at(&self, i: int, j: int) -> T {
        self.cells()[offset2(self.ny() as int, i, j)]
    }

    /// Makes a grid of the given shape from its cells, row by row. Fails
    /// with `IncorrectShape` unless the shape asks for exactly as many cells
    /// as are given.
    pub fn from_shape_vec(shape: (usize, usize), data: Vec<T>) -> (r: Result<Self, InputError>)
        ensures
            r.is_ok() <==> shape.0 * shape.1 == data@.len(),
            r matches Err(e) ==> e == InputError::IncorrectShape,
            r matches Ok(g) ==> g.wf() && g.nx() == shape.0 && g.ny() == shape.1 && g.cells()
                == data@,
    {
        let len: usize = data.len();
        match shape.0.checked_mul(shape.1) {
            Some(n) => {
                if n == len {
                    Ok(Grid2 { nx: shape.0, ny: shape.1, data })
                } else {
                    Err(InputError::IncorrectShape)
                }
            },
            None => Err(InputError::IncorrectShape),
        }
    }

    /// The shape of the grid.
    pub fn shape(&self) -> (shape: (usize, usize))
        ensures
            shape.0 == self.nx(),
            shape.1 == self.ny(),
            self.wf(),
    {
        proof {
            use_type_invariant(self);
        }
        (self.nx, self.ny)
    }

    /// The cell `(i, j)`, or `None` outside the grid.
    pub fn get(&self, i: usize, j: usize) -> (cell: Option<&T>)
        ensures
            self.holds(i as int, j as int) ==> cell == Some(&self.at(i as int, j as int)),
            !self.holds(i as int, j as int) ==> cell.is_none(),
    {
        if i < self.nx && j < self.ny {
            Some(self.cell(i, j))
        } else {
            None
        }
    }

    /// The cell `(i, j)` of the grid.
    pub fn cell(&self, i: usize, j: usize) -> (cell: &T)
        requires
            self.holds(i as int, j as int),
        ensures
            *cell == self.at(i as int, j as int),
            self.wf(),
    {
        let len: usize = self.data.len();
        proof {
            use_type_invariant(self);
            lemma_offset2(self.nx as int, self.ny as int, i as int, j as int);
            assert(i * self.ny + j < len);
        }
        &self.data[i * self.ny + j]
    }

    /// The grid with its axes exchanged.
    pub fn transposed(&self) -> (r: Self) where T: Copy
        ensures
            r.wf(),
            r.nx() == self.ny(),
            r.ny() == self.nx(),
            forall|i: int, j: int| r.holds(i, j) ==> r.at(i, j) == self.at(j, i),
    {
        proof {
            use_type_invariant(self);
        }
        let nx: usize = self.ny;
        let ny: usize = self.nx;
        let mut data: Vec<T> = Vec::new();
        let mut i: usize = 0;
        while i < nx
            invariant
                i <= nx,
                nx == self.ny,
                ny == self.nx,
                self.wf(),
                data@.len() == i * ny,
                forall|q: int|
                    0 <= q < data@.len() ==> data@[q] == self.at(q % (ny as int), q / (ny as int)),
            decreases nx - i,
        {
            let mut j: usize = 0;
            while j < ny
                invariant
                    i < nx,
                    j <= ny,
                    nx == self.ny,
                    ny == self.nx,
                    self.wf(),
                    data@.len() == i * ny + j,
                    forall|q: int|
                        0 <= q < data@.len() ==> data@[q] == self.at(
                            q % (ny as int),
                            q / (ny as int),
                        ),
                decreases ny - j,
            {
                let value: T = *self.cell(j, i);
                proof {
                    lemma_offset2(nx as int, ny as int, i as int, j as int);
                }
                data.push(value);
                j += 1;
            }
            proof {
                assert(i * ny + ny == (i + 1) * ny) by (nonlinear_arith);
            }
            i += 1;
        }
        let r = Grid2 { nx, ny, data };
        proof {
            assert forall|i: int, j: int| r.holds(i, j) implies r.at(i, j) == self.at(j, i) by {
                lemma_offset2(nx as int, ny as int, i, j);
            }
        }
        r
    }

    /// The cells at the crossings of the given rows and columns: the cell
    /// `(i, j)` of the result is the cell `(xs[i], ys[j])` of this grid.
    pub fn select(&self, xs: &[usize], ys: &[usize]) -> (r: Self) where T: Copy
        requires
            forall|i: int| 0 <= i < xs@.len() ==> xs@[i] < self.nx(),
            forall|j: int| 0 <= j < ys@.len() ==> ys@[j] < self.ny(),
        ensures
            r.wf(),
            r.nx() == xs@.len(),
            r.ny() == ys@.len(),
            forall|i: int, j: int|
                r.holds(i, j) ==> r.at(i, j) == self.at(xs@[i] as int, ys@[j] as int),
    {
        let nx: usize = xs.len();
        let ny: usize = ys.len();
        let mut data: Vec<T> = Vec::new();
        let mut i: usize = 0;
        while i < nx
            invariant
                i <= nx,
                nx == xs@.len(),
                ny == ys@.len(),
                forall|i: int| 0 <= i < xs@.len() ==> xs@[i] < self.nx(),
                forall|j: int| 0 <= j < ys@.len() ==> ys@[j] < self.ny(),
                data@.len() == i * ny,
                forall|q: int|
                    0 <= q < data@.len() ==> data@[q] == self.at(
                        xs@[q / (ny as int)] as int,
                        ys@[q % (ny as int)] as int,
                    ),
            decreases nx - i,
        {
            let mut j: usize = 0;
            while j < ny
                invariant
                    i < nx,
                    j <= ny,
                    nx == xs@.len(),
                    ny == ys@.len(),
                    forall|i: int| 0 <= i < xs@.len() ==> xs@[i] < self.nx(),
                    forall|j: int| 0 <= j < ys@.len() ==> ys@[j] < self.ny(),
                    data@.len() == i * ny + j,
                    forall|q: int|
                        0 <= q < data@.len() ==> data@[q] == self.at(
                            xs@[q / (ny as int)] as int,
                            ys@[q % (ny as int)] as int,
                        ),
                decreases ny - j,
            {
                let value: T = *self.cell(xs[i], ys[j]);
                proof {
                    lemma_offset2(nx as int, ny as int, i as int, j as int);
                }
                data.push(value);
                j += 1;
            }
            proof {
                assert(i * ny + ny == (i + 1) * ny) by (nonlinear_arith);
            }
            i += 1;
        }
        let r = Grid2 { nx, ny, data };
        proof {
            assert forall|i: int, j: int| r.holds(i, j) implies r.at(i, j) == self.at(
                xs@[i] as int,
                ys@[j] as int,
            ) by {
                lemma_offset2(nx as int, ny as int, i, j);
            }
        }
        r
    }

    /// The grid whose rows repeat one value each: the cell `(i, j)` is
    /// `values[i]`, for `ny` columns.
    pub fn along_first(values: &[T], ny: usize) -> (r: Self) where T: Copy
        ensures
            r.wf(),
            r.nx() == values@.len(),
            r.ny() == ny,
            forall|i: int, j: int| r.holds(i, j) ==> r.at(i, j) == values@[i],
    {
        let nx: usize = values.len();
        let mut data: Vec<T> = Vec::new();
        let mut i: usize = 0;
        while i < nx
            invariant
                i <= nx,
                nx == values@.len(),
                data@.len() == i * ny,
                forall|q: int| 0 <= q < data@.len() ==> data@[q] == values@[q / (ny as int)],
            decreases nx - i,
        {
            let mut j: usize = 0;
            while j < ny
                invariant
                    i < nx,
                    j <= ny,
                    nx == values@.len(),
                    data@.len() == i * ny + j,
                    forall|q: int| 0 <= q < data@.len() ==> data@[q] == values@[q / (ny as int)],
                decreases ny - j,
            {
                proof {
                    lemma_offset2(nx as int, ny as int, i as int, j as int);
                }
                data.push(values[i]);
                j += 1;
            }
            proof {
                assert(i * ny + ny == (i + 1) * ny) by (nonlinear_arith);
            }
            i += 1;
        }
        let r = Grid2 { nx, ny, data };
        proof {
            assert forall|i: int, j: int| r.holds(i, j) implies r.at(i, j) == values@[i] by {
                lemma_offset2(nx as int, ny as int, i, j);
            }
        }
        r
    }

    /// The grid whose columns repeat one value each: the cell `(i, j)` is
    /// `values[j]`, for `nx` rows.
    pub fn along_second(values: &[T], nx: usize) -> (r: Self) where T: Copy
        ensures
            r.wf(),
            r.nx() == nx,
            r.ny() == values@.len(),
            forall|i: int, j: int| r.holds(i, j) ==> r.at(i, j) == values@[j],
    {
        let ny: usize = values.len();
        let mut data: Vec<T> = Vec::new();
        let mut i: usize = 0;
        while i < nx
            invariant
                i <= nx,
                ny == values@.len(),
                data@.len() == i * ny,
                forall|q: int| 0 <= q < data@.len() ==> data@[q] == values@[q % (ny as int)],
            decreases nx - i,
        {
            let mut j: usize = 0;
            while j < ny
                invariant
                    i < nx,
                    j <= ny,
                    ny == values@.len(),
                    data@.len() == i * ny + j,
                    forall|q: int| 0 <= q < data@.len() ==> data@[q] == values@[q % (ny as int)],
                decreases ny - j,
            {
                proof {
                    lemma_offset2(nx as int, ny as int, i as int, j as int);
                }
                data.push(values[j]);
                j += 1;
            }
            proof {
                assert(i * ny + ny == (i + 1) * ny) by (nonlinear_arith);
            }
            i += 1;
        }
        let r = Grid2 { nx, ny, data };
        proof {
            assert forall|i: int, j: int| r.holds(i, j) implies r.at(i, j) == values@[j] by {
                lemma_offset2(nx as int, ny as int, i, j);
            }
        }
        r
    }

    /// `(i, j)` names a cell between gridpoints: the gridpoint and its
    /// successors along both axes lie in the grid.
    pub open spec fn holds_cell(&self, i: int, j: int) -> bool {
        0 <= i < self.nx() - 1 && 0 <= j < self.ny() - 1
    }

    /// The gridpoints at the four corners of the cell that begins at
    /// `(i, j)`, the second axis running fastest: `(i, j)`, `(i, j + 1)`,
    /// `(i + 1, j)`, `(i + 1, j + 1)`.
    pub fn corners(&self, i: usize, j: usize) -> (corners: [T; 4]) where T: Copy
        requires
            self.holds_cell(i as int, j as int),
        ensures
            corners@ == seq![
                self.at(i as int, j as int),
                self.at(i as int, j + 1),
                self.at(i + 1, j as int),
                self.at(i + 1, j + 1),
            ],
    {
        proof {
            use_type_invariant(self);
        }
        [*self.cell(i, j), *self.cell(i, j + 1), *self.cell(i + 1, j), *self.cell(i + 1, j + 1)]
    }

    /// The cells of the grid, row by row.
    pub fn as_slice(&self) -> (cells: &[T])
        ensures
            cells@ == self.cells(),
            self.wf(),
    {
        proof {
            use_type_invariant(self);
        }
        self.data.as_slice()
    }
}

/// A grid of three dimensions: levels of two-dimensional grids.
pub struct Grid3<T> {
    nl: usize,
    nx: usize,
    ny: usize,
    data: Vec<T>,
}

impl<T> Grid3<T> {
    #[verifier::type_invariant]
    spec fn well_formed(self) -> bool {
        self.nl * self.nx * self.ny == self.data@.len()
    }

    /// Number of levels, the length of the first axis.
    pub closed spec fn nl(&self) -> nat {
        self.nl as nat
    }

    /// Length of the second axis.
    pub closed spec fn nx(&self) -> nat {
        self.nx as nat
    }

    /// Length of the third axis.
    pub closed spec fn ny(&self) -> nat {
        self.ny as nat
    }

    /// The cells, level by level and row by row.
    pub closed spec fn cells(&self) -> Seq<T> {
        self.data@
    }

    /// The grid has as many cells as its shape says.
    pub open spec fn wf(&self) -> bool {
        self.cells().len() == self.nl() * self.nx() * self.ny()
    }

    /// `(k, i, j)` names a cell of the grid.
    pub open spec fn holds(&self, k: int, i: int, j: int) -> bool {
        0 <= k < self.nl() && 0 <= i < self.nx() && 0 <= j < self.ny()
    }

    /// The cell `(k, i, j)`.
    pub open spec fn at(&self, k: int, i: int, j: int) -> T {
        self.cells()[offset3(self.nx() as int, self.ny() as int, k, i, j)]
    }

    /// Makes a grid of the given shape from its cells, level by level and row
    /// by row. Fails with `IncorrectShape` unless the shape asks for exactly
    /// as many cells as are given.
    pub fn from_shape_vec(shape: (usize, usize, usize), data: Vec<T>) -> (r: Result<
        Self,
        InputError,
    >)
        ensures
            r.is_ok() <==> shape.0 * shape.1 * shape.2 == data@.len(),
            r matches Err(e) ==> e == InputError::IncorrectShape,
            r matches Ok(g) ==> g.wf() && g.nl() == shape.0 && g.nx() == shape.1 && g.ny()
                == shape.2 && g.cells() == data@,
    {
        let len: usize = data.len();
        if shape.2 == 0 {
            assert(shape.0 * shape.1 * shape.2 == 0) by (nonlinear_arith)
                requires
                    shape.2 == 0,
            ;
            return if len == 0 {
                Ok(Grid3 { nl: shape.0, nx: shape.1, ny: shape.2, data })
            } else {
                Err(InputError::IncorrectShape)
            };
        }
        let plane: usize = match shape.0.checked_mul(shape.1) {
            Some(n) => n,
            None => {
                assert(shape.0 * shape.1 * shape.2 > usize::MAX) by (nonlinear_arith)
                    requires
                        shape.0 * shape.1 > usize::MAX,
                        shape.2 >= 1,
                ;
                return Err(InputError::IncorrectShape);
            },
        };
        match plane.checked_mul(shape.2) {
            Some(n) => {
                if n == len {
                    Ok(Grid3 { nl: shape.0, nx: shape.1, ny: shape.2, data })
                } else {
                    Err(InputError::IncorrectShape)
                }
            },
            None => Err(InputError::IncorrectShape),
        }
    }

    /// The shape of the grid.
    pub fn shape(&self) -> (shape: (usize, usize, usize))
        ensures
            shape.0 == self.nl(),
            shape.1 == self.nx(),
            shape.2 == self.ny(),
            self.wf(),
    {
        proof {
            use_type_invariant(self);
        }
        (self.nl, self.nx, self.ny)
    }

    /// The cell `(k, i, j)`, or `None` outside the grid.
    pub fn get(&self, k: usize, i: usize, j: usize) -> (cell: Option<&T>)
        ensures
            self.holds(k as int, i as int, j as int) ==> cell == Some(
                &self.at(k as int, i as int, j as int),
            ),
            !self.holds(k as int, i as int, j as int) ==> cell.is_none(),
    {
        if k < self.nl && i < self.nx && j < self.ny {
            Some(self.cell(k, i, j))
        } else {
            None
        }
    }

    /// The cell `(k, i, j)` of the grid.
    pub fn cell(&self, k: usize, i: usize, j: usize) -> (cell: &T)
        requires
            self.holds(k as int, i as int, j as int),
        ensures
            *cell == self.at(k as int, i as int, j as int),
            self.wf(),
    {
        let len: usize = self.data.len();
        proof {
            use_type_invariant(self);
            lemma_offset3(
                self.nl as int,
                self.nx as int,
                self.ny as int,
                k as int,
                i as int,
                j as int,
            );
            assert((k * self.nx + i) * self.ny + j < len);
            assert(k * self.nx + i <= (k * self.nx + i) * self.ny) by (nonlinear_arith)
                requires
                    0 <= k * self.nx + i,
                    1 <= self.ny,
            ;
        }
        &self.data[(k * self.nx + i) * self.ny + j]
    }

    /// The cells at the crossings of the given rows and columns on every
    /// level: the cell `(k, i, j)` of the result is the cell
    /// `(k, xs[i], ys[j])` of this grid.
    pub fn select(&self, xs: &[usize], ys: &[usize]) -> (r: Self) where T: Copy
        requires
            forall|i: int| 0 <= i < xs@.len() ==> xs@[i] < self.nx(),
            forall|j: int| 0 <= j < ys@.len() ==> ys@[j] < self.ny(),
        ensures
            r.wf(),
            r.nl() == self.nl(),
            r.nx() == xs@.len(),
            r.ny() == ys@.len(),
            forall|k: int, i: int, j: int|
                r.holds(k, i, j) ==> r.at(k, i, j) == self.at(k, xs@[i] as int, ys@[j] as int),
    {
        let nl: usize = self.nl;
        let nx: usize = xs.len();
        let ny: usize = ys.len();
        let mut data: Vec<T> = Vec::new();
        let mut k: usize = 0;
        assert(0 * nx * ny == 0) by (nonlinear_arith);
        while k < nl
            invariant
                k <= nl,
                nl == self.nl(),
                nx == xs@.len(),
                ny == ys@.len(),
                forall|i: int| 0 <= i < xs@.len() ==> xs@[i] < self.nx(),
                forall|j: int| 0 <= j < ys@.len() ==> ys@[j] < self.ny(),
                data@.len() == k * nx * ny,
                forall|q: int|
                    0 <= q < data@.len() ==> data@[q] == self.at(
                        q / (ny as int) / (nx as int),
                        xs@[(q / (ny as int)) % (nx as int)] as int,
                        ys@[q % (ny as int)] as int,
                    ),
            decreases nl - k,
        {
            let mut i: usize = 0;
            assert(k * nx * ny == (k * nx + 0) * ny) by (nonlinear_arith);
            while i < nx
                invariant
                    k < nl,
                    i <= nx,
                    nl == self.nl(),
                    nx == xs@.len(),
                    ny == ys@.len(),
                    forall|i: int| 0 <= i < xs@.len() ==> xs@[i] < self.nx(),
                    forall|j: int| 0 <= j < ys@.len() ==> ys@[j] < self.ny(),
                    data@.len() == (k * nx + i) * ny,
                    forall|q: int|
                        0 <= q < data@.len() ==> data@[q] == self.at(
                            q / (ny as int) / (nx as int),
                            xs@[(q / (ny as int)) % (nx as int)] as int,
                            ys@[q % (ny as int)] as int,
                        ),
                decreases nx - i,
            {
                let mut j: usize = 0;
                while j < ny
                    invariant
                        k < nl,
                        i < nx,
                        j <= ny,
                        nl == self.nl(),
                        nx == xs@.len(),
                        ny == ys@.len(),
                        forall|i: int| 0 <= i < xs@.len() ==> xs@[i] < self.nx(),
                        forall|j: int| 0 <= j < ys@.len() ==> ys@[j] < self.ny(),
                        data@.len() == (k * nx + i) * ny + j,
                        forall|q: int|
                            0 <= q < data@.len() ==> data@[q] == self.at(
                                q / (ny as int) / (nx as int),
                                xs@[(q / (ny as int)) % (nx as int)] as int,
                                ys@[q % (ny as int)] as int,
                            ),
                    decreases ny - j,
                {
                    let value: T = *self.cell(k, xs[i], ys[j]);
                    proof {
                        lemma_offset3(nl as int, nx as int, ny as int, k as int, i as int, j as int);
                    }
                    data.push(value);
                    j += 1;
                }
                proof {
                    assert((k * nx + i) * ny + ny == (k * nx + (i + 1)) * ny) by (nonlinear_arith);
                }
                i += 1;
            }
            proof {
                assert((k * nx + nx) * ny == (k + 1) * nx * ny) by (nonlinear_arith);
            }
            k += 1;
        }
        let r = Grid3 { nl, nx, ny, data };
        proof {
            assert forall|k: int, i: int, j: int| r.holds(k, i, j) implies r.at(k, i, j) == self.at(
                k,
                xs@[i] as int,
                ys@[j] as int,
            ) by {
                lemma_offset3(nl as int, nx as int, ny as int, k, i, j);
            }
        }
        r
    }

    /// The levels have one shape: that of the first.
    pub open spec fn same_shapes(levels: Seq<Grid2<T>>) -> bool {
        forall|k: int|
            0 <= k < levels.len() ==> (#[trigger] levels[k]).nx() == levels[0].nx()
                && levels[k].ny() == levels[0].ny()
    }

    /// Stacks two-dimensional grids into levels, the first lowest. Fails with
    /// `IncorrectShape` if there is no level or the levels differ in shape.
    pub fn stack(levels: &[Grid2<T>]) -> (r: Result<Self, InputError>) where T: Copy
        ensures
            r.is_ok() <==> levels@.len() > 0 && Self::same_shapes(levels@),
            r matches Err(e) ==> e == InputError::IncorrectShape,
            r matches Ok(g) ==> {
                &&& g.wf()
                &&& g.nl() == levels@.len()
                &&& g.nx() == levels@[0].nx()
                &&& g.ny() == levels@[0].ny()
                &&& forall|k: int, i: int, j: int|
                    g.holds(k, i, j) ==> g.at(k, i, j) == levels@[k].at(i, j)
            },
    {
        let nl: usize = levels.len();
        if nl == 0 {
            return Err(InputError::IncorrectShape);
        }
        let (nx, ny) = levels[0].shape();
        let mut data: Vec<T> = Vec::new();
        let mut k: usize = 0;
        assert(0 * nx * ny == 0) by (nonlinear_arith);
        while k < nl
            invariant
                k <= nl,
                nl == levels@.len(),
                nl > 0,
                nx == levels@[0].nx(),
                ny == levels@[0].ny(),
                forall|a: int|
                    0 <= a < k ==> (#[trigger] levels@[a]).nx() == levels@[0].nx()
                        && levels@[a].ny() == levels@[0].ny(),
                data@.len() == k * nx * ny,
                forall|q: int|
                    0 <= q < data@.len() ==> data@[q] == levels@[q / (ny as int) / (nx as int)].at(
                        (q / (ny as int)) % (nx as int),
                        q % (ny as int),
                    ),
            decreases nl - k,
        {
            let level: &Grid2<T> = &levels[k];
            let shape: (usize, usize) = level.shape();
            if shape.0 != nx || shape.1 != ny {
                return Err(InputError::IncorrectShape);
            }
            let mut i: usize = 0;
            assert(k * nx * ny == (k * nx + 0) * ny) by (nonlinear_arith);
            while i < nx
                invariant
                    k < nl,
                    i <= nx,
                    nl == levels@.len(),
                    *level == levels@[k as int],
                    nx == level.nx(),
                    ny == level.ny(),
                    data@.len() == (k * nx + i) * ny,
                    forall|q: int|
                        0 <= q < data@.len() ==> data@[q] == levels@[q / (ny as int) / (
                        nx as int)].at((q / (ny as int)) % (nx as int), q % (ny as int)),
                decreases nx - i,
            {
                let mut j: usize = 0;
                while j < ny
                    invariant
                        k < nl,
                        i < nx,
                        j <= ny,
                        nl == levels@.len(),
                        *level == levels@[k as int],
                        nx == level.nx(),
                        ny == level.ny(),
                        data@.len() == (k * nx + i) * ny + j,
                        forall|q: int|
                            0 <= q < data@.len() ==> data@[q] == levels@[q / (ny as int) / (
                            nx as int)].at((q / (ny as int)) % (nx as int), q % (ny as int)),
                    decreases ny - j,
                {
                    let value: T = *level.cell(i, j);
                    proof {
                        lemma_offset3(nl as int, nx as int, ny as int, k as int, i as int, j as int);
                    }
                    data.push(value);
                    j += 1;
                }
                proof {
                    assert((k * nx + i) * ny + ny == (k * nx + (i + 1)) * ny) by (nonlinear_arith);
                }
                i += 1;
            }
            proof {
                assert((k * nx + nx) * ny == (k + 1) * nx * ny) by (nonlinear_arith);
            }
            k += 1;
        }
        let r = Grid3 { nl, nx, ny, data };
        proof {
            assert forall|k: int, i: int, j: int| r.holds(k, i, j) implies r.at(k, i, j)
                == levels@[k].at(i, j) by {
                lemma_offset3(nl as int, nx as int, ny as int, k, i, j);
            }
        }
        Ok(r)
    }

    /// The grid whose levels repeat one value each: the cell `(k, i, j)` is
    /// `levels[k]`, on levels of shape `(nx, ny)`.
    pub fn level_wise(levels: &[T], nx: usize, ny: usize) -> (r: Self) where T: Copy
        ensures
            r.wf(),
            r.nl() == levels@.len(),
            r.nx() == nx,
            r.ny() == ny,
            forall|k: int, i: int, j: int| r.holds(k, i, j) ==> r.at(k, i, j) == levels@[k],
    {
        let nl: usize = levels.len();
        let mut data: Vec<T> = Vec::new();
        let mut k: usize = 0;
        assert(0 * nx * ny == 0) by (nonlinear_arith);
        while k < nl
            invariant
                k <= nl,
                nl == levels@.len(),
                data@.len() == k * nx * ny,
                forall|q: int|
                    0 <= q < data@.len() ==> data@[q] == levels@[q / (ny as int) / (nx as int)],
            decreases nl - k,
        {
            let mut i: usize = 0;
            assert(k * nx * ny == (k * nx + 0) * ny) by (nonlinear_arith);
            while i < nx
                invariant
                    k < nl,
                    i <= nx,
                    nl == levels@.len(),
                    data@.len() == (k * nx + i) * ny,
                    forall|q: int|
                        0 <= q < data@.len() ==> data@[q] == levels@[q / (ny as int) / (
                        nx as int)],
                decreases nx - i,
            {
                let mut j: usize = 0;
                while j < ny
                    invariant
                        k < nl,
                        i < nx,
                        j <= ny,
                        nl == levels@.len(),
                        data@.len() == (k * nx + i) * ny + j,
                        forall|q: int|
                            0 <= q < data@.len() ==> data@[q] == levels@[q / (ny as int) / (
                            nx as int)],
                    decreases ny - j,
                {
                    proof {
                        lemma_offset3(nl as int, nx as int, ny as int, k as int, i as int, j as int);
                    }
                    data.push(levels[k]);
                    j += 1;
                }
                proof {
                    assert((k * nx + i) * ny + ny == (k * nx + (i + 1)) * ny) by (nonlinear_arith);
                }
                i += 1;
            }
            proof {
                assert((k * nx + nx) * ny == (k + 1) * nx * ny) by (nonlinear_arith);
            }
            k += 1;
        }
        let r = Grid3 { nl, nx, ny, data };
        proof {
            assert forall|k: int, i: int, j: int| r.holds(k, i, j) implies r.at(k, i, j)
                == levels@[k] by {
                lemma_offset3(nl as int, nx as int, ny as int, k, i, j);
            }
        }
        r
    }

    /// `(k, i, j)` names a cell between gridpoints: the gridpoint and its
    /// successors along all axes lie in the grid.
    pub open spec fn holds_cell(&self, k: int, i: int, j: int) -> bool {
        0 <= k < self.nl() - 1 && 0 <= i < self.nx() - 1 && 0 <= j < self.ny() - 1
    }

    /// The gridpoints at the eight corners of the cell that begins at
    /// `(k, i, j)`: the four corners on level `k`, then those on level
    /// `k + 1`, on each level the last axis running fastest.
    pub fn corners(&self, k: usize, i: usize, j: usize) -> (corners: [T; 8]) where T: Copy
        requires
            self.holds_cell(k as int, i as int, j as int),
        ensures
            corners@ == seq![
                self.at(k as int, i as int, j as int),
                self.at(k as int, i as int, j + 1),
                self.at(k as int, i + 1, j as int),
                self.at(k as int, i + 1, j + 1),
                self.at(k + 1, i as int, j as int),
                self.at(k + 1, i as int, j + 1),
                self.at(k + 1, i + 1, j as int),
                self.at(k + 1, i + 1, j + 1),
            ],
    {
        proof {
            use_type_invariant(self);
        }
        [
            *self.cell(k, i, j),
            *self.cell(k, i, j + 1),
            *self.cell(k, i + 1, j),
            *self.cell(k, i + 1, j + 1),
            *self.cell(k + 1, i, j),
            *self.cell(k + 1, i, j + 1),
            *self.cell(k + 1, i + 1, j),
            *self.cell(k + 1, i + 1, j + 1),
        ]
    }

    /// The cells of the grid, level by level and row by row.
    pub fn as_slice(&self) -> (cells: &[T])
        ensures
            cells@ == self.cells(),
            self.wf(),
    {
        proof {
            use_type_invariant(self);
        }
        self.data.as_slice()
    }

    /// The cells along the first axis above the place `(i, j)`, lowest level
    /// first.
    pub fn column(&self, i: usize, j: usize) -> (column: Vec<T>) where T: Copy
        requires
            0 <= i < self.nx(),
            0 <= j < self.ny(),
        ensures
            column@.len() == self.nl(),
            forall|k: int| 0 <= k < self.nl() ==> column@[k] == self.at(k, i as int, j as int),
    {
        let mut column: Vec<T> = Vec::new();
        let mut k: usize = 0;
        while k < self.nl
            invariant
                k <= self.nl,
                0 <= i < self.nx(),
                0 <= j < self.ny(),
                column@.len() == k,
                forall|a: int| 0 <= a < k ==> column@[a] == self.at(a, i as int, j as int),
            decreases self.nl - k,
        {
            column.push(*self.cell(k, i, j));
            k += 1;
        }
        column
    }
}

} // verus!
