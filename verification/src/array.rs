//! Fixed-size one-, two- and three-dimensional arrays for benchmark kernels.
use vstd::prelude::*;
use rand::rngs::SmallRng;
use rand::Rng;

verus! {

/// Declares the pseudo random generator that fills the arrays.
#[verifier::external_type_specification]
#[verifier::external_body]
pub struct ExSmallRng(SmallRng);

/// Fills `values` with numbers drawn from `rng` (`rand::Rng::fill`).  The
/// numbers depend on the generator's hidden state, so nothing is claimed of them.
#[verifier::external_body]
fn fill_from_rng<const M: usize>(rng: &mut SmallRng, values: &mut [i8; M]) {
    rng.fill(values);
}

/// A row of `M` values.
#[derive(Clone, Copy)]
pub struct Array1D<T, const M: usize>(pub [T; M]);

/// `M` rows of `N` values.
#[derive(Clone, Copy)]
pub struct Array2D<T, const M: usize, const N: usize>(pub [Array1D<T, N>; M]);

/// `M` planes of `N` rows of `P` values.
#[derive(Clone, Copy)]
pub struct Array3D<T, const M: usize, const N: usize, const P: usize>(pub [Array2D<T, N, P>; M]);

impl<T, const M: usize> View for Array1D<T, M> {
    type V = Seq<T>;

    open spec fn view(&self) -> Seq<T> {
        self.0@
    }
}

impl<T, const M: usize, const N: usize> View for Array2D<T, M, N> {
    type V = Seq<Seq<T>>;

    open spec fn view(&self) -> Seq<Seq<T>> {
        self.0@.map_values(|row: Array1D<T, N>| row@)
    }
}

impl<T, const M: usize, const N: usize, const P: usize> View for Array3D<T, M, N, P> {
    type V = Seq<Seq<Seq<T>>>;

    open spec fn view(&self) -> Seq<Seq<Seq<T>>> {
        self.0@.map_values(|plane: Array2D<T, N, P>| plane@)
    }
}

impl<T, const M: usize> Array1D<T, M> {
    /// The value at `index`.
    pub fn index(&self, index: usize) -> (value: &T)
        requires
            index < M,
        ensures
            *value == self@[index as int],
    {
        &self.0[index]
    }

    /// A mutable reference to the value at `index`; the row changes only there.
    pub fn index_mut(&mut self, index: usize) -> (value: &mut T)
        requires
            index < M,
        ensures
            *value == old(self)@[index as int],
            final(self)@ == old(self)@.update(index as int, *final(value)),
    {
        &mut self.0[index]
    }

    /// Replaces the value at `index`.
    pub fn set(&mut self, index: usize, value: T)
        requires
            index < M,
        ensures
            final(self)@ == old(self)@.update(index as int, value),
    {
        self.0[index] = value;
    }
}

impl<const M: usize> Array1D<i8, M> {
    /// Overwrites every value with a number drawn from `rng`.
    pub fn fill_rand(&mut self, rng: &mut SmallRng) {
        fill_from_rng(rng, &mut self.0);
    }
}

impl<T, const M: usize, const N: usize> Array2D<T, M, N> {
    /// The row at `index`.
    pub fn index(&self, index: usize) -> (row: &Array1D<T, N>)
        requires
            index < M,
        ensures
            row@ == self@[index as int],
    {
        &self.0[index]
    }

    /// A mutable reference to the row at `index`; the array changes only there.
    pub fn index_mut(&mut self, index: usize) -> (row: &mut Array1D<T, N>)
        requires
            index < M,
        ensures
            row@ == old(self)@[index as int],
            final(self)@ == old(self)@.update(index as int, final(row)@),
    {
        let r = &mut self.0[index];
        r
    }

    /// The value in row `i`, column `j`.
    pub fn get(&self, i: usize, j: usize) -> (value: T)
        where T: Copy
        requires
            i < M,
            j < N,
        ensures
            value == self@[i as int][j as int],
    {
        self.0[i].0[j]
    }

    /// Replaces the value in row `i`, column `j`.
    pub fn set(&mut self, i: usize, j: usize, value: T)
        requires
            i < M,
            j < N,
        ensures
            final(self)@ == old(self)@.update(i as int, old(self)@[i as int].update(j as int, value)),
    {
        self.0[i].0[j] = value;
        assert(self@ =~= old(self)@.update(i as int, old(self)@[i as int].update(j as int, value)));
    }
}

impl<const M: usize, const N: usize> Array2D<i8, M, N> {
    /// Overwrites every value with numbers drawn from `rng`, row by row.
    pub fn fill_rand(&mut self, rng: &mut SmallRng) {
        let mut i: usize = 0;
        while i < M
            decreases M - i,
        {
            self.0[i].fill_rand(rng);
            i = i + 1;
        }
    }
}

impl<const M: usize, const N: usize, const P: usize> Array3D<i8, M, N, P> {
    /// Overwrites every value with numbers drawn from `rng`, plane by plane
    /// and row by row.
    pub fn fill_rand(&mut self, rng: &mut SmallRng) {
        let mut i: usize = 0;
        while i < M
            decreases M - i,
        {
            let mut j: usize = 0;
            while j < N
                invariant
                    i < M,
                decreases N - j,
            {
                self.0[i].0[j].fill_rand(rng);
                j = j + 1;
            }
            i = i + 1;
        }
    }
}

} // verus!
