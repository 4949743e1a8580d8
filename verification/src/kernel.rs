//! The 2mm benchmark kernel: two chained, scaled matrix products over `i8`
//! with wrapping arithmetic, `D = beta * ((alpha * A * B) * C)`.
use vstd::prelude::*;
use rand::rngs::SmallRng;
use rand::Rng;
use rand::SeedableRng;
use crate::array::{Array1D, Array2D, Array3D};

verus! {

/// The element type of the kernel's matrices.
pub type T = i8;

/// The side length of the kernel's square matrices.
pub const N: usize = 512;

/// The seed of the generator that fills the kernel's matrices.
pub const SEED: u64 = 123;

/// A generator seeded with `seed` (`SeedableRng::seed_from_u64`).  Its state is
/// opaque here, so nothing is stated of it.
#[verifier::external_body]
fn small_rng_from_seed(seed: u64) -> SmallRng {
    SmallRng::seed_from_u64(seed)
}

/// The next `i8` drawn from `rng` (`Rng::random`); any value may come.
#[verifier::external_body]
fn random_i8(rng: &mut SmallRng) -> i8 {
    rng.random()
}

/// Allocation of an array on the heap whose values the caller must not rely on.
pub trait ArrayAlloc: Sized {
    /// A boxed array whose values callers must overwrite before reading; each
    /// implementation here fills it with the element type's default value.
    fn uninit() -> Box<Self>;
}

impl<T: Copy + Default, const M: usize> ArrayAlloc for Array1D<T, M> {
    fn uninit() -> (r: Box<Self>)
        ensures
            forall|i: int| 0 <= i < M ==> call_ensures(T::default, (), #[trigger] r@[i]),
    {
        let v = T::default();
        assert(call_ensures(T::default, (), v));
        Box::new(Array1D([v; M]))
    }
}

impl<T: Copy + Default, const M: usize, const N: usize> ArrayAlloc for Array2D<T, M, N> {
    fn uninit() -> (r: Box<Self>)
        ensures
            forall|i: int, j: int|
                0 <= i < M && 0 <= j < N ==> call_ensures(T::default, (), #[trigger] r@[i][j]),
    {
        let v = T::default();
        let row = Array1D([v; N]);
        let r = Box::new(Array2D([row; M]));
        assert forall|i: int, j: int| 0 <= i < M && 0 <= j < N implies call_ensures(
            T::default,
            (),
            #[trigger] r@[i][j],
        ) by {
            assert(r@[i] == row@);
        }
        r
    }
}

impl<T: Copy + Default, const M: usize, const N: usize, const P: usize> ArrayAlloc for Array3D<
    T,
    M,
    N,
    P,
> {
    fn uninit() -> (r: Box<Self>)
        ensures
            forall|i: int, j: int, k: int|
                0 <= i < M && 0 <= j < N && 0 <= k < P ==> call_ensures(
                    T::default,
                    (),
                    #[trigger] r@[i][j][k],
                ),
    {
        let v = T::default();
        let row = Array1D([v; P]);
        let plane = Array2D([row; N]);
        let r = Box::new(Array3D([plane; M]));
        assert forall|i: int, j: int, k: int|
            0 <= i < M && 0 <= j < N && 0 <= k < P implies call_ensures(
            T::default,
            (),
            #[trigger] r@[i][j][k],
        ) by {
            assert(r@[i] == plane@);
            assert(plane@[j] == row@);
        }
        r
    }
}

/// The first `k` terms of entry `(i, j)` of `scale * a * b`, summed with
/// wrapping `i8` arithmetic in the order of `k`:
/// `sum_{kk < k} scale * (a[i][kk] * b[kk][j])`.
pub open spec fn scaled_dot(
    scale: i8,
    a: Seq<Seq<i8>>,
    b: Seq<Seq<i8>>,
    i: int,
    j: int,
    k: nat,
) -> i8
    decreases k,
{
    if k == 0 {
        0
    } else {
        let kk = k - 1;
        scaled_dot(scale, a, b, i, j, kk as nat).wrapping_add(
            scale.wrapping_mul(a[i][kk].wrapping_mul(b[kk][j])),
        )
    }
}

/// The `n` by `n` matrix `scale * a * b` in wrapping `i8` arithmetic.
pub open spec fn scaled_product(scale: i8, a: Seq<Seq<i8>>, b: Seq<Seq<i8>>, n: nat) -> Seq<
    Seq<i8>,
> {
    Seq::new(n, |i: int| Seq::new(n, |j: int| scaled_dot(scale, a, b, i, j, n)))
}

/// The `n` by `n` matrix of zeros.
pub open spec fn zero_matrix(n: nat) -> Seq<Seq<i8>> {
    Seq::new(n, |i: int| Seq::new(n, |j: int| 0i8))
}

/// Every row of `m` has `n` entries, and there are `n` rows.
pub open spec fn is_square(m: Seq<Seq<i8>>, n: nat) -> bool {
    m.len() == n && forall|i: int| 0 <= i < n ==> #[trigger] m[i].len() == n
}

/// Writes `scale * a * b` into `out`, entry by entry, each entry summed from
/// zero in the order of the inner index.
pub fn scaled_matmul<const M: usize>(
    scale: i8,
    a: &Array2D<i8, M, M>,
    b: &Array2D<i8, M, M>,
    out: &mut Array2D<i8, M, M>,
)
    ensures
        final(out)@ == scaled_product(scale, a@, b@, M as nat),
{
    assert(is_square(a@, M as nat));
    assert(is_square(b@, M as nat));
    let mut i: usize = 0;
    while i < M
        invariant
            i <= M,
            is_square(out@, M as nat),
            forall|ii: int, jj: int|
                0 <= ii < i && 0 <= jj < M ==> #[trigger] out@[ii][jj] == scaled_dot(
                    scale,
                    a@,
                    b@,
                    ii,
                    jj,
                    M as nat,
                ),
        decreases M - i,
    {
        let mut j: usize = 0;
        while j < M
            invariant
                i < M,
                j <= M,
                is_square(out@, M as nat),
                forall|ii: int, jj: int|
                    0 <= ii < i && 0 <= jj < M ==> #[trigger] out@[ii][jj] == scaled_dot(
                        scale,
                        a@,
                        b@,
                        ii,
                        jj,
                        M as nat,
                    ),
                forall|jj: int|
                    0 <= jj < j ==> #[trigger] out@[i as int][jj] == scaled_dot(
                        scale,
                        a@,
                        b@,
                        i as int,
                        jj,
                        M as nat,
                    ),
            decreases M - j,
        {
            out.set(i, j, 0);
            let mut k: usize = 0;
            while k < M
                invariant
                    i < M,
                    j < M,
                    k <= M,
                    is_square(out@, M as nat),
                    forall|ii: int, jj: int|
                        0 <= ii < i && 0 <= jj < M ==> #[trigger] out@[ii][jj] == scaled_dot(
                            scale,
                            a@,
                            b@,
                            ii,
                            jj,
                            M as nat,
                        ),
                    forall|jj: int|
                        0 <= jj < j ==> #[trigger] out@[i as int][jj] == scaled_dot(
                            scale,
                            a@,
                            b@,
                            i as int,
                            jj,
                            M as nat,
                        ),
                    out@[i as int][j as int] == scaled_dot(
                        scale,
                        a@,
                        b@,
                        i as int,
                        j as int,
                        k as nat,
                    ),
                decreases M - k,
            {
                let acc = out.get(i, j);
                let term = scale.wrapping_mul(a.get(i, k).wrapping_mul(b.get(k, j)));
                out.set(i, j, acc.wrapping_add(term));
                k = k + 1;
            }
            j = j + 1;
        }
        i = i + 1;
    }
    assert(out@ =~= scaled_product(scale, a@, b@, M as nat)) by {
        assert forall|ii: int| 0 <= ii < M implies #[trigger] out@[ii] =~= scaled_product(
            scale,
            a@,
            b@,
            M as nat,
        )[ii] by {
            assert forall|jj: int| 0 <= jj < M implies out@[ii][jj] == scaled_product(
                scale,
                a@,
                b@,
                M as nat,
            )[ii][jj] by {
                assert(out@[ii][jj] == scaled_dot(scale, a@, b@, ii, jj, M as nat));
            }
        }
    }
}

/// The 2mm kernel's state: a seeded generator, the input matrices `a`, `b`,
/// `c`, the intermediate product `tmp` and the result `d`.
pub struct Kernel2MM {
    rng: SmallRng,
    tmp: Box<Array2D<T, N, N>>,
    a: Box<Array2D<T, N, N>>,
    b: Box<Array2D<T, N, N>>,
    c: Box<Array2D<T, N, N>>,
    d: Box<Array2D<T, N, N>>,
}

impl Kernel2MM {
    /// The matrix `a`.
    pub closed spec fn spec_a(&self) -> Seq<Seq<i8>> {
        self.a@
    }

    /// The matrix `b`.
    pub closed spec fn spec_b(&self) -> Seq<Seq<i8>> {
        self.b@
    }

    /// The matrix `c`.
    pub closed spec fn spec_c(&self) -> Seq<Seq<i8>> {
        self.c@
    }

    /// The intermediate product.
    pub closed spec fn spec_tmp(&self) -> Seq<Seq<i8>> {
        self.tmp@
    }

    /// The result matrix.
    pub closed spec fn spec_d(&self) -> Seq<Seq<i8>> {
        self.d@
    }

    /// A kernel whose generator is seeded with the fixed seed and whose input
    /// matrices are filled from it, in the order `a`, `b`, `c`, `d`; the
    /// intermediate product starts out as zeros.
    pub fn new() -> (kernel: Self)
        ensures
            is_square(kernel.spec_a(), N as nat),
            is_square(kernel.spec_b(), N as nat),
            is_square(kernel.spec_c(), N as nat),
            kernel.spec_tmp() == zero_matrix(N as nat),
    {
        let mut rng = small_rng_from_seed(SEED);
        let tmp = Array2D::<T, N, N>::uninit();
        let mut a = Array2D::<T, N, N>::uninit();
        let mut b = Array2D::<T, N, N>::uninit();
        let mut c = Array2D::<T, N, N>::uninit();
        let mut d = Array2D::<T, N, N>::uninit();
        a.fill_rand(&mut rng);
        b.fill_rand(&mut rng);
        c.fill_rand(&mut rng);
        d.fill_rand(&mut rng);
        assert(tmp@ =~= zero_matrix(N as nat)) by {
            assert forall|i: int| 0 <= i < N implies #[trigger] tmp@[i] =~= zero_matrix(
                N as nat,
            )[i] by {
                assert forall|j: int| 0 <= j < N implies tmp@[i][j] == 0i8 by {
                    assert(call_ensures(i8::default, (), tmp@[i][j]));
                }
            }
        }
        let kernel = Kernel2MM { rng, tmp, a, b, c, d };
        assert(is_square(kernel.spec_a(), N as nat));
        assert(is_square(kernel.spec_b(), N as nat));
        assert(is_square(kernel.spec_c(), N as nat));
        kernel
    }

    /// Computes `tmp = alpha * a * b` and then `d = beta * tmp * c`.
    pub fn run_with(&mut self, alpha: i8, beta: i8)
        ensures
            final(self).spec_a() == old(self).spec_a(),
            final(self).spec_b() == old(self).spec_b(),
            final(self).spec_c() == old(self).spec_c(),
            final(self).spec_tmp() == scaled_product(
                alpha,
                old(self).spec_a(),
                old(self).spec_b(),
                N as nat,
            ),
            final(self).spec_d() == scaled_product(
                beta,
                final(self).spec_tmp(),
                old(self).spec_c(),
                N as nat,
            ),
    {
        scaled_matmul(alpha, &self.a, &self.b, &mut self.tmp);
        scaled_matmul(beta, &self.tmp, &self.c, &mut self.d);
    }

    /// Draws `alpha` and then `beta` from the generator and runs the kernel
    /// with them.
    pub fn run(&mut self)
        ensures
            final(self).spec_a() == old(self).spec_a(),
            final(self).spec_b() == old(self).spec_b(),
            final(self).spec_c() == old(self).spec_c(),
            exists|alpha: i8, beta: i8|
                {
                    &&& final(self).spec_tmp() == #[trigger] scaled_product(
                        alpha,
                        old(self).spec_a(),
                        old(self).spec_b(),
                        N as nat,
                    )
                    &&& final(self).spec_d() == #[trigger] scaled_product(
                        beta,
                        final(self).spec_tmp(),
                        old(self).spec_c(),
                        N as nat,
                    )
                },
    {
        let alpha = random_i8(&mut self.rng);
        let beta = random_i8(&mut self.rng);
        self.run_with(alpha, beta);
    }
}

} // verus!
