use interference_mitigation::array::{Array1D, Array2D};
use interference_mitigation::kernel::{scaled_matmul, ArrayAlloc, Kernel2MM};

fn reference(scale: i8, a: &[[i8; 3]; 3], b: &[[i8; 3]; 3]) -> [[i8; 3]; 3] {
    let mut out = [[0i8; 3]; 3];
    for i in 0..3 {
        for j in 0..3 {
            let mut acc = 0i8;
            for k in 0..3 {
                acc = acc.wrapping_add(scale.wrapping_mul(a[i][k].wrapping_mul(b[k][j])));
            }
            out[i][j] = acc;
        }
    }
    out
}

fn wrap(m: [[i8; 3]; 3]) -> Array2D<i8, 3, 3> {
    Array2D([Array1D(m[0]), Array1D(m[1]), Array1D(m[2])])
}

#[test]
fn scaled_product_small() {
    let a = [[1, 2, 3], [4, 5, 6], [7, 8, 9]];
    let b = [[9, 8, 7], [6, 5, 4], [3, 2, 1]];
    let mut out = wrap([[0; 3]; 3]);
    scaled_matmul(2, &wrap(a), &wrap(b), &mut out);
    let expected = reference(2, &a, &b);
    for i in 0..3 {
        for j in 0..3 {
            assert_eq!(out.get(i, j), expected[i][j]);
        }
    }
    // entry (0, 0): 2 * (9 + 12 + 9) = 60
    assert_eq!(out.get(0, 0), 60);
}

#[test]
fn scaled_product_wraps() {
    let a = [[100, 100, 0], [0, 0, 0], [0, 0, 0]];
    let b = [[100, 0, 0], [100, 0, 0], [0, 0, 0]];
    let mut out = wrap([[5; 3]; 3]);
    scaled_matmul(3, &wrap(a), &wrap(b), &mut out);
    assert_eq!(out.get(0, 0), reference(3, &a, &b)[0][0]);
    assert_eq!(out.get(1, 1), 0);
}

#[test]
fn array_access() {
    let mut row: Array1D<i32, 4> = Array1D([1, 2, 3, 4]);
    assert_eq!(*row.index(2), 3);
    *row.index_mut(2) = 30;
    row.set(0, 10);
    assert_eq!(row.0, [10, 2, 30, 4]);
    let mut m = wrap([[0; 3]; 3]);
    m.set(1, 2, -4);
    assert_eq!(m.index(1).0, [0, 0, -4]);
    m.index_mut(0).set(0, 9);
    assert_eq!(m.get(0, 0), 9);
}

#[test]
fn boxed_arrays_have_their_shape() {
    let m = Array2D::<i8, 4, 5>::uninit();
    assert_eq!(m.0.len(), 4);
    assert_eq!(m.0[0].0.len(), 5);
}

#[test]
fn kernel_filling_is_deterministic() {
    let mut a = Array2D::<i8, 8, 8>::uninit();
    let mut b = Array2D::<i8, 8, 8>::uninit();
    let mut rng1 = <rand::rngs::SmallRng as rand::SeedableRng>::seed_from_u64(123);
    let mut rng2 = <rand::rngs::SmallRng as rand::SeedableRng>::seed_from_u64(123);
    a.fill_rand(&mut rng1);
    b.fill_rand(&mut rng2);
    for i in 0..8 {
        assert_eq!(a.index(i).0, b.index(i).0);
    }
    let _ = Kernel2MM::new();
}

#[test]
fn boxed_arrays_start_at_default() {
    let row = Array1D::<i8, 6>::uninit();
    assert_eq!(row.0, [0; 6]);
    let m = Array2D::<i16, 3, 2>::uninit();
    for i in 0..3 {
        assert_eq!(m.index(i).0, [0; 2]);
    }
    let c = interference_mitigation::array::Array3D::<u8, 2, 2, 2>::uninit();
    assert_eq!(c.0[1].0[1].0, [0; 2]);
}
