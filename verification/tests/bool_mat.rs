use gorrosion::bool_mat::BoolMat;
use gorrosion::bool_vec::BoolVec;
use gorrosion::indexer::Indexer;
use gorrosion::indexer::Rect;

fn matrix(height: usize, width: usize, bits: &[u8]) -> BoolMat<usize, usize> {
    let mut m = BoolMat::falses(height, width);
    for j in 0..height {
        for k in 0..width {
            if bits[j * width + k] != 0 {
                m.set(j, k, true);
            }
        }
    }
    m
}

#[test]
fn product_of_small_matrices() {
    let a = matrix(1, 2, &[1, 0]);
    let b = matrix(2, 3, &[0, 1, 0, 1, 0, 1]);
    assert_eq!(&a * &b, matrix(1, 3, &[0, 1, 0]));
    assert_eq!(a.mult(&b), matrix(1, 3, &[0, 1, 0]));
    let c = matrix(2, 2, &[1, 1, 0, 1]);
    let d = matrix(2, 2, &[0, 1, 1, 0]);
    assert_eq!(&c * &d, matrix(2, 2, &[1, 1, 1, 0]));
    assert_eq!(&d * &c, matrix(2, 2, &[0, 1, 1, 1]));
    assert_eq!(&c * d.clone(), matrix(2, 2, &[1, 1, 1, 0]));
    assert_eq!(c.clone() * &d, matrix(2, 2, &[1, 1, 1, 0]));
    assert_eq!(c * d, matrix(2, 2, &[1, 1, 1, 0]));
}

#[test]
fn product_is_associative_on_samples() {
    let a = matrix(2, 3, &[1, 0, 1, 0, 1, 0]);
    let b = matrix(3, 2, &[0, 1, 1, 0, 0, 0]);
    let c = matrix(2, 4, &[1, 0, 0, 1, 0, 1, 0, 0]);
    let left = &(&a * &b) * &c;
    let right = &a * &(&b * &c);
    assert_eq!(left, right);
    assert_eq!(left, matrix(2, 4, &[0, 1, 0, 0, 1, 0, 0, 1]));
}

#[test]
fn identity_is_neutral() {
    let m = matrix(2, 3, &[1, 0, 1, 0, 1, 1]);
    let left = BoolMat::id_matrix(2usize);
    let right = BoolMat::from_diag(&BoolVec::trues(3usize));
    assert_eq!(&left * &m, m);
    assert_eq!(&m * &right, m);
    assert_eq!(left, matrix(2, 2, &[1, 0, 0, 1]));
}

#[test]
fn diagonal_masks_rows_and_columns() {
    let v = BoolVec::from_data(vec![true, false, true], 3usize);
    let diag = BoolMat::from_diag(&v);
    assert_eq!(diag, matrix(3, 3, &[1, 0, 0, 0, 0, 0, 0, 0, 1]));
    let all = BoolMat::trues(3usize, 3usize);
    assert_eq!(&diag * &all, matrix(3, 3, &[1, 1, 1, 0, 0, 0, 1, 1, 1]));
    assert_eq!(&all * &diag, matrix(3, 3, &[1, 0, 1, 1, 0, 1, 1, 0, 1]));
}

#[test]
fn eval_agrees_with_the_product_by_a_column() {
    let m = matrix(3, 2, &[0, 1, 0, 0, 1, 0]);
    let v = BoolVec::from_data(vec![false, true], 2usize);
    let image = m.eval(&v);
    assert_eq!(image, BoolVec::from_data(vec![true, false, false], 3usize));
    let column = matrix(2, 1, &[0, 1]);
    assert_eq!(&m * &column, matrix(3, 1, &[1, 0, 0]));
    let w = BoolVec::from_data(vec![true, true], 2usize);
    assert_eq!(m.eval(&w), BoolVec::from_data(vec![true, false, true], 3usize));
}

#[test]
fn entries_are_addressed_by_the_indexers() {
    let rect = Rect::new(2, 2);
    let mut m = BoolMat::falses(rect, 3usize);
    m[((1, 0), 2)] = true;
    assert!(m[((1, 0), 2)]);
    assert!(m.get_num(2, 2));
    assert!(!m[((0, 1), 2)]);
    m.set((0, 1), 0, true);
    assert!(m.get_num(1, 0));
    m.set_num(1, 0, false);
    assert_eq!(*m.rows(), rect);
}

#[test]
fn matrices_differ_by_shape_and_by_entries() {
    let a = BoolMat::falses(2usize, 3usize);
    let b = BoolMat::falses(3usize, 2usize);
    assert!(!a.equals(&b));
    assert!(a.equals(&BoolMat::falses(2usize, 3usize)));
    assert!(!a.equals(&BoolMat::trues(2usize, 3usize)));
    assert!(a.equals(&a.clone()));
    assert_eq!(*a.columns(), 3usize);
}

#[test]
fn products_of_empty_shapes() {
    let a = BoolMat::falses(0usize, 3usize);
    let b = BoolMat::trues(3usize, 2usize);
    assert_eq!(&a * &b, BoolMat::falses(0usize, 2usize));
    let c = BoolMat::trues(2usize, 0usize);
    let d = BoolMat::trues(0usize, 2usize);
    assert_eq!(&c * &d, BoolMat::falses(2usize, 2usize));
    let v = BoolVec::falses(0usize);
    assert_eq!(c.eval(&v), BoolVec::falses(2usize));
    assert_eq!(BoolMat::id_matrix(0usize), BoolMat::falses(0usize, 0usize));
    let rect = Rect::new(0, 5);
    assert_eq!(rect.range(), 0);
    assert_eq!(BoolVec::falses(rect).len(), 0);
}
