use gorrosion::field::bool_mat::BoolMat;
use gorrosion::field::bool_mat::BoolVec;

#[test]
fn false_mat() {
    assert_eq!(
        BoolMat::falses(3, 2),
        BoolMat {
            height: 3,
            width: 2,
            contents: vec![false; 6]
        }
    );
}

#[test]
fn set() {
    let mut bm = BoolMat::falses(1, 3);
    bm.set(0, 1);
    assert_eq!(
        bm,
        BoolMat {
            height: 1,
            width: 3,
            contents: vec![false, true, false]
        }
    );
}

#[test]
fn mult() {
    let mut a = BoolMat::falses(1, 2);
    let mut b = BoolMat::falses(2, 3);
    a.set(0, 0);
    b.set(0, 1);
    b.set(1, 0);
    b.set(1, 2);
    assert_eq!(
        BoolMat::mult(&a, &b),
        BoolMat {
            height: 1,
            width: 3,
            contents: vec![false, true, false]
        }
    )
}

#[test]
fn true_mat() {
    assert_eq!(
        BoolMat::trues(2, 2),
        BoolMat {
            height: 2,
            width: 2,
            contents: vec![true; 4]
        }
    );
}

#[test]
fn sym_set_writes_both_entries() {
    let mut bm = BoolMat::falses(3, 3);
    bm.sym_set(0, 2);
    assert_eq!(
        bm,
        BoolMat {
            height: 3,
            width: 3,
            contents: vec![false, false, true, false, false, false, true, false, false]
        }
    );
    assert!(bm.get(0, 2));
    assert!(bm.get(2, 0));
    assert!(!bm.get(1, 1));
}

#[test]
fn diagonal_of_a_vector() {
    let mut v = BoolVec::falses(3);
    v.set(0);
    v.set(2);
    assert_eq!(v.set_positions(), vec![0, 2]);
    assert_eq!(
        BoolMat::from_diag(&v),
        BoolMat {
            height: 3,
            width: 3,
            contents: vec![true, false, false, false, false, false, false, false, true]
        }
    );
    assert_eq!(BoolVec::trues(2).set_positions(), vec![0, 1]);
    assert_eq!(BoolVec::falses(2).set_positions(), Vec::<usize>::new());
}

#[test]
fn evaluation_collects_the_rows_that_meet_the_vector() {
    let mut m = BoolMat::falses(3, 2);
    m.set(0, 1);
    m.set(2, 0);
    let mut v = BoolVec::falses(2);
    v.set(1);
    let image = m.eval(&v);
    assert_eq!(image.len(), 3);
    assert!(image.get(0));
    assert!(!image.get(1));
    assert!(!image.get(2));
}

#[test]
fn union_and_complement_of_plain_vectors() {
    let mut a = BoolVec::falses(3);
    a.set(0);
    let mut b = BoolVec::falses(3);
    b.set(1);
    let u = BoolVec::union(&a, &b);
    assert_eq!(u.set_positions(), vec![0, 1]);
    assert_eq!(u.complement().set_positions(), vec![2]);
}
