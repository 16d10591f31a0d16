use gorrosion::bool_vec::BoolVec;
use gorrosion::indexer::Rect;

#[test]
fn doc_tests() {
    let indexer = 17;
    let falses = BoolVec::falses(indexer);
    for i in 0..17 {
        assert_eq!(falses[i], false);
    }
    let indexer = 23;
    let trues = BoolVec::trues(indexer);
    for i in 0..23 {
        assert_eq!(trues[i], true);
    }
    let indexer = 3;
    let a = BoolVec::from_data(vec![true, true, false], indexer);
    let b = BoolVec::from_data(vec![false, true, true], indexer);
    let c = BoolVec::from_data(vec![false, true, false], indexer);
    assert_eq!(a.intersection(&b), c);
    let indexer = 3;
    let a = BoolVec::from_data(vec![false, true, false], indexer);
    let b = BoolVec::from_data(vec![false, false, true], indexer);
    let c = BoolVec::from_data(vec![false, true, true], indexer);
    assert_eq!(a.union(&b), c);
    let indexer = 3;
    let a = BoolVec::from_data(vec![true, true, false], indexer);
    let b = BoolVec::from_data(vec![false, false, true], indexer);
    assert_eq!(a.complement(), b);
    let rect = Rect::new(2, 3);
    let num = 6;
    let vec_rect = BoolVec::falses(rect);
    let vec_num = BoolVec::falses(num);
    assert_eq!(vec_num, vec_rect.reindex(num));
}

#[test]
fn operators_agree_with_the_named_operations() {
    let a = BoolVec::from_data(vec![true, true, false, false], 4usize);
    let b = BoolVec::from_data(vec![true, false, true, false], 4usize);
    assert_eq!(&a & &b, a.intersection(&b));
    assert_eq!(&a | &b, a.union(&b));
    assert_eq!(!&a, a.complement());
    assert_eq!(&a & &b, BoolVec::from_data(vec![true, false, false, false], 4usize));
    assert_eq!(&a | &b, BoolVec::from_data(vec![true, true, true, false], 4usize));
}

#[test]
fn de_morgan_on_all_pairs_of_length_three() {
    for x in 0..8u8 {
        for y in 0..8u8 {
            let a = BoolVec::from_data(vec![x & 1 != 0, x & 2 != 0, x & 4 != 0], 3usize);
            let b = BoolVec::from_data(vec![y & 1 != 0, y & 2 != 0, y & 4 != 0], 3usize);
            assert_eq!(
                a.union(&b).complement(),
                a.complement().intersection(&b.complement())
            );
            assert_eq!(
                a.intersection(&b).complement(),
                a.complement().union(&b.complement())
            );
            assert_eq!(a.complement().complement(), a);
        }
    }
}

#[test]
fn writing_one_position_changes_that_position_only() {
    let rect = Rect::new(2, 3);
    let mut v = BoolVec::falses(rect);
    v.set((1, 0), true);
    assert_eq!(v, BoolVec::from_data(vec![false, false, false, true, false, false], rect));
    v[(0, 2)] = true;
    assert_eq!(v, BoolVec::from_data(vec![false, false, true, true, false, false], rect));
    v.set_num(3, false);
    assert!(!v[(1, 0)]);
    assert!(v.get_num(2));
    assert_eq!(v.len(), 6);
}

#[test]
fn equality_needs_the_same_indexer_and_the_same_values() {
    let a = BoolVec::from_data(vec![true, false], 2usize);
    let b = BoolVec::from_data(vec![true, false], 2usize);
    let c = BoolVec::from_data(vec![true, true], 2usize);
    assert!(a.equals(&b));
    assert!(!a.equals(&c));
    let d = BoolVec::falses(Rect::new(2, 3));
    let e = BoolVec::falses(Rect::new(3, 2));
    assert!(!d.equals(&e));
    assert!(d.equals(&d.clone()));
    assert_eq!(*a.indexer(), 2usize);
}
