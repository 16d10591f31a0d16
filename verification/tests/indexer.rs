use gorrosion::indexer::Indexer;
use gorrosion::indexer::Rect;

#[test]
fn unit() {
    assert_eq!(().range(), 1);
    assert_eq!(().to_index(0), ());
    assert_eq!(().to_num(()), 0);
    assert!(().is_valid(()));
}

#[test]
fn integer() {
    let n: usize = 12;
    assert_eq!(n.range(), n);
    assert_eq!(n.to_index(6), 6);
    assert_eq!(n.to_num(11), 11);
}

#[test]
fn indexer_rect() {
    let h = 7;
    let w = 17;
    let rect = Rect::new(h, w);
    assert_eq!(rect.range(), h * w);
    assert_eq!(rect.to_index(0), (0, 0));
    assert_eq!(rect.to_index(w), (1, 0));
    assert_eq!(rect.to_num((0, 0)), 0);
    assert_eq!(rect.to_num((1, 0)), w);
}

#[test]
fn rect() {
    let h = 7;
    let w = 17;
    let rect = Rect::new(h, w);
    assert_eq!(rect.range(), h * w);
    assert_eq!(rect.to_index(0), (0, 0));
    assert_eq!(rect.to_index(w), (1, 0));
    assert_eq!(rect.to_num((0, 0)), 0);
    assert_eq!(rect.to_num((1, 0)), w);
}

#[test]
fn round_trip_over_a_whole_rectangle() {
    let rect = Rect::new(5, 3);
    for n in 0..15usize {
        assert!(rect.in_range(n));
        let (j, k) = rect.to_index(n);
        assert!(rect.is_valid((j, k)));
        assert_eq!((j, k), (n / 3, n % 3));
        assert_eq!(rect.to_num((j, k)), n);
    }
    assert!(!rect.in_range(15));
    assert!(!rect.is_valid((5, 0)));
    assert!(!rect.is_valid((0, 3)));
    assert_eq!(rect.to_num((4, 2)), 14);
    assert_eq!(rect.height(), 5);
    assert_eq!(rect.width(), 3);
}

#[test]
fn indexers_know_their_like() {
    assert!(().same(&()));
    assert!(7usize.same(&7));
    assert!(!7usize.same(&8));
    assert!(Rect::new(2, 3).same(&Rect::new(2, 3)));
    assert!(!Rect::new(2, 3).same(&Rect::new(3, 2)));
    assert_eq!(Rect::new(2, 3).duplicate(), Rect::new(2, 3));
    assert_eq!(9usize.duplicate(), 9);
    assert!(5usize.is_valid(4));
    assert!(!5usize.is_valid(5));
    assert!(().in_range(0));
    assert!(!().in_range(1));
}
