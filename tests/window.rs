use frame_blend::error::BlendError;
use frame_blend::window::BoundedWindow;

#[test]
fn window_of_zero_capacity_is_refused() {
    assert!(matches!(BoundedWindow::new(0), Err(BlendError::InvalidCapacity)));
}

#[test]
fn window_starts_empty() {
    let w = BoundedWindow::new(4).unwrap();
    assert_eq!(w.len(), 0);
    assert_eq!(w.capacity(), 4);
    assert!(w.snapshot().is_empty());
}

#[test]
fn window_appends_until_full() {
    let mut w = BoundedWindow::new(3).unwrap();
    w.push(7);
    w.push(8);
    assert_eq!(w.snapshot(), vec![7, 8]);
    assert_eq!(w.len(), 2);
}

#[test]
fn window_keeps_last_k_oldest_first() {
    let mut w = BoundedWindow::new(3).unwrap();
    for x in 0..10usize {
        w.push(x);
        assert!(w.len() <= 3);
    }
    assert_eq!(w.snapshot(), vec![7, 8, 9]);
    assert_eq!(w.len(), 3);
    assert_eq!(w.capacity(), 3);
}

#[test]
fn window_of_one_holds_latest() {
    let mut w = BoundedWindow::new(1).unwrap();
    w.push(4);
    w.push(5);
    assert_eq!(w.snapshot(), vec![5]);
}

#[test]
fn window_snapshots_do_not_mutate() {
    let mut w = BoundedWindow::new(2).unwrap();
    w.push(1);
    w.push(2);
    w.push(3);
    let a = w.snapshot();
    let b = w.snapshot();
    assert_eq!(a, b);
    assert_eq!(a, vec![2, 3]);
    assert_eq!(w.len(), 2);
}

#[test]
fn window_with_huge_capacity_allocates_lazily() {
    let mut w = BoundedWindow::new(usize::MAX).unwrap();
    w.push(1);
    assert_eq!(w.snapshot(), vec![1]);
    assert_eq!(w.capacity(), usize::MAX);
}
