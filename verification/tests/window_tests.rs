use kps_meter::window::{TimestampWindow, WINDOW_CAPACITY};

#[test]
fn empty_window_has_no_ends() {
    let w = TimestampWindow::new();
    assert_eq!(w.len(), 0);
    assert_eq!(w.front(), None);
    assert_eq!(w.back(), None);
    assert_eq!(w.entries(), Vec::<u64>::new());
}

#[test]
fn window_never_exceeds_capacity() {
    let mut w = TimestampWindow::new();
    for i in 0..40u64 {
        w.push(i * 100);
        assert!(w.len() <= WINDOW_CAPACITY);
        let e = w.entries();
        assert!(e.len() <= 8);
        // The retained entries are the most recent pushes, in push order.
        let lo = if i >= 8 { i - 7 } else { 0 };
        let expect: Vec<u64> = (lo..=i).map(|j| j * 100).collect();
        assert_eq!(e, expect);
    }
}

#[test]
fn ninth_push_evicts_first() {
    let mut w = TimestampWindow::new();
    for i in 1..=9u64 {
        w.push(i);
    }
    assert_eq!(w.entries(), vec![2, 3, 4, 5, 6, 7, 8, 9]);
    assert_eq!(w.front(), Some(2));
    assert_eq!(w.back(), Some(9));
    assert_eq!(w.len(), 8);
}

#[test]
fn window_front_back_and_get() {
    let mut w = TimestampWindow::new();
    w.push(10);
    w.push(20);
    w.push(30);
    assert_eq!(w.front(), Some(10));
    assert_eq!(w.back(), Some(30));
    assert_eq!(w.get(1), 20);
    assert_eq!(w.entries(), vec![10, 20, 30]);
}
