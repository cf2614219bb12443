use prim::deadline::Deadlines;

#[test]
fn watch_comes_due_one_timeout_after_it_was_sent() {
    let mut d = Deadlines::new(8, 3000, 1_000).unwrap();
    assert_eq!(d.watch(1, 1_000), 4_000);
    assert_eq!(d.due(1), Some(4_000));
    assert_eq!(d.due(2), None);
    assert_eq!(d.tick(3_999), Vec::<u64>::new());
    assert_eq!(d.due(1), Some(4_000));
    assert_eq!(d.tick(4_000), vec![1]);
    assert_eq!(d.due(1), None);
    assert_eq!(d.tick(9_000), Vec::<u64>::new());
}

#[test]
fn reply_cancels_the_watch() {
    let mut d = Deadlines::new(8, 100, 0).unwrap();
    d.watch(1, 0);
    d.watch(2, 0);
    assert!(d.cancel(1));
    assert!(!d.cancel(1));
    assert!(!d.cancel(9));
    assert_eq!(d.tick(100), vec![2]);
    assert_eq!(d.tick(200), Vec::<u64>::new());
}

#[test]
fn tick_hands_out_everything_that_has_come_due() {
    let mut d = Deadlines::new(4, 10, 0).unwrap();
    for id in 0..20u64 {
        d.watch(id, id);
    }
    let mut first = d.tick(14);
    first.sort();
    assert_eq!(first, vec![0, 1, 2, 3, 4]);
    let mut second = d.tick(1_000_000);
    second.sort();
    assert_eq!(second, (5..20u64).collect::<Vec<u64>>());
    assert_eq!(d.tick(2_000_000), Vec::<u64>::new());
}

#[test]
fn watch_beyond_one_turn_of_the_wheel_waits_its_turn() {
    let mut d = Deadlines::new(4, 0, 0).unwrap();
    assert_eq!(d.watch(1, 9), 9);
    assert_eq!(d.watch(2, 5), 5);
    assert_eq!(d.watch(3, 1), 1);
    assert_eq!(d.tick(1), vec![3]);
    assert_eq!(d.tick(4), Vec::<u64>::new());
    assert_eq!(d.tick(5), vec![2]);
    assert_eq!(d.tick(8), Vec::<u64>::new());
    assert_eq!(d.tick(9), vec![1]);
}

#[test]
fn watch_set_anew_takes_the_later_time() {
    let mut d = Deadlines::new(4, 10, 0).unwrap();
    assert_eq!(d.watch(7, 0), 10);
    assert_eq!(d.watch(7, 5), 15);
    assert_eq!(d.tick(10), Vec::<u64>::new());
    assert_eq!(d.tick(15), vec![7]);
    d.watch(8, 20);
    d.watch(8, 20);
    assert_eq!(d.tick(30), vec![8]);
}

#[test]
fn late_watch_comes_due_with_the_next_tick() {
    let mut d = Deadlines::new(4, 10, 100).unwrap();
    assert_eq!(d.watch(1, 50), 101);
    assert_eq!(d.tick(100), Vec::<u64>::new());
    assert_eq!(d.tick(101), vec![1]);
}

#[test]
fn clock_does_not_go_back_and_stops_short_of_the_end() {
    let mut d = Deadlines::new(4, 10, 100).unwrap();
    d.watch(1, 95);
    assert_eq!(d.tick(99), Vec::<u64>::new());
    assert_eq!(d.due(1), Some(105));
    assert_eq!(d.watch(2, u64::MAX), u64::MAX);
    let mut all = d.tick(u64::MAX);
    all.sort();
    assert_eq!(all, vec![1]);
    assert_eq!(d.due(2), Some(u64::MAX));
    assert!(Deadlines::new(0, 10, 0).is_none());
}
