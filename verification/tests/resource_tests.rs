use ems_telemetry::resource::{aggregate, RamAggregate, SampleWindow, WINDOW_CAPACITY};

const GIB: u64 = 1024 * 1024 * 1024;

#[test]
fn aggregate_of_four_samples() {
    let samples = vec![2 * GIB, 4 * GIB, 6 * GIB, 8 * GIB];
    let row = aggregate(&samples, 16 * GIB).unwrap();
    assert_eq!(row.min_bytes, 2 * GIB);
    assert_eq!(row.max_bytes, 8 * GIB);
    assert_eq!(row.avg_bytes, 5 * GIB);
    assert_eq!(row.total_bytes, 16 * GIB);
    assert_eq!(row.usage_basis_points, 3125);
}

#[test]
fn aggregate_of_nothing_is_no_row() {
    assert_eq!(aggregate(&Vec::new(), 16 * GIB), None);
}

#[test]
fn aggregate_rounds_the_mean_down() {
    let row = aggregate(&vec![1, 2], 3).unwrap();
    assert_eq!(
        row,
        RamAggregate {
            min_bytes: 1,
            max_bytes: 2,
            avg_bytes: 1,
            total_bytes: 3,
            usage_basis_points: 3333,
        }
    );
}

#[test]
fn aggregate_with_zero_total_has_zero_share() {
    let row = aggregate(&vec![7, 7, 7], 0).unwrap();
    assert_eq!(row.avg_bytes, 7);
    assert_eq!(row.usage_basis_points, 0);
}

#[test]
fn aggregate_of_largest_values_does_not_overflow() {
    let row = aggregate(&vec![u64::MAX, u64::MAX, u64::MAX], 1).unwrap();
    assert_eq!(row.min_bytes, u64::MAX);
    assert_eq!(row.max_bytes, u64::MAX);
    assert_eq!(row.avg_bytes, u64::MAX);
    assert_eq!(row.usage_basis_points, u64::MAX as u128 * 10_000);
}

#[test]
fn aggregate_finds_extremes_anywhere() {
    let row = aggregate(&vec![5, 9, 1, 7], 100).unwrap();
    assert_eq!(row.min_bytes, 1);
    assert_eq!(row.max_bytes, 9);
    assert_eq!(row.avg_bytes, 5);
    assert_eq!(row.usage_basis_points, 500);
}

#[test]
fn flush_empties_the_window_and_a_second_flush_gives_no_row() {
    let mut w = SampleWindow::new();
    for gb in [2u64, 4, 6, 8] {
        w.push(gb * GIB);
    }
    assert_eq!(w.len(), 4);
    let row = w.flush(10 * GIB).unwrap();
    assert_eq!(row.min_bytes, 2 * GIB);
    assert_eq!(row.max_bytes, 8 * GIB);
    assert_eq!(row.avg_bytes, 5 * GIB);
    assert_eq!(row.usage_basis_points, 5000);
    assert!(w.is_empty());
    assert_eq!(w.flush(10 * GIB), None);
    assert!(w.is_empty());
}

#[test]
fn flush_of_a_new_window_gives_no_row() {
    let mut w = SampleWindow::new();
    assert_eq!(w.flush(GIB), None);
}

#[test]
fn window_evicts_oldest_first_when_full() {
    let mut w = SampleWindow::new();
    for i in 0..WINDOW_CAPACITY as u64 {
        w.push(i);
    }
    assert_eq!(w.len(), WINDOW_CAPACITY);
    assert_eq!(w.samples()[0], 0);
    w.push(1000);
    assert_eq!(w.len(), WINDOW_CAPACITY);
    let held = w.samples();
    assert_eq!(held[0], 1);
    assert_eq!(held[WINDOW_CAPACITY - 1], 1000);
    w.push(1001);
    let held = w.samples();
    assert_eq!(held[0], 2);
    assert_eq!(held[WINDOW_CAPACITY - 2], 1000);
    assert_eq!(held[WINDOW_CAPACITY - 1], 1001);
}

#[test]
fn drain_hands_back_what_was_held_in_order() {
    let mut w = SampleWindow::new();
    w.push(3);
    w.push(1);
    w.push(2);
    assert_eq!(w.drain(), vec![3, 1, 2]);
    assert!(w.is_empty());
    assert_eq!(w.drain(), Vec::<u64>::new());
}
