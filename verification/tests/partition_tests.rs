use minesweeper_core::{partition_work, plan_batches, sample_columns, MinesOverflowError};

#[test]
fn partition_names_every_column_once_and_sums_exactly() {
    for _ in 0..20 {
        let work = partition_work(10, 5, 30);
        assert_eq!(work.len(), 10);
        let mut cols: Vec<usize> = work.iter().map(|p| p.0).collect();
        cols.sort();
        let all: Vec<usize> = (0..10).collect();
        assert_eq!(cols, all);
        let sum: usize = work.iter().map(|p| p.1).sum();
        assert_eq!(sum, 30);
        for &(_, count) in &work {
            assert!(count <= 5);
        }
    }
}

#[test]
fn partition_full_grid_fills_every_column() {
    let work = partition_work(3, 4, 12);
    assert_eq!(work.len(), 3);
    for &(col, count) in &work {
        assert!(col < 3);
        assert_eq!(count, 4);
    }
}

#[test]
fn partition_zero_mines_gives_empty_columns() {
    let work = partition_work(4, 3, 0);
    assert_eq!(work.len(), 4);
    let sum: usize = work.iter().map(|p| p.1).sum();
    assert_eq!(sum, 0);
}

#[test]
fn plan_batches_covers_items_with_ceiling_shares() {
    let batches = plan_batches(10, 4);
    assert_eq!(batches, vec![(0, 3), (3, 6), (6, 9), (9, 10)]);
}

#[test]
fn plan_batches_no_items_no_batches() {
    let batches = plan_batches(0, 4);
    assert!(batches.is_empty());
}

#[test]
fn plan_batches_more_workers_than_items() {
    let batches = plan_batches(5, 8);
    assert_eq!(batches, vec![(0, 1), (1, 2), (2, 3), (3, 4), (4, 5)]);
}

#[test]
fn plan_batches_uneven_split() {
    let batches = plan_batches(7, 2);
    assert_eq!(batches, vec![(0, 4), (4, 7)]);
}

#[test]
fn sample_columns_honours_each_work_item() {
    let work = vec![(0usize, 2usize), (1, 0), (2, 3)];
    let parts = sample_columns(&work, 3).unwrap();
    assert_eq!(parts.len(), 3);
    for (item, part) in work.iter().zip(parts.iter()) {
        assert_eq!(part.0, item.0);
        assert_eq!(part.1.len(), 3);
        assert_eq!(part.1.iter().filter(|&&b| b).count(), item.1);
    }
}

#[test]
fn sample_columns_rejects_overfull_item() {
    let work = vec![(0usize, 4usize)];
    assert_eq!(sample_columns(&work, 3), Err(MinesOverflowError));
}
