use minesweeper_core::{
    get_grid, get_grid_flat, get_grid_partitioned, MinesOverflowError, MINES_THRESHOLD,
};
use rand::rngs::SmallRng;
use rand::Rng;
use rand::SeedableRng;

fn total_mines(grid: &[Vec<bool>]) -> usize {
    grid.iter().flatten().filter(|&&b| b).count()
}

#[test]
fn test_get_grid_single_thread() {
    let mut rng = SmallRng::from_entropy();
    for _ in 0..100 {
        let width = rng.gen_range(0..(MINES_THRESHOLD as f64).sqrt() as usize);
        let height = rng.gen_range(0..(MINES_THRESHOLD as f64).sqrt() as usize);
        let input_mines = rng.gen_range(0..MINES_THRESHOLD);

        let mines_grid_res = get_grid(width, height, input_mines);
        if let Ok(mines_grid) = mines_grid_res {
            let mines_n = mines_grid
                .into_iter()
                .flatten()
                .fold(0, |acc, x| if x { acc + 1 } else { acc });
            assert_eq!(mines_n, input_mines)
        } else {
            assert_eq!(mines_grid_res, Err(MinesOverflowError))
        }
    }
}

#[test]
fn test_get_grid_multithread() {
    let mut rng = SmallRng::from_entropy();
    for _ in 0..100 {
        let width = rng.gen_range((MINES_THRESHOLD as f64).sqrt() as usize..999);
        let height = rng.gen_range((MINES_THRESHOLD as f64).sqrt() as usize..999);
        let input_mines = rng.gen_range(MINES_THRESHOLD..99999);

        println!("width = {width}, height = {height}, input_mines = {input_mines}");
        let mines_grid_res = get_grid(width, height, input_mines);
        if let Ok(mines_grid) = mines_grid_res {
            let mines_n = mines_grid
                .into_iter()
                .flatten()
                .fold(0, |acc, x| if x { acc + 1 } else { acc });
            assert_eq!(mines_n, input_mines)
        } else {
            assert_eq!(mines_grid_res, Err(MinesOverflowError))
        }
    }
}

#[test]
fn one_cell_no_mine() {
    assert_eq!(get_grid(1, 1, 0), Ok(vec![vec![false]]));
}

#[test]
fn one_cell_one_mine() {
    assert_eq!(get_grid(1, 1, 1), Ok(vec![vec![true]]));
}

#[test]
fn one_cell_two_mines_overflows() {
    assert_eq!(get_grid(1, 1, 2), Err(MinesOverflowError));
}

#[test]
fn full_grid_every_cell_mined() {
    let grid = get_grid(5, 5, 25).unwrap();
    assert_eq!(grid.len(), 5);
    for col in &grid {
        assert_eq!(col, &vec![true; 5]);
    }
}

#[test]
fn large_grid_exact_count_and_column_capacity() {
    let grid = get_grid(1000, 1000, 90000).unwrap();
    assert_eq!(grid.len(), 1000);
    for col in &grid {
        assert_eq!(col.len(), 1000);
        assert!(col.iter().filter(|&&b| b).count() <= 1000);
    }
    assert_eq!(total_mines(&grid), 90000);
}

#[test]
fn zero_columns_give_empty_grid() {
    assert_eq!(get_grid(0, 5, 0), Ok(Vec::new()));
}

#[test]
fn flat_path_holds_at_threshold_boundary() {
    for mines_n in [MINES_THRESHOLD - 1, MINES_THRESHOLD, MINES_THRESHOLD + 1] {
        let grid = get_grid_flat(150, 100, mines_n).unwrap();
        assert_eq!(grid.len(), 150);
        for col in &grid {
            assert_eq!(col.len(), 100);
            assert!(col.iter().filter(|&&b| b).count() <= 100);
        }
        assert_eq!(total_mines(&grid), mines_n);
    }
}

#[test]
fn partitioned_path_holds_at_threshold_boundary() {
    for mines_n in [MINES_THRESHOLD - 1, MINES_THRESHOLD, MINES_THRESHOLD + 1] {
        let grid = get_grid_partitioned(150, 100, mines_n).unwrap();
        assert_eq!(grid.len(), 150);
        for col in &grid {
            assert_eq!(col.len(), 100);
            assert!(col.iter().filter(|&&b| b).count() <= 100);
        }
        assert_eq!(total_mines(&grid), mines_n);
    }
}

#[test]
fn mine_frequency_is_roughly_uniform() {
    let rounds = 2000;
    let mut hits = [[0usize; 2]; 2];
    for _ in 0..rounds {
        let grid = get_grid(2, 2, 1).unwrap();
        for x in 0..2 {
            for y in 0..2 {
                if grid[x][y] {
                    hits[x][y] += 1;
                }
            }
        }
    }
    // each cell carries 1/4 of the mass; 2000 draws put ~500 on each, and a
    // ±40% band is about ten standard deviations wide
    let expected = rounds as f64 / 4.0;
    for x in 0..2 {
        for y in 0..2 {
            let seen = hits[x][y] as f64;
            assert!(
                expected * 0.6 < seen && seen < expected * 1.4,
                "cell ({x},{y}) was a mine {seen} times, expected about {expected}"
            );
        }
    }
}
