use raytracker::camera::{progress_due, row_seed, SEED_SPREAD};

#[test]
fn row_seeds_follow_the_formula() {
    assert_eq!(row_seed(0, 0), 1);
    assert_eq!(row_seed(0, 9), 10);
    assert_eq!(row_seed(1, 0), SEED_SPREAD ^ 1);
    assert_eq!(row_seed(2, 3), SEED_SPREAD.wrapping_mul(2) ^ 4);
    assert_eq!(row_seed(u64::MAX, u32::MAX), SEED_SPREAD.wrapping_neg() ^ (u32::MAX as u64 + 1));
}

#[test]
fn rows_of_one_render_get_distinct_seeds() {
    for seed in [0u64, 1, 99, u64::MAX] {
        let mut seen: Vec<u64> = (0..1000u32).map(|row| row_seed(seed, row)).collect();
        seen.sort();
        seen.dedup();
        assert_eq!(seen.len(), 1000);
    }
}

#[test]
fn the_seed_changes_every_row() {
    for row in 0..100u32 {
        assert_ne!(row_seed(0, row), row_seed(1, row));
    }
}

#[test]
fn progress_is_reported_every_sixteen_rows_and_at_the_end() {
    assert!(progress_due(16, 225));
    assert!(progress_due(32, 225));
    assert!(!progress_due(17, 225));
    assert!(progress_due(225, 225));
    assert!(progress_due(224, 225));
    assert!(!progress_due(223, 225));
    assert!(progress_due(1, 1));
}
