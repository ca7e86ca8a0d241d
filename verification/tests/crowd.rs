use glb_ragdoll::crowd::{
    centered_half_offset, grid_cell, grid_rows, instance_half_offsets, note_animation_started,
    GRID_COLUMNS, INSTANCE_COUNT,
};

#[test]
fn crowd_grid_has_twenty_five_rows() {
    assert_eq!(grid_rows(INSTANCE_COUNT, GRID_COLUMNS), 25);
    assert_eq!(grid_rows(41, 40), 2);
    assert_eq!(grid_rows(0, 40), 0);
    assert_eq!(grid_rows(7, 1), 7);
}

#[test]
fn cells_fill_row_by_row() {
    assert_eq!(grid_cell(0, 40), (0, 0));
    assert_eq!(grid_cell(39, 40), (39, 0));
    assert_eq!(grid_cell(40, 40), (0, 1));
    assert_eq!(grid_cell(999, 40), (39, 24));
}

#[test]
fn offsets_are_centred() {
    assert_eq!(centered_half_offset(0, 40), -39);
    assert_eq!(centered_half_offset(39, 40), 39);
    assert_eq!(centered_half_offset(1, 3), 0);
    for c in 0..40 {
        assert_eq!(centered_half_offset(c, 40), -centered_half_offset(39 - c, 40));
    }
}

#[test]
fn instance_offsets() {
    assert_eq!(instance_half_offsets(0, INSTANCE_COUNT, GRID_COLUMNS), (-39, -24));
    assert_eq!(instance_half_offsets(999, INSTANCE_COUNT, GRID_COLUMNS), (39, 24));
    assert_eq!(instance_half_offsets(520, INSTANCE_COUNT, GRID_COLUMNS), (-39, 2));
}

#[test]
fn every_instance_gets_its_own_cell() {
    let mut seen = std::collections::HashSet::new();
    for i in 0..INSTANCE_COUNT {
        let (c, r) = grid_cell(i, GRID_COLUMNS);
        assert!(c < GRID_COLUMNS && r < 25);
        assert!(seen.insert((c, r)));
    }
}

#[test]
fn progress_reported_every_hundred_and_at_the_end() {
    let mut started = 0usize;
    let mut reports = Vec::new();
    for _ in 0..1000 {
        if note_animation_started(&mut started, INSTANCE_COUNT) {
            reports.push(started);
        }
    }
    assert_eq!(started, 1000);
    assert_eq!(reports, (1..=10).map(|k| k * 100).collect::<Vec<_>>());
    let mut s = 41usize;
    assert!(note_animation_started(&mut s, 42));
    let mut t = 40usize;
    assert!(!note_animation_started(&mut t, 42));
}
