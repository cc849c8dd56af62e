use rstorch::launch::{blocks_for, for_elems, for_sized_elems, gemm_launch, splitk_launch, tiled_launch};
use rstorch::optim::{join_moments, split_moments, SlotState};

#[test]
fn elementwise_launch_uses_blocks_of_1024() {
    let d = for_elems(1025);
    assert_eq!(d.grid, (2, 1, 1));
    assert_eq!(d.block, (1024, 1, 1));
    assert_eq!(d.shared_mem_bytes, 0);
    assert_eq!(for_elems(1024).grid, (1, 1, 1));
    assert_eq!(for_elems(0).grid, (0, 1, 1));
}

#[test]
fn blocks_round_up() {
    assert_eq!(blocks_for(0, 64), 0);
    assert_eq!(blocks_for(1, 64), 1);
    assert_eq!(blocks_for(64, 64), 1);
    assert_eq!(blocks_for(65, 64), 2);
}

#[test]
fn gemm_grid_steps_in_64s() {
    let d = gemm_launch(130, 64);
    assert_eq!(d.grid, (1, 3, 1));
    assert_eq!(d.block, (16, 16, 1));
}

#[test]
fn tiled_grid_steps_in_16s() {
    let d = tiled_launch(17, 33);
    assert_eq!(d.grid, (3, 2, 1));
    assert_eq!(d.block, (16, 16, 1));
}

#[test]
fn splitk_slices_fill_the_device() {
    let d = splitk_launch(64, 64, 100_000);
    assert_eq!(d.grid, (1, 1, 64));
    let d = splitk_launch(128, 256, 100_000);
    assert_eq!(d.grid, (4, 2, 16));
}

#[test]
fn splitk_slices_are_capped_by_the_inner_size() {
    assert_eq!(splitk_launch(10, 10, 40).grid.2, 3);
    assert_eq!(splitk_launch(10, 10, 0).grid.2, 1);
}

#[test]
fn splitk_slices_partition_the_inner_dimension() {
    let inner = 1000usize;
    let z = splitk_launch(32, 32, inner).grid.2 as usize;
    let per = (inner + z - 1) / z;
    let mut covered = vec![0u32; inner];
    for s in 0..z {
        let begin = s * per;
        let end = (begin + per).min(inner);
        for k in begin..end {
            covered[k] += 1;
        }
    }
    assert!(covered.iter().all(|&c| c == 1));
}

#[test]
fn slots_bind_on_the_first_step() {
    let mut s = SlotState::new();
    assert!(s.begin_step(&vec![6, 3]));
    assert_eq!(s.lens, vec![6, 3]);
    s.end_step();
    assert!(!s.begin_step(&vec![6, 3]));
    s.end_step();
    assert_eq!(s.t, 2);
    assert_eq!(s.lens, vec![6, 3]);
}

#[test]
fn restore_sets_the_counter() {
    let mut s = SlotState::new();
    s.restore(7, vec![4]);
    assert_eq!(s.t, 7);
    assert!(!s.begin_step(&vec![4]));
}

#[test]
fn moments_round_trip() {
    let m = vec![vec![1.0f32, 2.0], vec![3.0]];
    let v = vec![vec![0.5f32, 0.25], vec![0.125]];
    let all = join_moments(m.clone(), v.clone());
    assert_eq!(all.len(), 4);
    assert_eq!(all[2], vec![0.5, 0.25]);
    let (m2, v2) = split_moments(all);
    assert_eq!(m2, m);
    assert_eq!(v2, v);
}

#[test]
fn empty_moments_split_into_empty_halves() {
    let (m, v) = split_moments(Vec::<Vec<f32>>::new());
    assert!(m.is_empty());
    assert!(v.is_empty());
}

#[test]
fn counted_slots_bind_on_step_zero_only() {
    let mut s = SlotState::new();
    assert!(s.begin_counted_step(&vec![]));
    assert!(s.lens.is_empty());
    s.end_step();
    let mut t = SlotState::new();
    assert!(t.begin_counted_step(&vec![4, 2]));
    t.end_step();
    assert!(!t.begin_counted_step(&vec![4, 2]));
    assert_eq!(t.lens, vec![4, 2]);
}

#[test]
fn sized_launch_reaches_past_the_int_range() {
    let n = i32::MAX as usize + 1025;
    let d = for_sized_elems(n);
    assert_eq!(d.grid, (((n + 1023) / 1024) as u32, 1, 1));
    assert_eq!(d.block, (1024, 1, 1));
    assert_eq!(for_sized_elems(1025).grid, for_elems(1025).grid);
}
