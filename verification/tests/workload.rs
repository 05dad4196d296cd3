use sched_balance::report::{max_leave_time, total, total_fits};
use sched_balance::wakeup;
use sched_balance::unbalance::{self, is_last_to_finish, part_range, barrier_released, NUM_DATA, NUM_TASKS};

#[test]
fn wakeup_load_small_values() {
    let expected: [u64; 6] = [0, 2, 4, 9, 14, 13];
    for n in 0..6u64 {
        assert_eq!(wakeup::load(&n), expected[n as usize]);
    }
}

#[test]
fn wakeup_load_larger_values() {
    assert_eq!(wakeup::load(&100), 615);
    assert_eq!(wakeup::load(&1000), 9604);
}

#[test]
fn unbalance_load_values() {
    assert_eq!(unbalance::load(&0), 0);
    assert_eq!(unbalance::load(&1), 126);
    assert_eq!(unbalance::load(&2), 546);
    assert_eq!(unbalance::load(&199), 8670231);
}

#[test]
fn each_task_sums_one_number() {
    assert_eq!(part_range(0), (0, 1));
    assert_eq!(part_range(7), (7, 8));
    assert_eq!(part_range(NUM_TASKS - 1), (NUM_DATA - 1, NUM_DATA));
}

#[test]
fn parts_tile_the_data() {
    assert_eq!(part_range(0).0, 0);
    for i in 0..NUM_TASKS - 1 {
        let (left, right) = part_range(i);
        assert!(left <= right);
        assert_eq!(right, part_range(i + 1).0);
    }
    assert_eq!(part_range(NUM_TASKS - 1).1, NUM_DATA);
}

#[test]
fn past_the_data_a_part_is_cut_at_the_end() {
    assert_eq!(part_range(NUM_DATA), (NUM_DATA, NUM_DATA));
    assert_eq!(part_range(NUM_DATA + 5), (NUM_DATA + 5, NUM_DATA));
}

#[test]
fn barrier_opens_when_all_tasks_arrived() {
    assert!(!barrier_released(0));
    assert!(!barrier_released(NUM_TASKS - 1));
    assert!(barrier_released(NUM_TASKS));
    assert!(!barrier_released(NUM_TASKS + 1));
}

#[test]
fn exactly_one_finisher_wakes_main() {
    let lasts = (0..NUM_TASKS).filter(|n| is_last_to_finish(*n)).count();
    assert_eq!(lasts, 1);
    assert!(is_last_to_finish(NUM_TASKS - 1));
    assert!(!is_last_to_finish(0));
}

#[test]
fn total_of_results() {
    assert_eq!(total(&[]), 0);
    assert_eq!(total(&[0, 0, 0]), 0);
    assert_eq!(total(&[3, 4, 5]), 12);
    assert_eq!(total(&[u64::MAX - 1, 1]), u64::MAX);
}

#[test]
fn max_leave_time_of_tasks() {
    assert_eq!(max_leave_time(&[]), None);
    assert_eq!(max_leave_time(&[7]), Some(7));
    assert_eq!(max_leave_time(&[3, 9, 2, 9, 1]), Some(9));
    assert_eq!(max_leave_time(&[0, 0]), Some(0));
}

#[test]
fn unbalance_load_on_numbers_across_the_data() {
    assert_eq!(unbalance::load(&3), 1383);
    assert_eq!(unbalance::load(&50), 450650);
    assert_eq!(unbalance::load(&128), 3634944);
    assert_eq!(unbalance::load(&150), 4913700);
}

#[test]
fn total_fits_detects_overflow() {
    assert!(total_fits(&[]));
    assert!(total_fits(&[u64::MAX - 1, 1]));
    assert!(!total_fits(&[u64::MAX, 1]));
    assert!(!total_fits(&[u64::MAX / 2 + 1, u64::MAX / 2 + 1, 0]));
}

#[test]
fn unbalance_load_fits_exactly_where_its_arithmetic_does() {
    for n in [0u64, 1, 100, NUM_DATA as u64 - 1] {
        assert!(unbalance::check_load_fits(&n));
    }
    assert!(!unbalance::check_load_fits(&u64::MAX));
    // the step count 10000 + 20000 * n no longer fits
    assert!(!unbalance::check_load_fits(&(u64::MAX / 20000)));
}
