use storm::layout::{align_to, instance_runs, skin_joint_offsets, InstanceRun};

fn run(count: u32, start: u64, end: u64) -> InstanceRun {
    InstanceRun { count, start, end }
}

#[test]
fn instance_runs_are_contiguous() {
    assert_eq!(instance_runs(&[2, 0, 3], 16), vec![run(2, 0, 32), run(0, 32, 32), run(3, 32, 80)]);
    assert!(instance_runs(&[], 64).is_empty());
    assert_eq!(instance_runs(&[1], 144), vec![run(1, 0, 144)]);
}

#[test]
fn skin_offsets_skip_the_first_matrix() {
    assert_eq!(skin_joint_offsets(&[3, 2, 4]), vec![1, 4, 6]);
    assert_eq!(skin_joint_offsets(&[0, 5]), vec![1, 1]);
    assert!(skin_joint_offsets(&[]).is_empty());
}

#[test]
fn alignment_rounds_up() {
    assert_eq!(align_to(0, 4), 0);
    assert_eq!(align_to(5, 4), 8);
    assert_eq!(align_to(8, 4), 8);
    assert_eq!(align_to(13, 16), 16);
    assert_eq!(align_to(33, 1), 33);
}
