use almond::mutations::mapping::AlmondBytesMutator;
use almond::input::list::{Call, CallsInput};
use almond::input::AlmondInput;
use almond::skipped_args::{is_skipped, skipped_args_map, SkippedArgs};
use almond::syscall_tree::SyscallTree;
use almond::target::fuzz;

fn call_with(arg0: Vec<u8>) -> Call {
    [arg0, vec![], vec![], vec![], vec![], vec![]]
}

#[test]
fn test_record_sequence() {
    let mut tree = SyscallTree::new();

    assert!(tree.record_sequence(&[41, 42, 43]));
    assert!(!tree.record_sequence(&[41, 42, 43]));
    assert!(tree.record_sequence(&[41, 42, 43, 44]));
    assert!(tree.record_sequence(&[41, 45]));
    assert!(!tree.record_sequence(&[41, 45]));
}

#[test]
fn prefix_of_recorded_sequence_is_not_new() {
    let mut tree = SyscallTree::new();
    assert!(tree.record_sequence(&[1, 2, 3]));
    assert!(!tree.record_sequence(&[1, 2]));
    assert!(!tree.record_sequence(&[]));
}

#[test]
fn get_reads_stream_then_pads_with_zeros() {
    let mut input = AlmondInput::with_syscall(5, call_with(vec![1, 2, 3]));
    assert!(input.can_get(5, 0));
    assert_eq!(input.get(5, 0, 2), vec![1, 2]);
    assert_eq!(input.get(5, 0, 3), vec![3, 0, 0]);
    assert_eq!(input.current_syscall_id(), 5);
    let bytes = input.insufficient_bytes_list();
    assert_eq!(bytes, vec![(5, 0, 0, 3)]);
    assert!(input.has_insufficient_indicators());
}

#[test]
fn get_of_unknown_syscall_reads_zeros() {
    let mut input = AlmondInput::new();
    assert_eq!(input.get(9, 2, 4), vec![0, 0, 0, 0]);
    assert!(!input.has_insufficient_indicators());
    assert_eq!(input.current_syscall_id(), 9);
}

#[test]
fn advance_offset_cycles_calls_and_resets_cursors() {
    let mut input = AlmondInput::new();
    input.inner.map.insert(
        5,
        CallsInput::new(vec![call_with(vec![1, 2]), call_with(vec![3, 4])]),
    );
    assert_eq!(input.get(5, 0, 1), vec![1]);
    assert!(!input.advance_offset_for_syscall(5));
    assert_eq!(input.get(5, 0, 2), vec![3, 4]);
    assert!(!input.advance_offset_for_syscall(5));
    assert_eq!(input.get(5, 0, 2), vec![1, 2]);
    assert!(!input.advance_offset_for_syscall(5));
    // The offset (3) is past the number of calls (2).
    assert_eq!(input.get(5, 0, 2), vec![3, 4]);
    assert_eq!(input.insufficient_calls_list(), vec![5]);
}

#[test]
fn reset_clears_execution_state() {
    let mut input = AlmondInput::with_syscall(5, call_with(vec![1]));
    let mut tree = SyscallTree::new();
    input.begin_syscall(5, &mut tree);
    assert!(input.is_capturing());
    let _ = input.get(5, 0, 4);
    input.reset();
    assert!(!input.is_capturing());
    assert!(!input.has_insufficient_indicators());
    assert_eq!(input.inner.accessed_indicators, Vec::<u32>::new());
    assert_eq!(input.get(5, 0, 1), vec![1]);
}

#[test]
fn capture_then_replay_reads_captured_bytes() {
    let mut input = AlmondInput::new();
    let mut tree = SyscallTree::new();
    input.begin_syscall(7, &mut tree);
    assert!(input.is_capturing());
    input.capture(7, 1, &[9, 8, 7]);
    assert!(input.advance_offset_for_syscall(7));
    assert!(!input.is_capturing());
    input.reset();
    assert_eq!(input.get(7, 1, 3), vec![9, 8, 7]);
    assert_eq!(input.get(7, 0, 1), vec![0]);
}

#[test]
fn clone_is_deep() {
    let input = AlmondInput::with_syscall(5, call_with(vec![1, 2, 3]));
    let mut copy = input.clone();
    assert_eq!(copy.inner.map.get(&5).unwrap().len(), 1);
    copy.set_arg_bytes(5, 0, 0, vec![4]);
    assert_eq!(input.arg_bytes(5, 0, 0), vec![1, 2, 3]);
    assert_eq!(copy.arg_bytes(5, 0, 0), vec![4]);
}

#[test]
fn skipped_args_set_once() {
    let mut registry = SkippedArgs::new();
    let map = skipped_args_map(&vec![(3, vec![0]), (3, vec![1, 2])]);
    assert!(almond::skipped_args::set(&mut registry, map).is_ok());
    assert!(is_skipped(&registry, 3, 1));
    assert!(is_skipped(&registry, 3, 2));
    assert!(!is_skipped(&registry, 3, 0));
    assert!(!is_skipped(&registry, 4, 1));
    let second = skipped_args_map(&vec![(4, vec![1])]);
    assert!(almond::skipped_args::set(&mut registry, second).is_err());
    assert!(!is_skipped(&registry, 4, 1));
}

#[test]
fn fuzz_captures_new_sequence_then_serves_input() {
    let mut input = AlmondInput::new();
    let mut tree = SyscallTree::new();
    let skipped = SkippedArgs::new();
    // First execution: a new sequence, arguments are captured.
    assert_eq!(fuzz(&mut input, &mut tree, &skipped, 12, 0, 2, Some(&[5, 6])), None);
    assert_eq!(fuzz(&mut input, &mut tree, &skipped, 12, 1, 1, Some(&[7])), None);
    assert!(input.advance_offset_for_syscall(12));
    input.reset();
    // Second execution: the same sequence, the captured bytes are served.
    assert_eq!(fuzz(&mut input, &mut tree, &skipped, 12, 0, 2, Some(&[0, 0])), Some(vec![5, 6]));
    assert_eq!(fuzz(&mut input, &mut tree, &skipped, 12, 1, 1, Some(&[0])), Some(vec![7]));
}

#[test]
fn fuzz_ignores_null_and_skipped_buffers() {
    let mut input = AlmondInput::with_syscall(3, call_with(vec![1]));
    let mut tree = SyscallTree::new();
    let _ = tree.record_sequence(&[3]);
    let mut skipped = SkippedArgs::new();
    let map = skipped_args_map(&vec![(3, vec![2])]);
    assert!(almond::skipped_args::set(&mut skipped, map).is_ok());
    assert_eq!(fuzz(&mut input, &mut tree, &skipped, 3, 0, 4, None), None);
    assert!(!input.is_capturing());
    assert_eq!(fuzz(&mut input, &mut tree, &skipped, 3, 1, 0, Some(&[])), None);
    assert_eq!(fuzz(&mut input, &mut tree, &skipped, 3, 2, 1, Some(&[9])), None);
    assert_eq!(fuzz(&mut input, &mut tree, &skipped, 3, 1, 1, Some(&[9])), Some(vec![0]));
    assert_eq!(input.inner.accessed_indicators, vec![3]);
}

#[test]
fn len_counts_calls_of_all_syscalls() {
    let mut input = AlmondInput::with_syscall(5, call_with(vec![1]));
    assert_eq!(input.len(), 1);
    input.inner.map.insert(
        41,
        CallsInput::new(vec![call_with(vec![2]), call_with(vec![3])]),
    );
    assert_eq!(input.len(), 3);
    assert_eq!(AlmondInput::new().len(), 0);
}

#[test]
fn same_calls_compares_calls_only() {
    let a = AlmondInput::with_syscall(5, call_with(vec![1, 2]));
    let mut b = AlmondInput::with_syscall(5, call_with(vec![1, 2]));
    let mut tree = SyscallTree::new();
    b.begin_syscall(9, &mut tree);
    assert!(a.same_calls(&b));
    b.set_arg_bytes(5, 0, 0, vec![1, 3]);
    assert!(!a.same_calls(&b));
    let c = AlmondInput::with_syscall(6, call_with(vec![1, 2]));
    assert!(!a.same_calls(&c));
    assert!(!a.same_calls(&AlmondInput::new()));
}

#[test]
fn focus_accessed_follows_the_draws() {
    let mut input = AlmondInput::new();
    input.inner.accessed_indicators = vec![3, 8, 5];
    input.focus_accessed(4, 0);
    assert_eq!(input.current_syscall_id(), 5);
    input.focus_accessed(5, 1);
    assert_eq!(input.current_syscall_id(), 8);
    input.focus_accessed(9, 0);
    assert_eq!(input.current_syscall_id(), 3);
}

#[test]
fn bytes_target_skips_registered_argument() {
    let mut input = AlmondInput::new();
    input.set_current_syscall_id(4);
    let mut skipped = SkippedArgs::new();
    assert!(almond::skipped_args::set(&mut skipped, skipped_args_map(&vec![(4, vec![2])])).is_ok());
    let m = AlmondBytesMutator::new((), "x");
    assert_eq!(m.target_for(&input, &skipped, 0, 2), None);
    assert_eq!(m.target_for(&input, &skipped, 1, 3), Some((1, 3)));
}
