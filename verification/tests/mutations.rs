use almond::input::list::{Call, CallsInput};
use almond::input::AlmondInput;
use almond::mutations::calls::{
    CallAddMutator, CallCreateMutator, CallCrossoverMutator, CallDeleteMutator, CallReorderMutator,
    CallReverseMutator, CallRotateMutator,
};
use almond::mutations::crossover::{
    AlmondCrossoverArgsMutator, AlmondCrossoverInsertMutator, AlmondCrossoverReplaceMutator,
};
use almond::mutations::MutationResult;
use libafl_bolts::rands::{Rand, StdRand};

fn create_test_calls(count: usize) -> CallsInput {
    let mut calls = Vec::new();
    for i in 0..count {
        let call: Call = [
            vec![i as u8, 1, 2],
            vec![i as u8, 3, 4],
            vec![i as u8, 5, 6],
            vec![i as u8, 7, 8],
            vec![i as u8, 9, 10],
            vec![i as u8, 11, 12],
        ];
        calls.push(call);
    }
    CallsInput::new(calls)
}

fn create_test_input() -> AlmondInput {
    let mut input = AlmondInput::new();
    let call1: Call = [vec![1, 2, 3], vec![4, 5, 6], vec![], vec![], vec![], vec![]];
    let call2: Call = [vec![7, 8, 9], vec![10, 11, 12], vec![], vec![], vec![], vec![]];
    input.inner.map.insert(41, CallsInput::new(vec![call1, call2]));
    input
}

fn rand42() -> StdRand {
    StdRand::with_seed(42)
}

#[test]
fn test_call_reorder_mutator_basic() {
    let mut rand = rand42();
    let mut calls = create_test_calls(2);
    let before_first = calls.part_at_index(0).unwrap().clone();
    let before_second = calls.part_at_index(1).unwrap().clone();

    let mut mutator = CallReorderMutator::new();
    let result = mutator.mutate(&mut rand, &mut calls);

    assert_eq!(result, MutationResult::Mutated);
    assert_eq!(calls.len(), 2);
    assert_eq!(calls.part_at_index(0).unwrap(), &before_second);
    assert_eq!(calls.part_at_index(1).unwrap(), &before_first);
}

#[test]
fn test_call_reverse_mutator() {
    let mut rand = rand42();
    let mut calls = create_test_calls(3);
    let before_first = calls.part_at_index(0).unwrap().clone();
    let before_last = calls.part_at_index(2).unwrap().clone();

    let mut mutator = CallReverseMutator::new();
    let result = mutator.mutate(&mut rand, &mut calls);

    assert_eq!(result, MutationResult::Mutated);
    assert_eq!(calls.part_at_index(0).unwrap(), &before_last);
    assert_eq!(calls.part_at_index(2).unwrap(), &before_first);
}

#[test]
fn test_call_add_mutator() {
    let mut rand = rand42();
    let mut calls = create_test_calls(1);
    let before_len = calls.len();

    let mut mutator = CallAddMutator::new();
    let result = mutator.mutate(&mut rand, &mut calls);

    assert_eq!(result, MutationResult::Mutated);
    assert_eq!(calls.len(), before_len + 1);
    assert_eq!(calls.len(), 2);
    let before_call = calls.part_at_index(0).unwrap();
    let added_call = calls.part_at_index(1).unwrap();
    assert_eq!(before_call, added_call);
}

#[test]
fn test_call_delete_mutator() {
    let mut rand = rand42();
    let mut calls = create_test_calls(2);
    let before_len = calls.len();

    let mut mutator = CallDeleteMutator::new();
    let result = mutator.mutate(&mut rand, &mut calls);

    assert_eq!(result, MutationResult::Mutated);
    assert_eq!(calls.len(), before_len - 1);
    assert_eq!(calls.len(), 1);
}

#[test]
fn test_call_create_mutator() {
    let mut rand = rand42();
    let mut calls = CallsInput::empty();

    let mut mutator = CallCreateMutator::new();
    let result = mutator.mutate(&mut rand, &mut calls);

    assert_eq!(result, MutationResult::Mutated);
    assert_eq!(calls.len(), 1);
    let created_call = calls.part_at_index(0).unwrap();
    let has_content = created_call.iter().any(|arg| arg.len() > 1);
    assert!(
        has_content,
        "Created call should have some content beyond default zeros"
    );
}

#[test]
fn test_call_reorder_single_call() {
    let mut rand = rand42();
    let mut calls = create_test_calls(1);

    let mut mutator = CallReorderMutator::new();
    let result = mutator.mutate(&mut rand, &mut calls);

    assert_eq!(result, MutationResult::Skipped);
    assert_eq!(calls.len(), 1);
}

#[test]
fn test_call_delete_empty() {
    let mut rand = rand42();
    let mut calls = CallsInput::empty();

    let mut mutator = CallDeleteMutator::new();
    let result = mutator.mutate(&mut rand, &mut calls);

    assert_eq!(result, MutationResult::Skipped);
    assert_eq!(calls.len(), 0);
}

#[test]
fn test_call_rotate_mutator() {
    let mut rand = rand42();
    let mut calls = create_test_calls(3);
    let before_first = calls.part_at_index(0).unwrap().clone();

    let mut mutator = CallRotateMutator::new();
    let result = mutator.mutate(&mut rand, &mut calls);

    assert_eq!(result, MutationResult::Mutated);
    assert_eq!(calls.len(), 3);
    let new_first = calls.part_at_index(0).unwrap();
    assert_ne!(new_first, &before_first);
}

#[test]
fn test_all_mutators_preserve_call_structure() {
    let mut rand = rand42();
    let mut calls = create_test_calls(1);

    let mut mutator = CallAddMutator::new();
    let result = mutator.mutate(&mut rand, &mut calls);

    assert_eq!(result, MutationResult::Mutated);
    assert_eq!(calls.len(), 2);
    for i in 0..calls.len() {
        let call = calls.part_at_index(i).unwrap();
        assert_eq!(call.len(), 6, "Call at index {} should have 6 arguments", i);
        for (j, arg) in call.iter().enumerate() {
            assert!(arg.len() >= 1, "Argument {} of call {} should have content", j, i);
        }
    }
}

#[test]
fn test_call_crossover_mutator() {
    let mut rand = rand42();
    let mut calls = create_test_calls(2);
    let before_arg0_call1 = calls.part_at_index(0).unwrap()[0].clone();
    let before_arg0_call2 = calls.part_at_index(1).unwrap()[0].clone();

    let mut mutator = CallCrossoverMutator::new();
    let result = mutator.mutate(&mut rand, &mut calls);

    assert_eq!(result, MutationResult::Mutated);
    assert_eq!(calls.len(), 2);
    let new_arg0_call1 = calls.part_at_index(0).unwrap()[0].clone();
    let new_arg0_call2 = calls.part_at_index(1).unwrap()[0].clone();
    assert_eq!(new_arg0_call1, before_arg0_call2);
    assert_eq!(new_arg0_call2, before_arg0_call1);
}

#[test]
fn test_call_crossover_single_call() {
    let mut rand = rand42();
    let mut calls = create_test_calls(1);

    let mut mutator = CallCrossoverMutator::new();
    let result = mutator.mutate(&mut rand, &mut calls);

    assert_eq!(result, MutationResult::Skipped);
    assert_eq!(calls.len(), 1);
}

#[test]
fn test_crossover_mutator_names() {
    let insert = AlmondCrossoverInsertMutator::new();
    let replace = AlmondCrossoverReplaceMutator::new();
    let args = AlmondCrossoverArgsMutator::new();

    assert_eq!(insert.name(), "AlmondCrossoverInsertMutator");
    assert_eq!(replace.name(), "AlmondCrossoverReplaceMutator");
    assert_eq!(args.name(), "AlmondCrossoverArgsMutator");
}

#[test]
fn test_create_test_input() {
    let input = create_test_input();
    assert!(input.inner.map.contains_key(&41));
    let calls = input.inner.map.get(&41).unwrap();
    assert_eq!(calls.len(), 2);
}

#[test]
fn test_crossover_insert_copies_call_of_other_input() {
    let mut rand = rand42();
    let mut input = AlmondInput::new();
    input.set_current_syscall_id(41);
    let other = create_test_input();
    let mut mutator = AlmondCrossoverInsertMutator::new();
    let result = mutator.mutate(&mut rand, &mut input, &other);
    assert_eq!(result, MutationResult::Mutated);
    let calls = input.inner.map.get(&41).unwrap();
    assert_eq!(calls.len(), 1);
    let copied = calls.part_at_index(0).unwrap();
    let theirs = other.inner.map.get(&41).unwrap();
    assert!(copied == theirs.part_at_index(0).unwrap() || copied == theirs.part_at_index(1).unwrap());
}

#[test]
fn test_crossover_insert_skips_without_calls_in_other() {
    let mut rand = rand42();
    let mut input = create_test_input();
    input.set_current_syscall_id(7);
    let other = AlmondInput::new();
    let mut mutator = AlmondCrossoverInsertMutator::new();
    assert_eq!(mutator.mutate(&mut rand, &mut input, &other), MutationResult::Skipped);
    assert!(!input.inner.map.contains_key(&7));
}

#[test]
fn insert_call_appends_the_chosen_call() {
    let mut input = create_test_input();
    input.set_current_syscall_id(41);
    let mut other = AlmondInput::new();
    let theirs: Call = [vec![0xaa], vec![], vec![], vec![], vec![], vec![]];
    let second: Call = [vec![0xbb], vec![], vec![], vec![], vec![], vec![]];
    other.inner.map.insert(41, CallsInput::new(vec![theirs, second.clone()]));
    AlmondCrossoverInsertMutator::insert_call(&mut input, &other, 1);
    let calls = input.inner.map.get(&41).unwrap();
    assert_eq!(calls.len(), 3);
    assert_eq!(calls.part_at_index(2).unwrap(), &second);
}

#[test]
fn replace_call_overwrites_the_chosen_call() {
    let mut input = create_test_input();
    input.set_current_syscall_id(41);
    let mut other = AlmondInput::new();
    let theirs: Call = [vec![0xaa], vec![], vec![], vec![], vec![], vec![]];
    other.inner.map.insert(41, CallsInput::new(vec![theirs.clone()]));
    AlmondCrossoverReplaceMutator::replace_call(&mut input, &other, 0, 0);
    let calls = input.inner.map.get(&41).unwrap();
    assert_eq!(calls.len(), 2);
    assert_eq!(calls.part_at_index(0).unwrap(), &theirs);
    assert_eq!(calls.arg(1, 0), &vec![7, 8, 9]);
}

#[test]
fn copy_arg_copies_one_argument() {
    let mut input = create_test_input();
    input.set_current_syscall_id(41);
    let mut other = AlmondInput::new();
    let theirs: Call = [vec![], vec![0xcc, 0xdd], vec![], vec![], vec![], vec![]];
    other.inner.map.insert(41, CallsInput::new(vec![theirs]));
    AlmondCrossoverArgsMutator::copy_arg(&mut input, &other, 1, 0, 1);
    let calls = input.inner.map.get(&41).unwrap();
    assert_eq!(calls.arg(1, 1), &vec![0xcc, 0xdd]);
    assert_eq!(calls.arg(1, 0), &vec![7, 8, 9]);
    assert_eq!(calls.arg(0, 1), &vec![4, 5, 6]);
}

#[test]
fn nonempty_positions_in_call_then_argument_order() {
    let a: Call = [vec![], vec![1], vec![], vec![2], vec![], vec![]];
    let b: Call = [vec![3], vec![], vec![], vec![], vec![], vec![4]];
    let calls = CallsInput::new(vec![a, b]);
    assert_eq!(
        almond::mutations::crossover::nonempty_arg_positions(&calls),
        vec![(0, 1), (0, 3), (1, 0), (1, 5)]
    );
    let empty = CallsInput::new(vec![[vec![], vec![], vec![], vec![], vec![], vec![]]]);
    assert!(almond::mutations::crossover::nonempty_arg_positions(&empty).is_empty());
}

#[test]
fn reorder_with_two_calls_always_mutates() {
    for seed in 0..50u64 {
        let mut rand = StdRand::with_seed(seed);
        let mut calls = create_test_calls(2);
        assert_eq!(CallReorderMutator::new().mutate(&mut rand, &mut calls), MutationResult::Mutated);
        let mut calls = create_test_calls(2);
        assert_eq!(CallCrossoverMutator::new().mutate(&mut rand, &mut calls), MutationResult::Mutated);
    }
}
