use turing_cogs::tmachine::{Direction, TmError, Transition, TuringMachine};

/// helper function for tests
fn add_state(
    tm: &mut TuringMachine,
    name: &str,
    input: char,
    output: char,
    dir: Direction,
    next: &str,
) {
    tm.add_state(name, input, Transition::from(output, dir, next.to_owned()));
}

#[test]
fn tm_init() {
    let tm = TuringMachine::new();

    assert_eq!("START", tm.current_state().unwrap());
    assert_eq!(0, tm.tape_pointer());
    assert_eq!(2048, tm.tape().len());
}

#[test]
fn tm_step() {
    let mut tm = TuringMachine::new();
    tm.set_tape("abba").unwrap();

    assert_eq!('a', tm.read().unwrap());
    tm.step('#', Direction::Right).unwrap();
    assert_eq!('b', tm.read().unwrap());
    tm.step('b', Direction::Left).unwrap();
    assert_eq!('#', tm.read().unwrap());
}

#[test]
fn tm_add_state() {
    let mut tm = TuringMachine::new();

    add_state(&mut tm, "A", 'a', 'b', Direction::Right, "START");
    add_state(&mut tm, "START", 'a', 'b', Direction::Right, "A");

    assert_eq!(
        tm.transition_for("START", 'a'),
        Some(Transition::from('b', Direction::Right, "A".to_owned()))
    )
}

#[test]
fn tm_forward() {
    let mut tm = TuringMachine::new();
    tm.write('a').unwrap();

    add_state(&mut tm, "START", 'a', '#', Direction::Right, "2");
    add_state(&mut tm, "2", '_', 'a', Direction::Left, "START");

    assert_eq!('a', tm.read().unwrap());
    tm.forward().unwrap();
    assert_eq!('_', tm.read().unwrap());
    assert_eq!(Some("2".to_owned()), tm.current_state());
    tm.forward().unwrap();
    assert_eq!('#', tm.read().unwrap());
    assert_eq!(Some("START".to_owned()), tm.current_state());
    tm.forward().unwrap();
    assert_eq!(None, tm.current_state());
}

#[test]
fn tm_halt() {
    let mut tm = TuringMachine::new();

    add_state(&mut tm, "START", '_', '#', Direction::Right, "HALT");

    assert_eq!(Some("START".to_owned()), tm.current_state());
    tm.forward().unwrap();
    assert_eq!(Some("HALT".to_owned()), tm.current_state());
    tm.forward().unwrap();
    assert_eq!(Some("HALT".to_owned()), tm.current_state());
}

#[test]
fn tm_set_state() {
    let test_string = "hello!";
    let mut tm = TuringMachine::from(test_string).unwrap();

    for char in test_string.chars() {
        assert_eq!(char, tm.read().unwrap());
        tm.step(char, Direction::Right).unwrap();
    }
    assert_eq!('_', tm.read().unwrap());
}

#[test]
fn tm_backward() {
    let mut tm = TuringMachine::from("abab").unwrap();

    add_state(&mut tm, "START", 'a', '#', Direction::Right, "1");
    add_state(&mut tm, "1", 'b', '#', Direction::Left, "START");

    assert_eq!('a', tm.read().unwrap());
    tm.forward().unwrap();
    assert_eq!('#', tm.tape()[0]);
    assert_eq!('b', tm.read().unwrap());
    tm.forward().unwrap();
    assert_eq!('#', tm.tape()[1]);
    assert_eq!('#', tm.read().unwrap());

    let expected_undo_stack = vec![
        Transition::from('a', Direction::Left, "START".to_owned()),
        Transition::from('b', Direction::Right, "1".to_owned()),
    ];
    assert_eq!(&expected_undo_stack, tm.undo_stack());

    tm.backward().unwrap();
    assert_eq!('b', tm.read().unwrap());
    tm.backward().unwrap();
    assert_eq!('a', tm.read().unwrap());
}

#[test]
fn fresh_machine_tape_is_all_blank() {
    let tm = TuringMachine::new();
    for i in 0..tm.tape().len() {
        assert_eq!('_', tm.tape()[i]);
    }
    assert_eq!(0, tm.tape_pointer());
    assert_eq!(Some("START".to_owned()), tm.current_state());
    assert_eq!(0, tm.undo_stack().len());
}

#[test]
fn seeding_reads_back_then_blank() {
    let mut tm = TuringMachine::from("hello!").unwrap();
    let expected = ['h', 'e', 'l', 'l', 'o', '!'];
    for c in expected {
        let got = tm.read().unwrap();
        assert_eq!(c, got);
        tm.step(got, Direction::Right).unwrap();
    }
    assert_eq!('_', tm.read().unwrap());
}

#[test]
fn seeding_longer_than_tape_fails() {
    let text = "x".repeat(2049);
    assert!(TuringMachine::from(&text).is_err());
    assert_eq!(Some(TmError::OutOfBounds), TuringMachine::from(&text).err());
}

#[test]
fn set_tape_longer_than_tape_fails_without_mutation() {
    let mut tm = TuringMachine::new();
    let text = "y".repeat(2049);
    assert_eq!(Err(TmError::OutOfBounds), tm.set_tape(&text));
    assert_eq!('_', tm.read().unwrap());
    assert_eq!(Some("START".to_owned()), tm.current_state());
}

#[test]
fn single_step_is_deterministic() {
    let mut tm = TuringMachine::new();
    tm.set_tape("a").unwrap();
    add_state(&mut tm, "START", 'a', '#', Direction::Right, "2");

    tm.forward().unwrap();

    assert_eq!('#', tm.tape()[0]);
    assert_eq!(1, tm.tape_pointer());
    assert_eq!(Some("2".to_owned()), tm.current_state());
}

#[test]
fn backward_restores_starting_configuration() {
    let mut tm = TuringMachine::from("abab").unwrap();
    add_state(&mut tm, "START", 'a', '#', Direction::Right, "1");
    add_state(&mut tm, "1", 'b', '%', Direction::Right, "START");

    let tape_before = tm.tape().clone();
    let cursor_before = tm.tape_pointer();
    let state_before = tm.current_state();
    let undo_len_before = tm.undo_stack().len();

    for _ in 0..4 {
        tm.forward().unwrap();
    }
    assert_eq!(4, tm.undo_stack().len());
    assert_ne!(&tape_before, tm.tape());

    for _ in 0..4 {
        tm.backward().unwrap();
    }
    assert_eq!(&tape_before, tm.tape());
    assert_eq!(cursor_before, tm.tape_pointer());
    assert_eq!(state_before, tm.current_state());
    assert_eq!(undo_len_before, tm.undo_stack().len());
}

#[test]
fn halted_machine_ignores_forward() {
    let mut tm = TuringMachine::new();
    add_state(&mut tm, "START", '_', '#', Direction::Right, "HALT");
    tm.forward().unwrap();
    assert!(tm.is_halted());

    let tape = tm.tape().clone();
    let cursor = tm.tape_pointer();
    let undo_len = tm.undo_stack().len();
    for _ in 0..5 {
        tm.forward().unwrap();
    }
    assert_eq!(&tape, tm.tape());
    assert_eq!(cursor, tm.tape_pointer());
    assert_eq!(Some("HALT".to_owned()), tm.current_state());
    assert_eq!(undo_len, tm.undo_stack().len());
}

#[test]
fn stuck_machine_stays_stuck() {
    let mut tm = TuringMachine::new();
    assert!(!tm.is_stuck());
    tm.forward().unwrap();
    assert!(tm.is_stuck());
    assert_eq!(None, tm.current_state());

    let tape = tm.tape().clone();
    let cursor = tm.tape_pointer();
    for _ in 0..3 {
        tm.forward().unwrap();
        assert!(tm.is_stuck());
    }
    assert_eq!(&tape, tm.tape());
    assert_eq!(cursor, tm.tape_pointer());
    assert_eq!(0, tm.undo_stack().len());
}

#[test]
fn second_transition_overwrites_first() {
    let mut tm = TuringMachine::new();
    add_state(&mut tm, "START", 'a', 'x', Direction::Left, "one");
    add_state(&mut tm, "START", 'a', 'y', Direction::Right, "two");

    assert_eq!(
        tm.transition_for("START", 'a'),
        Some(Transition::from('y', Direction::Right, "two".to_owned()))
    );
}

#[test]
fn transition_for_missing_key_is_none() {
    let tm = TuringMachine::new();
    assert_eq!(None, tm.transition_for("START", 'a'));
}

#[test]
fn moving_left_from_cell_zero_fails_without_mutation() {
    let mut tm = TuringMachine::new();
    add_state(&mut tm, "START", '_', '#', Direction::Left, "2");

    for _ in 0..3 {
        assert_eq!(Err(TmError::OutOfBounds), tm.forward());
        assert_eq!('_', tm.read().unwrap());
        assert_eq!(0, tm.tape_pointer());
        assert_eq!(Some("START".to_owned()), tm.current_state());
        assert_eq!(0, tm.undo_stack().len());
    }
}

#[test]
fn moving_right_off_the_tape_fails_without_mutation() {
    let mut tm = TuringMachine::new();
    for _ in 0..2047 {
        tm.step('_', Direction::Right).unwrap();
    }
    assert_eq!(2047, tm.tape_pointer());
    add_state(&mut tm, "START", '_', '#', Direction::Right, "2");
    assert_eq!(Err(TmError::OutOfBounds), tm.forward());
    assert_eq!(2047, tm.tape_pointer());
    assert_eq!('_', tm.read().unwrap());
    assert_eq!(Some("START".to_owned()), tm.current_state());
}

#[test]
fn step_off_either_edge_fails_without_mutation() {
    let mut tm = TuringMachine::new();
    assert_eq!(Err(TmError::OutOfBounds), tm.step('x', Direction::Left));
    assert_eq!('_', tm.read().unwrap());
    assert_eq!(0, tm.tape_pointer());

    for _ in 0..2047 {
        tm.step('_', Direction::Right).unwrap();
    }
    assert_eq!(Err(TmError::OutOfBounds), tm.step('x', Direction::Right));
    assert_eq!('_', tm.read().unwrap());
    assert_eq!(2047, tm.tape_pointer());
}

#[test]
fn backward_with_empty_history_is_a_noop() {
    let mut tm = TuringMachine::new();
    assert_eq!(Ok(()), tm.backward());
    assert_eq!(0, tm.tape_pointer());
    assert_eq!(Some("START".to_owned()), tm.current_state());
    assert_eq!('_', tm.read().unwrap());
}

#[test]
fn write_changes_only_the_cell_under_the_cursor() {
    let mut tm = TuringMachine::new();
    tm.write('Q').unwrap();
    assert_eq!('Q', tm.read().unwrap());
    assert_eq!('_', tm.tape()[1]);
    assert_eq!(0, tm.tape_pointer());
    assert_eq!(Some("START".to_owned()), tm.current_state());
}

#[test]
fn backward_after_raw_steps_fails_safely() {
    // forward records an undo entry that expects the cursor one cell to the
    // right of cell zero; a raw step then drags the cursor back to cell zero
    // behind the history's back, so the recorded restore move would leave the
    // tape and backward must refuse without mutating anything.
    let mut tm = TuringMachine::new();
    add_state(&mut tm, "START", '_', 'x', Direction::Right, "A");
    tm.forward().unwrap();
    assert_eq!(1, tm.tape_pointer());
    assert_eq!(1, tm.undo_stack().len());

    tm.step('_', Direction::Left).unwrap();
    assert_eq!(0, tm.tape_pointer());

    assert_eq!(Err(TmError::OutOfBounds), tm.backward());
    assert_eq!(0, tm.tape_pointer());
    assert_eq!(1, tm.undo_stack().len());
    assert_eq!(Some("A".to_owned()), tm.current_state());
}

#[test]
fn direction_flip_is_an_involution() {
    assert_eq!(Direction::Right, Direction::Left.flip());
    assert_eq!(Direction::Left, Direction::Right.flip());
    assert_eq!(Direction::Left, Direction::Left.flip().flip());
}

#[test]
fn halted_and_stuck_are_distinct_predicates() {
    let mut halted = TuringMachine::new();
    add_state(&mut halted, "START", '_', '_', Direction::Right, "HALT");
    halted.forward().unwrap();
    assert!(halted.is_halted());
    assert!(!halted.is_stuck());

    let mut stuck = TuringMachine::new();
    stuck.forward().unwrap();
    assert!(stuck.is_stuck());
    assert!(!stuck.is_halted());
}
