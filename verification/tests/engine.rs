use befunge::engine::{end_action, Emit, EndAction, Flags, Interp, Need, RunEvent, StepNote};
use befunge::grid::{Direction, Grid, Position};

fn interp(src: &[u8]) -> Interp {
    Interp::new(Grid::load(src).unwrap())
}

#[test]
fn digits_and_subtraction_emit_two() {
    // '5', '3', '-' computes 5 - 3 per the s1 - s0 ordering, '.' emits it.
    let mut it = interp(b"53-.");
    match it.run(1000).unwrap() {
        RunEvent::Emitted(Emit::Integer(v)) => assert_eq!(v, 2),
        other => panic!("expected an emitted integer, got {other:?}"),
    }
    assert_eq!(it.stack_items(), &[] as &[i64]);
}

#[test]
fn spaces_are_no_ops() {
    let mut it = interp(b"5 3 - .");
    match it.run(1000).unwrap() {
        RunEvent::Emitted(Emit::Integer(v)) => assert_eq!(v, 2),
        other => panic!("expected an emitted integer, got {other:?}"),
    }
}

#[test]
fn bridge_and_direction_program_halts() {
    // The pointer bridges over '@' to 'v', loops down, left and up through
    // the grid, and reaches the '@' from the left on the second row.
    let mut it = interp(b"#@v\n>^v\n^<<\n");
    let mut steps = 0u32;
    loop {
        assert!(steps < 10_000, "the program should halt within a bounded number of steps");
        match it.step().unwrap() {
            StepNote::Ran => steps += 1,
            StepNote::Halted => break,
            other => panic!("expected only silent steps and the halt, got {other:?}"),
        }
    }
    assert!(it.is_halted());
}

#[test]
fn divide_by_zero_suspends_and_resumes() {
    // '5', '0', '/' finds a zero divisor, suspends, and resumes with the
    // operator's answer on the stack.
    let mut it = interp(b"50/@");
    match it.run(1000).unwrap() {
        RunEvent::Awaiting(n) => assert_eq!(n, Need::DivByZero),
        other => panic!("expected a suspension, got {other:?}"),
    }
    assert_eq!(it.pending(), Some(Need::DivByZero));
    it.resume(7);
    assert_eq!(it.stack_items(), &[7]);
    assert_eq!(it.run(1000).unwrap(), RunEvent::Halted);
}

#[test]
fn modulo_by_zero_suspends_and_resumes() {
    let mut it = interp(b"30%@");
    match it.run(1000).unwrap() {
        RunEvent::Awaiting(n) => assert_eq!(n, Need::ModByZero),
        other => panic!("expected a suspension, got {other:?}"),
    }
    it.resume(-4);
    assert_eq!(it.stack_items(), &[-4]);
}

#[test]
fn ordinary_division_does_not_suspend() {
    let mut it = interp(b"92/.@");
    match it.run(1000).unwrap() {
        RunEvent::Emitted(Emit::Integer(v)) => assert_eq!(v, 4),
        other => panic!("expected an emitted integer, got {other:?}"),
    }
}

#[test]
fn add_on_empty_stack_pushes_one_zero() {
    let mut it = interp(b"+@");
    assert_eq!(it.step().unwrap(), StepNote::Ran);
    assert_eq!(it.stack_items(), &[0]);
}

#[test]
fn duplicate_on_empty_stack_pushes_two_zeros() {
    let mut it = interp(b":@");
    assert_eq!(it.step().unwrap(), StepNote::Ran);
    assert_eq!(it.stack_items(), &[0, 0]);
}

#[test]
fn swap_with_one_value_brings_a_zero_on_top() {
    let mut it = interp(b"1\\@");
    assert_eq!(it.run(1000).unwrap(), RunEvent::Halted);
    assert_eq!(it.stack_items(), &[1, 0]);
}

#[test]
fn swap_two_values() {
    let mut it = interp(b"12\\@");
    assert_eq!(it.run(1000).unwrap(), RunEvent::Halted);
    assert_eq!(it.stack_items(), &[2, 1]);
}

#[test]
fn greater_than_ordering() {
    let mut it = interp(b"12`@");
    assert_eq!(it.run(1000).unwrap(), RunEvent::Halted);
    assert_eq!(it.stack_items(), &[0]);
    let mut it = interp(b"21`@");
    assert_eq!(it.run(1000).unwrap(), RunEvent::Halted);
    assert_eq!(it.stack_items(), &[1]);
}

#[test]
fn logical_not() {
    let mut it = interp(b"0!@");
    assert_eq!(it.run(1000).unwrap(), RunEvent::Halted);
    assert_eq!(it.stack_items(), &[1]);
    let mut it = interp(b"5!@");
    assert_eq!(it.run(1000).unwrap(), RunEvent::Halted);
    assert_eq!(it.stack_items(), &[0]);
}

#[test]
fn discard_pops_one() {
    let mut it = interp(b"12$@");
    assert_eq!(it.run(1000).unwrap(), RunEvent::Halted);
    assert_eq!(it.stack_items(), &[1]);
}

#[test]
fn stringmode_pushes_character_codes() {
    let mut it = interp(b"\"AB\"@");
    assert_eq!(it.run(1000).unwrap(), RunEvent::Halted);
    assert_eq!(it.stack_items(), &[65, 66]);
}

#[test]
fn bridge_skips_one_cell() {
    let mut it = interp(b"#12@");
    assert_eq!(it.run(1000).unwrap(), RunEvent::Halted);
    assert_eq!(it.stack_items(), &[2]);
}

#[test]
fn horizontal_if_goes_right_on_zero() {
    let mut it = interp(b"0_@");
    assert_eq!(it.run(1000).unwrap(), RunEvent::Halted);
    assert_eq!(it.direction(), Direction::Right);
}

#[test]
fn vertical_if_goes_down_on_zero_and_up_otherwise() {
    let mut it = interp(b"0|\n @\n");
    assert_eq!(it.run(1000).unwrap(), RunEvent::Halted);
    assert_eq!(it.direction(), Direction::Down);
    // A nonzero value sends the pointer up; it wraps over the blank rows
    // until it meets the '@' below the '|'.
    let mut it = interp(b"1|\n @\n");
    assert_eq!(it.run(1000).unwrap(), RunEvent::Halted);
    assert_eq!(it.direction(), Direction::Up);
}

#[test]
fn character_output_uses_the_code() {
    let mut it = interp(b"\"A\",@");
    match it.run(1000).unwrap() {
        RunEvent::Emitted(Emit::Ascii(b)) => assert_eq!(b, 65),
        other => panic!("expected an emitted character, got {other:?}"),
    }
}

#[test]
fn character_output_reduces_modulo_256() {
    // 0 - 1 = -1 on top of the stack; ',' emits its code modulo 256.
    let mut it = interp(b"01-,@");
    match it.run(1000).unwrap() {
        RunEvent::Emitted(Emit::Ascii(b)) => assert_eq!(b, 255),
        other => panic!("expected an emitted character, got {other:?}"),
    }
}

#[test]
fn integer_input_suspends_then_pushes_answer() {
    let mut it = interp(b"&@");
    match it.run(1000).unwrap() {
        RunEvent::Awaiting(n) => assert_eq!(n, Need::InputInteger),
        other => panic!("expected a suspension, got {other:?}"),
    }
    it.resume(42);
    assert_eq!(it.stack_items(), &[42]);
    assert_eq!(it.run(1000).unwrap(), RunEvent::Halted);
}

#[test]
fn character_input_suspends_then_pushes_code() {
    let mut it = interp(b"~@");
    match it.run(1000).unwrap() {
        RunEvent::Awaiting(n) => assert_eq!(n, Need::InputAscii),
        other => panic!("expected a suspension, got {other:?}"),
    }
    it.resume(65);
    assert_eq!(it.stack_items(), &[65]);
}

#[test]
fn put_then_get_through_the_program() {
    // Write 5 at (7, 7), then read it back.
    let mut it = interp(b"577p77g@");
    assert_eq!(it.run(1000).unwrap(), RunEvent::Halted);
    assert_eq!(it.stack_items(), &[5]);
}

#[test]
fn get_out_of_bounds_pushes_one_zero() {
    // 0 - 1 = -1 as the x coordinate: out of bounds, so 'g' pushes 0.
    let mut it = interp(b"01-0g@");
    assert_eq!(it.run(1000).unwrap(), RunEvent::Halted);
    assert_eq!(it.stack_items(), &[0]);
}

#[test]
fn put_out_of_bounds_is_a_no_op() {
    // y = -1 is out of bounds: the write is discarded and the value lost.
    let mut it = interp(b"501-p00g@");
    assert_eq!(it.run(1000).unwrap(), RunEvent::Halted);
    // The cell read back is the program's own first cell, '5'.
    assert_eq!(it.stack_items(), &[53]);
}

#[test]
fn random_direction_is_one_of_four() {
    for _ in 0..32 {
        let mut it = interp(b"?");
        assert_eq!(it.step().unwrap(), StepNote::Ran);
        let d = it.direction();
        assert!(
            d == Direction::Right || d == Direction::Left || d == Direction::Up
                || d == Direction::Down
        );
        assert_eq!(it.stack_items(), &[] as &[i64]);
    }
}

#[test]
fn unknown_instruction_reports_everything() {
    let mut it = interp(b"12q");
    let err = match it.run(1000) {
        Err(e) => e,
        Ok(other) => panic!("expected an unknown-instruction error, got {other:?}"),
    };
    assert_eq!(err.instruction, 113);
    assert_eq!(err.x, 2);
    assert_eq!(err.y, 0);
    assert_eq!(err.stack, vec![1, 2]);
    assert_eq!(err.dir, Direction::Right);
}

#[test]
fn out_of_fuel_when_the_program_spins() {
    // '>' at the row's start loops over blank cells forever.
    let mut it = interp(b">");
    assert_eq!(it.run(100).unwrap(), RunEvent::OutOfFuel);
    assert!(!it.is_halted());
}

#[test]
fn end_action_follows_the_flags() {
    let defaults = Flags::default();
    assert_eq!(end_action(defaults), EndAction::Flush);
    let noflush = Flags { noflush: true, ..defaults };
    assert_eq!(end_action(noflush), EndAction::Nothing);
    let close = Flags { closeonend: true, ..defaults };
    assert_eq!(end_action(close), EndAction::CloseUi);
    let both = Flags { closeonend: true, noflush: true, ..defaults };
    assert_eq!(end_action(both), EndAction::CloseUi);
}

#[test]
fn zero_fuel_changes_nothing() {
    let mut it = interp(b"1@");
    assert_eq!(it.run(0).unwrap(), RunEvent::OutOfFuel);
    assert_eq!(it.stack_items(), &[] as &[i64]);
    assert_eq!(it.position(), Position { x: 0, y: 0 });
}
