use reversible_interpreter::interpreter::{Instruction, Interpreter, RuntimeError};

fn loaded(instructions: &[Instruction]) -> Interpreter {
    let mut interpreter = Interpreter::new();
    interpreter.add_instructions(instructions);
    interpreter
}

fn queue_of(interpreter: &Interpreter) -> Vec<Instruction> {
    interpreter.instructions().iter().cloned().collect()
}

#[test]
fn divide_by_zero_restores_stack_and_consumes_div() {
    let mut interpreter = loaded(&[Instruction::Push(10), Instruction::Push(0), Instruction::Div]);
    assert_eq!(interpreter.run(), Err(RuntimeError::DivideByZero));
    assert_eq!(interpreter.stack(), &vec![10, 0]);
    assert!(interpreter.instructions().is_empty());
    assert_eq!(interpreter.history().len(), 2);
}

#[test]
fn pop_on_empty_stack_leaves_stack_untouched() {
    let mut interpreter = loaded(&[Instruction::Pop]);
    assert_eq!(interpreter.run(), Err(RuntimeError::StackUnderflow));
    assert!(interpreter.stack().is_empty());
    assert!(interpreter.instructions().is_empty());
    assert!(interpreter.history().is_empty());
}

#[test]
fn add_then_one_back() {
    let mut interpreter = loaded(&[Instruction::Push(5), Instruction::Push(3), Instruction::Add]);
    assert_eq!(interpreter.run(), Ok(()));
    assert_eq!(interpreter.stack(), &vec![8]);
    assert_eq!(interpreter.back(), Ok(()));
    assert_eq!(interpreter.stack(), &vec![5, 3]);
    assert_eq!(queue_of(&interpreter), vec![Instruction::Add]);
}

#[test]
fn add_overflow_restores_operands() {
    let mut interpreter = loaded(&[Instruction::Push(i32::MAX), Instruction::Push(1), Instruction::Add]);
    assert_eq!(interpreter.run(), Err(RuntimeError::ArithmeticOverflow));
    assert_eq!(interpreter.stack(), &vec![i32::MAX, 1]);
    assert!(interpreter.instructions().is_empty());
}

#[test]
fn div_min_by_minus_one_overflows() {
    let mut interpreter = loaded(&[Instruction::Push(i32::MIN), Instruction::Push(-1), Instruction::Div]);
    assert_eq!(interpreter.run(), Err(RuntimeError::ArithmeticOverflow));
    assert_eq!(interpreter.stack(), &vec![i32::MIN, -1]);
}

#[test]
fn sub_and_mul_overflow() {
    let mut interpreter = loaded(&[Instruction::Push(i32::MIN), Instruction::Push(1), Instruction::Sub]);
    assert_eq!(interpreter.run(), Err(RuntimeError::ArithmeticOverflow));
    assert_eq!(interpreter.stack(), &vec![i32::MIN, 1]);
    let mut interpreter = loaded(&[Instruction::Push(65536), Instruction::Push(32768), Instruction::Mul]);
    assert_eq!(interpreter.run(), Err(RuntimeError::ArithmeticOverflow));
    assert_eq!(interpreter.stack(), &vec![65536, 32768]);
}

#[test]
fn division_truncates_toward_zero() {
    let cases = [(7, 2, 3), (-7, 2, -3), (7, -2, -3), (-7, -2, 3), (1, 3, 0), (-1, 3, 0), (i32::MIN, 1, i32::MIN)];
    for (a, b, q) in cases {
        let mut interpreter = loaded(&[Instruction::Push(a), Instruction::Push(b), Instruction::Div]);
        assert_eq!(interpreter.run(), Ok(()));
        assert_eq!(interpreter.stack(), &vec![q]);
    }
}

#[test]
fn operand_order_is_second_then_top() {
    let mut interpreter = loaded(&[Instruction::Push(10), Instruction::Push(4), Instruction::Sub]);
    interpreter.run().unwrap();
    assert_eq!(interpreter.stack(), &vec![6]);
    let entry = &interpreter.history()[2];
    assert_eq!(entry.popped_values, vec![4, 10]);
    assert_eq!(entry.pushed_values, vec![6]);
}

#[test]
fn history_entries_for_push_and_pop() {
    let mut interpreter = loaded(&[Instruction::Push(9), Instruction::Pop]);
    interpreter.run().unwrap();
    let push = &interpreter.history()[0];
    assert_eq!(push.instruction, Instruction::Push(9));
    assert!(push.popped_values.is_empty());
    assert_eq!(push.pushed_values, vec![9]);
    let pop = &interpreter.history()[1];
    assert_eq!(pop.instruction, Instruction::Pop);
    assert_eq!(pop.popped_values, vec![9]);
    assert!(pop.pushed_values.is_empty());
}

#[test]
fn binary_op_with_one_value_underflows() {
    let mut interpreter = loaded(&[Instruction::Push(4), Instruction::Mul, Instruction::Push(1)]);
    assert_eq!(interpreter.run(), Err(RuntimeError::StackUnderflow));
    assert_eq!(interpreter.stack(), &vec![4]);
    assert_eq!(queue_of(&interpreter), vec![Instruction::Push(1)]);
}

#[test]
fn forward_then_back_round_trip() {
    let mut interpreter = loaded(&[Instruction::Push(6), Instruction::Push(3), Instruction::Div, Instruction::Pop]);
    interpreter.forward().unwrap();
    interpreter.forward().unwrap();
    let before_stack = interpreter.stack().clone();
    let before_queue = queue_of(&interpreter);
    let before_history = interpreter.history().len();
    assert_eq!(interpreter.forward(), Ok(Instruction::Div));
    assert_eq!(interpreter.stack(), &vec![2]);
    interpreter.back().unwrap();
    assert_eq!(interpreter.stack(), &before_stack);
    assert_eq!(queue_of(&interpreter), before_queue);
    assert_eq!(interpreter.history().len(), before_history);
    assert_eq!(*interpreter.current_instruction().unwrap(), Instruction::Div);
}

#[test]
fn drain_after_successful_run_restores_everything() {
    let program = [
        Instruction::Push(4),
        Instruction::Push(-9),
        Instruction::Mul,
        Instruction::Push(2),
        Instruction::Pop,
        Instruction::Push(5),
        Instruction::Sub,
    ];
    let mut interpreter = loaded(&program);
    assert_eq!(interpreter.run(), Ok(()));
    assert_eq!(interpreter.stack(), &vec![-41]);
    for _ in 0..program.len() {
        assert_eq!(interpreter.back(), Ok(()));
    }
    assert!(interpreter.stack().is_empty());
    assert_eq!(queue_of(&interpreter), program.to_vec());
    assert_eq!(interpreter.back(), Err(RuntimeError::NoInstructions));
}

#[test]
fn conservation_after_failed_run() {
    let program = [
        Instruction::Push(1),
        Instruction::Push(2),
        Instruction::Pop,
        Instruction::Pop,
        Instruction::Pop,
        Instruction::Push(7),
        Instruction::Add,
    ];
    let mut interpreter = loaded(&program);
    assert_eq!(interpreter.run(), Err(RuntimeError::StackUnderflow));
    assert_eq!(interpreter.history().len(), 4);
    assert_eq!(queue_of(&interpreter), vec![Instruction::Push(7), Instruction::Add]);
    assert_eq!(interpreter.history().len() + interpreter.instructions().len() + 1, program.len());
}

#[test]
fn conservation_after_successful_run() {
    let program = [Instruction::Push(1), Instruction::Push(2), Instruction::Add];
    let mut interpreter = loaded(&program);
    assert_eq!(interpreter.run(), Ok(()));
    assert_eq!(interpreter.history().len(), program.len());
    assert!(interpreter.instructions().is_empty());
}

#[test]
fn run_stops_at_first_failure_and_keeps_the_rest_queued() {
    let mut interpreter = loaded(&[Instruction::Push(1), Instruction::Push(0), Instruction::Div, Instruction::Push(3)]);
    assert_eq!(interpreter.run(), Err(RuntimeError::DivideByZero));
    assert_eq!(queue_of(&interpreter), vec![Instruction::Push(3)]);
    assert_eq!(interpreter.run(), Ok(()));
    assert_eq!(interpreter.stack(), &vec![1, 0, 3]);
}

#[test]
fn current_instruction_can_be_replaced() {
    let mut interpreter = Interpreter::new();
    assert!(interpreter.current_instruction().is_none());
    interpreter.add_instructions(&[Instruction::Push(1), Instruction::Pop]);
    *interpreter.current_instruction().unwrap() = Instruction::Push(42);
    assert_eq!(queue_of(&interpreter), vec![Instruction::Push(42), Instruction::Pop]);
    assert_eq!(interpreter.forward(), Ok(Instruction::Push(42)));
    assert_eq!(interpreter.stack(), &vec![42]);
}

#[test]
fn instructions_added_later_go_to_the_back() {
    let mut interpreter = loaded(&[Instruction::Push(1)]);
    interpreter.forward().unwrap();
    interpreter.add_instructions(&[Instruction::Push(2), Instruction::Add]);
    interpreter.back().unwrap();
    assert_eq!(queue_of(&interpreter), vec![Instruction::Push(1), Instruction::Push(2), Instruction::Add]);
    assert_eq!(interpreter.run(), Ok(()));
    assert_eq!(interpreter.stack(), &vec![3]);
}
