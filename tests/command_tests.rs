use reversible_interpreter::command::{
    command_named, decode_instruction, parse_command, parse_instruction, parse_instructions_shell,
    read_instruction, Command, CommandError, InstructionError, Rejected,
};
use reversible_interpreter::errors::RuntimeError;
use reversible_interpreter::interpreter::{Instruction, Interpreter};
use reversible_interpreter::session::{execute_command, parse_and_execute_command, Outcome, Reply};

/// Feeds lines to a fresh interpreter the way script mode does, stopping at the
/// first error or at `exit`.
fn script(lines: &[&str]) -> (Interpreter, Vec<Reply>, Option<RuntimeError>) {
    let mut interpreter = Interpreter::new();
    let mut replies = Vec::new();
    for line in lines {
        match parse_and_execute_command(&mut interpreter, line) {
            Ok(Reply::Done(Outcome::Exit)) => break,
            Ok(reply) => replies.push(reply),
            Err(e) => return (interpreter, replies, Some(e)),
        }
    }
    (interpreter, replies, None)
}

#[test]
fn test_add_and_forward_command() {
    let mut interpreter = Interpreter::new();
    let input = "add PUSH 5; PUSH 3";
    parse_and_execute_command(&mut interpreter, input).unwrap();
    assert_eq!(interpreter.instructions().len(), 2);

    let input = "forward";
    parse_and_execute_command(&mut interpreter, input).unwrap();
    assert_eq!(*interpreter.stack(), vec![5]);
    assert_eq!(interpreter.instructions().len(), 1);

    let input = "forward";
    parse_and_execute_command(&mut interpreter, input).unwrap();
    assert_eq!(*interpreter.stack(), vec![5, 3]);
    assert_eq!(interpreter.instructions().len(), 0);
}

#[test]
fn test_back_command() {
    let mut interpreter = Interpreter::new();
    let input = "add PUSH 5; PUSH 3";
    parse_and_execute_command(&mut interpreter, input).unwrap();
    let input = "run";
    parse_and_execute_command(&mut interpreter, input).unwrap();
    assert_eq!(*interpreter.stack(), vec![5, 3]);
    let input = "back";
    parse_and_execute_command(&mut interpreter, input).unwrap();
    assert_eq!(*interpreter.stack(), vec![5]);
    assert_eq!(interpreter.instructions().len(), 1);
    assert_eq!(*interpreter.current_instruction().unwrap(), Instruction::Push(3));
}

#[test]
fn test_unknown_command() {
    let mut interpreter = Interpreter::new();
    let input = "unknown";
    let reply = parse_and_execute_command(&mut interpreter, input).unwrap();
    match reply {
        Reply::NotCommand(CommandError::Unknown(word)) => assert_eq!(word, "unknown"),
        other => panic!("unexpected reply {:?}", other),
    }
}

#[test]
fn test_parse_instruction_invalid() {
    let result = parse_instruction("INVALID");
    assert_eq!(result.unwrap_err(), RuntimeError::InvalidCommand);
}

#[test]
fn test_cli_script_mode_success() {
    let (interpreter, replies, error) = script(&["add PUSH 5; PUSH 3", "run"]);
    assert!(error.is_none());
    assert!(matches!(&replies[0], Reply::Done(Outcome::Added(rejected)) if rejected.is_empty()));
    assert!(matches!(&replies[1], Reply::Done(Outcome::RanAll)));
    assert_eq!(interpreter.stack(), &vec![5, 3]);
}

#[test]
fn test_cli_script_mode_error() {
    let (interpreter, replies, error) = script(&["add PUSH 5; DIV", "run"]);
    assert_eq!(error, Some(RuntimeError::StackUnderflow));
    assert_eq!(replies.len(), 1);
    assert_eq!(interpreter.stack(), &vec![5]);
}

#[test]
fn test_cli_invalid_command() {
    let (interpreter, replies, error) = script(&["add INVALID"]);
    assert!(error.is_none());
    match &replies[0] {
        Reply::NotCommand(CommandError::NoValidInstructions(rejected)) => {
            assert_eq!(
                rejected,
                &vec![Rejected {
                    text: "INVALID".to_string(),
                    error: InstructionError::Unknown("INVALID".to_string())
                }]
            );
        }
        other => panic!("unexpected reply {:?}", other),
    }
    assert!(interpreter.instructions().is_empty());
}

#[test]
fn instruction_words_are_case_insensitive() {
    assert_eq!(parse_instruction("push 7"), Ok(Instruction::Push(7)));
    assert_eq!(parse_instruction("pUsH -12"), Ok(Instruction::Push(-12)));
    assert_eq!(parse_instruction("pop"), Ok(Instruction::Pop));
    assert_eq!(parse_instruction("Add"), Ok(Instruction::Add));
    assert_eq!(parse_instruction("sub"), Ok(Instruction::Sub));
    assert_eq!(parse_instruction("mul"), Ok(Instruction::Mul));
    assert_eq!(parse_instruction("div"), Ok(Instruction::Div));
}

#[test]
fn instruction_white_space_is_ignored() {
    assert_eq!(parse_instruction("  PUSH \t 9  "), Ok(Instruction::Push(9)));
    assert_eq!(parse_instruction("\tPOP\n"), Ok(Instruction::Pop));
}

#[test]
fn push_values_at_the_limits() {
    assert_eq!(parse_instruction("PUSH 2147483647"), Ok(Instruction::Push(i32::MAX)));
    assert_eq!(parse_instruction("PUSH -2147483648"), Ok(Instruction::Push(i32::MIN)));
    assert_eq!(parse_instruction("PUSH +5"), Ok(Instruction::Push(5)));
    assert_eq!(read_instruction("PUSH 2147483648"), Err(InstructionError::BadValue));
    assert_eq!(read_instruction("PUSH 1.5"), Err(InstructionError::BadValue));
    assert_eq!(read_instruction("PUSH -"), Err(InstructionError::BadValue));
}

#[test]
fn instruction_errors() {
    assert_eq!(read_instruction("PUSH"), Err(InstructionError::PushArity));
    assert_eq!(read_instruction("PUSH 1 2"), Err(InstructionError::PushArity));
    assert_eq!(read_instruction("   "), Err(InstructionError::Blank));
    assert_eq!(read_instruction("jump 3"), Err(InstructionError::Unknown("JUMP".to_string())));
    assert_eq!(parse_instruction(""), Err(RuntimeError::NoInstructions));
    assert_eq!(parse_instruction("PUSH"), Err(RuntimeError::InvalidCommand));
    assert_eq!(parse_instruction("PUSH x"), Err(RuntimeError::InvalidCommand));
}

#[test]
fn decode_takes_the_upper_cased_word() {
    assert_eq!(decode_instruction("PUSH".to_string(), 2, "31"), Ok(Instruction::Push(31)));
    assert_eq!(decode_instruction("PUSH".to_string(), 1, ""), Err(InstructionError::PushArity));
    assert_eq!(decode_instruction("DIV".to_string(), 1, ""), Ok(Instruction::Div));
    assert_eq!(decode_instruction("DIV".to_string(), 3, "x"), Ok(Instruction::Div));
    assert_eq!(decode_instruction("push".to_string(), 2, "1"), Err(InstructionError::Unknown("push".to_string())));
}

#[test]
fn batch_keeps_order_and_reports_bad_pieces() {
    let batch = parse_instructions_shell(" PUSH 1 ;; bogus ; ADD;PUSH x; ");
    assert_eq!(batch.instructions, vec![Instruction::Push(1), Instruction::Add]);
    assert_eq!(
        batch.rejected,
        vec![
            Rejected { text: "bogus".to_string(), error: InstructionError::Unknown("BOGUS".to_string()) },
            Rejected { text: "PUSH x".to_string(), error: InstructionError::BadValue },
        ]
    );
    let empty = parse_instructions_shell("");
    assert!(empty.instructions.is_empty());
    assert!(empty.rejected.is_empty());
}

#[test]
fn command_words() {
    assert!(matches!(parse_command("  FORWARD "), Ok(Command::Forward)));
    assert!(matches!(parse_command("run"), Ok(Command::Run)));
    assert!(matches!(parse_command("Back"), Ok(Command::Back)));
    assert!(matches!(parse_command("print"), Ok(Command::PrintStack)));
    assert!(matches!(parse_command("stack"), Ok(Command::PrintStack)));
    assert!(matches!(parse_command("current"), Ok(Command::CurrentInstruction)));
    assert!(matches!(parse_command("current-instruction"), Ok(Command::CurrentInstruction)));
    assert!(matches!(parse_command("queue"), Ok(Command::InstructionQueue)));
    assert!(matches!(parse_command("help"), Ok(Command::Help)));
    assert!(matches!(parse_command("EXIT"), Ok(Command::Exit)));
    assert!(matches!(parse_command("   "), Err(CommandError::Empty)));
    assert!(matches!(parse_command("run\tnow"), Err(CommandError::Unknown(w)) if w == "run\tnow"));
}

#[test]
fn add_command_reads_its_arguments() {
    match parse_command("ADD-INSTRUCTION   push 2 ;  mul ") {
        Ok(Command::AddInstruction(batch)) => {
            assert_eq!(batch.instructions, vec![Instruction::Push(2), Instruction::Mul]);
            assert!(batch.rejected.is_empty());
        }
        other => panic!("unexpected result {:?}", other),
    }
    assert!(matches!(parse_command("add"), Err(CommandError::NoValidInstructions(r)) if r.is_empty()));
}

#[test]
fn command_named_takes_the_lower_cased_word() {
    assert!(matches!(command_named("back".to_string(), ""), Ok(Command::Back)));
    assert!(matches!(command_named("BACK".to_string(), ""), Err(CommandError::Unknown(w)) if w == "BACK"));
    match command_named("add".to_string(), "POP") {
        Ok(Command::AddInstruction(batch)) => assert_eq!(batch.instructions, vec![Instruction::Pop]),
        other => panic!("unexpected result {:?}", other),
    }
}

#[test]
fn execute_reports_outcomes() {
    let mut interpreter = Interpreter::new();
    let added = execute_command(&mut interpreter, parse_command("add push 4; push 6; push 0; div").unwrap());
    assert!(matches!(added, Ok(Outcome::Added(_))));
    assert!(matches!(
        execute_command(&mut interpreter, Command::CurrentInstruction),
        Ok(Outcome::Current(Some(Instruction::Push(4))))
    ));
    assert!(matches!(execute_command(&mut interpreter, Command::Forward), Ok(Outcome::Executed(Instruction::Push(4)))));
    assert_eq!(execute_command(&mut interpreter, Command::Run).unwrap_err(), RuntimeError::DivideByZero);
    assert_eq!(interpreter.stack(), &vec![4, 6, 0]);
    assert!(matches!(execute_command(&mut interpreter, Command::Back), Ok(Outcome::Reversed)));
    assert_eq!(interpreter.stack(), &vec![4, 6]);
    assert!(matches!(execute_command(&mut interpreter, Command::PrintStack), Ok(Outcome::Stack)));
    assert!(matches!(execute_command(&mut interpreter, Command::CurrentInstruction), Ok(Outcome::Current(Some(Instruction::Push(0))))));
}

#[test]
fn empty_line_changes_nothing() {
    let mut interpreter = Interpreter::new();
    let reply = parse_and_execute_command(&mut interpreter, "").unwrap();
    assert!(matches!(reply, Reply::NotCommand(CommandError::Empty)));
    assert!(interpreter.instructions().is_empty());
}
