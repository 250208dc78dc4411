//! Carrying out shell commands on an interpreter. Each call reports what happened
//! as a value; showing it to a person is left to the caller.
use vstd::prelude::*;

use crate::command::{
    command_spec, parse_command, rejected_view, Command, CommandError, CommandFault, CommandSpec,
    ReadFault, Rejected,
};
use crate::errors::RuntimeError;
use crate::interpreter::{back_spec, forward_spec, run_spec, Instruction, Interpreter, MachineState};

verus! {

/// What a command did.
#[derive(Debug)]
pub enum Outcome {
    /// Instructions were queued; these pieces of the text could not be read.
    Added(Vec<Rejected>),
    /// The next instruction, if any.
    Current(Option<Instruction>),
    /// The queue is to be shown.
    Queue,
    /// This instruction was executed.
    Executed(Instruction),
    /// Every queued instruction was executed.
    RanAll,
    /// The last executed instruction was undone.
    Reversed,
    /// The stack is to be shown.
    Stack,
    /// The list of commands is to be shown.
    Help,
    /// The session is to end.
    Exit,
}

/// An `Outcome` as a mathematical value.
pub enum OutcomeSpec {
    Added(Seq<(Seq<char>, ReadFault)>),
    Current(Option<Instruction>),
    Queue,
    Executed(Instruction),
    RanAll,
    Reversed,
    Stack,
    Help,
    Exit,
}

impl View for Outcome {
    type V = OutcomeSpec;

    open spec fn view(&self) -> OutcomeSpec {
        match self {
            Outcome::Added(v) => OutcomeSpec::Added(rejected_view(v@)),
            Outcome::Current(i) => OutcomeSpec::Current(*i),
            Outcome::Queue => OutcomeSpec::Queue,
            Outcome::Executed(i) => OutcomeSpec::Executed(*i),
            Outcome::RanAll => OutcomeSpec::RanAll,
            Outcome::Reversed => OutcomeSpec::Reversed,
            Outcome::Stack => OutcomeSpec::Stack,
            Outcome::Help => OutcomeSpec::Help,
            Outcome::Exit => OutcomeSpec::Exit,
        }
    }
}

/// Carrying out command `c` in state `s`: the state after it, and its outcome or
/// the error of the interpreter call it made.
pub open spec fn execute_spec(s: MachineState, c: CommandSpec) -> (MachineState, Result<OutcomeSpec, RuntimeError>) {
    match c {
        CommandSpec::Add(b) => (
            MachineState { queue: s.queue + b.instructions, ..s },
            Ok(OutcomeSpec::Added(b.rejected)),
        ),
        CommandSpec::Current => (
            s,
            Ok(OutcomeSpec::Current(if s.queue.len() > 0 { Some(s.queue[0]) } else { None })),
        ),
        CommandSpec::Queue => (s, Ok(OutcomeSpec::Queue)),
        CommandSpec::Forward => {
            let (next, r) = forward_spec(s);
            (next, match r {
                Ok(i) => Ok(OutcomeSpec::Executed(i)),
                Err(e) => Err(e),
            })
        },
        CommandSpec::Run => {
            let (next, r) = run_spec(s);
            (next, match r {
                Ok(_) => Ok(OutcomeSpec::RanAll),
                Err(e) => Err(e),
            })
        },
        CommandSpec::Back => {
            let (next, r) = back_spec(s);
            (next, match r {
                Ok(_) => Ok(OutcomeSpec::Reversed),
                Err(e) => Err(e),
            })
        },
        CommandSpec::Print => (s, Ok(OutcomeSpec::Stack)),
        CommandSpec::Help => (s, Ok(OutcomeSpec::Help)),
        CommandSpec::Exit => (s, Ok(OutcomeSpec::Exit)),
    }
}

/// Carries out `command` on `interpreter` (see `execute_spec`).
pub fn execute_command(interpreter: &mut Interpreter, command: Command) -> (r: Result<Outcome, RuntimeError>)
    requires
        old(interpreter).wf(),
    ensures
        final(interpreter).wf(),
        final(interpreter)@ == execute_spec(old(interpreter)@, command@).0,
        match r {
            Ok(o) => execute_spec(old(interpreter)@, command@).1 == Ok::<OutcomeSpec, RuntimeError>(o@),
            Err(e) => execute_spec(old(interpreter)@, command@).1 == Err::<OutcomeSpec, RuntimeError>(e),
        },
{
    match command {
        Command::AddInstruction(batch) => {
            interpreter.add_instructions(batch.instructions.as_slice());
            Ok(Outcome::Added(batch.rejected))
        },
        Command::CurrentInstruction => {
            let current = match interpreter.current_instruction() {
                Some(i) => Some(*i),
                None => None,
            };
            proof {
                let q = old(interpreter)@.queue;
                if q.len() > 0 {
                    assert(q.update(0, q[0]) =~= q);
                }
            }
            Ok(Outcome::Current(current))
        },
        Command::InstructionQueue => Ok(Outcome::Queue),
        Command::Forward => {
            let i = interpreter.forward()?;
            Ok(Outcome::Executed(i))
        },
        Command::Run => {
            interpreter.run()?;
            Ok(Outcome::RanAll)
        },
        Command::Back => {
            interpreter.back()?;
            Ok(Outcome::Reversed)
        },
        Command::PrintStack => Ok(Outcome::Stack),
        Command::Help => Ok(Outcome::Help),
        Command::Exit => Ok(Outcome::Exit),
    }
}

/// What one line of shell input led to.
#[derive(Debug)]
pub enum Reply {
    /// The line was a command, carried out with this outcome.
    Done(Outcome),
    /// The line was not a command, for this reason; nothing was changed.
    NotCommand(CommandError),
}

/// A `Reply` as a mathematical value.
pub enum ReplySpec {
    Done(OutcomeSpec),
    NotCommand(CommandFault),
}

impl View for Reply {
    type V = ReplySpec;

    open spec fn view(&self) -> ReplySpec {
        match self {
            Reply::Done(o) => ReplySpec::Done(o@),
            Reply::NotCommand(e) => ReplySpec::NotCommand(e@),
        }
    }
}

/// Reading and carrying out the line `input` in state `s`.
pub open spec fn line_spec(s: MachineState, input: Seq<char>) -> (MachineState, Result<ReplySpec, RuntimeError>) {
    match command_spec(input) {
        Ok(c) => {
            let (next, r) = execute_spec(s, c);
            (next, match r {
                Ok(o) => Ok(ReplySpec::Done(o)),
                Err(e) => Err(e),
            })
        },
        Err(f) => (s, Ok(ReplySpec::NotCommand(f))),
    }
}

/// Reads the line `input` as a command and carries it out (see `line_spec`).
pub fn parse_and_execute_command(interpreter: &mut Interpreter, input: &str) -> (r: Result<Reply, RuntimeError>)
    requires
        old(interpreter).wf(),
    ensures
        final(interpreter).wf(),
        final(interpreter)@ == line_spec(old(interpreter)@, input@).0,
        match r {
            Ok(o) => line_spec(old(interpreter)@, input@).1 == Ok::<ReplySpec, RuntimeError>(o@),
            Err(e) => line_spec(old(interpreter)@, input@).1 == Err::<ReplySpec, RuntimeError>(e),
        },
{
    match parse_command(input) {
        Ok(command) => {
            let outcome = execute_command(interpreter, command)?;
            Ok(Reply::Done(outcome))
        },
        Err(e) => Ok(Reply::NotCommand(e)),
    }
}

} // verus!
