//! Reading instructions and shell commands from text.
use vstd::prelude::*;

use crate::errors::RuntimeError;
use crate::interpreter::Instruction;
use crate::text::{
    chars_of, lemma_nonempty_push, nonempty_pieces, split_by, split_ranges, trim, trim_range, words,
};

verus! {

/// The upper-case form of `s`, as `str::to_uppercase` gives it.
pub uninterp spec fn upper_of(s: Seq<char>) -> Seq<char>;

/// The lower-case form of `s`, as `str::to_lowercase` gives it.
pub uninterp spec fn lower_of(s: Seq<char>) -> Seq<char>;

/// Relies on `str::to_uppercase`: the result depends on the characters alone.
#[verifier::external_body]
fn to_upper(s: &str) -> (r: String)
    ensures
        r@ == upper_of(s@),
{
    s.to_uppercase()
}

/// Relies on `str::to_lowercase`: the result depends on the characters alone.
#[verifier::external_body]
fn to_lower(s: &str) -> (r: String)
    ensures
        r@ == lower_of(s@),
{
    s.to_lowercase()
}

/// The number written by the decimal digits `d`.
pub open spec fn digits_value(d: Seq<char>) -> int
    decreases d.len(),
{
    if d.len() == 0 {
        0
    } else {
        10 * digits_value(d.drop_last()) + (d.last() as int - '0' as int)
    }
}

/// `d` is one or more ASCII decimal digits.
pub open spec fn all_digits(d: Seq<char>) -> bool {
    d.len() > 0 && forall|i: int| 0 <= i < d.len() ==> '0' <= #[trigger] d[i] <= '9'
}

/// The `i32` written by `s`: an optional `+` or `-`, then decimal digits, the
/// value in range; `None` for any other text.
pub open spec fn decimal_i32(s: Seq<char>) -> Option<i32> {
    let signed = s.len() > 0 && (s[0] == '-' || s[0] == '+');
    let d = if signed { s.drop_first() } else { s };
    let v = if s.len() > 0 && s[0] == '-' { -digits_value(d) } else { digits_value(d) };
    if all_digits(d) && i32::MIN <= v <= i32::MAX {
        Some(v as i32)
    } else {
        None
    }
}

/// Relies on `<i32 as FromStr>::from_str`: an optional sign, then decimal digits
/// whose value fits in `i32`; anything else is an error.
#[verifier::external_body]
fn parse_i32(s: &str) -> (r: Option<i32>)
    ensures
        r == decimal_i32(s@),
{
    s.parse::<i32>().ok()
}

/// Whether the text of `s` is `t`.
fn is_text(s: &String, t: &str) -> (r: bool)
    ensures
        r == (s@ == t@),
{
    let owned = t.to_owned();
    *s == owned
}

/// Why instruction text could not be read.
#[derive(Debug, PartialEq, Eq)]
pub enum InstructionError {
    /// The text holds no word.
    Blank,
    /// `PUSH` without exactly one argument.
    PushArity,
    /// The argument of `PUSH` is not an `i32`.
    BadValue,
    /// The first word, upper-cased, names no instruction.
    Unknown(String),
}

/// An `InstructionError` as a mathematical value.
pub enum ReadFault {
    Blank,
    PushArity,
    BadValue,
    Unknown(Seq<char>),
}

impl View for InstructionError {
    type V = ReadFault;

    open spec fn view(&self) -> ReadFault {
        match self {
            InstructionError::Blank => ReadFault::Blank,
            InstructionError::PushArity => ReadFault::PushArity,
            InstructionError::BadValue => ReadFault::BadValue,
            InstructionError::Unknown(w) => ReadFault::Unknown(w@),
        }
    }
}

/// The error kind of a reading failure: `NoInstructions` for blank text,
/// `InvalidCommand` for the others.
pub open spec fn fault_kind(f: ReadFault) -> RuntimeError {
    match f {
        ReadFault::Blank => RuntimeError::NoInstructions,
        _ => RuntimeError::InvalidCommand,
    }
}

impl InstructionError {
    /// The runtime error that stands for this failure (see `fault_kind`).
    pub fn kind(&self) -> (r: RuntimeError)
        ensures
            r == fault_kind(self@),
    {
        match self {
            InstructionError::Blank => RuntimeError::NoInstructions,
            _ => RuntimeError::InvalidCommand,
        }
    }
}

/// The instruction named by the upper-cased word `op`, given how many words the
/// text has in all and its second word `operand` (empty when there is none):
/// `PUSH` takes exactly one operand, an `i32`; the others take what follows.
pub open spec fn decode_spec(op: Seq<char>, word_count: nat, operand: Seq<char>) -> Result<Instruction, ReadFault> {
    if op == "PUSH"@ {
        if word_count != 2 {
            Err(ReadFault::PushArity)
        } else {
            match decimal_i32(operand) {
                Some(v) => Ok(Instruction::Push(v)),
                None => Err(ReadFault::BadValue),
            }
        }
    } else if op == "POP"@ {
        Ok(Instruction::Pop)
    } else if op == "ADD"@ {
        Ok(Instruction::Add)
    } else if op == "SUB"@ {
        Ok(Instruction::Sub)
    } else if op == "MUL"@ {
        Ok(Instruction::Mul)
    } else if op == "DIV"@ {
        Ok(Instruction::Div)
    } else {
        Err(ReadFault::Unknown(op))
    }
}

/// The instruction written by `s`: its first word, in any case, names it (see
/// `decode_spec`); text without a word is `Blank`.
pub open spec fn read_spec(s: Seq<char>) -> Result<Instruction, ReadFault> {
    let w = words(s);
    if w.len() == 0 {
        Err(ReadFault::Blank)
    } else {
        decode_spec(upper_of(w[0]), w.len(), if w.len() > 1 { w[1] } else { seq![] })
    }
}

/// Decides the instruction named by the upper-cased word `op` (see `decode_spec`).
pub fn decode_instruction(op: String, word_count: usize, operand: &str) -> (r: Result<Instruction, InstructionError>)
    ensures
        match r {
            Ok(i) => decode_spec(op@, word_count as nat, operand@) == Ok::<Instruction, ReadFault>(i),
            Err(e) => decode_spec(op@, word_count as nat, operand@) == Err::<Instruction, ReadFault>(e@),
        },
{
    if is_text(&op, "PUSH") {
        if word_count != 2 {
            return Err(InstructionError::PushArity);
        }
        match parse_i32(operand) {
            Some(v) => Ok(Instruction::Push(v)),
            None => Err(InstructionError::BadValue),
        }
    } else if is_text(&op, "POP") {
        Ok(Instruction::Pop)
    } else if is_text(&op, "ADD") {
        Ok(Instruction::Add)
    } else if is_text(&op, "SUB") {
        Ok(Instruction::Sub)
    } else if is_text(&op, "MUL") {
        Ok(Instruction::Mul)
    } else if is_text(&op, "DIV") {
        Ok(Instruction::Div)
    } else {
        Err(InstructionError::Unknown(op))
    }
}

/// `r` holds, in order, the bounds in `cs` of each of `pieces`.
pub open spec fn bounds_of(cs: Seq<char>, r: Seq<(usize, usize)>, pieces: Seq<Seq<char>>) -> bool {
    &&& r.len() == pieces.len()
    &&& forall|i: int|
        0 <= i < r.len() ==> #[trigger] r[i].0 <= r[i].1 <= cs.len() && cs.subrange(r[i].0 as int, r[i].1 as int)
            == pieces[i]
}

/// The bounds of the words of `cs`, in order.
fn word_ranges(cs: &Vec<char>) -> (r: Vec<(usize, usize)>)
    ensures
        bounds_of(cs@, r@, words(cs@)),
{
    let pieces = split_ranges(cs, 0, cs.len(), None);
    let ghost all = split_by(cs@.subrange(0, cs@.len() as int), None);
    assert(cs@.subrange(0, cs@.len() as int) =~= cs@);
    let mut found: Vec<(usize, usize)> = Vec::new();
    let mut k: usize = 0;
    while k < pieces.len()
        invariant
            k <= pieces@.len() == all.len(),
            all == split_by(cs@, None),
            forall|j: int|
                0 <= j < pieces@.len() ==> #[trigger] pieces@[j].0 <= pieces@[j].1 <= cs@.len()
                    && cs@.subrange(pieces@[j].0 as int, pieces@[j].1 as int) == all[j],
            bounds_of(cs@, found@, nonempty_pieces(all.subrange(0, k as int))),
        decreases pieces@.len() - k,
    {
        let (a, b) = pieces[k];
        proof {
            assert(all.subrange(0, k + 1) =~= all.subrange(0, k as int).push(all[k as int]));
            lemma_nonempty_push(all.subrange(0, k as int), all[k as int]);
        }
        let ghost before = found@;
        if a < b {
            found.push((a, b));
            proof {
                let next = nonempty_pieces(all.subrange(0, k + 1));
                assert forall|j: int| 0 <= j < found@.len() implies #[trigger] found@[j].0 <= found@[j].1 <= cs@.len()
                    && cs@.subrange(found@[j].0 as int, found@[j].1 as int) == next[j] by {
                    if j < before.len() {
                        assert(found@[j] == before[j]);
                    }
                }
            }
        }
        k += 1;
    }
    assert(all.subrange(0, k as int) =~= all);
    assert(nonempty_pieces(all.subrange(0, k as int)) == words(cs@));
    found
}

/// Reads one instruction from `s` (see `read_spec`).
pub fn read_instruction(s: &str) -> (r: Result<Instruction, InstructionError>)
    ensures
        match r {
            Ok(i) => read_spec(s@) == Ok::<Instruction, ReadFault>(i),
            Err(e) => read_spec(s@) == Err::<Instruction, ReadFault>(e@),
        },
{
    let cs = chars_of(s);
    let w = word_ranges(&cs);
    if w.len() == 0 {
        return Err(InstructionError::Blank);
    }
    let op = to_upper(s.substring_char(w[0].0, w[0].1));
    let operand = if w.len() > 1 {
        s.substring_char(w[1].0, w[1].1)
    } else {
        let e = s.substring_char(0, 0);
        proof {
            assert(e@ =~= seq![]);
        }
        e
    };
    decode_instruction(op, w.len(), operand)
}

/// Reads one instruction from `s`: `NoInstructions` when `s` holds no word,
/// `InvalidCommand` when it names no instruction or `PUSH` lacks a single `i32`.
pub fn parse_instruction(s: &str) -> (r: Result<Instruction, RuntimeError>)
    ensures
        match read_spec(s@) {
            Ok(i) => r == Ok::<Instruction, RuntimeError>(i),
            Err(f) => r == Err::<Instruction, RuntimeError>(fault_kind(f)),
        },
{
    match read_instruction(s) {
        Ok(i) => Ok(i),
        Err(e) => Err(e.kind()),
    }
}

/// A piece of instruction text that could not be read, and why.
#[derive(Debug, PartialEq, Eq)]
pub struct Rejected {
    pub text: String,
    pub error: InstructionError,
}

impl View for Rejected {
    type V = (Seq<char>, ReadFault);

    open spec fn view(&self) -> (Seq<char>, ReadFault) {
        (self.text@, self.error@)
    }
}

/// The views of `v`, in order.
pub open spec fn rejected_view(v: Seq<Rejected>) -> Seq<(Seq<char>, ReadFault)> {
    v.map_values(|x: Rejected| x@)
}

/// The instructions read from `;`-separated text, and the pieces that could not
/// be read, each in the order of the text.
#[derive(Debug)]
pub struct InstructionBatch {
    pub instructions: Vec<Instruction>,
    pub rejected: Vec<Rejected>,
}

/// An `InstructionBatch` as a mathematical value.
pub struct BatchView {
    pub instructions: Seq<Instruction>,
    pub rejected: Seq<(Seq<char>, ReadFault)>,
}

impl View for InstructionBatch {
    type V = BatchView;

    open spec fn view(&self) -> BatchView {
        BatchView { instructions: self.instructions@, rejected: rejected_view(self.rejected@) }
    }
}

/// What reading each of `pieces` gives: pieces that are blank once trimmed are
/// skipped; each other piece, trimmed, is read as one instruction.
pub open spec fn batch_from(pieces: Seq<Seq<char>>) -> BatchView
    decreases pieces.len(),
{
    if pieces.len() == 0 {
        BatchView { instructions: seq![], rejected: seq![] }
    } else {
        let b = batch_from(pieces.drop_last());
        let t = trim(pieces.last());
        if t.len() == 0 {
            b
        } else {
            match read_spec(t) {
                Ok(i) => BatchView { instructions: b.instructions.push(i), ..b },
                Err(f) => BatchView { rejected: b.rejected.push((t, f)), ..b },
            }
        }
    }
}

/// What reading the `;`-separated instructions of `s` gives.
pub open spec fn batch_spec(s: Seq<char>) -> BatchView {
    batch_from(split_by(s, Some(';')))
}

/// Reads the `;`-separated instructions of `input` (see `batch_spec`).
pub fn parse_instructions_shell(input: &str) -> (r: InstructionBatch)
    ensures
        r@ == batch_spec(input@),
{
    let cs = chars_of(input);
    let pieces = split_ranges(&cs, 0, cs.len(), Some(';'));
    let ghost all = split_by(cs@.subrange(0, cs@.len() as int), Some(';'));
    assert(cs@.subrange(0, cs@.len() as int) =~= cs@);
    let mut instructions: Vec<Instruction> = Vec::new();
    let mut rejected: Vec<Rejected> = Vec::new();
    let mut k: usize = 0;
    while k < pieces.len()
        invariant
            k <= pieces@.len() == all.len(),
            all == split_by(input@, Some(';')),
            cs@ == input@,
            forall|j: int|
                0 <= j < pieces@.len() ==> #[trigger] pieces@[j].0 <= pieces@[j].1 <= cs@.len()
                    && cs@.subrange(pieces@[j].0 as int, pieces@[j].1 as int) == all[j],
            instructions@ == batch_from(all.subrange(0, k as int)).instructions,
            rejected_view(rejected@) == batch_from(all.subrange(0, k as int)).rejected,
        decreases pieces@.len() - k,
    {
        let (a, b) = pieces[k];
        let (ta, tb) = trim_range(&cs, a, b);
        proof {
            assert(all.subrange(0, k + 1).drop_last() =~= all.subrange(0, k as int));
            assert(all.subrange(0, k + 1).last() == all[k as int]);
        }
        if ta < tb {
            let text = input.substring_char(ta, tb);
            match read_instruction(text) {
                Ok(i) => instructions.push(i),
                Err(e) => {
                    let ghost old_rejected = rejected@;
                    rejected.push(Rejected { text: text.to_owned(), error: e });
                    proof {
                        assert(rejected_view(rejected@) =~= rejected_view(old_rejected).push(rejected@.last()@));
                    }
                },
            }
        } else {
            proof {
                assert(cs@.subrange(ta as int, tb as int).len() == 0);
            }
        }
        k += 1;
    }
    assert(all.subrange(0, k as int) =~= all);
    InstructionBatch { instructions, rejected }
}

/// A shell command.
#[derive(Debug)]
pub enum Command {
    /// Queue the instructions read.
    AddInstruction(InstructionBatch),
    /// Show the next instruction.
    CurrentInstruction,
    /// Show the queue.
    InstructionQueue,
    /// Execute one instruction.
    Forward,
    /// Execute all queued instructions.
    Run,
    /// Undo the last executed instruction.
    Back,
    /// Show the stack.
    PrintStack,
    /// Show the list of commands.
    Help,
    /// Leave the shell.
    Exit,
}

/// A `Command` as a mathematical value.
pub enum CommandSpec {
    Add(BatchView),
    Current,
    Queue,
    Forward,
    Run,
    Back,
    Print,
    Help,
    Exit,
}

impl View for Command {
    type V = CommandSpec;

    open spec fn view(&self) -> CommandSpec {
        match self {
            Command::AddInstruction(b) => CommandSpec::Add(b@),
            Command::CurrentInstruction => CommandSpec::Current,
            Command::InstructionQueue => CommandSpec::Queue,
            Command::Forward => CommandSpec::Forward,
            Command::Run => CommandSpec::Run,
            Command::Back => CommandSpec::Back,
            Command::PrintStack => CommandSpec::Print,
            Command::Help => CommandSpec::Help,
            Command::Exit => CommandSpec::Exit,
        }
    }
}

/// Why a line is not a command.
#[derive(Debug)]
pub enum CommandError {
    /// The line is blank.
    Empty,
    /// The first word, lower-cased, names no command.
    Unknown(String),
    /// `add` read no instruction; these are the pieces it could not read.
    NoValidInstructions(Vec<Rejected>),
}

/// A `CommandError` as a mathematical value.
pub enum CommandFault {
    Empty,
    Unknown(Seq<char>),
    NoValidInstructions(Seq<(Seq<char>, ReadFault)>),
}

impl View for CommandError {
    type V = CommandFault;

    open spec fn view(&self) -> CommandFault {
        match self {
            CommandError::Empty => CommandFault::Empty,
            CommandError::Unknown(w) => CommandFault::Unknown(w@),
            CommandError::NoValidInstructions(v) => CommandFault::NoValidInstructions(rejected_view(v@)),
        }
    }
}

/// The command named by the lower-cased word `word`, given the rest of its line,
/// trimmed, in `args`: `add` (or `add-instruction`) reads `;`-separated
/// instructions from `args` and needs at least one to be readable; the other
/// commands ignore `args`.
pub open spec fn named_spec(word: Seq<char>, args: Seq<char>) -> Result<CommandSpec, CommandFault> {
    if word == "add"@ || word == "add-instruction"@ {
        let b = batch_spec(args);
        if b.instructions.len() == 0 {
            Err(CommandFault::NoValidInstructions(b.rejected))
        } else {
            Ok(CommandSpec::Add(b))
        }
    } else if word == "current"@ || word == "current-instruction"@ {
        Ok(CommandSpec::Current)
    } else if word == "queue"@ {
        Ok(CommandSpec::Queue)
    } else if word == "forward"@ {
        Ok(CommandSpec::Forward)
    } else if word == "run"@ {
        Ok(CommandSpec::Run)
    } else if word == "back"@ {
        Ok(CommandSpec::Back)
    } else if word == "print"@ || word == "stack"@ {
        Ok(CommandSpec::Print)
    } else if word == "help"@ {
        Ok(CommandSpec::Help)
    } else if word == "exit"@ {
        Ok(CommandSpec::Exit)
    } else {
        Err(CommandFault::Unknown(word))
    }
}

/// The command written by the line `input`: the first word of the trimmed line,
/// up to its first space and in any case, names the command (see `named_spec`);
/// the rest of the line, trimmed, is its argument text.
pub open spec fn command_spec(input: Seq<char>) -> Result<CommandSpec, CommandFault> {
    let t = trim(input);
    if t.len() == 0 {
        Err(CommandFault::Empty)
    } else {
        let parts = split_by(t, Some(' '));
        let args = if parts.len() > 1 {
            trim(t.subrange(parts[0].len() + 1int, t.len() as int))
        } else {
            seq![]
        };
        named_spec(lower_of(parts[0]), args)
    }
}

/// Reads the command written by the line `input` (see `command_spec`).
pub fn parse_command(input: &str) -> (r: Result<Command, CommandError>)
    ensures
        match r {
            Ok(c) => command_spec(input@) == Ok::<CommandSpec, CommandFault>(c@),
            Err(e) => command_spec(input@) == Err::<CommandSpec, CommandFault>(e@),
        },
{
    let cs = chars_of(input);
    let (a, b) = trim_range(&cs, 0, cs.len());
    proof {
        assert(cs@.subrange(0, cs@.len() as int) =~= input@);
    }
    if a == b {
        return Err(CommandError::Empty);
    }
    let ghost t = cs@.subrange(a as int, b as int);
    let parts = split_ranges(&cs, a, b, Some(' '));
    let word = to_lower(input.substring_char(parts[0].0, parts[0].1));
    let args = if parts.len() > 1 {
        proof {
            assert(parts@[1].0 == parts@[0].1 + 1 && parts@[1].0 <= b);
        }
        let (ra, rb) = trim_range(&cs, parts[0].1 + 1, b);
        proof {
            assert(cs@.subrange(parts@[0].1 + 1, b as int) =~= t.subrange(
                split_by(t, Some(' '))[0].len() + 1int,
                t.len() as int,
            ));
        }
        input.substring_char(ra, rb)
    } else {
        let e = input.substring_char(b, b);
        proof {
            assert(e@ =~= seq![]);
        }
        e
    };
    command_named(word, args)
}

/// Decides the command named by the lower-cased word `word`, with the argument
/// text `args` (see `named_spec`).
pub fn command_named(word: String, args: &str) -> (r: Result<Command, CommandError>)
    ensures
        match r {
            Ok(c) => named_spec(word@, args@) == Ok::<CommandSpec, CommandFault>(c@),
            Err(e) => named_spec(word@, args@) == Err::<CommandSpec, CommandFault>(e@),
        },
{
    if is_text(&word, "add") || is_text(&word, "add-instruction") {
        let batch = parse_instructions_shell(args);
        if batch.instructions.len() == 0 {
            Err(CommandError::NoValidInstructions(batch.rejected))
        } else {
            Ok(Command::AddInstruction(batch))
        }
    } else if is_text(&word, "current") || is_text(&word, "current-instruction") {
        Ok(Command::CurrentInstruction)
    } else if is_text(&word, "queue") {
        Ok(Command::InstructionQueue)
    } else if is_text(&word, "forward") {
        Ok(Command::Forward)
    } else if is_text(&word, "run") {
        Ok(Command::Run)
    } else if is_text(&word, "back") {
        Ok(Command::Back)
    } else if is_text(&word, "print") || is_text(&word, "stack") {
        Ok(Command::PrintStack)
    } else if is_text(&word, "help") {
        Ok(Command::Help)
    } else if is_text(&word, "exit") {
        Ok(Command::Exit)
    } else {
        Err(CommandError::Unknown(word))
    }
}

} // verus!
