//! The interpreter engine: a queue of pending instructions, a stack of `i32`
//! values and a history of executed instructions from which each step can be
//! undone exactly.
use std::collections::VecDeque;
use vstd::prelude::*;

pub use crate::errors::RuntimeError;

verus! {

/// An instruction of the stack machine.
///
/// - `Push(v)`: pushes `v` onto the stack.
/// - `Pop`: removes the top value.
/// - `Add`, `Sub`, `Mul`, `Div`: pop the top value `b`, then the next value `a`,
///   and push `a + b`, `a - b`, `a * b` or `a / b` (division truncates toward zero).
#[derive(Clone, Copy, Debug, PartialEq, Eq, Structural)]
pub enum Instruction {
    Push(i32),
    Pop,
    Add,
    Sub,
    Mul,
    Div,
}

/// What one executed instruction did to the stack, as a mathematical value.
pub struct StepRecord {
    pub instruction: Instruction,
    /// The values taken off the stack, top first.
    pub popped: Seq<i32>,
    /// The values put on the stack, in the order they were pushed.
    pub pushed: Seq<i32>,
}

/// The abstract state of an interpreter.
pub struct MachineState {
    /// Pending instructions, the next one first.
    pub queue: Seq<Instruction>,
    /// The value stack, bottom first.
    pub stack: Seq<i32>,
    /// Records of the executed instructions that have not been undone, oldest first.
    pub history: Seq<StepRecord>,
}

/// `v` as an `i32`, or `ArithmeticOverflow` when it does not fit.
pub open spec fn fit_i32(v: int) -> Result<i32, RuntimeError> {
    if i32::MIN <= v <= i32::MAX {
        Ok(v as i32)
    } else {
        Err(RuntimeError::ArithmeticOverflow)
    }
}

/// Integer division that truncates toward zero (`b != 0`).
pub open spec fn trunc_div(a: int, b: int) -> int {
    let na = if a < 0 { -a } else { a };
    let nb = if b < 0 { -b } else { b };
    if (a < 0) == (b < 0) { na / nb } else { -(na / nb) }
}

/// The result of the arithmetic instruction `ins` on left operand `a` and right
/// operand `b` (for `Add`, `Sub`, `Mul`; any other instruction is read as `Div`).
pub open spec fn arith(ins: Instruction, a: i32, b: i32) -> Result<i32, RuntimeError> {
    match ins {
        Instruction::Add => fit_i32(a + b),
        Instruction::Sub => fit_i32(a - b),
        Instruction::Mul => fit_i32(a * b),
        _ => if b == 0 {
            Err(RuntimeError::DivideByZero)
        } else {
            fit_i32(trunc_div(a as int, b as int))
        },
    }
}

/// The record of executing `ins` on `stack`, or the error it fails with.
pub open spec fn record_for(stack: Seq<i32>, ins: Instruction) -> Result<StepRecord, RuntimeError> {
    match ins {
        Instruction::Push(v) => Ok(StepRecord { instruction: ins, popped: seq![], pushed: seq![v] }),
        Instruction::Pop => if stack.len() == 0 {
            Err(RuntimeError::StackUnderflow)
        } else {
            Ok(StepRecord { instruction: ins, popped: seq![stack.last()], pushed: seq![] })
        },
        _ => if stack.len() < 2 {
            Err(RuntimeError::StackUnderflow)
        } else {
            let b = stack[stack.len() - 1];
            let a = stack[stack.len() - 2];
            match arith(ins, a, b) {
                Ok(v) => Ok(StepRecord { instruction: ins, popped: seq![b, a], pushed: seq![v] }),
                Err(e) => Err(e),
            }
        },
    }
}

/// The stack after applying `r` to `stack`: its popped values leave the top and
/// its pushed values take their place.
pub open spec fn redo(stack: Seq<i32>, r: StepRecord) -> Seq<i32> {
    stack.subrange(0, stack.len() - r.popped.len()) + r.pushed
}

/// The stack after undoing `r` on `stack`: its pushed values leave the top and
/// its popped values come back, the last popped first.
pub open spec fn undo(stack: Seq<i32>, r: StepRecord) -> Seq<i32> {
    stack.subrange(0, stack.len() - r.pushed.len()) + r.popped.reverse()
}

/// `history` is exactly what executing its instructions, from an empty stack,
/// recorded, and `stack` is where that execution left the stack.
pub open spec fn consistent(stack: Seq<i32>, history: Seq<StepRecord>) -> bool
    decreases history.len(),
{
    if history.len() == 0 {
        stack.len() == 0
    } else {
        let r = history.last();
        let prev = undo(stack, r);
        &&& r.pushed.len() <= stack.len()
        &&& record_for(prev, r.instruction) == Ok::<StepRecord, RuntimeError>(r)
        &&& redo(prev, r) == stack
        &&& consistent(prev, history.drop_last())
    }
}

/// Undoing the record of a step restores the stack the step started from.
pub proof fn lemma_undo_redo(stack: Seq<i32>, ins: Instruction, r: StepRecord)
    requires
        record_for(stack, ins) == Ok::<StepRecord, RuntimeError>(r),
    ensures
        r.instruction == ins,
        r.popped.len() <= stack.len(),
        undo(redo(stack, r), r) == stack,
{
    let after = redo(stack, r);
    assert(undo(after, r) =~= stack);
}

/// A successful step extends a consistent history with its record.
pub proof fn lemma_step_consistent(stack: Seq<i32>, history: Seq<StepRecord>, ins: Instruction, r: StepRecord)
    requires
        consistent(stack, history),
        record_for(stack, ins) == Ok::<StepRecord, RuntimeError>(r),
    ensures
        consistent(redo(stack, r), history.push(r)),
{
    lemma_undo_redo(stack, ins, r);
    let h = history.push(r);
    assert(h.drop_last() =~= history);
    assert(h.last() == r);
}

/// The instructions of a history, oldest first.
pub open spec fn executed(history: Seq<StepRecord>) -> Seq<Instruction> {
    history.map_values(|r: StepRecord| r.instruction)
}

impl MachineState {
    /// The history and the stack agree: replaying the history from an empty stack
    /// gives the stack.
    pub open spec fn wf(self) -> bool {
        consistent(self.stack, self.history)
    }

    /// A state with the given queue, an empty stack and no history.
    pub open spec fn fresh(queue: Seq<Instruction>) -> MachineState {
        MachineState { queue, stack: seq![], history: seq![] }
    }
}

/// One step forward: the state after it, and the executed instruction or the error.
pub open spec fn forward_spec(s: MachineState) -> (MachineState, Result<Instruction, RuntimeError>) {
    if s.queue.len() == 0 {
        (s, Err(RuntimeError::NoInstructions))
    } else {
        let ins = s.queue[0];
        let rest = s.queue.drop_first();
        match record_for(s.stack, ins) {
            Ok(r) => (
                MachineState { queue: rest, stack: redo(s.stack, r), history: s.history.push(r) },
                Ok(ins),
            ),
            Err(e) => (MachineState { queue: rest, ..s }, Err(e)),
        }
    }
}

/// Steps forward until the queue is empty or a step fails.
pub open spec fn run_spec(s: MachineState) -> (MachineState, Result<(), RuntimeError>)
    decreases s.queue.len(),
{
    if s.queue.len() == 0 {
        (s, Ok(()))
    } else {
        let (next, r) = forward_spec(s);
        match r {
            Ok(_) => run_spec(next),
            Err(e) => (next, Err(e)),
        }
    }
}

/// One step backward: the last record is undone and its instruction goes back to
/// the front of the queue.
pub open spec fn back_spec(s: MachineState) -> (MachineState, Result<(), RuntimeError>) {
    if s.history.len() == 0 {
        (s, Err(RuntimeError::NoInstructions))
    } else {
        let r = s.history.last();
        (
            MachineState {
                queue: seq![r.instruction] + s.queue,
                stack: undo(s.stack, r),
                history: s.history.drop_last(),
            },
            Ok(()),
        )
    }
}

/// The state after `n` steps backward.
pub open spec fn back_n(s: MachineState, n: nat) -> MachineState
    decreases n,
{
    if n == 0 {
        s
    } else {
        back_n(back_spec(s).0, (n - 1) as nat)
    }
}

/// A step forward keeps the state well formed, and takes exactly one instruction
/// off the queue, whether or not it succeeds.
pub proof fn lemma_forward_wf(s: MachineState)
    requires
        s.wf(),
        s.queue.len() > 0,
    ensures
        forward_spec(s).0.wf(),
        forward_spec(s).0.queue == s.queue.drop_first(),
        forward_spec(s).1 is Ok ==> executed(forward_spec(s).0.history) == executed(s.history).push(s.queue[0]),
        forward_spec(s).1 is Err ==> forward_spec(s).0.history == s.history,
{
    if let Ok(r) = record_for(s.stack, s.queue[0]) {
        lemma_step_consistent(s.stack, s.history, s.queue[0], r);
        lemma_undo_redo(s.stack, s.queue[0], r);
        assert(executed(s.history.push(r)) =~= executed(s.history).push(s.queue[0]));
    }
}

/// What `run` leaves: a well-formed state; on success an empty queue and every
/// queued instruction executed in order; on failure the executed instructions,
/// the failed one and the still-queued ones together give back the instructions
/// that were executed or queued before.
pub proof fn lemma_run(s: MachineState)
    requires
        s.wf(),
    ensures
        run_spec(s).0.wf(),
        run_spec(s).1 is Ok ==> run_spec(s).0.queue.len() == 0 && executed(run_spec(s).0.history)
            == executed(s.history) + s.queue,
        run_spec(s).1 is Err ==> ({
            let all = executed(s.history) + s.queue;
            let done = run_spec(s).0;
            &&& done.history.len() < all.len()
            &&& executed(done.history) + seq![all[done.history.len() as int]] + done.queue == all
        }),
    decreases s.queue.len(),
{
    if s.queue.len() > 0 {
        lemma_forward_wf(s);
        let (next, r) = forward_spec(s);
        let all = executed(s.history) + s.queue;
        if r is Ok {
            lemma_run(next);
            assert(executed(next.history) + next.queue =~= all);
        } else {
            assert(executed(next.history) + seq![all[next.history.len() as int]] + next.queue =~= all);
        }
    } else {
        assert(executed(s.history) + s.queue =~= executed(s.history));
    }
}

/// Undoing a step that succeeded gives back exactly the state before it: the same
/// stack and history, and the same queue, the executed instruction at its front.
pub proof fn law_forward_then_back(s: MachineState)
    requires
        s.wf(),
        forward_spec(s).1 is Ok,
    ensures
        back_spec(forward_spec(s).0).1 is Ok,
        back_spec(forward_spec(s).0).0 == s,
        back_spec(forward_spec(s).0).0.queue[0] == forward_spec(s).1->Ok_0,
{
    let ins = s.queue[0];
    let r = record_for(s.stack, ins)->Ok_0;
    lemma_undo_redo(s.stack, ins, r);
    let after = forward_spec(s).0;
    assert(after.history.drop_last() =~= s.history);
    assert(seq![ins] + after.queue =~= s.queue);
}

/// Undoing every recorded step empties the stack and the history, and puts the
/// executed instructions back in front of the queue, in the order they ran.
pub proof fn lemma_drain(s: MachineState)
    requires
        s.wf(),
    ensures
        back_n(s, s.history.len()).stack == Seq::<i32>::empty(),
        back_n(s, s.history.len()).history.len() == 0,
        back_n(s, s.history.len()).queue == executed(s.history) + s.queue,
    decreases s.history.len(),
{
    if s.history.len() == 0 {
        assert(s.stack =~= Seq::<i32>::empty());
        assert(executed(s.history) + s.queue =~= s.queue);
    } else {
        let s1 = back_spec(s).0;
        lemma_drain(s1);
        assert(back_n(s, s.history.len()) == back_n(s1, s1.history.len()));
        let h = s.history;
        assert(executed(h.drop_last()) + (seq![h.last().instruction] + s.queue) =~= executed(h) + s.queue);
    }
}

/// After `run` succeeds on a fresh interpreter holding `queue`, undoing every step
/// empties the stack and restores `queue` exactly; one more step backward then
/// fails with `NoInstructions`.
pub proof fn law_drain_after_run(queue: Seq<Instruction>)
    requires
        run_spec(MachineState::fresh(queue)).1 is Ok,
    ensures
        ({
            let done = run_spec(MachineState::fresh(queue)).0;
            let drained = back_n(done, done.history.len());
            &&& drained.stack == Seq::<i32>::empty()
            &&& drained.queue == queue
            &&& back_spec(drained).1 == Err::<(), RuntimeError>(RuntimeError::NoInstructions)
        }),
{
    let s = MachineState::fresh(queue);
    lemma_run(s);
    let done = run_spec(s).0;
    lemma_drain(done);
    assert(executed(s.history) + s.queue =~= queue);
    assert(executed(done.history) + done.queue =~= executed(done.history));
}

/// Every instruction queued on a fresh interpreter is accounted for after `run`:
/// it is in the history or still queued, except exactly the one that failed, if
/// any, which is in neither.
pub proof fn law_run_conservation(queue: Seq<Instruction>)
    ensures
        ({
            let (done, r) = run_spec(MachineState::fresh(queue));
            &&& r is Ok ==> executed(done.history) == queue && done.queue.len() == 0
            &&& r is Err ==> executed(done.history) + seq![queue[done.history.len() as int]] + done.queue == queue
            &&& done.history.len() + done.queue.len() + (if r is Ok { 0int } else { 1int }) == queue.len()
        }),
{
    let s = MachineState::fresh(queue);
    lemma_run(s);
    assert(executed(s.history) + s.queue =~= queue);
    let (done, r) = run_spec(s);
    if r is Err {
        let all = executed(done.history) + seq![queue[done.history.len() as int]] + done.queue;
        assert(all.len() == done.history.len() + 1 + done.queue.len());
    }
}

/// The record of one executed instruction, as kept by the interpreter.
#[derive(Debug)]
pub struct HistoryEntry {
    pub instruction: Instruction,
    /// The values taken off the stack, top first.
    pub popped_values: Vec<i32>,
    /// The values put on the stack, in the order they were pushed.
    pub pushed_values: Vec<i32>,
}

impl View for HistoryEntry {
    type V = StepRecord;

    open spec fn view(&self) -> StepRecord {
        StepRecord { instruction: self.instruction, popped: self.popped_values@, pushed: self.pushed_values@ }
    }
}

/// Relies on `VecDeque::get_mut`: a mutable reference to element `i` when `i` is
/// below the length, `None` otherwise.
#[verifier::external_body]
fn deque_get_mut<T>(q: &mut VecDeque<T>, i: usize) -> (r: Option<&mut T>)
    ensures
        i < old(q)@.len() ==> r is Some && *r.unwrap() == old(q)@[i as int] && final(q)@ == old(
            q,
        )@.update(i as int, *final(r.unwrap())),
        i >= old(q)@.len() ==> r is None && final(q)@ == old(q)@,
{
    q.get_mut(i)
}

/// A stack machine whose executed instructions can be undone one by one.
#[derive(Debug)]
pub struct Interpreter {
    instructions: VecDeque<Instruction>,
    stack: Vec<i32>,
    history: Vec<HistoryEntry>,
}

impl View for Interpreter {
    type V = MachineState;

    closed spec fn view(&self) -> MachineState {
        MachineState {
            queue: self.instructions@,
            stack: self.stack@,
            history: self.history@.map_values(|e: HistoryEntry| e@),
        }
    }
}

impl Default for Interpreter {
    /// The same as `Interpreter::new`.
    fn default() -> (r: Self)
        ensures
            r@ == MachineState::fresh(seq![]),
            r.wf(),
    {
        Interpreter::new()
    }
}

impl Interpreter {
    /// The interpreter's state is well formed (see `MachineState::wf`); every
    /// public operation keeps it so.
    pub open spec fn wf(&self) -> bool {
        self@.wf()
    }

    /// An interpreter with no queued instructions, an empty stack and no history.
    pub fn new() -> (r: Self)
        ensures
            r@ == MachineState::fresh(seq![]),
            r.wf(),
    {
        let r = Interpreter { instructions: VecDeque::new(), stack: Vec::new(), history: Vec::new() };
        assert(r@.history =~= seq![]);
        r
    }

    /// Appends `instructions` to the back of the queue, in order; the stack and the
    /// history are unchanged.
    pub fn add_instructions(&mut self, instructions: &[Instruction])
        requires
            old(self).wf(),
        ensures
            final(self).wf(),
            final(self)@ == (MachineState { queue: old(self)@.queue + instructions@, ..old(self)@ }),
    {
        let mut i: usize = 0;
        while i < instructions.len()
            invariant
                i <= instructions@.len(),
                self.wf(),
                self@ == (MachineState { queue: old(self)@.queue + instructions@.subrange(0, i as int), ..old(self)@ }),
            decreases instructions@.len() - i,
        {
            self.instructions.push_back(instructions[i]);
            proof {
                assert(instructions@.subrange(0, i + 1) =~= instructions@.subrange(0, i as int).push(instructions@[i as int]));
            }
            i += 1;
        }
        assert(instructions@.subrange(0, i as int) =~= instructions@);
    }

    /// Executes the front instruction of the queue.
    ///
    /// The instruction leaves the queue whether or not it succeeds. On success the
    /// stack changes as the instruction says, one record is added to the history and
    /// the instruction is returned. On failure no record is added and the stack is as
    /// it was before the call: `NoInstructions` on an empty queue, `StackUnderflow`
    /// when the stack holds too few values, `DivideByZero` for a division by zero and
    /// `ArithmeticOverflow` when the result does not fit in `i32`.
    pub fn forward(&mut self) -> (r: Result<Instruction, RuntimeError>)
        requires
            old(self).wf(),
        ensures
            final(self).wf(),
            (final(self)@, r) == forward_spec(old(self)@),
    {
        let ghost s0 = self@;
        let instruction = match self.instructions.pop_front() {
            Some(i) => i,
            None => return Err(RuntimeError::NoInstructions),
        };
        match instruction {
            Instruction::Push(value) => {
                self.stack.push(value);
                let entry = HistoryEntry { instruction, popped_values: Vec::new(), pushed_values: vec![value] };
                proof {
                    assert(entry.popped_values@ =~= seq![]);
                    assert(entry.pushed_values@ =~= seq![value]);
                    assert(self.stack@ =~= redo(s0.stack, entry@));
                }
                self.push_record(entry, Ghost(s0));
                Ok(instruction)
            },
            Instruction::Pop => {
                let value = match self.stack.pop() {
                    Some(v) => v,
                    None => return Err(RuntimeError::StackUnderflow),
                };
                let entry = HistoryEntry { instruction, popped_values: vec![value], pushed_values: Vec::new() };
                proof {
                    assert(entry.popped_values@ =~= seq![value]);
                    assert(entry.pushed_values@ =~= seq![]);
                    assert(self.stack@ =~= redo(s0.stack, entry@));
                }
                self.push_record(entry, Ghost(s0));
                Ok(instruction)
            },
            Instruction::Add | Instruction::Sub | Instruction::Mul | Instruction::Div => {
                if self.stack.len() < 2 {
                    return Err(RuntimeError::StackUnderflow);
                }
                let b = match self.stack.pop() {
                    Some(v) => v,
                    None => return Err(RuntimeError::StackUnderflow),
                };
                let a = match self.stack.pop() {
                    Some(v) => v,
                    None => return Err(RuntimeError::StackUnderflow),
                };
                let result = match instruction {
                    Instruction::Add => a.checked_add(b),
                    Instruction::Sub => a.checked_sub(b),
                    Instruction::Mul => a.checked_mul(b),
                    _ => {
                        if b == 0 {
                            self.stack.push(a);
                            self.stack.push(b);
                            proof {
                                assert(self.stack@ =~= s0.stack);
                            }
                            return Err(RuntimeError::DivideByZero);
                        }
                        a.checked_div(b)
                    },
                };
                match result {
                    Some(res) => {
                        self.stack.push(res);
                        let entry = HistoryEntry { instruction, popped_values: vec![b, a], pushed_values: vec![res] };
                        proof {
                            assert(entry.popped_values@ =~= seq![b, a]);
                            assert(entry.pushed_values@ =~= seq![res]);
                            assert(self.stack@ =~= redo(s0.stack, entry@));
                        }
                        self.push_record(entry, Ghost(s0));
                        Ok(instruction)
                    },
                    None => {
                        self.stack.push(a);
                        self.stack.push(b);
                        proof {
                            assert(self.stack@ =~= s0.stack);
                        }
                        Err(RuntimeError::ArithmeticOverflow)
                    },
                }
            },
        }
    }

    /// Executes queued instructions until the queue is empty or one fails.
    ///
    /// Returns `Ok(())` once the queue is empty. On the first failure it stops and
    /// returns that error: the failed instruction is gone from the queue and the ones
    /// after it are still queued.
    pub fn run(&mut self) -> (r: Result<(), RuntimeError>)
        requires
            old(self).wf(),
        ensures
            final(self).wf(),
            (final(self)@, r) == run_spec(old(self)@),
    {
        while self.instructions.len() > 0
            invariant
                self.wf(),
                run_spec(self@) == run_spec(old(self)@),
            decreases self@.queue.len(),
        {
            match self.forward() {
                Ok(_) => {},
                Err(e) => return Err(e),
            }
        }
        Ok(())
    }

    /// Undoes the most recently executed instruction that has not been undone.
    ///
    /// Its record leaves the history, its instruction goes back to the front of the
    /// queue, and the stack returns to what it was before that instruction ran.
    /// Fails with `NoInstructions`, changing nothing, when the history is empty.
    pub fn back(&mut self) -> (r: Result<(), RuntimeError>)
        requires
            old(self).wf(),
        ensures
            final(self).wf(),
            (final(self)@, r) == back_spec(old(self)@),
    {
        let ghost s0 = self@;
        let entry = match self.history.pop() {
            Some(e) => e,
            None => return Err(RuntimeError::NoInstructions),
        };
        proof {
            assert(self@.history =~= s0.history.drop_last());
        }
        let ghost r = entry@;
        self.instructions.push_front(entry.instruction);
        let ghost queue = self@.queue;
        let ghost history = self@.history;
        let ghost base = self.stack@;
        let mut i: usize = 0;
        while i < entry.pushed_values.len()
            invariant
                i <= r.pushed.len() <= base.len(),
                r == entry@,
                self.stack@ == base.subrange(0, base.len() - i),
                self@.queue == queue,
                self@.history == history,
            decreases r.pushed.len() - i,
        {
            match self.stack.pop() {
                Some(_) => {},
                None => return Err(RuntimeError::StackUnderflow),
            }
            i += 1;
        }
        let ghost kept = self.stack@;
        let mut j: usize = entry.popped_values.len();
        while j > 0
            invariant
                j <= r.popped.len(),
                r == entry@,
                self.stack@ == kept + r.popped.reverse().subrange(0, r.popped.len() - j),
                self@.queue == queue,
                self@.history == history,
            decreases j,
        {
            j -= 1;
            self.stack.push(entry.popped_values[j]);
            proof {
                assert(r.popped.reverse().subrange(0, r.popped.len() - j) =~= r.popped.reverse().subrange(
                    0,
                    r.popped.len() - j - 1,
                ).push(r.popped[j as int]));
            }
        }
        proof {
            assert(r.popped.reverse().subrange(0, r.popped.len() as int) =~= r.popped.reverse());
            assert(self@.stack =~= undo(s0.stack, r));
            assert(self@.queue =~= seq![r.instruction] + s0.queue);
        }
        Ok(())
    }

    /// The front instruction of the queue, which the next step forward executes, for
    /// reading or replacing in place; `None` when the queue is empty.
    pub fn current_instruction(&mut self) -> (r: Option<&mut Instruction>)
        requires
            old(self).wf(),
        ensures
            old(self)@.queue.len() == 0 ==> r is None && final(self)@ == old(self)@,
            old(self)@.queue.len() > 0 ==> r is Some && *r.unwrap() == old(self)@.queue[0]
                && final(self)@ == (MachineState {
                queue: old(self)@.queue.update(0, *final(r.unwrap())),
                ..old(self)@
            }),
            final(self).wf(),
    {
        deque_get_mut(&mut self.instructions, 0)
    }

    /// The pending instructions, the next one first.
    pub fn instructions(&self) -> (r: &VecDeque<Instruction>)
        ensures
            r@ == self@.queue,
    {
        &self.instructions
    }

    /// The value stack, bottom first.
    pub fn stack(&self) -> (r: &Vec<i32>)
        ensures
            r@ == self@.stack,
    {
        &self.stack
    }

    /// The records of the executed instructions that have not been undone, oldest first.
    pub fn history(&self) -> (r: &Vec<HistoryEntry>)
        ensures
            r@.map_values(|e: HistoryEntry| e@) == self@.history,
    {
        &self.history
    }

    /// Appends the record of the step just taken from state `s0`.
    fn push_record(&mut self, entry: HistoryEntry, Ghost(s0): Ghost<MachineState>)
        requires
            s0.wf(),
            s0.queue.len() > 0,
            record_for(s0.stack, s0.queue[0]) == Ok::<StepRecord, RuntimeError>(entry@),
            old(self)@.queue == s0.queue.drop_first(),
            old(self)@.stack == redo(s0.stack, entry@),
            old(self)@.history == s0.history,
        ensures
            final(self)@ == forward_spec(s0).0,
            final(self).wf(),
    {
        let ghost r = entry@;
        self.history.push(entry);
        proof {
            assert(self@.history =~= s0.history.push(r));
            lemma_step_consistent(s0.stack, s0.history, s0.queue[0], r);
        }
    }
}

} // verus!
