//! The engine as a mathematical state machine.
//!
//! A `Machine` is the whole state of the engine, and each operation of the
//! engine is a function from machines to machines. The executable engine is
//! specified against these functions.

use crate::keys::{entry_lower_char, entry_upper_char, BACKSPACE, RETURN};
use crate::lexer::{lex, lex_ends_program, BuildError};
use crate::text::{char_fits_cell, decimal, parse_number, scalar_value, MAX_CELL};
use crate::token::Token;
use vstd::prelude::*;

verus! {

/// The number of cells of the tape.
pub const TAPE_LEN: usize = 512;

/// How a submitted console entry is read.
#[derive(Clone, Copy, PartialEq, Eq, Structural, Debug)]
pub enum InputKind {
    /// As a decimal number, which goes into the cell under the pointer.
    Numeric,
    /// As text, one character to a cell from the pointer on.
    Text,
}

impl InputKind {
    /// The token that asks for input of this kind.
    pub open spec fn token(self) -> Token {
        match self {
            InputKind::Numeric => Token::InputNumeric,
            InputKind::Text => Token::InputText,
        }
    }
}

/// Why an execution was stopped.
#[derive(Clone, Copy, PartialEq, Eq, Structural, Debug)]
pub enum Fault {
    /// `+` on a cell that holds the largest value.
    CellOverflow,
    /// `-` on a cell that holds 0.
    CellUnderflow,
    /// `<` with the pointer on the first cell.
    PointerUnderflow,
    /// `>` with the pointer on the last cell, or `^` on a cell whose value
    /// is no index of the tape.
    PointerOverflow,
    /// `$` with nothing on the stack.
    EmptyStack,
    /// `{` on a zero cell with no matching `}` after it.
    UnmatchedJumpIfZero,
    /// `:` with no matching `=` before it.
    UnmatchedJumpBack,
    /// A console entry that is no number a cell can hold.
    MalformedNumber,
    /// `&a` on a cell whose value is no character.
    InvalidCodePoint,
}

/// Where the engine stands.
#[derive(Clone, Copy, PartialEq, Eq, Structural, Debug)]
pub enum Phase {
    /// No program: nothing was compiled, or the source did not compile.
    NotBuilt,
    /// A program is there and can be started or stepped by hand.
    Built,
    /// Started: the host steps the program on every tick.
    Running,
    /// Suspended until the console entry is submitted.
    WaitingForInput,
    /// The program ran to its end.
    Halted,
    /// The program was stopped by a fault.
    Faulted,
}

/// The whole state of the engine.
pub struct Machine {
    /// The source text that `build` compiles.
    pub source: Seq<char>,
    /// Everything printed since the last build.
    pub output: Seq<char>,
    /// The compiled program.
    pub program: Seq<Token>,
    /// The index in `program` of the next token to execute.
    pub pc: int,
    /// The cells.
    pub tape: Seq<u32>,
    /// The index in `tape` of the cell under operation.
    pub pointer: int,
    /// The stack, its top last.
    pub stack: Seq<u32>,
    /// A program is there and has neither ended nor faulted.
    pub executable: bool,
    /// The host asked for the program to run by itself.
    pub running: bool,
    /// An input token waits for the console entry.
    pub waiting: bool,
    /// How the entry will be read.
    pub input_kind: InputKind,
    /// The console entry typed so far.
    pub entry: Seq<char>,
    /// The program ran to its end.
    pub halted: bool,
    /// The fault that stopped the program.
    pub fault: Option<Fault>,
}

/// What the output log says after a build.
pub open spec fn build_report(error: Option<BuildError>) -> Seq<char> {
    match error {
        None => "[INFO]: Build Successful\n"@,
        Some(BuildError::UnrecognizedCharacter(c)) => {
            "[ERROR]: Build Failure, unable to recognize character as a token: "@.push(c).push(
                '\n',
            )
        },
        Some(BuildError::MissingInputKind) => {
            "[ERROR]: Expected '0' or 'a' after ? token for expected input type\n"@
        },
        Some(BuildError::MissingOutputKind) => {
            "[ERROR]: Expected '0' or 'a' after & token for expected output type\n"@
        },
        Some(BuildError::LoneSlash) => {
            "[ERROR]: Build Failure, unable to recognize character as a token: /"@
        },
    }
}

/// What the output log says of a fault that happened with the pointer on
/// cell `pointer`.
pub open spec fn fault_report(fault: Fault, pointer: int) -> Seq<char> {
    let cell = decimal(pointer as nat);
    match fault {
        Fault::CellOverflow => {
            "[ERROR]: Attempted to increment value at index "@ + cell + " above integer max.\n"@
        },
        Fault::CellUnderflow => {
            "[ERROR]: Attempted to decrement value at index "@ + cell + " below 0.\n"@
        },
        Fault::PointerUnderflow => "[ERROR]: Attempted to shift array index below 0.\n"@,
        Fault::PointerOverflow => "[ERROR]: Attempted to shift array index above 512.\n"@,
        Fault::EmptyStack => "[ERROR]: Attempted to pop from empty stack.\n"@,
        Fault::UnmatchedJumpIfZero => {
            "[ERROR]: Unable to find matching '}' for conditional jump."@
        },
        Fault::UnmatchedJumpBack => {
            "[ERROR]: Unable to find matching '=' for non-conditional jump."@
        },
        Fault::MalformedNumber => "[ERROR]: Expected a number from 0 to 16777215 as input.\n"@,
        Fault::InvalidCodePoint => {
            "[ERROR]: Attempted to output value at index "@ + cell + " that is not a character.\n"@
        },
    }
}

/// What the output log says when the program has run to its end.
pub open spec fn halt_report() -> Seq<char> {
    "\n[INFO]: Finished Execution\n"@
}

/// The position of the `}` that closes a `{` before position `i`, looking
/// from `i` to the right. `depth` counts the `{` met on the way that are
/// still open: each takes the next `}` for itself.
pub open spec fn forward_match(program: Seq<Token>, i: int, depth: nat) -> Option<int>
    decreases program.len() - i,
{
    if i < 0 || i >= program.len() {
        None
    } else if program[i] == Token::JumpIfZero {
        forward_match(program, i + 1, depth + 1)
    } else if program[i] == Token::JumpIfZeroMarker {
        if depth == 0 {
            Some(i)
        } else {
            forward_match(program, i + 1, (depth - 1) as nat)
        }
    } else {
        forward_match(program, i + 1, depth)
    }
}

/// The position of the `=` that opens the loop closed by a `:` after
/// position `i`, looking from `i` to the left. `depth` counts the `:` met on
/// the way that are still open: each takes the next `=` for itself.
pub open spec fn backward_match(program: Seq<Token>, i: int, depth: nat) -> Option<int>
    decreases i + 1,
{
    if i < 0 || i >= program.len() {
        None
    } else if program[i] == Token::JumpBack {
        backward_match(program, i - 1, depth + 1)
    } else if program[i] == Token::JumpBackMarker {
        if depth == 0 {
            Some(i)
        } else {
            backward_match(program, i - 1, (depth - 1) as nat)
        }
    } else {
        backward_match(program, i - 1, depth)
    }
}

/// The tape after `text` was written into it from cell `pointer` on, one
/// character to a cell. What does not fit before the end of the tape is
/// left out.
pub open spec fn write_text(tape: Seq<u32>, pointer: int, text: Seq<char>) -> Seq<u32> {
    Seq::new(
        tape.len(),
        |i: int|
            if pointer <= i < pointer + text.len() {
                text[i - pointer] as u32
            } else {
                tape[i]
            },
    )
}

/// The pointer after a text of `len` characters was written from cell
/// `pointer` on: one cell further for each character, but never beyond the
/// last cell.
pub open spec fn pointer_after_text(pointer: int, len: int) -> int {
    if pointer + len < TAPE_LEN {
        pointer + len
    } else {
        TAPE_LEN - 1
    }
}

impl Machine {
    /// The invariant of the engine. Every cell and every stack entry holds at
    /// most `MAX_CELL`, and the pointer is an index of the tape. While a
    /// program is executable it ends in `EndOfProgram` and the program
    /// counter is one of its indices. The engine waits only on an input
    /// token, and only then is there a console entry.
    pub open spec fn wf(self) -> bool {
        &&& self.tape.len() == TAPE_LEN
        &&& forall|i: int| 0 <= i < self.tape.len() ==> #[trigger] self.tape[i] <= MAX_CELL
        &&& forall|i: int| 0 <= i < self.stack.len() ==> #[trigger] self.stack[i] <= MAX_CELL
        &&& 0 <= self.pointer < TAPE_LEN
        &&& 0 <= self.pc <= self.program.len()
        &&& self.executable ==> self.pc < self.program.len() && self.program.last()
            == Token::EndOfProgram
        &&& self.running ==> self.executable
        &&& self.waiting ==> self.executable && self.program[self.pc] == self.input_kind.token()
        &&& !self.waiting ==> self.entry.len() == 0
        &&& self.halted ==> !self.executable && self.fault is None
        &&& self.fault is Some ==> !self.executable
    }

    /// Where the engine stands.
    pub open spec fn phase(self) -> Phase {
        if self.fault is Some {
            Phase::Faulted
        } else if self.halted {
            Phase::Halted
        } else if !self.executable {
            Phase::NotBuilt
        } else if self.waiting {
            Phase::WaitingForInput
        } else if self.running {
            Phase::Running
        } else {
            Phase::Built
        }
    }

    /// The value of the cell under the pointer.
    pub open spec fn cell(self) -> u32 {
        self.tape[self.pointer]
    }

    /// The machine with `v` in the cell under the pointer.
    pub open spec fn with_cell(self, v: u32) -> Machine {
        Machine { tape: self.tape.update(self.pointer, v), ..self }
    }

    /// The machine with `text` added to its output log.
    pub open spec fn print(self, text: Seq<char>) -> Machine {
        Machine { output: self.output + text, ..self }
    }

    /// The machine with the program counter moved to `pc`.
    pub open spec fn goto(self, pc: int) -> Machine {
        Machine { pc: pc, ..self }
    }

    /// The machine stopped by `fault`: the fault is reported in the output
    /// log, and the program can no longer be stepped.
    pub open spec fn fail(self, fault: Fault) -> Machine {
        Machine {
            output: self.output + fault_report(fault, self.pointer),
            executable: false,
            running: false,
            fault: Some(fault),
            ..self
        }
    }

    /// The machine suspended until an entry of kind `kind` is submitted.
    pub open spec fn suspend(self, kind: InputKind) -> Machine {
        Machine { waiting: true, input_kind: kind, ..self }
    }

    /// The machine after its program has run to its end.
    pub open spec fn halt(self) -> Machine {
        Machine {
            output: self.output + halt_report(),
            executable: false,
            running: false,
            halted: true,
            ..self
        }
    }

    /// Whether the host may step the machine: a program is there, it has
    /// neither ended nor faulted, and it does not wait for input.
    pub open spec fn can_step(self) -> bool {
        self.executable && !self.waiting
    }
}

/// The machine before anything was compiled, holding the source `source`.
pub open spec fn initial(source: Seq<char>) -> Machine {
    Machine {
        source: source,
        output: Seq::empty(),
        program: Seq::empty(),
        pc: 0,
        tape: Seq::new(TAPE_LEN as nat, |i: int| 0u32),
        pointer: 0,
        stack: Seq::empty(),
        executable: false,
        running: false,
        waiting: false,
        input_kind: InputKind::Numeric,
        entry: Seq::empty(),
        halted: false,
        fault: None,
    }
}

/// The machine after a new source text was handed in: the output log is
/// cleared, everything else stays.
pub open spec fn populate(m: Machine, source: Seq<char>) -> Machine {
    Machine { source: source, output: Seq::empty(), ..m }
}

/// The machine after a build. Nothing of the state before it is left but
/// the source: the tape is zeroed, the stack, the console entry and the
/// output log are emptied, the source is compiled from its start, and the
/// output log reports how that went. The program is executable exactly
/// where the whole source compiled.
pub open spec fn build(m: Machine) -> Machine {
    let lexed = lex(m.source);
    Machine {
        output: build_report(lexed.error),
        program: lexed.tokens,
        executable: lexed.error is None,
        ..initial(m.source)
    }
}

/// The machine after the host asked for the program to run.
pub open spec fn start(m: Machine) -> Machine {
    if m.executable {
        Machine { running: true, ..m }
    } else {
        m
    }
}

/// The machine after one step: the token under the program counter is
/// executed. A machine that cannot be stepped stays as it is.
pub open spec fn step(m: Machine) -> Machine {
    if !m.can_step() {
        m
    } else {
        match m.program[m.pc] {
            Token::Increment => if m.cell() >= MAX_CELL {
                m.fail(Fault::CellOverflow)
            } else {
                m.with_cell((m.cell() + 1) as u32).goto(m.pc + 1)
            },
            Token::Decrement => if m.cell() == 0 {
                m.fail(Fault::CellUnderflow)
            } else {
                m.with_cell((m.cell() - 1) as u32).goto(m.pc + 1)
            },
            Token::ShiftLeft => if m.pointer <= 0 {
                m.fail(Fault::PointerUnderflow)
            } else {
                Machine { pointer: m.pointer - 1, ..m }.goto(m.pc + 1)
            },
            Token::ShiftRight => if m.pointer >= TAPE_LEN - 1 {
                m.fail(Fault::PointerOverflow)
            } else {
                Machine { pointer: m.pointer + 1, ..m }.goto(m.pc + 1)
            },
            Token::ShiftToValue => if m.cell() >= TAPE_LEN {
                m.fail(Fault::PointerOverflow)
            } else {
                Machine { pointer: m.cell() as int, ..m }.goto(m.pc + 1)
            },
            Token::ResetPointer => Machine { pointer: 0, ..m }.goto(m.pc + 1),
            Token::Push => Machine { stack: m.stack.push(m.cell()), ..m }.goto(m.pc + 1),
            Token::Pop => if m.stack.len() == 0 {
                m.fail(Fault::EmptyStack)
            } else {
                Machine { stack: m.stack.drop_last(), ..m }.with_cell(m.stack.last()).goto(
                    m.pc + 1,
                )
            },
            Token::InputNumeric => m.suspend(InputKind::Numeric),
            Token::InputText => m.suspend(InputKind::Text),
            Token::OutputNumeric => m.print(decimal(m.cell() as nat)).goto(m.pc + 1),
            Token::OutputText => match scalar_value(m.cell()) {
                Some(c) => m.print(seq![c]).goto(m.pc + 1),
                None => m.fail(Fault::InvalidCodePoint),
            },
            Token::JumpIfZero => if m.cell() == 0 {
                match forward_match(m.program, m.pc + 1, 0) {
                    Some(j) => m.goto(j + 1),
                    None => m.fail(Fault::UnmatchedJumpIfZero),
                }
            } else {
                m.goto(m.pc + 1)
            },
            Token::JumpIfZeroMarker => m.goto(m.pc + 1),
            Token::JumpBack => match backward_match(m.program, m.pc - 1, 0) {
                Some(j) => m.goto(j + 1),
                None => m.fail(Fault::UnmatchedJumpBack),
            },
            Token::JumpBackMarker => m.goto(m.pc + 1),
            Token::EndOfProgram => m.halt(),
        }
    }
}

/// The machine after the console entry was submitted. The entry is echoed
/// to the output log, with a newline, and emptied; the machine no longer
/// waits. A numeric entry goes into the cell under the pointer, and one that
/// is no number a cell can hold is a fault. A text entry is written from the
/// pointer on. Unless it faulted, the machine goes on after the input token.
/// A machine that does not wait stays as it is.
pub open spec fn submit(m: Machine) -> Machine {
    if !m.waiting {
        m
    } else {
        let taken = Machine {
            output: (m.output + m.entry).push('\n'),
            waiting: false,
            entry: Seq::empty(),
            ..m
        };
        match m.input_kind {
            InputKind::Numeric => match parse_number(m.entry) {
                Some(v) => taken.with_cell(v).goto(m.pc + 1),
                None => taken.fail(Fault::MalformedNumber),
            },
            InputKind::Text => Machine {
                tape: write_text(m.tape, m.pointer, m.entry),
                pointer: pointer_after_text(m.pointer, m.entry.len() as int),
                ..taken
            }.goto(m.pc + 1),
        }
    }
}

/// The machine after `c` was typed into the console entry. A machine that
/// does not wait stays as it is.
pub open spec fn type_char(m: Machine, c: char) -> Machine {
    if m.waiting {
        Machine { entry: m.entry.push(c), ..m }
    } else {
        m
    }
}

/// The machine after the last character of the console entry was deleted.
/// An empty entry stays empty, and a machine that does not wait stays as it
/// is.
pub open spec fn erase_char(m: Machine) -> Machine {
    if m.waiting && m.entry.len() > 0 {
        Machine { entry: m.entry.drop_last(), ..m }
    } else {
        m
    }
}

/// What a key does to the machine. Backspace deletes the last character of
/// the console entry, Return submits the entry, and any other key types its
/// character into the entry, if it has one.
pub open spec fn press(m: Machine, code: i32, shift: bool) -> Machine {
    if code == BACKSPACE {
        erase_char(m)
    } else if code == RETURN {
        submit(m)
    } else {
        let c = if shift {
            entry_upper_char(code)
        } else {
            entry_lower_char(code)
        };
        if c == 0 as char {
            m
        } else {
            type_char(m, c)
        }
    }
}

/// Whether the host may step again at once: the program runs by itself and
/// its next token asks for no input.
pub open spec fn can_recur(m: Machine) -> bool {
    m.running && 0 <= m.pc < m.program.len() && !m.program[m.pc].requests_input()
}

/// The machine after `n` steps.
pub open spec fn run(m: Machine, n: nat) -> Machine
    decreases n,
{
    if n == 0 {
        m
    } else {
        run(step(m), (n - 1) as nat)
    }
}

/// How many steps the host takes on one tick, with at most `limit` allowed.
/// It steps only a program that runs by itself and does not wait. After the
/// first step (`first` says that none was taken yet) it goes on only while
/// `can_recur` allows.
pub open spec fn tick_steps(m: Machine, limit: nat, first: bool) -> nat
    decreases limit,
{
    if limit == 0 || !m.running || m.waiting || (!first && !can_recur(m)) {
        0
    } else {
        1 + tick_steps(step(m), (limit - 1) as nat, false)
    }
}

/// A `}` found to the right of `i` lies at `i` or after it, inside the
/// program, and holds that token.
pub proof fn forward_match_is_marker(program: Seq<Token>, i: int, depth: nat)
    requires
        forward_match(program, i, depth) is Some,
    ensures
        i <= forward_match(program, i, depth)->0 < program.len(),
        program[forward_match(program, i, depth)->0] == Token::JumpIfZeroMarker,
    decreases program.len() - i,
{
    if i < 0 || i >= program.len() {
    } else if program[i] == Token::JumpIfZero {
        forward_match_is_marker(program, i + 1, depth + 1);
    } else if program[i] == Token::JumpIfZeroMarker {
        if depth > 0 {
            forward_match_is_marker(program, i + 1, (depth - 1) as nat);
        }
    } else {
        forward_match_is_marker(program, i + 1, depth);
    }
}

/// A `=` found to the left of `i` lies at `i` or before it, inside the
/// program, and holds that token.
pub proof fn backward_match_is_marker(program: Seq<Token>, i: int, depth: nat)
    requires
        backward_match(program, i, depth) is Some,
    ensures
        0 <= backward_match(program, i, depth)->0 <= i,
        i < program.len(),
        program[backward_match(program, i, depth)->0] == Token::JumpBackMarker,
    decreases i + 1,
{
    if i < 0 || i >= program.len() {
    } else if program[i] == Token::JumpBack {
        backward_match_is_marker(program, i - 1, depth + 1);
    } else if program[i] == Token::JumpBackMarker {
        if depth > 0 {
            backward_match_is_marker(program, i - 1, (depth - 1) as nat);
        }
    } else {
        backward_match_is_marker(program, i - 1, depth);
    }
}

/// A build leaves a well-formed machine, whatever the machine was before.
pub proof fn build_is_wf(m: Machine)
    ensures
        build(m).wf(),
{
    if lex(m.source).error is None {
        lex_ends_program(m.source, 0, false);
    }
}

/// Building twice is building once, and what a build gives depends on the
/// source alone: two machines with the same source are the same machine
/// after a build, with the same program, a zeroed tape and an empty stack.
pub proof fn build_is_idempotent(m: Machine, other: Machine)
    requires
        m.source == other.source,
    ensures
        build(build(m)) == build(m),
        build(other) == build(m),
        build(m).program == lex(m.source).tokens,
        build(m).tape == Seq::new(TAPE_LEN as nat, |i: int| 0u32),
        build(m).stack == Seq::<u32>::empty(),
        build(m).source == m.source,
{
}

/// Every step keeps the invariant: afterwards each cell still holds at most
/// `MAX_CELL` and the pointer is still an index of the tape. A step that
/// faults leaves tape, pointer, stack and program counter as they were.
pub proof fn step_keeps_wf(m: Machine)
    requires
        m.wf(),
    ensures
        step(m).wf(),
        step(m).fault is Some && m.fault is None ==> {
            &&& step(m).phase() == Phase::Faulted
            &&& step(m).tape == m.tape
            &&& step(m).pointer == m.pointer
            &&& step(m).stack == m.stack
            &&& step(m).pc == m.pc
        },
{
    if m.can_step() {
        match m.program[m.pc] {
            Token::JumpIfZero => {
                if m.cell() == 0 && forward_match(m.program, m.pc + 1, 0) is Some {
                    forward_match_is_marker(m.program, m.pc + 1, 0);
                }
            },
            Token::JumpBack => {
                if backward_match(m.program, m.pc - 1, 0) is Some {
                    backward_match_is_marker(m.program, m.pc - 1, 0);
                }
            },
            _ => {},
        }
    }
}

/// No step clamps or wraps. `+` and `-` change the cell under the pointer by
/// exactly one, `<` and `>` move the pointer by exactly one cell, and `^`
/// moves it to exactly the value of the cell: where that cannot be done, the
/// step is a fault.
pub proof fn step_never_wraps(m: Machine)
    requires
        m.wf(),
        m.can_step(),
    ensures
        m.program[m.pc] == Token::Increment ==> step(m).fault is Some || step(m).cell() == m.cell()
            + 1,
        m.program[m.pc] == Token::Decrement ==> step(m).fault is Some || step(m).cell() == m.cell()
            - 1,
        m.program[m.pc] == Token::ShiftLeft ==> step(m).fault is Some || step(m).pointer
            == m.pointer - 1,
        m.program[m.pc] == Token::ShiftRight ==> step(m).fault is Some || step(m).pointer
            == m.pointer + 1,
        m.program[m.pc] == Token::ShiftToValue ==> step(m).fault is Some || step(m).pointer
            == m.cell(),
{
}

/// Submitting the console entry keeps the invariant. A text entry never
/// faults, however long it is; a numeric entry faults exactly where it is
/// no number that a cell can hold.
pub proof fn submit_keeps_wf(m: Machine)
    requires
        m.wf(),
    ensures
        submit(m).wf(),
        m.waiting && m.input_kind == InputKind::Text ==> submit(m).fault is None,
        m.waiting && m.input_kind == InputKind::Numeric ==> (submit(m).fault is Some
            <==> parse_number(m.entry) is None),
{
    if m.waiting {
        assert(m.program[m.pc] != Token::EndOfProgram);
        assert(m.pc + 1 < m.program.len());
        match m.input_kind {
            InputKind::Numeric => {},
            InputKind::Text => {
                let tape = write_text(m.tape, m.pointer, m.entry);
                assert forall|i: int| 0 <= i < tape.len() implies #[trigger] tape[i]
                    <= MAX_CELL by {
                    if m.pointer <= i < m.pointer + m.entry.len() {
                        char_fits_cell(m.entry[i - m.pointer]);
                    } else {
                        assert(m.tape[i] <= MAX_CELL);
                    }
                }
            },
        }
    }
}

/// Whether `program` holds no `:`, the one token that moves the program
/// counter back.
pub open spec fn no_back_jump(program: Seq<Token>) -> bool {
    forall|i: int| 0 <= i < program.len() ==> #[trigger] program[i] != Token::JumpBack
}

/// Whether `program` holds no token that asks for input.
pub open spec fn no_input(program: Seq<Token>) -> bool {
    forall|i: int| 0 <= i < program.len() ==> !(#[trigger] program[i]).requests_input()
}

/// A step on any token but `:` either stops the machine (it halts, faults
/// or waits for input) or moves the program counter forward.
pub proof fn step_moves_forward(m: Machine)
    requires
        m.wf(),
        m.can_step(),
        m.program[m.pc] != Token::JumpBack,
    ensures
        step(m).program == m.program,
        step(m).can_step() ==> step(m).pc > m.pc,
        !step(m).can_step() ==> step(m).phase() == Phase::Halted || step(m).phase()
            == Phase::Faulted || step(m).phase() == Phase::WaitingForInput,
{
    if m.program[m.pc] == Token::JumpIfZero && m.cell() == 0 && forward_match(
        m.program,
        m.pc + 1,
        0,
    ) is Some {
        forward_match_is_marker(m.program, m.pc + 1, 0);
    }
}

/// Submitting an entry either stops the machine with a fault or lets it go
/// on with the token after the input token.
pub proof fn submit_moves_forward(m: Machine)
    requires
        m.wf(),
        m.waiting,
    ensures
        submit(m).program == m.program,
        !submit(m).waiting,
        submit(m).entry == Seq::<char>::empty(),
        submit(m).fault is Some || (submit(m).can_step() && submit(m).pc == m.pc + 1),
{
}

/// A program without `:` cannot run for ever: from any state with an
/// executable program, as many steps as there are tokens from the program
/// counter on (or more) leave the machine halted, faulted or waiting for
/// input, and further steps change nothing. Where the program asks for no
/// input either, it has halted or faulted.
pub proof fn drain_terminates(m: Machine, n: nat)
    requires
        m.wf(),
        m.executable,
        no_back_jump(m.program),
        n >= m.program.len() - m.pc,
    ensures
        run(m, n).wf(),
        run(m, n).program == m.program,
        !run(m, n).can_step(),
        run(m, n).phase() == Phase::Halted || run(m, n).phase() == Phase::Faulted || run(
            m,
            n,
        ).phase() == Phase::WaitingForInput,
        no_input(m.program) ==> run(m, n).phase() != Phase::WaitingForInput,
    decreases n,
{
    step_keeps_wf(m);
    if m.can_step() {
        step_moves_forward(m);
        if step(m).can_step() {
            drain_terminates(step(m), (n - 1) as nat);
        } else {
            stopped_stays(step(m), (n - 1) as nat);
        }
    } else {
        stopped_stays(m, n);
    }
}

/// One more step after `n` steps is `n + 1` steps.
pub proof fn run_one_more(m: Machine, n: nat)
    ensures
        run(m, n + 1) == step(run(m, n)),
    decreases n,
{
    assert(run(m, n + 1) == run(step(m), n));
    if n > 0 {
        run_one_more(step(m), (n - 1) as nat);
        assert(run(m, n) == run(step(m), (n - 1) as nat));
    } else {
        assert(run(step(m), 0) == step(m));
    }
}

/// A machine that cannot be stepped is left as it is by any number of
/// steps.
pub proof fn stopped_stays(m: Machine, n: nat)
    requires
        !m.can_step(),
    ensures
        run(m, n) == m,
    decreases n,
{
    if n > 0 {
        stopped_stays(m, (n - 1) as nat);
    }
}

/// Whatever the program, a run that comes to a stop has halted, faulted or
/// asked for input: there is no other state in which an executable program
/// can no longer be stepped. Where the program asks for no input, it has
/// halted or faulted.
pub proof fn run_stops_for_a_reason(m: Machine, n: nat)
    requires
        m.wf(),
        m.executable,
        !run(m, n).can_step(),
    ensures
        run(m, n).wf(),
        run(m, n).program == m.program,
        run(m, n).phase() == Phase::Halted || run(m, n).phase() == Phase::Faulted || run(
            m,
            n,
        ).phase() == Phase::WaitingForInput,
        no_input(m.program) ==> run(m, n).phase() != Phase::WaitingForInput,
    decreases n,
{
    if n > 0 {
        step_keeps_wf(m);
        if step(m).executable {
            run_stops_for_a_reason(step(m), (n - 1) as nat);
        } else {
            stopped_stays(step(m), (n - 1) as nat);
        }
    }
}

/// After a build that succeeds, a source without `:` runs to a halt, a
/// fault or a request for input within as many steps as its program has
/// tokens; to a halt or a fault, where it asks for no input.
pub proof fn built_program_drains(m: Machine)
    requires
        build(m).executable,
        no_back_jump(build(m).program),
    ensures
        ({
            let end = run(start(build(m)), build(m).program.len());
            &&& end.phase() == Phase::Halted || end.phase() == Phase::Faulted || end.phase()
                == Phase::WaitingForInput
            &&& no_input(build(m).program) ==> end.phase() != Phase::WaitingForInput
        }),
{
    build_is_wf(m);
    drain_terminates(start(build(m)), build(m).program.len());
}

/// One turn of a host that never leaves the machine waiting: it steps the
/// machine, or, where the machine waits for input, submits `entry`.
pub open spec fn turn(m: Machine, entry: Seq<char>) -> Machine {
    if m.waiting {
        submit(Machine { entry: entry, ..m })
    } else {
        step(m)
    }
}

/// The machine after as many turns as `entries` is long, the `k`-th turn
/// having `entries[k]` at hand for a machine that waits.
pub open spec fn drive(m: Machine, entries: Seq<Seq<char>>) -> Machine
    decreases entries.len(),
{
    if entries.len() == 0 {
        m
    } else {
        drive(turn(m, entries[0]), entries.drop_first())
    }
}

/// A program without `:` comes to its end whatever is typed: two turns for
/// each token from the program counter on (or more) leave the machine
/// halted or faulted.
pub proof fn drive_terminates(m: Machine, entries: Seq<Seq<char>>)
    requires
        m.wf(),
        m.executable,
        no_back_jump(m.program),
        entries.len() >= 2 * (m.program.len() - m.pc) - (if m.waiting {
            1int
        } else {
            0int
        }),
    ensures
        drive(m, entries).wf(),
        drive(m, entries).phase() == Phase::Halted || drive(m, entries).phase() == Phase::Faulted,
    decreases entries.len(),
{
    let next = turn(m, entries[0]);
    let rest = entries.drop_first();
    if m.waiting {
        let typed = Machine { entry: entries[0], ..m };
        submit_keeps_wf(typed);
        submit_moves_forward(typed);
    } else {
        step_keeps_wf(m);
        step_moves_forward(m);
    }
    if next.executable {
        drive_terminates(next, rest);
    } else {
        ended_stays(next, rest);
    }
}

/// A machine that has halted or faulted is left as it is by any number of
/// turns.
pub proof fn ended_stays(m: Machine, entries: Seq<Seq<char>>)
    requires
        m.wf(),
        !m.executable,
    ensures
        drive(m, entries) == m,
    decreases entries.len(),
{
    if entries.len() > 0 {
        ended_stays(m, entries.drop_first());
    }
}

/// After a build that succeeds, a source without `:` comes to a halt or a
/// fault within two turns for each token of its program, whatever is typed
/// where it asks for input.
pub proof fn built_program_ends(m: Machine, entries: Seq<Seq<char>>)
    requires
        build(m).executable,
        no_back_jump(build(m).program),
        entries.len() >= 2 * build(m).program.len(),
    ensures
        ({
            let end = drive(start(build(m)), entries);
            end.phase() == Phase::Halted || end.phase() == Phase::Faulted
        }),
{
    build_is_wf(m);
    drive_terminates(start(build(m)), entries);
}

/// What the host does to the engine between steps keeps the invariant:
/// handing in a source, starting the program, typing into the console
/// entry, deleting from it, and pressing any key.
pub proof fn host_keeps_wf(m: Machine, source: Seq<char>, c: char, code: i32, shift: bool)
    requires
        m.wf(),
    ensures
        populate(m, source).wf(),
        start(m).wf(),
        type_char(m, c).wf(),
        erase_char(m).wf(),
        press(m, code, shift).wf(),
{
    submit_keeps_wf(m);
}

} // verus!
