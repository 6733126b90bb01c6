//! The engine: compiles a source text and executes the program step by
//! step, against a tape of 512 cells and a stack.
//!
//! Every operation is specified as the function of `crate::machine` that it
//! computes on the engine's view.

use crate::keys::{code_of, entry_lower, entry_upper, key_code, BACKSPACE, RETURN};
use crate::lexer::{tokenize, BuildError};
use crate::machine::{
    backward_match, backward_match_is_marker, build, build_is_wf, build_report, can_recur,
    erase_char, fault_report, forward_match, forward_match_is_marker, initial, populate, press,
    run, run_one_more, start, step, step_keeps_wf, submit, submit_keeps_wf, tick_steps,
    type_char, write_text, Fault, InputKind, Machine, Phase, TAPE_LEN,
};
use crate::text::{
    char_from_u32, chars_of, code_point, join, join_lines, parse_decimal, pop_char, push_char,
    push_decimal, MAX_CELL,
};
use crate::token::Token;
use piston::input::Key;
use vstd::prelude::*;
use vstd::string::*;

verus! {

/// The engine.
pub struct InterpreterObject {
    /// The source text.
    input: Vec<char>,
    /// The output log.
    output: String,
    /// The compiled program.
    token_list: Vec<Token>,
    /// The program counter.
    index: usize,
    /// The tape.
    execute_array: Vec<u32>,
    /// The stack, its top last.
    execute_stack: Vec<u32>,
    /// The pointer.
    execute_index: usize,
    /// A program is there and has neither ended nor faulted.
    can_execute: bool,
    /// An input token waits for the console entry.
    wait_for_input: bool,
    /// The program runs by itself.
    is_executing: bool,
    /// How the console entry will be read.
    input_type: InputKind,
    /// The console entry typed so far.
    console_entry: String,
    /// The program ran to its end.
    halted: bool,
    /// The fault that stopped the program.
    fault: Option<Fault>,
}

impl View for InterpreterObject {
    type V = Machine;

    closed spec fn view(&self) -> Machine {
        Machine {
            source: self.input@,
            output: self.output@,
            program: self.token_list@,
            pc: self.index as int,
            tape: self.execute_array@,
            pointer: self.execute_index as int,
            stack: self.execute_stack@,
            executable: self.can_execute,
            running: self.is_executing,
            waiting: self.wait_for_input,
            input_kind: self.input_type,
            entry: self.console_entry@,
            halted: self.halted,
            fault: self.fault,
        }
    }
}

/// A tape of zeros.
fn blank_tape() -> (tape: Vec<u32>)
    ensures
        tape@ == Seq::new(TAPE_LEN as nat, |i: int| 0u32),
{
    let mut tape: Vec<u32> = Vec::new();
    while tape.len() < TAPE_LEN
        invariant
            tape.len() <= TAPE_LEN,
            forall|i: int| 0 <= i < tape.len() ==> tape@[i] == 0,
        decreases TAPE_LEN - tape.len(),
    {
        tape.push(0);
    }
    assert(tape@ =~= Seq::new(TAPE_LEN as nat, |i: int| 0u32));
    tape
}

/// Looks to the right of `from` for the `}` that closes a `{` before it.
pub fn find_forward(program: &Vec<Token>, from: usize) -> (found: Option<usize>)
    ensures
        match found {
            Some(j) => forward_match(program@, from as int, 0) == Some(j as int),
            None => forward_match(program@, from as int, 0) is None,
        },
{
    let mut i: usize = from;
    let mut depth: usize = 0;
    while i < program.len()
        invariant
            from <= i,
            depth <= i - from,
            forward_match(program@, from as int, 0) == forward_match(
                program@,
                i as int,
                depth as nat,
            ),
        decreases program.len() - i,
    {
        match program[i] {
            Token::JumpIfZero => {
                depth += 1;
            },
            Token::JumpIfZeroMarker => {
                if depth == 0 {
                    return Some(i);
                }
                depth -= 1;
            },
            _ => {},
        }
        i += 1;
    }
    None
}

/// Looks from `before` to the left, `before` itself left out, for the `=`
/// that opens the loop closed by a `:` at `before`.
pub fn find_backward(program: &Vec<Token>, before: usize) -> (found: Option<usize>)
    ensures
        match found {
            Some(j) => backward_match(program@, before - 1, 0) == Some(j as int),
            None => backward_match(program@, before - 1, 0) is None,
        },
{
    if before > program.len() {
        return None;
    }
    let mut i: usize = before;
    let mut depth: usize = 0;
    while i > 0
        invariant
            i <= before <= program.len(),
            depth <= before - i,
            backward_match(program@, before - 1, 0) == backward_match(
                program@,
                i - 1,
                depth as nat,
            ),
        decreases i,
    {
        i -= 1;
        match program[i] {
            Token::JumpBack => {
                depth += 1;
            },
            Token::JumpBackMarker => {
                if depth == 0 {
                    return Some(i);
                }
                depth -= 1;
            },
            _ => {},
        }
    }
    None
}

/// Writes `text` into `tape` from cell `start` on, one character to a cell,
/// as far as the tape goes.
fn write_chars(tape: &mut Vec<u32>, start: usize, text: &Vec<char>)
    requires
        old(tape).len() == TAPE_LEN,
        start < TAPE_LEN,
    ensures
        final(tape)@ == write_text(old(tape)@, start as int, text@),
{
    let mut k: usize = 0;
    while k < text.len() && k < TAPE_LEN - start
        invariant
            k <= text.len(),
            start + k <= TAPE_LEN,
            tape.len() == TAPE_LEN,
            forall|i: int|
                0 <= i < TAPE_LEN ==> tape@[i] == if start <= i < start + k {
                    text@[i - start] as u32
                } else {
                    old(tape)@[i]
                },
        decreases text.len() - k,
    {
        let v: u32 = code_point(text[k]);
        tape.set(start + k, v);
        k += 1;
    }
    assert(tape@ =~= write_text(old(tape)@, start as int, text@));
}

/// Appends to `out` what the output log says of a build that ended in
/// `error`.
fn report_build(out: &mut String, error: Option<BuildError>)
    ensures
        final(out)@ == old(out)@ + build_report(error),
{
    match error {
        None => {
            out.append("[INFO]: Build Successful\n");
        },
        Some(BuildError::UnrecognizedCharacter(c)) => {
            out.append("[ERROR]: Build Failure, unable to recognize character as a token: ");
            push_char(out, c);
            push_char(out, '\n');
            assert(out@ =~= old(out)@ + build_report(error));
        },
        Some(BuildError::MissingInputKind) => {
            out.append("[ERROR]: Expected '0' or 'a' after ? token for expected input type\n");
        },
        Some(BuildError::MissingOutputKind) => {
            out.append("[ERROR]: Expected '0' or 'a' after & token for expected output type\n");
        },
        Some(BuildError::LoneSlash) => {
            out.append("[ERROR]: Build Failure, unable to recognize character as a token: /");
        },
    }
}

/// Appends to `out` what the output log says of `fault`, which happened
/// with the pointer on cell `pointer`.
fn report_fault(out: &mut String, fault: Fault, pointer: usize)
    requires
        pointer < TAPE_LEN,
    ensures
        final(out)@ == old(out)@ + fault_report(fault, pointer as int),
{
    match fault {
        Fault::CellOverflow => {
            out.append("[ERROR]: Attempted to increment value at index ");
            push_decimal(out, pointer as u32);
            out.append(" above integer max.\n");
        },
        Fault::CellUnderflow => {
            out.append("[ERROR]: Attempted to decrement value at index ");
            push_decimal(out, pointer as u32);
            out.append(" below 0.\n");
        },
        Fault::PointerUnderflow => {
            out.append("[ERROR]: Attempted to shift array index below 0.\n");
        },
        Fault::PointerOverflow => {
            out.append("[ERROR]: Attempted to shift array index above 512.\n");
        },
        Fault::EmptyStack => {
            out.append("[ERROR]: Attempted to pop from empty stack.\n");
        },
        Fault::UnmatchedJumpIfZero => {
            out.append("[ERROR]: Unable to find matching '}' for conditional jump.");
        },
        Fault::UnmatchedJumpBack => {
            out.append("[ERROR]: Unable to find matching '=' for non-conditional jump.");
        },
        Fault::MalformedNumber => {
            out.append("[ERROR]: Expected a number from 0 to 16777215 as input.\n");
        },
        Fault::InvalidCodePoint => {
            out.append("[ERROR]: Attempted to output value at index ");
            push_decimal(out, pointer as u32);
            out.append(" that is not a character.\n");
        },
    }
    assert(out@ =~= old(out)@ + fault_report(fault, pointer as int));
}

impl InterpreterObject {
    /// The invariant of the engine: that of its machine.
    pub open spec fn wf(&self) -> bool {
        self@.wf()
    }

    /// Tells whether the invariant holds. It does of every engine that `new`
    /// made, whatever was done with it since.
    pub fn holds_invariant(&self) -> (ok: bool)
        ensures
            ok == self.wf(),
    {
        if self.execute_array.len() != TAPE_LEN || self.execute_index >= TAPE_LEN || self.index
            > self.token_list.len() {
            return false;
        }
        let mut i: usize = 0;
        while i < self.execute_array.len()
            invariant
                i <= self.execute_array.len(),
                forall|k: int| 0 <= k < i ==> #[trigger] self.execute_array@[k] <= MAX_CELL,
            decreases self.execute_array.len() - i,
        {
            if self.execute_array[i] > MAX_CELL {
                assert(self@.tape[i as int] > MAX_CELL);
                return false;
            }
            i += 1;
        }
        let mut j: usize = 0;
        while j < self.execute_stack.len()
            invariant
                j <= self.execute_stack.len(),
                forall|k: int| 0 <= k < j ==> #[trigger] self.execute_stack@[k] <= MAX_CELL,
            decreases self.execute_stack.len() - j,
        {
            if self.execute_stack[j] > MAX_CELL {
                assert(self@.stack[j as int] > MAX_CELL);
                return false;
            }
            j += 1;
        }
        let len: usize = self.token_list.len();
        let program_fits = !self.can_execute || (self.index < len && self.token_list[len - 1]
            == Token::EndOfProgram);
        let flags_fit = (!self.is_executing || self.can_execute) && (!self.halted || (
        !self.can_execute && self.fault.is_none())) && (self.fault.is_none() || !self.can_execute);
        let entry_fits = if self.wait_for_input {
            self.can_execute && self.index < len && match self.input_type {
                InputKind::Numeric => self.token_list[self.index] == Token::InputNumeric,
                InputKind::Text => self.token_list[self.index] == Token::InputText,
            }
        } else {
            self.console_entry.as_str().is_empty()
        };
        program_fits && flags_fit && entry_fits
    }

    /// An engine with no source and no program.
    pub fn new() -> (engine: InterpreterObject)
        ensures
            engine@ == initial(Seq::empty()),
            engine.wf(),
    {
        InterpreterObject {
            input: Vec::new(),
            output: String::new(),
            token_list: Vec::new(),
            execute_array: blank_tape(),
            execute_stack: Vec::new(),
            execute_index: 0,
            index: 0,
            input_type: InputKind::Numeric,
            can_execute: false,
            wait_for_input: false,
            is_executing: false,
            console_entry: String::new(),
            halted: false,
            fault: None,
        }
    }

    /// Takes the lines of the edited text as the new source, joined with
    /// newlines, and clears the output log.
    pub fn populate_input(&mut self, input: &Vec<String>)
        ensures
            final(self)@ == populate(old(self)@, join_lines(input.deep_view())),
            old(self).wf() ==> final(self).wf(),
    {
        self.input = join(input);
        self.output = String::new();
    }

    /// Compiles the source and resets the engine: see `machine::build`.
    pub fn build(&mut self)
        ensures
            final(self)@ == build(old(self)@),
            final(self).wf(),
    {
        let (tokens, error) = tokenize(&self.input);
        self.token_list = tokens;
        self.index = 0;
        self.execute_array = blank_tape();
        self.execute_index = 0;
        self.execute_stack = Vec::new();
        self.console_entry = String::new();
        self.input_type = InputKind::Numeric;
        self.wait_for_input = false;
        self.is_executing = false;
        self.halted = false;
        self.fault = None;
        self.can_execute = error.is_none();
        self.output = String::new();
        report_build(&mut self.output, error);
        proof {
            build_is_wf(old(self)@);
            assert(self@.output =~= build(old(self)@).output);
        }
    }

    /// Skips the white space and the comments of the source that start at
    /// `from`: see `lexer::ignore_whitespace`.
    pub fn ignore_whitespace(&self, from: usize) -> (next: usize)
        ensures
            next == crate::lexer::skip_blank(self@.source, from as int, false),
            from <= next,
            from <= self@.source.len() ==> next <= self@.source.len(),
    {
        crate::lexer::ignore_whitespace(&self.input, from)
    }

    /// Whether a program is there that has neither ended nor faulted.
    pub fn is_executable(&self) -> (b: bool)
        ensures
            b == self@.executable,
    {
        self.can_execute
    }

    /// Whether the engine waits for the console entry.
    pub fn is_waiting(&self) -> (b: bool)
        ensures
            b == self@.waiting,
    {
        self.wait_for_input
    }

    /// Asks for the program to run by itself, if there is one.
    pub fn start_execution(&mut self)
        ensures
            final(self)@ == start(old(self)@),
            old(self).wf() ==> final(self).wf(),
    {
        if self.can_execute {
            self.is_executing = true;
        }
    }

    /// Whether the program runs by itself.
    pub fn can_step(&self) -> (b: bool)
        ensures
            b == self@.running,
    {
        self.is_executing
    }

    /// Where the engine stands.
    pub fn phase(&self) -> (p: Phase)
        ensures
            p == self@.phase(),
    {
        if self.fault.is_some() {
            Phase::Faulted
        } else if self.halted {
            Phase::Halted
        } else if !self.can_execute {
            Phase::NotBuilt
        } else if self.wait_for_input {
            Phase::WaitingForInput
        } else if self.is_executing {
            Phase::Running
        } else {
            Phase::Built
        }
    }

    /// Executes the token under the program counter: see `machine::step`.
    /// Nothing happens where no program can be executed or the engine waits
    /// for input.
    pub fn execute_step(&mut self)
        requires
            old(self).wf(),
        ensures
            final(self)@ == step(old(self)@),
            final(self).wf(),
    {
        proof {
            step_keeps_wf(self@);
        }
        if !self.can_execute || self.wait_for_input {
            return ;
        }
        let current_token = self.token_list[self.index];
        match current_token {
            Token::Increment => {
                self.increment();
            },
            Token::Decrement => {
                self.decrement();
            },
            Token::ShiftLeft => {
                self.shiftleft();
            },
            Token::ShiftRight => {
                self.shiftright();
            },
            Token::ShiftToValue => {
                self.shiftnum();
            },
            Token::ResetPointer => {
                self.reset();
            },
            Token::Push => {
                self.stackpush();
            },
            Token::Pop => {
                self.stackpop();
            },
            Token::InputNumeric => {
                self.inputnum();
            },
            Token::InputText => {
                self.inputalpha();
            },
            Token::OutputNumeric => {
                self.outputnum();
            },
            Token::OutputText => {
                self.outputalpha();
            },
            Token::JumpIfZero => {
                self.conditionaljump();
            },
            Token::JumpIfZeroMarker => {
                self.advance();
            },
            Token::JumpBack => {
                self.nonconditionaljump();
            },
            Token::JumpBackMarker => {
                self.advance();
            },
            Token::EndOfProgram => {
                self.is_executing = false;
                self.can_execute = false;
                self.halted = true;
                self.output.append("\n[INFO]: Finished Execution\n");
            },
        }
    }

    /// Whether the host may step again at once: the program runs by itself
    /// and its next token asks for no input.
    pub fn can_recur_step(&self) -> (b: bool)
        ensures
            b == can_recur(self@),
    {
        self.is_executing && self.index < self.token_list.len()
            && !self.token_list[self.index].is_input_request()
    }

    /// What the host does on a tick: while the program runs by itself and
    /// does not wait, one step, and then further steps for as long as
    /// `can_recur_step` allows, but no more than `limit` steps in all.
    /// Returns how many steps were taken.
    pub fn execute_tick(&mut self, limit: usize) -> (taken: usize)
        requires
            old(self).wf(),
        ensures
            final(self).wf(),
            taken == tick_steps(old(self)@, limit as nat, true),
            final(self)@ == run(old(self)@, taken as nat),
            taken <= limit,
            taken < limit ==> !can_recur(final(self)@),
    {
        let mut taken: usize = 0;
        while taken < limit && self.is_executing && !self.wait_for_input && (taken == 0
            || self.can_recur_step())
            invariant
                self.wf(),
                taken <= limit,
                self@ == run(old(self)@, taken as nat),
                tick_steps(old(self)@, limit as nat, true) == taken + tick_steps(
                    self@,
                    (limit - taken) as nat,
                    taken == 0,
                ),
            decreases limit - taken,
        {
            proof {
                run_one_more(old(self)@, taken as nat);
            }
            self.execute_step();
            taken += 1;
        }
        taken
    }

    /// Whether the engine can execute the token `token` now.
    spec fn at(&self, token: Token) -> bool {
        &&& self.wf()
        &&& self@.can_step()
        &&& self@.program[self@.pc] == token
    }

    /// Moves the program counter to the next token.
    fn advance(&mut self)
        requires
            old(self)@.pc < old(self)@.program.len(),
        ensures
            final(self)@ == old(self)@.goto(old(self)@.pc + 1),
    {
        let len: usize = self.token_list.len();
        self.index = self.index + 1;
    }

    /// Stops the program with `fault`.
    fn fail(&mut self, fault: Fault)
        requires
            old(self).execute_index < TAPE_LEN,
        ensures
            final(self)@ == old(self)@.fail(fault),
    {
        report_fault(&mut self.output, fault, self.execute_index);
        self.is_executing = false;
        self.can_execute = false;
        self.fault = Some(fault);
    }

    /// `+`: adds one to the cell under the pointer.
    fn increment(&mut self)
        requires
            old(self).at(Token::Increment),
        ensures
            final(self)@ == step(old(self)@),
    {
        let value: u32 = self.execute_array[self.execute_index];
        if value >= MAX_CELL {
            self.fail(Fault::CellOverflow);
        } else {
            self.execute_array.set(self.execute_index, value + 1);
            self.advance();
        }
    }

    /// `-`: takes one from the cell under the pointer.
    fn decrement(&mut self)
        requires
            old(self).at(Token::Decrement),
        ensures
            final(self)@ == step(old(self)@),
    {
        let value: u32 = self.execute_array[self.execute_index];
        if value == 0 {
            self.fail(Fault::CellUnderflow);
        } else {
            self.execute_array.set(self.execute_index, value - 1);
            self.advance();
        }
    }

    /// `<`: moves the pointer one cell to the left.
    fn shiftleft(&mut self)
        requires
            old(self).at(Token::ShiftLeft),
        ensures
            final(self)@ == step(old(self)@),
    {
        if self.execute_index == 0 {
            self.fail(Fault::PointerUnderflow);
        } else {
            self.execute_index -= 1;
            self.advance();
        }
    }

    /// `>`: moves the pointer one cell to the right.
    fn shiftright(&mut self)
        requires
            old(self).at(Token::ShiftRight),
        ensures
            final(self)@ == step(old(self)@),
    {
        if self.execute_index >= TAPE_LEN - 1 {
            self.fail(Fault::PointerOverflow);
        } else {
            self.execute_index += 1;
            self.advance();
        }
    }

    /// `^`: moves the pointer to the index held in the cell under it.
    fn shiftnum(&mut self)
        requires
            old(self).at(Token::ShiftToValue),
        ensures
            final(self)@ == step(old(self)@),
    {
        let value: u32 = self.execute_array[self.execute_index];
        if value >= TAPE_LEN as u32 {
            self.fail(Fault::PointerOverflow);
        } else {
            self.execute_index = value as usize;
            self.advance();
        }
    }

    /// `_`: moves the pointer back to cell 0.
    fn reset(&mut self)
        requires
            old(self).at(Token::ResetPointer),
        ensures
            final(self)@ == step(old(self)@),
    {
        self.execute_index = 0;
        self.advance();
    }

    /// `#`: pushes the cell under the pointer onto the stack.
    fn stackpush(&mut self)
        requires
            old(self).at(Token::Push),
        ensures
            final(self)@ == step(old(self)@),
    {
        let value: u32 = self.execute_array[self.execute_index];
        self.execute_stack.push(value);
        self.advance();
    }

    /// `$`: pops the stack into the cell under the pointer.
    fn stackpop(&mut self)
        requires
            old(self).at(Token::Pop),
        ensures
            final(self)@ == step(old(self)@),
    {
        match self.execute_stack.pop() {
            Some(value) => {
                self.execute_array.set(self.execute_index, value);
                self.advance();
            },
            None => {
                self.fail(Fault::EmptyStack);
            },
        }
    }

    /// `?0`: waits for a number from the console.
    fn inputnum(&mut self)
        requires
            old(self).at(Token::InputNumeric),
        ensures
            final(self)@ == step(old(self)@),
    {
        self.wait_for_input = true;
        self.input_type = InputKind::Numeric;
    }

    /// `?a`: waits for text from the console.
    fn inputalpha(&mut self)
        requires
            old(self).at(Token::InputText),
        ensures
            final(self)@ == step(old(self)@),
    {
        self.wait_for_input = true;
        self.input_type = InputKind::Text;
    }

    /// `&0`: prints the cell under the pointer as a decimal number.
    fn outputnum(&mut self)
        requires
            old(self).at(Token::OutputNumeric),
        ensures
            final(self)@ == step(old(self)@),
    {
        let value: u32 = self.execute_array[self.execute_index];
        push_decimal(&mut self.output, value);
        self.advance();
    }

    /// `&a`: prints the cell under the pointer as a character.
    fn outputalpha(&mut self)
        requires
            old(self).at(Token::OutputText),
        ensures
            final(self)@ == step(old(self)@),
    {
        let value: u32 = self.execute_array[self.execute_index];
        match char_from_u32(value) {
            Some(c) => {
                push_char(&mut self.output, c);
                self.advance();
                assert(self@.output =~= old(self)@.output + seq![c]);
            },
            None => {
                self.fail(Fault::InvalidCodePoint);
            },
        }
    }

    /// `{`: jumps past the matching `}` where the cell under the pointer is 0.
    fn conditionaljump(&mut self)
        requires
            old(self).at(Token::JumpIfZero),
        ensures
            final(self)@ == step(old(self)@),
    {
        if self.execute_array[self.execute_index] == 0 {
            let len: usize = self.token_list.len();
            match find_forward(&self.token_list, self.index + 1) {
                Some(j) => {
                    proof {
                        forward_match_is_marker(self@.program, self@.pc + 1, 0);
                    }
                    self.index = j + 1;
                },
                None => {
                    self.fail(Fault::UnmatchedJumpIfZero);
                },
            }
        } else {
            self.advance();
        }
    }

    /// `:`: jumps back to just after the matching `=`.
    fn nonconditionaljump(&mut self)
        requires
            old(self).at(Token::JumpBack),
        ensures
            final(self)@ == step(old(self)@),
    {
        match find_backward(&self.token_list, self.index) {
            Some(j) => {
                proof {
                    backward_match_is_marker(self@.program, self@.pc - 1, 0);
                }
                self.index = j + 1;
            },
            None => {
                self.fail(Fault::UnmatchedJumpBack);
            },
        }
    }

    /// Compiles the source again and resets the engine, as `build` does.
    pub fn reset_execution(&mut self)
        ensures
            final(self)@ == build(old(self)@),
            final(self).wf(),
    {
        self.wait_for_input = false;
        self.can_execute = false;
        self.build();
    }

    /// The output log.
    pub fn get_output(&self) -> (text: &String)
        ensures
            text@ == self@.output,
    {
        &self.output
    }

    /// The console entry typed so far.
    pub fn get_console_entry(&self) -> (text: &String)
        ensures
            text@ == self@.entry,
    {
        &self.console_entry
    }

    /// Types `c` into the console entry, while the engine waits for it.
    pub fn append_key(&mut self, c: char)
        ensures
            final(self)@ == type_char(old(self)@, c),
            old(self).wf() ==> final(self).wf(),
    {
        if self.wait_for_input {
            push_char(&mut self.console_entry, c);
        }
    }

    /// Deletes the last character of the console entry, if there is one,
    /// while the engine waits for it.
    pub fn backspace(&mut self)
        ensures
            final(self)@ == erase_char(old(self)@),
            old(self).wf() ==> final(self).wf(),
    {
        if self.wait_for_input {
            let _ = pop_char(&mut self.console_entry);
        }
    }

    /// Submits the console entry: see `machine::submit`.
    pub fn submit_input(&mut self)
        requires
            old(self).wf(),
        ensures
            final(self)@ == submit(old(self)@),
            final(self).wf(),
    {
        proof {
            submit_keeps_wf(self@);
        }
        if !self.wait_for_input {
            return ;
        }
        let entry: Vec<char> = chars_of(self.console_entry.as_str());
        self.output.append(self.console_entry.as_str());
        push_char(&mut self.output, '\n');
        self.console_entry = String::new();
        self.wait_for_input = false;
        match self.input_type {
            InputKind::Numeric => {
                match parse_decimal(&entry) {
                    Some(value) => {
                        self.execute_array.set(self.execute_index, value);
                        self.advance();
                    },
                    None => {
                        self.fail(Fault::MalformedNumber);
                    },
                }
            },
            InputKind::Text => {
                write_chars(&mut self.execute_array, self.execute_index, &entry);
                if entry.len() < TAPE_LEN - self.execute_index {
                    self.execute_index += entry.len();
                } else {
                    self.execute_index = TAPE_LEN - 1;
                }
                self.advance();
            },
        }
    }

    /// Handles the key with code `code`, pressed with or without Shift,
    /// while the engine waits for input: see `press`.
    pub fn press_key(&mut self, code: i32, shift: bool)
        requires
            old(self).wf(),
        ensures
            final(self)@ == press(old(self)@, code, shift),
            final(self).wf(),
    {
        if code == BACKSPACE {
            self.backspace();
        } else if code == RETURN {
            self.submit_input();
        } else {
            let keychar: char = if shift {
                entry_upper(code)
            } else {
                entry_lower(code)
            };
            if keychar != (0u8 as char) {
                self.append_key(keychar);
            }
        }
    }

    /// Handles a key pressed while the engine waits for input: what `press`
    /// says of the key's code.
    pub fn handle_input(&mut self, key: &Key, shift: &bool)
        requires
            old(self).wf(),
        ensures
            final(self)@ == press(old(self)@, key_code(*key), *shift),
            final(self).wf(),
    {
        let code: i32 = code_of(key);
        self.press_key(code, *shift);
    }

    /// The compiled program.
    pub fn program(&self) -> (tokens: &Vec<Token>)
        ensures
            tokens@ == self@.program,
    {
        &self.token_list
    }

    /// The index in the program of the next token to execute.
    pub fn program_counter(&self) -> (pc: usize)
        ensures
            pc == self@.pc,
    {
        self.index
    }

    /// The index of the cell under the pointer.
    pub fn pointer(&self) -> (pointer: usize)
        ensures
            pointer == self@.pointer,
    {
        self.execute_index
    }

    /// The value of cell `index` of the tape, or `None` where the tape has
    /// no such cell.
    pub fn cell(&self, index: usize) -> (value: Option<u32>)
        ensures
            value == if index < self@.tape.len() {
                Some(self@.tape[index as int])
            } else {
                None
            },
    {
        if index < self.execute_array.len() {
            Some(self.execute_array[index])
        } else {
            None
        }
    }

    /// The stack, its top last.
    pub fn stack(&self) -> (stack: &Vec<u32>)
        ensures
            stack@ == self@.stack,
    {
        &self.execute_stack
    }

    /// The fault that stopped the program, if one did.
    pub fn fault(&self) -> (fault: Option<Fault>)
        ensures
            fault == self@.fault,
    {
        self.fault
    }
}

} // verus!
