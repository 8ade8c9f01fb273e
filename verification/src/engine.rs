//! The interpreter state machine.
//!
//! A step inspects the cell under the instruction pointer and, in order:
//! a set bridge flag skips the cell; in stringmode the cell is pushed as a
//! character code (a quote leaves stringmode); otherwise the cell is
//! dispatched as an instruction; finally the pointer advances in the current
//! direction with wraparound.
//!
//! Instructions that need the outside world do not perform it here.  `.` and
//! `,` complete the step and report what must be emitted; `&`, `~` and a
//! zero divisor under `/` or `%` suspend the step, and [`Interp::resume`]
//! finishes it with the answer supplied by the caller.  The spec-level
//! transition [`step_model`] pins every case down exactly.

use crate::arith::{lemma_wrap_i64_identity, trunc_div, trunc_mod, value_add, value_div, value_mod,
    value_mul, value_sub, wrap_i64};
use crate::grid::{advance, grid_wf, in_bounds, spec_advance, spec_get, spec_put, Direction, Grid,
    Position};
use crate::stack::{spec_pop, Stack};
use vstd::arithmetic::div_mod::{lemma_fundamental_div_mod, lemma_fundamental_div_mod_converse_mod};
use vstd::prelude::*;

verus! {

/// What a suspended instruction is waiting for.
#[derive(Clone, Copy, PartialEq, Eq, Structural, Debug)]
pub enum Need {
    /// `/` popped a zero divisor: the answer replaces the quotient.
    DivByZero,
    /// `%` popped a zero divisor: the answer replaces the remainder.
    ModByZero,
    /// `&` asks for an integer.
    InputInteger,
    /// `~` asks for a character; the answer is its code.
    InputAscii,
}

/// A value that a completed `.` or `,` instruction asks the caller to emit.
#[derive(Clone, Copy, PartialEq, Eq, Structural, Debug)]
pub enum Emit {
    /// Print the decimal rendering of the value (the `.` instruction).
    Integer(i64),
    /// Print one character by its code (the `,` instruction).
    Ascii(u8),
}

/// The visible outcome of one step.
#[derive(Clone, Copy, PartialEq, Eq, Structural, Debug)]
pub enum StepNote {
    /// The instruction completed with nothing for the caller to do.
    Ran,
    /// The instruction completed; the caller must emit the value.
    Emitted(Emit),
    /// The instruction is suspended until [`Interp::resume`] is called.
    Awaiting(Need),
    /// The end instruction was reached.
    Halted,
}

/// The outcome of one step at the specification level.
#[derive(PartialEq, Eq, Structural)]
pub enum SpecEvent {
    Ran,
    Emitted(Emit),
    Awaiting(Need),
    Halted,
    /// The cell is not an instruction: a fatal error.
    Unknown,
}

/// The event an exec outcome stands for.
pub open spec fn spec_event_of(n: StepNote) -> SpecEvent {
    match n {
        StepNote::Ran => SpecEvent::Ran,
        StepNote::Emitted(e) => SpecEvent::Emitted(e),
        StepNote::Awaiting(nd) => SpecEvent::Awaiting(nd),
        StepNote::Halted => SpecEvent::Halted,
    }
}

/// The fatal diagnostic for a cell that is no instruction: the offending
/// code, its coordinates, and a snapshot of the stack and direction.
#[derive(Debug)]
pub struct UnknownInstruction {
    pub instruction: i64,
    pub x: usize,
    pub y: usize,
    pub stack: Vec<i64>,
    pub dir: Direction,
}

/// The mathematical state of the interpreter.
pub struct InterpModel {
    pub grid: Seq<Seq<i64>>,
    pub pos: Position,
    pub dir: Direction,
    pub stringmode: bool,
    pub bridge: bool,
    pub stack: Seq<i64>,
    pub pending: Option<Need>,
    pub halted: bool,
}

/// Well-formedness of a state: the grid has its fixed dimensions and the
/// pointer is on it.
pub open spec fn model_wf(m: InterpModel) -> bool {
    grid_wf(m.grid) && m.pos.wf()
}

/// The state with the pointer moved one cell in its direction.
pub open spec fn with_move(m: InterpModel) -> InterpModel {
    InterpModel { pos: spec_advance(m.pos, m.dir), ..m }
}

/// The character code that `,` emits for a stack value: the value reduced
/// into a byte, modulo 256.
pub open spec fn ascii_code_of(v: i64) -> u8 {
    ((v as int) % 256) as u8
}

/// The cell under the pointer.
pub open spec fn current_cell(m: InterpModel) -> i64 {
    m.grid[m.pos.y as int][m.pos.x as int]
}

/// One step of the interpreter on a running state.  `rnd` is the direction
/// that the `?` instruction chooses; every other instruction ignores it.
pub open spec fn step_model(m: InterpModel, rnd: Direction) -> (InterpModel, SpecEvent)
    recommends
        model_wf(m),
        !m.halted,
        m.pending is None,
{
    let cell = current_cell(m);
    if m.bridge {
        // The bridge skips the cell: clear it and move on.
        (with_move(InterpModel { bridge: false, ..m }), SpecEvent::Ran)
    } else if m.stringmode {
        if cell == 34 {
            // '"' leaves stringmode.
            (with_move(InterpModel { stringmode: false, ..m }), SpecEvent::Ran)
        } else {
            // Any other cell is pushed as its code.
            (with_move(InterpModel { stack: m.stack.push(cell), ..m }), SpecEvent::Ran)
        }
    } else {
        instruction_model(m, cell, rnd)
    }
}

/// Dispatch of one instruction cell on a running state outside stringmode.
pub open spec fn instruction_model(m: InterpModel, cell: i64, rnd: Direction) -> (
    InterpModel,
    SpecEvent,
) {
    let (s0, rest1) = spec_pop(m.stack);
    let (s1, rest2) = spec_pop(rest1);
    let (s2, rest3) = spec_pop(rest2);
    if cell == 32 {
        // ' ': no-op
        (with_move(m), SpecEvent::Ran)
    } else if cell == 43 {
        // '+'
        (with_move(InterpModel { stack: rest2.push(wrap_i64(s1 + s0) as i64), ..m }), SpecEvent::Ran)
    } else if cell == 45 {
        // '-'
        (with_move(InterpModel { stack: rest2.push(wrap_i64(s1 - s0) as i64), ..m }), SpecEvent::Ran)
    } else if cell == 42 {
        // '*'
        (with_move(InterpModel { stack: rest2.push(wrap_i64(s1 * s0) as i64), ..m }), SpecEvent::Ran)
    } else if cell == 47 {
        // '/': a zero divisor suspends the instruction
        if s0 == 0 {
            (
                InterpModel { stack: rest2, pending: Some(Need::DivByZero), ..m },
                SpecEvent::Awaiting(Need::DivByZero),
            )
        } else {
            (
                with_move(
                    InterpModel { stack: rest2.push(wrap_i64(trunc_div(s1 as int, s0 as int)) as i64), ..m },
                ),
                SpecEvent::Ran,
            )
        }
    } else if cell == 37 {
        // '%': a zero divisor suspends the instruction
        if s0 == 0 {
            (
                InterpModel { stack: rest2, pending: Some(Need::ModByZero), ..m },
                SpecEvent::Awaiting(Need::ModByZero),
            )
        } else {
            (
                with_move(
                    InterpModel { stack: rest2.push(trunc_mod(s1 as int, s0 as int) as i64), ..m },
                ),
                SpecEvent::Ran,
            )
        }
    } else if cell == 33 {
        // '!': logical negation
        (
            with_move(InterpModel { stack: rest1.push(if s0 == 0 { 1i64 } else { 0i64 }), ..m }),
            SpecEvent::Ran,
        )
    } else if cell == 96 {
        // '`': greater-than
        (
            with_move(InterpModel { stack: rest2.push(if s1 > s0 { 1i64 } else { 0i64 }), ..m }),
            SpecEvent::Ran,
        )
    } else if cell == 62 {
        // '>'
        (with_move(InterpModel { dir: Direction::Right, ..m }), SpecEvent::Ran)
    } else if cell == 60 {
        // '<'
        (with_move(InterpModel { dir: Direction::Left, ..m }), SpecEvent::Ran)
    } else if cell == 94 {
        // '^'
        (with_move(InterpModel { dir: Direction::Up, ..m }), SpecEvent::Ran)
    } else if cell == 118 {
        // 'v'
        (with_move(InterpModel { dir: Direction::Down, ..m }), SpecEvent::Ran)
    } else if cell == 63 {
        // '?': the direction chosen at random
        (with_move(InterpModel { dir: rnd, ..m }), SpecEvent::Ran)
    } else if cell == 95 {
        // '_': right on zero, else left
        (
            with_move(
                InterpModel {
                    stack: rest1,
                    dir: if s0 == 0 {
                        Direction::Right
                    } else {
                        Direction::Left
                    },
                    ..m
                },
            ),
            SpecEvent::Ran,
        )
    } else if cell == 124 {
        // '|': down on zero, else up
        (
            with_move(
                InterpModel {
                    stack: rest1,
                    dir: if s0 == 0 {
                        Direction::Down
                    } else {
                        Direction::Up
                    },
                    ..m
                },
            ),
            SpecEvent::Ran,
        )
    } else if cell == 34 {
        // '"': enter stringmode
        (with_move(InterpModel { stringmode: true, ..m }), SpecEvent::Ran)
    } else if cell == 58 {
        // ':': duplicate the top of the stack
        (with_move(InterpModel { stack: rest1.push(s0).push(s0), ..m }), SpecEvent::Ran)
    } else if cell == 92 {
        // '\': swap the two top values
        (with_move(InterpModel { stack: rest2.push(s0).push(s1), ..m }), SpecEvent::Ran)
    } else if cell == 36 {
        // '$': discard the top of the stack
        (with_move(InterpModel { stack: rest1, ..m }), SpecEvent::Ran)
    } else if cell == 46 {
        // '.': emit as a decimal integer
        (with_move(InterpModel { stack: rest1, ..m }), SpecEvent::Emitted(Emit::Integer(s0)))
    } else if cell == 44 {
        // ',': emit as a character code
        (
            with_move(InterpModel { stack: rest1, ..m }),
            SpecEvent::Emitted(Emit::Ascii(ascii_code_of(s0))),
        )
    } else if cell == 35 {
        // '#': skip the next cell on the current path
        (with_move(InterpModel { bridge: true, ..m }), SpecEvent::Ran)
    } else if cell == 103 {
        // 'g': y is the top value, x the next; out of bounds reads as 0
        let value = match spec_get(m.grid, s1, s0) {
            Some(v) => v,
            None => 0i64,
        };
        (with_move(InterpModel { stack: rest2.push(value), ..m }), SpecEvent::Ran)
    } else if cell == 112 {
        // 'p': y, x, then the value; out of bounds writes nowhere
        (
            with_move(InterpModel { stack: rest3, grid: spec_put(m.grid, s1, s0, s2), ..m }),
            SpecEvent::Ran,
        )
    } else if cell == 38 {
        // '&': ask for an integer
        (
            InterpModel { pending: Some(Need::InputInteger), ..m },
            SpecEvent::Awaiting(Need::InputInteger),
        )
    } else if cell == 126 {
        // '~': ask for a character
        (
            InterpModel { pending: Some(Need::InputAscii), ..m },
            SpecEvent::Awaiting(Need::InputAscii),
        )
    } else if cell == 64 {
        // '@': halt
        (InterpModel { halted: true, ..m }, SpecEvent::Halted)
    } else if 48 <= cell <= 57 {
        // '0' to '9': push the digit
        (with_move(InterpModel { stack: m.stack.push((cell - 48) as i64), ..m }), SpecEvent::Ran)
    } else {
        (m, SpecEvent::Unknown)
    }
}

/// Completion of a suspended instruction with the caller's answer: the
/// answer is pushed (for `~`, the character's code) and the pointer moves.
pub open spec fn resume_model(m: InterpModel, answer: i64) -> InterpModel
    recommends
        m.pending is Some,
{
    with_move(InterpModel { stack: m.stack.push(answer), pending: None, ..m })
}

/// Reduce a value into a byte, modulo 256.
pub fn ascii_byte(v: i64) -> (r: u8)
    ensures
        r == ascii_code_of(v),
{
    if v >= 0 {
        ((v as u64) % 256) as u8
    } else {
        let t = (-(v + 1)) as u64;
        let w = t % 256;
        proof {
            lemma_fundamental_div_mod(t as int, 256);
            lemma_fundamental_div_mod_converse_mod(
                v as int,
                256,
                -(t as int / 256) - 1,
                255 - (t as int % 256),
            );
        }
        (255 - w) as u8
    }
}

/// Relies on `rand::random_range`: a value drawn from the given range, here
/// one of the four direction indices.
#[verifier::external_body]
fn random_index() -> (r: u8)
    ensures
        r < 4,
{
    rand::random_range(0u8..4u8)
}

/// The direction that a random index stands for.
pub open spec fn spec_direction_from_index(i: u8) -> Direction {
    if i == 0 {
        Direction::Right
    } else if i == 1 {
        Direction::Left
    } else if i == 2 {
        Direction::Up
    } else {
        Direction::Down
    }
}

/// Map a direction index to its direction.
pub fn direction_from_index(i: u8) -> (r: Direction)
    requires
        i < 4,
    ensures
        r == spec_direction_from_index(i),
{
    if i == 0 {
        Direction::Right
    } else if i == 1 {
        Direction::Left
    } else if i == 2 {
        Direction::Up
    } else {
        Direction::Down
    }
}

/// The interpreter: program memory, instruction pointer, direction, the two
/// mode flags, the operand stack, and the bookkeeping of a suspended
/// instruction.
pub struct Interp {
    grid: Grid,
    pos: Position,
    dir: Direction,
    stringmode: bool,
    bridge: bool,
    stack: Stack,
    pending: Option<Need>,
    halted: bool,
}

impl View for Interp {
    type V = InterpModel;

    closed spec fn view(&self) -> InterpModel {
        InterpModel {
            grid: self.grid@,
            pos: self.pos,
            dir: self.dir,
            stringmode: self.stringmode,
            bridge: self.bridge,
            stack: self.stack@,
            pending: self.pending,
            halted: self.halted,
        }
    }
}

impl Interp {
    /// The interpreter state is well formed.
    pub open spec fn wf(&self) -> bool {
        model_wf(self@)
    }

    /// A fresh interpreter over a loaded grid: at the origin, moving right,
    /// with an empty stack and both mode flags clear.
    pub fn new(grid: Grid) -> (r: Interp)
        requires
            grid.wf(),
        ensures
            r.wf(),
            r@ == (InterpModel {
                grid: grid@,
                pos: Position { x: 0, y: 0 },
                dir: Direction::Right,
                stringmode: false,
                bridge: false,
                stack: Seq::<i64>::empty(),
                pending: None,
                halted: false,
            }),
    {
        let r = Interp {
            grid,
            pos: Position { x: 0, y: 0 },
            dir: Direction::Right,
            stringmode: false,
            bridge: false,
            stack: Stack::new(),
            pending: None,
            halted: false,
        };
        proof {
            assert(r@.stack =~= Seq::<i64>::empty());
        }
        r
    }

    /// Whether the end instruction has been reached.
    pub fn is_halted(&self) -> (r: bool)
        ensures
            r == self@.halted,
    {
        self.halted
    }

    /// What a suspended instruction is waiting for, if any.
    pub fn pending(&self) -> (r: Option<Need>)
        ensures
            r == self@.pending,
    {
        self.pending
    }

    /// The current movement direction.
    pub fn direction(&self) -> (r: Direction)
        ensures
            r == self@.dir,
    {
        self.dir
    }

    /// The current pointer position.
    pub fn position(&self) -> (r: Position)
        ensures
            r == self@.pos,
    {
        self.pos
    }

    /// The operand stack, top last.
    pub fn stack_items(&self) -> (r: &[i64])
        ensures
            r@ == self@.stack,
    {
        self.stack.as_slice()
    }

    /// Execute the cell under the pointer, as [`step_model`] describes.
    /// The direction that `?` draws is visible as the state's direction
    /// afterwards; every other instruction determines the new state alone.
    pub fn step(&mut self) -> (r: Result<StepNote, UnknownInstruction>)
        requires
            old(self).wf(),
            !old(self)@.halted,
            old(self)@.pending is None,
        ensures
            final(self).wf(),
            ({
                let (m2, ev) = step_model(old(self)@, final(self)@.dir);
                &&& final(self)@ == m2
                &&& match r {
                    Ok(note) => ev == spec_event_of(note),
                    Err(e) => {
                        &&& ev == SpecEvent::Unknown
                        &&& e.instruction == current_cell(old(self)@)
                        &&& e.x == old(self)@.pos.x
                        &&& e.y == old(self)@.pos.y
                        &&& e.stack@ == old(self)@.stack
                        &&& e.dir == old(self)@.dir
                    },
                }
            }),
    {
        let cell = self.grid.cell_at(self.pos);
        if self.bridge {
            self.bridge = false;
            self.pos = advance(self.pos, self.dir);
            return Ok(StepNote::Ran);
        }
        if self.stringmode {
            if cell == 34 {
                self.stringmode = false;
            } else {
                self.stack.push(cell);
            }
            self.pos = advance(self.pos, self.dir);
            return Ok(StepNote::Ran);
        }
        if cell == 32 {
            // ' '
        } else if cell == 43 {
            // '+'
            let a = self.stack.pop();
            let b = self.stack.pop();
            self.stack.push(value_add(b, a));
        } else if cell == 45 {
            // '-'
            let a = self.stack.pop();
            let b = self.stack.pop();
            self.stack.push(value_sub(b, a));
        } else if cell == 42 {
            // '*'
            let a = self.stack.pop();
            let b = self.stack.pop();
            self.stack.push(value_mul(b, a));
        } else if cell == 47 {
            // '/'
            let a = self.stack.pop();
            let b = self.stack.pop();
            if a == 0 {
                self.pending = Some(Need::DivByZero);
                return Ok(StepNote::Awaiting(Need::DivByZero));
            }
            self.stack.push(value_div(b, a));
        } else if cell == 37 {
            // '%'
            let a = self.stack.pop();
            let b = self.stack.pop();
            if a == 0 {
                self.pending = Some(Need::ModByZero);
                return Ok(StepNote::Awaiting(Need::ModByZero));
            }
            self.stack.push(value_mod(b, a));
        } else if cell == 33 {
            // '!'
            let a = self.stack.pop();
            self.stack.push(if a == 0 { 1 } else { 0 });
        } else if cell == 96 {
            // '`'
            let a = self.stack.pop();
            let b = self.stack.pop();
            self.stack.push(if b > a { 1 } else { 0 });
        } else if cell == 62 {
            // '>'
            self.dir = Direction::Right;
        } else if cell == 60 {
            // '<'
            self.dir = Direction::Left;
        } else if cell == 94 {
            // '^'
            self.dir = Direction::Up;
        } else if cell == 118 {
            // 'v'
            self.dir = Direction::Down;
        } else if cell == 63 {
            // '?'
            self.dir = direction_from_index(random_index());
        } else if cell == 95 {
            // '_'
            let a = self.stack.pop();
            self.dir = if a == 0 {
                Direction::Right
            } else {
                Direction::Left
            };
        } else if cell == 124 {
            // '|'
            let a = self.stack.pop();
            self.dir = if a == 0 {
                Direction::Down
            } else {
                Direction::Up
            };
        } else if cell == 34 {
            // '"'
            self.stringmode = true;
        } else if cell == 58 {
            // ':'
            let a = self.stack.pop();
            self.stack.push(a);
            self.stack.push(a);
        } else if cell == 92 {
            // '\'
            let a = self.stack.pop();
            let b = self.stack.pop();
            self.stack.push(a);
            self.stack.push(b);
        } else if cell == 36 {
            // '$'
            let _ = self.stack.pop();
        } else if cell == 46 {
            // '.'
            let a = self.stack.pop();
            self.pos = advance(self.pos, self.dir);
            return Ok(StepNote::Emitted(Emit::Integer(a)));
        } else if cell == 44 {
            // ','
            let a = self.stack.pop();
            self.pos = advance(self.pos, self.dir);
            return Ok(StepNote::Emitted(Emit::Ascii(ascii_byte(a))));
        } else if cell == 35 {
            // '#'
            self.bridge = true;
        } else if cell == 103 {
            // 'g'
            let y0 = self.stack.pop();
            let x0 = self.stack.pop();
            let value = match self.grid.get(x0, y0) {
                Some(v) => v,
                None => 0,
            };
            self.stack.push(value);
        } else if cell == 112 {
            // 'p'
            let y0 = self.stack.pop();
            let x0 = self.stack.pop();
            let v = self.stack.pop();
            self.grid.put(x0, y0, v);
        } else if cell == 38 {
            // '&'
            self.pending = Some(Need::InputInteger);
            return Ok(StepNote::Awaiting(Need::InputInteger));
        } else if cell == 126 {
            // '~'
            self.pending = Some(Need::InputAscii);
            return Ok(StepNote::Awaiting(Need::InputAscii));
        } else if cell == 64 {
            // '@'
            self.halted = true;
            return Ok(StepNote::Halted);
        } else if 48 <= cell && cell <= 57 {
            // '0' to '9'
            self.stack.push(cell - 48);
        } else {
            return Err(UnknownInstruction {
                instruction: cell,
                x: self.pos.x,
                y: self.pos.y,
                stack: self.stack.to_vec(),
                dir: self.dir,
            });
        }
        self.pos = advance(self.pos, self.dir);
        Ok(StepNote::Ran)
    }

    /// Complete a suspended instruction with the caller's answer, as
    /// [`resume_model`] describes.
    pub fn resume(&mut self, answer: i64)
        requires
            old(self).wf(),
            old(self)@.pending is Some,
        ensures
            final(self).wf(),
            final(self)@ == resume_model(old(self)@, answer),
    {
        self.stack.push(answer);
        self.pending = None;
        self.pos = advance(self.pos, self.dir);
    }

    /// Step until something happens that the caller must handle: a value to
    /// emit, a suspension awaiting an answer, the halt, an unknown
    /// instruction, or the fuel running out.  The final state is reachable
    /// from the initial one by exactly the step relation, through
    /// intermediate steps that were all silent.
    pub fn run(&mut self, fuel: u64) -> (r: Result<RunEvent, UnknownInstruction>)
        requires
            old(self).wf(),
            !old(self)@.halted,
            old(self)@.pending is None,
        ensures
            final(self).wf(),
            match r {
                Ok(RunEvent::OutOfFuel) => {
                    &&& runs_to(old(self)@, final(self)@, fuel as nat)
                    &&& !final(self)@.halted
                    &&& final(self)@.pending is None
                },
                Ok(RunEvent::Emitted(e)) => exists|k: nat, mp: InterpModel, rd: Direction|
                    k < fuel && #[trigger] runs_to(old(self)@, mp, k) && #[trigger] step_model(
                        mp,
                        rd,
                    ) == (final(self)@, SpecEvent::Emitted(e)),
                Ok(RunEvent::Awaiting(n)) => final(self)@.pending == Some(n) && exists|
                    k: nat,
                    mp: InterpModel,
                    rd: Direction,
                |
                    k < fuel && #[trigger] runs_to(old(self)@, mp, k) && #[trigger] step_model(
                        mp,
                        rd,
                    ) == (final(self)@, SpecEvent::Awaiting(n)),
                Ok(RunEvent::Halted) => final(self)@.halted && exists|
                    k: nat,
                    mp: InterpModel,
                    rd: Direction,
                |
                    k < fuel && #[trigger] runs_to(old(self)@, mp, k) && #[trigger] step_model(
                        mp,
                        rd,
                    ) == (final(self)@, SpecEvent::Halted),
                Err(e) => {
                    &&& step_model(final(self)@, final(self)@.dir).1 == SpecEvent::Unknown
                    &&& e.instruction == current_cell(final(self)@)
                    &&& e.x == final(self)@.pos.x
                    &&& e.y == final(self)@.pos.y
                    &&& e.stack@ == final(self)@.stack
                    &&& e.dir == final(self)@.dir
                    &&& exists|k: nat| k < fuel && #[trigger] runs_to(old(self)@, final(self)@, k)
                },
            },
    {
        let ghost m0 = self@;
        let mut used: u64 = 0;
        proof {
            assert(runs_to(m0, self@, 0nat));
        }
        while used < fuel
            invariant
                m0 == old(self)@,
                self.wf(),
                !self@.halted,
                self@.pending is None,
                used <= fuel,
                runs_to(m0, self@, used as nat),
            decreases fuel - used,
        {
            let ghost pre = self@;
            let outcome = self.step();
            let ghost rd = self@.dir;
            match outcome {
                Ok(StepNote::Ran) => {
                    proof {
                        lemma_runs_to_snoc(m0, pre, rd, used as nat);
                    }
                    used = used + 1;
                },
                Ok(StepNote::Emitted(e)) => {
                    proof {
                        assert(exists|k: nat, mp: InterpModel, rdd: Direction|
                            k < fuel && #[trigger] runs_to(m0, mp, k) && #[trigger] step_model(
                                mp,
                                rdd,
                            ) == (self@, SpecEvent::Emitted(e))) by {
                            assert(runs_to(m0, pre, used as nat) && step_model(pre, rd) == (
                                self@,
                                SpecEvent::Emitted(e),
                            ));
                        }
                    }
                    return Ok(RunEvent::Emitted(e));
                },
                Ok(StepNote::Awaiting(n)) => {
                    proof {
                        assert(runs_to(m0, pre, used as nat) && step_model(pre, rd) == (
                            self@,
                            SpecEvent::Awaiting(n),
                        ));
                    }
                    return Ok(RunEvent::Awaiting(n));
                },
                Ok(StepNote::Halted) => {
                    proof {
                        assert(runs_to(m0, pre, used as nat) && step_model(pre, rd) == (
                            self@,
                            SpecEvent::Halted,
                        ));
                    }
                    return Ok(RunEvent::Halted);
                },
                Err(e) => {
                    proof {
                        assert(self@ == pre);
                        assert(exists|k: nat| k < fuel && #[trigger] runs_to(m0, self@, k)) by {
                            assert(runs_to(m0, self@, used as nat));
                        }
                    }
                    return Err(e);
                },
            }
        }
        Ok(RunEvent::OutOfFuel)
    }
}

/// What the caller must still do after [`Interp::run`] returns.
#[derive(Clone, Copy, PartialEq, Eq, Structural, Debug)]
pub enum RunEvent {
    /// A value to emit; then stepping may continue.
    Emitted(Emit),
    /// The engine waits for an answer through [`Interp::resume`].
    Awaiting(Need),
    /// The end instruction was reached.
    Halted,
    /// The fuel ran out with the program still running.
    OutOfFuel,
}

/// `m2` is reached from `m1` by exactly `k` silent steps of the step
/// relation (steps whose event is `Ran`, with any random draws).
pub open spec fn runs_to(m1: InterpModel, m2: InterpModel, k: nat) -> bool
    decreases k,
{
    if k == 0 {
        m1 == m2
    } else {
        exists|rd: Direction|
            #[trigger] step_model(m1, rd).1 == SpecEvent::Ran && runs_to(
                step_model(m1, rd).0,
                m2,
                (k - 1) as nat,
            )
    }
}

/// A silent step appended after a run extends the run by one.
pub proof fn lemma_runs_to_snoc(m1: InterpModel, m2: InterpModel, rd: Direction, k: nat)
    requires
        runs_to(m1, m2, k),
        step_model(m2, rd).1 == SpecEvent::Ran,
    ensures
        runs_to(m1, step_model(m2, rd).0, k + 1),
    decreases k,
{
    if k == 0 {
        assert(step_model(m1, rd).1 == SpecEvent::Ran);
        assert(runs_to(step_model(m1, rd).0, step_model(m2, rd).0, 0nat));
    } else {
        let rd0 = choose|rd0: Direction|
            #[trigger] step_model(m1, rd0).1 == SpecEvent::Ran && runs_to(
                step_model(m1, rd0).0,
                m2,
                (k - 1) as nat,
            );
        lemma_runs_to_snoc(step_model(m1, rd0).0, m2, rd, (k - 1) as nat);
        assert(step_model(m1, rd0).1 == SpecEvent::Ran && runs_to(
            step_model(m1, rd0).0,
            step_model(m2, rd).0,
            k,
        ));
    }
}

/// Reading an out-of-bounds cell with `g` consumes its two coordinates,
/// pushes exactly one zero, and never changes the grid.
pub proof fn lemma_get_out_of_bounds(m: InterpModel, rnd: Direction)
    requires
        model_wf(m),
        !m.halted,
        m.pending is None,
        !m.bridge,
        !m.stringmode,
        current_cell(m) == 103,  // 'g'
        !in_bounds(spec_pop(spec_pop(m.stack).1).0, spec_pop(m.stack).0),
    ensures
        step_model(m, rnd).0.grid == m.grid,
        step_model(m, rnd).0.stack == spec_pop(spec_pop(m.stack).1).1.push(0i64),
        step_model(m, rnd).1 == SpecEvent::Ran,
{
}

/// Stack underflow never aborts: `+` on an empty stack pushes `0 + 0 = 0`
/// and leaves the stack with exactly that one value.
pub proof fn lemma_add_on_empty_stack(m: InterpModel, rnd: Direction)
    requires
        model_wf(m),
        !m.halted,
        m.pending is None,
        !m.bridge,
        !m.stringmode,
        current_cell(m) == 43,  // '+'
        m.stack.len() == 0,
    ensures
        step_model(m, rnd).0.stack =~= seq![0i64],
        step_model(m, rnd).1 == SpecEvent::Ran,
{
    lemma_wrap_i64_identity(0);
}

/// The set of diagnostic and end-of-program options recognised at load.
/// Each toggles an optional emission or what is sent to the interface
/// process when the program halts.
#[derive(Clone, Copy, PartialEq, Eq, Structural, Debug)]
pub struct Flags {
    pub initlines: bool,
    pub postinit: bool,
    pub getdbg: bool,
    pub putdbg: bool,
    pub closeonend: bool,
    pub poststack: bool,
    pub noflush: bool,
}

impl Default for Flags {
    /// All options off.
    fn default() -> (r: Flags)
        ensures
            r == (Flags {
                initlines: false,
                postinit: false,
                getdbg: false,
                putdbg: false,
                closeonend: false,
                poststack: false,
                noflush: false,
            }),
    {
        Flags {
            initlines: false,
            postinit: false,
            getdbg: false,
            putdbg: false,
            closeonend: false,
            poststack: false,
            noflush: false,
        }
    }
}

/// What the halt instruction asks of the interface process.
#[derive(Clone, Copy, PartialEq, Eq, Structural, Debug)]
pub enum EndAction {
    /// Tell the interface processes to exit entirely.
    CloseUi,
    /// Ask the output interface to flush what it buffered.
    Flush,
    /// Nothing.
    Nothing,
}

/// The end-of-program behaviour that the flags select: closing the
/// interfaces wins over everything, suppressing the flush comes next, and
/// by default the output is flushed.
pub fn end_action(flags: Flags) -> (r: EndAction)
    ensures
        r == if flags.closeonend {
            EndAction::CloseUi
        } else if flags.noflush {
            EndAction::Nothing
        } else {
            EndAction::Flush
        },
{
    if flags.closeonend {
        EndAction::CloseUi
    } else if flags.noflush {
        EndAction::Nothing
    } else {
        EndAction::Flush
    }
}

} // verus!
