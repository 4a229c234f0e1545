//! The turtle interpreter: a state machine that consumes one instruction
//! per externally-triggered step.

use vstd::prelude::*;

use crate::instructions::Coord;
use crate::instructions::Direction;
use crate::instructions::Instruction;

verus! {

/// A line traced while the pen was down: the position immediately before
/// the step and the position immediately after it.
#[derive(Clone, Copy, Debug, PartialEq, Eq, Structural)]
pub struct Segment {
    pub x0: i64,
    pub y0: i64,
    pub x1: i64,
    pub y1: i64,
}

/// What happens when the program counter passes the last instruction:
/// wrap back to instruction 0, or stop for good.
#[derive(Clone, Copy, Debug, PartialEq, Eq, Structural)]
pub enum RunMode {
    SinglePass,
    Looping,
}

/// The result of one [`TurtleState::step`] call.
#[derive(Clone, Copy, Debug, PartialEq, Eq, Structural)]
pub enum StepOutcome {
    Advanced,
    Halted,
}

/// The whole execution state of the interpreter. The program is immutable
/// after construction; everything else changes only through [`Self::step`]
/// and [`Self::reset`].
pub struct TurtleState {
    pub program: Vec<Instruction>,
    pub position_x: i64,
    pub position_y: i64,
    pub heading: Direction,
    pub pen_down: bool,
    pub drawn_segments: Vec<Segment>,
    pub program_counter: usize,
    pub mode: RunMode,
}

/// `v` clamped to the representable range of `i64`.
pub open spec fn clamp_i64(v: int) -> int {
    if v > i64::MAX as int {
        i64::MAX as int
    } else if v < i64::MIN as int {
        i64::MIN as int
    } else {
        v
    }
}

/// What a coordinate argument resolves to against a viewport dimension:
/// an absolute value stands for itself, `Center` for half the dimension.
pub open spec fn resolve_coord(c: Coord, dim: int) -> int {
    match c {
        Coord::Absolute(v) => v as int,
        Coord::Center => dim / 2,
    }
}

/// The displacement of `Move(amount)` under heading `d`. Diagonal headings
/// move by `amount` along both axes (not distance-normalised); the y axis
/// grows downward, so `North` is negative y.
pub open spec fn move_delta(d: Direction, amount: i64) -> (int, int) {
    match d {
        Direction::North => (0, -(amount as int)),
        Direction::South => (0, amount as int),
        Direction::West => (-(amount as int), 0),
        Direction::East => (amount as int, 0),
        Direction::NorthEast => (amount as int, -(amount as int)),
        Direction::NorthWest => (-(amount as int), -(amount as int)),
        Direction::SouthEast => (amount as int, amount as int),
        Direction::SouthWest => (-(amount as int), amount as int),
    }
}

impl TurtleState {
    /// The program counter never runs past the end of the program, and in
    /// looping mode it never rests at the end (it wraps immediately).
    pub open spec fn wf(self) -> bool {
        &&& self.program_counter <= self.program@.len()
        &&& (self.mode == RunMode::Looping && self.program@.len() > 0 ==> self.program_counter
            < self.program@.len())
    }

    /// Everything but the program counter is the same in `post` as in `self`.
    pub open spec fn same_but_counter(self, post: Self) -> bool {
        &&& post.program@ == self.program@
        &&& post.position_x == self.position_x
        &&& post.position_y == self.position_y
        &&& post.heading == self.heading
        &&& post.pen_down == self.pen_down
        &&& post.drawn_segments@ == self.drawn_segments@
        &&& post.mode == self.mode
    }

    /// `post` is observably identical to `self`.
    pub open spec fn unchanged(self, post: Self) -> bool {
        &&& self.same_but_counter(post)
        &&& post.program_counter == self.program_counter
    }

    /// The drawn-segment history after a motion step from `self` to the
    /// position of `post`: one segment is appended exactly when the pen
    /// is down.
    pub open spec fn segments_after_motion(self, post: Self) -> Seq<Segment> {
        if self.pen_down {
            self.drawn_segments@.push(
                Segment {
                    x0: self.position_x,
                    y0: self.position_y,
                    x1: post.position_x,
                    y1: post.position_y,
                },
            )
        } else {
            self.drawn_segments@
        }
    }

    /// The effect of executing `ins` against viewport `(w, h)`, on every
    /// field except the program counter, program and mode.
    pub open spec fn instruction_effect(self, post: Self, ins: Instruction, w: int, h: int) -> bool {
        match ins {
            Instruction::Goto(cx, cy) => {
                &&& post.position_x == resolve_coord(cx, w)
                &&& post.position_y == resolve_coord(cy, h)
                &&& post.heading == self.heading
                &&& post.pen_down == self.pen_down
                &&& post.drawn_segments@ == self.segments_after_motion(post)
            },
            Instruction::Face(d) => {
                &&& post.position_x == self.position_x
                &&& post.position_y == self.position_y
                &&& post.heading == d
                &&& post.pen_down == self.pen_down
                &&& post.drawn_segments@ == self.drawn_segments@
            },
            Instruction::Move(amount) => {
                let delta = move_delta(self.heading, amount);
                &&& post.position_x == clamp_i64(self.position_x + delta.0)
                &&& post.position_y == clamp_i64(self.position_y + delta.1)
                &&& post.heading == self.heading
                &&& post.pen_down == self.pen_down
                &&& post.drawn_segments@ == self.segments_after_motion(post)
            },
            Instruction::Pen(down) => {
                &&& post.position_x == self.position_x
                &&& post.position_y == self.position_y
                &&& post.heading == self.heading
                &&& post.pen_down == down
                &&& post.drawn_segments@ == self.drawn_segments@
            },
            Instruction::Clear => {
                &&& post.position_x == self.position_x
                &&& post.position_y == self.position_y
                &&& post.heading == self.heading
                &&& post.pen_down == self.pen_down
                &&& post.drawn_segments@ == Seq::<Segment>::empty()
            },
        }
    }

    /// The program counter after an advancing step: one further, except
    /// that looping mode wraps the end of the program to 0.
    pub open spec fn next_counter(self) -> int {
        if self.program_counter + 1 == self.program@.len() && self.mode == RunMode::Looping {
            0
        } else {
            self.program_counter + 1
        }
    }

    /// The full step relation: a halted step changes nothing, an advancing
    /// step applies the instruction under the counter and then moves the
    /// counter.
    pub open spec fn step_rel(self, post: Self, r: StepOutcome, w: int, h: int) -> bool {
        if self.program_counter >= self.program@.len() {
            &&& r == StepOutcome::Halted
            &&& self.unchanged(post)
        } else {
            &&& r == StepOutcome::Advanced
            &&& self.instruction_effect(post, self.program@[self.program_counter as int], w, h)
            &&& post.program@ == self.program@
            &&& post.mode == self.mode
            &&& post.program_counter == self.next_counter()
        }
    }

    /// A fresh interpreter over `program`: the turtle rests at the centre
    /// of the viewport, heading north, pen up, nothing drawn yet.
    pub fn new(program: Vec<Instruction>, mode: RunMode, width: i64, height: i64) -> (s: Self)
        requires
            width >= 0,
            height >= 0,
        ensures
            s.wf(),
            s.program@ == program@,
            s.position_x == width as int / 2,
            s.position_y == height as int / 2,
            s.heading == Direction::North,
            s.pen_down == false,
            s.drawn_segments@ == Seq::<Segment>::empty(),
            s.program_counter == 0,
            s.mode == mode,
    {
        let s = TurtleState {
            program,
            position_x: width / 2,
            position_y: height / 2,
            heading: Direction::North,
            pen_down: false,
            drawn_segments: Vec::new(),
            program_counter: 0,
            mode,
        };
        s
    }

    /// Execute the instruction under the program counter against the given
    /// viewport, or report `Halted` (leaving the state untouched) when the
    /// counter stands past the end of the program.
    pub fn step(&mut self, width: i64, height: i64) -> (r: StepOutcome)
        requires
            old(self).wf(),
            width >= 0,
            height >= 0,
        ensures
            final(self).wf(),
            old(self).step_rel(*final(self), r, width as int, height as int),
    {
        if self.program_counter >= self.program.len() {
            return StepOutcome::Halted;
        }
        let ins = self.program[self.program_counter];
        let previous_x = self.position_x;
        let previous_y = self.position_y;

        match ins {
            Instruction::Goto(cx, cy) => {
                self.position_x = resolve_coord_exec(cx, width);
                self.position_y = resolve_coord_exec(cy, height);
                if self.pen_down {
                    self.drawn_segments.push(
                        Segment {
                            x0: previous_x,
                            y0: previous_y,
                            x1: self.position_x,
                            y1: self.position_y,
                        },
                    );
                }
            },
            Instruction::Face(d) => {
                self.heading = d;
            },
            Instruction::Move(amount) => {
                match self.heading {
                    Direction::North => {
                        self.position_y = sat_sub(self.position_y, amount);
                    },
                    Direction::South => {
                        self.position_y = sat_add(self.position_y, amount);
                    },
                    Direction::West => {
                        self.position_x = sat_sub(self.position_x, amount);
                    },
                    Direction::East => {
                        self.position_x = sat_add(self.position_x, amount);
                    },
                    Direction::NorthEast => {
                        self.position_x = sat_add(self.position_x, amount);
                        self.position_y = sat_sub(self.position_y, amount);
                    },
                    Direction::NorthWest => {
                        self.position_x = sat_sub(self.position_x, amount);
                        self.position_y = sat_sub(self.position_y, amount);
                    },
                    Direction::SouthEast => {
                        self.position_x = sat_add(self.position_x, amount);
                        self.position_y = sat_add(self.position_y, amount);
                    },
                    Direction::SouthWest => {
                        self.position_x = sat_sub(self.position_x, amount);
                        self.position_y = sat_add(self.position_y, amount);
                    },
                }
                if self.pen_down {
                    self.drawn_segments.push(
                        Segment {
                            x0: previous_x,
                            y0: previous_y,
                            x1: self.position_x,
                            y1: self.position_y,
                        },
                    );
                }
            },
            Instruction::Pen(down) => {
                self.pen_down = down;
            },
            Instruction::Clear => {
                self.drawn_segments = Vec::new();
            },
        }

        let next = self.program_counter + 1;
        if next == self.program.len() && self.mode == RunMode::Looping {
            self.program_counter = 0;
        } else {
            self.program_counter = next;
        }
        StepOutcome::Advanced
    }

    /// Rewind the program counter to 0; position, heading, pen state and
    /// the drawing history are all kept as they are.
    pub fn reset(&mut self)
        ensures
            final(self).wf(),
            old(self).same_but_counter(*final(self)),
            final(self).program_counter == 0,
    {
        self.program_counter = 0;
    }

    /// The instruction the next `step` would execute, if any.
    pub fn current_instruction(&self) -> (r: Option<Instruction>)
        ensures
            r == if self.program_counter < self.program@.len() {
                Some(self.program@[self.program_counter as int])
            } else {
                Option::<Instruction>::None
            },
    {
        if self.program_counter < self.program.len() {
            Some(self.program[self.program_counter])
        } else {
            None
        }
    }
}

/// Stepping past the end of the program reports `Halted` and leaves the
/// whole state exactly as it was, however often it is repeated.
pub proof fn lemma_step_past_end(pre: TurtleState, post: TurtleState, r: StepOutcome, w: int, h: int)
    requires
        pre.step_rel(post, r, w, h),
        pre.program_counter >= pre.program@.len(),
    ensures
        r == StepOutcome::Halted,
        pre.unchanged(post),
{
}

/// In looping mode a step from the last instruction wraps the counter
/// back to instruction 0, so the run never halts.
pub proof fn lemma_looping_wraps(pre: TurtleState, post: TurtleState, r: StepOutcome, w: int, h: int)
    requires
        pre.step_rel(post, r, w, h),
        pre.mode == RunMode::Looping,
        pre.program_counter + 1 == pre.program@.len(),
    ensures
        r == StepOutcome::Advanced,
        post.program_counter == 0,
{
}

/// Clearing discards only the drawing history: the pose survives, and a
/// pen-down move straight after a clear draws its one fresh segment from
/// the position the turtle held before the clear.
pub proof fn lemma_clear_then_move(
    s0: TurtleState,
    s1: TurtleState,
    s2: TurtleState,
    r1: StepOutcome,
    r2: StepOutcome,
    w1: int,
    h1: int,
    w2: int,
    h2: int,
)
    requires
        s0.program_counter < s0.program@.len(),
        s0.program@[s0.program_counter as int] == Instruction::Clear,
        s0.step_rel(s1, r1, w1, h1),
        s1.program_counter < s1.program@.len(),
        s1.program@[s1.program_counter as int] matches Instruction::Move(_),
        s1.pen_down,
        s1.step_rel(s2, r2, w2, h2),
    ensures
        s1.position_x == s0.position_x,
        s1.position_y == s0.position_y,
        s1.heading == s0.heading,
        s1.pen_down == s0.pen_down,
        s1.drawn_segments@.len() == 0,
        s2.drawn_segments@ =~= seq![
            Segment {
                x0: s0.position_x,
                y0: s0.position_y,
                x1: s2.position_x,
                y1: s2.position_y,
            },
        ],
{
}

/// Resolve a coordinate argument against one viewport dimension.
fn resolve_coord_exec(c: Coord, dim: i64) -> (r: i64)
    requires
        dim >= 0,
    ensures
        r as int == resolve_coord(c, dim as int),
{
    match c {
        Coord::Absolute(v) => v,
        Coord::Center => dim / 2,
    }
}

/// `a + b`, clamped at the ends of the `i64` range instead of wrapping.
fn sat_add(a: i64, b: i64) -> (r: i64)
    ensures
        r as int == clamp_i64(a + b),
{
    if b >= 0 {
        if a <= i64::MAX - b {
            a + b
        } else {
            i64::MAX
        }
    } else {
        if a >= i64::MIN - b {
            a + b
        } else {
            i64::MIN
        }
    }
}

/// `a - b`, clamped at the ends of the `i64` range instead of wrapping.
fn sat_sub(a: i64, b: i64) -> (r: i64)
    ensures
        r as int == clamp_i64(a - b),
{
    if b <= 0 {
        if a <= i64::MAX + b {
            a - b
        } else {
            i64::MAX
        }
    } else {
        if a >= i64::MIN + b {
            a - b
        } else {
            i64::MIN
        }
    }
}

} // verus!
