//! Turtle graphics on a lattice: the turtle looks along one of the four
//! axes, turns by quarter turns and moves by whole units, so its position
//! is exact.

use crate::optimized_runtime::TurtleCommand;
use vstd::prelude::*;

verus! {

/// One stroke of the pen.
#[derive(Debug)]
pub struct Line {
    pub from: (i64, i64),
    pub to: (i64, i64),
    pub color: String,
}

/// The model of a stroke.
pub struct LineModel {
    pub from: (int, int),
    pub to: (int, int),
    pub color: Seq<char>,
}

impl View for Line {
    type V = LineModel;

    open spec fn view(&self) -> LineModel {
        LineModel {
            from: (self.from.0 as int, self.from.1 as int),
            to: (self.to.0 as int, self.to.1 as int),
            color: self.color@,
        }
    }
}

impl Clone for Line {
    fn clone(&self) -> (line: Self)
        ensures
            line@ == self@,
    {
        Line { from: (self.from.0, self.from.1), to: (self.to.0, self.to.1), color: self.color.clone() }
    }
}

pub open spec fn lines_model(lines: Seq<Line>) -> Seq<LineModel> {
    Seq::new(lines.len(), |i: int| lines[i]@)
}

/// The model of a turtle.
pub struct TurtleModel {
    pub x: int,
    pub y: int,
    /// The heading in quarter turns, from 0 to 3: along x, along y, against
    /// x, against y.
    pub quarter: int,
    pub pen_down: bool,
    pub color: Seq<char>,
    /// The strokes drawn so far, oldest first.
    pub lines: Seq<LineModel>,
}

/// The distance that one `forward` primitive moves the turtle.
pub const STEP: i64 = 10;

/// The change of x for one unit along the heading `quarter`.
pub open spec fn heading_x(quarter: int) -> int {
    if quarter == 0 {
        1
    } else if quarter == 2 {
        -1
    } else {
        0
    }
}

/// The change of y for one unit along the heading `quarter`.
pub open spec fn heading_y(quarter: int) -> int {
    if quarter == 1 {
        1
    } else if quarter == 3 {
        -1
    } else {
        0
    }
}

/// The position is one that a turtle can hold.
pub open spec fn on_canvas(x: int, y: int) -> bool {
    i64::MIN <= x <= i64::MAX && i64::MIN <= y <= i64::MAX
}

impl TurtleModel {
    /// A turtle at the origin that looks along x, pen down, black, nothing
    /// drawn.
    pub open spec fn fresh() -> TurtleModel {
        TurtleModel { x: 0, y: 0, quarter: 0, pen_down: true, color: "black"@, lines: Seq::empty() }
    }

    pub open spec fn well_formed(self) -> bool {
        0 <= self.quarter < 4 && on_canvas(self.x, self.y)
    }

    /// The turtle at `(x, y)`; with the pen down the way there is drawn.
    pub open spec fn at(self, x: int, y: int) -> TurtleModel {
        TurtleModel {
            x,
            y,
            lines: if self.pen_down {
                self.lines.push(LineModel { from: (self.x, self.y), to: (x, y), color: self.color })
            } else {
                self.lines
            },
            ..self
        }
    }

    /// The turtle after `distance` units along its heading, if that is still
    /// on the canvas.
    pub open spec fn moved(self, distance: int) -> Option<TurtleModel> {
        let x = self.x + distance * heading_x(self.quarter);
        let y = self.y + distance * heading_y(self.quarter);
        if on_canvas(x, y) {
            Some(self.at(x, y))
        } else {
            None
        }
    }

    /// The turtle after `quarters` quarter turns; a negative number turns
    /// the other way.
    pub open spec fn turned(self, quarters: int) -> TurtleModel {
        TurtleModel { quarter: (self.quarter + quarters) % 4, ..self }
    }

    pub open spec fn with_pen(self, down: bool) -> TurtleModel {
        TurtleModel { pen_down: down, ..self }
    }

    /// The turtle after a primitive of a program, if it stays on the canvas:
    /// forward is `STEP` units, a turn is a quarter turn.
    pub open spec fn performed(self, command: TurtleCommand) -> Option<TurtleModel> {
        match command {
            TurtleCommand::Forward => self.moved(STEP as int),
            TurtleCommand::TurnRight => Some(self.turned(1)),
            TurtleCommand::TurnLeft => Some(self.turned(-1)),
            TurtleCommand::PenUp => Some(self.with_pen(false)),
            TurtleCommand::PenDown => Some(self.with_pen(true)),
        }
    }
}

/// What a program is told after a primitive.
pub open spec fn reply(command: TurtleCommand) -> Seq<char> {
    match command {
        TurtleCommand::Forward => "Turtle moved forward"@,
        TurtleCommand::TurnRight => "Turtle turned right"@,
        TurtleCommand::TurnLeft => "Turtle turned left"@,
        TurtleCommand::PenUp => "Pen up"@,
        TurtleCommand::PenDown => "Pen down"@,
    }
}

/// What a program is told after a primitive.
pub fn reply_of(command: TurtleCommand) -> (s: String)
    ensures
        s@ == reply(command),
{
    match command {
        TurtleCommand::Forward => String::from_str("Turtle moved forward"),
        TurtleCommand::TurnRight => String::from_str("Turtle turned right"),
        TurtleCommand::TurnLeft => String::from_str("Turtle turned left"),
        TurtleCommand::PenUp => String::from_str("Pen up"),
        TurtleCommand::PenDown => String::from_str("Pen down"),
    }
}

/// The state of the turtle.
#[derive(Debug)]
pub struct TurtleGraphics {
    x: i64,
    y: i64,
    quarter: u8,
    pen_down: bool,
    color: String,
    lines: Vec<Line>,
}

impl View for TurtleGraphics {
    type V = TurtleModel;

    closed spec fn view(&self) -> TurtleModel {
        TurtleModel {
            x: self.x as int,
            y: self.y as int,
            quarter: self.quarter as int,
            pen_down: self.pen_down,
            color: self.color@,
            lines: lines_model(self.lines@),
        }
    }
}

impl TurtleGraphics {
    #[verifier::type_invariant]
    spec fn heading_is_a_quarter(&self) -> bool {
        self.quarter < 4
    }

    pub fn new() -> (t: Self)
        ensures
            t@ == TurtleModel::fresh(),
    {
        let t = TurtleGraphics {
            x: 0,
            y: 0,
            quarter: 0,
            pen_down: true,
            color: String::from_str("black"),
            lines: Vec::new(),
        };
        assert(t@.lines =~= Seq::empty());
        t
    }

    /// Moves to `(x, y)`, drawing the way with the pen down.
    pub fn goto(&mut self, x: i64, y: i64)
        ensures
            final(self)@ == old(self)@.at(x as int, y as int),
    {
        proof {
            use_type_invariant(&*self);
        }
        let mut lines: Vec<Line> = Vec::new();
        std::mem::swap(&mut lines, &mut self.lines);
        if self.pen_down {
            lines.push(Line { from: (self.x, self.y), to: (x, y), color: self.color.clone() });
        }
        std::mem::swap(&mut lines, &mut self.lines);
        self.x = x;
        self.y = y;
        assert(self@.lines =~= old(self)@.at(x as int, y as int).lines);
    }

    /// Moves back to the origin, drawing the way with the pen down.
    pub fn home(&mut self)
        ensures
            final(self)@ == old(self)@.at(0, 0),
    {
        self.goto(0, 0);
    }

    /// Moves `distance` units along the heading and says whether it did: a
    /// move that would leave the canvas is not made.
    pub fn move_forward(&mut self, distance: i64) -> (moved: bool)
        ensures
            match old(self)@.moved(distance as int) {
                Some(t) => moved && final(self)@ == t,
                None => !moved && final(self)@ == old(self)@,
            },
    {
        proof {
            use_type_invariant(&*self);
        }
        let target: Option<(i64, i64)> = if self.quarter == 0 {
            match self.x.checked_add(distance) {
                Some(x) => Some((x, self.y)),
                None => None,
            }
        } else if self.quarter == 1 {
            match self.y.checked_add(distance) {
                Some(y) => Some((self.x, y)),
                None => None,
            }
        } else if self.quarter == 2 {
            match self.x.checked_sub(distance) {
                Some(x) => Some((x, self.y)),
                None => None,
            }
        } else {
            match self.y.checked_sub(distance) {
                Some(y) => Some((self.x, y)),
                None => None,
            }
        };
        match target {
            Some((x, y)) => {
                self.goto(x, y);
                true
            },
            None => false,
        }
    }

    /// The same as `move_forward`.
    pub fn forward(&mut self, distance: i64) -> (moved: bool)
        ensures
            match old(self)@.moved(distance as int) {
                Some(t) => moved && final(self)@ == t,
                None => !moved && final(self)@ == old(self)@,
            },
    {
        self.move_forward(distance)
    }

    /// Turns by `quarters` quarter turns; a negative number turns the other
    /// way.
    pub fn turn(&mut self, quarters: i64)
        ensures
            final(self)@ == old(self)@.turned(quarters as int),
    {
        proof {
            use_type_invariant(&*self);
        }
        let q: i64 = match self.quarter {
            0 => 0,
            1 => 1,
            2 => 2,
            _ => 3,
        };
        let r: i64 = ((quarters % 4) + 4 + q) % 4;
        assert(r == (q + quarters) % 4) by (nonlinear_arith)
            requires
                r == ((quarters % 4) + 4 + q) % 4,
                0 <= q < 4,
        ;
        self.quarter = if r == 0 {
            0
        } else if r == 1 {
            1
        } else if r == 2 {
            2
        } else {
            3
        };
    }

    /// A quarter turn to the right.
    pub fn turn_right(&mut self)
        ensures
            final(self)@ == old(self)@.turned(1),
    {
        self.turn(1);
    }

    /// A quarter turn to the left.
    pub fn turn_left(&mut self)
        ensures
            final(self)@ == old(self)@.turned(-1),
    {
        self.turn(-1);
    }

    pub fn set_pen(&mut self, down: bool)
        ensures
            final(self)@ == old(self)@.with_pen(down),
    {
        proof {
            use_type_invariant(&*self);
        }
        self.pen_down = down;
    }

    pub fn pen_up(&mut self)
        ensures
            final(self)@ == old(self)@.with_pen(false),
    {
        self.set_pen(false);
    }

    pub fn pen_down(&mut self)
        ensures
            final(self)@ == old(self)@.with_pen(true),
    {
        self.set_pen(true);
    }

    pub fn set_color(&mut self, color: &str)
        ensures
            final(self)@ == (TurtleModel { color: color@, ..old(self)@ }),
    {
        proof {
            use_type_invariant(&*self);
        }
        let mut fresh = String::new();
        crate::text::push_text(&mut fresh, color);
        assert(fresh@ =~= color@);
        std::mem::swap(&mut fresh, &mut self.color);
    }

    pub fn position(&self) -> (p: (i64, i64))
        ensures
            p.0 == self@.x,
            p.1 == self@.y,
            self@.well_formed(),
    {
        proof {
            use_type_invariant(self);
        }
        (self.x, self.y)
    }

    /// The heading in degrees: 0, 90, 180 or 270.
    pub fn angle(&self) -> (degrees: u16)
        ensures
            degrees == self@.quarter * 90,
    {
        proof {
            use_type_invariant(self);
        }
        match self.quarter {
            0 => 0,
            1 => 90,
            2 => 180,
            _ => 270,
        }
    }

    pub fn is_pen_down(&self) -> (down: bool)
        ensures
            down == self@.pen_down,
    {
        self.pen_down
    }

    pub fn get_color(&self) -> (color: &str)
        ensures
            color@ == self@.color,
    {
        self.color.as_str()
    }

    pub fn get_lines(&self) -> (lines: &[Line])
        ensures
            lines_model(lines@) == self@.lines,
    {
        self.lines.as_slice()
    }

    /// Back to a fresh turtle.
    pub fn reset(&mut self)
        ensures
            final(self)@ == TurtleModel::fresh(),
    {
        *self = TurtleGraphics::new();
    }

    /// Forgets what was drawn.
    pub fn clear_drawing(&mut self)
        ensures
            final(self)@ == (TurtleModel { lines: Seq::empty(), ..old(self)@ }),
    {
        proof {
            use_type_invariant(&*self);
        }
        let mut lines: Vec<Line> = Vec::new();
        std::mem::swap(&mut lines, &mut self.lines);
        assert(self@.lines =~= Seq::empty());
    }

    /// Performs a primitive of a program and says whether it did: a move
    /// that would leave the canvas is not made.
    pub fn perform(&mut self, command: TurtleCommand) -> (done: bool)
        ensures
            match old(self)@.performed(command) {
                Some(t) => done && final(self)@ == t,
                None => !done && final(self)@ == old(self)@,
            },
    {
        match command {
            TurtleCommand::Forward => self.move_forward(STEP),
            TurtleCommand::TurnRight => {
                self.turn_right();
                true
            },
            TurtleCommand::TurnLeft => {
                self.turn_left();
                true
            },
            TurtleCommand::PenUp => {
                self.pen_up();
                true
            },
            TurtleCommand::PenDown => {
                self.pen_down();
                true
            },
        }
    }
}

} // verus!
