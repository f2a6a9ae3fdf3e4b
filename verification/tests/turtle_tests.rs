use ellex_core::optimized_runtime::TurtleCommand;
use ellex_core::turtle::{reply_of, STEP};
use ellex_core::TurtleGraphics;

#[test]
fn a_fresh_turtle_sits_at_the_origin() {
    let turtle = TurtleGraphics::new();
    assert_eq!(turtle.position(), (0, 0));
    assert_eq!(turtle.angle(), 0);
    assert!(turtle.is_pen_down());
    assert_eq!(turtle.get_color(), "black");
    assert!(turtle.get_lines().is_empty());
    assert_eq!(STEP, 10);
}

#[test]
fn the_turtle_walks_a_square() {
    let mut turtle = TurtleGraphics::new();
    let mut corners = Vec::new();
    for _ in 0..4 {
        assert!(turtle.forward(5));
        turtle.turn_right();
        corners.push((turtle.position(), turtle.angle()));
    }
    assert_eq!(corners, vec![((5, 0), 90), ((5, 5), 180), ((0, 5), 270), ((0, 0), 0)]);
    let lines = turtle.get_lines();
    assert_eq!(lines.len(), 4);
    assert_eq!((lines[3].from, lines[3].to), ((0, 5), (0, 0)));
}

#[test]
fn turns_count_in_quarters_either_way() {
    let mut turtle = TurtleGraphics::new();
    turtle.turn_left();
    assert_eq!(turtle.angle(), 270);
    turtle.turn(-6);
    assert_eq!(turtle.angle(), 90);
    turtle.turn(7);
    assert_eq!(turtle.angle(), 0);
    turtle.turn(i64::MIN);
    assert_eq!(turtle.angle(), 0);
    turtle.turn(i64::MAX);
    assert_eq!(turtle.angle(), 270);
    assert!(turtle.move_forward(3));
    assert_eq!(turtle.position(), (0, -3));
    assert!(turtle.move_forward(-5));
    assert_eq!(turtle.position(), (0, 2));
}

#[test]
fn the_pen_draws_only_when_it_is_down() {
    let mut turtle = TurtleGraphics::new();
    turtle.pen_up();
    assert!(!turtle.is_pen_down());
    turtle.goto(3, 4);
    assert!(turtle.get_lines().is_empty());
    turtle.set_pen(true);
    turtle.set_color("red");
    turtle.home();
    let lines = turtle.get_lines().to_vec();
    assert_eq!(lines.len(), 1);
    assert_eq!((lines[0].from, lines[0].to), ((3, 4), (0, 0)));
    assert_eq!(lines[0].color, "red");
    assert_eq!(turtle.get_color(), "red");
    turtle.clear_drawing();
    assert!(turtle.get_lines().is_empty());
    assert_eq!(turtle.get_color(), "red");
    turtle.reset();
    assert_eq!(turtle.get_color(), "black");
}

#[test]
fn a_move_off_the_canvas_is_not_made() {
    let mut turtle = TurtleGraphics::new();
    turtle.goto(i64::MAX - 5, 0);
    let drawn = turtle.get_lines().len();
    assert!(!turtle.perform(TurtleCommand::Forward));
    assert_eq!(turtle.position(), (i64::MAX - 5, 0));
    assert_eq!(turtle.get_lines().len(), drawn);
    assert!(turtle.move_forward(5));
    assert_eq!(turtle.position(), (i64::MAX, 0));
    assert!(!turtle.move_forward(1));
    assert!(turtle.perform(TurtleCommand::TurnLeft));
    assert!(turtle.perform(TurtleCommand::TurnLeft));
    assert!(!turtle.move_forward(i64::MIN));
    turtle.goto(i64::MIN, i64::MIN);
    assert!(!turtle.move_forward(1));
    assert!(turtle.perform(TurtleCommand::PenUp));
    assert!(turtle.perform(TurtleCommand::PenDown));
}

#[test]
fn every_primitive_has_its_reply() {
    assert_eq!(reply_of(TurtleCommand::Forward), "Turtle moved forward");
    assert_eq!(reply_of(TurtleCommand::TurnRight), "Turtle turned right");
    assert_eq!(reply_of(TurtleCommand::TurnLeft), "Turtle turned left");
    assert_eq!(reply_of(TurtleCommand::PenUp), "Pen up");
    assert_eq!(reply_of(TurtleCommand::PenDown), "Pen down");
}
