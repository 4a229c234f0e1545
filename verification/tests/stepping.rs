use turtle::instructions::parse_file;
use turtle::instructions::Direction;
use turtle::instructions::Instruction;
use turtle::instructions::SCALE;
use turtle::state::RunMode;
use turtle::state::Segment;
use turtle::state::StepOutcome;
use turtle::state::TurtleState;

fn machine(source: &str, mode: RunMode) -> TurtleState {
    let prog = parse_file(source).expect("program should parse");
    TurtleState::new(prog, mode, 0, 0)
}

#[test]
fn move_north_with_pen_down_draws_a_segment() {
    let mut t = machine("pen down\nmove 10", RunMode::SinglePass);
    assert_eq!(t.step(0, 0), StepOutcome::Advanced);
    assert_eq!(t.step(0, 0), StepOutcome::Advanced);
    assert_eq!((t.position_x, t.position_y), (0, -10 * SCALE));
    assert_eq!(t.drawn_segments, vec![Segment { x0: 0, y0: 0, x1: 0, y1: -10 * SCALE }]);
}

#[test]
fn move_north_east_is_not_distance_normalised() {
    let mut t = machine("face northeast\nmove 10", RunMode::SinglePass);
    t.step(0, 0);
    t.step(0, 0);
    assert_eq!((t.position_x, t.position_y), (10 * SCALE, -10 * SCALE));
}

#[test]
fn clear_only_empties_the_drawing_history() {
    let mut t = machine("pen down\nmove 10\nclear\nmove 10", RunMode::SinglePass);
    t.step(0, 0);
    t.step(0, 0);
    t.step(0, 0);
    assert_eq!(t.drawn_segments, vec![]);
    assert_eq!((t.position_x, t.position_y), (0, -10 * SCALE));
    assert_eq!(t.heading, Direction::North);
    assert!(t.pen_down);
    t.step(0, 0);
    assert_eq!(
        t.drawn_segments,
        vec![Segment { x0: 0, y0: -10 * SCALE, x1: 0, y1: -20 * SCALE }]
    );
}

#[test]
fn single_pass_halts_past_the_end() {
    let mut t = machine("move 1", RunMode::SinglePass);
    assert_eq!(t.step(0, 0), StepOutcome::Advanced);
    assert_eq!(t.program_counter, 1);
    let position_before = (t.position_x, t.position_y);
    assert_eq!(t.step(0, 0), StepOutcome::Halted);
    assert_eq!(t.step(0, 0), StepOutcome::Halted);
    assert_eq!((t.position_x, t.position_y), position_before);
    assert_eq!(t.program_counter, 1);
}

#[test]
fn looping_mode_wraps_to_instruction_zero() {
    let mut t = machine("move 1", RunMode::Looping);
    assert_eq!(t.step(0, 0), StepOutcome::Advanced);
    assert_eq!(t.program_counter, 0);
    assert_eq!(t.position_y, -SCALE);
    assert_eq!(t.step(0, 0), StepOutcome::Advanced);
    assert_eq!(t.position_y, -2 * SCALE);
}

#[test]
fn reset_only_rewinds_the_counter() {
    let mut t = machine("pen down\nmove 10", RunMode::SinglePass);
    t.step(0, 0);
    t.step(0, 0);
    t.reset();
    assert_eq!(t.program_counter, 0);
    assert_eq!((t.position_x, t.position_y), (0, -10 * SCALE));
    assert!(t.pen_down);
    assert_eq!(t.heading, Direction::North);
    assert_eq!(t.drawn_segments.len(), 1);
}

#[test]
fn goto_center_resolves_against_the_live_viewport() {
    let mut t = machine("goto center\ngoto center", RunMode::SinglePass);
    t.step(600 * SCALE, 400 * SCALE);
    assert_eq!((t.position_x, t.position_y), (300 * SCALE, 200 * SCALE));
    // the window changed size between steps
    t.step(100 * SCALE, 50 * SCALE);
    assert_eq!((t.position_x, t.position_y), (50 * SCALE, 25 * SCALE));
}

#[test]
fn goto_with_pen_down_draws_the_jump() {
    let mut t = machine("pen down\ngoto 5 7", RunMode::SinglePass);
    t.step(0, 0);
    t.step(0, 0);
    assert_eq!(
        t.drawn_segments,
        vec![Segment { x0: 0, y0: 0, x1: 5 * SCALE, y1: 7 * SCALE }]
    );
}

#[test]
fn new_starts_centred_heading_north_pen_up() {
    let t = TurtleState::new(vec![], RunMode::SinglePass, 600 * SCALE, 400 * SCALE);
    assert_eq!((t.position_x, t.position_y), (300 * SCALE, 200 * SCALE));
    assert_eq!(t.heading, Direction::North);
    assert!(!t.pen_down);
    assert_eq!(t.program_counter, 0);
    assert!(t.drawn_segments.is_empty());
}

#[test]
fn empty_program_halts_immediately() {
    let mut t = TurtleState::new(vec![], RunMode::Looping, 0, 0);
    assert_eq!(t.step(0, 0), StepOutcome::Halted);
}

#[test]
fn motion_saturates_at_the_fixed_point_range() {
    let mut t = TurtleState::new(
        vec![Instruction::Move(i64::MAX), Instruction::Move(i64::MAX)],
        RunMode::SinglePass,
        0,
        0,
    );
    t.heading = Direction::South;
    t.step(0, 0);
    assert_eq!(t.position_y, i64::MAX);
    t.step(0, 0);
    assert_eq!(t.position_y, i64::MAX);
}

#[test]
fn current_instruction_reports_what_runs_next() {
    let mut t = machine("pen down\nmove 1", RunMode::SinglePass);
    assert_eq!(t.current_instruction(), Some(Instruction::Pen(true)));
    t.step(0, 0);
    assert_eq!(t.current_instruction(), Some(Instruction::Move(SCALE)));
    t.step(0, 0);
    assert_eq!(t.current_instruction(), None);
}

#[test]
fn negative_move_walks_backward() {
    let mut t = machine("face east\nmove -2.5", RunMode::SinglePass);
    t.step(0, 0);
    t.step(0, 0);
    assert_eq!(t.position_x, -(2 * SCALE + SCALE / 2));
    assert_eq!(t.position_y, 0);
}
