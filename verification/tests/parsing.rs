use turtle::instructions::Coord;
use turtle::instructions::Direction;
use turtle::instructions::DirectionScheme;
use turtle::instructions::Instruction;
use turtle::instructions::ParseError;
use turtle::instructions::parse_file;
use turtle::instructions::parse_program;
use turtle::instructions::SCALE;

fn chars(s: &str) -> Vec<char> {
    s.chars().collect()
}

#[test]
fn coord_center_round_trip() {
    assert_eq!(Coord::try_from("Center"), Ok(Coord::Center));
    assert_eq!(Coord::try_from("CENTER"), Ok(Coord::Center));
    assert_eq!(Coord::try_from("center"), Ok(Coord::Center));
}

#[test]
fn coord_absolute_round_trip() {
    assert_eq!(Coord::try_from("12.5"), Ok(Coord::Absolute(12 * SCALE + SCALE / 2)));
    assert_eq!(Coord::try_from("0"), Ok(Coord::Absolute(0)));
    assert_eq!(Coord::try_from("-3"), Ok(Coord::Absolute(-3 * SCALE)));
}

#[test]
fn coord_invalid() {
    assert_eq!(Coord::try_from("abc"), Err(ParseError::InvalidCoordinate(chars("abc"))));
}

#[test]
fn goto_center_defaults_both_axes() {
    assert_eq!(
        Instruction::try_from("goto center"),
        Ok(Instruction::Goto(Coord::Center, Coord::Center))
    );
}

#[test]
fn goto_center_with_explicit_y() {
    assert_eq!(
        Instruction::try_from("goto center 5"),
        Ok(Instruction::Goto(Coord::Center, Coord::Absolute(5 * SCALE)))
    );
}

#[test]
fn goto_absolute_missing_y() {
    assert_eq!(
        Instruction::try_from("goto 5"),
        Err(ParseError::MissingParameter(chars("y")))
    );
}

#[test]
fn goto_two_absolutes() {
    assert_eq!(
        Instruction::try_from("goto 5 6"),
        Ok(Instruction::Goto(Coord::Absolute(5 * SCALE), Coord::Absolute(6 * SCALE)))
    );
}

#[test]
fn goto_bad_coordinate() {
    assert_eq!(
        Instruction::try_from("goto x 5"),
        Err(ParseError::InvalidCoordinate(chars("x")))
    );
}

#[test]
fn goto_too_many_parameters() {
    assert_eq!(Instruction::try_from("goto 1 2 3"), Err(ParseError::TooManyParameters));
}

#[test]
fn unknown_operation_names_token() {
    let r = parse_file("teleport 1 2");
    assert_eq!(r, Err(ParseError::UnknownOperation(chars("teleport"))));
}

#[test]
fn program_length_counts_significant_lines() {
    let prog = parse_file("pen down\n\n// a comment\nmove 10\n").unwrap();
    assert_eq!(prog.len(), 2);
    assert_eq!(prog[0], Instruction::Pen(true));
    assert_eq!(prog[1], Instruction::Move(10 * SCALE));
}

#[test]
fn comment_only_program_is_empty() {
    assert_eq!(parse_file("// hi\n//also this\n"), Ok(vec![]));
    assert_eq!(parse_file(""), Ok(vec![]));
    assert_eq!(parse_file("   \n\t\n"), Ok(vec![]));
}

#[test]
fn comment_must_lead_the_line() {
    assert_eq!(
        parse_file("x //y"),
        Err(ParseError::UnknownOperation(chars("x")))
    );
}

#[test]
fn directions_eight_way() {
    assert_eq!(Direction::try_from("NorthEast"), Ok(Direction::NorthEast));
    assert_eq!(Direction::try_from("south"), Ok(Direction::South));
    assert_eq!(Direction::try_from("WEST"), Ok(Direction::West));
    assert_eq!(
        Direction::try_from("up"),
        Err(ParseError::InvalidDirection(chars("up")))
    );
}

#[test]
fn directions_four_way_aliases() {
    let prog = parse_program("face up", DirectionScheme::FourWay).unwrap();
    assert_eq!(prog, vec![Instruction::Face(Direction::North)]);
    let prog = parse_program("face LEFT", DirectionScheme::FourWay).unwrap();
    assert_eq!(prog, vec![Instruction::Face(Direction::West)]);
    assert_eq!(
        parse_program("face north", DirectionScheme::FourWay),
        Err(ParseError::InvalidDirection(chars("north")))
    );
}

#[test]
fn face_errors() {
    assert_eq!(
        Instruction::try_from("face"),
        Err(ParseError::MissingParameter(chars("direction")))
    );
    assert_eq!(Instruction::try_from("face north extra"), Err(ParseError::TooManyParameters));
}

#[test]
fn pen_states() {
    assert_eq!(Instruction::try_from("pen Down"), Ok(Instruction::Pen(true)));
    assert_eq!(Instruction::try_from("pen UP"), Ok(Instruction::Pen(false)));
    assert_eq!(
        Instruction::try_from("pen sideways"),
        Err(ParseError::InvalidPenState(chars("sideways")))
    );
    assert_eq!(
        Instruction::try_from("pen"),
        Err(ParseError::MissingParameter(chars("state")))
    );
    assert_eq!(Instruction::try_from("pen down now"), Err(ParseError::TooManyParameters));
}

#[test]
fn move_amounts() {
    assert_eq!(Instruction::try_from("move 10"), Ok(Instruction::Move(10 * SCALE)));
    assert_eq!(Instruction::try_from("move -2.5"), Ok(Instruction::Move(-(2 * SCALE + SCALE / 2))));
    assert_eq!(Instruction::try_from("move +3"), Ok(Instruction::Move(3 * SCALE)));
    assert_eq!(Instruction::try_from("move .5"), Ok(Instruction::Move(SCALE / 2)));
    assert_eq!(Instruction::try_from("move 12."), Ok(Instruction::Move(12 * SCALE)));
}

#[test]
fn move_fraction_beyond_scale_is_cut_off() {
    assert_eq!(Instruction::try_from("move 1.2345678"), Ok(Instruction::Move(1_234_567)));
}

#[test]
fn move_errors() {
    assert_eq!(
        Instruction::try_from("move abc"),
        Err(ParseError::InvalidNumber(chars("abc")))
    );
    assert_eq!(
        Instruction::try_from("move"),
        Err(ParseError::MissingParameter(chars("amount")))
    );
    assert_eq!(Instruction::try_from("move 1 2"), Err(ParseError::TooManyParameters));
    assert_eq!(
        Instruction::try_from("move 10000000000000"),
        Err(ParseError::InvalidNumber(chars("10000000000000")))
    );
}

#[test]
fn clear_takes_no_arguments() {
    assert_eq!(Instruction::try_from("clear"), Ok(Instruction::Clear));
    assert_eq!(Instruction::try_from("clear now"), Err(ParseError::TooManyParameters));
}

#[test]
fn operations_are_case_insensitive() {
    assert_eq!(
        Instruction::try_from("GOTO CENTER"),
        Ok(Instruction::Goto(Coord::Center, Coord::Center))
    );
    assert_eq!(Instruction::try_from("Move 5"), Ok(Instruction::Move(5 * SCALE)));
}

#[test]
fn blank_line_reaching_the_tokenizer_is_missing_operation() {
    assert_eq!(Instruction::try_from(""), Err(ParseError::MissingOperation));
    assert_eq!(Instruction::try_from("   "), Err(ParseError::MissingOperation));
}

#[test]
fn first_failing_line_aborts_the_parse() {
    assert_eq!(
        parse_file("pen down\nmove x\npen up"),
        Err(ParseError::InvalidNumber(chars("x")))
    );
}
