//! The instruction language: data types shared by the parser and interpreter.

use vstd::prelude::*;

use crate::text::all_digits;
use crate::text::chars_of;
use crate::text::digit_value_exec;
use crate::text::digits_val;
use crate::text::is_digit;
use crate::text::lemma_digits_val_prefix_le;
use crate::text::lemma_prefix_len_at_least;
use crate::text::lemma_prefix_len_bounds;
use crate::text::lemma_prefix_len_of_run;
use crate::text::line_split;
use crate::text::lower_eq;
use crate::text::lower_seq;
use crate::text::prefix_len;
use crate::text::split_lines;
use crate::text::ten_to;
use crate::text::tokenize;
use crate::text::tokens_of;
use crate::text::views_of;

verus! {

/// Number of fixed-point units per whole coordinate unit: coordinates and
/// move amounts are `i64` values counting millionths.
pub const SCALE: i64 = 1_000_000;

/// A coordinate argument: either a fixed value or the centre of the
/// viewport, resolved only at step time against the live viewport size.
#[derive(Clone, Copy, Debug, PartialEq, Eq, Structural)]
pub enum Coord {
    Center,
    Absolute(i64),
}

/// A compass heading. The eight-way set is canonical; the four-way
/// vocabulary (`up`, `down`, `left`, `right`) is parsed as an alias for
/// `North`, `South`, `West`, `East`.
#[derive(Clone, Copy, Debug, PartialEq, Eq, Structural)]
pub enum Direction {
    North,
    South,
    West,
    East,
    NorthEast,
    NorthWest,
    SouthEast,
    SouthWest,
}

/// Which direction vocabulary the parser accepts, chosen at program-load
/// time.
#[derive(Clone, Copy, Debug, PartialEq, Eq, Structural)]
pub enum DirectionScheme {
    FourWay,
    EightWay,
}

/// One command of the turtle language.
#[derive(Clone, Copy, Debug, PartialEq, Eq, Structural)]
pub enum Instruction {
    Goto(Coord, Coord),
    Face(Direction),
    Move(i64),
    Pen(bool),
    Clear,
}

/// A categorised parse failure. Token payloads are carried as character
/// vectors, exactly as they appeared in the source line.
#[derive(Clone, Debug, PartialEq, Eq)]
pub enum ParseError {
    MissingOperation,
    MissingParameter(Vec<char>),
    UnknownOperation(Vec<char>),
    InvalidCoordinate(Vec<char>),
    InvalidDirection(Vec<char>),
    InvalidNumber(Vec<char>),
    InvalidPenState(Vec<char>),
    TooManyParameters,
}

/// The mathematical image of a [`ParseError`]: token payloads become
/// character sequences.
pub enum ParseErrorModel {
    MissingOperation,
    MissingParameter(Seq<char>),
    UnknownOperation(Seq<char>),
    InvalidCoordinate(Seq<char>),
    InvalidDirection(Seq<char>),
    InvalidNumber(Seq<char>),
    InvalidPenState(Seq<char>),
    TooManyParameters,
}

impl View for ParseError {
    type V = ParseErrorModel;

    open spec fn view(&self) -> ParseErrorModel {
        match self {
            ParseError::MissingOperation => ParseErrorModel::MissingOperation,
            ParseError::MissingParameter(t) => ParseErrorModel::MissingParameter(t@),
            ParseError::UnknownOperation(t) => ParseErrorModel::UnknownOperation(t@),
            ParseError::InvalidCoordinate(t) => ParseErrorModel::InvalidCoordinate(t@),
            ParseError::InvalidDirection(t) => ParseErrorModel::InvalidDirection(t@),
            ParseError::InvalidNumber(t) => ParseErrorModel::InvalidNumber(t@),
            ParseError::InvalidPenState(t) => ParseErrorModel::InvalidPenState(t@),
            ParseError::TooManyParameters => ParseErrorModel::TooManyParameters,
        }
    }
}

/// The largest whole part a numeral may carry: any larger value would no
/// longer fit the fixed-point range once scaled by [`SCALE`].
pub const MAX_WHOLE: i64 = 9_000_000_000_000;

/// Index of the first decimal point of a numeral, or its length if there
/// is none.
pub open spec fn dot_index(s: Seq<char>) -> int {
    prefix_len(s, |c: char| c == '.')
}

/// The digits before the decimal point.
pub open spec fn whole_part(s: Seq<char>) -> Seq<char> {
    s.take(dot_index(s))
}

/// The digits after the decimal point, empty if there is no point.
pub open spec fn frac_part(s: Seq<char>) -> Seq<char> {
    if dot_index(s) == s.len() {
        Seq::empty()
    } else {
        s.skip(dot_index(s) + 1)
    }
}

/// The fraction digits that the fixed-point representation can hold:
/// everything beyond the sixth is cut off.
pub open spec fn frac_digits(f: Seq<char>) -> Seq<char> {
    if f.len() <= 6 {
        f
    } else {
        f.take(6)
    }
}

/// The value of a fraction in millionths: its kept digits, scaled out to
/// six places.
pub open spec fn frac_scaled(f: Seq<char>) -> int {
    digits_val(frac_digits(f)) * ten_to(6 - frac_digits(f).len())
}

/// An unsigned numeral is digits with at most one decimal point, at least
/// one digit in all, and a whole part small enough for the fixed-point
/// range.
pub open spec fn valid_unsigned(s: Seq<char>) -> bool {
    &&& all_digits(whole_part(s))
    &&& all_digits(frac_part(s))
    &&& whole_part(s).len() + frac_part(s).len() > 0
    &&& digits_val(whole_part(s)) <= MAX_WHOLE as int
}

/// The value of an unsigned numeral, in millionths.
pub open spec fn unsigned_val(s: Seq<char>) -> int {
    digits_val(whole_part(s)) * (SCALE as int) + frac_scaled(frac_part(s))
}

/// A numeral: an optional sign followed by a valid unsigned numeral.
pub open spec fn valid_numeral(s: Seq<char>) -> bool {
    if s.len() == 0 {
        false
    } else if s[0] == '-' || s[0] == '+' {
        valid_unsigned(s.drop_first())
    } else {
        valid_unsigned(s)
    }
}

/// The signed value of a numeral, in millionths.
pub open spec fn numeral_val(s: Seq<char>) -> int {
    if s.len() == 0 {
        0
    } else if s[0] == '-' {
        -unsigned_val(s.drop_first())
    } else if s[0] == '+' {
        unsigned_val(s.drop_first())
    } else {
        unsigned_val(s)
    }
}

/// Read a token as a fixed-point numeral, in millionths of a unit;
/// `None` exactly when the token is not a valid numeral.
#[verifier::loop_isolation(false)]
#[verifier::rlimit(100)]
pub fn parse_numeral(t: &Vec<char>) -> (r: Option<i64>)
    ensures
        match r {
            Some(v) => valid_numeral(t@) && v as int == numeral_val(t@),
            None => !valid_numeral(t@),
        },
{
    let n = t.len();
    if n == 0 {
        return None;
    }
    let c0 = t[0];
    let neg = c0 == '-';
    let start: usize = if c0 == '-' || c0 == '+' {
        1
    } else {
        0
    };
    let ghost u = t@.skip(start as int);
    let ghost stop_dot = |ch: char| ch == '.';
    proof {
        assert(t@.drop_first() =~= t@.skip(1));
        assert(t@.skip(0) =~= t@);
        lemma_prefix_len_bounds(u, stop_dot);
    }

    let mut i = start;
    let mut whole: i64 = 0;
    while i < n && t[i] != '.'
        invariant
            start <= i <= n,
            forall|k: int| start <= k < i ==> is_digit(t@[k]) && t@[k] != '.',
            0 <= whole <= MAX_WHOLE,
            whole as int == digits_val(t@.subrange(start as int, i as int)),
        decreases n - i,
    {
        let c = t[i];
        let d = digit_value_exec(c);
        if d >= 10 {
            proof {
                assert(t@.drop_first() =~= t@.skip(1));
                assert(t@.skip(0) =~= t@);
                assert(forall|k: int| 0 <= k < i - start + 1 ==> !stop_dot(u[k]));
                lemma_prefix_len_at_least(u, stop_dot, i - start + 1);
                assert(whole_part(u)[i as int - start as int] == u[i as int - start as int]);
                assert(!is_digit(whole_part(u)[i as int - start as int]));
                assert(!valid_numeral(t@));
            }
            return None;
        }
        let next_whole = whole * 10 + (d as i64);
        if next_whole > MAX_WHOLE {
            proof {
                assert(t@.drop_first() =~= t@.skip(1));
                assert(t@.skip(0) =~= t@);
                assert(forall|k: int| 0 <= k < i - start + 1 ==> !stop_dot(u[k]));
                lemma_prefix_len_at_least(u, stop_dot, i - start + 1);
                assert(t@.subrange(start as int, i as int + 1).drop_last() =~= t@.subrange(
                    start as int,
                    i as int,
                ));
                assert(t@.subrange(start as int, i as int + 1).last() == t@[i as int]);
                assert(digits_val(t@.subrange(start as int, i as int + 1)) == whole * 10 + d);
                assert(whole_part(u).take(i - start + 1) =~= t@.subrange(
                    start as int,
                    i as int + 1,
                ));
                lemma_digits_val_prefix_le(whole_part(u), i - start + 1);
                assert(digits_val(whole_part(u)) > MAX_WHOLE as int);
                assert(!valid_numeral(t@));
            }
            return None;
        }
        proof {
            assert(t@.subrange(start as int, i as int + 1).drop_last() =~= t@.subrange(
                start as int,
                i as int,
            ));
            assert(t@.subrange(start as int, i as int + 1).last() == t@[i as int]);
            assert(digits_val(t@.subrange(start as int, i as int + 1)) == whole * 10 + d);
        }
        whole = next_whole;
        i += 1;
    }

    if i == n {
        // no decimal point anywhere
        if i == start {
            proof {
                lemma_prefix_len_of_run(u, stop_dot, 0);
                assert(whole_part(u) =~= Seq::<char>::empty());
                assert(frac_part(u) =~= Seq::<char>::empty());
            }
            return None;
        }
        proof {
            assert(forall|k: int| 0 <= k < u.len() ==> !stop_dot(u[k]));
            lemma_prefix_len_of_run(u, stop_dot, u.len() as int);
            assert(whole_part(u) =~= t@.subrange(start as int, n as int));
            assert(frac_part(u) =~= Seq::<char>::empty());
        }
        let v = whole * SCALE;
        return Some(
            if neg {
                -v
            } else {
                v
            },
        );
    }

    // t[i] is the decimal point
    proof {
        lemma_prefix_len_of_run(u, stop_dot, i - start);
        assert(whole_part(u) =~= t@.subrange(start as int, i as int));
        assert(frac_part(u) =~= t@.skip(i as int + 1));
    }
    let ghost f = t@.skip(i as int + 1);
    let mut j = i + 1;
    let mut frac: i64 = 0;
    let mut count: u32 = 0;
    while j < n
        invariant
            i + 1 <= j <= n,
            forall|k: int| i + 1 <= k < j ==> is_digit(t@[k]),
            count as int == if j - i - 1 <= 6 {
                j - i - 1
            } else {
                6
            },
            0 <= frac < ten_to(count as int),
            frac as int == digits_val(f.take(count as int)),
        decreases n - j,
    {
        let d = digit_value_exec(t[j]);
        if d >= 10 {
            proof {
                assert(t@.drop_first() =~= t@.skip(1));
                assert(t@.skip(0) =~= t@);
                assert(frac_part(u)[j - i - 1] == t@[j as int]);
                assert(!is_digit(frac_part(u)[j - i - 1]));
            }
            return None;
        }
        if count < 6 {
            proof {
                assert(f.take(count as int + 1).drop_last() =~= f.take(count as int));
                assert(f.take(count as int + 1).last() == f[count as int]);
                assert(f[count as int] == t@[j as int]);
                assert(digits_val(f.take(count as int + 1)) == frac * 10 + d);
            }
            frac = frac * 10 + (d as i64);
            count += 1;
        }
        j += 1;
    }

    if i == start && j == i + 1 {
        // a bare point with no digits on either side
        return None;
    }
    proof {
        if f.len() <= 6 {
            assert(f.take(count as int) =~= frac_digits(f));
        } else {
            assert(f.take(count as int) =~= frac_digits(f));
        }
    }
    let fr: i64 = if count == 0 {
        0
    } else if count == 1 {
        frac * 100000
    } else if count == 2 {
        frac * 10000
    } else if count == 3 {
        frac * 1000
    } else if count == 4 {
        frac * 100
    } else if count == 5 {
        frac * 10
    } else {
        frac
    };
    proof {
        assert(frac_digits(f).len() == count as int);
        assert(digits_val(frac_digits(f)) == frac as int);
        if count == 0 {
            assert(frac == 0);
            assert(ten_to(6 - count as int) == 1000000);
        } else if count == 1 {
            assert(ten_to(6 - count as int) == 100000);
        } else if count == 2 {
            assert(ten_to(6 - count as int) == 10000);
        } else if count == 3 {
            assert(ten_to(6 - count as int) == 1000);
        } else if count == 4 {
            assert(ten_to(6 - count as int) == 100);
        } else if count == 5 {
            assert(ten_to(6 - count as int) == 10);
        } else {
            assert(ten_to(6 - count as int) == 1);
        }
        assert(fr as int == frac as int * ten_to(6 - count as int));
        assert(fr as int == frac_scaled(f));
        assert(0 <= fr <= 999999);
    }
    let v = whole * SCALE + fr;
    Some(
        if neg {
            -v
        } else {
            v
        },
    )
}

/// The image of an instruction-level parse result, with error payloads as
/// sequences.
pub open spec fn model_result<T>(r: Result<T, ParseError>) -> Result<T, ParseErrorModel> {
    match r {
        Ok(v) => Ok(v),
        Err(e) => Err(e@),
    }
}

/// The image of a whole-program parse result.
pub open spec fn program_result(r: Result<Vec<Instruction>, ParseError>) -> Result<
    Seq<Instruction>,
    ParseErrorModel,
> {
    match r {
        Ok(p) => Ok(p@),
        Err(e) => Err(e@),
    }
}

/// What a coordinate token means: `center` (in any case) is `Center`, a
/// valid numeral is an absolute value, anything else is rejected.
pub open spec fn spec_parse_coord(t: Seq<char>) -> Result<Coord, ParseErrorModel> {
    if lower_seq(t) == "center"@ {
        Ok(Coord::Center)
    } else if valid_numeral(t) {
        Ok(Coord::Absolute(numeral_val(t) as i64))
    } else {
        Err(ParseErrorModel::InvalidCoordinate(t))
    }
}

/// What a direction token means under the active vocabulary.
pub open spec fn spec_parse_direction(t: Seq<char>, scheme: DirectionScheme) -> Result<
    Direction,
    ParseErrorModel,
> {
    let l = lower_seq(t);
    match scheme {
        DirectionScheme::EightWay => if l == "north"@ {
            Ok(Direction::North)
        } else if l == "south"@ {
            Ok(Direction::South)
        } else if l == "west"@ {
            Ok(Direction::West)
        } else if l == "east"@ {
            Ok(Direction::East)
        } else if l == "northwest"@ {
            Ok(Direction::NorthWest)
        } else if l == "southwest"@ {
            Ok(Direction::SouthWest)
        } else if l == "northeast"@ {
            Ok(Direction::NorthEast)
        } else if l == "southeast"@ {
            Ok(Direction::SouthEast)
        } else {
            Err(ParseErrorModel::InvalidDirection(t))
        },
        DirectionScheme::FourWay => if l == "up"@ {
            Ok(Direction::North)
        } else if l == "down"@ {
            Ok(Direction::South)
        } else if l == "left"@ {
            Ok(Direction::West)
        } else if l == "right"@ {
            Ok(Direction::East)
        } else {
            Err(ParseErrorModel::InvalidDirection(t))
        },
    }
}

/// The meaning of a `goto` line, given its tokens.
pub open spec fn spec_parse_goto(toks: Seq<Seq<char>>) -> Result<Instruction, ParseErrorModel> {
    if toks.len() < 2 {
        Err(ParseErrorModel::MissingParameter("x"@))
    } else {
        match spec_parse_coord(toks[1]) {
            Err(e) => Err(e),
            Ok(x) => if toks.len() == 2 {
                if x == Coord::Center {
                    Ok(Instruction::Goto(Coord::Center, Coord::Center))
                } else {
                    Err(ParseErrorModel::MissingParameter("y"@))
                }
            } else {
                match spec_parse_coord(toks[2]) {
                    Err(e) => Err(e),
                    Ok(y) => if toks.len() > 3 {
                        Err(ParseErrorModel::TooManyParameters)
                    } else {
                        Ok(Instruction::Goto(x, y))
                    },
                }
            },
        }
    }
}

/// The meaning of a `face` line.
pub open spec fn spec_parse_face(toks: Seq<Seq<char>>, scheme: DirectionScheme) -> Result<
    Instruction,
    ParseErrorModel,
> {
    if toks.len() < 2 {
        Err(ParseErrorModel::MissingParameter("direction"@))
    } else {
        match spec_parse_direction(toks[1], scheme) {
            Err(e) => Err(e),
            Ok(d) => if toks.len() > 2 {
                Err(ParseErrorModel::TooManyParameters)
            } else {
                Ok(Instruction::Face(d))
            },
        }
    }
}

/// The meaning of a `move` line.
pub open spec fn spec_parse_move(toks: Seq<Seq<char>>) -> Result<Instruction, ParseErrorModel> {
    if toks.len() < 2 {
        Err(ParseErrorModel::MissingParameter("amount"@))
    } else if !valid_numeral(toks[1]) {
        Err(ParseErrorModel::InvalidNumber(toks[1]))
    } else if toks.len() > 2 {
        Err(ParseErrorModel::TooManyParameters)
    } else {
        Ok(Instruction::Move(numeral_val(toks[1]) as i64))
    }
}

/// The meaning of a `pen` line.
pub open spec fn spec_parse_pen(toks: Seq<Seq<char>>) -> Result<Instruction, ParseErrorModel> {
    if toks.len() < 2 {
        Err(ParseErrorModel::MissingParameter("state"@))
    } else {
        let a = lower_seq(toks[1]);
        if a == "down"@ {
            if toks.len() > 2 {
                Err(ParseErrorModel::TooManyParameters)
            } else {
                Ok(Instruction::Pen(true))
            }
        } else if a == "up"@ {
            if toks.len() > 2 {
                Err(ParseErrorModel::TooManyParameters)
            } else {
                Ok(Instruction::Pen(false))
            }
        } else {
            Err(ParseErrorModel::InvalidPenState(toks[1]))
        }
    }
}

/// The meaning of one instruction line, given its tokens: an operation
/// keyword matched case-insensitively, then its arguments.
pub open spec fn spec_parse_line(toks: Seq<Seq<char>>, scheme: DirectionScheme) -> Result<
    Instruction,
    ParseErrorModel,
> {
    if toks.len() == 0 {
        Err(ParseErrorModel::MissingOperation)
    } else {
        let op = lower_seq(toks[0]);
        if op == "goto"@ {
            spec_parse_goto(toks)
        } else if op == "face"@ {
            spec_parse_face(toks, scheme)
        } else if op == "move"@ {
            spec_parse_move(toks)
        } else if op == "pen"@ {
            spec_parse_pen(toks)
        } else if op == "clear"@ {
            if toks.len() > 1 {
                Err(ParseErrorModel::TooManyParameters)
            } else {
                Ok(Instruction::Clear)
            }
        } else {
            Err(ParseErrorModel::UnknownOperation(toks[0]))
        }
    }
}

/// A line the parser must interpret: not blank, and not a `//` comment.
pub open spec fn significant(l: Seq<char>) -> bool {
    let ts = tokens_of(l);
    ts.len() > 0 && !(ts[0].len() >= 2 && ts[0][0] == '/' && ts[0][1] == '/')
}

/// The meaning of a sequence of lines: blank and comment lines are
/// skipped, the rest parse in order, and the first failing line aborts
/// the whole parse with its error.
pub open spec fn spec_parse_lines(ls: Seq<Seq<char>>, scheme: DirectionScheme) -> Result<
    Seq<Instruction>,
    ParseErrorModel,
>
    decreases ls.len(),
{
    if ls.len() == 0 {
        Ok(Seq::empty())
    } else if !significant(ls[0]) {
        spec_parse_lines(ls.drop_first(), scheme)
    } else {
        match spec_parse_line(tokens_of(ls[0]), scheme) {
            Err(e) => Err(e),
            Ok(ins) => match spec_parse_lines(ls.drop_first(), scheme) {
                Err(e) => Err(e),
                Ok(rest) => Ok(seq![ins] + rest),
            },
        }
    }
}

/// The meaning of a whole source text.
pub open spec fn spec_parse_program(text: Seq<char>, scheme: DirectionScheme) -> Result<
    Seq<Instruction>,
    ParseErrorModel,
> {
    spec_parse_lines(line_split(text), scheme)
}

/// How many lines of `ls` the parser must interpret.
pub open spec fn significant_count(ls: Seq<Seq<char>>) -> int
    decreases ls.len(),
{
    if ls.len() == 0 {
        0
    } else {
        (if significant(ls[0]) {
            1int
        } else {
            0int
        }) + significant_count(ls.drop_first())
    }
}

/// A parse that succeeds yields exactly one instruction per significant
/// line, in order.
pub proof fn lemma_parse_lines_length(ls: Seq<Seq<char>>, scheme: DirectionScheme)
    ensures
        spec_parse_lines(ls, scheme) matches Ok(p) ==> p.len() == significant_count(ls),
    decreases ls.len(),
{
    if ls.len() > 0 {
        lemma_parse_lines_length(ls.drop_first(), scheme);
    }
}

/// A program that parses has exactly one instruction per non-blank,
/// non-comment line of the source text.
pub proof fn lemma_parse_program_length(text: Seq<char>, scheme: DirectionScheme)
    ensures
        spec_parse_program(text, scheme) matches Ok(p) ==> p.len() == significant_count(
            line_split(text),
        ),
{
    lemma_parse_lines_length(line_split(text), scheme);
}

/// Read a coordinate token.
fn parse_coord_chars(t: &Vec<char>) -> (r: Result<Coord, ParseError>)
    ensures
        model_result(r) == spec_parse_coord(t@),
{
    if lower_eq(t, "center") {
        return Ok(Coord::Center);
    }
    match parse_numeral(t) {
        Some(v) => Ok(Coord::Absolute(v)),
        None => Err(ParseError::InvalidCoordinate(t.clone())),
    }
}

/// Read a direction token under the active vocabulary.
fn parse_direction_chars(t: &Vec<char>, scheme: DirectionScheme) -> (r: Result<
    Direction,
    ParseError,
>)
    ensures
        model_result(r) == spec_parse_direction(t@, scheme),
{
    match scheme {
        DirectionScheme::EightWay => {
            if lower_eq(t, "north") {
                Ok(Direction::North)
            } else if lower_eq(t, "south") {
                Ok(Direction::South)
            } else if lower_eq(t, "west") {
                Ok(Direction::West)
            } else if lower_eq(t, "east") {
                Ok(Direction::East)
            } else if lower_eq(t, "northwest") {
                Ok(Direction::NorthWest)
            } else if lower_eq(t, "southwest") {
                Ok(Direction::SouthWest)
            } else if lower_eq(t, "northeast") {
                Ok(Direction::NorthEast)
            } else if lower_eq(t, "southeast") {
                Ok(Direction::SouthEast)
            } else {
                Err(ParseError::InvalidDirection(t.clone()))
            }
        },
        DirectionScheme::FourWay => {
            if lower_eq(t, "up") {
                Ok(Direction::North)
            } else if lower_eq(t, "down") {
                Ok(Direction::South)
            } else if lower_eq(t, "left") {
                Ok(Direction::West)
            } else if lower_eq(t, "right") {
                Ok(Direction::East)
            } else {
                Err(ParseError::InvalidDirection(t.clone()))
            }
        },
    }
}

/// Read one tokenized instruction line.
fn parse_line_chars(toks: &Vec<Vec<char>>, scheme: DirectionScheme) -> (r: Result<
    Instruction,
    ParseError,
>)
    ensures
        model_result(r) == spec_parse_line(views_of(toks@), scheme),
{
    proof {
        assert(forall|k: int| 0 <= k < toks@.len() ==> views_of(toks@)[k] == toks@[k]@);
    }
    if toks.len() == 0 {
        return Err(ParseError::MissingOperation);
    }
    let op = &toks[0];
    if lower_eq(op, "goto") {
        if toks.len() < 2 {
            return Err(ParseError::MissingParameter(chars_of("x")));
        }
        let x = match parse_coord_chars(&toks[1]) {
            Ok(c) => c,
            Err(e) => {
                return Err(e);
            },
        };
        if toks.len() == 2 {
            return match x {
                Coord::Center => Ok(Instruction::Goto(Coord::Center, Coord::Center)),
                _ => Err(ParseError::MissingParameter(chars_of("y"))),
            };
        }
        let y = match parse_coord_chars(&toks[2]) {
            Ok(c) => c,
            Err(e) => {
                return Err(e);
            },
        };
        if toks.len() > 3 {
            return Err(ParseError::TooManyParameters);
        }
        return Ok(Instruction::Goto(x, y));
    }
    if lower_eq(op, "face") {
        if toks.len() < 2 {
            return Err(ParseError::MissingParameter(chars_of("direction")));
        }
        let d = match parse_direction_chars(&toks[1], scheme) {
            Ok(d) => d,
            Err(e) => {
                return Err(e);
            },
        };
        if toks.len() > 2 {
            return Err(ParseError::TooManyParameters);
        }
        return Ok(Instruction::Face(d));
    }
    if lower_eq(op, "move") {
        if toks.len() < 2 {
            return Err(ParseError::MissingParameter(chars_of("amount")));
        }
        return match parse_numeral(&toks[1]) {
            Some(v) => {
                if toks.len() > 2 {
                    Err(ParseError::TooManyParameters)
                } else {
                    Ok(Instruction::Move(v))
                }
            },
            None => Err(ParseError::InvalidNumber(toks[1].clone())),
        };
    }
    if lower_eq(op, "pen") {
        if toks.len() < 2 {
            return Err(ParseError::MissingParameter(chars_of("state")));
        }
        let arg = &toks[1];
        if lower_eq(arg, "down") {
            if toks.len() > 2 {
                return Err(ParseError::TooManyParameters);
            }
            return Ok(Instruction::Pen(true));
        }
        if lower_eq(arg, "up") {
            if toks.len() > 2 {
                return Err(ParseError::TooManyParameters);
            }
            return Ok(Instruction::Pen(false));
        }
        return Err(ParseError::InvalidPenState(arg.clone()));
    }
    if lower_eq(op, "clear") {
        if toks.len() > 1 {
            return Err(ParseError::TooManyParameters);
        }
        return Ok(Instruction::Clear);
    }
    Err(ParseError::UnknownOperation(op.clone()))
}

/// Parse a whole source text into a program under the given direction
/// vocabulary: one instruction per non-blank, non-comment line, aborting
/// at the first line that fails.
#[verifier::loop_isolation(false)]
pub fn parse_program(file: &str, scheme: DirectionScheme) -> (r: Result<
    Vec<Instruction>,
    ParseError,
>)
    ensures
        program_result(r) == spec_parse_program(file@, scheme),
{
    let cs = chars_of(file);
    let lines = split_lines(&cs);
    let ghost ls = line_split(file@);
    let n = lines.len();
    let mut prog: Vec<Instruction> = Vec::new();
    let mut idx: usize = 0;
    proof {
        assert(ls.skip(0) =~= ls);
        match spec_parse_lines(ls, scheme) {
            Ok(rest) => {
                assert(prog@ + rest =~= rest);
            },
            Err(e) => {},
        }
    }
    while idx < n
        invariant
            idx <= n,
            (match spec_parse_lines(ls.skip(idx as int), scheme) {
                Ok(rest) => spec_parse_lines(ls, scheme) == Ok::<Seq<Instruction>, ParseErrorModel>(
                    prog@ + rest,
                ),
                Err(e) => spec_parse_lines(ls, scheme) == Err::<Seq<Instruction>, ParseErrorModel>(
                    e,
                ),
            }),
        decreases n - idx,
    {
        let line = &lines[idx];
        let toks = tokenize(line);
        proof {
            assert(lines@[idx as int]@ == ls[idx as int]);
            assert(ls.skip(idx as int)[0] == ls[idx as int]);
            assert(ls.skip(idx as int).drop_first() =~= ls.skip(idx as int + 1));
            assert(forall|k: int| 0 <= k < toks@.len() ==> views_of(toks@)[k] == toks@[k]@);
        }
        let sig = toks.len() > 0 && !(toks[0].len() >= 2 && toks[0][0] == '/' && toks[0][1] == '/');
        proof {
            assert(sig == significant(ls[idx as int]));
        }
        if sig {
            match parse_line_chars(&toks, scheme) {
                Ok(ins) => {
                    proof {
                        match spec_parse_lines(ls.skip(idx as int + 1), scheme) {
                            Ok(rest) => {
                                assert(prog@ + (seq![ins] + rest) =~= prog@.push(ins) + rest);
                            },
                            Err(e) => {},
                        }
                    }
                    prog.push(ins);
                },
                Err(e) => {
                    return Err(e);
                },
            }
        }
        idx += 1;
    }
    proof {
        assert(ls.skip(n as int) =~= Seq::<Seq<char>>::empty());
        assert(prog@ + Seq::<Instruction>::empty() =~= prog@);
    }
    Ok(prog)
}

/// Parse a whole source text with the eight-way compass vocabulary.
pub fn parse_file(file: &str) -> (r: Result<Vec<Instruction>, ParseError>)
    ensures
        program_result(r) == spec_parse_program(file@, DirectionScheme::EightWay),
{
    parse_program(file, DirectionScheme::EightWay)
}

impl Instruction {
    /// Read one instruction line with the eight-way compass vocabulary.
    pub fn try_from(line: &str) -> (r: Result<Instruction, ParseError>)
        ensures
            model_result(r) == spec_parse_line(tokens_of(line@), DirectionScheme::EightWay),
    {
        let cs = chars_of(line);
        let toks = tokenize(&cs);
        parse_line_chars(&toks, DirectionScheme::EightWay)
    }
}

impl Coord {
    /// Read a coordinate token.
    pub fn try_from(t: &str) -> (r: Result<Coord, ParseError>)
        ensures
            model_result(r) == spec_parse_coord(t@),
    {
        let cs = chars_of(t);
        parse_coord_chars(&cs)
    }
}

impl Direction {
    /// Read a direction token with the eight-way compass vocabulary.
    pub fn try_from(t: &str) -> (r: Result<Direction, ParseError>)
        ensures
            model_result(r) == spec_parse_direction(t@, DirectionScheme::EightWay),
    {
        let cs = chars_of(t);
        parse_direction_chars(&cs, DirectionScheme::EightWay)
    }
}

} // verus!
