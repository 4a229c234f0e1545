//! Character-level helpers: extracting the characters of a source string,
//! ASCII case folding, digits and whitespace.

use vstd::prelude::*;
use vstd::std_specs::iter::IteratorSpec;

verus! {

broadcast use vstd::string::next_postcondition, vstd::string::axiom_spec_iter;

/// The characters of `s`, in order, as a vector.
pub fn chars_of(s: &str) -> (r: Vec<char>)
    ensures
        r@ == s@,
{
    let mut it = s.chars();
    let mut r: Vec<char> = Vec::new();
    proof {
        assert(r@ + it.remaining() =~= s@);
    }
    loop
        invariant
            it.decrease() is Some,
            r@ + it.remaining() == s@,
        ensures
            r@ == s@,
        decreases it.decrease()->0,
    {
        let ghost prev = it.remaining();
        match it.next() {
            Some(c) => {
                proof {
                    assert(r@.push(c) + prev.drop_first() =~= r@ + prev);
                }
                r.push(c);
            },
            None => {
                proof {
                    assert(r@ =~= r@ + prev);
                }
                break ;
            },
        }
    }
    r
}

/// ASCII lower-casing of a single character; everything outside `A..Z`
/// is left alone.
pub open spec fn lower_char(c: char) -> char {
    match c {
        'A' => 'a',
        'B' => 'b',
        'C' => 'c',
        'D' => 'd',
        'E' => 'e',
        'F' => 'f',
        'G' => 'g',
        'H' => 'h',
        'I' => 'i',
        'J' => 'j',
        'K' => 'k',
        'L' => 'l',
        'M' => 'm',
        'N' => 'n',
        'O' => 'o',
        'P' => 'p',
        'Q' => 'q',
        'R' => 'r',
        'S' => 's',
        'T' => 't',
        'U' => 'u',
        'V' => 'v',
        'W' => 'w',
        'X' => 'x',
        'Y' => 'y',
        'Z' => 'z',
        _ => c,
    }
}

/// `s` with every character ASCII-lower-cased.
pub open spec fn lower_seq(s: Seq<char>) -> Seq<char> {
    s.map_values(|c: char| lower_char(c))
}

/// Executable ASCII lower-casing, matching [`lower_char`].
pub fn to_lower(c: char) -> (r: char)
    ensures
        r == lower_char(c),
{
    match c {
        'A' => 'a',
        'B' => 'b',
        'C' => 'c',
        'D' => 'd',
        'E' => 'e',
        'F' => 'f',
        'G' => 'g',
        'H' => 'h',
        'I' => 'i',
        'J' => 'j',
        'K' => 'k',
        'L' => 'l',
        'M' => 'm',
        'N' => 'n',
        'O' => 'o',
        'P' => 'p',
        'Q' => 'q',
        'R' => 'r',
        'S' => 's',
        'T' => 't',
        'U' => 'u',
        'V' => 'v',
        'W' => 'w',
        'X' => 'x',
        'Y' => 'y',
        'Z' => 'z',
        _ => c,
    }
}

/// Whitespace inside a line: space, tab, or a stray carriage return.
pub open spec fn is_space(c: char) -> bool {
    c == ' ' || c == '\t' || c == '\r'
}

/// The length of the longest prefix of `s` in which no character
/// satisfies `stop`.
pub open spec fn prefix_len(s: Seq<char>, stop: spec_fn(char) -> bool) -> int
    decreases s.len(),
{
    if s.len() == 0 {
        0
    } else if stop(s[0]) {
        0
    } else {
        1 + prefix_len(s.drop_first(), stop)
    }
}

/// `prefix_len` always lies between 0 and the length of the sequence.
pub proof fn lemma_prefix_len_bounds(s: Seq<char>, stop: spec_fn(char) -> bool)
    ensures
        0 <= prefix_len(s, stop) <= s.len(),
    decreases s.len(),
{
    if s.len() > 0 && !stop(s[0]) {
        lemma_prefix_len_bounds(s.drop_first(), stop);
    }
}

/// If the first `j` characters all avoid `stop`, the prefix runs at least
/// that far.
pub proof fn lemma_prefix_len_at_least(s: Seq<char>, stop: spec_fn(char) -> bool, j: int)
    requires
        0 <= j <= s.len(),
        forall|k: int| 0 <= k < j ==> !stop(s[k]),
    ensures
        prefix_len(s, stop) >= j,
    decreases j,
{
    lemma_prefix_len_bounds(s, stop);
    if j > 0 {
        assert(!stop(s[0]));
        assert(forall|k: int|
            0 <= k < j - 1 ==> s.drop_first()[k] == s[k + 1] && !stop(s.drop_first()[k]));
        lemma_prefix_len_at_least(s.drop_first(), stop, j - 1);
        assert(prefix_len(s, stop) == 1 + prefix_len(s.drop_first(), stop));
    }
}

/// If the first `j` characters all avoid `stop`, and position `j` (when it
/// exists) satisfies it, then `j` is exactly the prefix length.
pub proof fn lemma_prefix_len_of_run(s: Seq<char>, stop: spec_fn(char) -> bool, j: int)
    requires
        0 <= j <= s.len(),
        forall|k: int| 0 <= k < j ==> !stop(s[k]),
        j == s.len() || stop(s[j]),
    ensures
        prefix_len(s, stop) == j,
    decreases j,
{
    if j == 0 {
    } else {
        assert(!stop(s[0]));
        lemma_prefix_len_of_run(s.drop_first(), stop, j - 1);
    }
}

/// The whitespace-separated tokens of one line, in order.
pub open spec fn tokens_of(s: Seq<char>) -> Seq<Seq<char>>
    decreases s.len(),
    via tokens_of_decreases
{
    if s.len() == 0 {
        Seq::empty()
    } else if is_space(s[0]) {
        tokens_of(s.drop_first())
    } else {
        let k = prefix_len(s, |c: char| is_space(c));
        seq![s.take(k)] + tokens_of(s.skip(k))
    }
}

#[via_fn]
proof fn tokens_of_decreases(s: Seq<char>) {
    if s.len() > 0 && !is_space(s[0]) {
        lemma_prefix_len_bounds(s, |c: char| is_space(c));
        lemma_prefix_len_bounds(s.drop_first(), |c: char| is_space(c));
    }
}

/// The lines of a source text, split at every newline character. The
/// split is exhaustive: an empty text yields one empty line, which the
/// parser later skips as blank.
pub open spec fn line_split(s: Seq<char>) -> Seq<Seq<char>>
    decreases s.len(),
    via line_split_decreases
{
    let k = prefix_len(s, |c: char| c == '\n');
    if k == s.len() {
        seq![s]
    } else {
        seq![s.take(k)] + line_split(s.skip(k + 1))
    }
}

#[via_fn]
proof fn line_split_decreases(s: Seq<char>) {
    lemma_prefix_len_bounds(s, |c: char| c == '\n');
}

/// The views of a sequence of character vectors.
pub open spec fn views_of(ts: Seq<Vec<char>>) -> Seq<Seq<char>> {
    ts.map_values(|t: Vec<char>| t@)
}

/// Split one line into its whitespace-separated tokens.
pub fn tokenize(line: &Vec<char>) -> (r: Vec<Vec<char>>)
    ensures
        views_of(r@) == tokens_of(line@),
{
    let n = line.len();
    let mut toks: Vec<Vec<char>> = Vec::new();
    let mut i: usize = 0;
    proof {
        assert(views_of(toks@) + tokens_of(line@.skip(0)) =~= tokens_of(line@.skip(0)));
        assert(line@.skip(0) =~= line@);
    }
    loop
        invariant
            i <= n,
            n == line@.len(),
            tokens_of(line@) == views_of(toks@) + tokens_of(line@.skip(i as int)),
        ensures
            views_of(toks@) == tokens_of(line@),
        decreases n - i,
    {
        if i >= n {
            proof {
                assert(line@.skip(i as int) =~= Seq::<char>::empty());
                assert(views_of(toks@) + tokens_of(line@.skip(i as int)) =~= views_of(toks@));
            }
            break ;
        }
        let c = line[i];
        if c == ' ' || c == '\t' || c == '\r' {
            proof {
                assert(line@.skip(i as int).drop_first() =~= line@.skip(i as int + 1));
            }
            i += 1;
        } else {
            let ghost start = i as int;
            let mut tok: Vec<char> = Vec::new();
            loop
                invariant
                    0 <= start <= i <= n,
                    n == line@.len(),
                    tok@ == line@.subrange(start, i as int),
                    forall|k: int| start <= k < i ==> !is_space(line@[k]),
                ensures
                    start <= i <= n,
                    tok@ == line@.subrange(start, i as int),
                    forall|k: int| start <= k < i ==> !is_space(line@[k]),
                    i == n || is_space(line@[i as int]),
                decreases n - i,
            {
                if i >= n {
                    break ;
                }
                let c2 = line[i];
                if c2 == ' ' || c2 == '\t' || c2 == '\r' {
                    break ;
                }
                proof {
                    assert(line@.subrange(start, i as int).push(line@[i as int]) =~= line@.subrange(
                        start,
                        i as int + 1,
                    ));
                }
                tok.push(c2);
                i += 1;
            }
            proof {
                let rest = line@.skip(start);
                let stop = |ch: char| is_space(ch);
                assert(forall|k: int|
                    0 <= k < i - start ==> rest[k] == line@[start + k] && !stop(rest[k]));
                assert(i - start < rest.len() ==> stop(rest[i - start]));
                lemma_prefix_len_of_run(rest, stop, i - start);
                assert(!is_space(rest[0]));
                assert(tokens_of(rest) == seq![rest.take(i - start)] + tokens_of(
                    rest.skip(i - start),
                ));
                assert(rest.take(i - start) =~= line@.subrange(start, i as int));
                assert(rest.skip(i - start) =~= line@.skip(i as int));
                assert(views_of(toks@.push(tok)) =~= views_of(toks@) + seq![tok@]);
                assert(views_of(toks@.push(tok)) + tokens_of(line@.skip(i as int)) =~= views_of(
                    toks@,
                ) + tokens_of(line@.skip(start)));
            }
            toks.push(tok);
        }
    }
    toks
}

/// Split a source text into lines at newline characters.
pub fn split_lines(cs: &Vec<char>) -> (r: Vec<Vec<char>>)
    ensures
        views_of(r@) == line_split(cs@),
{
    let n = cs.len();
    let mut lines: Vec<Vec<char>> = Vec::new();
    let mut i: usize = 0;
    proof {
        assert(cs@.skip(0) =~= cs@);
    }
    loop
        invariant_except_break
            line_split(cs@) == views_of(lines@) + line_split(cs@.skip(i as int)),
        invariant
            i <= n,
            n == cs@.len(),
        ensures
            views_of(lines@) == line_split(cs@),
        decreases n - i + 1,
    {
        let ghost start = i as int;
        let mut cur: Vec<char> = Vec::new();
        loop
            invariant
                0 <= start <= i <= n,
                n == cs@.len(),
                cur@ == cs@.subrange(start, i as int),
                forall|k: int| start <= k < i ==> cs@[k] != '\n',
            ensures
                start <= i <= n,
                cur@ == cs@.subrange(start, i as int),
                forall|k: int| start <= k < i ==> cs@[k] != '\n',
                i == n || cs@[i as int] == '\n',
            decreases n - i,
        {
            if i >= n {
                break ;
            }
            let c = cs[i];
            if c == '\n' {
                break ;
            }
            proof {
                assert(cs@.subrange(start, i as int).push(cs@[i as int]) =~= cs@.subrange(
                    start,
                    i as int + 1,
                ));
            }
            cur.push(c);
            i += 1;
        }
        proof {
            let rest = cs@.skip(start);
            let stop = |ch: char| ch == '\n';
            assert(forall|k: int|
                0 <= k < i - start ==> rest[k] == cs@[start + k] && !stop(rest[k]));
            assert(i - start < rest.len() ==> stop(rest[i - start]));
            lemma_prefix_len_of_run(rest, stop, i - start);
            assert(rest.take(i - start) =~= cs@.subrange(start, i as int));
            assert(views_of(lines@.push(cur)) =~= views_of(lines@) + seq![cur@]);
        }
        if i >= n {
            proof {
                assert(cs@.skip(start) =~= cs@.subrange(start, i as int));
                assert(line_split(cs@.skip(start)) == seq![cs@.subrange(start, i as int)]);
                assert(views_of(lines@.push(cur)) =~= views_of(lines@) + line_split(
                    cs@.skip(start),
                ));
            }
            lines.push(cur);
            break ;
        } else {
            proof {
                let rest = cs@.skip(start);
                assert(line_split(rest) == seq![rest.take(i - start)] + line_split(
                    rest.skip(i - start + 1),
                ));
                assert(rest.skip(i - start + 1) =~= cs@.skip(i as int + 1));
                assert(views_of(lines@.push(cur)) + line_split(cs@.skip(i as int + 1)) =~= views_of(
                    lines@,
                ) + line_split(cs@.skip(start)));
            }
            lines.push(cur);
            i += 1;
        }
    }
    lines
}

/// The value of a decimal digit character, or 10 for anything else.
pub open spec fn digit_value(c: char) -> int {
    match c {
        '0' => 0,
        '1' => 1,
        '2' => 2,
        '3' => 3,
        '4' => 4,
        '5' => 5,
        '6' => 6,
        '7' => 7,
        '8' => 8,
        '9' => 9,
        _ => 10,
    }
}

/// `c` is a decimal digit.
pub open spec fn is_digit(c: char) -> bool {
    digit_value(c) < 10
}

/// Executable digit reading, matching [`digit_value`].
pub fn digit_value_exec(c: char) -> (r: u32)
    ensures
        r as int == digit_value(c),
{
    match c {
        '0' => 0,
        '1' => 1,
        '2' => 2,
        '3' => 3,
        '4' => 4,
        '5' => 5,
        '6' => 6,
        '7' => 7,
        '8' => 8,
        '9' => 9,
        _ => 10,
    }
}

/// Every character of `s` is a decimal digit.
pub open spec fn all_digits(s: Seq<char>) -> bool {
    forall|i: int| 0 <= i < s.len() ==> is_digit(s[i])
}

/// The number denoted by a sequence of digit characters, most significant
/// first; an empty sequence denotes 0.
pub open spec fn digits_val(s: Seq<char>) -> int
    decreases s.len(),
{
    if s.len() == 0 {
        0
    } else {
        digits_val(s.drop_last()) * 10 + digit_value(s.last())
    }
}

pub proof fn lemma_digits_val_nonneg(s: Seq<char>)
    ensures
        digits_val(s) >= 0,
    decreases s.len(),
{
    if s.len() > 0 {
        lemma_digits_val_nonneg(s.drop_last());
    }
}

/// Reading only a prefix of a digit string never reads a larger number.
pub proof fn lemma_digits_val_prefix_le(s: Seq<char>, k: int)
    requires
        0 <= k <= s.len(),
    ensures
        digits_val(s.take(k)) <= digits_val(s),
    decreases s.len(),
{
    if k == s.len() {
        assert(s.take(k) =~= s);
    } else {
        lemma_digits_val_nonneg(s.drop_last());
        lemma_digits_val_prefix_le(s.drop_last(), k);
        assert(s.drop_last().take(k) =~= s.take(k));
    }
}

/// Powers of ten up to one million, clamped there: the scaling factors of
/// the fixed-point representation.
pub open spec fn ten_to(k: int) -> int {
    if k <= 0 {
        1
    } else if k == 1 {
        10
    } else if k == 2 {
        100
    } else if k == 3 {
        1000
    } else if k == 4 {
        10000
    } else if k == 5 {
        100000
    } else {
        1000000
    }
}

/// Does `t`, lower-cased, spell exactly the (already lower-case) keyword
/// `kw`?
pub fn lower_eq(t: &Vec<char>, kw: &str) -> (r: bool)
    ensures
        r == (lower_seq(t@) == kw@),
{
    let kwc = chars_of(kw);
    let n = t.len();
    if n != kwc.len() {
        proof {
            assert(lower_seq(t@).len() == t@.len());
        }
        return false;
    }
    let mut i: usize = 0;
    loop
        invariant
            0 <= i <= n,
            n == t@.len(),
            n == kw@.len(),
            kwc@ == kw@,
            forall|k: int| 0 <= k < i ==> lower_char(t@[k]) == kw@[k],
        ensures
            forall|k: int| 0 <= k < n ==> lower_char(t@[k]) == kw@[k],
        decreases n - i,
    {
        if i >= n {
            break ;
        }
        if to_lower(t[i]) != kwc[i] {
            proof {
                assert(lower_seq(t@)[i as int] == lower_char(t@[i as int]));
            }
            return false;
        }
        i += 1;
    }
    proof {
        assert(lower_seq(t@) =~= kw@);
    }
    true
}

} // verus!
