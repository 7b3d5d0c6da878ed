//! The answer to a position query: one line for each player, with the
//! player's name, a delimiter and the position in microseconds.
//!
//! The delimiter is the caller's choice, and it must be the one that the
//! query asked the program to print. `POSITION_DELIMITER` is the one that
//! this library's own query uses.

use vstd::prelude::*;

use crate::error::result_view;
use crate::error::PlayerctlError;
use crate::error::PlayerctlErrorView;
use crate::map::TextMap;
use crate::number::decimal_u64;
use crate::number::parse_u64;
use crate::text::chars_of;
use crate::text::lemma_first_match_is;
use crate::text::lines_of;
use crate::text::next_line;
use crate::text::occurs_at;
use crate::text::split_at_first;
use crate::text::split_once;
use crate::text::string_of;

verus! {

/// The delimiter between a player's name and its position in the answer to
/// this library's position query: a text that is unlikely to stand in a
/// player's name.
pub const POSITION_DELIMITER: &'static str = ";-;";

/// The positions after one more line. A line without the delimiter leaves
/// them as they are. Any other line is cut at the first delimiter: what
/// stands after it must be a number, which becomes the position of the
/// player named before it, in place of an earlier one.
pub open spec fn position_step(
    positions: Map<Seq<char>, u64>,
    line: Seq<char>,
    delimiter: Seq<char>,
) -> Result<Map<Seq<char>, u64>, PlayerctlErrorView> {
    match split_at_first(line, delimiter) {
        None => Ok(positions),
        Some((name, position)) => match decimal_u64(position) {
            Some(micros) => Ok(positions.insert(name, micros)),
            None => Err(PlayerctlErrorView::ParseLengthError(position)),
        },
    }
}

/// The positions after the given lines, taken in order. The first line that
/// fails ends the reading with its error.
pub open spec fn positions_after(
    lines: Seq<Seq<char>>,
    positions: Map<Seq<char>, u64>,
    delimiter: Seq<char>,
) -> Result<Map<Seq<char>, u64>, PlayerctlErrorView>
    decreases lines.len(),
{
    if lines.len() == 0 {
        Ok(positions)
    } else {
        match position_step(positions, lines[0], delimiter) {
            Ok(next) => positions_after(lines.drop_first(), next, delimiter),
            Err(e) => Err(e),
        }
    }
}

/// The positions that a response text reports.
pub open spec fn positions_of(text: Seq<char>, delimiter: Seq<char>) -> Result<
    Map<Seq<char>, u64>,
    PlayerctlErrorView,
> {
    positions_after(lines_of(text), Map::empty(), delimiter)
}

/// Whether `line` gives a position for the player `name`.
pub open spec fn names_player(line: Seq<char>, name: Seq<char>, delimiter: Seq<char>) -> bool {
    match split_at_first(line, delimiter) {
        Some((found, _)) => found == name,
        None => false,
    }
}

/// Reading lines one after the other is reading the first ones and then,
/// from what they gave, the others.
pub proof fn lemma_positions_after_concat(
    first: Seq<Seq<char>>,
    second: Seq<Seq<char>>,
    positions: Map<Seq<char>, u64>,
    delimiter: Seq<char>,
)
    ensures
        positions_after(first + second, positions, delimiter) == match positions_after(
            first,
            positions,
            delimiter,
        ) {
            Ok(middle) => positions_after(second, middle, delimiter),
            Err(e) => Err(e),
        },
    decreases first.len(),
{
    if first.len() > 0 {
        assert((first + second).drop_first() =~= first.drop_first() + second);
        match position_step(positions, first[0], delimiter) {
            Ok(next) => lemma_positions_after_concat(first.drop_first(), second, next, delimiter),
            Err(_) => {},
        }
    }
}

/// Reading one line is one step.
pub proof fn lemma_positions_after_one(
    line: Seq<char>,
    positions: Map<Seq<char>, u64>,
    delimiter: Seq<char>,
)
    ensures
        positions_after(seq![line], positions, delimiter) == position_step(
            positions,
            line,
            delimiter,
        ),
{
    reveal_with_fuel(positions_after, 2);
}

/// A line without the delimiter is skipped: wherever it stands among the
/// lines, the reading gives what it gives without that line.
pub proof fn lemma_line_without_delimiter_is_skipped(
    before: Seq<Seq<char>>,
    line: Seq<char>,
    after: Seq<Seq<char>>,
    positions: Map<Seq<char>, u64>,
    delimiter: Seq<char>,
)
    requires
        split_at_first(line, delimiter) is None,
    ensures
        positions_after(before + seq![line] + after, positions, delimiter) == positions_after(
            before + after,
            positions,
            delimiter,
        ),
{
    lemma_positions_after_concat(before + seq![line], after, positions, delimiter);
    lemma_positions_after_concat(before, seq![line], positions, delimiter);
    lemma_positions_after_concat(before, after, positions, delimiter);
    match positions_after(before, positions, delimiter) {
        Ok(middle) => {
            lemma_positions_after_one(line, middle, delimiter);
        },
        Err(_) => {},
    }
}

/// A line that fails ends the reading: where the lines before it are read
/// without an error, the reading fails with the error of that line,
/// whatever follows it.
pub proof fn lemma_bad_position_ends_the_reading(
    before: Seq<Seq<char>>,
    line: Seq<char>,
    after: Seq<Seq<char>>,
    positions: Map<Seq<char>, u64>,
    delimiter: Seq<char>,
)
    requires
        positions_after(before, positions, delimiter) matches Ok(middle) && position_step(
            middle,
            line,
            delimiter,
        ) is Err,
    ensures
        positions_after(before, positions, delimiter) matches Ok(middle) && positions_after(
            before + seq![line] + after,
            positions,
            delimiter,
        ) == position_step(middle, line, delimiter),
{
    lemma_positions_after_concat(before + seq![line], after, positions, delimiter);
    lemma_positions_after_concat(before, seq![line], positions, delimiter);
    match positions_after(before, positions, delimiter) {
        Ok(middle) => {
            lemma_positions_after_one(line, middle, delimiter);
        },
        Err(_) => {},
    }
}

/// Where a player is named on several lines, the last of them counts: after
/// a reading that succeeds, the player's position is the number on the last
/// line that names the player.
pub proof fn lemma_last_position_counts(
    lines: Seq<Seq<char>>,
    positions: Map<Seq<char>, u64>,
    delimiter: Seq<char>,
    i: int,
    name: Seq<char>,
)
    requires
        positions_after(lines, positions, delimiter) is Ok,
        0 <= i < lines.len(),
        names_player(lines[i], name, delimiter),
        forall|j: int| i < j < lines.len() ==> !names_player(lines[j], name, delimiter),
    ensures
        positions_after(lines, positions, delimiter) matches Ok(after) && split_at_first(
            lines[i],
            delimiter,
        ) matches Some((_, text)) && decimal_u64(text) matches Some(micros) && after.contains_key(
            name,
        ) && after[name] == micros,
    decreases lines.len(),
{
    let init = lines.drop_last();
    let last = lines.last();
    assert(init + seq![last] =~= lines);
    lemma_positions_after_concat(init, seq![last], positions, delimiter);
    match positions_after(init, positions, delimiter) {
        Ok(middle) => {
            lemma_positions_after_one(last, middle, delimiter);
            if i < lines.len() - 1 {
                assert forall|j: int| i < j < init.len() implies !names_player(
                    init[j],
                    name,
                    delimiter,
                ) by {
                    assert(init[j] == lines[j]);
                }
                lemma_last_position_counts(init, positions, delimiter, i, name);
            }
        },
        Err(_) => {},
    }
}

/// What the query asks for is read back: a line made of a name, the
/// delimiter and a number gives that number for that name, provided that
/// the delimiter does not begin inside the name.
pub proof fn lemma_position_line(
    name: Seq<char>,
    number: Seq<char>,
    positions: Map<Seq<char>, u64>,
    delimiter: Seq<char>,
)
    requires
        decimal_u64(number) is Some,
        forall|j: int|
            0 <= j < name.len() ==> !occurs_at(name + delimiter + number, delimiter, j),
    ensures
        position_step(positions, name + delimiter + number, delimiter) == Ok::<
            Map<Seq<char>, u64>,
            PlayerctlErrorView,
        >(positions.insert(name, decimal_u64(number)->0)),
{
    let line = name + delimiter + number;
    let at = name.len() as int;
    assert(line.subrange(at, at + delimiter.len()) =~= delimiter);
    lemma_first_match_is(line, delimiter, at);
    assert(line.take(at) =~= name);
    assert(line.skip(at + delimiter.len()) =~= number);
}

/// Reads the answer to a position query that asked for `delimiter` between
/// each player's name and its position.
pub fn parse_positions(text: &str, delimiter: &str) -> (r: Result<TextMap<u64>, PlayerctlError>)
    ensures
        result_view(r) == positions_of(text@, delimiter@),
{
    let chars = chars_of(text);
    let cut = chars_of(delimiter);
    let mut rest: &[char] = chars.as_slice();
    let mut positions: TextMap<u64> = TextMap::new();
    loop
        invariant
            cut@ == delimiter@,
            positions_after(lines_of(rest@), positions@, delimiter@) == positions_of(
                text@,
                delimiter@,
            ),
        ensures
            positions_of(text@, delimiter@) == Ok::<Map<Seq<char>, u64>, PlayerctlErrorView>(
                positions@,
            ),
        decreases rest.len(),
    {
        let (line, tail) = match next_line(rest) {
            Some(found) => found,
            None => {
                break ;
            },
        };
        assert(lines_of(rest@).drop_first() =~= lines_of(tail@));
        match split_once(line, cut.as_slice()) {
            None => {},
            Some((name, position)) => match parse_u64(position) {
                Some(micros) => {
                    positions.insert(string_of(name), micros);
                },
                None => {
                    return Err(PlayerctlError::ParseLengthError(string_of(position)));
                },
            },
        }
        rest = tail;
    }
    Ok(positions)
}

} // verus!
