//! What the command line decides: which command a word names, how a line
//! splits into words, what a database is called once its name is confirmed,
//! and how the rows of a query are reported.

use crate::text::same_text;
use vstd::prelude::*;
use vstd::string::*;

verus! {

/// The commands of the command line.
#[derive(Debug, Clone, Copy, PartialEq, Eq, Structural)]
pub enum Command {
    MessageCounts,
    Participants,
    StrictSearch,
    Help,
    CurrentDatabases,
    OpenDatabase,
}

/// Why a word is no command.
#[derive(Debug, Clone, Copy, PartialEq, Eq, Structural)]
pub enum ParseCommandError {
    NoMatchingCommand,
}

/// What a line of input asks for: a command, and its argument where the
/// line goes on after the command.
#[derive(Debug, PartialEq, Eq)]
pub struct CommandArgumentPair {
    pub command: Command,
    pub argument: Option<String>,
}

/// Why the counts of a query cannot be reported.
#[derive(Debug, Clone, Copy, PartialEq, Eq, Structural)]
pub enum CountError {
    /// The total does not fit the type of a count.
    TotalOutOfRange,
}

/// The command that `word` names: each has a capitalised and a lower-case
/// spelling.
pub open spec fn command_named(word: Seq<char>) -> Option<Command> {
    if word == "MessageCounts"@ || word == "messagecounts"@ {
        Some(Command::MessageCounts)
    } else if word == "Participants"@ || word == "participants"@ {
        Some(Command::Participants)
    } else if word == "StrictSearch"@ || word == "strictsearch"@ {
        Some(Command::StrictSearch)
    } else if word == "Help"@ || word == "help"@ {
        Some(Command::Help)
    } else if word == "CurrentDatabases"@ || word == "currentdatabases"@ {
        Some(Command::CurrentDatabases)
    } else if word == "OpenDatabase"@ || word == "opendatabases"@ {
        Some(Command::OpenDatabase)
    } else {
        None
    }
}

/// The pieces of `text` between its spaces: one more than it has spaces.
pub open spec fn split_at_spaces(text: Seq<char>) -> Seq<Seq<char>>
    decreases text.len(),
{
    if text.len() == 0 {
        seq![Seq::empty()]
    } else {
        let before = split_at_spaces(text.drop_last());
        if text.last() == ' ' {
            before.push(Seq::empty())
        } else {
            before.drop_last().push(before.last().push(text.last()))
        }
    }
}

/// What a line asks for: the command that its first piece names, and its
/// second piece, where it has one, for the argument.
pub open spec fn order_of(line: Seq<char>) -> Result<
    (Command, Option<Seq<char>>),
    ParseCommandError,
> {
    let pieces = split_at_spaces(line);
    match command_named(pieces[0]) {
        None => Err(ParseCommandError::NoMatchingCommand),
        Some(command) => Ok(
            (
                command,
                if pieces.len() > 1 {
                    Some(pieces[1])
                } else {
                    None
                },
            ),
        ),
    }
}

/// The views of a run of texts.
pub open spec fn text_views(texts: Seq<String>) -> Seq<Seq<char>> {
    texts.map_values(|text: String| text@)
}

/// The sum of the counts of `rows`.
pub open spec fn total_of(rows: Seq<(String, i32)>) -> int
    decreases rows.len(),
{
    if rows.len() == 0 {
        0
    } else {
        total_of(rows.drop_last()) + rows.last().1
    }
}

impl Command {
    /// The command that `s` names.
    pub fn from_str(s: &str) -> (command: Result<Command, ParseCommandError>)
        ensures
            command matches Ok(c) ==> command_named(s@) == Some(c),
            command is Err ==> command_named(s@) is None,
    {
        if same_text(s, "MessageCounts") || same_text(s, "messagecounts") {
            Ok(Command::MessageCounts)
        } else if same_text(s, "Participants") || same_text(s, "participants") {
            Ok(Command::Participants)
        } else if same_text(s, "StrictSearch") || same_text(s, "strictsearch") {
            Ok(Command::StrictSearch)
        } else if same_text(s, "Help") || same_text(s, "help") {
            Ok(Command::Help)
        } else if same_text(s, "CurrentDatabases") || same_text(s, "currentdatabases") {
            Ok(Command::CurrentDatabases)
        } else if same_text(s, "OpenDatabase") || same_text(s, "opendatabases") {
            Ok(Command::OpenDatabase)
        } else {
            Err(ParseCommandError::NoMatchingCommand)
        }
    }
}

/// No piece of a split text holds a space, and the text has one piece more
/// than it has spaces: an empty text is one empty piece.
pub proof fn lemma_pieces_hold_no_space(text: Seq<char>)
    ensures
        split_at_spaces(text).len() >= 1,
        forall|i: int, k: int|
            0 <= i < split_at_spaces(text).len() && 0 <= k < split_at_spaces(text)[i].len()
                ==> split_at_spaces(text)[i][k] != ' ',
    decreases text.len(),
{
    if text.len() > 0 {
        lemma_pieces_hold_no_space(text.drop_last());
    }
}

/// Splits a line at its spaces. Two spaces in a row, and a space at either
/// end, give an empty piece.
pub fn input_split(input: String) -> (pieces: Vec<String>)
    ensures
        text_views(pieces@) == split_at_spaces(input@),
{
    let line = input.as_str();
    let length = line.unicode_len();
    let mut pieces: Vec<String> = Vec::new();
    let mut start: usize = 0;
    let mut i: usize = 0;
    assert(line@.take(0) == Seq::<char>::empty());
    assert(text_views(pieces@).push(line@.subrange(0, 0)) == seq![Seq::<char>::empty()]);
    while i < length
        invariant
            line@ == input@,
            length == line@.len(),
            start <= i <= length,
            split_at_spaces(line@.take(i as int)) == text_views(pieces@).push(
                line@.subrange(start as int, i as int),
            ),
        decreases length - i,
    {
        let ghost before = line@.take(i as int);
        let ghost next = line@.take(i + 1);
        assert(next.drop_last() == before);
        assert(next.last() == line@[i as int]);
        let ghost done = text_views(pieces@);
        let ghost piece = line@.subrange(start as int, i as int);
        assert(done.push(piece).drop_last() == done);
        if line.get_char(i) == ' ' {
            let word = line.substring_char(start, i).to_owned();
            assert(text_views(pieces@.push(word)) == done.push(piece));
            pieces.push(word);
            start = i + 1;
            assert(line@.subrange(start as int, i + 1) == Seq::<char>::empty());
        } else {
            assert(piece.push(line@[i as int]) == line@.subrange(start as int, i + 1));
        }
        i += 1;
    }
    assert(line@.take(length as int) == line@);
    let word = line.substring_char(start, length).to_owned();
    assert(text_views(pieces@.push(word)) == text_views(pieces@).push(word@));
    pieces.push(word);
    pieces
}

/// Reads a line of input as a command with its argument.
pub fn order_from_line(line: String) -> (order: Result<CommandArgumentPair, ParseCommandError>)
    ensures
        order matches Ok(pair) ==> order_of(line@) == Ok::<
            (Command, Option<Seq<char>>),
            ParseCommandError,
        >(
            (
                pair.command,
                match pair.argument {
                    Some(argument) => Some(argument@),
                    None => None,
                },
            ),
        ),
        order matches Err(e) ==> order_of(line@) == Err::<
            (Command, Option<Seq<char>>),
            ParseCommandError,
        >(e),
{
    proof {
        lemma_pieces_hold_no_space(line@);
    }
    let pieces = input_split(line);
    assert(text_views(pieces@)[0] == pieces@[0]@);
    let command = match Command::from_str(pieces[0].as_str()) {
        Ok(command) => command,
        Err(e) => { return Err(e); },
    };
    let argument = if pieces.len() > 1 {
        assert(text_views(pieces@)[1] == pieces@[1]@);
        Some(pieces[1].clone())
    } else {
        None
    };
    Ok(CommandArgumentPair { command, argument })
}

/// The file of a database: its name with `.db` behind it, once the answer to
/// "is this correct?" is `y` or `Y`. Any other answer confirms nothing.
pub fn database_file_name(db_name: &str, answer: &str) -> (file: Option<String>)
    ensures
        file is Some <==> (answer@ == "y"@ || answer@ == "Y"@),
        file matches Some(name) ==> name@ == db_name@ + ".db"@,
{
    if same_text(answer, "y") || same_text(answer, "Y") {
        Some(db_name.to_owned().concat(".db"))
    } else {
        None
    }
}

/// The rows of a query as they are reported: nothing where there are none.
pub fn found_or_none(rows: Vec<String>) -> (found: Option<Vec<String>>)
    ensures
        rows@.len() == 0 ==> found is None,
        rows@.len() > 0 ==> found == Some(rows),
{
    if rows.len() == 0 {
        None
    } else {
        Some(rows)
    }
}

/// The counts per sender with a last row for their total, named `Total`;
/// nothing where there are no rows.
pub fn counts_with_total(counts: Vec<(String, i32)>) -> (reported: Result<
    Option<Vec<(String, i32)>>,
    CountError,
>)
    ensures
        counts@.len() == 0 ==> reported == Ok::<Option<Vec<(String, i32)>>, CountError>(None),
        counts@.len() > 0 && !(i32::MIN <= total_of(counts@) <= i32::MAX) ==> reported == Err::<
            Option<Vec<(String, i32)>>,
            CountError,
        >(CountError::TotalOutOfRange),
        counts@.len() > 0 && i32::MIN <= total_of(counts@) <= i32::MAX ==> (reported matches Ok(
            Some(rows),
        ) && rows@.drop_last() == counts@ && rows@.last().0@ == "Total"@ && rows@.last().1
            == total_of(counts@)),
{
    if counts.len() == 0 {
        return Ok(None);
    }
    let mut total: i128 = 0;
    let mut i: usize = 0;
    assert(counts@.take(0) == Seq::<(String, i32)>::empty());
    while i < counts.len()
        invariant
            i <= counts@.len(),
            total == total_of(counts@.take(i as int)),
            -(i as int) * 0x8000_0000 <= total <= (i as int) * 0x8000_0000,
        decreases counts@.len() - i,
    {
        assert(counts@.take(i + 1).drop_last() == counts@.take(i as int));
        assert(counts@.take(i + 1).last() == counts@[i as int]);
        assert((i as int) * 0x8000_0000 <= 0xFFFF_FFFF_FFFF_FFFF * 0x8000_0000) by (nonlinear_arith)
            requires
                i <= 0xFFFF_FFFF_FFFF_FFFF,
        ;
        total = total + counts[i].1 as i128;
        i += 1;
    }
    assert(counts@.take(counts@.len() as int) == counts@);
    if total < -0x8000_0000 || total > 0x7FFF_FFFF {
        return Err(CountError::TotalOutOfRange);
    }
    let mut rows = counts;
    rows.push(("Total".to_owned(), total as i32));
    assert(rows@.drop_last() == counts@);
    Ok(Some(rows))
}

} // verus!
