//! The commands of the interactive session, and the parser that reads one
//! from a line of input.

use crate::number::{index_of, parse_index};
use crate::text::{
    all_words, is_blank, join, join_texts, lemma_words_are_words, lemma_words_concat,
    lemma_words_of_blank, lemma_words_of_join, lemma_words_of_word, same_text, split_words, texts,
    words,
};
use vstd::prelude::*;

verus! {

/// One command of the session.
#[derive(Debug, PartialEq, Eq)]
pub enum Command {
    /// Append an item with this text to the active list.
    Add(String),
    /// Close the item at this 1-based position.
    Close(usize),
    /// Exchange the items at these two 1-based positions.
    Swap(usize, usize),
    /// End the session.
    Exit,
    /// Show the items closed so far.
    History,
    /// The line was not a command.
    Invalid,
}

/// A command as a mathematical value: the item text is a sequence of
/// characters.
pub enum CommandView {
    Add(Seq<char>),
    Close(usize),
    Swap(usize, usize),
    Exit,
    History,
    Invalid,
}

impl View for Command {
    type V = CommandView;

    open spec fn view(&self) -> CommandView {
        match self {
            Command::Add(item) => CommandView::Add(item@),
            Command::Close(index) => CommandView::Close(*index),
            Command::Swap(from, to) => CommandView::Swap(*from, *to),
            Command::Exit => CommandView::Exit,
            Command::History => CommandView::History,
            Command::Invalid => CommandView::Invalid,
        }
    }
}

/// Whether `word` is one of the five command words.
pub open spec fn is_command_word(word: Seq<char>) -> bool {
    ||| word == "add"@
    ||| word == "close"@
    ||| word == "swap"@
    ||| word == "exit"@
    ||| word == "history"@
}

/// The command that a line with these words denotes.
///
/// The first word selects the kind. `add` takes all further words, joined by
/// single spaces, and needs at least one. `close` takes the second word as
/// an index, `swap` the second and the third. `exit` and `history` ignore
/// whatever follows. Everything else is invalid.
pub open spec fn command_of(words: Seq<Seq<char>>) -> CommandView {
    if words.len() == 0 {
        CommandView::Invalid
    } else if words[0] == "add"@ {
        if words.len() >= 2 {
            CommandView::Add(join(words.skip(1), " "@))
        } else {
            CommandView::Invalid
        }
    } else if words[0] == "close"@ {
        if words.len() >= 2 && index_of(words[1]) is Some {
            CommandView::Close(index_of(words[1])->0)
        } else {
            CommandView::Invalid
        }
    } else if words[0] == "swap"@ {
        if words.len() >= 3 && index_of(words[1]) is Some && index_of(words[2]) is Some {
            CommandView::Swap(index_of(words[1])->0, index_of(words[2])->0)
        } else {
            CommandView::Invalid
        }
    } else if words[0] == "exit"@ {
        CommandView::Exit
    } else if words[0] == "history"@ {
        CommandView::History
    } else {
        CommandView::Invalid
    }
}

/// The command that `line` denotes.
pub open spec fn parse(line: Seq<char>) -> CommandView {
    command_of(words(line))
}

/// Reads one command from a line of input. The line may carry leading and
/// trailing whitespace, its final newline included.
pub fn parse_input(input: &str) -> (command: Command)
    ensures
        command@ == parse(input@),
{
    let mut words = split_words(input);
    let ghost all = texts(words@);
    if words.len() == 0 {
        return Command::Invalid;
    }
    let head = words[0];
    if same_text(head, "add") {
        if words.len() < 2 {
            return Command::Invalid;
        }
        words.remove(0);
        assert(texts(words@) == all.skip(1));
        Command::Add(join_texts(&words, " "))
    } else if same_text(head, "close") {
        if words.len() < 2 {
            return Command::Invalid;
        }
        match parse_index(words[1]) {
            Some(index) => Command::Close(index),
            None => Command::Invalid,
        }
    } else if same_text(head, "swap") {
        if words.len() < 3 {
            return Command::Invalid;
        }
        match parse_index(words[1]) {
            Some(from) => match parse_index(words[2]) {
                Some(to) => Command::Swap(from, to),
                None => Command::Invalid,
            },
            None => Command::Invalid,
        }
    } else if same_text(head, "exit") {
        Command::Exit
    } else if same_text(head, "history") {
        Command::History
    } else {
        Command::Invalid
    }
}

/// A line that has no words, or whose first word is not a command word, is
/// invalid.
pub proof fn lemma_unknown_word_is_invalid(line: Seq<char>)
    requires
        words(line).len() > 0 ==> !is_command_word(words(line)[0]),
    ensures
        parse(line) is Invalid,
{
}

/// `add` with nothing but whitespace around it is invalid.
pub proof fn lemma_add_alone_is_invalid(lead: Seq<char>, trail: Seq<char>)
    requires
        is_blank(lead),
        is_blank(trail),
    ensures
        parse(lead + "add"@ + trail) is Invalid,
{
    reveal_strlit("add");
    lemma_words_of_blank(lead);
    lemma_words_of_blank(trail);
    lemma_words_of_word("add"@);
    lemma_words_concat(lead, "add"@);
    lemma_words_concat(lead + "add"@, trail);
}

/// `add` with further words yields those words joined by single spaces,
/// and the item text falls apart into the same words again.
pub proof fn lemma_add_joins_words(line: Seq<char>)
    requires
        words(line).len() >= 2,
        words(line)[0] == "add"@,
    ensures
        parse(line) == CommandView::Add(join(words(line).skip(1), " "@)),
        words(join(words(line).skip(1), " "@)) == words(line).skip(1),
{
    let rest = words(line).skip(1);
    reveal_strlit(" ");
    lemma_words_are_words(line);
    lemma_words_of_join(rest, " "@);
}

/// However much whitespace stands between the words of an `add` line, the
/// item has single spaces there: with the words `rest` written after `add`
/// and any run `gap` of whitespace before each of them, the item is `rest`
/// joined by single spaces.
pub proof fn lemma_add_collapses_whitespace(rest: Seq<Seq<char>>, gap: Seq<char>)
    requires
        rest.len() > 0,
        all_words(rest),
        gap.len() > 0,
        is_blank(gap),
    ensures
        parse("add"@ + gap + join(rest, gap)) == CommandView::Add(join(rest, " "@)),
{
    reveal_strlit("add");
    lemma_words_of_word("add"@);
    lemma_words_of_blank(gap);
    lemma_words_concat("add"@, gap);
    lemma_words_of_join(rest, gap);
    lemma_words_concat("add"@ + gap, join(rest, gap));
    assert(words("add"@ + gap + join(rest, gap)).skip(1) == rest);
}

/// `close` is invalid when the index is missing or is not a number.
pub proof fn lemma_close_needs_index(line: Seq<char>)
    requires
        words(line).len() > 0,
        words(line)[0] == "close"@,
        words(line).len() < 2 || index_of(words(line)[1]) is None,
    ensures
        parse(line) is Invalid,
{
    reveal_strlit("add");
    reveal_strlit("close");
    assert("add"@.len() == 3 && "close"@.len() == 5);
}

/// `swap` is invalid when one of its two indices is missing or is not a
/// number.
pub proof fn lemma_swap_needs_indices(line: Seq<char>)
    requires
        words(line).len() > 0,
        words(line)[0] == "swap"@,
        words(line).len() < 3 || index_of(words(line)[1]) is None || index_of(words(line)[2])
            is None,
    ensures
        parse(line) is Invalid,
{
    reveal_strlit("add");
    reveal_strlit("close");
    reveal_strlit("swap");
    assert("add"@.len() == 3 && "close"@.len() == 5 && "swap"@.len() == 4);
}

/// `exit` and `history` need nothing more, and ignore whatever follows
/// them.
pub proof fn lemma_exit_and_history_ignore_the_rest(line: Seq<char>)
    requires
        words(line).len() > 0,
    ensures
        words(line)[0] == "exit"@ ==> parse(line) is Exit,
        words(line)[0] == "history"@ ==> parse(line) is History,
{
    reveal_strlit("add");
    reveal_strlit("close");
    reveal_strlit("swap");
    reveal_strlit("exit");
    reveal_strlit("history");
    assert("add"@.len() == 3 && "close"@.len() == 5 && "history"@.len() == 7);
    assert("swap"@[0] == 's' && "exit"@[0] == 'e');
}

} // verus!
