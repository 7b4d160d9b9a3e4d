//! What the session shows on the console, line by line: the numbered lists,
//! the prompt, and the status line after each command.

use crate::command::CommandView;
use crate::number::{decimal, to_decimal};
use crate::session::{after_close, in_range, step, Outcome, OutcomeView, Session, SessionView};
use crate::text::texts;
use vstd::prelude::*;

verus! {

/// One line of a numbered list: the mark, the position, a full stop, a
/// space and the item.
pub open spec fn entry(mark: Seq<char>, position: nat, item: Seq<char>) -> Seq<char> {
    mark + decimal(position) + ". "@ + item
}

/// The lines of a numbered list: one entry for each item, in order, the
/// first item at position 1.
pub open spec fn numbered(mark: Seq<char>, items: Seq<Seq<char>>) -> Seq<Seq<char>> {
    Seq::new(items.len(), |k: int| entry(mark, (k + 1) as nat, items[k]))
}

/// The lines shown before each command: a banner, the active list with
/// its positions, and the prompt.
pub open spec fn screen_lines(s: SessionView) -> Seq<Seq<char>> {
    seq!["*******************************"@, "📋 Todo list:"@] + numbered("💣 "@, s.active)
        + seq![""@, "💬 Enter command (add, close, exit, swap, history): "@]
}

/// The status line for an outcome that has one.
pub open spec fn status_line(outcome: OutcomeView) -> Seq<char> {
    match outcome {
        OutcomeView::Added(item) => "➕Added item: "@ + item,
        OutcomeView::Closed(item) => "➖Closed item: "@ + item,
        OutcomeView::Swapped(from, to) => "♻️Swapped "@ + decimal(from as nat) + " with "@
            + decimal(to as nat),
        OutcomeView::InvalidIndex => "❌Invalid index"@,
        OutcomeView::InvalidCommand => "❌Invalid command"@,
        OutcomeView::History => "🧾Completed items:"@,
        OutcomeView::Exit => ""@,
    }
}

/// The lines shown after a command: nothing at the end of the session; for
/// the history its heading, the closed items with their positions in the
/// order of their closing, and two empty lines; one status line otherwise.
pub open spec fn report_lines(s: SessionView, outcome: OutcomeView) -> Seq<Seq<char>> {
    match outcome {
        OutcomeView::Exit => Seq::empty(),
        OutcomeView::History => seq![status_line(outcome)] + numbered("✅"@, s.closed) + seq![
            ""@,
            ""@,
        ],
        _ => seq![status_line(outcome)],
    }
}

/// Writes one line of a numbered list.
pub fn entry_line(mark: &str, position: usize, item: &str) -> (line: String)
    ensures
        line@ == entry(mark@, position as nat, item@),
{
    let mut line = String::from_str(mark);
    let number = to_decimal(position);
    line.append(number.as_str());
    line.append(". ");
    line.append(item);
    line
}

/// Appends the numbered list of `items` to `lines`.
fn push_numbered(lines: &mut Vec<String>, mark: &str, items: &Vec<String>)
    ensures
        texts(final(lines)@) == texts(old(lines)@) + numbered(mark@, texts(items@)),
{
    let ghost before = texts(lines@);
    let ghost list = numbered(mark@, texts(items@));
    let mut i: usize = 0;
    while i < items.len()
        invariant
            i <= items.len(),
            list == numbered(mark@, texts(items@)),
            texts(lines@) == before + list.take(i as int),
        decreases items.len() - i,
    {
        let ghost done = texts(lines@);
        let line = entry_line(mark, i + 1, items[i].as_str());
        lines.push(line);
        assert(texts(lines@) == done.push(line@));
        i += 1;
    }
}

/// The lines of a numbered list of `items`, the first item at position 1.
pub fn number_items(mark: &str, items: &Vec<String>) -> (lines: Vec<String>)
    ensures
        texts(lines@) == numbered(mark@, texts(items@)),
{
    let mut lines: Vec<String> = Vec::new();
    push_numbered(&mut lines, mark, items);
    lines
}

/// Appends one line with the text of `line` to `lines`.
fn push_line(lines: &mut Vec<String>, line: &str)
    ensures
        texts(final(lines)@) == texts(old(lines)@).push(line@),
{
    lines.push(String::from_str(line));
}

/// The status line for `outcome`; empty at the end of the session, where
/// nothing is shown.
pub fn status(outcome: &Outcome) -> (line: String)
    ensures
        line@ == status_line(outcome@),
{
    match outcome {
        Outcome::Added(item) => {
            let mut line = String::from_str("➕Added item: ");
            line.append(item.as_str());
            line
        },
        Outcome::Closed(item) => {
            let mut line = String::from_str("➖Closed item: ");
            line.append(item.as_str());
            line
        },
        Outcome::Swapped(from, to) => {
            let mut line = String::from_str("♻️Swapped ");
            line.append(to_decimal(*from).as_str());
            line.append(" with ");
            line.append(to_decimal(*to).as_str());
            line
        },
        Outcome::InvalidIndex => String::from_str("❌Invalid index"),
        Outcome::InvalidCommand => String::from_str("❌Invalid command"),
        Outcome::History => String::from_str("🧾Completed items:"),
        Outcome::Exit => String::from_str(""),
    }
}

/// The lines to show before each command.
pub fn screen(session: &Session) -> (lines: Vec<String>)
    ensures
        texts(lines@) == screen_lines(session@),
{
    let mut lines: Vec<String> = Vec::new();
    push_line(&mut lines, "*******************************");
    push_line(&mut lines, "📋 Todo list:");
    push_numbered(&mut lines, "💣 ", &session.active);
    push_line(&mut lines, "");
    push_line(&mut lines, "💬 Enter command (add, close, exit, swap, history): ");
    lines
}

/// The lines to show after a command with this outcome.
pub fn report(session: &Session, outcome: &Outcome) -> (lines: Vec<String>)
    ensures
        texts(lines@) == report_lines(session@, outcome@),
{
    let mut lines: Vec<String> = Vec::new();
    match outcome {
        Outcome::Exit => {},
        Outcome::History => {
            let heading = status(outcome);
            push_line(&mut lines, heading.as_str());
            push_numbered(&mut lines, "✅", &session.closed);
            push_line(&mut lines, "");
            push_line(&mut lines, "");
        },
        _ => {
            let line = status(outcome);
            push_line(&mut lines, line.as_str());
        },
    }
    lines
}

/// The history after two closes, in a session that had closed nothing
/// before: under its heading stand the two items, the one closed first at
/// position 1 and the other at position 2, and the active list is what the
/// two closes left.
pub proof fn lemma_history_shows_closed_items(s: SessionView, first: usize, second: usize)
    requires
        s.closed.len() == 0,
        in_range(s.active, first),
        in_range(after_close(s, first).active, second),
    ensures
        ({
            let once = step(s, CommandView::Close(first)).0;
            let twice = step(once, CommandView::Close(second)).0;
            let (shown, outcome) = step(twice, CommandView::History);
            &&& shown == twice
            &&& report_lines(shown, outcome) == seq![
                "🧾Completed items:"@,
                entry("✅"@, 1, s.active[first - 1]),
                entry("✅"@, 2, once.active[second - 1]),
                ""@,
                ""@,
            ]
        }),
{
    let once = step(s, CommandView::Close(first)).0;
    let twice = step(once, CommandView::Close(second)).0;
    assert(twice.closed == seq![s.active[first - 1], once.active[second - 1]]);
}

} // verus!
