//! The session loop, one step at a time: how a session starts, and what
//! each entered line leads the program to show and to store.

use crate::command::{parse, parse_input, CommandView};
use crate::render::{report, report_lines};
use crate::session::{step, Outcome, OutcomeView, Session, SessionView};
use crate::store::{
    all_plain, decode, encode, is_plain, lemma_plain_items_reload, lines, stored,
};
use crate::text::{
    all_chars, lemma_join_chars, lemma_join_ends, lemma_words_are_words, texts, words,
};
use vstd::prelude::*;

verus! {

/// What the program has to do after a line was entered.
#[derive(Debug, PartialEq, Eq)]
pub struct Turn {
    /// What the command did.
    pub outcome: Outcome,
    /// The lines to show, in order.
    pub report: Vec<String>,
    /// The text to overwrite the store with, where the active list changed.
    pub store: Option<String>,
}

/// A turn as a mathematical value.
pub struct TurnView {
    pub outcome: OutcomeView,
    pub report: Seq<Seq<char>>,
    pub store: Option<Seq<char>>,
}

impl View for Turn {
    type V = TurnView;

    open spec fn view(&self) -> TurnView {
        TurnView {
            outcome: self.outcome@,
            report: texts(self.report@),
            store: match self.store {
                Some(text) => Some(text@),
                None => None,
            },
        }
    }
}

/// The session at the start of the program: its active list is read from
/// the store, and is empty where there is no store yet; nothing is closed.
pub open spec fn session_from(store: Option<Seq<char>>) -> SessionView {
    SessionView {
        active: match store {
            Some(text) => lines(text),
            None => Seq::empty(),
        },
        closed: Seq::empty(),
    }
}

/// What entering `line` does to the session `s`: the session afterwards,
/// and the turn. The command read from the line is applied; the report
/// shows its outcome; and the whole active list is stored anew exactly when
/// the outcome says that it changed.
pub open spec fn turn_of(s: SessionView, line: Seq<char>) -> (SessionView, TurnView) {
    let (t, outcome) = step(s, parse(line));
    (
        t,
        TurnView {
            outcome,
            report: report_lines(t, outcome),
            store: if outcome.persists() {
                Some(stored(t.active))
            } else {
                None
            },
        },
    )
}

/// The text that the store holds after a turn, if it held `store` before.
pub open spec fn store_after(store: Seq<char>, turn: TurnView) -> Seq<char> {
    match turn.store {
        Some(text) => text,
        None => store,
    }
}

/// The session and the store after the lines `entered` were entered one
/// after another, from the session `s` and a store that held `store`.
pub open spec fn after_lines(s: SessionView, store: Seq<char>, entered: Seq<Seq<char>>) -> (
    SessionView,
    Seq<char>,
)
    decreases entered.len(),
{
    if entered.len() == 0 {
        (s, store)
    } else {
        let (before, text) = after_lines(s, store, entered.drop_last());
        let (t, turn) = turn_of(before, entered.last());
        (t, store_after(text, turn))
    }
}

/// Starts a session from what the store holds, if there is a store.
pub fn start(store: Option<&str>) -> (session: Session)
    ensures
        session@ == session_from(
            match store {
                Some(text) => Some(text@),
                None => None,
            },
        ),
{
    let session = match store {
        Some(text) => Session::new(decode(text)),
        None => Session::new(Vec::new()),
    };
    assert(store is None ==> session@.active =~= Seq::empty());
    session
}

/// Reads a command from `line`, applies it to `session`, and says what to
/// show and what to store.
pub fn take_turn(session: &mut Session, line: &str) -> (turn: Turn)
    ensures
        (final(session)@, turn@) == turn_of(old(session)@, line@),
{
    let outcome = session.apply(parse_input(line));
    let report = report(session, &outcome);
    let store = if outcome.persists() {
        Some(encode(&session.active))
    } else {
        None
    };
    Turn { outcome, report, store }
}

/// The item of an `add` command is never empty and holds no line break.
pub proof fn lemma_added_item_is_plain(line: Seq<char>)
    ensures
        parse(line) matches CommandView::Add(item) ==> is_plain(item),
{
    if parse(line) is Add {
        let all = words(line);
        let rest = all.skip(1);
        let p = |c: char| c != '\n' && c != '\r';
        reveal_strlit(" ");
        lemma_words_are_words(line);
        assert forall|k: int| 0 <= k < rest.len() implies all_chars(#[trigger] rest[k], p) by {}
        lemma_join_chars(rest, " "@, p);
        lemma_join_ends(rest, " "@);
    }
}

/// Every command keeps the items plain: if no item of the active list is
/// empty or holds a line break before a line is entered, the same is true
/// afterwards.
pub proof fn lemma_items_stay_plain(s: SessionView, line: Seq<char>)
    requires
        all_plain(s.active),
    ensures
        all_plain(turn_of(s, line).0.active),
{
    lemma_added_item_is_plain(line);
}

/// The store follows the session: if the store reads back as the active
/// list before a line is entered, and no item is empty or holds a line
/// break, then the store reads back as the active list afterwards too,
/// whatever the line was.
pub proof fn lemma_store_follows_session(s: SessionView, store: Seq<char>, line: Seq<char>)
    requires
        all_plain(s.active),
        lines(store) == s.active,
    ensures
        lines(store_after(store, turn_of(s, line).1)) == turn_of(s, line).0.active,
{
    lemma_items_stay_plain(s, line);
    lemma_plain_items_reload(turn_of(s, line).0.active);
}

/// Whatever is entered, and however often, a restart finds the active list
/// as the session left it: from a session whose store reads back as its
/// active list, with no item empty or holding a line break (an empty list
/// and an empty store, say), the store reads back as the active list after
/// any number of lines.
pub proof fn lemma_restart_finds_the_list(
    s: SessionView,
    store: Seq<char>,
    entered: Seq<Seq<char>>,
)
    requires
        all_plain(s.active),
        lines(store) == s.active,
    ensures
        all_plain(after_lines(s, store, entered).0.active),
        lines(after_lines(s, store, entered).1) == after_lines(s, store, entered).0.active,
    decreases entered.len(),
{
    if entered.len() > 0 {
        let (before, text) = after_lines(s, store, entered.drop_last());
        lemma_restart_finds_the_list(s, store, entered.drop_last());
        lemma_items_stay_plain(before, entered.last());
        lemma_store_follows_session(before, text, entered.last());
    }
}

/// Two items added to an empty list are there after a restart, the first
/// before the second: if two lines are `add` commands, then after both were
/// entered in a session that started with nothing stored, the store reads
/// back as their two items in that order.
pub proof fn lemma_added_items_reload(first: Seq<char>, second: Seq<char>)
    requires
        parse(first) is Add,
        parse(second) is Add,
    ensures
        ({
            let (s, store) = after_lines(
                session_from(None),
                Seq::empty(),
                seq![first, second],
            );
            &&& s.active == seq![parse(first)->Add_0, parse(second)->Add_0]
            &&& session_from(Some(store)).active == s.active
        }),
{
    let fresh = session_from(None);
    let nothing = Seq::<char>::empty();
    lemma_restart_finds_the_list(fresh, nothing, seq![first, second]);
    assert(after_lines(fresh, nothing, Seq::empty()) == (fresh, nothing));
    assert(seq![first].drop_last() == Seq::<Seq<char>>::empty());
    assert(after_lines(fresh, nothing, seq![first]).0 == turn_of(fresh, first).0);
    assert(seq![first, second].drop_last() == seq![first]);
}

} // verus!
