//! The state of one session, the active list and the history of closed
//! items, and what each command does to it.

use crate::command::{Command, CommandView};
use crate::text::texts;
use vstd::prelude::*;

verus! {

/// The two lists that a session owns.
#[derive(Debug, PartialEq, Eq)]
pub struct Session {
    /// The open items, in display order.
    pub active: Vec<String>,
    /// The items closed during this session, in the order of their closing.
    pub closed: Vec<String>,
}

/// A session as a mathematical value: two sequences of item texts.
pub struct SessionView {
    pub active: Seq<Seq<char>>,
    pub closed: Seq<Seq<char>>,
}

impl View for Session {
    type V = SessionView;

    open spec fn view(&self) -> SessionView {
        SessionView { active: texts(self.active@), closed: texts(self.closed@) }
    }
}

/// What a command did, for the caller to report and to act on.
#[derive(Debug, PartialEq, Eq)]
pub enum Outcome {
    /// An item with this text was appended to the active list.
    Added(String),
    /// The item with this text left the active list for the history.
    Closed(String),
    /// The items at these two 1-based positions changed places.
    Swapped(usize, usize),
    /// A position was outside the active list; nothing changed.
    InvalidIndex,
    /// The command was invalid; nothing changed.
    InvalidCommand,
    /// The history is to be shown; nothing changed.
    History,
    /// The session is over; nothing changed.
    Exit,
}

/// An outcome as a mathematical value.
pub enum OutcomeView {
    Added(Seq<char>),
    Closed(Seq<char>),
    Swapped(usize, usize),
    InvalidIndex,
    InvalidCommand,
    History,
    Exit,
}

impl View for Outcome {
    type V = OutcomeView;

    open spec fn view(&self) -> OutcomeView {
        match self {
            Outcome::Added(item) => OutcomeView::Added(item@),
            Outcome::Closed(item) => OutcomeView::Closed(item@),
            Outcome::Swapped(from, to) => OutcomeView::Swapped(*from, *to),
            Outcome::InvalidIndex => OutcomeView::InvalidIndex,
            Outcome::InvalidCommand => OutcomeView::InvalidCommand,
            Outcome::History => OutcomeView::History,
            Outcome::Exit => OutcomeView::Exit,
        }
    }
}

impl OutcomeView {
    /// Whether the command changed the active list, so that the stored copy
    /// has to be written anew.
    pub open spec fn persists(self) -> bool {
        self is Added || self is Closed || self is Swapped
    }
}

/// Whether `index` is the 1-based position of an item in `list`.
pub open spec fn in_range(list: Seq<Seq<char>>, index: usize) -> bool {
    1 <= index <= list.len()
}

/// `list` with the items at the 0-based positions `i` and `j` exchanged.
pub open spec fn exchanged(list: Seq<Seq<char>>, i: int, j: int) -> Seq<Seq<char>>
    recommends
        0 <= i < list.len(),
        0 <= j < list.len(),
{
    list.update(i, list[j]).update(j, list[i])
}

/// The session after an item with the text `item` was added.
pub open spec fn after_add(s: SessionView, item: Seq<char>) -> SessionView {
    SessionView { active: s.active.push(item), closed: s.closed }
}

/// The session after the item at the 1-based position `index` was closed:
/// it leaves the active list, the items behind it move up, and it becomes
/// the last entry of the history.
pub open spec fn after_close(s: SessionView, index: usize) -> SessionView
    recommends
        in_range(s.active, index),
{
    SessionView {
        active: s.active.remove(index - 1),
        closed: s.closed.push(s.active[index - 1]),
    }
}

/// The session after the items at the 1-based positions `from` and `to`
/// changed places.
pub open spec fn after_swap(s: SessionView, from: usize, to: usize) -> SessionView
    recommends
        in_range(s.active, from),
        in_range(s.active, to),
{
    SessionView { active: exchanged(s.active, from - 1, to - 1), closed: s.closed }
}

/// What `command` does to the session `s`: the session afterwards, and the
/// outcome to report.
pub open spec fn step(s: SessionView, command: CommandView) -> (SessionView, OutcomeView) {
    match command {
        CommandView::Add(item) => (after_add(s, item), OutcomeView::Added(item)),
        CommandView::Close(index) => if in_range(s.active, index) {
            (after_close(s, index), OutcomeView::Closed(s.active[index - 1]))
        } else {
            (s, OutcomeView::InvalidIndex)
        },
        CommandView::Swap(from, to) => if in_range(s.active, from) && in_range(s.active, to) {
            (after_swap(s, from, to), OutcomeView::Swapped(from, to))
        } else {
            (s, OutcomeView::InvalidIndex)
        },
        CommandView::Exit => (s, OutcomeView::Exit),
        CommandView::History => (s, OutcomeView::History),
        CommandView::Invalid => (s, OutcomeView::InvalidCommand),
    }
}

impl Outcome {
    /// Whether the command changed the active list, so that the stored copy
    /// has to be written anew.
    pub fn persists(&self) -> (r: bool)
        ensures
            r == self@.persists(),
    {
        match self {
            Outcome::Added(_) | Outcome::Closed(_) | Outcome::Swapped(_, _) => true,
            _ => false,
        }
    }

    /// Whether the session ends with this outcome.
    pub fn ends_session(&self) -> (r: bool)
        ensures
            r == (self@ is Exit),
    {
        match self {
            Outcome::Exit => true,
            _ => false,
        }
    }
}

impl Session {
    /// A session that starts with the items `active` and an empty history.
    pub fn new(active: Vec<String>) -> (session: Session)
        ensures
            session@.active == texts(active@),
            session@.closed == Seq::<Seq<char>>::empty(),
    {
        Session { active, closed: Vec::new() }
    }

    /// Appends `item` to the active list.
    pub fn add(&mut self, item: String) -> (outcome: Outcome)
        ensures
            (final(self)@, outcome@) == step(old(self)@, CommandView::Add(item@)),
    {
        let report = item.clone();
        self.active.push(item);
        assert(texts(self.active@) == texts(old(self).active@).push(item@));
        Outcome::Added(report)
    }

    /// Closes the item at the 1-based position `index`, if there is one.
    pub fn close(&mut self, index: usize) -> (outcome: Outcome)
        ensures
            (final(self)@, outcome@) == step(old(self)@, CommandView::Close(index)),
            !in_range(old(self)@.active, index) ==> {
                &&& final(self)@ == old(self)@
                &&& outcome@ is InvalidIndex
            },
    {
        if index > 0 && index <= self.active.len() {
            let item = self.active.remove(index - 1);
            assert(texts(self.active@) == texts(old(self).active@).remove(index - 1));
            let report = item.clone();
            self.closed.push(item);
            assert(texts(self.closed@) == texts(old(self).closed@).push(item@));
            Outcome::Closed(report)
        } else {
            Outcome::InvalidIndex
        }
    }

    /// Exchanges the items at the 1-based positions `from` and `to`, if both
    /// are there.
    pub fn swap(&mut self, from: usize, to: usize) -> (outcome: Outcome)
        ensures
            (final(self)@, outcome@) == step(old(self)@, CommandView::Swap(from, to)),
            !in_range(old(self)@.active, from) || !in_range(old(self)@.active, to) ==> {
                &&& final(self)@ == old(self)@
                &&& outcome@ is InvalidIndex
            },
            in_range(old(self)@.active, from) && from == to ==> final(self)@ == old(self)@,
    {
        let len = self.active.len();
        if from > 0 && to > 0 && from <= len && to <= len {
            if from != to {
                let mut held = String::new();
                self.active.set_and_swap(from - 1, &mut held);
                self.active.set_and_swap(to - 1, &mut held);
                self.active.set_and_swap(from - 1, &mut held);
            }
            assert(texts(self.active@) == exchanged(
                texts(old(self).active@),
                from - 1,
                to - 1,
            ));
            Outcome::Swapped(from, to)
        } else {
            Outcome::InvalidIndex
        }
    }

    /// Applies one command to the session.
    pub fn apply(&mut self, command: Command) -> (outcome: Outcome)
        ensures
            (final(self)@, outcome@) == step(old(self)@, command@),
    {
        match command {
            Command::Add(item) => self.add(item),
            Command::Close(index) => self.close(index),
            Command::Swap(from, to) => self.swap(from, to),
            Command::Exit => Outcome::Exit,
            Command::History => Outcome::History,
            Command::Invalid => Outcome::InvalidCommand,
        }
    }
}

/// Closing at a position outside the active list, such as zero or the
/// position after the last item, changes neither list.
pub proof fn lemma_close_out_of_range(s: SessionView, index: usize)
    requires
        index == 0 || index > s.active.len(),
    ensures
        step(s, CommandView::Close(index)) == (s, OutcomeView::InvalidIndex),
{
}

/// A close takes one item out of the active list and keeps the others in
/// their order: those before it stay, those behind it move up by one.
pub proof fn lemma_close_places(s: SessionView, index: usize)
    requires
        in_range(s.active, index),
    ensures
        ({
            let t = step(s, CommandView::Close(index)).0;
            &&& t.active.len() == s.active.len() - 1
            &&& forall|k: int| 0 <= k < index - 1 ==> t.active[k] == s.active[k]
            &&& forall|k: int| index - 1 <= k < t.active.len() ==> t.active[k] == s.active[k + 1]
            &&& t.closed == s.closed.push(s.active[index - 1])
        }),
{
}

/// Swapping with a position outside the active list changes neither list.
pub proof fn lemma_swap_out_of_range(s: SessionView, from: usize, to: usize)
    requires
        !in_range(s.active, from) || !in_range(s.active, to),
    ensures
        step(s, CommandView::Swap(from, to)) == (s, OutcomeView::InvalidIndex),
{
}

/// Swapping an item with itself leaves the active list as it is, in content
/// and in order.
pub proof fn lemma_swap_with_itself(s: SessionView, index: usize)
    requires
        in_range(s.active, index),
    ensures
        step(s, CommandView::Swap(index, index)) == (s, OutcomeView::Swapped(index, index)),
{
    assert(exchanged(s.active, index - 1, index - 1) =~= s.active);
}

/// Swapping the same two items twice brings the active list back.
pub proof fn lemma_swap_twice(s: SessionView, from: usize, to: usize)
    requires
        in_range(s.active, from),
        in_range(s.active, to),
    ensures
        step(step(s, CommandView::Swap(from, to)).0, CommandView::Swap(from, to)).0 == s,
{
    let once = exchanged(s.active, from - 1, to - 1);
    assert(exchanged(once, from - 1, to - 1) =~= s.active);
}

/// A swap keeps the length of the active list, puts each of the two items
/// in the other's place, and leaves every other item where it was.
pub proof fn lemma_swap_places(s: SessionView, from: usize, to: usize)
    requires
        in_range(s.active, from),
        in_range(s.active, to),
    ensures
        ({
            let t = step(s, CommandView::Swap(from, to)).0;
            &&& t.closed == s.closed
            &&& t.active.len() == s.active.len()
            &&& t.active[from - 1] == s.active[to - 1]
            &&& t.active[to - 1] == s.active[from - 1]
            &&& forall|k: int|
                0 <= k < s.active.len() && k != from - 1 && k != to - 1 ==> t.active[k]
                    == s.active[k]
        }),
{
}

/// A command that gives nothing to persist has left both lists as they
/// were.
pub proof fn lemma_nothing_to_persist(s: SessionView, command: CommandView)
    requires
        !step(s, command).1.persists(),
    ensures
        step(s, command).0 == s,
{
}

/// The history only grows, and only at its end: after any command it still
/// begins with what it held before, and it is longer by one exactly after a
/// close that was carried out.
pub proof fn lemma_history_grows_at_its_end(s: SessionView, command: CommandView)
    ensures
        ({
            let (t, outcome) = step(s, command);
            &&& s.closed.is_prefix_of(t.closed)
            &&& outcome matches OutcomeView::Closed(item) ==> t.closed == s.closed.push(item)
            &&& !(outcome is Closed) ==> t.closed == s.closed
        }),
{
}

/// Two closes in a row leave both items in the history, in the order in
/// which they were closed, and showing the history changes nothing.
pub proof fn lemma_history_keeps_closing_order(s: SessionView, first: usize, second: usize)
    requires
        in_range(s.active, first),
        in_range(after_close(s, first).active, second),
    ensures
        ({
            let once = step(s, CommandView::Close(first)).0;
            let twice = step(once, CommandView::Close(second)).0;
            &&& twice.closed == s.closed + seq![s.active[first - 1], once.active[second - 1]]
            &&& step(twice, CommandView::History) == (twice, OutcomeView::History)
        }),
{
}

} // verus!
