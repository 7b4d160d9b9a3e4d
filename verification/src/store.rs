//! The text form in which the active list is kept between sessions: one
//! item per line.

use crate::text::{all_chars, as_strs, join, join_texts, lemma_join_first, texts, to_chars};
use vstd::prelude::*;

verus! {

/// The number of characters of `s` that stand before its first newline;
/// the length of `s` if it has none.
pub open spec fn line_len(s: Seq<char>) -> nat
    decreases s.len(),
{
    if s.len() == 0 || s[0] == '\n' {
        0
    } else {
        1 + line_len(s.drop_first())
    }
}

/// `line` without the carriage return that may end it.
pub open spec fn without_cr(line: Seq<char>) -> Seq<char> {
    if line.len() > 0 && line.last() == '\r' {
        line.drop_last()
    } else {
        line
    }
}

/// The lines of `s`. A line ends at a newline, or at a carriage return
/// directly followed by a newline; neither belongs to the line. What follows
/// the last newline is a line too, unless it is empty.
pub open spec fn lines(s: Seq<char>) -> Seq<Seq<char>>
    decreases s.len(),
{
    if s.len() == 0 {
        Seq::empty()
    } else {
        let n = line_len(s);
        if n >= s.len() {
            seq![s]
        } else {
            seq![without_cr(s.take(n as int))] + lines(s.skip(n as int + 1))
        }
    }
}

/// The stored text of the list `items`: its items with a newline between
/// neighbours.
pub open spec fn stored(items: Seq<Seq<char>>) -> Seq<char> {
    join(items, "\n"@)
}

/// The lists that come back unchanged when their stored text is read
/// again, and no others: no item holds a newline, no item but the last ends
/// in a carriage return, and the last item is not empty.
pub open spec fn reloads(items: Seq<Seq<char>>) -> bool {
    &&& forall|k: int| 0 <= k < items.len() ==> !(#[trigger] items[k]).contains('\n')
    &&& forall|k: int|
        0 <= k < items.len() - 1 ==> without_cr(#[trigger] items[k]) == items[k]
    &&& items.len() > 0 ==> items.last().len() > 0
}

/// Whether `item` is a non-empty text without a line break in it.
pub open spec fn is_plain(item: Seq<char>) -> bool {
    item.len() > 0 && all_chars(item, |c: char| c != '\n' && c != '\r')
}

/// Whether every element of `items` is a non-empty text without a line
/// break in it.
pub open spec fn all_plain(items: Seq<Seq<char>>) -> bool {
    forall|k: int| 0 <= k < items.len() ==> is_plain(#[trigger] items[k])
}

/// Writes the list `items` as text, one item per line.
pub fn encode(items: &Vec<String>) -> (contents: String)
    ensures
        contents@ == stored(texts(items@)),
{
    let parts = as_strs(items);
    join_texts(&parts, "\n")
}

/// Reads a list back from its text, one item per line. Each line is cut
/// out of `contents` by counting characters from its start, so the time
/// taken grows with the length of the text times the number of its lines.
pub fn decode(contents: &str) -> (items: Vec<String>)
    ensures
        texts(items@) == lines(contents@),
{
    let chars = to_chars(contents);
    let n = chars.len();
    let mut items: Vec<String> = Vec::new();
    let mut start: usize = 0;
    assert(contents@.skip(0) == contents@);
    while start < n
        invariant
            chars@ == contents@,
            n == chars.len(),
            start <= n,
            lines(contents@) == texts(items@) + lines(contents@.skip(start as int)),
        decreases n - start,
    {
        let mut end: usize = start;
        while end < n && chars[end] != '\n'
            invariant
                chars@ == contents@,
                n == chars.len(),
                start <= end <= n,
                forall|k: int| start <= k < end ==> contents@[k] != '\n',
            decreases n - end,
        {
            end += 1;
        }
        let ghost rest = contents@.skip(start as int);
        proof {
            lemma_line_len(rest, end - start);
        }
        if end == n {
            let line = contents.substring_char(start, n);
            items.push(String::from_str(line));
            start = n;
        } else {
            let stop: usize = if end > start && chars[end - 1] == '\r' {
                end - 1
            } else {
                end
            };
            let line = contents.substring_char(start, stop);
            assert(line@ == without_cr(rest.take(end - start)));
            items.push(String::from_str(line));
            assert(rest.skip(end - start + 1) == contents@.skip(end + 1));
            start = end + 1;
        }
    }
    items
}

/// `line_len` finds the first newline: if none of the first `n` characters
/// of `s` is a newline, and `s` ends there or has a newline there, then the
/// first line of `s` has `n` characters.
pub proof fn lemma_line_len(s: Seq<char>, n: int)
    requires
        0 <= n <= s.len(),
        forall|k: int| 0 <= k < n ==> s[k] != '\n',
        n == s.len() || s[n] == '\n',
    ensures
        line_len(s) == n,
    decreases n,
{
    if n > 0 {
        lemma_line_len(s.drop_first(), n - 1);
    }
}

/// The first line of `s` ends before the first newline of `s`: none of its
/// characters is a newline, and a newline follows it unless `s` ends there.
pub proof fn lemma_first_line(s: Seq<char>)
    ensures
        line_len(s) <= s.len(),
        forall|k: int| 0 <= k < line_len(s) ==> s[k] != '\n',
        line_len(s) < s.len() ==> s[line_len(s) as int] == '\n',
    decreases s.len(),
{
    if s.len() > 0 && s[0] != '\n' {
        let rest = s.drop_first();
        lemma_first_line(rest);
        assert forall|k: int| 0 <= k < line_len(s) implies s[k] != '\n' by {
            if k > 0 {
                assert(s[k] == rest[k - 1]);
            }
        }
    }
}

/// No line holds a newline.
pub proof fn lemma_lines_hold_no_newline(s: Seq<char>)
    ensures
        forall|k: int| 0 <= k < lines(s).len() ==> !(#[trigger] lines(s)[k]).contains('\n'),
    decreases s.len(),
{
    if s.len() > 0 {
        let n = line_len(s) as int;
        lemma_first_line(s);
        if n < s.len() {
            lemma_lines_hold_no_newline(s.skip(n + 1));
            assert forall|k: int| 0 <= k < lines(s).len() implies !(#[trigger] lines(
                s,
            )[k]).contains('\n') by {
                if k > 0 {
                    assert(lines(s)[k] == lines(s.skip(n + 1))[k - 1]);
                }
            }
        }
    }
}

/// A newline after the last line changes nothing: a text that ends in
/// neither a newline nor a carriage return has the same lines with one
/// newline added at its end.
pub proof fn lemma_final_newline_is_optional(s: Seq<char>)
    requires
        s.len() > 0,
        s.last() != '\n',
        s.last() != '\r',
    ensures
        lines(s.push('\n')) == lines(s),
    decreases s.len(),
{
    let t = s.push('\n');
    let n = line_len(s) as int;
    lemma_first_line(s);
    lemma_line_len(t, n);
    if n < s.len() {
        let rest = s.skip(n + 1);
        assert(t.take(n) == s.take(n));
        assert(t.skip(n + 1) == rest.push('\n'));
        lemma_final_newline_is_optional(rest);
    } else {
        assert(t.take(n) == s);
        assert(lines(t.skip(n + 1)) == Seq::<Seq<char>>::empty());
    }
}

/// Reading the stored text of a list gives the list back, item by item and
/// in order, whenever `reloads` holds of it.
pub proof fn lemma_reload(items: Seq<Seq<char>>)
    requires
        reloads(items),
    ensures
        lines(stored(items)) == items,
    decreases items.len(),
{
    reveal_strlit("\n");
    let nl = "\n"@;
    let s = stored(items);
    if items.len() == 1 {
        lemma_line_len(s, s.len() as int);
    } else if items.len() >= 2 {
        let head = items[0];
        let tail = items.skip(1);
        let rest = stored(tail);
        lemma_join_first(items, nl);
        lemma_line_len(s, head.len() as int);
        assert(s.take(head.len() as int) == head);
        assert(s.skip(head.len() as int + 1) == rest);
        lemma_reload(tail);
    }
}

/// Only such lists come back: a list that is read back unchanged from its
/// stored text meets `reloads`.
pub proof fn lemma_reload_only(items: Seq<Seq<char>>)
    requires
        lines(stored(items)) == items,
    ensures
        reloads(items),
    decreases items.len(),
{
    reveal_strlit("\n");
    let nl = "\n"@;
    let s = stored(items);
    lemma_lines_hold_no_newline(s);
    assert forall|k: int| 0 <= k < items.len() implies !(#[trigger] items[k]).contains(
        '\n',
    ) by {
        assert(items[k] == lines(s)[k]);
    }
    if items.len() >= 2 {
        let head = items[0];
        let tail = items.skip(1);
        lemma_join_first(items, nl);
        lemma_line_len(s, head.len() as int);
        assert(s.take(head.len() as int) == head);
        assert(s.skip(head.len() as int + 1) == stored(tail));
        assert(lines(s)[0] == without_cr(head));
        assert(lines(s).skip(1) == lines(stored(tail)));
        lemma_reload_only(tail);
        assert forall|k: int| 0 <= k < items.len() - 1 implies without_cr(#[trigger] items[k])
            == items[k] by {
            if k > 0 {
                assert(items[k] == tail[k - 1]);
            }
        }
        assert(items.last() == tail.last());
    }
}

/// A list of non-empty items without line breaks comes back unchanged from
/// its stored text.
pub proof fn lemma_plain_items_reload(items: Seq<Seq<char>>)
    requires
        all_plain(items),
    ensures
        reloads(items),
        lines(stored(items)) == items,
{
    lemma_reload(items);
}

} // verus!
