//! Characters and words: what counts as whitespace, and how a line of
//! text falls apart into whitespace-separated words.

use vstd::prelude::*;

verus! {

/// The characters with the Unicode property `White_Space`.
pub open spec fn is_space(c: char) -> bool {
    ||| '\u{9}' <= c <= '\u{D}'
    ||| c == ' '
    ||| c == '\u{85}'
    ||| c == '\u{A0}'
    ||| c == '\u{1680}'
    ||| '\u{2000}' <= c <= '\u{200A}'
    ||| c == '\u{2028}'
    ||| c == '\u{2029}'
    ||| c == '\u{202F}'
    ||| c == '\u{205F}'
    ||| c == '\u{3000}'
}

/// Whether `w` can be a word: it is not empty and holds no whitespace.
pub open spec fn is_word(w: Seq<char>) -> bool {
    w.len() > 0 && forall|j: int| 0 <= j < w.len() ==> !is_space(#[trigger] w[j])
}

/// Whether `s` holds whitespace only.
pub open spec fn is_blank(s: Seq<char>) -> bool {
    forall|j: int| 0 <= j < s.len() ==> is_space(#[trigger] s[j])
}

/// Whether every element of `items` can be a word.
pub open spec fn all_words(items: Seq<Seq<char>>) -> bool {
    forall|k: int| 0 <= k < items.len() ==> is_word(#[trigger] items[k])
}

/// Whether every character of `s` satisfies `p`.
pub open spec fn all_chars(s: Seq<char>, p: spec_fn(char) -> bool) -> bool {
    forall|j: int| 0 <= j < s.len() ==> p(#[trigger] s[j])
}

/// The view of every element of `items`, in order.
pub open spec fn texts<T: View<V = Seq<char>>>(items: Seq<T>) -> Seq<Seq<char>> {
    Seq::new(items.len(), |k: int| items[k]@)
}

/// The whitespace-separated words of `s`, in order: its maximal runs of
/// characters that are not whitespace.
///
/// The definition reads `s` one character at a time. A whitespace character
/// adds nothing; a character that follows a non-whitespace character extends
/// the last word; any other character starts a new word.
pub open spec fn words(s: Seq<char>) -> Seq<Seq<char>>
    decreases s.len(),
{
    if s.len() == 0 {
        Seq::empty()
    } else {
        let before = words(s.drop_last());
        let c = s.last();
        if is_space(c) {
            before
        } else if s.len() >= 2 && !is_space(s[s.len() - 2]) {
            before.drop_last().push(before.last().push(c))
        } else {
            before.push(seq![c])
        }
    }
}

/// The texts of `items` written one after another, with `sep` between
/// neighbours.
pub open spec fn join(items: Seq<Seq<char>>, sep: Seq<char>) -> Seq<char>
    decreases items.len(),
{
    if items.len() == 0 {
        Seq::empty()
    } else if items.len() == 1 {
        items[0]
    } else {
        join(items.drop_last(), sep) + sep + items.last()
    }
}

/// Decides whether `c` is a whitespace character.
pub fn is_whitespace(c: char) -> (r: bool)
    ensures
        r == is_space(c),
{
    ('\u{9}' <= c && c <= '\u{D}') || c == ' ' || c == '\u{85}' || c == '\u{A0}' || c == '\u{1680}'
        || ('\u{2000}' <= c && c <= '\u{200A}') || c == '\u{2028}' || c == '\u{2029}' || c
        == '\u{202F}' || c == '\u{205F}' || c == '\u{3000}'
}

/// The characters of `s`, in order.
pub fn to_chars(s: &str) -> (out: Vec<char>)
    ensures
        out@ == s@,
{
    let mut out: Vec<char> = Vec::new();
    for c in it: s.chars()
        invariant
            it.seq() == s@,
            out@ == s@.take(it.index()),
    {
        out.push(c);
    }
    out
}

/// The elements of `items` as string slices.
pub fn as_strs<'a>(items: &'a Vec<String>) -> (out: Vec<&'a str>)
    ensures
        texts(out@) == texts(items@),
{
    let mut out: Vec<&'a str> = Vec::new();
    let mut i: usize = 0;
    while i < items.len()
        invariant
            i <= items.len(),
            texts(out@) == texts(items@).take(i as int),
        decreases items.len() - i,
    {
        out.push(items[i].as_str());
        assert(texts(items@).take(i + 1) == texts(items@).take(i as int).push(items@[i as int]@));
        i += 1;
    }
    out
}

/// Whether `a` and `b` hold the same characters.
pub fn same_text(a: &str, b: &str) -> (r: bool)
    ensures
        r == (a@ == b@),
{
    let left = to_chars(a);
    let right = to_chars(b);
    if left.len() != right.len() {
        return false;
    }
    let mut i: usize = 0;
    while i < left.len()
        invariant
            left@ == a@,
            right@ == b@,
            left.len() == right.len(),
            i <= left.len(),
            forall|k: int| 0 <= k < i ==> a@[k] == b@[k],
        decreases left.len() - i,
    {
        if left[i] != right[i] {
            return false;
        }
        i += 1;
    }
    assert(a@ =~= b@);
    true
}

/// Splits `line` into its whitespace-separated words. Each word is cut out
/// of `line` by counting characters from its start, so the time taken grows
/// with the length of the line times the number of its words.
pub fn split_words<'a>(line: &'a str) -> (out: Vec<&'a str>)
    ensures
        texts(out@) == words(line@),
{
    let chars = to_chars(line);
    let n = chars.len();
    let mut out: Vec<&'a str> = Vec::new();
    let mut in_word = false;
    let mut start: usize = 0;
    let mut i: usize = 0;
    while i < n
        invariant
            chars@ == line@,
            n == chars.len(),
            i <= n,
            in_word ==> start < i,
            in_word <==> i > 0 && !is_space(chars@[i - 1]),
            words(line@.take(i as int)) == if in_word {
                texts(out@).push(line@.subrange(start as int, i as int))
            } else {
                texts(out@)
            },
        decreases n - i,
    {
        let c = chars[i];
        assert(line@.take(i + 1).drop_last() == line@.take(i as int));
        if is_whitespace(c) {
            if in_word {
                out.push(line.substring_char(start, i));
                in_word = false;
            }
        } else {
            if in_word {
                assert(line@.subrange(start as int, i as int).push(c) == line@.subrange(
                    start as int,
                    i + 1,
                ));
            } else {
                start = i;
                in_word = true;
                assert(seq![c] == line@.subrange(i as int, i + 1));
            }
        }
        i += 1;
    }
    assert(line@.take(n as int) == line@);
    if in_word {
        out.push(line.substring_char(start, n));
    }
    out
}

/// Writes the texts of `items` one after another, with `sep` between
/// neighbours.
pub fn join_texts(items: &Vec<&str>, sep: &str) -> (out: String)
    ensures
        out@ == join(texts(items@), sep@),
{
    let mut out = String::new();
    let mut i: usize = 0;
    while i < items.len()
        invariant
            i <= items.len(),
            out@ == join(texts(items@).take(i as int), sep@),
        decreases items.len() - i,
    {
        assert(texts(items@).take(i + 1).drop_last() == texts(items@).take(i as int));
        if i > 0 {
            out.append(sep);
        }
        out.append(items[i]);
        i += 1;
    }
    assert(texts(items@).take(items.len() as int) == texts(items@));
    out
}

/// Every word of a text is non-empty and free of whitespace. A text that
/// ends in a character that is not whitespace has a last word, which ends in
/// that character.
pub proof fn lemma_words_are_words(s: Seq<char>)
    ensures
        all_words(words(s)),
        s.len() > 0 && !is_space(s.last()) ==> words(s).len() > 0 && words(s).last().last()
            == s.last(),
    decreases s.len(),
{
    if s.len() > 0 {
        lemma_words_are_words(s.drop_last());
    }
}

/// A text of whitespace has no words.
pub proof fn lemma_words_of_blank(s: Seq<char>)
    requires
        is_blank(s),
    ensures
        words(s) == Seq::<Seq<char>>::empty(),
    decreases s.len(),
{
    if s.len() > 0 {
        lemma_words_of_blank(s.drop_last());
    }
}

/// A text without whitespace is its own single word.
pub proof fn lemma_words_of_word(w: Seq<char>)
    requires
        is_word(w),
    ensures
        words(w) == seq![w],
    decreases w.len(),
{
    if w.len() == 1 {
        assert(words(w.drop_last()) == Seq::<Seq<char>>::empty());
        assert(seq![w.last()] == w);
    } else {
        let front = w.drop_last();
        lemma_words_of_word(front);
        assert(front.push(w.last()) == w);
    }
}

/// The words of two texts written one after the other are the words of the
/// first followed by the words of the second, as long as no word runs
/// across the seam: one of the texts is empty, or the first ends in
/// whitespace, or the second begins with it.
pub proof fn lemma_words_concat(a: Seq<char>, b: Seq<char>)
    requires
        a.len() == 0 || b.len() == 0 || is_space(a.last()) || is_space(b[0]),
    ensures
        words(a + b) == words(a) + words(b),
    decreases b.len(),
{
    if b.len() > 0 {
        assert((a + b).drop_last() == a + b.drop_last());
        lemma_words_concat(a, b.drop_last());
        lemma_words_are_words(b.drop_last());
    }
}

/// Read from the left: after leading whitespace, the first word runs up to
/// the next whitespace or to the end, and the words behind it are those of
/// what follows.
pub proof fn lemma_words_from_the_left(lead: Seq<char>, word: Seq<char>, rest: Seq<char>)
    requires
        is_blank(lead),
        is_word(word),
        rest.len() == 0 || is_space(rest[0]),
    ensures
        words(lead + word + rest) == seq![word] + words(rest),
{
    lemma_words_of_blank(lead);
    lemma_words_of_word(word);
    lemma_words_concat(lead, word);
    lemma_words_concat(lead + word, rest);
}

/// Joining by whitespace and splitting again gives the words back.
pub proof fn lemma_words_of_join(items: Seq<Seq<char>>, sep: Seq<char>)
    requires
        all_words(items),
        sep.len() > 0,
        is_blank(sep),
    ensures
        words(join(items, sep)) == items,
    decreases items.len(),
{
    if items.len() == 1 {
        lemma_words_of_word(items[0]);
    } else if items.len() >= 2 {
        let front = items.drop_last();
        let head = join(front, sep);
        lemma_words_of_join(front, sep);
        lemma_words_concat(head, sep);
        lemma_words_of_blank(sep);
        lemma_words_concat(head + sep, items.last());
        lemma_words_of_word(items.last());
    }
}

/// A joined text of two items or more is the first item, the separator, and
/// the joined text of the others.
pub proof fn lemma_join_first(items: Seq<Seq<char>>, sep: Seq<char>)
    requires
        items.len() >= 2,
    ensures
        join(items, sep) == items[0] + sep + join(items.skip(1), sep),
    decreases items.len(),
{
    let front = items.drop_last();
    let tail = items.skip(1);
    assert(tail.drop_last() == front.skip(1));
    if items.len() == 2 {
        assert(join(front, sep) == items[0]);
    } else {
        lemma_join_first(front, sep);
    }
}

/// The joined text begins with the first item and ends with the last one.
pub proof fn lemma_join_ends(items: Seq<Seq<char>>, sep: Seq<char>)
    requires
        items.len() > 0,
    ensures
        items[0].is_prefix_of(join(items, sep)),
        items.last().is_suffix_of(join(items, sep)),
    decreases items.len(),
{
    if items.len() >= 2 {
        lemma_join_ends(items.drop_last(), sep);
    }
}

/// Joining adds no characters of its own: what holds of every character of
/// the items and of the separator holds of every character of the joined
/// text.
pub proof fn lemma_join_chars(items: Seq<Seq<char>>, sep: Seq<char>, p: spec_fn(char) -> bool)
    requires
        forall|k: int| 0 <= k < items.len() ==> all_chars(#[trigger] items[k], p),
        items.len() >= 2 ==> all_chars(sep, p),
    ensures
        all_chars(join(items, sep), p),
    decreases items.len(),
{
    if items.len() >= 2 {
        lemma_join_chars(items.drop_last(), sep, p);
    }
}

} // verus!
