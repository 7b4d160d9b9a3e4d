use todo_list::command::{parse_input, Command};
use todo_list::number::parse_index;
use todo_list::text::{is_whitespace, join_texts, same_text, split_words, to_chars};

fn add(text: &str) -> Command {
    Command::Add(text.to_string())
}

#[test]
fn add_takes_the_rest_of_the_line() {
    assert_eq!(parse_input("add buy milk\n"), add("buy milk"));
    assert_eq!(parse_input("add x"), add("x"));
}

#[test]
fn add_joins_words_with_single_spaces() {
    assert_eq!(parse_input("add   buy \t milk \n"), add("buy milk"));
    assert_eq!(parse_input("  add\u{3000}a\u{a0}\u{a0}b\r\n"), add("a b"));
}

#[test]
fn add_keeps_words_that_look_like_commands() {
    assert_eq!(parse_input("add add close 1"), add("add close 1"));
}

#[test]
fn add_without_text_is_invalid() {
    assert_eq!(parse_input("add"), Command::Invalid);
    assert_eq!(parse_input("add \t  \n"), Command::Invalid);
}

#[test]
fn close_reads_its_index() {
    assert_eq!(parse_input("close 2\n"), Command::Close(2));
    assert_eq!(parse_input("close 0"), Command::Close(0));
    assert_eq!(parse_input("close 007 and more"), Command::Close(7));
    assert_eq!(parse_input("close +3"), Command::Close(3));
}

#[test]
fn close_without_a_number_is_invalid() {
    assert_eq!(parse_input("close"), Command::Invalid);
    assert_eq!(parse_input("close abc"), Command::Invalid);
    assert_eq!(parse_input("close -1"), Command::Invalid);
    assert_eq!(parse_input("close 1.5"), Command::Invalid);
    assert_eq!(parse_input("close 2x"), Command::Invalid);
    assert_eq!(parse_input("close +"), Command::Invalid);
}

#[test]
fn swap_reads_both_indices() {
    assert_eq!(parse_input("swap 1 3\n"), Command::Swap(1, 3));
    assert_eq!(parse_input("swap 3 1 9"), Command::Swap(3, 1));
    assert_eq!(parse_input("swap 2 2"), Command::Swap(2, 2));
}

#[test]
fn swap_without_two_numbers_is_invalid() {
    assert_eq!(parse_input("swap"), Command::Invalid);
    assert_eq!(parse_input("swap 1"), Command::Invalid);
    assert_eq!(parse_input("swap a 2"), Command::Invalid);
    assert_eq!(parse_input("swap 1 b"), Command::Invalid);
    assert_eq!(parse_input("swap 1,2"), Command::Invalid);
}

#[test]
fn exit_and_history_ignore_what_follows() {
    assert_eq!(parse_input("exit"), Command::Exit);
    assert_eq!(parse_input("exit now please\n"), Command::Exit);
    assert_eq!(parse_input("history"), Command::History);
    assert_eq!(parse_input("\thistory 5\n"), Command::History);
}

#[test]
fn other_first_words_are_invalid() {
    assert_eq!(parse_input(""), Command::Invalid);
    assert_eq!(parse_input(" \n"), Command::Invalid);
    assert_eq!(parse_input("list"), Command::Invalid);
    assert_eq!(parse_input("ADD x"), Command::Invalid);
    assert_eq!(parse_input("addx y"), Command::Invalid);
    assert_eq!(parse_input("ad d"), Command::Invalid);
    assert_eq!(parse_input("1 close"), Command::Invalid);
    assert_eq!(parse_input("close\u{200b}1"), Command::Invalid);
}

#[test]
fn parsing_is_deterministic() {
    let line = "swap 4 2\n";
    assert_eq!(parse_input(line), parse_input(line));
}

#[test]
fn index_bounds_follow_the_machine_word() {
    let max = usize::MAX.to_string();
    assert_eq!(parse_index(&max), Some(usize::MAX));
    assert_eq!(parse_index(&format!("000{}", max)), Some(usize::MAX));
    let mut over = max.clone();
    over.push('0');
    assert_eq!(parse_index(&over), None);
    let last = max.chars().last().unwrap();
    if last != '9' {
        let mut next = max[..max.len() - 1].to_string();
        next.push((last as u8 + 1) as char);
        assert_eq!(parse_index(&next), None);
    }
    assert_eq!(parse_input(&format!("close {}", over)), Command::Invalid);
}

#[test]
fn parse_index_agrees_with_the_standard_parser() {
    let samples = [
        "", "0", "1", "42", "+", "-", "+0", "-0", "++1", "+-1", "1+", "0x10", "١٢", "１２", "1 ",
        " 1", "1_000", "18446744073709551615", "18446744073709551616", "4294967295", "4294967296",
        "99999999999999999999999", "00000000000000000000000000017", "+18446744073709551615", "a",
        "9a", "1e3",
    ];
    for s in samples {
        assert_eq!(parse_index(s), s.parse::<usize>().ok(), "{:?}", s);
    }
}

#[test]
fn is_whitespace_agrees_with_the_standard_library() {
    for code in 0..=0x10FFFFu32 {
        if let Some(c) = char::from_u32(code) {
            assert_eq!(is_whitespace(c), c.is_whitespace(), "U+{:04X}", code);
        }
    }
}

#[test]
fn split_words_agrees_with_the_standard_library() {
    let samples = [
        "", " ", "a", " a", "a ", "a b", "  a   b  ", "\ta\nb\r\nc", "über straße", "a\u{2003}b",
        "a\u{200b}b", "日本語 テキスト\u{3000}です", "x\u{85}y\u{1680}z", "one",
        "  leading and trailing  \n",
    ];
    for s in samples {
        let expected: Vec<&str> = s.split_whitespace().collect();
        assert_eq!(split_words(s), expected, "{:?}", s);
    }
}

#[test]
fn text_helpers() {
    assert_eq!(to_chars("añb"), vec!['a', 'ñ', 'b']);
    assert!(same_text("add", "add"));
    assert!(!same_text("add", "ad"));
    assert!(!same_text("add", "adD"));
    assert!(same_text("", ""));
    assert_eq!(join_texts(&vec!["a", "b", "c"], ", "), "a, b, c");
    assert_eq!(join_texts(&vec!["a"], ", "), "a");
    assert_eq!(join_texts(&vec![], ", "), "");
    assert_eq!(join_texts(&vec!["", ""], "-"), "-");
}
