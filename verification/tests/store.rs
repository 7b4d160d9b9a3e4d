use todo_list::command::parse_input;
use todo_list::session::Session;
use todo_list::store::{decode, encode};

fn list(items: &[&str]) -> Vec<String> {
    items.iter().map(|s| s.to_string()).collect()
}

#[test]
fn encode_puts_a_newline_between_items() {
    assert_eq!(encode(&list(&["a", "b c", "d"])), "a\nb c\nd");
    assert_eq!(encode(&list(&["only"])), "only");
    assert_eq!(encode(&Vec::new()), "");
}

#[test]
fn decode_splits_at_newlines() {
    assert_eq!(decode("a\nb c\nd"), list(&["a", "b c", "d"]));
    assert_eq!(decode("a\nb\n"), list(&["a", "b"]));
    assert_eq!(decode(""), Vec::<String>::new());
    assert_eq!(decode("\n"), list(&[""]));
    assert_eq!(decode("a\n\nb"), list(&["a", "", "b"]));
    assert_eq!(decode("a\r\nb\r\n"), list(&["a", "b"]));
    assert_eq!(decode("a\rb\r"), list(&["a\rb\r"]));
    assert_eq!(decode("a\r\r\n"), list(&["a\r"]));
}

#[test]
fn decode_agrees_with_the_standard_library() {
    let samples = [
        "", "\n", "\r", "\r\n", "\n\n", "a", "a\n", "a\r", "a\r\n", "a\nb", "a\r\nb", "a\n\rb",
        "\na", "\r\na\r", "ä\nö\r\nü", "one\ntwo\nthree\n", "x\r\r\ny", "\n\r\n\n", "tab\there\n",
    ];
    for s in samples {
        let expected: Vec<String> = s.lines().map(|x| x.to_string()).collect();
        assert_eq!(decode(s), expected, "{:?}", s);
    }
}

#[test]
fn added_items_survive_a_reload() {
    let mut session = Session::new(decode(""));
    session.apply(parse_input("add buy milk\n"));
    let first = encode(&session.active);
    session.apply(parse_input("add walk dog\n"));
    let second = encode(&session.active);
    assert_eq!(decode(&first), list(&["buy milk"]));
    let reloaded = Session::new(decode(&second));
    assert_eq!(reloaded.active, list(&["buy milk", "walk dog"]));
    assert!(reloaded.closed.is_empty());
}

#[test]
fn stored_text_follows_every_change() {
    let mut session = Session::new(decode("a\nb\nc\n"));
    session.apply(parse_input("swap 1 3"));
    assert_eq!(encode(&session.active), "c\nb\na");
    session.apply(parse_input("close 2"));
    assert_eq!(encode(&session.active), "c\na");
    session.apply(parse_input("add d e"));
    assert_eq!(encode(&session.active), "c\na\nd e");
    assert_eq!(decode(&encode(&session.active)), session.active);
}

#[test]
fn a_final_newline_is_optional() {
    assert_eq!(decode("a\nb\n"), decode("a\nb"));
    assert_eq!(decode("one\n"), list(&["one"]));
    assert_eq!(decode("one\r\n"), list(&["one"]));
}

#[test]
fn items_with_line_breaks_do_not_reload() {
    assert_eq!(decode(&encode(&list(&["a\nb"]))), list(&["a", "b"]));
    assert_eq!(decode(&encode(&list(&["a\r", "b"]))), list(&["a", "b"]));
    assert_eq!(decode(&encode(&list(&["a", ""]))), list(&["a"]));
    assert_eq!(decode(&encode(&list(&["a", "", "b\r"]))), list(&["a", "", "b\r"]));
}
