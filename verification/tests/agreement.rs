use todo_list::command::{parse_input, Command};
use todo_list::number::parse_index;
use todo_list::store::{decode, encode};
use todo_list::text::{join_texts, split_words};

/// A small linear congruential generator, so that the samples are the same
/// on every run.
struct Samples {
    state: u64,
}

impl Samples {
    fn new(seed: u64) -> Samples {
        Samples { state: seed }
    }

    fn below(&mut self, bound: usize) -> usize {
        self.state = self
            .state
            .wrapping_mul(6364136223846793005)
            .wrapping_add(1442695040888963407);
        ((self.state >> 33) as usize) % bound
    }

    fn text(&mut self, alphabet: &[char], max_len: usize) -> String {
        let len = self.below(max_len + 1);
        (0..len).map(|_| alphabet[self.below(alphabet.len())]).collect()
    }
}

fn parse_with_std(line: &str) -> Command {
    let mut words = line.split_whitespace();
    match words.next() {
        Some("add") => {
            let item = words.collect::<Vec<_>>().join(" ");
            if item.is_empty() {
                Command::Invalid
            } else {
                Command::Add(item)
            }
        }
        Some("close") => match words.next().map(|w| w.parse::<usize>()) {
            Some(Ok(index)) => Command::Close(index),
            _ => Command::Invalid,
        },
        Some("swap") => {
            let from = words.next().map(|w| w.parse::<usize>());
            let to = words.next().map(|w| w.parse::<usize>());
            match (from, to) {
                (Some(Ok(from)), Some(Ok(to))) => Command::Swap(from, to),
                _ => Command::Invalid,
            }
        }
        Some("exit") => Command::Exit,
        Some("history") => Command::History,
        _ => Command::Invalid,
    }
}

#[test]
fn words_agree_on_generated_texts() {
    let alphabet = [
        'a', 'b', ' ', ' ', '\t', '\n', '\r', '\u{a0}', '\u{2009}', '\u{200b}', 'é', '語',
    ];
    let mut samples = Samples::new(1);
    for _ in 0..20000 {
        let text = samples.text(&alphabet, 10);
        let expected: Vec<&str> = text.split_whitespace().collect();
        assert_eq!(split_words(&text), expected, "{:?}", text);
        assert_eq!(join_texts(&expected, " "), expected.join(" "), "{:?}", text);
    }
}

#[test]
fn indices_agree_on_generated_words() {
    let alphabet = ['0', '1', '2', '9', '9', '+', '-', 'x', '٣'];
    let mut samples = Samples::new(2);
    for _ in 0..20000 {
        let word = samples.text(&alphabet, 24);
        assert_eq!(parse_index(&word), word.parse::<usize>().ok(), "{:?}", word);
    }
}

#[test]
fn lines_agree_on_generated_texts() {
    let alphabet = ['a', 'b', ' ', '\n', '\n', '\r', 'é'];
    let mut samples = Samples::new(3);
    for _ in 0..20000 {
        let text = samples.text(&alphabet, 12);
        let expected: Vec<String> = text.lines().map(|x| x.to_string()).collect();
        assert_eq!(decode(&text), expected, "{:?}", text);
        assert_eq!(encode(&expected), expected.join("\n"), "{:?}", text);
    }
}

#[test]
fn commands_agree_on_generated_lines() {
    let pieces = [
        "add", "close", "swap", "exit", "history", "list", "1", "2", "03", "+4", "-5", "x", "",
        " ", "  ", "\t", "\n", "18446744073709551616", "add1", "buy", "milk",
    ];
    let mut samples = Samples::new(4);
    for _ in 0..20000 {
        let count = samples.below(6);
        let mut line = String::new();
        for _ in 0..count {
            line.push_str(pieces[samples.below(pieces.len())]);
            if samples.below(4) != 0 {
                line.push(' ');
            }
        }
        assert_eq!(parse_input(&line), parse_with_std(&line), "{:?}", line);
    }
}
