use channel_bench::number::is_numeric;
use channel_bench::text::{characters, same_text};

const ACCEPTED: [&str; 30] = [
    "0", "5", "12345", "0.5", "5.", ".5", "1.25", "-1", "+1", "-0.0", "1e5", "1E5", "1e+5",
    "1e-5", "1.5e10", ".5e1", "5.e1", "+.5E-3", "007", "123456789012345678901234567890",
    "inf", "INF", "Inf", "-inf", "+infinity", "Infinity", "iNfInItY", "nan", "NaN", "-NAN",
];

const REJECTED: [&str; 30] = [
    "", "+", "-", ".", "+.", "e5", "1e", "1e+", "1e-", ".e1", "1.5.2", "1,5", " 1", "1 ", "1_000",
    "0x10", "1e1.5", "1ee5", "--1", "+-1", "in", "infinit", "infinityy", "na", "nano", "n/a",
    "1f", "five", "1e5x", "\u{661}",
];

#[test]
fn numeric_fields_accepted() {
    for text in ACCEPTED {
        assert!(is_numeric(text), "{:?}", text);
    }
}

#[test]
fn numeric_fields_rejected() {
    for text in REJECTED {
        assert!(!is_numeric(text), "{:?}", text);
    }
}

#[test]
fn numeric_fields_are_what_a_float_parses() {
    for text in ACCEPTED.iter().chain(REJECTED.iter()) {
        assert_eq!(is_numeric(text), text.parse::<f64>().is_ok(), "{:?}", text);
    }
}

#[test]
fn numeric_fields_over_a_small_alphabet() {
    let alphabet = ['1', '.', 'e', '-', '+', 'E', 'n', 'a', 'i', 'f', ' '];
    let mut texts: Vec<String> = vec![String::new()];
    let mut from = 0;
    for _ in 0..4 {
        let upto = texts.len();
        for i in from..upto {
            for c in alphabet {
                let mut longer = texts[i].clone();
                longer.push(c);
                texts.push(longer);
            }
        }
        from = upto;
    }
    for text in &texts {
        assert_eq!(is_numeric(text), text.parse::<f64>().is_ok(), "{:?}", text);
    }
}

#[test]
fn characters_of_a_text() {
    assert_eq!(characters(""), Vec::<char>::new());
    assert_eq!(characters("1.5e3"), vec!['1', '.', '5', 'e', '3']);
    assert_eq!(characters("\u{b5}s"), vec!['\u{b5}', 's']);
}

#[test]
fn same_text_compares_characters() {
    assert!(same_text("", ""));
    assert!(same_text("ns", "ns"));
    assert!(!same_text("ns", "us"));
    assert!(!same_text("ns", "n"));
    assert!(!same_text("s", "ns"));
}
