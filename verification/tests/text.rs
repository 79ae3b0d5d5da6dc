use recol_interactive::text::{fit, pad, push_blanks, push_decimal, take_chars, text_of, trim, word};

fn decimal(n: usize) -> String {
    let mut out = String::new();
    push_decimal(&mut out, n);
    out
}

#[test]
fn decimal_digits() {
    let mut out = String::from("#");
    push_decimal(&mut out, 1203);
    assert_eq!(out, "#1203");
}

#[test]
fn decimal_of_edge_values() {
    assert_eq!(decimal(0), "0");
    assert_eq!(decimal(9), "9");
    assert_eq!(decimal(10), "10");
    assert_eq!(decimal(255), "255");
    assert_eq!(decimal(usize::MAX), format!("{}", usize::MAX));
}

#[test]
fn blanks_are_appended() {
    let mut out = String::from("a");
    push_blanks(&mut out, 3);
    assert_eq!(out, "a   ");
    push_blanks(&mut out, 0);
    assert_eq!(out, "a   ");
}

#[test]
fn fit_cuts_and_fills() {
    let text = String::from("★☀  Nord");
    assert_eq!(fit(&text, 10), "★☀  Nord  ");
    assert_eq!(fit(&text, 8), "★☀  Nord");
    assert_eq!(fit(&text, 5), "★☀  N");
    assert_eq!(fit(&text, 0), "");
    assert_eq!(fit(&String::new(), 2), "  ");
}

#[test]
fn pad_never_cuts() {
    assert_eq!(pad("↑ / k / -", 14), "↑ / k / -     ");
    assert_eq!(pad("--quit-on-select", 14), "--quit-on-select");
}

#[test]
fn taking_characters_respects_their_width() {
    assert_eq!(take_chars(&String::from("äöü"), 2), "äö");
}

#[test]
fn text_of_a_range() {
    assert_eq!(text_of(&vec!['a', 'b', 'c'], 1, 3), "bc");
}

#[test]
fn trim_takes_white_space_off_both_ends() {
    let chars: Vec<char> = "\t  Gruvbox Dark \r\u{a0}".chars().collect();
    assert_eq!(trim(&chars), "Gruvbox Dark");
    let blank: Vec<char> = " \u{3000}\n".chars().collect();
    assert_eq!(trim(&blank), "");
}

#[test]
fn trim_agrees_with_the_standard_library_on_every_character() {
    let mut n: u32 = 0;
    while n <= 0x10ffff {
        if let Some(c) = char::from_u32(n) {
            let line = vec![c, 'x', c];
            let expected: String = line.iter().collect();
            assert_eq!(trim(&line), expected.trim());
        }
        n += 1;
    }
}

#[test]
fn word_ends_at_the_first_blank() {
    assert_eq!(word("Tokyo Night Storm"), "Tokyo");
    assert_eq!(word("Nord"), "Nord");
    assert_eq!(word(" leading"), "");
    assert_eq!(word(""), "");
}
