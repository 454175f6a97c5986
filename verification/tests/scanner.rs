use rpnc::rpn::RPN;

#[test]
fn fresh_scanner_is_at_the_start() {
    let r = RPN::new(String::from("12"));
    assert!(!r.eof());
    assert_eq!(r.peek_char(), Some('1'));
}

#[test]
fn empty_input_is_at_eof() {
    let r = RPN::new(String::new());
    assert!(r.eof());
    assert_eq!(r.peek_char(), None);
}

#[test]
fn consume_char_advances_one_character() {
    let mut r = RPN::new(String::from("ab"));
    assert_eq!(r.consume_char(), 'a');
    assert_eq!(r.peek_char(), Some('b'));
    assert_eq!(r.consume_char(), 'b');
    assert!(r.eof());
}

#[test]
fn consume_char_handles_multibyte_characters() {
    let mut r = RPN::new(String::from("\u{00E9}7"));
    assert_eq!(r.consume_char(), '\u{00E9}');
    assert_eq!(r.peek_char(), Some('7'));
}

#[test]
fn consume_num_takes_the_maximal_digit_run() {
    let mut r = RPN::new(String::from("123a45"));
    assert_eq!(r.consume_num(), "123");
    assert_eq!(r.peek_char(), Some('a'));
}

#[test]
fn consume_num_on_a_non_digit_is_empty() {
    let mut r = RPN::new(String::from("a1"));
    assert_eq!(r.consume_num(), "");
    assert_eq!(r.peek_char(), Some('a'));
}

#[test]
fn consume_whitespace_skips_the_maximal_run() {
    let mut r = RPN::new(String::from(" \t\n7"));
    r.consume_whitespace();
    assert_eq!(r.peek_char(), Some('7'));
}

#[test]
fn consume_whitespace_on_a_non_space_stays_put() {
    let mut r = RPN::new(String::from("7 "));
    r.consume_whitespace();
    assert_eq!(r.peek_char(), Some('7'));
}

#[test]
fn consume_while_stops_at_the_first_rejected_character() {
    let mut r = RPN::new(String::from("xxy"));
    let run = r.consume_while(|c| c == 'x');
    assert_eq!(run, "xx");
    assert_eq!(r.peek_char(), Some('y'));
}
