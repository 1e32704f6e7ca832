use habit_tracker::keys::Key;
use habit_tracker::text_input::{TextInput, parse_u32_or_zero};

fn buffer_with(text: &str) -> TextInput {
    let mut b = TextInput::default();
    for c in text.chars() {
        b.handle_key(Key::Char(c));
    }
    b
}

#[test]
fn typing_inserts_at_cursor() {
    let b = buffer_with("abc");
    assert_eq!(b.content, vec!['a', 'b', 'c']);
    assert_eq!(b.cursor_position, 3);
}

#[test]
fn insertion_in_the_middle() {
    let mut b = buffer_with("ac");
    b.handle_key(Key::Left);
    b.handle_key(Key::Char('b'));
    assert_eq!(b.content, vec!['a', 'b', 'c']);
    assert_eq!(b.cursor_position, 2);
}

#[test]
fn backspace_removes_before_cursor() {
    let mut b = buffer_with("abc");
    b.handle_key(Key::Backspace);
    assert_eq!(b.content, vec!['a', 'b']);
    assert_eq!(b.cursor_position, 2);
    // At the start of the buffer, backspace does nothing.
    b.handle_key(Key::Home);
    b.handle_key(Key::Backspace);
    assert_eq!(b.content, vec!['a', 'b']);
    assert_eq!(b.cursor_position, 0);
}

#[test]
fn delete_removes_under_cursor() {
    let mut b = buffer_with("abc");
    b.handle_key(Key::Home);
    b.handle_key(Key::Delete);
    assert_eq!(b.content, vec!['b', 'c']);
    // At the end of the buffer, delete does nothing.
    b.handle_key(Key::End);
    b.handle_key(Key::Delete);
    assert_eq!(b.content, vec!['b', 'c']);
}

#[test]
fn cursor_movement_saturates() {
    let mut b = buffer_with("ab");
    b.handle_key(Key::Right);
    assert_eq!(b.cursor_position, 2);
    b.handle_key(Key::Home);
    b.handle_key(Key::Left);
    assert_eq!(b.cursor_position, 0);
    b.handle_key(Key::End);
    assert_eq!(b.cursor_position, 2);
}

#[test]
fn escape_clears_the_buffer() {
    let mut b = buffer_with("abc");
    b.handle_key(Key::Esc);
    assert!(b.content.is_empty());
    assert_eq!(b.cursor_position, 0);
    let mut b = buffer_with("abc");
    b.handle_key(Key::BackTab);
    assert!(b.content.is_empty());
}

#[test]
fn unbound_keys_leave_the_buffer_alone() {
    let mut b = buffer_with("ab");
    b.handle_key(Key::Other);
    b.handle_key(Key::Enter);
    b.handle_key(Key::Tab);
    assert_eq!(b.content, vec!['a', 'b']);
    assert_eq!(b.cursor_position, 2);
}

#[test]
fn parse_plain_number() {
    assert_eq!(parse_u32_or_zero(&"123".chars().collect()), 123);
    assert_eq!(parse_u32_or_zero(&"0".chars().collect()), 0);
    assert_eq!(parse_u32_or_zero(&"007".chars().collect()), 7);
    assert_eq!(parse_u32_or_zero(&"4294967295".chars().collect()), u32::MAX);
}

#[test]
fn parse_accepts_a_leading_plus() {
    assert_eq!(parse_u32_or_zero(&"+42".chars().collect()), 42);
    assert_eq!(parse_u32_or_zero(&"+".chars().collect()), 0);
}

#[test]
fn unparseable_input_counts_as_zero() {
    assert_eq!(parse_u32_or_zero(&"".chars().collect()), 0);
    assert_eq!(parse_u32_or_zero(&"abc".chars().collect()), 0);
    assert_eq!(parse_u32_or_zero(&"12a".chars().collect()), 0);
    assert_eq!(parse_u32_or_zero(&"-5".chars().collect()), 0);
    assert_eq!(parse_u32_or_zero(&"1 2".chars().collect()), 0);
}

#[test]
fn overflowing_input_counts_as_zero() {
    assert_eq!(parse_u32_or_zero(&"4294967296".chars().collect()), 0);
    assert_eq!(parse_u32_or_zero(&"99999999999999999999".chars().collect()), 0);
}

#[test]
fn parse_matches_std_on_samples() {
    for s in ["", "0", "1", "42", "+42", "4294967295", "4294967296", "x", "3d", "+",
        "007"] {
        let chars: Vec<char> = s.chars().collect();
        let expected = s.parse::<u32>().unwrap_or(0);
        assert_eq!(parse_u32_or_zero(&chars), expected, "input {:?}", s);
    }
}
