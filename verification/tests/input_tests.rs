use minitools::input::{cursor_position, edit_line, Key};

#[test]
fn editing_the_line() {
    let mut s = String::from("ab");
    edit_line(&mut s, Key::Char('c'));
    assert_eq!(s, "abc");
    edit_line(&mut s, Key::Backspace);
    assert_eq!(s, "ab");
    edit_line(&mut s, Key::Enter);
    assert_eq!(s, "ab");
    edit_line(&mut s, Key::Other);
    assert_eq!(s, "ab");
    let mut e = String::new();
    edit_line(&mut e, Key::Backspace);
    assert_eq!(e, "");
}

#[test]
fn backspace_undoes_a_character() {
    let mut s = String::from("héllo");
    edit_line(&mut s, Key::Char('ß'));
    edit_line(&mut s, Key::Backspace);
    assert_eq!(s, "héllo");
}

#[test]
fn cursor_sits_after_the_text_bytes() {
    assert_eq!(cursor_position(0, 10, &String::new()), (1, 11));
    assert_eq!(cursor_position(2, 3, &String::from("abc")), (6, 4));
    // Two bytes for 'é'.
    assert_eq!(cursor_position(0, 0, &String::from("é")), (3, 1));
}
