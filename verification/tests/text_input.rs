use difiko::app::TextInput;

fn insert_and_cursor() {
    let mut t = TextInput::new("");
    t.insert('a');
    t.insert('b');
    assert_eq!(t.buffer, "ab");
    assert_eq!(t.cursor, 2);
    t.move_left();
    t.insert('X');
    assert_eq!(t.buffer, "aXb");
    assert_eq!(t.cursor, 2);
}

fn backspace_multibyte() {
    let mut t = TextInput::new("héllo");
    t.move_end();
    t.backspace();
    assert_eq!(t.buffer, "héll");
    t.move_left();
    t.move_left();
    assert_eq!(t.cursor, 2);
    t.backspace();
    assert_eq!(t.buffer, "hll");
    assert_eq!(t.cursor, 1);
}

fn delete_at_end_is_noop() {
    let mut t = TextInput::new("ab");
    t.move_end();
    t.delete();
    assert_eq!(t.buffer, "ab");
    assert_eq!(t.cursor, 2);
}

#[test]
fn text_input_text_input_insert_and_cursor() {
    insert_and_cursor();
}

#[test]
fn app_text_input_insert_and_cursor() {
    insert_and_cursor();
}

#[test]
fn text_input_text_input_backspace_multibyte() {
    backspace_multibyte();
}

#[test]
fn app_text_input_backspace_multibyte() {
    backspace_multibyte();
}

#[test]
fn text_input_text_input_delete_at_end_is_noop() {
    delete_at_end_is_noop();
}

#[test]
fn app_text_input_delete_at_end_is_noop() {
    delete_at_end_is_noop();
}

#[test]
fn delete_in_middle_removes_char_under_cursor() {
    let mut t = TextInput::new("abc");
    t.move_home();
    t.move_right();
    t.delete();
    assert_eq!(t.buffer, "ac");
    assert_eq!(t.cursor, 1);
}

#[test]
fn insert_then_backspace_restores_text() {
    let mut t = TextInput::new("héllo");
    t.move_home();
    t.move_right();
    t.move_right();
    t.insert('Z');
    assert_eq!(t.buffer, "héZllo");
    t.backspace();
    assert_eq!(t.buffer, "héllo");
    assert_eq!(t.cursor, 2);
}

#[test]
fn clear_empties_buffer_and_cursor() {
    let mut t = TextInput::new("xyz");
    t.clear();
    assert_eq!(t.buffer, "");
    assert_eq!(t.cursor, 0);
}

#[test]
fn typing_then_backspace_restores_text_and_cursor() {
    for cursor in [0usize, 1, 3, 5, 9] {
        let mut t = TextInput::new("héllo");
        t.cursor = cursor;
        t.insert('ß');
        t.backspace();
        assert_eq!(t.buffer, "héllo");
        assert_eq!(t.cursor, cursor);
    }
}
