use ri::buffer::Buffer;
use ropey::Rope;

fn buffer(text: &str) -> Buffer {
    Buffer::new(Some(" notes.txt ".to_string()), Some(Rope::from_str(text)))
}

#[test]
fn new_buffers() {
    let b = Buffer::new(None, None);
    assert_eq!(b.title, "Ri");
    assert_eq!(b.file_path, None);
    assert_eq!(b.text.to_string(), "");
    assert_eq!(b.page_size, 10);
    let b = buffer("ab\ncd");
    assert_eq!(b.title, " notes.txt ");
    assert_eq!(b.file_path, Some("notes.txt".to_string()));
    assert_eq!(b.text.to_string(), "ab\ncd");
    assert_eq!((b.x_pos, b.y_pos), (0, 0));
}

#[test]
fn moving_up_and_down() {
    let mut b = buffer("a\nb\nc");
    b.on_down();
    assert_eq!(b.y_pos, 1);
    b.on_down();
    b.on_down();
    assert_eq!(b.y_pos, 3);
    b.on_down();
    assert_eq!(b.y_pos, 3);
    b.on_up();
    assert_eq!(b.y_pos, 2);
}

#[test]
fn paging_down_turns_the_page() {
    let text = "x\n".repeat(30);
    let mut b = buffer(&text);
    for _ in 0..10 {
        b.on_down();
    }
    assert_eq!(b.y_pos, 10);
    assert_eq!(b.current_page, 10);
    b.on_up();
    assert_eq!(b.current_page, 10);
}

#[test]
fn moving_left_and_right() {
    let mut b = buffer("abc\nd");
    b.on_right();
    b.on_right();
    assert_eq!(b.x_pos, 2);
    b.on_right();
    assert_eq!((b.x_pos, b.y_pos), (3, 0));
    b.on_right();
    assert_eq!((b.x_pos, b.y_pos), (3, 1));
    let mut b = buffer("abc");
    b.x_pos = 1;
    b.on_left();
    assert_eq!((b.x_pos, b.y_pos), (0, 0));
}

#[test]
fn line_measures() {
    let b = buffer("abc\nde");
    assert_eq!(b.current_line_len(), 4);
    assert_eq!(b.start_of_current_line(), 0);
    assert_eq!(b.end_of_current_line(), 4);
    assert_eq!(b.current_line_chars(), vec!['a', 'b', 'c']);
    let mut b = buffer("abc\nde");
    b.y_pos = 1;
    b.x_pos = 1;
    assert_eq!(b.get_cursor_idx(), 5);
    assert_eq!(b.current_line_len(), 2);
    b.y_pos = 5;
    assert_eq!(b.current_line_len(), 0);
}

#[test]
fn typing_and_undo_redo() {
    let mut b = buffer("abc");
    b.insert_chars("XY");
    assert_eq!(b.text.to_string(), "XYabc");
    assert_eq!(b.x_pos, 2);
    b.undo();
    assert_eq!(b.text.to_string(), "abc");
    b.redo();
    assert_eq!(b.text.to_string(), "XYabc");
    b.redo();
    assert_eq!(b.text.to_string(), "XYabc");
}

#[test]
fn typing_moves_by_bytes() {
    let mut b = buffer("");
    b.insert_chars("é");
    assert_eq!(b.x_pos, 2);
}

#[test]
fn backspace_removes_the_character_before_the_cursor() {
    let mut b = buffer("abc");
    b.x_pos = 2;
    b.remove_char();
    assert_eq!(b.text.to_string(), "ac");
    assert_eq!(b.x_pos, 1);
    let mut b = buffer("abc");
    b.remove_char();
    assert_eq!(b.text.to_string(), "abc");
    assert!(b.past_states.is_empty());
}

#[test]
fn line_edits() {
    let mut b = buffer("one\ntwo\n");
    b.delete_line();
    assert_eq!(b.text.to_string(), "two\n");
    let mut b = buffer("ab\ncd");
    b.add_newline_below();
    assert_eq!(b.text.to_string(), "ab\n\ncd");
    assert_eq!((b.x_pos, b.y_pos), (0, 1));
    let mut b = buffer("abcd");
    b.x_pos = 2;
    b.insert_return();
    assert_eq!(b.text.to_string(), "ab\ncd");
    assert_eq!((b.x_pos, b.y_pos), (0, 1));
}

#[test]
fn appending_goes_after_the_cursor() {
    let mut b = buffer("ab");
    b.append_chars("X");
    assert_eq!(b.text.to_string(), "aXb");
    assert_eq!(b.x_pos, 1);
    let mut b = buffer("ab");
    b.x_pos = 1;
    b.append_return();
    assert_eq!(b.text.to_string(), "ab\n");
    assert_eq!((b.x_pos, b.y_pos), (0, 1));
    let mut b = buffer("");
    b.append_chars("Z");
    assert_eq!(b.text.to_string(), "Z");
}

#[test]
fn pasting_and_selecting() {
    let mut b = buffer("ab\ncd");
    b.x_pos = 1;
    b.paste_text("--");
    assert_eq!(b.text.to_string(), "a--b\ncd");
    b.select_line();
    assert_eq!(b.start_select_pos, Some(1));
    assert_eq!(b.end_select_pos, Some(5));
}

#[test]
fn word_and_line_jumps() {
    let b = buffer("foo bar");
    assert_eq!(b.find_next_word(), 5);
    let mut b = buffer("foo bar");
    b.x_pos = 7;
    assert_eq!(b.find_next_word(), 7);
    let text = "x\n".repeat(30);
    let mut b = buffer(&text);
    b.move_to_last_line();
    assert_eq!((b.x_pos, b.y_pos, b.current_page), (0, 30, 20));
    b.move_to_first_line();
    assert_eq!((b.x_pos, b.y_pos, b.current_page), (0, 0, 0));
    b.move_to_line_number(25);
    assert_eq!((b.y_pos, b.current_page), (24, 10));
    b.move_to_line_number(99);
    assert_eq!(b.y_pos, 24);
}

#[test]
fn recenter_on_the_first_line() {
    let mut b = buffer("a\nb");
    b.recenter();
    assert_eq!(b.y_pos, 0);
}

#[test]
fn typing_then_backspace_gives_the_text_back() {
    let mut b = buffer("ab\ncd");
    b.y_pos = 1;
    b.x_pos = 1;
    b.insert_chars("x");
    assert_eq!(b.text.to_string(), "ab\ncxd");
    b.remove_char();
    assert_eq!(b.text.to_string(), "ab\ncd");
}

#[test]
fn undo_right_after_an_edit() {
    let mut b = buffer("ab\ncd");
    b.delete_line();
    assert_eq!(b.text.to_string(), "cd");
    b.undo();
    assert_eq!(b.text.to_string(), "ab\ncd");
    assert!(b.past_states.is_empty());
    assert_eq!(b.future_states.len(), 1);
    assert_eq!(b.future_states[0].to_string(), "cd");
}

#[test]
fn moves_keep_the_text() {
    let mut b = buffer("ab\ncd\nef");
    b.on_down();
    b.on_right();
    b.on_left();
    b.move_to_last_line();
    b.move_to_first_line();
    b.select_line();
    assert_eq!(b.text.to_string(), "ab\ncd\nef");
    assert!(b.past_states.is_empty());
}
