use ri::app::{App, Effect, Mode};
use ri::layout::{Direction, Rect};
use ri::token::{
    AppendToken, CommandToken, DisplayToken, InsertToken, NormalToken, OperatorToken, Token,
};
use ri::ui::Ui;
use ropey::Rope;

fn editor(text: &str) -> App {
    let ui = Ui::new(Rect { x: 0, y: 0, width: 80, height: 24 });
    App::new(Some("main.rs".to_string()), Some(Rope::from_str(text)), ui)
}

fn text_of(app: &App) -> String {
    app.get_buffer().unwrap().text.to_string()
}

#[test]
fn a_new_editor() {
    let app = editor("fn main() {}\n");
    assert_eq!(app.buffers.len(), 1);
    assert_eq!(app.windows.len(), 1);
    assert_eq!(app.mode, Mode::Normal);
    assert_eq!(app.current_file, Some("main.rs".to_string()));
    assert_eq!(app.command_text, None);
    assert!(!app.should_quit);
    assert_eq!(app.get_window().unwrap().buffer_id, app.current_buffer_id);
    assert_eq!(app.get_window().unwrap().highlight_cache.len(), 1);
    assert!(app.get_current_node_id().is_some());
    assert_eq!(Mode::default(), Mode::Normal);
}

#[test]
fn moving_the_cursor_moves_the_window() {
    let mut app = editor("ab\ncd\n");
    let effects = app.handle_token(Token::Normal(NormalToken::Down));
    assert_eq!(effects, vec![Effect::Render]);
    assert_eq!(app.get_buffer().unwrap().y_pos, 1);
    assert_eq!(app.get_window().unwrap().y_pos, 1);
    app.handle_token(Token::Normal(NormalToken::Right));
    assert_eq!(app.get_window().unwrap().x_pos, 1);
    app.handle_token(Token::Normal(NormalToken::First));
    assert_eq!(app.get_window().unwrap().x_pos, 0);
    app.handle_token(Token::Normal(NormalToken::Last));
    assert_eq!(app.get_buffer().unwrap().x_pos, 1);
}

#[test]
fn typing_in_insert_mode() {
    let mut app = editor("abc");
    assert_eq!(app.handle_token(Token::Normal(NormalToken::SwitchToInsert)), vec![Effect::Render]);
    assert_eq!(app.mode, Mode::Insert);
    let effects = app.handle_token(Token::Insert(InsertToken::Append("XY".to_string())));
    assert_eq!(effects, vec![]);
    assert_eq!(text_of(&app), "XYabc");
    assert_eq!(app.get_window().unwrap().x_pos, 2);
    app.handle_token(Token::Insert(InsertToken::Remove));
    assert_eq!(text_of(&app), "Xabc");
    let effects = app.handle_token(Token::Insert(InsertToken::Enter));
    assert_eq!(effects, vec![Effect::Render]);
    assert_eq!(text_of(&app), "X\nabc");
    assert_eq!(app.get_window().unwrap().y_pos, 1);
    app.handle_token(Token::Insert(InsertToken::Esc));
    assert_eq!(app.mode, Mode::Normal);
    assert_eq!(app.command_text, Some("".to_string()));
}

#[test]
fn typing_in_append_mode() {
    let mut app = editor("ab");
    app.handle_token(Token::Normal(NormalToken::SwitchToAppend));
    assert_eq!(app.mode, Mode::Append);
    let effects = app.handle_token(Token::Append(AppendToken::Append("X".to_string())));
    assert_eq!(effects, vec![Effect::Render]);
    assert_eq!(text_of(&app), "aXb");
    assert_eq!(app.get_window().unwrap().x_pos, 0);
    assert_eq!(app.handle_token(Token::Append(AppendToken::Enter)), vec![]);
    assert_eq!(text_of(&app), "aX\nb");
    assert_eq!(app.handle_token(Token::Append(AppendToken::Esc)), vec![]);
    assert_eq!(app.mode, Mode::Normal);
}

#[test]
fn undo_redo_and_line_edits() {
    let mut app = editor("one\ntwo\n");
    app.handle_token(Token::Normal(NormalToken::AddNewLineBelow));
    assert_eq!(text_of(&app), "one\n\ntwo\n");
    app.handle_token(Token::Normal(NormalToken::Undo));
    assert_eq!(text_of(&app), "one\ntwo\n");
    app.handle_token(Token::Normal(NormalToken::Redo));
    assert_eq!(text_of(&app), "one\n\ntwo\n");
    app.handle_token(Token::Normal(NormalToken::Up));
    app.handle_token(Token::Normal(NormalToken::DeleteLine));
    assert_eq!(text_of(&app), "\ntwo\n");
    assert_eq!(app.get_window().unwrap().line_num_cache[0].len(), 2);
}

#[test]
fn paste_asks_for_the_clipboard() {
    let mut app = editor("ab");
    assert_eq!(
        app.handle_token(Token::Normal(NormalToken::Paste)),
        vec![Effect::PasteClipboard]
    );
    assert_eq!(text_of(&app), "ab");
    assert_eq!(app.paste_clipboard_text("--"), vec![Effect::Render]);
    assert_eq!(text_of(&app), "--ab");
}

#[test]
fn visual_selection() {
    let mut app = editor("ab\ncd");
    app.handle_token(Token::Normal(NormalToken::Down));
    app.handle_token(Token::Normal(NormalToken::Visual));
    assert_eq!(app.mode, Mode::Visual);
    assert_eq!(app.get_buffer().unwrap().start_select_pos, Some(3));
    app.handle_token(Token::Normal(NormalToken::VisualLine));
    assert_eq!(app.get_buffer().unwrap().end_select_pos, Some(5));
}

#[test]
fn tokens_that_do_nothing() {
    let mut app = editor("ab");
    assert_eq!(app.handle_token(Token::Normal(NormalToken::YankLine)), vec![]);
    assert_eq!(app.handle_token(Token::Operator(OperatorToken::Delete)), vec![]);
    assert_eq!(app.handle_token(Token::Display(DisplayToken::DrawWindow)), vec![]);
    assert_eq!(
        app.handle_token(Token::Display(DisplayToken::DrawViewPort)),
        vec![Effect::Render]
    );
    assert_eq!(app.handle_token(Token::Command(CommandToken::GoToLine(3))), vec![]);
    assert_eq!(text_of(&app), "ab");
}

#[test]
fn command_line_editing() {
    let mut app = editor("ab");
    app.handle_token(Token::Normal(NormalToken::SwitchToCommand));
    assert_eq!(app.mode, Mode::Command);
    assert_eq!(app.command_text, Some("".to_string()));
    app.handle_token(Token::Command(CommandToken::Append("wx".to_string())));
    assert_eq!(app.command_text, Some("wx".to_string()));
    app.handle_token(Token::Command(CommandToken::Remove));
    assert_eq!(app.command_text, Some("w".to_string()));
    let effects = app.handle_token(Token::Command(CommandToken::Enter));
    assert_eq!(effects, vec![Effect::Save, Effect::Render]);
    assert_eq!(app.command_text, Some("w".to_string()));
    let effects = app.handle_token(Token::Command(CommandToken::Esc));
    assert_eq!(effects, vec![Effect::Render]);
    assert_eq!(app.command_text, Some("".to_string()));
    app.handle_token(Token::Command(CommandToken::Append("vs other.rs".to_string())));
    let effects = app.handle_token(Token::Command(CommandToken::Enter));
    assert_eq!(
        effects,
        vec![
            Effect::OpenSplit(Some(" other.rs".to_string()), Direction::Horizontal),
            Effect::Render
        ]
    );
    assert_eq!(app.mode, Mode::Normal);
    assert_eq!(app.command_text, Some("".to_string()));
}

#[test]
fn entering_an_unknown_command_does_nothing() {
    let mut app = editor("ab");
    app.command_text = Some("1,xd".to_string());
    assert_eq!(app.handle_token(Token::Command(CommandToken::Enter)), vec![]);
    assert_eq!(app.command_text, Some("1,xd".to_string()));
}

#[test]
fn modes_and_buffers_by_command() {
    let mut app = editor("ab");
    app.handle_token(Token::Command(CommandToken::SetMode(Mode::Insert)));
    assert_eq!(app.mode, Mode::Insert);
    let id = app.current_buffer_id;
    app.handle_token(Token::Command(CommandToken::SetBuffer(id.wrapping_add(1))));
    assert_eq!(app.current_buffer_id, id);
}

#[test]
fn quitting_the_last_buffer() {
    let mut app = editor("ab");
    let effects = app.handle_token(Token::Command(CommandToken::Quit));
    assert_eq!(effects, vec![Effect::Render]);
    assert!(app.should_quit);
    assert!(app.buffers.is_empty());
    assert_eq!(app.mode, Mode::Normal);
}

#[test]
fn splitting_and_closing_a_window() {
    let mut app = editor("ab");
    let first_window = app.current_window_id;
    assert!(app.try_new_split(Some(" b.rs ".to_string()), Some(Rope::from_str("xyz")), Direction::Horizontal));
    assert_eq!(app.buffers.len(), 2);
    assert_eq!(app.windows.len(), 2);
    assert_eq!(app.current_file, Some("b.rs".to_string()));
    assert_eq!(text_of(&app), "xyz");
    assert_eq!(app.windows[0].area, Some(Rect { x: 0, y: 0, width: 40, height: 23 }));
    assert_eq!(app.windows[0].x_offset, 4);
    assert_eq!(app.windows[0].y_offset, 1);
    assert_eq!((app.windows[0].order, app.windows[1].order), (0, 1));
    assert_eq!(app.get_window().unwrap().title, Some(" b.rs ".to_string()));
    let node = app.get_current_node_id().unwrap();
    let (_, parent) = app.get_parent_node(node).unwrap();
    let sibling = app.get_sibling_node(parent).unwrap();
    assert!(sibling.is_some());

    app.handle_token(Token::Command(CommandToken::Quit));
    assert!(!app.should_quit);
    assert_eq!(app.buffers.len(), 1);
    assert_eq!(app.current_window_id, first_window);
    assert_eq!(app.current_buffer_id, first_window);
}

#[test]
fn choosing_a_window_by_number() {
    let mut app = editor("ab");
    assert!(app.try_new_split(None, None, Direction::Vertical));
    let first = app.windows[0].id;
    assert_eq!(app.handle_token(Token::Normal(NormalToken::SetWindow(0))), vec![Effect::Render]);
    assert_eq!(app.current_window_id, first);
    assert_eq!(app.current_buffer_id, first);
    assert_eq!(app.current_file, None);
    app.handle_token(Token::Normal(NormalToken::SetWindow(7)));
    assert_eq!(app.current_window_id, first);
}

#[test]
fn changing_in_place() {
    let mut app = editor("ab");
    app.get_mut_buffer().unwrap().x_pos = 1;
    assert_eq!(app.get_buffer().unwrap().x_pos, 1);
    app.get_mut_window().unwrap().x_pos = 5;
    assert_eq!(app.get_window().unwrap().x_pos, 5);
    let (w, b) = app.get_mut_pair();
    assert!(w.is_some() && b.is_some());
    app.reorder_windows();
    assert_eq!(app.windows[0].order, 0);
}

#[test]
fn typing_and_deleting_on_the_command_line() {
    let mut app = editor("ab");
    app.command_text = Some("sp".to_string());
    app.handle_token(Token::Command(CommandToken::Append("x".to_string())));
    assert_eq!(app.command_text, Some("spx".to_string()));
    app.handle_token(Token::Command(CommandToken::Remove));
    assert_eq!(app.command_text, Some("sp".to_string()));
    assert!(app.can_handle(&Token::Command(CommandToken::Remove)));
    app.command_text = Some("é".to_string());
    assert!(!app.can_handle(&Token::Command(CommandToken::Remove)));
    app.command_text = Some("".to_string());
    assert!(!app.can_handle(&Token::Command(CommandToken::Remove)));
}

#[test]
fn readiness_checks() {
    let mut app = editor("a");
    assert!(app.can_handle(&Token::Normal(NormalToken::Down)));
    assert!(!app.can_handle(&Token::Normal(NormalToken::Last)));
    assert!(!app.can_handle(&Token::Normal(NormalToken::AddNewLineAbove)));
    assert!(app.can_handle(&Token::Insert(InsertToken::Append("x".to_string()))));
    assert!(app.can_handle(&Token::Append(AppendToken::Enter)));
    assert!(app.can_paste());
    app.get_mut_buffer().unwrap().y_pos = 5;
    assert!(!app.can_handle(&Token::Insert(InsertToken::Append("x".to_string()))));
    assert!(!app.can_paste());
}

#[test]
fn motions_keep_the_text_in_the_editor() {
    let mut app = editor("ab\ncd");
    for t in [NormalToken::Down, NormalToken::Right, NormalToken::Left, NormalToken::StartWord, NormalToken::First] {
        if app.can_handle(&Token::Normal(t.clone())) {
            app.handle_token(Token::Normal(t));
        }
    }
    assert_eq!(text_of(&app), "ab\ncd");
}

#[test]
fn escape_returns_to_normal_mode() {
    let mut app = editor("ab");
    for (enter, escape) in [
        (NormalToken::SwitchToInsert, Token::Insert(InsertToken::Esc)),
        (NormalToken::SwitchToAppend, Token::Append(AppendToken::Esc)),
        (NormalToken::SwitchToCommand, Token::Command(CommandToken::Esc)),
    ] {
        app.handle_token(Token::Normal(enter));
        app.command_text = Some("typed".to_string());
        app.handle_token(escape);
        assert_eq!(app.mode, Mode::Normal);
        assert_eq!(app.command_text, Some("".to_string()));
    }
}

#[test]
fn tokens_that_cannot_be_carried_out_change_nothing() {
    let mut app = editor("a");
    assert_eq!(app.try_handle_token(Token::Normal(NormalToken::Last)), None);
    assert_eq!(app.get_buffer().unwrap().x_pos, 0);
    assert_eq!(
        app.try_handle_token(Token::Normal(NormalToken::Down)),
        Some(vec![Effect::Render])
    );
    assert_eq!(app.get_buffer().unwrap().y_pos, 1);
    app.get_mut_buffer().unwrap().y_pos = 9;
    assert_eq!(app.try_paste_clipboard_text("x"), None);
    app.get_mut_buffer().unwrap().y_pos = 0;
    assert_eq!(app.try_paste_clipboard_text("x"), Some(vec![Effect::Render]));
    assert_eq!(text_of(&app), "xa");
}

#[test]
fn a_new_line_undone() {
    let mut app = editor("ab\ncd");
    app.handle_token(Token::Normal(NormalToken::AddNewLineBelow));
    assert_eq!(text_of(&app), "ab\n\ncd");
    app.handle_token(Token::Normal(NormalToken::Undo));
    assert_eq!(text_of(&app), "ab\ncd");
    let buffer = app.get_buffer().unwrap();
    assert!(buffer.past_states.is_empty());
    assert_eq!(buffer.future_states.len(), 1);
    assert_eq!(buffer.future_states[0].to_string(), "ab\n\ncd");
}

#[test]
fn split_windows_and_buffers_keep_distinct_ids() {
    let mut app = editor("ab");
    assert!(app.try_new_split(None, None, Direction::Vertical));
    assert!(app.try_new_split(None, None, Direction::Horizontal));
    assert_eq!(app.buffers.len(), 3);
    assert_eq!(app.windows.len(), 3);
    for a in 0..3 {
        for b in 0..a {
            assert_ne!(app.buffers[a].id, app.buffers[b].id);
            assert_ne!(app.windows[a].id, app.windows[b].id);
        }
    }
}

#[test]
fn splitting_into_given_halves() {
    let mut app = editor("ab");
    let first = Rect { x: 10, y: 2, width: 30, height: 5 };
    let second = Rect { x: 40, y: 2, width: 30, height: 5 };
    assert!(app.new_split_into(first, second, Some("c.rs".to_string()), Some(Rope::from_str("q"))));
    assert_eq!(app.buffers.len(), 2);
    assert_eq!(app.windows.len(), 2);
    assert_eq!(app.windows[0].area, Some(first));
    assert_eq!((app.windows[0].x_offset, app.windows[0].y_offset), (14, 3));
    assert_eq!(app.windows[1].area, None);
    assert_eq!(app.current_window_id, app.windows[1].id);
    let node = app.get_current_node_id().unwrap();
    assert_eq!(app.window_layout.get(&node).unwrap().data().0, second);
    assert_eq!(text_of(&app), "q");
}

#[test]
fn a_split_reaches_the_far_edge() {
    let mut app = editor("ab");
    assert!(app.new_split(None, None, Direction::Horizontal));
    let node = app.get_current_node_id().unwrap();
    let second = app.window_layout.get(&node).unwrap().data().0;
    assert_eq!(second.x + second.width, 80);
    let first = app.windows[0].area.unwrap();
    app.current_window_id = app.windows[0].id;
    assert!(app.new_split(None, None, Direction::Vertical));
    let node = app.get_current_node_id().unwrap();
    let lower = app.window_layout.get(&node).unwrap().data().0;
    assert_eq!(lower.y + lower.height, first.y + first.height);
}

#[test]
fn no_split_of_a_window_too_wide_for_percentages() {
    let mut app = editor("ab");
    app.windows[0].area = Some(Rect { x: 0, y: 0, width: 2000, height: 23 });
    assert!(!app.try_new_split(None, None, Direction::Horizontal));
    assert_eq!(app.windows.len(), 1);
    assert_eq!(app.buffers.len(), 1);
}

#[test]
fn no_split_where_the_offsets_do_not_fit() {
    let mut app = editor("ab");
    let far = Rect { x: 65532, y: 0, width: 3, height: 5 };
    let next = Rect { x: 65535, y: 0, width: 0, height: 5 };
    assert!(!app.new_split_into(far, next, None, None));
    let low = Rect { x: 0, y: 65535, width: 3, height: 0 };
    assert!(!app.new_split_into(low, next, None, None));
    assert_eq!(app.windows.len(), 1);
    assert_eq!(app.buffers.len(), 1);
    let edge = Rect { x: 65531, y: 65534, width: 3, height: 1 };
    assert!(app.new_split_into(edge, next, None, None));
    assert_eq!((app.windows[0].x_offset, app.windows[0].y_offset), (65535, 65535));
}
