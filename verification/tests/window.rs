use ri::app::Mode;
use ri::highlight::{CachedSpan, Color};
use ri::layout::{Alignment, Constraint, Direction, Rect};
use ri::token::{DisplayToken, WindowChange};
use ri::ui::{halves, Ui};
use ri::window::Window;
use ropey::Rope;

fn change() -> WindowChange {
    WindowChange {
        id: 9,
        x_pos: 3,
        y_pos: 12,
        title: Some("t".to_string()),
        page_size: 10,
        current_page: 10,
        area: None,
        mode: Mode::Normal,
    }
}

#[test]
fn line_number_column() {
    let rows = Window::line_numbers(4);
    assert_eq!(rows.len(), 1);
    let texts: Vec<String> = rows[0].iter().map(|s| s.content.clone()).collect();
    assert_eq!(texts, vec!["1    ", "2    ", "3    "]);
    assert!(rows[0].iter().all(|s| s.style.fg == Some(Color::Yellow)));
    assert_eq!(Window::line_numbers(0)[0].len(), 0);
}

#[test]
fn line_offsets() {
    assert_eq!(Window::get_line_offset(4, 10, Alignment::Center), 3);
    assert_eq!(Window::get_line_offset(4, 10, Alignment::Right), 6);
    assert_eq!(Window::get_line_offset(4, 10, Alignment::Left), 0);
    assert_eq!(Window::get_line_offset(20, 10, Alignment::Center), 0);
    assert_eq!(Window::get_line_offset(20, 10, Alignment::Right), 0);
}

#[test]
fn new_window_and_positions() {
    let w = Window::new(&change());
    assert_eq!(w.buffer_id, 9);
    assert_eq!(w.title, Some("t".to_string()));
    assert_eq!(w.area, None);
    assert_eq!(w.display_x_pos(), 7);
    assert_eq!(w.display_y_pos(), 2);
    assert_eq!(w.get_origin(), None);
}

#[test]
fn window_follows_updates() {
    let mut w = Window::new(&WindowChange::default());
    w.x_offset = 9;
    w.handle_display_token(DisplayToken::UpdateWindow(change()));
    assert_eq!((w.x_pos, w.y_pos, w.x_offset, w.y_offset), (3, 12, 4, 0));
    assert_eq!(w.current_page, 10);
    w.handle_display_token(DisplayToken::DrawWindow);
    assert_eq!(w.x_pos, 3);
}

#[test]
fn window_content_is_cached() {
    let mut w = Window::new(&change());
    let text = Rope::from_str("fn main() {}\nlet x = 1;\n");
    w.cache_window_content(&text);
    assert!(w.highlight_cache.is_empty());
    assert_eq!(w.line_num_cache[0].len(), 2);
    w.set_highlight();
    assert!(w.highlighting.is_some());
    w.cache_window_content(&text);
    assert_eq!(w.highlight_cache.len(), 2);
    let first: String = w.highlight_cache[0].iter().map(|s| s.content.clone()).collect();
    assert_eq!(first, "fn main() {}\n");
    w.cache_new_line(&text, 1);
    assert_eq!(w.highlight_cache.len(), 3);
}

#[test]
fn raw_spans_and_footer() {
    let span = CachedSpan::raw("abc");
    assert_eq!(span.content, "abc");
    assert_eq!(span.style.fg, None);
    let (left, middle, right) = Ui::footer_texts(Mode::Normal, Some((3, 4)), &Some("w".to_string()));
    assert_eq!((left.as_str(), middle.as_str(), right.as_str()), ("w", "Normal", "3,4"));
    let (left, middle, right) = Ui::footer_texts(Mode::Command, None, &None);
    assert_eq!((left.as_str(), middle.as_str(), right.as_str()), ("", "Command", "0,0"));
}

#[test]
fn screen_layout() {
    let ui = Ui::new(Rect { x: 0, y: 0, width: 80, height: 24 });
    assert_eq!(ui.text_area, Rect { x: 0, y: 0, width: 80, height: 23 });
    assert_eq!(ui.foot_area, Rect { x: 0, y: 23, width: 80, height: 1 });
    let w = Window::new(&change());
    let halves = ui.split_ui(&w, Direction::Horizontal);
    assert_eq!(halves, vec![
        Rect { x: 0, y: 0, width: 40, height: 23 },
        Rect { x: 40, y: 0, width: 40, height: 23 },
    ]);
}

#[test]
fn highlighted_rows_go_in_at_their_line() {
    let mut w = Window::new(&change());
    w.insert_highlighted_line(0, Some(vec![CachedSpan::raw("b\n")]));
    w.insert_highlighted_line(0, Some(vec![CachedSpan::raw("a\n")]));
    w.insert_highlighted_line(1, None);
    let rows: Vec<String> = w.highlight_cache.iter().map(|r| r[0].content.clone()).collect();
    assert_eq!(rows, vec!["a\n", "b\n"]);
}

#[test]
fn no_row_for_a_line_without_characters() {
    let mut w = Window::new(&change());
    w.set_highlight();
    let text = Rope::from_str("fn main() {}\n");
    w.cache_new_line(&text, 1);
    assert!(w.highlight_cache.is_empty());
    w.cache_new_line(&text, 0);
    assert_eq!(w.highlight_cache.len(), 1);
}

#[test]
fn rows_drawn_from_the_current_page() {
    let mut w = Window::new(&change());
    w.current_page = 2;
    assert_eq!(w.page_row(1, 3), None);
    assert_eq!(w.page_row(2, 3), Some(0));
    assert_eq!(w.page_row(4, 3), Some(2));
    assert_eq!(w.page_row(5, 3), None);
    assert_eq!(w.page_row(2, 0), None);
}

#[test]
fn a_screen_from_its_areas() {
    let text = Rect { x: 0, y: 0, width: 10, height: 4 };
    let foot = Rect { x: 0, y: 4, width: 10, height: 1 };
    let ui = Ui::from_areas(text, foot);
    assert_eq!((ui.text_area, ui.foot_area, ui.should_quit), (text, foot, false));
    let tall = Ui::new(Rect { x: 0, y: 0, width: 10, height: 5 });
    assert_eq!(tall.foot_area.y + tall.foot_area.height, 5);
}

#[test]
fn a_split_asks_for_two_halves() {
    assert_eq!(halves(), vec![Constraint::Percentage(50), Constraint::Percentage(50)]);
}

#[test]
fn rows_drawn_from_the_top_of_the_area() {
    let mut w = Window::new(&change());
    w.current_page = 2;
    let area = Rect { x: 0, y: 5, width: 10, height: 3 };
    assert_eq!(w.draw_row(1, area), None);
    assert_eq!(w.draw_row(2, area), Some(5));
    assert_eq!(w.draw_row(4, area), Some(7));
    assert_eq!(w.draw_row(5, area), None);
}
