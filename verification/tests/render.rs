use notemd::render::render;
use notemd::search::SearchResult;
use notemd::selection::Action;
use notemd::selection::App;
use notemd::selection::Key;
use std::path::PathBuf;

fn app_with(text: &str, names: &[&str]) -> App {
    let mut app = App::new();
    for c in text.chars() {
        assert!(matches!(app.handle_key(Key::Char(c)), Action::Search));
    }
    app.set_results(names.iter().map(|name| SearchResult::new(PathBuf::from(name))).collect());
    app
}

#[test]
fn frame_in_input_mode_shows_text_and_cursor() {
    let app = app_with("todo", &["todo.md", "notes/todo-later.md"]);
    let frame = render(&app, 2, 2);
    assert_eq!(frame.title, "NoteMD");
    assert_eq!(frame.input, "> todo");
    assert!(frame.editing);
    assert_eq!(frame.cursor, Some((9, 3)));
    assert_eq!(frame.labels, vec!["todo".to_string(), "todo-later".to_string()]);
    assert_eq!(frame.highlighted, None);
}

#[test]
fn frame_of_a_fresh_session_is_empty() {
    let frame = render(&App::new(), 0, 0);
    assert_eq!(frame.input, "> ");
    assert_eq!(frame.cursor, Some((3, 1)));
    assert!(frame.labels.is_empty());
    assert_eq!(frame.highlighted, None);
}

#[test]
fn frame_in_select_mode_has_no_text_cursor_and_highlights_the_row() {
    let mut app = app_with("a", &["a.md", "b.md", "c.md"]);
    assert!(matches!(app.handle_key(Key::Esc), Action::Continue));
    app.select_next();
    let frame = render(&app, 2, 2);
    assert!(!frame.editing);
    assert_eq!(frame.cursor, None);
    assert_eq!(frame.input, "> a");
    assert_eq!(frame.labels, vec!["a".to_string(), "b".to_string(), "c".to_string()]);
    assert_eq!(frame.highlighted, Some(1));
}

#[test]
fn cursor_column_counts_display_width() {
    let app = app_with("日本", &[]);
    assert_eq!(render(&app, 1, 1).cursor, Some((8, 2)));
    let app = app_with("e\u{301}", &[]);
    assert_eq!(render(&app, 1, 1).cursor, Some((5, 2)));
}

#[test]
fn cursor_beyond_the_addressable_screen_is_not_shown() {
    let app = app_with("abc", &[]);
    assert_eq!(render(&app, 65529, 10).cursor, Some((65535, 11)));
    assert_eq!(render(&app, 65530, 10).cursor, None);
    assert_eq!(render(&app, 0, 65535).cursor, None);
    assert_eq!(render(&app, 0, 65534).cursor, Some((6, 65535)));
}

#[test]
fn results_without_a_stem_have_no_row() {
    let mut app = app_with("", &["a.md", "..", "c.md"]);
    let frame = render(&app, 0, 0);
    assert_eq!(frame.labels, vec!["a".to_string(), "c".to_string()]);
    assert!(matches!(app.handle_key(Key::Esc), Action::Continue));
    assert_eq!(render(&app, 0, 0).highlighted, Some(0));
    app.select_next();
    assert_eq!(app.selected(), Some(1));
    assert_eq!(render(&app, 0, 0).highlighted, None);
    app.select_next();
    assert_eq!(app.selected(), Some(2));
    assert_eq!(render(&app, 0, 0).highlighted, Some(1));
}

#[test]
fn rendering_leaves_the_state_alone() {
    let mut app = app_with("q", &["a.md", "b.md"]);
    assert!(matches!(app.handle_key(Key::Esc), Action::Continue));
    let first = render(&app, 4, 4);
    let second = render(&app, 4, 4);
    assert_eq!(first.labels, second.labels);
    assert_eq!(first.highlighted, second.highlighted);
    assert_eq!(app.selected(), Some(0));
    assert_eq!(app.search_string(), "q");
}
