use notemd::search::NoteFile;
use notemd::search::SearchResult;
use notemd::selection::Action;
use notemd::selection::App;
use notemd::selection::InputMode;
use notemd::selection::Key;
use notemd::selection::Selection;
use std::path::PathBuf;

fn results(names: &[&str]) -> Vec<SearchResult> {
    names.iter().map(|name| SearchResult::new(PathBuf::from(name))).collect()
}

fn listed(app: &App) -> Vec<Option<&str>> {
    app.search_results().iter().map(|result| result.file_stem()).collect()
}

fn selecting(names: &[&str]) -> App {
    let mut app = App::new();
    app.set_results(results(names));
    assert!(matches!(app.handle_key(Key::Esc), Action::Continue));
    app
}

fn type_text(app: &mut App, text: &str) {
    for c in text.chars() {
        assert!(matches!(app.handle_key(Key::Char(c)), Action::Search));
    }
}

#[test]
fn session_starts_in_input_mode_with_nothing() {
    let app = App::new();
    assert_eq!(app.input_mode(), InputMode::Input);
    assert_eq!(app.search_string(), "");
    assert!(app.search_results().is_empty());
    assert_eq!(app.selected(), None);
}

#[test]
fn next_wraps_from_the_last_result_to_the_first() {
    let mut app = selecting(&["a.md", "b.md", "c.md"]);
    assert_eq!(app.selected(), Some(0));
    app.select_next();
    assert_eq!(app.selected(), Some(1));
    app.select_next();
    assert_eq!(app.selected(), Some(2));
    app.select_next();
    assert_eq!(app.selected(), Some(0));
}

#[test]
fn previous_wraps_from_the_first_result_to_the_last() {
    let mut app = selecting(&["a.md", "b.md", "c.md"]);
    assert_eq!(app.selected(), Some(0));
    app.select_previous();
    assert_eq!(app.selected(), Some(2));
    app.select_previous();
    assert_eq!(app.selected(), Some(1));
}

#[test]
fn single_result_wraps_onto_itself() {
    let mut app = selecting(&["a.md"]);
    app.select_next();
    assert_eq!(app.selected(), Some(0));
    app.select_previous();
    assert_eq!(app.selected(), Some(0));
}

#[test]
fn unset_cursor_goes_to_the_first_result() {
    let mut app = App::new();
    app.set_results(results(&["a.md", "b.md"]));
    app.select_previous();
    assert_eq!(app.selected(), Some(0));
    app.unselect();
    assert_eq!(app.selected(), None);
    app.select_next();
    assert_eq!(app.selected(), Some(0));
}

#[test]
fn navigation_keys_move_the_cursor_in_select_mode() {
    let mut app = selecting(&["a.md", "b.md", "c.md"]);
    assert!(matches!(app.handle_key(Key::Char('j')), Action::Continue));
    assert_eq!(app.selected(), Some(1));
    assert!(matches!(app.handle_key(Key::Down), Action::Continue));
    assert_eq!(app.selected(), Some(2));
    assert!(matches!(app.handle_key(Key::Char('k')), Action::Continue));
    assert_eq!(app.selected(), Some(1));
    assert!(matches!(app.handle_key(Key::Up), Action::Continue));
    assert_eq!(app.selected(), Some(0));
    assert!(matches!(app.handle_key(Key::Up), Action::Continue));
    assert_eq!(app.selected(), Some(2));
    assert!(matches!(app.handle_key(Key::Down), Action::Continue));
    assert_eq!(app.selected(), Some(0));
}

#[test]
fn navigation_without_results_changes_nothing() {
    let mut app = selecting(&[]);
    assert_eq!(app.input_mode(), InputMode::Select);
    for key in [Key::Down, Key::Up, Key::Char('j'), Key::Char('k'), Key::Down, Key::Down] {
        assert!(matches!(app.handle_key(key), Action::Continue));
        assert_eq!(app.selected(), None);
        assert_eq!(app.input_mode(), InputMode::Select);
        assert_eq!(app.search_string(), "");
        assert!(app.search_results().is_empty());
    }
    app.select_next();
    app.select_previous();
    assert_eq!(app.selected(), None);
}

#[test]
fn escape_in_input_mode_selects_the_first_result() {
    let mut app = App::new();
    app.set_results(results(&["a.md", "b.md"]));
    assert_eq!(app.selected(), None);
    assert!(matches!(app.handle_key(Key::Esc), Action::Continue));
    assert_eq!(app.input_mode(), InputMode::Select);
    assert_eq!(app.selected(), Some(0));
}

#[test]
fn escape_in_input_mode_without_results_sets_no_cursor() {
    let mut app = App::new();
    assert!(matches!(app.handle_key(Key::Esc), Action::Continue));
    assert_eq!(app.input_mode(), InputMode::Select);
    assert_eq!(app.selected(), None);
}

#[test]
fn i_in_select_mode_returns_to_input_and_clears_the_cursor() {
    let mut app = selecting(&["a.md", "b.md"]);
    app.select_next();
    assert_eq!(app.selected(), Some(1));
    assert!(matches!(app.handle_key(Key::Char('i')), Action::Continue));
    assert_eq!(app.input_mode(), InputMode::Input);
    assert_eq!(app.selected(), None);
    assert_eq!(listed(&app), vec![Some("a"), Some("b")]);
}

#[test]
fn characters_and_backspace_edit_the_text_and_ask_for_a_search() {
    let mut app = App::new();
    type_text(&mut app, "jqik");
    assert_eq!(app.search_string(), "jqik");
    assert!(matches!(app.handle_key(Key::Backspace), Action::Search));
    assert_eq!(app.search_string(), "jqi");
    type_text(&mut app, "é");
    assert!(matches!(app.handle_key(Key::Backspace), Action::Search));
    assert_eq!(app.search_string(), "jqi");
    assert_eq!(app.input_mode(), InputMode::Input);
}

#[test]
fn backspace_on_empty_text_is_harmless() {
    let mut app = App::new();
    assert!(matches!(app.handle_key(Key::Backspace), Action::Search));
    assert_eq!(app.search_string(), "");
}

#[test]
fn typing_clears_the_cursor() {
    let mut app = App::new();
    app.set_results(results(&["a.md"]));
    app.select_next();
    assert_eq!(app.selected(), Some(0));
    type_text(&mut app, "x");
    assert_eq!(app.selected(), None);
}

#[test]
fn other_keys_change_nothing() {
    let mut app = App::new();
    type_text(&mut app, "ab");
    for key in [Key::Up, Key::Down, Key::Other] {
        assert!(matches!(app.handle_key(key), Action::Continue));
    }
    assert_eq!(app.search_string(), "ab");
    assert_eq!(app.input_mode(), InputMode::Input);
    let mut app = selecting(&["a.md", "b.md"]);
    for key in [Key::Backspace, Key::Other, Key::Char('x'), Key::Char('Q')] {
        assert!(matches!(app.handle_key(key), Action::Continue));
    }
    assert_eq!(app.selected(), Some(0));
    assert_eq!(app.input_mode(), InputMode::Select);
    assert_eq!(app.search_string(), "");
}

#[test]
fn confirm_in_select_mode_returns_the_result_under_the_cursor() {
    let mut app = selecting(&["a.md", "b.md", "c.md"]);
    app.select_next();
    match app.handle_key(Key::Enter) {
        Action::Finish(Selection::Existing(path)) => assert_eq!(path, PathBuf::from("b.md")),
        other => panic!("{:?}", other),
    }
    assert_eq!(listed(&app), vec![Some("a"), Some("c")]);
    assert_eq!(app.selected(), None);
}

#[test]
fn confirm_in_input_mode_names_a_new_note() {
    let mut app = App::new();
    app.set_results(results(&["todo.md"]));
    type_text(&mut app, "todo");
    match app.handle_key(Key::Enter) {
        Action::Finish(Selection::New(name)) => assert_eq!(name, "todo.md"),
        other => panic!("{:?}", other),
    }
    assert_eq!(app.search_string(), "todo");
    assert_eq!(listed(&app), vec![Some("todo")]);
}

#[test]
fn confirm_in_select_mode_without_cursor_names_a_new_note() {
    let mut app = App::new();
    type_text(&mut app, "ideas");
    assert!(matches!(app.handle_key(Key::Esc), Action::Continue));
    assert_eq!(app.input_mode(), InputMode::Select);
    match app.confirm() {
        Selection::New(name) => assert_eq!(name, "ideas.md"),
        other => panic!("{:?}", other),
    }
}

#[test]
fn confirm_with_empty_text_names_the_bare_extension() {
    let mut app = App::new();
    match app.confirm() {
        Selection::New(name) => assert_eq!(name, ".md"),
        other => panic!("{:?}", other),
    }
}

#[test]
fn cancel_keys_end_the_session_without_a_file() {
    for key in [Key::Char('q'), Key::Esc] {
        let mut app = selecting(&["a.md", "b.md"]);
        app.select_next();
        assert!(matches!(app.handle_key(key), Action::Finish(Selection::Cancelled)));
        assert_eq!(app.selected(), Some(1));
        assert_eq!(listed(&app), vec![Some("a"), Some("b")]);
        assert_eq!(app.input_mode(), InputMode::Select);
    }
}

#[test]
fn q_in_input_mode_is_just_a_character() {
    let mut app = App::new();
    assert!(matches!(app.handle_key(Key::Char('q')), Action::Search));
    assert_eq!(app.search_string(), "q");
}

#[test]
fn fresh_results_replace_the_old_and_clear_the_cursor() {
    let mut app = selecting(&["a.md", "b.md"]);
    assert_eq!(app.selected(), Some(0));
    app.set_results(results(&["c.md"]));
    assert_eq!(app.selected(), None);
    assert_eq!(listed(&app), vec![Some("c")]);
    app.set_results(Vec::new());
    assert_eq!(app.selected(), None);
    assert!(app.search_results().is_empty());
}

#[test]
fn search_takes_the_matches_for_the_typed_text() {
    let tree = |contents: [&str; 3]| -> Vec<NoteFile> {
        ["alpha.md", "beta.md", "gamma.md"]
            .iter()
            .zip(contents)
            .map(|(name, content)| NoteFile {
                entry: SearchResult::new(PathBuf::from(name)),
                content: Some(content.as_bytes().to_vec()),
            })
            .collect()
    };
    let mut app = App::new();
    assert!(app.search(tree(["hello", "world", "hello world"])).is_ok());
    assert_eq!(listed(&app), vec![Some("alpha"), Some("beta"), Some("gamma")]);
    type_text(&mut app, "hello");
    assert!(app.search(tree(["hello", "world", "hello world"])).is_ok());
    assert_eq!(listed(&app), vec![Some("alpha"), Some("gamma")]);
    assert_eq!(app.selected(), None);
}

#[test]
fn search_with_a_malformed_text_fails_and_keeps_the_state() {
    let mut app = App::new();
    app.set_results(results(&["a.md"]));
    type_text(&mut app, "(");
    assert!(app.search(Vec::new()).is_err());
    assert!(app.begin_search().is_err());
    assert_eq!(listed(&app), vec![Some("a")]);
    assert_eq!(app.search_string(), "(");
}

#[test]
fn begun_search_is_for_the_typed_text() {
    let mut app = App::new();
    type_text(&mut app, "alp");
    let mut pass = app.begin_search().ok().unwrap();
    assert!(!pass.offer(SearchResult::new(PathBuf::from("alpha.md"))));
    assert!(pass.offer(SearchResult::new(PathBuf::from("beta.md"))));
    pass.content(b"ALPine");
    app.set_results(pass.finish());
    assert_eq!(listed(&app), vec![Some("alpha"), Some("beta")]);
}

#[test]
fn session_opens_with_a_search_for_the_empty_text() {
    let (app, first) = App::start();
    assert!(matches!(first, Action::Search));
    assert_eq!(app.input_mode(), InputMode::Input);
    assert_eq!(app.search_string(), "");
    assert!(app.search_results().is_empty());
    assert_eq!(app.selected(), None);
}

#[test]
fn confirmed_path_is_in_the_list_no_more() {
    let mut app = selecting(&["a.md", "b.md", "c.md"]);
    app.select_next();
    let chosen = match app.confirm() {
        Selection::Existing(path) => path,
        other => panic!("{:?}", other),
    };
    assert_eq!(chosen, PathBuf::from("b.md"));
    assert_eq!(app.search_results().len(), 2);
    assert_eq!(listed(&app), vec![Some("a"), Some("c")]);
    assert!(matches!(app.handle_key(Key::Esc), Action::Finish(Selection::Cancelled)));
    assert_eq!(listed(&app), vec![Some("a"), Some("c")]);
}
