//! The selection state: what was typed, what was found, which mode the
//! picker is in and which result the cursor is on.
//!
//! Every key has a defined effect in either mode. [`App::handle_key`] takes
//! one key, moves the state and says what the caller has to do next: go on,
//! run a search for the new text, or end the session with a selection.

use crate::pattern::pattern_is_valid;
use crate::pattern::PatternError;
use crate::search::distinct_paths;
use crate::search::entries;
use crate::search::matching;
use crate::search::search_for_files;
use crate::search::NoteFile;
use crate::search::SearchPass;
use crate::search::SearchResult;
use std::path::PathBuf;
use vstd::prelude::*;

verus! {

/// Which of the two modes takes the keys.
#[derive(Clone, Copy, Debug, PartialEq, Eq, Structural)]
pub enum InputMode {
    /// Keys move the cursor over the results.
    Select,
    /// Keys edit the search text.
    Input,
}

/// A key press, as far as the picker tells keys apart.
#[derive(Clone, Copy, Debug, PartialEq, Eq, Structural)]
pub enum Key {
    Char(char),
    Backspace,
    Esc,
    Enter,
    Up,
    Down,
    /// Any other key; it changes nothing.
    Other,
}

/// How a session ended.
#[derive(Debug)]
pub enum Selection {
    /// The file of the result that the cursor was on.
    Existing(PathBuf),
    /// A note still to be made, by its name relative to the notes directory.
    New(String),
    /// No file.
    Cancelled,
}

/// What the caller has to do after a key.
#[derive(Debug)]
pub enum Action {
    /// Nothing but to draw and read the next key.
    Continue,
    /// Run the matcher for the search text and hand the results back.
    Search,
    /// End the session with this selection.
    Finish(Selection),
}

/// [`Selection`] with its text as a sequence.
pub enum SelectionView {
    Existing(PathBuf),
    New(Seq<char>),
    Cancelled,
}

/// [`Action`] over [`SelectionView`].
pub enum ActionView {
    Continue,
    Search,
    Finish(SelectionView),
}

impl View for Selection {
    type V = SelectionView;

    open spec fn view(&self) -> SelectionView {
        match *self {
            Selection::Existing(path) => SelectionView::Existing(path),
            Selection::New(name) => SelectionView::New(name@),
            Selection::Cancelled => SelectionView::Cancelled,
        }
    }
}

impl View for Action {
    type V = ActionView;

    open spec fn view(&self) -> ActionView {
        match *self {
            Action::Continue => ActionView::Continue,
            Action::Search => ActionView::Search,
            Action::Finish(selection) => ActionView::Finish(selection@),
        }
    }
}

/// The extension that a new note's name gets.
pub open spec fn note_extension() -> Seq<char> {
    seq!['.', 'm', 'd']
}

/// The key asks for the next result.
pub open spec fn is_next_key(key: Key) -> bool {
    key == Key::Char('j') || key == Key::Down
}

/// The key asks for the previous result.
pub open spec fn is_previous_key(key: Key) -> bool {
    key == Key::Char('k') || key == Key::Up
}

/// The key cancels a session that is in select mode.
pub open spec fn is_cancel_key(key: Key) -> bool {
    key == Key::Char('q') || key == Key::Esc
}

/// The selection state as plain values.
pub struct AppView {
    pub mode: InputMode,
    pub text: Seq<char>,
    pub results: Seq<SearchResult>,
    pub cursor: Option<int>,
}

impl AppView {
    /// The cursor, where set, is on a result.
    pub open spec fn valid(self) -> bool {
        self.cursor matches Some(i) ==> 0 <= i < self.results.len()
    }

    /// The state a session starts in.
    pub open spec fn initial() -> AppView {
        AppView { mode: InputMode::Input, text: Seq::empty(), results: Seq::empty(), cursor: None }
    }

    /// The cursor moved to the next result, from the last one round to the
    /// first. An unset cursor goes to the first result. Without results
    /// nothing moves.
    pub open spec fn select_next(self) -> AppView {
        if self.results.len() == 0 {
            self
        } else {
            AppView {
                cursor: Some(
                    match self.cursor {
                        Some(i) => if i + 1 < self.results.len() {
                            i + 1
                        } else {
                            0
                        },
                        None => 0,
                    },
                ),
                ..self
            }
        }
    }

    /// The cursor moved to the previous result, from the first one round to
    /// the last. An unset cursor goes to the first result. Without results
    /// nothing moves.
    pub open spec fn select_previous(self) -> AppView {
        if self.results.len() == 0 {
            self
        } else {
            AppView {
                cursor: Some(
                    match self.cursor {
                        Some(i) => if i > 0 {
                            i - 1
                        } else {
                            self.results.len() - 1
                        },
                        None => 0,
                    },
                ),
                ..self
            }
        }
    }

    /// No result highlighted.
    pub open spec fn unselect(self) -> AppView {
        AppView { cursor: None, ..self }
    }

    /// The results of a fresh search in place of the old ones, and no result
    /// highlighted.
    pub open spec fn with_results(self, results: Seq<SearchResult>) -> AppView {
        AppView { results, cursor: None, ..self }
    }

    /// The search text without its last character; the empty text stays
    /// empty.
    pub open spec fn erased(self) -> Seq<char> {
        if self.text.len() == 0 {
            self.text
        } else {
            self.text.drop_last()
        }
    }

    /// The cursor is on a result and the mode is the one in which that
    /// counts.
    pub open spec fn has_choice(self) -> bool {
        self.mode == InputMode::Select && self.cursor is Some
    }

    /// What a confirmation selects: the file under the cursor, or else a new
    /// note named by the search text and the note extension.
    pub open spec fn confirmed(self) -> SelectionView {
        if self.has_choice() {
            SelectionView::Existing(self.results[self.cursor->0].location())
        } else {
            SelectionView::New(self.text + note_extension())
        }
    }

    /// The state after a confirmation: a chosen result has left the list.
    pub open spec fn after_confirm(self) -> AppView {
        if self.has_choice() {
            AppView { results: self.results.remove(self.cursor->0), cursor: None, ..self }
        } else {
            self
        }
    }

    /// The state after `key`.
    pub open spec fn after_key(self, key: Key) -> AppView {
        match self.mode {
            InputMode::Input => match key {
                Key::Char(c) => AppView { text: self.text.push(c), cursor: None, ..self },
                Key::Backspace => AppView { text: self.erased(), cursor: None, ..self },
                Key::Esc => AppView { mode: InputMode::Select, ..self }.select_next(),
                Key::Enter => self.after_confirm(),
                _ => self,
            },
            InputMode::Select => if is_cancel_key(key) {
                self
            } else if key == Key::Char('i') {
                AppView { mode: InputMode::Input, cursor: None, ..self }
            } else if is_next_key(key) {
                self.select_next()
            } else if is_previous_key(key) {
                self.select_previous()
            } else if key == Key::Enter {
                self.after_confirm()
            } else {
                self
            },
        }
    }

    /// What the caller has to do after `key`.
    pub open spec fn action_for(self, key: Key) -> ActionView {
        match self.mode {
            InputMode::Input => match key {
                Key::Char(_) => ActionView::Search,
                Key::Backspace => ActionView::Search,
                Key::Enter => ActionView::Finish(self.confirmed()),
                _ => ActionView::Continue,
            },
            InputMode::Select => if is_cancel_key(key) {
                ActionView::Finish(SelectionView::Cancelled)
            } else if key == Key::Enter {
                ActionView::Finish(self.confirmed())
            } else {
                ActionView::Continue
            },
        }
    }

    /// The state after each of `keys` in turn.
    pub open spec fn after_keys(self, keys: Seq<Key>) -> AppView
        decreases keys.len(),
    {
        if keys.len() == 0 {
            self
        } else {
            self.after_keys(keys.drop_last()).after_key(keys.last())
        }
    }
}

/// Calls `String::push`: the character is appended.
#[verifier::external_body]
fn push_char(text: &mut String, c: char)
    ensures
        final(text)@ == old(text)@.push(c),
{
    text.push(c)
}

/// Calls `String::pop`: the last character is removed and returned, or
/// `None` where the text is empty.
#[verifier::external_body]
fn pop_char(text: &mut String) -> (removed: Option<char>)
    ensures
        old(text)@.len() == 0 ==> removed is None && final(text)@ == old(text)@,
        old(text)@.len() > 0 ==> removed == Some(old(text)@.last()) && final(text)@ == old(text)@
            .drop_last(),
{
    text.pop()
}

/// The selection state of one interactive session.
pub struct App {
    input_mode: InputMode,
    search_string: String,
    search_results: Vec<SearchResult>,
    cursor: Option<usize>,
}

impl View for App {
    type V = AppView;

    closed spec fn view(&self) -> AppView {
        AppView {
            mode: self.input_mode,
            text: self.search_string@,
            results: self.search_results@,
            cursor: match self.cursor {
                Some(i) => Some(i as int),
                None => None,
            },
        }
    }
}

impl App {
    #[verifier::type_invariant]
    spec fn well_formed(self) -> bool {
        self@.valid()
    }

    /// A session at its start: input mode, nothing typed, nothing found.
    pub fn new() -> (app: App)
        ensures
            app@ == AppView::initial(),
            app@.valid(),
    {
        App {
            input_mode: InputMode::Input,
            search_string: String::new(),
            search_results: Vec::new(),
            cursor: None,
        }
    }

    /// Opens a session: the state at its start, and the first thing to do,
    /// which is a search for the still empty text so that every note is
    /// listed before anything is typed.
    pub fn start() -> (opening: (App, Action))
        ensures
            opening.0@ == AppView::initial(),
            opening.0@.valid(),
            opening.1@ == ActionView::Search,
    {
        (App::new(), Action::Search)
    }

    /// The mode that takes the keys.
    pub fn input_mode(&self) -> (mode: InputMode)
        ensures
            mode == self@.mode,
            self@.valid(),
    {
        proof {
            use_type_invariant(self);
        }
        self.input_mode
    }

    /// The text typed so far.
    pub fn search_string(&self) -> (text: &str)
        ensures
            text@ == self@.text,
    {
        self.search_string.as_str()
    }

    /// The results of the last search.
    pub fn search_results(&self) -> (results: &Vec<SearchResult>)
        ensures
            results@ == self@.results,
    {
        &self.search_results
    }

    /// The index of the result that the cursor is on.
    pub fn selected(&self) -> (cursor: Option<usize>)
        ensures
            cursor is Some <==> self@.cursor is Some,
            cursor matches Some(i) ==> self@.cursor == Some(i as int) && i < self@.results.len(),
    {
        proof {
            use_type_invariant(self);
        }
        self.cursor
    }

    /// Moves the cursor to the next result, wrapping from the last to the
    /// first. Without results nothing changes.
    pub fn select_next(&mut self)
        ensures
            final(self)@ == old(self)@.select_next(),
            final(self)@.valid(),
            old(self)@.results.len() == 0 ==> final(self)@ == old(self)@,
            old(self)@.results.len() > 0 && old(self)@.cursor == Some(
                old(self)@.results.len() - 1,
            ) ==> final(self)@.cursor == Some(0int),
    {
        proof {
            use_type_invariant(&*self);
        }
        if self.search_results.is_empty() {
            return;
        }
        let i: usize = match self.cursor {
            Some(i) => {
                if i < self.search_results.len() - 1 {
                    i + 1
                } else {
                    0
                }
            },
            None => 0,
        };
        self.cursor = Some(i);
    }

    /// Moves the cursor to the previous result, wrapping from the first to
    /// the last. Without results nothing changes.
    pub fn select_previous(&mut self)
        ensures
            final(self)@ == old(self)@.select_previous(),
            final(self)@.valid(),
            old(self)@.results.len() == 0 ==> final(self)@ == old(self)@,
            old(self)@.results.len() > 0 && old(self)@.cursor == Some(0int) ==> final(self)@.cursor
                == Some(old(self)@.results.len() - 1),
    {
        proof {
            use_type_invariant(&*self);
        }
        if self.search_results.is_empty() {
            return;
        }
        let i: usize = match self.cursor {
            Some(i) => {
                if i > 0 {
                    i - 1
                } else {
                    self.search_results.len() - 1
                }
            },
            None => 0,
        };
        self.cursor = Some(i);
    }

    /// Takes the cursor off the results.
    pub fn unselect(&mut self)
        ensures
            final(self)@ == old(self)@.unselect(),
            final(self)@.valid(),
    {
        proof {
            use_type_invariant(&*self);
        }
        self.cursor = None;
    }

    /// Puts the results of a finished search in place of the old ones and
    /// clears the cursor.
    pub fn set_results(&mut self, results: Vec<SearchResult>)
        ensures
            final(self)@ == old(self)@.with_results(results@),
            final(self)@.valid(),
    {
        proof {
            use_type_invariant(&*self);
        }
        self.cursor = None;
        self.search_results = results;
    }

    /// Starts a pass of the matcher for the search text. A malformed text
    /// fails; the state is untouched either way.
    pub fn begin_search(&self) -> (r: Result<SearchPass, PatternError>)
        ensures
            r is Ok <==> pattern_is_valid(self@.text),
            self@.text.len() == 0 ==> r is Ok,
            r matches Ok(pass) ==> {
                &&& pass.pattern() == self@.text
                &&& pass.collected() == Seq::<SearchResult>::empty()
                &&& pass.awaiting() is None
            },
    {
        SearchPass::new(self.search_string.as_str())
    }

    /// Searches `files` for the search text and takes the outcome as the new
    /// results, with the cursor cleared. Where the text is a malformed
    /// pattern the search fails and the state stays as it was.
    pub fn search(&mut self, files: Vec<NoteFile>) -> (r: Result<(), PatternError>)
        ensures
            r is Ok <==> pattern_is_valid(old(self)@.text),
            old(self)@.text.len() == 0 ==> r is Ok,
            r is Ok ==> final(self)@ == old(self)@.with_results(
                matching(old(self)@.text, files@),
            ),
            r is Err ==> final(self)@ == old(self)@,
            final(self)@.valid(),
            r is Ok && distinct_paths(entries(files@)) ==> distinct_paths(final(self)@.results),
    {
        proof {
            use_type_invariant(&*self);
        }
        match search_for_files(files, self.search_string.as_str()) {
            Ok(matched) => {
                self.set_results(matched);
                Ok(())
            },
            Err(error) => Err(error),
        }
    }

    /// Resolves a confirmation. In select mode with the cursor on a result,
    /// that result leaves the list and its path is the selection. Otherwise
    /// the selection is a new note named by the search text with the note
    /// extension, and nothing changes.
    pub fn confirm(&mut self) -> (selection: Selection)
        ensures
            selection@ == old(self)@.confirmed(),
            final(self)@ == old(self)@.after_confirm(),
            final(self)@.valid(),
            !(selection is Cancelled),
            old(self)@.has_choice() ==> selection@ == SelectionView::Existing(
                old(self)@.results[old(self)@.cursor->0].location(),
            ) && final(self)@.results == old(self)@.results.remove(old(self)@.cursor->0),
            !old(self)@.has_choice() ==> selection@ == SelectionView::New(
                old(self)@.text + note_extension(),
            ) && final(self)@ == old(self)@,
            distinct_paths(old(self)@.results) ==> distinct_paths(final(self)@.results),
            distinct_paths(old(self)@.results) ==> forall|k: int|
                0 <= k < final(self)@.results.len() ==> selection@ != SelectionView::Existing(
                    (#[trigger] final(self)@.results[k]).location(),
                ),
    {
        proof {
            use_type_invariant(&*self);
            if distinct_paths(self@.results) {
                lemma_confirmed_path_leaves_list(self@);
            }
        }
        let on_result = match self.input_mode {
            InputMode::Select => self.cursor,
            InputMode::Input => None,
        };
        match on_result {
            Some(i) => {
                // The list is taken out, shortened and put back, so that the
                // cursor is never seen pointing past its end.
                let mut results: Vec<SearchResult> = Vec::new();
                self.cursor = None;
                std::mem::swap(&mut self.search_results, &mut results);
                let chosen = results.remove(i);
                self.search_results = results;
                Selection::Existing(chosen.path())
            },
            None => {
                proof {
                    reveal_strlit(".md");
                    assert(".md"@ =~= note_extension());
                }
                Selection::New(self.search_string.clone().concat(".md"))
            },
        }
    }

    /// Takes one key. The state moves as [`AppView::after_key`] says and the
    /// answer is [`AppView::action_for`] of the state before.
    ///
    /// In input mode a character is appended to the search text and
    /// backspace removes the last one; both ask for a search. Escape
    /// switches to select mode with the cursor on the first result, if there
    /// is one. In select mode `q` and escape cancel, `i` switches back to
    /// input mode and clears the cursor, `j` and down move to the next
    /// result, `k` and up to the previous one. Enter confirms in either
    /// mode. Every other key changes nothing.
    pub fn handle_key(&mut self, key: Key) -> (action: Action)
        ensures
            final(self)@ == old(self)@.after_key(key),
            action@ == old(self)@.action_for(key),
            final(self)@.valid(),
            old(self)@.mode == InputMode::Select && is_cancel_key(key) ==> action@
                == ActionView::Finish(SelectionView::Cancelled) && final(self)@ == old(self)@,
            old(self)@.mode == InputMode::Input && key == Key::Esc && old(self)@.results.len() > 0
                && old(self)@.cursor is None ==> final(self)@.mode == InputMode::Select
                && final(self)@.cursor == Some(0int),
            old(self)@.mode == InputMode::Select && key == Key::Char('i') ==> final(self)@.mode
                == InputMode::Input && final(self)@.cursor is None,
    {
        proof {
            use_type_invariant(&*self);
        }
        match self.input_mode {
            InputMode::Select => match key {
                Key::Char(c) => {
                    if c == 'q' {
                        Action::Finish(Selection::Cancelled)
                    } else if c == 'i' {
                        self.cursor = None;
                        self.input_mode = InputMode::Input;
                        Action::Continue
                    } else if c == 'j' {
                        self.select_next();
                        Action::Continue
                    } else if c == 'k' {
                        self.select_previous();
                        Action::Continue
                    } else {
                        Action::Continue
                    }
                },
                Key::Esc => Action::Finish(Selection::Cancelled),
                Key::Down => {
                    self.select_next();
                    Action::Continue
                },
                Key::Up => {
                    self.select_previous();
                    Action::Continue
                },
                Key::Enter => Action::Finish(self.confirm()),
                _ => Action::Continue,
            },
            InputMode::Input => match key {
                Key::Char(c) => {
                    let mut text = String::new();
                    std::mem::swap(&mut self.search_string, &mut text);
                    push_char(&mut text, c);
                    self.search_string = text;
                    self.cursor = None;
                    Action::Search
                },
                Key::Backspace => {
                    let mut text = String::new();
                    std::mem::swap(&mut self.search_string, &mut text);
                    pop_char(&mut text);
                    self.search_string = text;
                    self.cursor = None;
                    Action::Search
                },
                Key::Esc => {
                    self.input_mode = InputMode::Select;
                    self.select_next();
                    Action::Continue
                },
                Key::Enter => Action::Finish(self.confirm()),
                _ => Action::Continue,
            },
        }
    }
}

/// The key moves the cursor.
pub open spec fn is_navigation_key(key: Key) -> bool {
    is_next_key(key) || is_previous_key(key)
}

/// No key takes the cursor off the results: a valid state stays valid, and
/// so does one that is given fresh results.
pub proof fn lemma_keys_keep_cursor_on_results(state: AppView, key: Key)
    requires
        state.valid(),
    ensures
        state.after_key(key).valid(),
        state.select_next().valid(),
        state.select_previous().valid(),
        forall|results: Seq<SearchResult>| (#[trigger] state.with_results(results)).valid(),
        state.after_key(key).results.len() == 0 ==> state.after_key(key).cursor is None,
{
}

/// With at least one result, next on the last result goes to the first and
/// previous on the first goes to the last. In select mode that is what the
/// navigation keys do.
pub proof fn lemma_navigation_wraps(state: AppView, key: Key)
    requires
        state.valid(),
        state.results.len() >= 1,
    ensures
        state.cursor == Some(state.results.len() - 1) ==> state.select_next().cursor == Some(
            0int,
        ),
        state.cursor == Some(0int) ==> state.select_previous().cursor == Some(
            state.results.len() - 1,
        ),
        state.mode == InputMode::Select && is_next_key(key) ==> state.after_key(key)
            == state.select_next(),
        state.mode == InputMode::Select && is_previous_key(key) ==> state.after_key(key)
            == state.select_previous(),
{
}

/// Without results, navigation keys change nothing in select mode, however
/// many are pressed.
pub proof fn lemma_navigation_without_results_is_idle(state: AppView, keys: Seq<Key>)
    requires
        state.mode == InputMode::Select,
        state.results.len() == 0,
        forall|i: int| 0 <= i < keys.len() ==> is_navigation_key(#[trigger] keys[i]),
    ensures
        state.after_keys(keys) == state,
        state.select_next() == state,
        state.select_previous() == state,
    decreases keys.len(),
{
    if keys.len() > 0 {
        lemma_navigation_without_results_is_idle(state, keys.drop_last());
        assert(is_navigation_key(keys[keys.len() - 1]));
    }
}

/// Escape in input mode switches to select mode; with results and no cursor
/// set, the cursor goes to the first result. The key `i` in select mode
/// switches to input mode and clears the cursor, wherever it was.
pub proof fn lemma_mode_switch(state: AppView)
    requires
        state.valid(),
    ensures
        state.mode == InputMode::Input ==> state.after_key(Key::Esc).mode == InputMode::Select,
        state.mode == InputMode::Input && state.results.len() > 0 && state.cursor is None
            ==> state.after_key(Key::Esc).cursor == Some(0int),
        state.mode == InputMode::Input && state.results.len() == 0 ==> state.after_key(
            Key::Esc,
        ).cursor is None,
        state.mode == InputMode::Select ==> state.after_key(Key::Char('i')).mode
            == InputMode::Input && state.after_key(Key::Char('i')).cursor is None,
{
}

/// Enter in select mode with the cursor on a result selects exactly that
/// result's path, and the result leaves the list: the list that remains is
/// the old one without that entry, the others in their order.
pub proof fn lemma_confirm_takes_result_under_cursor(state: AppView)
    requires
        state.valid(),
        state.mode == InputMode::Select,
        state.cursor is Some,
    ensures
        state.action_for(Key::Enter) == ActionView::Finish(
            SelectionView::Existing(state.results[state.cursor->0].location()),
        ),
        state.after_key(Key::Enter).results == state.results.remove(state.cursor->0),
        state.after_key(Key::Enter).results.len() == state.results.len() - 1,
        forall|k: int|
            0 <= k < state.results.len() - 1 ==> #[trigger] state.after_key(Key::Enter).results[k]
                == (if k < state.cursor->0 {
                state.results[k]
            } else {
                state.results[k + 1]
            }),
        state.after_key(Key::Enter).cursor is None,
{
}

/// Where no path is listed twice, the path that a confirmation selects is
/// in the list no more, and still no path is listed twice.
pub proof fn lemma_confirmed_path_leaves_list(state: AppView)
    requires
        state.valid(),
        distinct_paths(state.results),
    ensures
        distinct_paths(state.after_confirm().results),
        forall|k: int|
            0 <= k < state.after_confirm().results.len() ==> state.confirmed()
                != SelectionView::Existing(
                (#[trigger] state.after_confirm().results[k]).location(),
            ),
{
    if state.has_choice() {
        let i = state.cursor->0;
        let rest = state.results.remove(i);
        assert forall|k: int| 0 <= k < rest.len() implies (#[trigger] rest[k]).location()
            != state.results[i].location() by {
            if k < i {
                assert(rest[k] == state.results[k]);
            } else {
                assert(rest[k] == state.results[k + 1]);
            }
        }
        assert forall|k: int, l: int| 0 <= k < l < rest.len() implies (#[trigger] rest[k]).location()
            != (#[trigger] rest[l]).location() by {
            let from_k = if k < i { k } else { k + 1 };
            let from_l = if l < i { l } else { l + 1 };
            assert(rest[k] == state.results[from_k]);
            assert(rest[l] == state.results[from_l]);
        }
    }
}

/// No key brings a path into the list twice.
pub proof fn lemma_keys_keep_paths_distinct(state: AppView, key: Key)
    requires
        state.valid(),
        distinct_paths(state.results),
    ensures
        distinct_paths(state.after_key(key).results),
{
    lemma_confirmed_path_leaves_list(state);
}

/// Enter without a result under the cursor, in either mode, selects a new
/// note: the search text followed by the note extension. The state stays.
pub proof fn lemma_confirm_names_new_note(state: AppView)
    requires
        state.mode == InputMode::Input || state.cursor is None,
    ensures
        state.action_for(Key::Enter) == ActionView::Finish(
            SelectionView::New(state.text + note_extension()),
        ),
        state.after_key(Key::Enter) == state,
{
}

/// In select mode `q` and escape end the session without a file, and leave
/// the state as it was.
pub proof fn lemma_cancel_selects_nothing(state: AppView, key: Key)
    requires
        state.mode == InputMode::Select,
        is_cancel_key(key),
    ensures
        state.action_for(key) == ActionView::Finish(SelectionView::Cancelled),
        state.after_key(key) == state,
{
}

} // verus!
