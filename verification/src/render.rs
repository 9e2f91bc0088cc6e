//! The frame: what a selection state looks like on the screen.
//!
//! [`render`] projects the state to plain values and changes nothing. The
//! frame holds the application's title, the input line, the place of the
//! text cursor, and the labels of the results with the active row. Drawing
//! it is the caller's part.

use crate::search::SearchResult;
use crate::selection::App;
use crate::selection::AppView;
use crate::selection::InputMode;
use unicode_width::UnicodeWidthStr;
use vstd::prelude::*;

verus! {

/// The number of terminal columns that `text` takes when displayed.
pub uninterp spec fn text_width(text: Seq<char>) -> nat;

/// Calls `UnicodeWidthStr::width`. Trusted: the answer is [`text_width`] of
/// the text.
#[verifier::external_body]
fn display_width(text: &str) -> (width: usize)
    ensures
        width == text_width(text@),
{
    text.width()
}

/// What is drawn for one state.
#[derive(Debug)]
pub struct Frame {
    /// The title of the outer panel.
    pub title: String,
    /// The line in the search box.
    pub input: String,
    /// Whether the search box takes the keys.
    pub editing: bool,
    /// Column and row of the text cursor, where one is shown.
    pub cursor: Option<(u16, u16)>,
    /// The rows of the result list.
    pub labels: Vec<String>,
    /// The row of the result that the cursor is on.
    pub highlighted: Option<usize>,
}

/// [`Frame`] over sequences.
pub struct FrameView {
    pub title: Seq<char>,
    pub input: Seq<char>,
    pub editing: bool,
    pub cursor: Option<(u16, u16)>,
    pub labels: Seq<Seq<char>>,
    pub highlighted: Option<int>,
}

/// The texts as sequences of characters.
pub open spec fn texts(rows: Seq<String>) -> Seq<Seq<char>> {
    rows.map_values(|row: String| row@)
}

impl View for Frame {
    type V = FrameView;

    open spec fn view(&self) -> FrameView {
        FrameView {
            title: self.title@,
            input: self.input@,
            editing: self.editing,
            cursor: self.cursor,
            labels: texts(self.labels@),
            highlighted: match self.highlighted {
                Some(row) => Some(row as int),
                None => None,
            },
        }
    }
}

/// The application's name, shown as the panel's title.
pub open spec fn application_name() -> Seq<char> {
    seq!['N', 'o', 't', 'e', 'M', 'D']
}

/// What the input line starts with.
pub open spec fn prompt() -> Seq<char> {
    seq!['>', ' ']
}

/// The columns between the left edge of the search box and the first typed
/// character: the border and the prompt.
pub open spec fn input_offset() -> int {
    3
}

/// The labels of the results that have one, in the order of the results.
pub open spec fn labels_of(results: Seq<SearchResult>) -> Seq<Seq<char>>
    decreases results.len(),
{
    if results.len() == 0 {
        Seq::empty()
    } else {
        match results.last().label() {
            Some(label) => labels_of(results.drop_last()).push(label),
            None => labels_of(results.drop_last()),
        }
    }
}

/// The row of the result under the cursor: the number of labelled results
/// before it. A result without a label has no row.
pub open spec fn highlighted_row(state: AppView) -> Option<int> {
    match state.cursor {
        Some(i) => if 0 <= i < state.results.len() && state.results[i].label() is Some {
            Some(labels_of(state.results.take(i)).len() as int)
        } else {
            None
        },
        None => None,
    }
}

/// Where the text cursor stands for a search box whose top left corner is at
/// column `x` and row `y`: right after the typed text, one row below the
/// border. There is none outside input mode, and none where the place is
/// beyond what a `u16` can address.
pub open spec fn cursor_position(state: AppView, x: u16, y: u16) -> Option<(u16, u16)> {
    if state.mode == InputMode::Input && x + text_width(state.text) + input_offset() <= u16::MAX
        && y + 1 <= u16::MAX {
        Some(((x + text_width(state.text) + input_offset()) as u16, (y + 1) as u16))
    } else {
        None
    }
}

/// The frame of `state` for a search box at column `x` and row `y`.
pub open spec fn frame_of(state: AppView, x: u16, y: u16) -> FrameView {
    FrameView {
        title: application_name(),
        input: prompt() + state.text,
        editing: state.mode == InputMode::Input,
        cursor: cursor_position(state, x, y),
        labels: labels_of(state.results),
        highlighted: highlighted_row(state),
    }
}

/// One more result adds its label, if it has one, to the labels so far.
proof fn lemma_labels_of_take(results: Seq<SearchResult>, i: int)
    requires
        0 <= i < results.len(),
    ensures
        labels_of(results.take(i + 1)) == (match results[i].label() {
            Some(label) => labels_of(results.take(i)).push(label),
            None => labels_of(results.take(i)),
        }),
{
    assert(results.take(i + 1).drop_last() == results.take(i));
    assert(results.take(i + 1).last() == results[i]);
}

/// The place of the text cursor in the frame of `app`.
fn text_cursor(app: &App, x: u16, y: u16) -> (cursor: Option<(u16, u16)>)
    ensures
        cursor == cursor_position(app@, x, y),
{
    let editing = match app.input_mode() {
        InputMode::Input => true,
        InputMode::Select => false,
    };
    let width = display_width(app.search_string());
    if !editing || width > 65532 || y == u16::MAX {
        return None;
    }
    let column: usize = x as usize + width + 3;
    if column > 65535 {
        None
    } else {
        Some((column as u16, y + 1))
    }
}

/// Projects the state to its frame, for a search box whose top left corner
/// is at column `x` and row `y`. The state is not changed.
pub fn render(app: &App, x: u16, y: u16) -> (frame: Frame)
    ensures
        frame@ == frame_of(app@, x, y),
{
    let results = app.search_results();
    let selected = app.selected();
    let mut labels: Vec<String> = Vec::new();
    let mut highlighted: Option<usize> = None;
    let mut i: usize = 0;
    while i < results.len()
        invariant
            i <= results.len(),
            results@ == app@.results,
            selected is Some <==> app@.cursor is Some,
            selected matches Some(c) ==> app@.cursor == Some(c as int) && c < app@.results.len(),
            texts(labels@) == labels_of(results@.take(i as int)),
            highlighted is Some <==> (selected matches Some(c) && c < i
                && results@[c as int].label() is Some),
            highlighted matches Some(row) ==> selected matches Some(c) && row == labels_of(
                results@.take(c as int),
            ).len(),
        decreases results.len() - i,
    {
        proof {
            lemma_labels_of_take(results@, i as int);
        }
        match results[i].file_stem() {
            Some(stem) => {
                if selected == Some(i) {
                    highlighted = Some(labels.len());
                }
                let ghost before = labels@;
                labels.push(stem.to_owned());
                assert(texts(labels@) == texts(before).push(stem@));
            },
            None => {},
        }
        i += 1;
    }
    assert(results@.take(i as int) == results@);
    proof {
        reveal_strlit("NoteMD");
        reveal_strlit("> ");
        assert("NoteMD"@ =~= application_name());
        assert("> "@ =~= prompt());
    }
    let editing = match app.input_mode() {
        InputMode::Input => true,
        InputMode::Select => false,
    };
    Frame {
        title: "NoteMD".to_owned(),
        input: "> ".to_owned().concat(app.search_string()),
        editing,
        cursor: text_cursor(app, x, y),
        labels,
        highlighted,
    }
}

} // verus!
