//! What the screen shows for a state: a list of the scrollback under a title
//! that names the scroll mode, and a box with the input line and the text
//! cursor behind its last character. Nothing here changes the state, and in
//! the same two areas the same state always gives the same screen. How an
//! area is divided into the two is the layout's to say: `arrange` asks it
//! for a list of at least one row above a box of three.

use crate::ui::app_state::{AppState, AppView};
use ratatui::layout::{Constraint, Direction, Layout, Rect};
use vstd::prelude::*;
use vstd::string::StrSliceExecFns;

verus! {

/// The least number of rows for the list.
pub const MIN_LIST_ROWS: u16 = 1;

/// The number of rows of the input box.
pub const INPUT_ROWS: u16 = 3;

/// A rectangle of the screen.
#[derive(Copy, Clone, Debug, PartialEq, Eq)]
pub struct Area {
    /// The column of the left edge.
    pub x: u16,
    /// The row of the top edge.
    pub y: u16,
    /// The number of columns.
    pub width: u16,
    /// The number of rows.
    pub height: u16,
}

/// What to draw.
pub struct Screen<'a> {
    /// Where the list goes.
    pub list_area: Area,
    /// Where the input box goes.
    pub input_area: Area,
    /// The title of the list.
    pub title: &'static str,
    /// The lines of the list, oldest first.
    pub lines: &'a Vec<String>,
    /// The line that the list is scrolled to, if any.
    pub selected: Option<usize>,
    /// The title of the input box.
    pub input_title: &'static str,
    /// The text in the input box.
    pub input: &'a String,
    /// The column and row of the text cursor.
    pub cursor: (u16, u16),
}

/// The list's title while the view follows the newest line.
pub open spec fn title_following() -> Seq<char> {
    "Serial Monitor (Auto-scroll ON - ↑↓/PgUp/PgDn to scroll, Ctrl+A to re-enable auto-scroll)"@
}

/// The list's title while the user scrolls.
pub open spec fn title_positioned() -> Seq<char> {
    "Serial Monitor (Auto-scroll OFF - ↑↓/PgUp/PgDn to scroll, Ctrl+A to re-enable auto-scroll)"@
}

/// The title of the input box.
pub open spec fn title_input() -> Seq<char> {
    "Input (Press Enter to send, Ctrl+C or Esc to exit)"@
}

/// The column of the text cursor for an input of `typed` characters in a box
/// whose left edge is column `x`: one column for the border, then one for
/// each character, as far as columns can be numbered.
pub open spec fn cursor_column(typed: nat, x: u16) -> int {
    if x + 1 + typed <= u16::MAX {
        x + 1 + typed
    } else {
        u16::MAX as int
    }
}

/// The row of the text cursor in a box whose top edge is row `y`: the row
/// under the border.
pub open spec fn cursor_row(y: u16) -> int {
    if y < u16::MAX {
        y + 1
    } else {
        u16::MAX as int
    }
}

/// Whether `screen` shows `state` in the two areas `list_area` and
/// `input_area`.
pub open spec fn shows(screen: Screen, state: AppView, list_area: Area, input_area: Area) -> bool {
    &&& screen.list_area == list_area
    &&& screen.input_area == input_area
    &&& screen.title@ == if state.auto_scroll {
        title_following()
    } else {
        title_positioned()
    }
    &&& screen.lines.deep_view() == state.lines
    &&& match screen.selected {
        Some(k) => state.anchor() == Some(k as int),
        None => state.anchor() is None,
    }
    &&& screen.input_title@ == title_input()
    &&& screen.input@ == state.input
    &&& screen.cursor.0 == cursor_column(state.input.len(), input_area.x)
    &&& screen.cursor.1 == cursor_row(input_area.y)
}

/// In the same areas a state has one screen only.
pub proof fn lemma_one_screen(
    first: Screen,
    second: Screen,
    state: AppView,
    list_area: Area,
    input_area: Area,
)
    requires
        shows(first, state, list_area, input_area),
        shows(second, state, list_area, input_area),
    ensures
        first.list_area == second.list_area,
        first.input_area == second.input_area,
        first.title@ == second.title@,
        first.lines.deep_view() == second.lines.deep_view(),
        first.selected == second.selected,
        first.input_title@ == second.input_title@,
        first.input@ == second.input@,
        first.cursor == second.cursor,
{
}

/// Where the text cursor goes for an input of `typed` characters in a box
/// with its top left corner at column `x`, row `y`.
pub fn cursor_position(typed: usize, x: u16, y: u16) -> (at: (u16, u16))
    ensures
        at.0 == cursor_column(typed as nat, x),
        at.1 == cursor_row(y),
{
    let room: u16 = u16::MAX - x;
    let column: u16 = if room >= 1 && typed <= (room - 1) as usize {
        x + 1 + typed as u16
    } else {
        u16::MAX
    };
    (column, y.saturating_add(1))
}

/// Composes the screen for `app_state` in the two areas `list_area` and
/// `input_area`.
pub fn compose<'a>(app_state: &'a AppState, list_area: Area, input_area: Area) -> (screen: Screen<
    'a,
>)
    ensures
        shows(screen, app_state@, list_area, input_area),
{
    let title = if app_state.auto_scroll() {
        "Serial Monitor (Auto-scroll ON - ↑↓/PgUp/PgDn to scroll, Ctrl+A to re-enable auto-scroll)"
    } else {
        "Serial Monitor (Auto-scroll OFF - ↑↓/PgUp/PgDn to scroll, Ctrl+A to re-enable auto-scroll)"
    };
    let input = app_state.input_line();
    Screen {
        list_area,
        input_area,
        title,
        lines: app_state.output_lines(),
        selected: app_state.anchor(),
        input_title: "Input (Press Enter to send, Ctrl+C or Esc to exit)",
        input,
        cursor: cursor_position(input.as_str().unicode_len(), input_area.x, input_area.y),
    }
}

/// Whether `inner` has the columns of `outer` and rows among those of
/// `outer`.
pub open spec fn is_band_of(inner: Area, outer: Area) -> bool {
    &&& inner.x == outer.x
    &&& inner.width == outer.width
    &&& outer.y <= inner.y
    &&& inner.y + inner.height <= outer.y + outer.height
}

/// `ratatui`'s `Layout::split` of `area` into two rows of full width: an
/// upper one of at least `top_min` rows and a lower one of `bottom` rows.
/// Which rows each of them gets is left to the layout; both have the columns
/// of `area`, and rows among those of `area`.
#[verifier::external_body]
fn split_rows(area: Area, top_min: u16, bottom: u16) -> (rows: (Area, Area))
    ensures
        is_band_of(rows.0, area),
        is_band_of(rows.1, area),
{
    let rows = Layout::default()
        .direction(Direction::Vertical)
        .constraints([Constraint::Min(top_min), Constraint::Length(bottom)])
        .split(Rect { x: area.x, y: area.y, width: area.width, height: area.height });
    (
        Area { x: rows[0].x, y: rows[0].y, width: rows[0].width, height: rows[0].height },
        Area { x: rows[1].x, y: rows[1].y, width: rows[1].width, height: rows[1].height },
    )
}

/// Arranges the screen for `app_state` in `area`: the list and the input
/// box, both as wide as `area` and within its rows.
pub fn arrange<'a>(app_state: &'a AppState, area: Area) -> (screen: Screen<'a>)
    ensures
        shows(screen, app_state@, screen.list_area, screen.input_area),
        is_band_of(screen.list_area, area),
        is_band_of(screen.input_area, area),
        screen.cursor.0 == cursor_column(app_state@.input.len(), area.x),
{
    let (list_area, input_area) = split_rows(area, MIN_LIST_ROWS, INPUT_ROWS);
    compose(app_state, list_area, input_area)
}

} // verus!
