//! The state of the console: the line being typed, the scrollback, the text
//! still waiting for its line feed, and where the view is scrolled to.

use crate::ui::scrollback::{
    completed_lines, lemma_line_feed_at, lemma_split_push, lemma_unfinished_tail_has_no_line_feed,
    newest, unfinished_tail, without_trailing_cr, MAX_LINES,
};
use vstd::prelude::*;

verus! {

/// What an `AppState` holds, as mathematics.
pub struct AppView {
    /// The line being typed.
    pub input: Seq<char>,
    /// The scrollback, oldest line first.
    pub lines: Seq<Seq<char>>,
    /// Received text that no line feed has completed yet.
    pub partial: Seq<char>,
    /// The line that the user scrolled to, if any.
    pub cursor: Option<int>,
    /// Whether the view follows the newest line.
    pub auto_scroll: bool,
    /// Whether the session is to end.
    pub should_quit: bool,
    /// Whether the screen is out of date.
    pub needs_render: bool,
}

impl AppView {
    /// The index of the newest line, if there is a line.
    pub open spec fn last_index(self) -> Option<int> {
        if self.lines.len() == 0 {
            None
        } else {
            Some(self.lines.len() - 1)
        }
    }

    /// The line that the view is anchored to: the newest while following, the
    /// user's cursor otherwise.
    pub open spec fn anchor(self) -> Option<int> {
        if self.auto_scroll {
            self.last_index()
        } else {
            self.cursor
        }
    }

    /// The state after `data` has arrived.
    pub open spec fn fed(self, data: Seq<char>) -> AppView {
        let text = self.partial + data;
        AppView {
            lines: newest(self.lines + completed_lines(text), MAX_LINES as int),
            partial: unfinished_tail(text),
            needs_render: self.needs_render || completed_lines(text).len() > 0,
            ..self
        }
    }

    /// What holds of every state: the scrollback is within its limit, the
    /// waiting text holds no line feed, and the view either follows, with no
    /// cursor, or has a cursor that points at a line.
    pub open spec fn wf(self) -> bool {
        &&& self.lines.len() <= MAX_LINES
        &&& !self.partial.contains('\n')
        &&& self.auto_scroll <==> self.cursor is None
        &&& self.cursor matches Some(k) ==> 0 <= k < self.lines.len()
    }

    /// The state after a manual scroll to line `cursor`: following is off
    /// and the screen is out of date.
    pub open spec fn positioned(self, cursor: int) -> AppView {
        AppView { cursor: Some(cursor), auto_scroll: false, needs_render: true, ..self }
    }

    /// The state after one step up. With an empty scrollback nothing
    /// changes. The step starts at the cursor, or at the newest line when
    /// there is no cursor, and stops at the oldest line.
    pub open spec fn scrolled_up(self) -> AppView {
        if self.lines.len() == 0 {
            self
        } else {
            let from = match self.cursor {
                Some(k) => k,
                None => self.lines.len() - 1,
            };
            self.positioned(
                if from > 0 {
                    from - 1
                } else {
                    0
                },
            )
        }
    }

    /// The state after one step down. With an empty scrollback nothing
    /// changes. The step starts at the cursor, or at the newest line when
    /// there is no cursor, and stops at the newest line.
    pub open spec fn scrolled_down(self) -> AppView {
        if self.lines.len() == 0 {
            self
        } else {
            let from = match self.cursor {
                Some(k) => k,
                None => self.lines.len() - 1,
            };
            self.positioned(
                if from < self.lines.len() - 1 {
                    from + 1
                } else {
                    self.lines.len() - 1
                },
            )
        }
    }

    /// The state after a page of `page_size` lines up, stopping at the
    /// oldest line. The page starts where a step up starts.
    pub open spec fn paged_up(self, page_size: int) -> AppView {
        if self.lines.len() == 0 {
            self
        } else {
            let from = match self.cursor {
                Some(k) => k,
                None => self.lines.len() - 1,
            };
            self.positioned(
                if from >= page_size {
                    from - page_size
                } else {
                    0
                },
            )
        }
    }

    /// The state after a page of `page_size` lines down, stopping at the
    /// newest line. The page starts where a step down starts.
    pub open spec fn paged_down(self, page_size: int) -> AppView {
        if self.lines.len() == 0 {
            self
        } else {
            let from = match self.cursor {
                Some(k) => k,
                None => self.lines.len() - 1,
            };
            self.positioned(
                if from + page_size <= self.lines.len() - 1 {
                    from + page_size
                } else {
                    self.lines.len() - 1
                },
            )
        }
    }

    /// The state after a jump to the oldest line.
    pub open spec fn at_home(self) -> AppView {
        if self.lines.len() == 0 {
            self
        } else {
            self.positioned(0)
        }
    }

    /// The state after a manual jump to the newest line.
    pub open spec fn at_bottom(self) -> AppView {
        if self.lines.len() == 0 {
            self
        } else {
            self.positioned(self.lines.len() - 1)
        }
    }

    /// The state after following was switched on again: no cursor is left.
    pub open spec fn following(self) -> AppView {
        AppView { cursor: None, auto_scroll: true, needs_render: true, ..self }
    }

    /// The state after `c` was typed.
    pub open spec fn typed(self, c: char) -> AppView {
        AppView { input: self.input.push(c), needs_render: true, ..self }
    }

    /// The state after a backspace: an empty input line stays as it is.
    pub open spec fn erased(self) -> AppView {
        if self.input.len() == 0 {
            self
        } else {
            AppView { input: self.input.drop_last(), needs_render: true, ..self }
        }
    }

    /// The state after the input line was taken for sending.
    pub open spec fn cleared(self) -> AppView {
        AppView {
            input: Seq::empty(),
            needs_render: self.needs_render || self.input.len() > 0,
            ..self
        }
    }

    /// The state after the session was told to end.
    pub open spec fn quitting(self) -> AppView {
        AppView { should_quit: true, needs_render: true, ..self }
    }

    /// The state after the screen was drawn.
    pub open spec fn rendered(self) -> AppView {
        AppView { needs_render: false, ..self }
    }
}

/// The state of the console.
pub struct AppState {
    input_line: String,
    output_lines: Vec<String>,
    partial_line: String,
    list_selected: Option<usize>,
    auto_selected: Option<usize>,
    should_quit: bool,
    auto_scroll: bool,
    needs_render: bool,
}

impl View for AppState {
    type V = AppView;

    closed spec fn view(&self) -> AppView {
        AppView {
            input: self.input_line@,
            lines: self.output_lines.deep_view(),
            partial: self.partial_line@,
            cursor: match self.list_selected {
                Some(k) => Some(k as int),
                None => None,
            },
            auto_scroll: self.auto_scroll,
            should_quit: self.should_quit,
            needs_render: self.needs_render,
        }
    }
}

/// Removes the carriage return at the end of `line`, if it ends in one.
fn trim_trailing_cr(line: &mut String)
    ensures
        final(line)@ == without_trailing_cr(old(line)@),
{
    match line.pop() {
        Some(c) => {
            if c != '\r' {
                line.push(c);
                assert(line@ =~= old(line)@);
            }
        },
        None => {},
    }
}

impl AppState {
    #[verifier::type_invariant]
    spec fn inv(self) -> bool {
        &&& self.output_lines@.len() <= MAX_LINES
        &&& !self.partial_line@.contains('\n')
        &&& self.auto_scroll <==> self.list_selected is None
        &&& self.list_selected matches Some(k) ==> k < self.output_lines@.len()
        &&& self.auto_selected == if self.output_lines@.len() == 0 {
            None::<usize>
        } else {
            Some((self.output_lines@.len() - 1) as usize)
        }
    }

    /// An empty console that follows the newest line and awaits its first
    /// rendering.
    pub fn new() -> (state: Self)
        ensures
            state@ == (AppView {
                input: Seq::empty(),
                lines: Seq::empty(),
                partial: Seq::empty(),
                cursor: None,
                auto_scroll: true,
                should_quit: false,
                needs_render: true,
            }),
    {
        let state = AppState {
            input_line: String::new(),
            output_lines: Vec::new(),
            partial_line: String::new(),
            list_selected: None,
            auto_selected: None,
            should_quit: false,
            auto_scroll: true,
            needs_render: true,
        };
        assert(state.output_lines.deep_view() =~= Seq::<Seq<char>>::empty());
        state
    }

    /// Takes the state out, leaving an empty one behind.
    fn take(&mut self) -> (taken: Self)
        ensures
            taken == *old(self),
    {
        let mut taken = AppState::new();
        std::mem::swap(self, &mut taken);
        taken
    }

    /// Receives `data`: every line that it completes joins the scrollback,
    /// the oldest lines leave it beyond `MAX_LINES`, and the rest waits.
    pub fn add_output(&mut self, data: String)
        ensures
            final(self)@ == old(self)@.fed(data@),
            final(self)@.wf(),
    {
        let taken = self.take();
        proof {
            use_type_invariant(&taken);
        }
        let AppState {
            input_line,
            output_lines,
            partial_line,
            list_selected,
            auto_selected,
            should_quit,
            auto_scroll,
            needs_render,
        } = taken;
        let mut lines = output_lines;
        let mut partial = partial_line;
        let mut auto_selected = auto_selected;
        let mut needs_render = needs_render;
        let ghost start = partial@;
        let ghost before = lines.deep_view();
        let mut has_new_lines = false;
        proof {
            lemma_line_feed_at(start);
            assert(start + data@.take(0) =~= start);
            assert(before + completed_lines(start) =~= before);
        }
        for c in it: data.as_str().chars()
            invariant
                it.seq() == data@,
                lines.deep_view() == before + completed_lines(start + data@.take(it.index())),
                partial@ == unfinished_tail(start + data@.take(it.index())),
                has_new_lines == (completed_lines(start + data@.take(it.index())).len() > 0),
        {
            proof {
                let seen = start + data@.take(it.index());
                lemma_split_push(seen, c);
                assert(seen.push(c) =~= start + data@.take(it.index() + 1));
            }
            if c == '\n' {
                let mut line = String::new();
                std::mem::swap(&mut line, &mut partial);
                trim_trailing_cr(&mut line);
                let ghost shown = lines.deep_view();
                lines.push(line);
                assert(lines.deep_view() =~= shown.push(line@));
                has_new_lines = true;
            } else {
                partial.push(c);
            }
        }
        proof {
            assert(data@.take(data@.len() as int) =~= data@);
            lemma_unfinished_tail_has_no_line_feed(start + data@);
        }
        if has_new_lines {
            if lines.len() > MAX_LINES {
                let ghost all = lines.deep_view();
                let kept = lines.split_off(lines.len() - MAX_LINES);
                assert(kept.deep_view() =~= all.skip(all.len() - MAX_LINES));
                lines = kept;
            }
            if lines.len() > 0 {
                auto_selected = Some(lines.len() - 1);
            }
            needs_render = true;
        }
        *self = AppState {
            input_line,
            output_lines: lines,
            partial_line: partial,
            list_selected,
            auto_selected,
            should_quit,
            auto_scroll,
            needs_render,
        };
    }

    /// Puts the cursor on line `cursor` and stops following.
    fn position(&mut self, cursor: usize)
        requires
            cursor < old(self)@.lines.len(),
        ensures
            final(self)@ == old(self)@.positioned(cursor as int),
            final(self)@.wf(),
    {
        let taken = self.take();
        proof {
            use_type_invariant(&taken);
        }
        *self = AppState {
            list_selected: Some(cursor),
            auto_scroll: false,
            needs_render: true,
            ..taken
        };
    }

    /// Moves the cursor one line up, as far as there are lines, and stops
    /// following.
    pub fn scroll_up(&mut self)
        ensures
            final(self)@ == old(self)@.scrolled_up(),
            final(self)@.wf(),
    {
        proof {
            use_type_invariant(&*self);
        }
        if self.output_lines.is_empty() {
            return ;
        }
        let selected = match self.list_selected {
            Some(k) => k,
            None => self.output_lines.len() - 1,
        };
        self.position(selected.saturating_sub(1));
    }

    /// Moves the cursor one line down, as far as there are lines, and stops
    /// following.
    pub fn scroll_down(&mut self)
        ensures
            final(self)@ == old(self)@.scrolled_down(),
            final(self)@.wf(),
    {
        proof {
            use_type_invariant(&*self);
        }
        if self.output_lines.is_empty() {
            return ;
        }
        let last = self.output_lines.len() - 1;
        let selected = match self.list_selected {
            Some(k) => k,
            None => last,
        };
        self.position(
            if selected < last {
                selected + 1
            } else {
                last
            },
        );
    }

    /// Puts the cursor on the newest line and stops following.
    pub fn scroll_to_bottom(&mut self)
        ensures
            final(self)@ == old(self)@.at_bottom(),
            final(self)@.wf(),
    {
        proof {
            use_type_invariant(&*self);
        }
        if !self.output_lines.is_empty() {
            self.position(self.output_lines.len() - 1);
        }
    }

    /// Follows the newest line again and drops the cursor.
    pub fn enable_auto_scroll(&mut self)
        ensures
            final(self)@ == old(self)@.following(),
            final(self)@.wf(),
    {
        let taken = self.take();
        proof {
            use_type_invariant(&taken);
        }
        *self = AppState { list_selected: None, auto_scroll: true, needs_render: true, ..taken };
    }

    /// Puts the cursor on the oldest line and stops following.
    pub fn scroll_to_home(&mut self)
        ensures
            final(self)@ == old(self)@.at_home(),
            final(self)@.wf(),
    {
        proof {
            use_type_invariant(&*self);
        }
        if !self.output_lines.is_empty() {
            self.position(0);
        }
    }

    /// Moves the cursor `page_size` lines up, as far as there are lines,
    /// and stops following.
    pub fn scroll_page_up(&mut self, page_size: usize)
        ensures
            final(self)@ == old(self)@.paged_up(page_size as int),
            final(self)@.wf(),
    {
        proof {
            use_type_invariant(&*self);
        }
        if self.output_lines.is_empty() {
            return ;
        }
        let current = match self.list_selected {
            Some(k) => k,
            None => self.output_lines.len() - 1,
        };
        self.position(current.saturating_sub(page_size));
    }

    /// Moves the cursor `page_size` lines down, as far as there are lines,
    /// and stops following.
    pub fn scroll_page_down(&mut self, page_size: usize)
        ensures
            final(self)@ == old(self)@.paged_down(page_size as int),
            final(self)@.wf(),
    {
        proof {
            use_type_invariant(&*self);
        }
        if self.output_lines.is_empty() {
            return ;
        }
        let last = self.output_lines.len() - 1;
        let current = match self.list_selected {
            Some(k) => k,
            None => last,
        };
        self.position(
            if page_size <= last - current {
                current + page_size
            } else {
                last
            },
        );
    }

    /// Appends `c` to the input line.
    pub fn update_input(&mut self, c: char)
        ensures
            final(self)@ == old(self)@.typed(c),
            final(self)@.wf(),
    {
        proof {
            use_type_invariant(&*self);
        }
        let mut input = String::new();
        std::mem::swap(&mut input, &mut self.input_line);
        input.push(c);
        self.input_line = input;
        self.needs_render = true;
    }

    /// Removes the last character of the input line, if there is one.
    pub fn backspace_input(&mut self)
        ensures
            final(self)@ == old(self)@.erased(),
            final(self)@.wf(),
    {
        proof {
            use_type_invariant(&*self);
        }
        let mut input = String::new();
        std::mem::swap(&mut input, &mut self.input_line);
        let removed = input.pop();
        self.input_line = input;
        if removed.is_some() {
            self.needs_render = true;
        }
    }

    /// Takes the input line for sending and leaves an empty one.
    pub fn clear_input(&mut self) -> (input: String)
        ensures
            input@ == old(self)@.input,
            final(self)@ == old(self)@.cleared(),
            final(self)@.wf(),
    {
        proof {
            use_type_invariant(&*self);
        }
        let mut input = String::new();
        std::mem::swap(&mut input, &mut self.input_line);
        if !input.as_str().is_empty() {
            self.needs_render = true;
        }
        input
    }

    /// Tells the session to end.
    pub fn quit(&mut self)
        ensures
            final(self)@ == old(self)@.quitting(),
            final(self)@.wf(),
    {
        proof {
            use_type_invariant(&*self);
        }
        self.should_quit = true;
        self.needs_render = true;
    }

    /// Records that the screen shows the state.
    pub fn mark_rendered(&mut self)
        ensures
            final(self)@ == old(self)@.rendered(),
            final(self)@.wf(),
    {
        proof {
            use_type_invariant(&*self);
        }
        self.needs_render = false;
    }

    /// Shows that the state is well formed, as every state is. It does
    /// nothing when run.
    pub fn well_formed(&self)
        ensures
            self@.wf(),
    {
        proof {
            use_type_invariant(self);
        }
    }

    /// The line being typed.
    pub fn input_line(&self) -> (input: &String)
        ensures
            input@ == self@.input,
    {
        &self.input_line
    }

    /// The scrollback, oldest line first.
    pub fn output_lines(&self) -> (lines: &Vec<String>)
        ensures
            lines.deep_view() == self@.lines,
            self@.wf(),
    {
        proof {
            use_type_invariant(self);
        }
        &self.output_lines
    }

    /// The received text that waits for its line feed.
    pub fn partial_line(&self) -> (partial: &String)
        ensures
            partial@ == self@.partial,
    {
        &self.partial_line
    }

    /// The line that the user scrolled to, if any.
    pub fn selected(&self) -> (cursor: Option<usize>)
        ensures
            cursor matches Some(k) ==> self@.cursor == Some(k as int),
            cursor is None ==> self@.cursor is None,
    {
        self.list_selected
    }

    /// The line that the view shows while it follows: the newest, if any.
    pub fn auto_selected(&self) -> (newest: Option<usize>)
        ensures
            newest matches Some(k) ==> self@.last_index() == Some(k as int),
            newest is None ==> self@.last_index() is None,
    {
        proof {
            use_type_invariant(self);
        }
        self.auto_selected
    }

    /// The line that the view is anchored to.
    pub fn anchor(&self) -> (anchor: Option<usize>)
        ensures
            anchor matches Some(k) ==> self@.anchor() == Some(k as int),
            anchor is None ==> self@.anchor() is None,
    {
        proof {
            use_type_invariant(self);
        }
        if self.auto_scroll {
            self.auto_selected
        } else {
            self.list_selected
        }
    }

    /// Whether the session is to end.
    pub fn should_quit(&self) -> (flag: bool)
        ensures
            flag == self@.should_quit,
    {
        self.should_quit
    }

    /// Whether the view follows the newest line.
    pub fn auto_scroll(&self) -> (flag: bool)
        ensures
            flag == self@.auto_scroll,
    {
        self.auto_scroll
    }

    /// Whether the screen is out of date.
    pub fn needs_render(&self) -> (flag: bool)
        ensures
            flag == self@.needs_render,
    {
        self.needs_render
    }
}

} // verus!
