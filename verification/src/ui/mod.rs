//! The console's interactive side: its state and the rules that change it.
//!
//! The console reacts to three kinds of events: a message that ends the
//! session, text from the device, and a key. `dispatch` takes one event,
//! changes the state and says what is to be sent and logged, whether the
//! screen is to be drawn and whether the session goes on. The caller owns the
//! device, the log and the screen, and carries these out.

pub mod app_state;
pub mod laws;
pub mod rendering;
pub mod scrollback;

pub use app_state::{AppState, AppView};

use crate::config::UiConfig;
use crate::serial_io::SerialData;
use vstd::prelude::*;
use vstd::string::StrSliceExecFns;
use vstd::utf8::encode_utf8;

verus! {

/// The number of lines that Page Up and Page Down move by.
pub const PAGE_SIZE: usize = 10;

/// A message to the console from outside its own loop.
#[derive(Debug, Clone, PartialEq, Eq)]
pub enum UiMessage {
    /// End the session.
    Quit,
}

/// The keys that the console tells apart.
#[derive(Copy, Clone, Debug, PartialEq, Eq)]
pub enum KeyCode {
    /// A character key.
    Char(char),
    Esc,
    Enter,
    Backspace,
    Up,
    Down,
    PageUp,
    PageDown,
    Home,
    End,
    /// Any other key.
    Other,
}

/// What happened to a key.
#[derive(Copy, Clone, Debug, PartialEq, Eq)]
pub enum KeyKind {
    Press,
    Repeat,
    Release,
}

/// One keyboard event.
#[derive(Copy, Clone, Debug, PartialEq, Eq)]
pub struct KeyEvent {
    /// The key.
    pub code: KeyCode,
    /// Whether Control was held.
    pub control: bool,
    /// What happened to the key.
    pub kind: KeyKind,
}

/// One thing to do for a send, in mathematics.
pub enum Step {
    /// Write these bytes to the device and flush.
    Transmit(Seq<u8>),
    /// Append a timestamp prefix to the log of sent bytes.
    LogStamp,
    /// Append these bytes to the log of sent bytes and flush.
    Log(Seq<u8>),
}

/// One thing to do for a send.
#[derive(Debug, Clone, PartialEq, Eq)]
pub enum SendStep {
    /// Write these bytes to the device and flush.
    Transmit(Vec<u8>),
    /// Append a timestamp prefix to the log of sent bytes.
    LogStamp,
    /// Append these bytes to the log of sent bytes and flush.
    Log(Vec<u8>),
}

impl View for SendStep {
    type V = Step;

    open spec fn view(&self) -> Step {
        match self {
            SendStep::Transmit(bytes) => Step::Transmit(bytes@),
            SendStep::LogStamp => Step::LogStamp,
            SendStep::Log(bytes) => Step::Log(bytes@),
        }
    }
}

impl DeepView for SendStep {
    type V = Step;

    open spec fn deep_view(&self) -> Step {
        self@
    }
}

/// The steps for one part of a send, the line or the line ending: nothing
/// for no bytes; else the bytes go to the device and then, where sent bytes
/// are logged, to the log, behind a timestamp where `stamp` asks for one.
pub open spec fn part_steps(bytes: Seq<u8>, log: bool, stamp: bool) -> Seq<Step> {
    if bytes.len() == 0 {
        Seq::empty()
    } else if !log {
        seq![Step::Transmit(bytes)]
    } else if stamp {
        seq![Step::Transmit(bytes), Step::LogStamp, Step::Log(bytes)]
    } else {
        seq![Step::Transmit(bytes), Step::Log(bytes)]
    }
}

/// The steps for sending `line` under `config`: the line, then the line
/// ending. A timestamp goes in front of whichever of the two is logged
/// first, and nowhere else.
pub open spec fn send_steps(line: Seq<u8>, config: UiConfig) -> Seq<Step> {
    part_steps(line, config.tx_log, config.log_ts) + part_steps(
        config.line_ending.wire(),
        config.tx_log,
        config.log_ts && line.len() == 0,
    )
}

/// The state after a pressed key.
pub open spec fn after_key(state: AppView, key: KeyEvent) -> AppView {
    match key.code {
        KeyCode::Char(c) => if key.control && (c == 'c' || c == 'd') {
            state.quitting()
        } else if key.control && c == 'a' {
            state.following()
        } else {
            state.typed(c)
        },
        KeyCode::Esc => state.quitting(),
        KeyCode::Enter => state.cleared(),
        KeyCode::Backspace => state.erased(),
        KeyCode::Up => state.scrolled_up(),
        KeyCode::Down => state.scrolled_down(),
        KeyCode::PageUp => state.paged_up(PAGE_SIZE as int),
        KeyCode::PageDown => state.paged_down(PAGE_SIZE as int),
        KeyCode::Home => state.at_home(),
        KeyCode::End => state.at_bottom(),
        KeyCode::Other => state,
    }
}

/// What a pressed key sends: Enter sends the input line, no other key sends
/// anything.
pub open spec fn key_steps(state: AppView, key: KeyEvent, config: UiConfig) -> Seq<Step> {
    match key.code {
        KeyCode::Enter => send_steps(encode_utf8(state.input), config),
        _ => Seq::empty(),
    }
}

/// Appends the steps for one part of a send to `steps`.
fn push_part(steps: &mut Vec<SendStep>, bytes: &[u8], log: bool, stamp: bool)
    ensures
        final(steps).deep_view() == old(steps).deep_view() + part_steps(bytes@, log, stamp),
{
    let ghost before = steps.deep_view();
    if bytes.len() > 0 {
        steps.push(SendStep::Transmit(vstd::slice::slice_to_vec(bytes)));
        if log {
            if stamp {
                steps.push(SendStep::LogStamp);
            }
            steps.push(SendStep::Log(vstd::slice::slice_to_vec(bytes)));
        }
    }
    assert(steps.deep_view() =~= before + part_steps(bytes@, log, stamp));
}

/// Takes the input line for sending and lists what is to be done with it.
pub fn handle_enter_key(app_state: &mut AppState, ui_config: &UiConfig) -> (steps: Vec<SendStep>)
    ensures
        final(app_state)@ == old(app_state)@.cleared(),
        final(app_state)@.wf(),
        steps.deep_view() == send_steps(encode_utf8(old(app_state)@.input), *ui_config),
{
    let input = app_state.clear_input();
    let line = input.as_str().as_bytes();
    let mut steps: Vec<SendStep> = Vec::new();
    assert(steps.deep_view() =~= Seq::<Step>::empty());
    push_part(&mut steps, line, ui_config.tx_log, ui_config.log_ts);
    let end = ui_config.line_ending.bytes();
    push_part(&mut steps, end, ui_config.tx_log, ui_config.log_ts && line.len() == 0);
    assert(steps.deep_view() =~= send_steps(encode_utf8(input@), *ui_config));
    steps
}

/// Applies a pressed key to the state and lists what it sends.
pub fn handle_key_event(key: KeyEvent, app_state: &mut AppState, ui_config: &UiConfig) -> (steps:
    Vec<SendStep>)
    ensures
        final(app_state)@ == after_key(old(app_state)@, key),
        final(app_state)@.wf(),
        steps.deep_view() == key_steps(old(app_state)@, key, *ui_config),
{
    let mut steps: Vec<SendStep> = Vec::new();
    assert(steps.deep_view() =~= Seq::<Step>::empty());
    match key.code {
        KeyCode::Char(c) => {
            if key.control && (c == 'c' || c == 'd') {
                app_state.quit();
            } else if key.control && c == 'a' {
                app_state.enable_auto_scroll();
            } else {
                app_state.update_input(c);
            }
        },
        KeyCode::Esc => {
            app_state.quit();
        },
        KeyCode::Enter => {
            steps = handle_enter_key(app_state, ui_config);
        },
        KeyCode::Backspace => {
            app_state.backspace_input();
        },
        KeyCode::Up => {
            app_state.scroll_up();
        },
        KeyCode::Down => {
            app_state.scroll_down();
        },
        KeyCode::PageUp => {
            app_state.scroll_page_up(PAGE_SIZE);
        },
        KeyCode::PageDown => {
            app_state.scroll_page_down(PAGE_SIZE);
        },
        KeyCode::Home => {
            app_state.scroll_to_home();
        },
        KeyCode::End => {
            app_state.scroll_to_bottom();
        },
        KeyCode::Other => {
            app_state.well_formed();
        },
    }
    steps
}

/// One event for the console.
#[derive(Debug)]
pub enum UiEvent {
    /// A message from outside the loop.
    Message(UiMessage),
    /// Text from the device.
    Serial(SerialData),
    /// A keyboard event.
    Key(KeyEvent),
}

/// What the caller is to do after an event.
#[derive(Debug)]
pub struct Reaction {
    /// What to send and log, in this order. A failed write to the device
    /// ends the session, and the steps behind it are not taken.
    pub steps: Vec<SendStep>,
    /// Whether to draw the screen, once the steps are taken.
    pub render: bool,
    /// Whether the session goes on.
    pub proceed: bool,
}

/// The state after an event. Only a pressed key counts as a key.
pub open spec fn after_event(state: AppView, event: UiEvent) -> AppView {
    match event {
        UiEvent::Message(UiMessage::Quit) => state.quitting(),
        UiEvent::Serial(SerialData::Received(text)) => state.fed(text@),
        UiEvent::Key(key) => if key.kind is Press {
            after_key(state, key)
        } else {
            state
        },
    }
}

/// What an event sends.
pub open spec fn event_steps(state: AppView, event: UiEvent, config: UiConfig) -> Seq<Step> {
    match event {
        UiEvent::Key(key) => if key.kind is Press {
            key_steps(state, key, config)
        } else {
            Seq::empty()
        },
        _ => Seq::empty(),
    }
}

/// Handles one event. The screen is drawn exactly when the state says that
/// it is out of date, except that a message to quit ends the session
/// without another drawing. The caller clears the flag with `mark_rendered`
/// once it has drawn.
pub fn dispatch(app_state: &mut AppState, event: UiEvent, ui_config: &UiConfig) -> (reaction:
    Reaction)
    ensures
        final(app_state)@ == after_event(old(app_state)@, event),
        final(app_state)@.wf(),
        reaction.steps.deep_view() == event_steps(old(app_state)@, event, *ui_config),
        reaction.render == (final(app_state)@.needs_render && !(event is Message)),
        reaction.proceed == !final(app_state)@.should_quit,
{
    let mut steps: Vec<SendStep> = Vec::new();
    assert(steps.deep_view() =~= Seq::<Step>::empty());
    let mut may_render = true;
    match event {
        UiEvent::Message(UiMessage::Quit) => {
            app_state.quit();
            may_render = false;
        },
        UiEvent::Serial(SerialData::Received(text)) => {
            app_state.add_output(text);
        },
        UiEvent::Key(key) => {
            match key.kind {
                KeyKind::Press => {
                    steps = handle_key_event(key, app_state, ui_config);
                },
                _ => {
                    app_state.well_formed();
                },
            }
        },
    }
    Reaction {
        steps,
        render: may_render && app_state.needs_render(),
        proceed: !app_state.should_quit(),
    }
}

} // verus!
