//! The interactive state of the client and its transitions.
//!
//! One `App` value holds everything the loop owns: the event list with its
//! selection cursor, the compose draft, the active tab and input mode, the
//! overlay dialog with the nested calculator, the status, and the two
//! signals the loop consumes (a queued message and a refresh request).

use vstd::prelude::*;
use crate::calculator::{Calculator, CalcModel, CalcOp, calc_init, step_digit, step_dot,
    step_operator, step_equals};
use crate::event::{FeedEvent, sorted_desc, sort_events_desc};

verus! {

/// An ASCII decimal digit key.
pub open spec fn is_digit_char(c: char) -> bool {
    48 <= c as u32 <= 57
}

/// The value of a digit key.
pub open spec fn digit_of_char(c: char) -> u8
    recommends
        is_digit_char(c),
{
    (c as u32 - 48) as u8
}

/// The operator a key stands for, if any.
pub open spec fn op_of_char(c: char) -> Option<CalcOp> {
    if c == '+' {
        Some(CalcOp::Add)
    } else if c == '-' {
        Some(CalcOp::Sub)
    } else if c == '*' {
        Some(CalcOp::Mul)
    } else if c == '/' {
        Some(CalcOp::Div)
    } else {
        None
    }
}

/// Whether key input edits the draft or drives navigation.
#[derive(Clone, Copy, PartialEq, Eq, Structural, Debug)]
pub enum InputMode {
    /// Navigation and global keys.
    Normal,
    /// Typed characters go to the compose draft.
    Editing,
}

/// The active tab.
#[derive(Clone, Copy, PartialEq, Eq, Structural, Debug)]
pub enum Tab {
    /// The event feed.
    Feed,
    /// The compose view.
    Compose,
}

/// At most one overlay dialog is visible at a time; opening one closes any
/// other. The calculator engine itself lives beside this tag and is reset
/// whenever its overlay opens.
#[derive(Clone, Copy, PartialEq, Eq, Structural, Debug)]
pub enum Overlay {
    /// No overlay.
    Inactive,
    /// The event detail dialog with its logical scroll offset. The offset
    /// is deliberately unclamped; the renderer clamps it at draw time.
    Detail {
        /// Logical scroll offset, may exceed the content length.
        scroll: u16,
    },
    /// The about dialog.
    About,
    /// The calculator dialog.
    Calculator,
}

/// The status line, as a typed value; the renderer turns it into text.
#[derive(Clone, Copy, PartialEq, Eq, Structural, Debug)]
pub enum Status {
    /// The client has started.
    Started,
    /// A feed refresh is under way.
    Refreshing,
    /// A refresh brought this many events.
    Fetched(usize),
    /// A refresh failed; the list was left untouched.
    FetchFailed,
    /// A queued message is being sent.
    Sending,
    /// A message was published.
    Published,
    /// Publishing failed; the list was left untouched.
    PublishFailed,
}

/// One key event, as the loop hands it to the controller.
#[derive(Clone, Copy, PartialEq, Eq, Structural, Debug)]
pub enum Key {
    /// A printable character.
    Char(char),
    /// Enter.
    Enter,
    /// Escape.
    Esc,
    /// Backspace.
    Backspace,
    /// The tab key.
    Tab,
    /// Cursor up.
    Up,
    /// Cursor down.
    Down,
    /// Page up.
    PageUp,
    /// Page down.
    PageDown,
    /// Home.
    Home,
    /// End.
    End,
    /// Any key the client ignores.
    Other,
}

/// Ghost state of the whole client.
pub ghost struct AppModel {
    /// The compose draft.
    pub input: Seq<char>,
    /// Editing or navigating.
    pub input_mode: InputMode,
    /// The feed, newest first after a successful refresh.
    pub events: Seq<FeedEvent>,
    /// The selection cursor; `None` exactly when the feed is empty.
    pub selected: Option<usize>,
    /// The active tab.
    pub active_tab: Tab,
    /// The status line.
    pub status: Status,
    /// The session's public identity, once derived.
    pub my_public_key: Option<Seq<char>>,
    /// A message the loop still has to publish.
    pub message_to_send: Option<Seq<char>>,
    /// Whether the loop still has to run a full refresh.
    pub refresh_requested: bool,
    /// The overlay dialog.
    pub overlay: Overlay,
    /// The calculator engine.
    pub calculator: CalcModel,
}

/// The interactive state of the client.
pub struct App {
    /// The compose draft.
    pub input: String,
    /// Editing or navigating.
    pub input_mode: InputMode,
    /// The feed, newest first after a successful refresh.
    pub events: Vec<FeedEvent>,
    /// The selection cursor; `None` exactly when the feed is empty.
    pub selected: Option<usize>,
    /// The active tab.
    pub active_tab: Tab,
    /// The status line.
    pub status: Status,
    /// The session's public identity, once derived.
    pub my_public_key: Option<String>,
    /// A message the loop still has to publish.
    pub message_to_send: Option<String>,
    /// Whether the loop still has to run a full refresh.
    pub refresh_requested: bool,
    /// The overlay dialog.
    pub overlay: Overlay,
    /// The calculator engine.
    pub calculator: Calculator,
}

impl View for App {
    type V = AppModel;

    open spec fn view(&self) -> AppModel {
        AppModel {
            input: self.input@,
            input_mode: self.input_mode,
            events: self.events@,
            selected: self.selected,
            active_tab: self.active_tab,
            status: self.status,
            my_public_key: match self.my_public_key {
                Some(ref s) => Some(s@),
                None => None,
            },
            message_to_send: match self.message_to_send {
                Some(ref s) => Some(s@),
                None => None,
            },
            refresh_requested: self.refresh_requested,
            overlay: self.overlay,
            calculator: self.calculator@,
        }
    }
}

/// The selection cursor is in bounds, and absent exactly on an empty feed.
pub open spec fn selection_ok(selected: Option<usize>, len: int) -> bool {
    match selected {
        Some(i) => len > 0 && i < len,
        None => len == 0,
    }
}

/// One step of the cursor algebra: up by one, stopping at the top.
pub open spec fn move_prev(sel: Option<usize>, len: int) -> Option<usize> {
    if len == 0 {
        None
    } else {
        match sel {
            None => Some(0usize),
            Some(i) => Some(
                if i == 0 {
                    0usize
                } else {
                    (i - 1) as usize
                },
            ),
        }
    }
}

/// Down by one, stopping at the bottom.
pub open spec fn move_next(sel: Option<usize>, len: int) -> Option<usize> {
    if len == 0 {
        None
    } else {
        match sel {
            None => Some(0usize),
            Some(i) => Some(
                if i + 1 >= len {
                    (len - 1) as usize
                } else {
                    (i + 1) as usize
                },
            ),
        }
    }
}

/// Up by a page of five, stopping at the top.
pub open spec fn move_page_up(sel: Option<usize>, len: int) -> Option<usize> {
    if len == 0 {
        None
    } else {
        match sel {
            None => Some(0usize),
            Some(i) => Some(
                if i < 5 {
                    0usize
                } else {
                    (i - 5) as usize
                },
            ),
        }
    }
}

/// Down by a page of five, stopping at the bottom.
pub open spec fn move_page_down(sel: Option<usize>, len: int) -> Option<usize> {
    if len == 0 {
        None
    } else {
        match sel {
            None => Some(0usize),
            Some(i) => Some(
                if i + 5 >= len {
                    (len - 1) as usize
                } else {
                    (i + 5) as usize
                },
            ),
        }
    }
}

/// To the first entry.
pub open spec fn move_home(sel: Option<usize>, len: int) -> Option<usize> {
    if len == 0 {
        None
    } else {
        Some(0usize)
    }
}

/// To the last entry.
pub open spec fn move_end(sel: Option<usize>, len: int) -> Option<usize> {
    if len == 0 {
        None
    } else {
        Some((len - 1) as usize)
    }
}

/// Every movement keeps the cursor in bounds: the moved cursor is valid for
/// the same length, whichever movement was taken.
pub proof fn lemma_moves_preserve_selection(sel: Option<usize>, len: int)
    requires
        selection_ok(sel, len),
        len <= usize::MAX,
    ensures
        selection_ok(move_prev(sel, len), len),
        selection_ok(move_next(sel, len), len),
        selection_ok(move_page_up(sel, len), len),
        selection_ok(move_page_down(sel, len), len),
        selection_ok(move_home(sel, len), len),
        selection_ok(move_end(sel, len), len),
{
}

impl App {
    /// The cursor invariant holds and the calculator is well formed.
    pub open spec fn wf(&self) -> bool {
        &&& selection_ok(self.selected, self.events@.len() as int)
        &&& self.calculator.wf()
    }

    /// The state the client starts in: empty draft and feed, normal mode,
    /// feed tab, no overlay, a cleared calculator.
    pub fn new() -> (app: App)
        ensures
            app.wf(),
            app@.input.len() == 0,
            app@.input_mode == InputMode::Normal,
            app@.events.len() == 0,
            app@.selected is None,
            app@.active_tab == Tab::Feed,
            app@.status == Status::Started,
            app@.my_public_key is None,
            app@.message_to_send is None,
            !app@.refresh_requested,
            app@.overlay == Overlay::Inactive,
            app@.calculator == calc_init(),
    {
        App {
            input: String::new(),
            input_mode: InputMode::Normal,
            events: Vec::new(),
            selected: None,
            active_tab: Tab::Feed,
            status: Status::Started,
            my_public_key: None,
            message_to_send: None,
            refresh_requested: false,
            overlay: Overlay::Inactive,
            calculator: Calculator::new(),
        }
    }

    /// Moves the cursor up by one.
    pub fn previous(&mut self)
        requires
            old(self).wf(),
        ensures
            final(self).wf(),
            final(self)@ == (AppModel {
                selected: move_prev(old(self)@.selected, old(self)@.events.len() as int),
                ..old(self)@
            }),
    {
        if self.events.len() == 0 {
            return;
        }
        let i = match self.selected {
            Some(i) => i,
            None => 0,
        };
        self.selected = Some(if i == 0 { 0 } else { i - 1 });
    }

    /// Moves the cursor down by one.
    pub fn next(&mut self)
        requires
            old(self).wf(),
        ensures
            final(self).wf(),
            final(self)@ == (AppModel {
                selected: move_next(old(self)@.selected, old(self)@.events.len() as int),
                ..old(self)@
            }),
    {
        let len = self.events.len();
        if len == 0 {
            return;
        }
        let i = match self.selected {
            Some(i) => i,
            None => 0,
        };
        self.selected = Some(if i + 1 >= len { len - 1 } else { i + 1 });
    }

    /// Moves the cursor up by a page of five.
    pub fn page_up(&mut self)
        requires
            old(self).wf(),
        ensures
            final(self).wf(),
            final(self)@ == (AppModel {
                selected: move_page_up(old(self)@.selected, old(self)@.events.len() as int),
                ..old(self)@
            }),
    {
        if self.events.len() == 0 {
            return;
        }
        let i = match self.selected {
            Some(i) => i,
            None => 0,
        };
        self.selected = Some(if i < 5 { 0 } else { i - 5 });
    }

    /// Moves the cursor down by a page of five.
    pub fn page_down(&mut self)
        requires
            old(self).wf(),
        ensures
            final(self).wf(),
            final(self)@ == (AppModel {
                selected: move_page_down(old(self)@.selected, old(self)@.events.len() as int),
                ..old(self)@
            }),
    {
        let len = self.events.len();
        if len == 0 {
            return;
        }
        let i = match self.selected {
            Some(i) => i,
            None => 0,
        };
        self.selected = Some(if len - i <= 5 { len - 1 } else { i + 5 });
    }

    /// Moves the cursor to the first entry.
    pub fn home(&mut self)
        requires
            old(self).wf(),
        ensures
            final(self).wf(),
            final(self)@ == (AppModel {
                selected: move_home(old(self)@.selected, old(self)@.events.len() as int),
                ..old(self)@
            }),
    {
        if self.events.len() == 0 {
            return;
        }
        self.selected = Some(0);
    }

    /// Moves the cursor to the last entry.
    pub fn end(&mut self)
        requires
            old(self).wf(),
        ensures
            final(self).wf(),
            final(self)@ == (AppModel {
                selected: move_end(old(self)@.selected, old(self)@.events.len() as int),
                ..old(self)@
            }),
    {
        let len = self.events.len();
        if len == 0 {
            return;
        }
        self.selected = Some(len - 1);
    }

    /// Opens the about dialog, or closes it when it is the one shown.
    pub fn toggle_about(&mut self)
        requires
            old(self).wf(),
        ensures
            final(self).wf(),
            final(self)@ == (AppModel {
                overlay: if old(self)@.overlay is About {
                    Overlay::Inactive
                } else {
                    Overlay::About
                },
                ..old(self)@
            }),
    {
        self.overlay = match self.overlay {
            Overlay::About => Overlay::Inactive,
            _ => Overlay::About,
        };
    }

    /// Opens the calculator with a freshly reset engine, or closes it when
    /// it is the one shown. Opening always resets the engine, whatever an
    /// earlier session left in it.
    pub fn toggle_calculator(&mut self)
        requires
            old(self).wf(),
        ensures
            final(self).wf(),
            final(self)@ == (AppModel {
                overlay: if old(self)@.overlay is Calculator {
                    Overlay::Inactive
                } else {
                    Overlay::Calculator
                },
                calculator: if old(self)@.overlay is Calculator {
                    old(self)@.calculator
                } else {
                    calc_init()
                },
                ..old(self)@
            }),
    {
        match self.overlay {
            Overlay::Calculator => {
                self.overlay = Overlay::Inactive;
            },
            _ => {
                self.overlay = Overlay::Calculator;
                self.calculator.clear();
            },
        }
    }

    /// Opens the detail dialog at scroll offset zero, or closes it when it
    /// is the one shown.
    pub fn toggle_detail_mode(&mut self)
        requires
            old(self).wf(),
        ensures
            final(self).wf(),
            final(self)@ == (AppModel {
                overlay: match old(self)@.overlay {
                    Overlay::Detail { .. } => Overlay::Inactive,
                    _ => Overlay::Detail { scroll: 0 },
                },
                ..old(self)@
            }),
    {
        self.overlay = match self.overlay {
            Overlay::Detail { .. } => Overlay::Inactive,
            _ => Overlay::Detail { scroll: 0 },
        };
    }

    /// Scrolls the detail dialog up one line, stopping at zero.
    pub fn detail_scroll_up(&mut self)
        requires
            old(self).wf(),
        ensures
            final(self).wf(),
            final(self)@ == (AppModel {
                overlay: match old(self)@.overlay {
                    Overlay::Detail { scroll } => Overlay::Detail {
                        scroll: if scroll > 0 {
                            (scroll - 1) as u16
                        } else {
                            0
                        },
                    },
                    _ => old(self)@.overlay,
                },
                ..old(self)@
            }),
    {
        match self.overlay {
            Overlay::Detail { scroll } => {
                self.overlay = Overlay::Detail { scroll: if scroll > 0 { scroll - 1 } else { 0 } };
            },
            _ => {},
        }
    }

    /// Scrolls the detail dialog down one line. The offset is a logical
    /// counter and may pass the content length; drawing clamps it.
    pub fn detail_scroll_down(&mut self)
        requires
            old(self).wf(),
        ensures
            final(self).wf(),
            final(self)@ == (AppModel {
                overlay: match old(self)@.overlay {
                    Overlay::Detail { scroll } => Overlay::Detail {
                        scroll: if scroll < u16::MAX {
                            (scroll + 1) as u16
                        } else {
                            u16::MAX
                        },
                    },
                    _ => old(self)@.overlay,
                },
                ..old(self)@
            }),
    {
        match self.overlay {
            Overlay::Detail { scroll } => {
                self.overlay = Overlay::Detail {
                    scroll: if scroll < u16::MAX {
                        scroll + 1
                    } else {
                        u16::MAX
                    },
                };
            },
            _ => {},
        }
    }

    /// Scrolls the detail dialog up five lines, stopping at zero.
    pub fn detail_page_up(&mut self)
        requires
            old(self).wf(),
        ensures
            final(self).wf(),
            final(self)@ == (AppModel {
                overlay: match old(self)@.overlay {
                    Overlay::Detail { scroll } => Overlay::Detail {
                        scroll: if scroll >= 5 {
                            (scroll - 5) as u16
                        } else {
                            0
                        },
                    },
                    _ => old(self)@.overlay,
                },
                ..old(self)@
            }),
    {
        match self.overlay {
            Overlay::Detail { scroll } => {
                self.overlay = Overlay::Detail { scroll: if scroll >= 5 { scroll - 5 } else { 0 } };
            },
            _ => {},
        }
    }

    /// Scrolls the detail dialog down five lines.
    pub fn detail_page_down(&mut self)
        requires
            old(self).wf(),
        ensures
            final(self).wf(),
            final(self)@ == (AppModel {
                overlay: match old(self)@.overlay {
                    Overlay::Detail { scroll } => Overlay::Detail {
                        scroll: if scroll <= u16::MAX - 5 {
                            (scroll + 5) as u16
                        } else {
                            u16::MAX
                        },
                    },
                    _ => old(self)@.overlay,
                },
                ..old(self)@
            }),
    {
        match self.overlay {
            Overlay::Detail { scroll } => {
                self.overlay = Overlay::Detail {
                    scroll: if scroll <= u16::MAX - 5 {
                        scroll + 5
                    } else {
                        u16::MAX
                    },
                };
            },
            _ => {},
        }
    }

    /// Switches to the given tab; the compose tab always enters editing
    /// mode, the feed tab returns to normal mode.
    pub fn change_tab(&mut self, tab: Tab)
        requires
            old(self).wf(),
        ensures
            final(self).wf(),
            final(self)@ == (AppModel {
                active_tab: tab,
                input_mode: if tab is Compose {
                    InputMode::Editing
                } else {
                    InputMode::Normal
                },
                ..old(self)@
            }),
    {
        self.active_tab = tab;
        self.input_mode = match tab {
            Tab::Compose => InputMode::Editing,
            Tab::Feed => InputMode::Normal,
        };
    }

    /// Switches between normal and editing mode.
    pub fn toggle_input_mode(&mut self)
        requires
            old(self).wf(),
        ensures
            final(self).wf(),
            final(self)@ == (AppModel {
                input_mode: if old(self)@.input_mode is Normal {
                    InputMode::Editing
                } else {
                    InputMode::Normal
                },
                ..old(self)@
            }),
    {
        self.input_mode = match self.input_mode {
            InputMode::Normal => InputMode::Editing,
            InputMode::Editing => InputMode::Normal,
        };
    }

    /// Routes a digit key to the calculator engine; keys that are no digit
    /// are ignored.
    pub fn calculator_input_digit(&mut self, digit: char)
        requires
            old(self).wf(),
        ensures
            final(self).wf(),
            final(self)@ == (AppModel {
                calculator: if is_digit_char(digit) {
                    step_digit(old(self)@.calculator, digit_of_char(digit))
                } else {
                    old(self)@.calculator
                },
                ..old(self)@
            }),
    {
        let code = digit as u32;
        if 48 <= code && code <= 57 {
            self.calculator.input_digit((code - 48) as u8);
        }
    }

    /// Routes the decimal point key to the calculator engine.
    pub fn calculator_input_dot(&mut self)
        requires
            old(self).wf(),
        ensures
            final(self).wf(),
            final(self)@ == (AppModel {
                calculator: step_dot(old(self)@.calculator),
                ..old(self)@
            }),
    {
        self.calculator.input_dot();
    }

    /// Resets the calculator engine.
    pub fn calculator_clear(&mut self)
        requires
            old(self).wf(),
        ensures
            final(self).wf(),
            final(self)@ == (AppModel { calculator: calc_init(), ..old(self)@ }),
    {
        self.calculator.clear();
    }

    /// Routes an operator key to the calculator engine; keys that stand for
    /// no operator are ignored.
    pub fn calculator_operator(&mut self, op: char)
        requires
            old(self).wf(),
        ensures
            final(self).wf(),
            final(self)@ == (AppModel {
                calculator: match op_of_char(op) {
                    Some(o) => step_operator(old(self)@.calculator, o),
                    None => old(self)@.calculator,
                },
                ..old(self)@
            }),
    {
        if op == '+' {
            self.calculator.operator(CalcOp::Add);
        } else if op == '-' {
            self.calculator.operator(CalcOp::Sub);
        } else if op == '*' {
            self.calculator.operator(CalcOp::Mul);
        } else if op == '/' {
            self.calculator.operator(CalcOp::Div);
        }
    }

    /// Routes the equals key to the calculator engine.
    pub fn calculator_equals(&mut self)
        requires
            old(self).wf(),
        ensures
            final(self).wf(),
            final(self)@ == (AppModel {
                calculator: step_equals(old(self)@.calculator),
                ..old(self)@
            }),
    {
        self.calculator.equals();
    }

    /// Submits the draft: queues it for publishing, clears it, returns to
    /// normal mode on the feed tab and selects the newest event. An empty
    /// draft changes nothing.
    pub fn send_message(&mut self)
        requires
            old(self).wf(),
        ensures
            final(self).wf(),
            final(self)@ == spec_send_message(old(self)@),
    {
        if self.input.as_str().is_empty() {
            return;
        }
        self.message_to_send = Some(self.input.clone());
        self.status = Status::Sending;
        self.input = String::new();
        self.input_mode = InputMode::Normal;
        self.active_tab = Tab::Feed;
        if self.events.len() > 0 {
            self.selected = Some(0);
        }
    }

    /// Hands the queued message to the loop, clearing the queue.
    pub fn take_message(&mut self) -> (r: Option<String>)
        requires
            old(self).wf(),
        ensures
            final(self).wf(),
            final(self)@ == (AppModel { message_to_send: None, ..old(self)@ }),
            match r {
                Some(s) => old(self)@.message_to_send == Some(s@),
                None => old(self)@.message_to_send is None,
            },
    {
        self.message_to_send.take()
    }

    /// Hands the refresh request to the loop, clearing it.
    pub fn take_refresh_request(&mut self) -> (r: bool)
        requires
            old(self).wf(),
        ensures
            final(self).wf(),
            final(self)@ == (AppModel { refresh_requested: false, ..old(self)@ }),
            r == old(self)@.refresh_requested,
    {
        let r = self.refresh_requested;
        self.refresh_requested = false;
        r
    }

    /// A full refresh succeeded: the feed is replaced wholesale with the
    /// fetched events sorted newest first, the cursor is clamped to the new
    /// bounds (the newest event, or none when the result is empty), and the
    /// status reports the count. Nothing else changes.
    pub fn apply_fetch_success(&mut self, fetched: Vec<FeedEvent>)
        requires
            old(self).wf(),
        ensures
            final(self).wf(),
            sorted_desc(final(self)@.events),
            final(self)@.events.to_multiset() == fetched@.to_multiset(),
            final(self)@.events.len() == fetched@.len(),
            final(self)@ == (AppModel {
                events: final(self)@.events,
                selected: if fetched@.len() > 0 {
                    Some(0usize)
                } else {
                    None
                },
                status: Status::Fetched(fetched@.len() as usize),
                ..old(self)@
            }),
    {
        let mut evs = fetched;
        sort_events_desc(&mut evs);
        let len = evs.len();
        self.events = evs;
        self.selected = if len > 0 {
            Some(0)
        } else {
            None
        };
        self.status = Status::Fetched(len);
    }

    /// A full refresh failed: only the status changes; the feed and the
    /// cursor stay exactly as they were.
    pub fn apply_fetch_failure(&mut self)
        requires
            old(self).wf(),
        ensures
            final(self).wf(),
            final(self)@ == (AppModel { status: Status::FetchFailed, ..old(self)@ }),
    {
        self.status = Status::FetchFailed;
    }

    /// Publishing succeeded: only the status changes; the loop follows up
    /// with a full refresh.
    pub fn apply_publish_success(&mut self)
        requires
            old(self).wf(),
        ensures
            final(self).wf(),
            final(self)@ == (AppModel { status: Status::Published, ..old(self)@ }),
    {
        self.status = Status::Published;
    }

    /// Handles one key event and says whether the loop keeps running.
    /// The dispatch checks the calculator overlay first, then the about
    /// dialog, then (in normal mode) the detail dialog or the global keys,
    /// and otherwise edits the draft; each layer short-circuits.
    pub fn handle_key_event(&mut self, key: Key) -> (cont: bool)
        requires
            old(self).wf(),
        ensures
            final(self).wf(),
            final(self)@ == step_key(old(self)@, key),
            cont == step_continue(old(self)@, key),
    {
        let on_calculator = match self.overlay {
            Overlay::Calculator => true,
            _ => false,
        };
        let on_about = match self.overlay {
            Overlay::About => true,
            _ => false,
        };
        let on_detail = match self.overlay {
            Overlay::Detail { .. } => true,
            _ => false,
        };
        let editing = match self.input_mode {
            InputMode::Editing => true,
            InputMode::Normal => false,
        };
        if on_calculator {
            match key {
                Key::Esc => {
                    self.overlay = Overlay::Inactive;
                },
                Key::Enter => {
                    self.calculator_equals();
                },
                Key::Char(c) => {
                    let code = c as u32;
                    if c == 'q' {
                        self.overlay = Overlay::Inactive;
                    } else if 48 <= code && code <= 57 {
                        self.calculator_input_digit(c);
                    } else if c == '.' {
                        self.calculator_input_dot();
                    } else if c == '+' || c == '-' || c == '*' || c == '/' {
                        self.calculator_operator(c);
                    } else if c == '=' {
                        self.calculator_equals();
                    } else if c == 'c' {
                        self.calculator_clear();
                    }
                },
                _ => {},
            }
            return true;
        }
        if on_about {
            match key {
                Key::Esc => {
                    self.overlay = Overlay::Inactive;
                },
                Key::Char(c) => {
                    if c == 'q' {
                        self.overlay = Overlay::Inactive;
                    }
                },
                _ => {},
            }
            return true;
        }
        if !editing {
            if on_detail {
                match key {
                    Key::Esc => {
                        self.overlay = Overlay::Inactive;
                    },
                    Key::Char(c) => {
                        if c == 'q' {
                            self.overlay = Overlay::Inactive;
                        }
                    },
                    Key::Up => {
                        self.detail_scroll_up();
                    },
                    Key::Down => {
                        self.detail_scroll_down();
                    },
                    Key::PageUp => {
                        self.detail_page_up();
                    },
                    Key::PageDown => {
                        self.detail_page_down();
                    },
                    Key::Home => {
                        self.overlay = Overlay::Detail { scroll: 0 };
                    },
                    Key::End => {
                        self.overlay = Overlay::Detail { scroll: 1000 };
                    },
                    _ => {},
                }
                return true;
            }
            match key {
                Key::Char(c) => {
                    if c == 'q' {
                        return false;
                    } else if c == 'i' {
                        self.toggle_input_mode();
                    } else if c == 'r' {
                        self.status = Status::Refreshing;
                        self.refresh_requested = true;
                    } else if c == 'a' {
                        self.toggle_about();
                    } else if c == 's' {
                        self.toggle_calculator();
                    }
                },
                Key::Tab => {
                    match self.active_tab {
                        Tab::Feed => {
                            self.active_tab = Tab::Compose;
                            self.input_mode = InputMode::Editing;
                        },
                        Tab::Compose => {
                            self.active_tab = Tab::Feed;
                        },
                    }
                },
                Key::Enter => {
                    let on_feed = match self.active_tab {
                        Tab::Feed => true,
                        Tab::Compose => false,
                    };
                    if self.events.len() > 0 && on_feed {
                        self.toggle_detail_mode();
                    }
                },
                Key::Up => {
                    self.previous();
                },
                Key::Down => {
                    self.next();
                },
                Key::Home => {
                    self.home();
                },
                Key::End => {
                    self.end();
                },
                Key::PageUp => {
                    self.page_up();
                },
                Key::PageDown => {
                    self.page_down();
                },
                _ => {},
            }
            return true;
        }
        match key {
            Key::Enter => {
                self.send_message();
            },
            Key::Char(c) => {
                crate::strings::string_push(&mut self.input, c);
            },
            Key::Backspace => {
                let _ = crate::strings::string_pop(&mut self.input);
            },
            Key::Esc => {
                self.toggle_input_mode();
            },
            _ => {},
        }
        true
    }

    /// Publishing failed: only the status changes; the feed and the cursor
    /// stay exactly as they were.
    pub fn apply_publish_failure(&mut self)
        requires
            old(self).wf(),
        ensures
            final(self).wf(),
            final(self)@ == (AppModel { status: Status::PublishFailed, ..old(self)@ }),
    {
        self.status = Status::PublishFailed;
    }
}

/// One key of the calculator overlay: escape or `q` closes it; digits,
/// point, operators, equals and clear drive the engine; everything else is
/// swallowed.
pub open spec fn step_key_calculator(m: AppModel, key: Key) -> AppModel {
    match key {
        Key::Esc => AppModel { overlay: Overlay::Inactive, ..m },
        Key::Enter => AppModel { calculator: step_equals(m.calculator), ..m },
        Key::Char(c) => {
            if c == 'q' {
                AppModel { overlay: Overlay::Inactive, ..m }
            } else if is_digit_char(c) {
                AppModel { calculator: step_digit(m.calculator, digit_of_char(c)), ..m }
            } else if c == '.' {
                AppModel { calculator: step_dot(m.calculator), ..m }
            } else if op_of_char(c) is Some {
                AppModel { calculator: step_operator(m.calculator, op_of_char(c)->Some_0), ..m }
            } else if c == '=' {
                AppModel { calculator: step_equals(m.calculator), ..m }
            } else if c == 'c' {
                AppModel { calculator: calc_init(), ..m }
            } else {
                m
            }
        },
        _ => m,
    }
}

/// One key of the detail overlay: escape or `q` closes it (the offset is
/// dropped with it); the navigation keys move the logical scroll offset,
/// the end key setting a large sentinel that the renderer clamps.
pub open spec fn step_key_detail(m: AppModel, scroll: u16, key: Key) -> AppModel {
    match key {
        Key::Esc => AppModel { overlay: Overlay::Inactive, ..m },
        Key::Char(c) => {
            if c == 'q' {
                AppModel { overlay: Overlay::Inactive, ..m }
            } else {
                m
            }
        },
        Key::Up => AppModel {
            overlay: Overlay::Detail {
                scroll: if scroll > 0 {
                    (scroll - 1) as u16
                } else {
                    0
                },
            },
            ..m
        },
        Key::Down => AppModel {
            overlay: Overlay::Detail {
                scroll: if scroll < u16::MAX {
                    (scroll + 1) as u16
                } else {
                    u16::MAX
                },
            },
            ..m
        },
        Key::PageUp => AppModel {
            overlay: Overlay::Detail {
                scroll: if scroll >= 5 {
                    (scroll - 5) as u16
                } else {
                    0
                },
            },
            ..m
        },
        Key::PageDown => AppModel {
            overlay: Overlay::Detail {
                scroll: if scroll <= u16::MAX - 5 {
                    (scroll + 5) as u16
                } else {
                    u16::MAX
                },
            },
            ..m
        },
        Key::Home => AppModel { overlay: Overlay::Detail { scroll: 0 }, ..m },
        Key::End => AppModel { overlay: Overlay::Detail { scroll: 1000 }, ..m },
        _ => m,
    }
}

/// One key in normal mode with no overlay: the global keys.
pub open spec fn step_key_normal(m: AppModel, key: Key) -> AppModel {
    match key {
        Key::Char(c) => {
            if c == 'q' {
                m
            } else if c == 'i' {
                AppModel { input_mode: InputMode::Editing, ..m }
            } else if c == 'r' {
                AppModel { status: Status::Refreshing, refresh_requested: true, ..m }
            } else if c == 'a' {
                AppModel { overlay: Overlay::About, ..m }
            } else if c == 's' {
                AppModel { overlay: Overlay::Calculator, calculator: calc_init(), ..m }
            } else {
                m
            }
        },
        Key::Tab => {
            let next_tab = if m.active_tab is Feed {
                Tab::Compose
            } else {
                Tab::Feed
            };
            AppModel {
                active_tab: next_tab,
                input_mode: if next_tab is Compose {
                    InputMode::Editing
                } else {
                    m.input_mode
                },
                ..m
            }
        },
        Key::Enter => {
            if m.events.len() > 0 && m.active_tab is Feed {
                AppModel { overlay: Overlay::Detail { scroll: 0 }, ..m }
            } else {
                m
            }
        },
        Key::Up => AppModel { selected: move_prev(m.selected, m.events.len() as int), ..m },
        Key::Down => AppModel { selected: move_next(m.selected, m.events.len() as int), ..m },
        Key::Home => AppModel { selected: move_home(m.selected, m.events.len() as int), ..m },
        Key::End => AppModel { selected: move_end(m.selected, m.events.len() as int), ..m },
        Key::PageUp => AppModel { selected: move_page_up(m.selected, m.events.len() as int), ..m },
        Key::PageDown => AppModel {
            selected: move_page_down(m.selected, m.events.len() as int),
            ..m
        },
        _ => m,
    }
}

/// One key in editing mode: enter submits the draft, characters extend it,
/// backspace shortens it, escape returns to normal mode.
pub open spec fn step_key_editing(m: AppModel, key: Key) -> AppModel {
    match key {
        Key::Enter => spec_send_message(m),
        Key::Char(c) => AppModel { input: m.input.push(c), ..m },
        Key::Backspace => AppModel {
            input: if m.input.len() > 0 {
                m.input.drop_last()
            } else {
                m.input
            },
            ..m
        },
        Key::Esc => AppModel { input_mode: InputMode::Normal, ..m },
        _ => m,
    }
}

/// The full dispatch of one key, checked in priority order: the calculator
/// overlay first, then the about dialog, then (in normal mode) the detail
/// dialog or the global keys, and otherwise the editing keys. Each layer
/// short-circuits: while an overlay is up, no global key is processed.
pub open spec fn step_key(m: AppModel, key: Key) -> AppModel {
    if m.overlay is Calculator {
        step_key_calculator(m, key)
    } else if m.overlay is About {
        match key {
            Key::Esc => AppModel { overlay: Overlay::Inactive, ..m },
            Key::Char(c) => {
                if c == 'q' {
                    AppModel { overlay: Overlay::Inactive, ..m }
                } else {
                    m
                }
            },
            _ => m,
        }
    } else if m.input_mode is Normal {
        match m.overlay {
            Overlay::Detail { scroll } => step_key_detail(m, scroll, key),
            _ => step_key_normal(m, key),
        }
    } else {
        step_key_editing(m, key)
    }
}

/// Whether the loop keeps running after this key: everything but `q` in
/// normal mode with no overlay.
pub open spec fn step_continue(m: AppModel, key: Key) -> bool {
    !(m.overlay is Inactive && m.input_mode is Normal && key == Key::Char('q'))
}

/// Opening an overlay from the normal feed or compose view and closing it
/// again restores the view exactly: mode, tab, draft, feed and cursor are
/// as they were, and no overlay is left. Opening the calculator moreover
/// always finds it freshly reset, whatever an earlier session left in it.
pub proof fn lemma_overlay_round_trip(m: AppModel, open_key: Key, close_key: Key)
    requires
        m.overlay is Inactive,
        m.input_mode is Normal,
        open_key == Key::Char('a') || open_key == Key::Char('s') || (open_key == Key::Enter
            && m.events.len() > 0 && m.active_tab is Feed),
        close_key == Key::Esc || close_key == Key::Char('q'),
    ensures
        ({
            let opened = step_key(m, open_key);
            let closed = step_key(opened, close_key);
            &&& !(opened.overlay is Inactive)
            &&& closed.overlay is Inactive
            &&& closed.input_mode == m.input_mode
            &&& closed.active_tab == m.active_tab
            &&& closed.input == m.input
            &&& closed.events == m.events
            &&& closed.selected == m.selected
            &&& closed.message_to_send == m.message_to_send
            &&& (open_key == Key::Char('s') ==> opened.calculator == calc_init())
        }),
{
}

/// Submitting the draft, as a transition of the model.
pub open spec fn spec_send_message(m: AppModel) -> AppModel {
    if m.input.len() == 0 {
        m
    } else {
        AppModel {
            input: Seq::<char>::empty(),
            input_mode: InputMode::Normal,
            active_tab: Tab::Feed,
            status: Status::Sending,
            message_to_send: Some(m.input),
            selected: if m.events.len() > 0 {
                Some(0usize)
            } else {
                m.selected
            },
            ..m
        }
    }
}

} // verus!
