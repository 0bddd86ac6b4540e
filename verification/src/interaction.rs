//! What input means: the key bindings of each mode, the state machine that
//! turns a command into a state change and at most one action for the
//! poller, and the application of the poller's events to the state.

use vstd::prelude::*;
use crate::protocol::{actions_view, events_view, ActionView, DockerAction, DockerEvent, EventView};
use crate::state::{lemma_update_containers_keeps_wf, lemma_update_networks_keeps_wf, text_view,
    App, AppState, Mode, Tab};
use crate::summary::ContainerSummary;
use crate::text::str_eq;

verus! {

/// The number of lines by which the log view pages.
pub const LOG_PAGE_HEIGHT: usize = 20;

/// A key, as the terminal delivers it.
#[derive(Debug, Clone, Copy, PartialEq, Eq, Structural)]
pub enum Key {
    Char(char),
    Enter,
    Esc,
    Tab,
    Up,
    Down,
    PageUp,
    PageDown,
    Other,
}

/// One key press: the key, and whether control was held with it.
#[derive(Debug, Clone, Copy, PartialEq, Eq, Structural)]
pub struct KeyPress {
    pub key: Key,
    pub ctrl: bool,
}

/// What the operator asks for.
#[derive(Debug, Clone, Copy, PartialEq, Eq, Structural)]
pub enum Command {
    /// The interrupt combination: quits from any mode.
    Interrupt,
    Quit,
    NextTab,
    Down,
    Up,
    OpenDetail,
    ViewLogs,
    StartOrStop,
    Kill,
    Remove,
    Back,
    PageUp,
    PageDown,
    Top,
    Bottom,
}

impl ContainerSummary {
    /// Whether the runtime reports the container as running.
    pub fn is_running(&self) -> (r: bool)
        ensures
            r == (text_view(self.state) == Some(running())),
    {
        match &self.state {
            Some(s) => str_eq(s.as_str(), "running"),
            None => false,
        }
    }
}

/// The state string of a container that runs.
pub open spec fn running() -> Seq<char> {
    "running"@
}

/// The command that a key is bound to in a mode. Control with `c` is the
/// interrupt in every mode; no other control combination is bound.
pub open spec fn binding(mode: Mode, key: Key, ctrl: bool) -> Option<Command> {
    if ctrl {
        if key == Key::Char('c') {
            Some(Command::Interrupt)
        } else {
            None
        }
    } else {
        match mode {
            Mode::Normal => match key {
                Key::Char(c) => if c == 'q' {
                    Some(Command::Quit)
                } else if c == 'j' {
                    Some(Command::Down)
                } else if c == 'k' {
                    Some(Command::Up)
                } else if c == 'l' {
                    Some(Command::ViewLogs)
                } else if c == 's' {
                    Some(Command::StartOrStop)
                } else if c == 'x' {
                    Some(Command::Kill)
                } else if c == 'r' {
                    Some(Command::Remove)
                } else {
                    None
                },
                Key::Tab => Some(Command::NextTab),
                Key::Down => Some(Command::Down),
                Key::Up => Some(Command::Up),
                Key::Enter => Some(Command::OpenDetail),
                _ => None,
            },
            Mode::Detail => match key {
                Key::Char(c) => if c == 'l' {
                    Some(Command::ViewLogs)
                } else if c == 's' {
                    Some(Command::StartOrStop)
                } else if c == 'x' {
                    Some(Command::Kill)
                } else if c == 'r' {
                    Some(Command::Remove)
                } else {
                    None
                },
                Key::Esc => Some(Command::Back),
                _ => None,
            },
            Mode::Logs => match key {
                Key::Char(c) => if c == 'g' {
                    Some(Command::Top)
                } else if c == 'G' {
                    Some(Command::Bottom)
                } else {
                    None
                },
                Key::PageUp => Some(Command::PageUp),
                Key::PageDown => Some(Command::PageDown),
                Key::Esc => Some(Command::Back),
                _ => None,
            },
        }
    }
}

/// Looks up the command that a key is bound to.
pub fn bind_key(mode: Mode, key: Key, ctrl: bool) -> (r: Option<Command>)
    ensures
        r == binding(mode, key, ctrl),
{
    if ctrl {
        return match key {
            Key::Char(c) => if c == 'c' {
                Some(Command::Interrupt)
            } else {
                None
            },
            _ => None,
        };
    }
    match mode {
        Mode::Normal => match key {
            Key::Char(c) => if c == 'q' {
                Some(Command::Quit)
            } else if c == 'j' {
                Some(Command::Down)
            } else if c == 'k' {
                Some(Command::Up)
            } else if c == 'l' {
                Some(Command::ViewLogs)
            } else if c == 's' {
                Some(Command::StartOrStop)
            } else if c == 'x' {
                Some(Command::Kill)
            } else if c == 'r' {
                Some(Command::Remove)
            } else {
                None
            },
            Key::Tab => Some(Command::NextTab),
            Key::Down => Some(Command::Down),
            Key::Up => Some(Command::Up),
            Key::Enter => Some(Command::OpenDetail),
            _ => None,
        },
        Mode::Detail => match key {
            Key::Char(c) => if c == 'l' {
                Some(Command::ViewLogs)
            } else if c == 's' {
                Some(Command::StartOrStop)
            } else if c == 'x' {
                Some(Command::Kill)
            } else if c == 'r' {
                Some(Command::Remove)
            } else {
                None
            },
            Key::Esc => Some(Command::Back),
            _ => None,
        },
        Mode::Logs => match key {
            Key::Char(c) => if c == 'g' {
                Some(Command::Top)
            } else if c == 'G' {
                Some(Command::Bottom)
            } else {
                None
            },
            Key::PageUp => Some(Command::PageUp),
            Key::PageDown => Some(Command::PageDown),
            Key::Esc => Some(Command::Back),
            _ => None,
        },
    }
}

/// What an optional action says.
pub open spec fn action_view(action: Option<DockerAction>) -> Option<ActionView> {
    match action {
        Some(a) => Some(a@),
        None => None,
    }
}

impl AppState {
    /// The container that a lifecycle or log command is aimed at: the
    /// selected one, on the containers tab, in normal or detail mode, where
    /// it has an identity.
    pub open spec fn action_target(self) -> Option<Seq<char>> {
        if self.tab == Tab::Containers && self.mode != Mode::Logs {
            self.selected_container_id()
        } else {
            None
        }
    }

    /// The state on entering the log view: an empty buffer, scrolled to the
    /// top, with the stream marked active.
    pub open spec fn entering_logs(self) -> AppState {
        AppState {
            mode: Mode::Logs,
            log_lines: Seq::empty(),
            log_scroll: 0,
            log_streaming: true,
            ..self
        }
    }

    /// The state after a command, and the action that it sends to the
    /// poller. A command that has no meaning in the current mode changes
    /// nothing and sends nothing.
    pub open spec fn dispatch(self, command: Command) -> (AppState, Option<ActionView>) {
        match command {
            Command::Interrupt => (AppState { should_quit: true, ..self }, None),
            Command::Quit => if self.mode == Mode::Normal {
                (AppState { should_quit: true, ..self }, None)
            } else {
                (self, None)
            },
            Command::NextTab => (self.switch_tab(), None),
            Command::Down => if self.mode == Mode::Normal {
                (self.next_item(), None)
            } else {
                (self, None)
            },
            Command::Up => if self.mode == Mode::Normal {
                (self.prev_item(), None)
            } else {
                (self, None)
            },
            Command::OpenDetail => if self.mode == Mode::Normal && self.tab == Tab::Containers
                && self.selected_container() is Some {
                (AppState { mode: Mode::Detail, ..self }, None)
            } else {
                (self, None)
            },
            Command::ViewLogs => match self.action_target() {
                Some(id) => (
                    self.entering_logs(),
                    Some(ActionView::StreamLogs { container_id: id }),
                ),
                None => (self, None),
            },
            Command::StartOrStop => match self.action_target() {
                Some(id) => if self.selected_container_state() == Some(running()) {
                    (self, Some(ActionView::Stop(id)))
                } else {
                    (self, Some(ActionView::Start(id)))
                },
                None => (self, None),
            },
            Command::Kill => match self.action_target() {
                Some(id) => (self, Some(ActionView::Kill(id))),
                None => (self, None),
            },
            Command::Remove => match self.action_target() {
                Some(id) => (self, Some(ActionView::Remove(id))),
                None => (self, None),
            },
            Command::Back => match self.mode {
                Mode::Logs => (
                    AppState { mode: Mode::Normal, log_streaming: false, ..self },
                    Some(ActionView::StopLogStream),
                ),
                Mode::Detail => (AppState { mode: Mode::Normal, ..self }, None),
                Mode::Normal => (self, None),
            },
            Command::PageUp => if self.mode == Mode::Logs {
                (self.log_page_up(LOG_PAGE_HEIGHT), None)
            } else {
                (self, None)
            },
            Command::PageDown => if self.mode == Mode::Logs {
                (self.log_page_down(LOG_PAGE_HEIGHT), None)
            } else {
                (self, None)
            },
            Command::Top => if self.mode == Mode::Logs {
                (self.log_top(), None)
            } else {
                (self, None)
            },
            Command::Bottom => if self.mode == Mode::Logs {
                (self.log_bottom(LOG_PAGE_HEIGHT), None)
            } else {
                (self, None)
            },
        }
    }

    /// The state after a key press, and the action that it sends.
    pub open spec fn handle_key(self, key: Key, ctrl: bool) -> (AppState, Option<ActionView>) {
        match binding(self.mode, key, ctrl) {
            Some(command) => self.dispatch(command),
            None => (self, None),
        }
    }

    /// The state after an event from the poller was applied. A snapshot is
    /// reconciled into its list. A log line is appended while the log view
    /// is open and dropped otherwise. The end of the stream clears the
    /// streaming flag. An action result replaces the status message.
    pub open spec fn apply_event(self, event: EventView) -> AppState {
        match event {
            EventView::ContainersUpdated(rows) => self.update_containers(rows),
            EventView::NetworksUpdated(rows) => self.update_networks(rows),
            EventView::LogLine(text) => if self.mode == Mode::Logs {
                self.append_log_line(text)
            } else {
                self
            },
            EventView::LogStreamEnded => AppState { log_streaming: false, ..self },
            EventView::ActionResult { success, message } => AppState {
                status_message: Some(message),
                ..self
            },
        }
    }

    /// The state after a batch of events was applied, one after the other.
    pub open spec fn apply_events(self, events: Seq<EventView>) -> AppState
        decreases events.len(),
    {
        if events.len() == 0 {
            self
        } else {
            self.apply_events(events.drop_last()).apply_event(events.last())
        }
    }

    /// The state after a batch of key presses was handled, one after the
    /// other, and the actions that they send, in their order.
    pub open spec fn handle_keys(self, keys: Seq<KeyPress>) -> (AppState, Seq<ActionView>)
        decreases keys.len(),
    {
        if keys.len() == 0 {
            (self, Seq::empty())
        } else {
            let (before, sent) = self.handle_keys(keys.drop_last());
            let (after, action) = before.handle_key(keys.last().key, keys.last().ctrl);
            match action {
                Some(a) => (after, sent.push(a)),
                None => (after, sent),
            }
        }
    }

    /// One tick of the foreground loop: all pending events are applied, then
    /// all pending input is handled; what comes back are the actions for the
    /// poller, in the order of the key presses that sent them.
    pub open spec fn tick(self, events: Seq<EventView>, keys: Seq<KeyPress>) -> (
        AppState,
        Seq<ActionView>,
    ) {
        self.apply_events(events).handle_keys(keys)
    }
}

impl App {
    /// The identity of the container that a lifecycle or log command is
    /// aimed at.
    fn action_target(&self) -> (r: Option<String>)
        ensures
            text_view(r) == self@.action_target(),
    {
        if self.tab == Tab::Containers && self.mode != Mode::Logs {
            self.selected_container_id()
        } else {
            None
        }
    }

    /// Whether the selected container is reported as running.
    fn selected_is_running(&self) -> (r: bool)
        ensures
            r == (self@.selected_container_state() == Some(running())),
    {
        match self.selected_container() {
            Some(c) => c.is_running(),
            None => false,
        }
    }

    /// Carries out a command: changes the state and returns the action to
    /// send to the poller, if the command calls for one.
    pub fn dispatch(&mut self, command: Command) -> (action: Option<DockerAction>)
        ensures
            (final(self)@, action_view(action)) == old(self)@.dispatch(command),
            old(self)@.wf() ==> final(self)@.wf(),
    {
        match command {
            Command::Interrupt => {
                self.should_quit = true;
                None
            },
            Command::Quit => {
                if self.mode == Mode::Normal {
                    self.should_quit = true;
                }
                None
            },
            Command::NextTab => {
                self.switch_tab();
                None
            },
            Command::Down => {
                if self.mode == Mode::Normal {
                    self.next_item();
                }
                None
            },
            Command::Up => {
                if self.mode == Mode::Normal {
                    self.prev_item();
                }
                None
            },
            Command::OpenDetail => {
                if self.mode == Mode::Normal && self.tab == Tab::Containers
                    && self.selected_container().is_some() {
                    self.mode = Mode::Detail;
                }
                None
            },
            Command::ViewLogs => match self.action_target() {
                Some(id) => {
                    self.mode = Mode::Logs;
                    self.log_lines = Vec::new();
                    self.log_scroll = 0;
                    self.log_streaming = true;
                    assert(self@.log_lines =~= Seq::empty());
                    Some(DockerAction::StreamLogs { container_id: id })
                },
                None => None,
            },
            Command::StartOrStop => match self.action_target() {
                Some(id) => if self.selected_is_running() {
                    Some(DockerAction::Stop(id))
                } else {
                    Some(DockerAction::Start(id))
                },
                None => None,
            },
            Command::Kill => match self.action_target() {
                Some(id) => Some(DockerAction::Kill(id)),
                None => None,
            },
            Command::Remove => match self.action_target() {
                Some(id) => Some(DockerAction::Remove(id)),
                None => None,
            },
            Command::Back => match self.mode {
                Mode::Logs => {
                    self.mode = Mode::Normal;
                    self.log_streaming = false;
                    Some(DockerAction::StopLogStream)
                },
                Mode::Detail => {
                    self.mode = Mode::Normal;
                    None
                },
                Mode::Normal => None,
            },
            Command::PageUp => {
                if self.mode == Mode::Logs {
                    self.log_page_up(LOG_PAGE_HEIGHT);
                }
                None
            },
            Command::PageDown => {
                if self.mode == Mode::Logs {
                    self.log_page_down(LOG_PAGE_HEIGHT);
                }
                None
            },
            Command::Top => {
                if self.mode == Mode::Logs {
                    self.log_top();
                }
                None
            },
            Command::Bottom => {
                if self.mode == Mode::Logs {
                    self.log_bottom(LOG_PAGE_HEIGHT);
                }
                None
            },
        }
    }

    /// Handles one key press: looks up its binding in the current mode and
    /// carries the command out.
    pub fn handle_key(&mut self, key: Key, ctrl: bool) -> (action: Option<DockerAction>)
        ensures
            (final(self)@, action_view(action)) == old(self)@.handle_key(key, ctrl),
            old(self)@.wf() ==> final(self)@.wf(),
    {
        match bind_key(self.mode, key, ctrl) {
            Some(command) => self.dispatch(command),
            None => None,
        }
    }

    /// Applies one event from the poller to the state.
    pub fn apply_event(&mut self, event: DockerEvent)
        ensures
            final(self)@ == old(self)@.apply_event(event@),
            old(self)@.wf() ==> final(self)@.wf(),
    {
        match event {
            DockerEvent::ContainersUpdated(rows) => {
                self.update_containers(rows);
            },
            DockerEvent::NetworksUpdated(rows) => {
                self.update_networks(rows);
            },
            DockerEvent::LogLine(text) => {
                if self.mode == Mode::Logs {
                    self.append_log_line(text);
                }
            },
            DockerEvent::LogStreamEnded => {
                self.log_streaming = false;
            },
            DockerEvent::ActionResult { success, message } => {
                self.status_message = Some(message);
            },
        }
    }

    /// One tick of the foreground loop: applies all pending events, then
    /// handles all pending key presses, and returns the actions to send to
    /// the poller.
    pub fn tick(&mut self, events: Vec<DockerEvent>, keys: Vec<KeyPress>) -> (actions: Vec<
        DockerAction,
    >)
        ensures
            (final(self)@, actions_view(actions@)) == old(self)@.tick(events_view(events@), keys@),
            old(self)@.wf() ==> final(self)@.wf(),
    {
        let ghost start = self@;
        let ghost all_events = events_view(events@);
        let ghost given = events@;
        assert(all_events.take(0) =~= Seq::<EventView>::empty());
        for event in it: events
            invariant
                it.seq() == given,
                all_events == events_view(given),
                self@ == start.apply_events(all_events.take(it.index() as int)),
                start.wf() ==> self@.wf(),
        {
            assert(all_events.take(it.index() + 1).drop_last() =~= all_events.take(
                it.index() as int,
            ));
            self.apply_event(event);
        }
        assert(all_events.take(given.len() as int) =~= all_events);
        let ghost middle = self@;
        let ghost all_keys = keys@;
        let mut actions: Vec<DockerAction> = Vec::new();
        assert(all_keys.take(0) =~= Seq::<KeyPress>::empty());
        assert(actions_view(actions@) =~= Seq::<ActionView>::empty());
        for press in it: keys
            invariant
                it.seq() == all_keys,
                (self@, actions_view(actions@)) == middle.handle_keys(
                    all_keys.take(it.index() as int),
                ),
                middle.wf() ==> self@.wf(),
        {
            assert(all_keys.take(it.index() + 1).drop_last() =~= all_keys.take(it.index() as int));
            let ghost sent = actions@;
            match self.handle_key(press.key, press.ctrl) {
                Some(action) => {
                    actions.push(action);
                    assert(actions_view(actions@) =~= actions_view(sent).push(action@));
                },
                None => {},
            }
        }
        assert(all_keys.take(all_keys.len() as int) =~= all_keys);
        actions
    }
}

/// No command breaks the invariant of the state. In particular the detail
/// and log views never come to stand on the networks tab, whatever the
/// order of commands.
pub proof fn lemma_dispatch_keeps_wf(s: AppState, command: Command)
    requires
        s.wf(),
    ensures
        s.dispatch(command).0.wf(),
{
}

/// No key press breaks the invariant of the state.
pub proof fn lemma_handle_key_keeps_wf(s: AppState, key: Key, ctrl: bool)
    requires
        s.wf(),
    ensures
        s.handle_key(key, ctrl).0.wf(),
{
    match binding(s.mode, key, ctrl) {
        Some(command) => lemma_dispatch_keeps_wf(s, command),
        None => {},
    }
}

/// A snapshot fits the machine: it has no more rows than can be counted.
pub open spec fn event_fits(event: EventView) -> bool {
    match event {
        EventView::ContainersUpdated(rows) => rows.len() <= usize::MAX,
        EventView::NetworksUpdated(rows) => rows.len() <= usize::MAX,
        _ => true,
    }
}

/// No event breaks the invariant of the state.
pub proof fn lemma_event_keeps_wf(s: AppState, event: EventView)
    requires
        s.wf(),
        event_fits(event),
    ensures
        s.apply_event(event).wf(),
{
    match event {
        EventView::ContainersUpdated(rows) => lemma_update_containers_keeps_wf(s, rows),
        EventView::NetworksUpdated(rows) => lemma_update_networks_keeps_wf(s, rows),
        _ => {},
    }
}

/// Every snapshot of the batch fits the machine.
pub open spec fn events_fit(events: Seq<EventView>) -> bool {
    forall|i: int| 0 <= i < events.len() ==> event_fits(#[trigger] events[i])
}

/// No batch of events breaks the invariant of the state.
pub proof fn lemma_events_keep_wf(s: AppState, events: Seq<EventView>)
    requires
        s.wf(),
        events_fit(events),
    ensures
        s.apply_events(events).wf(),
    decreases events.len(),
{
    if events.len() > 0 {
        let head = events.drop_last();
        assert forall|i: int| 0 <= i < head.len() implies event_fits(#[trigger] head[i]) by {
            assert(head[i] == events[i]);
        }
        lemma_events_keep_wf(s, head);
        lemma_event_keeps_wf(s.apply_events(head), events.last());
    }
}

/// No batch of key presses breaks the invariant of the state.
pub proof fn lemma_keys_keep_wf(s: AppState, keys: Seq<KeyPress>)
    requires
        s.wf(),
    ensures
        s.handle_keys(keys).0.wf(),
    decreases keys.len(),
{
    if keys.len() > 0 {
        lemma_keys_keep_wf(s, keys.drop_last());
        lemma_handle_key_keeps_wf(
            s.handle_keys(keys.drop_last()).0,
            keys.last().key,
            keys.last().ctrl,
        );
    }
}

/// The invariant of the state holds after every tick of the foreground
/// loop: no cursor dangles, and the detail and log views stay on the
/// containers tab.
pub proof fn lemma_tick_keeps_wf(s: AppState, events: Seq<EventView>, keys: Seq<KeyPress>)
    requires
        s.wf(),
        events_fit(events),
    ensures
        s.tick(events, keys).0.wf(),
{
    lemma_events_keep_wf(s, events);
    lemma_keys_keep_wf(s.apply_events(events), keys);
}

/// The interrupt quits from every state, and changes nothing else.
pub proof fn lemma_interrupt_quits(s: AppState)
    ensures
        s.dispatch(Command::Interrupt) == ((AppState { should_quit: true, ..s }, None::<ActionView>)),
        s.handle_key(Key::Char('c'), true) == s.dispatch(Command::Interrupt),
{
}

/// Start-or-stop is decided by the state of the selected container: a
/// running container is stopped, any other is started. The state itself is
/// left as it is.
pub proof fn lemma_start_or_stop_by_state(s: AppState, id: Seq<char>)
    requires
        s.action_target() == Some(id),
    ensures
        s.dispatch(Command::StartOrStop).0 == s,
        s.selected_container_state() == Some(running()) ==> s.dispatch(Command::StartOrStop).1
            == Some(ActionView::Stop(id)),
        s.selected_container_state() != Some(running()) ==> s.dispatch(Command::StartOrStop).1
            == Some(ActionView::Start(id)),
{
}

/// Lifecycle and log commands need a selected container on the containers
/// tab outside the log view: without one they change nothing and send
/// nothing.
pub proof fn lemma_no_target_no_action(s: AppState, command: Command)
    requires
        s.action_target() is None,
        command == Command::ViewLogs || command == Command::StartOrStop || command
            == Command::Kill || command == Command::Remove,
    ensures
        s.dispatch(command) == (s, None::<ActionView>),
{
}

/// Entering the log view clears the log buffer, resets the scroll offset,
/// marks the stream active and sends exactly one request to stream the logs
/// of the selected container.
pub proof fn lemma_entering_logs(s: AppState, id: Seq<char>)
    requires
        s.action_target() == Some(id),
    ensures
        s.dispatch(Command::ViewLogs).1 == Some(ActionView::StreamLogs { container_id: id }),
        s.dispatch(Command::ViewLogs).0 == (AppState {
            mode: Mode::Logs,
            log_lines: Seq::empty(),
            log_scroll: 0,
            log_streaming: true,
            ..s
        }),
{
}

/// Leaving the log view returns to normal mode, clears the streaming flag
/// and sends the request to stop the stream.
pub proof fn lemma_leaving_logs(s: AppState)
    requires
        s.mode == Mode::Logs,
    ensures
        s.dispatch(Command::Back) == ((
            AppState { mode: Mode::Normal, log_streaming: false, ..s },
            Some(ActionView::StopLogStream),
        )),
{
}

/// The end of the log stream clears the streaming flag and leaves the mode
/// and everything else as it is.
pub proof fn lemma_stream_end_keeps_mode(s: AppState)
    ensures
        s.apply_event(EventView::LogStreamEnded) == (AppState { log_streaming: false, ..s }),
        s.apply_event(EventView::LogStreamEnded).mode == s.mode,
{
}

/// An action result replaces the status message and leaves all other state
/// untouched, whether it reports a success or a failure.
pub proof fn lemma_action_result_replaces_status(s: AppState, success: bool, message: Seq<char>)
    ensures
        s.apply_event(EventView::ActionResult { success, message }) == (AppState {
            status_message: Some(message),
            ..s
        }),
{
}

/// Log lines count only while the log view is open: outside it a line from
/// a superseded stream is dropped.
pub proof fn lemma_stale_log_line_dropped(s: AppState, text: Seq<char>)
    requires
        s.mode != Mode::Logs,
    ensures
        s.apply_event(EventView::LogLine(text)) == s,
{
}

} // verus!
