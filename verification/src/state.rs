//! The application state: the reconciled view model that the foreground
//! loop owns, with its tabs and modes, the two lists and their selection
//! cursors, the log buffer and the status message.

use vstd::prelude::*;
use crate::reconcile::{cursor_on_first_of_id, cursor_valid, distinct_ids,
    lemma_reconcile_idempotent, lemma_reconcile_idempotent_distinct_ids,
    lemma_reconciled_cursor_valid, lemma_selection_stable_under_reordering, reconcile,
    reconciled_cursor};
use crate::sorting::{lemma_stable_sort, lemma_stable_sort_keeps_rows, stable_sort};
use crate::summary::{ContainerSummary, NetworkSummary, Row};
use crate::text::lines_view;

verus! {

/// The list that the dashboard shows. Exactly one tab is active at a time.
#[derive(Debug, Clone, Copy, PartialEq, Eq, Structural)]
pub enum Tab {
    Containers,
    Networks,
}

/// How input is interpreted. `Detail` and `Logs` belong to the containers tab.
#[derive(Debug, Clone, Copy, PartialEq, Eq, Structural)]
pub enum Mode {
    Normal,
    Detail,
    Logs,
}

impl Tab {
    /// The tab that follows `self` in the cycle.
    pub open spec fn next_spec(self) -> Tab {
        match self {
            Tab::Containers => Tab::Networks,
            Tab::Networks => Tab::Containers,
        }
    }

    /// The text shown for `self` in the tab bar.
    pub open spec fn title_spec(self) -> Seq<char> {
        match self {
            Tab::Containers => "Containers"@,
            Tab::Networks => "Networks"@,
        }
    }

    /// Cycles to the other tab.
    #[verifier::when_used_as_spec(next_spec)]
    pub fn next(self) -> (r: Tab)
        ensures
            r == self.next_spec(),
    {
        match self {
            Tab::Containers => Tab::Networks,
            Tab::Networks => Tab::Containers,
        }
    }

    /// The title of the tab.
    pub fn title(self) -> (r: &'static str)
        ensures
            r@ == self.title_spec(),
    {
        match self {
            Tab::Containers => "Containers",
            Tab::Networks => "Networks",
        }
    }
}

/// The number of lines that the log buffer retains.
pub const MAX_LOG_LINES: usize = 10_000;

/// The application state. It is created once, with empty lists, no
/// selection, in normal mode on the containers tab, and is mutated only by
/// the foreground loop.
#[derive(Debug)]
pub struct App {
    pub tab: Tab,
    pub mode: Mode,
    pub should_quit: bool,
    pub containers: Vec<ContainerSummary>,
    pub container_selected: Option<usize>,
    pub networks: Vec<NetworkSummary>,
    pub network_selected: Option<usize>,
    pub log_lines: Vec<String>,
    pub log_scroll: usize,
    pub log_streaming: bool,
    pub status_message: Option<String>,
}

/// The application state as a mathematical value.
pub struct AppState {
    pub tab: Tab,
    pub mode: Mode,
    pub should_quit: bool,
    pub containers: Seq<ContainerSummary>,
    pub container_selected: Option<usize>,
    pub networks: Seq<NetworkSummary>,
    pub network_selected: Option<usize>,
    pub log_lines: Seq<Seq<char>>,
    pub log_scroll: usize,
    pub log_streaming: bool,
    pub status_message: Option<Seq<char>>,
}

/// The characters of an optional text.
pub open spec fn text_view(text: Option<String>) -> Option<Seq<char>> {
    match text {
        Some(t) => Some(t@),
        None => None,
    }
}

impl View for App {
    type V = AppState;

    open spec fn view(&self) -> AppState {
        AppState {
            tab: self.tab,
            mode: self.mode,
            should_quit: self.should_quit,
            containers: self.containers@,
            container_selected: self.container_selected,
            networks: self.networks@,
            network_selected: self.network_selected,
            log_lines: lines_view(self.log_lines@),
            log_scroll: self.log_scroll,
            log_streaming: self.log_streaming,
            status_message: text_view(self.status_message),
        }
    }
}

/// The last `limit` elements of `s`, or all of `s` where it has no more.
pub open spec fn keep_last<A>(s: Seq<A>, limit: nat) -> Seq<A> {
    if s.len() > limit {
        s.skip(s.len() - limit)
    } else {
        s
    }
}

/// The cursor of a list of `len` rows after one step down, wrapping from the
/// last row to the first. An empty list keeps its cursor.
pub open spec fn stepped_down(len: nat, cursor: Option<usize>) -> Option<usize> {
    if len == 0 {
        cursor
    } else {
        match cursor {
            None => Some(0usize),
            Some(i) => Some(((i + 1) % (len as int)) as usize),
        }
    }
}

/// The cursor of a list of `len` rows after one step up, wrapping from the
/// first row to the last. An empty list keeps its cursor.
pub open spec fn stepped_up(len: nat, cursor: Option<usize>) -> Option<usize> {
    if len == 0 {
        cursor
    } else {
        match cursor {
            None => Some(0usize),
            Some(i) => if i == 0 {
                Some((len - 1) as usize)
            } else {
                Some((i - 1) as usize)
            },
        }
    }
}

/// The greatest scroll offset that still shows a full page: the number of
/// lines less the page height, floored at zero.
pub open spec fn max_scroll(lines: nat, page_height: usize) -> nat {
    if lines >= page_height {
        (lines - page_height) as nat
    } else {
        0
    }
}

impl AppState {
    /// The state at startup.
    pub open spec fn initial() -> AppState {
        AppState {
            tab: Tab::Containers,
            mode: Mode::Normal,
            should_quit: false,
            containers: Seq::empty(),
            container_selected: None,
            networks: Seq::empty(),
            network_selected: None,
            log_lines: Seq::empty(),
            log_scroll: 0,
            log_streaming: false,
            status_message: None,
        }
    }

    /// The invariant of the application state: no cursor dangles, the detail
    /// and log views belong to the containers tab, the log buffer is within
    /// its cap and the scroll offset within the buffer.
    pub open spec fn wf(self) -> bool {
        &&& cursor_valid(self.containers.len(), self.container_selected)
        &&& cursor_valid(self.networks.len(), self.network_selected)
        &&& self.mode != Mode::Normal ==> self.tab == Tab::Containers
        &&& self.log_lines.len() <= MAX_LOG_LINES
        &&& self.log_scroll <= self.log_lines.len()
    }

    /// The container under the cursor.
    pub open spec fn selected_container(self) -> Option<ContainerSummary> {
        match self.container_selected {
            Some(i) => if i < self.containers.len() {
                Some(self.containers[i as int])
            } else {
                None
            },
            None => None,
        }
    }

    /// The identity of the container under the cursor.
    pub open spec fn selected_container_id(self) -> Option<Seq<char>> {
        match self.selected_container() {
            Some(c) => c.row_id(),
            None => None,
        }
    }

    /// The state string of the container under the cursor.
    pub open spec fn selected_container_state(self) -> Option<Seq<char>> {
        match self.selected_container() {
            Some(c) => text_view(c.state),
            None => None,
        }
    }

    /// The state after the cursor of the active list moved one row down.
    pub open spec fn next_item(self) -> AppState {
        match self.tab {
            Tab::Containers => AppState {
                container_selected: stepped_down(self.containers.len(), self.container_selected),
                ..self
            },
            Tab::Networks => AppState {
                network_selected: stepped_down(self.networks.len(), self.network_selected),
                ..self
            },
        }
    }

    /// The state after the cursor of the active list moved one row up.
    pub open spec fn prev_item(self) -> AppState {
        match self.tab {
            Tab::Containers => AppState {
                container_selected: stepped_up(self.containers.len(), self.container_selected),
                ..self
            },
            Tab::Networks => AppState {
                network_selected: stepped_up(self.networks.len(), self.network_selected),
                ..self
            },
        }
    }

    /// The state after a tab switch. Tabs are switched in normal mode only:
    /// the detail and log views stay on the containers tab.
    pub open spec fn switch_tab(self) -> AppState {
        if self.mode == Mode::Normal {
            AppState { tab: self.tab.next_spec(), ..self }
        } else {
            self
        }
    }

    /// The state after the log view scrolled one page down.
    pub open spec fn log_page_down(self, page_height: usize) -> AppState {
        let limit = max_scroll(self.log_lines.len(), page_height);
        let target = self.log_scroll + page_height;
        AppState {
            log_scroll: if target <= limit {
                target as usize
            } else {
                limit as usize
            },
            ..self
        }
    }

    /// The state after the log view scrolled one page up.
    pub open spec fn log_page_up(self, page_height: usize) -> AppState {
        AppState {
            log_scroll: if self.log_scroll >= page_height {
                (self.log_scroll - page_height) as usize
            } else {
                0
            },
            ..self
        }
    }

    /// The state after the log view jumped to the first line.
    pub open spec fn log_top(self) -> AppState {
        AppState { log_scroll: 0, ..self }
    }

    /// The state after the log view jumped to the last page.
    pub open spec fn log_bottom(self, page_height: usize) -> AppState {
        AppState { log_scroll: max_scroll(self.log_lines.len(), page_height) as usize, ..self }
    }

    /// The state after one line was appended to the log buffer: the buffer
    /// keeps the most recent `MAX_LOG_LINES` lines, in their order.
    pub open spec fn append_log_line(self, line: Seq<char>) -> AppState {
        AppState { log_lines: keep_last(self.log_lines.push(line), MAX_LOG_LINES as nat), ..self }
    }

    /// The state after the container list was reconciled with `snapshot`:
    /// the list is the snapshot sorted by display name, the cursor has
    /// followed its row, and nothing else has changed.
    pub open spec fn update_containers(self, snapshot: Seq<ContainerSummary>) -> AppState {
        let sorted = stable_sort(snapshot);
        AppState {
            containers: sorted,
            container_selected: reconciled_cursor(self.containers, self.container_selected, sorted),
            ..self
        }
    }

    /// The state after the network list was reconciled with `snapshot`.
    pub open spec fn update_networks(self, snapshot: Seq<NetworkSummary>) -> AppState {
        let sorted = stable_sort(snapshot);
        AppState {
            networks: sorted,
            network_selected: reconciled_cursor(self.networks, self.network_selected, sorted),
            ..self
        }
    }
}

/// Moves a cursor one row down in a list of `len` rows.
fn step_down(len: usize, cursor: Option<usize>) -> (r: Option<usize>)
    ensures
        r == stepped_down(len as nat, cursor),
{
    if len == 0 {
        cursor
    } else {
        match cursor {
            None => Some(0),
            Some(i) => {
                if i < len - 1 {
                    assert((i + 1) % (len as int) == i + 1) by (nonlinear_arith)
                        requires
                            0 <= i + 1 < len,
                    ;
                    Some(i + 1)
                } else {
                    let wide: u128 = (i as u128 + 1) % (len as u128);
                    Some(wide as usize)
                }
            },
        }
    }
}

/// Moves a cursor one row up in a list of `len` rows.
fn step_up(len: usize, cursor: Option<usize>) -> (r: Option<usize>)
    ensures
        r == stepped_up(len as nat, cursor),
{
    if len == 0 {
        cursor
    } else {
        match cursor {
            None => Some(0),
            Some(i) => if i == 0 {
                Some(len - 1)
            } else {
                Some(i - 1)
            },
        }
    }
}

impl App {
    /// Creates the application state as it is at startup.
    pub fn new() -> (app: App)
        ensures
            app@ == AppState::initial(),
            app@.wf(),
    {
        let app = App {
            tab: Tab::Containers,
            mode: Mode::Normal,
            should_quit: false,
            containers: Vec::new(),
            container_selected: None,
            networks: Vec::new(),
            network_selected: None,
            log_lines: Vec::new(),
            log_scroll: 0,
            log_streaming: false,
            status_message: None,
        };
        assert(app@.log_lines =~= Seq::empty());
        app
    }

    /// The container under the cursor, if the cursor points at one.
    pub fn selected_container(&self) -> (r: Option<&ContainerSummary>)
        ensures
            match r {
                Some(c) => self@.selected_container() == Some(*c),
                None => self@.selected_container() is None,
            },
    {
        match self.container_selected {
            Some(i) => if i < self.containers.len() {
                Some(&self.containers[i])
            } else {
                None
            },
            None => None,
        }
    }

    /// The identity of the container under the cursor.
    pub fn selected_container_id(&self) -> (r: Option<String>)
        ensures
            text_view(r) == self@.selected_container_id(),
    {
        match self.selected_container() {
            Some(c) => match &c.id {
                Some(id) => Some(id.clone()),
                None => None,
            },
            None => None,
        }
    }

    /// The state string of the container under the cursor.
    pub fn selected_container_state(&self) -> (r: Option<&str>)
        ensures
            match r {
                Some(s) => self@.selected_container_state() == Some(s@),
                None => self@.selected_container_state() is None,
            },
    {
        match self.selected_container() {
            Some(c) => match &c.state {
                Some(s) => Some(s.as_str()),
                None => None,
            },
            None => None,
        }
    }

    /// Moves the cursor of the active list one row down, wrapping at the end.
    pub fn next_item(&mut self)
        ensures
            final(self)@ == old(self)@.next_item(),
            old(self)@.wf() ==> final(self)@.wf(),
    {
        match self.tab {
            Tab::Containers => {
                self.container_selected = step_down(self.containers.len(), self.container_selected);
            },
            Tab::Networks => {
                self.network_selected = step_down(self.networks.len(), self.network_selected);
            },
        }
    }

    /// Moves the cursor of the active list one row up, wrapping at the start.
    pub fn prev_item(&mut self)
        ensures
            final(self)@ == old(self)@.prev_item(),
            old(self)@.wf() ==> final(self)@.wf(),
    {
        match self.tab {
            Tab::Containers => {
                self.container_selected = step_up(self.containers.len(), self.container_selected);
            },
            Tab::Networks => {
                self.network_selected = step_up(self.networks.len(), self.network_selected);
            },
        }
    }

    /// Switches to the other tab. Outside normal mode nothing changes.
    pub fn switch_tab(&mut self)
        ensures
            final(self)@ == old(self)@.switch_tab(),
            old(self)@.wf() ==> final(self)@.wf(),
    {
        if self.mode == Mode::Normal {
            self.tab = self.tab.next();
        }
    }

    /// Replaces the container list by `new`, sorted by display name, and
    /// keeps the cursor on the container it was on.
    pub fn update_containers(&mut self, new: Vec<ContainerSummary>)
        ensures
            final(self)@ == old(self)@.update_containers(new@),
            cursor_valid(final(self)@.containers.len(), final(self)@.container_selected),
            old(self)@.wf() ==> final(self)@.wf(),
    {
        reconcile(&mut self.containers, &mut self.container_selected, new);
    }

    /// Replaces the network list by `new`, sorted by name, and keeps the
    /// cursor on the network it was on.
    pub fn update_networks(&mut self, new: Vec<NetworkSummary>)
        ensures
            final(self)@ == old(self)@.update_networks(new@),
            cursor_valid(final(self)@.networks.len(), final(self)@.network_selected),
            old(self)@.wf() ==> final(self)@.wf(),
    {
        reconcile(&mut self.networks, &mut self.network_selected, new);
    }

    /// Scrolls the log view one page down, never past the last full page.
    pub fn log_page_down(&mut self, page_height: usize)
        ensures
            final(self)@ == old(self)@.log_page_down(page_height),
            final(self)@.log_scroll <= max_scroll(old(self)@.log_lines.len(), page_height),
            old(self)@.wf() ==> final(self)@.wf(),
    {
        let limit = self.log_lines.len().saturating_sub(page_height);
        let target = self.log_scroll.saturating_add(page_height);
        self.log_scroll = if target <= limit {
            target
        } else {
            limit
        };
    }

    /// Scrolls the log view one page up, never above the first line.
    pub fn log_page_up(&mut self, page_height: usize)
        ensures
            final(self)@ == old(self)@.log_page_up(page_height),
            final(self)@.log_scroll <= old(self)@.log_scroll,
            old(self)@.wf() ==> final(self)@.wf(),
    {
        self.log_scroll = self.log_scroll.saturating_sub(page_height);
    }

    /// Jumps to the first line of the log.
    pub fn log_top(&mut self)
        ensures
            final(self)@ == old(self)@.log_top(),
            old(self)@.wf() ==> final(self)@.wf(),
    {
        self.log_scroll = 0;
    }

    /// Jumps to the last page of the log.
    pub fn log_bottom(&mut self, page_height: usize)
        ensures
            final(self)@ == old(self)@.log_bottom(page_height),
            old(self)@.wf() ==> final(self)@.wf(),
    {
        self.log_scroll = self.log_lines.len().saturating_sub(page_height);
    }

    /// Appends one line to the log buffer and evicts the oldest lines beyond
    /// the cap.
    pub fn append_log_line(&mut self, line: String)
        ensures
            final(self)@ == old(self)@.append_log_line(line@),
            final(self)@.log_lines.len() <= MAX_LOG_LINES,
            old(self)@.wf() ==> final(self)@.wf(),
    {
        let ghost before = self.log_lines@;
        self.log_lines.push(line);
        assert(lines_view(self.log_lines@) =~= lines_view(before).push(line@));
        let len = self.log_lines.len();
        if len > MAX_LOG_LINES {
            let ghost pushed = self.log_lines@;
            let kept = self.log_lines.split_off(len - MAX_LOG_LINES);
            self.log_lines = kept;
            assert(lines_view(self.log_lines@) =~= lines_view(pushed).skip(len - MAX_LOG_LINES));
        }
    }
}

impl AppState {
    /// The state after a batch of lines was appended to the log buffer, one
    /// line after the other.
    pub open spec fn append_log_lines(self, lines: Seq<Seq<char>>) -> AppState
        decreases lines.len(),
    {
        if lines.len() == 0 {
            self
        } else {
            self.append_log_lines(lines.drop_last()).append_log_line(lines.last())
        }
    }
}

/// The state at startup is well-formed.
pub proof fn lemma_initial_wf()
    ensures
        AppState::initial().wf(),
{
}

/// Reconciling the container list keeps the state well-formed: the cursor
/// points at a row of the new list, and at nothing only where that list is
/// empty.
pub proof fn lemma_update_containers_keeps_wf(s: AppState, snapshot: Seq<ContainerSummary>)
    requires
        snapshot.len() <= usize::MAX,
    ensures
        cursor_valid(
            s.update_containers(snapshot).containers.len(),
            s.update_containers(snapshot).container_selected,
        ),
        s.update_containers(snapshot).container_selected is None <==> snapshot.len() == 0,
        s.update_containers(snapshot).containers.len() == snapshot.len(),
        s.wf() ==> s.update_containers(snapshot).wf(),
{
    lemma_stable_sort(snapshot);
    lemma_stable_sort_keeps_rows(snapshot, stable_sort(snapshot));
    lemma_reconciled_cursor_valid(s.containers, s.container_selected, stable_sort(snapshot));
}

/// Reconciling the network list keeps the state well-formed.
pub proof fn lemma_update_networks_keeps_wf(s: AppState, snapshot: Seq<NetworkSummary>)
    requires
        snapshot.len() <= usize::MAX,
    ensures
        cursor_valid(
            s.update_networks(snapshot).networks.len(),
            s.update_networks(snapshot).network_selected,
        ),
        s.update_networks(snapshot).network_selected is None <==> snapshot.len() == 0,
        s.update_networks(snapshot).networks.len() == snapshot.len(),
        s.wf() ==> s.update_networks(snapshot).wf(),
{
    lemma_stable_sort(snapshot);
    lemma_stable_sort_keeps_rows(snapshot, stable_sort(snapshot));
    lemma_reconciled_cursor_valid(s.networks, s.network_selected, stable_sort(snapshot));
}

/// Applying the same container snapshot twice in a row gives the same
/// application state both times, provided that the row on which the cursor
/// came to stand is the first with its identity.
pub proof fn lemma_update_containers_idempotent(s: AppState, snapshot: Seq<ContainerSummary>)
    requires
        snapshot.len() <= usize::MAX,
        cursor_on_first_of_id(
            s.update_containers(snapshot).containers,
            s.update_containers(snapshot).container_selected,
        ),
    ensures
        s.update_containers(snapshot).update_containers(snapshot) == s.update_containers(snapshot),
{
    let sorted = stable_sort(snapshot);
    lemma_stable_sort(snapshot);
    lemma_stable_sort_keeps_rows(snapshot, sorted);
    lemma_reconcile_idempotent(s.containers, s.container_selected, snapshot, sorted, sorted);
}

/// Applying the same container snapshot twice in a row gives the same
/// application state both times, where the containers of the snapshot have
/// distinct identities.
pub proof fn lemma_update_containers_idempotent_distinct_ids(
    s: AppState,
    snapshot: Seq<ContainerSummary>,
)
    requires
        snapshot.len() <= usize::MAX,
        distinct_ids(snapshot),
    ensures
        s.update_containers(snapshot).update_containers(snapshot) == s.update_containers(snapshot),
{
    let sorted = stable_sort(snapshot);
    lemma_stable_sort(snapshot);
    lemma_stable_sort_keeps_rows(snapshot, sorted);
    lemma_reconcile_idempotent_distinct_ids(
        s.containers,
        s.container_selected,
        snapshot,
        sorted,
        sorted,
    );
}

/// Applying the same network snapshot twice in a row gives the same
/// application state both times, where the networks of the snapshot have
/// distinct identities.
pub proof fn lemma_update_networks_idempotent_distinct_ids(
    s: AppState,
    snapshot: Seq<NetworkSummary>,
)
    requires
        snapshot.len() <= usize::MAX,
        distinct_ids(snapshot),
    ensures
        s.update_networks(snapshot).update_networks(snapshot) == s.update_networks(snapshot),
{
    let sorted = stable_sort(snapshot);
    lemma_stable_sort(snapshot);
    lemma_stable_sort_keeps_rows(snapshot, sorted);
    lemma_reconcile_idempotent_distinct_ids(s.networks, s.network_selected, snapshot, sorted, sorted);
}

/// A snapshot that only reorders the containers leaves the cursor on a
/// container with the identity that was selected.
pub proof fn lemma_update_containers_follows_selection(
    s: AppState,
    snapshot: Seq<ContainerSummary>,
    id: Seq<char>,
)
    requires
        s.selected_container_id() == Some(id),
        snapshot.to_multiset() == s.containers.to_multiset(),
        snapshot.len() <= usize::MAX,
    ensures
        s.update_containers(snapshot).selected_container_id() == Some(id),
{
    let sorted = stable_sort(snapshot);
    lemma_stable_sort(snapshot);
    lemma_stable_sort_keeps_rows(snapshot, sorted);
    lemma_selection_stable_under_reordering(
        s.containers,
        s.container_selected,
        snapshot,
        sorted,
        id,
    );
}

/// The log buffer never exceeds its cap: after any line is appended it holds
/// at most `MAX_LOG_LINES` lines, whatever it held before.
pub proof fn lemma_log_buffer_bounded(s: AppState, line: Seq<char>)
    ensures
        s.append_log_line(line).log_lines.len() <= MAX_LOG_LINES,
        s.append_log_line(line).log_lines.len() > 0,
        s.append_log_line(line).log_lines.last() == line,
{
}

/// After a batch of lines was appended the log buffer holds the most recent
/// `MAX_LOG_LINES` of all its lines, old and new, in their order.
pub proof fn lemma_log_buffer_keeps_most_recent(s: AppState, lines: Seq<Seq<char>>)
    requires
        s.log_lines.len() <= MAX_LOG_LINES,
    ensures
        s.append_log_lines(lines).log_lines == keep_last(
            s.log_lines + lines,
            MAX_LOG_LINES as nat,
        ),
        s.append_log_lines(lines) == (AppState {
            log_lines: s.append_log_lines(lines).log_lines,
            ..s
        }),
    decreases lines.len(),
{
    if lines.len() == 0 {
        assert(s.log_lines + lines =~= s.log_lines);
    } else {
        let head = lines.drop_last();
        lemma_log_buffer_keeps_most_recent(s, head);
        let all_before = s.log_lines + head;
        let all = s.log_lines + lines;
        assert(all =~= all_before.push(lines.last()));
        assert(keep_last(keep_last(all_before, MAX_LOG_LINES as nat).push(lines.last()),
            MAX_LOG_LINES as nat) =~= keep_last(all, MAX_LOG_LINES as nat));
    }
}

/// Paging down never moves the scroll offset past the last full page, and
/// paging up never moves it below the first line or further down.
pub proof fn lemma_scroll_clamped(s: AppState, page_height: usize)
    requires
        s.log_lines.len() <= usize::MAX,
    ensures
        s.log_page_down(page_height).log_scroll <= max_scroll(s.log_lines.len(), page_height),
        s.log_scroll <= max_scroll(s.log_lines.len(), page_height) ==> s.log_page_down(
            page_height,
        ).log_scroll >= s.log_scroll,
        0 <= s.log_page_up(page_height).log_scroll <= s.log_scroll,
        s.log_bottom(page_height).log_scroll == max_scroll(s.log_lines.len(), page_height),
{
}

/// Switching tabs twice comes back to the tab one started from.
pub proof fn lemma_tab_next_involutive(t: Tab)
    ensures
        t.next_spec().next_spec() == t,
{
}

} // verus!
