//! What the dashboard shows: the texts and figures that are derived from
//! the application state before a frame is drawn.

use vstd::prelude::*;
use vstd::string::*;
use crate::poller::{short_id, short_id_of};
use crate::state::{text_view, App, AppState, Mode, Tab};
use crate::summary::{container_name, container_ports, ContainerSummary, Endpoint, Mount,
    NetworkSummary};
use crate::text::{decimal, joined, lines_view, push_decimal, push_joined, str_eq};

verus! {

/// How the state of a container is toned in the table.
#[derive(Debug, Clone, Copy, PartialEq, Eq, Structural)]
pub enum Tone {
    Running,
    Stopped,
    Paused,
    Restarting,
    Created,
    Other,
}

/// The tone of a state string: `running`; `exited` and `dead` as stopped;
/// `paused`; `restarting`; `created`; and any other string as other.
pub open spec fn tone_of(state: Seq<char>) -> Tone {
    if state == "running"@ {
        Tone::Running
    } else if state == "exited"@ || state == "dead"@ {
        Tone::Stopped
    } else if state == "paused"@ {
        Tone::Paused
    } else if state == "restarting"@ {
        Tone::Restarting
    } else if state == "created"@ {
        Tone::Created
    } else {
        Tone::Other
    }
}

/// The tone in which a state string is shown.
pub fn state_tone(state: &str) -> (r: Tone)
    ensures
        r == tone_of(state@),
{
    if str_eq(state, "running") {
        Tone::Running
    } else if str_eq(state, "exited") || str_eq(state, "dead") {
        Tone::Stopped
    } else if str_eq(state, "paused") {
        Tone::Paused
    } else if str_eq(state, "restarting") {
        Tone::Restarting
    } else if str_eq(state, "created") {
        Tone::Created
    } else {
        Tone::Other
    }
}

/// The keys that the status bar offers in a mode, on a tab.
pub open spec fn hints_of(mode: Mode, tab: Tab) -> Seq<char> {
    match mode {
        Mode::Logs => "PgUp/PgDn: Scroll | g/G: Top/Bottom | Esc: Back"@,
        Mode::Detail => "Esc: Back | l: Logs | s: Start/Stop | x: Kill | r: Remove"@,
        Mode::Normal => match tab {
            Tab::Containers => "q: Quit | Tab: Switch | j/k: Navigate | Enter: Detail | l: Logs | s: Start/Stop | x: Kill | r: Remove"@,
            Tab::Networks => "q: Quit | Tab: Switch | j/k: Navigate"@,
        },
    }
}

/// The keys that the status bar offers.
pub fn key_hints(mode: Mode, tab: Tab) -> (r: &'static str)
    ensures
        r@ == hints_of(mode, tab),
{
    match mode {
        Mode::Logs => "PgUp/PgDn: Scroll | g/G: Top/Bottom | Esc: Back",
        Mode::Detail => "Esc: Back | l: Logs | s: Start/Stop | x: Kill | r: Remove",
        Mode::Normal => match tab {
            Tab::Containers => "q: Quit | Tab: Switch | j/k: Navigate | Enter: Detail | l: Logs | s: Start/Stop | x: Kill | r: Remove",
            Tab::Networks => "q: Quit | Tab: Switch | j/k: Navigate",
        },
    }
}

impl AppState {
    /// The text of the status bar: the status message, where there is one,
    /// then the keys of the current mode.
    pub open spec fn status_line(self) -> Seq<char> {
        match self.status_message {
            Some(message) => message + " | "@ + hints_of(self.mode, self.tab),
            None => hints_of(self.mode, self.tab),
        }
    }
}

/// The text of the status bar.
pub fn status_line(app: &App) -> (r: String)
    ensures
        r@ == app@.status_line(),
{
    let hints = key_hints(app.mode, app.tab);
    match &app.status_message {
        Some(message) => {
            let mut line = message.clone();
            line.append(" | ");
            line.append(hints);
            line
        },
        None => hints.to_owned(),
    }
}

/// The title of the log view while the stream runs, and after it has ended.
pub open spec fn log_title_of(streaming: bool) -> Seq<char> {
    if streaming {
        " Logs (streaming) - Esc to exit "@
    } else {
        " Logs (ended) - Esc to exit "@
    }
}

/// The title of the log view.
pub fn log_title(streaming: bool) -> (r: &'static str)
    ensures
        r@ == log_title_of(streaming),
{
    if streaming {
        " Logs (streaming) - Esc to exit "
    } else {
        " Logs (ended) - Esc to exit "
    }
}

/// The lines of the log that a view of `height` lines shows: from the scroll
/// offset on, as many as fit, and none beyond the buffer.
pub fn log_window(lines: usize, scroll: usize, height: usize) -> (window: (usize, usize))
    ensures
        window.0 == if scroll <= lines { scroll } else { lines },
        window.1 == if window.0 + height <= lines { (window.0 + height) as usize } else { lines },
        window.0 <= window.1 <= lines,
{
    let start = if scroll <= lines {
        scroll
    } else {
        lines
    };
    let end = if height <= lines - start {
        start + height
    } else {
        lines
    };
    (start, end)
}

/// The short form of an optional identity, empty where there is none.
pub open spec fn short_id_cell(id: Option<Seq<char>>) -> Seq<char> {
    match id {
        Some(id) => short_id_of(id),
        None => Seq::empty(),
    }
}

/// The identity as a table shows it: in its short form, or empty.
pub fn id_cell(id: &Option<String>) -> (r: &str)
    ensures
        r@ == short_id_cell(text_view(*id)),
{
    match id {
        Some(id) => short_id(id.as_str()),
        None => {
            proof {
                reveal_strlit("");
            }
            assert(""@ =~= Seq::<char>::empty());
            ""
        },
    }
}

/// The text of an optional value, or `default` where there is none.
pub open spec fn text_or(value: Option<String>, default: Seq<char>) -> Seq<char> {
    match value {
        Some(v) => v@,
        None => default,
    }
}

/// The text of an optional value, or `default` where there is none.
pub fn value_or<'a>(value: &'a Option<String>, default: &'a str) -> (r: &'a str)
    ensures
        r@ == text_or(*value, default@),
{
    match value {
        Some(v) => v.as_str(),
        None => default,
    }
}

/// The characters of the empty text.
pub open spec fn no_text() -> Seq<char> {
    Seq::empty()
}

/// The cells of a container in the table: name, status, image, ports and
/// short identity.
pub open spec fn container_cells_of(c: ContainerSummary) -> Seq<Seq<char>> {
    seq![
        c.display_name(),
        text_or(c.status, no_text()),
        text_or(c.image, no_text()),
        c.ports_text(),
        short_id_cell(text_view(c.id)),
    ]
}

/// The cells of a container in the table.
pub fn container_cells(c: &ContainerSummary) -> (cells: Vec<String>)
    ensures
        lines_view(cells@) == container_cells_of(*c),
{
    proof {
        reveal_strlit("");
        assert(""@ =~= no_text());
    }
    let mut cells: Vec<String> = Vec::new();
    cells.push(container_name(c));
    cells.push(value_or(&c.status, "").to_owned());
    cells.push(value_or(&c.image, "").to_owned());
    cells.push(container_ports(c));
    cells.push(id_cell(&c.id).to_owned());
    assert(lines_view(cells@) =~= container_cells_of(*c));
    cells
}

/// The number of containers that a network reports as attached.
pub open spec fn attached_count(n: NetworkSummary) -> nat {
    match n.containers {
        Some(containers) => containers@.len(),
        None => 0,
    }
}

/// The cells of a network in the table: name, driver, scope, the number of
/// attached containers and short identity.
pub open spec fn network_cells_of(n: NetworkSummary) -> Seq<Seq<char>> {
    seq![
        text_or(n.name, no_text()),
        text_or(n.driver, no_text()),
        text_or(n.scope, no_text()),
        decimal(attached_count(n)),
        short_id_cell(text_view(n.id)),
    ]
}

/// The cells of a network in the table.
pub fn network_cells(n: &NetworkSummary) -> (cells: Vec<String>)
    ensures
        lines_view(cells@) == network_cells_of(*n),
{
    proof {
        reveal_strlit("");
        assert(""@ =~= no_text());
    }
    let count: usize = match &n.containers {
        Some(containers) => containers.len(),
        None => 0,
    };
    let mut counted = String::new();
    push_decimal(&mut counted, count as u64);
    assert(counted@ =~= decimal(attached_count(*n)));
    let mut cells: Vec<String> = Vec::new();
    cells.push(value_or(&n.name, "").to_owned());
    cells.push(value_or(&n.driver, "").to_owned());
    cells.push(value_or(&n.scope, "").to_owned());
    cells.push(counted);
    cells.push(id_cell(&n.id).to_owned());
    assert(lines_view(cells@) =~= network_cells_of(*n));
    cells
}

/// What stands for a list that is not reported, or is empty.
pub open spec fn none_line() -> Seq<char> {
    "  (none)"@
}

/// The line of a label: indented, the key, an equals sign, the value.
pub open spec fn label_line(label: (String, String)) -> Seq<char> {
    "  "@ + label.0@ + "="@ + label.1@
}

/// The line of an attached network: indented, its name.
pub open spec fn network_line(name: String) -> Seq<char> {
    "  "@ + name@
}

/// The line of a mount: indented, the source, an arrow, the destination,
/// a question mark for what is not reported.
pub open spec fn mount_line(mount: Mount) -> Seq<char> {
    "  "@ + text_or(mount.source, "?"@) + " -> "@ + text_or(mount.destination, "?"@)
}

/// The labels of a container, one per line.
pub open spec fn labels_text(labels: Option<Vec<(String, String)>>) -> Seq<char> {
    match labels {
        Some(l) => joined(Seq::new(l@.len(), |i: int| label_line(l@[i])), "\n"@),
        None => none_line(),
    }
}

/// The networks of a container, one per line.
pub open spec fn networks_text(networks: Option<Vec<String>>) -> Seq<char> {
    match networks {
        Some(n) => joined(Seq::new(n@.len(), |i: int| network_line(n@[i])), "\n"@),
        None => none_line(),
    }
}

/// The mounts of a container, one per line.
pub open spec fn mounts_text(mounts: Option<Vec<Mount>>) -> Seq<char> {
    match mounts {
        Some(m) => joined(Seq::new(m@.len(), |i: int| mount_line(m@[i])), "\n"@),
        None => none_line(),
    }
}

/// What the detail pane says where a value is not reported.
pub open spec fn not_available() -> Seq<char> {
    "N/A"@
}

impl ContainerSummary {
    /// The text of the detail pane of a container: its identity, image,
    /// command, state, status and ports, one per line and each under its
    /// heading, then its labels, networks and mounts.
    pub open spec fn detail_text(&self) -> Seq<char> {
        "ID:       "@ + text_or(self.id, not_available())
            + "\nImage:    "@ + text_or(self.image, not_available())
            + "\nImageID:  "@ + text_or(self.image_id, not_available())
            + "\nCommand:  "@ + text_or(self.command, not_available())
            + "\nState:    "@ + text_or(self.state, not_available())
            + "\nStatus:   "@ + text_or(self.status, not_available())
            + "\nPorts:    "@ + self.ports_text()
            + "\n\nLabels:\n"@ + labels_text(self.labels)
            + "\n\nNetworks:\n"@ + networks_text(self.networks)
            + "\n\nMounts:\n"@ + mounts_text(self.mounts)
    }
}

/// Appends the labels of a container to `out`, one per line.
fn push_labels(out: &mut String, labels: &Option<Vec<(String, String)>>)
    ensures
        final(out)@ == old(out)@ + labels_text(*labels),
{
    match labels {
        Some(l) => {
            let ghost wanted = Seq::new(l@.len(), |i: int| label_line(l@[i]));
            let mut lines: Vec<String> = Vec::new();
            let mut i: usize = 0;
            while i < l.len()
                invariant
                    i <= l@.len(),
                    wanted == Seq::new(l@.len(), |i: int| label_line(l@[i])),
                    lines_view(lines@) == wanted.take(i as int),
                decreases l@.len() - i,
            {
                let mut line = "  ".to_owned();
                line.append(l[i].0.as_str());
                line.append("=");
                line.append(l[i].1.as_str());
                assert(line@ == wanted[i as int]);
                let ghost built = lines@;
                lines.push(line);
                assert(lines_view(lines@) =~= lines_view(built).push(wanted[i as int]));
                assert(wanted.take(i + 1) =~= wanted.take(i as int).push(wanted[i as int]));
                i = i + 1;
            }
            assert(wanted.take(l@.len() as int) =~= wanted);
            push_joined(out, &lines, "\n");
        },
        None => {
            out.append("  (none)");
        },
    }
}

/// Appends the networks of a container to `out`, one per line.
fn push_networks(out: &mut String, networks: &Option<Vec<String>>)
    ensures
        final(out)@ == old(out)@ + networks_text(*networks),
{
    match networks {
        Some(n) => {
            let ghost wanted = Seq::new(n@.len(), |i: int| network_line(n@[i]));
            let mut lines: Vec<String> = Vec::new();
            let mut i: usize = 0;
            while i < n.len()
                invariant
                    i <= n@.len(),
                    wanted == Seq::new(n@.len(), |i: int| network_line(n@[i])),
                    lines_view(lines@) == wanted.take(i as int),
                decreases n@.len() - i,
            {
                let mut line = "  ".to_owned();
                line.append(n[i].as_str());
                assert(line@ == wanted[i as int]);
                let ghost built = lines@;
                lines.push(line);
                assert(lines_view(lines@) =~= lines_view(built).push(wanted[i as int]));
                assert(wanted.take(i + 1) =~= wanted.take(i as int).push(wanted[i as int]));
                i = i + 1;
            }
            assert(wanted.take(n@.len() as int) =~= wanted);
            push_joined(out, &lines, "\n");
        },
        None => {
            out.append("  (none)");
        },
    }
}

/// Appends the mounts of a container to `out`, one per line.
fn push_mounts(out: &mut String, mounts: &Option<Vec<Mount>>)
    ensures
        final(out)@ == old(out)@ + mounts_text(*mounts),
{
    match mounts {
        Some(m) => {
            let ghost wanted = Seq::new(m@.len(), |i: int| mount_line(m@[i]));
            let mut lines: Vec<String> = Vec::new();
            let mut i: usize = 0;
            while i < m.len()
                invariant
                    i <= m@.len(),
                    wanted == Seq::new(m@.len(), |i: int| mount_line(m@[i])),
                    lines_view(lines@) == wanted.take(i as int),
                decreases m@.len() - i,
            {
                let mut line = "  ".to_owned();
                line.append(value_or(&m[i].source, "?"));
                line.append(" -> ");
                line.append(value_or(&m[i].destination, "?"));
                assert(line@ == wanted[i as int]);
                let ghost built = lines@;
                lines.push(line);
                assert(lines_view(lines@) =~= lines_view(built).push(wanted[i as int]));
                assert(wanted.take(i + 1) =~= wanted.take(i as int).push(wanted[i as int]));
                i = i + 1;
            }
            assert(wanted.take(m@.len() as int) =~= wanted);
            push_joined(out, &lines, "\n");
        },
        None => {
            out.append("  (none)");
        },
    }
}

/// The text of the detail pane of a container.
pub fn container_detail(c: &ContainerSummary) -> (r: String)
    ensures
        r@ == c.detail_text(),
{
    let mut out = "ID:       ".to_owned();
    out.append(value_or(&c.id, "N/A"));
    out.append("\nImage:    ");
    out.append(value_or(&c.image, "N/A"));
    out.append("\nImageID:  ");
    out.append(value_or(&c.image_id, "N/A"));
    out.append("\nCommand:  ");
    out.append(value_or(&c.command, "N/A"));
    out.append("\nState:    ");
    out.append(value_or(&c.state, "N/A"));
    out.append("\nStatus:   ");
    out.append(value_or(&c.status, "N/A"));
    out.append("\nPorts:    ");
    let ports = container_ports(c);
    out.append(ports.as_str());
    out.append("\n\nLabels:\n");
    push_labels(&mut out, &c.labels);
    out.append("\n\nNetworks:\n");
    push_networks(&mut out, &c.networks);
    out.append("\n\nMounts:\n");
    push_mounts(&mut out, &c.mounts);
    out
}

/// What the detail pane says where no container is selected.
pub open spec fn no_container_selected() -> Seq<char> {
    "No container selected"@
}

impl AppState {
    /// The text of the detail pane: that of the selected container, or a
    /// notice where none is selected.
    pub open spec fn detail_text(self) -> Seq<char> {
        match self.selected_container() {
            Some(c) => c.detail_text(),
            None => no_container_selected(),
        }
    }
}

/// The text of the detail pane.
pub fn detail_text(app: &App) -> (r: String)
    ensures
        r@ == app@.detail_text(),
{
    match app.selected_container() {
        Some(c) => container_detail(c),
        None => "No container selected".to_owned(),
    }
}

/// The line of an attached container: indented, its name, or `unnamed`, and
/// its short identity in brackets.
pub open spec fn endpoint_line(endpoint: Endpoint) -> Seq<char> {
    "  "@ + text_or(endpoint.name, "unnamed"@) + " ("@ + short_id_of(endpoint.container_id@)
        + ")"@
}

/// The containers attached to a network, one per line.
pub open spec fn attached_text(containers: Option<Vec<Endpoint>>) -> Seq<char> {
    match containers {
        Some(c) => if c@.len() == 0 {
            none_line()
        } else {
            joined(Seq::new(c@.len(), |i: int| endpoint_line(c@[i])), "\n"@)
        },
        None => none_line(),
    }
}

impl NetworkSummary {
    /// The text of the detail pane of a network: the containers that are
    /// attached to it, under their heading.
    pub open spec fn detail_text(&self) -> Seq<char> {
        "Connected Containers:\n"@ + attached_text(self.containers)
    }
}

/// Appends the containers attached to a network to `out`, one per line.
fn push_attached(out: &mut String, containers: &Option<Vec<Endpoint>>)
    ensures
        final(out)@ == old(out)@ + attached_text(*containers),
{
    match containers {
        Some(c) => {
            if c.len() == 0 {
                out.append("  (none)");
            } else {
                let ghost wanted = Seq::new(c@.len(), |i: int| endpoint_line(c@[i]));
                let mut lines: Vec<String> = Vec::new();
                let mut i: usize = 0;
                while i < c.len()
                    invariant
                        i <= c@.len(),
                        wanted == Seq::new(c@.len(), |i: int| endpoint_line(c@[i])),
                        lines_view(lines@) == wanted.take(i as int),
                    decreases c@.len() - i,
                {
                    let mut line = "  ".to_owned();
                    line.append(value_or(&c[i].name, "unnamed"));
                    line.append(" (");
                    line.append(short_id(c[i].container_id.as_str()));
                    line.append(")");
                    assert(line@ == wanted[i as int]);
                    let ghost built = lines@;
                    lines.push(line);
                    assert(lines_view(lines@) =~= lines_view(built).push(wanted[i as int]));
                    assert(wanted.take(i + 1) =~= wanted.take(i as int).push(wanted[i as int]));
                    i = i + 1;
                }
                assert(wanted.take(c@.len() as int) =~= wanted);
                push_joined(out, &lines, "\n");
            }
        },
        None => {
            out.append("  (none)");
        },
    }
}

/// The text of the detail pane of a network.
pub fn network_detail(n: &NetworkSummary) -> (r: String)
    ensures
        r@ == n.detail_text(),
{
    let mut out = "Connected Containers:\n".to_owned();
    push_attached(&mut out, &n.containers);
    out
}

/// What the detail pane says where no network is selected.
pub open spec fn no_network_selected() -> Seq<char> {
    "No network selected"@
}

impl AppState {
    /// The network under the cursor.
    pub open spec fn selected_network(self) -> Option<NetworkSummary> {
        match self.network_selected {
            Some(i) => if i < self.networks.len() {
                Some(self.networks[i as int])
            } else {
                None
            },
            None => None,
        }
    }

    /// The text of the network detail pane: that of the selected network,
    /// or a notice where none is selected.
    pub open spec fn network_detail_text(self) -> Seq<char> {
        match self.selected_network() {
            Some(n) => n.detail_text(),
            None => no_network_selected(),
        }
    }
}

/// The text of the network detail pane.
pub fn network_detail_text(app: &App) -> (r: String)
    ensures
        r@ == app@.network_detail_text(),
{
    let selected = match app.network_selected {
        Some(i) => if i < app.networks.len() {
            Some(&app.networks[i])
        } else {
            None
        },
        None => None,
    };
    match selected {
        Some(n) => network_detail(n),
        None => "No network selected".to_owned(),
    }
}

} // verus!
