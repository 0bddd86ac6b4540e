//! The decisions of the background poller: what it asks of the runtime on
//! each tick and for each action, what it reports back, and how it keeps at
//! most one log stream open.

use vstd::prelude::*;
use vstd::string::*;
use vstd::utf8::*;
use crate::protocol::{events_view, ActionView, DockerAction, DockerEvent, EventView};
use crate::summary::{ContainerSummary, NetworkSummary};
use crate::text::{lines_of, lines_view, split_lines};

verus! {

/// The number of bytes of an identity that its short form keeps.
pub const SHORT_ID_LEN: usize = 12;

/// The last character boundary of `bytes` at or before `k`.
pub open spec fn last_boundary(bytes: Seq<u8>, k: int) -> int
    decreases k,
{
    if k <= 0 {
        0
    } else if is_char_boundary(bytes, k) {
        k
    } else {
        last_boundary(bytes, k - 1)
    }
}

/// The number of bytes that the short form of an identity has: all of them
/// where there are at most twelve, else twelve, or fewer where the twelfth
/// byte ends inside a character.
pub open spec fn short_len(bytes: Seq<u8>) -> int {
    if bytes.len() <= SHORT_ID_LEN {
        bytes.len() as int
    } else {
        last_boundary(bytes, SHORT_ID_LEN as int)
    }
}

/// The short form of an identity: its first twelve bytes.
pub open spec fn short_id_of(id: Seq<char>) -> Seq<char> {
    let bytes = encode_utf8(id);
    decode_utf8(bytes.take(short_len(bytes)))
}

/// The short form of an identity made of ASCII characters, as the runtime
/// issues them, is its first twelve characters.
pub proof fn lemma_short_id_ascii(id: Seq<char>)
    requires
        is_ascii_chars(id),
    ensures
        short_id_of(id) == if id.len() > SHORT_ID_LEN {
            id.take(SHORT_ID_LEN as int)
        } else {
            id
        },
{
    let bytes = encode_utf8(id);
    is_ascii_chars_encode_utf8(id);
    encode_utf8_valid_utf8(id);
    if id.len() > SHORT_ID_LEN {
        let b = bytes[12];
        assert(b == id[12] as u8);
        assert(b < 128);
        assert(b & 0xC0 != 0x80) by (bit_vector)
            requires
                b < 128,
        ;
        is_char_boundary_iff_not_is_continuation_byte(bytes, 12);
        assert(short_len(bytes) == 12);
        let head = id.take(12);
        assert(is_ascii_chars(head));
        is_ascii_chars_encode_utf8(head);
        assert(encode_utf8(head) =~= bytes.take(12));
        encode_utf8_decode_utf8(head);
    } else {
        assert(bytes.take(bytes.len() as int) =~= bytes);
        encode_utf8_decode_utf8(id);
    }
}

/// The short form of an identity, for display.
pub fn short_id(id: &str) -> (r: &str)
    ensures
        r@ == short_id_of(id@),
{
    let ghost bytes = id.spec_bytes();
    proof {
        encode_utf8_valid_utf8(id@);
        encode_utf8_decode_utf8(id@);
    }
    if id.as_bytes().len() > SHORT_ID_LEN {
        let mut k: usize = SHORT_ID_LEN;
        while !id.is_char_boundary(k)
            invariant
                k <= SHORT_ID_LEN,
                bytes == id.spec_bytes(),
                valid_utf8(bytes),
                SHORT_ID_LEN < bytes.len(),
                last_boundary(bytes, SHORT_ID_LEN as int) == last_boundary(bytes, k as int),
            decreases k,
        {
            k = k - 1;
        }
        let (head, _) = id.split_at(k);
        proof {
            assert(head.spec_bytes() =~= bytes.take(k as int));
            encode_utf8_decode_utf8(head@);
        }
        head
    } else {
        proof {
            assert(bytes.take(bytes.len() as int) =~= bytes);
        }
        id
    }
}

/// The seconds between two polls of the runtime.
pub const POLL_INTERVAL_SECS: u64 = 2;

/// The number of recent lines with which a log stream begins.
pub const LOG_TAIL_LINES: u32 = 200;

/// A lifecycle operation on a container.
#[derive(Debug, Clone, Copy, PartialEq, Eq, Structural)]
pub enum Operation {
    Start,
    Stop,
    Kill,
    Remove,
}

impl Operation {
    /// How the message of a success begins.
    pub open spec fn done_prefix(self) -> Seq<char> {
        match self {
            Operation::Start => "Started container "@,
            Operation::Stop => "Stopped container "@,
            Operation::Kill => "Killed container "@,
            Operation::Remove => "Removed container "@,
        }
    }

    /// How the message of a failure begins.
    pub open spec fn failed_prefix(self) -> Seq<char> {
        match self {
            Operation::Start => "Start failed: "@,
            Operation::Stop => "Stop failed: "@,
            Operation::Kill => "Kill failed: "@,
            Operation::Remove => "Remove failed: "@,
        }
    }
}

/// The error text of an outcome, as characters.
pub open spec fn outcome_view(outcome: Result<(), String>) -> Result<(), Seq<char>> {
    match outcome {
        Ok(_) => Ok(()),
        Err(e) => Err(e@),
    }
}

/// The message that reports the outcome of an operation on the container
/// `id`: a success names the container by its short identity, a failure
/// carries the error of the runtime.
pub open spec fn result_message(
    operation: Operation,
    id: Seq<char>,
    outcome: Result<(), Seq<char>>,
) -> Seq<char> {
    match outcome {
        Ok(_) => operation.done_prefix() + short_id_of(id),
        Err(error) => operation.failed_prefix() + error,
    }
}

/// The event that reports the outcome of an operation. Every operation is
/// reported by exactly one such event.
pub fn action_result(operation: Operation, id: &str, outcome: Result<(), String>) -> (event:
    DockerEvent)
    ensures
        event@ == (EventView::ActionResult {
            success: outcome is Ok,
            message: result_message(operation, id@, outcome_view(outcome)),
        }),
{
    match outcome {
        Ok(_) => {
            let prefix = match operation {
                Operation::Start => "Started container ",
                Operation::Stop => "Stopped container ",
                Operation::Kill => "Killed container ",
                Operation::Remove => "Removed container ",
            };
            let mut message = prefix.to_owned();
            message.append(short_id(id));
            DockerEvent::ActionResult { success: true, message }
        },
        Err(error) => {
            let prefix = match operation {
                Operation::Start => "Start failed: ",
                Operation::Stop => "Stop failed: ",
                Operation::Kill => "Kill failed: ",
                Operation::Remove => "Remove failed: ",
            };
            let mut message = prefix.to_owned();
            message.append(error.as_str());
            DockerEvent::ActionResult { success: false, message }
        },
    }
}

/// How the message of a failed connection begins.
pub open spec fn connect_failed_prefix() -> Seq<char> {
    "Failed to connect to Docker: "@
}

/// The event that reports that the runtime could not be reached. After it
/// the poller ends.
pub fn connection_failed(error: &str) -> (event: DockerEvent)
    ensures
        event@ == (EventView::ActionResult {
            success: false,
            message: connect_failed_prefix() + error@,
        }),
{
    let mut message = "Failed to connect to Docker: ".to_owned();
    message.append(error);
    DockerEvent::ActionResult { success: false, message }
}

/// The event for a container poll: a snapshot where the runtime answered,
/// nothing where it failed. A failed poll is retried with the next tick and
/// not reported.
pub fn containers_listed(outcome: Result<Vec<ContainerSummary>, String>) -> (event: Option<
    DockerEvent,
>)
    ensures
        match outcome {
            Ok(rows) => event matches Some(e) && e@ == EventView::ContainersUpdated(rows@),
            Err(_) => event is None,
        },
{
    match outcome {
        Ok(rows) => Some(DockerEvent::ContainersUpdated(rows)),
        Err(_) => None,
    }
}

/// The event for a network poll: a snapshot where the runtime answered,
/// nothing where it failed.
pub fn networks_listed(outcome: Result<Vec<NetworkSummary>, String>) -> (event: Option<
    DockerEvent,
>)
    ensures
        match outcome {
            Ok(rows) => event matches Some(e) && e@ == EventView::NetworksUpdated(rows@),
            Err(_) => event is None,
        },
{
    match outcome {
        Ok(rows) => Some(DockerEvent::NetworksUpdated(rows)),
        Err(_) => None,
    }
}

/// The signal that kills a container.
pub const KILL_SIGNAL: &'static str = "SIGKILL";

/// Whether a removal also removes a container that runs.
pub const REMOVE_FORCED: bool = true;

/// What the poller asks of a log stream: to follow the combined output of a
/// container from a bounded tail.
#[derive(Debug)]
pub struct LogRequest {
    pub container_id: String,
    pub follow: bool,
    pub stdout: bool,
    pub stderr: bool,
    pub tail: u32,
}

/// A call that the poller has its driver make. The driver performs it and
/// hands the outcome back.
#[derive(Debug)]
pub enum Request {
    /// List the containers, stopped ones included where `all` is set.
    ListContainers { all: bool },
    /// List the networks.
    ListNetworks,
    /// Run a lifecycle operation: a kill sends `KILL_SIGNAL`, a removal is
    /// forced as `REMOVE_FORCED` says.
    Run { operation: Operation, id: String },
    /// Start the log sub-task.
    OpenLogStream(LogRequest),
    /// Cancel the log sub-task.
    CancelLogStream,
}

/// What a request says.
pub enum RequestView {
    ListContainers { all: bool },
    ListNetworks,
    Run { operation: Operation, id: Seq<char> },
    OpenLogStream { container_id: Seq<char>, follow: bool, stdout: bool, stderr: bool, tail: u32 },
    CancelLogStream,
}

impl View for Request {
    type V = RequestView;

    open spec fn view(&self) -> RequestView {
        match self {
            Request::ListContainers { all } => RequestView::ListContainers { all: *all },
            Request::ListNetworks => RequestView::ListNetworks,
            Request::Run { operation, id } => RequestView::Run { operation: *operation, id: id@ },
            Request::OpenLogStream(r) => RequestView::OpenLogStream {
                container_id: r.container_id@,
                follow: r.follow,
                stdout: r.stdout,
                stderr: r.stderr,
                tail: r.tail,
            },
            Request::CancelLogStream => RequestView::CancelLogStream,
        }
    }
}

/// What each request of a list says.
pub open spec fn requests_view(requests: Seq<Request>) -> Seq<RequestView> {
    Seq::new(requests.len(), |i: int| requests[i]@)
}

/// The request that follows the log of a container: both output streams,
/// from the last `LOG_TAIL_LINES` lines on.
pub open spec fn follow_logs(container_id: Seq<char>) -> RequestView {
    RequestView::OpenLogStream {
        container_id,
        follow: true,
        stdout: true,
        stderr: true,
        tail: LOG_TAIL_LINES,
    }
}

/// What the poller asks on each tick: the full container list and the
/// network list, each on its own.
pub open spec fn tick_requests() -> Seq<RequestView> {
    seq![RequestView::ListContainers { all: true }, RequestView::ListNetworks]
}

/// The poller. It owns the connection to the runtime and at most one log
/// sub-task; `stream_open` says whether it has started one that it has not
/// cancelled.
#[derive(Debug, Clone, Copy, PartialEq, Eq, Structural)]
pub struct Poller {
    pub stream_open: bool,
}

impl Poller {
    /// The requests with which the poller answers an action. A lifecycle
    /// action runs its operation. A new log stream supersedes the one that
    /// is open: that one is cancelled first. Stopping the stream cancels it
    /// where one is open.
    pub open spec fn requests_for(self, action: ActionView) -> Seq<RequestView> {
        match action {
            ActionView::Start(id) => seq![RequestView::Run { operation: Operation::Start, id }],
            ActionView::Stop(id) => seq![RequestView::Run { operation: Operation::Stop, id }],
            ActionView::Kill(id) => seq![RequestView::Run { operation: Operation::Kill, id }],
            ActionView::Remove(id) => seq![RequestView::Run { operation: Operation::Remove, id }],
            ActionView::StreamLogs { container_id } => if self.stream_open {
                seq![RequestView::CancelLogStream, follow_logs(container_id)]
            } else {
                seq![follow_logs(container_id)]
            },
            ActionView::StopLogStream => if self.stream_open {
                seq![RequestView::CancelLogStream]
            } else {
                Seq::empty()
            },
        }
    }

    /// The poller after an action.
    pub open spec fn after(self, action: ActionView) -> Poller {
        match action {
            ActionView::StreamLogs { container_id } => Poller { stream_open: true },
            ActionView::StopLogStream => Poller { stream_open: false },
            _ => self,
        }
    }

    /// The poller as it starts: no log stream is open.
    pub fn new() -> (poller: Poller)
        ensures
            !poller.stream_open,
    {
        Poller { stream_open: false }
    }

    /// What to ask of the runtime when the poll timer fires.
    pub fn on_tick(&self) -> (requests: Vec<Request>)
        ensures
            requests_view(requests@) == tick_requests(),
    {
        let mut requests = Vec::new();
        requests.push(Request::ListContainers { all: true });
        requests.push(Request::ListNetworks);
        assert(requests_view(requests@) =~= tick_requests());
        requests
    }

    /// What to ask of the runtime for an action from the view.
    pub fn on_action(&mut self, action: DockerAction) -> (requests: Vec<Request>)
        ensures
            requests_view(requests@) == old(self).requests_for(action@),
            *final(self) == old(self).after(action@),
    {
        let mut requests = Vec::new();
        match action {
            DockerAction::Start(id) => {
                requests.push(Request::Run { operation: Operation::Start, id });
            },
            DockerAction::Stop(id) => {
                requests.push(Request::Run { operation: Operation::Stop, id });
            },
            DockerAction::Kill(id) => {
                requests.push(Request::Run { operation: Operation::Kill, id });
            },
            DockerAction::Remove(id) => {
                requests.push(Request::Run { operation: Operation::Remove, id });
            },
            DockerAction::StreamLogs { container_id } => {
                if self.stream_open {
                    requests.push(Request::CancelLogStream);
                }
                requests.push(
                    Request::OpenLogStream(
                        LogRequest {
                            container_id,
                            follow: true,
                            stdout: true,
                            stderr: true,
                            tail: LOG_TAIL_LINES,
                        },
                    ),
                );
                self.stream_open = true;
            },
            DockerAction::StopLogStream => {
                if self.stream_open {
                    requests.push(Request::CancelLogStream);
                }
                self.stream_open = false;
            },
        }
        assert(requests_view(requests@) =~= old(self).requests_for(action@));
        requests
    }
}

/// The number of log sub-tasks that run after the driver has performed
/// `requests`, where `before` ran before: opening starts one more, and a
/// cancellation ends what runs.
pub open spec fn streams_running(before: nat, requests: Seq<RequestView>) -> nat
    decreases requests.len(),
{
    if requests.len() == 0 {
        before
    } else {
        let sofar = streams_running(before, requests.drop_last());
        match requests.last() {
            RequestView::OpenLogStream { .. } => sofar + 1,
            RequestView::CancelLogStream => 0,
            _ => sofar,
        }
    }
}

/// The number of log sub-tasks that the poller accounts for.
pub open spec fn streams_of(poller: Poller) -> nat {
    if poller.stream_open {
        1
    } else {
        0
    }
}

/// The poller keeps at most one log sub-task: whatever the action, after its
/// requests are performed there run as many sub-tasks as the poller accounts
/// for, none or one.
pub proof fn lemma_at_most_one_stream(poller: Poller, action: ActionView)
    ensures
        streams_running(streams_of(poller), poller.requests_for(action)) == streams_of(
            poller.after(action),
        ),
        streams_of(poller.after(action)) <= 1,
{
    let requests = poller.requests_for(action);
    reveal_with_fuel(streams_running, 3);
    if requests.len() == 2 {
        assert(requests.drop_last().drop_last() =~= Seq::empty());
    } else if requests.len() == 1 {
        assert(requests.drop_last() =~= Seq::empty());
    }
}

/// What a read from the log stream of the runtime gave.
#[derive(Debug)]
pub enum StreamRead {
    /// A chunk of output.
    Chunk(String),
    /// The read failed.
    Failed,
    /// The runtime closed the stream.
    Closed,
}

/// What a stream read says.
pub enum StreamReadView {
    Chunk(Seq<char>),
    Failed,
    Closed,
}

impl View for StreamRead {
    type V = StreamReadView;

    open spec fn view(&self) -> StreamReadView {
        match self {
            StreamRead::Chunk(text) => StreamReadView::Chunk(text@),
            StreamRead::Failed => StreamReadView::Failed,
            StreamRead::Closed => StreamReadView::Closed,
        }
    }
}

/// One log-line event for each line, in the order of the lines.
pub open spec fn line_events(lines: Seq<Seq<char>>) -> Seq<EventView> {
    Seq::new(lines.len(), |i: int| EventView::LogLine(lines[i]))
}

/// The events that the log sub-task emits for a read, in their order: one
/// per line of a chunk, or the end of the stream for a failure or a close.
pub open spec fn stream_events(read: StreamReadView) -> Seq<EventView> {
    match read {
        StreamReadView::Chunk(text) => line_events(split_lines(text)),
        _ => seq![EventView::LogStreamEnded],
    }
}

/// Whether the log sub-task ends with a read: it goes on after a chunk and
/// ends after a failure or a close.
pub open spec fn stream_finished(read: StreamReadView) -> bool {
    !(read is Chunk)
}

/// What the log sub-task does with one read: the events to emit, in order,
/// and whether the sub-task is finished. The end of the stream is emitted
/// once, with the read that finishes the sub-task.
pub fn log_stream_step(read: StreamRead) -> (step: (Vec<DockerEvent>, bool))
    ensures
        events_view(step.0@) == stream_events(read@),
        step.1 == stream_finished(read@),
{
    let mut events: Vec<DockerEvent> = Vec::new();
    match read {
        StreamRead::Chunk(text) => {
            let lines = lines_of(text.as_str());
            let ghost all = lines@;
            for line in it: lines
                invariant
                    it.seq() == all,
                    events_view(events@) == line_events(lines_view(all).take(it.index() as int)),
            {
                let ghost before = events@;
                events.push(DockerEvent::LogLine(line));
                assert(events_view(events@) =~= events_view(before).push(EventView::LogLine(line@)));
                assert(line_events(lines_view(all).take(it.index() + 1)) =~= line_events(
                    lines_view(all).take(it.index() as int),
                ).push(EventView::LogLine(line@)));
            }
            assert(lines_view(all).take(all.len() as int) =~= lines_view(all));
            (events, false)
        },
        _ => {
            events.push(DockerEvent::LogStreamEnded);
            assert(events_view(events@) =~= seq![EventView::LogStreamEnded]);
            (events, true)
        },
    }
}

} // verus!
