//! The connection forwarder: what is read from a client, which backend it is
//! sent to, and the steps by which request and response are relayed.
//!
//! The routing key of a request is the address of the client that sent it,
//! so a client stays with one backend for as long as the ring is unchanged.
//! A request is forwarded once: when the backend cannot be reached or fails
//! midway, the client's connection is closed without a response. There is
//! no retry and no failover to another backend.

use vstd::prelude::*;
use vstd::std_specs::iter::IteratorSpec;
use vstd::string::*;
use crate::error::WorkerError;
use crate::hashing::key_position;
use crate::message::Message;
use crate::pool::ThreadPool;
use crate::ring::route;

verus! {

/// Whether the first line of `text` ends at `index`: that is where its first
/// line feed stands.
pub open spec fn is_line_end(text: Seq<char>, index: int) -> bool {
    &&& 0 <= index < text.len()
    &&& text[index] == '\n'
    &&& forall|j: int| 0 <= j < index ==> text[j] != '\n'
}

/// Whether `text` holds a complete line.
pub open spec fn has_line(text: Seq<char>) -> bool {
    exists|index: int| 0 <= index < text.len() && text[index] == '\n'
}

/// `line` without the carriage return at its end, if it has one.
pub open spec fn strip_cr(line: Seq<char>) -> Seq<char> {
    if line.len() > 0 && line.last() == '\r' {
        line.drop_last()
    } else {
        line
    }
}

/// The line of `text` that ends at `end`, without its terminator.
pub open spec fn line_before(text: Seq<char>, end: int) -> Seq<char> {
    strip_cr(text.subrange(0, end))
}

/// The index of the first line feed in `text`.
fn find_line_end(text: &str) -> (found: Option<usize>)
    ensures
        match found {
            Some(index) => is_line_end(text@, index as int),
            None => !has_line(text@),
        },
{
    let length: usize = text.unicode_len();
    let mut chars = text.chars();
    let mut index: usize = 0;
    while index < length
        invariant
            length == text@.len(),
            index <= length,
            chars.obeys_prophetic_iter_laws(),
            chars.remaining() == text@.skip(index as int),
            forall|j: int| 0 <= j < index ==> text@[j] != '\n',
        decreases length - index,
    {
        let ghost before = chars.remaining();
        match chars.next() {
            Some(c) => {
                assert(c == text@[index as int]);
                if c == '\n' {
                    return Some(index);
                }
            },
            None => {},
        }
        assert(before.drop_first() =~= text@.skip(index + 1));
        index = index + 1;
    }
    None
}

/// Takes the request line out of what was received from a client: the text
/// before the first line feed, without a carriage return at its end. Text
/// without a line feed means that the client closed its connection before a
/// full line had arrived.
pub fn read_request_line(received: &str) -> (line: Result<String, WorkerError>)
    ensures
        match line {
            Ok(line) => exists|end: int|
                is_line_end(received@, end) && line@ == line_before(received@, end),
            Err(error) => !has_line(received@) && (error matches WorkerError::ProtocolError(msg)
                && msg@ == "Connection closed before a full request line was received"@),
        },
{
    match find_line_end(received) {
        None => Err(
            WorkerError::ProtocolError(
                "Connection closed before a full request line was received".to_owned(),
            ),
        ),
        Some(end) => {
            let stripped: usize = if end > 0 && received.get_char(end - 1) == '\r' {
                end - 1
            } else {
                end
            };
            let line: &str = received.substring_char(0, stripped);
            proof {
                let whole = received@.subrange(0, end as int);
                if end > 0 {
                    assert(whole.last() == received@[end - 1]);
                }
                assert(received@.subrange(0, stripped as int) =~= strip_cr(whole));
            }
            Ok(line.to_owned())
        },
    }
}

/// Prepares one client request for forwarding: reads the request line from
/// `received`, routes the client's address on the pool's ring, and resolves
/// the chosen worker to its address in `worker_list`.
pub fn handle_connection<J>(
    pool: &ThreadPool<J>,
    worker_list: &Vec<String>,
    received: &str,
    client_addr: &str,
) -> (prepared: Result<Message, WorkerError>)
    requires
        pool.wf(),
        pool.size() <= worker_list@.len(),
    ensures
        match prepared {
            Ok(message) => {
                &&& exists|end: int|
                    is_line_end(received@, end) && message.message@ == line_before(
                        received@,
                        end,
                    )
                &&& message.worker_addr@ == worker_list@[route(
                    pool.ring(),
                    key_position(client_addr@),
                ) as int]@
                &&& message.client_addr@ == client_addr@
            },
            Err(error) => !has_line(received@) && (error matches WorkerError::ProtocolError(msg)
                && msg@ == "Connection closed before a full request line was received"@),
        },
{
    match read_request_line(received) {
        Err(error) => Err(error),
        Ok(line) => {
            let worker_id: usize = pool.get_worker_for_request(client_addr);
            let worker_addr: String = worker_list[worker_id].clone();
            Ok(Message { message: line, worker_addr, client_addr: client_addr.to_owned() })
        },
    }
}

/// How far the forwarding of one request has come.
#[derive(Debug, Clone, Copy, PartialEq, Eq)]
pub enum ForwardStage {
    /// The connection to the backend is being opened.
    Connecting,
    /// The request is being written to the backend.
    Sending,
    /// The backend connection is being flushed.
    Flushing,
    /// The response is being read until the backend closes its side.
    Receiving,
    /// The response is being written back to the client.
    Replying,
    /// Nothing is left to do; the client's connection is closed.
    Closed,
}

/// What the outside world reports after carrying out an action.
#[derive(Debug)]
pub enum ForwardEvent {
    /// The backend accepted the connection.
    Connected,
    /// The whole request was written.
    Sent,
    /// The backend connection was flushed.
    Flushed,
    /// The backend closed its side; these are all the bytes it wrote.
    Response(Vec<u8>),
    /// The whole response was written to the client.
    Replied,
    /// The action failed; the text says how.
    Failed(String),
}

/// What is to be done next for a request.
#[derive(Debug)]
pub enum ForwardAction {
    /// Open a connection to the backend at this address.
    Connect(String),
    /// Write this request text, verbatim, to the backend.
    Write(String),
    /// Flush the backend connection.
    Flush,
    /// Read from the backend until it closes its side.
    ReadToEnd,
    /// Write these bytes, verbatim, to the client.
    Reply(Vec<u8>),
    /// Close the client's connection: the request has been served.
    Close,
    /// Close the client's connection without a response.
    Abort(WorkerError),
}

/// An event, as contracts see it.
pub enum EventView {
    Connected,
    Sent,
    Flushed,
    Response(Seq<u8>),
    Replied,
    Failed(Seq<char>),
}

/// An action, as contracts see it.
pub enum ActionView {
    Connect(Seq<char>),
    Write(Seq<char>),
    Flush,
    ReadToEnd,
    Reply(Seq<u8>),
    Close,
    /// Abort with `CannotConnectToWorker` and this text.
    Unreachable(Seq<char>),
    /// Abort with `ProtocolError` and this text.
    Rejected(Seq<char>),
    /// Abort with `Other` and this text.
    Broken(Seq<char>),
}

impl View for ForwardEvent {
    type V = EventView;

    open spec fn view(&self) -> EventView {
        match self {
            ForwardEvent::Connected => EventView::Connected,
            ForwardEvent::Sent => EventView::Sent,
            ForwardEvent::Flushed => EventView::Flushed,
            ForwardEvent::Response(bytes) => EventView::Response(bytes@),
            ForwardEvent::Replied => EventView::Replied,
            ForwardEvent::Failed(info) => EventView::Failed(info@),
        }
    }
}

impl View for ForwardAction {
    type V = ActionView;

    open spec fn view(&self) -> ActionView {
        match self {
            ForwardAction::Connect(addr) => ActionView::Connect(addr@),
            ForwardAction::Write(payload) => ActionView::Write(payload@),
            ForwardAction::Flush => ActionView::Flush,
            ForwardAction::ReadToEnd => ActionView::ReadToEnd,
            ForwardAction::Reply(bytes) => ActionView::Reply(bytes@),
            ForwardAction::Close => ActionView::Close,
            ForwardAction::Abort(WorkerError::CannotConnectToWorker(msg)) => ActionView::Unreachable(
                msg@,
            ),
            ForwardAction::Abort(WorkerError::ProtocolError(msg)) => ActionView::Rejected(msg@),
            ForwardAction::Abort(WorkerError::Other(msg)) => ActionView::Broken(msg@),
        }
    }
}

/// Text of the error for a backend that could not be reached or used.
pub open spec fn unreachable_text(worker_addr: Seq<char>, info: Seq<char>) -> Seq<char> {
    "Worker at "@ + worker_addr + " failed: "@ + info
}

/// Text of the error for an event that the current stage does not expect.
pub open spec fn out_of_turn_text() -> Seq<char> {
    "Event does not belong to the current stage"@
}

/// The forwarding protocol: from a stage and the event that ended it, the
/// next stage and the action to take.
///
/// The request is written as it was read and the response is handed back
/// as the backend wrote it. A failure before the response is complete means
/// that the backend is unreachable; the request is then given up.
pub open spec fn next(stage: ForwardStage, event: EventView, message: Message) -> (
    ForwardStage,
    ActionView,
) {
    match (stage, event) {
        (ForwardStage::Connecting, EventView::Connected) => (
            ForwardStage::Sending,
            ActionView::Write(message.message@),
        ),
        (ForwardStage::Sending, EventView::Sent) => (ForwardStage::Flushing, ActionView::Flush),
        (ForwardStage::Flushing, EventView::Flushed) => (
            ForwardStage::Receiving,
            ActionView::ReadToEnd,
        ),
        (ForwardStage::Receiving, EventView::Response(bytes)) => (
            ForwardStage::Replying,
            ActionView::Reply(bytes),
        ),
        (ForwardStage::Replying, EventView::Replied) => (ForwardStage::Closed, ActionView::Close),
        (ForwardStage::Closed, _) => (ForwardStage::Closed, ActionView::Broken(out_of_turn_text())),
        (ForwardStage::Replying, EventView::Failed(info)) => (
            ForwardStage::Closed,
            ActionView::Broken(info),
        ),
        (_, EventView::Failed(info)) => (
            ForwardStage::Closed,
            ActionView::Unreachable(unreachable_text(message.worker_addr@, info)),
        ),
        _ => (ForwardStage::Closed, ActionView::Broken(out_of_turn_text())),
    }
}

/// The stage reached and the actions taken when `events` arrive one after
/// another, starting at `stage`.
pub open spec fn run(stage: ForwardStage, events: Seq<EventView>, message: Message) -> (
    ForwardStage,
    Seq<ActionView>,
)
    decreases events.len(),
{
    if events.len() == 0 {
        (stage, Seq::empty())
    } else {
        let (reached, action) = next(stage, events[0], message);
        let (last, actions) = run(reached, events.drop_first(), message);
        (last, seq![action] + actions)
    }
}

/// The forwarding of one request.
#[derive(Debug)]
pub struct Forward {
    message: Message,
    stage: ForwardStage,
}

impl Forward {
    /// The request being forwarded.
    pub closed spec fn message(&self) -> Message {
        self.message
    }

    /// How far the forwarding has come.
    pub closed spec fn stage(&self) -> ForwardStage {
        self.stage
    }

    /// How far the forwarding has come.
    pub fn current_stage(&self) -> (stage: ForwardStage)
        ensures
            stage == self.stage(),
    {
        self.stage
    }

    /// The request being forwarded.
    pub fn request(&self) -> (message: &Message)
        ensures
            *message == self.message(),
    {
        &self.message
    }

    /// Takes the event that ended the current stage and answers with the
    /// next action, as [`next`] prescribes.
    pub fn step(&mut self, event: ForwardEvent) -> (action: ForwardAction)
        ensures
            final(self).message() == old(self).message(),
            (final(self).stage(), action@) == next(old(self).stage(), event@, old(self).message()),
    {
        let stage: ForwardStage = self.stage;
        match (stage, event) {
            (ForwardStage::Connecting, ForwardEvent::Connected) => {
                self.stage = ForwardStage::Sending;
                ForwardAction::Write(self.message.message.clone())
            },
            (ForwardStage::Sending, ForwardEvent::Sent) => {
                self.stage = ForwardStage::Flushing;
                ForwardAction::Flush
            },
            (ForwardStage::Flushing, ForwardEvent::Flushed) => {
                self.stage = ForwardStage::Receiving;
                ForwardAction::ReadToEnd
            },
            (ForwardStage::Receiving, ForwardEvent::Response(bytes)) => {
                self.stage = ForwardStage::Replying;
                ForwardAction::Reply(bytes)
            },
            (ForwardStage::Replying, ForwardEvent::Replied) => {
                self.stage = ForwardStage::Closed;
                ForwardAction::Close
            },
            (ForwardStage::Closed, _) => {
                ForwardAction::Abort(
                    WorkerError::Other("Event does not belong to the current stage".to_owned()),
                )
            },
            (ForwardStage::Replying, ForwardEvent::Failed(info)) => {
                self.stage = ForwardStage::Closed;
                ForwardAction::Abort(WorkerError::Other(info))
            },
            (_, ForwardEvent::Failed(info)) => {
                self.stage = ForwardStage::Closed;
                let mut msg: String = "Worker at ".to_owned();
                msg.append(self.message.worker_addr.as_str());
                msg.append(" failed: ");
                msg.append(info.as_str());
                ForwardAction::Abort(WorkerError::CannotConnectToWorker(msg))
            },
            _ => {
                self.stage = ForwardStage::Closed;
                ForwardAction::Abort(
                    WorkerError::Other("Event does not belong to the current stage".to_owned()),
                )
            },
        }
    }
}

/// Begins the forwarding of `message`: the first action is to connect, once,
/// to the backend that the message names.
pub fn forward_request(message: Message) -> (started: (Forward, ForwardAction))
    ensures
        started.0.message() == message,
        started.0.stage() == ForwardStage::Connecting,
        started.1@ == ActionView::Connect(message.worker_addr@),
{
    let target: String = message.worker_addr.clone();
    (Forward { message, stage: ForwardStage::Connecting }, ForwardAction::Connect(target))
}

/// The events of a forwarding in which nothing fails and the backend
/// answers with `response`.
pub open spec fn served(response: Seq<u8>) -> Seq<EventView> {
    seq![
        EventView::Connected,
        EventView::Sent,
        EventView::Flushed,
        EventView::Response(response),
        EventView::Replied,
    ]
}

/// When nothing fails, the request line is written to the backend as it
/// was read, the response goes back to the client exactly as the backend
/// wrote it, and the connection is closed.
pub proof fn lemma_relays_verbatim(message: Message, response: Seq<u8>)
    ensures
        run(ForwardStage::Connecting, served(response), message) == (
            ForwardStage::Closed,
            seq![
                ActionView::Write(message.message@),
                ActionView::Flush,
                ActionView::ReadToEnd,
                ActionView::Reply(response),
                ActionView::Close,
            ],
        ),
{
    reveal_with_fuel(run, 6);
    let events = served(response);
    let e1 = events.drop_first();
    let e2 = e1.drop_first();
    let e3 = e2.drop_first();
    let e4 = e3.drop_first();
    let e5 = e4.drop_first();
    assert(e5.len() == 0);
    assert(run(ForwardStage::Connecting, events, message).1 =~= seq![
        ActionView::Write(message.message@),
        ActionView::Flush,
        ActionView::ReadToEnd,
        ActionView::Reply(response),
        ActionView::Close,
    ]);
}

/// A single attempt: whatever happens after the forwarding has begun, the
/// backend is never connected to again.
pub proof fn lemma_single_attempt(stage: ForwardStage, events: Seq<EventView>, message: Message)
    ensures
        run(stage, events, message).1.len() == events.len(),
        forall|i: int|
            0 <= i < events.len() ==> !(#[trigger] run(stage, events, message).1[i]
                is Connect),
    decreases events.len(),
{
    if events.len() > 0 {
        let (reached, action) = next(stage, events[0], message);
        lemma_single_attempt(reached, events.drop_first(), message);
    }
}

/// A backend failure gives the request up: once the backend has failed to
/// connect, to take the request or to answer, the forwarding is closed and
/// nothing is ever written back to the client.
pub proof fn lemma_failure_sends_nothing(
    stage: ForwardStage,
    info: Seq<char>,
    events: Seq<EventView>,
    message: Message,
)
    requires
        stage != ForwardStage::Replying,
        stage != ForwardStage::Closed,
    ensures
        next(stage, EventView::Failed(info), message) == (
            ForwardStage::Closed,
            ActionView::Unreachable(unreachable_text(message.worker_addr@, info)),
        ),
        run(ForwardStage::Closed, events, message).0 == ForwardStage::Closed,
        forall|i: int|
            0 <= i < run(ForwardStage::Closed, events, message).1.len() ==> !(#[trigger] run(
                ForwardStage::Closed,
                events,
                message,
            ).1[i] is Reply),
    decreases events.len(),
{
    if events.len() > 0 {
        lemma_failure_sends_nothing(stage, info, events.drop_first(), message);
    }
}

} // verus!
