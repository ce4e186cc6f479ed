//! The server side of the channel: what each connection's pump does with every
//! outcome of its connection, and how the server hands out identities.

use super::decode_strict;
use super::endpoint_address;
use super::path;
use super::CloseReason;
use vstd::prelude::*;
use vstd::string::*;
use vstd::utf8::*;

verus! {

/// What a tagged message tells the application.
#[derive(Debug, Clone, Copy, PartialEq, Eq, Structural)]
pub enum MessageType {
    Connected,
    Disconnected,
    Message,
}

/// A message from one client, tagged with the client's identity.
#[derive(Debug, Clone, PartialEq, Eq)]
pub struct Message {
    pub client_id: u32,
    pub kind: MessageType,
    pub message: String,
}

/// A tagged message as a plain value.
pub struct MessageView {
    pub client_id: u32,
    pub kind: MessageType,
    pub message: Seq<char>,
}

impl View for Message {
    type V = MessageView;

    open spec fn view(&self) -> MessageView {
        MessageView { client_id: self.client_id, kind: self.kind, message: self.message@ }
    }
}

/// One outcome that a connection's pump waits for.
#[derive(Debug, Clone, PartialEq, Eq)]
pub enum PumpEvent {
    /// The server was cancelled.
    Cancelled,
    /// The application broadcast this message.
    Broadcast(String),
    /// This subscriber fell behind and lost that many broadcast messages.
    Lagged(u64),
    /// The broadcast channel is gone.
    BroadcastClosed,
    /// One read of the connection gave these bytes; none means the peer closed.
    Read(Vec<u8>),
    /// A read of the connection failed.
    ReadFailed,
    /// The sink refused the last message published.
    SinkFailed,
    /// The last write to the connection failed.
    WriteFailed,
}

/// A pump event as a plain value.
pub enum PumpEventView {
    Cancelled,
    Broadcast(Seq<char>),
    Lagged(u64),
    BroadcastClosed,
    Read(Seq<u8>),
    ReadFailed,
    SinkFailed,
    WriteFailed,
}

impl View for PumpEvent {
    type V = PumpEventView;

    open spec fn view(&self) -> PumpEventView {
        match self {
            PumpEvent::Cancelled => PumpEventView::Cancelled,
            PumpEvent::Broadcast(text) => PumpEventView::Broadcast(text@),
            PumpEvent::Lagged(lost) => PumpEventView::Lagged(*lost),
            PumpEvent::BroadcastClosed => PumpEventView::BroadcastClosed,
            PumpEvent::Read(bytes) => PumpEventView::Read(bytes@),
            PumpEvent::ReadFailed => PumpEventView::ReadFailed,
            PumpEvent::SinkFailed => PumpEventView::SinkFailed,
            PumpEvent::WriteFailed => PumpEventView::WriteFailed,
        }
    }
}

/// The error that ends a pump.
#[derive(Debug, Clone, Copy, PartialEq, Eq, Structural)]
pub enum PumpError {
    /// The bytes of a read were not valid UTF-8.
    InvalidUtf8,
    /// The sink refused a message.
    Sink,
    /// A write to the connection failed.
    Write,
}

/// What a pump does next.
#[derive(Debug, Clone, PartialEq, Eq)]
pub enum PumpAction {
    /// Publish the message to the sink and go on.
    Publish(Message),
    /// Write the bytes to the connection and go on.
    Write(Vec<u8>),
    /// Report that broadcast messages were lost and go on.
    ReportLag(u64),
    /// Publish the disconnect notice, then end.
    Close(Message, CloseReason),
    /// End without publishing anything.
    Stop,
    /// End with an error, without publishing anything.
    Fail(PumpError),
}

/// A pump action as a plain value.
pub enum PumpActionView {
    Publish(MessageView),
    Write(Seq<u8>),
    ReportLag(u64),
    Close(MessageView, CloseReason),
    Stop,
    Fail(PumpError),
}

impl View for PumpAction {
    type V = PumpActionView;

    open spec fn view(&self) -> PumpActionView {
        match self {
            PumpAction::Publish(message) => PumpActionView::Publish(message@),
            PumpAction::Write(bytes) => PumpActionView::Write(bytes@),
            PumpAction::ReportLag(lost) => PumpActionView::ReportLag(*lost),
            PumpAction::Close(message, reason) => PumpActionView::Close(message@, *reason),
            PumpAction::Stop => PumpActionView::Stop,
            PumpAction::Fail(error) => PumpActionView::Fail(*error),
        }
    }
}

impl PumpActionView {
    /// Whether the pump ends with this action.
    pub open spec fn ends(self) -> bool {
        self is Close || self is Stop || self is Fail
    }
}

/// The notice that a pump publishes first.
pub open spec fn connected_notice(client_id: u32) -> MessageView {
    MessageView { client_id, kind: MessageType::Connected, message: "Connected"@ }
}

/// The notice that a pump publishes when its connection is lost.
pub open spec fn disconnected_notice(client_id: u32) -> MessageView {
    MessageView { client_id, kind: MessageType::Disconnected, message: "Disconnected"@ }
}

/// What the pump of `client_id` does with one event.
pub open spec fn pump_action(client_id: u32, event: PumpEventView) -> PumpActionView {
    match event {
        PumpEventView::Cancelled => PumpActionView::Stop,
        PumpEventView::Broadcast(text) => PumpActionView::Write(encode_utf8(text)),
        PumpEventView::Lagged(lost) => PumpActionView::ReportLag(lost),
        PumpEventView::BroadcastClosed => PumpActionView::Stop,
        PumpEventView::Read(bytes) => if bytes.len() == 0 {
            PumpActionView::Close(disconnected_notice(client_id), CloseReason::PeerClosed)
        } else if valid_utf8(bytes) {
            PumpActionView::Publish(
                MessageView {
                    client_id,
                    kind: MessageType::Message,
                    message: decode_utf8(bytes),
                },
            )
        } else {
            PumpActionView::Fail(PumpError::InvalidUtf8)
        },
        PumpEventView::ReadFailed => PumpActionView::Close(
            disconnected_notice(client_id),
            CloseReason::ReadError,
        ),
        PumpEventView::SinkFailed => PumpActionView::Fail(PumpError::Sink),
        PumpEventView::WriteFailed => PumpActionView::Fail(PumpError::Write),
    }
}

/// The actions of a pump over a sequence of events: one for each event up to
/// and including the first that ends it.
pub open spec fn pump_run(client_id: u32, events: Seq<PumpEventView>) -> Seq<PumpActionView>
    decreases events.len(),
{
    if events.len() == 0 {
        Seq::empty()
    } else {
        let first = pump_action(client_id, events[0]);
        if first.ends() {
            seq![first]
        } else {
            seq![first] + pump_run(client_id, events.drop_first())
        }
    }
}

impl PumpAction {
    /// Whether the pump ends with this action.
    pub fn ends(&self) -> (ended: bool)
        ensures
            ended == self@.ends(),
    {
        match self {
            PumpAction::Close(_, _) => true,
            PumpAction::Stop => true,
            PumpAction::Fail(_) => true,
            _ => false,
        }
    }
}

/// The notice that the pump of `client_id` publishes before anything else.
pub fn connected(client_id: u32) -> (notice: Message)
    ensures
        notice@ == connected_notice(client_id),
{
    Message { client_id, kind: MessageType::Connected, message: String::from_str("Connected") }
}

/// The notice that the pump of `client_id` publishes when its connection is lost.
pub fn disconnected(client_id: u32) -> (notice: Message)
    ensures
        notice@ == disconnected_notice(client_id),
{
    Message {
        client_id,
        kind: MessageType::Disconnected,
        message: String::from_str("Disconnected"),
    }
}

/// Decides what the pump of `client_id` does with one event.
pub fn on_event(client_id: u32, event: &PumpEvent) -> (action: PumpAction)
    ensures
        action@ == pump_action(client_id, event@),
{
    match event {
        PumpEvent::Cancelled => PumpAction::Stop,
        PumpEvent::Broadcast(text) => PumpAction::Write(text.as_str().as_bytes_vec()),
        PumpEvent::Lagged(lost) => PumpAction::ReportLag(*lost),
        PumpEvent::BroadcastClosed => PumpAction::Stop,
        PumpEvent::Read(bytes) => {
            if bytes.len() == 0 {
                PumpAction::Close(disconnected(client_id), CloseReason::PeerClosed)
            } else {
                match decode_strict(bytes.as_slice()) {
                    Some(text) => PumpAction::Publish(
                        Message { client_id, kind: MessageType::Message, message: text },
                    ),
                    None => PumpAction::Fail(PumpError::InvalidUtf8),
                }
            }
        },
        PumpEvent::ReadFailed => PumpAction::Close(
            disconnected(client_id),
            CloseReason::ReadError,
        ),
        PumpEvent::SinkFailed => PumpAction::Fail(PumpError::Sink),
        PumpEvent::WriteFailed => PumpAction::Fail(PumpError::Write),
    }
}

/// The views of a sequence of events, in order.
pub open spec fn event_views(events: Seq<PumpEvent>) -> Seq<PumpEventView> {
    events.map_values(|event: PumpEvent| event@)
}

/// The views of a sequence of actions, in order.
pub open spec fn action_views(actions: Seq<PumpAction>) -> Seq<PumpActionView> {
    actions.map_values(|action: PumpAction| action@)
}

/// Everything that the pump of `client_id` does over the events given: the
/// connect notice first, then what each event asks for, up to and including
/// the first event that ends the pump.
pub open spec fn connection_run(client_id: u32, events: Seq<PumpEventView>) -> Seq<
    PumpActionView,
> {
    seq![PumpActionView::Publish(connected_notice(client_id))] + pump_run(client_id, events)
}

/// Runs the pump of one connection over the outcomes given, in order, and
/// returns what it does: the connect notice, then one action for each event up
/// to and including the first that ends the pump. Events after that one are
/// not looked at.
pub fn handle_connection(client_id: u32, events: &Vec<PumpEvent>) -> (actions: Vec<PumpAction>)
    ensures
        action_views(actions@) == connection_run(client_id, event_views(events@)),
{
    let ghost all = event_views(events@);
    let mut actions: Vec<PumpAction> = Vec::new();
    actions.push(PumpAction::Publish(connected(client_id)));
    assert(action_views(actions@) =~= seq![PumpActionView::Publish(connected_notice(client_id))]);
    assert(all.skip(0) =~= all);
    let mut i: usize = 0;
    let mut running = true;
    while running && i < events.len()
        invariant
            i <= events.len(),
            all == event_views(events@),
            running ==> action_views(actions@) + pump_run(client_id, all.skip(i as int))
                == connection_run(client_id, all),
            !running ==> action_views(actions@) == connection_run(client_id, all),
        decreases events.len() - i,
    {
        let action = on_event(client_id, &events[i]);
        let ghost before = action_views(actions@);
        let ghost rest = all.skip(i as int);
        proof {
            assert(rest[0] == events@[i as int]@);
            assert(rest.drop_first() =~= all.skip(i + 1));
        }
        running = !action.ends();
        actions.push(action);
        proof {
            assert(action_views(actions@) =~= before + seq![action@]);
            if running {
                assert(before + (seq![action@] + pump_run(client_id, all.skip(i + 1))) =~= (before
                    + seq![action@]) + pump_run(client_id, all.skip(i + 1)));
            }
        }
        i += 1;
    }
    proof {
        if running {
            assert(all.skip(i as int).len() == 0);
            assert(action_views(actions@) + Seq::<PumpActionView>::empty() =~= action_views(
                actions@,
            ));
        }
    }
    actions
}

/// How the set-up of the endpoint ended.
#[derive(Debug, Clone, Copy, PartialEq, Eq, Structural)]
pub enum SetupOutcome {
    /// The endpoint is bound and connections can be accepted.
    Bound,
    /// The security attributes of the endpoint could not be made.
    SecurityAttributesFailed,
    /// The endpoint could not be bound.
    BindFailed,
}

/// Why a server did not start.
#[derive(Debug, Clone, Copy, PartialEq, Eq, Structural)]
pub enum StartError {
    SecurityAttributes,
    Bind,
}

/// One outcome that the accept loop waits for.
#[derive(Debug, Clone, Copy, PartialEq, Eq, Structural)]
pub enum AcceptEvent {
    /// The server was cancelled.
    Cancelled,
    /// A client connected.
    Connection,
    /// The source of connections reported an error.
    Failed,
    /// The source of connections ended.
    Closed,
}

/// Why the accept loop ended.
#[derive(Debug, Clone, Copy, PartialEq, Eq, Structural)]
pub enum AcceptStop {
    Cancelled,
    Failed,
    Closed,
    /// Every identity has been handed out.
    Exhausted,
}

/// What the accept loop does next.
#[derive(Debug, Clone, Copy, PartialEq, Eq, Structural)]
pub enum AcceptAction {
    /// Start a pump for the new connection under this identity and go on.
    Spawn(u32),
    /// End the loop; the new connection, if there is one, is dropped.
    Stop(AcceptStop),
    /// The loop has ended before: nothing is done.
    Ignore,
}

/// A broadcast that nobody is left to receive, with the message that was to be
/// published.
#[derive(Debug, Clone, PartialEq, Eq)]
pub struct SendError {
    pub message: String,
}

/// A broadcast to publish: the message, and the number of receivers it has.
#[derive(Debug, Clone, PartialEq, Eq)]
pub struct Broadcast {
    pub message: String,
    pub receivers: u64,
}

/// The number of broadcast messages that a subscriber may leave unread before
/// it loses the oldest.
pub const BROADCAST_CAPACITY: usize = 32;

/// What has to be done to set up the endpoint of a server.
#[derive(Debug, Clone, PartialEq, Eq)]
pub struct StartPlan {
    /// The address to bind.
    pub path: String,
    /// Whether a file left at the address by an earlier server is removed
    /// before binding.
    pub remove_stale: bool,
    /// The capacity of the broadcast channel.
    pub capacity: usize,
}

/// The state of a server as a plain value.
pub struct ServerView {
    /// Whether the server has been cancelled.
    pub cancelled: bool,
    /// Whether the accept loop is running.
    pub accepting: bool,
    /// The last identity handed out; 0 before the first.
    pub last_client_id: u32,
    /// The identities of the live connections, in the order they were accepted.
    pub live: Seq<u32>,
}

impl ServerView {
    /// The identities of the live connections are handed-out identities in
    /// strictly increasing order.
    pub open spec fn wf(self) -> bool {
        &&& forall|i: int, j: int| 0 <= i < j < self.live.len() ==> self.live[i] < self.live[j]
        &&& forall|i: int| 0 <= i < self.live.len() ==> 1 <= #[trigger] self.live[i] <= self.last_client_id
    }

    /// A server that has just started.
    pub open spec fn started() -> ServerView {
        ServerView { cancelled: false, accepting: true, last_client_id: 0, live: Seq::empty() }
    }

    /// The server after a request to stop.
    pub open spec fn stop(self) -> ServerView {
        ServerView { cancelled: true, ..self }
    }

    /// What the accept loop does with one event.
    pub open spec fn accept_action(self, event: AcceptEvent) -> AcceptAction {
        if !self.accepting {
            AcceptAction::Ignore
        } else {
            match event {
                AcceptEvent::Cancelled => AcceptAction::Stop(AcceptStop::Cancelled),
                AcceptEvent::Failed => AcceptAction::Stop(AcceptStop::Failed),
                AcceptEvent::Closed => AcceptAction::Stop(AcceptStop::Closed),
                AcceptEvent::Connection => if self.last_client_id < u32::MAX {
                    AcceptAction::Spawn((self.last_client_id + 1) as u32)
                } else {
                    AcceptAction::Stop(AcceptStop::Exhausted)
                },
            }
        }
    }

    /// The server after the accept loop has dealt with one event.
    pub open spec fn accept(self, event: AcceptEvent) -> ServerView {
        match self.accept_action(event) {
            AcceptAction::Spawn(id) => ServerView {
                last_client_id: id,
                live: self.live.push(id),
                ..self
            },
            AcceptAction::Stop(_) => ServerView { accepting: false, ..self },
            AcceptAction::Ignore => self,
        }
    }

    /// The server after the pump of `client_id` has ended.
    pub open spec fn release(self, client_id: u32) -> ServerView {
        if self.live.contains(client_id) {
            ServerView { live: self.live.remove(self.live.index_of(client_id)), ..self }
        } else {
            self
        }
    }

    /// The number of receivers of a broadcast: the live connections, and the
    /// accept loop while it runs.
    pub open spec fn receivers(self) -> nat {
        if self.accepting {
            self.live.len() + 1
        } else {
            self.live.len()
        }
    }
}

/// The state of one server: whether it is cancelled, whether it still accepts
/// connections, and which identities it has handed out.
#[derive(Debug)]
pub struct Server {
    cancelled: bool,
    accepting: bool,
    last_client_id: u32,
    live: Vec<u32>,
}

impl View for Server {
    type V = ServerView;

    closed spec fn view(&self) -> ServerView {
        ServerView {
            cancelled: self.cancelled,
            accepting: self.accepting,
            last_client_id: self.last_client_id,
            live: self.live@,
        }
    }
}

impl Server {
    /// Says how the endpoint of a server is set up: the address is that of the
    /// logical name under the home directory; a socket file left there is
    /// removed first, a pipe needs no such thing.
    pub fn prepare(name: &str, home: &str, windows: bool) -> (plan: StartPlan)
        ensures
            plan.path@ == endpoint_address(name@, home@, windows),
            plan.remove_stale == !windows,
            plan.capacity == BROADCAST_CAPACITY,
    {
        StartPlan { path: path(name, home, windows), remove_stale: !windows, capacity: BROADCAST_CAPACITY }
    }

    /// Starts a server once its endpoint has been set up. Fails if the
    /// security attributes could not be made or the endpoint could not be
    /// bound; otherwise the server accepts connections, is not cancelled and
    /// has handed out no identity.
    pub fn start(setup: SetupOutcome) -> (server: Result<Server, StartError>)
        ensures
            match setup {
                SetupOutcome::Bound => server is Ok && server->Ok_0@ == ServerView::started()
                    && server->Ok_0@.wf(),
                SetupOutcome::SecurityAttributesFailed => server == Err::<Server, StartError>(
                    StartError::SecurityAttributes,
                ),
                SetupOutcome::BindFailed => server == Err::<Server, StartError>(StartError::Bind),
            },
    {
        match setup {
            SetupOutcome::Bound => Ok(
                Server { cancelled: false, accepting: true, last_client_id: 0, live: Vec::new() },
            ),
            SetupOutcome::SecurityAttributesFailed => Err(StartError::SecurityAttributes),
            SetupOutcome::BindFailed => Err(StartError::Bind),
        }
    }

    /// Decides whether a message is published on the broadcast channel. It
    /// is, unchanged, while anybody is left to receive it: every live
    /// connection, and the accept loop while it runs. With nobody left the
    /// message comes back in the error.
    pub fn send(&self, message: String) -> (published: Result<Broadcast, SendError>)
        requires
            self@.wf(),
        ensures
            self@.receivers() > 0 ==> published is Ok && published->Ok_0.message@ == message@
                && published->Ok_0.receivers == self@.receivers(),
            self@.receivers() == 0 ==> published is Err && published->Err_0.message@ == message@,
    {
        let connections = self.live.len() as u64;
        assert(connections <= u32::MAX) by {
            lemma_strictly_increasing_len(self.live@, self.last_client_id);
        }
        let receivers = if self.accepting {
            connections + 1
        } else {
            connections
        };
        if receivers > 0 {
            Ok(Broadcast { message, receivers })
        } else {
            Err(SendError { message })
        }
    }

    /// Cancels the server. Returns whether this call made the transition:
    /// `true` the first time, `false` on every later call, which changes
    /// nothing.
    pub fn stop(&mut self) -> (first: bool)
        requires
            old(self)@.wf(),
        ensures
            final(self)@.wf(),
            final(self)@ == old(self)@.stop(),
            first == !old(self)@.cancelled,
    {
        let first = !self.cancelled;
        self.cancelled = true;
        assert(self@.live == old(self)@.live);
        first
    }

    /// Whether the server has been cancelled.
    pub fn is_cancelled(&self) -> (cancelled: bool)
        ensures
            cancelled == self@.cancelled,
    {
        self.cancelled
    }

    /// Whether the accept loop is running.
    pub fn is_accepting(&self) -> (accepting: bool)
        ensures
            accepting == self@.accepting,
    {
        self.accepting
    }

    /// Decides what the accept loop does with one event, and records it. A new
    /// connection gets the identity after the last one handed out, starting at
    /// 1; cancellation, an error or the end of the source of connections ends
    /// the loop; once the loop has ended, every event is ignored.
    pub fn accept(&mut self, event: AcceptEvent) -> (action: AcceptAction)
        requires
            old(self)@.wf(),
        ensures
            final(self)@.wf(),
            action == old(self)@.accept_action(event),
            final(self)@ == old(self)@.accept(event),
    {
        if !self.accepting {
            return AcceptAction::Ignore;
        }
        let action = match event {
            AcceptEvent::Cancelled => AcceptAction::Stop(AcceptStop::Cancelled),
            AcceptEvent::Failed => AcceptAction::Stop(AcceptStop::Failed),
            AcceptEvent::Closed => AcceptAction::Stop(AcceptStop::Closed),
            AcceptEvent::Connection => {
                if self.last_client_id < u32::MAX {
                    AcceptAction::Spawn(self.last_client_id + 1)
                } else {
                    AcceptAction::Stop(AcceptStop::Exhausted)
                }
            },
        };
        match action {
            AcceptAction::Spawn(client_id) => {
                self.last_client_id = client_id;
                self.live.push(client_id);
            },
            _ => {
                self.accepting = false;
            },
        }
        proof {
            lemma_accept_keeps_wf(old(self)@, event);
        }
        action
    }

    /// Records that the pump of `client_id` has ended: the identity is no
    /// longer live, and it is never handed out again. Returns whether the
    /// connection was live.
    pub fn release(&mut self, client_id: u32) -> (was_live: bool)
        requires
            old(self)@.wf(),
        ensures
            final(self)@.wf(),
            was_live == old(self)@.live.contains(client_id),
            final(self)@ == old(self)@.release(client_id),
    {
        let mut i: usize = 0;
        while i < self.live.len()
            invariant
                i <= self.live.len(),
                *self == *old(self),
                self@.wf(),
                forall|k: int| 0 <= k < i ==> self.live@[k] != client_id,
            decreases self.live.len() - i,
        {
            if self.live[i] == client_id {
                proof {
                    lemma_live_position(self@, i as int);
                    lemma_release_keeps_wf(self@, client_id);
                }
                self.live.remove(i);
                return true;
            }
            i += 1;
        }
        false
    }

    /// The identities of the live connections, oldest first.
    pub fn live_connections(&self) -> (live: Vec<u32>)
        ensures
            live@ == self@.live,
    {
        self.live.clone()
    }
}

/// In a well-formed server an identity is live at one index only.
proof fn lemma_live_position(server: ServerView, i: int)
    requires
        server.wf(),
        0 <= i < server.live.len(),
    ensures
        server.live.contains(server.live[i]),
        server.live.index_of(server.live[i]) == i,
{
    let id = server.live[i];
    assert(server.live.contains(id));
    let j = server.live.index_of(id);
    assert(0 <= j < server.live.len() && server.live[j] == id);
    if j < i {
        assert(server.live[j] < server.live[i]);
    }
    if i < j {
        assert(server.live[i] < server.live[j]);
    }
}

/// The accept loop keeps a server well formed.
pub proof fn lemma_accept_keeps_wf(server: ServerView, event: AcceptEvent)
    requires
        server.wf(),
    ensures
        server.accept(event).wf(),
{
    let after = server.accept(event);
    match server.accept_action(event) {
        AcceptAction::Spawn(id) => {
            assert forall|i: int, j: int| 0 <= i < j < after.live.len() implies after.live[i]
                < after.live[j] by {
                if j < server.live.len() {
                    assert(server.live[i] < server.live[j]);
                } else {
                    assert(server.live[i] <= server.last_client_id);
                }
            }
            assert forall|i: int| 0 <= i < after.live.len() implies 1 <= #[trigger] after.live[i]
                <= after.last_client_id by {
                if i < server.live.len() {
                    assert(server.live[i] <= server.last_client_id);
                }
            }
        },
        _ => {
            assert(after.live == server.live);
        },
    }
}

/// The end of a pump keeps a server well formed.
pub proof fn lemma_release_keeps_wf(server: ServerView, client_id: u32)
    requires
        server.wf(),
    ensures
        server.release(client_id).wf(),
{
    if server.live.contains(client_id) {
        let k = server.live.index_of(client_id);
        let after = server.release(client_id);
        assert(0 <= k < server.live.len());
        assert forall|i: int, j: int| 0 <= i < j < after.live.len() implies after.live[i]
            < after.live[j] by {
            let a = if i < k { i } else { i + 1 };
            let b = if j < k { j } else { j + 1 };
            assert(server.live[a] < server.live[b]);
        }
        assert forall|i: int| 0 <= i < after.live.len() implies 1 <= #[trigger] after.live[i]
            <= after.last_client_id by {
            let a = if i < k { i } else { i + 1 };
            assert(1 <= server.live[a] <= server.last_client_id);
        }
    }
}

/// A strictly increasing sequence of identities up to `last` has at most
/// `last` members.
proof fn lemma_strictly_increasing_len(live: Seq<u32>, last: u32)
    requires
        forall|i: int, j: int| 0 <= i < j < live.len() ==> live[i] < live[j],
        forall|i: int| 0 <= i < live.len() ==> 1 <= #[trigger] live[i] <= last,
    ensures
        live.len() <= last,
    decreases live.len(),
{
    if live.len() > 0 {
        let n = live.len() - 1;
        assert forall|i: int| 0 <= i < live.len() implies live[i] >= i + 1 by {
            lemma_strictly_increasing_at_least(live, i);
        }
        assert(live[n] >= n + 1);
    }
}

/// The member at index `i` of a strictly increasing sequence of identities
/// that start at 1 or more is at least `i + 1`.
proof fn lemma_strictly_increasing_at_least(live: Seq<u32>, i: int)
    requires
        forall|a: int, b: int| 0 <= a < b < live.len() ==> live[a] < live[b],
        forall|a: int| 0 <= a < live.len() ==> 1 <= #[trigger] live[a],
        0 <= i < live.len(),
    ensures
        live[i] >= i + 1,
    decreases i,
{
    if i > 0 {
        lemma_strictly_increasing_at_least(live, i - 1);
        assert(live[i - 1] < live[i]);
    }
}

/// One thing that happens to a server.
pub enum ServerOp {
    /// The accept loop deals with an event.
    Accept(AcceptEvent),
    /// The pump of this identity ends.
    Release(u32),
    /// The server is asked to stop, by a call or because its handle goes away.
    Stop,
}

impl ServerView {
    /// The server after one operation.
    pub open spec fn apply(self, op: ServerOp) -> ServerView {
        match op {
            ServerOp::Accept(event) => self.accept(event),
            ServerOp::Release(client_id) => self.release(client_id),
            ServerOp::Stop => self.stop(),
        }
    }

    /// The server after a sequence of operations.
    pub open spec fn run(self, ops: Seq<ServerOp>) -> ServerView
        decreases ops.len(),
    {
        if ops.len() == 0 {
            self
        } else {
            self.apply(ops[0]).run(ops.drop_first())
        }
    }

    /// The identities handed out over a sequence of operations, in order.
    pub open spec fn identities(self, ops: Seq<ServerOp>) -> Seq<u32>
        decreases ops.len(),
    {
        if ops.len() == 0 {
            Seq::empty()
        } else {
            let rest = self.apply(ops[0]).identities(ops.drop_first());
            match ops[0] {
                ServerOp::Accept(event) => match self.accept_action(event) {
                    AcceptAction::Spawn(id) => seq![id] + rest,
                    _ => rest,
                },
                _ => rest,
            }
        }
    }

    /// How often a sequence of operations takes the server from not cancelled
    /// to cancelled.
    pub open spec fn cancellations(self, ops: Seq<ServerOp>) -> nat
        decreases ops.len(),
    {
        if ops.len() == 0 {
            0
        } else {
            let rest = self.apply(ops[0]).cancellations(ops.drop_first());
            if ops[0] is Stop && !self.cancelled {
                1 + rest
            } else {
                rest
            }
        }
    }

    /// How often the accept loop ends over a sequence of operations.
    pub open spec fn terminations(self, ops: Seq<ServerOp>) -> nat
        decreases ops.len(),
    {
        if ops.len() == 0 {
            0
        } else {
            let rest = self.apply(ops[0]).terminations(ops.drop_first());
            if ops[0] matches ServerOp::Accept(event) && self.accept_action(event) is Stop {
                1 + rest
            } else {
                rest
            }
        }
    }
}

/// No operation breaks a well-formed server, and none takes back an identity:
/// the last identity handed out never decreases.
pub proof fn lemma_apply_keeps_wf(server: ServerView, op: ServerOp)
    requires
        server.wf(),
    ensures
        server.apply(op).wf(),
        server.apply(op).last_client_id >= server.last_client_id,
        server.cancelled ==> server.apply(op).cancelled,
        !server.accepting ==> !server.apply(op).accepting,
{
    match op {
        ServerOp::Accept(event) => {
            lemma_accept_keeps_wf(server, event);
        },
        ServerOp::Release(client_id) => {
            lemma_release_keeps_wf(server, client_id);
        },
        ServerOp::Stop => {
            assert(server.stop().live == server.live);
        },
    }
}

/// Whatever happens to a server, it stays well formed.
pub proof fn lemma_run_keeps_wf(server: ServerView, ops: Seq<ServerOp>)
    requires
        server.wf(),
    ensures
        server.run(ops).wf(),
        server.run(ops).last_client_id >= server.last_client_id,
    decreases ops.len(),
{
    if ops.len() > 0 {
        lemma_apply_keeps_wf(server, ops[0]);
        lemma_run_keeps_wf(server.apply(ops[0]), ops.drop_first());
    }
}

/// Over any sequence of operations, each connection accepted gets an identity
/// strictly greater than every identity handed out before it: greater than
/// those handed out before the sequence began, and greater than those handed
/// out earlier in it.
pub proof fn lemma_identities_strictly_increase(server: ServerView, ops: Seq<ServerOp>)
    requires
        server.wf(),
    ensures
        forall|i: int|
            0 <= i < server.identities(ops).len() ==> server.last_client_id
                < #[trigger] server.identities(ops)[i],
        forall|i: int, j: int|
            0 <= i < j < server.identities(ops).len() ==> server.identities(ops)[i]
                < server.identities(ops)[j],
    decreases ops.len(),
{
    if ops.len() > 0 {
        let next = server.apply(ops[0]);
        let rest = next.identities(ops.drop_first());
        lemma_apply_keeps_wf(server, ops[0]);
        lemma_identities_strictly_increase(next, ops.drop_first());
        let ids = server.identities(ops);
        if ops[0] is Accept && server.accept_action(ops[0]->Accept_0) is Spawn {
            let id = server.accept_action(ops[0]->Accept_0)->Spawn_0;
            assert(ids == seq![id] + rest);
            assert(next.last_client_id == id);
            assert forall|i: int| 0 <= i < ids.len() implies server.last_client_id
                < #[trigger] ids[i] by {
                if i > 0 {
                    assert(ids[i] == rest[i - 1]);
                }
            }
            assert forall|i: int, j: int| 0 <= i < j < ids.len() implies ids[i] < ids[j] by {
                assert(ids[j] == rest[j - 1]);
                if i > 0 {
                    assert(ids[i] == rest[i - 1]);
                }
            }
        } else {
            assert(ids == rest);
        }
    }
}

/// No two live connections of a server share an identity.
pub proof fn lemma_live_identities_differ(server: ServerView, i: int, j: int)
    requires
        server.wf(),
        0 <= i < server.live.len(),
        0 <= j < server.live.len(),
        i != j,
    ensures
        server.live[i] != server.live[j],
{
    if i < j {
        assert(server.live[i] < server.live[j]);
    } else {
        assert(server.live[j] < server.live[i]);
    }
}

/// An identity handed out is never handed out again, whether its connection
/// is still live or not: every later identity is greater.
pub proof fn lemma_identity_never_reused(server: ServerView, event: AcceptEvent, ops: Seq<ServerOp>)
    requires
        server.wf(),
        server.accept_action(event) is Spawn,
    ensures
        !server.accept(event).identities(ops).contains(server.accept_action(event)->Spawn_0),
{
    let id = server.accept_action(event)->Spawn_0;
    let next = server.accept(event);
    lemma_accept_keeps_wf(server, event);
    lemma_identities_strictly_increase(next, ops);
    if next.identities(ops).contains(id) {
        let k = choose|k: int| 0 <= k < next.identities(ops).len() && next.identities(ops)[k] == id;
        assert(next.last_client_id < next.identities(ops)[k]);
    }
}

/// Stopping twice is the same as stopping once.
pub proof fn lemma_stop_idempotent(server: ServerView)
    ensures
        server.stop().stop() == server.stop(),
        server.stop().cancelled,
{
}

/// A cancelled server is never cancelled again.
pub proof fn lemma_cancelled_stays(server: ServerView, ops: Seq<ServerOp>)
    requires
        server.cancelled,
    ensures
        server.cancellations(ops) == 0,
        server.run(ops).cancelled,
    decreases ops.len(),
{
    if ops.len() > 0 {
        lemma_cancelled_stays(server.apply(ops[0]), ops.drop_first());
    }
}

/// However often a server is stopped, it goes from not cancelled to cancelled
/// at most once; and exactly once if it was not cancelled and is stopped at
/// all.
pub proof fn lemma_one_cancellation(server: ServerView, ops: Seq<ServerOp>)
    ensures
        server.cancellations(ops) <= 1,
        server.cancellations(ops) == 1 <==> !server.cancelled && exists|i: int|
            0 <= i < ops.len() && ops[i] is Stop,
    decreases ops.len(),
{
    if ops.len() > 0 {
        let next = server.apply(ops[0]);
        let rest = ops.drop_first();
        if server.cancelled {
            lemma_cancelled_stays(server, ops);
        } else if ops[0] is Stop {
            lemma_cancelled_stays(next, rest);
        } else {
            lemma_one_cancellation(next, rest);
            if next.cancellations(rest) == 1 {
                let i = choose|i: int| 0 <= i < rest.len() && rest[i] is Stop;
                assert(ops[i + 1] is Stop);
            }
            if exists|i: int| 0 <= i < ops.len() && ops[i] is Stop {
                let i = choose|i: int| 0 <= i < ops.len() && ops[i] is Stop;
                assert(rest[i - 1] is Stop);
            }
        }
    }
}

/// Once the accept loop has ended it does not end again.
pub proof fn lemma_ended_loop_stays(server: ServerView, ops: Seq<ServerOp>)
    requires
        !server.accepting,
    ensures
        server.terminations(ops) == 0,
        server.identities(ops) == Seq::<u32>::empty(),
        !server.run(ops).accepting,
    decreases ops.len(),
{
    if ops.len() > 0 {
        lemma_ended_loop_stays(server.apply(ops[0]), ops.drop_first());
    }
}

/// Whatever happens to a server, its accept loop ends at most once.
pub proof fn lemma_one_termination(server: ServerView, ops: Seq<ServerOp>)
    ensures
        server.terminations(ops) <= 1,
        server.terminations(ops) == 1 ==> server.accepting && !server.run(ops).accepting,
    decreases ops.len(),
{
    if ops.len() > 0 {
        let next = server.apply(ops[0]);
        let rest = ops.drop_first();
        if !server.accepting {
            lemma_ended_loop_stays(server, ops);
        } else if ops[0] matches ServerOp::Accept(event) && server.accept_action(event) is Stop {
            lemma_ended_loop_stays(next, rest);
        } else {
            lemma_one_termination(next, rest);
        }
    }
}

} // verus!
