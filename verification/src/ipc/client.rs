//! The client side of the channel: a loop that connects to the desktop
//! application, relays messages both ways while the connection lasts, and
//! connects again when it is lost.

use super::decode_lossy;
use super::endpoint_address;
use super::lenient_text;
use super::path;
use super::CloseReason;
use vstd::prelude::*;
use vstd::string::*;
use vstd::utf8::*;

verus! {

/// The pause between the loss of a connection and the next attempt to connect.
pub const RECONNECT_DELAY_SECS: u64 = 5;

/// Where the client's loop stands.
#[derive(Debug, Clone, Copy, PartialEq, Eq, Structural)]
pub enum ClientState {
    /// An attempt to connect is under way.
    Connecting,
    /// A connection is up and messages are relayed.
    Connected,
    /// The caller closed the outbound queue: the client is done.
    Finished,
}

/// One outcome that the client waits for.
#[derive(Debug, Clone, PartialEq, Eq)]
pub enum ClientEvent {
    /// The attempt to connect failed.
    ConnectFailed,
    /// The attempt to connect succeeded.
    ConnectSucceeded,
    /// The caller queued this message for the server.
    Outbound(String),
    /// The caller closed the outbound queue.
    OutboundClosed,
    /// One read of the connection gave these bytes; none means the server closed.
    Read(Vec<u8>),
    /// A read of the connection failed.
    ReadFailed,
}

/// A client event as a plain value.
pub enum ClientEventView {
    ConnectFailed,
    ConnectSucceeded,
    Outbound(Seq<char>),
    OutboundClosed,
    Read(Seq<u8>),
    ReadFailed,
}

impl View for ClientEvent {
    type V = ClientEventView;

    open spec fn view(&self) -> ClientEventView {
        match self {
            ClientEvent::ConnectFailed => ClientEventView::ConnectFailed,
            ClientEvent::ConnectSucceeded => ClientEventView::ConnectSucceeded,
            ClientEvent::Outbound(text) => ClientEventView::Outbound(text@),
            ClientEvent::OutboundClosed => ClientEventView::OutboundClosed,
            ClientEvent::Read(bytes) => ClientEventView::Read(bytes@),
            ClientEvent::ReadFailed => ClientEventView::ReadFailed,
        }
    }
}

/// What the client does next.
#[derive(Debug, Clone, PartialEq, Eq)]
pub enum ClientAction {
    /// Try to connect, at once.
    Connect,
    /// Hand this message to the caller and go on.
    Emit(String),
    /// Write these bytes to the connection and go on.
    Write(Vec<u8>),
    /// Hand this notice to the caller, give the connection up, wait for the
    /// delay, then try to connect.
    Reconnect { notice: String, reason: CloseReason, delay_secs: u64 },
    /// End: the client is done.
    Finish,
    /// The event does not belong to the state the client is in: nothing is done.
    Ignore,
}

/// A client action as a plain value.
pub enum ClientActionView {
    Connect,
    Emit(Seq<char>),
    Write(Seq<u8>),
    Reconnect { notice: Seq<char>, reason: CloseReason, delay_secs: u64 },
    Finish,
    Ignore,
}

impl View for ClientAction {
    type V = ClientActionView;

    open spec fn view(&self) -> ClientActionView {
        match self {
            ClientAction::Connect => ClientActionView::Connect,
            ClientAction::Emit(text) => ClientActionView::Emit(text@),
            ClientAction::Write(bytes) => ClientActionView::Write(bytes@),
            ClientAction::Reconnect { notice, reason, delay_secs } => ClientActionView::Reconnect {
                notice: notice@,
                reason: *reason,
                delay_secs: *delay_secs,
            },
            ClientAction::Finish => ClientActionView::Finish,
            ClientAction::Ignore => ClientActionView::Ignore,
        }
    }
}

/// The logical name of the channel that the client connects to.
pub open spec fn channel_name() -> Seq<char> {
    "bitwarden"@
}

/// The notice that tells the caller that a connection is up.
pub open spec fn connected_notice() -> Seq<char> {
    "{\"command\":\"connected\"}"@
}

/// The notice that tells the caller that the connection is lost.
pub open spec fn disconnected_notice() -> Seq<char> {
    "{\"command\":\"disconnected\"}"@
}

/// What the client gives up a connection with.
pub open spec fn reconnect(reason: CloseReason) -> ClientActionView {
    ClientActionView::Reconnect {
        notice: disconnected_notice(),
        reason,
        delay_secs: RECONNECT_DELAY_SECS,
    }
}

/// What the client does with one event in a given state.
pub open spec fn client_action(state: ClientState, event: ClientEventView) -> ClientActionView {
    match state {
        ClientState::Connecting => match event {
            ClientEventView::ConnectFailed => ClientActionView::Connect,
            ClientEventView::ConnectSucceeded => ClientActionView::Emit(connected_notice()),
            _ => ClientActionView::Ignore,
        },
        ClientState::Connected => match event {
            ClientEventView::Outbound(text) => ClientActionView::Write(encode_utf8(text)),
            ClientEventView::OutboundClosed => ClientActionView::Finish,
            ClientEventView::Read(bytes) => if bytes.len() == 0 {
                reconnect(CloseReason::PeerClosed)
            } else {
                ClientActionView::Emit(lenient_text(bytes))
            },
            ClientEventView::ReadFailed => reconnect(CloseReason::ReadError),
            _ => ClientActionView::Ignore,
        },
        ClientState::Finished => ClientActionView::Ignore,
    }
}

/// The state of the client after one event in a given state.
pub open spec fn client_next(state: ClientState, event: ClientEventView) -> ClientState {
    match client_action(state, event) {
        ClientActionView::Connect => ClientState::Connecting,
        ClientActionView::Emit(_) => ClientState::Connected,
        ClientActionView::Write(_) => ClientState::Connected,
        ClientActionView::Reconnect { .. } => ClientState::Connecting,
        ClientActionView::Finish => ClientState::Finished,
        ClientActionView::Ignore => state,
    }
}

/// The actions of a client over a sequence of events, from a given state: one
/// for each event up to and including the one that finishes the client.
pub open spec fn client_run(state: ClientState, events: Seq<ClientEventView>) -> Seq<
    ClientActionView,
>
    decreases events.len(),
{
    if events.len() == 0 || state is Finished {
        Seq::empty()
    } else {
        seq![client_action(state, events[0])] + client_run(
            client_next(state, events[0]),
            events.drop_first(),
        )
    }
}

/// The views of a sequence of events, in order.
pub open spec fn event_views(events: Seq<ClientEvent>) -> Seq<ClientEventView> {
    events.map_values(|event: ClientEvent| event@)
}

/// The views of a sequence of actions, in order.
pub open spec fn action_views(actions: Seq<ClientAction>) -> Seq<ClientActionView> {
    actions.map_values(|action: ClientAction| action@)
}

/// The address of the endpoint that the client connects to.
pub fn endpoint(home: &str, windows: bool) -> (address: String)
    ensures
        address@ == endpoint_address(channel_name(), home@, windows),
{
    path("bitwarden", home, windows)
}

/// The action with which the client gives a connection up.
fn give_up(reason: CloseReason) -> (action: ClientAction)
    ensures
        action@ == reconnect(reason),
{
    ClientAction::Reconnect {
        notice: String::from_str("{\"command\":\"disconnected\"}"),
        reason,
        delay_secs: RECONNECT_DELAY_SECS,
    }
}

/// Decides what the client does with one event, and moves to the next state.
///
/// While connecting, a failure is answered by another attempt at once and a
/// success by the connect notice. While connected, a queued message is written
/// to the connection as its bytes, the bytes of a read are handed on as one
/// message, decoded leniently, and a read that fails or gives nothing ends the
/// connection with the disconnect notice and a pause. The client finishes when
/// the outbound queue is closed.
pub fn on_event(state: &mut ClientState, event: &ClientEvent) -> (action: ClientAction)
    ensures
        action@ == client_action(*old(state), event@),
        *final(state) == client_next(*old(state), event@),
{
    match *state {
        ClientState::Connecting => match event {
            ClientEvent::ConnectFailed => ClientAction::Connect,
            ClientEvent::ConnectSucceeded => {
                *state = ClientState::Connected;
                ClientAction::Emit(String::from_str("{\"command\":\"connected\"}"))
            },
            _ => ClientAction::Ignore,
        },
        ClientState::Connected => match event {
            ClientEvent::Outbound(text) => ClientAction::Write(text.as_str().as_bytes_vec()),
            ClientEvent::OutboundClosed => {
                *state = ClientState::Finished;
                ClientAction::Finish
            },
            ClientEvent::Read(bytes) => {
                if bytes.len() == 0 {
                    *state = ClientState::Connecting;
                    give_up(CloseReason::PeerClosed)
                } else {
                    ClientAction::Emit(decode_lossy(bytes.as_slice()))
                }
            },
            ClientEvent::ReadFailed => {
                *state = ClientState::Connecting;
                give_up(CloseReason::ReadError)
            },
            _ => ClientAction::Ignore,
        },
        ClientState::Finished => ClientAction::Ignore,
    }
}

/// Runs the client over the outcomes given, in order, and returns what it
/// does: first an attempt to connect, then one action for each event up to and
/// including the one that finishes the client. Events after that one are not
/// looked at.
pub fn start(events: &Vec<ClientEvent>) -> (actions: Vec<ClientAction>)
    ensures
        action_views(actions@) == seq![ClientActionView::Connect] + client_run(
            ClientState::Connecting,
            event_views(events@),
        ),
{
    let ghost all = event_views(events@);
    let ghost whole = seq![ClientActionView::Connect] + client_run(ClientState::Connecting, all);
    let mut actions: Vec<ClientAction> = Vec::new();
    actions.push(ClientAction::Connect);
    assert(action_views(actions@) =~= seq![ClientActionView::Connect]);
    assert(all.skip(0) =~= all);
    let mut state = ClientState::Connecting;
    let mut i: usize = 0;
    while i < events.len() && !matches!(state, ClientState::Finished)
        invariant
            i <= events.len(),
            all == event_views(events@),
            whole == seq![ClientActionView::Connect] + client_run(ClientState::Connecting, all),
            action_views(actions@) + client_run(state, all.skip(i as int)) == whole,
        decreases events.len() - i,
    {
        let ghost before = action_views(actions@);
        let ghost rest = all.skip(i as int);
        let ghost was = state;
        let action = on_event(&mut state, &events[i]);
        proof {
            assert(rest[0] == events@[i as int]@);
            assert(rest.drop_first() =~= all.skip(i + 1));
        }
        actions.push(action);
        proof {
            assert(action_views(actions@) =~= before + seq![action@]);
            assert(before + (seq![action@] + client_run(state, all.skip(i + 1))) =~= (before
                + seq![action@]) + client_run(state, all.skip(i + 1)));
        }
        i += 1;
    }
    proof {
        assert(client_run(state, all.skip(i as int)) =~= Seq::<ClientActionView>::empty());
        assert(action_views(actions@) + Seq::<ClientActionView>::empty() =~= action_views(
            actions@,
        ));
    }
    actions
}

} // verus!
