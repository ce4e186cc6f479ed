//! What holds of the traffic between a client and the pump that serves it.

use super::client::client_action;
use super::client::client_next;
use super::client::reconnect;
use super::client::ClientActionView;
use super::client::ClientEventView;
use super::client::ClientState;
use super::lenient_text;
use super::server::disconnected_notice;
use super::server::pump_action;
use super::server::MessageType;
use super::server::MessageView;
use super::server::PumpActionView;
use super::server::PumpError;
use super::server::PumpEventView;
use super::CloseReason;
use vstd::prelude::*;
use vstd::utf8::*;

verus! {

/// The encoding of a text that is not empty is not empty.
pub proof fn lemma_encoding_not_empty(text: Seq<char>)
    requires
        text.len() > 0,
    ensures
        encode_utf8(text).len() > 0,
{
    assert(encode_scalar(text[0] as u32).len() > 0);
}

/// A message that the caller queues on a connected client, and that the
/// server's pump receives in one read, reaches the sink with its text
/// unchanged, tagged as a message of that client. The message is not empty:
/// a write of no bytes gives the pump nothing to read.
pub proof fn lemma_client_to_server(client_id: u32, text: Seq<char>)
    requires
        text.len() > 0,
    ensures
        client_action(ClientState::Connected, ClientEventView::Outbound(text))
            == ClientActionView::Write(encode_utf8(text)),
        pump_action(client_id, PumpEventView::Read(encode_utf8(text))) == PumpActionView::Publish(
            MessageView { client_id, kind: MessageType::Message, message: text },
        ),
{
    lemma_encoding_not_empty(text);
    encode_utf8_valid_utf8(text);
    encode_utf8_decode_utf8(text);
}

/// A message that the application broadcasts, and that a connected client
/// receives in one read, reaches the client's caller with its text unchanged.
/// The message is not empty: a write of no bytes gives the client nothing to
/// read.
pub proof fn lemma_server_to_client(client_id: u32, text: Seq<char>)
    requires
        text.len() > 0,
    ensures
        pump_action(client_id, PumpEventView::Broadcast(text)) == PumpActionView::Write(
            encode_utf8(text),
        ),
        client_action(ClientState::Connected, ClientEventView::Read(encode_utf8(text)))
            == ClientActionView::Emit(text),
        client_next(ClientState::Connected, ClientEventView::Read(encode_utf8(text)))
            == ClientState::Connected,
{
    lemma_encoding_not_empty(text);
    encode_utf8_valid_utf8(text);
    encode_utf8_decode_utf8(text);
}

/// Whatever the broadcast channel hands to a pump for a message published,
/// the pump does not lose it in silence: the message is written to the
/// connection as exactly the bytes of its text, from which the text can be
/// read back, or the loss is reported with the number of messages lost. In
/// both cases the pump goes on.
pub proof fn lemma_broadcast_written_or_lag_reported(client_id: u32, text: Seq<char>, lost: u64)
    ensures
        pump_action(client_id, PumpEventView::Broadcast(text)) == PumpActionView::Write(
            encode_utf8(text),
        ),
        valid_utf8(encode_utf8(text)),
        decode_utf8(encode_utf8(text)) == text,
        pump_action(client_id, PumpEventView::Lagged(lost)) == PumpActionView::ReportLag(lost),
        !pump_action(client_id, PumpEventView::Broadcast(text)).ends(),
        !pump_action(client_id, PumpEventView::Lagged(lost)).ends(),
{
    encode_utf8_valid_utf8(text);
    encode_utf8_decode_utf8(text);
}

/// On the server, a read that gives no bytes is a close by the peer and a read
/// that fails is a read error; both publish the disconnect notice and end the
/// pump. A read that gives at least one byte never does: it publishes the
/// decoded text and goes on, or ends the pump with a decoding error and no
/// notice.
pub proof fn lemma_server_read_boundary(client_id: u32, bytes: Seq<u8>)
    ensures
        pump_action(client_id, PumpEventView::Read(Seq::empty())) == PumpActionView::Close(
            disconnected_notice(client_id),
            CloseReason::PeerClosed,
        ),
        pump_action(client_id, PumpEventView::ReadFailed) == PumpActionView::Close(
            disconnected_notice(client_id),
            CloseReason::ReadError,
        ),
        bytes.len() > 0 && valid_utf8(bytes) ==> pump_action(client_id, PumpEventView::Read(bytes))
            == PumpActionView::Publish(
            MessageView { client_id, kind: MessageType::Message, message: decode_utf8(bytes) },
        ),
        bytes.len() > 0 && !valid_utf8(bytes) ==> pump_action(
            client_id,
            PumpEventView::Read(bytes),
        ) == PumpActionView::Fail(PumpError::InvalidUtf8),
        bytes.len() > 0 ==> !(pump_action(client_id, PumpEventView::Read(bytes)) is Close),
{
}

/// On the client, a read that gives no bytes is a close by the server and a
/// read that fails is a read error; both hand on the disconnect notice and
/// lead to a new attempt to connect after the pause. A read that gives at
/// least one byte never does: its text, decoded leniently, is handed on and
/// the connection stays up.
pub proof fn lemma_client_read_boundary(bytes: Seq<u8>)
    ensures
        client_action(ClientState::Connected, ClientEventView::Read(Seq::empty())) == reconnect(
            CloseReason::PeerClosed,
        ),
        client_action(ClientState::Connected, ClientEventView::ReadFailed) == reconnect(
            CloseReason::ReadError,
        ),
        client_next(ClientState::Connected, ClientEventView::Read(Seq::empty()))
            == ClientState::Connecting,
        client_next(ClientState::Connected, ClientEventView::ReadFailed)
            == ClientState::Connecting,
        bytes.len() > 0 ==> client_action(ClientState::Connected, ClientEventView::Read(bytes))
            == ClientActionView::Emit(lenient_text(bytes)),
        bytes.len() > 0 ==> client_next(ClientState::Connected, ClientEventView::Read(bytes))
            == ClientState::Connected,
{
}

} // verus!
