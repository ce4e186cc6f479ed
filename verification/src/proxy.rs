//! The relay between the browser and the desktop application: the frames on
//! the relay's standard streams, and what the relay does with each outcome it
//! waits for.

use crate::ipc::decode_strict;
use vstd::prelude::*;
use vstd::slice::*;
use vstd::string::*;
use vstd::utf8::*;

verus! {

/// The number of bytes in the length prefix of a frame.
pub const HEADER_LENGTH: usize = 4;

/// The longest payload that a frame may carry.
pub const MAX_FRAME_LENGTH: usize = 8388608;

/// The order of the bytes of a length prefix.
#[derive(Debug, Clone, Copy, PartialEq, Eq, Structural)]
pub enum ByteOrder {
    /// The least significant byte comes first.
    Little,
    /// The most significant byte comes first.
    Big,
}

/// Why a frame could not be written or read.
#[derive(Debug, Clone, Copy, PartialEq, Eq, Structural)]
pub enum FrameError {
    /// The payload is longer than a frame may carry.
    TooLong,
    /// The input ended inside a frame.
    Truncated,
}

/// The four bytes that stand for a length, in the order given.
pub open spec fn length_prefix(length: int, order: ByteOrder) -> Seq<u8> {
    let b0 = (length % 256) as u8;
    let b1 = ((length / 256) % 256) as u8;
    let b2 = ((length / 65536) % 256) as u8;
    let b3 = ((length / 16777216) % 256) as u8;
    match order {
        ByteOrder::Little => seq![b0, b1, b2, b3],
        ByteOrder::Big => seq![b3, b2, b1, b0],
    }
}

/// The length that the first four bytes of a buffer stand for, in the order
/// given.
pub open spec fn prefix_value(head: Seq<u8>, order: ByteOrder) -> int
    recommends
        head.len() >= 4,
{
    match order {
        ByteOrder::Little => head[0] + 256 * head[1] + 65536 * head[2] + 16777216 * head[3],
        ByteOrder::Big => head[3] + 256 * head[2] + 65536 * head[1] + 16777216 * head[0],
    }
}

/// The frame that carries a payload: the length of the payload in four bytes,
/// then the payload.
pub open spec fn frame(payload: Seq<u8>, order: ByteOrder) -> Seq<u8> {
    length_prefix(payload.len() as int, order) + payload
}

/// What the front of a buffer holds.
pub enum Decoded {
    /// Not yet a whole frame.
    Incomplete,
    /// A length prefix that announces more than a frame may carry.
    TooLong,
    /// A whole frame with this payload, taking up this many bytes.
    Frame(Seq<u8>, int),
}

/// Reads the front of a buffer as a frame.
pub open spec fn decode(buffer: Seq<u8>, order: ByteOrder) -> Decoded {
    if buffer.len() < 4 {
        Decoded::Incomplete
    } else {
        let length = prefix_value(buffer, order);
        if length > MAX_FRAME_LENGTH {
            Decoded::TooLong
        } else if buffer.len() < 4 + length {
            Decoded::Incomplete
        } else {
            Decoded::Frame(buffer.subrange(4, 4 + length), 4 + length)
        }
    }
}

/// Writes a payload as one frame. Fails exactly when the payload is longer
/// than a frame may carry.
pub fn encode_frame(payload: &[u8], order: ByteOrder) -> (framed: Result<Vec<u8>, FrameError>)
    ensures
        payload@.len() <= MAX_FRAME_LENGTH ==> framed is Ok && framed->Ok_0@ == frame(
            payload@,
            order,
        ),
        payload@.len() > MAX_FRAME_LENGTH ==> framed == Err::<Vec<u8>, FrameError>(
            FrameError::TooLong,
        ),
{
    let length = payload.len();
    if length > MAX_FRAME_LENGTH {
        return Err(FrameError::TooLong);
    }
    let b0 = (length % 256) as u8;
    let b1 = ((length / 256) % 256) as u8;
    let b2 = ((length / 65536) % 256) as u8;
    let b3 = ((length / 16777216) % 256) as u8;
    let mut framed: Vec<u8> = Vec::new();
    match order {
        ByteOrder::Little => {
            framed.push(b0);
            framed.push(b1);
            framed.push(b2);
            framed.push(b3);
        },
        ByteOrder::Big => {
            framed.push(b3);
            framed.push(b2);
            framed.push(b1);
            framed.push(b0);
        },
    }
    assert(framed@ =~= length_prefix(length as int, order));
    framed.extend_from_slice(payload);
    Ok(framed)
}

/// The input side of the relay: the bytes read so far that no frame has been
/// taken from yet.
#[derive(Debug)]
pub struct FrameReader {
    order: ByteOrder,
    pending: Vec<u8>,
}

/// A frame reader as a plain value.
pub struct FrameReaderView {
    pub order: ByteOrder,
    pub pending: Seq<u8>,
}

impl View for FrameReader {
    type V = FrameReaderView;

    closed spec fn view(&self) -> FrameReaderView {
        FrameReaderView { order: self.order, pending: self.pending@ }
    }
}

impl FrameReader {
    /// A reader that has read nothing.
    pub fn new(order: ByteOrder) -> (reader: FrameReader)
        ensures
            reader@ == (FrameReaderView { order, pending: Seq::empty() }),
    {
        FrameReader { order, pending: Vec::new() }
    }

    /// Takes in the bytes of one read.
    pub fn extend(&mut self, chunk: &[u8])
        ensures
            final(self)@ == (FrameReaderView {
                order: old(self)@.order,
                pending: old(self)@.pending + chunk@,
            }),
    {
        self.pending.extend_from_slice(chunk);
        assert(self.pending@ =~= old(self).pending@ + chunk@);
    }

    /// The length that the pending bytes announce.
    fn announced(&self) -> (length: u64)
        requires
            self@.pending.len() >= 4,
        ensures
            length == prefix_value(self@.pending, self@.order),
    {
        let first = self.pending[0] as u64;
        let second = self.pending[1] as u64;
        let third = self.pending[2] as u64;
        let fourth = self.pending[3] as u64;
        match self.order {
            ByteOrder::Little => first + 256 * second + 65536 * third + 16777216 * fourth,
            ByteOrder::Big => fourth + 256 * third + 65536 * second + 16777216 * first,
        }
    }

    /// Takes the next frame off the front of the pending bytes, if a whole
    /// one is there, and returns its payload. Returns `None` and keeps the
    /// bytes while the frame is not complete. Fails, keeping the bytes, when
    /// the length prefix announces more than a frame may carry.
    pub fn next_frame(&mut self) -> (payload: Result<Option<Vec<u8>>, FrameError>)
        ensures
            final(self)@.order == old(self)@.order,
            match decode(old(self)@.pending, old(self)@.order) {
                Decoded::Incomplete => payload == Ok::<Option<Vec<u8>>, FrameError>(None)
                    && final(self)@ == old(self)@,
                Decoded::TooLong => payload == Err::<Option<Vec<u8>>, FrameError>(
                    FrameError::TooLong,
                ) && final(self)@ == old(self)@,
                Decoded::Frame(bytes, consumed) => payload is Ok && payload->Ok_0 is Some
                    && payload->Ok_0->0@ == bytes && final(self)@.pending == old(
                    self,
                )@.pending.skip(consumed),
            },
    {
        if self.pending.len() < HEADER_LENGTH {
            return Ok(None);
        }
        let length = self.announced();
        if length > MAX_FRAME_LENGTH as u64 {
            return Err(FrameError::TooLong);
        }
        let length = length as usize;
        if self.pending.len() - HEADER_LENGTH < length {
            return Ok(None);
        }
        let end = HEADER_LENGTH + length;
        let rest = self.pending.split_off(end);
        let payload = slice_to_vec(slice_subrange(self.pending.as_slice(), HEADER_LENGTH, end));
        self.pending = rest;
        proof {
            let before = old(self)@.pending;
            assert(before.subrange(0, end as int).subrange(4, end as int) =~= before.subrange(
                4,
                end as int,
            ));
            assert(before.subrange(end as int, before.len() as int) =~= before.skip(end as int));
        }
        Ok(Some(payload))
    }

    /// Whether the input may end here: it may between frames, and not inside
    /// one.
    pub fn finish(&self) -> (ended: Result<(), FrameError>)
        ensures
            self@.pending.len() == 0 ==> ended == Ok::<(), FrameError>(()),
            self@.pending.len() > 0 ==> ended == Err::<(), FrameError>(FrameError::Truncated),
    {
        if self.pending.len() == 0 {
            Ok(())
        } else {
            Err(FrameError::Truncated)
        }
    }

    /// The number of bytes read that no frame has been taken from yet.
    pub fn pending_len(&self) -> (length: usize)
        ensures
            length == self@.pending.len(),
    {
        self.pending.len()
    }
}

/// A length that four bytes can hold is read back from its prefix.
pub proof fn lemma_prefix_value_of_length(length: int, order: ByteOrder)
    requires
        0 <= length < 4294967296,
    ensures
        length_prefix(length, order).len() == 4,
        prefix_value(length_prefix(length, order), order) == length,
{
}

/// A frame followed by any bytes reads back as its payload: writing a payload
/// as a frame and reading the frame gives the payload, byte for byte, and
/// leaves what follows it.
pub proof fn lemma_frame_round_trip(payload: Seq<u8>, following: Seq<u8>, order: ByteOrder)
    requires
        payload.len() <= MAX_FRAME_LENGTH,
    ensures
        decode(frame(payload, order) + following, order) == Decoded::Frame(
            payload,
            4 + payload.len() as int,
        ),
        (frame(payload, order) + following).skip(4 + payload.len() as int) == following,
{
    let buffer = frame(payload, order) + following;
    let prefix = length_prefix(payload.len() as int, order);
    lemma_prefix_value_of_length(payload.len() as int, order);
    assert(buffer[0] == prefix[0] && buffer[1] == prefix[1] && buffer[2] == prefix[2] && buffer[3]
        == prefix[3]);
    assert(prefix_value(buffer, order) == prefix_value(prefix, order));
    assert(buffer.subrange(4, 4 + payload.len() as int) =~= payload);
    assert(buffer.skip(4 + payload.len() as int) =~= following);
}

/// No part of a frame reads as a frame: until its last byte is there, the
/// reader waits.
pub proof fn lemma_partial_frame_is_incomplete(payload: Seq<u8>, order: ByteOrder, taken: int)
    requires
        payload.len() <= MAX_FRAME_LENGTH,
        0 <= taken < 4 + payload.len(),
    ensures
        decode(frame(payload, order).subrange(0, taken), order) == Decoded::Incomplete,
{
    let whole = frame(payload, order);
    let part = whole.subrange(0, taken);
    let prefix = length_prefix(payload.len() as int, order);
    lemma_prefix_value_of_length(payload.len() as int, order);
    if taken >= 4 {
        assert(part[0] == prefix[0] && part[1] == prefix[1] && part[2] == prefix[2] && part[3]
            == prefix[3]);
        assert(prefix_value(part, order) == prefix_value(prefix, order));
    }
}

/// One outcome that the relay waits for.
#[derive(Debug, Clone, PartialEq, Eq)]
pub enum RelayEvent {
    /// The IPC client handed over this message for the browser.
    Message(String),
    /// The channel from the IPC client is closed.
    ChannelClosed,
    /// A frame with this payload arrived on standard input.
    Frame(Vec<u8>),
    /// Standard input could not be read, or what it held is no frame.
    InputFailed,
    /// Standard input ended.
    InputEnded,
}

/// A relay event as a plain value.
pub enum RelayEventView {
    Message(Seq<char>),
    ChannelClosed,
    Frame(Seq<u8>),
    InputFailed,
    InputEnded,
}

impl View for RelayEvent {
    type V = RelayEventView;

    open spec fn view(&self) -> RelayEventView {
        match self {
            RelayEvent::Message(text) => RelayEventView::Message(text@),
            RelayEvent::ChannelClosed => RelayEventView::ChannelClosed,
            RelayEvent::Frame(payload) => RelayEventView::Frame(payload@),
            RelayEvent::InputFailed => RelayEventView::InputFailed,
            RelayEvent::InputEnded => RelayEventView::InputEnded,
        }
    }
}

/// Why the relay ends.
#[derive(Debug, Clone, Copy, PartialEq, Eq, Structural)]
pub enum ExitReason {
    /// The channel from the IPC client is closed.
    ChannelClosed,
    /// Standard input ended.
    InputEnded,
    /// Standard input could not be read, or what it held is no frame.
    InputFailed,
    /// The payload of a frame from standard input is not valid UTF-8.
    InvalidUtf8,
    /// A message for the browser is longer than a frame may carry.
    MessageTooLong,
}

/// What the relay does next.
#[derive(Debug, Clone, PartialEq, Eq)]
pub enum RelayAction {
    /// Write these bytes, one whole frame, to standard output and go on.
    WriteFrame(Vec<u8>),
    /// Hand this message to the IPC client and go on.
    Forward(String),
    /// End the process.
    Exit(ExitReason),
}

/// A relay action as a plain value.
pub enum RelayActionView {
    WriteFrame(Seq<u8>),
    Forward(Seq<char>),
    Exit(ExitReason),
}

impl View for RelayAction {
    type V = RelayActionView;

    open spec fn view(&self) -> RelayActionView {
        match self {
            RelayAction::WriteFrame(bytes) => RelayActionView::WriteFrame(bytes@),
            RelayAction::Forward(text) => RelayActionView::Forward(text@),
            RelayAction::Exit(reason) => RelayActionView::Exit(*reason),
        }
    }
}

/// What the relay does with one event.
pub open spec fn relay_action(event: RelayEventView, order: ByteOrder) -> RelayActionView {
    match event {
        RelayEventView::Message(text) => if encode_utf8(text).len() <= MAX_FRAME_LENGTH {
            RelayActionView::WriteFrame(frame(encode_utf8(text), order))
        } else {
            RelayActionView::Exit(ExitReason::MessageTooLong)
        },
        RelayEventView::ChannelClosed => RelayActionView::Exit(ExitReason::ChannelClosed),
        RelayEventView::Frame(payload) => if valid_utf8(payload) {
            RelayActionView::Forward(decode_utf8(payload))
        } else {
            RelayActionView::Exit(ExitReason::InvalidUtf8)
        },
        RelayEventView::InputFailed => RelayActionView::Exit(ExitReason::InputFailed),
        RelayEventView::InputEnded => RelayActionView::Exit(ExitReason::InputEnded),
    }
}

/// The actions of the relay over a sequence of events: one for each event up
/// to and including the first that ends the process.
pub open spec fn relay_run(events: Seq<RelayEventView>, order: ByteOrder) -> Seq<RelayActionView>
    decreases events.len(),
{
    if events.len() == 0 {
        Seq::empty()
    } else {
        let first = relay_action(events[0], order);
        if first is Exit {
            seq![first]
        } else {
            seq![first] + relay_run(events.drop_first(), order)
        }
    }
}

/// The views of a sequence of events, in order.
pub open spec fn event_views(events: Seq<RelayEvent>) -> Seq<RelayEventView> {
    events.map_values(|event: RelayEvent| event@)
}

/// The views of a sequence of actions, in order.
pub open spec fn action_views(actions: Seq<RelayAction>) -> Seq<RelayActionView> {
    actions.map_values(|action: RelayAction| action@)
}

/// Decides what the relay does with one event. A message from the IPC client
/// is written to standard output as one frame; the payload of a frame from
/// standard input is handed to the IPC client as text, and must be valid
/// UTF-8; the relay ends when either side closes or fails.
pub fn on_event(event: &RelayEvent, order: ByteOrder) -> (action: RelayAction)
    ensures
        action@ == relay_action(event@, order),
{
    match event {
        RelayEvent::Message(text) => match encode_frame(text.as_str().as_bytes(), order) {
            Ok(framed) => RelayAction::WriteFrame(framed),
            Err(_) => RelayAction::Exit(ExitReason::MessageTooLong),
        },
        RelayEvent::ChannelClosed => RelayAction::Exit(ExitReason::ChannelClosed),
        RelayEvent::Frame(payload) => match decode_strict(payload.as_slice()) {
            Some(text) => RelayAction::Forward(text),
            None => RelayAction::Exit(ExitReason::InvalidUtf8),
        },
        RelayEvent::InputFailed => RelayAction::Exit(ExitReason::InputFailed),
        RelayEvent::InputEnded => RelayAction::Exit(ExitReason::InputEnded),
    }
}

/// Runs the relay over the outcomes given, in order, and returns what it
/// does: one action for each event up to and including the first that ends
/// the process. Events after that one are not looked at.
pub fn run(events: &Vec<RelayEvent>, order: ByteOrder) -> (actions: Vec<RelayAction>)
    ensures
        action_views(actions@) == relay_run(event_views(events@), order),
{
    let ghost all = event_views(events@);
    let mut actions: Vec<RelayAction> = Vec::new();
    assert(action_views(actions@) =~= Seq::<RelayActionView>::empty());
    assert(all.skip(0) =~= all);
    let mut i: usize = 0;
    let mut running = true;
    while running && i < events.len()
        invariant
            i <= events.len(),
            all == event_views(events@),
            running ==> action_views(actions@) + relay_run(all.skip(i as int), order) == relay_run(
                all,
                order,
            ),
            !running ==> action_views(actions@) == relay_run(all, order),
        decreases events.len() - i,
    {
        let action = on_event(&events[i], order);
        let ghost before = action_views(actions@);
        let ghost rest = all.skip(i as int);
        proof {
            assert(rest[0] == events@[i as int]@);
            assert(rest.drop_first() =~= all.skip(i + 1));
        }
        running = !matches!(action, RelayAction::Exit(_));
        actions.push(action);
        proof {
            assert(action_views(actions@) =~= before + seq![action@]);
            if running {
                assert(before + (seq![action@] + relay_run(all.skip(i + 1), order)) =~= (before
                    + seq![action@]) + relay_run(all.skip(i + 1), order));
            }
        }
        i += 1;
    }
    proof {
        if running {
            assert(action_views(actions@) + Seq::<RelayActionView>::empty() =~= action_views(
                actions@,
            ));
        }
    }
    actions
}

/// A message from the IPC client that the relay writes as a frame, and a peer
/// relay reads back from that frame, is forwarded with its text unchanged.
pub proof fn lemma_relay_round_trip(text: Seq<char>, following: Seq<u8>, order: ByteOrder)
    requires
        encode_utf8(text).len() <= MAX_FRAME_LENGTH,
    ensures
        relay_action(RelayEventView::Message(text), order) == RelayActionView::WriteFrame(
            frame(encode_utf8(text), order),
        ),
        decode(frame(encode_utf8(text), order) + following, order) == Decoded::Frame(
            encode_utf8(text),
            4 + encode_utf8(text).len() as int,
        ),
        relay_action(RelayEventView::Frame(encode_utf8(text)), order) == RelayActionView::Forward(
            text,
        ),
{
    lemma_frame_round_trip(encode_utf8(text), following, order);
    encode_utf8_valid_utf8(text);
    encode_utf8_decode_utf8(text);
}

} // verus!
