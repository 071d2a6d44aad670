//! What each side of a call decides, one event at a time. A connection carries
//! one call: the caller's header frame and argument frames one way, and one
//! reply frame, or an acknowledgement and a stream of item frames, the other.
//! Code around these machines moves the bytes and awaits the events.
use vstd::prelude::*;

use crate::buffer::buffer_bytes;
use crate::codec::{
    concat_all, drain, feed, frame_of, lemma_feed_is_drain, lemma_frame_round_trip, step, FrameError, Json,
    Step, MAX_FRAME_LEN,
};
use crate::envelope::{
    decode_reply, encode_reply, parse_reply, reply_model, reply_text, Error, Reply, ReplyModel,
};

verus! {

/// What the reading half of a connection delivered next.
pub enum Incoming {
    /// One whole frame, with this payload.
    Frame(Vec<u8>),
    /// The frame codec failed.
    Malformed,
    /// The peer closed its half.
    Closed,
}

pub enum IncomingModel {
    Frame(Seq<u8>),
    Malformed,
    Closed,
}

pub open spec fn incoming_model(ev: Incoming) -> IncomingModel {
    match ev {
        Incoming::Frame(b) => IncomingModel::Frame(b@),
        Incoming::Malformed => IncomingModel::Malformed,
        Incoming::Closed => IncomingModel::Closed,
    }
}

/// The diagnostic for a frame that does not hold a reply.
pub open spec fn decode_failure_text() -> Seq<char> {
    "Could not deserialize message"@
}

/// The diagnostic for a connection that closed before its reply.
pub open spec fn early_end_text() -> Seq<char> {
    "Expected response, got EOF"@
}

/// The reply that a frame stands for: the reply it holds, or an internal
/// failure where it holds none.
pub open spec fn item_of(b: Seq<u8>) -> ReplyModel {
    match parse_reply(b) {
        Some(m) => m,
        None => ReplyModel::Unexpected(decode_failure_text()),
    }
}

/// A failure ends the stream that carries it.
pub open spec fn is_failure(m: ReplyModel) -> bool {
    !(m is Value)
}

fn decode_failure() -> (r: Reply)
    ensures
        reply_model(r) == ReplyModel::Unexpected(decode_failure_text()),
{
    Err(Error::Unexpected("Could not deserialize message".to_owned()))
}

fn early_end() -> (r: Reply)
    ensures
        reply_model(r) == ReplyModel::Unexpected(early_end_text()),
{
    Err(Error::Unexpected("Expected response, got EOF".to_owned()))
}

/// The reply that a frame stands for.
pub fn read_item(b: &[u8]) -> (r: Reply)
    ensures
        reply_model(r) == item_of(b@),
{
    match decode_reply(b) {
        Ok(x) => x,
        Err(_) => decode_failure(),
    }
}

/// Appends the frame of a reply to `dst`. It is written whenever its text fits
/// under `max_len`; otherwise `dst` is left as it was.
pub fn write_reply(reply: &Reply, max_len: u32, dst: &mut bytes::BytesMut) -> (r: Result<(), FrameError>)
    ensures
        r is Ok ==> buffer_bytes(*final(dst)) == buffer_bytes(*old(dst)) + frame_of(reply_text(reply_model(*reply))),
        r is Err ==> buffer_bytes(*final(dst)) == buffer_bytes(*old(dst)),
        reply_text(reply_model(*reply)).len() <= max_len ==> r is Ok,
        r is Err ==> r == Err::<(), FrameError>(FrameError::TooLarge(reply_text(reply_model(*reply)).len() as u64)),
        r is Ok ==> reply_text(reply_model(*reply)).len() <= max_len,
        r is Ok ==> parse_reply(reply_text(reply_model(*reply))) == Some(reply_model(*reply)),
{
    let text = encode_reply(reply);
    let mut codec: Json<Reply> = Json::with_max_len(max_len);
    codec.encode(text.as_slice(), dst)
}

/// The reading end of a stream of replies: it hands out one reply per frame,
/// in order, and ends at the peer's close, at a malformed frame, or after the
/// first failure it hands out.
pub struct StreamReader {
    pub ended: bool,
}

impl StreamReader {
    pub fn new() -> (r: Self)
        ensures
            !r.ended,
    {
        StreamReader { ended: false }
    }

    /// The next reply of the stream, or `None` once it has ended.
    pub fn next_item(&mut self, ev: Incoming) -> (r: Option<Reply>)
        ensures
            old(self).ended ==> r is None && final(self).ended,
            !old(self).ended ==> match incoming_model(ev) {
                IncomingModel::Frame(b) => r matches Some(x) && reply_model(x) == item_of(b)
                    && final(self).ended == is_failure(item_of(b)),
                IncomingModel::Malformed => r matches Some(x)
                    && reply_model(x) == ReplyModel::Unexpected(decode_failure_text())
                    && final(self).ended,
                IncomingModel::Closed => r is None && final(self).ended,
            },
    {
        if self.ended {
            return None;
        }
        match ev {
            Incoming::Frame(b) => {
                let x = read_item(b.as_slice());
                self.ended = x.is_err();
                Some(x)
            },
            Incoming::Malformed => {
                self.ended = true;
                Some(decode_failure())
            },
            Incoming::Closed => {
                self.ended = true;
                None
            },
        }
    }
}

/// The writing end of a stream of replies: one frame per reply, in order,
/// closing after the first failure it writes, at the end of its source, or
/// when a write fails.
pub struct StreamWriter {
    pub open: bool,
    pub max_len: u32,
}

impl StreamWriter {
    pub fn new(max_len: u32) -> (r: Self)
        ensures
            r.open,
            r.max_len == max_len,
    {
        StreamWriter { open: true, max_len }
    }

    /// Writes the next reply of the source, or closes at its end (`None`).
    pub fn send(&mut self, item: Option<Reply>, dst: &mut bytes::BytesMut) -> (r: Result<(), FrameError>)
        ensures
            final(self).max_len == old(self).max_len,
            !old(self).open ==> r is Ok && !final(self).open
                && buffer_bytes(*final(dst)) == buffer_bytes(*old(dst)),
            old(self).open ==> match item {
                None => r is Ok && !final(self).open
                    && buffer_bytes(*final(dst)) == buffer_bytes(*old(dst)),
                Some(x) => {
                    &&& r is Ok ==> buffer_bytes(*final(dst)) == buffer_bytes(*old(dst)) + frame_of(reply_text(reply_model(x)))
                        && final(self).open == !is_failure(reply_model(x))
                        && reply_text(reply_model(x)).len() <= old(self).max_len
                        && parse_reply(reply_text(reply_model(x))) == Some(reply_model(x))
                    &&& r is Err ==> buffer_bytes(*final(dst)) == buffer_bytes(*old(dst)) && !final(self).open
                    &&& reply_text(reply_model(x)).len() <= old(self).max_len ==> r is Ok
                },
            },
    {
        if !self.open {
            return Ok(());
        }
        match item {
            None => {
                self.open = false;
                Ok(())
            },
            Some(x) => {
                let written = write_reply(&x, self.max_len, dst);
                self.open = written.is_ok() && x.is_ok();
                written
            },
        }
    }
}

/// How a method answers: with one reply (unary and client-streaming methods),
/// or with an acknowledgement followed by a stream of replies
/// (server-streaming and bidirectional methods).
#[derive(Debug, Clone, Copy, PartialEq, Eq, Structural)]
pub enum CallShape {
    Single,
    Streamed,
}

/// Where the calling side of a connection stands.
#[derive(Debug, Clone, Copy, PartialEq, Eq, Structural)]
pub enum ClientPhase {
    /// Waiting for the one reply.
    AwaitReply,
    /// Waiting for the acknowledgement that a stream follows.
    AwaitAck,
    /// Reading the stream.
    Streaming,
    /// Nothing more comes.
    Done,
}

/// What the calling side makes of an event.
pub enum ClientStep {
    /// The call's one reply.
    Finished(Reply),
    /// The callee accepted: a stream follows.
    Opened,
    /// The callee refused before any stream: the call fails with this.
    Rejected(Error<Vec<u8>>),
    /// The next reply of the stream.
    Item(Reply),
    /// The stream has ended.
    End,
}

pub enum ClientStepModel {
    Finished(ReplyModel),
    Opened,
    Rejected(ReplyModel),
    Item(ReplyModel),
    End,
}

pub open spec fn client_step_model(s: ClientStep) -> ClientStepModel {
    match s {
        ClientStep::Finished(x) => ClientStepModel::Finished(reply_model(x)),
        ClientStep::Opened => ClientStepModel::Opened,
        ClientStep::Rejected(e) => ClientStepModel::Rejected(reply_model(Err(e))),
        ClientStep::Item(x) => ClientStepModel::Item(reply_model(x)),
        ClientStep::End => ClientStepModel::End,
    }
}

/// The calling side's next phase and step, for an event in a phase.
pub open spec fn client_next(phase: ClientPhase, ev: IncomingModel) -> (ClientPhase, ClientStepModel) {
    match phase {
        ClientPhase::AwaitReply => (ClientPhase::Done, ClientStepModel::Finished(
            match ev {
                IncomingModel::Frame(b) => item_of(b),
                IncomingModel::Malformed => ReplyModel::Unexpected(decode_failure_text()),
                IncomingModel::Closed => ReplyModel::Unexpected(early_end_text()),
            },
        )),
        ClientPhase::AwaitAck => match ev {
            IncomingModel::Frame(b) => if is_failure(item_of(b)) {
                (ClientPhase::Done, ClientStepModel::Rejected(item_of(b)))
            } else {
                (ClientPhase::Streaming, ClientStepModel::Opened)
            },
            IncomingModel::Malformed => (ClientPhase::Done, ClientStepModel::Rejected(
                ReplyModel::Unexpected(decode_failure_text()),
            )),
            IncomingModel::Closed => (ClientPhase::Done, ClientStepModel::Rejected(
                ReplyModel::Unexpected(early_end_text()),
            )),
        },
        ClientPhase::Streaming => match ev {
            IncomingModel::Frame(b) => (
                if is_failure(item_of(b)) { ClientPhase::Done } else { ClientPhase::Streaming },
                ClientStepModel::Item(item_of(b)),
            ),
            IncomingModel::Malformed => (ClientPhase::Done, ClientStepModel::Item(
                ReplyModel::Unexpected(decode_failure_text()),
            )),
            IncomingModel::Closed => (ClientPhase::Done, ClientStepModel::End),
        },
        ClientPhase::Done => (ClientPhase::Done, ClientStepModel::End),
    }
}

/// The calling side of one connection, after its header and argument frames
/// have gone out: it reads the reply, or the acknowledgement and the stream.
pub struct ClientCall {
    pub phase: ClientPhase,
}

impl ClientCall {
    pub fn new(shape: CallShape) -> (r: Self)
        ensures
            r.phase == (if shape == CallShape::Single { ClientPhase::AwaitReply } else { ClientPhase::AwaitAck }),
    {
        match shape {
            CallShape::Single => ClientCall { phase: ClientPhase::AwaitReply },
            CallShape::Streamed => ClientCall { phase: ClientPhase::AwaitAck },
        }
    }

    /// Takes the next event from the reading half.
    pub fn on_incoming(&mut self, ev: Incoming) -> (r: ClientStep)
        ensures
            (final(self).phase, client_step_model(r)) == client_next(old(self).phase, incoming_model(ev)),
    {
        match self.phase {
            ClientPhase::AwaitReply => {
                self.phase = ClientPhase::Done;
                match ev {
                    Incoming::Frame(b) => ClientStep::Finished(read_item(b.as_slice())),
                    Incoming::Malformed => ClientStep::Finished(decode_failure()),
                    Incoming::Closed => ClientStep::Finished(early_end()),
                }
            },
            ClientPhase::AwaitAck => {
                let x = match ev {
                    Incoming::Frame(b) => read_item(b.as_slice()),
                    Incoming::Malformed => decode_failure(),
                    Incoming::Closed => early_end(),
                };
                match x {
                    Ok(_) => {
                        self.phase = ClientPhase::Streaming;
                        ClientStep::Opened
                    },
                    Err(e) => {
                        self.phase = ClientPhase::Done;
                        ClientStep::Rejected(e)
                    },
                }
            },
            ClientPhase::Streaming => {
                match ev {
                    Incoming::Frame(b) => {
                        let x = read_item(b.as_slice());
                        if x.is_err() {
                            self.phase = ClientPhase::Done;
                        }
                        ClientStep::Item(x)
                    },
                    Incoming::Malformed => {
                        self.phase = ClientPhase::Done;
                        ClientStep::Item(decode_failure())
                    },
                    Incoming::Closed => {
                        self.phase = ClientPhase::Done;
                        ClientStep::End
                    },
                }
            },
            ClientPhase::Done => ClientStep::End,
        }
    }
}

/// Where the serving side of a connection stands.
#[derive(Debug, Clone, Copy, PartialEq, Eq, Structural)]
pub enum ServerPhase {
    /// Waiting for the header frame.
    AwaitHeader,
    /// The header frame has come; the caller decodes it.
    HeaderRead,
    /// The handler for a method of this shape runs.
    Dispatched(CallShape),
    /// The acknowledgement went out; a stream writer drains the handler's
    /// stream and holds the connection open until it ends.
    Draining,
    /// The connection is done with.
    Closed,
}

/// The serving side of one connection.
pub struct ServerConn {
    pub phase: ServerPhase,
    /// The ceiling on the payload of each frame written.
    pub max_len: u32,
}

/// The text of an empty value: `null`.
pub open spec fn null_text() -> Seq<u8> {
    seq![110u8, 117, 108, 108]
}

/// The acknowledgement that a handler's result stands for: an empty value, or
/// its failure.
pub open spec fn ack_model(ack: Result<(), Error<Vec<u8>>>) -> ReplyModel {
    match ack {
        Ok(()) => ReplyModel::Value(null_text()),
        Err(e) => reply_model(Err(e)),
    }
}

impl ServerConn {
    pub fn new(max_len: u32) -> (r: Self)
        ensures
            r.phase == ServerPhase::AwaitHeader,
            r.max_len == max_len,
    {
        ServerConn { phase: ServerPhase::AwaitHeader, max_len }
    }

    /// Takes the first event of the connection: a frame is the header, whose
    /// payload is handed back; anything else ends the connection unanswered.
    pub fn on_header(&mut self, ev: Incoming) -> (r: Option<Vec<u8>>)
        requires
            old(self).phase == ServerPhase::AwaitHeader,
        ensures
            final(self).max_len == old(self).max_len,
            match incoming_model(ev) {
                IncomingModel::Frame(b) => r matches Some(h) && h@ == b
                    && final(self).phase == ServerPhase::HeaderRead,
                _ => r is None && final(self).phase == ServerPhase::Closed,
            },
    {
        match ev {
            Incoming::Frame(b) => {
                self.phase = ServerPhase::HeaderRead;
                Some(b)
            },
            _ => {
                self.phase = ServerPhase::Closed;
                None
            },
        }
    }

    /// The header names no method that can be served: the connection ends
    /// unanswered.
    pub fn abort(&mut self)
        ensures
            final(self).phase == ServerPhase::Closed,
            final(self).max_len == old(self).max_len,
    {
        self.phase = ServerPhase::Closed;
    }

    /// The header names a method of this shape, whose handler now runs.
    pub fn dispatch(&mut self, shape: CallShape)
        requires
            old(self).phase == ServerPhase::HeaderRead,
        ensures
            final(self).phase == ServerPhase::Dispatched(shape),
            final(self).max_len == old(self).max_len,
    {
        self.phase = ServerPhase::Dispatched(shape);
    }

    /// Writes the one reply of a single-reply method; the connection is then
    /// done with, whether or not the write succeeded.
    pub fn respond(&mut self, result: &Reply, dst: &mut bytes::BytesMut) -> (r: Result<(), FrameError>)
        requires
            old(self).phase == ServerPhase::Dispatched(CallShape::Single),
        ensures
            final(self).phase == ServerPhase::Closed,
            final(self).max_len == old(self).max_len,
            r is Ok ==> buffer_bytes(*final(dst)) == buffer_bytes(*old(dst)) + frame_of(reply_text(reply_model(*result))),
            r is Err ==> buffer_bytes(*final(dst)) == buffer_bytes(*old(dst)),
            reply_text(reply_model(*result)).len() <= old(self).max_len ==> r is Ok,
    {
        self.phase = ServerPhase::Closed;
        write_reply(result, self.max_len, dst)
    }

    /// Writes the acknowledgement of a streaming method. Where the handler
    /// gave a stream, the writer that drains it is handed back and holds the
    /// connection open; where it failed, the failure is the acknowledgement
    /// and the connection is done with.
    pub fn acknowledge(&mut self, ack: Result<(), Error<Vec<u8>>>, dst: &mut bytes::BytesMut) -> (r: Result<Option<StreamWriter>, FrameError>)
        requires
            old(self).phase == ServerPhase::Dispatched(CallShape::Streamed),
        ensures
            final(self).max_len == old(self).max_len,
            r is Ok ==> buffer_bytes(*final(dst)) == buffer_bytes(*old(dst)) + frame_of(reply_text(ack_model(ack))),
            r is Err ==> buffer_bytes(*final(dst)) == buffer_bytes(*old(dst)) && final(self).phase == ServerPhase::Closed,
            r is Ok <==> reply_text(ack_model(ack)).len() <= old(self).max_len,
            r matches Ok(Some(w)) ==> ack is Ok && w.open && w.max_len == old(self).max_len
                && final(self).phase == ServerPhase::Draining,
            r matches Ok(None) ==> ack is Err && final(self).phase == ServerPhase::Closed,
            ack is Ok && r is Ok ==> r matches Ok(Some(_)),
    {
        let accepted = ack.is_ok();
        let reply: Reply = match ack {
            Ok(()) => Ok(vec![110u8, 117, 108, 108]),
            Err(e) => Err(e),
        };
        assert(reply_model(reply) == ack_model(ack));
        match write_reply(&reply, self.max_len, dst) {
            Ok(()) => {
                if accepted {
                    self.phase = ServerPhase::Draining;
                    Ok(Some(StreamWriter::new(self.max_len)))
                } else {
                    self.phase = ServerPhase::Closed;
                    Ok(None)
                }
            },
            Err(e) => {
                self.phase = ServerPhase::Closed;
                Err(e)
            },
        }
    }
}

/// The frames of several payloads, one after another.
pub open spec fn frames_of(ts: Seq<Seq<u8>>) -> Seq<u8>
    decreases ts.len(),
{
    if ts.len() == 0 {
        Seq::empty()
    } else {
        frame_of(ts[0]) + frames_of(ts.skip(1))
    }
}

/// Frames written one after another are read back as the same payloads.
proof fn lemma_frames_drain(ts: Seq<Seq<u8>>, max: nat)
    requires
        max <= MAX_FRAME_LEN,
        forall|i: int| 0 <= i < ts.len() ==> (#[trigger] ts[i]).len() <= max,
    ensures
        drain(frames_of(ts), max) == (ts, Seq::<u8>::empty(), false),
    decreases ts.len(),
{
    if ts.len() == 0 {
        assert(ts == Seq::<Seq<u8>>::empty());
    } else {
        let rest = ts.skip(1);
        assert forall|i: int| 0 <= i < rest.len() implies (#[trigger] rest[i]).len() <= max by {
            assert(rest[i] == ts[i + 1]);
        }
        lemma_frame_round_trip(ts[0], frames_of(rest), max);
        lemma_frames_drain(rest, max);
        assert(seq![ts[0]] + rest == ts);
    }
}

/// Replies written one after another on a connection reach the reader on the
/// other side as the same replies, in the same order, however the bytes are
/// cut into chunks on the way, and nothing is left over.
pub proof fn lemma_stream_in_order(texts: Seq<Seq<u8>>, items: Seq<ReplyModel>, chunks: Seq<Seq<u8>>, max: nat)
    requires
        max <= MAX_FRAME_LEN,
        texts.len() == items.len(),
        forall|i: int| 0 <= i < texts.len() ==> (#[trigger] texts[i]).len() <= max,
        forall|i: int| 0 <= i < texts.len() ==> parse_reply(#[trigger] texts[i]) == Some(items[i]),
        concat_all(chunks) == frames_of(texts),
    ensures
        feed(chunks, max).0.len() == items.len(),
        forall|i: int| 0 <= i < items.len() ==> item_of(#[trigger] feed(chunks, max).0[i]) == items[i],
        feed(chunks, max).1 == Seq::<u8>::empty(),
        !feed(chunks, max).2,
{
    lemma_feed_is_drain(chunks, max);
    lemma_frames_drain(texts, max);
    assert forall|i: int| 0 <= i < items.len() implies item_of(#[trigger] feed(chunks, max).0[i]) == items[i] by {
        assert(feed(chunks, max).0[i] == texts[i]);
    }
}

/// The one reply of a call reaches the caller as it was written: a value as
/// that value, a callee's error as that error, a diagnostic as that text.
pub proof fn lemma_single_reply_delivered(text: Seq<u8>, m: ReplyModel, max: nat)
    requires
        max <= MAX_FRAME_LEN,
        text.len() <= max,
        parse_reply(text) == Some(m),
    ensures
        step(frame_of(text), max) == Step::Frame(text),
        client_next(ClientPhase::AwaitReply, IncomingModel::Frame(text)) == (ClientPhase::Done, ClientStepModel::Finished(m)),
{
    lemma_frame_round_trip(text, Seq::empty(), max);
    assert(frame_of(text) + Seq::<u8>::empty() == frame_of(text));
}

/// A call ends on the calling side: after its one reply, after the close of a
/// stream, and after a failure; once ended it hands out nothing more.
pub proof fn lemma_call_ends(ev: IncomingModel)
    ensures
        client_next(ClientPhase::AwaitReply, ev).0 == ClientPhase::Done,
        client_next(ClientPhase::Streaming, IncomingModel::Closed) == (ClientPhase::Done, ClientStepModel::End),
        client_next(ClientPhase::Done, ev) == (ClientPhase::Done, ClientStepModel::End),
        client_next(ClientPhase::Streaming, ev).1 matches ClientStepModel::Item(m) && is_failure(m)
            ==> client_next(ClientPhase::Streaming, ev).0 == ClientPhase::Done,
{
}

/// A streaming call whose acknowledgement is a failure fails with that
/// failure, and no stream opens; an accepted one opens the stream.
pub proof fn lemma_ack_decides_stream(text: Seq<u8>, m: ReplyModel)
    requires
        parse_reply(text) == Some(m),
    ensures
        is_failure(m) ==> client_next(ClientPhase::AwaitAck, IncomingModel::Frame(text)) == (ClientPhase::Done, ClientStepModel::Rejected(m)),
        !is_failure(m) ==> client_next(ClientPhase::AwaitAck, IncomingModel::Frame(text)) == (ClientPhase::Streaming, ClientStepModel::Opened),
{
}

} // verus!
