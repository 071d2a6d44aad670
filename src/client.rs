//! The calling side: where a call is sent and how it starts.
use vstd::prelude::*;

use crate::buffer::buffer_bytes;
use crate::codec::{frame_of, FrameError, Json, MAX_FRAME_LEN};
use crate::protocol::{CallShape, ClientCall, ClientPhase, StreamWriter};

verus! {

/// A client for the methods that `M` names, calling the server at `addr`.
pub struct ClientInner<A, M> {
    pub addr: A,
    /// The ceiling on the payload of each frame, both ways.
    pub max_len: u32,
    pub marker: core::marker::PhantomData<M>,
}

impl<A, M> ClientInner<A, M> {
    pub fn new(addr: A) -> (r: Self)
        ensures
            r.addr == addr,
            r.max_len == MAX_FRAME_LEN,
    {
        ClientInner { addr, max_len: MAX_FRAME_LEN, marker: core::marker::PhantomData }
    }

    /// Starts a call on a fresh connection: writes the frame of the header's
    /// JSON text to `dst`, and hands back the machine that reads the answer
    /// and the writer for the argument frames. Refuses a header longer than
    /// the ceiling, leaving `dst` as it was.
    pub fn start_call(&self, header: &[u8], shape: CallShape, dst: &mut bytes::BytesMut) -> (r: Result<(ClientCall, StreamWriter), FrameError>)
        ensures
            header@.len() <= self.max_len <==> r is Ok,
            r is Ok ==> buffer_bytes(*final(dst)) == buffer_bytes(*old(dst)) + frame_of(header@),
            r is Err ==> buffer_bytes(*final(dst)) == buffer_bytes(*old(dst)),
            r matches Ok((call, writer)) ==> writer.open && writer.max_len == self.max_len
                && call.phase == (if shape == CallShape::Single { ClientPhase::AwaitReply } else { ClientPhase::AwaitAck }),
    {
        let mut codec: Json<M> = Json::with_max_len(self.max_len);
        match codec.encode(header, dst) {
            Ok(()) => Ok((ClientCall::new(shape), StreamWriter::new(self.max_len))),
            Err(e) => Err(e),
        }
    }
}

} // verus!
