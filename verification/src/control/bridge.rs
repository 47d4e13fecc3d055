//! The request side of the bridge link: request ids, request frames, and the
//! receive buffer from which the answer to the pending request is picked.
//!
//! The UART itself is driven by the caller: it writes the request frame of
//! [`BridgeControl::begin_transaction`], hands every chunk it reads to
//! [`BridgeControl::receive`], asks [`BridgeControl::poll_response`] after
//! each, and calls [`BridgeControl::abandon_response`] when it gives up waiting.

use vstd::prelude::*;

use super::buffers::{reply_bytes, reply_from_slice};
use super::{command_error_of, CommandError};
use crate::bridge_protocol::{declared_frame_length, decode_response, encode_request, ProtocolError};

verus! {

/// Capacity of the receive buffer, which is also the longest frame accepted.
pub const FRAME_BUF_LEN: usize = 512;

/// Capacity of the request frame buffer.
pub const REQUEST_BUF_LEN: usize = 260;

pub struct BridgeControl {
    rx_buf: [u8; 512],
    rx_len: usize,
    next_id: u8,
}

/// A request frame ready to be written: `frame[..len]`, sent under `id`.
pub struct PendingRequest {
    pub id: u8,
    pub frame: [u8; 260],
    pub len: usize,
}

/// The request id that follows `id`: one more, wrapping from 255 to 0.
pub open spec fn id_after(id: u8) -> u8 {
    if id == 255 {
        0
    } else {
        (id + 1) as u8
    }
}

/// What a frame answering request `expected_id` gives the caller: its payload,
/// or the error it carries, mapped to the host's errors; a payload longer than
/// a reply buffer is an overflow.
pub open spec fn reply_outcome(expected_id: u8, frame: Seq<u8>) -> Result<Seq<u8>, CommandError> {
    match crate::bridge_protocol::response_status(expected_id, frame) {
        Ok(payload) => if payload.len() <= 256 {
            Ok(payload)
        } else {
            Err(CommandError::BufferOverflow)
        },
        Err(e) => Err(command_error_of(e)),
    }
}

/// Polling received bytes for the answer to `expected_id`: the outcome, if
/// one is decided, and the bytes left in the buffer. Complete frames for
/// other ids are dropped; an impossible length or a full buffer without a
/// complete frame drops everything and fails.
pub open spec fn poll_outcome(pending: Seq<u8>, expected_id: u8) -> (
    Option<Result<Seq<u8>, CommandError>>,
    Seq<u8>,
)
    decreases pending.len(),
{
    if pending.len() < 2 {
        (None, pending)
    } else {
        let n = crate::bridge_protocol::le16(pending[0], pending[1]);
        if n < 3 || n > FRAME_BUF_LEN {
            (Some(Err(CommandError::Invalid)), Seq::empty())
        } else if pending.len() < n {
            if pending.len() == FRAME_BUF_LEN {
                (Some(Err(CommandError::Invalid)), Seq::empty())
            } else {
                (None, pending)
            }
        } else if pending[2] != expected_id {
            poll_outcome(pending.skip(n), expected_id)
        } else {
            (Some(reply_outcome(expected_id, pending.take(n))), pending.skip(n))
        }
    }
}

impl BridgeControl {
    #[verifier::type_invariant]
    spec fn buffer_bounded(self) -> bool {
        self.rx_len <= FRAME_BUF_LEN
    }

    /// The bytes received and not yet consumed.
    pub closed spec fn pending(self) -> Seq<u8> {
        self.rx_buf@.take(self.rx_len as int)
    }

    /// The id the next request is sent under.
    pub closed spec fn next_request_id(self) -> u8 {
        self.next_id
    }

    pub fn new() -> (r: Self)
        ensures
            r.pending() == Seq::<u8>::empty(),
            r.next_request_id() == 0,
    {
        let r = Self { rx_buf: [0u8; 512], rx_len: 0, next_id: 0 };
        assert(r.pending() =~= Seq::<u8>::empty());
        r
    }

    /// Takes the next request id and frames the request under it. The id is
    /// used up even when the request does not fit.
    pub fn begin_transaction(&mut self, page: u8, command: u8, data: &[u8]) -> (r: Result<
        PendingRequest,
        CommandError,
    >)
        ensures
            final(self).pending() == old(self).pending(),
            final(self).next_request_id() == id_after(old(self).next_request_id()),
            r is Ok <==> data@.len() + 6 <= REQUEST_BUF_LEN,
            match r {
                Ok(request) => request.id == old(self).next_request_id() && request.len
                    == data@.len() + 6 && request.frame@.take(request.len as int)
                    == crate::bridge_protocol::request_frame(request.id, page, command, data@),
                Err(e) => e == CommandError::BufferOverflow,
            },
    {
        proof {
            use_type_invariant(&*self);
        }
        let id = self.next_id;
        self.next_id = self.next_id.wrapping_add(1);
        let mut frame = [0u8; 260];
        let len = match encode_request(id, page, command, data, &mut frame) {
            Ok(len) => len,
            Err(e) => return Err(CommandError::from_protocol(e)),
        };
        proof {
            assert(frame@.take(len as int) =~= crate::bridge_protocol::request_frame(
                id,
                page,
                command,
                data@,
            ));
        }
        Ok(PendingRequest { id, frame, len })
    }

    /// Forgets every received byte, as after waiting too long for an answer.
    pub fn abandon_response(&mut self)
        ensures
            final(self).pending() == Seq::<u8>::empty(),
            final(self).next_request_id() == old(self).next_request_id(),
    {
        self.rx_len = 0;
        assert(self.pending() =~= Seq::<u8>::empty());
    }

    /// How many more bytes the receive buffer takes.
    pub fn free_space(&self) -> (r: usize)
        ensures
            r == FRAME_BUF_LEN - self.pending().len(),
    {
        proof {
            use_type_invariant(self);
        }
        FRAME_BUF_LEN - self.rx_len
    }

    /// Appends received bytes, as many as there is room for, and returns how many.
    pub fn receive(&mut self, data: &[u8]) -> (r: usize)
        ensures
            r == (if data@.len() <= FRAME_BUF_LEN - old(self).pending().len() {
                data@.len() as int
            } else {
                FRAME_BUF_LEN - old(self).pending().len()
            }),
            final(self).pending() == old(self).pending() + data@.take(r as int),
            final(self).next_request_id() == old(self).next_request_id(),
    {
        proof {
            use_type_invariant(&*self);
        }
        let room = FRAME_BUF_LEN - self.rx_len;
        let count = if data.len() <= room {
            data.len()
        } else {
            room
        };
        let start = self.rx_len;
        let mut i: usize = 0;
        while i < count
            invariant
                start == old(self).rx_len,
                start + count <= FRAME_BUF_LEN,
                count <= data@.len(),
                i <= count,
                self.rx_len == start,
                self.next_id == old(self).next_id,
                forall|j: int| 0 <= j < start ==> self.rx_buf@[j] == old(self).rx_buf@[j],
                forall|j: int| 0 <= j < i ==> self.rx_buf@[start + j] == data@[j],
            decreases count - i,
        {
            self.rx_buf[start + i] = data[i];
            i = i + 1;
        }
        self.rx_len = start + count;
        assert(self.pending() =~= old(self).pending() + data@.take(count as int));
        count
    }

    /// Looks through the received bytes for the answer to request
    /// `expected_id`, dropping complete frames for other ids. `None` means
    /// more bytes are needed.
    pub fn poll_response(&mut self, expected_id: u8) -> (r: Option<
        Result<heapless::Vec<u8, 256>, CommandError>,
    >)
        ensures
            final(self).next_request_id() == old(self).next_request_id(),
            final(self).pending() == poll_outcome(old(self).pending(), expected_id).1,
            match r {
                None => poll_outcome(old(self).pending(), expected_id).0 is None,
                Some(Ok(reply)) => poll_outcome(old(self).pending(), expected_id).0 == Some(
                    Ok::<Seq<u8>, CommandError>(reply_bytes(reply)),
                ),
                Some(Err(e)) => poll_outcome(old(self).pending(), expected_id).0 == Some(
                    Err::<Seq<u8>, CommandError>(e),
                ),
            },
    {
        proof {
            use_type_invariant(&*self);
        }
        loop
            invariant
                self.rx_len <= FRAME_BUF_LEN,
                self.next_id == old(self).next_id,
                poll_outcome(self.pending(), expected_id) == poll_outcome(
                    old(self).pending(),
                    expected_id,
                ),
            decreases self.rx_len,
        {
            let ghost before = self.pending();
            let received = vstd::slice::slice_subrange(self.rx_buf.as_slice(), 0, self.rx_len);
            assert(received@ == before);
            let frame_length = match declared_frame_length(received, FRAME_BUF_LEN) {
                Ok(frame_length) => frame_length,
                Err(error) => {
                    self.rx_len = 0;
                    assert(self.pending() =~= Seq::<u8>::empty());
                    return Some(Err(CommandError::from_protocol(error)));
                },
            };
            match frame_length {
                Some(frame_len) => {
                    let response_id = self.rx_buf[2];
                    let decoded: Result<Result<heapless::Vec<u8, 256>, ()>, ProtocolError> =
                        if response_id == expected_id {
                        let frame = vstd::slice::slice_subrange(
                            self.rx_buf.as_slice(),
                            0,
                            frame_len,
                        );
                        assert(frame@ == before.take(frame_len as int));
                        match decode_response(expected_id, frame) {
                            Ok(payload) => Ok(reply_from_slice(payload)),
                            Err(e) => Err(e),
                        }
                    } else {
                        Err(ProtocolError::InvalidResponse)
                    };

                    let excess = self.rx_len - frame_len;
                    assert(forall|j: int| 0 <= j < self.rx_len ==> self.rx_buf@[j] == before[j]);
                    let mut i: usize = 0;
                    while i < excess
                        invariant
                            frame_len + excess <= FRAME_BUF_LEN,
                            self.rx_len == frame_len + excess,
                            before.len() == frame_len + excess,
                            self.next_id == old(self).next_id,
                            i <= excess,
                            forall|j: int|
                                0 <= j < i ==> self.rx_buf@[j] == before[frame_len + j],
                            forall|j: int|
                                frame_len + i <= j < frame_len + excess ==> self.rx_buf@[j]
                                    == before[j],
                        decreases excess - i,
                    {
                        let byte = self.rx_buf[frame_len + i];
                        self.rx_buf[i] = byte;
                        i = i + 1;
                    }
                    self.rx_len = excess;
                    assert(self.pending() =~= before.skip(frame_len as int));

                    if response_id != expected_id {
                        continue;
                    }
                    return Some(
                        match decoded {
                            Ok(Ok(reply)) => Ok(reply),
                            Ok(Err(())) => Err(CommandError::BufferOverflow),
                            Err(e) => Err(CommandError::from_protocol(e)),
                        },
                    );
                },
                None => {},
            }
            if self.rx_len == FRAME_BUF_LEN {
                self.rx_len = 0;
                assert(self.pending() =~= Seq::<u8>::empty());
                return Some(Err(CommandError::Invalid));
            }
            return None;
        }
    }
}

/// A complete reply to another request is dropped, and polling goes on with
/// the bytes that follow it.
pub proof fn law_other_reply_dropped(
    other_id: u8,
    payload: Seq<u8>,
    rest: Seq<u8>,
    expected_id: u8,
)
    requires
        other_id != expected_id,
        payload.len() + 3 <= FRAME_BUF_LEN,
    ensures
        poll_outcome(crate::bridge_protocol::response_frame(other_id, payload) + rest, expected_id)
            == poll_outcome(rest, expected_id),
{
    let frame = crate::bridge_protocol::response_frame(other_id, payload);
    crate::bridge_protocol::lemma_length_prefix_read_back(payload.len() + 3int);
    assert((frame + rest).skip(frame.len() as int) =~= rest);
    assert((frame + rest)[2] == other_id);
}

/// A complete reply to the pending request hands its payload to the caller
/// and leaves the bytes that follow it for later, unless the payload is a
/// single error code.
pub proof fn law_reply_delivered(expected_id: u8, payload: Seq<u8>, rest: Seq<u8>)
    requires
        payload.len() <= 256,
        !(payload.len() == 1 && crate::bridge_protocol::bridge_error(payload[0]) is Some),
    ensures
        poll_outcome(crate::bridge_protocol::response_frame(expected_id, payload) + rest, expected_id)
            == (Some(Ok::<Seq<u8>, CommandError>(payload)), rest),
{
    let frame = crate::bridge_protocol::response_frame(expected_id, payload);
    crate::bridge_protocol::lemma_length_prefix_read_back(payload.len() + 3int);
    crate::bridge_protocol::law_response_read_back(expected_id, payload);
    assert((frame + rest).skip(frame.len() as int) =~= rest);
    assert((frame + rest).take(frame.len() as int) =~= frame);
    assert((frame + rest)[2] == expected_id);
}

/// A reply to the pending request that carries an error code fails with the
/// matching host error, and leaves the bytes that follow it for later.
pub proof fn law_error_reply_delivered(expected_id: u8, code: u8, rest: Seq<u8>)
    requires
        crate::bridge_protocol::bridge_error(code) is Some,
    ensures
        poll_outcome(crate::bridge_protocol::response_frame(expected_id, seq![code]) + rest, expected_id)
            == (Some(Err::<Seq<u8>, CommandError>(
            command_error_of(crate::bridge_protocol::bridge_error(code).unwrap()),
        )), rest),
{
    let frame = crate::bridge_protocol::response_frame(expected_id, seq![code]);
    crate::bridge_protocol::lemma_length_prefix_read_back(4);
    crate::bridge_protocol::law_error_code_read_back(expected_id, code);
    assert((frame + rest).skip(4) =~= rest);
    assert((frame + rest).take(4) =~= frame);
    assert((frame + rest)[2] == expected_id);
}

/// A reply that has only partly arrived decides nothing and is kept whole.
pub proof fn law_partial_reply_waits(id: u8, payload: Seq<u8>, k: int, expected_id: u8)
    requires
        payload.len() + 3 <= FRAME_BUF_LEN,
        0 <= k < payload.len() + 3,
    ensures
        ({
            let part = crate::bridge_protocol::response_frame(id, payload).take(k);
            poll_outcome(part, expected_id) == (None::<Result<Seq<u8>, CommandError>>, part)
        }),
{
    crate::bridge_protocol::lemma_length_prefix_read_back(payload.len() + 3int);
}

/// Request ids count up from 0 and wrap from 255 to 0: given the successive
/// states of a controller made by `new` (next id 0), each reached from the one
/// before by `begin_transaction` (next id advanced by `id_after`), the state
/// after k requests sends the next request under id k mod 256. The other
/// operations keep the next id.
pub proof fn law_request_ids_count_up(states: Seq<BridgeControl>)
    requires
        states.len() > 0,
        states[0].next_request_id() == 0,
        forall|i: int|
            0 <= i < states.len() - 1 ==> #[trigger] states[i + 1].next_request_id() == id_after(
                states[i].next_request_id(),
            ),
    ensures
        forall|k: int| 0 <= k < states.len() ==> #[trigger] states[k].next_request_id() == k % 256,
    decreases states.len(),
{
    if states.len() > 1 {
        let front = states.drop_last();
        assert forall|i: int| 0 <= i < front.len() - 1 implies #[trigger] front[i + 1].next_request_id()
            == id_after(front[i].next_request_id()) by {
            assert(front[i + 1] == states[i + 1]);
        }
        law_request_ids_count_up(front);
        let last = states.len() - 1;
        assert(front[last - 1] == states[last - 1]);
        assert(states[last - 1].next_request_id() == (last - 1) % 256);
        let before = last - 1;
        assert(states[before + 1].next_request_id() == id_after(states[before].next_request_id()));
        assert(states[last].next_request_id() == id_after(states[last - 1].next_request_id()));
        assert(last % 256 == if (last - 1) % 256 == 255 {
            0
        } else {
            (last - 1) % 256 + 1
        });
        assert forall|k: int| 0 <= k < states.len() implies #[trigger] states[k].next_request_id()
            == k % 256 by {
            if k < last {
                assert(front[k] == states[k]);
            }
        }
    }
}

} // verus!
