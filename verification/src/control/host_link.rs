//! Framing of the command packets that arrive from the host on the control
//! serial link. Bytes are collected in a fixed buffer; each complete packet becomes
//! a [`Command`], and a packet that cannot be framed or parsed becomes an
//! error command that answers under the packet's id.
//!
//! The USB endpoint is driven by the caller: before each read it calls
//! [`CommandFramer::make_room`], hands what it reads to
//! [`CommandFramer::receive`], and then takes commands from
//! [`CommandFramer::next_command`] until it answers `None`.

use vstd::prelude::*;

use super::{command_accepted, parsed_as, Command, CommandError, CommandInner};

verus! {

/// Capacity of the receive buffer, which is also the longest packet accepted.
pub const HOST_BUF_LEN: usize = 4098;

/// Shortest packet: length, id, bus, page and command bytes.
pub const MIN_PACKET_LEN: usize = 6;

pub struct CommandFramer {
    buf: [u8; 4098],
    num_read: usize,
}

/// An error command answered under `id`.
pub open spec fn is_error_command(c: Command, id: u8, error: CommandError) -> bool {
    &&& c.id == id
    &&& c.bus == 0
    &&& c.inner == CommandInner::Error(error)
}

/// `c` is what the packet bytes after the length (`ID, BUS, PAGE, CMD, DATA...`)
/// ask for, or, when they ask for nothing this firmware understands, the error
/// command that refuses them.
pub open spec fn packet_command(packet: Seq<u8>, c: Command) -> bool {
    if command_accepted(packet) {
        parsed_as(packet, c)
    } else {
        is_error_command(c, packet[0], CommandError::Invalid)
    }
}

/// One step of framing: `buf` is the whole buffer before and `after` after,
/// of which the first `n` and `n2` bytes are received and not yet framed.
/// A length outside `6..=4098` refuses everything received, under the id in
/// the buffer's third byte; an incomplete packet waits; a complete one is
/// taken out and the rest moved to the front.
pub open spec fn framing_step(
    buf: Seq<u8>,
    n: int,
    r: Option<Command>,
    after: Seq<u8>,
    n2: int,
) -> bool {
    if n < 2 {
        r is None && after == buf && n2 == n
    } else {
        let len = crate::bridge_protocol::le16(buf[0], buf[1]);
        if len < MIN_PACKET_LEN || len > HOST_BUF_LEN {
            &&& r matches Some(c) && is_error_command(c, buf[2], CommandError::Invalid)
            &&& after == buf
            &&& n2 == 0
        } else if n < len {
            r is None && after == buf && n2 == n
        } else {
            &&& r matches Some(c) && packet_command(buf.subrange(2, len), c)
            &&& after == buf.subrange(len, n) + buf.skip(n - len)
            &&& n2 == n - len
        }
    }
}

impl CommandFramer {
    #[verifier::type_invariant]
    spec fn buffer_bounded(self) -> bool {
        self.num_read <= HOST_BUF_LEN
    }

    /// The whole receive buffer, including bytes left over from earlier packets.
    pub closed spec fn buffer(self) -> Seq<u8> {
        self.buf@
    }

    /// How many bytes at the front of the buffer are received and not yet framed.
    pub closed spec fn received(self) -> nat {
        self.num_read as nat
    }

    pub fn new() -> (r: Self)
        ensures
            r.buffer() == Seq::new(HOST_BUF_LEN as nat, |i: int| 0u8),
            r.received() == 0,
    {
        let r = Self { buf: [0u8; 4098], num_read: 0 };
        assert(r.buffer() =~= Seq::new(HOST_BUF_LEN as nat, |i: int| 0u8));
        r
    }

    /// Before a read: when the buffer is full, everything received is refused
    /// with an overflow error under the id in the buffer's third byte.
    pub fn make_room(&mut self) -> (r: Option<Command>)
        ensures
            final(self).buffer() == old(self).buffer(),
            old(self).received() == HOST_BUF_LEN ==> final(self).received() == 0 && (r matches Some(
                c,
            ) && is_error_command(c, old(self).buffer()[2], CommandError::BufferOverflow)),
            old(self).received() < HOST_BUF_LEN ==> final(self).received() == old(self).received()
                && r is None,
    {
        proof {
            use_type_invariant(&*self);
        }
        if self.num_read == HOST_BUF_LEN {
            let id = self.buf[2];
            self.num_read = 0;
            return Some(
                Command { id, bus: 0, inner: CommandInner::Error(CommandError::BufferOverflow) },
            );
        }
        None
    }

    /// How many more bytes the buffer takes.
    pub fn free_space(&self) -> (r: usize)
        ensures
            r == HOST_BUF_LEN - self.received(),
    {
        proof {
            use_type_invariant(self);
        }
        HOST_BUF_LEN - self.num_read
    }

    /// Appends bytes read from the host, as many as there is room for, and returns how many.
    pub fn receive(&mut self, data: &[u8]) -> (r: usize)
        ensures
            r == (if data@.len() <= HOST_BUF_LEN - old(self).received() {
                data@.len() as int
            } else {
                HOST_BUF_LEN - old(self).received()
            }),
            final(self).received() == old(self).received() + r,
            final(self).buffer() == old(self).buffer().take(old(self).received() as int)
                + data@.take(r as int) + old(self).buffer().skip(old(self).received() + r),
    {
        proof {
            use_type_invariant(&*self);
        }
        let room = HOST_BUF_LEN - self.num_read;
        let count = if data.len() <= room {
            data.len()
        } else {
            room
        };
        let start = self.num_read;
        let mut i: usize = 0;
        while i < count
            invariant
                start == old(self).num_read,
                start + count <= HOST_BUF_LEN,
                count <= data@.len(),
                i <= count,
                self.num_read == start,
                self.buf@.len() == HOST_BUF_LEN,
                forall|j: int|
                    0 <= j < HOST_BUF_LEN && !(start <= j < start + i) ==> self.buf@[j]
                        == old(self).buf@[j],
                forall|j: int| 0 <= j < i ==> self.buf@[start + j] == data@[j],
            decreases count - i,
        {
            self.buf[start + i] = data[i];
            i = i + 1;
        }
        self.num_read = start + count;
        assert(self.buffer() =~= old(self).buffer().take(start as int) + data@.take(count as int)
            + old(self).buffer().skip(start + count));
        count
    }

    /// Frames the next packet from the received bytes: `None` when more bytes
    /// are needed, else the command to carry out or the error command to answer.
    pub fn next_command(&mut self) -> (r: Option<Command>)
        ensures
            framing_step(
                old(self).buffer(),
                old(self).received() as int,
                r,
                final(self).buffer(),
                final(self).received() as int,
            ),
    {
        proof {
            use_type_invariant(&*self);
        }
        if self.num_read < 2 {
            return None;
        }
        let frame_len = self.buf[0] as usize + self.buf[1] as usize * 256;
        if frame_len < MIN_PACKET_LEN || frame_len > HOST_BUF_LEN {
            let id = self.buf[2];
            self.num_read = 0;
            return Some(Command { id, bus: 0, inner: CommandInner::Error(CommandError::Invalid) });
        }
        if self.num_read < frame_len {
            return None;
        }
        let ghost before = self.buf@;
        let id = self.buf[2];
        let packet = vstd::slice::slice_subrange(self.buf.as_slice(), 2, frame_len);
        assert(packet@ == before.subrange(2, frame_len as int));
        let command = match Command::from_bytes(packet) {
            Ok(command) => command,
            Err(error) => Command { id, bus: 0, inner: CommandInner::Error(error) },
        };
        let remaining = self.num_read - frame_len;
        let mut i: usize = 0;
        while i < remaining
            invariant
                frame_len + remaining <= HOST_BUF_LEN,
                self.num_read == frame_len + remaining,
                before.len() == HOST_BUF_LEN,
                self.buf@.len() == HOST_BUF_LEN,
                i <= remaining,
                forall|j: int| 0 <= j < i ==> self.buf@[j] == before[frame_len + j],
                forall|j: int| i <= j < HOST_BUF_LEN ==> self.buf@[j] == before[j],
            decreases remaining - i,
        {
            let byte = self.buf[frame_len + i];
            self.buf[i] = byte;
            i = i + 1;
        }
        self.num_read = remaining;
        assert(self.buf@ =~= before.subrange(frame_len as int, (frame_len + remaining) as int)
            + before.skip(remaining as int));
        Some(command)
    }
}

/// A command packet in the request format that has fully arrived at the
/// front of the buffer is framed as one command under its id, parsed from its
/// bytes or refused, and nothing received is left over.
pub proof fn law_request_packet_framed(
    id: u8,
    page: u8,
    command: u8,
    data: Seq<u8>,
    buf: Seq<u8>,
    r: Option<Command>,
    after: Seq<u8>,
    n2: int,
)
    requires
        buf.len() == HOST_BUF_LEN,
        data.len() + 6 <= HOST_BUF_LEN,
        buf.take(data.len() + 6int) == crate::bridge_protocol::request_frame(id, page, command, data),
        framing_step(buf, data.len() + 6int, r, after, n2),
    ensures
        n2 == 0,
        r matches Some(c) && c.id == id && packet_command(seq![id, 0u8, page, command] + data, c),
{
    let n: int = data.len() + 6int;
    let frame = crate::bridge_protocol::request_frame(id, page, command, data);
    crate::bridge_protocol::lemma_length_prefix_read_back(n);
    assert(buf.take(n)[0] == buf[0] && buf.take(n)[1] == buf[1] && buf.take(n)[2] == buf[2]);
    assert(frame[2] == id);
    assert(buf[0] == frame[0] && buf[1] == frame[1] && buf[2] == id);
    assert(buf.subrange(2, n) =~= seq![id, 0u8, page, command] + data) by {
        assert forall|i: int| 0 <= i < n - 2 implies buf.subrange(2, n)[i] == (seq![
            id,
            0u8,
            page,
            command,
        ] + data)[i] by {
            assert(buf.take(n)[i + 2] == frame[i + 2]);
        }
    }
}

/// The complete packets at the front of the unframed bytes `s`, in order, and
/// the bytes after them: framing stops at an incomplete packet, or at a length
/// outside `6..=4098` (which the framer refuses instead).
pub open spec fn frame_packets(s: Seq<u8>) -> (Seq<Seq<u8>>, Seq<u8>)
    decreases s.len(),
{
    if s.len() < 2 {
        (Seq::empty(), s)
    } else {
        let len = crate::bridge_protocol::le16(s[0], s[1]);
        if len < MIN_PACKET_LEN || len > HOST_BUF_LEN || s.len() < len {
            (Seq::empty(), s)
        } else {
            let (packets, rest) = frame_packets(s.skip(len));
            (seq![s.take(len)] + packets, rest)
        }
    }
}

/// Feeding `chunks` one after the other to a framer that holds the unframed
/// bytes `pending`, and taking out every complete packet after each chunk:
/// the packets taken out, in order, and the bytes left unframed.
pub open spec fn frame_chunks(pending: Seq<u8>, chunks: Seq<Seq<u8>>) -> (Seq<Seq<u8>>, Seq<u8>)
    decreases chunks.len(),
{
    if chunks.len() == 0 {
        (Seq::empty(), pending)
    } else {
        let (packets, rest) = frame_packets(pending + chunks[0]);
        let (later, left) = frame_chunks(rest, chunks.drop_first());
        (packets + later, left)
    }
}

/// Framing bytes that arrive after others continues from what the first
/// bytes left unframed.
pub proof fn lemma_frame_packets_append(s: Seq<u8>, t: Seq<u8>)
    ensures
        frame_packets(s + t).0 == frame_packets(s).0 + frame_packets(frame_packets(s).1 + t).0,
        frame_packets(s + t).1 == frame_packets(frame_packets(s).1 + t).1,
    decreases s.len(),
{
    let st = s + t;
    if s.len() < 2 {
        assert(frame_packets(s).0 + frame_packets(s + t).0 =~= frame_packets(s + t).0);
    } else {
        let len = crate::bridge_protocol::le16(s[0], s[1]);
        assert(st[0] == s[0] && st[1] == s[1]);
        if len < MIN_PACKET_LEN || len > HOST_BUF_LEN || s.len() < len {
            assert(frame_packets(s).0 + frame_packets(s + t).0 =~= frame_packets(s + t).0);
        } else {
            lemma_frame_packets_append(s.skip(len), t);
            assert(st.skip(len) =~= s.skip(len) + t);
            assert(st.take(len) =~= s.take(len));
            assert(frame_packets(st).0 =~= frame_packets(s).0 + frame_packets(
                frame_packets(s).1 + t,
            ).0);
        }
    }
}

/// What framing leaves unframed holds no complete packet: framing it again
/// takes out nothing.
pub proof fn lemma_frame_packets_rest_is_framed(s: Seq<u8>)
    ensures
        frame_packets(frame_packets(s).1).0 == Seq::<Seq<u8>>::empty(),
        frame_packets(frame_packets(s).1).1 == frame_packets(s).1,
    decreases s.len(),
{
    if s.len() >= 2 {
        let len = crate::bridge_protocol::le16(s[0], s[1]);
        if !(len < MIN_PACKET_LEN || len > HOST_BUF_LEN || s.len() < len) {
            lemma_frame_packets_rest_is_framed(s.skip(len));
        }
    }
}

/// However the chunks fall, feeding them in turn to a framer whose unframed
/// bytes hold no complete packet frames exactly the packets of the whole byte
/// stream, and leaves the same bytes unframed.
pub proof fn law_frame_chunks_frames_the_stream(pending: Seq<u8>, chunks: Seq<Seq<u8>>)
    requires
        frame_packets(pending).0.len() == 0,
    ensures
        frame_chunks(pending, chunks) == frame_packets(pending + chunks.flatten()),
    decreases chunks.len(),
{
    if chunks.len() == 0 {
        assert(pending + chunks.flatten() =~= pending);
        assert(frame_packets(pending).0 =~= Seq::<Seq<u8>>::empty());
        assert(frame_packets(pending).1 == pending);
    } else {
        let first = pending + chunks[0];
        let rest = frame_packets(first).1;
        lemma_frame_packets_rest_is_framed(first);
        law_frame_chunks_frames_the_stream(rest, chunks.drop_first());
        lemma_frame_packets_append(first, chunks.drop_first().flatten());
        assert(pending + chunks.flatten() =~= first + chunks.drop_first().flatten());
    }
}

/// The commands a framer yields do not depend on how the host's byte stream
/// was split into reads: two splittings of the same stream frame the same
/// packets and leave the same bytes unframed.
pub proof fn law_framing_ignores_chunking(a: Seq<Seq<u8>>, b: Seq<Seq<u8>>)
    requires
        a.flatten() == b.flatten(),
    ensures
        frame_chunks(Seq::empty(), a) == frame_chunks(Seq::empty(), b),
{
    assert(frame_packets(Seq::<u8>::empty()).0 =~= Seq::<Seq<u8>>::empty());
    law_frame_chunks_frames_the_stream(Seq::empty(), a);
    law_frame_chunks_frames_the_stream(Seq::empty(), b);
}

/// `next_command` follows `frame_packets`: on unframed bytes whose first
/// length (if two bytes have arrived) is possible, it yields the command of
/// the first complete packet and keeps the rest unframed, or waits and keeps
/// everything when no packet is complete.
pub proof fn law_next_command_takes_first_packet(
    buf: Seq<u8>,
    n: int,
    r: Option<Command>,
    after: Seq<u8>,
    n2: int,
)
    requires
        buf.len() == HOST_BUF_LEN,
        0 <= n <= HOST_BUF_LEN,
        n >= 2 ==> MIN_PACKET_LEN <= crate::bridge_protocol::le16(buf[0], buf[1]) <= HOST_BUF_LEN,
        framing_step(buf, n, r, after, n2),
    ensures
        frame_packets(buf.take(n)).0.len() == 0 ==> r is None && n2 == n && after == buf,
        frame_packets(buf.take(n)).0.len() > 0 ==> (r matches Some(c) && packet_command(
            frame_packets(buf.take(n)).0[0].skip(2),
            c,
        )) && frame_packets(after.take(n2)).0 == frame_packets(buf.take(n)).0.drop_first()
            && frame_packets(after.take(n2)).1 == frame_packets(buf.take(n)).1,
{
    let p = buf.take(n);
    if n >= 2 {
        assert(p[0] == buf[0] && p[1] == buf[1]);
        let len = crate::bridge_protocol::le16(buf[0], buf[1]);
        if n >= len {
            assert(p.take(len).skip(2) =~= buf.subrange(2, len));
            assert(after.take(n2) =~= p.skip(len));
            assert(frame_packets(p).0.drop_first() =~= frame_packets(p.skip(len)).0);
        }
    }
}

/// Packets of a host byte stream, each with a possible length of at most `max`.
pub open spec fn packet_stream(s: Seq<u8>, max: int) -> bool
    decreases s.len(),
{
    if s.len() == 0 {
        true
    } else {
        s.len() >= 2 && MIN_PACKET_LEN <= crate::bridge_protocol::le16(s[0], s[1]) <= max
            && s.len() >= crate::bridge_protocol::le16(s[0], s[1]) && packet_stream(
            s.skip(crate::bridge_protocol::le16(s[0], s[1])),
            max,
        )
    }
}

/// Whatever part of a stream of packets of at most `max` bytes has arrived,
/// what stays unframed is shorter than `max`: with packets of at most 4034
/// bytes, a read of at most 64 bytes always fits in the buffer.
pub proof fn law_unframed_part_is_short(s: Seq<u8>, m: int, max: int)
    requires
        packet_stream(s, max),
        0 <= m <= s.len(),
        MIN_PACKET_LEN <= max <= HOST_BUF_LEN,
    ensures
        frame_packets(s.take(m)).1.len() < max,
    decreases s.len(),
{
    let p = s.take(m);
    if s.len() > 0 && m >= 2 {
        let len = crate::bridge_protocol::le16(s[0], s[1]);
        assert(p[0] == s[0] && p[1] == s[1]);
        if m >= len {
            law_unframed_part_is_short(s.skip(len), m - len, max);
            assert(p.skip(len) =~= s.skip(len).take(m - len));
        }
    }
}

} // verus!
