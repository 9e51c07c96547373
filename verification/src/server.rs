//! Reassembly of frames from the byte stream of one connection, and the
//! step that serves the connection frame by frame.

use crate::encryption::ServerEncryption;
use crate::errors::{MinecraftError, TransportError};
use crate::packets::{
    cfb8_decrypt, lemma_decrypt_prefix, process_packet, processed, step, CipherView, ContextView,
    PlayerContext, PlayerEncryptionContext, ProcessOutcome, VERIFY_TOKEN_SIZE,
};
use crate::protocol::{Id, PacketDirection, PacketErr, State};
use crate::types::{read_varint, spec_read_varint};
use crate::v1_21_8::{spec_deserialize, Packet772, PacketView, RawPacket772};
use crate::varint::{
    decode_varint, lemma_decode_bounds, lemma_decode_extends, lemma_decode_five_decides,
    lemma_varint_round_trip, spec_decode, spec_encode, VarIntRead,
};
use vstd::prelude::*;

verus! {

/// Where the read cursor has to stand for the buffer to be compacted: the
/// middle of the buffer.
pub const READ_BUF: usize = 32770;

/// Size of the receive buffer: room for the longest frame and its length.
pub const READ_BUF_MAX: usize = 65541;

/// Longest frame that a peer may announce.
pub const MAX_PACKET_LENGTH: u32 = 65536;

/// The receive buffer of a connection: the bytes between the read cursor
/// and the write cursor are those that arrived and were not yet taken.
pub struct ReadBuffer {
    buf: [u8; READ_BUF_MAX],
    read_pointer: usize,
    write_pointer: usize,
    received: Ghost<Seq<u8>>,
}

impl ReadBuffer {
    /// Every byte that ever arrived, in the order of arrival.
    pub closed spec fn received(&self) -> Seq<u8> {
        self.received@
    }

    /// The bytes that arrived and were not yet taken.
    pub closed spec fn pending(&self) -> Seq<u8> {
        self.buf@.subrange(self.read_pointer as int, self.write_pointer as int)
    }

    /// Where the read cursor stands: how many bytes at the front of the
    /// buffer were taken and not yet reclaimed.
    pub closed spec fn cursor(&self) -> nat {
        self.read_pointer as nat
    }

    /// How many more bytes the buffer takes as it stands.
    pub closed spec fn spec_writable(&self) -> nat {
        (READ_BUF_MAX - self.write_pointer) as nat
    }

    /// The cursors are in order, and the pending bytes are the last of
    /// those that arrived.
    pub closed spec fn wf(&self) -> bool {
        &&& self.read_pointer <= self.write_pointer <= READ_BUF_MAX
        &&& self.pending().len() <= self.received@.len()
        &&& self.pending() == self.received@.skip(self.received@.len() - self.pending().len())
    }

    /// How many of the bytes that arrived were taken.
    pub open spec fn taken(&self) -> int {
        self.received().len() - self.pending().len()
    }

    /// Whatever was read, taken and compacted, the pending bytes are those
    /// that arrived behind the ones taken, as they arrived: none is lost, and
    /// none has changed its place.
    pub proof fn lemma_nothing_lost(&self)
        requires
            self.wf(),
        ensures
            0 <= self.taken() <= self.received().len(),
            self.pending() == self.received().skip(self.taken()),
    {
    }

    /// An empty buffer.
    pub fn new() -> (r: Self)
        ensures
            r.wf(),
            r.received() == Seq::<u8>::empty(),
            r.pending() == Seq::<u8>::empty(),
            r.spec_writable() == READ_BUF_MAX,
            r.cursor() == 0,
    {
        let r = ReadBuffer {
            buf: [0u8; READ_BUF_MAX],
            read_pointer: 0,
            write_pointer: 0,
            received: Ghost(Seq::empty()),
        };
        assert(r.pending() =~= Seq::<u8>::empty());
        assert(r.received@.skip(0) =~= Seq::<u8>::empty());
        r
    }

    /// How many more bytes the buffer takes as it stands.
    pub fn writable(&self) -> (r: usize)
        requires
            self.wf(),
        ensures
            r == self.spec_writable(),
    {
        READ_BUF_MAX - self.write_pointer
    }

    /// Number of pending bytes.
    pub fn available(&self) -> (r: usize)
        requires
            self.wf(),
        ensures
            r == self.pending().len(),
    {
        self.write_pointer - self.read_pointer
    }

    /// Moves the pending bytes to the start of the buffer. Nothing is lost
    /// and nothing changes place among them.
    pub fn compact(&mut self)
        requires
            old(self).wf(),
        ensures
            final(self).wf(),
            final(self).pending() == old(self).pending(),
            final(self).received() == old(self).received(),
            final(self).spec_writable() == READ_BUF_MAX - old(self).pending().len(),
            final(self).cursor() == 0,
    {
        let ghost before = self.buf@;
        let start: usize = self.read_pointer;
        let count: usize = self.write_pointer - self.read_pointer;
        let mut i: usize = 0;
        while i < count
            invariant
                i <= count,
                start + count <= READ_BUF_MAX,
                self.read_pointer == start,
                self.write_pointer == start + count,
                self.received == old(self).received,
                forall|j: int| 0 <= j < i ==> self.buf@[j] == before[start + j],
                forall|j: int| i <= j < READ_BUF_MAX ==> self.buf@[j] == before[j],
            decreases count - i,
        {
            self.buf[i] = self.buf[start + i];
            i = i + 1;
        }
        self.read_pointer = 0;
        self.write_pointer = count;
        assert(self.pending() =~= old(self).pending());
    }

    /// Compacts the buffer where the read cursor has come to the middle of
    /// it, and leaves it as it is where not.
    pub fn reclaim(&mut self)
        requires
            old(self).wf(),
        ensures
            final(self).wf(),
            final(self).pending() == old(self).pending(),
            final(self).received() == old(self).received(),
            old(self).cursor() >= READ_BUF ==> final(self).cursor() == 0 && final(self).spec_writable() == READ_BUF_MAX - old(self).pending().len(),
            old(self).cursor() < READ_BUF ==> final(self).cursor() == old(self).cursor() && final(self).spec_writable() == old(self).spec_writable(),
    {
        if self.read_pointer >= READ_BUF {
            self.compact();
        }
    }

    /// Compacts the buffer where `needed` bytes do not fit behind the read
    /// cursor, and leaves it as it is where they do.
    pub fn make_room(&mut self, needed: usize)
        requires
            old(self).wf(),
        ensures
            final(self).wf(),
            final(self).pending() == old(self).pending(),
            final(self).received() == old(self).received(),
            old(self).cursor() + needed > READ_BUF_MAX ==> final(self).cursor() == 0 && final(self).spec_writable() == READ_BUF_MAX - old(self).pending().len(),
            old(self).cursor() + needed <= READ_BUF_MAX ==> final(self).cursor() == old(self).cursor() && final(self).spec_writable() == old(self).spec_writable(),
    {
        if needed > READ_BUF_MAX - self.read_pointer {
            self.compact();
        }
    }

    /// The buffer is made of what lies before the read cursor, the pending
    /// bytes, and the room behind them.
    pub proof fn lemma_room(&self)
        requires
            self.wf(),
        ensures
            self.cursor() + self.pending().len() + self.spec_writable() == READ_BUF_MAX,
    {
    }

    /// Takes in what a read from the transport gave. A read that gave
    /// nothing means that the peer is gone.
    pub fn read_socket(&mut self, chunk: &[u8]) -> (r: Result<(), TransportError>)
        requires
            old(self).wf(),
            chunk@.len() <= old(self).spec_writable(),
        ensures
            final(self).wf(),
            r is Ok <==> chunk@.len() > 0,
            r is Err ==> r == Err::<(), TransportError>(TransportError::ConnectionReset),
            final(self).pending() == old(self).pending() + chunk@,
            final(self).received() == old(self).received() + chunk@,
            final(self).spec_writable() == old(self).spec_writable() - chunk@.len(),
            final(self).cursor() == old(self).cursor(),
    {
        let ghost before = self.buf@;
        let ghost was = self.pending();
        let start: usize = self.write_pointer;
        let mut i: usize = 0;
        while i < chunk.len()
            invariant
                i <= chunk@.len(),
                start + chunk@.len() <= READ_BUF_MAX,
                self.read_pointer == old(self).read_pointer,
                self.read_pointer <= start,
                self.write_pointer == start,
                self.received == old(self).received,
                forall|j: int| 0 <= j < start ==> self.buf@[j] == before[j],
                forall|j: int| 0 <= j < i ==> self.buf@[start + j] == chunk@[j],
            decreases chunk@.len() - i,
        {
            self.buf[start + i] = chunk[i];
            i = i + 1;
        }
        self.write_pointer = start + chunk.len();
        proof {
            assert(self.pending() =~= was + chunk@);
            let old_all = self.received@;
            self.received = Ghost(old_all + chunk@);
            assert(self.pending() =~= self.received@.skip(
                self.received@.len() - self.pending().len(),
            ));
        }
        if chunk.len() == 0 {
            Err(TransportError::ConnectionReset)
        } else {
            Ok(())
        }
    }

    /// A copy of the first `count` pending bytes.
    pub fn peek(&self, count: usize) -> (r: Vec<u8>)
        requires
            self.wf(),
            count <= self.pending().len(),
        ensures
            r@ == self.pending().take(count as int),
    {
        let mut out: Vec<u8> = Vec::new();
        let mut i: usize = 0;
        while i < count
            invariant
                i <= count,
                self.read_pointer + count <= self.write_pointer <= READ_BUF_MAX,
                out@ == self.pending().take(i as int),
            decreases count - i,
        {
            out.push(self.buf[self.read_pointer + i]);
            i = i + 1;
            assert(out@ =~= self.pending().take(i as int));
        }
        out
    }

    /// Moves the read cursor over the first `count` pending bytes.
    pub fn advance(&mut self, count: usize)
        requires
            old(self).wf(),
            count <= old(self).pending().len(),
        ensures
            final(self).wf(),
            final(self).pending() == old(self).pending().skip(count as int),
            final(self).received() == old(self).received(),
            final(self).spec_writable() == old(self).spec_writable(),
            final(self).cursor() == old(self).cursor() + count,
    {
        let ghost was = self.pending();
        self.read_pointer = self.read_pointer + count;
        assert(self.pending() =~= was.skip(count as int));
        assert(self.pending() =~= self.received@.skip(self.received@.len() - self.pending().len()));
    }

    /// Takes the first `count` pending bytes out of the buffer: they are
    /// the bytes that arrived right behind those taken before.
    pub fn take(&mut self, count: usize) -> (r: Vec<u8>)
        requires
            old(self).wf(),
            count <= old(self).pending().len(),
        ensures
            final(self).wf(),
            r@ == old(self).pending().take(count as int),
            r@ == old(self).received().subrange(old(self).taken(), old(self).taken() + count),
            final(self).pending() == old(self).pending().skip(count as int),
            final(self).received() == old(self).received(),
            final(self).spec_writable() == old(self).spec_writable(),
            final(self).cursor() == old(self).cursor() + count,
    {
        let out = self.peek(count);
        self.advance(count);
        assert(out@ =~= self.received@.subrange(old(self).taken(), old(self).taken() + count));
        out
    }
}

/// What the front of a stream of plain bytes holds.
pub enum FrameStatus {
    /// The bytes end before the frame does.
    NeedMore,
    /// The length of the frame is malformed, or over the bound.
    BadHeader,
    /// A whole frame: its body, and how many bytes it took with its length.
    Frame { body: Seq<u8>, consumed: int },
}

/// The frame at the front of `plain`: a length, then as many bytes. A
/// length over the bound is refused as soon as it is read, whether the
/// bytes behind it are there or not.
pub open spec fn spec_next_frame(plain: Seq<u8>) -> FrameStatus {
    match spec_decode(plain) {
        VarIntRead::Incomplete => FrameStatus::NeedMore,
        VarIntRead::TooLong => FrameStatus::BadHeader,
        VarIntRead::Value { value, len } => if value > MAX_PACKET_LENGTH {
            FrameStatus::BadHeader
        } else if plain.len() < len + value {
            FrameStatus::NeedMore
        } else {
            FrameStatus::Frame {
                body: plain.subrange(len as int, len + value),
                consumed: len + value,
            }
        },
    }
}

/// Bytes as they are read: decrypted once the session has a cipher.
pub open spec fn inbound_plain(cipher: Option<CipherView>, wire: Seq<u8>) -> Seq<u8> {
    match cipher {
        Some(c) => cfb8_decrypt(c.key, c.decrypter, wire),
        None => wire,
    }
}

/// The cipher of a session after `wire` was read.
pub open spec fn cipher_after_receive(cipher: Option<CipherView>, wire: Seq<u8>) -> Option<
    CipherView,
> {
    match cipher {
        Some(c) => Some(c.after_decrypt(wire)),
        None => None,
    }
}

/// The length that the pending bytes announce, whatever number of
/// thirty-two bits it is, and the number of bytes that it is written in.
/// Nothing is taken out of the buffer, and the cipher of the session stays
/// as it is.
pub fn read_packet_length(buffer: &ReadBuffer, context: &PlayerContext) -> (r: Result<
    Option<(u32, usize)>,
    MinecraftError,
>)
    requires
        buffer.wf(),
    ensures
        match spec_decode(inbound_plain(context@.cipher, buffer.pending())) {
            VarIntRead::Incomplete => r matches Ok(None),
            VarIntRead::TooLong => r matches Err(MinecraftError::InvalidPacketHeader),
            VarIntRead::Value { value, len } => r matches Ok(Some(found)) && found == (value, len),
        },
        r matches Ok(Some(found)) ==> 1 <= found.1 <= 5 && found.1 <= buffer.pending().len(),
{
    let ghost plain = inbound_plain(context@.cipher, buffer.pending());
    let available = buffer.available();
    let count: usize = if available < 5 {
        available
    } else {
        5
    };
    let mut head = buffer.peek(count);
    match &context.encryption_context {
        Some(cipher) => {
            let mut probe: PlayerEncryptionContext = *cipher;
            probe.decrypt_in_place(&mut head);
            proof {
                lemma_decrypt_prefix(
                    cipher@.key,
                    cipher@.decrypter,
                    buffer.pending(),
                    count as int,
                );
            }
        },
        None => {},
    }
    assert(head@ == plain.take(count as int));
    proof {
        assert(plain =~= plain.take(count as int) + plain.skip(count as int));
        if count == 5 {
            lemma_decode_five_decides(plain.take(5));
        } else {
            assert(plain.take(count as int) =~= plain);
        }
        lemma_decode_extends(plain.take(count as int), plain.skip(count as int));
    }
    match decode_varint(head.as_slice()) {
        VarIntRead::Incomplete => Ok(None),
        VarIntRead::TooLong => Err(MinecraftError::InvalidPacketHeader),
        VarIntRead::Value { value, len } => Ok(Some((value, len))),
    }
}

/// One connection: its receive buffer and the state of its session.
pub struct Connection {
    pub buffer: ReadBuffer,
    pub context: PlayerContext,
}

/// What a connection holds: every byte that arrived, the bytes among them
/// that still wait in the buffer, where the read cursor stands, how much
/// room is left behind the pending bytes, and the state of the session.
pub struct ConnectionView {
    pub received: Seq<u8>,
    pub pending: Seq<u8>,
    pub cursor: nat,
    pub room: nat,
    pub context: ContextView,
}

impl View for Connection {
    type V = ConnectionView;

    open spec fn view(&self) -> ConnectionView {
        ConnectionView {
            received: self.buffer.received(),
            pending: self.buffer.pending(),
            cursor: self.buffer.cursor(),
            room: self.buffer.spec_writable(),
            context: self.context@,
        }
    }
}

impl ConnectionView {
    /// A connection that was just accepted.
    pub open spec fn initial() -> ConnectionView {
        ConnectionView {
            received: Seq::empty(),
            pending: Seq::empty(),
            cursor: 0,
            room: READ_BUF_MAX as nat,
            context: ContextView::initial(),
        }
    }

    /// The connection with its buffer compacted.
    pub open spec fn compacted(self) -> ConnectionView {
        ConnectionView { cursor: 0, room: (READ_BUF_MAX - self.pending.len()) as nat, ..self }
    }

    /// The connection as a step finds it: with the buffer compacted where
    /// the read cursor has come to the middle of it.
    pub open spec fn reclaimed(self) -> ConnectionView {
        if self.cursor >= READ_BUF {
            self.compacted()
        } else {
            self
        }
    }

    /// The connection with room for a frame that takes `needed` bytes with
    /// its length: with the buffer compacted where the frame does not fit
    /// behind the read cursor.
    pub open spec fn with_room_for(self, needed: int) -> ConnectionView {
        if self.cursor + needed > READ_BUF_MAX {
            self.compacted()
        } else {
            self
        }
    }

    /// The connection after the first `consumed` pending bytes were taken
    /// and read through the cipher.
    pub open spec fn taken(self, consumed: int) -> ConnectionView {
        ConnectionView {
            received: self.received,
            pending: self.pending.skip(consumed),
            cursor: (self.cursor + consumed) as nat,
            room: self.room,
            context: ContextView {
                cipher: cipher_after_receive(self.context.cipher, self.pending.take(consumed)),
                ..self.context
            },
        }
    }
}

/// What one step of serving a connection came to.
#[derive(Debug)]
pub enum ConnectionStep {
    /// No whole frame is there: the transport has to be read. The buffer has
    /// room for what is missing.
    NeedData,
    /// The next frame starts a login, and no random bytes were handed in:
    /// the step has to be made again with them. Nothing was taken.
    NeedRandom,
    /// An empty frame was taken.
    Empty,
    /// A frame was taken that gives no packet of the phase; the connection
    /// goes on.
    Discarded(PacketErr),
    /// A frame was taken and its packet processed: these bytes are to be
    /// sent, and the connection goes on or not.
    Processed(ProcessOutcome),
}

/// What the body of a frame holds in a phase: nothing where it is empty,
/// else the packet that its number and fields stand for, or the reason why
/// they stand for none.
pub open spec fn spec_decode_frame(body: Seq<u8>, state: State) -> Result<
    Option<PacketView>,
    PacketErr,
> {
    if body.len() == 0 {
        Ok(None)
    } else {
        match spec_read_varint(body, 0) {
            Err(e) => Err(PacketErr::DeserializeFailed(e)),
            Ok((number, at)) => match spec_deserialize(
                Id { id: number, state, direction: PacketDirection::ServerBound },
                body.skip(at),
            ) {
                Err(e) => Err(e),
                Ok(packet) => Ok(Some(packet)),
            },
        }
    }
}

/// Reads the packet out of the body of a frame.
pub fn decode_frame(body: &[u8], state: State) -> (r: Result<Option<Packet772>, PacketErr>)
    ensures
        match spec_decode_frame(body@, state) {
            Ok(None) => r matches Ok(None),
            Ok(Some(v)) => r matches Ok(Some(p)) && p@ == v,
            Err(e) => r matches Err(found) && found == e,
        },
{
    if body.len() == 0 {
        return Ok(None);
    }
    let (number, at) = match read_varint(body, 0) {
        Ok(x) => x,
        Err(e) => { return Err(PacketErr::DeserializeFailed(e)); },
    };
    let id = Id { id: number, state, direction: PacketDirection::ServerBound };
    let rest = vstd::slice::slice_subrange(body, at, body.len());
    assert(rest@ =~= body@.skip(at as int));
    let raw = match RawPacket772::create(id, rest) {
        Ok(raw) => raw,
        Err(e) => { return Err(e); },
    };
    match raw.deserialize() {
        Ok(packet) => Ok(Some(packet)),
        Err(e) => Err(e),
    }
}

/// Whether a packet needs fresh random bytes: the start of a login does,
/// in the login phase.
pub open spec fn needs_random(state: State, packet: PacketView) -> bool {
    state == State::Login && packet is LoginStart
}

/// The random bytes that were handed in, or none.
pub open spec fn random_view(random: Option<&[u8; VERIFY_TOKEN_SIZE]>) -> Option<Seq<u8>> {
    match random {
        Some(r) => Some(r@),
        None => None,
    }
}

/// Only the start of a login looks at the random bytes.
pub proof fn lemma_step_ignores_random(
    context: ContextView,
    packet: PacketView,
    encryption: ServerEncryption,
    one: Seq<u8>,
    other: Seq<u8>,
)
    requires
        !needs_random(context.state, packet),
    ensures
        step(context, packet, encryption, one) == step(context, packet, encryption, other),
{
}

/// Whether `r` and the connection `after` are what a whole frame asks for,
/// which takes the first `consumed` pending bytes of the connection `start`
/// and has the body `body`. An empty frame is taken and passed over. A
/// body that gives no packet of the phase is taken and discarded: its
/// number cannot be read or is not known, or its fields are malformed. A
/// packet that needs random bytes stays where it is until they are handed
/// in. Every other packet is taken and processed.
pub open spec fn frame_served(
    start: ConnectionView,
    body: Seq<u8>,
    consumed: int,
    encryption: ServerEncryption,
    random: Option<Seq<u8>>,
    r: Result<ConnectionStep, MinecraftError>,
    after: ConnectionView,
) -> bool {
    let taken = start.taken(consumed);
    match spec_decode_frame(body, start.context.state) {
        Ok(None) => r matches Ok(ConnectionStep::Empty) && after == taken,
        Err(e) => {
            &&& r matches Ok(ConnectionStep::Discarded(found))
            &&& found == e
            &&& after == taken
        },
        Ok(Some(packet)) => if needs_random(start.context.state, packet) && random is None {
            r matches Ok(ConnectionStep::NeedRandom) && after == start
        } else {
            let token = match random {
                Some(bytes) => bytes,
                None => Seq::empty(),
            };
            let decided = step(taken.context, packet, encryption, token);
            &&& after.received == taken.received
            &&& after.pending == taken.pending
            &&& after.cursor == taken.cursor
            &&& after.room == taken.room
            &&& match r {
                Ok(ConnectionStep::Processed(o)) => processed(
                    decided,
                    packet.id(),
                    Ok(o),
                    after.context,
                ),
                Ok(_) => false,
                Err(e) => processed(decided, packet.id(), Err(e), after.context),
            }
        },
    }
}

/// The number of bytes that the frame at the front of `plain` takes with
/// its length, as far as the length can be read.
pub open spec fn announced(plain: Seq<u8>) -> int {
    match spec_decode(plain) {
        VarIntRead::Value { value, len } => len + value,
        _ => 0,
    }
}

/// Whether `r` and the connection `after` are what one step from `before`
/// gives. No step changes what arrived. The step starts by compacting the buffer where the read cursor
/// has come to the middle of it. A bad length ends the connection, and
/// nothing else changes. Without a whole frame among the pending bytes the
/// step asks for data, and makes room for the frame where its length is
/// known. A whole frame is served.
pub open spec fn served(
    before: ConnectionView,
    encryption: ServerEncryption,
    random: Option<Seq<u8>>,
    r: Result<ConnectionStep, MinecraftError>,
    after: ConnectionView,
) -> bool {
    let start = before.reclaimed();
    let plain = inbound_plain(before.context.cipher, before.pending);
    match spec_next_frame(plain) {
        FrameStatus::NeedMore => r matches Ok(ConnectionStep::NeedData) && after
            == start.with_room_for(announced(plain)),
        FrameStatus::BadHeader => r matches Err(MinecraftError::InvalidPacketHeader) && after
            == start,
        FrameStatus::Frame { body, consumed } => frame_served(
            start,
            body,
            consumed,
            encryption,
            random,
            r,
            after,
        ),
    }
}

impl Connection {
    /// A connection that was just accepted.
    pub fn new() -> (r: Self)
        ensures
            r.buffer.wf(),
            r@ == ConnectionView::initial(),
    {
        Connection { buffer: ReadBuffer::new(), context: PlayerContext::default() }
    }
}

/// One step of serving a connection: takes the next frame out of the
/// buffer, if it is there in full, and serves it. The caller reads the
/// transport when asked for data, for which there is room then, and room
/// enough for the whole frame that was announced; hands in
/// random bytes when asked for them; sends what is to be sent; and goes on
/// while the connection is to be kept open. `random` is what the verify
/// token of a login that starts is made of.
pub fn handle_connection(
    connection: &mut Connection,
    encryption: &ServerEncryption,
    random: Option<&[u8; VERIFY_TOKEN_SIZE]>,
) -> (r: Result<ConnectionStep, MinecraftError>)
    requires
        old(connection).buffer.wf(),
    ensures
        final(connection).buffer.wf(),
        served(old(connection)@, *encryption, random_view(random), r, final(connection)@),
        r matches Ok(ConnectionStep::NeedData) ==> final(connection)@.room >= 1 && final(connection)@.pending.len() + final(connection)@.room >= announced(
            inbound_plain(old(connection)@.context.cipher, old(connection)@.pending),
        ),
{
    let ghost wire = connection.buffer.pending();
    let ghost cipher = connection.context@.cipher;
    let ghost plain = inbound_plain(cipher, wire);
    connection.buffer.reclaim();
    let ghost start = connection@;
    proof {
        connection.buffer.lemma_room();
    }
    let (length, header_len) = match read_packet_length(&connection.buffer, &connection.context) {
        Ok(Some(found)) => found,
        Ok(None) => {
            proof {
                lemma_decode_five_decides_or_short(plain);
            }
            return Ok(ConnectionStep::NeedData);
        },
        Err(e) => { return Err(e); },
    };
    if length > MAX_PACKET_LENGTH {
        return Err(MinecraftError::InvalidPacketHeader);
    }
    let total: usize = header_len + length as usize;
    if connection.buffer.available() < total {
        connection.buffer.make_room(total);
        proof {
            connection.buffer.lemma_room();
        }
        return Ok(ConnectionStep::NeedData);
    }
    serve_whole_frame(connection, encryption, random, header_len, total)
}

/// Serves the frame that takes the first `total` pending bytes, the first
/// `header_len` of them for its length.
fn serve_whole_frame(
    connection: &mut Connection,
    encryption: &ServerEncryption,
    random: Option<&[u8; VERIFY_TOKEN_SIZE]>,
    header_len: usize,
    total: usize,
) -> (r: Result<ConnectionStep, MinecraftError>)
    requires
        old(connection).buffer.wf(),
        header_len <= total <= old(connection)@.pending.len(),
    ensures
        final(connection).buffer.wf(),
        frame_served(
            old(connection)@,
            inbound_plain(old(connection)@.context.cipher, old(connection)@.pending).subrange(
                header_len as int,
                total as int,
            ),
            total as int,
            *encryption,
            random_view(random),
            r,
            final(connection)@,
        ),
{
    let ghost start = connection@;
    let ghost wire = connection.buffer.pending();
    let ghost cipher = connection.context@.cipher;
    let ghost plain = inbound_plain(cipher, wire);
    let mut frame = connection.buffer.peek(total);
    let mut probe: Option<PlayerEncryptionContext> = connection.context.encryption_context;
    match &mut probe {
        Some(session) => {
            session.decrypt_in_place(&mut frame);
            proof {
                let c = cipher->Some_0;
                lemma_decrypt_prefix(c.key, c.decrypter, wire, total as int);
            }
        },
        None => {},
    }
    assert(frame@ == plain.take(total as int));
    let body = vstd::slice::slice_subrange(frame.as_slice(), header_len, total);
    assert(body@ =~= plain.subrange(header_len as int, total as int));
    let decoded = decode_frame(body, connection.context.state);
    let zeros: [u8; VERIFY_TOKEN_SIZE] = [0u8; VERIFY_TOKEN_SIZE];
    let token: &[u8; VERIFY_TOKEN_SIZE] = match random {
        Some(bytes) => bytes,
        None => {
            let starts_login = match (&decoded, connection.context.state) {
                (Ok(Some(Packet772::LoginStart(_))), State::Login) => true,
                _ => false,
            };
            if starts_login {
                return Ok(ConnectionStep::NeedRandom);
            }
            &zeros
        },
    };
    connection.buffer.advance(total);
    connection.context.encryption_context = probe;
    assert(connection@ == start.taken(total as int));
    match decoded {
        Ok(None) => Ok(ConnectionStep::Empty),
        Err(e) => Ok(ConnectionStep::Discarded(e)),
        Ok(Some(packet)) => {
            proof {
                if random is None {
                    lemma_step_ignores_random(
                        start.taken(total as int).context,
                        packet@,
                        *encryption,
                        token@,
                        Seq::empty(),
                    );
                }
            }
            match process_packet(packet, &mut connection.context, encryption, token) {
                Ok(o) => Ok(ConnectionStep::Processed(o)),
                Err(e) => Err(e),
            }
        },
    }
}

/// Fewer than five bytes that hold no whole number are all that a stream
/// without a decided length can be.
proof fn lemma_decode_five_decides_or_short(plain: Seq<u8>)
    requires
        spec_decode(plain) is Incomplete,
    ensures
        plain.len() < 5,
{
    if plain.len() >= 5 {
        lemma_decode_five_decides(plain);
    }
}

/// The frames that a stream of plain bytes holds, one after the other, up
/// to the first that is not there in full or has a bad length.
pub open spec fn frames_of(plain: Seq<u8>) -> Seq<Seq<u8>>
    decreases plain.len(),
{
    match spec_next_frame(plain) {
        FrameStatus::Frame { body, consumed } => if 0 < consumed <= plain.len() {
            seq![body] + frames_of(plain.skip(consumed))
        } else {
            Seq::empty()
        },
        _ => Seq::empty(),
    }
}

/// What is left of a stream behind the frames that it holds.
pub open spec fn remainder_of(plain: Seq<u8>) -> Seq<u8>
    decreases plain.len(),
{
    match spec_next_frame(plain) {
        FrameStatus::Frame { body, consumed } => if 0 < consumed <= plain.len() {
            remainder_of(plain.skip(consumed))
        } else {
            plain
        },
        _ => plain,
    }
}

/// The frames that come out when a stream arrives in chunks and, after each
/// chunk, every frame that is there in full is taken.
pub open spec fn frames_of_chunks(chunks: Seq<Seq<u8>>) -> Seq<Seq<u8>>
    decreases chunks.len(),
{
    if chunks.len() == 0 {
        Seq::empty()
    } else {
        frames_of_chunks(chunks.drop_last()) + frames_of(
            remainder_after_chunks(chunks.drop_last()) + chunks.last(),
        )
    }
}

/// What waits in the buffer after the chunks arrived and the frames were
/// taken.
pub open spec fn remainder_after_chunks(chunks: Seq<Seq<u8>>) -> Seq<u8>
    decreases chunks.len(),
{
    if chunks.len() == 0 {
        Seq::empty()
    } else {
        remainder_of(remainder_after_chunks(chunks.drop_last()) + chunks.last())
    }
}

/// The chunks of a stream, put together again.
pub open spec fn joined(chunks: Seq<Seq<u8>>) -> Seq<u8>
    decreases chunks.len(),
{
    if chunks.len() == 0 {
        Seq::empty()
    } else {
        joined(chunks.drop_last()) + chunks.last()
    }
}

/// A frame, or a bad length, at the front of a stream is still there when
/// more bytes arrive.
pub proof fn lemma_frame_stays(a: Seq<u8>, b: Seq<u8>)
    ensures
        !(spec_next_frame(a) is NeedMore) ==> spec_next_frame(a + b) == spec_next_frame(a),
        spec_next_frame(a) matches FrameStatus::Frame { body, consumed } ==> 0 < consumed
            <= a.len(),
{
    lemma_decode_extends(a, b);
    match spec_decode(a) {
        VarIntRead::Value { value, len } => {
            lemma_decode_bounds(a);
            if value <= MAX_PACKET_LENGTH && a.len() >= len + value {
                assert((a + b).subrange(len as int, len + value) =~= a.subrange(
                    len as int,
                    len + value,
                ));
            }
        },
        _ => {},
    }
}

/// More bytes behind a stream do not change the frames that it holds
/// already: the frames of the longer stream are those of the shorter one,
/// then those of what was left of it with the new bytes behind.
pub proof fn lemma_frames_extend(a: Seq<u8>, b: Seq<u8>)
    ensures
        frames_of(a + b) == frames_of(a) + frames_of(remainder_of(a) + b),
        remainder_of(a + b) == remainder_of(remainder_of(a) + b),
    decreases a.len(),
{
    lemma_frame_stays(a, b);
    match spec_next_frame(a) {
        FrameStatus::Frame { body, consumed } => {
            lemma_frames_extend(a.skip(consumed), b);
            assert((a + b).skip(consumed) =~= a.skip(consumed) + b);
            assert(frames_of(a + b) =~= frames_of(a) + frames_of(remainder_of(a) + b));
        },
        _ => {
            assert(frames_of(a) + frames_of(a + b) =~= frames_of(a + b));
        },
    }
}

/// A stream gives the same frames, in the same order, whatever chunks it
/// arrives in, down to one byte at a time, as it gives when it arrives
/// whole; and the same bytes are left waiting.
pub proof fn lemma_frames_any_chunking(chunks: Seq<Seq<u8>>)
    ensures
        frames_of_chunks(chunks) == frames_of(joined(chunks)),
        remainder_after_chunks(chunks) == remainder_of(joined(chunks)),
    decreases chunks.len(),
{
    if chunks.len() == 0 {
        lemma_decode_bounds(Seq::<u8>::empty());
    } else {
        lemma_frames_any_chunking(chunks.drop_last());
        lemma_frames_extend(joined(chunks.drop_last()), chunks.last());
    }
}

/// A frame that announces more bytes than the bound allows is refused on
/// its length alone, whatever follows it.
pub proof fn lemma_oversized_frame_refused(length: u32, rest: Seq<u8>)
    requires
        length > MAX_PACKET_LENGTH,
    ensures
        spec_next_frame(spec_encode(length) + rest) == FrameStatus::BadHeader,
{
    lemma_varint_round_trip(length, rest);
}

} // verus!
