//! Telling the protocols of one port apart, and streams that hand out bytes
//! which were read before.

use vstd::prelude::*;
use vstd::slice::slice_to_vec;

verus! {

/// How many bytes tell the protocols apart.
pub const SNIFF_BYTES: usize = 8;

/// The most bytes that go into one WebSocket frame.
pub const MAX_WS_FRAME: usize = 16_384;

/// Whether bytes begin with others.
pub open spec fn begins_with(b: Seq<u8>, start: Seq<u8>) -> bool {
    b.len() >= start.len() && b.take(start.len() as int) == start
}

/// The beginning of an MQTT connection: a CONNECT packet that names the
/// protocol.
pub open spec fn looks_like_mqtt(b: Seq<u8>) -> bool {
    b.len() >= 8 && b[0] == 0x10 && b.subrange(4, 8) == seq![77u8, 81u8, 84u8, 84u8]
}

/// The beginning of an HTTP request: one of `GET `, `POST`, `PUT `, `DELETE`,
/// `HEAD`, `OPTIONS` and `PATCH`.
pub open spec fn looks_like_http(b: Seq<u8>) -> bool {
    ||| begins_with(b, seq![71u8, 69u8, 84u8, 32u8])
    ||| begins_with(b, seq![80u8, 79u8, 83u8, 84u8])
    ||| begins_with(b, seq![80u8, 85u8, 84u8, 32u8])
    ||| begins_with(b, seq![68u8, 69u8, 76u8, 69u8, 84u8, 69u8])
    ||| begins_with(b, seq![72u8, 69u8, 65u8, 68u8])
    ||| begins_with(b, seq![79u8, 80u8, 84u8, 73u8, 79u8, 78u8, 83u8])
    ||| begins_with(b, seq![80u8, 65u8, 84u8, 67u8, 72u8])
}

fn starts_with(b: &[u8], start: &[u8]) -> (r: bool)
    ensures
        r == begins_with(b@, start@),
{
    if b.len() < start.len() {
        return false;
    }
    let mut i: usize = 0;
    while i < start.len()
        invariant
            start@.len() <= b@.len(),
            i <= start@.len(),
            forall|k: int| 0 <= k < i ==> b@[k] == start@[k],
        decreases start@.len() - i,
    {
        if b[i] != start[i] {
            assert(b@.take(start@.len() as int)[i as int] != start@[i as int]);
            return false;
        }
        i = i + 1;
    }
    assert(b@.take(start@.len() as int) =~= start@);
    true
}

/// Whether a connection begins like MQTT.
pub fn is_mqtt(b: &[u8]) -> (r: bool)
    ensures
        r == looks_like_mqtt(b@),
{
    if b.len() < 8 {
        return false;
    }
    let r = b[0] == 0x10 && b[4] == 77 && b[5] == 81 && b[6] == 84 && b[7] == 84;
    proof {
        let name = b@.subrange(4, 8);
        assert(name[0] == b@[4] && name[1] == b@[5] && name[2] == b@[6] && name[3] == b@[7]);
        if r {
            assert(name =~= seq![77u8, 81u8, 84u8, 84u8]);
        }
    }
    r
}

/// Whether a connection begins like HTTP.
pub fn is_http(b: &[u8]) -> (r: bool)
    ensures
        r == looks_like_http(b@),
{
    let get: [u8; 4] = [71, 69, 84, 32];
    let post: [u8; 4] = [80, 79, 83, 84];
    let put: [u8; 4] = [80, 85, 84, 32];
    let delete: [u8; 6] = [68, 69, 76, 69, 84, 69];
    let head: [u8; 4] = [72, 69, 65, 68];
    let options: [u8; 7] = [79, 80, 84, 73, 79, 78, 83];
    let patch: [u8; 5] = [80, 65, 84, 67, 72];
    assert(get@ =~= seq![71u8, 69u8, 84u8, 32u8]);
    assert(post@ =~= seq![80u8, 79u8, 83u8, 84u8]);
    assert(put@ =~= seq![80u8, 85u8, 84u8, 32u8]);
    assert(delete@ =~= seq![68u8, 69u8, 76u8, 69u8, 84u8, 69u8]);
    assert(head@ =~= seq![72u8, 69u8, 65u8, 68u8]);
    assert(options@ =~= seq![79u8, 80u8, 84u8, 73u8, 79u8, 78u8, 83u8]);
    assert(patch@ =~= seq![80u8, 65u8, 84u8, 67u8, 72u8]);
    starts_with(b, get.as_slice()) || starts_with(b, post.as_slice()) || starts_with(
        b,
        put.as_slice(),
    ) || starts_with(b, delete.as_slice()) || starts_with(b, head.as_slice()) || starts_with(
        b,
        options.as_slice(),
    ) || starts_with(b, patch.as_slice())
}

/// What a connection is, by its first bytes.
pub enum Protocol {
    /// More bytes are needed to tell.
    Unsettled,
    Mqtt,
    Http,
    /// A connection to be dropped.
    Unknown,
}

/// What a connection is, by its first bytes.
pub open spec fn protocol_of(b: Seq<u8>) -> Protocol {
    if b.len() < SNIFF_BYTES {
        Protocol::Unsettled
    } else if looks_like_mqtt(b) {
        Protocol::Mqtt
    } else if looks_like_http(b) {
        Protocol::Http
    } else {
        Protocol::Unknown
    }
}

/// Tells what a connection is.
pub fn sniff(b: &[u8]) -> (r: Protocol)
    ensures
        r == protocol_of(b@),
{
    if b.len() < SNIFF_BYTES {
        Protocol::Unsettled
    } else if is_mqtt(b) {
        Protocol::Mqtt
    } else if is_http(b) {
        Protocol::Http
    } else {
        Protocol::Unknown
    }
}

/// More bytes do not change what a connection is, once that is settled.
pub proof fn law_settled_protocol_stays(b: Seq<u8>, more: Seq<u8>)
    requires
        b.len() >= SNIFF_BYTES,
    ensures
        protocol_of(b + more) == protocol_of(b),
{
    let all = b + more;
    assert(all.subrange(4, 8) =~= b.subrange(4, 8));
    assert(all.take(4) =~= b.take(4));
    assert(all.take(5) =~= b.take(5));
    assert(all.take(6) =~= b.take(6));
    assert(all.take(7) =~= b.take(7));
}

// ---- bytes that wait to be handed out ----

/// The first bytes, as many as there is room for.
pub open spec fn up_to(b: Seq<u8>, room: nat) -> Seq<u8> {
    if b.len() <= room {
        b
    } else {
        b.take(room as int)
    }
}

/// The bytes after those that there is room for.
pub open spec fn beyond(b: Seq<u8>, room: nat) -> Seq<u8> {
    if b.len() <= room {
        Seq::empty()
    } else {
        b.skip(room as int)
    }
}

/// A stream of which some bytes were read to tell its protocol; they are
/// handed out again before the rest.
pub struct SniffedStream<S> {
    /// The stream that the rest comes from.
    pub inner: S,
    prefix: Vec<u8>,
    pos: usize,
}

impl<S> SniffedStream<S> {
    /// The stream that the rest comes from.
    pub closed spec fn stream(&self) -> S {
        self.inner
    }

    /// The bytes that are still to be handed out again.
    pub closed spec fn pending(&self) -> Seq<u8> {
        self.prefix@.skip(self.pos as int)
    }

    /// The position is one in the bytes.
    pub closed spec fn wf(&self) -> bool {
        self.pos <= self.prefix@.len()
    }

    /// Puts bytes back before a stream.
    pub fn new(inner: S, prefix: Vec<u8>) -> (r: SniffedStream<S>)
        ensures
            r.wf(),
            r.pending() == prefix@,
            r.stream() == inner,
    {
        let r = SniffedStream { inner, prefix, pos: 0 };
        assert(r.pending() =~= prefix@);
        r
    }

    /// Hands out bytes that were read before, or says that there are none left
    /// and the stream itself is to be read.
    pub fn replay(&mut self, room: usize) -> (r: Option<Vec<u8>>)
        requires
            old(self).wf(),
        ensures
            final(self).wf(),
            final(self).stream() == old(self).stream(),
            match r {
                Some(b) => old(self).pending().len() > 0 && b@ == up_to(
                    old(self).pending(),
                    room as nat,
                ) && final(self).pending() == beyond(old(self).pending(), room as nat),
                None => old(self).pending().len() == 0 && final(self).pending() == old(
                    self,
                ).pending(),
            },
    {
        if self.pos == self.prefix.len() {
            return None;
        }
        let left: usize = self.prefix.len() - self.pos;
        let n: usize = if left <= room {
            left
        } else {
            room
        };
        let out = piece(self.prefix.as_slice(), self.pos, self.pos + n);
        self.pos = self.pos + n;
        assert(out@ =~= up_to(old(self).pending(), room as nat));
        assert(self.pending() =~= beyond(old(self).pending(), room as nat));
        Some(out)
    }
}

fn piece(b: &[u8], from: usize, to: usize) -> (r: Vec<u8>)
    requires
        from <= to <= b@.len(),
    ensures
        r@ == b@.subrange(from as int, to as int),
{
    let mut out: Vec<u8> = Vec::new();
    let mut i: usize = from;
    while i < to
        invariant
            from <= i <= to <= b@.len(),
            out@ == b@.subrange(from as int, i as int),
        decreases to - i,
    {
        out.push(b[i]);
        i = i + 1;
        assert(out@ =~= b@.subrange(from as int, i as int));
    }
    out
}

/// A WebSocket as a stream of bytes: what did not fit of a frame waits.
pub struct WsIo {
    pending: Vec<u8>,
    pending_pos: usize,
}

impl WsIo {
    /// The bytes that wait.
    pub closed spec fn waiting(&self) -> Seq<u8> {
        self.pending@.skip(self.pending_pos as int)
    }

    /// The position is one in the bytes.
    pub closed spec fn wf(&self) -> bool {
        self.pending_pos <= self.pending@.len()
    }

    /// No bytes wait.
    pub fn new() -> (r: WsIo)
        ensures
            r.wf(),
            r.waiting() == Seq::<u8>::empty(),
    {
        let r = WsIo { pending: Vec::new(), pending_pos: 0 };
        assert(r.waiting() =~= Seq::<u8>::empty());
        r
    }

    /// Hands out bytes that wait, or says that none do and a frame is needed.
    pub fn read_pending(&mut self, room: usize) -> (r: Option<Vec<u8>>)
        requires
            old(self).wf(),
        ensures
            final(self).wf(),
            match r {
                Some(b) => old(self).waiting().len() > 0 && b@ == up_to(
                    old(self).waiting(),
                    room as nat,
                ) && final(self).waiting() == beyond(old(self).waiting(), room as nat),
                None => old(self).waiting().len() == 0 && final(self).waiting() == old(
                    self,
                ).waiting(),
            },
    {
        if self.pending_pos == self.pending.len() {
            return None;
        }
        let left: usize = self.pending.len() - self.pending_pos;
        let n: usize = if left <= room {
            left
        } else {
            room
        };
        let out = piece(self.pending.as_slice(), self.pending_pos, self.pending_pos + n);
        self.pending_pos = self.pending_pos + n;
        assert(out@ =~= up_to(old(self).waiting(), room as nat));
        assert(self.waiting() =~= beyond(old(self).waiting(), room as nat));
        Some(out)
    }

    /// Hands out the bytes of a new frame that there is room for; the rest
    /// waits.
    pub fn read_frame(&mut self, chunk: Vec<u8>, room: usize) -> (r: Vec<u8>)
        requires
            old(self).wf(),
            old(self).waiting().len() == 0,
        ensures
            final(self).wf(),
            r@ == up_to(chunk@, room as nat),
            final(self).waiting() == beyond(chunk@, room as nat),
    {
        let n: usize = if chunk.len() <= room {
            chunk.len()
        } else {
            room
        };
        let out = piece(chunk.as_slice(), 0, n);
        assert(out@ =~= up_to(chunk@, room as nat));
        if n < chunk.len() {
            let ghost all = chunk@;
            self.pending = chunk;
            self.pending_pos = n;
            assert(self.waiting() =~= beyond(all, room as nat));
        } else {
            assert(self.waiting() =~= beyond(chunk@, room as nat));
        }
        out
    }
}

/// What comes from a WebSocket, or from the session behind it.
pub enum WsEvent {
    /// A binary frame.
    Binary(Vec<u8>),
    /// A frame of another kind.
    Other,
    /// The socket was closed, or has failed.
    Closed,
    /// The session has bytes to send.
    Send(Vec<u8>),
    /// The session is over.
    Over,
}

/// What is done about it.
pub enum WsAction {
    /// Hand the bytes to the session.
    Feed(Vec<u8>),
    /// Send the bytes in a binary frame.
    Frame(Vec<u8>),
    /// Nothing.
    Stay,
    /// Close the socket and let the session end.
    Close,
}

/// Carries MQTT between a WebSocket and a session: only binary frames count.
pub fn ws_step(event: WsEvent) -> (r: WsAction)
    ensures
        r == match event {
            WsEvent::Binary(b) => WsAction::Feed(b),
            WsEvent::Other => WsAction::Stay,
            WsEvent::Closed => WsAction::Close,
            WsEvent::Send(b) => WsAction::Frame(b),
            WsEvent::Over => WsAction::Close,
        },
{
    match event {
        WsEvent::Binary(b) => WsAction::Feed(b),
        WsEvent::Other => WsAction::Stay,
        WsEvent::Closed => WsAction::Close,
        WsEvent::Send(b) => WsAction::Frame(b),
        WsEvent::Over => WsAction::Close,
    }
}

/// The bytes of one write that go into a WebSocket frame; the writer comes
/// back with the rest.
pub fn ws_frame(buf: &[u8]) -> (r: Vec<u8>)
    ensures
        r@ == up_to(buf@, MAX_WS_FRAME as nat),
{
    if buf.len() <= MAX_WS_FRAME {
        slice_to_vec(buf)
    } else {
        let out = piece(buf, 0, MAX_WS_FRAME);
        assert(out@ =~= up_to(buf@, MAX_WS_FRAME as nat));
        out
    }
}

/// Bytes handed out in pieces, with room for so many in each.
pub open spec fn handed_out(b: Seq<u8>, rooms: Seq<nat>) -> Seq<u8>
    decreases rooms.len(),
{
    if rooms.len() == 0 {
        Seq::empty()
    } else {
        up_to(b, rooms[0]) + handed_out(beyond(b, rooms[0]), rooms.skip(1))
    }
}

/// The bytes that are left after that.
pub open spec fn left_over(b: Seq<u8>, rooms: Seq<nat>) -> Seq<u8>
    decreases rooms.len(),
{
    if rooms.len() == 0 {
        b
    } else {
        left_over(beyond(b, rooms[0]), rooms.skip(1))
    }
}

/// However small the pieces are in which bytes are handed out, none is lost,
/// doubled or moved.
pub proof fn law_no_byte_is_lost(b: Seq<u8>, rooms: Seq<nat>)
    ensures
        handed_out(b, rooms) + left_over(b, rooms) == b,
    decreases rooms.len(),
{
    if rooms.len() == 0 {
        assert(handed_out(b, rooms) + left_over(b, rooms) =~= b);
    } else {
        let rest = beyond(b, rooms[0]);
        law_no_byte_is_lost(rest, rooms.skip(1));
        assert(up_to(b, rooms[0]) + rest =~= b);
        assert(handed_out(b, rooms) + left_over(b, rooms) =~= up_to(b, rooms[0]) + (handed_out(
            rest,
            rooms.skip(1),
        ) + left_over(rest, rooms.skip(1))));
    }
}

} // verus!
