//! MQTT packets as the service reads and writes them.

use crate::text::{decimal, texts};
use rumqttc::mqttbytes::v4::{
    ConnAck, ConnectReturnCode, Packet, PubAck, PubComp, Publish, SubAck, SubscribeReasonCode, UnsubAck,
};
use rumqttc::mqttbytes::{qos, Error, Protocol};
use vstd::prelude::*;
use vstd::string::*;
use vstd::utf8::*;

verus! {

broadcast use vstd::string::group_string_axioms;

/// The largest packet that is read or written, in bytes.
pub const MAX_PACKET_SIZE: usize = 1_048_576;

/// The answer to a subscription that is refused.
pub const REFUSED_CODE: u8 = 0x80;

// ---- reading ----

/// A packet from a client.
pub enum Inbound {
    /// Whether it speaks MQTT 3.1.1, the keep-alive seconds and the client id.
    Connect(bool, u16, String),
    /// Quality of service, topic, packet id and payload.
    Publish(u8, String, u16, Vec<u8>),
    /// Packet id, and topics with the quality of service asked for.
    Subscribe(u16, Vec<(String, u8)>),
    /// Packet id and topics.
    Unsubscribe(u16, Vec<String>),
    /// Packet id.
    PubRel(u16),
    PingReq,
    Disconnect,
    /// A packet that asks for nothing.
    Other,
}

/// What an `Inbound` holds.
pub enum InView {
    Connect(bool, u16, Seq<char>),
    Publish(u8, Seq<char>, u16, Seq<u8>),
    Subscribe(u16, Seq<(Seq<char>, u8)>),
    Unsubscribe(u16, Seq<Seq<char>>),
    PubRel(u16),
    PingReq,
    Disconnect,
    Other,
}

/// What a list of topic filters holds.
pub open spec fn filter_views(filters: Seq<(String, u8)>) -> Seq<(Seq<char>, u8)> {
    Seq::new(filters.len(), |i: int| (filters[i].0@, filters[i].1))
}

impl View for Inbound {
    type V = InView;

    open spec fn view(&self) -> InView {
        match *self {
            Inbound::Connect(v4, keep_alive, id) => InView::Connect(v4, keep_alive, id@),
            Inbound::Publish(qos, topic, pkid, payload) => InView::Publish(
                qos,
                topic@,
                pkid,
                payload@,
            ),
            Inbound::Subscribe(pkid, filters) => InView::Subscribe(pkid, filter_views(filters@)),
            Inbound::Unsubscribe(pkid, topics) => InView::Unsubscribe(pkid, texts(topics@)),
            Inbound::PubRel(pkid) => InView::PubRel(pkid),
            Inbound::PingReq => InView::PingReq,
            Inbound::Disconnect => InView::Disconnect,
            Inbound::Other => InView::Other,
        }
    }
}

/// Topic filters that ask for one of the three qualities of service.
pub open spec fn filters_wf(filters: Seq<(Seq<char>, u8)>) -> bool {
    forall|i: int| 0 <= i < filters.len() ==> (#[trigger] filters[i]).1 <= 2
}

impl InView {
    /// The packet asks for nothing but the three qualities of service.
    pub open spec fn wf(self) -> bool {
        match self {
            InView::Subscribe(_, filters) => filters_wf(filters),
            _ => true,
        }
    }
}

/// `rumqttc::mqttbytes::v4::Packet`, opaque here.
#[verifier::external_type_specification]
#[verifier::external_body]
pub struct ExPacket(Packet);

/// `rumqttc::mqttbytes::Error`, opaque here.
#[verifier::external_type_specification]
#[verifier::external_body]
pub struct ExError(Error);

/// What a `Packet` holds of what the service looks at.
pub uninterp spec fn packet_content(p: Packet) -> InView;

/// What `Packet::read` makes of bytes, with a limit on the size of a packet.
pub enum ReadView {
    /// A packet, and how many bytes are left behind it.
    Packet(InView, nat),
    /// Nothing yet: so many bytes are missing at least.
    Short(nat),
    /// No packet, for the reason given.
    Bad(Seq<char>),
}

/// What `Packet::read` makes of bytes, with a limit on the size of a packet.
pub uninterp spec fn packet_read(bytes: Seq<u8>, max: nat) -> ReadView;

/// Why no packet was read.
pub enum ReadError {
    Short(usize),
    Bad(String),
}

/// `Packet::read` takes a packet off the front of the bytes, at least the two
/// of its fixed header; it reports `InsufficientBytes` while the packet is
/// not complete, and another error where there is none.
#[verifier::external_body]
fn read_packet(data: &[u8], max: usize) -> (r: Result<(Packet, usize), ReadError>)
    ensures
        match r {
            Ok((p, left)) => packet_read(data@, max as nat) == ReadView::Packet(
                packet_content(p),
                left as nat,
            ) && left + 2 <= data@.len(),
            Err(ReadError::Short(n)) => packet_read(data@, max as nat) == ReadView::Short(n as nat),
            Err(ReadError::Bad(e)) => packet_read(data@, max as nat) == ReadView::Bad(e@),
        },
{
    let mut rest = bytes::BytesMut::from(data);
    match Packet::read(&mut rest, max) {
        Ok(p) => Ok((p, rest.len())),
        Err(Error::InsufficientBytes(n)) => Err(ReadError::Short(n)),
        Err(e) => Err(ReadError::Bad(e.to_string())),
    }
}

/// The variants of `Packet` that the service looks at, with their fields, and
/// all others as one; a quality of service is its number, which is 0, 1 or 2.
#[verifier::external_body]
fn open_packet(p: Packet) -> (r: Inbound)
    ensures
        r@ == packet_content(p),
        r@.wf(),
{
    match p {
        Packet::Connect(c) => Inbound::Connect(matches!(c.protocol, Protocol::V4), c.keep_alive, c.client_id),
        Packet::Publish(p) => Inbound::Publish(p.qos as u8, p.topic, p.pkid, p.payload.to_vec()),
        Packet::Subscribe(s) => Inbound::Subscribe(
            s.pkid,
            s.filters.into_iter().map(|f| (f.path, f.qos as u8)).collect(),
        ),
        Packet::Unsubscribe(u) => Inbound::Unsubscribe(u.pkid, u.topics),
        Packet::PubRel(p) => Inbound::PubRel(p.pkid),
        Packet::PingReq => Inbound::PingReq,
        Packet::Disconnect => Inbound::Disconnect,
        _ => Inbound::Other,
    }
}

/// What was found at the front of the bytes read so far.
pub enum Taken {
    Packet(Inbound),
    /// At least so many bytes more are needed.
    NeedMore(usize),
    Malformed(String),
}

/// Takes a packet off the front of the bytes read so far, once it is complete.
pub fn take_packet(buf: &mut Vec<u8>) -> (r: Taken)
    ensures
        match packet_read(old(buf)@, MAX_PACKET_SIZE as nat) {
            ReadView::Packet(p, left) => r is Packet && r->Packet_0@ == p && final(buf)@ == old(
                buf,
            )@.skip(old(buf)@.len() - left),
            ReadView::Short(n) => r is NeedMore && r->NeedMore_0 == n && final(buf)@ == old(buf)@,
            ReadView::Bad(e) => r is Malformed && r->Malformed_0@ == "malformed packet: "@ + e
                && final(buf)@ == old(buf)@,
        },
        r matches Taken::Packet(p) ==> p@.wf() && final(buf)@.len() + 2 <= old(buf)@.len()
            && final(buf)@ == old(buf)@.skip(old(buf)@.len() - final(buf)@.len()),
{
    match read_packet(buf.as_slice(), MAX_PACKET_SIZE) {
        Ok((p, left)) => {
            let at: usize = buf.len() - left;
            let rest = buf.split_off(at);
            *buf = rest;
            assert(buf@ =~= old(buf)@.skip(old(buf)@.len() - left));
            Taken::Packet(open_packet(p))
        },
        Err(ReadError::Short(n)) => Taken::NeedMore(n),
        Err(ReadError::Bad(e)) => {
            let mut text = "malformed packet: ".to_string();
            text.append(e.as_str());
            Taken::Malformed(text)
        },
    }
}

// ---- writing ----

/// A packet without variable parts.
pub enum Control {
    /// A connection is accepted.
    Accepted,
    /// A connection is refused for its protocol version.
    Refused,
    PingResp,
    /// Packet id.
    PubAck(u16),
    /// Packet id.
    PubComp(u16),
    /// Packet id.
    UnsubAck(u16),
}

/// A packet to a client.
pub enum Outbound {
    Control(Control),
    /// Packet id, and the quality of service granted for each filter, or a
    /// refusal.
    SubAck(u16, Vec<u8>),
    /// Topic, packet id and payload of a message delivered at least once.
    Deliver(String, u16, Vec<u8>),
}

/// What an `Outbound` holds.
#[verifier::ext_equal]
pub enum OutView {
    Control(Control),
    SubAck(u16, Seq<u8>),
    Deliver(Seq<char>, u16, Seq<u8>),
}

impl View for Outbound {
    type V = OutView;

    open spec fn view(&self) -> OutView {
        match *self {
            Outbound::Control(c) => OutView::Control(c),
            Outbound::SubAck(pkid, codes) => OutView::SubAck(pkid, codes@),
            Outbound::Deliver(topic, pkid, payload) => OutView::Deliver(topic@, pkid, payload@),
        }
    }
}

/// The codes that may answer a subscription.
pub open spec fn codes_wf(codes: Seq<u8>) -> bool {
    forall|i: int|
        0 <= i < codes.len() ==> (#[trigger] codes[i]) <= 2 || codes[i] == REFUSED_CODE
}

impl OutView {
    /// The packet can be written: its codes are valid, and a message has a
    /// packet id.
    pub open spec fn wf(self) -> bool {
        match self {
            OutView::Control(_) => true,
            OutView::SubAck(_, codes) => codes_wf(codes),
            OutView::Deliver(_, pkid, _) => pkid > 0,
        }
    }
}

/// Two bytes, the higher first.
pub open spec fn be16(n: int) -> Seq<u8> {
    seq![(n / 256) as u8, (n % 256) as u8]
}

/// A length in groups of seven bits, the lowest first, with the top bit set in
/// all but the last.
pub open spec fn varint(n: nat) -> Seq<u8>
    decreases n,
{
    if n < 128 {
        seq![n as u8]
    } else {
        seq![(n % 128 + 128) as u8] + varint(n / 128)
    }
}

/// A packet of the given first byte.
pub open spec fn frame(first: u8, rest: Seq<u8>) -> Seq<u8> {
    seq![first] + varint(rest.len()) + rest
}

/// The body of a published message: its topic after the low sixteen bits of
/// the topic's length, the packet id above quality of service 0, the payload.
pub open spec fn publish_body(qos: u8, topic: Seq<u8>, pkid: u16, payload: Seq<u8>) -> Seq<u8> {
    be16((topic.len() % 65536) as int) + topic + (if qos > 0 {
        be16(pkid as int)
    } else {
        Seq::empty()
    }) + payload
}

/// What a `Packet` holds that is written to a client.
#[verifier::ext_equal]
pub enum WireView {
    Control(Control),
    /// Packet id and codes.
    SubAck(u16, Seq<u8>),
    /// Duplicate, quality of service, retained, topic, packet id and payload.
    Publish(bool, u8, bool, Seq<char>, u16, Seq<u8>),
}

/// What a `Packet` holds that is written to a client.
pub uninterp spec fn packet_wire(p: Packet) -> WireView;

/// The first byte of a published message: the flags stand in its low bits.
pub open spec fn publish_first(dup: bool, level: u8, retain: bool) -> u8 {
    (0x30 + (if dup {
        8int
    } else {
        0
    }) + 2 * level + (if retain {
        1int
    } else {
        0
    })) as u8
}

/// What stands in a packet behind its first byte and its length.
pub open spec fn wire_body(w: WireView) -> Seq<u8> {
    match w {
        WireView::Control(Control::Accepted) => seq![0, 0],
        WireView::Control(Control::Refused) => seq![0, 1],
        WireView::Control(Control::PingResp) => Seq::empty(),
        WireView::Control(Control::PubAck(pkid)) => be16(pkid as int),
        WireView::Control(Control::PubComp(pkid)) => be16(pkid as int),
        WireView::Control(Control::UnsubAck(pkid)) => be16(pkid as int),
        WireView::SubAck(pkid, codes) => be16(pkid as int) + codes,
        WireView::Publish(_, level, _, topic, pkid, payload) => publish_body(
            level,
            encode_utf8(topic),
            pkid,
            payload,
        ),
    }
}

/// The first byte of a packet.
pub open spec fn wire_first(w: WireView) -> u8 {
    match w {
        WireView::Control(Control::Accepted) => 0x20,
        WireView::Control(Control::Refused) => 0x20,
        WireView::Control(Control::PingResp) => 0xD0,
        WireView::Control(Control::PubAck(_)) => 0x40,
        WireView::Control(Control::PubComp(_)) => 0x70,
        WireView::Control(Control::UnsubAck(_)) => 0xB0,
        WireView::SubAck(_, _) => 0x90,
        WireView::Publish(dup, level, retain, _, _, _) => publish_first(dup, level, retain),
    }
}

/// The size of a packet with a body of so many bytes, with up to four for its
/// length.
pub open spec fn wire_size(n: nat) -> nat {
    n + if n >= 2_097_152 {
        5nat
    } else if n >= 16_384 {
        4
    } else if n >= 128 {
        3
    } else {
        2
    }
}

/// Why a packet is not written: it is larger than it may be.
pub open spec fn too_large_text(size: nat, max: nat) -> Seq<char> {
    "Cannot send packet of size '"@ + decimal(size)
        + "'. It's greater than the broker's maximum packet size of: '"@ + decimal(max) + "'"@
}

/// The variants of `Packet` that stand for packets without variable parts.
#[verifier::external_body]
fn control_packet(c: Control) -> (r: Packet)
    ensures
        packet_wire(r) == WireView::Control(c),
{
    match c {
        Control::Accepted => Packet::ConnAck(ConnAck::new(ConnectReturnCode::Success, false)),
        Control::Refused => Packet::ConnAck(ConnAck::new(ConnectReturnCode::RefusedProtocolVersion, false)),
        Control::PingResp => Packet::PingResp,
        Control::PubAck(id) => Packet::PubAck(PubAck::new(id)),
        Control::PubComp(id) => Packet::PubComp(PubComp::new(id)),
        Control::UnsubAck(id) => Packet::UnsubAck(UnsubAck::new(id)),
    }
}

/// `Packet::SubAck`; `SubscribeReasonCode::try_from` takes each of the codes.
#[verifier::external_body]
fn suback_packet(pkid: u16, codes: Vec<u8>) -> (r: Result<Packet, Error>)
    requires
        codes_wf(codes@),
    ensures
        r is Ok,
        packet_wire(r->Ok_0) == WireView::SubAck(pkid, codes@),
{
    let codes = codes.into_iter().map(SubscribeReasonCode::try_from).collect::<Result<_, _>>()?;
    Ok(Packet::SubAck(SubAck::new(pkid, codes)))
}

/// `Packet::Publish`; `mqttbytes::qos` takes each of the three levels.
#[verifier::external_body]
fn publish_packet(
    dup: bool,
    level: u8,
    retain: bool,
    topic: String,
    pkid: u16,
    payload: Vec<u8>,
) -> (r: Result<Packet, Error>)
    requires
        level <= 2,
    ensures
        r is Ok,
        packet_wire(r->Ok_0) == WireView::Publish(dup, level, retain, topic@, pkid, payload@),
{
    let qos = qos(level)?;
    Ok(Packet::Publish(Publish { dup, qos, retain, topic, pkid, payload: payload.into() }))
}

/// `Packet::write` writes a packet that is no larger than the limit, and
/// reports `OutgoingPacketTooLarge` for a larger one; the text is that error's
/// `Display`. A message above quality of service 0 has to have a packet id.
#[verifier::external_body]
fn write_packet(p: &Packet, max: usize) -> (r: Result<Vec<u8>, String>)
    requires
        max <= 268_435_455,
        packet_wire(*p) matches WireView::Publish(_, level, _, _, pkid, _) ==> level > 0 ==> pkid > 0,
    ensures
        ({
            let body = wire_body(packet_wire(*p));
            match r {
                Ok(b) => wire_size(body.len()) <= max && b@ == frame(
                    wire_first(packet_wire(*p)),
                    body,
                ),
                Err(e) => wire_size(body.len()) > max && e@ == too_large_text(
                    wire_size(body.len()),
                    max as nat,
                ),
            }
        }),
{
    let mut out = bytes::BytesMut::new();
    p.write(&mut out, max).map_err(|e| e.to_string())?;
    Ok(out.to_vec())
}

proof fn lemma_varint_length(n: nat)
    ensures
        n < 268_435_456 ==> 1 + varint(n).len() + n == wire_size(n),
        varint(n).len() >= 1,
{
    reveal_with_fuel(varint, 4);
}

/// What a packet to a client holds, as it is written.
pub open spec fn wire_of(out: OutView) -> WireView {
    match out {
        OutView::Control(c) => WireView::Control(c),
        OutView::SubAck(pkid, codes) => WireView::SubAck(pkid, codes),
        OutView::Deliver(topic, pkid, payload) => WireView::Publish(
            false,
            1,
            false,
            topic,
            pkid,
            payload,
        ),
    }
}

/// A packet to a client as bytes.
pub open spec fn out_frame(out: OutView) -> Seq<u8> {
    frame(wire_first(wire_of(out)), wire_body(wire_of(out)))
}

/// Writes a packet, unless it is too large.
pub fn encode(out: Outbound) -> (r: Result<Vec<u8>, String>)
    requires
        out@.wf(),
    ensures
        match r {
            Ok(b) => out_frame(out@).len() <= MAX_PACKET_SIZE && b@ == out_frame(out@),
            Err(e) => out_frame(out@).len() > MAX_PACKET_SIZE && e@ == "encode: "@ + too_large_text(
                wire_size(wire_body(wire_of(out@)).len()),
                MAX_PACKET_SIZE as nat,
            ),
        },
{
    let ghost w = wire_of(out@);
    let made = match out {
        Outbound::Control(c) => Ok(control_packet(c)),
        Outbound::SubAck(pkid, codes) => suback_packet(pkid, codes),
        Outbound::Deliver(topic, pkid, payload) => publish_packet(
            false,
            1,
            false,
            topic,
            pkid,
            payload,
        ),
    };
    proof {
        lemma_varint_length(wire_body(w).len());
    }
    let written = match made {
        Ok(p) => write_packet(&p, MAX_PACKET_SIZE),
        Err(_) => Err(String::new()),
    };
    match written {
        Ok(b) => Ok(b),
        Err(e) => {
            let mut text = "encode: ".to_string();
            text.append(e.as_str());
            Err(text)
        },
    }
}

} // verus!
