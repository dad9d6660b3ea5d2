//! What goes over the wire: which protocol a connection speaks, how packets are
//! written, what the hub keeps, and what publishing does.

use crate::clock::is_timestamp;
use crate::json::{json_text, JsonTree};
use crate::mqtt::{payloads, HubView, OfflineMsg};
use crate::packet::{
    be16, filter_views, frame, out_frame, publish_first, too_large_text, varint, wire_body,
    wire_of, wire_size, Control, InView, Inbound, OutView, Outbound,
};
use crate::panel::{failure_of, given, refusal, told};
use crate::publish::{job_done, published_all, push_done, results, test_done, Outcome, ServiceView};
use crate::push_api::{push_answer, JobView, StepView};
use crate::push_log::{last_n, log_entry};
use crate::reply::{json_reply_of, text_reply_of, ReplyView};
use crate::sniff::{beyond, looks_like_http, looks_like_mqtt, protocol_of, up_to, Protocol};
use crate::text::decimal;
use vstd::prelude::*;
use vstd::utf8::encode_utf8;

verus! {

broadcast use vstd::string::group_string_axioms;

// ---- the protocol of a connection ----

/// Eight bytes tell the protocol: CONNECT with the name of MQTT, or one of seven
/// methods of HTTP; a connection that begins in any other way is dropped.
pub proof fn law_first_bytes_tell_the_protocol(b: Seq<u8>, rest: Seq<u8>)
    ensures
        b.len() < 8 ==> protocol_of(b) == Protocol::Unsettled,
        b.len() >= 8 && b[0] == 0x10 && b[4] == 'M' as u8 && b[5] == 'Q' as u8 && b[6] == 'T' as u8
            && b[7] == 'T' as u8 ==> protocol_of(b) == Protocol::Mqtt,
        protocol_of(b) == Protocol::Mqtt ==> b.len() >= 8 && b[0] == 0x10 && b[4] == 77 && b[5]
            == 81 && b[6] == 84 && b[7] == 84,
        rest.len() >= 4 ==> {
            &&& protocol_of(
                seq!['G' as u8, 'E' as u8, 'T' as u8, ' ' as u8] + rest,
            ) == Protocol::Http
            &&& protocol_of(
                seq!['P' as u8, 'O' as u8, 'S' as u8, 'T' as u8] + rest,
            ) == Protocol::Http
            &&& protocol_of(
                seq!['P' as u8, 'U' as u8, 'T' as u8, ' ' as u8] + rest,
            ) == Protocol::Http
            &&& protocol_of(
                seq!['H' as u8, 'E' as u8, 'A' as u8, 'D' as u8] + rest,
            ) == Protocol::Http
            &&& protocol_of(
                seq!['P' as u8, 'A' as u8, 'T' as u8, 'C' as u8, 'H' as u8] + rest,
            ) == Protocol::Http
            &&& protocol_of(
                seq!['D' as u8, 'E' as u8, 'L' as u8, 'E' as u8, 'T' as u8, 'E' as u8] + rest,
            ) == Protocol::Http
            &&& protocol_of(
                seq![
                    'O' as u8,
                    'P' as u8,
                    'T' as u8,
                    'I' as u8,
                    'O' as u8,
                    'N' as u8,
                    'S' as u8,
                ] + rest,
            ) == Protocol::Http
        },
        b.len() >= 8 && b[0] != 0x10 && b[0] != 'G' as u8 && b[0] != 'P' as u8 && b[0] != 'H' as u8
            && b[0] != 'D' as u8 && b[0] != 'O' as u8 ==> protocol_of(b) == Protocol::Unknown,
        b.len() >= 8 && b[0] == 0x10 && !looks_like_mqtt(b) ==> protocol_of(b)
            == Protocol::Unknown,
        looks_like_http(b) ==> b.len() >= 4 && (seq![
            seq!['G' as u8, 'E' as u8, 'T' as u8, ' ' as u8],
            seq!['P' as u8, 'O' as u8, 'S' as u8, 'T' as u8],
            seq!['P' as u8, 'U' as u8, 'T' as u8, ' ' as u8],
            seq!['D' as u8, 'E' as u8, 'L' as u8, 'E' as u8],
            seq!['H' as u8, 'E' as u8, 'A' as u8, 'D' as u8],
            seq!['O' as u8, 'P' as u8, 'T' as u8, 'I' as u8],
            seq!['P' as u8, 'A' as u8, 'T' as u8, 'C' as u8],
        ]).contains(b.take(4)),
        looks_like_http(b) && b[0] == 'D' as u8 ==> b.len() >= 6 && b[4] == 'T' as u8 && b[5]
            == 'E' as u8,
        looks_like_http(b) && b[0] == 'O' as u8 ==> b.len() >= 7 && b[4] == 'O' as u8 && b[5]
            == 'N' as u8 && b[6] == 'S' as u8,
        looks_like_http(b) && b[0] == 'P' as u8 && b[1] == 'A' as u8 ==> b.len() >= 5 && b[4]
            == 'H' as u8,
{
    let methods = seq![
        seq![71u8, 69u8, 84u8, 32u8],
        seq![80u8, 79u8, 83u8, 84u8],
        seq![80u8, 85u8, 84u8, 32u8],
        seq![68u8, 69u8, 76u8, 69u8],
        seq![72u8, 69u8, 65u8, 68u8],
        seq![79u8, 80u8, 84u8, 73u8],
        seq![80u8, 65u8, 84u8, 67u8],
    ];
    if looks_like_http(b) {
        let t = b.take(4);
        let i: int = if b[0] == 71 {
            0
        } else if b[0] == 68 {
            3
        } else if b[0] == 72 {
            4
        } else if b[0] == 79 {
            5
        } else if b[1] == 79 {
            1
        } else if b[1] == 85 {
            2
        } else {
            6
        };
        lemma_first_of(b, seq![71u8, 69u8, 84u8, 32u8]);
        lemma_first_of(b, seq![80u8, 79u8, 83u8, 84u8]);
        lemma_first_of(b, seq![80u8, 85u8, 84u8, 32u8]);
        lemma_first_of(b, seq![68u8, 69u8, 76u8, 69u8, 84u8, 69u8]);
        lemma_first_of(b, seq![72u8, 69u8, 65u8, 68u8]);
        lemma_first_of(b, seq![79u8, 80u8, 84u8, 73u8, 79u8, 78u8, 83u8]);
        lemma_first_of(b, seq![80u8, 65u8, 84u8, 67u8, 72u8]);
        assert(t =~= methods[i]);
        assert(methods.contains(t));
    }
    if b.len() >= 8 {
        let four = b.subrange(4, 8);
        assert(four[0] == b[4] && four[1] == b[5] && four[2] == b[6] && four[3] == b[7]);
        if b[4] == 77 && b[5] == 81 && b[6] == 84 && b[7] == 84 {
            assert(four =~= seq![77u8, 81u8, 84u8, 84u8]);
        }
    }
    lemma_begins(seq![71u8, 69u8, 84u8, 32u8], rest);
    lemma_begins(seq![80u8, 79u8, 83u8, 84u8], rest);
    lemma_begins(seq![80u8, 85u8, 84u8, 32u8], rest);
    lemma_begins(seq![68u8, 69u8, 76u8, 69u8, 84u8, 69u8], rest);
    lemma_begins(seq![72u8, 69u8, 65u8, 68u8], rest);
    lemma_begins(seq![79u8, 80u8, 84u8, 73u8, 79u8, 78u8, 83u8], rest);
    lemma_begins(seq![80u8, 65u8, 84u8, 67u8, 72u8], rest);
}

proof fn lemma_begins(start: Seq<u8>, rest: Seq<u8>)
    ensures
        crate::sniff::begins_with(start + rest, start),
{
    assert((start + rest).take(start.len() as int) =~= start);
}

proof fn lemma_first_of(b: Seq<u8>, start: Seq<u8>)
    requires
        start.len() >= 4,
    ensures
        crate::sniff::begins_with(b, start) ==> b.len() >= start.len() && forall|i: int|
            0 <= i < start.len() ==> b[i] == #[trigger] start[i],
        crate::sniff::begins_with(b, start) ==> b[0] == start[0] && b[1] == start[1] && b[2]
            == start[2] && b[3] == start[3],
{
    if crate::sniff::begins_with(b, start) {
        let t = b.take(start.len() as int);
        assert forall|i: int| 0 <= i < start.len() implies b[i] == #[trigger] start[i] by {
            assert(t[i] == b[i]);
        }
    }
}

/// Bytes are handed out up to the room there is, and the rest stays.
pub proof fn law_room_parts_the_bytes(b: Seq<u8>, room: nat)
    ensures
        up_to(b, room) + beyond(b, room) == b,
        up_to(b, room).len() == if b.len() < room {
            b.len()
        } else {
            room
        },
        crate::sniff::MAX_WS_FRAME == 16384,
        crate::sniff::SNIFF_BYTES == 8,
{
    assert(up_to(b, room) + beyond(b, room) =~= b);
}

// ---- how packets are written ----

/// The answers of the server, byte by byte.
pub proof fn law_answers_byte_by_byte(pkid: u16, codes: Seq<u8>)
    requires
        codes.len() < 126,
    ensures
        ({
            let hi = (pkid / 256) as u8;
            let lo = (pkid % 256) as u8;
            &&& out_frame(OutView::Control(Control::Accepted)) == seq![0x20u8, 2, 0, 0]
            &&& out_frame(OutView::Control(Control::Refused)) == seq![0x20u8, 2, 0, 1]
            &&& out_frame(OutView::Control(Control::PingResp)) == seq![0xD0u8, 0]
            &&& out_frame(OutView::Control(Control::PubAck(pkid))) == seq![0x40u8, 2, hi, lo]
            &&& out_frame(OutView::Control(Control::PubComp(pkid))) == seq![0x70u8, 2, hi, lo]
            &&& out_frame(OutView::Control(Control::UnsubAck(pkid))) == seq![0xB0u8, 2, hi, lo]
            &&& out_frame(OutView::SubAck(pkid, codes)) == seq![
                0x90u8,
                (codes.len() + 2) as u8,
                hi,
                lo,
            ] + codes
        }),
{
    let hi = (pkid / 256) as u8;
    let lo = (pkid % 256) as u8;
    assert(be16(pkid as int) =~= seq![hi, lo]);
    assert(varint(2) =~= seq![2u8]);
    assert(varint(0) =~= seq![0u8]);
    assert(out_frame(OutView::Control(Control::Accepted)) =~= seq![0x20u8, 2, 0, 0]);
    assert(out_frame(OutView::Control(Control::Refused)) =~= seq![0x20u8, 2, 0, 1]);
    assert(out_frame(OutView::Control(Control::PingResp)) =~= seq![0xD0u8, 0]);
    assert(out_frame(OutView::Control(Control::PubAck(pkid))) =~= seq![0x40u8, 2, hi, lo]);
    assert(out_frame(OutView::Control(Control::PubComp(pkid))) =~= seq![0x70u8, 2, hi, lo]);
    assert(out_frame(OutView::Control(Control::UnsubAck(pkid))) =~= seq![0xB0u8, 2, hi, lo]);
    assert(out_frame(OutView::SubAck(pkid, codes)) =~= seq![
        0x90u8,
        (codes.len() + 2) as u8,
        hi,
        lo,
    ] + codes);
}

/// A message is delivered at quality of service 1: the length of the rest, the
/// topic after its own length, the packet id and the payload.
pub proof fn law_deliveries_byte_by_byte(topic: Seq<char>, pkid: u16, payload: Seq<u8>)
    requires
        encode_utf8(topic).len() < 65536,
    ensures
        ({
            let name = encode_utf8(topic);
            let rest = seq![(name.len() / 256) as u8, (name.len() % 256) as u8] + name + seq![
                (pkid / 256) as u8,
                (pkid % 256) as u8,
            ] + payload;
            out_frame(OutView::Deliver(topic, pkid, payload)) == seq![0x32u8] + varint(rest.len())
                + rest
        }),
{
    let name = encode_utf8(topic);
    let rest = seq![(name.len() / 256) as u8, (name.len() % 256) as u8] + name + seq![
        (pkid / 256) as u8,
        (pkid % 256) as u8,
    ] + payload;
    assert(wire_body(wire_of(OutView::Deliver(topic, pkid, payload))) =~= rest);
}

/// What a length before the rest of a packet stands for: seven bits of each
/// byte, the lowest first, up to the first byte below 128.
pub open spec fn length_read(b: Seq<u8>) -> (nat, nat)
    decreases b.len(),
{
    if b.len() == 0 {
        (0, 0)
    } else if b[0] < 128 {
        (b[0] as nat, 1)
    } else {
        let (n, used) = length_read(b.skip(1));
        ((b[0] - 128) as nat + 128 * n, used + 1)
    }
}

/// A reader of the length finds the length, and then the rest.
pub proof fn law_lengths_read_back(n: nat, rest: Seq<u8>)
    ensures
        length_read(varint(n) + rest) == (n, varint(n).len()),
        n < 128 ==> varint(n).len() == 1,
        128 <= n < 16384 ==> varint(n).len() == 2,
        16384 <= n < 2097152 ==> varint(n).len() == 3,
    decreases n,
{
    let b = varint(n) + rest;
    if n >= 128 {
        law_lengths_read_back(n / 128, rest);
        assert(b.skip(1) =~= varint(n / 128) + rest);
        assert(b[0] == (n % 128 + 128) as u8);
    }
}

/// A packet is its first byte, the length of the rest, and the rest; its size is
/// that of all three.
pub proof fn law_packets_are_framed(first: u8, rest: Seq<u8>)
    requires
        rest.len() < 268435456,
    ensures
        frame(first, rest)[0] == first,
        length_read(frame(first, rest).skip(1)).0 == rest.len(),
        frame(first, rest).skip(1 + length_read(frame(first, rest).skip(1)).1 as int) == rest,
        frame(first, rest).len() == wire_size(rest.len()),
        crate::packet::MAX_PACKET_SIZE == 1048576,
{
    let b = frame(first, rest);
    law_lengths_read_back(rest.len(), rest);
    assert(b.skip(1) =~= varint(rest.len()) + rest);
    assert(b.skip(1 + varint(rest.len()).len() as int) =~= rest);
    let n = rest.len();
    if n >= 2097152 {
        law_lengths_read_back(n / 128, rest);
    }
}

/// Two bytes hold a number, the higher one first.
pub proof fn law_two_bytes_hold_a_number(n: u16)
    ensures
        be16(n as int).len() == 2,
        be16(n as int)[0] * 256 + be16(n as int)[1] == n,
{
}

/// The first byte of a message holds whether it is a duplicate, its quality of
/// service and whether it is retained.
pub proof fn law_first_byte_of_a_message(level: u8)
    requires
        level <= 2,
    ensures
        publish_first(false, level, false) == 0x30 + 2 * level,
        publish_first(true, level, false) == 0x38 + 2 * level,
        publish_first(false, level, true) == 0x31 + 2 * level,
        publish_first(true, level, true) == 0x39 + 2 * level,
{
}

/// A packet that is too large is refused with its size and the limit.
pub proof fn law_too_large_packets_say_so(size: nat, max: nat)
    ensures
        too_large_text(size, max) == "Cannot send packet of size '"@ + decimal(size)
            + "'. It's greater than the broker's maximum packet size of: '"@ + decimal(max)
            + "'"@,
{
}

/// Packets are seen as they are.
pub proof fn law_packets_are_seen_as_they_are(p: Inbound, out: Outbound)
    ensures
        match p {
            Inbound::Connect(v4, keep_alive, id) => p@ == InView::Connect(v4, keep_alive, id@),
            Inbound::Publish(qos, topic, pkid, payload) => p@ == InView::Publish(
                qos,
                topic@,
                pkid,
                payload@,
            ),
            Inbound::Subscribe(pkid, filters) => {
                &&& p@ is Subscribe
                &&& p@->Subscribe_0 == pkid
                &&& p@->Subscribe_1.len() == filters@.len()
                &&& forall|i: int|
                    0 <= i < filters@.len() ==> (#[trigger] p@->Subscribe_1[i]) == (
                        filters@[i].0@,
                        filters@[i].1,
                    )
            },
            Inbound::Unsubscribe(pkid, topics) => {
                &&& p@ is Unsubscribe
                &&& p@->Unsubscribe_0 == pkid
                &&& p@->Unsubscribe_1.len() == topics@.len()
                &&& forall|i: int|
                    0 <= i < topics@.len() ==> (#[trigger] p@->Unsubscribe_1[i]) == topics@[i]@
            },
            Inbound::PubRel(pkid) => p@ == InView::PubRel(pkid),
            Inbound::PingReq => p@ == InView::PingReq,
            Inbound::Disconnect => p@ == InView::Disconnect,
            Inbound::Other => p@ == InView::Other,
        },
        match out {
            Outbound::Control(c) => out@ == OutView::Control(c),
            Outbound::SubAck(pkid, codes) => out@ == OutView::SubAck(pkid, codes@),
            Outbound::Deliver(topic, pkid, payload) => out@ == OutView::Deliver(
                topic@,
                pkid,
                payload@,
            ),
        },
{
}

/// What can be sent: a delivery has a packet id, and a subscription is answered
/// with a quality of service up to 2 or with 128.
pub proof fn law_what_can_be_sent(topic: Seq<char>, pkid: u16, payload: Seq<u8>, codes: Seq<u8>, c: Control)
    ensures
        OutView::Control(c).wf(),
        OutView::Deliver(topic, pkid, payload).wf() <==> pkid > 0,
        OutView::SubAck(pkid, codes).wf() <==> forall|i: int|
            0 <= i < codes.len() ==> (#[trigger] codes[i]) <= 2 || codes[i] == 128,
{
}

// ---- the hub ----

/// A subscription counts one more at its topic, and the end of one counts one
/// less; other topics and waiting messages stay.
pub proof fn law_subscriptions_count(hub: HubView, topic: Seq<char>, other: Seq<char>)
    requires
        other != topic,
        hub.count(topic) < usize::MAX,
    ensures
        hub.subscribed(topic).count(topic) == hub.count(topic) + 1,
        hub.subscribed(topic).count(other) == hub.count(other),
        hub.subscribed(topic).queues == hub.queues,
        hub.subscribed(topic).connections == hub.connections,
        hub.count(topic) > 0 ==> hub.unsubscribed(topic).count(topic) == hub.count(topic) - 1,
        hub.count(topic) == 0 ==> hub.unsubscribed(topic).count(topic) == 0,
        hub.unsubscribed(topic).count(other) == hub.count(other),
        hub.unsubscribed(topic).queues == hub.queues,
        hub.unsubscribed(topic).connections == hub.connections,
        hub.unsubscribed(topic).count(topic) == 0 ==> !hub.unsubscribed(
            topic,
        ).counts.contains_key(topic),
{
}

/// A message waits where waiting is on, there is room for one, and nobody is
/// subscribed; it waits behind the others, of which the oldest make room. Other
/// topics and counts stay.
pub proof fn law_messages_wait_for_subscribers(
    hub: HubView,
    topic: Seq<char>,
    other: Seq<char>,
    payload: Seq<u8>,
    enabled: bool,
    limit: nat,
)
    requires
        other != topic,
    ensures
        ({
            let after = hub.published(topic, payload, enabled, limit);
            &&& after.queue(other) == hub.queue(other)
            &&& after.counts == hub.counts
            &&& after.connections == hub.connections
            &&& !enabled || limit == 0 || hub.count(topic) > 0 ==> after == hub
            &&& enabled && limit > 0 && hub.count(topic) == 0 ==> {
                &&& after.queue(topic).last() == payload
                &&& hub.queue(topic).len() < limit ==> after.queue(topic) == hub.queue(topic).push(
                    payload,
                )
                &&& hub.queue(topic).len() >= limit ==> after.queue(topic).len() == limit
                    && after.queue(topic) == hub.queue(topic).push(payload).subrange(
                    hub.queue(topic).len() + 1 - limit,
                    hub.queue(topic).len() as int + 1,
                )
            }
        }),
{
    let after = hub.published(topic, payload, enabled, limit);
    let all = hub.queue(topic).push(payload);
    if enabled && limit > 0 && hub.count(topic) == 0 && all.len() > limit {
        assert(after.queue(topic) =~= all.subrange(all.len() - limit, all.len() as int));
    }
}

/// What was waiting is taken once; nothing else changes.
pub proof fn law_waiting_messages_are_taken(hub: HubView, topic: Seq<char>, other: Seq<char>)
    requires
        other != topic,
    ensures
        hub.taken(topic).queue(topic) == Seq::<Seq<u8>>::empty(),
        hub.taken(topic).queue(other) == hub.queue(other),
        hub.taken(topic).counts == hub.counts,
        hub.taken(topic).connections == hub.connections,
{
}

/// Messages that wait are seen as they are.
pub proof fn law_waiting_messages_are_seen_as_they_are(
    list: Seq<OfflineMsg>,
    filters: Seq<(String, u8)>,
)
    ensures
        payloads(list).len() == list.len(),
        forall|i: int| 0 <= i < list.len() ==> (#[trigger] payloads(list)[i]) == list[i].payload@,
        filter_views(filters).len() == filters.len(),
        forall|i: int|
            0 <= i < filters.len() ==> (#[trigger] filter_views(filters)[i]) == (
                filters[i].0@,
                filters[i].1,
            ),
{
}

// ---- publishing ----

/// Publishing hands the router the key and the payload, keeps the message where
/// it must wait, counts it where the router took it, and logs it; the
/// configuration stays.
pub proof fn law_publishing_does_all_of_it(
    before: ServiceView,
    key: Seq<char>,
    title: Seq<char>,
    payload: Seq<u8>,
    keep: bool,
    limit: nat,
    o: Outcome,
    note: Seq<char>,
)
    ensures
        ({
            let after = before.published(key, title, payload, keep, limit, o, note);
            &&& after.cfg == before.cfg
            &&& after.room == before.room
            &&& o.result is Ok && before.count < i64::MAX ==> after.count == before.count + 1
            &&& o.result is Err ==> after.count == before.count
            &&& after.handed == before.handed + seq![(key, payload, o.result is Ok)]
            &&& after.hub == before.hub.published(key, payload, keep, limit)
            &&& before.log.len() < before.room ==> after.log == before.log + seq![
                log_entry(o.time, key, title, note),
            ]
            &&& before.room > 0 ==> after.log.last() == log_entry(o.time, key, title, note)
        }),
{
    let after = before.published(key, title, payload, keep, limit, o, note);
    assert(after.handed =~= before.handed + seq![(key, payload, o.result is Ok)]);
    if before.log.len() < before.room {
        assert(after.log =~= before.log + seq![log_entry(o.time, key, title, note)]);
    }
}

/// A push publishes to its keys one after the other: to those of two lists as to
/// the first and then to the second.
pub proof fn law_keys_are_published_in_turn(
    before: ServiceView,
    job: JobView,
    x: Seq<Seq<char>>,
    y: Seq<Seq<char>>,
    p: Seq<Outcome>,
    q: Seq<Outcome>,
    k: Seq<char>,
    o: Outcome,
)
    requires
        x.len() == p.len(),
        y.len() == q.len(),
    ensures
        published_all(before, job, x + y, p + q) == published_all(
            published_all(before, job, x, p),
            job,
            y,
            q,
        ),
        published_all(before, job, seq![k], seq![o]) == before.published(
            k,
            job.title,
            job.payload,
            job.offline_messages,
            job.offline_limit as nat,
            o,
            match o.result {
                Ok(_) => "success"@,
                Err(e) => "failed: "@ + e@,
            },
        ),
        published_all(before, job, Seq::empty(), Seq::empty()) == before,
    decreases y.len(),
{
    reveal_with_fuel(published_all, 2);
    assert(seq![k].drop_last() =~= Seq::<Seq<char>>::empty());
    assert(seq![o].drop_last() =~= Seq::<Outcome>::empty());
    if y.len() == 0 {
        assert(x + y =~= x);
        assert(p + q =~= p);
    } else {
        assert((x + y).drop_last() =~= x + y.drop_last());
        assert((p + q).drop_last() =~= p + q.drop_last());
        law_keys_are_published_in_turn(before, job, x, y.drop_last(), p, q.drop_last(), k, o);
    }
}

/// A push that is answered at once changes nothing; one that is published goes
/// to all its keys, and its sender is told how each went.
pub proof fn law_pushes_are_carried_out(
    text: Seq<char>,
    job: JobView,
    before: ServiceView,
    outcomes: Seq<Outcome>,
    after: ServiceView,
    reply: ReplyView,
    logged: nat,
)
    ensures
        push_done(StepView::Answer(text), before, outcomes, after, reply, logged) ==> after
            == before && reply == text_reply_of(200, text) && logged == 0,
        push_done(StepView::Publish(job), before, outcomes, after, reply, logged) ==> {
            &&& outcomes.len() == job.keys.len()
            &&& logged == job.keys.len()
            &&& after == published_all(before, job, job.keys, outcomes)
            &&& reply == push_answer(job, results(outcomes))
        },
        job_done(job, before, outcomes, after, reply) ==> after == published_all(
            before,
            job,
            job.keys,
            outcomes,
        ),
        results(outcomes).len() == outcomes.len(),
        forall|i: int|
            0 <= i < outcomes.len() ==> (#[trigger] results(outcomes)[i]) == outcomes[i].result,
{
}

/// A test message goes to the key that a user names, where it is configured, and
/// the outcome is told; any other changes nothing.
pub proof fn law_test_messages_are_carried_out(
    user: bool,
    params: Map<Seq<char>, JsonTree>,
    before: ServiceView,
    now: Seq<char>,
    o: Outcome,
    after: ServiceView,
    reply: ReplyView,
    logged: nat,
)
    requires
        test_done(user, params, before, now, o, after, reply, logged),
    ensures
        !user ==> after == before && reply == refusal() && logged == 0,
        user && given(params, "key"@).len() == 0 ==> after == before && reply == failure_of(
            400,
            "缺少 key"@,
        ) && logged == 0,
        user && given(params, "key"@).len() > 0 && !before.cfg.key_set().contains(
            given(params, "key"@),
        ) ==> after == before && reply == failure_of(400, "key 不存在"@) && logged == 0,
        user && given(params, "key"@).len() > 0 && before.cfg.key_set().contains(
            given(params, "key"@),
        ) ==> {
            &&& logged == 1
            &&& after.handed == before.handed.push(
                (
                    given(params, "key"@),
                    encode_utf8(
                        json_text(
                            JsonTree::Object(
                                seq![
                                    ("content"@, JsonTree::Text(given(params, "content"@))),
                                    ("date"@, JsonTree::Text(now)),
                                    ("title"@, JsonTree::Text(given(params, "title"@))),
                                ],
                            ),
                        ),
                    ),
                    o.result is Ok,
                ),
            )
            &&& after.cfg == before.cfg
            &&& after.log == last_n(
                before.log.push(
                    log_entry(
                        o.time,
                        given(params, "key"@),
                        given(params, "title"@),
                        if o.result is Ok {
                            "test-success"@
                        } else {
                            "test-failed"@
                        },
                    ),
                ),
                before.room,
            )
            &&& o.result is Ok ==> reply == json_reply_of(200, told(true, "已发送"@))
            &&& o.result is Err ==> reply == json_reply_of(200, told(false, o.result->Err_0@))
        },
{
}

/// A time of a year with four digits is written as such a year, month and day,
/// and hours, minutes and seconds.
pub proof fn law_timestamps(s: Seq<char>)
    requires
        is_timestamp(s),
        s.len() == 19,
    ensures
        s[4] == '-' && s[7] == '-' && s[10] == ' ' && s[13] == ':' && s[16] == ':',
        forall|i: int|
            5 <= i < 19 && i != 7 && i != 10 && i != 13 && i != 16 ==> '0' <= (#[trigger] s[i])
                <= '9',
{
    assert forall|i: int| 5 <= i < 19 && i != 7 && i != 10 && i != 13 && i != 16 implies '0' <= (
    #[trigger] s[i]) <= '9' by {
        let k = i - 5;
        assert(crate::text::is_digit(s[s.len() - 14 + k]));
    }
}

} // verus!
