//! The queue between the tasks that log and the task that writes to the serial link: up to eight
//! records wait in the order in which they were logged, and what no longer fits is lost.
//!
//! The records wait in an `embassy_sync` channel.
use crate::telemetry::{
    carried, law_record_carries_text, log_record, packet, packet_len, record, zero_free,
};
use embassy_sync::blocking_mutex::raw::CriticalSectionRawMutex;
use embassy_sync::channel::Channel;
use vstd::prelude::*;

verus! {

/// How many records the queue holds.
pub const QUEUE_LEN: usize = 8;

/// An `embassy_sync::channel::Channel` for eight records. Nothing else has a reference to it, so
/// what it holds changes only through the functions below.
#[verifier::external_body]
pub struct RecordChannel {
    channel: Channel<CriticalSectionRawMutex, [u8; 64], 8>,
}

/// The records that a channel holds, the one that was sent first in front.
pub uninterp spec fn channel_records(channel: RecordChannel) -> Seq<Seq<u8>>;

/// Calls `Channel::new`, which makes a channel that holds nothing.
#[verifier::external_body]
fn channel_new() -> (channel: RecordChannel)
    ensures
        channel_records(channel) == Seq::<Seq<u8>>::empty(),
{
    RecordChannel { channel: Channel::new() }
}

/// Calls `Channel::try_send`. While the channel holds fewer messages than its capacity, it puts
/// the message behind the others and reports success; at the capacity it reports failure and
/// leaves the channel as it is.
#[verifier::external_body]
fn channel_try_send(channel: &mut RecordChannel, msg: [u8; 64]) -> (ok: bool)
    ensures
        ok == (channel_records(*old(channel)).len() < QUEUE_LEN),
        channel_records(*final(channel)) == if ok {
            channel_records(*old(channel)).push(msg@)
        } else {
            channel_records(*old(channel))
        },
{
    channel.channel.try_send(msg).is_ok()
}

/// Calls `Channel::try_receive`. It takes out the message that was sent first, or reports that
/// there is none and leaves the channel as it is.
#[verifier::external_body]
fn channel_try_receive(channel: &mut RecordChannel) -> (msg: Option<[u8; 64]>)
    ensures
        msg is Some <==> channel_records(*old(channel)).len() > 0,
        msg matches Some(first) ==> first@ == channel_records(*old(channel))[0],
        channel_records(*final(channel)) == if channel_records(*old(channel)).len() > 0 {
            channel_records(*old(channel)).drop_first()
        } else {
            channel_records(*old(channel))
        },
{
    channel.channel.try_receive().ok()
}

/// A packet for the serial link: the first `len` bytes of `msg`.
#[derive(Clone, Copy, Debug, PartialEq, Eq)]
pub struct LogPacket {
    pub msg: [u8; 64],
    pub len: usize,
}

impl LogPacket {
    /// The bytes of the packet.
    pub open spec fn bytes(self) -> Seq<u8> {
        self.msg@.take(self.len as int)
    }
}

/// What waits after a record was sent.
pub open spec fn after_send(waiting: Seq<Seq<u8>>, msg: Seq<u8>) -> Seq<Seq<u8>> {
    if waiting.len() < QUEUE_LEN {
        waiting.push(msg)
    } else {
        waiting
    }
}

/// What waits after a text was logged.
pub open spec fn after_log(waiting: Seq<Seq<u8>>, text: Seq<u8>) -> Seq<Seq<u8>> {
    after_send(waiting, record(text))
}

/// What goes out next over the serial link, or `None` where nothing waits.
pub open spec fn next_out(waiting: Seq<Seq<u8>>) -> Option<Seq<u8>> {
    if waiting.len() > 0 {
        Some(packet(waiting[0]))
    } else {
        None
    }
}

/// What waits after the next packet was taken out.
pub open spec fn after_next(waiting: Seq<Seq<u8>>) -> Seq<Seq<u8>> {
    if waiting.len() > 0 {
        waiting.drop_first()
    } else {
        waiting
    }
}

/// The log queue.
pub struct LogQueue {
    channel: RecordChannel,
}

impl LogQueue {
    /// The records that wait, the oldest in front.
    pub closed spec fn waiting(self) -> Seq<Seq<u8>> {
        channel_records(self.channel)
    }

    /// A queue in which nothing waits.
    pub fn new() -> (queue: LogQueue)
        ensures
            queue.waiting() == Seq::<Seq<u8>>::empty(),
    {
        LogQueue { channel: channel_new() }
    }

    /// Puts a record behind those that wait. Where the queue is full, the record is lost.
    pub fn send(&mut self, msg: [u8; 64])
        ensures
            final(self).waiting() == after_send(old(self).waiting(), msg@),
    {
        channel_try_send(&mut self.channel, msg);
    }

    /// Logs a text: its record is put behind those that wait, or lost where the queue is full.
    pub fn usb_log(&mut self, s: &[u8])
        ensures
            final(self).waiting() == after_send(old(self).waiting(), record(s@)),
            final(self).waiting() == after_log(old(self).waiting(), s@),
    {
        self.send(log_record(s));
    }

    /// Takes out the oldest record and gives what of it goes out over the serial link, or `None`
    /// where nothing waits.
    pub fn next_packet(&mut self) -> (out: Option<LogPacket>)
        ensures
            old(self).waiting().len() == 0 ==> out is None && final(self).waiting() == old(
                self,
            ).waiting(),
            old(self).waiting().len() > 0 ==> {
                &&& out matches Some(p) && p.len <= 64 && p.bytes() == packet(
                    old(self).waiting()[0],
                )
                &&& final(self).waiting() == old(self).waiting().drop_first()
            },
            match next_out(old(self).waiting()) {
                Some(bytes) => out matches Some(p) && p.bytes() == bytes,
                None => out is None,
            },
            final(self).waiting() == after_next(old(self).waiting()),
    {
        match channel_try_receive(&mut self.channel) {
            Some(msg) => {
                let len: usize = packet_len(&msg);
                Some(LogPacket { msg, len })
            },
            None => None,
        }
    }
}

/// What waits after a run of texts was logged.
pub open spec fn after_logs(waiting: Seq<Seq<u8>>, texts: Seq<Seq<u8>>) -> Seq<Seq<u8>>
    decreases texts.len(),
{
    if texts.len() == 0 {
        waiting
    } else {
        after_log(after_logs(waiting, texts.drop_last()), texts.last())
    }
}

/// The packets that go out when the queue is emptied, in their order.
pub open spec fn packets_out(waiting: Seq<Seq<u8>>) -> Seq<Seq<u8>>
    decreases waiting.len(),
{
    match next_out(waiting) {
        Some(bytes) => seq![bytes] + packets_out(after_next(waiting)),
        None => Seq::empty(),
    }
}

/// A record that finds eight others waiting is lost and changes nothing; with fewer, one more
/// waits.
pub proof fn law_full_queue_refuses(waiting: Seq<Seq<u8>>, msg: Seq<u8>)
    ensures
        waiting.len() == 8 ==> after_send(waiting, msg) == waiting,
        waiting.len() < 8 ==> after_send(waiting, msg).len() == waiting.len() + 1,
        waiting.len() < 8 ==> after_send(waiting, msg).last() == msg,
        waiting.len() <= 8 ==> after_send(waiting, msg).len() <= 8,
        waiting.is_prefix_of(after_send(waiting, msg)),
{
}

/// A packet goes out if and only if something waits. Where nothing waits, asking changes nothing;
/// where something does, one record less waits, and the others keep their order.
pub proof fn law_next_takes_one(waiting: Seq<Seq<u8>>)
    ensures
        next_out(waiting) is None <==> waiting.len() == 0,
        waiting.len() == 0 ==> after_next(waiting) == waiting,
        waiting.len() > 0 ==> after_next(waiting).len() == waiting.len() - 1,
        after_next(waiting).is_suffix_of(waiting),
{
}

/// While something waits and there is room, it does not matter whether a record is sent before or
/// after the next packet is taken out: the same packet goes out and the same records wait.
pub proof fn law_send_and_next_commute(waiting: Seq<Seq<u8>>, msg: Seq<u8>)
    requires
        0 < waiting.len() < 8,
    ensures
        next_out(after_send(waiting, msg)) == next_out(waiting),
        after_next(after_send(waiting, msg)) == after_send(after_next(waiting), msg),
{
    assert(waiting.push(msg).drop_first() =~= waiting.drop_first().push(msg));
}

/// A text that is logged while nothing waits goes out next, as far as a record carries it, and
/// nothing waits after it.
pub proof fn law_log_goes_out(text: Seq<u8>)
    requires
        zero_free(carried(text)),
    ensures
        next_out(after_log(Seq::empty(), text)) == Some(carried(text)),
        after_next(after_log(Seq::empty(), text)) == Seq::<Seq<u8>>::empty(),
{
    law_record_carries_text(text);
    assert(after_next(after_log(Seq::empty(), text)) =~= Seq::<Seq<u8>>::empty());
}

/// A record that finds room goes out behind all that waited before it, and they go out unchanged.
pub proof fn law_send_keeps_order(waiting: Seq<Seq<u8>>, msg: Seq<u8>)
    requires
        waiting.len() < QUEUE_LEN,
    ensures
        packets_out(after_send(waiting, msg)) == packets_out(waiting).push(packet(msg)),
{
    lemma_packets_out(waiting);
    lemma_packets_out(waiting.push(msg));
    assert(packets_out(waiting.push(msg)) =~= packets_out(waiting).push(packet(msg)));
}

/// From an empty queue, as many texts as the queue holds go out in the order in which they were
/// logged, each without padding and as far as a record carries it; later ones are lost. No text
/// may hold a zero byte in the part that a record carries.
pub proof fn law_logs_go_out_in_order(texts: Seq<Seq<u8>>)
    requires
        forall|i: int| 0 <= i < texts.len() ==> zero_free(carried(#[trigger] texts[i])),
    ensures
        packets_out(after_logs(Seq::empty(), texts)) == texts.take(
            if texts.len() < QUEUE_LEN {
                texts.len() as int
            } else {
                QUEUE_LEN as int
            },
        ).map_values(|text: Seq<u8>| carried(text)),
{
    let n: int = if texts.len() < QUEUE_LEN {
        texts.len() as int
    } else {
        QUEUE_LEN as int
    };
    let waiting = after_logs(Seq::empty(), texts);
    lemma_waiting(texts);
    lemma_packets_out(waiting);
    let expected = texts.take(n).map_values(|text: Seq<u8>| carried(text));
    assert forall|i: int| 0 <= i < n implies #[trigger] packets_out(waiting)[i] == expected[i] by {
        law_record_carries_text(texts[i]);
    }
    assert(packets_out(waiting) =~= expected);
}

/// Texts that each fit a record and hold no zero byte, no more of them than the queue holds, go
/// out whole and in the order in which they were logged.
pub proof fn law_logs_go_out_whole(texts: Seq<Seq<u8>>)
    requires
        texts.len() <= QUEUE_LEN,
        forall|i: int|
            0 <= i < texts.len() ==> (#[trigger] texts[i]).len() <= 63 && zero_free(texts[i]),
    ensures
        packets_out(after_logs(Seq::empty(), texts)) == texts,
{
    assert forall|i: int| 0 <= i < texts.len() implies carried(#[trigger] texts[i])
        == texts[i] by {
        assert(carried(texts[i]) =~= texts[i]);
    }
    law_logs_go_out_in_order(texts);
    assert(packets_out(after_logs(Seq::empty(), texts)) =~= texts);
}

/// The records of the first texts wait in order.
proof fn lemma_waiting(texts: Seq<Seq<u8>>)
    ensures
        after_logs(Seq::empty(), texts).len() == if texts.len() < QUEUE_LEN {
            texts.len() as int
        } else {
            QUEUE_LEN as int
        },
        forall|i: int|
            0 <= i < after_logs(Seq::empty(), texts).len() ==> #[trigger] after_logs(
                Seq::empty(),
                texts,
            )[i] == record(texts[i]),
    decreases texts.len(),
{
    if texts.len() > 0 {
        lemma_waiting(texts.drop_last());
    }
}

/// Each record that waits gives its packet, in place.
proof fn lemma_packets_out(waiting: Seq<Seq<u8>>)
    ensures
        packets_out(waiting).len() == waiting.len(),
        forall|i: int|
            0 <= i < waiting.len() ==> #[trigger] packets_out(waiting)[i] == packet(waiting[i]),
    decreases waiting.len(),
{
    if waiting.len() > 0 {
        let rest = waiting.drop_first();
        lemma_packets_out(rest);
        assert forall|i: int| 0 <= i < waiting.len() implies #[trigger] packets_out(waiting)[i]
            == packet(waiting[i]) by {
            if i > 0 {
                assert(packets_out(waiting)[i] == packets_out(rest)[i - 1]);
            }
        }
    }
}

} // verus!
