//! The serial log: 64-byte records that carry up to 63 bytes of text and end at the first zero
//! byte, and the lines that are logged.
use crate::line::{
    decimal, is_words, lemma_decimal, lemma_field_in_front, lemma_words_in_front, line_as_bytes,
    line_bytes, line_new, line_push_decimal, line_push_str, numbers, pow10, shape, LINE_CAPACITY,
};
use vstd::prelude::*;
use vstd::string::StringSliceAdditionalSpecFns;
use vstd::utf8::{encode_utf8, is_ascii_chars, is_ascii_chars_encode_utf8};

verus! {

/// The bytes of a log record.
pub const RECORD_LEN: usize = 64;

/// The text that a log record can carry: one byte always stays zero.
pub const RECORD_TEXT: usize = 63;

/// The record for a text: as much of it as fits, then zeros.
pub open spec fn record(text: Seq<u8>) -> Seq<u8> {
    Seq::new(
        RECORD_LEN as nat,
        |i: int|
            if i < text.len() && i < RECORD_TEXT {
                text[i]
            } else {
                0
            },
    )
}

/// The index of the first zero byte, or the length where there is none.
pub open spec fn zero_index(msg: Seq<u8>) -> nat
    decreases msg.len(),
{
    if msg.len() == 0 || msg[0] == 0 {
        0
    } else {
        1 + zero_index(msg.drop_first())
    }
}

/// The part of a record that goes out over the serial link.
pub open spec fn packet(msg: Seq<u8>) -> Seq<u8> {
    msg.take(zero_index(msg) as int)
}

/// Puts a text into a log record, cutting it off where it is too long.
pub fn log_record(s: &[u8]) -> (msg: [u8; 64])
    ensures
        msg@ == record(s@),
{
    let mut msg: [u8; 64] = [0u8;64];
    let n: usize = if s.len() < RECORD_TEXT {
        s.len()
    } else {
        RECORD_TEXT
    };
    let mut i: usize = 0;
    while i < n
        invariant
            i <= n,
            n <= s@.len(),
            n <= RECORD_TEXT,
            forall|j: int| 0 <= j < 64 ==> #[trigger] msg@[j] == if j < i {
                s@[j]
            } else {
                0
            },
        decreases n - i,
    {
        msg[i] = s[i];
        i = i + 1;
    }
    assert(msg@ =~= record(s@));
    msg
}

/// The number of bytes of a record that go out over the serial link.
pub fn packet_len(msg: &[u8; 64]) -> (len: usize)
    ensures
        len <= RECORD_LEN,
        len == zero_index(msg@),
{
    let mut i: usize = 0;
    proof {
        assert(msg@.skip(0) =~= msg@);
    }
    while i < RECORD_LEN
        invariant
            i <= RECORD_LEN,
            zero_index(msg@) == i + zero_index(msg@.skip(i as int)),
        decreases RECORD_LEN - i,
    {
        assert(msg@.skip(i as int)[0] == msg@[i as int]);
        if msg[i] == 0 {
            return i;
        }
        assert(msg@.skip(i as int).drop_first() =~= msg@.skip(i + 1));
        i = i + 1;
    }
    assert(msg@.skip(64).len() == 0);
    i
}

/// Whether a text holds no zero byte, so that no part of it can be taken for the end of a record.
pub open spec fn zero_free(text: Seq<u8>) -> bool {
    forall|i: int| 0 <= i < text.len() ==> #[trigger] text[i] != 0
}

/// The part of a text that a record carries.
pub open spec fn carried(text: Seq<u8>) -> Seq<u8> {
    if text.len() < RECORD_TEXT {
        text
    } else {
        text.take(RECORD_TEXT as int)
    }
}

/// What a record carries of a text goes out as it is, as long as it holds no zero byte.
pub proof fn law_record_carries_text(text: Seq<u8>)
    requires
        zero_free(carried(text)),
    ensures
        packet(record(text)) == carried(text),
{
    let part = carried(text);
    assert forall|i: int| 0 <= i < part.len() implies #[trigger] record(text)[i] != 0 by {
        assert(record(text)[i] == part[i]);
    }
    lemma_zero_index(record(text), part.len());
    assert(packet(record(text)) =~= part);
}

/// A record has sixty-four bytes: up to sixty-three of the text, in their places, and zeros behind
/// them.
pub proof fn law_record_layout(text: Seq<u8>, n: int)
    requires
        n == if text.len() < 63 {
            text.len() as int
        } else {
            63
        },
    ensures
        record(text).len() == 64,
        record(text).take(n) == text.take(n),
        forall|i: int| n <= i < 64 ==> #[trigger] record(text)[i] == 0,
{
    assert(record(text).take(n) =~= text.take(n));
}

/// What goes out of a record is its beginning, as far as there is no zero: it holds none, and ends
/// at one or at the end of the record.
pub proof fn law_packet_ends_at_zero(msg: Seq<u8>)
    ensures
        packet(msg).len() <= msg.len(),
        packet(msg) == msg.take(packet(msg).len() as int),
        zero_free(packet(msg)),
        packet(msg).len() < msg.len() ==> msg[packet(msg).len() as int] == 0,
        packet(msg).len() == zero_index(msg),
    decreases msg.len(),
{
    if msg.len() > 0 && msg[0] != 0 {
        let rest = msg.drop_first();
        law_packet_ends_at_zero(rest);
        assert forall|i: int| 0 <= i < packet(msg).len() implies #[trigger] packet(msg)[i] != 0 by {
            if i > 0 {
                assert(packet(msg)[i] == packet(rest)[i - 1]);
            }
        }
    }
}

/// The first zero byte is found by looking at the bytes before it.
proof fn lemma_zero_index(msg: Seq<u8>, n: nat)
    requires
        n < msg.len(),
        msg[n as int] == 0,
        forall|i: int| 0 <= i < n ==> #[trigger] msg[i] != 0,
    ensures
        zero_index(msg) == n,
    decreases n,
{
    if n > 0 {
        let rest = msg.drop_first();
        assert forall|i: int| 0 <= i < n - 1 implies #[trigger] rest[i] != 0 by {
            assert(rest[i] == msg[i + 1]);
        }
        lemma_zero_index(rest, (n - 1) as nat);
    }
}

/// The fixed lines of the log.
#[derive(Clone, Copy, Debug, PartialEq, Eq, Structural)]
pub enum Notice {
    /// The firmware has started.
    Booting,
    /// The wireless network is being joined.
    Wifi,
    /// The motor controllers are being armed.
    Arming,
    /// All tasks are running.
    Ready,
    /// No inertial sensor answers.
    ImuNotFound,
    /// The inertial sensor is being calibrated.
    Calibrating,
    /// The inertial sensor is calibrated.
    Calibrated,
    /// The motors are held at zero because control packets have stopped.
    Failsafe,
}

impl Notice {
    /// The text of the line.
    pub open spec fn spec_text(self) -> Seq<char> {
        match self {
            Notice::Booting => "BOOTING...\r\n"@,
            Notice::Wifi => "WIFI...\r\n"@,
            Notice::Arming => "ARMING...\r\n"@,
            Notice::Ready => "READY\r\n"@,
            Notice::ImuNotFound => "MPU-6050 NOT FOUND\r\n"@,
            Notice::Calibrating => "CALIBRATING IMU. DO NOT MOVE.\r\n"@,
            Notice::Calibrated => "IMU CALIBRATION COMPLETE\r\n"@,
            Notice::Failsafe => "FAILSAFE: NO UDP\r\n"@,
        }
    }

    /// The text of the line.
    pub fn text(self) -> (text: &'static str)
        ensures
            text@ == self.spec_text(),
    {
        match self {
            Notice::Booting => "BOOTING...\r\n",
            Notice::Wifi => "WIFI...\r\n",
            Notice::Arming => "ARMING...\r\n",
            Notice::Ready => "READY\r\n",
            Notice::ImuNotFound => "MPU-6050 NOT FOUND\r\n",
            Notice::Calibrating => "CALIBRATING IMU. DO NOT MOVE.\r\n",
            Notice::Calibrated => "IMU CALIBRATION COMPLETE\r\n",
            Notice::Failsafe => "FAILSAFE: NO UDP\r\n",
        }
    }
}

/// A line that names a number between two texts.
pub open spec fn line_text(head: Seq<u8>, number: nat, tail: Seq<u8>) -> Seq<u8> {
    head + decimal(number) + tail
}

/// The line that reports a control packet, as far as the line has room. `kp` is the proportional
/// gain as text.
pub open spec fn packet_ok_text(throttle: u16, kp: Seq<u8>) -> Seq<u8> {
    let head = "UDP OK: THR=".spec_bytes() + decimal(throttle as nat) + " KP=".spec_bytes();
    let end = "\r\n".spec_bytes();
    if head.len() + kp.len() > LINE_CAPACITY {
        head
    } else if head.len() + kp.len() + end.len() > LINE_CAPACITY {
        head + kp
    } else {
        head + kp + end
    }
}

/// The pieces of the line that reports a control packet.
proof fn lemma_packet_ok_pieces(throttle: u16)
    ensures
        "UDP OK: THR=".spec_bytes().len() == 12,
        " KP=".spec_bytes().len() == 4,
        "\r\n".spec_bytes().len() == 2,
        decimal(throttle as nat).len() <= 5,
        zero_free("UDP OK: THR=".spec_bytes()),
        zero_free(" KP=".spec_bytes()),
        zero_free("\r\n".spec_bytes()),
        zero_free(decimal(throttle as nat)),
{
    reveal_strlit("UDP OK: THR=");
    reveal_strlit(" KP=");
    reveal_strlit("\r\n");
    assert("UDP OK: THR=".is_ascii() && " KP=".is_ascii() && "\r\n".is_ascii());
    reveal_with_fuel(pow10, 6);
    lemma_decimal(throttle as nat, 5);
}

/// The log record that reports a control packet with this throttle. `kp` is the proportional
/// gain as text. A piece of the line that no longer fits ends it.
pub fn packet_ok_record(throttle: u16, kp: &str) -> (msg: [u8; 64])
    ensures
        msg@ == record(packet_ok_text(throttle, kp.spec_bytes())),
{
    proof {
        lemma_packet_ok_pieces(throttle);
    }
    let mut line = line_new();
    line_push_str(&mut line, "UDP OK: THR=");
    line_push_decimal(&mut line, throttle as u64);
    line_push_str(&mut line, " KP=");
    if line_push_str(&mut line, kp) {
        line_push_str(&mut line, "\r\n");
    }
    assert(line_bytes(line) =~= packet_ok_text(throttle, kp.spec_bytes()));
    log_record(line_as_bytes(&line))
}

/// The line that reports a datagram of the wrong size.
pub open spec fn size_error_text(len: nat) -> Seq<u8> {
    "UDP ERR: SIZE=".spec_bytes() + decimal(len) + "\r\n".spec_bytes()
}

/// The pieces of the line that reports a datagram of the wrong size.
proof fn lemma_size_error_pieces(len: usize)
    ensures
        "UDP ERR: SIZE=".spec_bytes().len() == 14,
        "\r\n".spec_bytes().len() == 2,
        decimal(len as nat).len() <= 20,
        zero_free("UDP ERR: SIZE=".spec_bytes()),
        zero_free("\r\n".spec_bytes()),
        zero_free(decimal(len as nat)),
{
    reveal_strlit("UDP ERR: SIZE=");
    reveal_strlit("\r\n");
    assert("UDP ERR: SIZE=".is_ascii() && "\r\n".is_ascii());
    reveal_with_fuel(pow10, 21);
    lemma_decimal(len as nat, 20);
}

/// The log record that reports a datagram of the wrong size.
pub fn size_error_record(len: usize) -> (msg: [u8; 64])
    ensures
        msg@ == record(size_error_text(len as nat)),
{
    proof {
        lemma_size_error_pieces(len);
    }
    let mut line = line_new();
    line_push_str(&mut line, "UDP ERR: SIZE=");
    line_push_decimal(&mut line, len as u64);
    line_push_str(&mut line, "\r\n");
    log_record(line_as_bytes(&line))
}

/// An IPv4 address and the length of its network prefix in the usual notation.
pub open spec fn cidr_text(octets: Seq<u8>, prefix_len: u8) -> Seq<u8> {
    decimal(octets[0] as nat) + ".".spec_bytes() + decimal(octets[1] as nat) + ".".spec_bytes()
        + decimal(octets[2] as nat) + ".".spec_bytes() + decimal(octets[3] as nat)
        + "/".spec_bytes() + decimal(prefix_len as nat)
}

/// The line that reports the address that the network has given out.
pub open spec fn address_text(octets: Seq<u8>, prefix_len: u8) -> Seq<u8> {
    "IP: ".spec_bytes() + cidr_text(octets, prefix_len) + "\r\n".spec_bytes()
}

/// The pieces of the line that reports the address.
proof fn lemma_address_pieces()
    ensures
        "IP: ".spec_bytes().len() == 4,
        ".".spec_bytes().len() == 1,
        "/".spec_bytes().len() == 1,
        "\r\n".spec_bytes().len() == 2,
        forall|b: u8| (#[trigger] decimal(b as nat)).len() <= 3 && zero_free(decimal(b as nat)),
        zero_free("IP: ".spec_bytes()),
        zero_free(".".spec_bytes()),
        zero_free("/".spec_bytes()),
        zero_free("\r\n".spec_bytes()),
{
    reveal_strlit("IP: ");
    reveal_strlit(".");
    reveal_strlit("/");
    reveal_strlit("\r\n");
    assert("IP: ".is_ascii() && ".".is_ascii() && "/".is_ascii() && "\r\n".is_ascii());
    reveal_with_fuel(pow10, 4);
    assert forall|b: u8| (#[trigger] decimal(b as nat)).len() <= 3 && zero_free(
        decimal(b as nat),
    ) by {
        lemma_decimal(b as nat, 3);
    }
}

/// The log record that reports the address that the network has given out.
pub fn address_record(octets: [u8; 4], prefix_len: u8) -> (msg: [u8; 64])
    ensures
        msg@ == record(address_text(octets@, prefix_len)),
{
    proof {
        lemma_address_pieces();
    }
    let mut line = line_new();
    line_push_str(&mut line, "IP: ");
    line_push_decimal(&mut line, octets[0] as u64);
    line_push_str(&mut line, ".");
    line_push_decimal(&mut line, octets[1] as u64);
    line_push_str(&mut line, ".");
    line_push_decimal(&mut line, octets[2] as u64);
    line_push_str(&mut line, ".");
    line_push_decimal(&mut line, octets[3] as u64);
    line_push_str(&mut line, "/");
    line_push_decimal(&mut line, prefix_len as u64);
    line_push_str(&mut line, "\r\n");
    assert(line_bytes(line) =~= address_text(octets@, prefix_len));
    log_record(line_as_bytes(&line))
}

/// Every fixed line goes out whole.
pub proof fn law_notice_sent_whole(notice: Notice)
    ensures
        packet(record(encode_utf8(notice.spec_text()))) == encode_utf8(notice.spec_text()),
{
    reveal_strlit("BOOTING...\r\n");
    reveal_strlit("WIFI...\r\n");
    reveal_strlit("ARMING...\r\n");
    reveal_strlit("READY\r\n");
    reveal_strlit("MPU-6050 NOT FOUND\r\n");
    reveal_strlit("CALIBRATING IMU. DO NOT MOVE.\r\n");
    reveal_strlit("IMU CALIBRATION COMPLETE\r\n");
    reveal_strlit("FAILSAFE: NO UDP\r\n");
    let chars = notice.spec_text();
    assert(is_ascii_chars(chars));
    is_ascii_chars_encode_utf8(chars);
    let text = encode_utf8(chars);
    assert(zero_free(text));
    law_record_carries_text(text);
}

/// The report of a datagram of the wrong size goes out whole, whatever the size.
pub proof fn law_size_error_sent_whole(len: usize)
    ensures
        packet(record(size_error_text(len as nat))) == size_error_text(len as nat),
{
    lemma_size_error_pieces(len);
    let text = size_error_text(len as nat);
    assert(zero_free(text));
    law_record_carries_text(text);
}

/// The report of the address goes out whole.
pub proof fn law_address_sent_whole(octets: Seq<u8>, prefix_len: u8)
    requires
        octets.len() == 4,
    ensures
        packet(record(address_text(octets, prefix_len))) == address_text(octets, prefix_len),
{
    lemma_address_pieces();
    let text = address_text(octets, prefix_len);
    assert(zero_free(cidr_text(octets, prefix_len)));
    assert(zero_free(text));
    law_record_carries_text(text);
}

/// The report of a control packet names the throttle and the gain and goes out whole, as long as
/// the two together take up no more than 45 bytes and the text of the gain holds no zero byte.
pub proof fn law_packet_ok_sent_whole(throttle: u16, kp: Seq<u8>)
    requires
        decimal(throttle as nat).len() + kp.len() <= 45,
        zero_free(kp),
    ensures
        packet(record(packet_ok_text(throttle, kp))) == "UDP OK: THR=".spec_bytes() + decimal(
            throttle as nat,
        ) + " KP=".spec_bytes() + kp + "\r\n".spec_bytes(),
{
    lemma_packet_ok_pieces(throttle);
    let text = packet_ok_text(throttle, kp);
    assert(zero_free(text));
    law_record_carries_text(text);
}

/// The report of a control packet is the beginning of the whole line, which it is where the line
/// has room for it. Otherwise the end of the line is left out, and where that is not enough the
/// gain too.
pub proof fn law_packet_ok_cut(throttle: u16, kp: Seq<u8>)
    ensures
        ({
            let whole = "UDP OK: THR=".spec_bytes() + decimal(throttle as nat) + " KP=".spec_bytes()
                + kp + "\r\n".spec_bytes();
            let text = packet_ok_text(throttle, kp);
            &&& text.len() <= 64
            &&& text == whole.take(text.len() as int)
            &&& whole.len() <= 64 ==> text.len() == whole.len()
            &&& 64 < whole.len() <= 66 ==> text.len() == whole.len() - 2
            &&& whole.len() > 66 ==> text.len() == whole.len() - 2 - kp.len() <= 21
        }),
{
    lemma_packet_ok_pieces(throttle);
    let whole = "UDP OK: THR=".spec_bytes() + decimal(throttle as nat) + " KP=".spec_bytes() + kp
        + "\r\n".spec_bytes();
    let text = packet_ok_text(throttle, kp);
    assert(text =~= whole.take(text.len() as int));
}

/// The report of a datagram of the wrong size names one number, the size, and apart from it says
/// the same of every size.
pub proof fn law_size_error_names_size(len: usize)
    ensures
        numbers(packet(record(size_error_text(len as nat))), None) == seq![len as int],
        shape(packet(record(size_error_text(len as nat))), false)
            == "UDP ERR: SIZE=0\r\n".spec_bytes(),
{
    law_size_error_sent_whole(len);
    reveal_strlit("UDP ERR: SIZE=");
    reveal_strlit("\r\n");
    reveal_strlit("UDP ERR: SIZE=0\r\n");
    assert("UDP ERR: SIZE=".is_ascii() && "\r\n".is_ascii() && "UDP ERR: SIZE=0\r\n".is_ascii());
    let head = "UDP ERR: SIZE=".spec_bytes();
    let end = "\r\n".spec_bytes();
    let none = Seq::<u8>::empty();
    let field = decimal(len as nat) + (end + none);
    assert(size_error_text(len as nat) =~= head + field);
    lemma_words_in_front(head, field, None);
    lemma_field_in_front(len as nat, end, none);
    assert(numbers(head + field, None) =~= seq![len as int]);
    assert(shape(head + field, false) =~= "UDP ERR: SIZE=0\r\n".spec_bytes());
}

/// Pieces can be joined from either end.
proof fn lemma_joined(a: Seq<u8>, b: Seq<u8>, c: Seq<u8>)
    ensures
        (a + b) + c == a + (b + c),
{
    assert((a + b) + c =~= a + (b + c));
}

/// The pieces of an address, put together from the back.
proof fn lemma_address_pieced(
    octets: Seq<u8>,
    prefix_len: u8,
    head: Seq<u8>,
    dot: Seq<u8>,
    slash: Seq<u8>,
    end: Seq<u8>,
)
    ensures
        ({
            let t4 = decimal(prefix_len as nat) + (end + Seq::<u8>::empty());
            let t3 = decimal(octets[3] as nat) + (slash + t4);
            let t2 = decimal(octets[2] as nat) + (dot + t3);
            let t1 = decimal(octets[1] as nat) + (dot + t2);
            let t0 = decimal(octets[0] as nat) + (dot + t1);
            head + t0 == head + (decimal(octets[0] as nat) + dot + decimal(octets[1] as nat) + dot
                + decimal(octets[2] as nat) + dot + decimal(octets[3] as nat) + slash + decimal(
                prefix_len as nat,
            )) + end
        }),
{
    let d0 = decimal(octets[0] as nat);
    let d1 = decimal(octets[1] as nat);
    let d2 = decimal(octets[2] as nat);
    let d3 = decimal(octets[3] as nat);
    let p = decimal(prefix_len as nat);
    assert(end + Seq::<u8>::empty() =~= end);
    let t4 = p + end;
    let t3 = d3 + (slash + t4);
    let t2 = d2 + (dot + t3);
    let t1 = d1 + (dot + t2);
    lemma_joined(d0 + dot + d1 + dot + d2 + dot + d3 + slash, p, end);
    lemma_joined(d0 + dot + d1 + dot + d2 + dot + d3, slash, t4);
    lemma_joined(d0 + dot + d1 + dot + d2 + dot, d3, slash + t4);
    lemma_joined(d0 + dot + d1 + dot + d2, dot, t3);
    lemma_joined(d0 + dot + d1 + dot, d2, dot + t3);
    lemma_joined(d0 + dot + d1, dot, t2);
    lemma_joined(d0 + dot, d1, dot + t2);
    lemma_joined(d0, dot, t1);
    lemma_joined(head, d0 + dot + d1 + dot + d2 + dot + d3 + slash + p, end);
}

/// An address between a head and an end names its octets and the length of its prefix.
#[verifier::spinoff_prover]
proof fn lemma_address_read(
    octets: Seq<u8>,
    prefix_len: u8,
    head: Seq<u8>,
    dot: Seq<u8>,
    slash: Seq<u8>,
    end: Seq<u8>,
)
    requires
        octets.len() == 4,
        is_words(head),
        is_words(dot),
        is_words(slash),
        is_words(end),
    ensures
        ({
            let text = head + (decimal(octets[0] as nat) + dot + decimal(octets[1] as nat) + dot
                + decimal(octets[2] as nat) + dot + decimal(octets[3] as nat) + slash + decimal(
                prefix_len as nat,
            )) + end;
            &&& numbers(text, None) == octets.push(prefix_len).map_values(|octet: u8| octet as int)
            &&& shape(text, false) == address_shape(head, dot, slash, end)
        }),
{
    let none = Seq::<u8>::empty();
    let t4 = decimal(prefix_len as nat) + (end + none);
    let t3 = decimal(octets[3] as nat) + (slash + t4);
    let t2 = decimal(octets[2] as nat) + (dot + t3);
    let t1 = decimal(octets[1] as nat) + (dot + t2);
    let t0 = decimal(octets[0] as nat) + (dot + t1);
    lemma_field_in_front(prefix_len as nat, end, none);
    lemma_field_in_front(octets[3] as nat, slash, t4);
    lemma_field_in_front(octets[2] as nat, dot, t3);
    lemma_field_in_front(octets[1] as nat, dot, t2);
    lemma_field_in_front(octets[0] as nat, dot, t1);
    lemma_words_in_front(head, t0, None);
    lemma_address_pieced(octets, prefix_len, head, dot, slash, end);
    assert(numbers(head + t0, None) =~= octets.push(prefix_len).map_values(
        |octet: u8| octet as int,
    ));
}

/// The report of the address names five numbers, the octets from the first to the last and then the
/// length of the prefix, and apart from them says the same of every address.
pub proof fn law_address_names_octets(octets: Seq<u8>, prefix_len: u8)
    requires
        octets.len() == 4,
    ensures
        numbers(packet(record(address_text(octets, prefix_len))), None) == octets.push(
            prefix_len,
        ).map_values(|octet: u8| octet as int),
        shape(packet(record(address_text(octets, prefix_len))), false)
            == "IP: 0.0.0.0/0\r\n".spec_bytes(),
{
    law_address_sent_whole(octets, prefix_len);
    lemma_address_shape();
    lemma_address_read(
        octets,
        prefix_len,
        "IP: ".spec_bytes(),
        ".".spec_bytes(),
        "/".spec_bytes(),
        "\r\n".spec_bytes(),
    );
}

/// The shape of an address between a head and an end.
spec fn address_shape(head: Seq<u8>, dot: Seq<u8>, slash: Seq<u8>, end: Seq<u8>) -> Seq<u8> {
    let zero = seq![48u8];
    let s4 = zero + (end + Seq::<u8>::empty());
    let s3 = zero + (slash + s4);
    let s2 = zero + (dot + s3);
    let s1 = zero + (dot + s2);
    head + (zero + (dot + s1))
}

/// The words of the report of the address.
proof fn lemma_address_shape()
    ensures
        is_words("IP: ".spec_bytes()),
        is_words(".".spec_bytes()),
        is_words("/".spec_bytes()),
        is_words("\r\n".spec_bytes()),
        address_shape(
            "IP: ".spec_bytes(),
            ".".spec_bytes(),
            "/".spec_bytes(),
            "\r\n".spec_bytes(),
        ) == "IP: 0.0.0.0/0\r\n".spec_bytes(),
{
    reveal_strlit("IP: ");
    reveal_strlit(".");
    reveal_strlit("/");
    reveal_strlit("\r\n");
    reveal_strlit("IP: 0.0.0.0/0\r\n");
    assert("IP: ".is_ascii() && ".".is_ascii() && "/".is_ascii() && "\r\n".is_ascii()
        && "IP: 0.0.0.0/0\r\n".is_ascii());
    assert(address_shape(
        "IP: ".spec_bytes(),
        ".".spec_bytes(),
        "/".spec_bytes(),
        "\r\n".spec_bytes(),
    ) =~= "IP: 0.0.0.0/0\r\n".spec_bytes());
}

/// Every fixed line ends with a line break, and no two of them say the same.
pub proof fn law_notices_distinct(a: Notice, b: Notice)
    ensures
        a.spec_text().len() > 2,
        a.spec_text()[a.spec_text().len() - 2] == '\r',
        a.spec_text().last() == '\n',
        a != b ==> a.spec_text() != b.spec_text(),
{
    reveal_strlit("BOOTING...\r\n");
    reveal_strlit("WIFI...\r\n");
    reveal_strlit("ARMING...\r\n");
    reveal_strlit("READY\r\n");
    reveal_strlit("MPU-6050 NOT FOUND\r\n");
    reveal_strlit("CALIBRATING IMU. DO NOT MOVE.\r\n");
    reveal_strlit("IMU CALIBRATION COMPLETE\r\n");
    reveal_strlit("FAILSAFE: NO UDP\r\n");
    if a != b {
        assert(a.spec_text().len() != b.spec_text().len());
    }
}

} // verus!
