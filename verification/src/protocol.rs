//! The control protocol: one datagram of twenty bytes, little endian, that holds the throttle,
//! the wanted attitude and the PID gains.
use crate::bytes::{i16_le, pattern16, signed16, u16_le, u32_le};
use vstd::prelude::*;

verus! {

/// The size of a control packet.
pub const PACKET_LEN: usize = 20;

/// The highest throttle that a motor can be given.
pub const DSHOT_MAX: u16 = 2000;

/// What the pilot wants.
#[derive(Clone, Copy, Debug, PartialEq, Eq, Structural)]
pub struct Setpoint {
    /// The common throttle of the motors, at most `DSHOT_MAX`.
    pub throttle: u16,
    /// Pitch in hundredths of a degree.
    pub pitch: i16,
    /// Roll in hundredths of a degree.
    pub roll: i16,
    /// Yaw rate in hundredths of a degree per second.
    pub yaw_rate: i16,
}

/// The PID gains, each as the bit pattern of a single-precision number.
#[derive(Clone, Copy, Debug, PartialEq, Eq, Structural)]
pub struct PidParams {
    pub kp: u32,
    pub ki: u32,
    pub kd: u32,
}

/// What a control packet says.
#[derive(Clone, Copy, Debug, PartialEq, Eq, Structural)]
pub struct ControlPacket {
    pub setpoint: Setpoint,
    pub params: PidParams,
}

/// The unsigned word at offset `at`.
pub open spec fn word16(d: Seq<u8>, at: int) -> int {
    pattern16(d[at + 1], d[at])
}

/// The unsigned double word at offset `at`.
pub open spec fn word32(d: Seq<u8>, at: int) -> int {
    d[at] + 0x100 * d[at + 1] + 0x1_0000 * d[at + 2] + 0x100_0000 * d[at + 3]
}

/// What a datagram of the right size says. A throttle above the limit counts as the limit.
pub open spec fn decode(d: Seq<u8>) -> ControlPacket {
    ControlPacket {
        setpoint: Setpoint {
            throttle: if word16(d, 0) < DSHOT_MAX {
                word16(d, 0) as u16
            } else {
                DSHOT_MAX
            },
            pitch: signed16(word16(d, 2)) as i16,
            roll: signed16(word16(d, 4)) as i16,
            yaw_rate: signed16(word16(d, 6)) as i16,
        },
        params: PidParams {
            kp: word32(d, 8) as u32,
            ki: word32(d, 12) as u32,
            kd: word32(d, 16) as u32,
        },
    }
}

/// What a datagram says, or `None` where it is not a control packet.
pub open spec fn parsed(datagram: Seq<u8>) -> Option<ControlPacket> {
    if datagram.len() == PACKET_LEN {
        Some(decode(datagram))
    } else {
        None
    }
}

/// Reads a datagram. Only one of exactly `PACKET_LEN` bytes is a control packet.
pub fn parse_packet(datagram: &[u8]) -> (packet: Option<ControlPacket>)
    ensures
        packet == parsed(datagram@),
        packet == if datagram@.len() == PACKET_LEN {
            Some(decode(datagram@))
        } else {
            None
        },
{
    if datagram.len() != PACKET_LEN {
        return None;
    }
    let wanted: u16 = u16_le(datagram[0], datagram[1]);
    let throttle: u16 = if wanted < DSHOT_MAX {
        wanted
    } else {
        DSHOT_MAX
    };
    let setpoint = Setpoint {
        throttle,
        pitch: i16_le(datagram[2], datagram[3]),
        roll: i16_le(datagram[4], datagram[5]),
        yaw_rate: i16_le(datagram[6], datagram[7]),
    };
    let params = PidParams {
        kp: u32_le(datagram[8], datagram[9], datagram[10], datagram[11]),
        ki: u32_le(datagram[12], datagram[13], datagram[14], datagram[15]),
        kd: u32_le(datagram[16], datagram[17], datagram[18], datagram[19]),
    };
    Some(ControlPacket { setpoint, params })
}

/// The 16-bit pattern of a signed word in two's complement.
pub open spec fn unsigned16(value: int) -> int {
    if value < 0 {
        value + 0x1_0000
    } else {
        value
    }
}

/// A word as two bytes, the low one first.
pub open spec fn pack16(pattern: int) -> Seq<u8> {
    seq![(pattern % 256) as u8, (pattern / 256) as u8]
}

/// A double word as four bytes, the lowest first.
pub open spec fn pack32(pattern: int) -> Seq<u8> {
    seq![
        (pattern % 0x100) as u8,
        (pattern / 0x100 % 0x100) as u8,
        (pattern / 0x1_0000 % 0x100) as u8,
        (pattern / 0x100_0000) as u8,
    ]
}

/// The datagram that the ground station sends for these values.
pub open spec fn pack(setpoint: Setpoint, params: PidParams) -> Seq<u8> {
    pack16(setpoint.throttle as int) + pack16(unsigned16(setpoint.pitch as int)) + pack16(
        unsigned16(setpoint.roll as int),
    ) + pack16(unsigned16(setpoint.yaw_rate as int)) + pack32(params.kp as int) + pack32(
        params.ki as int,
    ) + pack32(params.kd as int)
}

/// What the ground station packs is what the drone reads, except that a throttle above the limit
/// counts as the limit.
pub proof fn law_packet_roundtrip(setpoint: Setpoint, params: PidParams)
    ensures
        pack(setpoint, params).len() == PACKET_LEN,
        decode(pack(setpoint, params)).params == params,
        decode(pack(setpoint, params)).setpoint == (Setpoint {
            throttle: if setpoint.throttle < DSHOT_MAX {
                setpoint.throttle
            } else {
                DSHOT_MAX
            },
            ..setpoint
        }),
{
    let d = pack(setpoint, params);
    lemma_word16(d, 0, setpoint.throttle as int);
    lemma_word16(d, 2, unsigned16(setpoint.pitch as int));
    lemma_word16(d, 4, unsigned16(setpoint.roll as int));
    lemma_word16(d, 6, unsigned16(setpoint.yaw_rate as int));
    lemma_word32(d, 8, params.kp as int);
    lemma_word32(d, 12, params.ki as int);
    lemma_word32(d, 16, params.kd as int);
}

/// A datagram is a control packet if and only if it has twenty bytes. What the ground station
/// packs is read back from it.
pub proof fn law_packets_parsed(datagram: Seq<u8>, setpoint: Setpoint, params: PidParams)
    ensures
        parsed(datagram) is Some <==> datagram.len() == 20,
        parsed(pack(setpoint, params)) matches Some(packet) && {
            &&& packet.params == params
            &&& packet.setpoint.pitch == setpoint.pitch
            &&& packet.setpoint.roll == setpoint.roll
            &&& packet.setpoint.yaw_rate == setpoint.yaw_rate
            &&& packet.setpoint.throttle <= 2000
            &&& setpoint.throttle <= 2000 ==> packet.setpoint.throttle == setpoint.throttle
            &&& setpoint.throttle > 2000 ==> packet.setpoint.throttle == 2000
        },
{
    law_packet_roundtrip(setpoint, params);
}

/// Where the values of a control packet lie: the throttle in the first two bytes, then pitch, roll
/// and yaw rate in two bytes each and in two's complement, then the gains kp, ki and kd in four
/// bytes each, all with the lowest byte first.
pub proof fn law_packet_layout(d: Seq<u8>)
    requires
        d.len() == 20,
    ensures
        parsed(d) matches Some(p) && {
            &&& d[0] + 256 * d[1] <= 2000 ==> p.setpoint.throttle == d[0] + 256 * d[1]
            &&& d[0] + 256 * d[1] > 2000 ==> p.setpoint.throttle == 2000
            &&& (p.setpoint.pitch - d[2] - 256 * d[3]) % 0x1_0000 == 0
            &&& (p.setpoint.roll - d[4] - 256 * d[5]) % 0x1_0000 == 0
            &&& (p.setpoint.yaw_rate - d[6] - 256 * d[7]) % 0x1_0000 == 0
            &&& p.params.kp == d[8] + 256 * (d[9] + 256 * (d[10] + 256 * d[11]))
            &&& p.params.ki == d[12] + 256 * (d[13] + 256 * (d[14] + 256 * d[15]))
            &&& p.params.kd == d[16] + 256 * (d[17] + 256 * (d[18] + 256 * d[19]))
        },
{
}

/// A control packet whose throttle is within the limit is the only one that says what it says.
pub proof fn law_packet_unambiguous(d: Seq<u8>)
    requires
        d.len() == PACKET_LEN,
        word16(d, 0) <= DSHOT_MAX,
    ensures
        pack(decode(d).setpoint, decode(d).params) == d,
{
    let packed = pack(decode(d).setpoint, decode(d).params);
    lemma_pack16(d, 0);
    lemma_pack16(d, 2);
    lemma_pack16(d, 4);
    lemma_pack16(d, 6);
    lemma_pack32(d, 8);
    lemma_pack32(d, 12);
    lemma_pack32(d, 16);
    let parts = d.subrange(0, 2) + d.subrange(2, 4) + d.subrange(4, 6) + d.subrange(6, 8)
        + d.subrange(8, 12) + d.subrange(12, 16) + d.subrange(16, 20);
    assert(packed == parts);
    assert(parts =~= d);
}

proof fn lemma_pack16(d: Seq<u8>, at: int)
    requires
        0 <= at,
        at + 2 <= d.len(),
    ensures
        0 <= word16(d, at) < 0x1_0000,
        unsigned16(signed16(word16(d, at))) == word16(d, at),
        pack16(word16(d, at)) == d.subrange(at, at + 2),
{
    assert(pack16(word16(d, at)) =~= d.subrange(at, at + 2));
}

proof fn lemma_pack32(d: Seq<u8>, at: int)
    requires
        0 <= at,
        at + 4 <= d.len(),
    ensures
        0 <= word32(d, at) < 0x1_0000_0000,
        pack32(word32(d, at)) == d.subrange(at, at + 4),
{
    lemma_bytes_of_word(d[at], d[at + 1], d[at + 2], d[at + 3]);
    assert(pack32(word32(d, at)) =~= d.subrange(at, at + 4));
}

/// The bytes of a double word come out of it by division.
#[verifier::spinoff_prover]
proof fn lemma_bytes_of_word(b0: u8, b1: u8, b2: u8, b3: u8)
    ensures
        ({
            let w = b0 + 0x100 * b1 + 0x1_0000 * b2 + 0x100_0000 * b3;
            &&& 0 <= w < 0x1_0000_0000
            &&& w % 0x100 == b0
            &&& w / 0x100 % 0x100 == b1
            &&& w / 0x1_0000 % 0x100 == b2
            &&& w / 0x100_0000 == b3
        }),
{
    let w = b0 + 0x100 * b1 + 0x1_0000 * b2 + 0x100_0000 * b3;
    assert(w / 0x100 == b1 + 0x100 * b2 + 0x1_0000 * b3);
    assert(w / 0x1_0000 == b2 + 0x100 * b3);
    assert(w / 0x100_0000 == b3);
}

proof fn lemma_word16(d: Seq<u8>, at: int, pattern: int)
    requires
        0 <= pattern < 0x1_0000,
        d[at] == pack16(pattern)[0],
        d[at + 1] == pack16(pattern)[1],
    ensures
        word16(d, at) == pattern,
{
}

proof fn lemma_word32(d: Seq<u8>, at: int, pattern: int)
    requires
        0 <= pattern < 0x1_0000_0000,
        d[at] == pack32(pattern)[0],
        d[at + 1] == pack32(pattern)[1],
        d[at + 2] == pack32(pattern)[2],
        d[at + 3] == pack32(pattern)[3],
    ensures
        word32(d, at) == pattern,
{
}

} // verus!
