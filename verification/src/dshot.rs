//! DShot: the 16-bit motor frames and the pulse train that carries four of them at once.
use vstd::prelude::*;

verus! {

/// How long the line stays high for a one, in nanoseconds.
pub const T1H_NS: u32 = 2500;

/// How long the line stays low after a one, in nanoseconds.
pub const T1L_NS: u32 = 833;

/// How long the line stays high for a zero, in nanoseconds.
pub const T0H_NS: u32 = 1250;

/// The pause after a burst of frames, in nanoseconds.
pub const GAP_NS: u32 = 5000;

/// The 12 payload bits of a frame: eleven bits of throttle, then a telemetry request of zero.
pub open spec fn payload(throttle: u16) -> u16 {
    ((throttle % 2048) * 2) as u16
}

/// The exclusive or of the three nibbles of a payload.
pub open spec fn checksum(payload: u16) -> u16 {
    (payload % 16) ^ ((payload / 16) % 16) ^ ((payload / 256) % 16)
}

/// The frame for a throttle value: the payload, then its checksum.
pub open spec fn frame_word(throttle: u16) -> u16 {
    (payload(throttle) * 16 + checksum(payload(throttle))) as u16
}

/// Encodes a throttle value as a DShot frame. Only the low eleven bits of the value are sent.
pub fn dshot_frame(throttle: u16) -> (frame: u16)
    ensures
        frame == frame_word(throttle),
{
    let p: u16 = throttle << 1;
    let crc: u16 = (p ^ (p >> 4) ^ (p >> 8)) & 0x0F;
    let frame: u16 = (p << 4) | crc;
    proof {
        let q = payload(throttle);
        assert(frame == (q * 16 + ((q % 16) ^ ((q / 16) % 16) ^ ((q / 256) % 16))) as u16)
            by (bit_vector)
            requires
                q == ((throttle % 2048) * 2) as u16,
                p == throttle << 1,
                crc == (p ^ (p >> 4) ^ (p >> 8)) & 0x0F,
                frame == (p << 4) | crc,
        ;
    }
    frame
}

/// The throttle value that a receiver reads from a frame.
pub open spec fn frame_throttle(frame: u16) -> u16 {
    frame / 32
}

/// Whether a frame asks for telemetry.
pub open spec fn frame_telemetry(frame: u16) -> bool {
    (frame / 16) % 2 == 1
}

/// Whether a receiver accepts a frame: its last nibble is the checksum of the rest.
pub open spec fn frame_valid(frame: u16) -> bool {
    frame % 16 == checksum(frame / 16)
}

/// A receiver accepts every frame that the encoder makes, reads the low eleven bits of the
/// throttle value from it, and sees no telemetry request.
pub proof fn law_frame_decodes(throttle: u16)
    ensures
        frame_valid(frame_word(throttle)),
        frame_throttle(frame_word(throttle)) == throttle % 2048,
        !frame_telemetry(frame_word(throttle)),
{
    let q = payload(throttle);
    let c = checksum(q);
    let f = frame_word(throttle);
    assert(f / 16 == q && f % 16 == c && f / 32 == throttle % 2048 && (f / 16) % 2 == 0)
        by (bit_vector)
        requires
            q == ((throttle % 2048) * 2) as u16,
            c == (q % 16) ^ ((q / 16) % 16) ^ ((q / 256) % 16),
            f == (q * 16 + c) as u16,
    ;
}

/// A frame holds the low eleven bits of the throttle value, then a zero, then the nibble with which
/// the exclusive or of all its nibbles is zero.
pub proof fn law_frame_layout(throttle: u16)
    ensures
        ({
            let frame = frame_word(throttle);
            &&& frame / 32 == throttle % 2048
            &&& frame / 16 % 2 == 0
            &&& (frame / 4096) ^ (frame / 256 % 16) ^ (frame / 16 % 16) ^ (frame % 16) == 0
        }),
{
    let q = payload(throttle);
    let c = checksum(q);
    let f = frame_word(throttle);
    assert(f / 32 == throttle % 2048 && f / 16 % 2 == 0 && (f / 4096) ^ (f / 256 % 16) ^ (f / 16
        % 16) ^ (f % 16) == 0) by (bit_vector)
        requires
            q == ((throttle % 2048) * 2) as u16,
            c == (q % 16) ^ ((q / 16) % 16) ^ ((q / 256) % 16),
            f == (q * 16 + c) as u16,
    ;
}

/// Two throttle values in the eleven-bit range never share a frame.
pub proof fn law_frame_injective(a: u16, b: u16)
    requires
        a < 2048,
        b < 2048,
        frame_word(a) == frame_word(b),
    ensures
        a == b,
{
    law_frame_decodes(a);
    law_frame_decodes(b);
}

/// A receiver refuses a valid frame in which any one bit was flipped on the way.
pub proof fn law_single_bit_error_detected(frame: u16, i: u16)
    requires
        frame_valid(frame),
        i < 16,
    ensures
        !frame_valid(frame ^ (1u16 << i)),
{
    let g = frame ^ (1u16 << i);
    let p = frame / 16;
    let q = g / 16;
    assert(g % 16 != (q % 16) ^ ((q / 16) % 16) ^ ((q / 256) % 16)) by (bit_vector)
        requires
            i < 16,
            g == frame ^ (1u16 << i),
            p == frame / 16,
            q == g / 16,
            frame % 16 == (p % 16) ^ ((p / 16) % 16) ^ ((p / 256) % 16),
    ;
}

/// One `bool` for each of the four motor lines.
#[derive(Clone, Copy, Debug, PartialEq, Eq, Structural)]
pub struct Lines {
    pub m1: bool,
    pub m2: bool,
    pub m3: bool,
    pub m4: bool,
}

impl Lines {
    /// The entry of motor `motor`, counted from one.
    pub open spec fn of(self, motor: int) -> bool {
        if motor == 1 {
            self.m1
        } else if motor == 2 {
            self.m2
        } else if motor == 3 {
            self.m3
        } else {
            self.m4
        }
    }
}

/// One frame for each of the four motor lines.
#[derive(Clone, Copy, Debug, PartialEq, Eq, Structural)]
pub struct Frames {
    pub m1: u16,
    pub m2: u16,
    pub m3: u16,
    pub m4: u16,
}

impl Frames {
    /// The frame of motor `motor`, counted from one.
    pub open spec fn of(self, motor: int) -> u16 {
        if motor == 1 {
            self.m1
        } else if motor == 2 {
            self.m2
        } else if motor == 3 {
            self.m3
        } else {
            self.m4
        }
    }
}

/// How often the motors are sent their values, in microseconds.
pub const SEND_PERIOD_US: u64 = 2000;

/// How long the motor controllers are armed, in milliseconds.
pub const ARMING_MS: u64 = 4000;

/// The frames that arm the motor controllers: throttle zero on every line.
pub open spec fn arming_word() -> Frames {
    Frames { m1: 0, m2: 0, m3: 0, m4: 0 }
}

/// The frames to send while the motor controllers are armed, or `None` from the time `until` on.
pub open spec fn spec_arming_frames(now: u64, until: u64) -> Option<Frames> {
    if now < until {
        Some(arming_word())
    } else {
        None
    }
}

/// Arming goes on at every moment before its end and at none after. Each motor is then sent a valid
/// frame with throttle zero that asks for no telemetry.
pub proof fn law_arming(now: u64, until: u64, motor: int)
    requires
        1 <= motor <= 4,
    ensures
        spec_arming_frames(now, until) is Some <==> until - now > 0,
        spec_arming_frames(now, until) matches Some(frames) ==> frames.of(motor) / 16 == 0
            && frames.of(motor) % 16 == 0,
{
}

/// The frames to send while the motor controllers are armed, or `None` from the time `until` on.
pub fn arming_frames(now: u64, until: u64) -> (frames: Option<Frames>)
    ensures
        frames == spec_arming_frames(now, until),
        frames == if now < until {
            Some(arming_word())
        } else {
            None
        },
{
    if now < until {
        Some(Frames { m1: 0, m2: 0, m3: 0, m4: 0 })
    } else {
        None
    }
}

/// What is done next to the four motor lines.
#[derive(Clone, Copy, Debug, PartialEq, Eq, Structural)]
pub enum PinAction {
    /// Drive all four lines high.
    Raise,
    /// Drive low the lines that are marked, and leave the others as they are.
    Lower(Lines),
    /// Hold all lines for this many nanoseconds.
    Wait(u32),
}

/// Pin actions that send one bit on each line.
pub const SLOT_STEPS: usize = 6;

/// Pin actions that send the sixteen bits of a burst; they must not be interrupted.
pub const BURST_STEPS: usize = 96;

/// Pin actions of a whole transmission: the burst, then the pause.
pub const SEND_STEPS: usize = 97;

/// Bit `i` of a frame, bit zero being the least significant.
pub open spec fn bit(frame: u16, i: int) -> bool {
    (frame >> (i as u16)) & 1 == 1
}

/// The lines whose frame holds a zero at bit `i`.
pub open spec fn zeros(frames: Frames, i: int) -> Lines {
    Lines {
        m1: !bit(frames.m1, i),
        m2: !bit(frames.m2, i),
        m3: !bit(frames.m3, i),
        m4: !bit(frames.m4, i),
    }
}

/// All four lines.
pub open spec fn all_lines() -> Lines {
    Lines { m1: true, m2: true, m3: true, m4: true }
}

/// The pin actions that send bit `i` of each frame: all lines rise together, those that send a
/// zero fall early, the others late.
pub open spec fn slot(frames: Frames, i: int) -> Seq<PinAction> {
    seq![
        PinAction::Raise,
        PinAction::Wait(T0H_NS),
        PinAction::Lower(zeros(frames, i)),
        PinAction::Wait((T1H_NS - T0H_NS) as u32),
        PinAction::Lower(all_lines()),
        PinAction::Wait(T1L_NS),
    ]
}

/// The pin actions of a transmission: the bits from the most significant down, then the pause.
pub open spec fn waveform(frames: Frames) -> Seq<PinAction> {
    Seq::new(
        SEND_STEPS as nat,
        |k: int|
            if k < BURST_STEPS {
                slot(frames, 15 - k / SLOT_STEPS as int)[k % SLOT_STEPS as int]
            } else {
                PinAction::Wait(GAP_NS)
            },
    )
}

/// The pin action of step `step` in the transmission of `frames`, or `None` past its end.
pub open spec fn send_step(frames: Frames, step: int) -> Option<PinAction> {
    if step < SEND_STEPS {
        Some(waveform(frames)[step])
    } else {
        None
    }
}

/// The pin actions that the steps of a transmission give, from the first to the last.
#[verifier::opaque]
pub open spec fn transmission(frames: Frames) -> Seq<PinAction> {
    Seq::new(97, |step: int| send_step(frames, step)->0)
}

/// Whether bit `i` of `frame` is a zero.
fn is_zero(frame: u16, i: u16) -> (r: bool)
    requires
        i < 16,
    ensures
        r == !bit(frame, i as int),
{
    let b: u16 = (frame >> i) & 1;
    assert(b == 0 || b == 1) by (bit_vector)
        requires
            b == (frame >> i) & 1,
    ;
    b == 0
}

/// The pin action of step `step` in the transmission of `frames`, or `None` past its end.
pub fn dshot_send_step(frames: &Frames, step: usize) -> (r: Option<PinAction>)
    ensures
        r == send_step(*frames, step as int),
        r == if step < SEND_STEPS {
            Some(waveform(*frames)[step as int])
        } else {
            None
        },
{
    if step >= SEND_STEPS {
        return None;
    }
    if step >= BURST_STEPS {
        return Some(PinAction::Wait(GAP_NS));
    }
    let i: u16 = 15 - (step / SLOT_STEPS) as u16;
    let phase: usize = step % SLOT_STEPS;
    let ghost expected = slot(*frames, i as int)[phase as int];
    assert(waveform(*frames)[step as int] == expected);
    let action = if phase == 0 {
        PinAction::Raise
    } else if phase == 1 {
        PinAction::Wait(T0H_NS)
    } else if phase == 2 {
        PinAction::Lower(
            Lines {
                m1: is_zero(frames.m1, i),
                m2: is_zero(frames.m2, i),
                m3: is_zero(frames.m3, i),
                m4: is_zero(frames.m4, i),
            },
        )
    } else if phase == 3 {
        PinAction::Wait(T1H_NS - T0H_NS)
    } else if phase == 4 {
        PinAction::Lower(Lines { m1: true, m2: true, m3: true, m4: true })
    } else {
        PinAction::Wait(T1L_NS)
    };
    Some(action)
}

/// The level of a line after one pin action.
pub open spec fn level_after(action: PinAction, motor: int, level: bool) -> bool {
    match action {
        PinAction::Raise => true,
        PinAction::Lower(lines) => level && !lines.of(motor),
        PinAction::Wait(_) => level,
    }
}

/// The level of a line after a run of pin actions.
pub open spec fn final_level(actions: Seq<PinAction>, motor: int, level: bool) -> bool
    decreases actions.len(),
{
    if actions.len() == 0 {
        level
    } else {
        level_after(actions.last(), motor, final_level(actions.drop_last(), motor, level))
    }
}

/// How long one pin action holds the lines.
pub open spec fn action_ns(action: PinAction) -> nat {
    match action {
        PinAction::Wait(ns) => ns as nat,
        _ => 0,
    }
}

/// How long a run of pin actions takes.
pub open spec fn total_ns(actions: Seq<PinAction>) -> nat
    decreases actions.len(),
{
    if actions.len() == 0 {
        0
    } else {
        total_ns(actions.drop_last()) + action_ns(actions.last())
    }
}

/// How long a line is high during a run of pin actions.
pub open spec fn high_ns(actions: Seq<PinAction>, motor: int, level: bool) -> nat
    decreases actions.len(),
{
    if actions.len() == 0 {
        0
    } else {
        let before = actions.drop_last();
        high_ns(before, motor, level) + if final_level(before, motor, level) {
            action_ns(actions.last())
        } else {
            0
        }
    }
}

/// The actions that send the bit of slot `k`, counted from the start of a transmission.
pub open spec fn slot_actions(actions: Seq<PinAction>, k: int) -> Seq<PinAction> {
    actions.subrange(SLOT_STEPS * k, SLOT_STEPS * k + SLOT_STEPS)
}

/// What a receiver on a line that idled at `idle` takes slot `k` for: a one if the line was high
/// for the long time.
pub open spec fn received_bit(actions: Seq<PinAction>, motor: int, idle: bool, k: int) -> bool {
    high_ns(
        slot_actions(actions, k),
        motor,
        final_level(actions.take(SLOT_STEPS * k), motor, idle),
    ) == T1H_NS
}

/// The number that a receiver puts together from the first `n` slots.
pub open spec fn received_word(actions: Seq<PinAction>, motor: int, idle: bool, n: nat) -> nat
    decreases n,
{
    if n == 0 {
        0
    } else {
        2 * received_word(actions, motor, idle, (n - 1) as nat) + if received_bit(
            actions,
            motor,
            idle,
            n - 1,
        ) {
            1nat
        } else {
            0nat
        }
    }
}

/// In the slot of a bit, a line is high for the long time if its frame holds a one there and for
/// the short time if it holds a zero. The slot lasts as long in either case and leaves the line
/// low. None of this depends on the level that the line had before.
pub proof fn law_slot_timing(frames: Frames, i: int, motor: int, level: bool)
    requires
        1 <= motor <= 4,
    ensures
        high_ns(slot(frames, i), motor, level) == if bit(frames.of(motor), i) {
            T1H_NS
        } else {
            T0H_NS
        },
        total_ns(slot(frames, i)) == T1H_NS + T1L_NS,
        !final_level(slot(frames, i), motor, level),
{
    let s = slot(frames, i);
    reveal_with_fuel(high_ns, 7);
    reveal_with_fuel(total_ns, 7);
    reveal_with_fuel(final_level, 7);
    let s5 = s.drop_last();
    let s4 = s5.drop_last();
    let s3 = s4.drop_last();
    let s2 = s3.drop_last();
    let s1 = s2.drop_last();
    assert(s5.last() == s[4] && s4.last() == s[3] && s3.last() == s[2] && s2.last() == s[1]
        && s1.last() == s[0]);
    assert(s1.drop_last().len() == 0);
}

/// Slot `k` of a transmission sends bit `15 - k` of each frame.
pub proof fn law_slot_order(frames: Frames, k: int)
    requires
        0 <= k < 16,
    ensures
        slot_actions(waveform(frames), k) == slot(frames, 15 - k),
{
    let w = waveform(frames);
    let expected = slot(frames, 15 - k);
    assert forall|j: int| 0 <= j < 6 implies slot_actions(w, k)[j] == #[trigger] expected[j] by {
        assert((6 * k + j) / 6 == k && (6 * k + j) % 6 == j);
    }
    assert(slot_actions(w, k) =~= expected);
}

/// A receiver puts together from the pulses on a motor's line exactly the frame that was sent,
/// whatever level the line idled at.
pub proof fn law_frames_received(frames: Frames, motor: int, idle: bool)
    requires
        1 <= motor <= 4,
    ensures
        received_word(waveform(frames), motor, idle, 16) == frames.of(motor),
{
    lemma_word_prefix(frames, motor, idle, 16);
    let f = frames.of(motor);
    assert(f >> 0u16 == f) by (bit_vector);
}

/// A receiver takes slot `k` for bit `15 - k` of the frame.
proof fn lemma_bit_received(frames: Frames, motor: int, idle: bool, k: int)
    requires
        1 <= motor <= 4,
        0 <= k < 16,
    ensures
        received_bit(waveform(frames), motor, idle, k) == bit(frames.of(motor), 15 - k),
{
    let level = final_level(waveform(frames).take(SLOT_STEPS * k), motor, idle);
    law_slot_order(frames, k);
    law_slot_timing(frames, 15 - k, motor, level);
}

/// Shifting a frame by one place less brings in its next bit.
proof fn lemma_next_bit(f: u16, i: u16)
    requires
        i < 16,
    ensures
        (f >> i) as int == if i == 15 {
            0
        } else {
            2 * (f >> ((i + 1) as u16))
        } + if bit(f, i as int) {
            1int
        } else {
            0int
        },
{
    let b = (f >> i) & 1;
    assert(b == 0 || b == 1) by (bit_vector)
        requires
            b == (f >> i) & 1,
    ;
    if i == 15 {
        assert(f >> 15u16 == (f >> 15u16) & 1) by (bit_vector);
    } else {
        let j = (i + 1) as u16;
        assert(f >> i == 2 * (f >> j) + b) by (bit_vector)
            requires
                i < 15,
                j == i + 1,
                b == (f >> i) & 1,
        ;
    }
}

/// The first `n` slots carry the `n` most significant bits.
proof fn lemma_word_prefix(frames: Frames, motor: int, idle: bool, n: nat)
    requires
        1 <= motor <= 4,
        n <= 16,
    ensures
        received_word(waveform(frames), motor, idle, n) == if n == 0 {
            0
        } else {
            (frames.of(motor) >> ((16 - n) as u16)) as int
        },
    decreases n,
{
    if n > 0 {
        lemma_word_prefix(frames, motor, idle, (n - 1) as nat);
        lemma_bit_received(frames, motor, idle, n - 1);
        lemma_next_bit(frames.of(motor), (16 - n) as u16);
    }
}

/// A transmission takes sixteen bit slots and the pause, and leaves every line low.
pub proof fn law_transmission_ends_low(frames: Frames, motor: int, idle: bool)
    requires
        1 <= motor <= 4,
    ensures
        total_ns(waveform(frames)) == 16 * (T1H_NS + T1L_NS) + GAP_NS,
        !final_level(waveform(frames), motor, idle),
{
    let w = waveform(frames);
    lemma_slots_prefix(frames, motor, idle, 16);
    assert(w.drop_last() =~= w.take(96));
}

/// The steps of a transmission end after the ninety-seventh. From the pulses that they make on a
/// motor's line a receiver puts together the frame of that motor, and the line ends low.
pub proof fn law_steps_transmit(frames: Frames, step: int, motor: int, idle: bool)
    requires
        0 <= step,
        1 <= motor <= 4,
    ensures
        send_step(frames, step) is Some <==> step < 97,
        received_word(transmission(frames), motor, idle, 16) == frames.of(motor),
        !final_level(transmission(frames), motor, idle),
{
    lemma_transmission(frames);
    law_frames_received(frames, motor, idle);
    law_transmission_ends_low(frames, motor, idle);
}

/// The pulses are those of DShot300: the slot of a bit lasts the three hundred thousandth part of a
/// second, a one is high for three quarters of it and a zero for half as long as a one, each to the
/// nearest nanosecond.
pub proof fn law_dshot300(frames: Frames, k: int, motor: int, level: bool)
    requires
        0 <= k < 16,
        1 <= motor <= 4,
    ensures
        ({
            let slot = slot_actions(transmission(frames), k);
            let high = high_ns(slot, motor, level);
            let one = (frames.of(motor) >> ((15 - k) as u16)) & 1 == 1;
            &&& total_ns(slot) == 1_000_000_000int / 300_000
            &&& one ==> high == 2500
            &&& !one ==> 2 * high == 2500
        }),
{
    lemma_transmission(frames);
    law_slot_order(frames, k);
    law_slot_timing(frames, 15 - k, motor, level);
}

/// All lines rise at the start of the slot of a bit, and a line that has fallen in it does not rise
/// again: where it is high after some steps, it was high after each number of steps before.
pub proof fn law_slot_has_one_pulse(
    frames: Frames,
    k: int,
    i: int,
    j: int,
    motor: int,
    level: bool,
)
    requires
        0 <= k < 16,
        1 <= i <= j <= 6,
        1 <= motor <= 4,
    ensures
        ({
            let slot = slot_actions(transmission(frames), k);
            &&& slot[0] is Raise
            &&& final_level(slot.take(j), motor, level) ==> final_level(slot.take(i), motor, level)
        }),
{
    let s = slot_actions(transmission(frames), k);
    assert(s == slot(frames, 15 - k)) by {
        lemma_transmission(frames);
        law_slot_order(frames, k);
    }
    assert(s[0] is Raise);
    assert(final_level(s.take(j), motor, level) ==> final_level(s.take(i), motor, level)) by {
        lemma_stays_low(frames, 15 - k, i, j, motor, level);
    }
}

/// After the first step of a slot no step raises a line.
proof fn lemma_stays_low(frames: Frames, bit: int, i: int, j: int, motor: int, level: bool)
    requires
        1 <= i <= j <= 6,
    ensures
        final_level(slot(frames, bit).take(j), motor, level) ==> final_level(
            slot(frames, bit).take(i),
            motor,
            level,
        ),
    decreases j,
{
    if i < j {
        let s = slot(frames, bit);
        let t = s.take(j);
        lemma_stays_low(frames, bit, i, j - 1, motor, level);
        assert(t.last() == s[j - 1]);
        assert(t.drop_last() =~= s.take(j - 1));
        assert(s[j - 1] !is Raise);
    }
}

/// The steps give the waveform.
proof fn lemma_transmission(frames: Frames)
    ensures
        transmission(frames) == waveform(frames),
{
    reveal(transmission);
    assert(transmission(frames) =~= waveform(frames));
}

/// After the bits, a transmission holds the lines for five microseconds more.
pub proof fn law_transmission_pauses(frames: Frames)
    ensures
        transmission(frames)[96] == PinAction::Wait(5000),
        total_ns(transmission(frames)) == 16 * (1_000_000_000int / 300_000) + 5000,
{
    lemma_transmission(frames);
    law_transmission_ends_low(frames, 1, false);
}

/// A transmission has ended long before the next one is due.
pub proof fn law_transmission_fits_period(frames: Frames)
    ensures
        total_ns(waveform(frames)) < SEND_PERIOD_US * 1000,
{
    law_transmission_ends_low(frames, 1, false);
}

/// The first `n` slots take `n` slot times, and after any of them the line is low.
proof fn lemma_slots_prefix(frames: Frames, motor: int, idle: bool, n: nat)
    requires
        1 <= motor <= 4,
        n <= 16,
    ensures
        total_ns(waveform(frames).take(SLOT_STEPS * n)) == n * (T1H_NS + T1L_NS),
        n > 0 ==> !final_level(waveform(frames).take(SLOT_STEPS * n), motor, idle),
    decreases n,
{
    let w = waveform(frames);
    if n == 0 {
        assert(w.take(0).len() == 0);
    } else {
        let k = n - 1;
        lemma_slots_prefix(frames, motor, idle, k as nat);
        law_slot_order(frames, k);
        let before = w.take(6 * k);
        law_slot_timing(frames, 15 - k, motor, final_level(before, motor, idle));
        lemma_append(before, slot(frames, 15 - k), motor, idle);
        assert(w.take(SLOT_STEPS * n) =~= before + slot(frames, 15 - k));
        assert(n * (T1H_NS + T1L_NS) == k * (T1H_NS + T1L_NS) + (T1H_NS + T1L_NS))
            by (nonlinear_arith)
            requires
                n == k + 1,
        ;
    }
}

/// Running two stretches of pin actions after one another adds their times and hands the level
/// of the first to the second.
proof fn lemma_append(a: Seq<PinAction>, b: Seq<PinAction>, motor: int, level: bool)
    ensures
        total_ns(a + b) == total_ns(a) + total_ns(b),
        final_level(a + b, motor, level) == final_level(b, motor, final_level(a, motor, level)),
    decreases b.len(),
{
    if b.len() == 0 {
        assert(a + b =~= a);
    } else {
        lemma_append(a, b.drop_last(), motor, level);
        assert((a + b).drop_last() =~= a + b.drop_last());
        assert((a + b).last() == b.last());
    }
}

/// The processor cycles that last `ns` nanoseconds at a clock of `freq` hertz, rounded down and
/// kept in 32 bits.
pub open spec fn spec_delay_cycles(freq: u32, ns: u32) -> int {
    (freq * ns / 1_000_000_000) % 0x1_0000_0000
}

/// The cycles of a wait are the most that do not last longer than the wait. Of a count that does
/// not fit in 32 bits, the low 32 bits are kept.
pub proof fn law_delay_cycles(freq: u32, ns: u32, cycles: int)
    requires
        cycles * 1_000_000_000 <= freq * ns,
        freq * ns < (cycles + 1) * 1_000_000_000,
    ensures
        0 <= spec_delay_cycles(freq, ns) < 0x1_0000_0000,
        (cycles - spec_delay_cycles(freq, ns)) % 0x1_0000_0000 == 0,
        ns <= 1_000_000_000 ==> spec_delay_cycles(freq, ns) == cycles,
{
    assert(freq * ns / 1_000_000_000 == cycles);
    if ns <= 1_000_000_000 {
        law_delay_not_cut(freq, ns);
    }
}

/// The processor cycles that last `ns` nanoseconds at a clock of `freq` hertz, rounded down. The
/// count is kept in 32 bits; what does not fit is cut off at the top.
pub fn delay_cycles(freq: u32, ns: u32) -> (cycles: u32)
    ensures
        cycles as int == spec_delay_cycles(freq, ns),
        cycles as int == (freq * ns / 1_000_000_000) % 0x1_0000_0000,
{
    assert(freq * ns <= 0xffff_ffff * 0xffff_ffff) by (nonlinear_arith)
        requires
            freq <= 0xffff_ffff,
            ns <= 0xffff_ffff,
    ;
    let cycles: u64 = (freq as u64 * ns as u64) / 1_000_000_000;
    assert(cycles as u32 == cycles % 0x1_0000_0000) by (bit_vector);
    #[verifier::truncate]
    (cycles as u32)
}

/// A wait of up to a second is never cut off, whatever the clock.
pub proof fn law_delay_not_cut(freq: u32, ns: u32)
    requires
        ns <= 1_000_000_000,
    ensures
        (freq * ns / 1_000_000_000) % 0x1_0000_0000 == freq * ns / 1_000_000_000,
        freq * ns / 1_000_000_000 <= freq,
{
    assert(0 <= freq * ns <= freq * 1_000_000_000) by (nonlinear_arith)
        requires
            0 <= ns <= 1_000_000_000,
            0 <= freq,
    ;
}

} // verus!
