//! What holds of every flight, whatever datagrams come and whenever the control loop ticks.
use crate::dshot::{
    arming_word, frame_telemetry, frame_throttle, frame_valid, frame_word, law_frame_decodes,
    law_frame_layout, law_frames_received, received_word, waveform, ARMING_MS, SEND_PERIOD_US,
};
use crate::flight::{
    spec_motor_command, spec_report_record, Axes, AxisState, Flight, LinkReport, MotorSums,
    MotorValues, Tick, CONTROL_PERIOD_MS, FAILSAFE_LOG_MS, FAILSAFE_MS, MOTOR_MIN, REPORT_EVERY,
    THROTTLE_MIN,
};
use crate::imu::FILTER_PERIOD_MS;
use crate::line::decimal;
use crate::protocol::{law_packet_roundtrip, pack, PidParams, Setpoint, DSHOT_MAX, PACKET_LEN};
use crate::telemetry::{
    law_packet_ends_at_zero, law_packet_ok_cut, law_packet_ok_sent_whole, law_record_layout,
    law_size_error_sent_whole, line_text, packet, packet_ok_text, record, size_error_text,
    zero_free, Notice,
};
use vstd::arithmetic::power2::{lemma2_to64, pow2};
use vstd::prelude::*;
use vstd::string::StringSliceAdditionalSpecFns;

verus! {

/// Something that happens in a flight.
pub enum Event {
    /// A datagram comes in.
    Datagram { bytes: Seq<u8>, now: u64 },
    /// A receive fails.
    ReceiveFailed { now: u64 },
    /// The control loop ticks. Where the tick is flown, the PID terms come out as `axes` and the
    /// mixer adds up `sums`.
    Control { now: u64, axes: Axes, sums: MotorSums },
}

impl Event {
    /// Whether the event is a control packet.
    pub open spec fn is_packet(self) -> bool {
        self matches Event::Datagram { bytes, .. } && bytes.len() == PACKET_LEN
    }
}

impl Flight {
    /// The state after a whole tick of the control loop.
    pub open spec fn after_control(self, now: u64, axes: Axes, sums: MotorSums) -> Flight {
        match self.tick_action(now) {
            Tick::Cut { .. } => self.after_tick(now),
            Tick::Fly { .. } => self.after_tick(now).after_drive(axes, sums),
        }
    }

    /// The state after an event.
    pub open spec fn after(self, event: Event) -> Flight {
        match event {
            Event::Datagram { bytes, now } => self.after_receive(Some(bytes), now),
            Event::ReceiveFailed { now } => self.after_receive(None, now),
            Event::Control { now, axes, sums } => self.after_control(now, axes, sums),
        }
    }

    /// The state after a run of events.
    pub open spec fn after_all(self, events: Seq<Event>) -> Flight
        decreases events.len(),
    {
        if events.len() == 0 {
            self
        } else {
            self.after_all(events.drop_last()).after(events.last())
        }
    }

    /// How many control packets of a run are reported.
    pub open spec fn packets_reported(self, events: Seq<Event>) -> nat
        decreases events.len(),
    {
        if events.len() == 0 {
            0
        } else {
            let before = events.drop_last();
            self.packets_reported(before) + match events.last() {
                Event::Datagram { bytes, .. } => if self.after_all(before).receive_report(
                    Some(bytes),
                ) is Packet {
                    1nat
                } else {
                    0nat
                },
                _ => 0nat,
            }
        }
    }
}

/// How many events of a run are control packets.
pub open spec fn packet_count(events: Seq<Event>) -> nat
    decreases events.len(),
{
    if events.len() == 0 {
        0
    } else {
        packet_count(events.drop_last()) + if events.last().is_packet() {
            1nat
        } else {
            0nat
        }
    }
}

/// Every event leaves the state well formed, as long as the packet count has room.
pub proof fn law_stays_well_formed(start: Flight, events: Seq<Event>)
    requires
        start.well_formed(),
        start.rx_count + packet_count(events) <= i32::MAX,
    ensures
        start.after_all(events).well_formed(),
        start.after_all(events).rx_count == start.rx_count + packet_count(events),
    decreases events.len(),
{
    if events.len() > 0 {
        law_stays_well_formed(start, events.drop_last());
    }
}

/// In every flight, each motor is either at rest or within the limits of flight. In particular no
/// motor is ever sent one of the values that DShot keeps for commands.
pub proof fn law_motors_within_limits(events: Seq<Event>, motor: int)
    requires
        packet_count(events) <= i32::MAX,
        1 <= motor <= 4,
    ensures
        ({
            let value = Flight::spec_new().after_all(events).motors.of(motor);
            value == 0 || THROTTLE_MIN < MOTOR_MIN <= value <= DSHOT_MAX
        }),
{
    law_stays_well_formed(Flight::spec_new(), events);
}

/// What a control packet says stays in force until the next one, whatever else happens.
pub proof fn law_last_packet_in_force(start: Flight, events: Seq<Event>)
    requires
        packet_count(events) == 0,
    ensures
        start.after_all(events).setpoint == start.setpoint,
        start.after_all(events).params == start.params,
        start.after_all(events).last_pkt == start.last_pkt,
        start.after_all(events).rx_count == start.rx_count,
    decreases events.len(),
{
    if events.len() > 0 {
        law_last_packet_in_force(start, events.drop_last());
    }
}

/// The time of the latest control packet of a run, or zero where there is none.
pub open spec fn latest_packet(events: Seq<Event>) -> u64
    decreases events.len(),
{
    if events.len() == 0 {
        0
    } else {
        match events.last() {
            Event::Datagram { bytes, now } if bytes.len() == PACKET_LEN => now,
            _ => latest_packet(events.drop_last()),
        }
    }
}

/// At every moment of a flight, the failsafe counts from the time of the latest control packet,
/// or from zero where there was none. A receive moves that time if and only if it gives a
/// datagram of the right size, whatever the datagram holds.
pub proof fn law_failsafe_timestamp(events: Seq<Event>)
    ensures
        Flight::spec_new().after_all(events).last_pkt == latest_packet(events),
    decreases events.len(),
{
    if events.len() > 0 {
        law_failsafe_timestamp(events.drop_last());
    }
}

/// The failsafe: when no control packet has come for longer than the limit, each tick of the
/// control loop stops the motors and clears the sums of the PID terms, whatever was asked for
/// and whatever else came in.
pub proof fn law_failsafe(
    start: Flight,
    events: Seq<Event>,
    now: u64,
    axes: Axes,
    sums: MotorSums,
)
    requires
        packet_count(events) == 0,
        now - start.last_pkt > FAILSAFE_MS,
    ensures
        ({
            let end = start.after_all(events.push(Event::Control { now, axes, sums }));
            &&& end.motors == MotorValues::spec_stopped()
            &&& end.axes.pitch.integral == 0
            &&& end.axes.roll.integral == 0
            &&& end.axes.yaw.integral == 0
        }),
{
    law_last_packet_in_force(start, events);
    assert(events.push(Event::Control { now, axes, sums }).drop_last() =~= events);
}

/// A whole tick leaves the motors at rest where they must not turn, and otherwise turns all of
/// them within their limits.
pub proof fn law_control_rests_or_flies(start: Flight, now: u64, axes: Axes, sums: MotorSums)
    ensures
        start.must_cut(now) ==> start.after_control(now, axes, sums).motors
            == MotorValues::spec_stopped(),
        !start.must_cut(now) ==> start.after_control(now, axes, sums).motors.flying(),
{
}

/// A packet that asks for less throttle than is flown stops the motors at the next tick and keeps
/// them at rest until another packet comes.
pub proof fn law_low_throttle_stops(
    start: Flight,
    setpoint: Setpoint,
    params: PidParams,
    sent: u64,
    events: Seq<Event>,
    now: u64,
    axes: Axes,
    sums: MotorSums,
)
    requires
        setpoint.throttle < THROTTLE_MIN,
        packet_count(events) == 0,
    ensures
        start.after_datagram(pack(setpoint, params), sent).after_all(
            events.push(Event::Control { now, axes, sums }),
        ).motors == MotorValues::spec_stopped(),
{
    let f = start.after_datagram(pack(setpoint, params), sent);
    law_packet_roundtrip(setpoint, params);
    law_last_packet_in_force(f, events);
    assert(events.push(Event::Control { now, axes, sums }).drop_last() =~= events);
}

/// While control packets keep coming, the throttle that the ground station packed is flown, up to
/// the limit of the motors.
pub proof fn law_throttle_flown(
    start: Flight,
    setpoint: Setpoint,
    params: PidParams,
    sent: u64,
    events: Seq<Event>,
    now: u64,
)
    requires
        setpoint.throttle >= THROTTLE_MIN,
        packet_count(events) == 0,
        now - sent <= FAILSAFE_MS,
    ensures
        start.after_datagram(pack(setpoint, params), sent).after_all(events).tick_action(now) == (
        Tick::Fly {
            throttle: if setpoint.throttle < DSHOT_MAX {
                setpoint.throttle
            } else {
                DSHOT_MAX
            },
        }),
        start.after_datagram(pack(setpoint, params), sent).after_all(events).params == params,
{
    let f = start.after_datagram(pack(setpoint, params), sent);
    law_packet_roundtrip(setpoint, params);
    law_last_packet_in_force(f, events);
}

/// From the start of a flight, one control packet in every so many is reported.
pub proof fn law_report_rate(events: Seq<Event>)
    requires
        packet_count(events) <= i32::MAX,
    ensures
        Flight::spec_new().packets_reported(events) == packet_count(events) / REPORT_EVERY as nat,
    decreases events.len(),
{
    if events.len() > 0 {
        law_report_rate(events.drop_last());
        law_stays_well_formed(Flight::spec_new(), events.drop_last());
    }
}

/// The failsafe is not reported again before the given time has passed, whatever happens in
/// between.
pub proof fn law_failsafe_report_spacing(
    start: Flight,
    first: u64,
    axes: Axes,
    sums: MotorSums,
    events: Seq<Event>,
    second: u64,
)
    requires
        start.reports_failsafe(first),
        start.after_control(first, axes, sums).after_all(events).reports_failsafe(second),
    ensures
        second - first > FAILSAFE_LOG_MS,
{
    lemma_last_log_advances(start.after_control(first, axes, sums), events);
}

/// The time of the last report never moves back.
proof fn lemma_last_log_advances(f: Flight, events: Seq<Event>)
    ensures
        f.after_all(events).last_log >= f.last_log,
    decreases events.len(),
{
    if events.len() > 0 {
        lemma_last_log_advances(f, events.drop_last());
    }
}

/// What the ground station packs is in force from the moment that the datagram comes until the next
/// control packet, whatever the state was before: the attitude and the gains as they were packed,
/// the throttle up to the limit of the motors.
pub proof fn law_packet_in_force(
    start: Flight,
    setpoint: Setpoint,
    params: PidParams,
    sent: u64,
    events: Seq<Event>,
)
    requires
        packet_count(events) == 0,
    ensures
        ({
            let end = start.after_receive(Some(pack(setpoint, params)), sent).after_all(events);
            &&& end.setpoint.pitch == setpoint.pitch
            &&& end.setpoint.roll == setpoint.roll
            &&& end.setpoint.yaw_rate == setpoint.yaw_rate
            &&& end.params == params
            &&& end.last_pkt == sent
            &&& end.setpoint.throttle <= 2000
            &&& setpoint.throttle <= 2000 ==> end.setpoint.throttle == setpoint.throttle
            &&& setpoint.throttle > 2000 ==> end.setpoint.throttle == 2000
        }),
{
    law_packet_roundtrip(setpoint, params);
    law_last_packet_in_force(start.after_datagram(pack(setpoint, params), sent), events);
}

/// Of two control packets with nothing but other events between them, the second alone is in
/// force: the state does not show what the first one said.
pub proof fn law_later_packet_replaces(
    start: Flight,
    first: (Setpoint, PidParams),
    other: (Setpoint, PidParams),
    second: (Setpoint, PidParams),
    sent: u64,
    sent_next: u64,
)
    ensures
        ({
            let last = Some(pack(second.0, second.1));
            let a = start.after_receive(Some(pack(first.0, first.1)), sent).after_receive(
                last,
                sent_next,
            );
            let b = start.after_receive(Some(pack(other.0, other.1)), sent).after_receive(
                last,
                sent_next,
            );
            a == b
        }),
{
    law_packet_roundtrip(first.0, first.1);
    law_packet_roundtrip(other.0, other.1);
    law_packet_roundtrip(second.0, second.1);
}

/// A datagram touches nothing that belongs to the control loop: not what the motors are given, not
/// what the PID terms remember, not the time of the last failsafe report. Every control packet
/// counts once.
pub proof fn law_datagram_leaves_control(start: Flight, bytes: Seq<u8>, now: u64)
    ensures
        ({
            let end = start.after_receive(Some(bytes), now);
            &&& end.motors == start.motors
            &&& end.axes == start.axes
            &&& end.last_log == start.last_log
            &&& bytes.len() == 20 && start.rx_count < i32::MAX ==> end.rx_count - start.rx_count
                == 1
        }),
{
}

/// A receive that fails, and a datagram that is not of twenty bytes, change nothing. The first is
/// not reported; the second is, with its size.
pub proof fn law_other_receives_ignored(start: Flight, bytes: Seq<u8>, now: u64)
    requires
        bytes.len() != 20,
        bytes.len() <= usize::MAX,
    ensures
        start.after_receive(None, now) == start,
        start.receive_report(None) is Quiet,
        start.after_receive(Some(bytes), now) == start,
        start.receive_report(Some(bytes)) matches LinkReport::WrongSize { len } && len
            == bytes.len(),
{
}

/// Where a control packet is reported, the report names the throttle that the ground station
/// packed, up to the limit of the motors, and the proportional gain that it packed. A control
/// packet is reported where it makes the count of packets a multiple of twenty-five, and otherwise
/// nothing is logged of it.
pub proof fn law_report_names_packet(start: Flight, setpoint: Setpoint, params: PidParams)
    requires
        0 <= start.rx_count < i32::MAX,
    ensures
        ({
            let report = start.receive_report(Some(pack(setpoint, params)));
            let count = start.after_receive(Some(pack(setpoint, params)), 0).rx_count as int;
            &&& count % 25 == 0 ==> report is Packet
            &&& count % 25 != 0 ==> report is Quiet
            &&& report matches LinkReport::Packet { throttle, kp } ==> {
                &&& kp == params.kp
                &&& throttle <= 2000
                &&& setpoint.throttle <= 2000 ==> throttle == setpoint.throttle
                &&& setpoint.throttle > 2000 ==> throttle == 2000
            }
        }),
{
    law_packet_roundtrip(setpoint, params);
}

/// What a report says is what is then in force.
pub proof fn law_report_tells_state(start: Flight, bytes: Seq<u8>, now: u64)
    requires
        start.receive_report(Some(bytes)) is Packet,
    ensures
        ({
            let report = start.receive_report(Some(bytes));
            let end = start.after_receive(Some(bytes), now);
            &&& report->throttle == end.setpoint.throttle
            &&& report->kp == end.params.kp
            &&& end.last_pkt == now
        }),
{
}

/// The serial log says of each receive what happened: the line of a reported control packet holds
/// the throttle in force and the text of the gain, the line of a datagram of the wrong size holds
/// its size, and nothing is logged otherwise.
pub proof fn law_receive_logged(start: Flight, received: Option<Seq<u8>>, now: u64, kp: Seq<u8>)
    requires
        received matches Some(bytes) ==> bytes.len() <= usize::MAX,
        decimal(start.after_receive(received, now).setpoint.throttle as nat).len() + kp.len() <= 45,
        zero_free(kp),
    ensures
        ({
            let out = spec_report_record(start.receive_report(received), kp);
            &&& out is None <==> start.receive_report(received) is Quiet
            &&& start.receive_report(received) is Packet ==> packet(out->0) == line_text(
                "UDP OK: THR=".spec_bytes(),
                start.after_receive(received, now).setpoint.throttle as nat,
                " KP=".spec_bytes() + kp + "\r\n".spec_bytes(),
            )
            &&& start.receive_report(received) is WrongSize ==> packet(out->0) == line_text(
                "UDP ERR: SIZE=".spec_bytes(),
                received->0.len(),
                "\r\n".spec_bytes(),
            )
        }),
{
    match start.receive_report(received) {
        LinkReport::Quiet => {},
        LinkReport::Packet { throttle, .. } => {
            law_packet_ok_sent_whole(throttle, kp);
            assert(packet(record(packet_ok_text(throttle, kp))) =~= line_text(
                "UDP OK: THR=".spec_bytes(),
                throttle as nat,
                " KP=".spec_bytes() + kp + "\r\n".spec_bytes(),
            ));
        },
        LinkReport::WrongSize { len } => {
            law_size_error_sent_whole(len);
            assert(size_error_text(len as nat) =~= line_text(
                "UDP ERR: SIZE=".spec_bytes(),
                len as nat,
                "\r\n".spec_bytes(),
            ));
        },
    }
}

/// The record of a report holds the beginning of its line and zeros behind it. The line of a
/// control packet holds the throttle and the text of the gain, whatever their lengths: the end of
/// the line is left out where sixty-four bytes do not hold it, and the gain too where they do not
/// hold that.
pub proof fn law_report_record_holds_line(report: LinkReport, kp: Seq<u8>, whole: Seq<u8>, n: int)
    requires
        report !is Quiet,
        report matches LinkReport::Packet { throttle, .. } ==> whole == line_text(
            "UDP OK: THR=".spec_bytes(),
            throttle as nat,
            " KP=".spec_bytes() + kp + "\r\n".spec_bytes(),
        ),
        report matches LinkReport::WrongSize { len } ==> whole == line_text(
            "UDP ERR: SIZE=".spec_bytes(),
            len as nat,
            "\r\n".spec_bytes(),
        ),
        n == if whole.len() <= 63 {
            whole.len() as int
        } else if whole.len() <= 66 {
            63
        } else {
            whole.len() - 2 - kp.len()
        },
    ensures
        spec_report_record(report, kp) matches Some(bytes) && {
            &&& bytes.len() == 64
            &&& bytes.take(n) == whole.take(n)
            &&& forall|i: int| n <= i < 64 ==> #[trigger] bytes[i] == 0
        },
{
    match report {
        LinkReport::Packet { throttle, .. } => {
            let text = packet_ok_text(throttle, kp);
            assert(whole =~= "UDP OK: THR=".spec_bytes() + decimal(throttle as nat)
                + " KP=".spec_bytes() + kp + "\r\n".spec_bytes());
            law_packet_ok_cut(throttle, kp);
            law_record_layout(text, n);
            assert(text.take(n) =~= whole.take(n));
        },
        LinkReport::WrongSize { len } => {
            let text = size_error_text(len as nat);
            assert(whole =~= text);
            law_size_error_sent_whole(len);
            law_packet_ends_at_zero(record(text));
            law_record_layout(
                text,
                if text.len() < 63 {
                    text.len() as int
                } else {
                    63
                },
            );
            assert(record(text)[63] == 0);
            assert(text.len() == 64 ==> packet(record(text))[63] == record(text)[63]);
        },
        LinkReport::Quiet => {},
    }
}

/// A tick is flown if and only if a control packet came within the last second and the throttle in
/// force is at least forty-eight. It is flown around that throttle, and so far changes nothing.
pub proof fn law_tick_flown(start: Flight, now: u64)
    ensures
        start.tick_action(now) is Fly <==> now - start.last_pkt <= 1000
            && start.setpoint.throttle >= 48,
        start.tick_action(now) matches Tick::Fly { throttle } ==> throttle
            == start.setpoint.throttle && start.after_tick(now) == start,
{
}

/// After a flown tick each axis remembers the integral and the error that were computed for that
/// axis, and nothing that the packets have set has changed.
pub proof fn law_flown_tick_keeps_axes(start: Flight, now: u64, axes: Axes, sums: MotorSums)
    requires
        now - start.last_pkt <= 1000,
        start.setpoint.throttle >= 48,
    ensures
        ({
            let end = start.after_control(now, axes, sums);
            &&& end.axes.pitch == axes.pitch
            &&& end.axes.roll == axes.roll
            &&& end.axes.yaw == axes.yaw
            &&& end.setpoint == start.setpoint
            &&& end.params == start.params
            &&& end.last_pkt == start.last_pkt
            &&& end.rx_count == start.rx_count
            &&& end.last_log == start.last_log
        }),
{
}

/// After a flown tick each motor is given what the mixer adds up for that motor where it lies
/// within the limits of flight, and otherwise the limit that is nearer.
pub proof fn law_flown_tick_drives_motor(
    start: Flight,
    now: u64,
    axes: Axes,
    sums: MotorSums,
    motor: int,
)
    requires
        now - start.last_pkt <= 1000,
        start.setpoint.throttle >= 48,
        1 <= motor <= 4,
    ensures
        ({
            let value = start.after_control(now, axes, sums).motors.of(motor) as int;
            let sum = sums.of(motor) as int;
            &&& 100 <= sum <= 2000 ==> value == sum
            &&& sum < 100 ==> value == 100
            &&& sum > 2000 ==> value == 2000
        }),
{
}

/// Of all values within the limits of flight, a motor is given the one that is nearest to what the
/// mixer adds up.
pub proof fn law_motor_command_nearest(sum: int, value: int)
    requires
        100 <= value <= 2000,
    ensures
        100 <= spec_motor_command(sum) <= 2000,
        distance(spec_motor_command(sum), sum) <= distance(value, sum),
{
}

/// How far apart two numbers are.
pub open spec fn distance(a: int, b: int) -> int {
    if a < b {
        b - a
    } else {
        a - b
    }
}

/// A tick that is not flown gives every motor zero, starts the integral of each axis again from
/// zero and keeps its last error, whatever `axes` and `sums` are. What the packets have set stays.
pub proof fn law_cut_tick(start: Flight, now: u64, axes: Axes, sums: MotorSums, motor: int)
    requires
        now - start.last_pkt > 1000 || start.setpoint.throttle < 48,
        1 <= motor <= 4,
    ensures
        ({
            let end = start.after_control(now, axes, sums);
            &&& end.motors.of(motor) == 0
            &&& end.axes.pitch == (AxisState { integral: 0, ..start.axes.pitch })
            &&& end.axes.roll == (AxisState { integral: 0, ..start.axes.roll })
            &&& end.axes.yaw == (AxisState { integral: 0, ..start.axes.yaw })
            &&& end.setpoint == start.setpoint
            &&& end.params == start.params
            &&& end.last_pkt == start.last_pkt
            &&& end.rx_count == start.rx_count
        }),
{
}

/// The failsafe is reported at a tick if and only if the last control packet and the last report
/// both lie more than a second back. A tick reports nothing else, and the time of a report is
/// remembered.
pub proof fn law_failsafe_reported(start: Flight, now: u64)
    ensures
        ({
            let due = now - start.last_pkt > 1000 && now - start.last_log > 1000;
            &&& start.tick_action(now) matches Tick::Cut { notice } ==> (notice == if due {
                Some(Notice::Failsafe)
            } else {
                None
            })
            &&& due ==> start.tick_action(now) is Cut && start.after_tick(now).last_log == now
            &&& !due ==> start.after_tick(now).last_log == start.last_log
        }),
{
}

/// Before the first control packet no motor turns: every motor is at zero and no tick is flown,
/// whatever else has happened. The failsafe is reported for the first time more than a second after
/// the start.
pub proof fn law_rests_until_packet(events: Seq<Event>, now: u64, motor: int)
    requires
        packet_count(events) == 0,
        1 <= motor <= 4,
    ensures
        ({
            let end = Flight::spec_new().after_all(events);
            &&& end.motors.of(motor) == 0
            &&& end.tick_action(now) is Cut
            &&& end.tick_action(now) == (Tick::Cut { notice: Some(Notice::Failsafe) }) ==> now
                > 1000
            &&& end.setpoint == (Setpoint { throttle: 0, pitch: 0, roll: 0, yaw_rate: 0 })
            &&& end.axes.pitch == end.axes.roll && end.axes.roll == end.axes.yaw
            &&& end.axes.pitch.integral == 0 && end.axes.pitch.previous == 0
            &&& end.rx_count == 0
        }),
    decreases events.len(),
{
    if events.len() > 0 {
        law_rests_until_packet(events.drop_last(), now, motor);
    }
    law_failsafe_timestamp(events);
    lemma_no_packet(events);
}

/// A run without control packets has no latest one.
proof fn lemma_no_packet(events: Seq<Event>)
    requires
        packet_count(events) == 0,
    ensures
        latest_packet(events) == 0,
    decreases events.len(),
{
    if events.len() > 0 {
        lemma_no_packet(events.drop_last());
    }
}

/// Whether the bits are those of the positive single-precision number nearest to `num / den`, where
/// `scale` is two to the power of the places behind the binary point of its significand.
pub open spec fn nearest_single(bits: u32, scale: int, num: int, den: int) -> bool {
    let significand = 0x80_0000 + bits % 0x80_0000;
    &&& 0 < bits / 0x80_0000 <= 150
    &&& scale == pow2((150 - bits / 0x80_0000) as nat)
    &&& 2 * distance(significand * den, num * scale) <= den
}

/// The gains before the first control packet are the single-precision numbers nearest to 1.2, 0.02
/// and 0.05.
pub proof fn law_default_gains()
    ensures
        nearest_single(Flight::spec_new().params.kp, 0x80_0000, 12, 10),
        nearest_single(Flight::spec_new().params.ki, 0x2000_0000, 2, 100),
        nearest_single(Flight::spec_new().params.kd, 0x1000_0000, 5, 100),
{
    lemma2_to64();
}

/// The frame of each motor carries the value of that motor.
pub proof fn law_motor_frames(motors: MotorValues, motor: int)
    requires
        1 <= motor <= 4,
    ensures
        ({
            let frame = motors.spec_frames().of(motor);
            &&& frame / 32 == motors.of(motor) % 2048
            &&& frame / 16 % 2 == 0
            &&& (frame / 4096) ^ (frame / 256 % 16) ^ (frame / 16 % 16) ^ (frame % 16) == 0
        }),
{
    law_frame_layout(motors.of(motor));
}

/// The control loop and the attitude filter run a hundred times a second, the motors are sent their
/// values five hundred times a second, and the motor controllers are armed for four seconds.
pub proof fn law_rates()
    ensures
        CONTROL_PERIOD_MS * 100 == 1000,
        FILTER_PERIOD_MS * 100 == 1000,
        SEND_PERIOD_US * 500 == 1_000_000,
        ARMING_MS == 4 * 1000,
{
}

/// What a motor is given arrives: the pulses on its line make up a frame that the receiver
/// accepts, that asks for no telemetry, and from which it reads the value.
#[verifier::spinoff_prover]
pub proof fn law_motor_value_received(motors: MotorValues, motor: int, idle: bool)
    requires
        1 <= motor <= 4,
        motors.of(motor) < 2048,
    ensures
        ({
            let frame = received_word(waveform(motors.spec_frames()), motor, idle, 16) as u16;
            &&& frame_valid(frame)
            &&& !frame_telemetry(frame)
            &&& frame_throttle(frame) == motors.of(motor)
        }),
{
    law_frames_received(motors.spec_frames(), motor, idle);
    lemma_word_decodes(
        motors.of(motor),
        received_word(waveform(motors.spec_frames()), motor, idle, 16),
    );
}

proof fn lemma_word_decodes(value: u16, word: nat)
    requires
        value < 2048,
        word == frame_word(value),
    ensures
        frame_valid(word as u16),
        !frame_telemetry(word as u16),
        frame_throttle(word as u16) == value,
{
    law_frame_decodes(value);
    assert(word as u16 == frame_word(value));
}

/// Arming sends what motors at rest are sent.
pub proof fn law_arming_sends_rest()
    ensures
        MotorValues::spec_stopped().spec_frames() == arming_word(),
{
    assert(0u16 ^ 0u16 ^ 0u16 == 0u16) by (bit_vector);
}

} // verus!
