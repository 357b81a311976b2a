//! The flight state: what the last control packet said, when it came, what the motors are given,
//! and the rules that keep the motors still when they must not turn.
use crate::dshot::{dshot_frame, frame_word, Frames};
use crate::protocol::{decode, parse_packet, PidParams, Setpoint, DSHOT_MAX, PACKET_LEN};
use crate::telemetry::{
    packet_ok_record, packet_ok_text, record, size_error_record, size_error_text, Notice,
};
use vstd::prelude::*;
use vstd::string::StringSliceAdditionalSpecFns;

verus! {

/// The time between two ticks of the control loop, in milliseconds.
pub const CONTROL_PERIOD_MS: u64 = 10;

/// How old the last control packet may be, in milliseconds, before the motors are cut.
pub const FAILSAFE_MS: u64 = 1000;

/// How far apart, in milliseconds, two reports of the failsafe are at least.
pub const FAILSAFE_LOG_MS: u64 = 1000;

/// The lowest throttle that is flown; DShot keeps the values below it for commands.
pub const THROTTLE_MIN: u16 = 48;

/// The lowest value that a motor is given in flight.
pub const MOTOR_MIN: u16 = 100;

/// One control packet in this many is reported.
pub const REPORT_EVERY: i32 = 25;

/// The proportional gain before the first packet: 1.2 in single precision.
pub const KP_DEFAULT: u32 = 0x3f99_999a;

/// The integral gain before the first packet: 0.02 in single precision.
pub const KI_DEFAULT: u32 = 0x3ca3_d70a;

/// The derivative gain before the first packet: 0.05 in single precision.
pub const KD_DEFAULT: u32 = 0x3d4c_cccd;

/// The throttle values of the four motors.
#[derive(Clone, Copy, Debug, PartialEq, Eq, Structural)]
pub struct MotorValues {
    pub m1: u16,
    pub m2: u16,
    pub m3: u16,
    pub m4: u16,
}

impl MotorValues {
    /// All motors at rest.
    pub open spec fn spec_stopped() -> MotorValues {
        MotorValues { m1: 0, m2: 0, m3: 0, m4: 0 }
    }

    /// The value of motor `motor`, counted from one.
    pub open spec fn of(self, motor: int) -> u16 {
        if motor == 1 {
            self.m1
        } else if motor == 2 {
            self.m2
        } else if motor == 3 {
            self.m3
        } else {
            self.m4
        }
    }

    /// Whether every motor turns within its limits.
    pub open spec fn flying(self) -> bool {
        &&& MOTOR_MIN <= self.m1 <= DSHOT_MAX
        &&& MOTOR_MIN <= self.m2 <= DSHOT_MAX
        &&& MOTOR_MIN <= self.m3 <= DSHOT_MAX
        &&& MOTOR_MIN <= self.m4 <= DSHOT_MAX
    }

    /// All motors at rest.
    pub fn stopped() -> (motors: MotorValues)
        ensures
            motors == MotorValues::spec_stopped(),
    {
        MotorValues { m1: 0, m2: 0, m3: 0, m4: 0 }
    }

    /// The DShot frames that carry the values.
    pub open spec fn spec_frames(self) -> Frames {
        Frames {
            m1: frame_word(self.m1),
            m2: frame_word(self.m2),
            m3: frame_word(self.m3),
            m4: frame_word(self.m4),
        }
    }

    /// The DShot frames that carry the values.
    pub fn frames(&self) -> (frames: Frames)
        ensures
            frames == self.spec_frames(),
    {
        Frames {
            m1: dshot_frame(self.m1),
            m2: dshot_frame(self.m2),
            m3: dshot_frame(self.m3),
            m4: dshot_frame(self.m4),
        }
    }
}

/// What the PID terms of one axis remember, each as the bit pattern of a single-precision number.
#[derive(Clone, Copy, Debug, PartialEq, Eq, Structural)]
pub struct AxisState {
    /// The error summed up over time.
    pub integral: u32,
    /// The error of the last tick that was flown.
    pub previous: u32,
}

impl AxisState {
    /// The axis with its sum back at zero.
    pub open spec fn spec_released(self) -> AxisState {
        AxisState { integral: 0, previous: self.previous }
    }

    /// The axis with its sum back at zero.
    fn released(self) -> (axis: AxisState)
        ensures
            axis == self.spec_released(),
    {
        AxisState { integral: 0, previous: self.previous }
    }
}

/// What the PID terms of all axes remember.
#[derive(Clone, Copy, Debug, PartialEq, Eq, Structural)]
pub struct Axes {
    pub pitch: AxisState,
    pub roll: AxisState,
    pub yaw: AxisState,
}

impl Axes {
    /// The axes with their sums back at zero.
    pub open spec fn spec_released(self) -> Axes {
        Axes {
            pitch: self.pitch.spec_released(),
            roll: self.roll.spec_released(),
            yaw: self.yaw.spec_released(),
        }
    }

    /// The axes with their sums back at zero.
    fn released(self) -> (axes: Axes)
        ensures
            axes == self.spec_released(),
    {
        Axes {
            pitch: self.pitch.released(),
            roll: self.roll.released(),
            yaw: self.yaw.released(),
        }
    }
}

/// What the mixer adds up for each motor, cut to a whole number towards zero.
#[derive(Clone, Copy, Debug, PartialEq, Eq, Structural)]
pub struct MotorSums {
    pub m1: i32,
    pub m2: i32,
    pub m3: i32,
    pub m4: i32,
}

impl MotorSums {
    /// The sum of motor `motor`, counted from one.
    pub open spec fn of(self, motor: int) -> i32 {
        if motor == 1 {
            self.m1
        } else if motor == 2 {
            self.m2
        } else if motor == 3 {
            self.m3
        } else {
            self.m4
        }
    }
}

/// What is to be logged of a datagram.
#[derive(Clone, Copy, Debug, PartialEq, Eq, Structural)]
pub enum LinkReport {
    /// Nothing.
    Quiet,
    /// A control packet with this throttle and this proportional gain.
    Packet { throttle: u16, kp: u32 },
    /// A datagram of the wrong size.
    WrongSize { len: usize },
}

/// The log record of a report, or `None` where nothing is logged. `kp` is the text of the
/// proportional gain that the report names.
pub open spec fn spec_report_record(report: LinkReport, kp: Seq<u8>) -> Option<Seq<u8>> {
    match report {
        LinkReport::Quiet => None,
        LinkReport::Packet { throttle, .. } => Some(record(packet_ok_text(throttle, kp))),
        LinkReport::WrongSize { len } => Some(record(size_error_text(len as nat))),
    }
}

/// The log record of a report, or `None` where nothing is logged. `kp` is the text of the
/// proportional gain that the report names.
pub fn report_record(report: LinkReport, kp: &str) -> (msg: Option<[u8; 64]>)
    ensures
        match spec_report_record(report, kp.spec_bytes()) {
            Some(bytes) => msg matches Some(m) && m@ == bytes,
            None => msg is None,
        },
        match report {
            LinkReport::Quiet => msg is None,
            LinkReport::Packet { throttle, .. } => msg matches Some(m) && m@ == record(
                packet_ok_text(throttle, kp.spec_bytes()),
            ),
            LinkReport::WrongSize { len } => msg matches Some(m) && m@ == record(
                size_error_text(len as nat),
            ),
        },
{
    match report {
        LinkReport::Quiet => None,
        LinkReport::Packet { throttle, .. } => Some(packet_ok_record(throttle, kp)),
        LinkReport::WrongSize { len } => Some(size_error_record(len)),
    }
}

/// What is to be done at a tick of the control loop.
#[derive(Clone, Copy, Debug, PartialEq, Eq, Structural)]
pub enum Tick {
    /// The motors stand still; the notice, if any, is to be logged.
    Cut { notice: Option<Notice> },
    /// The PID terms are to be computed around this throttle.
    Fly { throttle: u16 },
}

/// All that the tasks share, and what the control loop remembers from tick to tick.
#[derive(Clone, Copy, Debug, PartialEq, Eq, Structural)]
pub struct Flight {
    /// What the pilot wants.
    pub setpoint: Setpoint,
    /// The gains that are in use.
    pub params: PidParams,
    /// When the last control packet came, in milliseconds since the start.
    pub last_pkt: u64,
    /// How many control packets have come.
    pub rx_count: i32,
    /// What the motors are given.
    pub motors: MotorValues,
    /// What the PID terms remember.
    pub axes: Axes,
    /// When the failsafe was last reported, in milliseconds since the start.
    pub last_log: u64,
}

/// The value that a motor is given in flight for what the mixer adds up: the nearest one within
/// the limits of flight.
pub open spec fn spec_motor_command(sum: int) -> int {
    if sum < MOTOR_MIN {
        MOTOR_MIN as int
    } else if sum > DSHOT_MAX {
        DSHOT_MAX as int
    } else {
        sum
    }
}

/// The value that a motor is given in flight for what the mixer adds up.
pub fn motor_command(sum: i32) -> (value: u16)
    ensures
        value as int == spec_motor_command(sum as int),
{
    let clamped: u16 = if sum < 0 {
        0
    } else if sum > DSHOT_MAX as i32 {
        DSHOT_MAX
    } else {
        sum as u16
    };
    if clamped < MOTOR_MIN {
        MOTOR_MIN
    } else {
        clamped
    }
}

impl Flight {
    /// What every state has in common: the throttle is within its limit, no packet count is
    /// negative, and the motors either all stand still or all turn within their limits.
    pub open spec fn well_formed(self) -> bool {
        &&& self.setpoint.throttle <= DSHOT_MAX
        &&& self.rx_count >= 0
        &&& self.motors == MotorValues::spec_stopped() || self.motors.flying()
    }

    /// The state before anything has happened.
    pub open spec fn spec_new() -> Flight {
        Flight {
            setpoint: Setpoint { throttle: 0, pitch: 0, roll: 0, yaw_rate: 0 },
            params: PidParams { kp: KP_DEFAULT, ki: KI_DEFAULT, kd: KD_DEFAULT },
            last_pkt: 0,
            rx_count: 0,
            motors: MotorValues::spec_stopped(),
            axes: Axes {
                pitch: AxisState { integral: 0, previous: 0 },
                roll: AxisState { integral: 0, previous: 0 },
                yaw: AxisState { integral: 0, previous: 0 },
            },
            last_log: 0,
        }
    }

    /// The state before anything has happened.
    pub fn new() -> (flight: Flight)
        ensures
            flight == Flight::spec_new(),
            flight.well_formed(),
    {
        let axis = AxisState { integral: 0, previous: 0 };
        Flight {
            setpoint: Setpoint { throttle: 0, pitch: 0, roll: 0, yaw_rate: 0 },
            params: PidParams { kp: KP_DEFAULT, ki: KI_DEFAULT, kd: KD_DEFAULT },
            last_pkt: 0,
            rx_count: 0,
            motors: MotorValues::stopped(),
            axes: Axes { pitch: axis, roll: axis, yaw: axis },
            last_log: 0,
        }
    }

    /// The state after a datagram: a control packet replaces the setpoint and the gains and is
    /// remembered as the last one; anything else changes nothing.
    pub open spec fn after_datagram(self, datagram: Seq<u8>, now: u64) -> Flight {
        if datagram.len() == PACKET_LEN {
            Flight {
                setpoint: decode(datagram).setpoint,
                params: decode(datagram).params,
                last_pkt: now,
                rx_count: (self.rx_count + 1) as i32,
                ..self
            }
        } else {
            self
        }
    }

    /// What is logged of a datagram: each one of the wrong size, and every so many control
    /// packets.
    pub open spec fn datagram_report(self, datagram: Seq<u8>) -> LinkReport {
        if datagram.len() != PACKET_LEN {
            LinkReport::WrongSize { len: datagram.len() as usize }
        } else if (self.rx_count + 1) % REPORT_EVERY as int == 0 {
            LinkReport::Packet {
                throttle: decode(datagram).setpoint.throttle,
                kp: decode(datagram).params.kp,
            }
        } else {
            LinkReport::Quiet
        }
    }

    /// Takes in a datagram that came at `now`, and says what to log of it. The packet count must
    /// have room for one more.
    pub fn on_datagram(&mut self, datagram: &[u8], now: u64) -> (report: LinkReport)
        requires
            old(self).well_formed(),
            datagram@.len() == PACKET_LEN ==> old(self).rx_count < i32::MAX,
        ensures
            *final(self) == old(self).after_datagram(datagram@, now),
            report == old(self).datagram_report(datagram@),
            final(self).well_formed(),
    {
        match parse_packet(datagram) {
            Some(packet) => {
                self.setpoint = packet.setpoint;
                self.params = packet.params;
                self.last_pkt = now;
                self.rx_count = self.rx_count + 1;
                if self.rx_count % REPORT_EVERY == 0 {
                    LinkReport::Packet { throttle: packet.setpoint.throttle, kp: packet.params.kp }
                } else {
                    LinkReport::Quiet
                }
            },
            None => LinkReport::WrongSize { len: datagram.len() },
        }
    }

    /// The state after a receive, which gave a datagram or failed.
    pub open spec fn after_receive(self, received: Option<Seq<u8>>, now: u64) -> Flight {
        match received {
            Some(datagram) => self.after_datagram(datagram, now),
            None => self,
        }
    }

    /// What is logged of a receive.
    pub open spec fn receive_report(self, received: Option<Seq<u8>>) -> LinkReport {
        match received {
            Some(datagram) => self.datagram_report(datagram),
            None => LinkReport::Quiet,
        }
    }

    /// Takes in what a receive gave at `now`: a datagram, or `None` where the receive failed, which
    /// changes nothing and is not logged. The packet count must have room for one more.
    pub fn on_receive(&mut self, received: Option<&[u8]>, now: u64) -> (report: LinkReport)
        requires
            old(self).well_formed(),
            received matches Some(d) ==> d@.len() == PACKET_LEN ==> old(self).rx_count < i32::MAX,
        ensures
            match received {
                Some(d) => *final(self) == old(self).after_datagram(d@, now) && report == old(
                    self,
                ).datagram_report(d@),
                None => *final(self) == *old(self) && report == LinkReport::Quiet,
            },
            *final(self) == old(self).after_receive(
                match received {
                    Some(d) => Some(d@),
                    None => None,
                },
                now,
            ),
            report == old(self).receive_report(
                match received {
                    Some(d) => Some(d@),
                    None => None,
                },
            ),
            final(self).well_formed(),
    {
        match received {
            Some(datagram) => self.on_datagram(datagram, now),
            None => LinkReport::Quiet,
        }
    }

    /// Whether control packets have stopped coming.
    pub open spec fn link_lost(self, now: u64) -> bool {
        now - self.last_pkt > FAILSAFE_MS
    }

    /// Whether the motors must stand still at `now`.
    pub open spec fn must_cut(self, now: u64) -> bool {
        self.link_lost(now) || self.setpoint.throttle < THROTTLE_MIN
    }

    /// Whether the failsafe is reported at `now`.
    pub open spec fn reports_failsafe(self, now: u64) -> bool {
        self.link_lost(now) && now - self.last_log > FAILSAFE_LOG_MS
    }

    /// What is to be done at a tick.
    pub open spec fn tick_action(self, now: u64) -> Tick {
        if self.must_cut(now) {
            Tick::Cut {
                notice: if self.reports_failsafe(now) {
                    Some(Notice::Failsafe)
                } else {
                    None
                },
            }
        } else {
            Tick::Fly { throttle: self.setpoint.throttle }
        }
    }

    /// The state after a tick: where the motors must stand still, they do, and the sums of the
    /// PID terms start again from zero. Nothing else changes but the time of a report.
    pub open spec fn after_tick(self, now: u64) -> Flight {
        if self.must_cut(now) {
            Flight {
                motors: MotorValues::spec_stopped(),
                axes: self.axes.spec_released(),
                last_log: if self.reports_failsafe(now) {
                    now
                } else {
                    self.last_log
                },
                ..self
            }
        } else {
            self
        }
    }

    /// Begins a tick of the control loop at `now`: cuts the motors, or says what throttle to fly
    /// around.
    pub fn tick(&mut self, now: u64) -> (action: Tick)
        requires
            old(self).well_formed(),
        ensures
            *final(self) == old(self).after_tick(now),
            action == old(self).tick_action(now),
            final(self).well_formed(),
    {
        let mut notice: Option<Notice> = None;
        let throttle: u16 = if now.saturating_sub(self.last_pkt) > FAILSAFE_MS {
            if now.saturating_sub(self.last_log) > FAILSAFE_LOG_MS {
                notice = Some(Notice::Failsafe);
                self.last_log = now;
            }
            0
        } else if self.setpoint.throttle < THROTTLE_MIN {
            0
        } else {
            self.setpoint.throttle
        };
        if throttle == 0 {
            self.motors = MotorValues::stopped();
            self.axes = self.axes.released();
            return Tick::Cut { notice };
        }
        Tick::Fly { throttle }
    }

    /// The state after the PID terms of a tick have been computed.
    pub open spec fn after_drive(self, axes: Axes, sums: MotorSums) -> Flight {
        Flight {
            axes,
            motors: MotorValues {
                m1: spec_motor_command(sums.m1 as int) as u16,
                m2: spec_motor_command(sums.m2 as int) as u16,
                m3: spec_motor_command(sums.m3 as int) as u16,
                m4: spec_motor_command(sums.m4 as int) as u16,
            },
            ..self
        }
    }

    /// Ends a tick that is flown: takes over what the PID terms remember and gives the motors what
    /// the mixer adds up, within their limits.
    pub fn drive(&mut self, axes: Axes, sums: MotorSums)
        requires
            old(self).well_formed(),
        ensures
            *final(self) == old(self).after_drive(axes, sums),
            final(self).well_formed(),
    {
        self.axes = axes;
        self.motors = MotorValues {
            m1: motor_command(sums.m1),
            m2: motor_command(sums.m2),
            m3: motor_command(sums.m3),
            m4: motor_command(sums.m4),
        };
    }
}

} // verus!
