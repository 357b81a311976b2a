//! The inertial sensor, an MPU-6050: what is asked of it and in what order, from power-up through
//! calibration to the readings in flight.
use crate::bytes::{i16_be, pattern16, signed16};
use crate::protocol::unsigned16;
use crate::telemetry::Notice;
use vstd::prelude::*;

verus! {

/// The address of the sensor on the bus.
pub const MPU_ADDR: u8 = 0x68;

/// The register that controls the power state.
pub const REG_PWR_MGMT_1: u8 = 0x6B;

/// The first register of the acceleration.
pub const REG_ACCEL_XOUT_H: u8 = 0x3B;

/// The first register of the rotation rate.
pub const REG_GYRO_XOUT_H: u8 = 0x43;

/// The register that identifies the sensor.
pub const REG_WHO_AM_I: u8 = 0x75;

/// What the sensor identifies itself with.
pub const WHO_AM_I: u8 = 0x68;

/// How many readings the calibration takes.
pub const CALIB_SAMPLES: usize = 200;

/// How long the sensor settles after it was woken, in milliseconds.
pub const SETTLE_MS: u64 = 100;

/// The pause after each reading of the calibration, in milliseconds.
pub const CALIB_PAUSE_MS: u64 = 10;

/// The time between two ticks of the attitude filter, in milliseconds.
pub const FILTER_PERIOD_MS: u64 = 10;

/// How long the task sleeps at a time when there is no sensor, in milliseconds.
pub const ABSENT_SLEEP_MS: u64 = 1000;

/// A reading of three axes, in counts.
#[derive(Clone, Copy, Debug, PartialEq, Eq, Structural)]
pub struct Counts {
    pub x: i16,
    pub y: i16,
    pub z: i16,
}

/// The reading that six registers hold, each axis with its high byte first.
pub open spec fn counts_of(raw: Seq<u8>) -> Counts {
    Counts {
        x: signed16(pattern16(raw[0], raw[1])) as i16,
        y: signed16(pattern16(raw[2], raw[3])) as i16,
        z: signed16(pattern16(raw[4], raw[5])) as i16,
    }
}

/// Reads three axes from six registers.
pub fn decode_counts(raw: &[u8; 6]) -> (counts: Counts)
    ensures
        counts == counts_of(raw@),
{
    Counts {
        x: i16_be(raw[0], raw[1]),
        y: i16_be(raw[2], raw[3]),
        z: i16_be(raw[4], raw[5]),
    }
}

/// The six registers that hold a reading: each axis in two's complement, its high byte first.
pub open spec fn registers_of(counts: Counts) -> Seq<u8> {
    seq![
        (unsigned16(counts.x as int) / 256) as u8,
        (unsigned16(counts.x as int) % 256) as u8,
        (unsigned16(counts.y as int) / 256) as u8,
        (unsigned16(counts.y as int) % 256) as u8,
        (unsigned16(counts.z as int) / 256) as u8,
        (unsigned16(counts.z as int) % 256) as u8,
    ]
}

/// Every reading is read back from the registers that hold it, whatever the signs of its axes.
pub proof fn law_counts_roundtrip(counts: Counts)
    ensures
        counts_of(registers_of(counts)) == counts,
{
}

/// No two settings of the six registers give the same reading.
pub proof fn law_counts_unambiguous(raw: Seq<u8>)
    requires
        raw.len() == 6,
    ensures
        registers_of(counts_of(raw)) == raw,
{
    assert(registers_of(counts_of(raw)) =~= raw);
}

/// The first two registers are those of the x axis, the next two those of y, the last two those of
/// z: each axis differs from the number in its registers by a multiple of two to the sixteenth.
pub proof fn law_counts_layout(raw: Seq<u8>)
    requires
        raw.len() == 6,
    ensures
        (counts_of(raw).x - 256 * raw[0] - raw[1]) % 0x1_0000 == 0,
        (counts_of(raw).y - 256 * raw[2] - raw[3]) % 0x1_0000 == 0,
        (counts_of(raw).z - 256 * raw[4] - raw[5]) % 0x1_0000 == 0,
{
}

/// Where the work with the sensor stands: what the task waits for next.
#[derive(Clone, Copy, Debug, PartialEq, Eq, Structural)]
pub enum ImuState {
    /// The identity of the sensor.
    Probing,
    /// Nothing: there is no sensor.
    Absent,
    /// The end of the write that wakes the sensor.
    Waking,
    /// The end of the time in which the sensor settles.
    Settling,
    /// The acceleration of a calibration reading, after `done` readings.
    CalibAccel { done: usize },
    /// The rotation rate of the same reading.
    CalibGyro { done: usize, accel: Counts },
    /// The end of the pause after a calibration reading, `done` readings having been taken.
    CalibPause { done: usize },
    /// The next tick.
    Waiting,
    /// The acceleration of a reading in flight.
    Accel,
    /// The rotation rate of the same reading.
    Gyro { accel: Counts },
}

/// What the task does next.
#[derive(Clone, Copy, Debug, PartialEq, Eq, Structural)]
pub enum ImuRequest {
    /// Read one register.
    ReadByte { address: u8, register: u8 },
    /// Write one register.
    Write { address: u8, register: u8, value: u8 },
    /// Read six registers from this one on.
    ReadBlock { address: u8, register: u8 },
    /// Sleep for this many milliseconds.
    Sleep { ms: u64 },
    /// Wait for the next tick of the attitude filter.
    NextTick,
}

/// What came back.
#[derive(Clone, Copy, Debug, PartialEq, Eq)]
pub enum ImuReply {
    /// The register that was read.
    Byte(u8),
    /// The six registers that were read.
    Block([u8; 6]),
    /// The write, the sleep or the wait has ended.
    Done,
}

/// What follows from what came back.
#[derive(Clone, Copy, Debug, PartialEq, Eq, Structural)]
pub enum ImuEffect {
    /// Nothing yet.
    Nothing,
    /// This line is logged.
    Log(Notice),
    /// A calibration reading is added to the sums.
    AddBias { accel: Counts, gyro: Counts },
    /// The biases are computed from the sums, the end of the calibration is logged, and the ticks
    /// of the attitude filter begin.
    Calibrated,
    /// The attitude filter takes in a reading.
    Sample { accel: Counts, gyro: Counts },
}

impl ImuEffect {
    /// The line that is logged, if any.
    pub open spec fn spec_notice(self) -> Option<Notice> {
        match self {
            ImuEffect::Log(notice) => Some(notice),
            ImuEffect::Calibrated => Some(Notice::Calibrated),
            _ => None,
        }
    }

    /// The line that is logged, if any.
    pub fn notice(&self) -> (notice: Option<Notice>)
        ensures
            notice == self.spec_notice(),
    {
        match self {
            ImuEffect::Log(notice) => Some(*notice),
            ImuEffect::Calibrated => Some(Notice::Calibrated),
            _ => None,
        }
    }
}

/// A line that is to be logged is logged as it is.
pub proof fn law_log_names_notice(notice: Notice)
    ensures
        ImuEffect::Log(notice).spec_notice() == Some(notice),
{
}

/// A reading that is taken in is not logged.
pub proof fn law_readings_not_logged(accel: Counts, gyro: Counts)
    ensures
        (ImuEffect::AddBias { accel, gyro }).spec_notice() is None,
        (ImuEffect::Sample { accel, gyro }).spec_notice() is None,
        ImuEffect::Nothing.spec_notice() is None,
{
}

impl ImuState {
    /// The calibration count is within its limits.
    pub open spec fn well_formed(self) -> bool {
        match self {
            ImuState::CalibAccel { done } => done < CALIB_SAMPLES,
            ImuState::CalibGyro { done, .. } => done < CALIB_SAMPLES,
            ImuState::CalibPause { done } => 0 < done <= CALIB_SAMPLES,
            _ => true,
        }
    }

    /// What the task does in this state.
    pub open spec fn spec_request(self) -> ImuRequest {
        match self {
            ImuState::Probing => ImuRequest::ReadByte {
                address: MPU_ADDR,
                register: REG_WHO_AM_I,
            },
            ImuState::Absent => ImuRequest::Sleep { ms: ABSENT_SLEEP_MS },
            ImuState::Waking => ImuRequest::Write {
                address: MPU_ADDR,
                register: REG_PWR_MGMT_1,
                value: 0,
            },
            ImuState::Settling => ImuRequest::Sleep { ms: SETTLE_MS },
            ImuState::CalibAccel { .. } | ImuState::Accel => ImuRequest::ReadBlock {
                address: MPU_ADDR,
                register: REG_ACCEL_XOUT_H,
            },
            ImuState::CalibGyro { .. } | ImuState::Gyro { .. } => ImuRequest::ReadBlock {
                address: MPU_ADDR,
                register: REG_GYRO_XOUT_H,
            },
            ImuState::CalibPause { .. } => ImuRequest::Sleep { ms: CALIB_PAUSE_MS },
            ImuState::Waiting => ImuRequest::NextTick,
        }
    }

    /// What the task does in this state.
    pub fn request(&self) -> (request: ImuRequest)
        ensures
            request == self.spec_request(),
    {
        match self {
            ImuState::Probing => ImuRequest::ReadByte {
                address: MPU_ADDR,
                register: REG_WHO_AM_I,
            },
            ImuState::Absent => ImuRequest::Sleep { ms: ABSENT_SLEEP_MS },
            ImuState::Waking => ImuRequest::Write {
                address: MPU_ADDR,
                register: REG_PWR_MGMT_1,
                value: 0,
            },
            ImuState::Settling => ImuRequest::Sleep { ms: SETTLE_MS },
            ImuState::CalibAccel { .. } | ImuState::Accel => ImuRequest::ReadBlock {
                address: MPU_ADDR,
                register: REG_ACCEL_XOUT_H,
            },
            ImuState::CalibGyro { .. } | ImuState::Gyro { .. } => ImuRequest::ReadBlock {
                address: MPU_ADDR,
                register: REG_GYRO_XOUT_H,
            },
            ImuState::CalibPause { .. } => ImuRequest::Sleep { ms: CALIB_PAUSE_MS },
            ImuState::Waiting => ImuRequest::NextTick,
        }
    }

    /// Whether a reply is of the kind that the request of this state asks for.
    pub open spec fn answered_by(self, reply: ImuReply) -> bool {
        match self.spec_request() {
            ImuRequest::ReadByte { .. } => reply is Byte,
            ImuRequest::ReadBlock { .. } => reply is Block,
            _ => reply is Done,
        }
    }

    /// The state after a reply.
    pub open spec fn next(self, reply: ImuReply) -> ImuState {
        match self {
            ImuState::Probing => if reply == ImuReply::Byte(WHO_AM_I) {
                ImuState::Waking
            } else {
                ImuState::Absent
            },
            ImuState::Absent => ImuState::Absent,
            ImuState::Waking => ImuState::Settling,
            ImuState::Settling => ImuState::CalibAccel { done: 0 },
            ImuState::CalibAccel { done } => ImuState::CalibGyro {
                done,
                accel: counts_of(reply->Block_0@),
            },
            ImuState::CalibGyro { done, .. } => ImuState::CalibPause { done: (done + 1) as usize },
            ImuState::CalibPause { done } => if done < CALIB_SAMPLES {
                ImuState::CalibAccel { done }
            } else {
                ImuState::Waiting
            },
            ImuState::Waiting => ImuState::Accel,
            ImuState::Accel => ImuState::Gyro { accel: counts_of(reply->Block_0@) },
            ImuState::Gyro { .. } => ImuState::Waiting,
        }
    }

    /// What follows from a reply.
    pub open spec fn effect(self, reply: ImuReply) -> ImuEffect {
        match self {
            ImuState::Probing => if reply == ImuReply::Byte(WHO_AM_I) {
                ImuEffect::Nothing
            } else {
                ImuEffect::Log(Notice::ImuNotFound)
            },
            ImuState::Settling => ImuEffect::Log(Notice::Calibrating),
            ImuState::CalibGyro { accel, .. } => ImuEffect::AddBias {
                accel,
                gyro: counts_of(reply->Block_0@),
            },
            ImuState::CalibPause { done } => if done < CALIB_SAMPLES {
                ImuEffect::Nothing
            } else {
                ImuEffect::Calibrated
            },
            ImuState::Gyro { accel } => ImuEffect::Sample {
                accel,
                gyro: counts_of(reply->Block_0@),
            },
            _ => ImuEffect::Nothing,
        }
    }

    /// Takes in the reply to the request of this state, moves on, and says what follows.
    pub fn advance(&mut self, reply: &ImuReply) -> (effect: ImuEffect)
        requires
            old(self).well_formed(),
            old(self).answered_by(*reply),
        ensures
            *final(self) == old(self).next(*reply),
            effect == old(self).effect(*reply),
            final(self).well_formed(),
    {
        match (*self, reply) {
            (ImuState::Probing, ImuReply::Byte(who)) => {
                if *who == WHO_AM_I {
                    *self = ImuState::Waking;
                    ImuEffect::Nothing
                } else {
                    *self = ImuState::Absent;
                    ImuEffect::Log(Notice::ImuNotFound)
                }
            },
            (ImuState::Waking, _) => {
                *self = ImuState::Settling;
                ImuEffect::Nothing
            },
            (ImuState::Settling, _) => {
                *self = ImuState::CalibAccel { done: 0 };
                ImuEffect::Log(Notice::Calibrating)
            },
            (ImuState::CalibAccel { done }, ImuReply::Block(raw)) => {
                *self = ImuState::CalibGyro { done, accel: decode_counts(raw) };
                ImuEffect::Nothing
            },
            (ImuState::CalibGyro { done, accel }, ImuReply::Block(raw)) => {
                *self = ImuState::CalibPause { done: done + 1 };
                ImuEffect::AddBias { accel, gyro: decode_counts(raw) }
            },
            (ImuState::CalibPause { done }, _) => {
                if done < CALIB_SAMPLES {
                    *self = ImuState::CalibAccel { done };
                    ImuEffect::Nothing
                } else {
                    *self = ImuState::Waiting;
                    ImuEffect::Calibrated
                }
            },
            (ImuState::Waiting, _) => {
                *self = ImuState::Accel;
                ImuEffect::Nothing
            },
            (ImuState::Accel, ImuReply::Block(raw)) => {
                *self = ImuState::Gyro { accel: decode_counts(raw) };
                ImuEffect::Nothing
            },
            (ImuState::Gyro { accel }, ImuReply::Block(raw)) => {
                *self = ImuState::Waiting;
                ImuEffect::Sample { accel, gyro: decode_counts(raw) }
            },
            _ => ImuEffect::Nothing,
        }
    }
}

/// The state that a run of replies leads to.
pub open spec fn state_after(start: ImuState, replies: Seq<ImuReply>) -> ImuState
    decreases replies.len(),
{
    if replies.len() == 0 {
        start
    } else {
        state_after(start, replies.drop_last()).next(replies.last())
    }
}

/// What follows from each reply of a run.
pub open spec fn effects_of(start: ImuState, replies: Seq<ImuReply>) -> Seq<ImuEffect>
    decreases replies.len(),
{
    if replies.len() == 0 {
        Seq::empty()
    } else {
        effects_of(start, replies.drop_last()).push(
            state_after(start, replies.drop_last()).effect(replies.last()),
        )
    }
}

/// Whether each reply of a run answers the request that was made.
pub open spec fn answered(start: ImuState, replies: Seq<ImuReply>) -> bool
    decreases replies.len(),
{
    replies.len() > 0 ==> {
        &&& answered(start, replies.drop_last())
        &&& state_after(start, replies.drop_last()).answered_by(replies.last())
    }
}

/// How many calibration readings were added to the sums.
pub open spec fn bias_count(effects: Seq<ImuEffect>) -> nat
    decreases effects.len(),
{
    if effects.len() == 0 {
        0
    } else {
        bias_count(effects.drop_last()) + if effects.last() is AddBias {
            1nat
        } else {
            0nat
        }
    }
}

impl ImuState {
    /// Whether the calibration lies behind.
    pub open spec fn calibrated(self) -> bool {
        self is Waiting || self is Accel || self is Gyro
    }

    /// How many calibration readings have been taken.
    pub open spec fn readings(self) -> nat {
        match self {
            ImuState::CalibAccel { done } => done as nat,
            ImuState::CalibGyro { done, .. } => done as nat,
            ImuState::CalibPause { done } => done as nat,
            _ => if self.calibrated() {
                CALIB_SAMPLES as nat
            } else {
                0
            },
        }
    }
}

/// At every moment the sums hold as many readings as the state says. So when the calibration has
/// ended they hold all of them, and none is added later.
pub proof fn law_calibration_count(replies: Seq<ImuReply>)
    requires
        answered(ImuState::Probing, replies),
    ensures
        state_after(ImuState::Probing, replies).well_formed(),
        bias_count(effects_of(ImuState::Probing, replies)) == state_after(
            ImuState::Probing,
            replies,
        ).readings(),
    decreases replies.len(),
{
    if replies.len() > 0 {
        law_calibration_count(replies.drop_last());
        let before = effects_of(ImuState::Probing, replies.drop_last());
        assert(effects_of(ImuState::Probing, replies).drop_last() =~= before);
    }
}

/// The attitude filter takes in no reading before the calibration has ended.
pub proof fn law_no_sample_before_calibration(replies: Seq<ImuReply>, j: int)
    requires
        answered(ImuState::Probing, replies),
        0 <= j < effects_of(ImuState::Probing, replies).len(),
        effects_of(ImuState::Probing, replies)[j] is Sample,
    ensures
        exists|i: int|
            0 <= i < j && #[trigger] effects_of(ImuState::Probing, replies)[i] is Calibrated,
{
    let start = ImuState::Probing;
    lemma_effect_at(start, replies, j);
    lemma_answered_prefix(start, replies, j);
    lemma_calibrated_since(replies.take(j));
    lemma_effects_prefix(start, replies, j);
    let i = choose|i: int|
        0 <= i < j && #[trigger] effects_of(start, replies.take(j))[i] is Calibrated;
    assert(effects_of(start, replies)[i] is Calibrated);
}

/// Once the calibration lies behind, its end has been seen.
proof fn lemma_calibrated_since(replies: Seq<ImuReply>)
    requires
        answered(ImuState::Probing, replies),
        state_after(ImuState::Probing, replies).calibrated(),
    ensures
        effects_of(ImuState::Probing, replies).len() == replies.len(),
        exists|i: int|
            0 <= i < replies.len() && #[trigger] effects_of(ImuState::Probing, replies)[i]
                is Calibrated,
    decreases replies.len(),
{
    let start = ImuState::Probing;
    lemma_effects_len(start, replies);
    if replies.len() > 0 {
        let rest = replies.drop_last();
        lemma_effects_len(start, rest);
        if state_after(start, rest).calibrated() {
            lemma_calibrated_since(rest);
            let i = choose|i: int|
                0 <= i < rest.len() && #[trigger] effects_of(start, rest)[i] is Calibrated;
            assert(effects_of(start, replies)[i] is Calibrated);
        } else {
            assert(effects_of(start, replies)[rest.len() as int] is Calibrated);
        }
    }
}

proof fn lemma_effects_len(start: ImuState, replies: Seq<ImuReply>)
    ensures
        effects_of(start, replies).len() == replies.len(),
    decreases replies.len(),
{
    if replies.len() > 0 {
        lemma_effects_len(start, replies.drop_last());
    }
}

/// The effect of a reply depends on the replies before it.
proof fn lemma_effect_at(start: ImuState, replies: Seq<ImuReply>, j: int)
    requires
        0 <= j < effects_of(start, replies).len(),
    ensures
        effects_of(start, replies).len() == replies.len(),
        effects_of(start, replies)[j] == state_after(start, replies.take(j)).effect(replies[j]),
    decreases replies.len(),
{
    lemma_effects_len(start, replies);
    let rest = replies.drop_last();
    lemma_effects_len(start, rest);
    if j < rest.len() {
        lemma_effect_at(start, rest, j);
        assert(rest.take(j) =~= replies.take(j));
    } else {
        assert(replies.take(j) =~= rest);
    }
}

/// The effects of the first replies are the first effects.
proof fn lemma_effects_prefix(start: ImuState, replies: Seq<ImuReply>, j: int)
    requires
        0 <= j <= replies.len(),
    ensures
        effects_of(start, replies.take(j)) == effects_of(start, replies).take(j),
    decreases replies.len(),
{
    lemma_effects_len(start, replies);
    if j < replies.len() {
        let rest = replies.drop_last();
        lemma_effects_len(start, rest);
        lemma_effects_prefix(start, rest, j);
        assert(rest.take(j) =~= replies.take(j));
        assert(effects_of(start, replies).take(j) =~= effects_of(start, rest).take(j));
    } else {
        assert(replies.take(j) =~= replies);
        assert(effects_of(start, replies).take(j) =~= effects_of(start, replies));
    }
}

/// The first replies of an answered run make an answered run.
proof fn lemma_answered_prefix(start: ImuState, replies: Seq<ImuReply>, j: int)
    requires
        answered(start, replies),
        0 <= j <= replies.len(),
    ensures
        answered(start, replies.take(j)),
    decreases replies.len(),
{
    if j < replies.len() {
        let rest = replies.drop_last();
        lemma_answered_prefix(start, rest, j);
        assert(rest.take(j) =~= replies.take(j));
    } else {
        assert(replies.take(j) =~= replies);
    }
}

/// Where the sensor does not identify itself, that is logged once and nothing more follows,
/// however long the task runs.
pub proof fn law_absent_stays_absent(replies: Seq<ImuReply>)
    requires
        replies.len() > 0,
        replies[0] != ImuReply::Byte(WHO_AM_I),
    ensures
        state_after(ImuState::Probing, replies) == ImuState::Absent,
        effects_of(ImuState::Probing, replies).len() == replies.len(),
        effects_of(ImuState::Probing, replies)[0] == ImuEffect::Log(Notice::ImuNotFound),
        forall|j: int|
            0 < j < replies.len() ==> #[trigger] effects_of(ImuState::Probing, replies)[j]
                == ImuEffect::Nothing,
    decreases replies.len(),
{
    let rest = replies.drop_last();
    lemma_effects_len(ImuState::Probing, replies);
    lemma_effects_len(ImuState::Probing, rest);
    if rest.len() > 0 {
        law_absent_stays_absent(rest);
    } else {
        assert(state_after(ImuState::Probing, rest) == ImuState::Probing);
    }
}

/// Where the work stands after `n` replies, the first three of which identified, woke and settled
/// the sensor: three replies go to each calibration reading, then three to each reading in
/// flight. The acceleration last read is `accel`.
pub open spec fn schedule(n: int, accel: Counts) -> ImuState {
    let turn = n / 3 - 1;
    let phase = n % 3;
    if turn < CALIB_SAMPLES {
        if phase == 0 {
            ImuState::CalibAccel { done: turn as usize }
        } else if phase == 1 {
            ImuState::CalibGyro { done: turn as usize, accel }
        } else {
            ImuState::CalibPause { done: (turn + 1) as usize }
        }
    } else {
        if phase == 0 {
            ImuState::Waiting
        } else if phase == 1 {
            ImuState::Accel
        } else {
            ImuState::Gyro { accel }
        }
    }
}

/// With a sensor that identifies itself, the work follows the schedule for as long as it runs.
pub proof fn law_schedule(replies: Seq<ImuReply>)
    requires
        answered(ImuState::Probing, replies),
        replies.len() >= 3,
        replies[0] == ImuReply::Byte(WHO_AM_I),
    ensures
        state_after(ImuState::Probing, replies) == schedule(
            replies.len() as int,
            counts_of(replies.last()->Block_0@),
        ),
    decreases replies.len(),
{
    let rest = replies.drop_last();
    if rest.len() >= 3 {
        law_schedule(rest);
    } else {
        let first = rest.drop_last();
        assert(first.drop_last().len() == 0);
        assert(state_after(ImuState::Probing, first.drop_last()) == ImuState::Probing);
        assert(state_after(ImuState::Probing, first) == ImuState::Waking);
        assert(state_after(ImuState::Probing, rest) == ImuState::Settling);
    }
}

/// The effect of reply `j` is the one that the schedule gives.
proof fn lemma_scheduled_effect(replies: Seq<ImuReply>, j: int)
    requires
        answered(ImuState::Probing, replies),
        replies[0] == ImuReply::Byte(WHO_AM_I),
        3 <= j < replies.len(),
    ensures
        effects_of(ImuState::Probing, replies).len() == replies.len(),
        effects_of(ImuState::Probing, replies)[j] == schedule(
            j,
            counts_of(replies[j - 1]->Block_0@),
        ).effect(replies[j]),
{
    lemma_effects_len(ImuState::Probing, replies);
    lemma_effect_at(ImuState::Probing, replies, j);
    lemma_answered_prefix(ImuState::Probing, replies, j);
    law_schedule(replies.take(j));
    assert(replies.take(j).last() == replies[j - 1]);
}

/// With a sensor that identifies itself, exactly two lines are ever logged: that the calibration
/// begins, when the sensor has settled, and that it is complete, after its last pause.
pub proof fn law_calibration_logged(replies: Seq<ImuReply>, j: int)
    requires
        answered(ImuState::Probing, replies),
        replies[0] == ImuReply::Byte(WHO_AM_I),
        0 <= j < replies.len(),
    ensures
        effects_of(ImuState::Probing, replies)[j].spec_notice() == if j == 2 {
            Some(Notice::Calibrating)
        } else if j == 3 * CALIB_SAMPLES + 2 {
            Some(Notice::Calibrated)
        } else {
            None
        },
{
    let start = ImuState::Probing;
    if j >= 3 {
        lemma_scheduled_effect(replies, j);
    } else {
        lemma_effects_len(start, replies);
        lemma_effect_at(start, replies, j);
        let before = replies.take(j);
        assert(before.len() == j);
        if j >= 1 {
            assert(before.drop_last() =~= replies.take(j - 1));
            assert(before.last() == replies[j - 1]);
        }
        assert(replies.take(0).len() == 0);
        assert(state_after(start, replies.take(0)) == start);
        if j == 2 {
            let first = replies.take(1);
            assert(first.drop_last() =~= replies.take(0));
            assert(first.last() == replies[0]);
            assert(state_after(start, first) == ImuState::Waking);
        }
    }
}

/// What is asked of the bus and the clock, request by request, of a sensor that identifies itself:
/// its identity, a write that wakes it, a tenth of a second of sleep; then two hundred times the
/// acceleration, the rotation rate and a hundredth of a second of sleep; then, without end, the
/// next tick, the acceleration and the rotation rate.
pub proof fn law_requests(replies: Seq<ImuReply>)
    requires
        answered(ImuState::Probing, replies),
        replies.len() > 0 ==> replies[0] == ImuReply::Byte(0x68),
    ensures
        ({
            let n = replies.len();
            let read = |register: u8| ImuRequest::ReadBlock { address: 0x68, register };
            state_after(ImuState::Probing, replies).spec_request() == if n == 0 {
                ImuRequest::ReadByte { address: 0x68, register: 0x75 }
            } else if n == 1 {
                ImuRequest::Write { address: 0x68, register: 0x6b, value: 0 }
            } else if n == 2 {
                ImuRequest::Sleep { ms: 100 }
            } else if n < 603 {
                if n % 3 == 0 {
                    read(0x3b)
                } else if n % 3 == 1 {
                    read(0x43)
                } else {
                    ImuRequest::Sleep { ms: 10 }
                }
            } else {
                if n % 3 == 0 {
                    ImuRequest::NextTick
                } else if n % 3 == 1 {
                    read(0x3b)
                } else {
                    read(0x43)
                }
            }
        }),
{
    if replies.len() >= 3 {
        law_schedule(replies);
    } else if replies.len() > 0 {
        let first = replies.take(1);
        assert(first.drop_last().len() == 0);
        assert(state_after(ImuState::Probing, first.drop_last()) == ImuState::Probing);
        assert(first.last() == replies[0]);
        assert(state_after(ImuState::Probing, first) == ImuState::Waking);
        if replies.len() == 1 {
            assert(first =~= replies);
        } else {
            assert(first =~= replies.drop_last());
        }
    }
}

/// Without a sensor that identifies itself, the task sleeps for a second at a time, and the one
/// line that is logged says that there is none.
pub proof fn law_absent_sleeps(replies: Seq<ImuReply>, j: int)
    requires
        0 <= j < replies.len(),
        replies[0] != ImuReply::Byte(0x68),
    ensures
        state_after(ImuState::Probing, replies).spec_request() == (ImuRequest::Sleep { ms: 1000 }),
        effects_of(ImuState::Probing, replies)[j].spec_notice() == if j == 0 {
            Some(Notice::ImuNotFound)
        } else {
            None
        },
{
    law_absent_stays_absent(replies);
}

/// What follows from each reply of a sensor that identifies itself. Only a rotation rate completes
/// a reading: the first two hundred go to the calibration, all later ones to the attitude filter.
/// The calibration ends with the pause after its last reading. Nothing else follows but the line
/// that says that it begins.
pub proof fn law_effects(replies: Seq<ImuReply>, j: int)
    requires
        answered(ImuState::Probing, replies),
        replies[0] == ImuReply::Byte(0x68),
        0 <= j < replies.len(),
    ensures
        ({
            let effect = effects_of(ImuState::Probing, replies)[j];
            &&& effect is AddBias <==> 4 <= j < 603 && j % 3 == 1
            &&& effect is Sample <==> j >= 605 && j % 3 == 2
            &&& effect is Calibrated <==> j == 602
            &&& effect is Log <==> j == 2
        }),
{
    law_calibration_logged(replies, j);
    if j >= 3 {
        lemma_scheduled_effect(replies, j);
    } else {
        lemma_effects_len(ImuState::Probing, replies);
        lemma_effect_at(ImuState::Probing, replies, j);
        let before = replies.take(j);
        if j >= 1 {
            assert(before.drop_last() =~= replies.take(j - 1));
            assert(before.last() == replies[j - 1]);
        }
        assert(state_after(ImuState::Probing, replies.take(0)) == ImuState::Probing);
        if j == 2 {
            let first = replies.take(1);
            assert(first.drop_last() =~= replies.take(0));
            assert(first.last() == replies[0]);
        }
    }
}

/// The values of a calibration reading and of a reading in flight are those that the registers held
/// when they were read, the acceleration from its registers and the rotation rate from its own.
pub proof fn law_readings_true(replies: Seq<ImuReply>, j: int, accel: Counts, gyro: Counts)
    requires
        answered(ImuState::Probing, replies),
        replies[0] == ImuReply::Byte(0x68),
        4 <= j < replies.len(),
        effects_of(ImuState::Probing, replies)[j] is AddBias || effects_of(
            ImuState::Probing,
            replies,
        )[j] is Sample,
        replies[j - 1]->Block_0@ == registers_of(accel),
        replies[j]->Block_0@ == registers_of(gyro),
    ensures
        state_after(ImuState::Probing, replies.take(j - 1)).spec_request() == (
        ImuRequest::ReadBlock { address: 0x68, register: 0x3b }),
        state_after(ImuState::Probing, replies.take(j)).spec_request() == (ImuRequest::ReadBlock {
            address: 0x68,
            register: 0x43,
        }),
        effects_of(ImuState::Probing, replies)[j] == (ImuEffect::AddBias { accel, gyro })
            || effects_of(ImuState::Probing, replies)[j] == (ImuEffect::Sample { accel, gyro }),
{
    law_effects(replies, j);
    lemma_scheduled_effect(replies, j);
    lemma_answered_prefix(ImuState::Probing, replies, j);
    lemma_answered_prefix(ImuState::Probing, replies, j - 1);
    law_requests(replies.take(j));
    law_requests(replies.take(j - 1));
    law_counts_roundtrip(accel);
    law_counts_roundtrip(gyro);
}

/// Each calibration reading adds to the sums the acceleration and the rotation rate that were
/// read for it, and the end of the calibration follows the last of them.
pub proof fn law_calibration_readings(replies: Seq<ImuReply>, k: int)
    requires
        answered(ImuState::Probing, replies),
        replies[0] == ImuReply::Byte(WHO_AM_I),
        replies.len() >= 3 + 3 * CALIB_SAMPLES,
        0 <= k < CALIB_SAMPLES,
    ensures
        effects_of(ImuState::Probing, replies)[3 * k + 4] == (ImuEffect::AddBias {
            accel: counts_of(replies[3 * k + 3]->Block_0@),
            gyro: counts_of(replies[3 * k + 4]->Block_0@),
        }),
        effects_of(ImuState::Probing, replies)[3 * CALIB_SAMPLES + 2] == ImuEffect::Calibrated,
{
    lemma_scheduled_effect(replies, 3 * k + 4);
    lemma_scheduled_effect(replies, 3 * CALIB_SAMPLES + 2);
}

/// After the calibration, each tick makes the attitude filter take in the acceleration and the
/// rotation rate that were read at it.
pub proof fn law_flight_readings(replies: Seq<ImuReply>, k: int)
    requires
        answered(ImuState::Probing, replies),
        replies[0] == ImuReply::Byte(WHO_AM_I),
        k >= CALIB_SAMPLES,
        3 * k + 5 < replies.len(),
    ensures
        effects_of(ImuState::Probing, replies)[3 * k + 5] == (ImuEffect::Sample {
            accel: counts_of(replies[3 * k + 4]->Block_0@),
            gyro: counts_of(replies[3 * k + 5]->Block_0@),
        }),
{
    lemma_scheduled_effect(replies, 3 * k + 5);
}

} // verus!
