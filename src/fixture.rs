//! Decisions of the fixture controller, one poll at a time.
//!
//! The caller reads the run switch and the limit switches every poll
//! interval, hands them to a `Motion` (one travel to a limit) or to a
//! `Calibration` (the self-calibration run at start-up), and sets the motor
//! pins as the returned step says.
use vstd::prelude::*;

verus! {

/// Polls allowed for each travel during calibration (3 s at 10 ms).
pub const CALIBRATION_LIMIT: u64 = 300;

/// Polls the arm moves down to leave the upper limit before seeking it.
pub const UNSEAT_POLLS: u64 = 50;

/// Polls the piston stays extended when the button is pushed.
pub const PRESS_POLLS: u64 = 25;

/// Travel direction of the fixture arm.
#[derive(PartialEq, Eq, Structural, Clone, Copy, Debug)]
pub enum Direction {
    Up,
    Down,
}

/// Why the fixture could not be brought up.
#[derive(PartialEq, Eq, Structural, Clone, Copy, Debug)]
pub enum FixtureInitError {
    /// A pin could not be acquired (often: missing permissions).
    GpioUnavailable,
    /// A travel ran out of polls during self-calibration.
    CalibrationFailed,
}

impl FixtureInitError {
    /// A line for the operator.
    pub fn message(&self) -> (r: &'static str)
        ensures
            r@ == match self {
                FixtureInitError::GpioUnavailable => "GPIO unavailable: run with elevated permissions"@,
                FixtureInitError::CalibrationFailed => "fixture calibration failed: a travel timed out"@,
            },
    {
        match self {
            FixtureInitError::GpioUnavailable => "GPIO unavailable: run with elevated permissions",
            FixtureInitError::CalibrationFailed => "fixture calibration failed: a travel timed out",
        }
    }
}

/// The redundant pair of switches at one end of travel.
#[derive(PartialEq, Eq, Structural, Clone, Copy, Debug)]
pub struct LimitSwitch {
    /// The active-high contact.
    pub active_high: bool,
    /// The normally-closed contact, which reads low once the limit is hit.
    pub normally_closed: bool,
}

pub open spec fn asserted(s: LimitSwitch) -> bool {
    s.active_high && !s.normally_closed
}

impl LimitSwitch {
    /// The limit counts as reached only when both contacts agree.
    pub fn is_asserted(&self) -> (r: bool)
        ensures
            r == asserted(*self),
    {
        self.active_high && !self.normally_closed
    }
}

/// Everything read at one poll.
#[derive(PartialEq, Eq, Structural, Clone, Copy, Debug)]
pub struct Poll {
    /// The run-switch guard: false while the operator holds motion.
    pub motion_allowed: bool,
    pub upper: LimitSwitch,
    pub lower: LimitSwitch,
}

pub open spec fn target_of(d: Direction, p: Poll) -> LimitSwitch {
    match d {
        Direction::Up => p.upper,
        Direction::Down => p.lower,
    }
}

/// What to do with the motor until the next poll.
#[derive(PartialEq, Eq, Structural, Clone, Copy, Debug)]
pub enum MotionStep {
    /// Motor enable low; poll again.
    Hold,
    /// Motor enable high in the motion's direction; poll again.
    Run,
    /// Motor enable low; the travel is over and reached its limit or not.
    Done(bool),
}

#[derive(PartialEq, Eq, Structural, Clone, Copy, Debug)]
pub enum MotionPhase {
    /// Waiting for the guard before the motor is first enabled.
    Starting,
    Moving,
    /// The guard blocked during travel; resumes where it stopped.
    Paused,
    Finished,
}

/// One travel of the arm to a limit, bounded by a number of moving polls.
#[derive(PartialEq, Eq, Structural, Clone, Copy, Debug)]
pub struct Motion {
    pub direction: Direction,
    pub budget: u64,
    /// Polls spent moving so far.
    pub ticks: u64,
    pub phase: MotionPhase,
    pub reached: bool,
}

pub open spec fn fresh_motion(direction: Direction, budget: u64) -> Motion {
    Motion { direction, budget, ticks: 0, phase: MotionPhase::Starting, reached: false }
}

pub open spec fn finished(m: Motion, reached: bool) -> Motion {
    Motion { phase: MotionPhase::Finished, reached, ..m }
}

/// A poll on which motion is allowed and the arm may move: stop at the
/// limit, give up once the budget of moving polls is spent, else move for
/// one more counted poll.
pub open spec fn moving_next(m: Motion, at_target: bool) -> (Motion, MotionStep) {
    if at_target {
        (finished(m, true), MotionStep::Done(true))
    } else if m.ticks >= m.budget {
        (finished(m, false), MotionStep::Done(false))
    } else {
        (
            Motion { phase: MotionPhase::Moving, ticks: (m.ticks + 1) as u64, ..m },
            MotionStep::Run,
        )
    }
}

/// One poll of a travel: the next state and the step to take. Every poll
/// that enables the motor is counted in `ticks`, which never passes the
/// budget.
pub open spec fn motion_next(m: Motion, p: Poll) -> (Motion, MotionStep) {
    let at_target = asserted(target_of(m.direction, p));
    match m.phase {
        MotionPhase::Starting => if at_target {
            (finished(m, true), MotionStep::Done(true))
        } else if !p.motion_allowed {
            (m, MotionStep::Hold)
        } else {
            moving_next(m, at_target)
        },
        MotionPhase::Moving => if !p.motion_allowed {
            (Motion { phase: MotionPhase::Paused, ..m }, MotionStep::Hold)
        } else {
            moving_next(m, at_target)
        },
        MotionPhase::Paused => if !p.motion_allowed {
            (m, MotionStep::Hold)
        } else {
            moving_next(m, at_target)
        },
        MotionPhase::Finished => (m, MotionStep::Done(m.reached)),
    }
}

/// Moving polls allowed once the travel distance is known: 95% of it, so
/// the arm never drives into the physical stop.
pub fn motion_budget(travel_distance: u64) -> (r: u64)
    ensures
        r == travel_distance * 95 / 100,
{
    ((travel_distance as u128 * 95) / 100) as u64
}

impl Motion {
    pub fn new(direction: Direction, budget: u64) -> (r: Motion)
        ensures
            r == fresh_motion(direction, budget),
    {
        Motion { direction, budget, ticks: 0, phase: MotionPhase::Starting, reached: false }
    }

    /// A poll on which the arm may move.
    fn advance(&mut self, at_target: bool) -> (r: MotionStep)
        ensures
            (*final(self), r) == moving_next(*old(self), at_target),
    {
        if at_target {
            self.phase = MotionPhase::Finished;
            self.reached = true;
            MotionStep::Done(true)
        } else if self.ticks >= self.budget {
            self.phase = MotionPhase::Finished;
            self.reached = false;
            MotionStep::Done(false)
        } else {
            self.phase = MotionPhase::Moving;
            self.ticks = self.ticks + 1;
            MotionStep::Run
        }
    }

    /// Takes one poll. The motor is only ever enabled on a poll that found
    /// motion allowed, and each such poll is counted against the budget.
    pub fn step(&mut self, p: Poll) -> (r: MotionStep)
        ensures
            (*final(self), r) == motion_next(*old(self), p),
            r == MotionStep::Run ==> p.motion_allowed && final(self).ticks == old(self).ticks + 1
                && final(self).ticks <= final(self).budget,
            r != MotionStep::Run ==> final(self).ticks == old(self).ticks,
    {
        let target = match self.direction {
            Direction::Up => p.upper,
            Direction::Down => p.lower,
        };
        let at_target = target.is_asserted();
        match self.phase {
            MotionPhase::Starting => {
                if at_target {
                    self.phase = MotionPhase::Finished;
                    self.reached = true;
                    MotionStep::Done(true)
                } else if !p.motion_allowed {
                    MotionStep::Hold
                } else {
                    self.advance(at_target)
                }
            },
            MotionPhase::Moving => {
                if !p.motion_allowed {
                    self.phase = MotionPhase::Paused;
                    MotionStep::Hold
                } else {
                    self.advance(at_target)
                }
            },
            MotionPhase::Paused => {
                if !p.motion_allowed {
                    MotionStep::Hold
                } else {
                    self.advance(at_target)
                }
            },
            MotionPhase::Finished => MotionStep::Done(self.reached),
        }
    }
}

/// A travel that starts with its limit already reached ends at once,
/// successfully, without enabling the motor; and a travel only ever reports
/// success on a poll that found its limit reached. So once a travel to a
/// limit has succeeded, a second one to the same limit (the switches still
/// reading as they did) changes nothing and reports the same.
pub proof fn lemma_goto_limit_idempotent(direction: Direction, budget: u64, m: Motion, p: Poll)
    ensures
        asserted(target_of(direction, p)) ==> motion_next(fresh_motion(direction, budget), p)
            == (finished(fresh_motion(direction, budget), true), MotionStep::Done(true)),
        m.phase != MotionPhase::Finished && motion_next(m, p).1 == MotionStep::Done(true)
            ==> asserted(target_of(m.direction, p)),
{
}

#[derive(PartialEq, Eq, Structural, Clone, Copy, Debug)]
pub enum CalibrationPhase {
    Start,
    /// Moving down briefly to leave an upper limit that already reads home.
    Unseat,
    SeekTop,
    MeasureDown,
    MeasureUp,
    Done,
}

/// What to do with the motor during calibration until the next poll.
#[derive(PartialEq, Eq, Structural, Clone, Copy, Debug)]
pub enum CalibrationStep {
    /// Set the direction, and the motor enable high or low; poll again.
    Drive(Direction, bool),
    /// Calibration is over: the travel distance in polls.
    Calibrated(u64),
    /// A travel ran out of polls.
    Failed,
}

/// Self-calibration: home the arm, then time a full travel down and a full
/// travel up; the travel distance is the shorter of the two.
#[derive(PartialEq, Eq, Structural, Clone, Copy, Debug)]
pub struct Calibration {
    pub phase: CalibrationPhase,
    pub unseat_ticks: u64,
    pub motion: Motion,
    pub down_polls: u64,
    pub travel: u64,
    pub failed: bool,
}

pub open spec fn fresh_calibration() -> Calibration {
    Calibration {
        phase: CalibrationPhase::Start,
        unseat_ticks: 0,
        motion: fresh_motion(Direction::Up, CALIBRATION_LIMIT),
        down_polls: 0,
        travel: 0,
        failed: false,
    }
}

pub open spec fn min_u64(a: u64, b: u64) -> u64 {
    if a <= b {
        a
    } else {
        b
    }
}

/// One poll of calibration while a travel is under way.
pub open spec fn travel_next(c: Calibration, p: Poll) -> (Calibration, CalibrationStep) {
    let (m, s) = motion_next(c.motion, p);
    let d = c.motion.direction;
    match s {
        MotionStep::Hold => (Calibration { motion: m, ..c }, CalibrationStep::Drive(d, false)),
        MotionStep::Run => (Calibration { motion: m, ..c }, CalibrationStep::Drive(d, true)),
        MotionStep::Done(false) => (
            Calibration { phase: CalibrationPhase::Done, motion: m, failed: true, ..c },
            CalibrationStep::Failed,
        ),
        MotionStep::Done(true) => match c.phase {
            CalibrationPhase::SeekTop => (
                Calibration {
                    phase: CalibrationPhase::MeasureDown,
                    motion: fresh_motion(Direction::Down, CALIBRATION_LIMIT),
                    ..c
                },
                CalibrationStep::Drive(Direction::Down, false),
            ),
            CalibrationPhase::MeasureDown => (
                Calibration {
                    phase: CalibrationPhase::MeasureUp,
                    motion: fresh_motion(Direction::Up, CALIBRATION_LIMIT),
                    down_polls: m.ticks,
                    ..c
                },
                CalibrationStep::Drive(Direction::Up, false),
            ),
            _ => (
                Calibration {
                    phase: CalibrationPhase::Done,
                    motion: m,
                    travel: min_u64(c.down_polls, m.ticks),
                    ..c
                },
                CalibrationStep::Calibrated(min_u64(c.down_polls, m.ticks)),
            ),
        },
    }
}

/// One poll of calibration: the next state and the step to take.
pub open spec fn calibration_next(c: Calibration, p: Poll) -> (Calibration, CalibrationStep) {
    match c.phase {
        CalibrationPhase::Start => if p.upper.active_high {
            (
                Calibration { phase: CalibrationPhase::Unseat, unseat_ticks: 0, ..c },
                CalibrationStep::Drive(Direction::Down, false),
            )
        } else {
            (
                Calibration {
                    phase: CalibrationPhase::SeekTop,
                    motion: fresh_motion(Direction::Up, CALIBRATION_LIMIT),
                    ..c
                },
                CalibrationStep::Drive(Direction::Up, false),
            )
        },
        CalibrationPhase::Unseat => if !p.motion_allowed {
            (c, CalibrationStep::Drive(Direction::Down, false))
        } else if c.unseat_ticks >= UNSEAT_POLLS {
            (
                Calibration {
                    phase: CalibrationPhase::SeekTop,
                    motion: fresh_motion(Direction::Up, CALIBRATION_LIMIT),
                    ..c
                },
                CalibrationStep::Drive(Direction::Up, false),
            )
        } else {
            (
                Calibration { unseat_ticks: (c.unseat_ticks + 1) as u64, ..c },
                CalibrationStep::Drive(Direction::Down, true),
            )
        },
        CalibrationPhase::Done => if c.failed {
            (c, CalibrationStep::Failed)
        } else {
            (c, CalibrationStep::Calibrated(c.travel))
        },
        _ => travel_next(c, p),
    }
}

pub open spec fn calibration_wf(c: Calibration) -> bool {
    &&& c.motion.ticks <= CALIBRATION_LIMIT
    &&& c.motion.budget == CALIBRATION_LIMIT
    &&& c.down_polls <= CALIBRATION_LIMIT
    &&& c.travel <= CALIBRATION_LIMIT
    &&& c.unseat_ticks <= UNSEAT_POLLS
}

impl Calibration {
    pub fn new() -> (r: Calibration)
        ensures
            r == fresh_calibration(),
            calibration_wf(r),
    {
        Calibration {
            phase: CalibrationPhase::Start,
            unseat_ticks: 0,
            motion: Motion::new(Direction::Up, CALIBRATION_LIMIT),
            down_polls: 0,
            travel: 0,
            failed: false,
        }
    }

    /// Takes one poll. The motor is only ever enabled on a poll that found
    /// motion allowed, and a learned travel distance never exceeds the
    /// per-travel poll limit.
    pub fn step(&mut self, p: Poll) -> (r: CalibrationStep)
        requires
            calibration_wf(*old(self)),
        ensures
            (*final(self), r) == calibration_next(*old(self), p),
            calibration_wf(*final(self)),
            r matches CalibrationStep::Drive(_, true) ==> p.motion_allowed,
            r matches CalibrationStep::Calibrated(t) ==> t <= CALIBRATION_LIMIT,
    {
        match self.phase {
            CalibrationPhase::Start => {
                if p.upper.active_high {
                    self.phase = CalibrationPhase::Unseat;
                    self.unseat_ticks = 0;
                    CalibrationStep::Drive(Direction::Down, false)
                } else {
                    self.phase = CalibrationPhase::SeekTop;
                    self.motion = Motion::new(Direction::Up, CALIBRATION_LIMIT);
                    CalibrationStep::Drive(Direction::Up, false)
                }
            },
            CalibrationPhase::Unseat => {
                if !p.motion_allowed {
                    CalibrationStep::Drive(Direction::Down, false)
                } else if self.unseat_ticks >= UNSEAT_POLLS {
                    self.phase = CalibrationPhase::SeekTop;
                    self.motion = Motion::new(Direction::Up, CALIBRATION_LIMIT);
                    CalibrationStep::Drive(Direction::Up, false)
                } else {
                    self.unseat_ticks = self.unseat_ticks + 1;
                    CalibrationStep::Drive(Direction::Down, true)
                }
            },
            CalibrationPhase::Done => {
                if self.failed {
                    CalibrationStep::Failed
                } else {
                    CalibrationStep::Calibrated(self.travel)
                }
            },
            _ => {
                let d = self.motion.direction;
                match self.motion.step(p) {
                    MotionStep::Hold => CalibrationStep::Drive(d, false),
                    MotionStep::Run => CalibrationStep::Drive(d, true),
                    MotionStep::Done(false) => {
                        self.phase = CalibrationPhase::Done;
                        self.failed = true;
                        CalibrationStep::Failed
                    },
                    MotionStep::Done(true) => {
                        match self.phase {
                            CalibrationPhase::SeekTop => {
                                self.phase = CalibrationPhase::MeasureDown;
                                self.motion = Motion::new(Direction::Down, CALIBRATION_LIMIT);
                                CalibrationStep::Drive(Direction::Down, false)
                            },
                            CalibrationPhase::MeasureDown => {
                                self.phase = CalibrationPhase::MeasureUp;
                                self.down_polls = self.motion.ticks;
                                self.motion = Motion::new(Direction::Up, CALIBRATION_LIMIT);
                                CalibrationStep::Drive(Direction::Up, false)
                            },
                            _ => {
                                let up = self.motion.ticks;
                                let travel = if self.down_polls <= up {
                                    self.down_polls
                                } else {
                                    up
                                };
                                self.phase = CalibrationPhase::Done;
                                self.travel = travel;
                                CalibrationStep::Calibrated(travel)
                            },
                        }
                    },
                }
            },
        }
    }
}

/// What to do with the piston until the next poll.
#[derive(PartialEq, Eq, Structural, Clone, Copy, Debug)]
pub enum PressStep {
    /// Piston retracted; waiting for the guard.
    Wait,
    /// Piston extended; poll again.
    Extend,
    /// Retract the piston; the press is over.
    Release,
}

/// One push of the device's button: once the guard allows it, the piston
/// stays extended for a fixed number of polls.
#[derive(PartialEq, Eq, Structural, Clone, Copy, Debug)]
pub struct Press {
    pub extended_polls: u64,
}

pub open spec fn press_next(s: Press, motion_allowed: bool) -> (Press, PressStep) {
    if s.extended_polls == 0 && !motion_allowed {
        (s, PressStep::Wait)
    } else if s.extended_polls < PRESS_POLLS {
        (Press { extended_polls: (s.extended_polls + 1) as u64 }, PressStep::Extend)
    } else {
        (s, PressStep::Release)
    }
}

impl Press {
    pub fn new() -> (r: Press)
        ensures
            r.extended_polls == 0,
    {
        Press { extended_polls: 0 }
    }

    /// Takes one poll of the guard. The piston is first extended only on a
    /// poll that found motion allowed.
    pub fn step(&mut self, motion_allowed: bool) -> (r: PressStep)
        requires
            old(self).extended_polls <= PRESS_POLLS,
        ensures
            (*final(self), r) == press_next(*old(self), motion_allowed),
            final(self).extended_polls <= PRESS_POLLS,
            old(self).extended_polls == 0 && r == PressStep::Extend ==> motion_allowed,
    {
        if self.extended_polls == 0 && !motion_allowed {
            PressStep::Wait
        } else if self.extended_polls < PRESS_POLLS {
            self.extended_polls = self.extended_polls + 1;
            PressStep::Extend
        } else {
            PressStep::Release
        }
    }
}

} // verus!
