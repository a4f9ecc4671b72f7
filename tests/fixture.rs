use disco_tester::fixture::{
    motion_budget, Calibration, CalibrationStep, Direction, LimitSwitch, Motion, MotionStep, Poll,
    Press, PressStep, CALIBRATION_LIMIT, PRESS_POLLS, UNSEAT_POLLS,
};

const OPEN: LimitSwitch = LimitSwitch { active_high: false, normally_closed: true };
const HIT: LimitSwitch = LimitSwitch { active_high: true, normally_closed: false };

fn poll(allowed: bool, upper: LimitSwitch, lower: LimitSwitch) -> Poll {
    Poll { motion_allowed: allowed, upper, lower }
}

#[test]
fn limit_needs_both_contacts() {
    assert!(HIT.is_asserted());
    assert!(!OPEN.is_asserted());
    assert!(!LimitSwitch { active_high: true, normally_closed: true }.is_asserted());
    assert!(!LimitSwitch { active_high: false, normally_closed: false }.is_asserted());
}

#[test]
fn budget_is_ninety_five_percent() {
    assert_eq!(motion_budget(200), 190);
    assert_eq!(motion_budget(199), 189);
    assert_eq!(motion_budget(0), 0);
    assert_eq!(motion_budget(u64::MAX), ((u64::MAX as u128 * 95) / 100) as u64);
}

#[test]
fn already_at_limit_does_nothing() {
    let mut m = Motion::new(Direction::Up, 100);
    assert_eq!(m.step(poll(true, HIT, OPEN)), MotionStep::Done(true));
    assert_eq!(m.ticks, 0);
}

#[test]
fn goto_up_twice_is_idempotent() {
    let mut first = Motion::new(Direction::Up, 100);
    let mut runs = 0;
    let mut result = None;
    for i in 0..200 {
        let upper = if i >= 10 { HIT } else { OPEN };
        match first.step(poll(true, upper, OPEN)) {
            MotionStep::Run => runs += 1,
            MotionStep::Hold => {}
            MotionStep::Done(r) => {
                result = Some(r);
                break;
            }
        }
    }
    assert_eq!(result, Some(true));
    assert!(runs > 0);
    let mut second = Motion::new(Direction::Up, 100);
    assert_eq!(second.step(poll(true, HIT, OPEN)), MotionStep::Done(true));
    assert_eq!(second.ticks, 0);
}

#[test]
fn motion_pauses_and_resumes_under_run_switch() {
    let mut m = Motion::new(Direction::Down, 1000);
    let mut log = Vec::new();
    for tick in 0..200u32 {
        let allowed = !(5..55).contains(&tick);
        let lower = if tick >= 120 { HIT } else { OPEN };
        let step = m.step(poll(allowed, OPEN, lower));
        if step == MotionStep::Run {
            assert!(allowed);
        }
        log.push(step);
        if let MotionStep::Done(_) = step {
            break;
        }
    }
    assert_eq!(log[4], MotionStep::Run);
    assert_eq!(log[5], MotionStep::Hold);
    assert!(log[5..55].iter().all(|s| *s == MotionStep::Hold));
    assert_eq!(log[55], MotionStep::Run);
    assert_eq!(*log.last().unwrap(), MotionStep::Done(true));
    assert_eq!(log.len(), 121);
    assert_eq!(m.ticks, 70);
}

#[test]
fn motion_gives_up_after_budget() {
    let mut m = Motion::new(Direction::Down, 3);
    let steps: Vec<MotionStep> = (0..6).map(|_| m.step(poll(true, OPEN, OPEN))).collect();
    assert_eq!(
        steps,
        vec![
            MotionStep::Run,
            MotionStep::Run,
            MotionStep::Run,
            MotionStep::Done(false),
            MotionStep::Done(false),
            MotionStep::Done(false)
        ]
    );
}

#[test]
fn motion_waits_for_guard_before_starting() {
    let mut m = Motion::new(Direction::Up, 10);
    assert_eq!(m.step(poll(false, OPEN, OPEN)), MotionStep::Hold);
    assert_eq!(m.step(poll(false, OPEN, OPEN)), MotionStep::Hold);
    assert_eq!(m.step(poll(true, OPEN, OPEN)), MotionStep::Run);
}

/// Simulates an arm that needs `down` polls to travel down and `up` to travel up.
fn run_calibration(start_at_top: bool, down: u64, up: u64) -> (CalibrationStep, u64) {
    let mut c = Calibration::new();
    let mut position: i64 = if start_at_top { 0 } else { 10 };
    let bottom = down as i64;
    let mut polls = 0;
    loop {
        polls += 1;
        let upper = if position <= 0 { HIT } else { OPEN };
        let lower = if position >= bottom { HIT } else { OPEN };
        match c.step(poll(true, upper, lower)) {
            CalibrationStep::Drive(Direction::Down, true) => position += 1,
            CalibrationStep::Drive(Direction::Up, true) => {
                position -= (bottom as f64 / up as f64).ceil() as i64
            }
            CalibrationStep::Drive(_, false) => {}
            done => return (done, polls),
        }
        assert!(polls < 10_000);
    }
}

#[test]
fn calibration_learns_shorter_travel() {
    let (result, _) = run_calibration(false, 120, 120);
    assert_eq!(result, CalibrationStep::Calibrated(120));
    let (result, _) = run_calibration(true, 150, 75);
    assert_eq!(result, CalibrationStep::Calibrated(75));
}

#[test]
fn calibration_unseats_from_top() {
    let mut c = Calibration::new();
    let at_top = poll(true, HIT, OPEN);
    assert_eq!(c.step(at_top), CalibrationStep::Drive(Direction::Down, false));
    for _ in 0..UNSEAT_POLLS {
        assert_eq!(c.step(at_top), CalibrationStep::Drive(Direction::Down, true));
    }
    assert_eq!(c.step(at_top), CalibrationStep::Drive(Direction::Up, false));
}

#[test]
fn calibration_times_out() {
    let (result, polls) = run_calibration(false, 1000, 1000);
    assert_eq!(result, CalibrationStep::Failed);
    assert!(polls as u64 > CALIBRATION_LIMIT);
}

#[test]
fn press_waits_then_extends() {
    let mut p = Press::new();
    assert_eq!(p.step(false), PressStep::Wait);
    assert_eq!(p.step(true), PressStep::Extend);
    for _ in 1..PRESS_POLLS {
        assert_eq!(p.step(false), PressStep::Extend);
    }
    assert_eq!(p.step(true), PressStep::Release);
}

#[test]
fn pauses_do_not_extend_the_budget() {
    let mut m = Motion::new(Direction::Down, 1);
    let mut runs = 0;
    let mut result = None;
    for tick in 0..20u32 {
        let allowed = tick % 2 == 0;
        match m.step(poll(allowed, OPEN, OPEN)) {
            MotionStep::Run => runs += 1,
            MotionStep::Hold => {}
            MotionStep::Done(r) => {
                result = Some(r);
                break;
            }
        }
    }
    assert_eq!(runs, 1);
    assert_eq!(result, Some(false));
}

#[test]
fn resume_at_limit_stops_without_running() {
    let mut m = Motion::new(Direction::Down, 10);
    assert_eq!(m.step(poll(true, OPEN, OPEN)), MotionStep::Run);
    assert_eq!(m.step(poll(false, OPEN, OPEN)), MotionStep::Hold);
    assert_eq!(m.step(poll(true, OPEN, HIT)), MotionStep::Done(true));
    assert_eq!(m.ticks, 1);
}
