use disco_tester::run::{
    iterations_from_answer, planned_iterations, Run, RunAction, DEBUG_ITERATIONS,
    DEFAULT_ITERATIONS,
};

fn drive(run: &mut Run, terminate_after: Option<usize>) -> Vec<RunAction> {
    let mut actions = Vec::new();
    loop {
        let terminate = terminate_after.map_or(false, |n| actions.len() >= n);
        let a = run.step(terminate);
        actions.push(a);
        if a == RunAction::Exit {
            return actions;
        }
        assert!(actions.len() < 1000);
    }
}

#[test]
fn iterations_follow_in_order_then_home() {
    let mut run = Run::new(2, true);
    let actions = drive(&mut run, None);
    assert_eq!(
        actions,
        vec![
            RunAction::GotoUp,
            RunAction::GotoDown,
            RunAction::PushButton,
            RunAction::ReadDevices,
            RunAction::Persist,
            RunAction::GotoUp,
            RunAction::GotoDown,
            RunAction::PushButton,
            RunAction::ReadDevices,
            RunAction::Persist,
            RunAction::Home,
            RunAction::Exit,
        ]
    );
    assert_eq!(run.completed, 2);
    assert_eq!(run.step(false), RunAction::Exit);
}

#[test]
fn without_fixture_only_reads() {
    let mut run = Run::new(2, false);
    assert_eq!(
        drive(&mut run, None),
        vec![
            RunAction::ReadDevices,
            RunAction::Persist,
            RunAction::ReadDevices,
            RunAction::Persist,
            RunAction::Exit,
        ]
    );
}

#[test]
fn termination_skips_motion_and_homes() {
    let mut run = Run::new(5, true);
    assert_eq!(
        drive(&mut run, Some(2)),
        vec![RunAction::GotoUp, RunAction::GotoDown, RunAction::Home, RunAction::Exit]
    );
    assert_eq!(run.completed, 0);
    let mut run = Run::new(5, true);
    assert_eq!(
        drive(&mut run, Some(4)),
        vec![
            RunAction::GotoUp,
            RunAction::GotoDown,
            RunAction::PushButton,
            RunAction::ReadDevices,
            RunAction::Persist,
            RunAction::Home,
            RunAction::Exit,
        ]
    );
    assert_eq!(run.completed, 1);
}

#[test]
fn zero_iterations_just_homes() {
    let mut run = Run::new(0, true);
    assert_eq!(drive(&mut run, None), vec![RunAction::Home, RunAction::Exit]);
}

#[test]
fn iteration_count_sources() {
    assert_eq!(planned_iterations(Some(7), true), Some(7));
    assert_eq!(planned_iterations(None, true), Some(DEBUG_ITERATIONS));
    assert_eq!(planned_iterations(None, false), None);
}

#[test]
fn prompt_answers() {
    assert_eq!(iterations_from_answer("25\n"), Some(25));
    assert_eq!(iterations_from_answer("25\r\n"), Some(25));
    assert_eq!(iterations_from_answer("+3\n"), Some(3));
    assert_eq!(iterations_from_answer("0\n"), None);
    assert_eq!(iterations_from_answer("000\n"), None);
    assert_eq!(iterations_from_answer("abc\n"), Some(DEFAULT_ITERATIONS));
    assert_eq!(iterations_from_answer("\n"), Some(DEFAULT_ITERATIONS));
    assert_eq!(iterations_from_answer(" 5\n"), Some(DEFAULT_ITERATIONS));
    assert_eq!(iterations_from_answer("-5\n"), Some(DEFAULT_ITERATIONS));
    assert_eq!(iterations_from_answer("+\n"), Some(DEFAULT_ITERATIONS));
    assert_eq!(iterations_from_answer("18446744073709551615"), Some(u64::MAX));
    assert_eq!(iterations_from_answer("18446744073709551616\n"), Some(DEFAULT_ITERATIONS));
    assert_eq!(iterations_from_answer("99999999999999999999999x"), Some(DEFAULT_ITERATIONS));
    for answer in ["12\n", "+0", "x1", "4294967296\r\n"] {
        let expected = match answer.trim_end_matches('\n').trim_end_matches('\r').parse::<u64>() {
            Err(_) => Some(DEFAULT_ITERATIONS),
            Ok(0) => None,
            Ok(n) => Some(n),
        };
        assert_eq!(iterations_from_answer(answer), expected, "{:?}", answer);
    }
}
