//! Decisions of a test run: the order of the steps of each iteration, and
//! how a termination request ends the run.
//!
//! The caller performs each returned action and calls `step` again with
//! whether termination has been requested since.
use vstd::prelude::*;
use vstd::string::*;

verus! {

/// Iterations of a run started with the verbose flag and no explicit count.
pub const DEBUG_ITERATIONS: u64 = 50_000;

/// Iterations of a run whose prompt answer is not a number.
pub const DEFAULT_ITERATIONS: u64 = 10;

#[derive(PartialEq, Eq, Structural, Clone, Copy, Debug)]
pub enum RunAction {
    GotoUp,
    GotoDown,
    PushButton,
    /// Read every device once and fold the readings into the histograms.
    ReadDevices,
    /// Write the histograms' summary out.
    Persist,
    /// Drive the arm back to the upper limit.
    Home,
    Exit,
}

/// The last action handed out.
#[derive(PartialEq, Eq, Structural, Clone, Copy, Debug)]
pub enum RunStage {
    Ready,
    MovedUp,
    MovedDown,
    Pressed,
    Read,
    Persisted,
    Homed,
    Finished,
}

#[derive(PartialEq, Eq, Structural, Clone, Copy, Debug)]
pub struct Run {
    /// Iterations asked for.
    pub total: u64,
    /// Iterations whose readings were persisted.
    pub completed: u64,
    /// Whether a fixture is attached; without one only readings are taken.
    pub has_fixture: bool,
    pub stage: RunStage,
}

pub open spec fn fresh_run(total: u64, has_fixture: bool) -> Run {
    Run { total, completed: 0, has_fixture, stage: RunStage::Ready }
}

/// At an iteration boundary: stop (homing an attached fixture first) when
/// termination is requested or every iteration is done, else begin the next
/// iteration.
pub open spec fn boundary_next(r: Run, terminate: bool) -> (Run, RunAction) {
    if terminate || r.completed >= r.total {
        if r.has_fixture {
            (Run { stage: RunStage::Homed, ..r }, RunAction::Home)
        } else {
            (Run { stage: RunStage::Finished, ..r }, RunAction::Exit)
        }
    } else if r.has_fixture {
        (Run { stage: RunStage::MovedUp, ..r }, RunAction::GotoUp)
    } else {
        (Run { stage: RunStage::Read, ..r }, RunAction::ReadDevices)
    }
}

/// Between two motions: stop on a termination request, else go on.
pub open spec fn motion_next_action(r: Run, terminate: bool, stage: RunStage, action: RunAction) -> (
    Run,
    RunAction,
) {
    if terminate {
        (Run { stage: RunStage::Homed, ..r }, RunAction::Home)
    } else {
        (Run { stage, ..r }, action)
    }
}

/// One decision of the run: the next state and the action to perform.
pub open spec fn run_next(r: Run, terminate: bool) -> (Run, RunAction) {
    match r.stage {
        RunStage::Ready => boundary_next(r, terminate),
        RunStage::MovedUp => motion_next_action(
            r,
            terminate,
            RunStage::MovedDown,
            RunAction::GotoDown,
        ),
        RunStage::MovedDown => motion_next_action(
            r,
            terminate,
            RunStage::Pressed,
            RunAction::PushButton,
        ),
        RunStage::Pressed => motion_next_action(r, terminate, RunStage::Read, RunAction::ReadDevices),
        RunStage::Read => (
            Run { stage: RunStage::Persisted, completed: (r.completed + 1) as u64, ..r },
            RunAction::Persist,
        ),
        RunStage::Persisted => boundary_next(r, terminate),
        RunStage::Homed => (Run { stage: RunStage::Finished, ..r }, RunAction::Exit),
        RunStage::Finished => (r, RunAction::Exit),
    }
}

pub open spec fn run_wf(r: Run) -> bool {
    &&& r.completed <= r.total
    &&& (r.stage is MovedUp || r.stage is MovedDown || r.stage is Pressed || r.stage is Read)
        ==> r.completed < r.total
}

pub open spec fn is_motion(a: RunAction) -> bool {
    a is GotoUp || a is GotoDown || a is PushButton
}

/// Iterations for a run: an explicit count wins, then the verbose flag's
/// count; otherwise the operator is asked (`None`).
pub fn planned_iterations(cli: Option<u64>, debug: bool) -> (r: Option<u64>)
    ensures
        r == match cli {
            Some(n) => Some(n),
            None => if debug {
                Some(DEBUG_ITERATIONS)
            } else {
                None
            },
        },
{
    match cli {
        Some(n) => Some(n),
        None => if debug {
            Some(DEBUG_ITERATIONS)
        } else {
            None
        },
    }
}

pub open spec fn is_digit(c: char) -> bool {
    0x30 <= c as u32 <= 0x39
}

/// The number a string of decimal digits spells.
pub open spec fn digits_value(s: Seq<char>) -> nat
    decreases s.len(),
{
    if s.len() == 0 {
        0
    } else {
        digits_value(s.drop_last()) * 10 + (s.last() as u32 - 0x30) as nat
    }
}

pub open spec fn all_digits(d: Seq<char>) -> bool {
    forall|i: int| 0 <= i < d.len() ==> is_digit(#[trigger] d[i])
}

/// Digits without the optional leading `+`.
pub open spec fn sign_stripped(s: Seq<char>) -> Seq<char> {
    if s.len() > 0 && s[0] == '+' {
        s.drop_first()
    } else {
        s
    }
}

/// Rust's `u64::from_str`: an optional `+`, then at least one decimal digit,
/// spelling a number that fits.
pub open spec fn parse_u64_spec(s: Seq<char>) -> Option<u64> {
    let d = sign_stripped(s);
    if d.len() > 0 && all_digits(d) && digits_value(d) <= u64::MAX {
        Some(digits_value(d) as u64)
    } else {
        None
    }
}

/// An answer without one trailing line feed and then one carriage return.
pub open spec fn strip_line_end(s: Seq<char>) -> Seq<char> {
    let a = if s.len() > 0 && s.last() == '\n' {
        s.drop_last()
    } else {
        s
    };
    if a.len() > 0 && a.last() == '\r' {
        a.drop_last()
    } else {
        a
    }
}

/// Iterations the operator asked for: `None` for zero (quit), the default
/// for anything that is not a number.
pub open spec fn answer_spec(s: Seq<char>) -> Option<u64> {
    match parse_u64_spec(strip_line_end(s)) {
        None => Some(DEFAULT_ITERATIONS),
        Some(n) => if n == 0 {
            None
        } else {
            Some(n)
        },
    }
}

proof fn lemma_digits_value_prefix(s: Seq<char>, k: int)
    requires
        0 <= k <= s.len(),
        forall|i: int| 0 <= i < s.len() ==> is_digit(#[trigger] s[i]),
    ensures
        digits_value(s.subrange(0, k)) <= digits_value(s),
    decreases s.len(),
{
    if k < s.len() {
        assert(s.drop_last().subrange(0, k) =~= s.subrange(0, k));
        assert forall|i: int| 0 <= i < s.drop_last().len() implies is_digit(
            #[trigger] s.drop_last()[i],
        ) by {
            assert(s.drop_last()[i] == s[i]);
        }
        lemma_digits_value_prefix(s.drop_last(), k);
    } else {
        assert(s.subrange(0, k) =~= s);
    }
}

/// Parses `s[from..to]` as `u64::from_str` would.
fn parse_u64(s: &str, from: usize, to: usize) -> (r: Option<u64>)
    requires
        from <= to <= s@.len(),
    ensures
        r == parse_u64_spec(s@.subrange(from as int, to as int)),
{
    let ghost v = s@.subrange(from as int, to as int);
    let mut start = from;
    if from < to && s.get_char(from) == '+' {
        start = from + 1;
    }
    let ghost d = s@.subrange(start as int, to as int);
    assert(d == sign_stripped(v)) by {
        if v.len() > 0 && v[0] == '+' {
            assert(v.drop_first() =~= d);
        } else {
            assert(v =~= d);
        }
    }
    if start == to {
        return None;
    }
    let mut acc: u128 = 0;
    let mut i = start;
    while i < to
        invariant
            start <= i <= to <= s@.len(),
            v == s@.subrange(from as int, to as int),
            d == s@.subrange(start as int, to as int),
            d == sign_stripped(v),
            acc == digits_value(s@.subrange(start as int, i as int)),
            acc <= u64::MAX,
            forall|j: int| start <= j < i ==> is_digit(#[trigger] s@[j]),
        decreases to - i,
    {
        let c = s.get_char(i);
        if !((c as u32) >= 0x30 && (c as u32) <= 0x39) {
            assert(!is_digit(d[i - start]));
            assert(!all_digits(d));
            return None;
        }
        let ghost p = s@.subrange(start as int, i + 1);
        assert(p.drop_last() =~= s@.subrange(start as int, i as int));
        assert(p.last() == c);
        acc = acc * 10 + (c as u32 - 0x30) as u128;
        if acc > u64::MAX as u128 {
            proof {
                if all_digits(d) {
                    assert(d.subrange(0, i + 1 - start) =~= p);
                    lemma_digits_value_prefix(d, i + 1 - start);
                }
            }
            return None;
        }
        i = i + 1;
    }
    assert(s@.subrange(start as int, i as int) =~= d);
    assert(all_digits(d)) by {
        assert forall|j: int| 0 <= j < d.len() implies is_digit(#[trigger] d[j]) by {
            assert(d[j] == s@[start + j]);
        }
    }
    Some(acc as u64)
}

/// Reads the operator's answer to the iteration prompt: `None` means quit.
pub fn iterations_from_answer(answer: &str) -> (r: Option<u64>)
    ensures
        r == answer_spec(answer@),
{
    let mut end = answer.unicode_len();
    if end > 0 && answer.get_char(end - 1) == '\n' {
        end = end - 1;
    }
    if end > 0 && answer.get_char(end - 1) == '\r' {
        end = end - 1;
    }
    proof {
        let s = answer@;
        let a = if s.len() > 0 && s.last() == '\n' {
            s.drop_last()
        } else {
            s
        };
        assert(a =~= s.subrange(0, a.len() as int));
        assert(strip_line_end(s) =~= s.subrange(0, end as int));
    }
    match parse_u64(answer, 0, end) {
        None => Some(DEFAULT_ITERATIONS),
        Some(n) => if n == 0 {
            None
        } else {
            Some(n)
        },
    }
}

impl Run {
    pub fn new(total: u64, has_fixture: bool) -> (r: Run)
        ensures
            r == fresh_run(total, has_fixture),
            run_wf(r),
    {
        Run { total, completed: 0, has_fixture, stage: RunStage::Ready }
    }

    fn at_boundary(&mut self, terminate: bool) -> (a: RunAction)
        requires
            run_wf(*old(self)),
        ensures
            (*final(self), a) == boundary_next(*old(self), terminate),
    {
        if terminate || self.completed >= self.total {
            if self.has_fixture {
                self.stage = RunStage::Homed;
                RunAction::Home
            } else {
                self.stage = RunStage::Finished;
                RunAction::Exit
            }
        } else if self.has_fixture {
            self.stage = RunStage::MovedUp;
            RunAction::GotoUp
        } else {
            self.stage = RunStage::Read;
            RunAction::ReadDevices
        }
    }

    fn between_motions(&mut self, terminate: bool, stage: RunStage, action: RunAction) -> (a:
        RunAction)
        ensures
            (*final(self), a) == motion_next_action(*old(self), terminate, stage, action),
    {
        if terminate {
            self.stage = RunStage::Homed;
            RunAction::Home
        } else {
            self.stage = stage;
            action
        }
    }

    /// Decides the next action. No motion is started once termination has
    /// been requested, and no more iterations are persisted than asked for.
    pub fn step(&mut self, terminate: bool) -> (a: RunAction)
        requires
            run_wf(*old(self)),
        ensures
            (*final(self), a) == run_next(*old(self), terminate),
            run_wf(*final(self)),
            terminate ==> !is_motion(a),
    {
        match self.stage {
            RunStage::Ready => self.at_boundary(terminate),
            RunStage::MovedUp => self.between_motions(
                terminate,
                RunStage::MovedDown,
                RunAction::GotoDown,
            ),
            RunStage::MovedDown => self.between_motions(
                terminate,
                RunStage::Pressed,
                RunAction::PushButton,
            ),
            RunStage::Pressed => self.between_motions(
                terminate,
                RunStage::Read,
                RunAction::ReadDevices,
            ),
            RunStage::Read => {
                self.stage = RunStage::Persisted;
                self.completed = self.completed + 1;
                RunAction::Persist
            },
            RunStage::Persisted => self.at_boundary(terminate),
            RunStage::Homed => {
                self.stage = RunStage::Finished;
                RunAction::Exit
            },
            RunStage::Finished => RunAction::Exit,
        }
    }
}

/// Once termination is requested the run starts no motion: at most the
/// pending readings are persisted and the arm is homed, and by the third
/// decision the run exits, and stays exited.
pub proof fn lemma_terminate_ends_run(r: Run)
    requires
        run_wf(r),
    ensures
        ({
            let (r1, a1) = run_next(r, true);
            let (r2, a2) = run_next(r1, true);
            let (r3, a3) = run_next(r2, true);
            let (r4, a4) = run_next(r3, true);
            &&& !is_motion(a1) && !is_motion(a2) && !is_motion(a3)
            &&& a3 == RunAction::Exit
            &&& a4 == RunAction::Exit
        }),
{
}

/// A run that is never asked to terminate performs, from its start, the
/// full sequence of an iteration: up, down, press, read, persist.
pub proof fn lemma_iteration_order(total: u64)
    requires
        total > 0,
    ensures
        ({
            let r0 = fresh_run(total, true);
            let (r1, a1) = run_next(r0, false);
            let (r2, a2) = run_next(r1, false);
            let (r3, a3) = run_next(r2, false);
            let (r4, a4) = run_next(r3, false);
            let (r5, a5) = run_next(r4, false);
            &&& a1 == RunAction::GotoUp
            &&& a2 == RunAction::GotoDown
            &&& a3 == RunAction::PushButton
            &&& a4 == RunAction::ReadDevices
            &&& a5 == RunAction::Persist
            &&& r5.completed == 1
        }),
{
}

} // verus!
