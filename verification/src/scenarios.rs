use vstd::prelude::*;

use crate::logger::{hears_at_or_above, hears_event, select_receivers, Dispatch, LogEvent, Logger};

verus! {

/// Verbosity levels for scenario execution, ordered NoOutput < Summary < Full.
#[derive(Clone, Copy, Debug, PartialEq, Eq, PartialOrd, Ord)]
pub enum Verbosity {
    /// No output
    NoOutput,
    /// Print final stats for each variant, but not iterations
    Summary,
    /// Print everything including iterations
    Full,
}

/// The strings joined, with `sep` between each two of them.
pub open spec fn joined(parts: Seq<Seq<char>>, sep: Seq<char>) -> Seq<char>
    decreases parts.len(),
{
    if parts.len() == 0 {
        Seq::empty()
    } else if parts.len() == 1 {
        parts[0]
    } else {
        joined(parts.drop_last(), sep) + sep + parts.last()
    }
}

/// The outcome of a scenario's validation checks: the messages of the checks
/// that failed, in the order they were made.
pub struct ValidationReport {
    errors: Vec<String>,
}

impl View for ValidationReport {
    type V = Seq<Seq<char>>;

    /// The messages of the failed checks.
    closed spec fn view(&self) -> Seq<Seq<char>> {
        self.errors@.map_values(|e: String| e@)
    }
}

impl ValidationReport {
    /// A report with no check made yet.
    pub fn new() -> (r: Self)
        ensures
            r@ == Seq::<Seq<char>>::empty(),
    {
        let r = ValidationReport { errors: Vec::new() };
        assert(r@ =~= Seq::<Seq<char>>::empty());
        r
    }

    /// Record a check of the scenario. A passed check is logged as "✓ <message>" to
    /// the Scenario event; a failed one is kept in the report and logged as an ERROR
    /// line to the Scenario event and the events above it.
    pub fn check(&mut self, logger: &Logger, passed: bool, message: &str) -> (d: Dispatch)
        ensures
            passed ==> final(self)@ == old(self)@,
            !passed ==> final(self)@ == old(self)@.push(message@),
            passed ==> d.receivers@ == select_receivers(logger@, hears_event(LogEvent::Scenario)),
            passed ==> d.text@ == "✓ "@ + message@ + "\n"@,
            !passed ==> d.receivers@ == select_receivers(logger@, hears_at_or_above(LogEvent::Scenario)),
            !passed ==> d.text@ == "ERROR"@ + " "@ + message@ + "\n"@,
    {
        if passed {
            let line = String::from_str("✓ ").concat(message);
            let d = logger.logln(LogEvent::Scenario, line.as_str());
            assert(d.text@ =~= "✓ "@ + message@ + "\n"@);
            d
        } else {
            let ghost before = self@;
            self.errors.push(String::from_str(message));
            assert(self@ =~= before.push(message@));
            logger.errln(LogEvent::Scenario, message)
        }
    }

    /// Record a check as `check` does, but mark a failed check's ERROR line with a
    /// cross: "ERROR ✗ <message>". The report keeps the message itself.
    pub fn check_marked(&mut self, logger: &Logger, passed: bool, message: &str) -> (d: Dispatch)
        ensures
            passed ==> final(self)@ == old(self)@,
            !passed ==> final(self)@ == old(self)@.push(message@),
            passed ==> d.receivers@ == select_receivers(logger@, hears_event(LogEvent::Scenario)),
            passed ==> d.text@ == "✓ "@ + message@ + "\n"@,
            !passed ==> d.receivers@ == select_receivers(logger@, hears_at_or_above(LogEvent::Scenario)),
            !passed ==> d.text@ == "ERROR"@ + " "@ + "✗ "@ + message@ + "\n"@,
    {
        if passed {
            self.check(logger, passed, message)
        } else {
            let ghost before = self@;
            self.errors.push(String::from_str(message));
            assert(self@ =~= before.push(message@));
            let line = String::from_str("✗ ").concat(message);
            let d = logger.errln(LogEvent::Scenario, line.as_str());
            assert(d.text@ =~= "ERROR"@ + " "@ + "✗ "@ + message@ + "\n"@);
            d
        }
    }

    /// Whether every check so far passed.
    pub fn all_passed(&self) -> (b: bool)
        ensures
            b == (self@.len() == 0),
    {
        self.errors.len() == 0
    }

    /// The scenario's result: `Ok` when every check passed, else an error whose text
    /// is "Scenario '<name>' validation failed:" and the failed checks' messages,
    /// one per line.
    pub fn into_result(self, scenario_name: &str) -> (r: Result<(), String>)
        ensures
            self@.len() == 0 ==> r is Ok,
            self@.len() > 0 ==> r is Err && r->Err_0@ == "Scenario '"@ + scenario_name@
                + "' validation failed:\n"@ + joined(self@, "\n"@),
    {
        if self.errors.len() == 0 {
            return Ok(());
        }
        let ghost parts = self@;
        let mut text = String::from_str("Scenario '");
        text.append(scenario_name);
        text.append("' validation failed:\n");
        let ghost head = text@;
        let n = self.errors.len();
        let mut i: usize = 0;
        while i < n
            invariant
                n == self.errors@.len(),
                parts == self@,
                i <= n,
                text@ == head + joined(parts.take(i as int), "\n"@),
            decreases n - i,
        {
            assert(parts.take(i + 1).drop_last() =~= parts.take(i as int));
            assert(parts.take(i + 1).last() == self.errors@[i as int]@);
            if i > 0 {
                text.append("\n");
            } else {
                assert(joined(parts.take(0), "\n"@) =~= Seq::<char>::empty());
            }
            text.append(self.errors[i].as_str());
            proof {
                if i == 0 {
                    assert(joined(parts.take(1), "\n"@) == parts.take(1)[0]);
                }
            }
            assert(text@ =~= head + joined(parts.take(i + 1), "\n"@));
            i = i + 1;
        }
        assert(parts.take(n as int) =~= parts);
        Err(text)
    }
}

/// The catalog indices of the scenarios to run: every scenario for "all", else the
/// first scenario of that name; `None` when no scenario has that name.
pub open spec fn selected_scenarios(catalog: Seq<Seq<char>>, scenario_arg: Seq<char>) -> Option<Seq<usize>> {
    if scenario_arg == "all"@ {
        Some(Seq::new(catalog.len(), |i: int| i as usize))
    } else if exists|i: int| 0 <= i < catalog.len() && catalog[i] == scenario_arg {
        let i = choose|i: int| 0 <= i < catalog.len() && catalog[i] == scenario_arg
            && forall|j: int| 0 <= j < i ==> catalog[j] != scenario_arg;
        Some(seq![i as usize])
    } else {
        None
    }
}

/// Pick the scenarios of the catalog (given by their short names) to run.
pub fn select_scenarios(catalog: &Vec<String>, scenario_arg: &str) -> (r: Option<Vec<usize>>)
    ensures
        r matches Some(v) ==> selected_scenarios(catalog@.map_values(|s: String| s@), scenario_arg@) == Some(v@),
        r is None ==> selected_scenarios(catalog@.map_values(|s: String| s@), scenario_arg@) is None,
{
    let ghost names = catalog@.map_values(|s: String| s@);
    let arg = String::from_str(scenario_arg);
    let all = String::from_str("all");
    let n = catalog.len();
    if arg == all {
        let mut v: Vec<usize> = Vec::new();
        let mut i: usize = 0;
        while i < n
            invariant
                n == catalog@.len(),
                i <= n,
                v@ == Seq::new(i as nat, |k: int| k as usize),
            decreases n - i,
        {
            v.push(i);
            assert(v@ =~= Seq::new((i + 1) as nat, |k: int| k as usize));
            i = i + 1;
        }
        return Some(v);
    }
    assert(scenario_arg@ != "all"@);
    let mut i: usize = 0;
    while i < n
        invariant
            n == catalog@.len(),
            names == catalog@.map_values(|s: String| s@),
            arg@ == scenario_arg@,
            scenario_arg@ != "all"@,
            i <= n,
            forall|j: int| 0 <= j < i ==> names[j] != scenario_arg@,
        decreases n - i,
    {
        if catalog[i] == arg {
            let v = vec![i];
            proof {
                assert(scenario_arg@ != "all"@);
                assert(names[i as int] == scenario_arg@);
                assert(forall|j: int| 0 <= j < i as int ==> names[j] != scenario_arg@);
                let k = choose|k: int| 0 <= k < names.len() && names[k] == scenario_arg@
                    && forall|j: int| 0 <= j < k ==> names[j] != scenario_arg@;
                if k < i {
                    assert(names[k] != scenario_arg@);
                } else if k > i {
                    assert(names[i as int] != scenario_arg@);
                }
                assert(k == i);
                assert(v@ =~= seq![i]);
            }
            return Some(v);
        }
        i = i + 1;
    }
    None
}

/// What the program does next when it runs scenarios.
#[derive(Debug, Clone, Copy, PartialEq, Eq, Structural)]
pub enum RunAction {
    /// Start a scenario (its catalog index): announce it and open its log.
    OpenScenario { scenario: usize },
    /// Run the open scenario once with this random seed; `run_number` counts
    /// the scenario's runs from 1.
    Run { scenario: usize, seed: u64, run_number: u64 },
    /// Close the scenario's log: all its runs are done.
    CloseScenario { scenario: usize },
    /// Nothing is left to run.
    Finish,
}

/// The action at step `step` of the `k`-th selected scenario: opening it at step
/// 0, its runs at steps 1 to `iterations` (run `r` with seed `start + r - 1`),
/// closing it at step `iterations + 1`.
pub open spec fn scheduled_action(selected: Seq<usize>, iterations: nat, start: nat, k: nat, step: nat) -> RunAction {
    if step == 0 {
        RunAction::OpenScenario { scenario: selected[k as int] }
    } else if step <= iterations {
        RunAction::Run { scenario: selected[k as int], seed: (start + step - 1) as u64, run_number: step as u64 }
    } else {
        RunAction::CloseScenario { scenario: selected[k as int] }
    }
}

/// The position after (`k`, `step`): the next step of the same scenario, or the
/// first step of the next one after its closing.
pub open spec fn next_position(iterations: nat, k: nat, step: nat) -> (nat, nat) {
    if step <= iterations {
        (k, step + 1)
    } else {
        (k + 1, 0)
    }
}

/// Runs a list of scenarios, each `iterations` times with the seeds from
/// `start_iteration` on, in order; with `fastbreak`, nothing more runs after the
/// first failed run.
pub struct ScenarioRunner {
    selected: Vec<usize>,
    iterations: u64,
    start_iteration: u64,
    fastbreak: bool,
    current: usize,
    step: u128,
    stopped: bool,
}

impl ScenarioRunner {
    /// The catalog indices of the scenarios to run, in order.
    pub closed spec fn selected(&self) -> Seq<usize> {
        self.selected@
    }

    /// How many times each scenario runs.
    pub closed spec fn iterations(&self) -> nat {
        self.iterations as nat
    }

    /// The seed of each scenario's first run.
    pub closed spec fn start_iteration(&self) -> nat {
        self.start_iteration as nat
    }

    /// Whether a failed run stops everything.
    pub closed spec fn fastbreak(&self) -> bool {
        self.fastbreak
    }

    /// Which selected scenario the runner is at.
    pub closed spec fn current(&self) -> nat {
        self.current as nat
    }

    /// The step of the current scenario the runner is at.
    pub closed spec fn step(&self) -> nat {
        self.step as nat
    }

    /// Whether a failed run stopped the runner.
    pub closed spec fn stopped(&self) -> bool {
        self.stopped
    }

    #[verifier::type_invariant]
    closed spec fn well_formed(&self) -> bool {
        &&& self.current <= self.selected@.len()
        &&& self.step <= self.iterations as u128 + 1
        &&& self.current == self.selected@.len() ==> self.step == 0
        &&& self.start_iteration + self.iterations <= u64::MAX
    }

    /// A runner at the first step of the first scenario. The seeds of the runs
    /// must fit in 64 bits.
    pub fn new(selected: Vec<usize>, iterations: u64, start_iteration: u64, fastbreak: bool) -> (r: Self)
        requires
            start_iteration + iterations <= u64::MAX,
        ensures
            r.selected() == selected@,
            r.iterations() == iterations,
            r.start_iteration() == start_iteration,
            r.fastbreak() == fastbreak,
            r.current() == 0,
            r.step() == 0,
            !r.stopped(),
    {
        ScenarioRunner { selected, iterations, start_iteration, fastbreak, current: 0, step: 0, stopped: false }
    }

    /// The next action, and the runner moved past it: the scheduled action of the
    /// current position, or `Finish` once every scenario is closed or a failure
    /// stopped the runner.
    pub fn next_action(&mut self) -> (action: RunAction)
        ensures
            final(self).selected() == old(self).selected(),
            final(self).iterations() == old(self).iterations(),
            final(self).start_iteration() == old(self).start_iteration(),
            final(self).fastbreak() == old(self).fastbreak(),
            final(self).stopped() == old(self).stopped(),
            old(self).stopped() || old(self).current() == old(self).selected().len() ==> {
                &&& action == RunAction::Finish
                &&& final(self).current() == old(self).current()
                &&& final(self).step() == old(self).step()
            },
            !old(self).stopped() && old(self).current() < old(self).selected().len() ==> {
                &&& action == scheduled_action(old(self).selected(), old(self).iterations(), old(self).start_iteration(),
                    old(self).current(), old(self).step())
                &&& (final(self).current(), final(self).step()) == next_position(old(self).iterations(),
                    old(self).current(), old(self).step())
            },
            !old(self).stopped() && old(self).current() < old(self).selected().len() && old(self).step() == 0 ==> {
                &&& action == (RunAction::OpenScenario { scenario: old(self).selected()[old(self).current() as int] })
                &&& final(self).current() == old(self).current()
                &&& final(self).step() == 1
            },
            !old(self).stopped() && old(self).current() < old(self).selected().len() && 1 <= old(self).step()
                <= old(self).iterations() ==> {
                &&& action == (RunAction::Run {
                    scenario: old(self).selected()[old(self).current() as int],
                    seed: (old(self).start_iteration() + old(self).step() - 1) as u64,
                    run_number: old(self).step() as u64,
                })
                &&& final(self).current() == old(self).current()
                &&& final(self).step() == old(self).step() + 1
            },
            !old(self).stopped() && old(self).current() < old(self).selected().len() && old(self).step()
                == old(self).iterations() + 1 ==> {
                &&& action == (RunAction::CloseScenario { scenario: old(self).selected()[old(self).current() as int] })
                &&& final(self).current() == old(self).current() + 1
                &&& final(self).step() == 0
            },
    {
        proof {
            use_type_invariant(&*self);
        }
        if self.stopped || self.current == self.selected.len() {
            return RunAction::Finish;
        }
        let scenario = self.selected[self.current];
        let step = self.step;
        if step == 0 {
            self.step = 1;
            RunAction::OpenScenario { scenario }
        } else if step <= self.iterations as u128 {
            let run_number = step as u64;
            let seed = self.start_iteration + (run_number - 1);
            self.step = step + 1;
            RunAction::Run { scenario, seed, run_number }
        } else {
            self.step = 0;
            self.current = self.current + 1;
            RunAction::CloseScenario { scenario }
        }
    }

    /// Record the outcome of the last run; returns whether the runner stops
    /// (a failed run with `fastbreak`). A stopped runner stays stopped.
    pub fn record_outcome(&mut self, passed: bool) -> (stop: bool)
        ensures
            stop == (!passed && old(self).fastbreak()),
            final(self).stopped() == (old(self).stopped() || stop),
            final(self).selected() == old(self).selected(),
            final(self).iterations() == old(self).iterations(),
            final(self).start_iteration() == old(self).start_iteration(),
            final(self).fastbreak() == old(self).fastbreak(),
            final(self).current() == old(self).current(),
            final(self).step() == old(self).step(),
    {
        proof {
            use_type_invariant(&*self);
        }
        let stop = !passed && self.fastbreak;
        if stop {
            self.stopped = true;
        }
        stop
    }
}

/// Each scenario's runs come in order, with consecutive seeds from the first
/// one: the `r`-th run of a scenario (counted from 1) uses seed `start + r - 1`,
/// and between opening and closing a scenario exactly `iterations` runs come.
pub proof fn law_runs_use_consecutive_seeds(selected: Seq<usize>, iterations: nat, start: nat, k: nat, step: nat)
    requires
        k < selected.len(),
        step <= iterations + 1,
        start + iterations <= u64::MAX,
    ensures
        scheduled_action(selected, iterations, start, k, step) is Run <==> 1 <= step <= iterations,
        scheduled_action(selected, iterations, start, k, step) matches RunAction::Run { scenario, seed, run_number }
            ==> scenario == selected[k as int] && seed == start + run_number - 1 && run_number == step,
        next_position(iterations, k, step).0 == k + 1 <==> scheduled_action(selected, iterations, start, k, step) is CloseScenario,
{
}

/// After opening a scenario the runner goes through its steps one by one: from
/// step `s` up to `iterations` it moves to step `s + 1` of the same scenario, so
/// each of the runs 1 to `iterations` is reached, and only after the last run
/// does it close the scenario and move to the next one.
pub proof fn law_every_run_is_reached(selected: Seq<usize>, iterations: nat, start: nat, k: nat, step: nat)
    requires
        k < selected.len(),
        step <= iterations + 1,
    ensures
        step <= iterations ==> next_position(iterations, k, step) == (k, step + 1),
        step == iterations + 1 ==> next_position(iterations, k, step) == (k + 1, 0nat),
        scheduled_action(selected, iterations, start, k, 0) == (RunAction::OpenScenario { scenario: selected[k as int] }),
        scheduled_action(selected, iterations, start, k, iterations + 1)
            == (RunAction::CloseScenario { scenario: selected[k as int] }),
        1 <= step <= iterations ==> scheduled_action(selected, iterations, start, k, step) is Run,
{
}

} // verus!
