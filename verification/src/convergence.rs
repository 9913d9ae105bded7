use vstd::prelude::*;

use crate::text::{decimal, push_decimal};

verus! {

/// What the convergence loop does after an iteration of the simulation.
#[derive(Debug, Clone, Copy, PartialEq, Eq, Structural)]
pub enum ConvergeStep {
    /// Some control variable changed and iterations are left: run another one.
    Continue,
    /// No campaign pacing and no seller boost changed: the marketplace converged.
    Converged { iterations: usize },
    /// Control variables still change, but the last allowed iteration has run.
    MaxIterationsReached { iterations: usize },
}

/// The stopping rule of the convergence loop: it runs the simulation at most
/// `max_iterations` times and stops early once an iteration changes neither a
/// campaign's pacing nor a seller's boost. The results of the last iteration run
/// are the final ones.
pub struct ConvergenceLoop {
    max_iterations: usize,
    iterations_done: usize,
    stopped: bool,
}

/// The step after iteration number `iteration` (counted from 1) of at most
/// `max_iterations`, given whether pacing and boost changed in it.
pub open spec fn step_after(iteration: nat, max_iterations: nat, pacing_changed: bool, boost_changed: bool) -> ConvergeStep {
    if !pacing_changed && !boost_changed {
        ConvergeStep::Converged { iterations: iteration as usize }
    } else if iteration == max_iterations {
        ConvergeStep::MaxIterationsReached { iterations: iteration as usize }
    } else {
        ConvergeStep::Continue
    }
}

impl ConvergenceLoop {
    /// The largest number of iterations the loop runs.
    pub closed spec fn max_iterations(&self) -> nat {
        self.max_iterations as nat
    }

    /// Iterations run so far.
    pub closed spec fn iterations_done(&self) -> nat {
        self.iterations_done as nat
    }

    /// Whether the loop has stopped (converged or out of iterations).
    pub closed spec fn stopped(&self) -> bool {
        self.stopped
    }

    #[verifier::type_invariant]
    closed spec fn well_formed(&self) -> bool {
        &&& 1 <= self.max_iterations
        &&& self.iterations_done <= self.max_iterations
        &&& self.iterations_done == self.max_iterations ==> self.stopped
    }

    /// A loop that runs at most `max_iterations` iterations; at least one runs,
    /// since the final results are those of the last iteration.
    pub fn new(max_iterations: usize) -> (r: Self)
        requires
            max_iterations >= 1,
        ensures
            r.max_iterations() == max_iterations,
            r.iterations_done() == 0,
            !r.stopped(),
    {
        ConvergenceLoop { max_iterations, iterations_done: 0, stopped: false }
    }

    /// Whether another iteration is to run.
    pub fn is_running(&self) -> (b: bool)
        ensures
            b == !self.stopped(),
    {
        !self.stopped
    }

    /// Iterations run so far (the count reported as "convergence iterations").
    pub fn iterations(&self) -> (n: usize)
        ensures
            n == self.iterations_done(),
            n <= self.max_iterations(),
            1 <= self.max_iterations(),
            n == self.max_iterations() ==> self.stopped(),
    {
        proof {
            use_type_invariant(self);
        }
        self.iterations_done
    }

    /// Record that one more iteration ran, and whether it changed some campaign's
    /// pacing or some seller's boost; returns what the loop does next.
    pub fn finish_iteration(&mut self, pacing_changed: bool, boost_changed: bool) -> (step: ConvergeStep)
        requires
            !old(self).stopped(),
        ensures
            final(self).iterations_done() == old(self).iterations_done() + 1,
            final(self).max_iterations() == old(self).max_iterations(),
            step == step_after(final(self).iterations_done(), final(self).max_iterations(), pacing_changed, boost_changed),
            final(self).stopped() == (step != ConvergeStep::Continue),
            final(self).iterations_done() <= final(self).max_iterations(),
            !pacing_changed && !boost_changed ==> step == (ConvergeStep::Converged { iterations: final(self).iterations_done() as usize }),
            (pacing_changed || boost_changed) && final(self).iterations_done() < final(self).max_iterations()
                ==> step == ConvergeStep::Continue,
            (pacing_changed || boost_changed) && final(self).iterations_done() == final(self).max_iterations()
                ==> step == (ConvergeStep::MaxIterationsReached { iterations: final(self).max_iterations() as usize }),
    {
        proof {
            use_type_invariant(&*self);
        }
        let iteration = self.iterations_done + 1;
        let step = if !pacing_changed && !boost_changed {
            ConvergeStep::Converged { iterations: iteration }
        } else if iteration == self.max_iterations {
            ConvergeStep::MaxIterationsReached { iterations: iteration }
        } else {
            ConvergeStep::Continue
        };
        let stopped = match step {
            ConvergeStep::Continue => false,
            _ => true,
        };
        *self = ConvergenceLoop { max_iterations: self.max_iterations, iterations_done: iteration, stopped };
        step
    }
}

/// The line logged when a variant converged: "<variant>: Converged after <n> iterations".
pub fn converged_message(variant_name: &str, iterations: usize) -> (r: String)
    ensures
        r@ == variant_name@ + ": Converged after "@ + decimal(iterations as nat) + " iterations"@,
{
    let mut r = String::from_str(variant_name);
    r.append(": Converged after ");
    push_decimal(&mut r, iterations as u64);
    r.append(" iterations");
    r
}

/// The warning logged when a variant did not converge:
/// "<variant>: Reached maximum iterations (<max>)".
pub fn max_iterations_message(variant_name: &str, max_iterations: usize) -> (r: String)
    ensures
        r@ == variant_name@ + ": Reached maximum iterations ("@ + decimal(max_iterations as nat) + ")"@,
{
    let mut r = String::from_str(variant_name);
    r.append(": Reached maximum iterations (");
    push_decimal(&mut r, max_iterations as u64);
    r.append(")");
    r
}

/// The loop never runs more iterations than allowed, and it reports
/// convergence exactly at the first iteration that changes nothing; while some
/// control variable still changes, it goes on until the last allowed iteration,
/// and stops there reporting that maximum.
pub proof fn law_convergence_stops_in_time(
    iteration: nat,
    max_iterations: nat,
    pacing_changed: bool,
    boost_changed: bool,
)
    requires
        1 <= iteration <= max_iterations,
    ensures
        step_after(iteration, max_iterations, pacing_changed, boost_changed) == ConvergeStep::Continue
            ==> iteration < max_iterations,
        (step_after(iteration, max_iterations, pacing_changed, boost_changed) is Converged)
            == (!pacing_changed && !boost_changed),
        iteration == max_iterations ==> step_after(iteration, max_iterations, pacing_changed, boost_changed)
            != ConvergeStep::Continue,
        (pacing_changed || boost_changed) && iteration < max_iterations
            ==> step_after(iteration, max_iterations, pacing_changed, boost_changed) == ConvergeStep::Continue,
        !pacing_changed && !boost_changed ==> step_after(iteration, max_iterations, pacing_changed, boost_changed)
            == (ConvergeStep::Converged { iterations: iteration as usize }),
        (pacing_changed || boost_changed) && iteration == max_iterations
            ==> step_after(iteration, max_iterations, pacing_changed, boost_changed)
            == (ConvergeStep::MaxIterationsReached { iterations: max_iterations as usize }),
{
}

} // verus!
