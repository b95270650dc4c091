use vstd::prelude::*;

verus! {

/// Which of the two waits of the idle loop finished first.
#[derive(Clone, Copy, Debug, PartialEq, Eq, Structural)]
pub enum Wake {
    TimerElapsed,
    ShutdownRequested,
}

/// What the loop does next.
#[derive(Clone, Copy, Debug, PartialEq, Eq, Structural)]
pub enum Step {
    Reconcile,
    Exit,
}

/// The loop's own state: whether shutdown has been seen.
#[derive(Clone, Copy, Debug)]
pub struct Scheduler {
    pub stopped: bool,
}

pub open spec fn step_for(stopped: bool, w: Wake) -> Step {
    if stopped || w == Wake::ShutdownRequested {
        Step::Exit
    } else {
        Step::Reconcile
    }
}

impl Scheduler {
    /// A fresh loop, which runs one reconciliation at once.
    pub fn start() -> (r: (Scheduler, Step))
        ensures
            !r.0.stopped,
            r.1 == Step::Reconcile,
    {
        (Scheduler { stopped: false }, Step::Reconcile)
    }

    /// Decides what a wake-up leads to: a timer tick runs one more cycle, a
    /// shutdown request ends the loop, and nothing runs once it has ended.
    pub fn on_wake(&mut self, w: Wake) -> (r: Step)
        ensures
            r == step_for(old(self).stopped, w),
            final(self).stopped == (r == Step::Exit),
    {
        if self.stopped {
            return Step::Exit;
        }
        match w {
            Wake::ShutdownRequested => {
                self.stopped = true;
                Step::Exit
            },
            Wake::TimerElapsed => Step::Reconcile,
        }
    }
}

/// Once shutdown has been seen no wake-up, timer or otherwise, leads to
/// another reconciliation.
pub proof fn lemma_no_reconcile_after_shutdown(stopped: bool, later: Wake)
    ensures
        step_for(stopped, Wake::ShutdownRequested) == Step::Exit,
        step_for(true, later) == Step::Exit,
{
}

} // verus!
