use vstd::prelude::*;
use crate::config::Config;
use crate::plan::{command_plan, session_plan};

verus! {

/// What became of the operation issued last.
#[derive(Debug, Clone, Copy, PartialEq, Eq, Structural)]
pub enum Outcome {
    Succeeded,
    Failed,
}

/// What the caller is to do next.
#[derive(Debug, Clone)]
pub enum Action {
    /// Run this argv to completion and report whether it succeeded.
    Run(Vec<String>),
    /// Hand the terminal over to this argv and wait until it ends.
    Attach(Vec<String>),
    /// An operation failed: stop, and undo nothing.
    Abort,
    /// Every operation has been issued.
    Done,
}

/// The progress `(next, halted)` after `outcome` was reported in progress
/// `p`, for a plan of `len` operations: a failure halts for good; a success
/// moves on to the next operation, if one is left.
pub open spec fn next_progress(len: nat, p: (nat, bool), outcome: Outcome) -> (nat, bool) {
    if p.1 || outcome == Outcome::Failed {
        (p.0, true)
    } else if p.0 < len {
        (p.0 + 1, false)
    } else {
        p
    }
}

/// The position of the operation issued when `outcome` is reported in
/// progress `p`, if one is.
pub open spec fn issued(len: nat, p: (nat, bool), outcome: Outcome) -> Option<nat> {
    if !p.1 && outcome == Outcome::Succeeded && p.0 < len {
        Some(p.0)
    } else {
        None
    }
}

/// The progress after the outcomes `outs` were reported, one after another,
/// starting in progress `p`.
pub open spec fn progress_after(len: nat, p: (nat, bool), outs: Seq<Outcome>) -> (nat, bool)
    decreases outs.len(),
{
    if outs.len() == 0 {
        p
    } else {
        next_progress(len, progress_after(len, p, outs.drop_last()), outs.last())
    }
}

proof fn lemma_halted_after_failure(len: nat, p: (nat, bool), outs: Seq<Outcome>, k: int)
    requires
        outs.len() > 0,
        outs[0] == Outcome::Failed,
        1 <= k <= outs.len(),
    ensures
        progress_after(len, p, outs.take(k)) == (p.0, true),
    decreases k,
{
    let t = outs.take(k);
    assert(t.last() == outs[k - 1]);
    if k == 1 {
        assert(t.drop_last() =~= Seq::<Outcome>::empty());
        assert(progress_after(len, p, t.drop_last()) == p);
    } else {
        lemma_halted_after_failure(len, p, outs, k - 1);
        assert(t.drop_last() =~= outs.take(k - 1));
    }
    assert(progress_after(len, p, t) == next_progress(
        len,
        progress_after(len, p, t.drop_last()),
        t.last(),
    ));
}

/// Once an operation is reported as failed, nothing more is issued: each
/// later report gives no operation, and the run stays halted where it was.
pub proof fn lemma_failure_halts(len: nat, p: (nat, bool), outs: Seq<Outcome>)
    requires
        outs.len() > 0,
        outs[0] == Outcome::Failed,
    ensures
        forall|k: int|
            0 <= k < outs.len() ==> (#[trigger] issued(len, progress_after(len, p, outs.take(k)), outs[k]))
                is None,
        progress_after(len, p, outs) == (p.0, true),
{
    assert forall|k: int|
        0 <= k < outs.len() implies (#[trigger] issued(
        len,
        progress_after(len, p, outs.take(k)),
        outs[k],
    )) is None by {
        if k >= 1 {
            lemma_halted_after_failure(len, p, outs, k);
        }
    }
    lemma_halted_after_failure(len, p, outs, outs.len() as int);
    assert(outs.take(outs.len() as int) =~= outs);
}

/// From a fresh start, reports of success only issue the operations of the
/// plan one by one, in plan order.
pub proof fn lemma_successes_issue_in_order(len: nat, outs: Seq<Outcome>)
    requires
        outs.len() <= len,
        forall|k: int| 0 <= k < outs.len() ==> outs[k] == Outcome::Succeeded,
    ensures
        progress_after(len, (0nat, false), outs) == (outs.len(), false),
        forall|k: int|
            0 <= k < outs.len() ==> #[trigger] issued(
                len,
                progress_after(len, (0nat, false), outs.take(k)),
                outs[k],
            ) == Some(k as nat),
    decreases outs.len(),
{
    if outs.len() > 0 {
        let p = outs.drop_last();
        lemma_successes_issue_in_order(len, p);
        assert forall|k: int|
            0 <= k < outs.len() implies #[trigger] issued(
            len,
            progress_after(len, (0nat, false), outs.take(k)),
            outs[k],
        ) == Some(k as nat) by {
            if k < p.len() {
                assert(outs.take(k) =~= p.take(k));
                assert(issued(len, progress_after(len, (0nat, false), p.take(k)), p[k]) == Some(
                    k as nat,
                ));
            } else {
                assert(outs.take(k) =~= p);
            }
        }
    }
}

/// Drives the realisation of a layout one operation at a time. The caller
/// performs each action and reports its outcome; the first failure ends the
/// run, and the attach comes last.
pub struct SessionBuilder {
    plan: Vec<Vec<String>>,
    next: usize,
    halted: bool,
}

impl SessionBuilder {
    /// The argv of every operation, in the order in which they are issued.
    pub closed spec fn plan(&self) -> Seq<Seq<Seq<char>>> {
        self.plan.deep_view()
    }

    /// How many operations have been issued, and whether the run has halted.
    pub closed spec fn progress(&self) -> (nat, bool) {
        (self.next as nat, self.halted)
    }

    /// The count of issued operations never passes the plan's length.
    pub closed spec fn wf(&self) -> bool {
        self.next <= self.plan@.len()
    }

    /// A builder for `config` that has issued nothing yet.
    pub fn new(config: &Config) -> (r: SessionBuilder)
        requires
            config.valid(),
        ensures
            r.wf(),
            r.plan() == session_plan(*config),
            r.progress() == (0nat, false),
    {
        SessionBuilder { plan: command_plan(config), next: 0, halted: false }
    }

    /// Takes the outcome of the operation issued last (`Succeeded` before the
    /// first one) and returns what to do next: the next operation, the attach
    /// when it is the last one left, `Abort` once anything has failed, and
    /// `Done` when the plan is spent.
    pub fn step(&mut self, outcome: Outcome) -> (r: Action)
        requires
            old(self).wf(),
        ensures
            final(self).wf(),
            final(self).plan() == old(self).plan(),
            final(self).progress() == next_progress(
                old(self).plan().len(),
                old(self).progress(),
                outcome,
            ),
            ({
                let len = old(self).plan().len();
                match issued(len, old(self).progress(), outcome) {
                    Some(i) => if i + 1 < len {
                        r matches Action::Run(a) && a.deep_view() == old(self).plan()[i as int]
                    } else {
                        r matches Action::Attach(a) && a.deep_view() == old(self).plan()[i as int]
                    },
                    None => if final(self).progress().1 {
                        r is Abort
                    } else {
                        r is Done
                    },
                }
            }),
    {
        if self.halted {
            return Action::Abort;
        }
        match outcome {
            Outcome::Failed => {
                self.halted = true;
                Action::Abort
            },
            Outcome::Succeeded => {
                if self.next < self.plan.len() {
                    let argv = self.plan[self.next].clone();
                    assert(argv.deep_view() =~= self.plan@[self.next as int].deep_view());
                    self.next = self.next + 1;
                    if self.next < self.plan.len() {
                        Action::Run(argv)
                    } else {
                        Action::Attach(argv)
                    }
                } else {
                    Action::Done
                }
            },
        }
    }
}

} // verus!
