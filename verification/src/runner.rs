//! Sequencing of a matched dispatch's command chain.
//!
//! Commands run strictly in plan order, one at a time, and the policy
//! is fail-fast: as soon as one command fails, no later command of the
//! same dispatch runs. The shell itself lives outside this crate; the
//! loop around it draws each command from a [`CommandRun`] with
//! [`CommandRun::take_next`] and reports how it went with
//! [`CommandRun::record_outcome`], so every decision about what runs
//! next is made here.

use vstd::prelude::*;

verus! {

/// One dispatch's command chain, part-way through execution: the
/// planned commands, how many have been handed out, and whether one of
/// them has failed.
pub struct CommandRun {
    pub commands: Vec<String>,
    pub next: usize,
    pub failed: bool,
}

impl CommandRun {
    /// There is nothing left to hand out: either every command has
    /// been taken, or one has failed.
    pub open spec fn spec_done(self) -> bool {
        self.failed || self.next >= self.commands@.len()
    }

    /// The commands handed out so far: always a prefix of the plan, in
    /// plan order.
    pub open spec fn spec_taken(self) -> Seq<String> {
        self.commands@.take(self.next as int)
    }

    /// Starts a run of the given plan: nothing taken, nothing failed.
    pub fn new(commands: Vec<String>) -> (run: CommandRun)
        ensures
            run.commands == commands,
            run.next == 0,
            !run.failed,
    {
        CommandRun { commands, next: 0, failed: false }
    }

    /// Hands out the next command of the plan, or nothing when the run
    /// is done. After a failure has been recorded, every later call
    /// returns nothing: no command after a failed one is ever handed
    /// out.
    pub fn take_next(&mut self) -> (cmd: Option<String>)
        ensures
            old(self).spec_done() ==> cmd is None && *final(self) == *old(self),
            !old(self).spec_done() ==> {
                &&& cmd == Some(old(self).commands@[old(self).next as int])
                &&& final(self).next == old(self).next + 1
                &&& final(self).commands == old(self).commands
                &&& final(self).failed == old(self).failed
                &&& final(self).spec_taken() == old(self).spec_taken().push(
                    old(self).commands@[old(self).next as int],
                )
            },
    {
        if self.failed || self.next >= self.commands.len() {
            return None;
        }
        let cmd = self.commands[self.next].clone();
        proof {
            assert(self.commands@.take(self.next + 1) =~= self.commands@.take(self.next as int)
                .push(self.commands@[self.next as int]));
        }
        self.next = self.next + 1;
        Some(cmd)
    }

    /// Records how the command taken last went. A failure is sticky:
    /// once one command has failed, the run stays failed and
    /// [`CommandRun::take_next`] hands out nothing more.
    pub fn record_outcome(&mut self, success: bool)
        ensures
            final(self).failed == (old(self).failed || !success),
            final(self).commands == old(self).commands,
            final(self).next == old(self).next,
    {
        if !success {
            self.failed = true;
        }
    }
}

/// The commands that actually run, for a plan and the outcome each
/// command would have: every command up to and including the first
/// failing one, none after it. `outcomes[i]` is whether `plan[i]`
/// succeeds once started.
pub open spec fn spec_executed(plan: Seq<String>, outcomes: Seq<bool>) -> Seq<String>
    recommends
        outcomes.len() == plan.len(),
    decreases plan.len(),
{
    if plan.len() == 0 {
        Seq::empty()
    } else if outcomes[0] {
        seq![plan[0]] + spec_executed(plan.drop_first(), outcomes.drop_first())
    } else {
        seq![plan[0]]
    }
}

/// Fail-fast: when the command at position `k` is the first to fail,
/// exactly the plan's first `k + 1` commands run — everything up to
/// the failure, and nothing after it.
pub proof fn lemma_fail_fast(plan: Seq<String>, outcomes: Seq<bool>, k: int)
    requires
        outcomes.len() == plan.len(),
        0 <= k < plan.len(),
        !outcomes[k],
        forall|j: int| 0 <= j < k ==> outcomes[j],
    ensures
        spec_executed(plan, outcomes) == plan.take(k + 1),
    decreases k,
{
    if k == 0 {
        assert(spec_executed(plan, outcomes) =~= plan.take(1));
    } else {
        lemma_fail_fast(plan.drop_first(), outcomes.drop_first(), k - 1);
        assert(seq![plan[0]] + plan.drop_first().take(k) =~= plan.take(k + 1));
    }
}

/// When every command succeeds, the whole plan runs, in order.
pub proof fn lemma_clean_run_executes_all(plan: Seq<String>, outcomes: Seq<bool>)
    requires
        outcomes.len() == plan.len(),
        forall|j: int| 0 <= j < outcomes.len() ==> outcomes[j],
    ensures
        spec_executed(plan, outcomes) == plan,
    decreases plan.len(),
{
    if plan.len() == 0 {
        assert(spec_executed(plan, outcomes) =~= plan);
    } else {
        lemma_clean_run_executes_all(plan.drop_first(), outcomes.drop_first());
        assert(seq![plan[0]] + plan.drop_first() =~= plan);
    }
}

} // verus!
