use vstd::prelude::*;

verus! {

/// What the supervisor does next while launching the groups' processes.
#[derive(Clone, Copy, Debug, PartialEq, Eq, Structural)]
pub enum LaunchStep {
    /// Stop every server resource left running, before any process starts.
    StopAll,
    /// Spawn the process of the configuration at this index.
    Spawn(usize),
    /// A spawn failed: end the application.
    Abort,
    /// Every process runs: report healthy and wait for a signal.
    Ready,
}

/// Launches the configured processes one after the other, in order, once
/// every server resource left running has been stopped.
#[derive(Clone, Copy, Debug, PartialEq, Eq, Structural)]
pub struct Launcher {
    pub total: usize,
    pub next: usize,
    pub cleared: bool,
    pub aborted: bool,
}

impl Launcher {
    pub open spec fn wf(self) -> bool {
        self.next <= self.total
    }

    pub open spec fn step_spec(self) -> LaunchStep {
        if self.aborted {
            LaunchStep::Abort
        } else if !self.cleared {
            LaunchStep::StopAll
        } else if self.next < self.total {
            LaunchStep::Spawn(self.next)
        } else {
            LaunchStep::Ready
        }
    }

    /// The launcher once the spawn it asked for has succeeded or failed.
    pub open spec fn after_spawn(self, spawned: bool) -> Launcher {
        if spawned {
            Launcher { next: (self.next + 1) as usize, ..self }
        } else {
            Launcher { aborted: true, ..self }
        }
    }

    pub fn new(total: usize) -> (r: Launcher)
        ensures
            r.wf(),
            r.total == total,
            r.next == 0,
            !r.cleared,
            !r.aborted,
    {
        Launcher { total, next: 0, cleared: false, aborted: false }
    }

    /// Records that the stop asked for by `next_step` has been carried out.
    pub fn record_stop_all(&mut self)
        requires
            old(self).wf(),
            old(self).step_spec() is StopAll,
        ensures
            final(self).wf(),
            *final(self) == (Launcher { cleared: true, ..*old(self) }),
    {
        self.cleared = true;
    }

    pub fn next_step(&self) -> (r: LaunchStep)
        ensures
            r == self.step_spec(),
    {
        if self.aborted {
            LaunchStep::Abort
        } else if !self.cleared {
            LaunchStep::StopAll
        } else if self.next < self.total {
            LaunchStep::Spawn(self.next)
        } else {
            LaunchStep::Ready
        }
    }

    /// Records whether the spawn asked for by `next_step` succeeded.
    pub fn record_spawn(&mut self, spawned: bool)
        requires
            old(self).wf(),
            old(self).step_spec() is Spawn,
        ensures
            final(self).wf(),
            *final(self) == old(self).after_spawn(spawned),
    {
        if spawned {
            self.next = self.next + 1;
        } else {
            self.aborted = true;
        }
    }
}

/// The steps a launcher takes when its spawns have the outcomes `results`, in
/// order, until it stops asking for spawns or the outcomes run out.
pub open spec fn launch_trace(l: Launcher, results: Seq<bool>) -> Seq<LaunchStep>
    decreases results.len(),
{
    if l.step_spec() is Spawn && results.len() > 0 {
        seq![l.step_spec()] + launch_trace(l.after_spawn(results[0]), results.drop_first())
    } else {
        seq![l.step_spec()]
    }
}

/// Processes are spawned in configuration order, and no process is spawned
/// after a spawn has failed.
pub proof fn lemma_spawns_stop_at_failure(l: Launcher, results: Seq<bool>, j: int)
    requires
        l.wf(),
        !l.aborted,
        0 <= j < launch_trace(l, results).len(),
        launch_trace(l, results)[j] is Spawn,
    ensures
        launch_trace(l, results)[j] == LaunchStep::Spawn((l.next + j) as usize),
        j <= results.len(),
        forall|k: int| 0 <= k < j ==> results[k],
    decreases results.len(),
{
    if j > 0 {
        let l2 = l.after_spawn(results[0]);
        assert(launch_trace(l, results)[j] == launch_trace(l2, results.drop_first())[j - 1]);
        if !results[0] {
            assert(launch_trace(l2, results.drop_first()) == seq![LaunchStep::Abort]);
        } else {
            lemma_spawns_stop_at_failure(l2, results.drop_first(), j - 1);
            assert forall|k: int| 0 <= k < j implies results[k] by {
                if k > 0 {
                    assert(results[k] == results.drop_first()[k - 1]);
                }
            }
        }
    }
}

/// A failed spawn ends the launch: the next step is to abort.
pub proof fn lemma_failed_spawn_aborts(l: Launcher)
    requires
        l.wf(),
        l.step_spec() is Spawn,
    ensures
        l.after_spawn(false).step_spec() == LaunchStep::Abort,
        launch_trace(l.after_spawn(false), seq![]) == seq![LaunchStep::Abort],
{
}

/// No process is spawned before every server resource left running has been
/// stopped.
pub proof fn lemma_spawn_follows_stop_all(l: Launcher)
    requires
        l.step_spec() is Spawn,
    ensures
        l.cleared,
        !l.aborted,
{
}

} // verus!
