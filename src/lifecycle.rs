use vstd::prelude::*;

use crate::backend::BackendAction;

verus! {

/// How the application was started: supervising every group, or as the start
/// command of a single group.
#[derive(Clone, Debug, PartialEq, Eq)]
pub enum RunMode {
    Daemon,
    Command(String),
}

/// One step of the shutdown sequence, carried out in order.
#[derive(Clone, Debug, PartialEq, Eq)]
pub enum ShutdownStep {
    Backend(BackendAction),
    Exit(i32),
}

/// Process-wide shutdown coordination: `Running` until the first termination
/// signal, then `ShuttingDown` for good.
#[derive(Clone, Debug, PartialEq, Eq)]
pub struct Controller {
    pub mode: RunMode,
    pub shutting_down: bool,
}

/// The steps owed on the first termination signal: stop what the mode covers,
/// then exit with status 0.
pub open spec fn shutdown_steps(mode: RunMode) -> Seq<ShutdownStep> {
    match mode {
        RunMode::Daemon => seq![ShutdownStep::Backend(BackendAction::StopAll), ShutdownStep::Exit(0)],
        RunMode::Command(g) => seq![
            ShutdownStep::Backend(BackendAction::Stop(g)),
            ShutdownStep::Exit(0),
        ],
    }
}

/// `step` stops the backend resource of group `g`.
pub open spec fn stops_group(step: ShutdownStep, g: Seq<char>) -> bool {
    match step {
        ShutdownStep::Backend(BackendAction::StopAll) => true,
        ShutdownStep::Backend(BackendAction::Stop(h)) => h@ == g,
        _ => false,
    }
}

/// The groups that a controller in mode `mode` may have running: any in
/// daemon mode, only its own in command mode.
pub open spec fn groups_of_mode(mode: RunMode, groups: Seq<Seq<char>>) -> bool {
    match mode {
        RunMode::Daemon => true,
        RunMode::Command(g) => forall|i: int| 0 <= i < groups.len() ==> groups[i] == g@,
    }
}

impl Controller {
    pub fn new(mode: RunMode) -> (r: Controller)
        ensures
            r.mode == mode,
            !r.shutting_down,
    {
        Controller { mode, shutting_down: false }
    }

    /// Handles a termination signal. The first one moves the controller to
    /// shutting down and gives the shutdown sequence; any later one is ignored.
    pub fn on_signal(&mut self) -> (r: Vec<ShutdownStep>)
        ensures
            final(self).mode == old(self).mode,
            final(self).shutting_down,
            old(self).shutting_down ==> r@.len() == 0,
            !old(self).shutting_down ==> r@ == shutdown_steps(old(self).mode),
    {
        let mut r: Vec<ShutdownStep> = Vec::new();
        if self.shutting_down {
            return r;
        }
        self.shutting_down = true;
        match &self.mode {
            RunMode::Daemon => {
                r.push(ShutdownStep::Backend(BackendAction::StopAll));
            },
            RunMode::Command(g) => {
                r.push(ShutdownStep::Backend(BackendAction::Stop(g.clone())));
            },
        }
        r.push(ShutdownStep::Exit(0));
        assert(r@ =~= shutdown_steps(self.mode));
        r
    }
}

/// On the first termination signal, the first step stops every running group
/// and the exit follows as the last step, with nothing after it.
pub proof fn lemma_signal_stops_every_group(mode: RunMode, groups: Seq<Seq<char>>)
    requires
        groups_of_mode(mode, groups),
    ensures
        shutdown_steps(mode).len() == 2,
        shutdown_steps(mode).last() == ShutdownStep::Exit(0),
        forall|j: int|
            0 <= j < groups.len() ==> stops_group(shutdown_steps(mode)[0], #[trigger] groups[j]),
{
}

} // verus!
