use vstd::prelude::*;

verus! {

/// The one cancellation event that both long-running tasks observe. It is level-triggered:
/// once fired it stays fired, and firing it again changes nothing.
pub struct ShutdownSignal {
    pub fired: bool,
}

impl ShutdownSignal {
    pub fn new() -> (r: ShutdownSignal)
        ensures
            !r.fired,
    {
        ShutdownSignal { fired: false }
    }

    /// Fires the signal, from an operator interrupt or a listener stop alike.
    pub fn fire(&mut self)
        ensures
            *final(self) == fired(*old(self)),
    {
        self.fired = true;
    }

    /// Whether the signal has fired; any number of consumers may ask.
    pub fn is_fired(&self) -> (r: bool)
        ensures
            r == self.fired,
    {
        self.fired
    }
}

/// The signal after it is fired.
pub open spec fn fired(s: ShutdownSignal) -> ShutdownSignal {
    ShutdownSignal { fired: true }
}

/// Firing twice leaves the signal as firing once does.
pub proof fn lemma_fire_idempotent(s: ShutdownSignal)
    ensures
        fired(fired(s)) == fired(s),
        fired(s).fired,
{
}

/// The two tasks that run side by side in webhook mode.
#[derive(PartialEq, Eq, Structural, Debug, Clone, Copy)]
pub enum Task {
    Server,
    Dispatcher,
}

pub open spec fn other_task(t: Task) -> Task {
    match t {
        Task::Server => Task::Dispatcher,
        Task::Dispatcher => Task::Server,
    }
}

/// What to do when one of the two tasks ends.
pub enum JointAction {
    /// Keep waiting for the other task.
    Wait,
    /// Both ended without error: the run succeeds.
    Succeed,
    /// Cancel the other task and end the run with this error.
    Fail { error: String, cancel: Task },
    /// The run was already decided; nothing more to do.
    Ignore,
}

/// The run after `t` ended, before the verdict is taken.
pub open spec fn mark_done(run: JointRun, t: Task) -> JointRun {
    match t {
        Task::Server => JointRun { server_done: true, ..run },
        Task::Dispatcher => JointRun { dispatcher_done: true, ..run },
    }
}

/// The joined wait's step when `task` ends with `result`: the next run and the action.
pub open spec fn joint_next(run: JointRun, task: Task, result: Result<(), String>) -> (JointRun, JointAction) {
    if run.decided {
        (run, JointAction::Ignore)
    } else {
        let next = mark_done(run, task);
        match result {
            Err(e) => (JointRun { decided: true, ..next }, JointAction::Fail { error: e, cancel: other_task(task) }),
            Ok(()) => if run.is_done(other_task(task)) {
                (JointRun { decided: true, ..next }, JointAction::Succeed)
            } else {
                (next, JointAction::Wait)
            },
        }
    }
}

/// Fail together: whichever task ends first with an error, the run ends with that error and the
/// other task is cancelled; whatever the other reports afterwards changes nothing. Two clean
/// ends, in either order, make the run succeed.
pub proof fn lemma_fail_together(
    first: Task,
    error: String,
    later: Task,
    later_result: Result<(), String>,
)
    ensures
        ({
            let fresh = JointRun { server_done: false, dispatcher_done: false, decided: false };
            let (after, action) = joint_next(fresh, first, Err(error));
            &&& action == (JointAction::Fail { error: error, cancel: other_task(first) })
            &&& joint_next(after, later, later_result).1 is Ignore
            &&& joint_next(after, later, later_result).0 == after
        }),
        ({
            let fresh = JointRun { server_done: false, dispatcher_done: false, decided: false };
            let (after, action) = joint_next(fresh, first, Ok(()));
            &&& action is Wait
            &&& joint_next(after, other_task(first), Ok(())).1 is Succeed
        }),
{
}

/// The joined wait on both tasks: which have ended, and whether the run is decided.
pub struct JointRun {
    pub server_done: bool,
    pub dispatcher_done: bool,
    pub decided: bool,
}

impl JointRun {
    pub open spec fn is_done(&self, t: Task) -> bool {
        match t {
            Task::Server => self.server_done,
            Task::Dispatcher => self.dispatcher_done,
        }
    }

    /// A run in which both tasks are still going.
    pub fn new() -> (r: JointRun)
        ensures
            !r.server_done,
            !r.dispatcher_done,
            !r.decided,
    {
        JointRun { server_done: false, dispatcher_done: false, decided: false }
    }

    /// Records that a task ended with `result`. An error ends the run at once with that error and
    /// cancels the other task; the run succeeds only once both ended without error.
    pub fn on_task_end(&mut self, task: Task, result: Result<(), String>) -> (r: JointAction)
        ensures
            (*final(self), r) == joint_next(*old(self), task, result),
            old(self).decided ==> r is Ignore && *final(self) == *old(self),
            !old(self).decided ==> match result {
                Err(e) => {
                    &&& r == (JointAction::Fail { error: e, cancel: other_task(task) })
                    &&& final(self).decided
                    &&& final(self).is_done(task)
                    &&& final(self).is_done(other_task(task)) == old(self).is_done(other_task(task))
                },
                Ok(()) => {
                    &&& final(self).is_done(task)
                    &&& final(self).is_done(other_task(task)) == old(self).is_done(other_task(task))
                    &&& old(self).is_done(other_task(task)) ==> r is Succeed && final(self).decided
                    &&& !old(self).is_done(other_task(task)) ==> r is Wait && !final(self).decided
                },
            },
    {
        if self.decided {
            return JointAction::Ignore;
        }
        let other_done = match task {
            Task::Server => {
                self.server_done = true;
                self.dispatcher_done
            },
            Task::Dispatcher => {
                self.dispatcher_done = true;
                self.server_done
            },
        };
        let other = match task {
            Task::Server => Task::Dispatcher,
            Task::Dispatcher => Task::Server,
        };
        match result {
            Err(error) => {
                self.decided = true;
                JointAction::Fail { error, cancel: other }
            },
            Ok(()) => {
                if other_done {
                    self.decided = true;
                    JointAction::Succeed
                } else {
                    JointAction::Wait
                }
            },
        }
    }
}

} // verus!
