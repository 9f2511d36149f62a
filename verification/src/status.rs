//! The per-slot status record: a consistent `(running, pid)` pair plus the
//! last accepted configuration.

use vstd::prelude::*;
use crate::config::RuntimeConfig;

verus! {

/// Status of one supervised slot. The pair `(running, tracked_pid)` is always
/// read and replaced together, never field by field, so a reader can never
/// observe a fresh `running` next to a stale PID.
pub struct SupervisedStatus {
    pub running: bool,
    pub tracked_pid: i32,
    pub applied_config: Option<RuntimeConfig>,
}

impl SupervisedStatus {
    /// A slot is well formed when the running flag and the tracked PID agree:
    /// a slot counts as running exactly when it tracks a positive PID.
    pub open spec fn wf(self) -> bool {
        self.running <==> self.tracked_pid > 0
    }

    /// A fresh slot: not running, no PID, no configuration.
    pub fn new() -> (r: SupervisedStatus)
        ensures
            r.wf(),
            !r.running,
            r.tracked_pid == -1,
            r.applied_config is None,
    {
        SupervisedStatus { running: false, tracked_pid: -1, applied_config: None }
    }

    /// One consistent snapshot of the running flag and the tracked PID.
    pub fn snapshot(&self) -> (r: (bool, i32))
        ensures
            r.0 == self.running,
            r.1 == self.tracked_pid,
    {
        (self.running, self.tracked_pid)
    }

    /// Replace both liveness fields in one step.
    pub fn set_running(&mut self, running: bool, pid: i32)
        requires
            running <==> pid > 0,
        ensures
            final(self).wf(),
            final(self).running == running,
            final(self).tracked_pid == pid,
            final(self).applied_config == old(self).applied_config,
    {
        self.running = running;
        self.tracked_pid = pid;
    }

    /// Replace the stored configuration wholesale.
    pub fn set_config(&mut self, cfg: RuntimeConfig)
        ensures
            final(self).running == old(self).running,
            final(self).tracked_pid == old(self).tracked_pid,
            final(self).applied_config == Some(cfg),
    {
        self.applied_config = Some(cfg);
    }
}

} // verus!
