//! The orchestration core: one logical ("enabled") slot and one physical
//! ("core binary") slot, with the verified decisions behind every start,
//! stop and reconcile request.
//!
//! Operating-system work is not performed here. Each operation returns a
//! plan as plain values — which PID to signal, which command to spawn —
//! and the embedding application carries the plan out, feeding results
//! (the spawned PID, the list of PIDs found in the process table) back
//! into the next verified transition.

use vstd::prelude::*;
use crate::config::RuntimeConfig;
use crate::status::SupervisedStatus;

verus! {

/// Errors the supervision logic itself can raise.
#[derive(Clone, Copy, PartialEq, Eq, Structural, Debug)]
pub enum CoreError {
    /// A start was requested before any configuration was applied.
    NotConfigured,
}

impl CoreError {
    pub fn message(&self) -> (r: &'static str)
        ensures
            r@ == "Runtime config is not set"@,
    {
        "Runtime config is not set"
    }
}

/// A process invocation the application should perform: the binary, its
/// arguments, and (for a detached start) the log file to create and hand
/// to the child as its output sink. `log_file` is `None` for a dry run,
/// whose combined output is captured instead.
pub struct CoreCommand {
    pub bin_path: String,
    pub args: Vec<String>,
    pub log_file: Option<String>,
}

/// The dry-run invocation derived from `cfg`: `-d <configDir> -f <configFile> -t`,
/// output captured rather than logged.
pub open spec fn is_dry_run_command(cmd: CoreCommand, cfg: RuntimeConfig) -> bool {
    &&& cmd.bin_path@ == cfg.bin_path@
    &&& cmd.args@.len() == 5
    &&& cmd.args@[0]@ == "-d"@
    &&& cmd.args@[1]@ == cfg.config_dir@
    &&& cmd.args@[2]@ == "-f"@
    &&& cmd.args@[3]@ == cfg.config_file@
    &&& cmd.args@[4]@ == "-t"@
    &&& cmd.log_file is None
}

/// The detached start invocation derived from `cfg`: `-d <configDir> -f <configFile>`,
/// output redirected to the configured log file.
pub open spec fn is_start_command(cmd: CoreCommand, cfg: RuntimeConfig) -> bool {
    &&& cmd.bin_path@ == cfg.bin_path@
    &&& cmd.args@.len() == 4
    &&& cmd.args@[0]@ == "-d"@
    &&& cmd.args@[1]@ == cfg.config_dir@
    &&& cmd.args@[2]@ == "-f"@
    &&& cmd.args@[3]@ == cfg.config_file@
    &&& cmd.log_file matches Some(l) && l@ == cfg.log_file@
}

/// Whether the reconciliation sweep should terminate the process `p` found
/// in the OS process table: every match is terminated except the control
/// process itself and the PID currently tracked by the physical slot.
pub open spec fn should_terminate(p: u32, current_pid: u32, tracked_pid: i32) -> bool {
    p != current_pid && (tracked_pid <= 0 || p != tracked_pid as u32)
}

/// The PIDs the sweep terminates, in the order the scan reported them.
pub open spec fn sweep_list(found: Seq<u32>, current_pid: u32, tracked_pid: i32) -> Seq<u32>
    decreases found.len(),
{
    if found.len() == 0 {
        Seq::empty()
    } else if should_terminate(found.last(), current_pid, tracked_pid) {
        sweep_list(found.drop_last(), current_pid, tracked_pid).push(found.last())
    } else {
        sweep_list(found.drop_last(), current_pid, tracked_pid)
    }
}

/// Every PID on the sweep list was found by the scan and is neither the
/// control process nor the tracked PID; conversely every found PID that
/// should be terminated is on the list.
pub proof fn lemma_sweep_list_props(found: Seq<u32>, current_pid: u32, tracked_pid: i32)
    ensures
        forall|p: u32|
            sweep_list(found, current_pid, tracked_pid).contains(p) ==> found.contains(p)
                && should_terminate(p, current_pid, tracked_pid),
        forall|i: int|
            0 <= i < found.len() && should_terminate(found[i], current_pid, tracked_pid)
                ==> sweep_list(found, current_pid, tracked_pid).contains(found[i]),
    decreases found.len(),
{
    if found.len() > 0 {
        lemma_sweep_list_props(found.drop_last(), current_pid, tracked_pid);
        let sub = sweep_list(found.drop_last(), current_pid, tracked_pid);
        let whole = sweep_list(found, current_pid, tracked_pid);
        assert forall|p: u32| whole.contains(p) implies found.contains(p)
            && should_terminate(p, current_pid, tracked_pid) by {
            if sub.contains(p) {
                assert(found.drop_last().contains(p));
                let j = choose|j: int| 0 <= j < found.drop_last().len()
                    && found.drop_last()[j] == p;
                assert(found[j] == p);
            } else {
                assert(p == found.last());
                assert(found[found.len() - 1] == p);
            }
        }
        assert forall|i: int|
            0 <= i < found.len() && should_terminate(found[i], current_pid, tracked_pid)
            implies whole.contains(found[i]) by {
            if i < found.len() - 1 {
                assert(found.drop_last()[i] == found[i]);
                assert(sub.contains(found[i]));
                let j = choose|j: int| 0 <= j < sub.len() && sub[j] == found[i];
                if should_terminate(found.last(), current_pid, tracked_pid) {
                    assert(whole[j] == found[i]);
                } else {
                    assert(whole[j] == found[i]);
                }
            } else {
                assert(found[i] == found.last());
                assert(whole.last() == found.last());
            }
        }
    }
}

/// The plan a start request produces: which PID (if any) to signal first,
/// and the spawn to perform — or the error that stopped the request.
pub struct StartPlan {
    pub stop_first: Option<i32>,
    pub launch: Result<CoreCommand, CoreError>,
}

/// The plan a disable request produces when the logical slot was enabled:
/// the logical slot's tracked PID to signal, and the physical slot's PID
/// (if any) to signal. The stray sweep follows separately.
pub struct StopPlan {
    pub kill_logical: i32,
    pub kill_core: Option<i32>,
}

/// The identity the `/version` route reports.
pub struct VersionInfo {
    pub service: String,
    pub version: String,
}

/// The supervisor: the logical slot (`clash_status`, "is the proxy feature
/// enabled") and the physical slot (`mihomo_status`, the spawned core-binary
/// process). Constructed once at startup and shared by the request handlers.
pub struct CoreManager {
    pub clash_status: SupervisedStatus,
    pub mihomo_status: SupervisedStatus,
}

impl CoreManager {
    pub open spec fn wf(self) -> bool {
        self.clash_status.wf() && self.mihomo_status.wf()
    }

    /// Both slots empty: nothing enabled, nothing tracked, no configuration.
    pub fn new() -> (r: CoreManager)
        ensures
            r.wf(),
            !r.clash_status.running,
            r.clash_status.tracked_pid == -1,
            r.clash_status.applied_config is None,
            !r.mihomo_status.running,
            r.mihomo_status.tracked_pid == -1,
            r.mihomo_status.applied_config is None,
    {
        CoreManager { clash_status: SupervisedStatus::new(), mihomo_status: SupervisedStatus::new() }
    }

    /// The static identity and version strings of this control service.
    /// Read-only; the application adds its own PID to its diagnostics.
    pub fn get_version(&self) -> (r: VersionInfo)
        ensures
            r.service@ == "Clash Max Service"@,
            r.version@ == "1.0.0"@,
    {
        VersionInfo { service: "Clash Max Service".to_owned(), version: "1.0.0".to_owned() }
    }

    /// The last configuration accepted for the logical slot, or the
    /// zero-value default when none was ever applied. Read-only.
    pub fn get_clash_status(&self) -> (r: RuntimeConfig)
        ensures
            match self.clash_status.applied_config {
                Some(c) => r == c,
                None => r.is_default(),
            },
    {
        match &self.clash_status.applied_config {
            Some(c) => c.clone_config(),
            None => RuntimeConfig::default_value(),
        }
    }

    /// One consistent snapshot of the physical slot, for callers that need
    /// ground truth about the spawned core process.
    pub fn get_mihomo_snapshot(&self) -> (r: (bool, i32))
        ensures
            r.0 == self.mihomo_status.running,
            r.1 == self.mihomo_status.tracked_pid,
    {
        self.mihomo_status.snapshot()
    }

    /// Stop the physical slot. Returns the PID the application should
    /// signal (best effort; a failed kill of an already-dead PID is
    /// harmless). The bookkeeping is reset unconditionally: once a stop was
    /// requested the slot never again reports the old PID as alive.
    pub fn stop_mihomo(&mut self) -> (r: Option<i32>)
        requires
            old(self).wf(),
        ensures
            final(self).wf(),
            final(self).clash_status == old(self).clash_status,
            !final(self).mihomo_status.running,
            final(self).mihomo_status.tracked_pid <= 0,
            final(self).mihomo_status.applied_config == old(self).mihomo_status.applied_config,
            old(self).mihomo_status.tracked_pid > 0 ==> r == Some(old(self).mihomo_status.tracked_pid)
                && final(self).mihomo_status.tracked_pid == -1,
            old(self).mihomo_status.tracked_pid <= 0 ==> r is None
                && final(self).mihomo_status == old(self).mihomo_status,
    {
        let (_running, pid) = self.mihomo_status.snapshot();
        if pid <= 0 {
            None
        } else {
            self.mihomo_status.set_running(false, -1);
            Some(pid)
        }
    }

    /// The reconciliation sweep: given the control process's own PID and the
    /// PIDs whose executable name matched the core binary, list the PIDs to
    /// terminate — every match except the control process itself and the
    /// physical slot's tracked PID. Each termination the application then
    /// performs is independent and best effort.
    pub fn stop_other_mihomo_processes(&self, current_pid: u32, found: &Vec<u32>) -> (r: Vec<u32>)
        ensures
            r@ == sweep_list(found@, current_pid, self.mihomo_status.tracked_pid),
            forall|p: u32| r@.contains(p) ==> found@.contains(p)
                && should_terminate(p, current_pid, self.mihomo_status.tracked_pid),
            forall|i: int| 0 <= i < found@.len()
                && should_terminate(found@[i], current_pid, self.mihomo_status.tracked_pid)
                ==> r@.contains(found@[i]),
    {
        let own_tracked: i32 = self.mihomo_status.tracked_pid;
        let mut out: Vec<u32> = Vec::new();
        let mut i: usize = 0;
        while i < found.len()
            invariant
                i <= found.len(),
                out@ == sweep_list(found@.take(i as int), current_pid, own_tracked),
                own_tracked == self.mihomo_status.tracked_pid,
            decreases found.len() - i,
        {
            let p = found[i];
            proof {
                assert(found@.take(i + 1).drop_last() =~= found@.take(i as int));
                assert(found@.take(i + 1).last() == found@[i as int]);
            }
            if p != current_pid && (own_tracked <= 0 || p != own_tracked as u32) {
                out.push(p);
            }
            i = i + 1;
        }
        proof {
            assert(found@.take(found@.len() as int) =~= found@);
            lemma_sweep_list_props(found@, current_pid, own_tracked);
        }
        out
    }

    /// Begin a start of the physical slot: stop any tracked instance first
    /// (idempotent restart), then hand back the spawn command built from the
    /// applied configuration — or `NotConfigured` when none was ever
    /// applied. The application signals `stop_first`, runs the sweep, creates
    /// the log file, spawns, and confirms with [`Self::start_mihomo_commit`];
    /// until that confirmation the slot stays not running, so a failed spawn
    /// never leaves the supervisor reporting a live process.
    pub fn start_mihomo(&mut self) -> (r: StartPlan)
        requires
            old(self).wf(),
        ensures
            final(self).wf(),
            final(self).clash_status == old(self).clash_status,
            !final(self).mihomo_status.running,
            final(self).mihomo_status.tracked_pid <= 0,
            final(self).mihomo_status.applied_config == old(self).mihomo_status.applied_config,
            old(self).mihomo_status.tracked_pid > 0
                ==> r.stop_first == Some(old(self).mihomo_status.tracked_pid),
            old(self).mihomo_status.tracked_pid <= 0 ==> r.stop_first is None
                && final(self).mihomo_status == old(self).mihomo_status,
            old(self).clash_status.applied_config matches Some(c)
                ==> r.launch matches Ok(cmd) && is_start_command(cmd, c),
            old(self).clash_status.applied_config is None
                ==> r.launch == Result::<CoreCommand, CoreError>::Err(CoreError::NotConfigured),
    {
        let stop_first = self.stop_mihomo();
        let launch = match &self.clash_status.applied_config {
            None => Err(CoreError::NotConfigured),
            Some(c) => {
                let mut args: Vec<String> = Vec::new();
                args.push("-d".to_owned());
                args.push(c.config_dir.clone());
                args.push("-f".to_owned());
                args.push(c.config_file.clone());
                Ok(CoreCommand {
                    bin_path: c.bin_path.clone(),
                    args,
                    log_file: Some(c.log_file.clone()),
                })
            },
        };
        StartPlan { stop_first, launch }
    }

    /// Confirm a successful spawn: the physical slot now tracks the PID the
    /// spawn call returned, as one atomic update.
    pub fn start_mihomo_commit(&mut self, pid: i32)
        requires
            old(self).wf(),
            pid > 0,
        ensures
            final(self).wf(),
            final(self).clash_status == old(self).clash_status,
            final(self).mihomo_status.running,
            final(self).mihomo_status.tracked_pid == pid,
            final(self).mihomo_status.applied_config == old(self).mihomo_status.applied_config,
    {
        self.mihomo_status.set_running(true, pid);
    }

    /// The dry-run command for the currently applied configuration, or
    /// `NotConfigured` when none was ever applied. Read-only; the
    /// application runs the command, captures its combined output and scans
    /// it with [`crate::scan::check_dry_run_output`].
    pub fn test_config_file(&self) -> (r: Result<CoreCommand, CoreError>)
        ensures
            match self.clash_status.applied_config {
                Some(c) => r matches Ok(cmd) && is_dry_run_command(cmd, c),
                None => r == Result::<CoreCommand, CoreError>::Err(CoreError::NotConfigured),
            },
    {
        match &self.clash_status.applied_config {
            None => Err(CoreError::NotConfigured),
            Some(c) => {
                let mut args: Vec<String> = Vec::new();
                args.push("-d".to_owned());
                args.push(c.config_dir.clone());
                args.push("-f".to_owned());
                args.push(c.config_file.clone());
                args.push("-t".to_owned());
                Ok(CoreCommand { bin_path: c.bin_path.clone(), args, log_file: None })
            },
        }
    }

    /// Enable the logical slot and accept `cfg`: on first activation the
    /// slot's tracked PID becomes the control process's own PID (`enabled
    /// while the control service is alive`); the configuration replaces any
    /// previous one wholesale. Returns the dry-run command for `cfg`; the
    /// application validates its captured output and, on success, runs the
    /// physical start sequence. The enabled flag is not rolled back when
    /// validation fails.
    pub fn start_clash(&mut self, cfg: RuntimeConfig, current_pid: i32) -> (cmd: CoreCommand)
        requires
            old(self).wf(),
            current_pid > 0,
        ensures
            final(self).wf(),
            final(self).mihomo_status == old(self).mihomo_status,
            final(self).clash_status.running,
            old(self).clash_status.running ==> final(self).clash_status.tracked_pid
                == old(self).clash_status.tracked_pid,
            !old(self).clash_status.running ==> final(self).clash_status.tracked_pid == current_pid,
            final(self).clash_status.applied_config == Some(cfg),
            is_dry_run_command(cmd, cfg),
    {
        let (running, _pid) = self.clash_status.snapshot();
        if !running {
            self.clash_status.set_running(true, current_pid);
        }
        let mut args: Vec<String> = Vec::new();
        args.push("-d".to_owned());
        args.push(cfg.config_dir.clone());
        args.push("-f".to_owned());
        args.push(cfg.config_file.clone());
        args.push("-t".to_owned());
        let cmd = CoreCommand { bin_path: cfg.bin_path.clone(), args, log_file: None };
        self.clash_status.set_config(cfg);
        cmd
    }

    /// Disable the logical slot. When it was never enabled this is a no-op
    /// (`None`, nothing changes). Otherwise both slots are reset and the
    /// returned plan names the PIDs to signal, best effort; the application
    /// then runs the reconciliation sweep as well.
    pub fn stop_clash(&mut self) -> (r: Option<StopPlan>)
        requires
            old(self).wf(),
        ensures
            final(self).wf(),
            old(self).clash_status.tracked_pid <= 0 ==> r is None && *final(self) == *old(self),
            old(self).clash_status.tracked_pid > 0 ==> {
                &&& r matches Some(plan) && plan.kill_logical == old(self).clash_status.tracked_pid
                    && (old(self).mihomo_status.tracked_pid > 0 ==> plan.kill_core
                        == Some(old(self).mihomo_status.tracked_pid))
                    && (old(self).mihomo_status.tracked_pid <= 0 ==> plan.kill_core is None)
                &&& !final(self).clash_status.running
                &&& final(self).clash_status.tracked_pid == -1
                &&& final(self).clash_status.applied_config
                    == old(self).clash_status.applied_config
                &&& !final(self).mihomo_status.running
                &&& final(self).mihomo_status.tracked_pid <= 0
                &&& final(self).mihomo_status.applied_config
                    == old(self).mihomo_status.applied_config
            },
    {
        let (_running, clash_pid) = self.clash_status.snapshot();
        if clash_pid <= 0 {
            return None;
        }
        let kill_core = self.stop_mihomo();
        self.clash_status.set_running(false, -1);
        Some(StopPlan { kill_logical: clash_pid, kill_core })
    }
}

/// Restarting the core never leaves two live instances: a second start
/// clears the physical slot's tracked PID (`tracked_pid <= 0` in
/// [`CoreManager::start_mihomo`]'s ensures) before the reconciliation
/// sweep, and the sweep then lists every scanned instance other than the
/// control process itself — in particular the previously tracked one —
/// for termination before the new spawn.
pub proof fn lemma_restart_sweep_covers_prior(
    found: Seq<u32>,
    current_pid: u32,
    prior_pid: u32,
    tracked_pid: i32,
)
    requires
        tracked_pid <= 0,
        found.contains(prior_pid),
        prior_pid != current_pid,
    ensures
        sweep_list(found, current_pid, tracked_pid).contains(prior_pid),
{
    lemma_sweep_list_props(found, current_pid, tracked_pid);
    let j = choose|j: int| 0 <= j < found.len() && found[j] == prior_pid;
    assert(should_terminate(found[j], current_pid, tracked_pid));
}

/// The reconciliation sweep never terminates the control process's own PID
/// nor the PID currently tracked by either slot. The logical slot's tracked
/// PID, when set, is the control process's own PID by construction
/// ([`CoreManager::start_clash`] is the only place it is set).
pub proof fn lemma_sweep_spares_tracked(
    m: CoreManager,
    current_pid: u32,
    found: Seq<u32>,
    p: u32,
)
    requires
        m.wf(),
        m.clash_status.tracked_pid > 0 ==> m.clash_status.tracked_pid as int == current_pid as int,
        forall|i: int| 0 <= i < found.len() ==> found[i] > 0,
        sweep_list(found, current_pid, m.mihomo_status.tracked_pid).contains(p),
    ensures
        p != current_pid,
        p as int != m.mihomo_status.tracked_pid as int,
        p as int != m.clash_status.tracked_pid as int,
{
    lemma_sweep_list_props(found, current_pid, m.mihomo_status.tracked_pid);
    assert(found.contains(p));
    let j = choose|j: int| 0 <= j < found.len() && found[j] == p;
    assert(p > 0);
}

} // verus!
