//! Supervision of the launched process: liveness tracking that tolerates
//! identifier reuse, the kill-after-grace policy, the supervision state
//! machine, and the registration handoff once the channel connects.
//!
//! The OS process table is read through sysinfo; what the table holds at any
//! moment depends on the machine, so the table-reading calls promise nothing,
//! and every rule is a verified function of the table it is handed.

use vstd::prelude::*;
use crate::labview_error::LabVIEWError;
use crate::port_discovery::Registration;
use crate::strutil::str_eq;

verus! {

/// What the liveness lookup concludes from one table: the original
/// identifier while it is present; with it gone, any other process under the
/// same executable path is adopted; an empty match set means the process is
/// lost.
pub open spec fn find_process_spec(processes: Seq<(u32, String)>, original_id: u32) -> Option<
    u32,
> {
    if exists|i: int| 0 <= i < processes.len() && (#[trigger] processes[i]).0 == original_id {
        Some(original_id)
    } else if processes.len() > 0 {
        Some(processes[0].0)
    } else {
        None
    }
}

/// Find the process in the list of processes matching the launched path.
/// Returns the surviving identifier, or nothing when the process is lost.
pub fn find_process(processes: &Vec<(u32, String)>, original_id: u32) -> (r: Option<u32>)
    ensures
        r == find_process_spec(processes@, original_id),
{
    let n = processes.len();
    let mut i: usize = 0;
    while i < n
        invariant
            0 <= i <= n,
            n == processes@.len(),
            forall|k: int| 0 <= k < i ==> (#[trigger] processes@[k]).0 != original_id,
        decreases n - i,
    {
        if processes[i].0 == original_id {
            return Some(original_id);
        }
        i += 1;
    }
    if n > 0 {
        Some(processes[0].0)
    } else {
        None
    }
}

/// The processes of a table that run the given executable path, as
/// (identifier, process name) pairs, in table order.
pub open spec fn matching_processes(all: Seq<(u32, String, String)>, path: Seq<char>) -> Seq<
    (u32, String),
>
    decreases all.len(),
{
    if all.len() == 0 {
        Seq::empty()
    } else {
        matching_processes(all.drop_last(), path) + (if all.last().1@ == path {
            seq![(all.last().0, all.last().2)]
        } else {
            Seq::empty()
        })
    }
}

/// Keep the processes whose executable path is `path`.
pub fn filter_processes_by_path(all: &Vec<(u32, String, String)>, path: &str) -> (r: Vec<
    (u32, String),
>)
    ensures
        r@ == matching_processes(all@, path@),
{
    let mut r: Vec<(u32, String)> = Vec::new();
    let n = all.len();
    let mut i: usize = 0;
    while i < n
        invariant
            0 <= i <= n,
            n == all@.len(),
            r@ == matching_processes(all@.take(i as int), path@),
        decreases n - i,
    {
        let entry = &all[i];
        if str_eq(entry.1.as_str(), path) {
            r.push((entry.0, entry.2.clone()));
        }
        proof {
            assert(all@.take(i + 1).drop_last() =~= all@.take(i as int));
            assert(all@.take(i + 1).last() == all@[i as int]);
        }
        i += 1;
    }
    proof {
        assert(all@.take(n as int) =~= all@);
    }
    r
}

/// Relies on sysinfo's `System::new_all` and `processes`: a snapshot of the
/// OS process table as (identifier, executable path, name) rows. What runs
/// on the machine at that moment decides the rows, so nothing is promised of
/// them.
#[verifier::external_body]
fn system_processes() -> Vec<(u32, String, String)> {
    let sys = sysinfo::System::new_all();
    sys.processes().iter().map(
        |(pid, p)|
            (
                pid.as_u32(),
                p.exe().map(|e| e.to_string_lossy().into_owned()).unwrap_or(String::new()),
                p.name().to_string_lossy().into_owned(),
            ),
    ).collect()
}

/// Relies on sysinfo's `Process::kill`: asks the OS to kill the process with
/// that identifier; whether and when it dies is the OS's business.
#[verifier::external_body]
fn kill(pid: u32) {
    let sys = sysinfo::System::new_all();
    if let Some(process) = sys.process(sysinfo::Pid::from_u32(pid)) {
        process.kill();
    }
}

/// Returns a list of all processes currently running the executable at
/// `path`. The table is the machine's at this instant.
pub fn find_instances(path: &str) -> (r: Vec<(u32, String)>)
    ensures
        exists|all: Seq<(u32, String, String)>| r@ == matching_processes(all, path@),
{
    let all = system_processes();
    let r = filter_processes_by_path(&all, path);
    proof {
        assert(r@ == matching_processes(all@, path@));
    }
    r
}

/// Checks against the live process table whether the process is still
/// running, under its old identifier or an adopted one; the table itself is
/// whatever the machine holds at this instant.
pub fn check_process(path: &str, current_pid: u32) -> (r: Option<u32>)
    ensures
        exists|table: Seq<(u32, String)>| r == find_process_spec(table, current_pid),
{
    let matching = find_instances(path);
    let r = find_process(&matching, current_pid);
    proof {
        assert(r == find_process_spec(matching@, current_pid));
    }
    r
}

/// What one poll of the kill-grace loop does.
#[derive(Copy, Clone, Debug, PartialEq, Eq, Structural)]
pub enum KillStep {
    /// The process ended on its own: nothing left to do.
    Finished,
    /// The grace period is spent and the process is still there: kill it.
    KillNow,
    /// Still alive, still within the grace period: wait one interval.
    KeepWaiting,
}

/// The kill-grace rule: a process that closed on its own is left in peace, a
/// spent grace period with the process still present means a kill, and
/// otherwise the wait goes on.
pub open spec fn kill_decision(process_closed: bool, timeout_passed: bool) -> KillStep {
    if process_closed {
        KillStep::Finished
    } else if timeout_passed {
        KillStep::KillNow
    } else {
        KillStep::KeepWaiting
    }
}

/// Decide one iteration of the kill-grace loop.
pub fn kill_step(process_closed: bool, timeout_passed: bool) -> (r: KillStep)
    ensures
        r == kill_decision(process_closed, timeout_passed),
{
    if process_closed {
        KillStep::Finished
    } else if timeout_passed {
        KillStep::KillNow
    } else {
        KillStep::KeepWaiting
    }
}

/// One poll of the kill-grace loop against the live process table: look the
/// process up, and kill it if its time is up. The decision follows
/// `kill_decision` on what the lookup concluded.
pub fn kill_poll(path: &str, pid: u32, timeout_passed: bool) -> (r: KillStep)
    ensures
        exists|table: Seq<(u32, String)>|
            r == kill_decision(find_process_spec(table, pid) is None, timeout_passed),
{
    let lookup = check_process(path, pid);
    let ghost table = choose|table: Seq<(u32, String)>|
        lookup == find_process_spec(table, pid);
    let closed = lookup.is_none();
    let r = kill_step(closed, timeout_passed);
    if r == KillStep::KillNow {
        kill(pid);
    }
    proof {
        assert(r == kill_decision(find_process_spec(table, pid) is None, timeout_passed));
    }
    r
}

/// The supervision states of the launched process.
#[derive(Copy, Clone, Debug, PartialEq, Eq, Structural)]
pub enum SupervisionState {
    /// The process is believed alive and is being watched.
    Running,
    /// The watcher no longer finds the process; watching has stopped, but
    /// the monitor still waits for the stop command.
    Lost,
    /// Stop was requested with a kill: the process has its grace period.
    AwaitingNaturalExit,
    /// The grace period ran out and the process was killed.
    Killed,
    /// The monitor is done; the supervised run is over.
    Done,
}

/// What the monitor thread observes, one event per wakeup.
#[derive(Copy, Clone, Debug, PartialEq, Eq, Structural)]
pub enum SupervisionEvent {
    /// A table scan found the process, under its old or an adopted
    /// identifier.
    ScanFound,
    /// A table scan found nothing under the launched path.
    ScanLost,
    /// The stop command arrived; `kill` says whether a kill was requested.
    Stop { kill: bool },
    /// A grace-period poll found the process gone.
    KillPollGone,
    /// A grace-period poll found the process still present.
    KillPollAlive { timeout_elapsed: bool },
}

/// Whether a state ends the monitor's work.
pub open spec fn is_terminal(s: SupervisionState) -> bool {
    s == SupervisionState::Done || s == SupervisionState::Killed
}

/// The supervision transition relation: scans move Running to Lost and back
/// never; a stop without kill, or any stop of a lost process, ends the
/// monitor; a stop with kill opens the grace period, whose polls either
/// observe a natural exit, keep waiting, or end in a kill.
pub open spec fn supervision_next(s: SupervisionState, e: SupervisionEvent) -> SupervisionState {
    match (s, e) {
        (SupervisionState::Running, SupervisionEvent::ScanFound) => SupervisionState::Running,
        (SupervisionState::Running, SupervisionEvent::ScanLost) => SupervisionState::Lost,
        (SupervisionState::Running, SupervisionEvent::Stop { kill }) => if kill {
            SupervisionState::AwaitingNaturalExit
        } else {
            SupervisionState::Done
        },
        (SupervisionState::Lost, SupervisionEvent::Stop { .. }) => SupervisionState::Done,
        (SupervisionState::Lost, _) => SupervisionState::Lost,
        (SupervisionState::AwaitingNaturalExit, SupervisionEvent::KillPollGone)
            => SupervisionState::Done,
        (
            SupervisionState::AwaitingNaturalExit,
            SupervisionEvent::KillPollAlive { timeout_elapsed },
        ) => if timeout_elapsed {
            SupervisionState::Killed
        } else {
            SupervisionState::AwaitingNaturalExit
        },
        (SupervisionState::AwaitingNaturalExit, _) => SupervisionState::AwaitingNaturalExit,
        (SupervisionState::Killed, _) => SupervisionState::Killed,
        (SupervisionState::Done, _) => SupervisionState::Done,
        (SupervisionState::Running, _) => SupervisionState::Running,
    }
}

/// Take one supervision step.
pub fn supervise(s: SupervisionState, e: SupervisionEvent) -> (r: SupervisionState)
    ensures
        r == supervision_next(s, e),
{
    match (s, e) {
        (SupervisionState::Running, SupervisionEvent::ScanFound) => SupervisionState::Running,
        (SupervisionState::Running, SupervisionEvent::ScanLost) => SupervisionState::Lost,
        (SupervisionState::Running, SupervisionEvent::Stop { kill }) => if kill {
            SupervisionState::AwaitingNaturalExit
        } else {
            SupervisionState::Done
        },
        (SupervisionState::Lost, SupervisionEvent::Stop { .. }) => SupervisionState::Done,
        (SupervisionState::Lost, _) => SupervisionState::Lost,
        (SupervisionState::AwaitingNaturalExit, SupervisionEvent::KillPollGone)
            => SupervisionState::Done,
        (
            SupervisionState::AwaitingNaturalExit,
            SupervisionEvent::KillPollAlive { timeout_elapsed },
        ) => if timeout_elapsed {
            SupervisionState::Killed
        } else {
            SupervisionState::AwaitingNaturalExit
        },
        (SupervisionState::AwaitingNaturalExit, _) => SupervisionState::AwaitingNaturalExit,
        (SupervisionState::Killed, _) => SupervisionState::Killed,
        (SupervisionState::Done, _) => SupervisionState::Done,
        (SupervisionState::Running, _) => SupervisionState::Running,
    }
}

/// Once the monitor's work is over, no event reopens it.
pub proof fn lemma_terminal_stays(s: SupervisionState, e: SupervisionEvent)
    requires
        is_terminal(s),
    ensures
        is_terminal(supervision_next(s, e)),
{
}

/// A run of backslashes, as UTF-16 units.
pub open spec fn backslashes(count: int) -> Seq<u16>
    decreases count,
{
    if count <= 0 {
        Seq::empty()
    } else {
        backslashes(count - 1) + seq![92u16]
    }
}

/// The escaped tail of an argument from position `i`, with `pending`
/// backslashes already written out: before an inner quote the pending run is
/// doubled plus one more backslash, so the quote survives recovery; before
/// the closing quote the pending run is doubled.
pub open spec fn escaped_tail(a: Seq<u16>, i: int, pending: int) -> Seq<u16>
    decreases a.len() - i,
{
    if i >= a.len() {
        backslashes(pending) + seq![34u16]
    } else if a[i] == 92 {
        seq![92u16] + escaped_tail(a, i + 1, pending + 1)
    } else if a[i] == 34 {
        backslashes(pending + 1) + seq![34u16] + escaped_tail(a, i + 1, 0)
    } else {
        seq![a[i]] + escaped_tail(a, i + 1, 0)
    }
}

/// One argument quoted for the Windows command line, so the spawned process
/// may recover it verbatim.
pub open spec fn quoted_arg(a: Seq<u16>) -> Seq<u16> {
    seq![34u16] + escaped_tail(a, 0, 0)
}

/// The arguments appended to the command line: a space before each, quoted.
pub open spec fn quoted_args(args: Seq<Seq<u16>>) -> Seq<u16>
    decreases args.len(),
{
    if args.len() == 0 {
        Seq::empty()
    } else {
        quoted_args(args.drop_last()) + seq![32u16] + quoted_arg(args.last())
    }
}

/// A unit equals a lowercase ASCII letter, in either case.
pub open spec fn unit_ieq(c: u16, lower: u16) -> bool {
    c == lower || c + 32 == lower
}

/// Whether the program path names a batch script: its file name ends in
/// `.bat` or `.cmd`, in any letter case, with something before the dot.
/// Batch files get one extra pair of quotes around the whole command line.
pub open spec fn spec_is_batch(p: Seq<u16>) -> bool {
    let n = p.len() as int;
    &&& n >= 5
    &&& p[n - 5] != 47
    &&& p[n - 5] != 92
    &&& p[n - 4] == 46
    &&& ((unit_ieq(p[n - 3], 98) && unit_ieq(p[n - 2], 97) && unit_ieq(p[n - 1], 116)) || (
    unit_ieq(p[n - 3], 99) && unit_ieq(p[n - 2], 109) && unit_ieq(p[n - 1], 100)))
}

/// A nul unit somewhere in the text.
pub open spec fn has_nul(a: Seq<u16>) -> bool {
    exists|i: int| 0 <= i < a.len() && a[i] == 0
}

/// Any nul unit in the program path or an argument.
pub open spec fn any_has_nul(prog: Seq<u16>, args: Seq<Seq<u16>>) -> bool {
    has_nul(prog) || exists|j: int| 0 <= j < args.len() && has_nul(#[trigger] args[j])
}

/// The whole command line: the program quoted, each argument after a space,
/// and one more pair of quotes around everything for a batch script.
pub open spec fn spec_command_line(prog: Seq<u16>, args: Seq<Seq<u16>>) -> Seq<u16> {
    let body = quoted_arg(prog) + quoted_args(args);
    if spec_is_batch(prog) {
        seq![34u16] + body + seq![34u16]
    } else {
        body
    }
}

/// Whether the text holds a nul unit.
fn contains_nul(a: &Vec<u16>) -> (r: bool)
    ensures
        r == has_nul(a@),
{
    let n = a.len();
    let mut i: usize = 0;
    while i < n
        invariant
            0 <= i <= n,
            n == a@.len(),
            forall|k: int| 0 <= k < i ==> a@[k] != 0,
        decreases n - i,
    {
        if a[i] == 0 {
            return true;
        }
        i += 1;
    }
    false
}

/// Append `count` backslashes.
fn push_backslashes(cmd: &mut Vec<u16>, count: usize)
    ensures
        final(cmd)@ == old(cmd)@ + backslashes(count as int),
{
    let mut k: usize = 0;
    while k < count
        invariant
            0 <= k <= count,
            cmd@ == old(cmd)@ + backslashes(k as int),
        decreases count - k,
    {
        cmd.push(92);
        proof {
            assert(cmd@ =~= old(cmd)@ + backslashes(k + 1));
        }
        k += 1;
    }
}

/// Append one argument, quoted.
fn append_arg(cmd: &mut Vec<u16>, arg: &Vec<u16>)
    ensures
        final(cmd)@ == old(cmd)@ + quoted_arg(arg@),
{
    cmd.push(34);
    let ghost target = old(cmd)@ + quoted_arg(arg@);
    assert(cmd@ =~= old(cmd)@ + seq![34u16]);
    let n = arg.len();
    let mut pending: usize = 0;
    let mut i: usize = 0;
    while i < n
        invariant
            0 <= i <= n,
            pending <= i,
            n == arg@.len(),
            target == old(cmd)@ + quoted_arg(arg@),
            target == cmd@ + escaped_tail(arg@, i as int, pending as int),
        decreases n - i,
    {
        let x = arg[i];
        if x == 92 {
            cmd.push(92);
            proof {
                assert(cmd@ + escaped_tail(arg@, i + 1, pending + 1) =~= target);
            }
            pending += 1;
        } else if x == 34 {
            push_backslashes(cmd, pending + 1);
            cmd.push(34);
            proof {
                assert(cmd@ + escaped_tail(arg@, i + 1, 0) =~= target);
            }
            pending = 0;
        } else {
            cmd.push(x);
            proof {
                assert(cmd@ + escaped_tail(arg@, i + 1, 0) =~= target);
            }
            pending = 0;
        }
        i += 1;
    }
    push_backslashes(cmd, pending);
    cmd.push(34);
    proof {
        assert(cmd@ =~= target);
    }
}

/// Whether the program path names a batch script.
fn is_batch_file(prog: &Vec<u16>) -> (r: bool)
    ensures
        r == spec_is_batch(prog@),
{
    let n = prog.len();
    if n < 5 {
        return false;
    }
    if prog[n - 5] == 47 || prog[n - 5] == 92 || prog[n - 4] != 46 {
        return false;
    }
    let (c1, c2, c3) = (prog[n - 3], prog[n - 2], prog[n - 1]);
    ((c1 == 98 || c1 == 66) && (c2 == 97 || c2 == 65) && (c3 == 116 || c3 == 84)) || ((c1 == 99
        || c1 == 67) && (c2 == 109 || c2 == 77) && (c3 == 100 || c3 == 68))
}

/// Encode the program and arguments in one command-line string, as UTF-16
/// units without a terminating nul, such that the spawned process may
/// recover them; an embedded nul in any of them is refused.
pub fn make_command_line(prog: &Vec<u16>, args: &Vec<Vec<u16>>) -> (r: Result<
    Vec<u16>,
    LabVIEWError,
>)
    ensures
        match r {
            Ok(cmd) => !any_has_nul(prog@, args.deep_view()) && cmd@ == spec_command_line(
                prog@,
                args.deep_view(),
            ),
            Err(e) => e == LabVIEWError::NullCharInArgument && any_has_nul(
                prog@,
                args.deep_view(),
            ),
        },
{
    let ghost arg_views = args.deep_view();
    if contains_nul(prog) {
        return Err(LabVIEWError::NullCharInArgument);
    }
    let m = args.len();
    let mut j: usize = 0;
    while j < m
        invariant
            0 <= j <= m,
            m == args@.len(),
            arg_views == args.deep_view(),
            arg_views.len() == m,
            forall|k: int| 0 <= k < m ==> arg_views[k] == args@[k]@,
            forall|k: int| 0 <= k < j ==> !has_nul(#[trigger] arg_views[k]),
        decreases m - j,
    {
        if contains_nul(&args[j]) {
            assert(has_nul(arg_views[j as int]));
            return Err(LabVIEWError::NullCharInArgument);
        }
        j += 1;
    }
    let is_batch = is_batch_file(prog);
    let mut cmd: Vec<u16> = Vec::new();
    if is_batch {
        cmd.push(34);
    }
    let ghost lead = cmd@;
    append_arg(&mut cmd, prog);
    let mut j: usize = 0;
    while j < m
        invariant
            0 <= j <= m,
            m == args@.len(),
            arg_views == args.deep_view(),
            arg_views.len() == m,
            forall|k: int| 0 <= k < m ==> arg_views[k] == args@[k]@,
            cmd@ == lead + quoted_arg(prog@) + quoted_args(arg_views.take(j as int)),
        decreases m - j,
    {
        cmd.push(32);
        append_arg(&mut cmd, &args[j]);
        proof {
            assert(arg_views.take(j + 1).drop_last() =~= arg_views.take(j as int));
            assert(arg_views.take(j + 1).last() == arg_views[j as int]);
            assert(cmd@ =~= lead + quoted_arg(prog@) + quoted_args(arg_views.take(j + 1)));
        }
        j += 1;
    }
    proof {
        assert(arg_views.take(m as int) =~= arg_views);
    }
    if is_batch {
        cmd.push(34);
    }
    proof {
        assert(cmd@ =~= spec_command_line(prog@, arg_views));
    }
    Ok(cmd)
}

/// The supervisory record of the launched process that the calling thread
/// keeps: the discovery-service registration, held until the channel
/// connects. The monitor thread itself owns the liveness tracking.
pub struct MonitoredProcess {
    port_registration: Option<Registration>,
}

impl MonitoredProcess {
    /// Whether a registration is still held.
    pub closed spec fn spec_has_registration(self) -> bool {
        self.port_registration is Some
    }

    /// The registration's lease name, where one is held.
    pub closed spec fn spec_registration_id(self) -> Seq<char> {
        self.port_registration.unwrap().spec_id()
    }

    /// Record a fresh launch, with the registration to consume once the
    /// channel connects, if the launch made one.
    pub fn new(port_registration: Option<Registration>) -> (r: Self)
        ensures
            r.spec_has_registration() == port_registration is Some,
            port_registration matches Some(reg) ==> r.spec_registration_id() == reg.spec_id(),
    {
        MonitoredProcess { port_registration }
    }

    /// Registers that the comms are connected, so the discovery-service
    /// advertisement can be withdrawn: consumes and unregisters the
    /// registration. Calling it with no registration held is a no-op and
    /// cannot fail; afterwards no registration is held either way.
    pub fn set_connected(&mut self) -> (r: Result<(), LabVIEWError>)
        ensures
            !final(self).spec_has_registration(),
            !old(self).spec_has_registration() ==> r is Ok,
            match r {
                Ok(()) => true,
                Err(e) => old(self).spec_has_registration() && ((e matches
                LabVIEWError::ServiceLocatorCommsError(_)) || (e matches
                LabVIEWError::ServiceLocatorResponseError(c) && c > 299)),
            },
    {
        let mut port_registration: Option<Registration> = None;
        core::mem::swap(&mut self.port_registration, &mut port_registration);
        match port_registration {
            Some(registration) => registration.unregister(),
            None => Ok(()),
        }
    }
}

} // verus!
