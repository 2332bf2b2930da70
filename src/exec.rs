use vstd::prelude::*;

use crate::addr::{decode_view, encode_view, remote_view, RemoteFsPath};
use crate::config::{copy_text, governing, RemoteFsConfig, RemoteFsHook};
use crate::error::RemoteFsError;
use crate::plan::RemoteFsConnectorOp;

verus! {

/// Ownership and permissions to give a remote file; `None` keeps the
/// remote default.
#[derive(Debug, Clone, Copy, PartialEq, Eq, Structural)]
pub struct FileMeta {
    pub uid: Option<u32>,
    pub gid: Option<u32>,
    pub mode: Option<u32>,
}

/// The remote work that one planned step comes down to.
#[derive(Debug)]
pub enum RemoteAction {
    /// Create `remote_path` with `meta`, sized to the local file at
    /// `local_path` (a logical path, under the local tree), and write its content.
    Upload { remote_path: String, local_path: String, meta: FileMeta },
    /// Remove `remote_path`.
    Remove { remote_path: String },
    /// Run `command` on the host (see `hook_command`). The caller first
    /// checks that `work_dir`, if given, is a directory, and reports a
    /// failed step otherwise, so that a hook never runs silently elsewhere.
    RunHook { command: String, work_dir: Option<String> },
}

/// `s` with each single quote written as `'\''`, so that it can stand
/// between single quotes in a shell command.
pub open spec fn escape_quotes(s: Seq<char>) -> Seq<char>
    decreases s.len(),
{
    if s.len() == 0 {
        Seq::empty()
    } else {
        escape_quotes(s.drop_last()) + if s.last() == '\'' {
            seq!['\'', '\\', '\'', '\'']
        } else {
            seq![s.last()]
        }
    }
}

/// The command that runs a hook: its shell text, preceded by a change into
/// its working directory when it has one. A remote command runs in a shell
/// of its own (the transport offers no persistent working directory to
/// change and restore), so the change holds for that command alone and the
/// session is left as it was, whether the hook succeeds or fails.
pub open spec fn hook_command_view(hook: RemoteFsHook) -> Seq<char> {
    match hook.work_dir {
        Some(d) => seq!['c', 'd', ' ', '\''] + escape_quotes(d@) + seq!['\'', ' ', '&', '&', ' ']
            + hook.shell@,
        None => hook.shell@,
    }
}

/// The command that runs `hook` on its host.
pub fn hook_command(hook: &RemoteFsHook) -> (r: String)
    ensures
        r@ == hook_command_view(*hook),
{
    match &hook.work_dir {
        None => hook.shell.clone(),
        Some(d) => {
            let d = d.as_str();
            let n = d.unicode_len();
            let mut out = String::from_str("cd '");
            proof {
                reveal_strlit("cd '");
                reveal_strlit("'\\''");
                reveal_strlit("' && ");
            }
            let ghost head = out@;
            let mut i: usize = 0;
            while i < n
                invariant
                    0 <= i <= n,
                    n == d@.len(),
                    head == seq!['c', 'd', ' ', '\''],
                    "'\\''"@ == seq!['\'', '\\', '\'', '\''],
                    out@ == head + escape_quotes(d@.subrange(0, i as int)),
                decreases n - i,
            {
                if d.get_char(i) == '\'' {
                    out.append("'\\''");
                } else {
                    out.append(d.substring_char(i, i + 1));
                }
                assert(d@.subrange(0, i + 1).drop_last() =~= d@.subrange(0, i as int));
                i = i + 1;
                assert(out@ =~= head + escape_quotes(d@.subrange(0, i as int)));
            }
            assert(d@.subrange(0, i as int) =~= d@);
            out.append("' && ");
            out.append(hook.shell.as_str());
            assert(out@ =~= hook_command_view(*hook));
            out
        },
    }
}

impl RemoteFsConfig {
    /// The metadata for remote path `p` on host `h`: that of the governing
    /// mount, or none at all.
    pub open spec fn meta_view(&self, h: Seq<char>, p: Seq<char>) -> FileMeta {
        let mounts = self.host_view(h).mounts@;
        match governing(mounts, p) {
            Some(i) => FileMeta { uid: mounts[i].uid, gid: mounts[i].gid, mode: mounts[i].mode },
            None => FileMeta { uid: None, gid: None, mode: None },
        }
    }

    /// `action` carries out `op` on the file at remote path `p` (relative to
    /// the root) of host `h`.
    pub open spec fn carries_out(
        &self,
        h: Seq<char>,
        p: Seq<char>,
        op: RemoteFsConnectorOp,
        action: RemoteAction,
    ) -> bool {
        match (op, action) {
            (
                RemoteFsConnectorOp::Copy,
                RemoteAction::Upload { remote_path, local_path, meta },
            ) => remote_path@ == remote_view(p) && local_path@ == encode_view(h, p) && meta
                == self.meta_view(h, remote_view(p)),
            (RemoteFsConnectorOp::Delete, RemoteAction::Remove { remote_path }) => remote_path@
                == remote_view(p),
            (RemoteFsConnectorOp::Exec(hook), RemoteAction::RunHook { command, work_dir }) => command@
                == hook_command_view(hook) && work_dir == hook.work_dir,
            _ => false,
        }
    }

    /// The remote work for step `op` on the file at logical path `addr`.
    /// Fails before any remote call where `addr` does not decode or names a
    /// host outside the configuration.
    pub fn prepare(&self, addr: &str, op: &RemoteFsConnectorOp) -> (r: Result<
        RemoteAction,
        RemoteFsError,
    >)
        ensures
            match decode_view(addr@) {
                None => r == Err::<RemoteAction, RemoteFsError>(RemoteFsError::AddressError),
                Some((h, p)) => if self.has_host(h) {
                    r matches Ok(a) && self.carries_out(h, p, *op, a)
                } else {
                    r == Err::<RemoteAction, RemoteFsError>(RemoteFsError::ConfigError)
                },
            },
    {
        let a = match RemoteFsPath::from_path(addr) {
            Some(a) => a,
            None => return Err(RemoteFsError::AddressError),
        };
        let k = match self.find_host(a.hostname.as_str()) {
            Some(k) => k,
            None => return Err(RemoteFsError::ConfigError),
        };
        let remote_path = a.remote_path();
        match op {
            RemoteFsConnectorOp::Copy => {
                let mounts = &self.hosts[k].1.mounts;
                let meta = match self.hosts[k].1.governing_mount(remote_path.as_str()) {
                    Some(i) => FileMeta { uid: mounts[i].uid, gid: mounts[i].gid, mode: mounts[i].mode },
                    None => FileMeta { uid: None, gid: None, mode: None },
                };
                let local_path = a.to_path_buf();
                Ok(RemoteAction::Upload { remote_path, local_path, meta })
            },
            RemoteFsConnectorOp::Delete => Ok(RemoteAction::Remove { remote_path }),
            RemoteFsConnectorOp::Exec(hook) => Ok(
                RemoteAction::RunHook {
                    command: hook_command(hook),
                    work_dir: copy_text(&hook.work_dir),
                },
            ),
        }
    }
}

/// A hook that exited with `exit_code` fails the plan unless the exit is
/// zero or the hook ignores errors.
pub open spec fn hook_result(hook: RemoteFsHook, exit_code: u32) -> Result<(), RemoteFsError> {
    if exit_code != 0 && !hook.ignore_error {
        Err(RemoteFsError::HookFailure(exit_code))
    } else {
        Ok(())
    }
}

/// What became of a hook run that exited with `exit_code`.
pub fn hook_outcome(hook: &RemoteFsHook, exit_code: u32) -> (r: Result<(), RemoteFsError>)
    ensures
        r == hook_result(*hook, exit_code),
{
    if exit_code != 0 && !hook.ignore_error {
        Err(RemoteFsError::HookFailure(exit_code))
    } else {
        Ok(())
    }
}

/// How one step of a plan went.
#[derive(Debug, Clone, Copy, PartialEq, Eq, Structural)]
pub enum StepReport {
    /// A copy or delete completed.
    Succeeded,
    /// A hook ran and exited with this status.
    HookExited(u32),
    /// The step failed with this error.
    Failed(RemoteFsError),
}

/// The step still to run: the next one, unless the plan failed or is over.
pub open spec fn pending_step(
    ops: Seq<RemoteFsConnectorOp>,
    next: int,
    failure: Option<RemoteFsError>,
) -> Option<RemoteFsConnectorOp> {
    if failure is None && 0 <= next < ops.len() {
        Some(ops[next])
    } else {
        None
    }
}

/// Position and failure after `report` on the pending step. A report that
/// does not fit the pending step (a hook exit for a copy, a plain success
/// for a hook, any report once the plan is over) changes nothing.
pub open spec fn after_report(
    ops: Seq<RemoteFsConnectorOp>,
    next: int,
    failure: Option<RemoteFsError>,
    report: StepReport,
) -> (int, Option<RemoteFsError>) {
    match pending_step(ops, next, failure) {
        None => (next, failure),
        Some(op) => match (op, report) {
            (_, StepReport::Failed(e)) => (next, Some(e)),
            (RemoteFsConnectorOp::Exec(h), StepReport::HookExited(c)) => match hook_result(h, c) {
                Ok(_) => (next + 1, None),
                Err(e) => (next, Some(e)),
            },
            (RemoteFsConnectorOp::Exec(_), StepReport::Succeeded) => (next, failure),
            (_, StepReport::HookExited(_)) => (next, failure),
            (_, StepReport::Succeeded) => (next + 1, None),
        },
    }
}

/// A hook that exits nonzero while ignoring errors lets the next step run;
/// one that does not ignore them stops the plan with a hook failure.
pub proof fn lemma_hook_error_isolation(
    ops: Seq<RemoteFsConnectorOp>,
    next: int,
    hook: RemoteFsHook,
    exit_code: u32,
)
    requires
        0 <= next < ops.len(),
        ops[next] == RemoteFsConnectorOp::Exec(hook),
        exit_code != 0,
    ensures
        hook.ignore_error ==> after_report(ops, next, None, StepReport::HookExited(exit_code)) == (
        next + 1, None::<RemoteFsError>) && (next + 1 < ops.len() ==> pending_step(
            ops,
            next + 1,
            None,
        ) == Some(ops[next + 1])),
        !hook.ignore_error ==> after_report(ops, next, None, StepReport::HookExited(exit_code))
            == (next, Some(RemoteFsError::HookFailure(exit_code))) && pending_step(
            ops,
            next,
            Some(RemoteFsError::HookFailure(exit_code)),
        ) is None,
{
}

/// A plan being carried out, one step at a time, strictly in order.
pub struct PlanRun {
    pub ops: Vec<RemoteFsConnectorOp>,
    /// Index of the next step to run.
    pub next: usize,
    /// The error that stopped the plan, if any.
    pub failure: Option<RemoteFsError>,
    /// Nonzero exits of hooks that ignore errors, in order.
    pub ignored_exits: Vec<u32>,
}

impl PlanRun {
    pub fn new(ops: Vec<RemoteFsConnectorOp>) -> (r: Self)
        ensures
            r.ops@ == ops@,
            r.next == 0,
            r.failure is None,
            r.ignored_exits@.len() == 0,
    {
        PlanRun { ops, next: 0, failure: None, ignored_exits: Vec::new() }
    }

    /// The step to run now; `None` once the plan failed or is over.
    pub fn pending(&self) -> (r: Option<RemoteFsConnectorOp>)
        ensures
            r == pending_step(self.ops@, self.next as int, self.failure),
    {
        if self.failure.is_none() && self.next < self.ops.len() {
            Some(self.ops[self.next].duplicate())
        } else {
            None
        }
    }

    /// Records how the pending step went.
    pub fn report(&mut self, report: StepReport)
        ensures
            final(self).ops@ == old(self).ops@,
            (final(self).next as int, final(self).failure) == after_report(
                old(self).ops@,
                old(self).next as int,
                old(self).failure,
                report,
            ),
            final(self).ignored_exits@ == (match (
                pending_step(old(self).ops@, old(self).next as int, old(self).failure),
                report,
            ) {
                (Some(RemoteFsConnectorOp::Exec(h)), StepReport::HookExited(c)) => if c != 0
                    && h.ignore_error {
                    old(self).ignored_exits@.push(c)
                } else {
                    old(self).ignored_exits@
                },
                _ => old(self).ignored_exits@,
            }),
    {
        if self.failure.is_some() || self.next >= self.ops.len() {
            return ;
        }
        let i = self.next;
        match report {
            StepReport::Failed(e) => {
                self.failure = Some(e);
            },
            StepReport::HookExited(c) => {
                if let RemoteFsConnectorOp::Exec(h) = &self.ops[i] {
                    match hook_outcome(h, c) {
                        Ok(_) => {
                            if c != 0 {
                                self.ignored_exits.push(c);
                            }
                            self.next = i + 1;
                        },
                        Err(e) => {
                            self.failure = Some(e);
                        },
                    }
                }
            },
            StepReport::Succeeded => {
                match &self.ops[i] {
                    RemoteFsConnectorOp::Exec(_) => {},
                    _ => {
                        self.next = i + 1;
                    },
                }
            },
        }
    }

    /// `None` while steps remain; then success, or the error that stopped the plan.
    pub fn outcome(&self) -> (r: Option<Result<(), RemoteFsError>>)
        ensures
            match self.failure {
                Some(e) => r == Some(Err::<(), RemoteFsError>(e)),
                None => if self.next < self.ops@.len() {
                    r is None
                } else {
                    r == Some(Ok::<(), RemoteFsError>(()))
                },
            },
    {
        match self.failure {
            Some(e) => Some(Err(e)),
            None => if self.next < self.ops.len() {
                None
            } else {
                Some(Ok(()))
            },
        }
    }
}

} // verus!
