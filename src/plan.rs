use vstd::prelude::*;

use crate::addr::{decode_view, remote_view, RemoteFsPath};
use crate::config::{governing, RemoteFsConfig, RemoteFsHook, RemoteFsHost, RemoteFsMount};
use crate::error::RemoteFsError;

verus! {

/// One step of a plan for one remote file.
#[derive(Debug, Clone)]
pub enum RemoteFsConnectorOp {
    /// Write the desired content to the remote file, with the governing
    /// mount's ownership and permissions.
    Copy,
    /// Remove the remote file.
    Delete,
    /// Run a hook on the host.
    Exec(RemoteFsHook),
}

impl RemoteFsConnectorOp {
    /// A copy of this step.
    pub fn duplicate(&self) -> (r: Self)
        ensures
            r == *self,
    {
        match self {
            RemoteFsConnectorOp::Copy => RemoteFsConnectorOp::Copy,
            RemoteFsConnectorOp::Delete => RemoteFsConnectorOp::Delete,
            RemoteFsConnectorOp::Exec(h) => RemoteFsConnectorOp::Exec(h.duplicate()),
        }
    }
}

/// The hooks of an optional list; none when it is absent.
pub open spec fn hook_list(hooks: Option<Vec<RemoteFsHook>>) -> Seq<RemoteFsHook> {
    match hooks {
        Some(v) => v@,
        None => Seq::empty(),
    }
}

/// One `Exec` step per hook, in order.
pub open spec fn exec_ops(hooks: Seq<RemoteFsHook>) -> Seq<RemoteFsConnectorOp> {
    Seq::new(hooks.len(), |i: int| RemoteFsConnectorOp::Exec(hooks[i]))
}

/// The step that turns the current presence into the desired one.
pub open spec fn core_ops(current: bool, desired: bool) -> Seq<RemoteFsConnectorOp> {
    if desired {
        seq![RemoteFsConnectorOp::Copy]
    } else if current {
        seq![RemoteFsConnectorOp::Delete]
    } else {
        Seq::empty()
    }
}

/// The plan for remote path `p` under `mounts`: nothing when the file
/// neither exists nor is wanted; otherwise the governing mount's pre-hooks,
/// the core step, then its post-hooks.
pub open spec fn planned(
    mounts: Seq<RemoteFsMount>,
    p: Seq<char>,
    current: bool,
    desired: bool,
) -> Seq<RemoteFsConnectorOp> {
    if !current && !desired {
        Seq::empty()
    } else {
        match governing(mounts, p) {
            Some(i) => exec_ops(hook_list(mounts[i].pre_hooks)) + core_ops(current, desired)
                + exec_ops(hook_list(mounts[i].post_hooks)),
            None => core_ops(current, desired),
        }
    }
}

/// No mount governs `p`, or the one that does has no hooks.
pub open spec fn unhooked(mounts: Seq<RemoteFsMount>, p: Seq<char>) -> bool {
    match governing(mounts, p) {
        Some(i) => hook_list(mounts[i].pre_hooks).len() == 0 && hook_list(
            mounts[i].post_hooks,
        ).len() == 0,
        None => true,
    }
}

/// Without hooks a plan is the core step alone: nothing when neither side
/// is present, one `Delete` when only the current file is, and one `Copy`
/// whenever the file is wanted.
pub proof fn lemma_plan_by_presence(mounts: Seq<RemoteFsMount>, p: Seq<char>)
    requires
        unhooked(mounts, p),
    ensures
        planned(mounts, p, false, false) == Seq::<RemoteFsConnectorOp>::empty(),
        planned(mounts, p, true, false) == seq![RemoteFsConnectorOp::Delete],
        planned(mounts, p, false, true) == seq![RemoteFsConnectorOp::Copy],
        planned(mounts, p, true, true) == seq![RemoteFsConnectorOp::Copy],
{
    if let Some(i) = governing(mounts, p) {
        assert(exec_ops(hook_list(mounts[i].pre_hooks)) =~= Seq::empty());
        assert(exec_ops(hook_list(mounts[i].post_hooks)) =~= Seq::empty());
        assert(planned(mounts, p, true, false) =~= seq![RemoteFsConnectorOp::Delete]);
        assert(planned(mounts, p, false, true) =~= seq![RemoteFsConnectorOp::Copy]);
        assert(planned(mounts, p, true, true) =~= seq![RemoteFsConnectorOp::Copy]);
    }
}

/// Appends one `Exec` step per hook.
fn push_hooks(out: &mut Vec<RemoteFsConnectorOp>, hooks: &Option<Vec<RemoteFsHook>>)
    ensures
        final(out)@ == old(out)@ + exec_ops(hook_list(*hooks)),
{
    if let Some(hs) = hooks {
        let mut i: usize = 0;
        while i < hs.len()
            invariant
                0 <= i <= hs@.len(),
                *hooks == Some(*hs),
                out@ == old(out)@ + exec_ops(hs@.subrange(0, i as int)),
            decreases hs@.len() - i,
        {
            out.push(RemoteFsConnectorOp::Exec(hs[i].duplicate()));
            i = i + 1;
            assert(exec_ops(hs@.subrange(0, i as int)) =~= exec_ops(hs@.subrange(0, i - 1))
                + seq![RemoteFsConnectorOp::Exec(hs@[i - 1])]);
        }
        assert(hs@.subrange(0, i as int) =~= hs@);
    } else {
        assert(old(out)@ + exec_ops(hook_list(*hooks)) =~= old(out)@);
    }
}

impl RemoteFsHost {
    /// The steps that bring `remote_path` from the current presence to the
    /// desired one, bracketed by the governing mount's hooks.
    pub fn plan_ops(&self, remote_path: &str, current: bool, desired: bool) -> (r: Vec<
        RemoteFsConnectorOp,
    >)
        ensures
            r@ == planned(self.mounts@, remote_path@, current, desired),
    {
        let mut res: Vec<RemoteFsConnectorOp> = Vec::new();
        if !current && !desired {
            return res;
        }
        let g = self.governing_mount(remote_path);
        if let Some(i) = g {
            push_hooks(&mut res, &self.mounts[i].pre_hooks);
        }
        if desired {
            res.push(RemoteFsConnectorOp::Copy);
        } else {
            res.push(RemoteFsConnectorOp::Delete);
        }
        if let Some(i) = g {
            push_hooks(&mut res, &self.mounts[i].post_hooks);
        }
        assert(res@ =~= planned(self.mounts@, remote_path@, current, desired));
        res
    }
}

impl RemoteFsConfig {
    /// Whether `addr` names a file on a configured host.
    pub open spec fn owns(&self, addr: Seq<char>) -> bool {
        match decode_view(addr) {
            Some((h, _)) => self.has_host(h),
            None => false,
        }
    }

    /// The plan for the file at logical path `addr`: an address error where
    /// it does not decode, a configuration error for a host outside the
    /// configuration.
    pub open spec fn plan_view(&self, addr: Seq<char>, current: bool, desired: bool) -> Result<
        Seq<RemoteFsConnectorOp>,
        RemoteFsError,
    > {
        match decode_view(addr) {
            None => Err(RemoteFsError::AddressError),
            Some((h, p)) => if self.has_host(h) {
                Ok(planned(self.host_view(h).mounts@, remote_view(p), current, desired))
            } else {
                Err(RemoteFsError::ConfigError)
            },
        }
    }

    /// Whether the logical path `addr` names a file on a configured host.
    pub fn filter(&self, addr: &str) -> (r: bool)
        ensures
            r == self.owns(addr@),
    {
        match RemoteFsPath::from_path(addr) {
            Some(a) => self.find_host(a.hostname.as_str()).is_some(),
            None => false,
        }
    }

    /// The steps for the file at logical path `addr`, given its current and
    /// desired content; only their presence matters.
    pub fn plan(&self, addr: &str, current: Option<Vec<u8>>, desired: Option<Vec<u8>>) -> (r:
        Result<Vec<RemoteFsConnectorOp>, RemoteFsError>)
        ensures
            match r {
                Ok(ops) => self.plan_view(addr@, current is Some, desired is Some) == Ok::<
                    Seq<RemoteFsConnectorOp>,
                    RemoteFsError,
                >(ops@),
                Err(e) => self.plan_view(addr@, current is Some, desired is Some) == Err::<
                    Seq<RemoteFsConnectorOp>,
                    RemoteFsError,
                >(e),
            },
    {
        let a = match RemoteFsPath::from_path(addr) {
            Some(a) => a,
            None => return Err(RemoteFsError::AddressError),
        };
        let i = match self.find_host(a.hostname.as_str()) {
            Some(i) => i,
            None => return Err(RemoteFsError::ConfigError),
        };
        let remote = a.remote_path();
        Ok(self.hosts[i].1.plan_ops(remote.as_str(), current.is_some(), desired.is_some()))
    }
}

} // verus!
