use vstd::prelude::*;

use crate::config::{RemoteFsConfig, RemoteFsHost, RemoteFsMount};
use crate::segments::{same_segments, segments, split_segments, texts};

verus! {

/// A remote place that listing every tracked file must look at.
#[derive(Debug)]
pub enum ScanTarget {
    /// Walk the tree at `dir` (see `TreeWalk`); every file found is tracked.
    Tree { hostname: String, dir: String },
    /// Check that `path` exists; if so it is tracked.
    File { hostname: String, path: String },
}

pub enum TargetView {
    Tree(Seq<char>, Seq<char>),
    File(Seq<char>, Seq<char>),
}

impl ScanTarget {
    pub open spec fn view(&self) -> TargetView {
        match self {
            ScanTarget::Tree { hostname, dir } => TargetView::Tree(hostname@, dir@),
            ScanTarget::File { hostname, path } => TargetView::File(hostname@, path@),
        }
    }
}

pub open spec fn target_views(v: Seq<ScanTarget>) -> Seq<TargetView> {
    v.map_values(|t: ScanTarget| t.view())
}

pub open spec fn paths_of(v: Option<Vec<String>>) -> Seq<String> {
    match v {
        Some(v) => v@,
        None => Seq::empty(),
    }
}

pub open spec fn tree_targets(h: Seq<char>, dirs: Seq<String>) -> Seq<TargetView> {
    Seq::new(dirs.len(), |i: int| TargetView::Tree(h, dirs[i]@))
}

pub open spec fn file_targets(h: Seq<char>, files: Seq<String>) -> Seq<TargetView> {
    Seq::new(files.len(), |i: int| TargetView::File(h, files[i]@))
}

/// A mount's directories to walk, then its files to check.
pub open spec fn mount_targets(h: Seq<char>, m: RemoteFsMount) -> Seq<TargetView> {
    tree_targets(h, paths_of(m.dirs)) + file_targets(h, paths_of(m.files))
}

/// The targets of each mount of one host, in declaration order.
pub open spec fn host_targets(h: Seq<char>, mounts: Seq<RemoteFsMount>) -> Seq<TargetView>
    decreases mounts.len(),
{
    if mounts.len() == 0 {
        Seq::empty()
    } else {
        host_targets(h, mounts.drop_last()) + mount_targets(h, mounts.last())
    }
}

/// The targets of each host, in configuration order.
pub open spec fn config_targets(hosts: Seq<(String, RemoteFsHost)>) -> Seq<TargetView>
    decreases hosts.len(),
{
    if hosts.len() == 0 {
        Seq::empty()
    } else {
        config_targets(hosts.drop_last()) + host_targets(hosts.last().0@, hosts.last().1.mounts@)
    }
}

/// Appends one target per path, built by `tree` (directories) or not (files).
fn push_targets(out: &mut Vec<ScanTarget>, hostname: &String, paths: &Option<Vec<String>>, tree: bool)
    ensures
        target_views(final(out)@) == target_views(old(out)@) + if tree {
            tree_targets(hostname@, paths_of(*paths))
        } else {
            file_targets(hostname@, paths_of(*paths))
        },
{
    let ghost f = |ps: Seq<String>|
        if tree {
            tree_targets(hostname@, ps)
        } else {
            file_targets(hostname@, ps)
        };
    if let Some(ps) = paths {
        let mut i: usize = 0;
        while i < ps.len()
            invariant
                0 <= i <= ps@.len(),
                *paths == Some(*ps),
                f == (|ps: Seq<String>|
                    if tree {
                        tree_targets(hostname@, ps)
                    } else {
                        file_targets(hostname@, ps)
                    }),
                target_views(out@) == target_views(old(out)@) + f(ps@.subrange(0, i as int)),
            decreases ps@.len() - i,
        {
            let ghost before = out@;
            let t = if tree {
                ScanTarget::Tree { hostname: hostname.clone(), dir: ps[i].clone() }
            } else {
                ScanTarget::File { hostname: hostname.clone(), path: ps[i].clone() }
            };
            out.push(t);
            i = i + 1;
            assert(target_views(out@) =~= target_views(before).push(t.view()));
            assert(f(ps@.subrange(0, i as int)) =~= f(ps@.subrange(0, i - 1)).push(t.view()));
        }
        assert(ps@.subrange(0, i as int) =~= ps@);
    } else {
        assert(f(Seq::empty()) =~= Seq::empty());
        assert(target_views(old(out)@) + f(Seq::empty()) =~= target_views(old(out)@));
    }
}

/// Logical path `addr` lies in `scope`: the components of `scope` start
/// those of `addr`.
pub open spec fn in_scope(addr: Seq<char>, scope: Seq<char>) -> bool {
    segments(scope).len() <= segments(addr).len() && segments(addr).subrange(
        0,
        segments(scope).len() as int,
    ) == segments(scope)
}

/// Whether the logical path `addr` lies in `scope`, as a listing of that
/// scope keeps it.
pub fn under_scope(addr: &str, scope: &str) -> (r: bool)
    ensures
        r == in_scope(addr@, scope@),
{
    let sa = split_segments(addr);
    let ss = split_segments(scope);
    if ss.len() > sa.len() {
        return false;
    }
    let r = same_segments(&sa, &ss, ss.len());
    assert(texts(ss@).subrange(0, ss@.len() as int) =~= texts(ss@));
    r
}

impl RemoteFsConfig {
    /// Every directory tree to walk and every file to check to list all
    /// tracked files: host by host, mount by mount, directories before files.
    pub fn scan_targets(&self) -> (r: Vec<ScanTarget>)
        ensures
            target_views(r@) == config_targets(self.hosts@),
    {
        let mut out: Vec<ScanTarget> = Vec::new();
        let mut k: usize = 0;
        assert(target_views(out@) =~= Seq::empty());
        while k < self.hosts.len()
            invariant
                0 <= k <= self.hosts@.len(),
                target_views(out@) == config_targets(self.hosts@.subrange(0, k as int)),
            decreases self.hosts@.len() - k,
        {
            let hostname = &self.hosts[k].0;
            let mounts = &self.hosts[k].1.mounts;
            let ghost start = target_views(out@);
            let mut j: usize = 0;
            while j < mounts.len()
                invariant
                    0 <= j <= mounts@.len(),
                    k < self.hosts@.len(),
                    *hostname == self.hosts@[k as int].0,
                    *mounts == self.hosts@[k as int].1.mounts,
                    target_views(out@) == start + host_targets(
                        hostname@,
                        mounts@.subrange(0, j as int),
                    ),
                decreases mounts@.len() - j,
            {
                push_targets(&mut out, hostname, &mounts[j].dirs, true);
                push_targets(&mut out, hostname, &mounts[j].files, false);
                j = j + 1;
                assert(mounts@.subrange(0, j as int).drop_last() =~= mounts@.subrange(
                    0,
                    j - 1,
                ));
                assert(target_views(out@) =~= start + host_targets(
                    hostname@,
                    mounts@.subrange(0, j as int),
                ));
            }
            assert(mounts@.subrange(0, j as int) =~= mounts@);
            k = k + 1;
            assert(self.hosts@.subrange(0, k as int).drop_last() =~= self.hosts@.subrange(
                0,
                k - 1,
            ));
        }
        assert(self.hosts@.subrange(0, k as int) =~= self.hosts@);
        out
    }
}

} // verus!
