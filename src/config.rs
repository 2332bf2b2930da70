use vstd::prelude::*;

use crate::error::RemoteFsError;
use crate::segments::{same_segments, segments, split_segments, texts};

verus! {

/// The index of the last element of `s` that satisfies `f`.
pub open spec fn last_match<A>(s: Seq<A>, f: spec_fn(A) -> bool) -> Option<int>
    decreases s.len(),
{
    if s.len() == 0 {
        None
    } else if f(s.last()) {
        Some(s.len() - 1)
    } else {
        last_match(s.drop_last(), f)
    }
}

/// One step of a backward scan for the last match.
pub proof fn lemma_last_match_step<A>(s: Seq<A>, f: spec_fn(A) -> bool, i: int)
    requires
        0 < i <= s.len(),
    ensures
        f(s[i - 1]) ==> last_match(s.subrange(0, i), f) == Some(i - 1),
        !f(s[i - 1]) ==> last_match(s.subrange(0, i), f) == last_match(s.subrange(0, i - 1), f),
{
    assert(s.subrange(0, i).drop_last() =~= s.subrange(0, i - 1));
}

/// The last match satisfies `f`, and nothing after it does; without one, nothing does.
pub proof fn lemma_last_match_spec<A>(s: Seq<A>, f: spec_fn(A) -> bool)
    ensures
        match last_match(s, f) {
            Some(k) => 0 <= k < s.len() && f(s[k]) && forall|j: int| k < j < s.len() ==> !f(#[trigger] s[j]),
            None => forall|j: int| 0 <= j < s.len() ==> !f(#[trigger] s[j]),
        },
    decreases s.len(),
{
    if s.len() > 0 && !f(s.last()) {
        lemma_last_match_spec(s.drop_last(), f);
        assert forall|j: int| 0 <= j < s.len() - 1 implies s.drop_last()[j] == s[j] by {}
    }
}

/// The path starts at the root.
pub open spec fn is_abs(s: Seq<char>) -> bool {
    s.len() > 0 && s[0] == '/'
}

/// `p` and `f` name the same path: both absolute or both relative, with
/// the same components.
pub open spec fn same_path(p: Seq<char>, f: Seq<char>) -> bool {
    is_abs(p) == is_abs(f) && segments(p) == segments(f)
}

/// `p` is `d` or lies below it: both absolute or both relative, and the
/// components of `d` start those of `p`.
pub open spec fn is_under(p: Seq<char>, d: Seq<char>) -> bool {
    &&& is_abs(p) == is_abs(d)
    &&& segments(d).len() <= segments(p).len()
    &&& segments(p).subrange(0, segments(d).len() as int) == segments(d)
}

/// Whether the first `d@.len()` characters of `p` are `d`.
fn prefix_matches(p: &str, d: &str) -> (r: bool)
    requires
        d@.len() <= p@.len(),
    ensures
        r == (p@.subrange(0, d@.len() as int) == d@),
{
    let n = d.unicode_len();
    let mut i: usize = 0;
    while i < n
        invariant
            n == d@.len(),
            n <= p@.len(),
            0 <= i <= n,
            forall|j: int| 0 <= j < i ==> p@[j] == d@[j],
        decreases n - i,
    {
        if p.get_char(i) != d.get_char(i) {
            assert(p@.subrange(0, n as int)[i as int] != d@[i as int]);
            return false;
        }
        i = i + 1;
    }
    assert(p@.subrange(0, n as int) =~= d@);
    true
}

/// Whether two strings hold the same characters.
pub fn same_text(a: &str, b: &str) -> (r: bool)
    ensures
        r == (a@ == b@),
{
    if a.unicode_len() != b.unicode_len() {
        return false;
    }
    let m = prefix_matches(a, b);
    assert(a@.subrange(0, b@.len() as int) =~= a@);
    m
}

fn is_absolute(s: &str) -> (r: bool)
    ensures
        r == is_abs(s@),
{
    s.unicode_len() > 0 && s.get_char(0) == '/'
}

/// Whether `p` and `f` name the same path.
pub fn same_path_text(p: &str, f: &str) -> (r: bool)
    ensures
        r == same_path(p@, f@),
{
    if is_absolute(p) != is_absolute(f) {
        return false;
    }
    let sp = split_segments(p);
    let sf = split_segments(f);
    if sp.len() != sf.len() {
        assert(texts(sp@).len() != texts(sf@).len());
        return false;
    }
    let r = same_segments(&sp, &sf, sp.len());
    assert(texts(sp@).subrange(0, sp@.len() as int) =~= texts(sp@));
    assert(texts(sf@).subrange(0, sp@.len() as int) =~= texts(sf@));
    r
}

/// Whether remote path `p` is directory `d` or lies below it.
pub fn path_is_under(p: &str, d: &str) -> (r: bool)
    ensures
        r == is_under(p@, d@),
{
    if is_absolute(p) != is_absolute(d) {
        return false;
    }
    let sp = split_segments(p);
    let sd = split_segments(d);
    if sd.len() > sp.len() {
        return false;
    }
    let r = same_segments(&sp, &sd, sd.len());
    assert(texts(sd@).subrange(0, sd@.len() as int) =~= texts(sd@));
    r
}

/// A copy of an optional string.
pub fn copy_text(o: &Option<String>) -> (r: Option<String>)
    ensures
        r == *o,
{
    match o {
        Some(s) => Some(s.clone()),
        None => None,
    }
}

/// A shell command run on the remote host before or after a change to a
/// governed file.
#[derive(Debug, Clone)]
pub struct RemoteFsHook {
    /// Directory to run the command in; the previous one is restored afterwards.
    pub work_dir: Option<String>,
    pub shell: String,
    /// A nonzero exit is recorded and the plan goes on.
    pub ignore_error: bool,
}

impl RemoteFsHook {
    /// A copy of this hook.
    pub fn duplicate(&self) -> (r: Self)
        ensures
            r == *self,
    {
        RemoteFsHook { work_dir: copy_text(&self.work_dir), shell: self.shell.clone(), ignore_error: self.ignore_error }
    }
}

/// A governed region of one host's remote filesystem, with the ownership,
/// permissions and hooks that apply to its files.
#[derive(Debug, Clone)]
pub struct RemoteFsMount {
    /// Directories under this mount, governed with everything below them.
    pub dirs: Option<Vec<String>>,
    /// Individual files under this mount.
    pub files: Option<Vec<String>>,
    /// Glob patterns (see `matches_any_globs`; an empty set matches
    /// everything). Listing does not apply them: every file found under the
    /// mount is tracked.
    pub globs: Option<Vec<String>>,
    /// UNIX user id.
    pub uid: Option<u32>,
    /// UNIX group id.
    pub gid: Option<u32>,
    /// UNIX permission bits.
    pub mode: Option<u32>,
    /// Hooks run before a governed file is created, modified or deleted.
    pub pre_hooks: Option<Vec<RemoteFsHook>>,
    /// Hooks run after a governed file is created, modified or deleted.
    pub post_hooks: Option<Vec<RemoteFsHook>>,
}

impl RemoteFsMount {
    /// `p` is one of the mount's files, or is at or below one of its
    /// directories; paths are compared by components.
    pub open spec fn governs(&self, p: Seq<char>) -> bool {
        ||| (self.files matches Some(fs) && exists|i: int|
            0 <= i < fs@.len() && same_path(p, (#[trigger] fs@[i])@))
        ||| (self.dirs matches Some(ds) && exists|i: int|
            0 <= i < ds@.len() && is_under(p, (#[trigger] ds@[i])@))
    }

    pub fn path_matches_mount(&self, path: &str) -> (r: bool)
        ensures
            r == self.governs(path@),
    {
        if let Some(files) = &self.files {
            let mut i: usize = 0;
            while i < files.len()
                invariant
                    0 <= i <= files@.len(),
                    self.files == Some(*files),
                    forall|j: int| 0 <= j < i ==> !same_path(path@, (#[trigger] files@[j])@),
                decreases files@.len() - i,
            {
                if same_path_text(path, files[i].as_str()) {
                    assert(same_path(path@, self.files.unwrap()@[i as int]@));
                    return true;
                }
                i = i + 1;
            }
        }
        if let Some(dirs) = &self.dirs {
            let mut i: usize = 0;
            while i < dirs.len()
                invariant
                    0 <= i <= dirs@.len(),
                    self.dirs == Some(*dirs),
                    self.files matches Some(fs) ==> forall|j: int|
                        0 <= j < fs@.len() ==> !same_path(path@, (#[trigger] fs@[j])@),
                    forall|j: int| 0 <= j < i ==> !is_under(path@, (#[trigger] dirs@[j])@),
                decreases dirs@.len() - i,
            {
                if path_is_under(path, dirs[i].as_str()) {
                    assert(is_under(path@, self.dirs.unwrap()@[i as int]@));
                    return true;
                }
                i = i + 1;
            }
        }
        false
    }
}

/// The mount that governs `p`: the last one in declaration order, since
/// mounts are declared from the most general to the most specific.
pub open spec fn governing(mounts: Seq<RemoteFsMount>, p: Seq<char>) -> Option<int> {
    last_match(mounts, |m: RemoteFsMount| m.governs(p))
}

/// One host: how to reach it and the mounts it carries, in declaration order.
#[derive(Debug, Clone)]
pub struct RemoteFsHost {
    pub username: String,
    pub port: u16,
    pub mounts: Vec<RemoteFsMount>,
    pub ssh_private_key_path: String,
    pub ssh_config_path: Option<String>,
}

impl RemoteFsHost {
    /// The index of the mount that governs `remote_path`, if any.
    pub fn governing_mount(&self, remote_path: &str) -> (r: Option<usize>)
        ensures
            match r {
                Some(i) => governing(self.mounts@, remote_path@) == Some(i as int),
                None => governing(self.mounts@, remote_path@) is None,
            },
            r matches Some(i) ==> i < self.mounts@.len() && self.mounts@[i as int].governs(
                remote_path@,
            ) && forall|j: int|
                i < j < self.mounts@.len() ==> !(#[trigger] self.mounts@[j]).governs(remote_path@),
            r is None ==> forall|j: int|
                0 <= j < self.mounts@.len() ==> !(#[trigger] self.mounts@[j]).governs(remote_path@),
    {
        let ghost f = |m: RemoteFsMount| m.governs(remote_path@);
        let mut i: usize = self.mounts.len();
        assert(self.mounts@.subrange(0, i as int) =~= self.mounts@);
        while i > 0
            invariant
                i <= self.mounts@.len(),
                f == (|m: RemoteFsMount| m.governs(remote_path@)),
                last_match(self.mounts@.subrange(0, i as int), f) == governing(
                    self.mounts@,
                    remote_path@,
                ),
            decreases i,
        {
            proof {
                lemma_last_match_step(self.mounts@, f, i as int);
            }
            if self.mounts[i - 1].path_matches_mount(remote_path) {
                proof {
                    lemma_last_match_spec(self.mounts@, f);
                }
                return Some(i - 1);
            }
            i = i - 1;
        }
        proof {
            lemma_last_match_spec(self.mounts@, f);
        }
        None
    }
}

/// The index of the entry named `h`: the last such entry (names are unique
/// in a configuration read from a file).
pub open spec fn host_index(hosts: Seq<(String, RemoteFsHost)>, h: Seq<char>) -> Option<int> {
    last_match(hosts, |e: (String, RemoteFsHost)| e.0@ == h)
}

/// No two entries carry the same host name.
pub open spec fn names_unique(hosts: Seq<(String, RemoteFsHost)>) -> bool {
    forall|i: int, j: int|
        0 <= i < j < hosts.len() ==> (#[trigger] hosts[i]).0@ != (#[trigger] hosts[j]).0@
}

/// Every host, by name. A well-formed configuration (`wf`) names each host
/// once; `from_hosts` builds only such configurations.
#[derive(Debug, Clone)]
pub struct RemoteFsConfig {
    pub hosts: Vec<(String, RemoteFsHost)>,
}

impl RemoteFsConfig {
    pub open spec fn wf(&self) -> bool {
        names_unique(self.hosts@)
    }

    /// The configuration of these hosts; a configuration error where a
    /// host name occurs twice.
    pub fn from_hosts(hosts: Vec<(String, RemoteFsHost)>) -> (r: Result<Self, RemoteFsError>)
        ensures
            match r {
                Ok(c) => c.hosts@ == hosts@ && c.wf(),
                Err(e) => e == RemoteFsError::ConfigError && !names_unique(hosts@),
            },
    {
        let mut j: usize = 0;
        while j < hosts.len()
            invariant
                0 <= j <= hosts@.len(),
                names_unique(hosts@.subrange(0, j as int)),
            decreases hosts@.len() - j,
        {
            let mut i: usize = 0;
            while i < j
                invariant
                    0 <= i <= j < hosts@.len(),
                    forall|k: int| 0 <= k < i ==> (#[trigger] hosts@[k]).0@ != hosts@[j as int].0@,
                decreases j - i,
            {
                if same_text(hosts[i].0.as_str(), hosts[j].0.as_str()) {
                    assert(!names_unique(hosts@)) by {
                        assert(hosts@[i as int].0@ == hosts@[j as int].0@);
                    }
                    return Err(RemoteFsError::ConfigError);
                }
                i = i + 1;
            }
            assert(names_unique(hosts@.subrange(0, j + 1))) by {
                let s = hosts@.subrange(0, j + 1);
                assert forall|a: int, b: int| 0 <= a < b < s.len() implies (#[trigger] s[a]).0@
                    != (#[trigger] s[b]).0@ by {
                    assert(s[a] == hosts@[a]);
                    assert(s[b] == hosts@[b]);
                    if b < j {
                        assert(hosts@.subrange(0, j as int)[a] == hosts@[a]);
                        assert(hosts@.subrange(0, j as int)[b] == hosts@[b]);
                    }
                }
            }
            j = j + 1;
        }
        assert(hosts@.subrange(0, j as int) =~= hosts@);
        Ok(RemoteFsConfig { hosts })
    }

    pub open spec fn has_host(&self, h: Seq<char>) -> bool {
        host_index(self.hosts@, h) is Some
    }

    /// The host named `h`.
    pub open spec fn host_view(&self, h: Seq<char>) -> RemoteFsHost {
        self.hosts@[host_index(self.hosts@, h).unwrap()].1
    }

    /// The index of the host named `hostname`, if there is one.
    pub fn find_host(&self, hostname: &str) -> (r: Option<usize>)
        ensures
            match r {
                Some(i) => host_index(self.hosts@, hostname@) == Some(i as int),
                None => host_index(self.hosts@, hostname@) is None,
            },
            r matches Some(i) ==> i < self.hosts@.len() && self.hosts@[i as int].0@ == hostname@,
            r matches Some(i) ==> (self.wf() ==> forall|j: int|
                0 <= j < self.hosts@.len() && j != i ==> (#[trigger] self.hosts@[j]).0@
                    != hostname@),
            r is None ==> forall|j: int|
                0 <= j < self.hosts@.len() ==> (#[trigger] self.hosts@[j]).0@ != hostname@,
    {
        let ghost f = |e: (String, RemoteFsHost)| e.0@ == hostname@;
        let mut i: usize = self.hosts.len();
        assert(self.hosts@.subrange(0, i as int) =~= self.hosts@);
        while i > 0
            invariant
                i <= self.hosts@.len(),
                f == (|e: (String, RemoteFsHost)| e.0@ == hostname@),
                last_match(self.hosts@.subrange(0, i as int), f) == host_index(
                    self.hosts@,
                    hostname@,
                ),
            decreases i,
        {
            proof {
                lemma_last_match_step(self.hosts@, f, i as int);
            }
            if same_text(self.hosts[i - 1].0.as_str(), hostname) {
                proof {
                    lemma_last_match_spec(self.hosts@, f);
                }
                return Some(i - 1);
            }
            i = i - 1;
        }
        proof {
            lemma_last_match_spec(self.hosts@, f);
        }
        None
    }
}

} // verus!
