use vstd::prelude::*;

use crate::config::same_text;
use crate::segments::{
    has_slash, join, join_from, lemma_run_append, lemma_run_prefix, lemma_run_slash,
    lemma_run_word, lemma_segments_join, lemma_segments_words, segments, split_run,
    split_segments, split_start,
};

verus! {

/// The first segment of every logical address that this engine owns.
pub open spec fn namespace_view() -> Seq<char> {
    seq!['r', 'e', 'm', 'o', 't', 'e', 'f', 's']
}

/// The namespace segment followed by its separator.
pub open spec fn namespace_prefix() -> Seq<char> {
    namespace_view() + seq!['/']
}

/// `p` without one leading separator, if it has one.
pub open spec fn strip_root(p: Seq<char>) -> Seq<char> {
    if p.len() > 0 && p[0] == '/' {
        p.subrange(1, p.len() as int)
    } else {
        p
    }
}

/// The logical path of `path` on `hostname`: `remotefs/<hostname>/<path>`,
/// with the leading separator of `path` dropped.
pub open spec fn encode_view(hostname: Seq<char>, path: Seq<char>) -> Seq<char> {
    namespace_prefix() + hostname + seq!['/'] + strip_root(path)
}

/// The (hostname, remote path) pair that `logical` names: its first
/// component is the namespace, its second the hostname, and the rest,
/// joined with single separators, the remote path. Repeated, leading and
/// trailing separators do not count.
pub open spec fn decode_view(logical: Seq<char>) -> Option<(Seq<char>, Seq<char>)> {
    let ss = segments(logical);
    if ss.len() >= 2 && ss[0] == namespace_view() {
        Some((ss[1], join(ss.subrange(2, ss.len() as int))))
    } else {
        None
    }
}

proof fn lemma_segments_strip_root(p: Seq<char>)
    ensures
        segments(strip_root(p)) == segments(p),
{
    if p.len() > 0 && p[0] == '/' {
        let sr = strip_root(p);
        assert(p =~= seq!['/'] + sr);
        lemma_run_append(split_start(), seq!['/'], sr);
        lemma_run_slash(split_start());
    }
}

/// The components of a logical path: the namespace, the host, then those
/// of the remote path.
proof fn lemma_segments_encode(hostname: Seq<char>, path: Seq<char>)
    requires
        hostname.len() > 0,
        !has_slash(hostname),
    ensures
        segments(encode_view(hostname, path)) == seq![namespace_view(), hostname] + segments(path),
{
    let ns = namespace_view();
    let np = namespace_prefix();
    let sr = strip_root(path);
    let e: Seq<Seq<char>> = Seq::empty();
    let z: Seq<char> = Seq::empty();
    assert(!has_slash(ns)) by {
        assert forall|i: int| 0 <= i < ns.len() implies ns[i] != '/' by {}
    }
    lemma_run_word(split_start(), ns);
    assert(z + ns =~= ns);
    lemma_run_append(split_start(), ns, seq!['/']);
    lemma_run_slash((e, ns));
    assert(e.push(ns) =~= seq![ns]);
    lemma_run_append(split_start(), np, hostname);
    lemma_run_word((seq![ns], z), hostname);
    assert(z + hostname =~= hostname);
    lemma_run_append(split_start(), np + hostname, seq!['/']);
    lemma_run_slash((seq![ns], hostname));
    assert(seq![ns].push(hostname) =~= seq![ns, hostname]);
    lemma_run_append(split_start(), np + hostname + seq!['/'], sr);
    lemma_run_prefix(seq![ns, hostname], z, sr);
    let x = split_run(split_start(), sr);
    assert((seq![ns, hostname] + x.0).push(x.1) =~= seq![ns, hostname] + x.0.push(x.1));
    lemma_segments_strip_root(path);
}

/// Decoding the logical path of a remote path on a host whose name is
/// nonempty and free of separators gives back that host, and the path with
/// its components joined by single separators: the same components.
pub proof fn lemma_decode_encode(hostname: Seq<char>, path: Seq<char>)
    requires
        hostname.len() > 0,
        !has_slash(hostname),
    ensures
        decode_view(encode_view(hostname, path)) == Some((hostname, join(segments(path)))),
        segments(join(segments(path))) == segments(path),
{
    lemma_segments_encode(hostname, path);
    let ss = seq![namespace_view(), hostname] + segments(path);
    assert(ss.subrange(2, ss.len() as int) =~= segments(path));
    lemma_segments_words(path);
    lemma_segments_join(segments(path));
}

/// The absolute remote path of a path relative to the remote root.
pub open spec fn remote_view(p: Seq<char>) -> Seq<char> {
    seq!['/'] + p
}

/// A remote file named by a logical address: a host and a path on it,
/// relative to the remote filesystem root.
#[derive(Debug)]
pub struct RemoteFsPath {
    pub hostname: String,
    pub path: String,
}

impl RemoteFsPath {
    /// The logical path of this address.
    pub fn to_path_buf(&self) -> (r: String)
        ensures
            r@ == encode_view(self.hostname@, self.path@),
    {
        let p = self.path.as_str();
        let n = p.unicode_len();
        let rel: &str = if n > 0 && p.get_char(0) == '/' {
            p.substring_char(1, n)
        } else {
            p
        };
        let mut out = String::from_str("remotefs/");
        out.append(self.hostname.as_str());
        out.append("/");
        out.append(rel);
        proof {
            reveal_strlit("remotefs/");
            reveal_strlit("/");
            assert("remotefs/"@ =~= namespace_prefix());
        }
        assert(out@ =~= encode_view(self.hostname@, self.path@));
        out
    }

    /// The absolute path of this file on its host.
    pub fn remote_path(&self) -> (r: String)
        ensures
            r@ == remote_view(self.path@),
    {
        let mut out = String::from_str("/");
        out.append(self.path.as_str());
        proof {
            reveal_strlit("/");
        }
        out
    }

    /// The address that a logical path names; `None` where the path lies
    /// outside the namespace or names no host.
    pub fn from_path(path: &str) -> (r: Option<RemoteFsPath>)
        ensures
            match r {
                Some(a) => decode_view(path@) == Some((a.hostname@, a.path@)),
                None => decode_view(path@) is None,
            },
    {
        let segs = split_segments(path);
        if segs.len() < 2 {
            return None;
        }
        let ns = "remotefs";
        proof {
            reveal_strlit("remotefs");
            assert(ns@ =~= namespace_view());
        }
        if !same_text(segs[0].as_str(), ns) {
            return None;
        }
        let hostname = segs[1].clone();
        let rest = join_from(&segs, 2);
        Some(RemoteFsPath { hostname, path: rest })
    }
}

} // verus!
