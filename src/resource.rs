use vstd::prelude::*;

verus! {

/// The content of one remote file.
#[derive(Debug)]
pub struct FileContents {
    pub contents: Vec<u8>,
}

/// A copy of `s`.
fn copy_bytes(s: &[u8]) -> (r: Vec<u8>)
    ensures
        r@ == s@,
{
    let mut out: Vec<u8> = Vec::new();
    let mut i: usize = 0;
    while i < s.len()
        invariant
            0 <= i <= s@.len(),
            out@ == s@.subrange(0, i as int),
        decreases s@.len() - i,
    {
        out.push(s[i]);
        i = i + 1;
        assert(out@ =~= s@.subrange(0, i as int));
    }
    assert(s@.subrange(0, i as int) =~= s@);
    out
}

impl FileContents {
    pub fn to_bytes(&self) -> (r: Vec<u8>)
        ensures
            r@ == self.contents@,
    {
        copy_bytes(self.contents.as_slice())
    }

    pub fn from_bytes(s: &[u8]) -> (r: Self)
        ensures
            r.contents@ == s@,
    {
        FileContents { contents: copy_bytes(s) }
    }
}

/// Whether two contents are equal, byte for byte.
pub fn contents_equal(a: &[u8], b: &[u8]) -> (r: bool)
    ensures
        r == (a@ == b@),
{
    if a.len() != b.len() {
        return false;
    }
    let mut i: usize = 0;
    while i < a.len()
        invariant
            a@.len() == b@.len(),
            0 <= i <= a@.len(),
            forall|j: int| 0 <= j < i ==> a@[j] == b@[j],
        decreases a@.len() - i,
    {
        if a[i] != b[i] {
            return false;
        }
        i = i + 1;
    }
    assert(a@ =~= b@);
    true
}

} // verus!
