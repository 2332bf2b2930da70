use vstd::prelude::*;

verus! {

/// A path read so far: the completed nonempty segments, and the segment
/// being read.
pub type SplitState = (Seq<Seq<char>>, Seq<char>);

pub open spec fn has_slash(s: Seq<char>) -> bool {
    exists|i: int| 0 <= i < s.len() && s[i] == '/'
}

/// Reads one more character: a separator closes the current segment, which
/// is kept only if nonempty.
pub open spec fn split_step(st: SplitState, c: char) -> SplitState {
    if c == '/' {
        (if st.1.len() > 0 { st.0.push(st.1) } else { st.0 }, Seq::empty())
    } else {
        (st.0, st.1.push(c))
    }
}

/// Reads `s` from state `st`, left to right.
pub open spec fn split_run(st: SplitState, s: Seq<char>) -> SplitState
    decreases s.len(),
{
    if s.len() == 0 {
        st
    } else {
        split_step(split_run(st, s.drop_last()), s.last())
    }
}

pub open spec fn split_start() -> SplitState {
    (Seq::empty(), Seq::empty())
}

pub open spec fn split_finish(st: SplitState) -> Seq<Seq<char>> {
    if st.1.len() > 0 {
        st.0.push(st.1)
    } else {
        st.0
    }
}

/// The components of a path: its nonempty pieces between separators, so
/// that repeated, leading and trailing separators do not count.
pub open spec fn segments(s: Seq<char>) -> Seq<Seq<char>> {
    split_finish(split_run(split_start(), s))
}

/// Components joined with single separators.
pub open spec fn join(ss: Seq<Seq<char>>) -> Seq<char>
    decreases ss.len(),
{
    if ss.len() == 0 {
        Seq::empty()
    } else if ss.len() == 1 {
        ss[0]
    } else {
        join(ss.drop_last()) + seq!['/'] + ss.last()
    }
}

/// Every element is a nonempty piece without separators.
pub open spec fn all_words(ss: Seq<Seq<char>>) -> bool {
    forall|i: int| 0 <= i < ss.len() ==> (#[trigger] ss[i]).len() > 0 && !has_slash(ss[i])
}

pub open spec fn texts(v: Seq<String>) -> Seq<Seq<char>> {
    v.map_values(|s: String| s@)
}

/// Reading `a + b` is reading `a`, then `b`.
pub proof fn lemma_run_append(st: SplitState, a: Seq<char>, b: Seq<char>)
    ensures
        split_run(st, a + b) == split_run(split_run(st, a), b),
    decreases b.len(),
{
    if b.len() == 0 {
        assert(a + b =~= a);
    } else {
        assert((a + b).drop_last() =~= a + b.drop_last());
        lemma_run_append(st, a, b.drop_last());
    }
}

/// A piece without separators extends the current segment.
pub proof fn lemma_run_word(st: SplitState, w: Seq<char>)
    requires
        !has_slash(w),
    ensures
        split_run(st, w) == (st.0, st.1 + w),
    decreases w.len(),
{
    if w.len() == 0 {
        assert(st.1 + w =~= st.1);
    } else {
        assert(!has_slash(w.drop_last())) by {
            if has_slash(w.drop_last()) {
                let i = choose|i: int| 0 <= i < w.drop_last().len() && w.drop_last()[i] == '/';
                assert(w[i] == '/');
            }
        }
        assert(w[w.len() - 1] != '/');
        lemma_run_word(st, w.drop_last());
        assert(st.1 + w.drop_last() + seq![w.last()] =~= st.1 + w);
    }
}

pub proof fn lemma_run_slash(st: SplitState)
    ensures
        split_run(st, seq!['/']) == split_step(st, '/'),
{
    let s = seq!['/'];
    assert(s.drop_last() =~= Seq::<char>::empty());
    assert(s.len() == 1 && s.last() == '/');
    assert(split_run(st, s.drop_last()) == st);
}

/// Completed segments already read stay in front.
pub proof fn lemma_run_prefix(d: Seq<Seq<char>>, t: Seq<char>, s: Seq<char>)
    ensures
        split_run((d, t), s) == (d + split_run((Seq::empty(), t), s).0, split_run(
            (Seq::empty(), t),
            s,
        ).1),
    decreases s.len(),
{
    if s.len() == 0 {
        assert(d + Seq::<Seq<char>>::empty() =~= d);
    } else {
        lemma_run_prefix(d, t, s.drop_last());
        let x = split_run((Seq::empty(), t), s.drop_last());
        assert((d + x.0).push(x.1) =~= d + x.0.push(x.1));
    }
}

/// What reading produces is made of words, given that it starts so.
pub proof fn lemma_run_words(st: SplitState, s: Seq<char>)
    requires
        all_words(st.0),
        !has_slash(st.1),
    ensures
        all_words(split_run(st, s).0),
        !has_slash(split_run(st, s).1),
    decreases s.len(),
{
    if s.len() > 0 {
        lemma_run_words(st, s.drop_last());
        let x = split_run(st, s.drop_last());
        let c = s.last();
        if c != '/' {
            assert(!has_slash(x.1.push(c))) by {
                if has_slash(x.1.push(c)) {
                    let i = choose|i: int| 0 <= i < x.1.push(c).len() && x.1.push(c)[i] == '/';
                    assert(x.1[i] == '/');
                }
            }
        } else if x.1.len() > 0 {
            assert(all_words(x.0.push(x.1))) by {
                assert forall|i: int| 0 <= i < x.0.push(x.1).len() implies (#[trigger] x.0.push(
                    x.1,
                )[i]).len() > 0 && !has_slash(x.0.push(x.1)[i]) by {
                    if i < x.0.len() {
                        assert(x.0.push(x.1)[i] == x.0[i]);
                    }
                }
            }
        }
        assert(!has_slash(Seq::<char>::empty()));
    }
}

/// The components of any path are words.
pub proof fn lemma_segments_words(s: Seq<char>)
    ensures
        all_words(segments(s)),
{
    assert(!has_slash(Seq::<char>::empty()));
    lemma_run_words(split_start(), s);
    let x = split_run(split_start(), s);
    if x.1.len() > 0 {
        assert forall|i: int| 0 <= i < x.0.push(x.1).len() implies (#[trigger] x.0.push(
            x.1,
        )[i]).len() > 0 && !has_slash(x.0.push(x.1)[i]) by {
            if i < x.0.len() {
                assert(x.0.push(x.1)[i] == x.0[i]);
            }
        }
    }
}

/// Reading joined words leaves all but the last completed, the last current.
proof fn lemma_run_join(ss: Seq<Seq<char>>)
    requires
        ss.len() > 0,
        all_words(ss),
    ensures
        split_run(split_start(), join(ss)) == (ss.drop_last(), ss.last()),
    decreases ss.len(),
{
    if ss.len() == 1 {
        lemma_run_word(split_start(), ss[0]);
        assert(Seq::<char>::empty() + ss[0] =~= ss[0]);
        assert(ss.drop_last() =~= Seq::<Seq<char>>::empty());
    } else {
        let sp = ss.drop_last();
        assert forall|i: int| 0 <= i < sp.len() implies (#[trigger] sp[i]).len() > 0 && !has_slash(
            sp[i],
        ) by {
            assert(sp[i] == ss[i]);
        }
        lemma_run_join(sp);
        let w = ss.last();
        assert(w == ss[ss.len() - 1]);
        lemma_run_append(split_start(), join(sp) + seq!['/'], w);
        lemma_run_append(split_start(), join(sp), seq!['/']);
        lemma_run_slash(split_run(split_start(), join(sp)));
        assert(sp.last() == sp[sp.len() - 1]);
        assert(sp.drop_last().push(sp.last()) =~= sp);
        lemma_run_word((sp, Seq::empty()), w);
        assert(Seq::<char>::empty() + w =~= w);
    }
}

/// Splitting joined words gives the words back.
pub proof fn lemma_segments_join(ss: Seq<Seq<char>>)
    requires
        all_words(ss),
    ensures
        segments(join(ss)) == ss,
{
    if ss.len() > 0 {
        lemma_run_join(ss);
        assert(ss.drop_last().push(ss.last()) =~= ss);
    }
}

/// Splits `s` into its components.
pub fn split_segments(s: &str) -> (r: Vec<String>)
    ensures
        texts(r@) == segments(s@),
{
    let n = s.unicode_len();
    let mut done: Vec<String> = Vec::new();
    let mut cur = String::new();
    let mut i: usize = 0;
    assert(texts(done@) =~= Seq::empty());
    assert(s@.subrange(0, 0) =~= Seq::<char>::empty());
    while i < n
        invariant
            0 <= i <= n,
            n == s@.len(),
            (texts(done@), cur@) == split_run(split_start(), s@.subrange(0, i as int)),
        decreases n - i,
    {
        let ghost before = done@;
        assert(s@.subrange(0, i + 1).drop_last() =~= s@.subrange(0, i as int));
        if s.get_char(i) == '/' {
            if cur.unicode_len() > 0 {
                done.push(cur);
                assert(texts(done@) =~= texts(before).push(cur@));
            }
            cur = String::new();
        } else {
            cur.append(s.substring_char(i, i + 1));
        }
        i = i + 1;
    }
    assert(s@.subrange(0, i as int) =~= s@);
    if cur.unicode_len() > 0 {
        let ghost before = done@;
        done.push(cur);
        assert(texts(done@) =~= texts(before).push(cur@));
    }
    done
}

/// Joins the components `parts[from..]` with single separators.
pub fn join_from(parts: &Vec<String>, from: usize) -> (r: String)
    requires
        from <= parts@.len(),
    ensures
        r@ == join(texts(parts@).subrange(from as int, parts@.len() as int)),
{
    let mut out = String::new();
    let mut k: usize = from;
    proof {
        reveal_strlit("/");
        assert(texts(parts@).subrange(from as int, from as int) =~= Seq::<Seq<char>>::empty());
    }
    while k < parts.len()
        invariant
            from <= k <= parts@.len(),
            "/"@ == seq!['/'],
            out@ == join(texts(parts@).subrange(from as int, k as int)),
        decreases parts@.len() - k,
    {
        let ghost ts = texts(parts@);
        assert(ts.subrange(from as int, k + 1).drop_last() =~= ts.subrange(from as int, k as int));
        if k > from {
            out.append("/");
        } else {
            assert(out@ + ts[k as int] =~= ts[k as int]);
        }
        out.append(parts[k].as_str());
        k = k + 1;
    }
    out
}

/// Whether two lists of components are equal.
pub fn same_segments(a: &Vec<String>, b: &Vec<String>, len: usize) -> (r: bool)
    requires
        len <= a@.len(),
        len <= b@.len(),
    ensures
        r == (texts(a@).subrange(0, len as int) == texts(b@).subrange(0, len as int)),
{
    let mut i: usize = 0;
    while i < len
        invariant
            0 <= i <= len,
            len <= a@.len(),
            len <= b@.len(),
            forall|j: int| 0 <= j < i ==> a@[j]@ == b@[j]@,
        decreases len - i,
    {
        if !crate::config::same_text(a[i].as_str(), b[i].as_str()) {
            assert(texts(a@).subrange(0, len as int)[i as int] != texts(b@).subrange(0, len as int)[i as int]);
            return false;
        }
        i = i + 1;
    }
    assert(texts(a@).subrange(0, len as int) =~= texts(b@).subrange(0, len as int));
    true
}

} // verus!
