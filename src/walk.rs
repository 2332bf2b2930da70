use vstd::prelude::*;

use crate::segments::texts;

verus! {

/// One child of a remote directory, as a listing reports it.
#[derive(Debug, Clone)]
pub struct RemoteEntry {
    pub path: String,
    pub is_dir: bool,
}

/// The remote call a walk asks for next.
#[derive(Debug)]
pub enum WalkAction {
    /// Ask whether this directory exists; answer with `WalkEvent::Exists`.
    CheckExists(String),
    /// List this directory; answer with `WalkEvent::Listed`.
    ListDir(String),
    /// Nothing more to ask: the files found are complete.
    Finished,
}

/// The answer to the last `WalkAction`.
#[derive(Debug)]
pub enum WalkEvent {
    Exists(bool),
    Listed(Vec<RemoteEntry>),
}

/// What a walk is waiting for.
#[derive(Debug)]
pub enum WalkPhase {
    AwaitExists(String),
    AwaitListing(String),
    Done,
}

pub enum PhaseView {
    AwaitExists(Seq<char>),
    AwaitListing(Seq<char>),
    Done,
}

pub enum ActionView {
    CheckExists(Seq<char>),
    ListDir(Seq<char>),
    Finished,
}

/// A walk in the abstract: what it waits for, the directories still to
/// visit (the last one first) and the files found so far.
pub struct WalkView {
    pub phase: PhaseView,
    pub pending: Seq<Seq<char>>,
    pub files: Seq<Seq<char>>,
}

/// The paths of the directories among `es`, in order.
pub open spec fn dir_paths(es: Seq<RemoteEntry>) -> Seq<Seq<char>>
    decreases es.len(),
{
    if es.len() == 0 {
        Seq::empty()
    } else {
        dir_paths(es.drop_last()) + if es.last().is_dir {
            seq![es.last().path@]
        } else {
            Seq::empty()
        }
    }
}

/// The paths of the files among `es`, in order.
pub open spec fn file_paths(es: Seq<RemoteEntry>) -> Seq<Seq<char>>
    decreases es.len(),
{
    if es.len() == 0 {
        Seq::empty()
    } else {
        file_paths(es.drop_last()) + if es.last().is_dir {
            Seq::empty()
        } else {
            seq![es.last().path@]
        }
    }
}

pub open spec fn action_of(phase: PhaseView) -> ActionView {
    match phase {
        PhaseView::AwaitExists(d) => ActionView::CheckExists(d),
        PhaseView::AwaitListing(d) => ActionView::ListDir(d),
        PhaseView::Done => ActionView::Finished,
    }
}

/// Take up the next pending directory, or finish.
pub open spec fn advance(pending: Seq<Seq<char>>, files: Seq<Seq<char>>) -> (WalkView, ActionView) {
    if pending.len() == 0 {
        (WalkView { phase: PhaseView::Done, pending, files }, ActionView::Finished)
    } else {
        (
            WalkView {
                phase: PhaseView::AwaitExists(pending.last()),
                pending: pending.drop_last(),
                files,
            },
            ActionView::CheckExists(pending.last()),
        )
    }
}

/// A walk from `root` starts by asking whether `root` exists.
pub open spec fn walk_start(root: Seq<char>) -> (WalkView, ActionView) {
    (
        WalkView { phase: PhaseView::AwaitExists(root), pending: Seq::empty(), files: Seq::empty() },
        ActionView::CheckExists(root),
    )
}

/// One transition: an existing directory is listed, a missing one is
/// skipped without listing it, and a listing queues its directories and
/// keeps its files. An answer to a question that was not asked changes
/// nothing and asks again.
pub open spec fn walk_step(s: WalkView, e: WalkEvent) -> (WalkView, ActionView) {
    match (s.phase, e) {
        (PhaseView::AwaitExists(d), WalkEvent::Exists(true)) => (
            WalkView { phase: PhaseView::AwaitListing(d), pending: s.pending, files: s.files },
            ActionView::ListDir(d),
        ),
        (PhaseView::AwaitExists(_), WalkEvent::Exists(false)) => advance(s.pending, s.files),
        (PhaseView::AwaitListing(_), WalkEvent::Listed(es)) => advance(
            s.pending + dir_paths(es@),
            s.files + file_paths(es@),
        ),
        _ => (s, action_of(s.phase)),
    }
}

/// A walk whose root does not exist finds nothing and asks for nothing more
/// once told so: from then on every answer leaves it finished.
pub proof fn lemma_missing_root(root: Seq<char>, e: WalkEvent)
    ensures
        walk_step(walk_start(root).0, WalkEvent::Exists(false)) == (
            WalkView { phase: PhaseView::Done, pending: Seq::empty(), files: Seq::empty() },
            ActionView::Finished,
        ),
        walk_step(
            WalkView { phase: PhaseView::Done, pending: Seq::empty(), files: Seq::empty() },
            e,
        ) == (
            WalkView { phase: PhaseView::Done, pending: Seq::empty(), files: Seq::empty() },
            ActionView::Finished,
        ),
{
}

impl WalkAction {
    pub open spec fn view(&self) -> ActionView {
        match self {
            WalkAction::CheckExists(d) => ActionView::CheckExists(d@),
            WalkAction::ListDir(d) => ActionView::ListDir(d@),
            WalkAction::Finished => ActionView::Finished,
        }
    }
}

impl WalkPhase {
    pub open spec fn view(&self) -> PhaseView {
        match self {
            WalkPhase::AwaitExists(d) => PhaseView::AwaitExists(d@),
            WalkPhase::AwaitListing(d) => PhaseView::AwaitListing(d@),
            WalkPhase::Done => PhaseView::Done,
        }
    }
}

/// A recursive walk of one remote directory tree, driven one remote call at
/// a time; a directory that does not exist is never listed.
#[derive(Debug)]
pub struct TreeWalk {
    pub phase: WalkPhase,
    pub pending: Vec<String>,
    pub files: Vec<String>,
}

impl TreeWalk {
    pub open spec fn view(&self) -> WalkView {
        WalkView { phase: self.phase.view(), pending: texts(self.pending@), files: texts(self.files@) }
    }

    /// A walk of the tree at `root`, and its first question.
    pub fn start(root: String) -> (r: (TreeWalk, WalkAction))
        ensures
            (r.0.view(), r.1.view()) == walk_start(root@),
    {
        let action = WalkAction::CheckExists(root.clone());
        let w = TreeWalk { phase: WalkPhase::AwaitExists(root), pending: Vec::new(), files: Vec::new() };
        assert(texts(w.pending@) =~= Seq::empty());
        assert(texts(w.files@) =~= Seq::empty());
        (w, action)
    }

    /// The action that the current phase waits on.
    fn current_action(&self) -> (r: WalkAction)
        ensures
            r.view() == action_of(self.phase.view()),
    {
        match &self.phase {
            WalkPhase::AwaitExists(d) => WalkAction::CheckExists(d.clone()),
            WalkPhase::AwaitListing(d) => WalkAction::ListDir(d.clone()),
            WalkPhase::Done => WalkAction::Finished,
        }
    }

    /// Moves on to the next pending directory, or finishes.
    fn advance(&mut self) -> (r: WalkAction)
        ensures
            (final(self).view(), r.view()) == advance(old(self).view().pending, old(self).view().files),
    {
        match self.pending.pop() {
            Some(d) => {
                assert(texts(self.pending@) =~= texts(old(self).pending@).drop_last());
                let action = WalkAction::CheckExists(d.clone());
                self.phase = WalkPhase::AwaitExists(d);
                action
            },
            None => {
                self.phase = WalkPhase::Done;
                WalkAction::Finished
            },
        }
    }

    /// Takes the answer to the last question and returns the next one.
    pub fn step(&mut self, event: WalkEvent) -> (r: WalkAction)
        ensures
            (final(self).view(), r.view()) == walk_step(old(self).view(), event),
    {
        match (&self.phase, &event) {
            (WalkPhase::AwaitExists(d), WalkEvent::Exists(true)) => {
                let d2 = d.clone();
                let action = WalkAction::ListDir(d.clone());
                self.phase = WalkPhase::AwaitListing(d2);
                action
            },
            (WalkPhase::AwaitExists(_), WalkEvent::Exists(false)) => self.advance(),
            (WalkPhase::AwaitListing(_), WalkEvent::Listed(es)) => {
                let mut i: usize = 0;
                while i < es.len()
                    invariant
                        0 <= i <= es@.len(),
                        texts(self.pending@) == texts(old(self).pending@) + dir_paths(
                            es@.subrange(0, i as int),
                        ),
                        texts(self.files@) == texts(old(self).files@) + file_paths(
                            es@.subrange(0, i as int),
                        ),
                        self.phase == old(self).phase,
                    decreases es@.len() - i,
                {
                    let ghost before_p = self.pending@;
                    let ghost before_f = self.files@;
                    if es[i].is_dir {
                        self.pending.push(es[i].path.clone());
                        assert(texts(self.pending@) =~= texts(before_p).push(es@[i as int].path@));
                    } else {
                        self.files.push(es[i].path.clone());
                        assert(texts(self.files@) =~= texts(before_f).push(es@[i as int].path@));
                    }
                    assert(es@.subrange(0, i + 1).drop_last() =~= es@.subrange(0, i as int));
                    i = i + 1;
                }
                assert(es@.subrange(0, i as int) =~= es@);
                self.advance()
            },
            _ => self.current_action(),
        }
    }
}

} // verus!
