//! The history of visited directories, with a current position: the stack
//! behind the Back and Forward buttons.

use vstd::prelude::*;
use crate::paths::{child_path, joined};

verus! {

/// The history as a mathematical value: the visited paths, oldest first, and
/// the index of the one that is shown.
pub struct HistoryView {
    pub entries: Seq<Seq<char>>,
    pub position: int,
}

impl HistoryView {
    /// The history in which only `start_dir` has been visited.
    pub open spec fn start(start_dir: Seq<char>) -> HistoryView {
        HistoryView { entries: seq![start_dir], position: 0 }
    }

    /// The position names an entry; in particular the history is not empty.
    pub open spec fn wf(self) -> bool {
        0 <= self.position < self.entries.len()
    }

    /// The directory that is shown.
    pub open spec fn current_dir(self) -> Seq<char> {
        self.entries[self.position]
    }

    /// There is an older entry to go back to.
    pub open spec fn can_go_back(self) -> bool {
        self.position > 0
    }

    /// There is a newer entry to go forward to.
    pub open spec fn can_go_forward(self) -> bool {
        self.position < self.entries.len() - 1
    }

    /// Visiting `path`: the entries after the current one are dropped, `path`
    /// is appended and becomes the current entry.
    pub open spec fn navigate_to(self, path: Seq<char>) -> HistoryView {
        HistoryView {
            entries: self.entries.take(self.position + 1).push(path),
            position: self.position + 1,
        }
    }

    /// Visiting the folder `folder` of the current directory.
    pub open spec fn enter_dir(self, folder: Seq<char>) -> HistoryView {
        self.navigate_to(joined(self.current_dir(), folder))
    }

    /// One step towards the oldest entry.
    pub open spec fn back(self) -> HistoryView {
        HistoryView { position: self.position - 1, ..self }
    }

    /// One step towards the newest entry.
    pub open spec fn forward(self) -> HistoryView {
        HistoryView { position: self.position + 1, ..self }
    }
}

/// One move in the history.
pub enum Step {
    /// Entering a folder of the current directory.
    EnterDir(Seq<char>),
    /// Going to a directory by its path.
    NavigateTo(Seq<char>),
    /// Going back.
    Back,
    /// Going forward.
    Forward,
}

impl HistoryView {
    /// The move `step` can be made: going back needs an older entry, going
    /// forward a newer one.
    pub open spec fn allows(self, step: Step) -> bool {
        match step {
            Step::Back => self.can_go_back(),
            Step::Forward => self.can_go_forward(),
            _ => true,
        }
    }

    /// The history after the move `step`.
    pub open spec fn step(self, step: Step) -> HistoryView {
        match step {
            Step::EnterDir(folder) => self.enter_dir(folder),
            Step::NavigateTo(path) => self.navigate_to(path),
            Step::Back => self.back(),
            Step::Forward => self.forward(),
        }
    }

    /// The path that the move `step` appends, if it appends one.
    pub open spec fn pushed_by(self, step: Step) -> Option<Seq<char>> {
        match step {
            Step::EnterDir(folder) => Some(joined(self.current_dir(), folder)),
            Step::NavigateTo(path) => Some(path),
            _ => None,
        }
    }

    /// The history after the moves `steps`, made in their order.
    pub open spec fn run(self, steps: Seq<Step>) -> HistoryView
        decreases steps.len(),
    {
        if steps.len() == 0 {
            self
        } else {
            self.run(steps.drop_last()).step(steps.last())
        }
    }

    /// Each of the moves `steps` can be made when its turn comes.
    pub open spec fn admits(self, steps: Seq<Step>) -> bool
        decreases steps.len(),
    {
        if steps.len() == 0 {
            true
        } else {
            self.admits(steps.drop_last()) && self.run(steps.drop_last()).allows(steps.last())
        }
    }

    /// The paths that the history held before the moves `steps`, and those
    /// that the moves appended.
    pub open spec fn visited(self, steps: Seq<Step>) -> Set<Seq<char>>
        decreases steps.len(),
    {
        if steps.len() == 0 {
            self.entries.to_set()
        } else {
            let seen = self.visited(steps.drop_last());
            match self.run(steps.drop_last()).pushed_by(steps.last()) {
                Some(path) => seen.insert(path),
                None => seen,
            }
        }
    }
}

/// Whatever moves are made, each where it can be made, the position keeps
/// naming an entry, and every entry, the current directory among them, is a
/// path that the history started with or that one of the moves appended.
pub proof fn lemma_moves_keep_history_wf(start: HistoryView, steps: Seq<Step>)
    requires
        start.wf(),
        start.admits(steps),
    ensures
        start.run(steps).wf(),
        forall|i: int|
            0 <= i < start.run(steps).entries.len() ==> start.visited(steps).contains(
                #[trigger] start.run(steps).entries[i],
            ),
        start.visited(steps).contains(start.run(steps).current_dir()),
    decreases steps.len(),
{
    if steps.len() == 0 {
        assert forall|i: int| 0 <= i < start.entries.len() implies start.entries.to_set().contains(
            #[trigger] start.entries[i],
        ) by {}
    } else {
        lemma_moves_keep_history_wf(start, steps.drop_last());
        let before = start.run(steps.drop_last());
        let after = start.run(steps);
        assert(after == before.step(steps.last()));
        assert forall|i: int| 0 <= i < after.entries.len() implies start.visited(steps).contains(
            #[trigger] after.entries[i],
        ) by {
            if i < before.entries.len() && after.entries[i] == before.entries[i] {
                assert(start.visited(steps.drop_last()).contains(before.entries[i]));
            }
        }
    }
}

/// Visiting a path from the middle of the history drops the entries that lay
/// ahead: the entries up to the current one stay, the visited path follows
/// them as the last and current entry, and there is nothing to go forward to.
pub proof fn lemma_navigation_drops_forward_entries(h: HistoryView, path: Seq<char>)
    requires
        h.wf(),
    ensures
        h.navigate_to(path).wf(),
        h.navigate_to(path).entries.len() == h.position + 2,
        forall|i: int| 0 <= i <= h.position ==> h.navigate_to(path).entries[i] == h.entries[i],
        h.navigate_to(path).current_dir() == path,
        !h.navigate_to(path).can_go_forward(),
        h.navigate_to(path).back() == (HistoryView {
            entries: h.navigate_to(path).entries,
            position: h.position,
        }),
{
}

/// Going back and then forward, or forward and then back, returns to the
/// entry that was shown.
pub proof fn lemma_back_and_forward_undo_each_other(h: HistoryView)
    requires
        h.wf(),
    ensures
        h.can_go_back() ==> h.back().wf() && h.back().can_go_forward() && h.back().forward() == h,
        h.can_go_forward() ==> h.forward().wf() && h.forward().can_go_back()
            && h.forward().back() == h,
{
}

/// The visited directories and the position among them.
#[derive(Debug)]
pub struct History {
    history: Vec<String>,
    position: usize,
}

impl View for History {
    type V = HistoryView;

    closed spec fn view(&self) -> HistoryView {
        HistoryView {
            entries: Seq::new(self.history@.len(), |i: int| self.history@[i]@),
            position: self.position as int,
        }
    }
}

impl History {
    /// A history that holds `start_dir` alone.
    pub fn new(start_dir: String) -> (h: History)
        ensures
            h@ == HistoryView::start(start_dir@),
    {
        let mut history: Vec<String> = Vec::new();
        history.push(start_dir);
        let h = History { history, position: 0 };
        assert(h@.entries =~= seq![start_dir@]);
        h
    }

    /// The directory that is shown.
    pub fn current_dir(&self) -> (dir: String)
        requires
            self@.wf(),
        ensures
            dir@ == self@.current_dir(),
    {
        self.history[self.position].clone()
    }

    /// The number of entries.
    pub fn len(&self) -> (n: usize)
        ensures
            n == self@.entries.len(),
    {
        self.history.len()
    }

    /// The index of the current entry.
    pub fn position(&self) -> (p: usize)
        ensures
            p == self@.position,
    {
        self.position
    }

    /// The entry at `index`, oldest first.
    pub fn entry(&self, index: usize) -> (dir: String)
        requires
            index < self@.entries.len(),
        ensures
            dir@ == self@.entries[index as int],
    {
        self.history[index].clone()
    }

    /// Enters the folder `folder` of the current directory: what lay ahead of
    /// the current entry is dropped, and the folder's path becomes the newest
    /// and current entry.
    pub fn enter_dir(&mut self, folder: String)
        requires
            old(self)@.wf(),
        ensures
            final(self)@ == old(self)@.enter_dir(folder@),
            final(self)@.wf(),
    {
        let new_dir = child_path(&self.history[self.position], &folder);
        self.navigate_to(new_dir);
    }

    /// Goes to the directory `new_dir`, wherever it lies: what lay ahead of the
    /// current entry is dropped, and `new_dir` becomes the newest and current
    /// entry.
    pub fn navigate_to(&mut self, new_dir: String)
        requires
            old(self)@.wf(),
        ensures
            final(self)@ == old(self)@.navigate_to(new_dir@),
            final(self)@.wf(),
    {
        let len: usize = self.history.len();
        assert(self.position < len);
        self.history.truncate(self.position + 1);
        self.history.push(new_dir);
        self.position += 1;
        assert(self@.entries =~= old(self)@.navigate_to(new_dir@).entries);
    }

    /// Whether there is a newer entry to go forward to.
    pub fn can_go_forward(&self) -> (b: bool)
        requires
            self@.wf(),
        ensures
            b == self@.can_go_forward(),
    {
        self.position < self.history.len() - 1
    }

    /// Moves to the next newer entry.
    pub fn forward(&mut self)
        requires
            old(self)@.wf(),
            old(self)@.can_go_forward(),
        ensures
            final(self)@ == old(self)@.forward(),
            final(self)@.wf(),
    {
        let len: usize = self.history.len();
        assert(self.position < len - 1);
        self.position += 1;
    }

    /// Whether there is an older entry to go back to.
    pub fn can_go_back(&self) -> (b: bool)
        ensures
            b == self@.can_go_back(),
    {
        self.position > 0
    }

    /// Moves to the next older entry.
    pub fn back(&mut self)
        requires
            old(self)@.wf(),
            old(self)@.can_go_back(),
        ensures
            final(self)@ == old(self)@.back(),
            final(self)@.wf(),
    {
        self.position -= 1;
    }
}

} // verus!
