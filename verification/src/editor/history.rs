//! Undo and redo of the annotations of a capture session.
//!
//! Every change of the annotation list is the addition of one annotation, made
//! after a snapshot of the list. The snapshots on the undo stack are therefore
//! the prefixes of the current list, and the redo stack holds the lists that
//! an undo left; both are kept here as the current list and the annotations
//! that undo removed.
use vstd::prelude::*;

verus! {

/// Current annotations and the annotations that undo removed (the last one is
/// the first to come back).
pub type HistoryState<T> = (Seq<T>, Seq<T>);

/// State after a snapshot and the addition of `a`: the redo stack is cleared.
pub open spec fn committed<T>(s: HistoryState<T>, a: T) -> HistoryState<T> {
    (s.0.push(a), Seq::empty())
}

/// State after an undo: the last annotation moves to the redo stack; nothing happens
/// when there is no annotation.
pub open spec fn undone<T>(s: HistoryState<T>) -> HistoryState<T> {
    if s.0.len() == 0 {
        s
    } else {
        (s.0.drop_last(), s.1.push(s.0.last()))
    }
}

/// State after a redo: the annotation on top of the redo stack comes back; nothing
/// happens when the redo stack is empty.
pub open spec fn redone<T>(s: HistoryState<T>) -> HistoryState<T> {
    if s.1.len() == 0 {
        s
    } else {
        (s.0.push(s.1.last()), s.1.drop_last())
    }
}

/// The snapshots on the undo stack: the list as it was before each addition.
pub open spec fn undo_snapshots<T>(s: HistoryState<T>) -> Seq<Seq<T>> {
    Seq::new(s.0.len(), |k: int| s.0.take(k))
}

/// The lists on the redo stack, the last one being the list that the next redo brings back.
pub open spec fn redo_snapshots<T>(s: HistoryState<T>) -> Seq<Seq<T>> {
    Seq::new(s.1.len(), |j: int| s.0 + s.1.reverse().take(s.1.len() - j))
}

/// The annotations of a session with their undo and redo stacks.
pub struct AnnotationHistory<T> {
    annotations: Vec<T>,
    removed: Vec<T>,
}

impl<T> AnnotationHistory<T> {
    /// The annotations currently shown.
    pub closed spec fn current(&self) -> Seq<T> {
        self.annotations@
    }

    /// The annotations that undo removed, the last one on top.
    pub closed spec fn redo_items(&self) -> Seq<T> {
        self.removed@
    }

    /// The state as a pair.
    pub open spec fn state(&self) -> HistoryState<T> {
        (self.current(), self.redo_items())
    }

    /// An empty history.
    pub fn new() -> (h: Self)
        ensures
            h.current() == Seq::<T>::empty(),
            h.redo_items() == Seq::<T>::empty(),
    {
        AnnotationHistory { annotations: Vec::new(), removed: Vec::new() }
    }

    /// The annotations currently shown, oldest first.
    pub fn annotations(&self) -> (a: &Vec<T>)
        ensures
            a@ == self.current(),
    {
        &self.annotations
    }

    /// Takes a snapshot for undo and adds `a`.
    pub fn commit(&mut self, a: T)
        ensures
            final(self).state() == committed(old(self).state(), a),
    {
        self.removed = Vec::new();
        self.annotations.push(a);
    }

    /// Goes back to the list before the last addition, if there is one.
    pub fn undo(&mut self)
        ensures
            final(self).state() == undone(old(self).state()),
    {
        match self.annotations.pop() {
            Some(last) => self.removed.push(last),
            None => {},
        }
    }

    /// Brings back the list that the last undo left, if there is one.
    pub fn redo(&mut self)
        ensures
            final(self).state() == redone(old(self).state()),
    {
        match self.removed.pop() {
            Some(next) => self.annotations.push(next),
            None => {},
        }
    }
}

/// Undo right after adding an annotation gives back the list as it was before.
pub proof fn law_undo_reverts_commit<T>(s: HistoryState<T>, a: T)
    ensures
        undone(committed(s, a)).0 == s.0,
        undone(committed(s, a)).1 == seq![a],
{
    assert(committed(s, a).0.drop_last() =~= s.0);
    assert(Seq::<T>::empty().push(a) =~= seq![a]);
}

/// Redo right after an undo restores the state the undo started from.
pub proof fn law_redo_reverts_undo<T>(s: HistoryState<T>)
    requires
        s.0.len() > 0,
    ensures
        redone(undone(s)) == s,
{
    assert(s.0.drop_last().push(s.0.last()) =~= s.0);
    assert(s.1.push(s.0.last()).drop_last() =~= s.1);
}

/// Undo right after a redo restores the state the redo started from.
pub proof fn law_undo_reverts_redo<T>(s: HistoryState<T>)
    requires
        s.1.len() > 0,
    ensures
        undone(redone(s)) == s,
{
    assert(s.0.push(s.1.last()).drop_last() =~= s.0);
    assert(s.1.drop_last().push(s.1.last()) =~= s.1);
}

/// Adding an annotation leaves nothing to redo, whatever the redo stack held.
pub proof fn law_commit_clears_redo<T>(s: HistoryState<T>, a: T)
    ensures
        redone(committed(s, a)) == committed(s, a),
        redo_snapshots(committed(s, a)).len() == 0,
{
}

/// Each step keeps the stacks of the snapshot model in step with the lists:
/// undo pops the top snapshot into the current list and pushes the old list on
/// the redo stack; redo does the reverse.
pub proof fn law_undo_matches_snapshots<T>(s: HistoryState<T>)
    requires
        s.0.len() > 0,
    ensures
        undone(s).0 == undo_snapshots(s).last(),
        undo_snapshots(undone(s)) == undo_snapshots(s).drop_last(),
        redo_snapshots(undone(s)) == redo_snapshots(s).push(s.0),
{
    let u = undone(s);
    assert forall|k: int| 0 <= k < u.0.len() implies #[trigger] undo_snapshots(u)[k]
        == undo_snapshots(s).drop_last()[k] by {
        assert(u.0.take(k) =~= s.0.take(k));
    }
    assert(undo_snapshots(u) =~= undo_snapshots(s).drop_last());
    assert(s.0.take(s.0.len() - 1) =~= s.0.drop_last());
    let r = s.1.push(s.0.last());
    assert(r.reverse() =~= seq![s.0.last()] + s.1.reverse());
    assert forall|j: int| 0 <= j < r.len() implies #[trigger] redo_snapshots(u)[j]
        == redo_snapshots(s).push(s.0)[j] by {
        if j < s.1.len() {
            assert(u.0 + r.reverse().take(r.len() - j) =~= s.0 + s.1.reverse().take(
                s.1.len() - j,
            ));
        } else {
            assert(u.0 + r.reverse().take(r.len() - j) =~= s.0);
        }
    }
    assert(redo_snapshots(u) =~= redo_snapshots(s).push(s.0));
}

} // verus!
