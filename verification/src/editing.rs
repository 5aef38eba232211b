//! The annotation editor's undo and redo history, and the cursor that walks
//! through the keypoints of a skeleton being placed.
use vstd::prelude::*;
use crate::ids::views;
use crate::import_model::KeypointState;
use crate::model::SkeletonSpec;
use crate::workspace::{
    history_bytes, least_trim, push_history, within_budget, EditSnapshot, MAX_HISTORY_BYTES, MAX_HISTORY_OPERATIONS,
};

verus! {

/// `after` is `before` with `s` pushed on top and the fewest oldest steps
/// dropped that bring it within the history budgets.
pub open spec fn pushed<T>(before: Seq<EditSnapshot<T>>, s: EditSnapshot<T>, after: Seq<EditSnapshot<T>>) -> bool {
    exists|k: int| least_trim(before.push(s), k) && after == before.push(s).subrange(k, (before.len() + 1) as int)
}

/// The undo and redo stacks of the editor.
#[derive(Debug)]
pub struct EditHistory<T> {
    pub undo_stack: Vec<EditSnapshot<T>>,
    pub redo_stack: Vec<EditSnapshot<T>>,
}

/// Both stacks are within the history budgets.
pub open spec fn history_wf<T>(h: EditHistory<T>) -> bool {
    within_budget(h.undo_stack@) && within_budget(h.redo_stack@)
}

/// Recording an edit pushes the state before it on the undo stack and
/// forgets everything that could be redone.
pub open spec fn recorded<T>(before: EditHistory<T>, current: EditSnapshot<T>, after: EditHistory<T>) -> bool {
    pushed(before.undo_stack@, current, after.undo_stack@) && after.redo_stack@.len() == 0
}

/// Undo hands back the newest undo step and pushes the state it leaves on
/// the redo stack; with nothing to undo, nothing changes.
pub open spec fn undone<T>(
    before: EditHistory<T>,
    current: EditSnapshot<T>,
    after: EditHistory<T>,
    r: Option<EditSnapshot<T>>,
) -> bool {
    if before.undo_stack@.len() == 0 {
        r is None && after.undo_stack@ == before.undo_stack@ && after.redo_stack@ == before.redo_stack@
    } else {
        &&& r == Some(before.undo_stack@.last())
        &&& after.undo_stack@ == before.undo_stack@.drop_last()
        &&& pushed(before.redo_stack@, current, after.redo_stack@)
    }
}

/// Redo hands back the newest redo step and pushes the state it leaves on
/// the undo stack; with nothing to redo, nothing changes.
pub open spec fn redone<T>(
    before: EditHistory<T>,
    current: EditSnapshot<T>,
    after: EditHistory<T>,
    r: Option<EditSnapshot<T>>,
) -> bool {
    if before.redo_stack@.len() == 0 {
        r is None && after.undo_stack@ == before.undo_stack@ && after.redo_stack@ == before.redo_stack@
    } else {
        &&& r == Some(before.redo_stack@.last())
        &&& after.redo_stack@ == before.redo_stack@.drop_last()
        &&& pushed(before.undo_stack@, current, after.undo_stack@)
    }
}

impl<T> EditHistory<T> {
    /// An empty history.
    pub fn new() -> (h: Self)
        ensures
            h.undo_stack@.len() == 0,
            h.redo_stack@.len() == 0,
            history_wf(h),
    {
        let h = EditHistory { undo_stack: Vec::new(), redo_stack: Vec::new() };
        proof {
            assert(history_bytes(h.undo_stack@) == 0);
            assert(history_bytes(h.redo_stack@) == 0);
        }
        h
    }

    /// Records the state before an edit: it becomes the newest undo step and
    /// the redo stack is cleared.
    pub fn record_edit(&mut self, current: EditSnapshot<T>)
        requires
            history_wf(*old(self)),
            current.approx_bytes <= usize::MAX - MAX_HISTORY_BYTES,
        ensures
            history_wf(*final(self)),
            recorded(*old(self), current, *final(self)),
    {
        push_history(&mut self.undo_stack, current);
        self.redo_stack.clear();
        proof {
            assert(history_bytes(self.redo_stack@) == 0);
        }
    }

    /// Steps back: returns the state to restore, if there is one, and keeps
    /// `current` so that it can be redone.
    pub fn undo(&mut self, current: EditSnapshot<T>) -> (r: Option<EditSnapshot<T>>)
        requires
            history_wf(*old(self)),
            current.approx_bytes <= usize::MAX - MAX_HISTORY_BYTES,
        ensures
            history_wf(*final(self)),
            undone(*old(self), current, *final(self), r),
    {
        if self.undo_stack.len() == 0 {
            return None;
        }
        let ghost before = self.undo_stack@;
        let snapshot = self.undo_stack.pop().unwrap();
        proof {
            lemma_within_budget_drop_last(before);
        }
        push_history(&mut self.redo_stack, current);
        Some(snapshot)
    }

    /// Steps forward again: returns the state to restore, if there is one,
    /// and keeps `current` so that it can be undone.
    pub fn redo(&mut self, current: EditSnapshot<T>) -> (r: Option<EditSnapshot<T>>)
        requires
            history_wf(*old(self)),
            current.approx_bytes <= usize::MAX - MAX_HISTORY_BYTES,
        ensures
            history_wf(*final(self)),
            redone(*old(self), current, *final(self), r),
    {
        if self.redo_stack.len() == 0 {
            return None;
        }
        let ghost before = self.redo_stack@;
        let snapshot = self.redo_stack.pop().unwrap();
        proof {
            lemma_within_budget_drop_last(before);
        }
        push_history(&mut self.undo_stack, current);
        Some(snapshot)
    }
}

/// Dropping the newest step keeps a history within budget.
proof fn lemma_within_budget_drop_last<T>(s: Seq<EditSnapshot<T>>)
    requires
        within_budget(s),
        s.len() > 0,
    ensures
        within_budget(s.drop_last()),
        s.last().approx_bytes <= MAX_HISTORY_BYTES,
{
}

/// A step that fits the byte budget on its own is never dropped by the push
/// that records it: it is the newest step afterwards.
pub proof fn lemma_pushed_keeps_newest<T>(before: Seq<EditSnapshot<T>>, s: EditSnapshot<T>, after: Seq<EditSnapshot<T>>)
    requires
        pushed(before, s, after),
        s.approx_bytes <= MAX_HISTORY_BYTES,
    ensures
        after.len() > 0,
        after.last() == s,
{
    let full = before.push(s);
    let k = choose|k: int| least_trim(full, k) && after == full.subrange(k, (before.len() + 1) as int);
    let tail = full.subrange(before.len() as int, full.len() as int);
    assert(tail =~= seq![s]);
    assert(tail.drop_last() =~= Seq::<EditSnapshot<T>>::empty());
    assert(history_bytes(tail.drop_last()) == 0);
    assert(tail.last() == s);
    assert(history_bytes(tail) == s.approx_bytes);
    if k > before.len() {
        assert(!within_budget(full.subrange(before.len() as int, full.len() as int)));
        assert(false);
    }
}

/// Pushing a step keeps the longest recent part of the history, the new
/// step on top, that fits both budgets: the oldest steps go first, what
/// stays is within at most `MAX_HISTORY_OPERATIONS` steps and
/// `MAX_HISTORY_BYTES` bytes, and every longer recent part is over one of
/// the budgets.
pub proof fn pushing_keeps_longest_fitting_suffix<T>(
    before: Seq<EditSnapshot<T>>,
    s: EditSnapshot<T>,
    after: Seq<EditSnapshot<T>>,
)
    requires
        pushed(before, s, after),
    ensures
        after.len() <= before.len() + 1,
        after == before.push(s).subrange(before.len() + 1 - after.len(), before.len() + 1 as int),
        after.len() <= MAX_HISTORY_OPERATIONS,
        history_bytes(after) <= MAX_HISTORY_BYTES,
        forall|n: int|
            after.len() < n <= before.len() + 1 ==> !within_budget(
                #[trigger] before.push(s).subrange(before.len() + 1 - n, before.len() + 1 as int),
            ),
{
    let full = before.push(s);
    let k = choose|k: int| least_trim(full, k) && after == full.subrange(k, (before.len() + 1) as int);
    assert(after.len() == full.len() - k);
    assert forall|n: int| after.len() < n <= before.len() + 1 implies !within_budget(
        #[trigger] before.push(s).subrange(before.len() + 1 - n, before.len() + 1 as int),
    ) by {
        let j = before.len() + 1 - n;
        assert(0 <= j < k);
        assert(!within_budget(full.subrange(j, full.len() as int)));
    }
}

/// Undoing right after an edit was recorded gives back the state recorded
/// before that edit.
pub proof fn undo_returns_recorded_state<T>(
    h0: EditHistory<T>,
    before_edit: EditSnapshot<T>,
    h1: EditHistory<T>,
    current: EditSnapshot<T>,
    h2: EditHistory<T>,
    r: Option<EditSnapshot<T>>,
)
    requires
        recorded(h0, before_edit, h1),
        undone(h1, current, h2, r),
        before_edit.approx_bytes <= MAX_HISTORY_BYTES,
    ensures
        r == Some(before_edit),
{
    lemma_pushed_keeps_newest(h0.undo_stack@, before_edit, h1.undo_stack@);
}

/// Redoing right after an undo gives back the state the undo left, and the
/// state the undo restored is again the newest undo step.
pub proof fn redo_reverses_undo<T>(
    h0: EditHistory<T>,
    current: EditSnapshot<T>,
    h1: EditHistory<T>,
    restored: EditSnapshot<T>,
    h2: EditHistory<T>,
    r: Option<EditSnapshot<T>>,
)
    requires
        history_wf(h0),
        undone(h0, current, h1, Some(restored)),
        redone(h1, restored, h2, r),
        current.approx_bytes <= MAX_HISTORY_BYTES,
    ensures
        r == Some(current),
        h2.undo_stack@.len() > 0,
        h2.undo_stack@.last() == restored,
{
    lemma_pushed_keeps_newest(h0.redo_stack@, current, h1.redo_stack@);
    lemma_within_budget_drop_last(h0.undo_stack@);
    lemma_pushed_keeps_newest(h1.undo_stack@, restored, h2.undo_stack@);
}

/// Where the placement of a skeleton stands: the skeleton annotation being
/// placed, the keypoint placed next, and whether that keypoint is placed as
/// hidden.
#[derive(Debug)]
pub struct KeypointCursor {
    pub active_skeleton: Option<String>,
    pub keypoint_index: usize,
    pub next_keypoint_hidden: bool,
}

/// What an attempt to skip the next keypoint did.
#[derive(Clone, Copy, Debug, PartialEq, Eq, Structural)]
pub enum KeypointSkip {
    /// Nothing: the workflow has no skeleton, keypoints may not be absent, or
    /// no skeleton is being placed.
    Ignored,
    /// Nothing: the keypoint is required and cannot be marked absent.
    Required,
    /// The keypoint stays absent and the cursor moved on.
    Skipped,
}

/// The state in which the next keypoint is placed.
pub open spec fn placed_state(hidden: bool) -> KeypointState {
    if hidden {
        KeypointState::Hidden
    } else {
        KeypointState::Visible
    }
}

/// The cursor after keypoint `index` of `count` was placed or skipped: on to
/// the next keypoint, or done with the skeleton after its last one.
pub open spec fn moved_on(before: KeypointCursor, count: nat, after: KeypointCursor) -> bool {
    &&& !after.next_keypoint_hidden
    &&& if before.keypoint_index + 1 >= count {
        after.active_skeleton is None && after.keypoint_index == 0
    } else {
        after.active_skeleton == before.active_skeleton && after.keypoint_index == before.keypoint_index + 1
    }
}

/// Moves the cursor past its keypoint.
fn move_on(cursor: &mut KeypointCursor, count: usize)
    requires
        old(cursor).keypoint_index < usize::MAX,
    ensures
        moved_on(*old(cursor), count as nat, *final(cursor)),
{
    let next = cursor.keypoint_index + 1;
    cursor.next_keypoint_hidden = false;
    if next >= count {
        cursor.active_skeleton = None;
        cursor.keypoint_index = 0;
    } else {
        cursor.keypoint_index = next;
    }
}

impl KeypointCursor {
    /// No skeleton is being placed.
    pub fn idle() -> (c: Self)
        ensures
            c.active_skeleton is None,
            c.keypoint_index == 0,
            !c.next_keypoint_hidden,
    {
        KeypointCursor { active_skeleton: None, keypoint_index: 0, next_keypoint_hidden: false }
    }

    /// Marks the next keypoint of the skeleton being placed absent, where
    /// the workflow allows absent keypoints and that keypoint is optional.
    pub fn skip_keypoint(&mut self, skeleton: Option<&SkeletonSpec>) -> (r: KeypointSkip)
        requires
            old(self).keypoint_index < usize::MAX,
        ensures
            match skeleton {
                None => r == KeypointSkip::Ignored,
                Some(spec) => if !spec.allow_absent || old(self).active_skeleton is None {
                    r == KeypointSkip::Ignored
                } else if old(self).keypoint_index < spec.keypoints@.len()
                    && spec.keypoints@[old(self).keypoint_index as int].required {
                    r == KeypointSkip::Required
                } else {
                    r == KeypointSkip::Skipped
                },
            },
            r == KeypointSkip::Skipped ==> moved_on(*old(self), skeleton.unwrap().keypoints@.len(), *final(self)),
            r != KeypointSkip::Skipped ==> *final(self) == *old(self),
    {
        let spec = match skeleton {
            Some(spec) => spec,
            None => return KeypointSkip::Ignored,
        };
        if !spec.allow_absent || self.active_skeleton.is_none() {
            return KeypointSkip::Ignored;
        }
        if self.keypoint_index < spec.keypoints.len() && spec.keypoints[self.keypoint_index].required {
            return KeypointSkip::Required;
        }
        move_on(self, spec.keypoints.len());
        KeypointSkip::Skipped
    }

    /// Places the next keypoint of the skeleton being placed, which has
    /// `keypoint_count` keypoints: returns the state it is placed in, or
    /// `None`, with nothing changed, when the cursor is past its keypoints.
    pub fn place_next(&mut self, keypoint_count: usize) -> (r: Option<KeypointState>)
        ensures
            old(self).keypoint_index < keypoint_count ==> r == Some(placed_state(old(self).next_keypoint_hidden))
                && moved_on(*old(self), keypoint_count as nat, *final(self)),
            old(self).keypoint_index >= keypoint_count ==> r is None && *final(self) == *old(self),
    {
        if self.keypoint_index >= keypoint_count {
            return None;
        }
        let state = if self.next_keypoint_hidden {
            KeypointState::Hidden
        } else {
            KeypointState::Visible
        };
        move_on(self, keypoint_count);
        Some(state)
    }

    /// Starts a skeleton of `keypoint_count` keypoints, whose first keypoint
    /// has just been placed: returns that keypoint's state, and the cursor
    /// goes on with the second keypoint where there is one. A skeleton
    /// without keypoints cannot be started: `None`, with nothing changed.
    pub fn start_skeleton(&mut self, annotation_id: String, keypoint_count: usize) -> (r: Option<KeypointState>)
        ensures
            keypoint_count == 0 ==> r is None && *final(self) == *old(self),
            keypoint_count > 0 ==> {
                &&& r == Some(placed_state(old(self).next_keypoint_hidden))
                &&& !final(self).next_keypoint_hidden
                &&& if keypoint_count > 1 {
                    final(self).active_skeleton == Some(annotation_id) && final(self).keypoint_index == 1
                } else {
                    final(self).active_skeleton == old(self).active_skeleton && final(self).keypoint_index
                        == old(self).keypoint_index
                }
            },
    {
        if keypoint_count == 0 {
            return None;
        }
        let state = if self.next_keypoint_hidden {
            KeypointState::Hidden
        } else {
            KeypointState::Visible
        };
        if keypoint_count > 1 {
            self.active_skeleton = Some(annotation_id);
            self.keypoint_index = 1;
        }
        self.next_keypoint_hidden = false;
        Some(state)
    }

    /// Forgets the skeleton being placed when it is the annotation deleted.
    pub fn forget_deleted(&mut self, deleted_id: &str)
        ensures
            (old(self).active_skeleton matches Some(a) && a@ == deleted_id@) ==> final(self).active_skeleton is None
                && final(self).keypoint_index == 0 && !final(self).next_keypoint_hidden,
            !(old(self).active_skeleton matches Some(a) && a@ == deleted_id@) ==> *final(self) == *old(self),
    {
        let hit = match &self.active_skeleton {
            Some(a) => crate::text::str_eq(a.as_str(), deleted_id),
            None => false,
        };
        if hit {
            self.active_skeleton = None;
            self.keypoint_index = 0;
            self.next_keypoint_hidden = false;
        }
    }
}

/// An annotation of the image being edited, as far as editing decides on
/// it: its id, version and deletion mark; `body` holds the rest.
#[derive(Debug)]
pub struct EditedAnnotation<G> {
    pub annotation_id: String,
    pub version: u64,
    pub deleted: bool,
    pub body: G,
}

/// `i` is the first position of an annotation with id `id`.
pub open spec fn is_first_with_id<G>(s: Seq<EditedAnnotation<G>>, id: Seq<char>, i: int) -> bool {
    &&& 0 <= i < s.len()
    &&& s[i].annotation_id@ == id
    &&& forall|j: int| 0 <= j < i ==> s[j].annotation_id@ != id
}

/// Some annotation has id `id`.
pub open spec fn has_id<G>(s: Seq<EditedAnnotation<G>>, id: Seq<char>) -> bool {
    exists|i: int| 0 <= i < s.len() && s[i].annotation_id@ == id
}

/// The first position of an annotation with id `id`.
pub fn position_of_id<G>(s: &Vec<EditedAnnotation<G>>, id: &str) -> (r: Option<usize>)
    ensures
        match r {
            Some(i) => is_first_with_id(s@, id@, i as int),
            None => !has_id(s@, id@),
        },
{
    let mut i: usize = 0;
    while i < s.len()
        invariant
            i <= s.len(),
            forall|j: int| 0 <= j < i ==> s@[j].annotation_id@ != id@,
        decreases s.len() - i,
    {
        if crate::text::str_eq(s[i].annotation_id.as_str(), id) {
            return Some(i);
        }
        i += 1;
    }
    None
}

/// Drops every occurrence of `id` from a set of ids kept in a vector.
pub fn remove_id(ids: &mut Vec<String>, id: &str)
    ensures
        forall|x: Seq<char>| #[trigger] views(final(ids)@).contains(x) <==> (views(old(ids)@).contains(x) && x != id@),
{
    let ghost before = views(ids@);
    let mut kept: Vec<String> = Vec::new();
    let mut i: usize = 0;
    while i < ids.len()
        invariant
            i <= ids.len(),
            views(ids@) == before,
            forall|x: Seq<char>| #[trigger] views(kept@).contains(x) <==> (exists|j: int| 0 <= j < i && before[j] == x)
                && x != id@,
        decreases ids.len() - i,
    {
        let same = crate::text::str_eq(ids[i].as_str(), id);
        let ghost prev = views(kept@);
        if !same {
            let c = ids[i].clone();
            proof {
                assert(views(kept@.push(c)) =~= views(kept@).push(c@));
            }
            kept.push(c);
        }
        proof {
            assert(before[i as int] == ids@[i as int]@);
            if same {
                assert(views(kept@) == prev);
            } else {
                assert(views(kept@) == prev.push(before[i as int]));
            }
            assert forall|x: Seq<char>| #[trigger] views(kept@).contains(x) <==> (exists|j: int| 0 <= j < i + 1
                && before[j] == x) && x != id@ by {
                if views(kept@).contains(x) {
                    let w = choose|w: int| 0 <= w < views(kept@).len() && views(kept@)[w] == x;
                    if w < prev.len() {
                        assert(prev[w] == x);
                        assert(prev.contains(x));
                    } else {
                        assert(x == before[i as int]);
                        assert(0 <= i < i + 1 && before[i as int] == x);
                    }
                }
                if (exists|j: int| 0 <= j < i + 1 && before[j] == x) && x != id@ {
                    let j = choose|j: int| 0 <= j < i + 1 && before[j] == x;
                    if j < i {
                        assert(exists|j: int| 0 <= j < i && before[j] == x);
                        assert(prev.contains(x));
                        let w = choose|w: int| 0 <= w < prev.len() && prev[w] == x;
                        assert(views(kept@)[w] == x);
                    } else {
                        assert(views(kept@)[views(kept@).len() - 1] == x);
                    }
                }
            }
        }
        i += 1;
    }
    proof {
        assert forall|x: Seq<char>| #[trigger] views(kept@).contains(x) <==> (before.contains(x) && x != id@) by {
            if before.contains(x) {
                let j = choose|j: int| 0 <= j < before.len() && before[j] == x;
                assert(0 <= j < i && before[j] == x);
            }
        }
    }
    *ids = kept;
}

/// The annotation as deleted: marked deleted, and back at its persisted
/// version where it was persisted and that version is known.
pub open spec fn deleted_version<G>(a: EditedAnnotation<G>, persisted: bool, persisted_version: Option<u64>) -> EditedAnnotation<G> {
    EditedAnnotation {
        annotation_id: a.annotation_id,
        version: if persisted && persisted_version is Some {
            persisted_version.unwrap()
        } else {
            a.version
        },
        deleted: true,
        body: a.body,
    }
}

/// Deletes the selected annotation. `persisted` says whether it was saved
/// before, and `persisted_version` is its saved version where the current
/// state holds it. The selection is cleared in any case; an annotation that
/// is missing or already deleted is left alone. Where one is deleted, its
/// position is returned, a persisted one stops counting as modified, and a
/// skeleton being placed stops being placed when it is the one deleted.
pub fn delete_selected<G>(
    annotations: &mut Vec<EditedAnnotation<G>>,
    selected: &mut Option<String>,
    cursor: &mut KeypointCursor,
    modified: &mut Vec<String>,
    persisted: bool,
    persisted_version: Option<u64>,
) -> (r: Option<usize>)
    ensures
        old(selected).is_some() ==> final(selected).is_none(),
        old(selected).is_none() ==> final(selected).is_none() && r is None,
        match r {
            Some(i) => {
                let id = old(selected).unwrap()@;
                &&& is_first_with_id(old(annotations)@, id, i as int)
                &&& !old(annotations)@[i as int].deleted
                &&& final(annotations)@ == old(annotations)@.update(
                    i as int,
                    deleted_version(old(annotations)@[i as int], persisted, persisted_version),
                )
                &&& persisted ==> forall|x: Seq<char>| #[trigger] views(final(modified)@).contains(x) <==> (views(
                    old(modified)@,
                ).contains(x) && x != id)
                &&& !persisted ==> final(modified)@ == old(modified)@
                &&& (old(cursor).active_skeleton matches Some(a) && a@ == id) ==> final(cursor).active_skeleton is None
                    && final(cursor).keypoint_index == 0 && !final(cursor).next_keypoint_hidden
                &&& !(old(cursor).active_skeleton matches Some(a) && a@ == id) ==> *final(cursor) == *old(cursor)
            },
            None => {
                &&& final(annotations)@ == old(annotations)@
                &&& final(modified)@ == old(modified)@
                &&& *final(cursor) == *old(cursor)
                &&& *old(selected) matches Some(id) ==> !has_id(old(annotations)@, id@) || exists|i: int|
                    is_first_with_id(old(annotations)@, id@, i) && old(annotations)@[i].deleted
            },
        },
{
    let id = match selected.take() {
        Some(id) => id,
        None => return None,
    };
    let index = match position_of_id(annotations, id.as_str()) {
        Some(i) => i,
        None => return None,
    };
    if annotations[index].deleted {
        return None;
    }
    let ghost before = annotations@;
    let mut a = annotations.remove(index);
    a.deleted = true;
    if persisted {
        if let Some(v) = persisted_version {
            a.version = v;
        }
        remove_id(modified, id.as_str());
    }
    annotations.insert(index, a);
    proof {
        assert(annotations@ =~= before.update(index as int, deleted_version(before[index as int], persisted, persisted_version)));
    }
    cursor.forget_deleted(id.as_str());
    Some(index)
}

/// Whether a suggestion can be accepted: it belongs to the selected
/// workflow and class, and was not accepted before.
pub open spec fn prelabel_acceptable(
    task_id: Option<Seq<char>>,
    class_id: Option<Seq<char>>,
    suggestion_task: Seq<char>,
    suggestion_class: Seq<char>,
    suggestion_id: Seq<char>,
    accepted: Seq<Seq<char>>,
) -> bool {
    &&& task_id == Some(suggestion_task)
    &&& class_id == Some(suggestion_class)
    &&& !accepted.contains(suggestion_id)
}

/// Accepts a suggestion of the selected workflow and class that was not
/// accepted before, recording its id; returns whether it was accepted.
pub fn accept_prelabel(
    accepted: &mut Vec<String>,
    task_id: Option<&str>,
    class_id: Option<&str>,
    suggestion_task: &str,
    suggestion_class: &str,
    suggestion_id: &str,
) -> (r: bool)
    ensures
        r == prelabel_acceptable(
            match task_id {
                Some(t) => Some(t@),
                None => None,
            },
            match class_id {
                Some(c) => Some(c@),
                None => None,
            },
            suggestion_task@,
            suggestion_class@,
            suggestion_id@,
            views(old(accepted)@),
        ),
        r ==> views(final(accepted)@) == views(old(accepted)@).push(suggestion_id@),
        !r ==> final(accepted)@ == old(accepted)@,
{
    let task_matches = match task_id {
        Some(t) => crate::text::str_eq(t, suggestion_task),
        None => false,
    };
    let class_matches = match class_id {
        Some(c) => crate::text::str_eq(c, suggestion_class),
        None => false,
    };
    if !task_matches || !class_matches || crate::ids::contains_string(accepted, suggestion_id) {
        return false;
    }
    let ghost before = views(accepted@);
    accepted.push(crate::text::to_string(suggestion_id));
    proof {
        assert(views(accepted@) =~= before.push(suggestion_id@));
    }
    true
}

/// What is known of an annotation against the last saved state: whether it
/// was saved before, its saved version where the saved state holds it, and
/// whether it is still exactly as saved.
#[derive(Clone, Copy, Debug)]
pub struct SavedCounterpart {
    pub persisted: bool,
    pub saved_version: Option<u64>,
    pub unchanged: bool,
}

/// A saved annotation that now differs from what was saved, and is not
/// deleted.
pub open spec fn counts_as_modified<G>(a: EditedAnnotation<G>, c: SavedCounterpart) -> bool {
    c.persisted && !(c.saved_version is Some && c.unchanged) && !a.deleted
}

/// The version an annotation carries against the saved state: a saved
/// annotation keeps its saved version while it is deleted or unchanged and
/// takes the next one once it differs; any other keeps its version.
pub open spec fn reconciled<G>(a: EditedAnnotation<G>, c: SavedCounterpart) -> EditedAnnotation<G> {
    if c.persisted && c.saved_version is Some {
        let v = c.saved_version.unwrap();
        EditedAnnotation {
            annotation_id: a.annotation_id,
            version: if !a.deleted && !c.unchanged {
                (v + 1) as u64
            } else {
                v
            },
            deleted: a.deleted,
            body: a.body,
        }
    } else {
        a
    }
}

/// Reconciling versions a second time against the same saved state changes
/// nothing more, and the annotation counts as modified exactly as before.
pub proof fn reconciling_twice_changes_nothing<G>(a: EditedAnnotation<G>, c: SavedCounterpart)
    ensures
        reconciled(reconciled(a, c), c) == reconciled(a, c),
        counts_as_modified(reconciled(a, c), c) == counts_as_modified(a, c),
{
}

/// The ids of the annotations that count as modified, in order.
pub open spec fn modified_ids<G>(s: Seq<EditedAnnotation<G>>, c: Seq<SavedCounterpart>) -> Seq<Seq<char>>
    decreases s.len(),
{
    if s.len() == 0 || c.len() == 0 {
        seq![]
    } else {
        let rest = modified_ids(s.drop_last(), c.drop_last());
        if counts_as_modified(s.last(), c.last()) {
            rest.push(s.last().annotation_id@)
        } else {
            rest
        }
    }
}

/// Brings every annotation's version in line with the saved state and
/// returns the ids of those that count as modified; `counterparts[i]`
/// describes `annotations[i]`.
pub fn recompute_modified_annotations<G>(
    annotations: &mut Vec<EditedAnnotation<G>>,
    counterparts: &Vec<SavedCounterpart>,
) -> (modified: Vec<String>)
    requires
        old(annotations)@.len() == counterparts@.len(),
        forall|i: int| 0 <= i < counterparts@.len() ==> (#[trigger] counterparts@[i]).saved_version matches Some(v) && v
            < u64::MAX || counterparts@[i].saved_version is None,
    ensures
        final(annotations)@.len() == old(annotations)@.len(),
        forall|i: int| 0 <= i < old(annotations)@.len() ==> #[trigger] final(annotations)@[i] == reconciled(
            old(annotations)@[i],
            counterparts@[i],
        ),
        views(modified@) == modified_ids(old(annotations)@, counterparts@),
{
    let ghost before = annotations@;
    let mut modified: Vec<String> = Vec::new();
    let mut i: usize = 0;
    while i < annotations.len()
        invariant
            annotations@.len() == before.len(),
            before.len() == counterparts@.len(),
            i <= before.len(),
            forall|j: int| 0 <= j < counterparts@.len() ==> (#[trigger] counterparts@[j]).saved_version matches Some(v)
                && v < u64::MAX || counterparts@[j].saved_version is None,
            forall|j: int| 0 <= j < i ==> #[trigger] annotations@[j] == reconciled(before[j], counterparts@[j]),
            forall|j: int| i <= j < before.len() ==> #[trigger] annotations@[j] == before[j],
            views(modified@) == modified_ids(before.subrange(0, i as int), counterparts@.subrange(0, i as int)),
        decreases before.len() - i,
    {
        let c = counterparts[i];
        proof {
            let s1 = before.subrange(0, i + 1);
            let c1 = counterparts@.subrange(0, i + 1);
            assert(s1.drop_last() =~= before.subrange(0, i as int));
            assert(c1.drop_last() =~= counterparts@.subrange(0, i as int));
            assert(s1.last() == before[i as int]);
            assert(c1.last() == counterparts@[i as int]);
        }
        let deleted = annotations[i].deleted;
        let counts = c.persisted && !(c.saved_version.is_some() && c.unchanged) && !deleted;
        if counts {
            let id = annotations[i].annotation_id.clone();
            proof {
                assert(views(modified@.push(id)) =~= views(modified@).push(id@));
            }
            modified.push(id);
        }
        if c.persisted {
            if let Some(v) = c.saved_version {
                let version = if !deleted && !c.unchanged {
                    v + 1
                } else {
                    v
                };
                annotations[i].version = version;
            }
        }
        i += 1;
    }
    proof {
        assert(before.subrange(0, before.len() as int) =~= before);
        assert(counterparts@.subrange(0, before.len() as int) =~= counterparts@);
    }
    modified
}

/// The annotations an undo or redo restores: those of the snapshot, then
/// each saved annotation the list does not hold yet, marked deleted, so
/// that the server learns the removal.
pub open spec fn restored_with<G>(s: Seq<EditedAnnotation<G>>, saved: Seq<EditedAnnotation<G>>) -> Seq<
    EditedAnnotation<G>,
>
    decreases saved.len(),
{
    if saved.len() == 0 {
        s
    } else {
        let r = restored_with(s, saved.drop_last());
        let a = saved.last();
        if has_id(r, a.annotation_id@) {
            r
        } else {
            r.push(EditedAnnotation { annotation_id: a.annotation_id, version: a.version, deleted: true, body: a.body })
        }
    }
}

/// Restoring keeps the snapshot's annotations first and in order, and
/// loses no saved annotation.
pub proof fn lemma_restored_keeps_saved<G>(s: Seq<EditedAnnotation<G>>, saved: Seq<EditedAnnotation<G>>)
    ensures
        restored_with(s, saved).len() >= s.len(),
        restored_with(s, saved).subrange(0, s.len() as int) == s,
        forall|i: int| 0 <= i < saved.len() ==> has_id(restored_with(s, saved), #[trigger] saved[i].annotation_id@),
    decreases saved.len(),
{
    if saved.len() == 0 {
        assert(s.subrange(0, s.len() as int) =~= s);
    } else {
        let d = saved.drop_last();
        lemma_restored_keeps_saved(s, d);
        let r = restored_with(s, d);
        let a = saved.last();
        let out = restored_with(s, saved);
        assert forall|i: int| 0 <= i < saved.len() implies has_id(out, #[trigger] saved[i].annotation_id@) by {
            if i < saved.len() - 1 {
                assert(saved[i] == d[i]);
                assert(has_id(r, d[i].annotation_id@));
                let w = choose|w: int| 0 <= w < r.len() && r[w].annotation_id@ == d[i].annotation_id@;
                assert(out[w] == r[w]);
            } else if !has_id(r, a.annotation_id@) {
                assert(out[r.len() as int].annotation_id@ == a.annotation_id@);
            }
        }
        if !has_id(r, a.annotation_id@) {
            assert(out.subrange(0, s.len() as int) =~= r.subrange(0, s.len() as int));
        }
    }
}

/// The annotations to restore from a snapshot, given the saved annotations
/// of the current state in order: see `restored_with`.
pub fn restore_annotations<G>(snapshot: Vec<EditedAnnotation<G>>, saved: Vec<EditedAnnotation<G>>) -> (r: Vec<
    EditedAnnotation<G>,
>)
    ensures
        r@ == restored_with(snapshot@, saved@),
        forall|i: int| 0 <= i < saved@.len() ==> has_id(r@, #[trigger] saved@[i].annotation_id@),
        r@.subrange(0, snapshot@.len() as int) == snapshot@,
{
    let ghost all = saved@;
    let ghost first = snapshot@;
    let n = saved.len();
    let mut out = snapshot;
    let mut rest = saved;
    let mut k: usize = 0;
    while rest.len() > 0
        invariant
            k <= all.len(),
            all.len() == n,
            rest@ == all.subrange(k as int, all.len() as int),
            out@ == restored_with(first, all.subrange(0, k as int)),
        decreases rest.len(),
    {
        let a = rest.remove(0);
        proof {
            assert(all.subrange(0, k + 1).drop_last() =~= all.subrange(0, k as int));
            assert(all.subrange(0, k + 1).last() == a);
        }
        match position_of_id(&out, a.annotation_id.as_str()) {
            Some(_) => {},
            None => {
                out.push(EditedAnnotation { annotation_id: a.annotation_id, version: a.version, deleted: true, body: a.body });
            },
        }
        k = k + 1;
    }
    proof {
        assert(all.subrange(0, all.len() as int) =~= all);
        lemma_restored_keeps_saved(first, all);
    }
    out
}

/// Records that the geometry of an annotation was just edited. A saved
/// annotation becomes a revision: the version after its saved one (or after
/// its own when the saved one is unknown), counted as modified. Returns
/// whether it became a revision.
pub fn record_geometry_edit<G>(
    annotation: &mut EditedAnnotation<G>,
    modified: &mut Vec<String>,
    persisted: bool,
    persisted_version: Option<u64>,
) -> (revised: bool)
    requires
        match persisted_version {
            Some(v) => v < u64::MAX,
            None => old(annotation).version < u64::MAX,
        },
    ensures
        revised == persisted,
        persisted ==> final(annotation).version == match persisted_version {
            Some(v) => v + 1,
            None => old(annotation).version + 1,
        },
        persisted ==> final(annotation).annotation_id == old(annotation).annotation_id && final(annotation).deleted
            == old(annotation).deleted && final(annotation).body == old(annotation).body,
        persisted ==> forall|x: Seq<char>| #[trigger] views(final(modified)@).contains(x) <==> (views(
            old(modified)@,
        ).contains(x) || x == old(annotation).annotation_id@),
        !persisted ==> *final(annotation) == *old(annotation) && final(modified)@ == old(modified)@,
{
    if !persisted {
        return false;
    }
    let base = match persisted_version {
        Some(v) => v,
        None => annotation.version,
    };
    annotation.version = base + 1;
    let ghost before = views(modified@);
    if !crate::ids::contains_string(modified, annotation.annotation_id.as_str()) {
        let id = annotation.annotation_id.clone();
        modified.push(id);
        proof {
            assert(views(modified@) =~= before.push(id@));
        }
    }
    proof {
        let after = views(modified@);
        let id = annotation.annotation_id@;
        assert forall|x: Seq<char>| #[trigger] after.contains(x) <==> (before.contains(x) || x == id) by {
            if after.contains(x) && after != before {
                let w = choose|w: int| 0 <= w < after.len() && after[w] == x;
                if w < before.len() {
                    assert(before[w] == x);
                }
            }
            if before.contains(x) && after != before {
                let w = choose|w: int| 0 <= w < before.len() && before[w] == x;
                assert(after[w] == x);
            }
            if x == id && after != before {
                assert(after[after.len() - 1] == x);
            }
        }
    }
    true
}

} // verus!
