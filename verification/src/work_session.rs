//! Decisions of the annotation session: which object or suggestion a
//! cycle selects, whether an image may be submitted, and when to save,
//! advance or poll.
use vstd::prelude::*;
use crate::actions::{cycle_position, cycled_position, Direction};
use crate::import_model::KeypointState;
use crate::import_progress::{ImportLifecycle, ImportProgressPhase};
use crate::model::KeypointSpec;
use crate::text;
use crate::model::ReviewWorkflow;
use crate::workspace::{selected_index, AppView, AssignmentKind, WorkState};

verus! {

/// A placed, hidden or absent keypoint of a skeleton annotation.
#[derive(Debug)]
pub struct KeypointMark {
    pub name: String,
    pub state: KeypointState,
}

/// What the session reads of an annotation: its identity, its workflow and
/// class, whether it is deleted, and for a skeleton its keypoints.
#[derive(Debug)]
pub struct AnnotationSummary {
    pub annotation_id: String,
    pub task_id: String,
    pub class_id: String,
    pub deleted: bool,
    pub keypoints: Option<Vec<KeypointMark>>,
}

/// The annotation belongs to the selected workflow and its class.
pub open spec fn in_selected_workflow(w: WorkState, a: AnnotationSummary) -> bool {
    match selected_index(w) {
        Some(k) => a.task_id@ == w.tasks@[k].task_id@ && a.class_id@ == w.tasks@[k].class_ids@[0]@,
        None => false,
    }
}

/// The IDs of the objects a cycle moves through: the annotations of the
/// selected workflow that are not deleted, in order.
pub open spec fn cyclable_objects(w: WorkState, annotations: Seq<AnnotationSummary>) -> Seq<Seq<char>>
    decreases annotations.len(),
{
    if annotations.len() == 0 {
        Seq::empty()
    } else {
        let a = annotations.last();
        cyclable_objects(w, annotations.drop_last()) + if !a.deleted && in_selected_workflow(w, a) {
            seq![a.annotation_id@]
        } else {
            Seq::<Seq<char>>::empty()
        }
    }
}

/// The position of the first entry equal to `id`.
pub open spec fn position_of(ids: Seq<Seq<char>>, id: Seq<char>) -> Option<int>
    decreases ids.len(),
{
    if ids.len() == 0 {
        None
    } else {
        match position_of(ids.drop_last(), id) {
            Some(i) => Some(i),
            None => if ids.last() == id {
                Some(ids.len() - 1)
            } else {
                None
            },
        }
    }
}

/// The entry a cycle selects: none when there is nothing to select; else
/// one step from the selected entry (from none, the last entry backward or
/// the first forward).
pub open spec fn cycled_selection(ids: Seq<Seq<char>>, selected: Option<Seq<char>>, d: Direction) -> Option<Seq<char>> {
    if ids.len() == 0 {
        None
    } else {
        let current = match selected {
            Some(s) => match position_of(ids, s) {
                Some(i) => Some(i as usize),
                None => None,
            },
            None => None,
        };
        Some(ids[cycled_position(current, ids.len() as usize, d)])
    }
}

proof fn lemma_position_bounds(ids: Seq<Seq<char>>, id: Seq<char>)
    ensures
        position_of(ids, id) matches Some(i) ==> 0 <= i < ids.len() && ids[i] == id,
    decreases ids.len(),
{
    if ids.len() > 0 {
        lemma_position_bounds(ids.drop_last(), id);
    }
}

proof fn lemma_position_prefix(ids: Seq<Seq<char>>, id: Seq<char>, n: int)
    requires
        0 <= n <= ids.len(),
        position_of(ids.subrange(0, n), id) is Some,
    ensures
        position_of(ids, id) == position_of(ids.subrange(0, n), id),
    decreases ids.len() - n,
{
    if n < ids.len() {
        assert(ids.subrange(0, n + 1).drop_last() =~= ids.subrange(0, n));
        lemma_position_prefix(ids, id, n + 1);
    } else {
        assert(ids.subrange(0, n) =~= ids);
    }
}

fn find_position(ids: &Vec<String>, id: &str) -> (r: Option<usize>)
    ensures
        match r {
            Some(i) => position_of(crate::ids::views(ids@), id@) == Some(i as int) && i < ids@.len(),
            None => position_of(crate::ids::views(ids@), id@) is None,
        },
{
    let ghost all = crate::ids::views(ids@);
    let mut i: usize = 0;
    while i < ids.len()
        invariant
            i <= ids@.len(),
            all == crate::ids::views(ids@),
            position_of(all.subrange(0, i as int), id@) is None,
        decreases ids.len() - i,
    {
        assert(all.subrange(0, i + 1).drop_last() =~= all.subrange(0, i as int));
        if text::str_eq(ids[i].as_str(), id) {
            proof {
                lemma_position_prefix(all, id@, i + 1);
            }
            return Some(i);
        }
        i += 1;
    }
    assert(all.subrange(0, all.len() as int) =~= all);
    None
}

/// Moves a selection one step through `ids`, wrapping around.
pub fn next_selection(ids: &Vec<String>, selected: Option<&str>, d: Direction) -> (r: Option<String>)
    ensures
        match r {
            Some(s) => cycled_selection(
                crate::ids::views(ids@),
                match selected {
                    Some(x) => Some(x@),
                    None => None,
                },
                d,
            ) == Some(s@),
            None => cycled_selection(
                crate::ids::views(ids@),
                match selected {
                    Some(x) => Some(x@),
                    None => None,
                },
                d,
            ) is None,
        },
{
    if ids.len() == 0 {
        return None;
    }
    let current = match selected {
        Some(s) => find_position(ids, s),
        None => None,
    };
    let next = cycle_position(current, ids.len(), d);
    Some(ids[next].clone())
}

impl WorkState {
    /// Whether an annotation belongs to the selected workflow and its class.
    pub fn annotation_matches_selected_workflow(&self, a: &AnnotationSummary) -> (r: bool)
        ensures
            r == in_selected_workflow(*self, *a),
    {
        match self.selected_task() {
            Some(k) => {
                proof {
                    let id = self.selected_task_id->0;
                    let c = choose|c: int| crate::workspace::first_workable_with_id(self.tasks@, id@, c);
                    assert(crate::workspace::first_workable_with_id(self.tasks@, id@, c));
                }
                text::str_eq(a.task_id.as_str(), self.tasks[k].task_id.as_str()) && text::str_eq(
                    a.class_id.as_str(),
                    self.tasks[k].class_ids[0].as_str(),
                )
            },
            None => false,
        }
    }

    /// The objects a cycle moves through.
    pub fn cyclable_object_ids(&self, annotations: &Vec<AnnotationSummary>) -> (r: Vec<String>)
        ensures
            crate::ids::views(r@) == cyclable_objects(*self, annotations@),
    {
        let mut r: Vec<String> = Vec::new();
        let mut i: usize = 0;
        while i < annotations.len()
            invariant
                i <= annotations@.len(),
                crate::ids::views(r@) == cyclable_objects(*self, annotations@.subrange(0, i as int)),
            decreases annotations.len() - i,
        {
            let a = &annotations[i];
            let ghost before = r@;
            assert(annotations@.subrange(0, i + 1).drop_last() =~= annotations@.subrange(0, i as int));
            if !a.deleted && self.annotation_matches_selected_workflow(a) {
                r.push(a.annotation_id.clone());
                assert(crate::ids::views(r@) =~= crate::ids::views(before).push(a.annotation_id@));
            }
            i += 1;
        }
        assert(annotations@.subrange(0, annotations@.len() as int) =~= annotations@);
        r
    }

    /// The object selected after cycling one step through the selected
    /// workflow's objects; none when it has none.
    pub fn cycle_object(&self, annotations: &Vec<AnnotationSummary>, selected: Option<&str>, d: Direction) -> (r: Option<
        String,
    >)
        ensures
            match r {
                Some(s) => cycled_selection(
                    cyclable_objects(*self, annotations@),
                    match selected {
                        Some(x) => Some(x@),
                        None => None,
                    },
                    d,
                ) == Some(s@),
                None => cycled_selection(
                    cyclable_objects(*self, annotations@),
                    match selected {
                        Some(x) => Some(x@),
                        None => None,
                    },
                    d,
                ) is None,
            },
    {
        let ids = self.cyclable_object_ids(annotations);
        next_selection(&ids, selected, d)
    }
}

impl WorkState {
    /// In the review view, the annotation under review: the
    /// `review_index`-th object of the selected workflow.
    pub fn current_review_annotation(&self, view: AppView, annotations: &Vec<AnnotationSummary>, review_index: usize) -> (r:
        Option<String>)
        ensures
            match r {
                Some(s) => view == AppView::Review && review_index < cyclable_objects(*self, annotations@).len() && s@
                    == cyclable_objects(*self, annotations@)[review_index as int],
                None => view != AppView::Review || review_index >= cyclable_objects(*self, annotations@).len(),
            },
    {
        if view != AppView::Review {
            return None;
        }
        let ids = self.cyclable_object_ids(annotations);
        if review_index < ids.len() {
            assert(crate::ids::views(ids@)[review_index as int] == ids@[review_index as int]@);
            Some(ids[review_index].clone())
        } else {
            None
        }
    }

    /// Whether the selected object may be corrected during review: in the
    /// review view, on a review assignment of an approval workflow that
    /// allows corrections, with the annotation under review selected.
    pub fn can_correct_review_object(
        &self,
        view: AppView,
        assignment_kind: Option<AssignmentKind>,
        annotations: &Vec<AnnotationSummary>,
        review_index: usize,
        selected: Option<&str>,
    ) -> (r: bool)
        ensures
            r == {
                let objects = cyclable_objects(*self, annotations@);
                &&& view == AppView::Review
                &&& assignment_kind == Some(AssignmentKind::Review)
                &&& selected_index(*self) matches Some(k) && self.tasks@[k].review.workflow == ReviewWorkflow::Approval
                    && self.tasks@[k].review.allow_reviewer_corrections
                &&& review_index < objects.len()
                &&& selected matches Some(x) && x@ == objects[review_index as int]
            },
    {
        if view != AppView::Review || assignment_kind != Some(AssignmentKind::Review) {
            return false;
        }
        let allowed = match self.selected_task() {
            Some(k) => self.tasks[k].review.workflow == ReviewWorkflow::Approval && self.tasks[k].review.allow_reviewer_corrections,
            None => false,
        };
        if !allowed {
            return false;
        }
        match (self.current_review_annotation(view, annotations, review_index), selected) {
            (Some(current), Some(x)) => text::str_eq(current.as_str(), x),
            _ => false,
        }
    }
}

/// The first required keypoint of the workflow's skeleton that the
/// annotation marks absent.
pub open spec fn absent_required(spec: Seq<KeypointSpec>, marks: Seq<KeypointMark>) -> Option<int>
    decreases spec.len(),
{
    if spec.len() == 0 {
        None
    } else {
        match absent_required(spec.drop_last(), marks) {
            Some(j) => Some(j),
            None => {
                let r = spec.last();
                if r.required && exists|m: int|
                    0 <= m < marks.len() && (#[trigger] marks[m]).name@ == r.name@ && marks[m].state == KeypointState::Absent {
                    Some(spec.len() - 1)
                } else {
                    None
                }
            },
        }
    }
}

/// The first annotation of the selected workflow that marks a required
/// keypoint absent, with that keypoint's name.
pub open spec fn first_absent_required(w: WorkState, spec: Seq<KeypointSpec>, annotations: Seq<AnnotationSummary>) -> Option<
    Seq<char>,
>
    decreases annotations.len(),
{
    if annotations.len() == 0 {
        None
    } else {
        match first_absent_required(w, spec, annotations.drop_last()) {
            Some(n) => Some(n),
            None => {
                let a = annotations.last();
                if !a.deleted && in_selected_workflow(w, a) && a.keypoints is Some {
                    match absent_required(spec, a.keypoints->0@) {
                        Some(j) => Some(spec[j].name@),
                        None => None,
                    }
                } else {
                    None
                }
            },
        }
    }
}

/// Why the current image cannot be submitted yet, for a skeleton workflow:
/// an unfinished skeleton, else a required keypoint marked absent.
pub open spec fn submission_problem(w: WorkState, active_skeleton: bool, annotations: Seq<AnnotationSummary>) -> Option<
    Seq<char>,
> {
    match selected_index(w) {
        Some(k) => match w.tasks@[k].skeleton {
            Some(s) => if active_skeleton {
                Some("Finish the active skeleton or mark its remaining optional keypoints absent before submitting."@)
            } else {
                match first_absent_required(w, s.keypoints@, annotations) {
                    Some(name) => Some("Required keypoint '"@ + name + "' is absent. Place it before submitting."@),
                    None => None,
                }
            },
            None => None,
        },
        None => None,
    }
}

proof fn lemma_absent_required_bounds(spec: Seq<KeypointSpec>, marks: Seq<KeypointMark>)
    ensures
        absent_required(spec, marks) matches Some(j) ==> 0 <= j < spec.len(),
    decreases spec.len(),
{
    if spec.len() > 0 {
        lemma_absent_required_bounds(spec.drop_last(), marks);
    }
}

fn marks_absent(marks: &Vec<KeypointMark>, name: &str) -> (r: bool)
    ensures
        r == exists|m: int| 0 <= m < marks@.len() && (#[trigger] marks@[m]).name@ == name@ && marks@[m].state == KeypointState::Absent,
{
    let mut m: usize = 0;
    while m < marks.len()
        invariant
            m <= marks@.len(),
            forall|j: int| 0 <= j < m ==> !((#[trigger] marks@[j]).name@ == name@ && marks@[j].state == KeypointState::Absent),
        decreases marks.len() - m,
    {
        if text::str_eq(marks[m].name.as_str(), name) && marks[m].state == KeypointState::Absent {
            return true;
        }
        m += 1;
    }
    false
}

fn first_absent_keypoint(spec: &Vec<KeypointSpec>, marks: &Vec<KeypointMark>) -> (r: Option<usize>)
    ensures
        match r {
            Some(j) => absent_required(spec@, marks@) == Some(j as int) && j < spec@.len(),
            None => absent_required(spec@, marks@) is None,
        },
{
    let mut j: usize = 0;
    while j < spec.len()
        invariant
            j <= spec@.len(),
            absent_required(spec@.subrange(0, j as int), marks@) is None,
        decreases spec.len() - j,
    {
        assert(spec@.subrange(0, j + 1).drop_last() =~= spec@.subrange(0, j as int));
        if spec[j].required && marks_absent(marks, spec[j].name.as_str()) {
            proof {
                lemma_absent_prefix(spec@, marks@, j + 1);
            }
            return Some(j);
        }
        j += 1;
    }
    assert(spec@.subrange(0, spec@.len() as int) =~= spec@);
    None
}

proof fn lemma_absent_prefix(spec: Seq<KeypointSpec>, marks: Seq<KeypointMark>, n: int)
    requires
        0 <= n <= spec.len(),
        absent_required(spec.subrange(0, n), marks) is Some,
    ensures
        absent_required(spec, marks) == absent_required(spec.subrange(0, n), marks),
    decreases spec.len() - n,
{
    if n < spec.len() {
        assert(spec.subrange(0, n + 1).drop_last() =~= spec.subrange(0, n));
        lemma_absent_prefix(spec, marks, n + 1);
    } else {
        assert(spec.subrange(0, n) =~= spec);
    }
}

proof fn lemma_first_absent_prefix(w: WorkState, spec: Seq<KeypointSpec>, s: Seq<AnnotationSummary>, n: int)
    requires
        0 <= n <= s.len(),
        first_absent_required(w, spec, s.subrange(0, n)) is Some,
    ensures
        first_absent_required(w, spec, s) == first_absent_required(w, spec, s.subrange(0, n)),
    decreases s.len() - n,
{
    if n < s.len() {
        assert(s.subrange(0, n + 1).drop_last() =~= s.subrange(0, n));
        lemma_first_absent_prefix(w, spec, s, n + 1);
    } else {
        assert(s.subrange(0, n) =~= s);
    }
}

impl WorkState {
    /// Why the current image cannot be submitted yet, if it cannot.
    pub fn submission_issue(&self, active_skeleton: bool, annotations: &Vec<AnnotationSummary>) -> (r: Option<String>)
        ensures
            match r {
                Some(m) => submission_problem(*self, active_skeleton, annotations@) == Some(m@),
                None => submission_problem(*self, active_skeleton, annotations@) is None,
            },
    {
        let k = match self.selected_task() {
            Some(k) => k,
            None => return None,
        };
        proof {
            let id = self.selected_task_id->0;
            let c = choose|c: int| crate::workspace::first_workable_with_id(self.tasks@, id@, c);
            assert(crate::workspace::first_workable_with_id(self.tasks@, id@, c));
        }
        let spec = match &self.tasks[k].skeleton {
            Some(s) => s,
            None => return None,
        };
        if active_skeleton {
            return Some(
                text::to_string("Finish the active skeleton or mark its remaining optional keypoints absent before submitting."),
            );
        }
        let mut i: usize = 0;
        while i < annotations.len()
            invariant
                i <= annotations@.len(),
                selected_index(*self) == Some(k as int),
                k < self.tasks@.len(),
                self.tasks@[k as int].skeleton == Some(*spec),
                !active_skeleton,
                first_absent_required(*self, spec.keypoints@, annotations@.subrange(0, i as int)) is None,
            decreases annotations.len() - i,
        {
            let a = &annotations[i];
            assert(annotations@.subrange(0, i + 1).drop_last() =~= annotations@.subrange(0, i as int));
            if !a.deleted && self.annotation_matches_selected_workflow(a) {
                if let Some(marks) = &a.keypoints {
                    if let Some(j) = first_absent_keypoint(&spec.keypoints, marks) {
                        proof {
                            let pre = annotations@.subrange(0, i + 1);
                            assert(pre.last() == *a);
                            assert(pre.drop_last() =~= annotations@.subrange(0, i as int));
                            assert(first_absent_required(*self, spec.keypoints@, pre) == Some(spec.keypoints@[j as int].name@));
                            lemma_first_absent_prefix(*self, spec.keypoints@, annotations@, i + 1);
                        }
                        return Some(
                            text::concat3(
                                "Required keypoint '",
                                spec.keypoints[j].name.as_str(),
                                "' is absent. Place it before submitting.",
                            ),
                        );
                    }
                }
            }
            i += 1;
        }
        assert(annotations@.subrange(0, annotations@.len() as int) =~= annotations@);
        None
    }
}

/// The suggestion shown as active: the selected one while it is visible,
/// else the first visible one.
pub open spec fn active_suggestion(visible: Seq<Seq<char>>, selected: Option<Seq<char>>) -> Option<int> {
    match selected {
        Some(s) if position_of(visible, s) is Some => position_of(visible, s),
        _ => if visible.len() > 0 {
            Some(0)
        } else {
            None
        },
    }
}

/// The position of the active suggestion among the visible ones.
pub fn active_prelabel(visible: &Vec<String>, selected: Option<&str>) -> (r: Option<usize>)
    ensures
        match r {
            Some(i) => active_suggestion(
                crate::ids::views(visible@),
                match selected {
                    Some(x) => Some(x@),
                    None => None,
                },
            ) == Some(i as int) && i < visible@.len(),
            None => active_suggestion(
                crate::ids::views(visible@),
                match selected {
                    Some(x) => Some(x@),
                    None => None,
                },
            ) is None,
        },
{
    if let Some(s) = selected {
        if let Some(i) = find_position(visible, s) {
            return Some(i);
        }
    }
    if visible.len() > 0 {
        Some(0)
    } else {
        None
    }
}

/// Records a suggestion as dealt with, once.
pub fn record_discarded(handled: &mut Vec<String>, suggestion_id: String)
    ensures
        crate::ids::views(old(handled)@).contains(suggestion_id@) ==> crate::ids::views(final(handled)@)
            == crate::ids::views(old(handled)@),
        !crate::ids::views(old(handled)@).contains(suggestion_id@) ==> crate::ids::views(final(handled)@)
            == crate::ids::views(old(handled)@).push(suggestion_id@),
{
    if !crate::ids::contains_string(handled, suggestion_id.as_str()) {
        let ghost before = crate::ids::views(handled@);
        handled.push(suggestion_id);
        assert(crate::ids::views(handled@) =~= before.push(suggestion_id@));
    }
}

/// Where the annotations of the current image stand with the server.
#[derive(Clone, Copy, Debug, PartialEq, Eq, Structural)]
pub enum SaveStatus {
    Idle,
    Dirty,
    Saved,
    Saving,
    Retry,
}

/// The milliseconds an edit rests before it is saved on its own.
pub const AUTOSAVE_DELAY_MS: u64 = 750;

/// Whether unsaved edits should be saved now: they are dirty, nothing is
/// saving, moving on or being dragged, and the last edit rested long
/// enough.
pub fn autosave_due(
    status: SaveStatus,
    saving: bool,
    transition_pending: bool,
    dragging: bool,
    since_last_edit_ms: Option<u64>,
) -> (r: bool)
    ensures
        r == (status == SaveStatus::Dirty && !saving && !transition_pending && !dragging && match since_last_edit_ms {
            Some(ms) => ms >= AUTOSAVE_DELAY_MS,
            None => false,
        }),
{
    status == SaveStatus::Dirty && !saving && !transition_pending && !dragging && match since_last_edit_ms {
        Some(ms) => ms >= AUTOSAVE_DELAY_MS,
        None => false,
    }
}

/// What an autosave does.
#[derive(Clone, Copy, Debug, PartialEq, Eq, Structural)]
pub enum AutosaveStep {
    /// Nothing to save.
    Nothing,
    /// Send the annotations to the server.
    RequestSave,
    /// Without a server the save completes at once with this status.
    MarkStatus(SaveStatus),
}

/// What an autosave does: only unsaved annotation work (dirty or to
/// retry) is saved, through the server when there is one; without one the
/// status moves on to saving while offline and to saved otherwise.
pub fn autosave_step(view: AppView, status: SaveStatus, online: bool, offline: bool) -> (r: AutosaveStep)
    ensures
        r == if view == AppView::Annotate && (status == SaveStatus::Dirty || status == SaveStatus::Retry) {
            if online {
                AutosaveStep::RequestSave
            } else if offline {
                AutosaveStep::MarkStatus(SaveStatus::Saving)
            } else {
                AutosaveStep::MarkStatus(SaveStatus::Saved)
            }
        } else {
            AutosaveStep::Nothing
        },
{
    if view == AppView::Annotate && (status == SaveStatus::Dirty || status == SaveStatus::Retry) {
        if online {
            AutosaveStep::RequestSave
        } else if offline {
            AutosaveStep::MarkStatus(SaveStatus::Saving)
        } else {
            AutosaveStep::MarkStatus(SaveStatus::Saved)
        }
    } else {
        AutosaveStep::Nothing
    }
}

/// The milliseconds between two looks at the dataset statistics while they
/// are shown.
pub const STATS_REFRESH_MS: u64 = 3000;

/// The milliseconds between two polls while an ingest runs.
pub const INGEST_POLL_MS: u64 = 500;

/// The milliseconds a checked workflow availability stays fresh.
pub const AVAILABILITY_TTL_MS: u64 = 30000;

/// What the next frame's timers read: whether edits are unsaved and how
/// long ago the last one was made, whether an ingest runs, whether the
/// statistics are shown and idle and how long ago they were last asked
/// for, and whether workflow availability is watched, whether it was ever
/// checked, how old the check is and how long ago it was last tried.
/// Times are in milliseconds.
#[derive(Clone, Copy, Debug)]
pub struct RepaintClock {
    pub dirty: bool,
    pub since_last_edit_ms: Option<u64>,
    pub ingesting: bool,
    pub stats_idle: bool,
    pub since_stats_attempt_ms: Option<u64>,
    pub availability_watched: bool,
    pub availability_checked: bool,
    pub availability_age_ms: Option<u64>,
    pub since_availability_attempt_ms: Option<u64>,
}

/// The repaints a frame asks for, each as a delay in milliseconds: one
/// when the pending autosave falls due, one for the ingest poll, one for
/// the statistics refresh and one for the availability refresh.
#[derive(Clone, Copy, Debug, PartialEq, Eq, Structural)]
pub struct RepaintRequests {
    pub autosave: Option<u64>,
    pub ingest: Option<u64>,
    pub stats: Option<u64>,
    pub availability: Option<u64>,
}

/// `total` less `elapsed`, and no less than nothing.
pub open spec fn remaining_ms(total: u64, elapsed: u64) -> u64 {
    if elapsed >= total {
        0
    } else {
        (total - elapsed) as u64
    }
}

/// The delay until an availability refresh: what is left of the freshness
/// of the last check, or else of the last attempt; nothing when neither is
/// known.
pub open spec fn availability_delay(c: RepaintClock) -> u64 {
    if c.availability_checked {
        match c.availability_age_ms {
            Some(age) => remaining_ms(AVAILABILITY_TTL_MS, age),
            None => 0,
        }
    } else {
        match c.since_availability_attempt_ms {
            Some(e) => remaining_ms(AVAILABILITY_TTL_MS, e),
            None => 0,
        }
    }
}

/// The repaints a frame asks for: the rest of the autosave delay while
/// edits are unsaved, a poll while an ingest runs, the rest of the
/// statistics interval while they are shown and idle (the whole interval
/// before a first attempt), and the rest of the availability freshness
/// while it is watched.
pub fn repaint_requests(c: RepaintClock) -> (r: RepaintRequests)
    ensures
        r.autosave == (if c.dirty {
            match c.since_last_edit_ms {
                Some(e) => Some(remaining_ms(AUTOSAVE_DELAY_MS, e)),
                None => None,
            }
        } else {
            None
        }),
        r.ingest == (if c.ingesting {
            Some(INGEST_POLL_MS)
        } else {
            None
        }),
        r.stats == (if c.stats_idle {
            Some(
                match c.since_stats_attempt_ms {
                    Some(e) => remaining_ms(STATS_REFRESH_MS, e),
                    None => STATS_REFRESH_MS,
                },
            )
        } else {
            None
        }),
        r.availability == (if c.availability_watched {
            Some(availability_delay(c))
        } else {
            None
        }),
{
    let autosave = if c.dirty {
        match c.since_last_edit_ms {
            Some(e) => Some(AUTOSAVE_DELAY_MS.saturating_sub(e)),
            None => None,
        }
    } else {
        None
    };
    let ingest = if c.ingesting {
        Some(INGEST_POLL_MS)
    } else {
        None
    };
    let stats = if c.stats_idle {
        Some(
            match c.since_stats_attempt_ms {
                Some(e) => STATS_REFRESH_MS.saturating_sub(e),
                None => STATS_REFRESH_MS,
            },
        )
    } else {
        None
    };
    let availability = if c.availability_watched {
        let delay = if c.availability_checked {
            match c.availability_age_ms {
                Some(age) => AVAILABILITY_TTL_MS.saturating_sub(age),
                None => 0,
            }
        } else {
            match c.since_availability_attempt_ms {
                Some(e) => AVAILABILITY_TTL_MS.saturating_sub(e),
                None => 0,
            }
        };
        Some(delay)
    } else {
        None
    };
    RepaintRequests { autosave, ingest, stats, availability }
}

/// What submitting the current image does.
#[derive(Debug)]
pub enum SubmitStep {
    /// Nothing: not annotating, saving, or no assignment is open.
    Ignore,
    /// The image cannot be submitted yet, for this reason.
    Refuse(String),
    /// Offline: move on at once.
    AdvanceNow,
    /// Save, then move on.
    SaveThenAdvance,
}

/// What submitting does: nothing outside annotation, while saving or
/// without an assignment (online); a refusal while the image has a problem;
/// otherwise move on, at once when offline and after saving when online.
pub fn submit_step(
    view: AppView,
    saving: bool,
    has_assignment: bool,
    online: bool,
    problem: Option<String>,
) -> (r: SubmitStep)
    ensures
        (view != AppView::Annotate || saving || (!has_assignment && online)) ==> r is Ignore,
        !(view != AppView::Annotate || saving || (!has_assignment && online)) ==> match problem {
            Some(m) => r matches SubmitStep::Refuse(x) && x@ == m@,
            None => if online {
                r is SaveThenAdvance
            } else {
                r is AdvanceNow
            },
        },
{
    if view != AppView::Annotate || saving || (!has_assignment && online) {
        return SubmitStep::Ignore;
    }
    if let Some(m) = problem {
        return SubmitStep::Refuse(m);
    }
    if !online {
        SubmitStep::AdvanceNow
    } else {
        SubmitStep::SaveThenAdvance
    }
}

/// What skipping the current image does.
#[derive(Clone, Copy, Debug, PartialEq, Eq, Structural)]
pub enum SkipStep {
    /// Nothing: saving, or no assignment is open.
    Ignore,
    /// Unsaved work: move on once it is saved.
    AfterSave,
    /// Offline: move on at once.
    AdvanceNow,
    /// Release the assignment, then move on.
    ReleaseThenAdvance,
}

/// What skipping does: nothing while saving or without an assignment
/// (online); wait for unsaved annotation work to be saved; otherwise move
/// on, at once when offline and after releasing the assignment when online.
pub fn skip_step(
    view: AppView,
    saving: bool,
    has_assignment: bool,
    online: bool,
    status: SaveStatus,
    unsaved_migration_input: bool,
) -> (r: SkipStep)
    ensures
        r == if saving || (!has_assignment && online) {
            SkipStep::Ignore
        } else if view == AppView::Annotate && online && (status == SaveStatus::Dirty || status == SaveStatus::Retry
            || unsaved_migration_input) {
            SkipStep::AfterSave
        } else if !online {
            SkipStep::AdvanceNow
        } else {
            SkipStep::ReleaseThenAdvance
        },
{
    if saving || (!has_assignment && online) {
        SkipStep::Ignore
    } else if view == AppView::Annotate && online && (status == SaveStatus::Dirty || status == SaveStatus::Retry
        || unsaved_migration_input) {
        SkipStep::AfterSave
    } else if !online {
        SkipStep::AdvanceNow
    } else {
        SkipStep::ReleaseThenAdvance
    }
}

/// A job in this state is working on the server and should be polled.
pub open spec fn job_in_flight(l: ImportLifecycle) -> bool {
    l == ImportLifecycle::Preflighting || l == ImportLifecycle::Building || l == ImportLifecycle::Verifying || l
        == ImportLifecycle::Committing
}

/// Whether to poll the import now: the flow is open, no status request is
/// running, the job is working on the server, and the poll deadline (if
/// any) has passed.
pub fn import_poll_due(
    open: bool,
    status_request_running: bool,
    lifecycle: Option<ImportLifecycle>,
    deadline_passed: Option<bool>,
) -> (r: bool)
    ensures
        r == (open && !status_request_running && (match lifecycle {
            Some(l) => job_in_flight(l),
            None => false,
        }) && match deadline_passed {
            Some(p) => p,
            None => true,
        }),
{
    let in_flight = match lifecycle {
        Some(l) => l == ImportLifecycle::Preflighting || l == ImportLifecycle::Building || l == ImportLifecycle::Verifying
            || l == ImportLifecycle::Committing,
        None => false,
    };
    open && !status_request_running && in_flight && match deadline_passed {
        Some(p) => p,
        None => true,
    }
}

/// How a failed import is retried.
#[derive(Clone, Copy, Debug, PartialEq, Eq, Structural)]
pub enum RetryStep {
    Commit,
    Preflight,
}

/// How to retry: commit again when the import failed while building,
/// verifying or committing a plan it still has; otherwise rerun preflight.
pub fn retry_step(failure_phase: Option<ImportProgressPhase>, has_plan: bool) -> (r: RetryStep)
    ensures
        r == if has_plan && (failure_phase == Some(ImportProgressPhase::Build) || failure_phase == Some(
            ImportProgressPhase::Verification,
        ) || failure_phase == Some(ImportProgressPhase::Commit)) {
            RetryStep::Commit
        } else {
            RetryStep::Preflight
        },
{
    let late = match failure_phase {
        Some(ImportProgressPhase::Build) | Some(ImportProgressPhase::Verification) | Some(ImportProgressPhase::Commit) => true,
        _ => false,
    };
    if late && has_plan {
        RetryStep::Commit
    } else {
        RetryStep::Preflight
    }
}

/// A move the annotator asked for, which may have to wait until the open
/// assignment is saved or released. `A` is the assignment to return to.
#[derive(Debug)]
pub enum PendingTransition<A> {
    NextAssignment,
    PreviousAssignment(A),
    Workflow(String),
    View(AppView),
}

/// Whether the move would lead where the annotator already is: the
/// workflow already selected or the view already open.
pub open spec fn transition_is_current<A>(t: PendingTransition<A>, view: AppView, selected_task: Option<Seq<char>>) -> bool {
    match t {
        PendingTransition::Workflow(task_id) => selected_task == Some(task_id@),
        PendingTransition::View(v) => v == view,
        _ => false,
    }
}

/// What asking for a move does.
#[derive(Clone, Copy, Debug, PartialEq, Eq, Structural)]
pub enum TransitionRequest {
    /// Nothing: saving or loading, or the move leads nowhere new.
    Ignore,
    /// Keep the move pending until the open assignment is dealt with.
    Hold,
    /// Make the move now.
    Execute,
}

/// What asking for a move does: nothing while saving or loading an image or
/// when it leads where the annotator already is; wait while an assignment
/// is open; otherwise move at once.
pub fn transition_request<A>(
    t: &PendingTransition<A>,
    view: AppView,
    selected_task: Option<&str>,
    saving: bool,
    image_loading: bool,
    has_assignment: bool,
) -> (r: TransitionRequest)
    ensures
        r == if saving || image_loading || transition_is_current(
            *t,
            view,
            match selected_task {
                Some(s) => Some(s@),
                None => None,
            },
        ) {
            TransitionRequest::Ignore
        } else if has_assignment {
            TransitionRequest::Hold
        } else {
            TransitionRequest::Execute
        },
{
    let current = match t {
        PendingTransition::Workflow(task_id) => match selected_task {
            Some(s) => crate::text::str_eq(s, task_id.as_str()),
            None => false,
        },
        PendingTransition::View(v) => *v == view,
        _ => false,
    };
    if saving || image_loading || current {
        TransitionRequest::Ignore
    } else if has_assignment {
        TransitionRequest::Hold
    } else {
        TransitionRequest::Execute
    }
}

/// One thing the client does to carry out a move, in order.
#[derive(Clone, Copy, Debug, PartialEq, Eq, Structural)]
pub enum TransitionEffect {
    /// Offline: show the next demo image.
    AdvanceOffline,
    /// Remember the assignment moved back to as the previous one.
    RememberPrevious,
    ClearPreviousAssignment,
    BeginWorkspaceEpoch,
    CloseTutorialAndDrawer,
    ClearCurrentImage,
    RequestNextImage,
    ReopenAssignment,
    RequestAdminDataset,
    OpenView(AppView),
    RequestStats,
}

/// The steps of a move. `workflow_selected` is whether selecting the
/// workflow moved to succeeded; a workflow that cannot be selected leads
/// nowhere.
pub open spec fn transition_effects<A>(t: PendingTransition<A>, online: bool, workflow_selected: bool) -> Seq<TransitionEffect> {
    match t {
        PendingTransition::NextAssignment => if online {
            seq![TransitionEffect::ClearCurrentImage, TransitionEffect::RequestNextImage]
        } else {
            seq![TransitionEffect::AdvanceOffline]
        },
        PendingTransition::PreviousAssignment(_) => seq![
            TransitionEffect::RememberPrevious,
            TransitionEffect::ClearCurrentImage,
            TransitionEffect::ReopenAssignment,
        ],
        PendingTransition::Workflow(_) => if workflow_selected {
            seq![
                TransitionEffect::ClearPreviousAssignment,
                TransitionEffect::BeginWorkspaceEpoch,
                TransitionEffect::ClearCurrentImage,
                TransitionEffect::RequestNextImage,
            ]
        } else {
            seq![]
        },
        PendingTransition::View(v) => {
            let lead = seq![
                TransitionEffect::CloseTutorialAndDrawer,
                TransitionEffect::BeginWorkspaceEpoch,
                TransitionEffect::ClearPreviousAssignment,
                TransitionEffect::ClearCurrentImage,
            ];
            if v == AppView::Admin {
                lead.push(TransitionEffect::RequestAdminDataset)
            } else if v == AppView::Annotate || v == AppView::Review || v == AppView::Adjudicate {
                lead.push(TransitionEffect::OpenView(v)).push(TransitionEffect::RequestNextImage)
            } else if v == AppView::Stats {
                lead.push(TransitionEffect::OpenView(v)).push(TransitionEffect::RequestStats)
            } else {
                lead.push(TransitionEffect::OpenView(v))
            }
        },
    }
}

/// The steps that carry out a move: see `transition_effects`.
pub fn execute_transition<A>(t: &PendingTransition<A>, online: bool, workflow_selected: bool) -> (r: Vec<
    TransitionEffect,
>)
    ensures
        r@ == transition_effects(*t, online, workflow_selected),
{
    let mut r: Vec<TransitionEffect> = Vec::new();
    match t {
        PendingTransition::NextAssignment => {
            if online {
                r.push(TransitionEffect::ClearCurrentImage);
                r.push(TransitionEffect::RequestNextImage);
            } else {
                r.push(TransitionEffect::AdvanceOffline);
            }
        },
        PendingTransition::PreviousAssignment(_) => {
            r.push(TransitionEffect::RememberPrevious);
            r.push(TransitionEffect::ClearCurrentImage);
            r.push(TransitionEffect::ReopenAssignment);
        },
        PendingTransition::Workflow(_) => {
            if workflow_selected {
                r.push(TransitionEffect::ClearPreviousAssignment);
                r.push(TransitionEffect::BeginWorkspaceEpoch);
                r.push(TransitionEffect::ClearCurrentImage);
                r.push(TransitionEffect::RequestNextImage);
            }
        },
        PendingTransition::View(v) => {
            let v = *v;
            r.push(TransitionEffect::CloseTutorialAndDrawer);
            r.push(TransitionEffect::BeginWorkspaceEpoch);
            r.push(TransitionEffect::ClearPreviousAssignment);
            r.push(TransitionEffect::ClearCurrentImage);
            if v == AppView::Admin {
                r.push(TransitionEffect::RequestAdminDataset);
            } else if v == AppView::Annotate || v == AppView::Review || v == AppView::Adjudicate {
                r.push(TransitionEffect::OpenView(v));
                r.push(TransitionEffect::RequestNextImage);
            } else if v == AppView::Stats {
                r.push(TransitionEffect::OpenView(v));
                r.push(TransitionEffect::RequestStats);
            } else {
                r.push(TransitionEffect::OpenView(v));
            }
        },
    }
    proof {
        assert(r@ =~= transition_effects(*t, online, workflow_selected));
    }
    r
}

/// The assignment moved on from, as far as returning to it depends on it.
#[derive(Clone, Copy, Debug)]
pub struct PreviousAssignment {
    /// The assignment is still active on the server.
    pub active: bool,
    /// When its lease runs out, in milliseconds since the epoch.
    pub expires_at_ms: Option<i64>,
}

/// What returning to the previous assignment does.
#[derive(Clone, Copy, Debug, PartialEq, Eq, Structural)]
pub enum ReturnStep {
    /// Nothing: not annotating, busy, a move is pending, offline, or there
    /// is no previous assignment.
    Ignore,
    /// Its lease ran out: forget it and say so.
    LeaseExpired,
    /// Unsaved work: return once it is saved.
    AfterSave,
    /// Reopen it now.
    Reopen,
}

/// What returning does: nothing unless annotating online with nothing
/// saving, loading or pending and a previous assignment known; an active
/// assignment whose lease ran out by `now_ms` cannot be returned to; with
/// unsaved work in the open assignment the return waits; otherwise the
/// previous assignment is reopened.
pub fn return_step(
    view: AppView,
    saving: bool,
    image_loading: bool,
    transition_pending: bool,
    online: bool,
    previous: Option<PreviousAssignment>,
    now_ms: i64,
    has_assignment: bool,
    status: SaveStatus,
    unsaved_migration_input: bool,
) -> (r: ReturnStep)
    ensures
        r == if view != AppView::Annotate || saving || image_loading || transition_pending || !online
            || previous is None {
            ReturnStep::Ignore
        } else if previous.unwrap().active && (previous.unwrap().expires_at_ms matches Some(e) && e <= now_ms) {
            ReturnStep::LeaseExpired
        } else if has_assignment && (status == SaveStatus::Dirty || status == SaveStatus::Retry
            || unsaved_migration_input) {
            ReturnStep::AfterSave
        } else {
            ReturnStep::Reopen
        },
{
    if view != AppView::Annotate || saving || image_loading || transition_pending || !online {
        return ReturnStep::Ignore;
    }
    let p = match previous {
        Some(p) => p,
        None => return ReturnStep::Ignore,
    };
    let expired = match p.expires_at_ms {
        Some(e) => e <= now_ms,
        None => false,
    };
    if p.active && expired {
        ReturnStep::LeaseExpired
    } else if has_assignment && (status == SaveStatus::Dirty || status == SaveStatus::Retry || unsaved_migration_input) {
        ReturnStep::AfterSave
    } else {
        ReturnStep::Reopen
    }
}

} // verus!
