use labello_ui::work_session::{autosave_step, AutosaveStep};
use labello_ui::canvas_modes::{CanvasModes, ReviewViewTarget};
use labello_ui::editing::{
    accept_prelabel, delete_selected, record_geometry_edit, recompute_modified_annotations,
    restore_annotations, EditHistory, EditedAnnotation, KeypointCursor, KeypointSkip,
    SavedCounterpart,
};
use labello_ui::import_model::KeypointState;
use labello_ui::model::{AnnotationType, DatasetRole, KeypointSpec, LabelClass, ReviewWorkflow, SkeletonSpec};
use labello_ui::schema::workflow_task_for_class;
use labello_ui::work_session::{
    execute_transition, return_step, transition_request, AnnotationSummary, PendingTransition,
    PreviousAssignment, ReturnStep, SaveStatus, TransitionEffect, TransitionRequest,
};
use labello_ui::workspace::{
    has_dataset_role, workflow_availability, AppView, AssignmentKind, AvailabilityState,
    DatasetSummary, EditSnapshot, Tool, WorkState, WorkflowPreference,
};

fn snap(state: &str, bytes: usize) -> EditSnapshot<String> {
    EditSnapshot { state: state.to_string(), approx_bytes: bytes }
}

#[test]
fn undo_and_redo_walk_back_and_forth_through_recorded_edits() {
    let mut history: EditHistory<String> = EditHistory::new();
    assert!(history.undo(snap("now", 10)).is_none());
    assert!(history.undo_stack.is_empty() && history.redo_stack.is_empty());

    history.record_edit(snap("first", 10));
    history.record_edit(snap("second", 10));
    let restored = history.undo(snap("third", 10)).map(|s| s.state);
    assert_eq!(restored.as_deref(), Some("second"));
    assert_eq!(history.redo_stack.len(), 1);

    let again = history.redo(snap("second", 10)).map(|s| s.state);
    assert_eq!(again.as_deref(), Some("third"));
    assert_eq!(history.undo_stack.last().map(|s| s.state.as_str()), Some("second"));

    history.undo(snap("third", 10));
    assert_eq!(history.redo_stack.len(), 1);
    history.record_edit(snap("branch", 10));
    assert!(history.redo_stack.is_empty());
    assert!(history.redo(snap("x", 10)).is_none());
}

fn skeleton(allow_absent: bool, required: &[bool]) -> SkeletonSpec {
    SkeletonSpec {
        keypoints: required
            .iter()
            .enumerate()
            .map(|(i, r)| KeypointSpec { name: format!("k{i}"), required: *r })
            .collect(),
        edges: Vec::new(),
        allow_hidden: true,
        allow_absent,
    }
}

#[test]
fn keypoint_cursor_walks_a_skeleton_and_respects_required_keypoints() {
    let mut cursor = KeypointCursor::idle();
    cursor.next_keypoint_hidden = true;
    assert_eq!(cursor.start_skeleton("a1".to_string(), 3), Some(KeypointState::Hidden));
    assert_eq!(cursor.active_skeleton.as_deref(), Some("a1"));
    assert_eq!(cursor.keypoint_index, 1);
    assert!(!cursor.next_keypoint_hidden);

    let spec = skeleton(true, &[true, true, false]);
    assert_eq!(cursor.skip_keypoint(Some(&spec)), KeypointSkip::Required);
    assert_eq!(cursor.keypoint_index, 1);
    assert_eq!(cursor.place_next(3), Some(KeypointState::Visible));
    assert_eq!(cursor.keypoint_index, 2);
    assert_eq!(cursor.skip_keypoint(Some(&spec)), KeypointSkip::Skipped);
    assert!(cursor.active_skeleton.is_none());
    assert_eq!(cursor.keypoint_index, 0);
    assert_eq!(cursor.skip_keypoint(Some(&spec)), KeypointSkip::Ignored);

    let strict = skeleton(false, &[false, false]);
    let mut other = KeypointCursor::idle();
    other.start_skeleton("b".to_string(), 2);
    assert_eq!(other.skip_keypoint(Some(&strict)), KeypointSkip::Ignored);
    assert_eq!(other.skip_keypoint(None), KeypointSkip::Ignored);
    assert_eq!(other.place_next(2), Some(KeypointState::Visible));
    assert!(other.active_skeleton.is_none());
    assert_eq!(other.place_next(0), None);

    let mut single = KeypointCursor::idle();
    assert_eq!(single.start_skeleton("c".to_string(), 1), Some(KeypointState::Visible));
    assert!(single.active_skeleton.is_none());
    assert_eq!(single.start_skeleton("d".to_string(), 0), None);
}

fn edited(id: &str, version: u64, deleted: bool) -> EditedAnnotation<u32> {
    EditedAnnotation { annotation_id: id.to_string(), version, deleted, body: 7 }
}

#[test]
fn deleting_the_selection_marks_it_deleted_and_resets_the_cursor() {
    let mut annotations = vec![edited("a", 3, false), edited("b", 5, false), edited("c", 1, true)];
    let mut selected = Some("b".to_string());
    let mut cursor = KeypointCursor::idle();
    cursor.start_skeleton("b".to_string(), 4);
    let mut modified = vec!["b".to_string(), "a".to_string()];
    let r = delete_selected(&mut annotations, &mut selected, &mut cursor, &mut modified, true, Some(4));
    assert_eq!(r, Some(1));
    assert!(selected.is_none());
    assert!(annotations[1].deleted);
    assert_eq!(annotations[1].version, 4);
    assert_eq!(modified, vec!["a".to_string()]);
    assert!(cursor.active_skeleton.is_none());
    assert_eq!(cursor.keypoint_index, 0);

    let mut again = Some("c".to_string());
    assert_eq!(delete_selected(&mut annotations, &mut again, &mut cursor, &mut modified, true, None), None);
    assert!(again.is_none());
    let mut missing = Some("zzz".to_string());
    assert_eq!(delete_selected(&mut annotations, &mut missing, &mut cursor, &mut modified, false, None), None);
    let mut nothing: Option<String> = None;
    assert_eq!(delete_selected(&mut annotations, &mut nothing, &mut cursor, &mut modified, false, None), None);

    let mut unsaved_sel = Some("a".to_string());
    let r = delete_selected(&mut annotations, &mut unsaved_sel, &mut cursor, &mut modified, false, Some(9));
    assert_eq!(r, Some(0));
    assert_eq!(annotations[0].version, 3);
    assert_eq!(modified, vec!["a".to_string()]);
}

#[test]
fn versions_follow_the_saved_state() {
    let mut annotations = vec![
        edited("same", 1, false),
        edited("changed", 2, false),
        edited("gone", 9, true),
        edited("fresh", 1, false),
        edited("lost", 4, false),
    ];
    let counterparts = vec![
        SavedCounterpart { persisted: true, saved_version: Some(2), unchanged: true },
        SavedCounterpart { persisted: true, saved_version: Some(2), unchanged: false },
        SavedCounterpart { persisted: true, saved_version: Some(5), unchanged: false },
        SavedCounterpart { persisted: false, saved_version: None, unchanged: false },
        SavedCounterpart { persisted: true, saved_version: None, unchanged: false },
    ];
    let modified = recompute_modified_annotations(&mut annotations, &counterparts);
    assert_eq!(modified, vec!["changed".to_string(), "lost".to_string()]);
    let versions: Vec<u64> = annotations.iter().map(|a| a.version).collect();
    assert_eq!(versions, vec![2, 3, 5, 1, 4]);

    let mut a = edited("x", 7, false);
    let mut set = vec!["x".to_string()];
    assert!(record_geometry_edit(&mut a, &mut set, true, Some(3)));
    assert_eq!(a.version, 4);
    assert_eq!(set, vec!["x".to_string()]);
    let mut b = edited("y", 7, false);
    assert!(record_geometry_edit(&mut b, &mut set, true, None));
    assert_eq!(b.version, 8);
    assert_eq!(set, vec!["x".to_string(), "y".to_string()]);
    let mut c = edited("z", 7, false);
    assert!(!record_geometry_edit(&mut c, &mut set, false, Some(1)));
    assert_eq!(c.version, 7);
}

#[test]
fn restoring_a_snapshot_keeps_saved_annotations_as_deletions() {
    let snapshot = vec![edited("a", 1, false)];
    let saved = vec![edited("a", 1, false), edited("b", 2, false), edited("b", 3, false)];
    let restored = restore_annotations(snapshot, saved);
    assert_eq!(restored.len(), 2);
    assert_eq!(restored[0].annotation_id, "a");
    assert!(!restored[0].deleted);
    assert_eq!(restored[1].annotation_id, "b");
    assert!(restored[1].deleted);
    assert_eq!(restored[1].version, 2);
}

#[test]
fn prelabels_are_accepted_once_for_the_selected_workflow() {
    let mut accepted = Vec::new();
    assert!(accept_prelabel(&mut accepted, Some("t"), Some("c"), "t", "c", "s1"));
    assert_eq!(accepted, vec!["s1".to_string()]);
    assert!(!accept_prelabel(&mut accepted, Some("t"), Some("c"), "t", "c", "s1"));
    assert!(!accept_prelabel(&mut accepted, Some("t"), Some("c"), "other", "c", "s2"));
    assert!(!accept_prelabel(&mut accepted, Some("t"), None, "t", "c", "s2"));
    assert_eq!(accepted.len(), 1);
}

#[test]
fn transitions_wait_for_open_assignments_and_skip_the_current_target() {
    let view = PendingTransition::<()>::View(AppView::Annotate);
    assert_eq!(transition_request(&view, AppView::Annotate, None, false, false, false), TransitionRequest::Ignore);
    let workflow = PendingTransition::<()>::Workflow("t1".to_string());
    assert_eq!(transition_request(&workflow, AppView::Annotate, Some("t1"), false, false, false), TransitionRequest::Ignore);
    assert_eq!(transition_request(&workflow, AppView::Annotate, Some("t2"), false, false, true), TransitionRequest::Hold);
    assert_eq!(transition_request(&workflow, AppView::Annotate, None, false, false, false), TransitionRequest::Execute);
    assert_eq!(
        transition_request(&PendingTransition::<()>::NextAssignment, AppView::Annotate, None, true, false, false),
        TransitionRequest::Ignore
    );

    assert_eq!(
        execute_transition(&PendingTransition::<()>::NextAssignment, false, false),
        vec![TransitionEffect::AdvanceOffline]
    );
    assert_eq!(
        execute_transition(&PendingTransition::<()>::View(AppView::Stats), true, false),
        vec![
            TransitionEffect::CloseTutorialAndDrawer,
            TransitionEffect::BeginWorkspaceEpoch,
            TransitionEffect::ClearPreviousAssignment,
            TransitionEffect::ClearCurrentImage,
            TransitionEffect::OpenView(AppView::Stats),
            TransitionEffect::RequestStats,
        ]
    );
    assert_eq!(
        execute_transition(&PendingTransition::<()>::View(AppView::Admin), true, false).last(),
        Some(&TransitionEffect::RequestAdminDataset)
    );
    assert!(execute_transition(&workflow, true, false).is_empty());
    assert_eq!(execute_transition(&PendingTransition::PreviousAssignment(5u8), true, true).len(), 3);
}

#[test]
fn returning_to_the_previous_assignment_checks_its_lease() {
    let live = PreviousAssignment { active: true, expires_at_ms: Some(2_000) };
    let args = |previous, status| {
        return_step(AppView::Annotate, false, false, false, true, previous, 1_000, true, status, false)
    };
    assert_eq!(args(Some(live), SaveStatus::Saved), ReturnStep::Reopen);
    assert_eq!(args(Some(live), SaveStatus::Dirty), ReturnStep::AfterSave);
    assert_eq!(args(None, SaveStatus::Saved), ReturnStep::Ignore);
    let expired = PreviousAssignment { active: true, expires_at_ms: Some(1_000) };
    assert_eq!(args(Some(expired), SaveStatus::Saved), ReturnStep::LeaseExpired);
    let done = PreviousAssignment { active: false, expires_at_ms: Some(1) };
    assert_eq!(args(Some(done), SaveStatus::Saved), ReturnStep::Reopen);
    assert_eq!(
        return_step(AppView::Review, false, false, false, true, Some(live), 0, false, SaveStatus::Idle, false),
        ReturnStep::Ignore
    );
}

fn class(id: &str) -> LabelClass {
    LabelClass { class_id: id.to_string(), name: format!("{id} name"), color: "#5eead4".to_string(), description: None }
}

#[test]
fn loaded_configuration_prefers_the_saved_workflow_and_picks_its_tool() {
    let person = class("person");
    let tasks = vec![
        workflow_task_for_class(&person, AnnotationType::BoundingBox),
        workflow_task_for_class(&person, AnnotationType::Skeleton),
    ];
    let mut work = WorkState { classes: Vec::new(), tasks: Vec::new(), selected_task_id: None, tool: Tool::BoundingBox };
    let preference = WorkflowPreference { dataset_id: "d1".to_string(), task_id: Some("skeleton:person".to_string()) };
    work.sync_work_config(vec![class("person")], tasks, Some(&preference), "d1");
    assert_eq!(work.selected_task_id.as_deref(), Some("skeleton:person"));
    assert_eq!(work.tool, Tool::Keypoints);
    assert_eq!(work.class_name("person"), "person name");
    assert_eq!(work.class_name("ghost"), "ghost");

    let other = WorkflowPreference { dataset_id: "d2".to_string(), task_id: Some("skeleton:person".to_string()) };
    let mut fresh = WorkState { classes: Vec::new(), tasks: Vec::new(), selected_task_id: None, tool: Tool::Keypoints };
    let tasks = vec![
        workflow_task_for_class(&person, AnnotationType::BoundingBox),
        workflow_task_for_class(&person, AnnotationType::Skeleton),
    ];
    fresh.sync_work_config(vec![class("person")], tasks, Some(&other), "d1");
    assert_eq!(fresh.selected_task_id.as_deref(), Some("bounding_box:person"));
    assert_eq!(fresh.tool, Tool::BoundingBox);
}

#[test]
fn availability_and_roles_come_from_matching_answers() {
    let state = AvailabilityState {
        dataset_id: Some("d1".to_string()),
        kind: Some(AssignmentKind::Annotation),
        tasks: vec![("t1".to_string(), true), ("t2".to_string(), false)],
        resolved: true,
        error: None,
    };
    assert_eq!(workflow_availability(&state, AppView::Annotate, "d1", "t1"), Some(true));
    assert_eq!(workflow_availability(&state, AppView::Annotate, "d1", "t2"), Some(false));
    assert_eq!(workflow_availability(&state, AppView::Annotate, "d1", "t3"), None);
    assert_eq!(workflow_availability(&state, AppView::Review, "d1", "t1"), None);
    assert_eq!(workflow_availability(&state, AppView::Annotate, "d2", "t1"), None);
    assert_eq!(workflow_availability(&state, AppView::Stats, "d1", "t1"), None);

    let summaries = vec![
        DatasetSummary { dataset_id: "d1".to_string(), roles: vec![DatasetRole::Reviewer] },
        DatasetSummary { dataset_id: "d2".to_string(), roles: vec![DatasetRole::DataAdmin] },
    ];
    assert!(has_dataset_role(&summaries, "d1", DatasetRole::Reviewer));
    assert!(!has_dataset_role(&summaries, "d1", DatasetRole::DataAdmin));
    assert!(has_dataset_role(&summaries, "d2", DatasetRole::DataAdmin));
    assert!(!has_dataset_role(&summaries, "d3", DatasetRole::Reviewer));
}

fn summary(id: &str, deleted: bool) -> AnnotationSummary {
    AnnotationSummary {
        annotation_id: id.to_string(),
        task_id: "bounding_box:person".to_string(),
        class_id: "person".to_string(),
        deleted,
        keypoints: None,
    }
}

#[test]
fn reviewers_correct_only_the_selected_object_under_review() {
    let person = class("person");
    let mut task = workflow_task_for_class(&person, AnnotationType::BoundingBox);
    task.review.workflow = ReviewWorkflow::Approval;
    task.review.allow_reviewer_corrections = true;
    let work = WorkState {
        classes: vec![person],
        tasks: vec![task],
        selected_task_id: Some("bounding_box:person".to_string()),
        tool: Tool::BoundingBox,
    };
    let annotations = vec![summary("a", true), summary("b", false), summary("c", false)];
    assert_eq!(work.current_review_annotation(AppView::Review, &annotations, 1).as_deref(), Some("c"));
    assert_eq!(work.current_review_annotation(AppView::Annotate, &annotations, 0), None);
    assert_eq!(work.current_review_annotation(AppView::Review, &annotations, 2), None);
    let kind = Some(AssignmentKind::Review);
    assert!(work.can_correct_review_object(AppView::Review, kind, &annotations, 0, Some("b")));
    assert!(!work.can_correct_review_object(AppView::Review, kind, &annotations, 0, Some("c")));
    assert!(!work.can_correct_review_object(AppView::Review, Some(AssignmentKind::Annotation), &annotations, 0, Some("b")));
}

#[test]
fn canvas_pan_mode_and_review_focus_follow_their_rules() {
    let mut modes = CanvasModes::new();
    modes.dragging = true;
    modes.toggle_pan_mode(false);
    assert!(!modes.in_pan_mode());
    assert!(!modes.is_dragging());
    modes.toggle_pan_mode(true);
    assert!(modes.in_pan_mode());
    modes.toggle_pan_mode(true);
    assert!(!modes.in_pan_mode());

    modes.require_pan_mode(true);
    assert!(modes.in_pan_mode());
    modes.exit_pan_mode();
    assert!(modes.in_pan_mode());
    modes.toggle_pan_mode(true);
    assert!(modes.pan_mode_required && !modes.pan_mode);
    modes.require_pan_mode(false);
    assert!(!modes.in_pan_mode());

    modes.pan_mode = true;
    modes.fit_view();
    assert!(!modes.pan_mode && !modes.dragging);

    assert!(modes.set_review_focus(Some(("a1", 2))));
    assert!(modes.review_view_pending);
    modes.review_view_pending = false;
    assert!(!modes.set_review_focus(Some(("a1", 2))));
    assert!(!modes.review_view_pending);
    assert!(modes.set_review_focus(Some(("a1", 3))));
    assert!(modes.set_review_focus(None));
    assert!(matches!(modes.review_target, ReviewViewTarget::FullImage));
    modes.clear_review_focus();
    assert!(matches!(modes.review_target, ReviewViewTarget::Disabled));
    assert!(!modes.review_view_pending);
}

#[test]
fn autosave_saves_only_unsaved_annotation_work() {
    assert_eq!(autosave_step(AppView::Annotate, SaveStatus::Dirty, true, false), AutosaveStep::RequestSave);
    assert_eq!(autosave_step(AppView::Annotate, SaveStatus::Retry, false, true), AutosaveStep::MarkStatus(SaveStatus::Saving));
    assert_eq!(autosave_step(AppView::Annotate, SaveStatus::Dirty, false, false), AutosaveStep::MarkStatus(SaveStatus::Saved));
    assert_eq!(autosave_step(AppView::Annotate, SaveStatus::Saved, true, false), AutosaveStep::Nothing);
    assert_eq!(autosave_step(AppView::Review, SaveStatus::Dirty, true, false), AutosaveStep::Nothing);
}
