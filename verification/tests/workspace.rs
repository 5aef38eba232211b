use labello_ui::actions::Direction;
use labello_ui::import_model::KeypointState;
use labello_ui::import_progress::{ImportLifecycle, ImportProgressPhase};
use labello_ui::model::{AnnotationType, DatasetRole, KeypointSpec, LabelClass};
use labello_ui::work_session::{
    active_prelabel, autosave_due, import_poll_due, next_selection, record_discarded, retry_step,
    skip_step, submit_step, AnnotationSummary, KeypointMark, RetryStep, SaveStatus, SkipStep,
    SubmitStep, AUTOSAVE_DELAY_MS,
};
use labello_ui::schema::workflow_task_for_class;
use labello_ui::workspace::{
    can_open_view, push_history, AppView, CanvasInteraction, EditSnapshot, Tool, WorkState,
    MAX_HISTORY_BYTES, MAX_HISTORY_OPERATIONS,
};

fn class(id: &str) -> LabelClass {
    LabelClass {
        class_id: id.to_string(),
        name: id.to_string(),
        color: "#5eead4".to_string(),
        description: None,
    }
}

#[test]
fn undo_history_respects_operation_and_approximate_memory_budgets() {
    let mut stack: Vec<EditSnapshot<usize>> = Vec::new();
    for index in 0..(MAX_HISTORY_OPERATIONS + 20) {
        push_history(
            &mut stack,
            EditSnapshot {
                state: index,
                approx_bytes: 100,
            },
        );
    }
    assert!(stack.len() <= MAX_HISTORY_OPERATIONS);

    stack.clear();
    for index in 0..20 {
        push_history(
            &mut stack,
            EditSnapshot {
                state: index,
                approx_bytes: 2 * 1024 * 1024,
            },
        );
    }
    assert!(stack.iter().map(|snapshot| snapshot.approx_bytes).sum::<usize>() <= MAX_HISTORY_BYTES);
    assert!(stack.len() < 20);
}

#[test]
fn history_keeps_the_most_recent_steps() {
    let mut stack: Vec<EditSnapshot<usize>> = Vec::new();
    for index in 0..300 {
        push_history(&mut stack, EditSnapshot { state: index, approx_bytes: 1 });
    }
    assert_eq!(stack.len(), 256);
    assert_eq!(stack[0].state, 44);
    assert_eq!(stack[255].state, 299);
    push_history(&mut stack, EditSnapshot { state: 300, approx_bytes: MAX_HISTORY_BYTES });
    assert_eq!(stack.len(), 1);
    assert_eq!(stack[0].state, 300);
    push_history(&mut stack, EditSnapshot { state: 301, approx_bytes: MAX_HISTORY_BYTES + 1 });
    assert!(stack.is_empty());
}

#[test]
fn workflow_choices_follow_class_order_then_task_order() {
    let person = class("person");
    let vehicle = class("vehicle");
    let mut disabled = workflow_task_for_class(&person, AnnotationType::Skeleton);
    disabled.enabled = false;
    let tasks = vec![
        workflow_task_for_class(&vehicle, AnnotationType::BoundingBox),
        workflow_task_for_class(&class("unknown"), AnnotationType::BoundingBox),
        workflow_task_for_class(&person, AnnotationType::BoundingBox),
        disabled,
        workflow_task_for_class(&vehicle, AnnotationType::Skeleton),
    ];
    let mut work = WorkState {
        classes: vec![person, vehicle],
        tasks,
        selected_task_id: None,
        tool: Tool::BoundingBox,
    };
    let ids: Vec<String> = work.workflow_choices().into_iter().map(|c| c.task_id).collect();
    assert_eq!(
        ids,
        vec![
            "bounding_box:person".to_string(),
            "bounding_box:vehicle".to_string(),
            "skeleton:vehicle".to_string(),
            "bounding_box:unknown".to_string(),
        ]
    );

    assert!(work.ensure_valid_task_selection());
    assert_eq!(work.selected_task_id.as_deref(), Some("bounding_box:vehicle"));
    assert!(!work.select_workflow("skeleton:person"));
    assert!(work.select_workflow("skeleton:vehicle"));
    assert_eq!(work.tool, Tool::Keypoints);
    assert!(!work.select_workflow("skeleton:vehicle"));
    assert_eq!(work.selected_class_id().map(String::as_str), Some("vehicle"));
}

#[test]
fn views_need_their_dataset_role() {
    let roles = vec![DatasetRole::Reviewer];
    assert!(!can_open_view(AppView::Annotate, &roles));
    assert!(can_open_view(AppView::Review, &roles));
    assert!(!can_open_view(AppView::Adjudicate, &vec![DatasetRole::Adjudicator]));
    assert!(!can_open_view(AppView::Admin, &roles));
    assert!(can_open_view(AppView::Setup, &Vec::new()));
}

#[test]
fn canvas_modes_set_the_expected_permissions() {
    let annotate = CanvasInteraction::annotations(true);
    assert!(annotate.allow_create && annotate.allow_selection && !annotate.edit_keypoints);
    let view_only = CanvasInteraction::annotations(false);
    assert!(!view_only.editable && !view_only.allow_create);
    let correction = CanvasInteraction::correction(Some(2));
    assert!(correction.editable && correction.edit_keypoints && !correction.allow_create);
    assert_eq!(correction.selected_keypoint, Some(2));
}

fn annotation(id: &str, task: &str, class: &str, deleted: bool) -> AnnotationSummary {
    AnnotationSummary {
        annotation_id: id.to_string(),
        task_id: task.to_string(),
        class_id: class.to_string(),
        deleted,
        keypoints: None,
    }
}

fn skeleton_state() -> WorkState {
    let mut task = workflow_task_for_class(&class("person"), AnnotationType::Skeleton);
    if let Some(skeleton) = task.skeleton.as_mut() {
        skeleton.keypoints = vec![
            KeypointSpec { name: "nose".to_string(), required: true },
            KeypointSpec { name: "tail".to_string(), required: false },
        ];
    }
    WorkState {
        classes: vec![class("person")],
        tasks: vec![task],
        selected_task_id: Some("skeleton:person".to_string()),
        tool: Tool::Keypoints,
    }
}

#[test]
fn object_cycling_visits_the_selected_workflows_live_objects() {
    let state = skeleton_state();
    let annotations = vec![
        annotation("a", "skeleton:person", "person", false),
        annotation("b", "skeleton:person", "person", true),
        annotation("c", "bounding_box:person", "person", false),
        annotation("d", "skeleton:person", "person", false),
    ];
    assert_eq!(state.cyclable_object_ids(&annotations), vec!["a".to_string(), "d".to_string()]);
    assert_eq!(state.cycle_object(&annotations, None, Direction::Forward), Some("a".to_string()));
    assert_eq!(state.cycle_object(&annotations, None, Direction::Backward), Some("d".to_string()));
    assert_eq!(state.cycle_object(&annotations, Some("d"), Direction::Forward), Some("a".to_string()));
    assert_eq!(state.cycle_object(&annotations, Some("b"), Direction::Forward), Some("a".to_string()));
    assert_eq!(state.cycle_object(&Vec::new(), Some("a"), Direction::Forward), None);
    assert_eq!(next_selection(&vec!["x".to_string(), "y".to_string()], Some("x"), Direction::Backward), Some("y".to_string()));
}

#[test]
fn submission_waits_for_skeletons_and_required_keypoints() {
    let state = skeleton_state();
    let mut marked = annotation("a", "skeleton:person", "person", false);
    marked.keypoints = Some(vec![
        KeypointMark { name: "tail".to_string(), state: KeypointState::Absent },
        KeypointMark { name: "nose".to_string(), state: KeypointState::Visible },
    ]);
    let mut missing = annotation("b", "skeleton:person", "person", false);
    missing.keypoints = Some(vec![KeypointMark { name: "nose".to_string(), state: KeypointState::Absent }]);
    let mut deleted = annotation("c", "skeleton:person", "person", true);
    deleted.keypoints = missing.keypoints.as_ref().map(|marks| {
        marks.iter().map(|m| KeypointMark { name: m.name.clone(), state: m.state }).collect()
    });

    assert_eq!(state.submission_issue(false, &vec![marked]), None);
    assert_eq!(
        state.submission_issue(true, &Vec::new()),
        Some("Finish the active skeleton or mark its remaining optional keypoints absent before submitting.".to_string())
    );
    assert_eq!(state.submission_issue(false, &vec![deleted]), None);
    assert_eq!(
        state.submission_issue(false, &vec![missing]),
        Some("Required keypoint 'nose' is absent. Place it before submitting.".to_string())
    );
}

#[test]
fn suggestions_saving_and_skipping_follow_the_session_state() {
    let visible = vec!["s1".to_string(), "s2".to_string()];
    assert_eq!(active_prelabel(&visible, Some("s2")), Some(1));
    assert_eq!(active_prelabel(&visible, Some("gone")), Some(0));
    assert_eq!(active_prelabel(&Vec::new(), None), None);
    let mut handled = vec!["s1".to_string()];
    record_discarded(&mut handled, "s1".to_string());
    record_discarded(&mut handled, "s2".to_string());
    assert_eq!(handled, vec!["s1".to_string(), "s2".to_string()]);

    assert!(autosave_due(SaveStatus::Dirty, false, false, false, Some(AUTOSAVE_DELAY_MS)));
    assert!(!autosave_due(SaveStatus::Dirty, false, false, false, Some(749)));
    assert!(!autosave_due(SaveStatus::Saved, false, false, false, Some(10_000)));
    assert!(!autosave_due(SaveStatus::Dirty, false, false, true, Some(10_000)));

    assert!(matches!(submit_step(AppView::Annotate, false, true, true, None), SubmitStep::SaveThenAdvance));
    assert!(matches!(submit_step(AppView::Annotate, false, false, false, None), SubmitStep::AdvanceNow));
    assert!(matches!(submit_step(AppView::Review, false, true, true, None), SubmitStep::Ignore));
    assert!(matches!(
        submit_step(AppView::Annotate, false, true, true, Some("no".to_string())),
        SubmitStep::Refuse(reason) if reason == "no"
    ));
    assert_eq!(skip_step(AppView::Annotate, false, true, true, SaveStatus::Dirty, false), SkipStep::AfterSave);
    assert_eq!(skip_step(AppView::Review, false, true, true, SaveStatus::Dirty, false), SkipStep::ReleaseThenAdvance);
    assert_eq!(skip_step(AppView::Annotate, true, true, true, SaveStatus::Idle, false), SkipStep::Ignore);
    assert_eq!(skip_step(AppView::Annotate, false, false, false, SaveStatus::Idle, false), SkipStep::AdvanceNow);
}

#[test]
fn imports_are_polled_only_while_the_server_works_and_retried_by_phase() {
    assert!(import_poll_due(true, false, Some(ImportLifecycle::Building), None));
    assert!(!import_poll_due(true, false, Some(ImportLifecycle::Building), Some(false)));
    assert!(!import_poll_due(true, true, Some(ImportLifecycle::Preflighting), Some(true)));
    assert!(!import_poll_due(true, false, Some(ImportLifecycle::AwaitingDecision), None));
    assert!(!import_poll_due(false, false, Some(ImportLifecycle::Committing), None));
    assert_eq!(retry_step(Some(ImportProgressPhase::Commit), true), RetryStep::Commit);
    assert_eq!(retry_step(Some(ImportProgressPhase::Commit), false), RetryStep::Preflight);
    assert_eq!(retry_step(Some(ImportProgressPhase::Upload), true), RetryStep::Preflight);
    assert_eq!(retry_step(None, true), RetryStep::Preflight);
}
