use labello_ui::actions::{
    cycle_position, next_workflow_choice, trigger_user_action, ActionContext, ActionEffect,
    Direction, Drawer, PanelState, ReviewDecision, UserAction,
};
use labello_ui::workspace::AppView;

fn ready_context(view: AppView) -> ActionContext {
    ActionContext {
        view,
        migration_active: false,
        migration_inspecting: false,
        skeleton_allows_hidden: true,
        skeleton_allows_absent: true,
        has_assignment: true,
        online: true,
        saving: false,
        image_loading: false,
        transition_pending: false,
        dragging: false,
        has_previous_assignment: true,
        has_current_image: true,
        has_correction_draft: false,
        has_active_skeleton: true,
        wide_layout: true,
    }
}

fn closed_panels() -> PanelState {
    PanelState {
        drawer: None,
        show_tutorial: false,
        workflow_panel_collapsed: false,
        inspector_panel_collapsed: false,
        next_keypoint_hidden: false,
        migration_next_hidden: false,
    }
}

#[test]
fn edits_run_only_when_the_annotation_view_is_ready() {
    let mut panels = closed_panels();
    let ready = ready_context(AppView::Annotate);
    assert_eq!(trigger_user_action(&ready, &mut panels, UserAction::NextImage), ActionEffect::SubmitAndAdvance);
    assert_eq!(trigger_user_action(&ready, &mut panels, UserAction::UndoEdit), ActionEffect::Undo);
    assert_eq!(
        trigger_user_action(&ready, &mut panels, UserAction::SelectPreviousWorkflow),
        ActionEffect::CycleWorkflow(Direction::Backward)
    );
    assert_eq!(
        trigger_user_action(&ready, &mut panels, UserAction::PreviousImage),
        ActionEffect::ReturnToPreviousAssignment
    );

    let saving = ActionContext { saving: true, ..ready };
    assert_eq!(trigger_user_action(&saving, &mut panels, UserAction::NextImage), ActionEffect::Nothing);
    assert_eq!(trigger_user_action(&saving, &mut panels, UserAction::ZoomIn), ActionEffect::ZoomIn);

    let offline = ActionContext { has_assignment: false, online: false, ..ready };
    assert_eq!(trigger_user_action(&offline, &mut panels, UserAction::SaveAnnotations), ActionEffect::Autosave);
    assert_eq!(trigger_user_action(&offline, &mut panels, UserAction::PreviousImage), ActionEffect::Nothing);
    assert_eq!(panels, closed_panels());
}

#[test]
fn a_manual_migration_takes_over_its_actions() {
    let mut panels = closed_panels();
    let migration = ActionContext { migration_active: true, ..ready_context(AppView::Annotate) };
    assert_eq!(trigger_user_action(&migration, &mut panels, UserAction::NextImage), ActionEffect::MigrationPrimary);
    assert_eq!(trigger_user_action(&migration, &mut panels, UserAction::RedoEdit), ActionEffect::Nothing);
    assert_eq!(
        trigger_user_action(&migration, &mut panels, UserAction::UndoEdit),
        ActionEffect::RemoveLastMigrationKeypoint
    );
    trigger_user_action(&migration, &mut panels, UserAction::ToggleKeypointHidden);
    assert!(panels.migration_next_hidden);
    assert!(!panels.next_keypoint_hidden);

    let inspecting = ActionContext { migration_inspecting: true, ..migration };
    trigger_user_action(&inspecting, &mut panels, UserAction::ToggleKeypointHidden);
    assert!(panels.migration_next_hidden);
    assert_eq!(trigger_user_action(&inspecting, &mut panels, UserAction::UndoEdit), ActionEffect::Nothing);

    let review = ActionContext { view: AppView::Review, ..migration };
    assert_eq!(
        trigger_user_action(&review, &mut panels, UserAction::AcceptReviewObject),
        ActionEffect::MigrationReview(ReviewDecision::Approved)
    );
    assert_eq!(
        trigger_user_action(&migration, &mut panels, UserAction::AcceptReviewObject),
        ActionEffect::Nothing
    );
    assert_eq!(trigger_user_action(&migration, &mut panels, UserAction::RefocusObject), ActionEffect::RefocusObject);
}

#[test]
fn review_verdicts_wait_for_a_correction_draft() {
    let mut panels = closed_panels();
    let review = ready_context(AppView::Review);
    assert_eq!(
        trigger_user_action(&review, &mut panels, UserAction::RejectReviewObject),
        ActionEffect::RequestReview(ReviewDecision::Rejected)
    );
    let drafting = ActionContext { has_correction_draft: true, ..review };
    assert_eq!(trigger_user_action(&drafting, &mut panels, UserAction::RejectReviewObject), ActionEffect::Nothing);
}

#[test]
fn panels_collapse_on_wide_layouts_and_open_as_drawers_otherwise() {
    let wide = ready_context(AppView::Annotate);
    let mut panels = PanelState { show_tutorial: true, drawer: Some(Drawer::Inspector), ..closed_panels() };
    trigger_user_action(&wide, &mut panels, UserAction::ToggleWorkflowPanel);
    assert_eq!(panels.drawer, None);
    assert!(panels.workflow_panel_collapsed);
    assert!(!panels.show_tutorial);

    let narrow = ActionContext { wide_layout: false, ..wide };
    let mut panels = closed_panels();
    trigger_user_action(&narrow, &mut panels, UserAction::ToggleInspectorPanel);
    assert_eq!(panels.drawer, Some(Drawer::Inspector));
    trigger_user_action(&narrow, &mut panels, UserAction::ToggleInspectorPanel);
    assert_eq!(panels.drawer, None);
    assert!(!panels.inspector_panel_collapsed);

    let mut panels = PanelState { drawer: Some(Drawer::Workflow), ..closed_panels() };
    trigger_user_action(&narrow, &mut panels, UserAction::OpenTutorial);
    assert!(panels.show_tutorial);
    assert_eq!(panels.drawer, None);
    trigger_user_action(&narrow, &mut panels, UserAction::ToggleKeypointHidden);
    assert!(panels.next_keypoint_hidden);
}

#[test]
fn cyclic_selection_wraps_in_both_directions() {
    assert_eq!(cycle_position(None, 4, Direction::Backward), 3);
    assert_eq!(cycle_position(None, 4, Direction::Forward), 0);
    assert_eq!(cycle_position(Some(0), 4, Direction::Backward), 3);
    assert_eq!(cycle_position(Some(3), 4, Direction::Forward), 0);
    assert_eq!(cycle_position(Some(1), 4, Direction::Forward), 2);
}

#[test]
fn workflow_cycling_skips_unavailable_workflows() {
    let available = vec![Some(true), Some(false), None];
    assert_eq!(next_workflow_choice(0, &available, Direction::Forward), Some(2));
    assert_eq!(next_workflow_choice(2, &available, Direction::Forward), Some(0));
    assert_eq!(next_workflow_choice(0, &available, Direction::Backward), Some(2));
    assert_eq!(next_workflow_choice(0, &vec![Some(true), Some(false)], Direction::Forward), None);
    assert_eq!(next_workflow_choice(0, &vec![Some(true)], Direction::Forward), None);
}
