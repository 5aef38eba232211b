//! What a user action (a shortcut or a toolbar button) does in the work
//! views: the panel state it changes and the operation it starts, decided
//! from a snapshot of the workspace.
use vstd::prelude::*;
use crate::workspace::AppView;

verus! {

/// An action a user can bind to a key.
#[derive(Clone, Copy, Debug, PartialEq, Eq, Structural)]
pub enum UserAction {
    NextImage,
    PreviousImage,
    UndoEdit,
    RedoEdit,
    SaveAnnotations,
    SkipAssignment,
    DeleteAnnotation,
    OpenTutorial,
    ToggleWorkflowPanel,
    ToggleInspectorPanel,
    OpenSettings,
    SelectPreviousWorkflow,
    SelectNextWorkflow,
    SelectPreviousObject,
    SelectNextObject,
    SelectPreviousPrelabel,
    SelectNextPrelabel,
    AcceptPrelabel,
    DiscardPrelabel,
    ToggleKeypointHidden,
    MarkKeypointAbsent,
    RetryImageLoad,
    TogglePanMode,
    ZoomIn,
    ZoomOut,
    FitImage,
    RefocusObject,
    AcceptReviewObject,
    RejectReviewObject,
    SelectBoundingBoxTool,
    SelectKeypointTool,
    AddMissingObject,
    ToggleOfflineMode,
}

/// A review verdict on an object.
#[derive(Clone, Copy, Debug, PartialEq, Eq, Structural)]
pub enum ReviewDecision {
    Approved,
    Rejected,
}

/// A side panel shown as a drawer on narrow layouts.
#[derive(Clone, Copy, Debug, PartialEq, Eq, Structural)]
pub enum Drawer {
    Workflow,
    Inspector,
}

/// Which way a selection moves.
#[derive(Clone, Copy, Debug, PartialEq, Eq, Structural)]
pub enum Direction {
    Backward,
    Forward,
}

/// What the workspace looks like when an action arrives.
#[derive(Clone, Copy, Debug, PartialEq, Eq, Structural)]
pub struct ActionContext {
    pub view: AppView,
    pub migration_active: bool,
    pub migration_inspecting: bool,
    pub skeleton_allows_hidden: bool,
    pub skeleton_allows_absent: bool,
    pub has_assignment: bool,
    pub online: bool,
    pub saving: bool,
    pub image_loading: bool,
    pub transition_pending: bool,
    pub dragging: bool,
    pub has_previous_assignment: bool,
    pub has_current_image: bool,
    pub has_correction_draft: bool,
    pub has_active_skeleton: bool,
    pub wide_layout: bool,
}

/// The panel and keypoint-mode state actions toggle directly.
#[derive(Clone, Copy, Debug, PartialEq, Eq, Structural)]
pub struct PanelState {
    pub drawer: Option<Drawer>,
    pub show_tutorial: bool,
    pub workflow_panel_collapsed: bool,
    pub inspector_panel_collapsed: bool,
    pub next_keypoint_hidden: bool,
    pub migration_next_hidden: bool,
}

/// The operation an action starts, if any.
#[derive(Clone, Copy, Debug, PartialEq, Eq, Structural)]
pub enum ActionEffect {
    Nothing,
    MigrationPrimary,
    MigrationReview(ReviewDecision),
    SkipMigrationKeypoint,
    AddMissingMigrationObject,
    RemoveLastMigrationKeypoint,
    EditPreviousMigrationObject,
    InspectNextMigrationObject,
    SubmitAndAdvance,
    ReturnToPreviousAssignment,
    Undo,
    Redo,
    Autosave,
    SkipAssignment,
    DeleteSelected,
    OpenSettings,
    CycleWorkflow(Direction),
    CycleObject(Direction),
    CyclePrelabel(Direction),
    AcceptPrelabel,
    DiscardPrelabel,
    SkipKeypoint,
    RetryImageLoad,
    TogglePanMode,
    ZoomIn,
    ZoomOut,
    FitImage,
    RefocusObject,
    RequestReview(ReviewDecision),
}

/// The view hands out assignments.
pub open spec fn is_work_view(view: AppView) -> bool {
    view == AppView::Annotate || view == AppView::Review || view == AppView::Adjudicate
}

/// Nothing is in flight: an assignment is open (or the client is offline),
/// and no save, image load, transition or drag is under way.
pub open spec fn ready(c: ActionContext) -> bool {
    (c.has_assignment || !c.online) && !c.saving && !c.image_loading && !c.transition_pending && !c.dragging
}

/// The annotation view is ready for an edit.
pub open spec fn annotating(c: ActionContext) -> bool {
    c.view == AppView::Annotate && ready(c)
}

/// The previous assignment can be reopened.
pub open spec fn previous_ready(c: ActionContext) -> bool {
    &&& c.view == AppView::Annotate
    &&& c.has_previous_assignment
    &&& c.online
    &&& !c.saving
    &&& !c.image_loading
    &&& !c.transition_pending
    &&& !c.dragging
}

/// The image can be panned and zoomed.
pub open spec fn viewing(c: ActionContext) -> bool {
    is_work_view(c.view) && c.has_current_image
}

/// During a manual box-guide migration, the actions it takes over: the
/// operation it starts, or `None` when the action is not taken over.
pub open spec fn migration_effect(c: ActionContext, a: UserAction) -> Option<ActionEffect> {
    match a {
        UserAction::NextImage => Some(ActionEffect::MigrationPrimary),
        UserAction::AcceptReviewObject => if c.view == AppView::Review {
            Some(ActionEffect::MigrationReview(ReviewDecision::Approved))
        } else {
            None
        },
        UserAction::RejectReviewObject => if c.view == AppView::Review {
            Some(ActionEffect::MigrationReview(ReviewDecision::Rejected))
        } else {
            None
        },
        UserAction::ToggleKeypointHidden => Some(ActionEffect::Nothing),
        UserAction::MarkKeypointAbsent => Some(
            if c.migration_inspecting {
                ActionEffect::Nothing
            } else {
                ActionEffect::SkipMigrationKeypoint
            },
        ),
        UserAction::AddMissingObject => Some(ActionEffect::AddMissingMigrationObject),
        UserAction::UndoEdit | UserAction::DeleteAnnotation => Some(
            if c.migration_inspecting {
                ActionEffect::Nothing
            } else {
                ActionEffect::RemoveLastMigrationKeypoint
            },
        ),
        UserAction::SelectPreviousObject => Some(ActionEffect::EditPreviousMigrationObject),
        UserAction::SelectNextObject => Some(ActionEffect::InspectNextMigrationObject),
        UserAction::RedoEdit | UserAction::SaveAnnotations | UserAction::SelectPreviousPrelabel
        | UserAction::SelectNextPrelabel | UserAction::AcceptPrelabel | UserAction::DiscardPrelabel => Some(
            ActionEffect::Nothing,
        ),
        _ => None,
    }
}

/// The operation an action starts outside a migration.
pub open spec fn work_effect(c: ActionContext, a: UserAction) -> ActionEffect {
    match a {
        UserAction::NextImage if annotating(c) => ActionEffect::SubmitAndAdvance,
        UserAction::PreviousImage if previous_ready(c) => ActionEffect::ReturnToPreviousAssignment,
        UserAction::UndoEdit if annotating(c) => ActionEffect::Undo,
        UserAction::RedoEdit if annotating(c) => ActionEffect::Redo,
        UserAction::SaveAnnotations if annotating(c) => ActionEffect::Autosave,
        UserAction::SkipAssignment if is_work_view(c.view) && ready(c) => ActionEffect::SkipAssignment,
        UserAction::DeleteAnnotation if annotating(c) => ActionEffect::DeleteSelected,
        UserAction::OpenSettings => ActionEffect::OpenSettings,
        UserAction::SelectPreviousWorkflow if annotating(c) => ActionEffect::CycleWorkflow(Direction::Backward),
        UserAction::SelectNextWorkflow if annotating(c) => ActionEffect::CycleWorkflow(Direction::Forward),
        UserAction::SelectPreviousObject if annotating(c) => ActionEffect::CycleObject(Direction::Backward),
        UserAction::SelectNextObject if annotating(c) => ActionEffect::CycleObject(Direction::Forward),
        UserAction::SelectPreviousPrelabel if annotating(c) => ActionEffect::CyclePrelabel(Direction::Backward),
        UserAction::SelectNextPrelabel if annotating(c) => ActionEffect::CyclePrelabel(Direction::Forward),
        UserAction::AcceptPrelabel if annotating(c) => ActionEffect::AcceptPrelabel,
        UserAction::DiscardPrelabel if annotating(c) => ActionEffect::DiscardPrelabel,
        UserAction::MarkKeypointAbsent if annotating(c) && c.has_active_skeleton && c.skeleton_allows_absent => {
            ActionEffect::SkipKeypoint
        },
        UserAction::RetryImageLoad if c.view == AppView::Annotate && !c.has_current_image && !c.image_loading => {
            ActionEffect::RetryImageLoad
        },
        UserAction::TogglePanMode if viewing(c) => ActionEffect::TogglePanMode,
        UserAction::ZoomIn if viewing(c) => ActionEffect::ZoomIn,
        UserAction::ZoomOut if viewing(c) => ActionEffect::ZoomOut,
        UserAction::FitImage if viewing(c) => ActionEffect::FitImage,
        UserAction::RefocusObject if c.has_current_image && (c.view == AppView::Review || c.migration_active) => {
            ActionEffect::RefocusObject
        },
        UserAction::AcceptReviewObject if c.view == AppView::Review && !c.has_correction_draft => {
            ActionEffect::RequestReview(ReviewDecision::Approved)
        },
        UserAction::RejectReviewObject if c.view == AppView::Review && !c.has_correction_draft => {
            ActionEffect::RequestReview(ReviewDecision::Rejected)
        },
        _ => ActionEffect::Nothing,
    }
}

/// The panel state after toggling `drawer`'s panel: on a wide layout the
/// panel collapses or expands in place and no drawer is open; otherwise
/// the drawer opens, or closes when it was open.
pub open spec fn toggled_panel(c: ActionContext, p: PanelState, drawer: Drawer) -> PanelState {
    if c.wide_layout {
        PanelState {
            drawer: None,
            show_tutorial: false,
            workflow_panel_collapsed: if drawer == Drawer::Workflow {
                !p.workflow_panel_collapsed
            } else {
                p.workflow_panel_collapsed
            },
            inspector_panel_collapsed: if drawer == Drawer::Inspector {
                !p.inspector_panel_collapsed
            } else {
                p.inspector_panel_collapsed
            },
            ..p
        }
    } else {
        PanelState {
            drawer: if p.drawer == Some(drawer) {
                None
            } else {
                Some(drawer)
            },
            show_tutorial: false,
            ..p
        }
    }
}

/// The panel state after an action.
pub open spec fn panels_after(c: ActionContext, p: PanelState, a: UserAction) -> PanelState {
    if c.migration_active && migration_effect(c, a) is Some {
        if a == UserAction::ToggleKeypointHidden && !c.migration_inspecting && c.skeleton_allows_hidden {
            PanelState { migration_next_hidden: !p.migration_next_hidden, ..p }
        } else {
            p
        }
    } else {
        work_panels(c, p, a)
    }
}

/// The panel state after an action outside a migration.
pub open spec fn work_panels(c: ActionContext, p: PanelState, a: UserAction) -> PanelState {
    match a {
        UserAction::OpenTutorial => PanelState { drawer: None, show_tutorial: !p.show_tutorial, ..p },
        UserAction::ToggleWorkflowPanel => toggled_panel(c, p, Drawer::Workflow),
        UserAction::ToggleInspectorPanel => toggled_panel(c, p, Drawer::Inspector),
        UserAction::ToggleKeypointHidden => if annotating(c) && c.skeleton_allows_hidden {
            PanelState { next_keypoint_hidden: !p.next_keypoint_hidden, ..p }
        } else {
            p
        },
        _ => p,
    }
}

/// The operation an action starts.
pub open spec fn action_effect(c: ActionContext, a: UserAction) -> ActionEffect {
    if c.migration_active && migration_effect(c, a) is Some {
        migration_effect(c, a)->0
    } else {
        work_effect(c, a)
    }
}

/// Undo and redo are distinct edits: outside a migration, in the
/// annotation view with an assignment open (or offline) and nothing saving,
/// loading, moving on or dragging, the undo action undoes and the redo
/// action redoes; in any state, no action but undo ever undoes and no
/// action but redo ever redoes.
pub proof fn undo_and_redo_are_their_own_actions(c: ActionContext, a: UserAction)
    ensures
        !c.migration_active && c.view == AppView::Annotate && (c.has_assignment || !c.online) && !c.saving
            && !c.image_loading && !c.transition_pending && !c.dragging ==> {
            &&& action_effect(c, UserAction::UndoEdit) == ActionEffect::Undo
            &&& action_effect(c, UserAction::RedoEdit) == ActionEffect::Redo
        },
        action_effect(c, a) == ActionEffect::Undo ==> a == UserAction::UndoEdit,
        action_effect(c, a) == ActionEffect::Redo ==> a == UserAction::RedoEdit,
{
}

fn toggle_panel(c: &ActionContext, p: PanelState, drawer: Drawer) -> (r: PanelState)
    ensures
        r == toggled_panel(*c, p, drawer),
{
    if c.wide_layout {
        match drawer {
            Drawer::Workflow => PanelState {
                drawer: None,
                show_tutorial: false,
                workflow_panel_collapsed: !p.workflow_panel_collapsed,
                ..p
            },
            Drawer::Inspector => PanelState {
                drawer: None,
                show_tutorial: false,
                inspector_panel_collapsed: !p.inspector_panel_collapsed,
                ..p
            },
        }
    } else {
        let open = match p.drawer {
            Some(d) => d == drawer,
            None => false,
        };
        PanelState {
            drawer: if open {
                None
            } else {
                Some(drawer)
            },
            show_tutorial: false,
            ..p
        }
    }
}

fn migration_action(c: &ActionContext, p: PanelState, action: UserAction) -> (r: Option<(ActionEffect, PanelState)>)
    requires
        c.migration_active,
    ensures
        match r {
            Some((e, q)) => migration_effect(*c, action) == Some(e) && q == panels_after(*c, p, action),
            None => migration_effect(*c, action) is None,
        },
{
    let effect = match action {
        UserAction::NextImage => ActionEffect::MigrationPrimary,
        UserAction::AcceptReviewObject if c.view == AppView::Review => ActionEffect::MigrationReview(ReviewDecision::Approved),
        UserAction::RejectReviewObject if c.view == AppView::Review => ActionEffect::MigrationReview(ReviewDecision::Rejected),
        UserAction::ToggleKeypointHidden => {
            if !c.migration_inspecting && c.skeleton_allows_hidden {
                return Some((ActionEffect::Nothing, PanelState { migration_next_hidden: !p.migration_next_hidden, ..p }));
            }
            ActionEffect::Nothing
        },
        UserAction::MarkKeypointAbsent => if c.migration_inspecting {
            ActionEffect::Nothing
        } else {
            ActionEffect::SkipMigrationKeypoint
        },
        UserAction::AddMissingObject => ActionEffect::AddMissingMigrationObject,
        UserAction::UndoEdit | UserAction::DeleteAnnotation => if c.migration_inspecting {
            ActionEffect::Nothing
        } else {
            ActionEffect::RemoveLastMigrationKeypoint
        },
        UserAction::SelectPreviousObject => ActionEffect::EditPreviousMigrationObject,
        UserAction::SelectNextObject => ActionEffect::InspectNextMigrationObject,
        UserAction::RedoEdit | UserAction::SaveAnnotations | UserAction::SelectPreviousPrelabel
        | UserAction::SelectNextPrelabel | UserAction::AcceptPrelabel | UserAction::DiscardPrelabel => ActionEffect::Nothing,
        _ => return None,
    };
    Some((effect, p))
}

fn is_ready(c: &ActionContext) -> (r: bool)
    ensures
        r == ready(*c),
{
    (c.has_assignment || !c.online) && !c.saving && !c.image_loading && !c.transition_pending && !c.dragging
}

fn work_view(view: AppView) -> (r: bool)
    ensures
        r == is_work_view(view),
{
    match view {
        AppView::Annotate | AppView::Review | AppView::Adjudicate => true,
        _ => false,
    }
}

/// Applies a user action: toggles the panel state it owns and returns
/// the operation it starts.  During a manual box-guide migration the
/// migration takes over the actions it defines; elsewhere edits need the
/// annotation view to be ready, view changes need an image, and review
/// verdicts wait while a correction is being drafted.
pub fn trigger_user_action(c: &ActionContext, panels: &mut PanelState, action: UserAction) -> (effect: ActionEffect)
    ensures
        effect == action_effect(*c, action),
        *final(panels) == panels_after(*c, *old(panels), action),
{
    let (effect, next) = if c.migration_active {
        match migration_action(c, *panels, action) {
            Some(r) => r,
            None => work_action(c, *panels, action),
        }
    } else {
        work_action(c, *panels, action)
    };
    *panels = next;
    effect
}

fn work_action(c: &ActionContext, p: PanelState, action: UserAction) -> (r: (ActionEffect, PanelState))
    ensures
        r.0 == work_effect(*c, action),
        r.1 == work_panels(*c, p, action),
{
    let ready = is_ready(c);
    let annotate = c.view == AppView::Annotate && ready;
    let previous_ready = c.view == AppView::Annotate && c.has_previous_assignment && c.online && !c.saving
        && !c.image_loading && !c.transition_pending && !c.dragging;
    let viewing = work_view(c.view) && c.has_current_image;
    let effect = match action {
        UserAction::NextImage if annotate => ActionEffect::SubmitAndAdvance,
        UserAction::PreviousImage if previous_ready => ActionEffect::ReturnToPreviousAssignment,
        UserAction::UndoEdit if annotate => ActionEffect::Undo,
        UserAction::RedoEdit if annotate => ActionEffect::Redo,
        UserAction::SaveAnnotations if annotate => ActionEffect::Autosave,
        UserAction::SkipAssignment if work_view(c.view) && ready => ActionEffect::SkipAssignment,
        UserAction::DeleteAnnotation if annotate => ActionEffect::DeleteSelected,
        UserAction::OpenTutorial => {
            return (ActionEffect::Nothing, PanelState { drawer: None, show_tutorial: !p.show_tutorial, ..p });
        },
        UserAction::ToggleWorkflowPanel => {
            return (ActionEffect::Nothing, toggle_panel(c, p, Drawer::Workflow));
        },
        UserAction::ToggleInspectorPanel => {
            return (ActionEffect::Nothing, toggle_panel(c, p, Drawer::Inspector));
        },
        UserAction::OpenSettings => ActionEffect::OpenSettings,
        UserAction::SelectPreviousWorkflow if annotate => ActionEffect::CycleWorkflow(Direction::Backward),
        UserAction::SelectNextWorkflow if annotate => ActionEffect::CycleWorkflow(Direction::Forward),
        UserAction::SelectPreviousObject if annotate => ActionEffect::CycleObject(Direction::Backward),
        UserAction::SelectNextObject if annotate => ActionEffect::CycleObject(Direction::Forward),
        UserAction::SelectPreviousPrelabel if annotate => ActionEffect::CyclePrelabel(Direction::Backward),
        UserAction::SelectNextPrelabel if annotate => ActionEffect::CyclePrelabel(Direction::Forward),
        UserAction::AcceptPrelabel if annotate => ActionEffect::AcceptPrelabel,
        UserAction::DiscardPrelabel if annotate => ActionEffect::DiscardPrelabel,
        UserAction::ToggleKeypointHidden if annotate => {
            if c.skeleton_allows_hidden {
                return (ActionEffect::Nothing, PanelState { next_keypoint_hidden: !p.next_keypoint_hidden, ..p });
            }
            ActionEffect::Nothing
        },
        UserAction::MarkKeypointAbsent if annotate => if c.has_active_skeleton && c.skeleton_allows_absent {
            ActionEffect::SkipKeypoint
        } else {
            ActionEffect::Nothing
        },
        UserAction::RetryImageLoad if c.view == AppView::Annotate && !c.has_current_image && !c.image_loading => {
            ActionEffect::RetryImageLoad
        },
        UserAction::TogglePanMode if viewing => ActionEffect::TogglePanMode,
        UserAction::ZoomIn if viewing => ActionEffect::ZoomIn,
        UserAction::ZoomOut if viewing => ActionEffect::ZoomOut,
        UserAction::FitImage if viewing => ActionEffect::FitImage,
        UserAction::RefocusObject if c.has_current_image && (c.view == AppView::Review || c.migration_active) => {
            ActionEffect::RefocusObject
        },
        UserAction::AcceptReviewObject if c.view == AppView::Review => if c.has_correction_draft {
            ActionEffect::Nothing
        } else {
            ActionEffect::RequestReview(ReviewDecision::Approved)
        },
        UserAction::RejectReviewObject if c.view == AppView::Review => if c.has_correction_draft {
            ActionEffect::Nothing
        } else {
            ActionEffect::RequestReview(ReviewDecision::Rejected)
        },
        _ => ActionEffect::Nothing,
    };
    (effect, p)
}

/// The position a cyclic selection moves to: one step from the current
/// position, wrapping around; from no selection, the last entry when
/// moving backward and the first when moving forward.
pub open spec fn cycled_position(current: Option<usize>, len: usize, d: Direction) -> int {
    match current {
        None => match d {
            Direction::Backward => len - 1,
            Direction::Forward => 0,
        },
        Some(i) => match d {
            Direction::Backward => (i - 1) % (len as int),
            Direction::Forward => (i + 1) % (len as int),
        },
    }
}

/// Moves a cyclic selection of `len` entries one step.
pub fn cycle_position(current: Option<usize>, len: usize, d: Direction) -> (r: usize)
    requires
        len > 0,
        current matches Some(i) ==> i < len,
    ensures
        r as int == cycled_position(current, len, d),
        r < len,
{
    match current {
        None => match d {
            Direction::Backward => len - 1,
            Direction::Forward => 0,
        },
        Some(i) => match d {
            Direction::Backward => if i == 0 {
                proof {
                    vstd::arithmetic::div_mod::lemma_fundamental_div_mod_converse(i - 1, len as int, -1, len - 1);
                }
                len - 1
            } else {
                proof {
                    vstd::arithmetic::div_mod::lemma_fundamental_div_mod_converse(i - 1, len as int, 0, i - 1);
                }
                i - 1
            },
            Direction::Forward => if i + 1 == len {
                proof {
                    vstd::arithmetic::div_mod::lemma_fundamental_div_mod_converse(i + 1, len as int, 1, 0);
                }
                0
            } else {
                proof {
                    vstd::arithmetic::div_mod::lemma_fundamental_div_mod_converse(i + 1, len as int, 0, i + 1);
                }
                i + 1
            },
        },
    }
}

/// The workflow a cycle lands on: stepping from `current` in direction
/// `d`, the first other workflow whose availability is not known to be
/// false, if any.
pub open spec fn workflow_step(current: int, len: int, d: Direction, offset: int) -> int {
    match d {
        Direction::Backward => (current - offset) % len,
        Direction::Forward => (current + offset) % len,
    }
}

/// Steps from the current workflow to the next one that may be available,
/// skipping those known to be unavailable; nothing when there are fewer
/// than two workflows or none other may be available.
pub fn next_workflow_choice(current: usize, available: &Vec<Option<bool>>, d: Direction) -> (r: Option<usize>)
    requires
        current < available@.len() || available@.len() < 2,
    ensures
        match r {
            Some(k) => {
                &&& available@.len() >= 2
                &&& exists|o: int|
                    1 <= o < available@.len() && k == workflow_step(current as int, available@.len() as int, d, o)
                        && forall|p: int|
                        1 <= p < o ==> #[trigger] available@[workflow_step(current as int, available@.len() as int, d, p)]
                            == Some(false)
                &&& available@[k as int] != Some(false)
            },
            None => available@.len() < 2 || forall|o: int|
                1 <= o < available@.len() ==> #[trigger] available@[workflow_step(
                    current as int,
                    available@.len() as int,
                    d,
                    o,
                )] == Some(false),
        },
{
    let len = available.len();
    if len < 2 {
        return None;
    }
    let mut offset: usize = 1;
    while offset < len
        invariant
            1 <= offset <= len,
            len == available@.len(),
            current < len,
            forall|p: int|
                1 <= p < offset ==> #[trigger] available@[workflow_step(current as int, len as int, d, p)] == Some(false),
        decreases len - offset,
    {
        let next = match d {
            Direction::Backward => if offset <= current {
                proof {
                    vstd::arithmetic::div_mod::lemma_fundamental_div_mod_converse(
                        current - offset,
                        len as int,
                        0,
                        current - offset,
                    );
                }
                current - offset
            } else {
                proof {
                    vstd::arithmetic::div_mod::lemma_fundamental_div_mod_converse(
                        current - offset,
                        len as int,
                        -1,
                        len - (offset - current),
                    );
                }
                len - (offset - current)
            },
            Direction::Forward => if offset < len - current {
                proof {
                    vstd::arithmetic::div_mod::lemma_fundamental_div_mod_converse(
                        current + offset,
                        len as int,
                        0,
                        current + offset,
                    );
                }
                current + offset
            } else {
                proof {
                    vstd::arithmetic::div_mod::lemma_fundamental_div_mod_converse(
                        current + offset,
                        len as int,
                        1,
                        offset - (len - current),
                    );
                }
                offset - (len - current)
            },
        };
        let known_unavailable = match available[next] {
            Some(b) => !b,
            None => false,
        };
        if !known_unavailable {
            assert(1 <= offset < available@.len() && next == workflow_step(current as int, len as int, d, offset as int)
                && forall|p: int|
                1 <= p < offset ==> #[trigger] available@[workflow_step(current as int, len as int, d, p)] == Some(false));
            return Some(next);
        }
        offset += 1;
    }
    None
}

} // verus!
