//! The labeling workspace: which workflows can be worked on, the selected
//! workflow and tool, which views a user may open, the undo history budget,
//! and how the canvas may be used.
use vstd::prelude::*;
use crate::model::{AnnotationType, DatasetRole, LabelClass, TaskDefinition};
use crate::text;

verus! {

/// The drawing tool of the canvas.
#[derive(Clone, Copy, Debug, PartialEq, Eq, Structural)]
pub enum Tool {
    BoundingBox,
    Keypoints,
}

/// The tool that draws an annotation type.
pub open spec fn tool_for(annotation_type: AnnotationType) -> Tool {
    match annotation_type {
        AnnotationType::BoundingBox => Tool::BoundingBox,
        AnnotationType::Skeleton => Tool::Keypoints,
    }
}

/// The tool that draws an annotation type.
pub fn tool_for_annotation_type(annotation_type: &AnnotationType) -> (t: Tool)
    ensures
        t == tool_for(*annotation_type),
{
    match annotation_type {
        AnnotationType::BoundingBox => Tool::BoundingBox,
        AnnotationType::Skeleton => Tool::Keypoints,
    }
}

/// The display name of an annotation type.
pub fn annotation_type_label(annotation_type: &AnnotationType) -> (r: &'static str)
    ensures
        r@ == match *annotation_type {
            AnnotationType::BoundingBox => "bounding box"@,
            AnnotationType::Skeleton => "skeleton"@,
        },
{
    match annotation_type {
        AnnotationType::BoundingBox => "bounding box",
        AnnotationType::Skeleton => "skeleton",
    }
}

/// A workflow can be worked on: it is enabled and labels exactly one class.
pub open spec fn workable(task: TaskDefinition) -> bool {
    task.enabled && task.class_ids@.len() == 1
}

/// Whether a workflow can be worked on.
pub fn valid_workflow(task: &TaskDefinition) -> (r: bool)
    ensures
        r == workable(*task),
{
    task.enabled && task.class_ids.len() == 1
}

/// A workflow offered in the workflow picker.
#[derive(Debug)]
pub struct WorkflowChoice {
    pub task_id: String,
    pub task_name: String,
    pub annotation_type: AnnotationType,
}

/// The workflows and classes of the open dataset, the selected workflow and
/// the drawing tool.
#[derive(Debug)]
pub struct WorkState {
    pub classes: Vec<LabelClass>,
    pub tasks: Vec<TaskDefinition>,
    pub selected_task_id: Option<String>,
    pub tool: Tool,
}

/// Class `c` is the first with ID `id`.
pub open spec fn first_class_with_id(classes: Seq<LabelClass>, id: Seq<char>, c: int) -> bool {
    0 <= c < classes.len() && classes[c].class_id@ == id && forall|j: int|
        0 <= j < c ==> (#[trigger] classes[j]).class_id@ != id
}

/// The position of the first class with ID `id`, if any.
pub open spec fn class_position(classes: Seq<LabelClass>, id: Seq<char>) -> Option<int> {
    if exists|c: int| first_class_with_id(classes, id, c) {
        Some(choose|c: int| first_class_with_id(classes, id, c))
    } else {
        None
    }
}

/// The workable workflows among the first `n` whose class sits at
/// `position` (`None`: whose class is unknown), in workflow order.
pub open spec fn workflows_of_class(
    classes: Seq<LabelClass>,
    tasks: Seq<TaskDefinition>,
    position: Option<int>,
    n: nat,
) -> Seq<int>
    decreases n,
{
    if n == 0 {
        Seq::empty()
    } else {
        let t = tasks[n - 1];
        workflows_of_class(classes, tasks, position, (n - 1) as nat) + if workable(t) && class_position(
            classes,
            t.class_ids@[0]@,
        ) == position {
            seq![n - 1]
        } else {
            Seq::<int>::empty()
        }
    }
}

/// The workable workflows of the first `c` classes, class by class.
pub open spec fn workflows_by_class(classes: Seq<LabelClass>, tasks: Seq<TaskDefinition>, c: nat) -> Seq<int>
    decreases c,
{
    if c == 0 {
        Seq::empty()
    } else {
        workflows_by_class(classes, tasks, (c - 1) as nat) + workflows_of_class(
            classes,
            tasks,
            Some(c - 1),
            tasks.len(),
        )
    }
}

/// The picker's order of workflows: grouped by the position of their class,
/// workflows of unknown classes last, each group in workflow order.
pub open spec fn workflow_order(classes: Seq<LabelClass>, tasks: Seq<TaskDefinition>) -> Seq<int> {
    workflows_by_class(classes, tasks, classes.len()) + workflows_of_class(classes, tasks, None, tasks.len())
}

/// `choice` offers workflow `task`.
pub open spec fn offers(choice: WorkflowChoice, task: TaskDefinition) -> bool {
    choice.task_id@ == task.task_id@ && choice.task_name@ == task.name@ && choice.annotation_type == task.annotation_type
}

/// Some workable workflow has ID `id`; `k` is the first.
pub open spec fn first_workable_with_id(tasks: Seq<TaskDefinition>, id: Seq<char>, k: int) -> bool {
    &&& 0 <= k < tasks.len()
    &&& tasks[k].task_id@ == id
    &&& workable(tasks[k])
    &&& forall|j: int| 0 <= j < k ==> !((#[trigger] tasks[j]).task_id@ == id && workable(tasks[j]))
}

/// The selected workflow: the first workable workflow with the selected ID.
pub open spec fn selected_index(w: WorkState) -> Option<int> {
    match w.selected_task_id {
        Some(id) => if exists|k: int| first_workable_with_id(w.tasks@, id@, k) {
            Some(choose|k: int| first_workable_with_id(w.tasks@, id@, k))
        } else {
            None
        },
        None => None,
    }
}

/// Workflow `k` is the first workable one.
pub open spec fn first_workable_at(tasks: Seq<TaskDefinition>, k: int) -> bool {
    0 <= k < tasks.len() && workable(tasks[k]) && forall|j: int| 0 <= j < k ==> !workable(#[trigger] tasks[j])
}

/// The first workable workflow, if any.
pub open spec fn first_workable(tasks: Seq<TaskDefinition>) -> Option<int> {
    if exists|k: int| first_workable_at(tasks, k) {
        Some(choose|k: int| first_workable_at(tasks, k))
    } else {
        None
    }
}

/// The views of the app.
#[derive(Clone, Copy, Debug, PartialEq, Eq, Structural)]
pub enum AppView {
    Setup,
    Annotate,
    Review,
    Adjudicate,
    Admin,
    Stats,
}

/// The kind of assignment a work view hands out.
#[derive(Clone, Copy, Debug, PartialEq, Eq, Structural)]
pub enum AssignmentKind {
    Annotation,
    Review,
    Adjudication,
}

/// Whether a user with `roles` may open `view`: adjudication is disabled,
/// the annotate, review and admin views each need their matching dataset
/// role; setup and statistics are open to all.
pub open spec fn may_open(view: AppView, roles: Seq<DatasetRole>) -> bool {
    match view {
        AppView::Adjudicate => false,
        AppView::Annotate => roles.contains(DatasetRole::Annotator),
        AppView::Review => roles.contains(DatasetRole::Reviewer),
        AppView::Admin => roles.contains(DatasetRole::DataAdmin),
        AppView::Setup | AppView::Stats => true,
    }
}

/// Each gated view opens exactly for the users who hold its role, whatever
/// other roles they hold (see `may_open` for which role each view needs).
/// Adjudication never opens, setup and statistics always do, and granting
/// a role never closes a view.
pub proof fn views_open_by_their_role(roles: Seq<DatasetRole>, extra: DatasetRole)
    ensures
        may_open(AppView::Annotate, roles) <==> exists|i: int| 0 <= i < roles.len() && roles[i] == DatasetRole::Annotator,
        may_open(AppView::Review, roles) <==> exists|i: int| 0 <= i < roles.len() && roles[i] == DatasetRole::Reviewer,
        may_open(AppView::Admin, roles) <==> exists|i: int| 0 <= i < roles.len() && roles[i] == DatasetRole::DataAdmin,
        !may_open(AppView::Adjudicate, roles),
        may_open(AppView::Setup, roles) && may_open(AppView::Stats, roles),
        forall|v: AppView| #[trigger] may_open(v, roles) ==> may_open(v, roles.push(extra)),
{
    assert forall|v: AppView| #[trigger] may_open(v, roles) implies may_open(v, roles.push(extra)) by {
        let bigger = roles.push(extra);
        assert forall|r: DatasetRole| roles.contains(r) implies bigger.contains(r) by {
            let i = choose|i: int| 0 <= i < roles.len() && roles[i] == r;
            assert(bigger[i] == r);
        }
    }
}

fn has_role(roles: &Vec<DatasetRole>, role: DatasetRole) -> (r: bool)
    ensures
        r == roles@.contains(role),
{
    let mut i: usize = 0;
    while i < roles.len()
        invariant
            i <= roles@.len(),
            forall|j: int| 0 <= j < i ==> roles@[j] != role,
        decreases roles.len() - i,
    {
        if roles[i] == role {
            assert(roles@[i as int] == role);
            return true;
        }
        i += 1;
    }
    false
}

/// Whether a user holding `roles` on the open dataset may open `view`.
pub fn can_open_view(view: AppView, roles: &Vec<DatasetRole>) -> (r: bool)
    ensures
        r == may_open(view, roles@),
{
    match view {
        AppView::Adjudicate => false,
        AppView::Annotate => has_role(roles, DatasetRole::Annotator),
        AppView::Review => has_role(roles, DatasetRole::Reviewer),
        AppView::Admin => has_role(roles, DatasetRole::DataAdmin),
        AppView::Setup | AppView::Stats => true,
    }
}

/// The assignment kind a view works on.
pub open spec fn kind_of_view(view: AppView) -> Option<AssignmentKind> {
    match view {
        AppView::Annotate => Some(AssignmentKind::Annotation),
        AppView::Review => Some(AssignmentKind::Review),
        AppView::Adjudicate => Some(AssignmentKind::Adjudication),
        _ => None,
    }
}

/// The assignment kind a view works on.
pub fn assignment_kind(view: AppView) -> (k: Option<AssignmentKind>)
    ensures
        k == kind_of_view(view),
{
    match view {
        AppView::Annotate => Some(AssignmentKind::Annotation),
        AppView::Review => Some(AssignmentKind::Review),
        AppView::Adjudicate => Some(AssignmentKind::Adjudication),
        AppView::Setup | AppView::Admin | AppView::Stats => None,
    }
}

impl WorkState {
    fn find_workable(&self, id: &str) -> (r: Option<usize>)
        ensures
            match r {
                Some(k) => first_workable_with_id(self.tasks@, id@, k as int),
                None => !exists|k: int| first_workable_with_id(self.tasks@, id@, k),
            },
    {
        let mut k: usize = 0;
        while k < self.tasks.len()
            invariant
                k <= self.tasks@.len(),
                forall|j: int| 0 <= j < k ==> !((#[trigger] self.tasks@[j]).task_id@ == id@ && workable(self.tasks@[j])),
            decreases self.tasks.len() - k,
        {
            let t = &self.tasks[k];
            if text::str_eq(t.task_id.as_str(), id) && valid_workflow(t) {
                return Some(k);
            }
            k += 1;
        }
        proof {
            assert forall|x: int| !first_workable_with_id(self.tasks@, id@, x) by {
                if 0 <= x < self.tasks@.len() {
                    assert(!(self.tasks@[x].task_id@ == id@ && workable(self.tasks@[x])));
                }
            }
        }
        None
    }

    /// The position of the selected workflow, if the selection names a
    /// workable one.
    pub fn selected_task(&self) -> (r: Option<usize>)
        ensures
            r matches Some(k) ==> selected_index(*self) == Some(k as int),
            r is None ==> selected_index(*self) is None,
    {
        match &self.selected_task_id {
            Some(id) => {
                let found = self.find_workable(id.as_str());
                proof {
                    if let Some(k) = found {
                        lemma_first_workable_unique(self.tasks@, id@, k as int);
                    }
                }
                found
            },
            None => None,
        }
    }

    /// The class of the selected workflow.
    pub fn selected_class_id(&self) -> (r: Option<&String>)
        ensures
            match selected_index(*self) {
                Some(k) => r == Some(&self.tasks@[k].class_ids@[0]),
                None => r is None,
            },
    {
        match self.selected_task() {
            Some(k) => Some(&self.tasks[k].class_ids[0]),
            None => None,
        }
    }

    /// The workflow picker's choices: workable workflows grouped by the
    /// position of their class, unknown classes last, each group in
    /// workflow order.
    pub fn workflow_choices(&self) -> (v: Vec<WorkflowChoice>)
        ensures
            v@.len() == workflow_order(self.classes@, self.tasks@).len(),
            forall|i: int|
                0 <= i < v@.len() ==> offers(
                    #[trigger] v@[i],
                    self.tasks@[workflow_order(self.classes@, self.tasks@)[i]],
                ),
    {
        let positions = self.class_positions();
        let mut order: Vec<usize> = Vec::new();
        let mut c: usize = 0;
        while c < self.classes.len()
            invariant
                c <= self.classes@.len(),
                positions@.len() == self.tasks@.len(),
                forall|t: int| 0 <= t < self.tasks@.len() ==> #[trigger] positions@[t] == class_slot(self.classes@, self.tasks@[t]),
                as_ints(order@) == workflows_by_class(self.classes@, self.tasks@, c as nat),
            decreases self.classes.len() - c,
        {
            self.push_group(&positions, Some(c), &mut order);
            c += 1;
        }
        self.push_group(&positions, None, &mut order);
        proof {
            lemma_order_bounds(self.classes@, self.tasks@);
        }
        let ghost ord = workflow_order(self.classes@, self.tasks@);
        let mut v: Vec<WorkflowChoice> = Vec::new();
        let mut i: usize = 0;
        while i < order.len()
            invariant
                i <= order@.len(),
                as_ints(order@) == ord,
                ord == workflow_order(self.classes@, self.tasks@),
                forall|j: int| 0 <= j < ord.len() ==> 0 <= #[trigger] ord[j] < self.tasks@.len(),
                v@.len() == i,
                forall|j: int| 0 <= j < i ==> offers(#[trigger] v@[j], self.tasks@[ord[j]]),
            decreases order.len() - i,
        {
            assert(ord[i as int] == order@[i as int] as int);
            let task = &self.tasks[order[i]];
            v.push(WorkflowChoice {
                task_id: task.task_id.clone(),
                task_name: task.name.clone(),
                annotation_type: task.annotation_type,
            });
            i += 1;
        }
        v
    }

    fn class_positions(&self) -> (p: Vec<Option<usize>>)
        ensures
            p@.len() == self.tasks@.len(),
            forall|t: int| 0 <= t < self.tasks@.len() ==> #[trigger] p@[t] == class_slot(self.classes@, self.tasks@[t]),
    {
        let mut p: Vec<Option<usize>> = Vec::new();
        let mut t: usize = 0;
        while t < self.tasks.len()
            invariant
                t <= self.tasks@.len(),
                p@.len() == t,
                forall|x: int| 0 <= x < t ==> #[trigger] p@[x] == class_slot(self.classes@, self.tasks@[x]),
            decreases self.tasks.len() - t,
        {
            let task = &self.tasks[t];
            if valid_workflow(task) {
                p.push(position_of_class(&self.classes, task.class_ids[0].as_str()));
            } else {
                p.push(None);
            }
            t += 1;
        }
        p
    }

    fn push_group(&self, positions: &Vec<Option<usize>>, slot: Option<usize>, out: &mut Vec<usize>)
        requires
            positions@.len() == self.tasks@.len(),
            forall|t: int| 0 <= t < self.tasks@.len() ==> #[trigger] positions@[t] == class_slot(self.classes@, self.tasks@[t]),
        ensures
            as_ints(final(out)@) == as_ints(old(out)@) + workflows_of_class(
                self.classes@,
                self.tasks@,
                match slot {
                    Some(s) => Some(s as int),
                    None => None,
                },
                self.tasks@.len(),
            ),
    {
        let ghost target = match slot {
            Some(s) => Some(s as int),
            None => None,
        };
        let ghost start = as_ints(out@);
        let ncls = self.classes.len();
        let mut t: usize = 0;
        while t < self.tasks.len()
            invariant
                t <= self.tasks@.len(),
                ncls == self.classes@.len(),
                positions@.len() == self.tasks@.len(),
                forall|x: int| 0 <= x < self.tasks@.len() ==> #[trigger] positions@[x] == class_slot(self.classes@, self.tasks@[x]),
                target == match slot {
                    Some(s) => Some(s as int),
                    None => None,
                },
                as_ints(out@) == start + workflows_of_class(self.classes@, self.tasks@, target, t as nat),
            decreases self.tasks.len() - t,
        {
            let task = &self.tasks[t];
            let pos = positions[t];
            let here = valid_workflow(task) && match (pos, slot) {
                (Some(a), Some(b)) => a == b,
                (None, None) => true,
                _ => false,
            };
            proof {
                let tk = self.tasks@[t as int];
                assert(pos == class_slot(self.classes@, tk));
                if workable(tk) {
                    lemma_class_position_range(self.classes@, tk.class_ids@[0]@);
                }
                assert(here == (workable(tk) && class_position(self.classes@, tk.class_ids@[0]@) == target));
            }
            let ghost prev = as_ints(out@);
            if here {
                out.push(t);
                assert(as_ints(out@) =~= prev.push(t as int));
            }
            assert(start + workflows_of_class(self.classes@, self.tasks@, target, (t + 1) as nat) =~= as_ints(out@));
            t += 1;
        }
    }

    /// Selects the workable workflow with ID `task_id` and its tool; nothing
    /// changes when there is none or it is already selected.  Reports
    /// whether the selection changed.
    pub fn select_workflow(&mut self, task_id: &str) -> (changed: bool)
        ensures
            ({
                let found = exists|k: int| first_workable_with_id(old(self).tasks@, task_id@, k);
                let already = old(self).selected_task_id matches Some(s) && s@ == task_id@;
                &&& changed == (found && !already)
                &&& changed ==> {
                    let k = choose|k: int| first_workable_with_id(old(self).tasks@, task_id@, k);
                    &&& final(self).selected_task_id matches Some(s) && s@ == task_id@
                    &&& final(self).tool == tool_for(old(self).tasks@[k].annotation_type)
                }
                &&& !changed ==> *final(self) == *old(self)
                &&& final(self).tasks == old(self).tasks
                &&& final(self).classes == old(self).classes
            }),
    {
        let found = self.find_workable(task_id);
        match found {
            None => false,
            Some(k) => {
                let already = match &self.selected_task_id {
                    Some(s) => text::str_eq(s.as_str(), task_id),
                    None => false,
                };
                if already {
                    return false;
                }
                proof {
                    lemma_first_workable_unique(self.tasks@, task_id@, k as int);
                }
                let annotation_type = self.tasks[k].annotation_type;
                self.selected_task_id = Some(text::to_string(task_id));
                self.tool = tool_for_annotation_type(&annotation_type);
                true
            },
        }
    }

    /// Keeps a valid selection, or falls back to the first workable
    /// workflow (and its tool), or clears the selection when there is none.
    /// Reports whether a workflow is selected afterwards.
    pub fn ensure_valid_task_selection(&mut self) -> (selected: bool)
        ensures
            selected_index(*old(self)) is Some ==> selected && *final(self) == *old(self),
            selected_index(*old(self)) is None ==> match first_workable(old(self).tasks@) {
                Some(k) => {
                    &&& selected
                    &&& final(self).selected_task_id matches Some(s) && s@ == old(self).tasks@[k].task_id@
                    &&& final(self).tool == tool_for(old(self).tasks@[k].annotation_type)
                },
                None => !selected && final(self).selected_task_id is None && final(self).tool == old(self).tool,
            },
            final(self).tasks == old(self).tasks,
            final(self).classes == old(self).classes,
    {
        if self.selected_task().is_some() {
            return true;
        }
        match first_workable_index(&self.tasks) {
            Some(k) => {
                let id = self.tasks[k].task_id.clone();
                let annotation_type = self.tasks[k].annotation_type;
                self.selected_task_id = Some(id);
                self.tool = tool_for_annotation_type(&annotation_type);
                true
            },
            None => {
                self.selected_task_id = None;
                false
            },
        }
    }
}

impl WorkState {
    /// The name of class `class_id`, or the ID itself for an unknown class.
    pub fn class_name(&self, class_id: &str) -> (r: String)
        ensures
            r@ == match class_position(self.classes@, class_id@) {
                Some(c) => self.classes@[c].name@,
                None => class_id@,
            },
    {
        match position_of_class(&self.classes, class_id) {
            Some(c) => text::to_string(self.classes[c].name.as_str()),
            None => text::to_string(class_id),
        }
    }
}

/// What the server last said about which workflows have work: for which
/// dataset and assignment kind, per workflow ID, and whether the answer is
/// complete and without error.
#[derive(Debug)]
pub struct AvailabilityState {
    pub dataset_id: Option<String>,
    pub kind: Option<AssignmentKind>,
    pub tasks: Vec<(String, bool)>,
    pub resolved: bool,
    pub error: Option<String>,
}

/// The availability recorded for workflow `id`: the first entry with that
/// ID.
pub open spec fn availability_entry(tasks: Seq<(String, bool)>, id: Seq<char>) -> Option<bool>
    decreases tasks.len(),
{
    if tasks.len() == 0 {
        None
    } else if tasks[0].0@ == id {
        Some(tasks[0].1)
    } else {
        availability_entry(tasks.subrange(1, tasks.len() as int), id)
    }
}

/// Whether workflow `task_id` has work in `view` of dataset `dataset_id`:
/// known only from a complete, error-free answer for that dataset and for
/// the view's assignment kind.
pub fn workflow_availability(a: &AvailabilityState, view: AppView, dataset_id: &str, task_id: &str) -> (r: Option<
    bool,
>)
    ensures
        r == match kind_of_view(view) {
            None => None,
            Some(kind) => if (a.dataset_id matches Some(d) && d@ == dataset_id@) && a.kind == Some(kind) && a.resolved
                && a.error is None {
                availability_entry(a.tasks@, task_id@)
            } else {
                None
            },
        },
{
    let kind = match assignment_kind(view) {
        Some(k) => k,
        None => return None,
    };
    let same_dataset = match &a.dataset_id {
        Some(d) => text::str_eq(d.as_str(), dataset_id),
        None => false,
    };
    let same_kind = match a.kind {
        Some(k) => k == kind,
        None => false,
    };
    if !(same_dataset && same_kind && a.resolved && a.error.is_none()) {
        return None;
    }
    let mut i: usize = 0;
    assert(a.tasks@.subrange(0, a.tasks@.len() as int) =~= a.tasks@);
    while i < a.tasks.len()
        invariant
            i <= a.tasks@.len(),
            kind_of_view(view) == Some(kind),
            a.dataset_id matches Some(d) && d@ == dataset_id@,
            a.kind == Some(kind),
            a.resolved,
            a.error is None,
            availability_entry(a.tasks@, task_id@) == availability_entry(
                a.tasks@.subrange(i as int, a.tasks@.len() as int),
                task_id@,
            ),
        decreases a.tasks.len() - i,
    {
        let ghost rest = a.tasks@.subrange(i as int, a.tasks@.len() as int);
        assert(rest[0] == a.tasks@[i as int]);
        if text::str_eq(a.tasks[i].0.as_str(), task_id) {
            return Some(a.tasks[i].1);
        }
        assert(rest.subrange(1, rest.len() as int) =~= a.tasks@.subrange(i + 1, a.tasks@.len() as int));
        i += 1;
    }
    assert(a.tasks@.subrange(i as int, a.tasks@.len() as int) =~= Seq::<(String, bool)>::empty());
    None
}

/// A dataset the user can open, with the roles the user holds on it.
#[derive(Debug)]
pub struct DatasetSummary {
    pub dataset_id: String,
    pub roles: Vec<DatasetRole>,
}

/// The user's roles on dataset `id`: those of the first summary for it.
pub open spec fn roles_on(summaries: Seq<DatasetSummary>, id: Seq<char>) -> Option<Seq<DatasetRole>>
    decreases summaries.len(),
{
    if summaries.len() == 0 {
        None
    } else if summaries[0].dataset_id@ == id {
        Some(summaries[0].roles@)
    } else {
        roles_on(summaries.subrange(1, summaries.len() as int), id)
    }
}

/// Whether the user holds `role` on dataset `dataset_id`.
pub fn has_dataset_role(summaries: &Vec<DatasetSummary>, dataset_id: &str, role: DatasetRole) -> (r: bool)
    ensures
        r == (roles_on(summaries@, dataset_id@) matches Some(roles) && roles.contains(role)),
{
    let mut i: usize = 0;
    assert(summaries@.subrange(0, summaries@.len() as int) =~= summaries@);
    while i < summaries.len()
        invariant
            i <= summaries@.len(),
            roles_on(summaries@, dataset_id@) == roles_on(
                summaries@.subrange(i as int, summaries@.len() as int),
                dataset_id@,
            ),
        decreases summaries.len() - i,
    {
        let ghost rest = summaries@.subrange(i as int, summaries@.len() as int);
        assert(rest[0] == summaries@[i as int]);
        if text::str_eq(summaries[i].dataset_id.as_str(), dataset_id) {
            return has_role(&summaries[i].roles, role);
        }
        assert(rest.subrange(1, rest.len() as int) =~= summaries@.subrange(i + 1, summaries@.len() as int));
        i += 1;
    }
    assert(summaries@.subrange(i as int, summaries@.len() as int) =~= Seq::<DatasetSummary>::empty());
    false
}

/// A saved choice of workflow for a dataset.
#[derive(Debug)]
pub struct WorkflowPreference {
    pub dataset_id: String,
    pub task_id: Option<String>,
}

/// The position of the first workable workflow with ID `id`.
pub open spec fn workable_index(tasks: Seq<TaskDefinition>, id: Seq<char>) -> Option<int> {
    if exists|k: int| first_workable_with_id(tasks, id, k) {
        Some(choose|k: int| first_workable_with_id(tasks, id, k))
    } else {
        None
    }
}

/// The workflow asked for after new workflows are loaded: the preferred one
/// for this dataset where it is workable, else the one selected before.
pub open spec fn wanted_workflow(
    selected: Option<Seq<char>>,
    tasks: Seq<TaskDefinition>,
    preference: Option<WorkflowPreference>,
    dataset_id: Seq<char>,
) -> Option<Seq<char>> {
    match preference {
        Some(p) => if p.dataset_id@ == dataset_id && p.task_id is Some && workable_index(tasks, p.task_id.unwrap()@) is Some {
            Some(p.task_id.unwrap()@)
        } else {
            selected
        },
        None => selected,
    }
}

impl WorkState {
    /// Takes the classes and workflows of freshly loaded metadata, selects
    /// the dataset's preferred workflow where it is workable, keeps or
    /// repairs the selection, and picks the selected workflow's tool.
    pub fn sync_work_config(
        &mut self,
        classes: Vec<LabelClass>,
        tasks: Vec<TaskDefinition>,
        preference: Option<&WorkflowPreference>,
        dataset_id: &str,
    )
        ensures
            final(self).classes@ == classes@,
            final(self).tasks@ == tasks@,
            ({
                let wanted = wanted_workflow(
                    match old(self).selected_task_id {
                        Some(s) => Some(s@),
                        None => None,
                    },
                    tasks@,
                    match preference {
                        Some(p) => Some(*p),
                        None => None,
                    },
                    dataset_id@,
                );
                selected_index(*final(self)) == match wanted {
                    Some(id) => match workable_index(tasks@, id) {
                        Some(k) => Some(k),
                        None => first_workable(tasks@),
                    },
                    None => first_workable(tasks@),
                }
            }),
            selected_index(*final(self)) matches Some(k) ==> final(self).tool == tool_for(tasks@[k].annotation_type),
            selected_index(*final(self)) is None ==> final(self).selected_task_id is None && final(self).tool == old(
                self,
            ).tool,
    {
        self.classes = classes;
        self.tasks = tasks;
        if let Some(p) = preference {
            if text::str_eq(p.dataset_id.as_str(), dataset_id) {
                if let Some(t) = &p.task_id {
                    if self.find_workable(t.as_str()).is_some() {
                        self.selected_task_id = Some(t.clone());
                    }
                }
            }
        }
        proof {
            if let Some(id) = &self.selected_task_id {
                if exists|k: int| first_workable_with_id(self.tasks@, id@, k) {
                    let k = choose|k: int| first_workable_with_id(self.tasks@, id@, k);
                    lemma_first_workable_unique(self.tasks@, id@, k);
                }
            }
        }
        let ghost mid = *self;
        assert(mid.tasks@ == tasks@);
        assert(mid.tool == old(self).tool);
        assert(match mid.selected_task_id { Some(s) => Some(s@), None => None } == wanted_workflow(
                    match old(self).selected_task_id {
                        Some(s) => Some(s@),
                        None => None,
                    },
                    tasks@,
                    match preference {
                        Some(p) => Some(*p),
                        None => None,
                    },
                    dataset_id@,
                ));
        let selected = self.ensure_valid_task_selection();
        proof {
            if selected_index(mid) is None {
                if let Some(k) = first_workable(mid.tasks@) {
                    assert(first_workable_with_id(self.tasks@, self.tasks@[k].task_id@, k));
                    assert(selected_index(*self) == Some(k));
                }
            }
        }
        proof {
            match mid.selected_task_id {
                Some(s) => {
                    assert(selected_index(mid) == workable_index(tasks@, s@));
                },
                None => {
                    assert(selected_index(mid) is None);
                },
            }
            assert(selected_index(mid) is None ==> selected_index(*self) == first_workable(tasks@));
            assert(selected_index(mid) is Some ==> selected_index(*self) == selected_index(mid));
        }
        if selected {
            if let Some(k) = self.selected_task() {
                let annotation_type = self.tasks[k].annotation_type;
                self.tool = tool_for_annotation_type(&annotation_type);
            }
        }
    }
}

fn first_workable_index(tasks: &Vec<TaskDefinition>) -> (r: Option<usize>)
    ensures
        match r {
            Some(i) => first_workable(tasks@) == Some(i as int) && i < tasks@.len(),
            None => first_workable(tasks@) is None,
        },
{
    let mut k: usize = 0;
    while k < tasks.len()
        invariant
            k <= tasks@.len(),
            forall|j: int| 0 <= j < k ==> !workable(#[trigger] tasks@[j]),
        decreases tasks.len() - k,
    {
        if valid_workflow(&tasks[k]) {
            proof {
                assert(first_workable_at(tasks@, k as int));
                let c = choose|c: int| first_workable_at(tasks@, c);
                if c < k {
                    assert(!workable(tasks@[c]));
                } else if k < c {
                    assert(!workable(tasks@[k as int]));
                }
            }
            return Some(k);
        }
        k += 1;
    }
    None
}

/// The integer values of a list of positions.
pub open spec fn as_ints(s: Seq<usize>) -> Seq<int> {
    s.map_values(|x: usize| x as int)
}

proof fn lemma_class_position_range(classes: Seq<LabelClass>, id: Seq<char>)
    ensures
        class_position(classes, id) matches Some(c) ==> 0 <= c < classes.len(),
{
}

proof fn lemma_group_bounds(classes: Seq<LabelClass>, tasks: Seq<TaskDefinition>, position: Option<int>, n: nat)
    ensures
        forall|j: int| 0 <= j < workflows_of_class(classes, tasks, position, n).len() ==> 0 <= #[trigger] workflows_of_class(classes, tasks, position, n)[j] < n,
    decreases n,
{
    if n > 0 {
        lemma_group_bounds(classes, tasks, position, (n - 1) as nat);
        let a = workflows_of_class(classes, tasks, position, (n - 1) as nat);
        let t = tasks[n - 1];
        let b = if workable(t) && class_position(classes, t.class_ids@[0]@) == position {
            seq![n - 1]
        } else {
            Seq::<int>::empty()
        };
        assert(workflows_of_class(classes, tasks, position, n) == a + b);
        assert forall|j: int| 0 <= j < (a + b).len() implies 0 <= #[trigger] (a + b)[j] < n by {
            if j < a.len() {
                assert((a + b)[j] == a[j]);
            } else {
                assert((a + b)[j] == b[j - a.len()]);
            }
        }
    }
}

proof fn lemma_order_bounds(classes: Seq<LabelClass>, tasks: Seq<TaskDefinition>)
    ensures
        forall|j: int| 0 <= j < workflow_order(classes, tasks).len() ==> 0 <= #[trigger] workflow_order(classes, tasks)[j] < tasks.len(),
{
    lemma_by_class_bounds(classes, tasks, classes.len());
    lemma_group_bounds(classes, tasks, None, tasks.len());
    let a = workflows_by_class(classes, tasks, classes.len());
    let b = workflows_of_class(classes, tasks, None, tasks.len());
    assert forall|j: int| 0 <= j < (a + b).len() implies 0 <= #[trigger] (a + b)[j] < tasks.len() by {
        if j < a.len() {
            assert((a + b)[j] == a[j]);
        } else {
            assert((a + b)[j] == b[j - a.len()]);
        }
    }
}

proof fn lemma_by_class_bounds(classes: Seq<LabelClass>, tasks: Seq<TaskDefinition>, c: nat)
    ensures
        forall|j: int| 0 <= j < workflows_by_class(classes, tasks, c).len() ==> 0 <= #[trigger] workflows_by_class(classes, tasks, c)[j] < tasks.len(),
    decreases c,
{
    if c > 0 {
        lemma_by_class_bounds(classes, tasks, (c - 1) as nat);
        lemma_group_bounds(classes, tasks, Some(c - 1), tasks.len());
        let a = workflows_by_class(classes, tasks, (c - 1) as nat);
        let b = workflows_of_class(classes, tasks, Some(c - 1), tasks.len());
        assert forall|j: int| 0 <= j < (a + b).len() implies 0 <= #[trigger] (a + b)[j] < tasks.len() by {
            if j < a.len() {
                assert((a + b)[j] == a[j]);
            } else {
                assert((a + b)[j] == b[j - a.len()]);
            }
        }
    }
}

/// The slot a workflow is grouped under: the position of its class, if it
/// is workable and its class is known.
pub open spec fn class_slot(classes: Seq<LabelClass>, task: TaskDefinition) -> Option<usize> {
    if workable(task) {
        match class_position(classes, task.class_ids@[0]@) {
            Some(c) => Some(c as usize),
            None => None,
        }
    } else {
        None
    }
}

fn position_of_class(classes: &Vec<LabelClass>, id: &str) -> (r: Option<usize>)
    ensures
        match class_position(classes@, id@) {
            Some(c) => r matches Some(i) && i as int == c,
            None => r is None,
        },
{
    let mut c: usize = 0;
    while c < classes.len()
        invariant
            c <= classes@.len(),
            forall|j: int| 0 <= j < c ==> (#[trigger] classes@[j]).class_id@ != id@,
        decreases classes.len() - c,
    {
        if text::str_eq(classes[c].class_id.as_str(), id) {
            proof {
                assert(first_class_with_id(classes@, id@, c as int));
                let x = choose|x: int| first_class_with_id(classes@, id@, x);
                if x < c {
                    assert(classes@[x].class_id@ != id@);
                } else if c < x {
                    assert(classes@[c as int].class_id@ != id@);
                }
            }
            return Some(c);
        }
        c += 1;
    }
    None
}

proof fn lemma_first_workable_unique(tasks: Seq<TaskDefinition>, id: Seq<char>, k: int)
    requires
        first_workable_with_id(tasks, id, k),
    ensures
        (choose|x: int| first_workable_with_id(tasks, id, x)) == k,
{
    let c = choose|x: int| first_workable_with_id(tasks, id, x);
    if c < k {
        assert(!(tasks[c].task_id@ == id && workable(tasks[c])));
    } else if k < c {
        assert(!(tasks[k].task_id@ == id && workable(tasks[k])));
    }
}

/// How the canvas may be used: whether annotations are editable, new ones
/// may be drawn, existing ones selected, keypoints dragged, and which
/// keypoint is selected.
#[derive(Clone, Copy, Debug, PartialEq, Eq, Structural)]
pub struct CanvasInteraction {
    pub editable: bool,
    pub allow_create: bool,
    pub allow_selection: bool,
    pub edit_keypoints: bool,
    pub selected_keypoint: Option<usize>,
}

impl CanvasInteraction {
    /// Plain annotation: drawing and selecting follow `editable`; keypoints
    /// are not dragged.
    pub fn annotations(editable: bool) -> (c: Self)
        ensures
            c == (CanvasInteraction {
                editable,
                allow_create: editable,
                allow_selection: editable,
                edit_keypoints: false,
                selected_keypoint: None,
            }),
    {
        CanvasInteraction {
            editable,
            allow_create: editable,
            allow_selection: editable,
            edit_keypoints: false,
            selected_keypoint: None,
        }
    }

    /// Review correction: the existing geometry is edited, keypoints can be
    /// dragged, nothing new is drawn or selected.
    pub fn correction(selected_keypoint: Option<usize>) -> (c: Self)
        ensures
            c == (CanvasInteraction {
                editable: true,
                allow_create: false,
                allow_selection: false,
                edit_keypoints: true,
                selected_keypoint,
            }),
    {
        CanvasInteraction {
            editable: true,
            allow_create: false,
            allow_selection: false,
            edit_keypoints: true,
            selected_keypoint,
        }
    }
}

/// The most edits the undo history keeps.
pub const MAX_HISTORY_OPERATIONS: usize = 256;

/// The most approximate memory, in bytes, the undo history keeps.
pub const MAX_HISTORY_BYTES: usize = 16777216;

/// One undo step: the editor state to return to and its approximate size.
#[derive(Debug)]
pub struct EditSnapshot<T> {
    pub state: T,
    pub approx_bytes: usize,
}

/// The approximate size of a history.
pub open spec fn history_bytes<T>(s: Seq<EditSnapshot<T>>) -> nat
    decreases s.len(),
{
    if s.len() == 0 {
        0
    } else {
        history_bytes(s.drop_last()) + s.last().approx_bytes as nat
    }
}

/// A history within both budgets.
pub open spec fn within_budget<T>(s: Seq<EditSnapshot<T>>) -> bool {
    s.len() <= MAX_HISTORY_OPERATIONS && history_bytes(s) <= MAX_HISTORY_BYTES
}

/// Dropping the `k` oldest entries of `full` is the least dropping that
/// brings it within budget.
pub open spec fn least_trim<T>(full: Seq<EditSnapshot<T>>, k: int) -> bool {
    &&& 0 <= k <= full.len()
    &&& within_budget(full.subrange(k, full.len() as int))
    &&& forall|j: int| 0 <= j < k ==> !within_budget(#[trigger] full.subrange(j, full.len() as int))
}

/// The size of a history is its oldest entry's plus the rest's.
pub proof fn lemma_history_bytes_front<T>(s: Seq<EditSnapshot<T>>)
    requires
        s.len() > 0,
    ensures
        history_bytes(s) == s[0].approx_bytes + history_bytes(s.subrange(1, s.len() as int)),
    decreases s.len(),
{
    if s.len() > 1 {
        let d = s.drop_last();
        lemma_history_bytes_front(d);
        assert(d.subrange(1, d.len() as int) =~= s.subrange(1, s.len() as int).drop_last());
        assert(s.subrange(1, s.len() as int).last() == s.last());
    } else {
        assert(s.drop_last() =~= Seq::<EditSnapshot<T>>::empty());
        assert(s.subrange(1, s.len() as int) =~= Seq::<EditSnapshot<T>>::empty());
    }
}

/// Records an undo step, then drops the oldest steps until the history
/// holds at most `MAX_HISTORY_OPERATIONS` steps and at most
/// `MAX_HISTORY_BYTES` bytes: the longest recent part that fits is kept.
pub fn push_history<T>(stack: &mut Vec<EditSnapshot<T>>, snapshot: EditSnapshot<T>)
    requires
        history_bytes(old(stack)@) + snapshot.approx_bytes <= usize::MAX,
    ensures
        exists|k: int|
            least_trim(old(stack)@.push(snapshot), k) && final(stack)@ == old(stack)@.push(snapshot).subrange(
                k,
                (old(stack)@.len() + 1) as int,
            ),
        within_budget(final(stack)@),
{
    let ghost full = old(stack)@.push(snapshot);
    assert(full.drop_last() =~= old(stack)@);
    stack.push(snapshot);
    let mut bytes: usize = 0;
    let mut i: usize = 0;
    while i < stack.len()
        invariant
            stack@ == full,
            i <= full.len(),
            history_bytes(full) <= usize::MAX,
            bytes == history_bytes(full.subrange(0, i as int)),
            history_bytes(full.subrange(0, i as int)) <= history_bytes(full),
        decreases stack.len() - i,
    {
        proof {
            assert(full.subrange(0, i + 1).drop_last() =~= full.subrange(0, i as int));
            lemma_prefix_bytes(full, (i + 1) as int);
        }
        bytes = bytes + stack[i].approx_bytes;
        i += 1;
    }
    assert(full.subrange(0, full.len() as int) =~= full);
    let ghost mut k: int = 0;
    assert(full.subrange(0, full.len() as int) =~= full);
    while stack.len() > MAX_HISTORY_OPERATIONS || bytes > MAX_HISTORY_BYTES
        invariant
            0 <= k <= full.len(),
            stack@ == full.subrange(k, full.len() as int),
            bytes == history_bytes(stack@),
            forall|j: int| 0 <= j < k ==> !within_budget(#[trigger] full.subrange(j, full.len() as int)),
        decreases stack.len(),
    {
        proof {
            assert(!within_budget(full.subrange(k, full.len() as int)));
            lemma_history_bytes_front(stack@);
            assert(stack@.subrange(1, stack@.len() as int) =~= full.subrange(k + 1, full.len() as int));
        }
        let removed = stack.remove(0);
        bytes = bytes - removed.approx_bytes;
        proof {
            k = k + 1;
        }
    }
    assert(least_trim(full, k));
}

proof fn lemma_prefix_bytes<T>(s: Seq<EditSnapshot<T>>, n: int)
    requires
        0 <= n <= s.len(),
    ensures
        history_bytes(s.subrange(0, n)) <= history_bytes(s),
    decreases s.len() - n,
{
    if n < s.len() {
        lemma_prefix_bytes(s, n + 1);
        assert(s.subrange(0, n + 1).drop_last() =~= s.subrange(0, n));
    } else {
        assert(s.subrange(0, n) =~= s);
    }
}

} // verus!
