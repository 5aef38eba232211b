//! Whether an accepted plan still matches the mappings: the request the
//! mappings would send now is compared, value by value, with the one the
//! plan was accepted for.
use vstd::prelude::*;
use crate::import_model::{
    ImportAcknowledgementRequest, ImportCategoryDraft, ImportCategoryMappingRequest, ImportGeometryMappingRequest,
    ImportMappingDraft, ImportMappingParameter, ImportSkeletonMappingRequest, ImportTaskMappingRequest,
    PreflightDiagnostic, UpdateImportPlanRequest,
};
use crate::mapping::{add_all_unique, severity_count, ImportMappingIssueSeverity};
use crate::mapping_check::{
    draft_candidates, import_mappings_complete, import_plan_covers_all_categories, required_outputs,
    PlanOutput,
};
use crate::import_progress::{ImportLifecycle, ImportScreen};
use crate::recovery::ImportFlowState;
use crate::model::{
    skeleton_value, string_values, task_value, AgreementThreshold, ReviewConfig, SkeletonSpec, TaskDefinition,
};
use crate::plan_request::{
    accepted_view, acknowledgement_requests, acknowledgement_value, category_mapping_value, category_request,
    geometry_mapping_value, geometry_requests, import_plan_request, origin_values, parameter_value, parameter_values,
    skeleton_mapping_values, skeleton_origin_values, skeleton_origins, task_mapping_values, task_origins,
    AcknowledgementValue, CategoryMappingValue, GeometryMappingValue, SkeletonMappingValue, TaskMappingValue,
};
use crate::import_support::{import_key_text, ImportKeys};
use crate::text;
use crate::diagnostics::ImportDiagnosticSummary;

verus! {

/// A plan request as a plain value.
pub type RequestValue = (
    Seq<CategoryMappingValue>,
    Seq<GeometryMappingValue>,
    Seq<TaskMappingValue>,
    Seq<SkeletonMappingValue>,
    crate::import_model::ImportCompatibility,
    Seq<AcknowledgementValue>,
);

/// The plain value of a plan request.
pub open spec fn request_value(r: UpdateImportPlanRequest) -> RequestValue {
    (
        r.category_mappings@.map_values(|m: ImportCategoryMappingRequest| category_mapping_value(m)),
        r.geometry_mappings@.map_values(|m: ImportGeometryMappingRequest| geometry_mapping_value(m)),
        task_mapping_values(r.task_mappings@),
        skeleton_mapping_values(r.skeleton_mappings@),
        r.compatibility,
        r.acknowledgements@.map_values(|a: ImportAcknowledgementRequest| acknowledgement_value(a)),
    )
}

fn same_strings(a: &Vec<String>, b: &Vec<String>) -> (r: bool)
    ensures
        r == (string_values(a@) == string_values(b@)),
{
    if a.len() != b.len() {
        assert(string_values(a@).len() != string_values(b@).len());
        return false;
    }
    let mut i: usize = 0;
    while i < a.len()
        invariant
            i <= a@.len(),
            a@.len() == b@.len(),
            forall|j: int| 0 <= j < i ==> a@[j]@ == b@[j]@,
        decreases a.len() - i,
    {
        if !text::str_eq(a[i].as_str(), b[i].as_str()) {
            assert(string_values(a@)[i as int] != string_values(b@)[i as int]);
            return false;
        }
        i += 1;
    }
    assert(string_values(a@) =~= string_values(b@));
    true
}

fn same_text(a: &String, b: &String) -> (r: bool)
    ensures
        r == (a@ == b@),
{
    text::str_eq(a.as_str(), b.as_str())
}

fn same_parameter(a: &ImportMappingParameter, b: &ImportMappingParameter) -> (r: bool)
    ensures
        r == (parameter_value(*a) == parameter_value(*b)),
{
    match (a, b) {
        (
            ImportMappingParameter::Scalar { name: n1, unit_interval: u1, pixel_count: p1 },
            ImportMappingParameter::Scalar { name: n2, unit_interval: u2, pixel_count: p2 },
        ) => same_text(n1, n2) && *u1 == *u2 && *p1 == *p2,
        (
            ImportMappingParameter::Boolean { name: n1, value: v1 },
            ImportMappingParameter::Boolean { name: n2, value: v2 },
        ) => same_text(n1, n2) && *v1 == *v2,
        (
            ImportMappingParameter::Point { name: n1, in_unit_square: u1, state: s1 },
            ImportMappingParameter::Point { name: n2, in_unit_square: u2, state: s2 },
        ) => same_text(n1, n2) && *u1 == *u2 && *s1 == *s2,
        _ => false,
    }
}

fn same_parameters(a: &Vec<ImportMappingParameter>, b: &Vec<ImportMappingParameter>) -> (r: bool)
    ensures
        r == (parameter_values(a@) == parameter_values(b@)),
{
    if a.len() != b.len() {
        assert(parameter_values(a@).len() != parameter_values(b@).len());
        return false;
    }
    let mut i: usize = 0;
    while i < a.len()
        invariant
            i <= a@.len(),
            a@.len() == b@.len(),
            forall|j: int| 0 <= j < i ==> parameter_value(a@[j]) == parameter_value(b@[j]),
        decreases a.len() - i,
    {
        if !same_parameter(&a[i], &b[i]) {
            assert(parameter_values(a@)[i as int] != parameter_values(b@)[i as int]);
            return false;
        }
        i += 1;
    }
    assert(parameter_values(a@) =~= parameter_values(b@));
    true
}

fn same_skeleton(a: &SkeletonSpec, b: &SkeletonSpec) -> (r: bool)
    ensures
        r == (skeleton_value(*a) == skeleton_value(*b)),
{
    let ghost (x, y) = (skeleton_value(*a), skeleton_value(*b));
    if a.allow_hidden != b.allow_hidden || a.allow_absent != b.allow_absent || a.keypoints.len() != b.keypoints.len()
        || a.edges.len() != b.edges.len() {
        assert(x.keypoints.len() == a.keypoints@.len() && y.keypoints.len() == b.keypoints@.len());
        assert(x.edges.len() == a.edges@.len() && y.edges.len() == b.edges@.len());
        return false;
    }
    let mut i: usize = 0;
    while i < a.keypoints.len()
        invariant
            i <= a.keypoints@.len(),
            a.keypoints@.len() == b.keypoints@.len(),
            forall|j: int| 0 <= j < i ==> skeleton_value(*a).keypoints[j] == skeleton_value(*b).keypoints[j],
        decreases a.keypoints.len() - i,
    {
        if !same_text(&a.keypoints[i].name, &b.keypoints[i].name) || a.keypoints[i].required != b.keypoints[i].required {
            assert(skeleton_value(*a).keypoints[i as int] != skeleton_value(*b).keypoints[i as int]);
            return false;
        }
        i += 1;
    }
    let mut e: usize = 0;
    while e < a.edges.len()
        invariant
            e <= a.edges@.len(),
            a.edges@.len() == b.edges@.len(),
            forall|j: int| 0 <= j < e ==> skeleton_value(*a).edges[j] == skeleton_value(*b).edges[j],
        decreases a.edges.len() - e,
    {
        if !same_text(&a.edges[e].from, &b.edges[e].from) || !same_text(&a.edges[e].to, &b.edges[e].to) {
            assert(skeleton_value(*a).edges[e as int] != skeleton_value(*b).edges[e as int]);
            return false;
        }
        e += 1;
    }
    assert(skeleton_value(*a).keypoints =~= skeleton_value(*b).keypoints);
    assert(skeleton_value(*a).edges =~= skeleton_value(*b).edges);
    true
}

fn same_agreement(a: &Option<AgreementThreshold>, b: &Option<AgreementThreshold>) -> (r: bool)
    ensures
        r == (*a == *b),
{
    match (a, b) {
        (Some(x), Some(y)) => x.metric == y.metric && x.threshold_in_unit_range == y.threshold_in_unit_range,
        (None, None) => true,
        _ => false,
    }
}

fn same_review(a: &ReviewConfig, b: &ReviewConfig) -> (r: bool)
    ensures
        r == (*a == *b),
{
    a.required_reviews == b.required_reviews && a.workflow == b.workflow && a.allow_reviewer_corrections
        == b.allow_reviewer_corrections && same_agreement(&a.agreement_threshold, &b.agreement_threshold)
}

fn same_task(a: &TaskDefinition, b: &TaskDefinition) -> (r: bool)
    ensures
        r == (task_value(*a) == task_value(*b)),
{
    let skeletons = match (&a.skeleton, &b.skeleton) {
        (Some(x), Some(y)) => same_skeleton(x, y),
        (None, None) => true,
        _ => false,
    };
    let migrations = match (&a.manual_box_guide_migration, &b.manual_box_guide_migration) {
        (Some(x), Some(y)) => same_text(&x.guide_task_id, &y.guide_task_id) && x.allow_exclusion == y.allow_exclusion,
        (None, None) => true,
        _ => false,
    };
    same_text(&a.task_id, &b.task_id) && same_text(&a.name, &b.name) && a.annotation_type == b.annotation_type
        && same_strings(&a.class_ids, &b.class_ids) && same_text(&a.instructions.title, &b.instructions.title)
        && same_text(&a.instructions.example_text, &b.instructions.example_text) && same_strings(
        &a.instructions.example_images,
        &b.instructions.example_images,
    ) && skeletons && same_review(&a.review, &b.review) && same_strings(&a.prelabel_config_ids, &b.prelabel_config_ids)
        && migrations && a.enabled == b.enabled
}

fn same_categories(a: &Vec<ImportCategoryMappingRequest>, b: &Vec<ImportCategoryMappingRequest>) -> (r: bool)
    ensures
        r == (a@.map_values(|m: ImportCategoryMappingRequest| category_mapping_value(m)) == b@.map_values(
            |m: ImportCategoryMappingRequest| category_mapping_value(m),
        )),
{
    let ghost (x, y) = (
        a@.map_values(|m: ImportCategoryMappingRequest| category_mapping_value(m)),
        b@.map_values(|m: ImportCategoryMappingRequest| category_mapping_value(m)),
    );
    if a.len() != b.len() {
        assert(x.len() != y.len());
        return false;
    }
    let mut i: usize = 0;
    while i < a.len()
        invariant
            i <= a@.len(),
            a@.len() == b@.len(),
            x == a@.map_values(|m: ImportCategoryMappingRequest| category_mapping_value(m)),
            y == b@.map_values(|m: ImportCategoryMappingRequest| category_mapping_value(m)),
            forall|j: int| 0 <= j < i ==> x[j] == y[j],
        decreases a.len() - i,
    {
        let (m, n) = (&a[i], &b[i]);
        if !(same_text(&m.source_category_key, &n.source_category_key) && same_text(
            &m.source_category_id,
            &n.source_category_id,
        ) && same_text(&m.class_id, &n.class_id) && same_text(&m.class_name, &n.class_name) && same_text(
            &m.color,
            &n.color,
        ) && m.selected == n.selected) {
            assert(x[i as int] != y[i as int]);
            return false;
        }
        i += 1;
    }
    assert(x =~= y);
    true
}

fn same_geometry(a: &Vec<ImportGeometryMappingRequest>, b: &Vec<ImportGeometryMappingRequest>) -> (r: bool)
    ensures
        r == (a@.map_values(|m: ImportGeometryMappingRequest| geometry_mapping_value(m)) == b@.map_values(
            |m: ImportGeometryMappingRequest| geometry_mapping_value(m),
        )),
{
    let ghost (x, y) = (
        a@.map_values(|m: ImportGeometryMappingRequest| geometry_mapping_value(m)),
        b@.map_values(|m: ImportGeometryMappingRequest| geometry_mapping_value(m)),
    );
    if a.len() != b.len() {
        assert(x.len() != y.len());
        return false;
    }
    let mut i: usize = 0;
    while i < a.len()
        invariant
            i <= a@.len(),
            a@.len() == b@.len(),
            x == a@.map_values(|m: ImportGeometryMappingRequest| geometry_mapping_value(m)),
            y == b@.map_values(|m: ImportGeometryMappingRequest| geometry_mapping_value(m)),
            forall|j: int| 0 <= j < i ==> x[j] == y[j],
        decreases a.len() - i,
    {
        let (m, n) = (&a[i], &b[i]);
        if !(same_text(&m.source_category_key, &n.source_category_key) && m.source_geometry == n.source_geometry
            && m.target_geometry == n.target_geometry && m.policy == n.policy && same_parameters(
            &m.parameters,
            &n.parameters,
        )) {
            assert(x[i as int] != y[i as int]);
            return false;
        }
        i += 1;
    }
    assert(x =~= y);
    true
}

fn same_tasks(a: &Vec<ImportTaskMappingRequest>, b: &Vec<ImportTaskMappingRequest>) -> (r: bool)
    ensures
        r == (task_mapping_values(a@) == task_mapping_values(b@)),
{
    let ghost (x, y) = (task_mapping_values(a@), task_mapping_values(b@));
    if a.len() != b.len() {
        assert(x.len() != y.len());
        return false;
    }
    let mut i: usize = 0;
    while i < a.len()
        invariant
            i <= a@.len(),
            a@.len() == b@.len(),
            x == task_mapping_values(a@),
            y == task_mapping_values(b@),
            forall|j: int| 0 <= j < i ==> x[j] == y[j],
        decreases a.len() - i,
    {
        let (m, n) = (&a[i], &b[i]);
        if !(same_text(&m.source_category_key, &n.source_category_key) && same_task(&m.task, &n.task)
            && m.workflow_intent == n.workflow_intent) {
            assert(x[i as int] != y[i as int]);
            return false;
        }
        i += 1;
    }
    assert(x =~= y);
    true
}

fn same_skeleton_mappings(a: &Vec<ImportSkeletonMappingRequest>, b: &Vec<ImportSkeletonMappingRequest>) -> (r: bool)
    ensures
        r == (skeleton_mapping_values(a@) == skeleton_mapping_values(b@)),
{
    let ghost (x, y) = (skeleton_mapping_values(a@), skeleton_mapping_values(b@));
    if a.len() != b.len() {
        assert(x.len() != y.len());
        return false;
    }
    let mut i: usize = 0;
    while i < a.len()
        invariant
            i <= a@.len(),
            a@.len() == b@.len(),
            x == skeleton_mapping_values(a@),
            y == skeleton_mapping_values(b@),
            forall|j: int| 0 <= j < i ==> x[j] == y[j],
        decreases a.len() - i,
    {
        let (m, n) = (&a[i], &b[i]);
        if !(same_text(&m.source_category_key, &n.source_category_key) && same_text(
            &m.target_task_id,
            &n.target_task_id,
        ) && same_strings(&m.source_keypoint_names, &n.source_keypoint_names) && same_skeleton(&m.skeleton, &n.skeleton)
            && m.names_confirmed == n.names_confirmed) {
            assert(x[i as int] != y[i as int]);
            return false;
        }
        i += 1;
    }
    assert(x =~= y);
    true
}

fn same_acknowledgements(a: &Vec<ImportAcknowledgementRequest>, b: &Vec<ImportAcknowledgementRequest>) -> (r: bool)
    ensures
        r == (a@.map_values(|m: ImportAcknowledgementRequest| acknowledgement_value(m)) == b@.map_values(
            |m: ImportAcknowledgementRequest| acknowledgement_value(m),
        )),
{
    let ghost (x, y) = (
        a@.map_values(|m: ImportAcknowledgementRequest| acknowledgement_value(m)),
        b@.map_values(|m: ImportAcknowledgementRequest| acknowledgement_value(m)),
    );
    if a.len() != b.len() {
        assert(x.len() != y.len());
        return false;
    }
    let mut i: usize = 0;
    while i < a.len()
        invariant
            i <= a@.len(),
            a@.len() == b@.len(),
            x == a@.map_values(|m: ImportAcknowledgementRequest| acknowledgement_value(m)),
            y == b@.map_values(|m: ImportAcknowledgementRequest| acknowledgement_value(m)),
            forall|j: int| 0 <= j < i ==> x[j] == y[j],
        decreases a.len() - i,
    {
        let (m, n) = (&a[i], &b[i]);
        if !(same_text(&m.diagnostic_code, &n.diagnostic_code) && same_text(&m.policy, &n.policy) && m.affected_count
            == n.affected_count && m.acknowledged == n.acknowledged) {
            assert(x[i as int] != y[i as int]);
            return false;
        }
        i += 1;
    }
    assert(x =~= y);
    true
}

/// Whether two plan requests ask for the same plan: every mapping,
/// compatibility choice and acknowledgement equal, in the same order.
pub fn same_plan_request(a: &UpdateImportPlanRequest, b: &UpdateImportPlanRequest) -> (r: bool)
    ensures
        r == (request_value(*a) == request_value(*b)),
{
    same_categories(&a.category_mappings, &b.category_mappings) && same_geometry(&a.geometry_mappings, &b.geometry_mappings)
        && same_tasks(&a.task_mappings, &b.task_mappings) && same_skeleton_mappings(
        &a.skeleton_mappings,
        &b.skeleton_mappings,
    ) && a.compatibility == b.compatibility && same_acknowledgements(&a.acknowledgements, &b.acknowledgements)
}

/// The request the draft asks for now, as a plain value: what
/// `import_plan_request` builds.
pub open spec fn planned_request_value(
    d: ImportMappingDraft,
    diagnostics: Option<Seq<PreflightDiagnostic>>,
    acknowledged: Seq<Seq<char>>,
    accepted: Option<Seq<ImportAcknowledgementRequest>>,
) -> RequestValue {
    let cats = d.categories@;
    (
        cats.map_values(|c: ImportCategoryDraft| category_request(c)),
        geometry_requests(cats, cats.len()),
        origin_values(cats, task_origins(cats, cats.len())),
        skeleton_origin_values(cats, skeleton_origins(cats, cats.len())),
        d.compatibility,
        match diagnostics {
            Some(ds) => acknowledgement_requests(ds, acknowledged, accepted),
            None => Seq::<AcknowledgementValue>::empty(),
        },
    )
}

/// An accepted plan as the commit step reads it: its import, its hash,
/// what its report says it produces, whether the server would commit it,
/// and the request it was accepted for.
#[derive(Debug)]
pub struct CommitPlan {
    pub import_id: String,
    pub plan_hash: String,
    pub output: PlanOutput,
    pub commit_ready: bool,
    pub accepted_request: Option<UpdateImportPlanRequest>,
}

/// The request a plan was accepted for: the one the flow accepted, else
/// the plan's own.
pub open spec fn accepted_for(flow: ImportFlowState, plan: CommitPlan) -> Option<UpdateImportPlanRequest> {
    match flow.accepted_plan_request {
        Some(r) => Some(r),
        None => plan.accepted_request,
    }
}

/// The plan is current: it was accepted for exactly the request the
/// mappings would send now.
pub open spec fn plan_is_current(flow: ImportFlowState, plan: Option<CommitPlan>, diagnostics: Option<Seq<PreflightDiagnostic>>) -> bool {
    match plan {
        Some(p) => match accepted_for(flow, p) {
            Some(acc) => request_value(acc) == planned_request_value(
                flow.mapping,
                diagnostics,
                string_values(flow.acknowledgements@),
                match flow.accepted_plan_request {
                    Some(r) => Some(r.acknowledgements@),
                    None => None,
                },
            ),
            None => false,
        },
        None => false,
    }
}

impl ImportFlowState {
    /// Whether the accepted plan still matches the mappings: there is a
    /// plan, and the request it was accepted for equals, value by value, the
    /// request the mappings would send now.
    pub fn import_plan_is_current(&self, plan: Option<&CommitPlan>, diagnostics: Option<&Vec<PreflightDiagnostic>>) -> (r: bool)
        ensures
            r == plan_is_current(
                *self,
                match plan {
                    Some(p) => Some(*p),
                    None => None,
                },
                match diagnostics {
                    Some(d) => Some(d@),
                    None => None,
                },
            ),
    {
        let p = match plan {
            Some(p) => p,
            None => return false,
        };
        let accepted = match &self.accepted_plan_request {
            Some(r) => r,
            None => match &p.accepted_request {
                Some(r) => r,
                None => return false,
            },
        };
        let accepted_acks = match &self.accepted_plan_request {
            Some(r) => Some(&r.acknowledgements),
            None => None,
        };
        let now = import_plan_request(&self.mapping, diagnostics, &self.acknowledgements, accepted_acks);
        proof {
            let ds = match diagnostics {
                Some(d) => Some(d@),
                None => None::<Seq<PreflightDiagnostic>>,
            };
            let acc = match &self.accepted_plan_request {
                Some(r) => Some(r.acknowledgements@),
                None => None::<Seq<ImportAcknowledgementRequest>>,
            };
            assert(accepted_view(accepted_acks) == acc);
            assert(request_value(now) == planned_request_value(self.mapping, ds, string_values(self.acknowledgements@), acc));
        }
        same_plan_request(accepted, &now)
    }

    /// The commit request for an accepted plan: its import and plan hash,
    /// when the plan is current, covers every included category's outputs
    /// and every mapping is complete; else the reason commit is refused.
    pub fn commit_import_request(&self, plan: Option<&CommitPlan>, diagnostics: Option<&Vec<PreflightDiagnostic>>) -> (r: Result<
        (String, String),
        String,
    >)
        requires
            self.mapping.categories@.len() <= usize::MAX / 2,
        ensures
            ({
                let pl = match plan {
                    Some(p) => Some(*p),
                    None => None,
                };
                let ready = plan_is_current(
                    *self,
                    pl,
                    match diagnostics {
                        Some(d) => Some(d@),
                        None => None,
                    },
                ) && (match pl {
                    Some(p) => {
                        let (s, t) = required_outputs(self.mapping.categories@, self.mapping.categories@.len());
                        s > 0 && p.output.classes == s && p.output.tasks >= t
                    },
                    None => false,
                }) && severity_count(add_all_unique(Seq::empty(), draft_candidates(self.mapping)), ImportMappingIssueSeverity::Error)
                    == 0;
                match r {
                    Ok((import_id, plan_hash)) => ready && import_id@ == pl->0.import_id@ && plan_hash@ == pl->0.plan_hash@,
                    Err(m) => !ready && m@
                        == "Mappings changed or the accepted plan omits discovered categories/tasks. Save exact source mappings and wait for a complete matching plan before committing."@,
                }
            }),
    {
        let covers = import_plan_covers_all_categories(
            &self.mapping.categories,
            match plan {
                Some(p) => Some(p.output),
                None => None,
            },
        );
        if !self.import_plan_is_current(plan, diagnostics) || !covers || !import_mappings_complete(&self.mapping) {
            return Err(
                text::to_string(
                    "Mappings changed or the accepted plan omits discovered categories/tasks. Save exact source mappings and wait for a complete matching plan before committing.",
                ),
            );
        }
        match plan {
            Some(p) => Ok((p.import_id.clone(), p.plan_hash.clone())),
            None => Err(text::to_string("Mappings changed or the accepted plan omits discovered categories/tasks. Save exact source mappings and wait for a complete matching plan before committing.")),
        }
    }
}

/// The plan covers every included category's outputs.
pub open spec fn plan_covers(flow: ImportFlowState, plan: Option<CommitPlan>) -> bool {
    match plan {
        Some(p) => {
            let (s, t) = required_outputs(flow.mapping.categories@, flow.mapping.categories@.len());
            s > 0 && p.output.classes == s && p.output.tasks >= t
        },
        None => false,
    }
}

/// The screen the wizard settles on while a job awaits a decision on its
/// plan: the ready screen when the server would commit the plan, it is
/// current, covers every output and the mappings are valid; otherwise the
/// preflight screen.  Outside that situation the screen stays.
pub open spec fn decision_screen(
    flow: ImportFlowState,
    screen: ImportScreen,
    lifecycle: Option<ImportLifecycle>,
    plan_pending: bool,
    plan: Option<CommitPlan>,
    diagnostics: Option<Seq<PreflightDiagnostic>>,
) -> ImportScreen {
    if plan_pending || lifecycle != Some(ImportLifecycle::AwaitingDecision) || plan is None || !(screen
        == ImportScreen::Preflight || screen == ImportScreen::Ready) {
        screen
    } else if plan->0.commit_ready && plan_is_current(flow, plan, diagnostics) && severity_count(
        add_all_unique(Seq::empty(), draft_candidates(flow.mapping)),
        ImportMappingIssueSeverity::Error,
    ) == 0 && plan_covers(flow, plan) {
        ImportScreen::Ready
    } else {
        ImportScreen::Preflight
    }
}

impl ImportFlowState {
    /// The screen to show while the job awaits a decision on its plan.
    pub fn sync_import_decision_screen(
        &self,
        screen: ImportScreen,
        lifecycle: Option<ImportLifecycle>,
        plan_pending: bool,
        plan: Option<&CommitPlan>,
        diagnostics: Option<&Vec<PreflightDiagnostic>>,
    ) -> (r: ImportScreen)
        requires
            self.mapping.categories@.len() <= usize::MAX / 2,
        ensures
            r == decision_screen(
                *self,
                screen,
                lifecycle,
                plan_pending,
                match plan {
                    Some(p) => Some(*p),
                    None => None,
                },
                match diagnostics {
                    Some(d) => Some(d@),
                    None => None,
                },
            ),
    {
        let p = match plan {
            Some(p) => p,
            None => return screen,
        };
        let awaiting = match lifecycle {
            Some(l) => l == ImportLifecycle::AwaitingDecision,
            None => false,
        };
        if plan_pending || !awaiting || !(screen == ImportScreen::Preflight || screen == ImportScreen::Ready) {
            return screen;
        }
        let ready = p.commit_ready && self.import_plan_is_current(plan, diagnostics) && import_mappings_complete(&self.mapping)
            && import_plan_covers_all_categories(&self.mapping.categories, Some(p.output));
        if ready {
            ImportScreen::Ready
        } else {
            ImportScreen::Preflight
        }
    }
}

/// A plan update to send: the import, the request and its idempotency key.
#[derive(Debug)]
pub struct PlanUpdate {
    pub import_id: String,
    pub body: UpdateImportPlanRequest,
    pub idempotency_key: String,
}

/// The message shown when a plan update is asked for with incomplete
/// mappings.
pub open spec fn incomplete_mappings_message() -> Seq<char> {
    "Every discovered category needs one complete, uniquely keyed mapping."@
}

/// What the plan step shows and waits for: whether a request is under way,
/// the last error, the plan the server returned with its diagnostics and
/// the cursor of their next page, and the request sent and not yet
/// answered.
#[derive(Debug)]
pub struct PlanRequestState {
    pub busy: bool,
    pub error: Option<String>,
    pub plan: Option<CommitPlan>,
    pub diagnostics: Vec<ImportDiagnosticSummary>,
    pub diagnostics_cursor: Option<String>,
    pub pending_plan_request: Option<UpdateImportPlanRequest>,
}

impl ImportFlowState {
    /// Saves the mappings as a plan update. Without an import nothing
    /// happens. With incomplete mappings the update is refused and the
    /// plan step shows why. Otherwise the request the mappings make (see
    /// `import_plan_request`) is sent under a fresh `plan` key: the accepted
    /// request, the shown plan, its diagnostics and their cursor are
    /// dropped, the step turns busy and the request becomes the pending
    /// one.
    pub fn update_import_plan(
        &mut self,
        step: &mut PlanRequestState,
        import_id: Option<&str>,
        diagnostics: Option<&Vec<PreflightDiagnostic>>,
        keys: &mut ImportKeys,
        request_id: u64,
    ) -> (r: Option<PlanUpdate>)
        requires
            old(self).mapping.categories@.len() <= usize::MAX / 2,
            old(keys).issued < u64::MAX,
        ensures
            ({
                let complete = severity_count(
                    add_all_unique(Seq::empty(), draft_candidates(old(self).mapping)),
                    ImportMappingIssueSeverity::Error,
                ) == 0;
                match import_id {
                    None => {
                        &&& r is None
                        &&& *final(self) == *old(self)
                        &&& *final(keys) == *old(keys)
                        &&& *final(step) == *old(step)
                    },
                    Some(id) => if !complete {
                        &&& r is None
                        &&& *final(self) == *old(self)
                        &&& *final(keys) == *old(keys)
                        &&& final(step).error matches Some(m) && m@ == incomplete_mappings_message()
                        &&& final(step).busy == old(step).busy
                        &&& final(step).plan == old(step).plan
                        &&& final(step).diagnostics == old(step).diagnostics
                        &&& final(step).diagnostics_cursor == old(step).diagnostics_cursor
                        &&& final(step).pending_plan_request == old(step).pending_plan_request
                    } else {
                        &&& r matches Some(u) && u.import_id@ == id@ && request_value(u.body) == planned_request_value(
                            old(self).mapping,
                            match diagnostics {
                                Some(d) => Some(d@),
                                None => None,
                            },
                            string_values(old(self).acknowledgements@),
                            match old(self).accepted_plan_request {
                                Some(a) => Some(a.acknowledgements@),
                                None => None,
                            },
                        ) && u.idempotency_key@ == import_key_text("plan"@, old(keys).session, old(keys).issued, request_id)
                        &&& r matches Some(u) && final(step).pending_plan_request matches Some(p)
                            && request_value(p) == request_value(u.body)
                        &&& final(step).busy
                        &&& final(step).error == old(step).error
                        &&& final(step).plan is None
                        &&& final(step).diagnostics@.len() == 0
                        &&& final(step).diagnostics_cursor is None
                        &&& final(keys).session == old(keys).session
                        &&& final(keys).issued == old(keys).issued + 1
                        &&& *final(self) == (ImportFlowState { accepted_plan_request: None, ..*old(self) })
                    },
                }
            }),
    {
        let id = match import_id {
            Some(id) => id,
            None => return None,
        };
        if !import_mappings_complete(&self.mapping) {
            step.error = Some(text::to_string("Every discovered category needs one complete, uniquely keyed mapping."));
            return None;
        }
        let accepted_acks = match &self.accepted_plan_request {
            Some(r) => Some(&r.acknowledgements),
            None => None,
        };
        let body = import_plan_request(&self.mapping, diagnostics, &self.acknowledgements, accepted_acks);
        // The pending copy is built the same way, so it holds the same request.
        let pending = import_plan_request(&self.mapping, diagnostics, &self.acknowledgements, accepted_acks);
        proof {
            let ds = match diagnostics {
                Some(d) => Some(d@),
                None => None::<Seq<PreflightDiagnostic>>,
            };
            let acc = match &self.accepted_plan_request {
                Some(r) => Some(r.acknowledgements@),
                None => None::<Seq<ImportAcknowledgementRequest>>,
            };
            assert(accepted_view(accepted_acks) == acc);
            assert(request_value(body) == planned_request_value(self.mapping, ds, string_values(self.acknowledgements@), acc));
        }
        step.busy = true;
        step.plan = None;
        step.diagnostics = Vec::new();
        step.diagnostics_cursor = None;
        step.pending_plan_request = Some(pending);
        self.accepted_plan_request = None;
        let idempotency_key = keys.import_key("plan", request_id);
        proof {
            reveal_strlit("plan");
        }
        Some(PlanUpdate { import_id: text::to_string(id), body, idempotency_key })
    }
}

} // verus!
