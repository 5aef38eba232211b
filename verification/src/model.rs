//! The dataset configuration model that the admin tools edit and validate.
//!
//! Identifiers are plain strings.  Numeric tuning values that the client only
//! range-checks (agreement thresholds, confidence levels, balance ratios) are
//! carried as the outcome of that range check, computed where the number lives.
use vstd::prelude::*;

verus! {

/// The geometry a labeling workflow produces.
#[derive(Clone, Copy, Debug, PartialEq, Eq, Structural)]
pub enum AnnotationType {
    BoundingBox,
    Skeleton,
}

/// How submitted work is reviewed.
#[derive(Clone, Copy, Debug, PartialEq, Eq, Structural)]
pub enum ReviewWorkflow {
    NoReview,
    Approval,
    IndependentAgreement,
}

/// The agreement measure used by independent-agreement review.
#[derive(Clone, Copy, Debug, PartialEq, Eq, Structural)]
pub enum AgreementMetric {
    Iou,
    KeypointMeanDistance,
}

/// A dataset role granted to a user.
#[derive(Clone, Copy, Debug, PartialEq, Eq, Structural)]
pub enum DatasetRole {
    Annotator,
    Reviewer,
    Adjudicator,
    DataAdmin,
}

/// The workflow status of one image-task pair.
#[derive(Clone, Copy, Debug, PartialEq, Eq, Structural)]
pub enum TaskStatus {
    Pending,
    InProgress,
    Submitted,
    Completed,
    NeedsCorrection,
    AdjudicationRequired,
}

/// An object class annotators can label.
#[derive(Debug)]
pub struct LabelClass {
    pub class_id: String,
    pub name: String,
    pub color: String,
    pub description: Option<String>,
}

/// One named keypoint of a skeleton.
#[derive(Debug)]
pub struct KeypointSpec {
    pub name: String,
    pub required: bool,
}

/// A connection between two keypoints, by name.
#[derive(Debug)]
pub struct SkeletonEdge {
    pub from: String,
    pub to: String,
}

/// The keypoint layout of a skeleton workflow.
#[derive(Debug)]
pub struct SkeletonSpec {
    pub keypoints: Vec<KeypointSpec>,
    pub edges: Vec<SkeletonEdge>,
    pub allow_hidden: bool,
    pub allow_absent: bool,
}

/// An agreement threshold; `threshold_in_unit_range` records whether the
/// threshold value is a finite number between 0 and 1.
#[derive(Debug)]
pub struct AgreementThreshold {
    pub metric: AgreementMetric,
    pub threshold_in_unit_range: bool,
}

/// Review settings of a workflow.
#[derive(Debug)]
pub struct ReviewConfig {
    pub required_reviews: u32,
    pub workflow: ReviewWorkflow,
    pub allow_reviewer_corrections: bool,
    pub agreement_threshold: Option<AgreementThreshold>,
}

/// Annotator-facing instructions of a workflow.
#[derive(Debug)]
pub struct TutorialContent {
    pub title: String,
    pub example_text: String,
    pub example_images: Vec<String>,
}

/// A manual migration of imported boxes into skeleton work.
#[derive(Debug)]
pub struct ManualBoxGuideMigration {
    pub guide_task_id: String,
    pub allow_exclusion: bool,
}

/// A labeling workflow: one annotation type for one class.
#[derive(Debug)]
pub struct TaskDefinition {
    pub task_id: String,
    pub name: String,
    pub annotation_type: AnnotationType,
    pub class_ids: Vec<String>,
    pub instructions: TutorialContent,
    pub skeleton: Option<SkeletonSpec>,
    pub review: ReviewConfig,
    pub prelabel_config_ids: Vec<String>,
    pub manual_box_guide_migration: Option<ManualBoxGuideMigration>,
    pub enabled: bool,
}

/// The model behind a prelabel source.
#[derive(Debug)]
pub struct ModelSpec {
    pub model_id: String,
    pub display_name: String,
    pub location: String,
}

/// A prelabel source; the two range flags record whether the confidence
/// threshold, and the overlap-suppression IoU where one is set, are finite
/// numbers between 0 and 1.
#[derive(Debug)]
pub struct PrelabelConfig {
    pub config_id: String,
    pub name: String,
    pub model: ModelSpec,
    pub available_to_annotators: bool,
    pub confidence_in_unit_range: bool,
    pub overlap_iou_in_unit_range: Option<bool>,
}

/// Assignment balance limits; `max_ratio_valid` records whether the maximum
/// class ratio is a finite number of at least 1.
#[derive(Debug)]
pub struct ImbalanceConfig {
    pub max_ratio_valid: bool,
    pub enforce: bool,
}

/// The roles one user holds on a dataset, when they were assigned and by
/// whom.
#[derive(Debug)]
pub struct DatasetRoleAssignment {
    pub dataset_id: String,
    pub user_id: String,
    pub roles: Vec<DatasetRole>,
    pub assigned_at: u64,
    pub assigned_by: Option<String>,
}

/// The editable configuration of a dataset.
#[derive(Debug)]
pub struct DatasetMetadata {
    pub dataset_id: String,
    pub name: String,
    pub image_roots: Vec<String>,
    pub label_classes: Vec<LabelClass>,
    pub tasks: Vec<TaskDefinition>,
    pub prelabel_configs: Vec<PrelabelConfig>,
    pub imbalance: Option<ImbalanceConfig>,
    pub role_assignments: Vec<DatasetRoleAssignment>,
}

impl Clone for LabelClass {
    fn clone(&self) -> (res: Self)
        ensures
            res == *self,
    {
        LabelClass {
            class_id: self.class_id.clone(),
            name: self.name.clone(),
            color: self.color.clone(),
            description: match &self.description {
                Some(d) => Some(d.clone()),
                None => None,
            },
        }
    }
}

impl Clone for KeypointSpec {
    fn clone(&self) -> (res: Self)
        ensures
            res == *self,
    {
        KeypointSpec { name: self.name.clone(), required: self.required }
    }
}

impl Clone for SkeletonEdge {
    fn clone(&self) -> (res: Self)
        ensures
            res == *self,
    {
        SkeletonEdge { from: self.from.clone(), to: self.to.clone() }
    }
}

/// A skeleton as a plain value: its keypoints (name, required), its edges
/// (from, to), and whether hidden and absent keypoints are allowed.
pub struct SkeletonValue {
    pub keypoints: Seq<(Seq<char>, bool)>,
    pub edges: Seq<(Seq<char>, Seq<char>)>,
    pub allow_hidden: bool,
    pub allow_absent: bool,
}

/// The plain value of a skeleton specification.
pub open spec fn skeleton_value(s: SkeletonSpec) -> SkeletonValue {
    SkeletonValue {
        keypoints: s.keypoints@.map_values(|k: KeypointSpec| (k.name@, k.required)),
        edges: s.edges@.map_values(|e: SkeletonEdge| (e.from@, e.to@)),
        allow_hidden: s.allow_hidden,
        allow_absent: s.allow_absent,
    }
}

/// A workflow as a plain value.
pub struct TaskValue {
    pub task_id: Seq<char>,
    pub name: Seq<char>,
    pub annotation_type: AnnotationType,
    pub class_ids: Seq<Seq<char>>,
    pub title: Seq<char>,
    pub example_text: Seq<char>,
    pub example_images: Seq<Seq<char>>,
    pub skeleton: Option<SkeletonValue>,
    pub review: ReviewConfig,
    pub prelabel_config_ids: Seq<Seq<char>>,
    pub migration: Option<(Seq<char>, bool)>,
    pub enabled: bool,
}

/// The plain values of a list of strings.
pub open spec fn string_values(v: Seq<String>) -> Seq<Seq<char>> {
    v.map_values(|s: String| s@)
}

/// The plain value of a workflow.
pub open spec fn task_value(t: TaskDefinition) -> TaskValue {
    TaskValue {
        task_id: t.task_id@,
        name: t.name@,
        annotation_type: t.annotation_type,
        class_ids: string_values(t.class_ids@),
        title: t.instructions.title@,
        example_text: t.instructions.example_text@,
        example_images: string_values(t.instructions.example_images@),
        skeleton: match t.skeleton {
            Some(s) => Some(skeleton_value(s)),
            None => None,
        },
        review: t.review,
        prelabel_config_ids: string_values(t.prelabel_config_ids@),
        migration: match t.manual_box_guide_migration {
            Some(m) => Some((m.guide_task_id@, m.allow_exclusion)),
            None => None,
        },
        enabled: t.enabled,
    }
}

/// A copy of a list of strings.
pub fn copy_strings(v: &Vec<String>) -> (r: Vec<String>)
    ensures
        string_values(r@) == string_values(v@),
{
    let mut r: Vec<String> = Vec::new();
    let mut i: usize = 0;
    while i < v.len()
        invariant
            i <= v@.len(),
            string_values(r@) =~= string_values(v@).subrange(0, i as int),
        decreases v.len() - i,
    {
        let ghost before = r@;
        r.push(v[i].clone());
        assert(string_values(r@) =~= string_values(before).push(v@[i as int]@));
        i += 1;
    }
    r
}

/// A copy of a skeleton specification.
pub fn copy_skeleton(s: &SkeletonSpec) -> (r: SkeletonSpec)
    ensures
        skeleton_value(r) == skeleton_value(*s),
{
    let mut keypoints: Vec<KeypointSpec> = Vec::new();
    let mut i: usize = 0;
    while i < s.keypoints.len()
        invariant
            i <= s.keypoints@.len(),
            keypoints@.len() == i,
            forall|j: int| 0 <= j < i ==> #[trigger] keypoints@[j] == s.keypoints@[j],
        decreases s.keypoints.len() - i,
    {
        keypoints.push(s.keypoints[i].clone());
        i += 1;
    }
    let mut edges: Vec<SkeletonEdge> = Vec::new();
    let mut j: usize = 0;
    while j < s.edges.len()
        invariant
            j <= s.edges@.len(),
            edges@.len() == j,
            forall|x: int| 0 <= x < j ==> #[trigger] edges@[x] == s.edges@[x],
        decreases s.edges.len() - j,
    {
        edges.push(s.edges[j].clone());
        j += 1;
    }
    let r = SkeletonSpec { keypoints, edges, allow_hidden: s.allow_hidden, allow_absent: s.allow_absent };
    assert(skeleton_value(r).keypoints =~= skeleton_value(*s).keypoints);
    assert(skeleton_value(r).edges =~= skeleton_value(*s).edges);
    r
}

/// A copy of a workflow.
pub fn copy_task(t: &TaskDefinition) -> (r: TaskDefinition)
    ensures
        task_value(r) == task_value(*t),
{
    TaskDefinition {
        task_id: t.task_id.clone(),
        name: t.name.clone(),
        annotation_type: t.annotation_type,
        class_ids: copy_strings(&t.class_ids),
        instructions: TutorialContent {
            title: t.instructions.title.clone(),
            example_text: t.instructions.example_text.clone(),
            example_images: copy_strings(&t.instructions.example_images),
        },
        skeleton: match &t.skeleton {
            Some(s) => Some(copy_skeleton(s)),
            None => None,
        },
        review: ReviewConfig {
            required_reviews: t.review.required_reviews,
            workflow: t.review.workflow,
            allow_reviewer_corrections: t.review.allow_reviewer_corrections,
            agreement_threshold: match &t.review.agreement_threshold {
                Some(a) => Some(AgreementThreshold { metric: a.metric, threshold_in_unit_range: a.threshold_in_unit_range }),
                None => None,
            },
        },
        prelabel_config_ids: copy_strings(&t.prelabel_config_ids),
        manual_box_guide_migration: match &t.manual_box_guide_migration {
            Some(m) => Some(ManualBoxGuideMigration { guide_task_id: m.guide_task_id.clone(), allow_exclusion: m.allow_exclusion }),
            None => None,
        },
        enabled: t.enabled,
    }
}

} // verus!
