//! Building and normalizing class workflows.
use vstd::prelude::*;
use crate::ids;
use crate::model::{
    AgreementMetric, AgreementThreshold, AnnotationType, DatasetMetadata, KeypointSpec,
    LabelClass, PrelabelConfig, ReviewConfig, ReviewWorkflow, SkeletonEdge, SkeletonSpec, TaskDefinition,
    TutorialContent,
};
use crate::text;

verus! {

impl ReviewConfig {
    /// The review settings of a new workflow: no review step.
    pub open spec fn spec_default() -> ReviewConfig {
        ReviewConfig {
            required_reviews: 0,
            workflow: ReviewWorkflow::NoReview,
            allow_reviewer_corrections: false,
            agreement_threshold: None,
        }
    }
}

impl Default for ReviewConfig {
    fn default() -> (r: Self)
        ensures
            r == ReviewConfig::spec_default(),
    {
        ReviewConfig {
            required_reviews: 0,
            workflow: ReviewWorkflow::NoReview,
            allow_reviewer_corrections: false,
            agreement_threshold: None,
        }
    }
}

/// The one-keypoint skeleton every new skeleton workflow starts from.
pub open spec fn is_starter_skeleton(s: SkeletonSpec) -> bool {
    &&& s.keypoints@.len() == 1
    &&& s.keypoints@[0].name@ == "keypoint_1"@
    &&& s.keypoints@[0].required
    &&& s.edges@.len() == 0
    &&& !s.allow_hidden
    &&& !s.allow_absent
}

/// The starter skeleton: a single required keypoint named `keypoint_1`.
pub fn starter_skeleton_spec() -> (s: SkeletonSpec)
    ensures
        is_starter_skeleton(s),
{
    let mut keypoints: Vec<KeypointSpec> = Vec::new();
    keypoints.push(KeypointSpec { name: text::to_string("keypoint_1"), required: true });
    SkeletonSpec { keypoints, edges: Vec::new(), allow_hidden: false, allow_absent: false }
}

/// The task ID of the class workflow for `class_id` and `annotation_type`.
pub open spec fn workflow_task_id(class_id: Seq<char>, annotation_type: AnnotationType) -> Seq<
    char,
> {
    match annotation_type {
        AnnotationType::BoundingBox => "bounding_box:"@ + class_id,
        AnnotationType::Skeleton => "skeleton:"@ + class_id,
    }
}

/// The display name of the class workflow for a class name.
pub open spec fn workflow_task_name(class_name: Seq<char>, annotation_type: AnnotationType) -> Seq<
    char,
> {
    match annotation_type {
        AnnotationType::BoundingBox => class_name + " bounding boxes"@,
        AnnotationType::Skeleton => class_name + " skeletons"@,
    }
}

/// `task` is the class workflow that `workflow_task_for_class` builds.
pub open spec fn is_class_workflow(
    task: TaskDefinition,
    class: LabelClass,
    annotation_type: AnnotationType,
) -> bool {
    &&& task.task_id@ == workflow_task_id(class.class_id@, annotation_type)
    &&& task.name@ == workflow_task_name(class.name@, annotation_type)
    &&& task.annotation_type == annotation_type
    &&& task.class_ids@.len() == 1
    &&& task.class_ids@[0]@ == class.class_id@
    &&& task.instructions.title@ == "Label every visible object"@
    &&& task.instructions.example_text@
        == "Annotate every visible instance of the configured class."@
    &&& task.instructions.example_images@.len() == 0
    &&& match annotation_type {
        AnnotationType::BoundingBox => task.skeleton is None,
        AnnotationType::Skeleton => task.skeleton matches Some(s) && is_starter_skeleton(s),
    }
    &&& task.review == ReviewConfig::spec_default()
    &&& task.prelabel_config_ids@.len() == 0
    &&& task.manual_box_guide_migration is None
    &&& task.enabled
}

/// The enabled workflow of one annotation type for one class.
pub fn workflow_task_for_class(class: &LabelClass, annotation_type: AnnotationType) -> (task:
    TaskDefinition)
    ensures
        is_class_workflow(task, *class, annotation_type),
{
    let (task_id, name) = match annotation_type {
        AnnotationType::BoundingBox => (
            text::concat2("bounding_box:", class.class_id.as_str()),
            text::concat2(class.name.as_str(), " bounding boxes"),
        ),
        AnnotationType::Skeleton => (
            text::concat2("skeleton:", class.class_id.as_str()),
            text::concat2(class.name.as_str(), " skeletons"),
        ),
    };
    let skeleton = match annotation_type {
        AnnotationType::BoundingBox => None,
        AnnotationType::Skeleton => Some(starter_skeleton_spec()),
    };
    let mut class_ids: Vec<String> = Vec::new();
    class_ids.push(class.class_id.clone());
    TaskDefinition {
        task_id,
        name,
        annotation_type,
        class_ids,
        instructions: TutorialContent {
            title: text::to_string("Label every visible object"),
            example_text: text::to_string(
                "Annotate every visible instance of the configured class.",
            ),
            example_images: Vec::new(),
        },
        skeleton,
        review: ReviewConfig::default(),
        prelabel_config_ids: Vec::new(),
        manual_box_guide_migration: None,
        enabled: true,
    }
}

/// Some task of `config` has `annotation_type` and references `class_id`.
pub open spec fn has_task(
    tasks: Seq<TaskDefinition>,
    class_id: Seq<char>,
    annotation_type: AnnotationType,
) -> bool {
    exists|i: int|
        0 <= i < tasks.len() && #[trigger] tasks[i].annotation_type == annotation_type
            && ids::views(tasks[i].class_ids@).contains(class_id)
}

/// Whether the configuration already has a workflow of `annotation_type` for
/// `class_id`, enabled or not.
pub fn has_task_for_class(
    config: &DatasetMetadata,
    class_id: &str,
    annotation_type: &AnnotationType,
) -> (r: bool)
    ensures
        r == has_task(config.tasks@, class_id@, *annotation_type),
{
    let mut i: usize = 0;
    while i < config.tasks.len()
        invariant
            i <= config.tasks@.len(),
            forall|j: int|
                0 <= j < i ==> !(#[trigger] config.tasks@[j].annotation_type == *annotation_type
                    && ids::views(config.tasks@[j].class_ids@).contains(class_id@)),
        decreases config.tasks.len() - i,
    {
        let task = &config.tasks[i];
        if task.annotation_type == *annotation_type && ids::contains_string(
            &task.class_ids,
            class_id,
        ) {
            return true;
        }
        i += 1;
    }
    false
}

/// Adds the class workflow for `class` unless one of that type already
/// references the class.
pub fn add_task_for_class(
    config: &mut DatasetMetadata,
    class: &LabelClass,
    annotation_type: AnnotationType,
)
    ensures
        has_task(old(config).tasks@, class.class_id@, annotation_type) ==> *final(config)
            == *old(config),
        !has_task(old(config).tasks@, class.class_id@, annotation_type) ==> {
            &&& final(config).tasks@.len() == old(config).tasks@.len() + 1
            &&& final(config).tasks@.drop_last() == old(config).tasks@
            &&& is_class_workflow(final(config).tasks@.last(), *class, annotation_type)
            &&& *final(config) == (DatasetMetadata { tasks: final(config).tasks, ..*old(config) })
        },
        has_task(final(config).tasks@, class.class_id@, annotation_type),
{
    if has_task_for_class(config, class.class_id.as_str(), &annotation_type) {
        return;
    }
    let task = workflow_task_for_class(class, annotation_type);
    config.tasks.push(task);
    assert(config.tasks@.drop_last() =~= old(config).tasks@);
    proof {
        let last = config.tasks@.len() - 1;
        assert(ids::views(config.tasks@[last].class_ids@)[0] == class.class_id@);
    }
}


/// The candidate class ID number `k`: `object`, then `object_2`, `object_3`, ...
pub open spec fn class_id_candidate(k: nat) -> Seq<char> {
    if k == 1 {
        "object"@
    } else {
        ids::numbered("object"@, k)
    }
}

/// The class IDs of a list of classes.
pub open spec fn class_ids_of(labels: Seq<LabelClass>) -> Seq<Seq<char>> {
    labels.map_values(|l: LabelClass| l.class_id@)
}

proof fn lemma_class_candidates_distinct(a: nat, b: nat)
    requires
        a >= 1,
        b >= 1,
        class_id_candidate(a) == class_id_candidate(b),
    ensures
        a == b,
{
    reveal_strlit("object");
    reveal_strlit("_");
    if a != 1 && b != 1 {
        ids::lemma_numbered_injective("object"@, a, b);
    } else if a != 1 {
        text::lemma_decimal_nonempty(a);
        assert(class_id_candidate(a).len() >= 8);
    } else if b != 1 {
        text::lemma_decimal_nonempty(b);
        assert(class_id_candidate(b).len() >= 8);
    }
}

/// The first free class ID among `object`, `object_2`, `object_3`, ...
pub fn next_class_id(config: &DatasetMetadata) -> (r: String)
    requires
        config.label_classes@.len() < usize::MAX,
    ensures
        exists|k: nat|
            k >= 1 && r@ == class_id_candidate(k) && !class_ids_of(config.label_classes@).contains(
                #[trigger] class_id_candidate(k),
            ) && forall|j: nat|
                1 <= j < k ==> class_ids_of(config.label_classes@).contains(
                    #[trigger] class_id_candidate(j),
                ),
{
    let ghost vals = class_ids_of(config.label_classes@);
    let ghost cand = |k: int| class_id_candidate(k as nat);
    proof {
        assert forall|a: int, b: int|
            1 <= a <= vals.len() + 1 && 1 <= b <= vals.len() + 1 && #[trigger] cand(a)
                == #[trigger] cand(b) implies a == b by {
            lemma_class_candidates_distinct(a as nat, b as nat);
        }
        ids::lemma_free_candidate(vals, cand);
    }
    let ghost free = choose|k: int| 1 <= k <= vals.len() + 1 && !vals.contains(#[trigger] cand(k));
    assert(cand(free) == class_id_candidate(free as nat));
    let mut k: usize = 1;
    loop
        invariant
            1 <= k <= free,
            free <= vals.len() + 1,
            vals == class_ids_of(config.label_classes@),
            vals.len() == config.label_classes@.len(),
            !vals.contains(class_id_candidate(free as nat)),
            config.label_classes@.len() < usize::MAX,
            forall|j: nat| 1 <= j < k ==> vals.contains(#[trigger] class_id_candidate(j)),
        decreases free - k,
    {
        let candidate = if k == 1 {
            text::to_string("object")
        } else {
            let mut c = text::to_string("object_");
            text::push_decimal(&mut c, k as u64);
            assert(c@ =~= ids::numbered("object"@, k as nat)) by {
                reveal_strlit("object_");
                reveal_strlit("object");
                reveal_strlit("_");
            }
            c
        };
        assert(candidate@ == class_id_candidate(k as nat)) by {
            reveal_strlit("object");
        }
        let mut taken = false;
        let mut i: usize = 0;
        while i < config.label_classes.len()
            invariant
                i <= config.label_classes@.len(),
                vals == class_ids_of(config.label_classes@),
                vals.len() == config.label_classes@.len(),
                taken == exists|j: int| 0 <= j < i && vals[j] == candidate@,
            decreases config.label_classes.len() - i,
        {
            assert(vals[i as int] == config.label_classes@[i as int].class_id@);
            if config.label_classes[i].class_id == candidate {
                taken = true;
            }
            i += 1;
        }
        if !taken {
            assert(!vals.contains(candidate@));
            assert(!vals.contains(class_id_candidate(k as nat)));
            return candidate;
        }
        assert(vals.contains(class_id_candidate(k as nat)));
        assert(k != free);
        k += 1;
    }
}

/// The six colors new classes cycle through.
pub open spec fn class_color(index: nat) -> Seq<char>
    recommends
        index >= 1,
{
    let slot = (index - 1) as nat % 6;
    if slot == 0 {
        "#5eead4"@
    } else if slot == 1 {
        "#60a5fa"@
    } else if slot == 2 {
        "#fbbf24"@
    } else if slot == 3 {
        "#f472b6"@
    } else if slot == 4 {
        "#a78bfa"@
    } else {
        "#34d399"@
    }
}

/// The default color of the class at 1-based position `index`.
pub fn default_class_color(index: usize) -> (r: String)
    requires
        index >= 1,
    ensures
        r@ == class_color(index as nat),
{
    let slot = (index - 1) % 6;
    if slot == 0 {
        text::to_string("#5eead4")
    } else if slot == 1 {
        text::to_string("#60a5fa")
    } else if slot == 2 {
        text::to_string("#fbbf24")
    } else if slot == 3 {
        text::to_string("#f472b6")
    } else if slot == 4 {
        text::to_string("#a78bfa")
    } else {
        text::to_string("#34d399")
    }
}

/// The name of the class created at 1-based position `index`.
pub open spec fn new_class_name(index: nat) -> Seq<char> {
    if index == 1 {
        "Object"@
    } else {
        "Object "@ + text::decimal(index)
    }
}

/// Creates a new class with the next free ID and adds its workflow.
pub fn add_class_workflow(config: &mut DatasetMetadata, annotation_type: AnnotationType)
    requires
        old(config).label_classes@.len() + 1 < usize::MAX,
    ensures
        final(config).label_classes@.len() == old(config).label_classes@.len() + 1,
        final(config).label_classes@.drop_last() == old(config).label_classes@,
        ({
            let class = final(config).label_classes@.last();
            let index = old(config).label_classes@.len() + 1;
            &&& exists|k: nat|
                k >= 1 && class.class_id@ == class_id_candidate(k) && !class_ids_of(
                    old(config).label_classes@,
                ).contains(#[trigger] class_id_candidate(k)) && forall|j: nat|
                    1 <= j < k ==> class_ids_of(old(config).label_classes@).contains(
                        #[trigger] class_id_candidate(j),
                    )
            &&& class.name@ == new_class_name(index)
            &&& class.color@ == class_color(index)
            &&& class.description is None
            &&& has_task(old(config).tasks@, class.class_id@, annotation_type)
                ==> final(config).tasks == old(config).tasks
            &&& !has_task(old(config).tasks@, class.class_id@, annotation_type) ==> {
                &&& final(config).tasks@.drop_last() == old(config).tasks@
                &&& final(config).tasks@.len() == old(config).tasks@.len() + 1
                &&& is_class_workflow(final(config).tasks@.last(), class, annotation_type)
            }
        }),
        final(config).dataset_id == old(config).dataset_id,
        final(config).name == old(config).name,
        final(config).image_roots == old(config).image_roots,
        final(config).prelabel_configs == old(config).prelabel_configs,
        final(config).imbalance == old(config).imbalance,
        final(config).role_assignments == old(config).role_assignments,
{
    let index = config.label_classes.len() + 1;
    let class_id = next_class_id(config);
    let name = if index == 1 {
        text::to_string("Object")
    } else {
        text::with_number("Object ", index as u64)
    };
    let class = LabelClass {
        class_id,
        name,
        color: default_class_color(index),
        description: None,
    };
    config.label_classes.push(class.clone());
    assert(config.label_classes@.drop_last() =~= old(config).label_classes@);
    add_task_for_class(config, &class, annotation_type);
}

/// The agreement metric that fits an annotation type.
pub open spec fn metric_for(annotation_type: AnnotationType) -> AgreementMetric {
    match annotation_type {
        AnnotationType::BoundingBox => AgreementMetric::Iou,
        AnnotationType::Skeleton => AgreementMetric::KeypointMeanDistance,
    }
}

fn agreement_metric_for(annotation_type: AnnotationType) -> (m: AgreementMetric)
    ensures
        m == metric_for(annotation_type),
{
    match annotation_type {
        AnnotationType::BoundingBox => AgreementMetric::Iou,
        AnnotationType::Skeleton => AgreementMetric::KeypointMeanDistance,
    }
}

/// `task` after its skeleton has been made to fit its annotation type.
pub open spec fn normalized_skeleton_ok(before: Option<SkeletonSpec>, after: Option<SkeletonSpec>, annotation_type: AnnotationType) -> bool {
    match annotation_type {
        AnnotationType::BoundingBox => after is None,
        AnnotationType::Skeleton => match before {
            Some(s) => after == Some(s),
            None => after matches Some(s) && is_starter_skeleton(s),
        },
    }
}

/// Drops the skeleton of a bounding-box workflow and gives a skeleton
/// workflow the starter skeleton when it has none.
pub fn normalize_task_annotation(task: &mut TaskDefinition)
    ensures
        normalized_skeleton_ok(old(task).skeleton, final(task).skeleton, old(task).annotation_type),
        *final(task) == (TaskDefinition { skeleton: final(task).skeleton, ..*old(task) }),
{
    match task.annotation_type {
        AnnotationType::BoundingBox => task.skeleton = None,
        AnnotationType::Skeleton => {
            if task.skeleton.is_none() {
                task.skeleton = Some(starter_skeleton_spec());
            }
        },
    }
}

/// Switches the annotation type of a workflow, normalizes its skeleton, and
/// keeps an agreement threshold's metric in line with the new type.
pub fn set_task_annotation_type(task: &mut TaskDefinition, annotation_type: AnnotationType)
    ensures
        final(task).annotation_type == annotation_type,
        normalized_skeleton_ok(old(task).skeleton, final(task).skeleton, annotation_type),
        match old(task).review.agreement_threshold {
            Some(a) => final(task).review.agreement_threshold == Some(
                AgreementThreshold { metric: metric_for(annotation_type), ..a },
            ),
            None => final(task).review.agreement_threshold is None,
        },
        final(task).review.required_reviews == old(task).review.required_reviews,
        final(task).review.workflow == old(task).review.workflow,
        final(task).review.allow_reviewer_corrections == old(task).review.allow_reviewer_corrections,
        *final(task) == (TaskDefinition {
            annotation_type,
            skeleton: final(task).skeleton,
            review: final(task).review,
            ..*old(task)
        }),
{
    task.annotation_type = annotation_type;
    normalize_task_annotation(task);
    let metric = agreement_metric_for(task.annotation_type);
    if let Some(agreement) = task.review.agreement_threshold.as_mut() {
        agreement.metric = metric;
    }
}

/// The agreement threshold a workflow gets when independent agreement is
/// switched on: the metric of its annotation type at threshold 0.5.
pub fn default_agreement(task: &TaskDefinition) -> (a: AgreementThreshold)
    ensures
        a.metric == metric_for(task.annotation_type),
        a.threshold_in_unit_range,
{
    AgreementThreshold {
        metric: agreement_metric_for(task.annotation_type),
        threshold_in_unit_range: true,
    }
}

/// The display name of a review workflow.
pub fn review_workflow_name(workflow: &ReviewWorkflow) -> (r: &'static str)
    ensures
        r@ == match *workflow {
            ReviewWorkflow::NoReview => "none"@,
            ReviewWorkflow::Approval => "approval"@,
            ReviewWorkflow::IndependentAgreement => "independent agreement"@,
        },
{
    match workflow {
        ReviewWorkflow::NoReview => "none",
        ReviewWorkflow::Approval => "approval",
        ReviewWorkflow::IndependentAgreement => "independent agreement",
    }
}

/// Lexicographic order of character sequences, the order `str` comparison
/// uses (UTF-8 byte order and code-point order agree).
pub open spec fn lex_le(a: Seq<char>, b: Seq<char>) -> bool
    decreases a.len(),
{
    if a.len() == 0 {
        true
    } else if b.len() == 0 {
        false
    } else if a[0] != b[0] {
        (a[0] as int) < (b[0] as int)
    } else {
        lex_le(a.subrange(1, a.len() as int), b.subrange(1, b.len() as int))
    }
}

/// Whether `a` comes before `b` or equals it in lexicographic order.
pub fn chars_le(a: &Vec<char>, b: &Vec<char>) -> (r: bool)
    ensures
        r == lex_le(a@, b@),
{
    let mut i: usize = 0;
    assert(a@.subrange(0, a@.len() as int) =~= a@);
    assert(b@.subrange(0, b@.len() as int) =~= b@);
    while i < a.len() && i < b.len() && a[i] == b[i]
        invariant
            i <= a@.len(),
            i <= b@.len(),
            lex_le(a@, b@) == lex_le(a@.subrange(i as int, a@.len() as int), b@.subrange(i as int, b@.len() as int)),
        decreases a.len() - i,
    {
        let ghost x = a@.subrange(i as int, a@.len() as int);
        let ghost y = b@.subrange(i as int, b@.len() as int);
        assert(x.subrange(1, x.len() as int) =~= a@.subrange(i + 1, a@.len() as int));
        assert(y.subrange(1, y.len() as int) =~= b@.subrange(i + 1, b@.len() as int));
        i += 1;
    }
    if i == a.len() {
        true
    } else if i == b.len() {
        false
    } else {
        a[i] < b[i]
    }
}

/// Every text comes before or equals itself.
pub proof fn lemma_lex_reflexive(a: Seq<char>)
    ensures
        lex_le(a, a),
    decreases a.len(),
{
    if a.len() > 0 {
        lemma_lex_reflexive(a.subrange(1, a.len() as int));
    }
}

/// Of two texts, one comes before or equals the other.
pub proof fn lemma_lex_total(a: Seq<char>, b: Seq<char>)
    ensures
        lex_le(a, b) || lex_le(b, a),
    decreases a.len(),
{
    if a.len() > 0 && b.len() > 0 {
        if a[0] == b[0] {
            lemma_lex_total(a.subrange(1, a.len() as int), b.subrange(1, b.len() as int));
        } else {
            assert((a[0] as int) != (b[0] as int));
        }
    }
}

/// Two texts that each come before or equal the other are equal.
pub proof fn lemma_lex_antisymmetric(a: Seq<char>, b: Seq<char>)
    requires
        lex_le(a, b),
        lex_le(b, a),
    ensures
        a == b,
    decreases a.len(),
{
    if a.len() > 0 {
        let (x, y) = (a.subrange(1, a.len() as int), b.subrange(1, b.len() as int));
        lemma_lex_antisymmetric(x, y);
        assert(a =~= seq![a[0]] + x);
        assert(b =~= seq![b[0]] + y);
    }
}

/// The order is transitive.
pub proof fn lemma_lex_transitive(a: Seq<char>, b: Seq<char>, c: Seq<char>)
    requires
        lex_le(a, b),
        lex_le(b, c),
    ensures
        lex_le(a, c),
    decreases a.len(),
{
    if a.len() > 0 && b.len() > 0 && c.len() > 0 && a[0] == b[0] && b[0] == c[0] {
        lemma_lex_transitive(
            a.subrange(1, a.len() as int),
            b.subrange(1, b.len() as int),
            c.subrange(1, c.len() as int),
        );
    }
}

/// The endpoints of an edge in ascending order.
pub open spec fn canonical_pair(from: Seq<char>, to: Seq<char>) -> (Seq<char>, Seq<char>) {
    if lex_le(from, to) {
        (from, to)
    } else {
        (to, from)
    }
}

/// An edge and its reverse have the same endpoints in ascending order.
pub proof fn canonical_edge_ignores_direction(from: Seq<char>, to: Seq<char>)
    ensures
        canonical_pair(from, to) == canonical_pair(to, from),
{
    lemma_lex_total(from, to);
    if lex_le(from, to) && lex_le(to, from) {
        lemma_lex_antisymmetric(from, to);
    }
}

/// Two edges have the same endpoints in ascending order exactly when they
/// join the same pair of keypoints, in either direction: the canonical form
/// finds the duplicates skeleton validation reports.
pub proof fn canonical_edges_match_same_edges(a_from: Seq<char>, a_to: Seq<char>, b_from: Seq<char>, b_to: Seq<char>)
    ensures
        (canonical_pair(a_from, a_to) == canonical_pair(b_from, b_to)) == same_edge(a_from, a_to, b_from, b_to),
{
    if a_from == b_to && a_to == b_from {
        canonical_edge_ignores_direction(a_from, a_to);
    }
}

/// The endpoints of an edge in ascending order, so that an edge and its
/// reverse compare equal.
pub fn canonical_edge<'a>(from: &'a str, to: &'a str) -> (r: (&'a str, &'a str))
    ensures
        (r.0@, r.1@) == canonical_pair(from@, to@),
{
    let a = text::chars_of(from);
    let b = text::chars_of(to);
    if chars_le(&a, &b) {
        (from, to)
    } else {
        (to, from)
    }
}

/// Two edges join the same pair of keypoints, in either direction.
pub open spec fn same_edge(a_from: Seq<char>, a_to: Seq<char>, b_from: Seq<char>, b_to: Seq<char>) -> bool {
    (a_from == b_from && a_to == b_to) || (a_from == b_to && a_to == b_from)
}

/// Some edge of `edges` joins `from` and `to`, in either direction.
pub open spec fn has_edge(edges: Seq<SkeletonEdge>, from: Seq<char>, to: Seq<char>) -> bool {
    exists|e: int| 0 <= e < edges.len() && same_edge(#[trigger] edges[e].from@, edges[e].to@, from, to)
}

fn edge_exists(edges: &Vec<SkeletonEdge>, from: &str, to: &str) -> (r: bool)
    ensures
        r == has_edge(edges@, from@, to@),
{
    let mut e: usize = 0;
    while e < edges.len()
        invariant
            e <= edges@.len(),
            forall|j: int| 0 <= j < e ==> !same_edge(#[trigger] edges@[j].from@, edges@[j].to@, from@, to@),
        decreases edges.len() - e,
    {
        let edge = &edges[e];
        let a = text::str_eq(edge.from.as_str(), from) && text::str_eq(edge.to.as_str(), to);
        let b = text::str_eq(edge.from.as_str(), to) && text::str_eq(edge.to.as_str(), from);
        if a || b {
            return true;
        }
        e += 1;
    }
    false
}

/// Keypoints `i < j` could be joined by a new edge: their names differ and no
/// edge joins them yet.
pub open spec fn edge_candidate(s: SkeletonSpec, i: int, j: int) -> bool {
    &&& 0 <= i < j < s.keypoints@.len()
    &&& s.keypoints@[i].name@ != s.keypoints@[j].name@
    &&& !has_edge(s.edges@, s.keypoints@[i].name@, s.keypoints@[j].name@)
}

/// The first pair of keypoints, in keypoint order, that no edge joins yet.
pub fn next_skeleton_edge(skeleton: &SkeletonSpec) -> (r: Option<SkeletonEdge>)
    ensures
        match r {
            Some(edge) => exists|i: int, j: int|
                #[trigger] edge_candidate(*skeleton, i, j) && edge.from@
                    == skeleton.keypoints@[i].name@ && edge.to@ == skeleton.keypoints@[j].name@
                    && forall|a: int, b: int|
                    #![trigger edge_candidate(*skeleton, a, b)]
                    (a < i || (a == i && b < j)) ==> !edge_candidate(*skeleton, a, b),
            None => forall|a: int, b: int| !#[trigger] edge_candidate(*skeleton, a, b),
        },
{
    let n = skeleton.keypoints.len();
    let mut i: usize = 0;
    while i < n
        invariant
            n == skeleton.keypoints@.len(),
            i <= n,
            forall|a: int, b: int| #![trigger edge_candidate(*skeleton, a, b)] a < i ==> !edge_candidate(*skeleton, a, b),
        decreases n - i,
    {
        let mut j: usize = i + 1;
        while j < n
            invariant
                n == skeleton.keypoints@.len(),
                i < n,
                i + 1 <= j <= n,
                forall|a: int, b: int| #![trigger edge_candidate(*skeleton, a, b)] a < i ==> !edge_candidate(*skeleton, a, b),
                forall|b: int| #![trigger edge_candidate(*skeleton, i as int, b)] b < j ==> !edge_candidate(*skeleton, i as int, b),
            decreases n - j,
        {
            let from = &skeleton.keypoints[i].name;
            let to = &skeleton.keypoints[j].name;
            if !text::str_eq(from.as_str(), to.as_str()) && !edge_exists(
                &skeleton.edges,
                from.as_str(),
                to.as_str(),
            ) {
                assert(edge_candidate(*skeleton, i as int, j as int));
                return Some(SkeletonEdge { from: from.clone(), to: to.clone() });
            }
            j += 1;
        }
        i += 1;
    }
    None
}

/// The names of a skeleton's keypoints.
pub open spec fn keypoint_names(s: SkeletonSpec) -> Seq<Seq<char>> {
    s.keypoints@.map_values(|k: KeypointSpec| k.name@)
}

/// The names of a skeleton's keypoints, in order.
pub fn keypoint_name_list(skeleton: &SkeletonSpec) -> (names: Vec<String>)
    ensures
        ids::views(names@) == keypoint_names(*skeleton),
{
    let mut names: Vec<String> = Vec::new();
    let mut i: usize = 0;
    while i < skeleton.keypoints.len()
        invariant
            i <= skeleton.keypoints@.len(),
            ids::views(names@) =~= keypoint_names(*skeleton).subrange(0, i as int),
        decreases skeleton.keypoints.len() - i,
    {
        let ghost before = names@;
        names.push(skeleton.keypoints[i].name.clone());
        assert(ids::views(names@) =~= ids::views(before).push(skeleton.keypoints@[i as int].name@));
        assert(keypoint_names(*skeleton).subrange(0, i + 1) =~= keypoint_names(*skeleton).subrange(0, i as int).push(skeleton.keypoints@[i as int].name@));
        i += 1;
    }
    assert(ids::views(names@) =~= keypoint_names(*skeleton));
    names
}

/// The first free keypoint name among `keypoint_1`, `keypoint_2`, ...
pub fn next_keypoint_name(skeleton: &SkeletonSpec) -> (r: String)
    requires
        skeleton.keypoints@.len() < usize::MAX,
    ensures
        exists|k: nat|
            k >= 1 && r@ == ids::numbered("keypoint"@, k) && !keypoint_names(*skeleton).contains(
                #[trigger] ids::numbered("keypoint"@, k),
            ) && forall|j: nat|
                1 <= j < k ==> keypoint_names(*skeleton).contains(
                    #[trigger] ids::numbered("keypoint"@, j),
                ),
{
    let names = keypoint_name_list(skeleton);
    assert(ids::views(names@).len() == names@.len());
    ids::next_numbered_id("keypoint", &names)
}

/// The ends of each edge, by keypoint name.
pub open spec fn edge_ends(edges: Seq<SkeletonEdge>) -> Seq<(Seq<char>, Seq<char>)> {
    edges.map_values(|e: SkeletonEdge| (e.from@, e.to@))
}

/// An edge end after keypoint `previous` was renamed to `updated`.
pub open spec fn renamed_end(end: Seq<char>, previous: Seq<char>, updated: Seq<char>) -> Seq<char> {
    if end == previous {
        updated
    } else {
        end
    }
}

/// Every edge end names a keypoint of the skeleton.
pub open spec fn edges_attached(s: SkeletonSpec) -> bool {
    forall|i: int|
        0 <= i < s.edges@.len() ==> keypoint_names(s).contains(#[trigger] s.edges@[i].from@) && keypoint_names(
            s,
        ).contains(s.edges@[i].to@)
}

/// `after` is `before` with keypoint `index` renamed to `name` and every
/// edge end that used its old name following it.
pub open spec fn keypoint_renamed(before: SkeletonSpec, index: int, name: Seq<char>, after: SkeletonSpec) -> bool {
    let previous = before.keypoints@[index].name@;
    &&& after.keypoints@.len() == before.keypoints@.len()
    &&& after.keypoints@[index].name@ == name
    &&& after.keypoints@[index].required == before.keypoints@[index].required
    &&& forall|k: int| 0 <= k < before.keypoints@.len() && k != index ==> #[trigger] after.keypoints@[k] == before.keypoints@[k]
    &&& after.edges@.len() == before.edges@.len()
    &&& forall|e: int|
        0 <= e < before.edges@.len() ==> (#[trigger] after.edges@[e]).from@ == renamed_end(before.edges@[e].from@, previous, name)
            && after.edges@[e].to@ == renamed_end(before.edges@[e].to@, previous, name)
    &&& after.allow_hidden == before.allow_hidden
    &&& after.allow_absent == before.allow_absent
}

/// `after` is `before` without keypoint `index` and without the edges that
/// touched its name.
pub open spec fn keypoint_removed(before: SkeletonSpec, index: int, after: SkeletonSpec) -> bool {
    &&& after.keypoints@ == before.keypoints@.remove(index)
    &&& edge_ends(after.edges@) == edges_avoiding(edge_ends(before.edges@), before.keypoints@[index].name@)
    &&& after.allow_hidden == before.allow_hidden
    &&& after.allow_absent == before.allow_absent
}

/// Renames keypoint `index` and every edge end that used its old name.
pub fn rename_keypoint(skeleton: &mut SkeletonSpec, index: usize, name: String)
    requires
        index < old(skeleton).keypoints@.len(),
    ensures
        keypoint_renamed(*old(skeleton), index as int, name@, *final(skeleton)),
{
    let previous = skeleton.keypoints[index].name.clone();
    let mut e: usize = 0;
    while e < skeleton.edges.len()
        invariant
            e <= skeleton.edges@.len(),
            skeleton.edges@.len() == old(skeleton).edges@.len(),
            skeleton.keypoints == old(skeleton).keypoints,
            skeleton.allow_hidden == old(skeleton).allow_hidden,
            skeleton.allow_absent == old(skeleton).allow_absent,
            previous@ == old(skeleton).keypoints@[index as int].name@,
            forall|f: int|
                0 <= f < e ==> (#[trigger] skeleton.edges@[f]).from@ == renamed_end(
                    old(skeleton).edges@[f].from@,
                    previous@,
                    name@,
                ) && skeleton.edges@[f].to@ == renamed_end(old(skeleton).edges@[f].to@, previous@, name@),
            forall|f: int| e <= f < skeleton.edges@.len() ==> #[trigger] skeleton.edges@[f] == old(skeleton).edges@[f],
        decreases skeleton.edges.len() - e,
    {
        if text::str_eq(skeleton.edges[e].from.as_str(), previous.as_str()) {
            skeleton.edges[e].from = name.clone();
        }
        if text::str_eq(skeleton.edges[e].to.as_str(), previous.as_str()) {
            skeleton.edges[e].to = name.clone();
        }
        e += 1;
    }
    skeleton.keypoints[index].name = name;
}

/// The edges that touch no keypoint named `name`.
pub open spec fn edges_avoiding(edges: Seq<(Seq<char>, Seq<char>)>, name: Seq<char>) -> Seq<(Seq<char>, Seq<char>)>
    decreases edges.len(),
{
    if edges.len() == 0 {
        seq![]
    } else {
        let r = edges_avoiding(edges.drop_last(), name);
        let e = edges.last();
        if e.0 != name && e.1 != name {
            r.push(e)
        } else {
            r
        }
    }
}

/// Removes keypoint `index` and every edge that touches its name.
pub fn remove_keypoint(skeleton: &mut SkeletonSpec, index: usize)
    requires
        index < old(skeleton).keypoints@.len(),
    ensures
        keypoint_removed(*old(skeleton), index as int, *final(skeleton)),
{
    let removed = skeleton.keypoints.remove(index);
    let mut kept: Vec<SkeletonEdge> = Vec::new();
    let mut e: usize = 0;
    let ghost all = edge_ends(skeleton.edges@);
    while e < skeleton.edges.len()
        invariant
            e <= skeleton.edges@.len(),
            all == edge_ends(skeleton.edges@),
            edge_ends(kept@) == edges_avoiding(all.subrange(0, e as int), removed.name@),
        decreases skeleton.edges.len() - e,
    {
        let edge = &skeleton.edges[e];
        assert(all.subrange(0, e + 1).drop_last() =~= all.subrange(0, e as int));
        assert(all.subrange(0, e + 1).last() == (edge.from@, edge.to@));
        if !text::str_eq(edge.from.as_str(), removed.name.as_str()) && !text::str_eq(edge.to.as_str(), removed.name.as_str()) {
            let copy = SkeletonEdge { from: edge.from.clone(), to: edge.to.clone() };
            let ghost before = edge_ends(kept@);
            kept.push(copy);
            assert(edge_ends(kept@) =~= before.push((edge.from@, edge.to@)));
        }
        e += 1;
    }
    assert(all.subrange(0, all.len() as int) =~= all);
    skeleton.edges = kept;
}

/// Every edge left by the removal of keypoint name `name` was an edge
/// before and touches no keypoint of that name.
pub proof fn lemma_edges_avoiding(edges: Seq<(Seq<char>, Seq<char>)>, name: Seq<char>)
    ensures
        forall|i: int|
            0 <= i < edges_avoiding(edges, name).len() ==> edges.contains(#[trigger] edges_avoiding(edges, name)[i])
                && edges_avoiding(edges, name)[i].0 != name && edges_avoiding(edges, name)[i].1 != name,
    decreases edges.len(),
{
    if edges.len() > 0 {
        let d = edges.drop_last();
        lemma_edges_avoiding(d, name);
        let r = edges_avoiding(edges, name);
        assert forall|i: int| 0 <= i < r.len() implies edges.contains(#[trigger] r[i]) && r[i].0 != name && r[i].1
            != name by {
            let rd = edges_avoiding(d, name);
            if i < rd.len() {
                assert(r[i] == rd[i]);
                let w = choose|w: int| 0 <= w < d.len() && d[w] == rd[i];
                assert(edges[w] == d[w]);
            } else {
                assert(r[i] == edges.last());
                assert(edges[edges.len() - 1] == edges.last());
            }
        }
    }
}

/// Removing a keypoint leaves no edge dangling: when every edge end named
/// a keypoint before, every edge end still names a keypoint afterwards.
#[verifier::spinoff_prover]
pub proof fn removing_a_keypoint_keeps_edges_attached(before: SkeletonSpec, index: int, after: SkeletonSpec)
    requires
        0 <= index < before.keypoints@.len(),
        edges_attached(before),
        keypoint_removed(before, index, after),
    ensures
        edges_attached(after),
{
    let name = before.keypoints@[index].name@;
    let ends = edge_ends(before.edges@);
    lemma_edges_avoiding(ends, name);
    assert forall|i: int| 0 <= i < after.edges@.len() implies keypoint_names(after).contains(
        #[trigger] after.edges@[i].from@,
    ) && keypoint_names(after).contains(after.edges@[i].to@) by {
        let e = edge_ends(after.edges@)[i];
        assert(e == (after.edges@[i].from@, after.edges@[i].to@));
        assert(ends.contains(e));
        let w = choose|w: int| 0 <= w < ends.len() && ends[w] == e;
        assert(keypoint_names(before).contains(before.edges@[w].from@));
        assert(keypoint_names(before).contains(before.edges@[w].to@));
        let a = choose|a: int| 0 <= a < keypoint_names(before).len() && keypoint_names(before)[a] == e.0;
        let b = choose|b: int| 0 <= b < keypoint_names(before).len() && keypoint_names(before)[b] == e.1;
        assert(a != index && b != index);
        let a2 = if a < index { a } else { a - 1 };
        let b2 = if b < index { b } else { b - 1 };
        assert(keypoint_names(after)[a2] == e.0);
        assert(keypoint_names(after)[b2] == e.1);
    }
    assert(edges_attached(after));
}

/// Renaming a keypoint leaves no edge dangling: when every edge end named
/// a keypoint before, every edge end still names a keypoint afterwards.
pub proof fn renaming_a_keypoint_keeps_edges_attached(before: SkeletonSpec, index: int, name: Seq<char>, after: SkeletonSpec)
    requires
        0 <= index < before.keypoints@.len(),
        edges_attached(before),
        keypoint_renamed(before, index, name, after),
    ensures
        edges_attached(after),
{
    let previous = before.keypoints@[index].name@;
    assert forall|i: int| 0 <= i < after.edges@.len() implies keypoint_names(after).contains(
        #[trigger] after.edges@[i].from@,
    ) && keypoint_names(after).contains(after.edges@[i].to@) by {
        assert(keypoint_names(after)[index] == name);
        let f = before.edges@[i].from@;
        let t = before.edges@[i].to@;
        assert(keypoint_names(before).contains(f));
        assert(keypoint_names(before).contains(t));
        if f != previous {
            let a = choose|a: int| 0 <= a < keypoint_names(before).len() && keypoint_names(before)[a] == f;
            assert(a != index);
            assert(keypoint_names(after)[a] == f);
        }
        if t != previous {
            let b = choose|b: int| 0 <= b < keypoint_names(before).len() && keypoint_names(before)[b] == t;
            assert(b != index);
            assert(keypoint_names(after)[b] == t);
        }
    }
}

/// Adds a required keypoint under the first free name `keypointN`.
pub fn add_keypoint(skeleton: &mut SkeletonSpec)
    requires
        old(skeleton).keypoints@.len() < usize::MAX,
    ensures
        final(skeleton).keypoints@.len() == old(skeleton).keypoints@.len() + 1,
        final(skeleton).keypoints@.drop_last() == old(skeleton).keypoints@,
        final(skeleton).keypoints@.last().required,
        exists|k: nat|
            k >= 1 && final(skeleton).keypoints@.last().name@ == ids::numbered("keypoint"@, k) && !keypoint_names(
                *old(skeleton),
            ).contains(#[trigger] ids::numbered("keypoint"@, k)) && forall|j: nat|
                1 <= j < k ==> keypoint_names(*old(skeleton)).contains(#[trigger] ids::numbered("keypoint"@, j)),
        final(skeleton).edges == old(skeleton).edges,
        final(skeleton).allow_hidden == old(skeleton).allow_hidden,
        final(skeleton).allow_absent == old(skeleton).allow_absent,
{
    let name = next_keypoint_name(skeleton);
    skeleton.keypoints.push(KeypointSpec { name, required: true });
}

/// Connects the first pair of keypoints that no edge joins yet; reports
/// whether there was one.
pub fn add_next_edge(skeleton: &mut SkeletonSpec) -> (added: bool)
    ensures
        !added ==> *final(skeleton) == *old(skeleton) && forall|a: int, b: int| !#[trigger] edge_candidate(
            *old(skeleton),
            a,
            b,
        ),
        added ==> {
            &&& final(skeleton).edges@.drop_last() == old(skeleton).edges@
            &&& final(skeleton).edges@.len() == old(skeleton).edges@.len() + 1
            &&& exists|i: int, j: int|
                #[trigger] edge_candidate(*old(skeleton), i, j) && final(skeleton).edges@.last().from@
                    == old(skeleton).keypoints@[i].name@ && final(skeleton).edges@.last().to@
                    == old(skeleton).keypoints@[j].name@ && forall|a: int, b: int|
                    #![trigger edge_candidate(*old(skeleton), a, b)]
                    (a < i || (a == i && b < j)) ==> !edge_candidate(*old(skeleton), a, b)
            &&& final(skeleton).keypoints == old(skeleton).keypoints
            &&& final(skeleton).allow_hidden == old(skeleton).allow_hidden
            &&& final(skeleton).allow_absent == old(skeleton).allow_absent
        },
{
    match next_skeleton_edge(skeleton) {
        Some(edge) => {
            skeleton.edges.push(edge);
            true
        },
        None => false,
    }
}

/// `after` is `before` with each task's links to `id` dropped, and nothing
/// else changed: `links` picks the list of links of a task.
pub open spec fn class_links_dropped(before: Seq<TaskDefinition>, id: Seq<char>, after: Seq<TaskDefinition>) -> bool {
    &&& after.len() == before.len()
    &&& forall|t: int|
        0 <= t < before.len() ==> ids::views((#[trigger] after[t]).class_ids@) == ids::without(
            ids::views(before[t].class_ids@),
            id,
        ) && after[t] == (TaskDefinition { class_ids: after[t].class_ids, ..before[t] })
}

/// `after` is `before` with each task's links to prelabel source `id`
/// dropped, and nothing else changed.
pub open spec fn prelabel_links_dropped(before: Seq<TaskDefinition>, id: Seq<char>, after: Seq<TaskDefinition>) -> bool {
    &&& after.len() == before.len()
    &&& forall|t: int|
        0 <= t < before.len() ==> ids::views((#[trigger] after[t]).prelabel_config_ids@) == ids::without(
            ids::views(before[t].prelabel_config_ids@),
            id,
        ) && after[t] == (TaskDefinition { prelabel_config_ids: after[t].prelabel_config_ids, ..before[t] })
}

/// Removes class `index` and unlinks it from every workflow.
pub fn remove_class(labels: &mut Vec<LabelClass>, tasks: &mut Vec<TaskDefinition>, index: usize)
    requires
        index < old(labels)@.len(),
    ensures
        final(labels)@ == old(labels)@.remove(index as int),
        class_links_dropped(old(tasks)@, old(labels)@[index as int].class_id@, final(tasks)@),
{
    let removed = labels.remove(index);
    let mut t: usize = 0;
    while t < tasks.len()
        invariant
            t <= tasks@.len(),
            tasks@.len() == old(tasks)@.len(),
            forall|u: int|
                0 <= u < t ==> ids::views((#[trigger] tasks@[u]).class_ids@) == ids::without(
                    ids::views(old(tasks)@[u].class_ids@),
                    removed.class_id@,
                ) && tasks@[u] == (TaskDefinition { class_ids: tasks@[u].class_ids, ..old(tasks)@[u] }),
            forall|u: int| t <= u < tasks@.len() ==> #[trigger] tasks@[u] == old(tasks)@[u],
        decreases tasks.len() - t,
    {
        ids::retain_other(&mut tasks[t].class_ids, removed.class_id.as_str());
        t += 1;
    }
}

/// Removes prelabel source `index` and unlinks it from every workflow.
pub fn remove_prelabel_config(configs: &mut Vec<PrelabelConfig>, tasks: &mut Vec<TaskDefinition>, index: usize)
    requires
        index < old(configs)@.len(),
    ensures
        final(configs)@ == old(configs)@.remove(index as int),
        prelabel_links_dropped(old(tasks)@, old(configs)@[index as int].config_id@, final(tasks)@),
{
    let removed = configs.remove(index);
    let mut t: usize = 0;
    while t < tasks.len()
        invariant
            t <= tasks@.len(),
            tasks@.len() == old(tasks)@.len(),
            forall|u: int|
                0 <= u < t ==> ids::views((#[trigger] tasks@[u]).prelabel_config_ids@) == ids::without(
                    ids::views(old(tasks)@[u].prelabel_config_ids@),
                    removed.config_id@,
                ) && tasks@[u] == (TaskDefinition { prelabel_config_ids: tasks@[u].prelabel_config_ids, ..old(tasks)@[u] }),
            forall|u: int| t <= u < tasks@.len() ==> #[trigger] tasks@[u] == old(tasks)@[u],
        decreases tasks.len() - t,
    {
        ids::retain_other(&mut tasks[t].prelabel_config_ids, removed.config_id.as_str());
        t += 1;
    }
}

/// After a class is removed, no workflow links to it, and every other link
/// is kept.
pub proof fn removed_class_is_unlinked(before: Seq<TaskDefinition>, id: Seq<char>, after: Seq<TaskDefinition>)
    requires
        class_links_dropped(before, id, after),
    ensures
        forall|t: int| 0 <= t < after.len() ==> !ids::views((#[trigger] after[t]).class_ids@).contains(id),
        forall|t: int, other: Seq<char>|
            0 <= t < after.len() && other != id ==> (#[trigger] ids::views(after[t].class_ids@).contains(other)
                <==> ids::views(before[t].class_ids@).contains(other)),
{
    assert forall|t: int| 0 <= t < after.len() implies !ids::views((#[trigger] after[t]).class_ids@).contains(id) by {
        ids::lemma_without(ids::views(before[t].class_ids@), id);
    }
    assert forall|t: int, other: Seq<char>|
        0 <= t < after.len() && other != id implies (#[trigger] ids::views(after[t].class_ids@).contains(other)
            <==> ids::views(before[t].class_ids@).contains(other)) by {
        ids::lemma_without(ids::views(before[t].class_ids@), id);
    }
}

/// Links or unlinks prelabel source `config_id` to a workflow, as its
/// checkbox now says: a new link goes last, and unlinking drops every link
/// to it; nothing changes when the checkbox already agreed.
pub fn set_prelabel_enabled(task: &mut TaskDefinition, config_id: &str, enabled: bool)
    ensures
        ({
            let before = ids::views(old(task).prelabel_config_ids@);
            let after = ids::views(final(task).prelabel_config_ids@);
            &&& enabled && !before.contains(config_id@) ==> after == before.push(config_id@)
            &&& !enabled && before.contains(config_id@) ==> after == ids::without(before, config_id@)
            &&& enabled == before.contains(config_id@) ==> after == before
        }),
        *final(task) == (TaskDefinition { prelabel_config_ids: final(task).prelabel_config_ids, ..*old(task) }),
{
    let linked = ids::contains_string(&task.prelabel_config_ids, config_id);
    if enabled && !linked {
        let ghost before = ids::views(task.prelabel_config_ids@);
        task.prelabel_config_ids.push(text::to_string(config_id));
        assert(ids::views(task.prelabel_config_ids@) =~= before.push(config_id@));
    } else if !enabled && linked {
        ids::retain_other(&mut task.prelabel_config_ids, config_id);
    }
}

/// Adds a class under the first free ID `classN`, named `New class`, with
/// the palette colour of its position.
pub fn add_class(labels: &mut Vec<LabelClass>)
    requires
        old(labels)@.len() + 1 < usize::MAX,
    ensures
        final(labels)@.len() == old(labels)@.len() + 1,
        final(labels)@.drop_last() == old(labels)@,
        ({
            let c = final(labels)@.last();
            &&& exists|k: nat|
                k >= 1 && c.class_id@ == ids::numbered("class"@, k) && !class_ids_of(old(labels)@).contains(
                    #[trigger] ids::numbered("class"@, k),
                ) && forall|j: nat|
                    1 <= j < k ==> class_ids_of(old(labels)@).contains(#[trigger] ids::numbered("class"@, j))
            &&& c.name@ == "New class"@
            &&& c.color@ == class_color((old(labels)@.len() + 1) as nat)
            &&& c.description is None
        }),
{
    let mut existing: Vec<String> = Vec::new();
    let mut i: usize = 0;
    while i < labels.len()
        invariant
            i <= labels@.len(),
            ids::views(existing@) =~= class_ids_of(labels@).subrange(0, i as int),
        decreases labels.len() - i,
    {
        let c = labels[i].class_id.clone();
        let ghost before = ids::views(existing@);
        existing.push(c);
        assert(ids::views(existing@) =~= before.push(c@));
        assert(class_ids_of(labels@).subrange(0, i + 1) =~= class_ids_of(labels@).subrange(0, i as int).push(c@));
        i += 1;
    }
    assert(class_ids_of(labels@).subrange(0, labels@.len() as int) =~= class_ids_of(labels@));
    let class_id = ids::next_numbered_id("class", &existing);
    let color = default_class_color(labels.len() + 1);
    labels.push(LabelClass { class_id, name: text::to_string("New class"), color, description: None });
}

/// The workflow the workflow list adds: ID `taskN` (the first free one),
/// named `New task`, drawing boxes for the first class, with default
/// instructions, no review step and no prelabel sources.
pub open spec fn is_new_workflow(t: TaskDefinition, tasks: Seq<TaskDefinition>, labels: Seq<LabelClass>) -> bool {
    let task_ids = tasks.map_values(|x: TaskDefinition| x.task_id@);
    &&& exists|k: nat|
        k >= 1 && t.task_id@ == ids::numbered("task"@, k) && !task_ids.contains(#[trigger] ids::numbered("task"@, k))
            && forall|j: nat| 1 <= j < k ==> task_ids.contains(#[trigger] ids::numbered("task"@, j))
    &&& t.name@ == "New task"@
    &&& t.annotation_type == AnnotationType::BoundingBox
    &&& ids::views(t.class_ids@) == if labels.len() > 0 {
        seq![labels[0].class_id@]
    } else {
        Seq::<Seq<char>>::empty()
    }
    &&& t.instructions.title@ == "Instructions"@
    &&& t.instructions.example_text@ == "Describe what annotators should label."@
    &&& t.instructions.example_images@.len() == 0
    &&& t.skeleton is None
    &&& t.review == ReviewConfig::spec_default()
    &&& t.prelabel_config_ids@.len() == 0
    &&& t.manual_box_guide_migration is None
    &&& t.enabled
}

/// Adds a new workflow (see `is_new_workflow`).
pub fn add_workflow(tasks: &mut Vec<TaskDefinition>, labels: &Vec<LabelClass>)
    requires
        old(tasks)@.len() < usize::MAX,
    ensures
        final(tasks)@.len() == old(tasks)@.len() + 1,
        final(tasks)@.drop_last() == old(tasks)@,
        is_new_workflow(final(tasks)@.last(), old(tasks)@, labels@),
{
    let ghost task_ids = tasks@.map_values(|x: TaskDefinition| x.task_id@);
    let mut existing: Vec<String> = Vec::new();
    let mut i: usize = 0;
    while i < tasks.len()
        invariant
            i <= tasks@.len(),
            task_ids == tasks@.map_values(|x: TaskDefinition| x.task_id@),
            ids::views(existing@) =~= task_ids.subrange(0, i as int),
        decreases tasks.len() - i,
    {
        let c = tasks[i].task_id.clone();
        let ghost before = ids::views(existing@);
        existing.push(c);
        assert(ids::views(existing@) =~= before.push(c@));
        assert(task_ids.subrange(0, i + 1) =~= task_ids.subrange(0, i as int).push(c@));
        i += 1;
    }
    assert(task_ids.subrange(0, tasks@.len() as int) =~= task_ids);
    let task_id = ids::next_numbered_id("task", &existing);
    let mut class_ids: Vec<String> = Vec::new();
    if labels.len() > 0 {
        class_ids.push(labels[0].class_id.clone());
    }
    let ghost kept = class_ids@;
    assert(ids::views(class_ids@) =~= if labels@.len() > 0 {
        seq![labels@[0].class_id@]
    } else {
        Seq::<Seq<char>>::empty()
    });
    tasks.push(TaskDefinition {
        task_id,
        name: text::to_string("New task"),
        annotation_type: AnnotationType::BoundingBox,
        class_ids,
        instructions: TutorialContent {
            title: text::to_string("Instructions"),
            example_text: text::to_string("Describe what annotators should label."),
            example_images: Vec::new(),
        },
        skeleton: None,
        review: ReviewConfig::default(),
        prelabel_config_ids: Vec::new(),
        manual_box_guide_migration: None,
        enabled: true,
    });
}

} // verus!
