//! The mapping plan request: what the server is asked to build from the
//! mapping draft.
//!
//! Each workflow and skeleton mapping of the request comes from a known
//! place: a mapping the category already carries, or one generated for an
//! output the category produces but has no workflow for yet.
use vstd::prelude::*;
use crate::ids;
use crate::import_model::{
    ImportAcknowledgementRequest, ImportCategoryDraft, ImportCategoryMappingRequest,
    ImportGeometryKind, ImportGeometryMappingRequest, ImportGeometryPolicy,
    ImportMappingParameter, ImportSkeletonMappingRequest, ImportTaskMappingRequest,
    ImportMappingDraft, ImportWorkflowIntent, KeypointState, PreflightDiagnostic, UpdateImportPlanRequest,
};
use crate::import_support::{intent_review, review_config, task_review};
use crate::mapping_check::produces;
use crate::model::{
    copy_skeleton, copy_task, skeleton_value, string_values, task_value, AnnotationType, KeypointSpec,
    ManualBoxGuideMigration, SkeletonSpec, SkeletonValue, TaskValue,
};
use crate::text;

verus! {

/// The output geometry a workflow's annotation type produces.
pub open spec fn geometry_of(t: AnnotationType) -> ImportGeometryKind {
    match t {
        AnnotationType::BoundingBox => ImportGeometryKind::BoundingBox,
        AnnotationType::Skeleton => ImportGeometryKind::Skeleton,
    }
}

/// The category's skeleton output is a manual box-guide migration.
pub open spec fn manual_target(c: ImportCategoryDraft) -> bool {
    exists|g: int|
        0 <= g < c.geometry_mappings@.len() && (#[trigger] c.geometry_mappings@[g]).target_geometry
            == ImportGeometryKind::Skeleton && c.geometry_mappings@[g].policy == ImportGeometryPolicy::ManualBoxGuideV1
}

/// The category's skeleton output comes directly from source skeletons.
pub open spec fn direct_target(c: ImportCategoryDraft) -> bool {
    exists|g: int|
        0 <= g < c.geometry_mappings@.len() && (#[trigger] c.geometry_mappings@[g]).target_geometry
            == ImportGeometryKind::Skeleton && c.geometry_mappings@[g].policy == ImportGeometryPolicy::Direct
}

/// The skeleton a generated skeleton workflow gets: the source skeleton, or
/// one optional keypoint per target keypoint name.
pub open spec fn new_skeleton(c: ImportCategoryDraft) -> SkeletonValue {
    match c.source_skeleton {
        Some(s) => skeleton_value(s),
        None => SkeletonValue {
            keypoints: ids::csv_entries(c.target_keypoint_names@).map_values(|n: Seq<char>| (n, false)),
            edges: Seq::empty(),
            allow_hidden: true,
            allow_absent: true,
        },
    }
}

/// The migration a skeleton workflow of the category carries: guided by its
/// bounding-box workflow when its skeleton output is a manual migration.
pub open spec fn migration_for(c: ImportCategoryDraft) -> Option<(Seq<char>, bool)> {
    if manual_target(c) {
        Some((text::trim(c.bounding_box_task_id@), true))
    } else {
        None
    }
}

/// Where a workflow of the request comes from: a workflow mapping the
/// category carries, or a generated bounding-box or skeleton workflow.
pub enum TaskOrigin {
    Stored(int, int),
    NewBox(int),
    NewSkeleton(int),
}

/// The source category key a workflow is filed under.
pub open spec fn origin_key(cats: Seq<ImportCategoryDraft>, o: TaskOrigin) -> Seq<char> {
    match o {
        TaskOrigin::Stored(c, _) => text::trim(cats[c].source_category_key@),
        TaskOrigin::NewBox(c) => cats[c].source_category_key@,
        TaskOrigin::NewSkeleton(c) => cats[c].source_category_key@,
    }
}

/// The annotation type of a workflow.
pub open spec fn origin_type(cats: Seq<ImportCategoryDraft>, o: TaskOrigin) -> AnnotationType {
    match o {
        TaskOrigin::Stored(c, k) => cats[c].task_mappings@[k].task.annotation_type,
        TaskOrigin::NewBox(_) => AnnotationType::BoundingBox,
        TaskOrigin::NewSkeleton(_) => AnnotationType::Skeleton,
    }
}

/// Some workflow in `outs` is filed under `key` with type `t`.
pub open spec fn has_output(cats: Seq<ImportCategoryDraft>, outs: Seq<TaskOrigin>, key: Seq<char>, t: AnnotationType) -> bool {
    exists|i: int| 0 <= i < outs.len() && origin_key(cats, #[trigger] outs[i]) == key && origin_type(cats, outs[i]) == t
}

/// The carried workflow mappings among the first `n` of category `ci` whose
/// output the category produces.
pub open spec fn stored_task_origins(cats: Seq<ImportCategoryDraft>, ci: int, n: nat) -> Seq<TaskOrigin>
    decreases n,
{
    if n == 0 {
        Seq::empty()
    } else {
        let c = cats[ci];
        stored_task_origins(cats, ci, (n - 1) as nat) + if produces(c, geometry_of(c.task_mappings@[n - 1].task.annotation_type)) {
            seq![TaskOrigin::Stored(ci, n - 1)]
        } else {
            Seq::<TaskOrigin>::empty()
        }
    }
}

/// The workflows after category `ci` is planned on top of `prev`: its
/// carried workflows, then a generated bounding-box and skeleton workflow
/// for each produced output with no workflow filed under the category's
/// key yet.
pub open spec fn category_task_origins(cats: Seq<ImportCategoryDraft>, prev: Seq<TaskOrigin>, ci: int) -> Seq<TaskOrigin> {
    let c = cats[ci];
    let a = prev + stored_task_origins(cats, ci, c.task_mappings@.len());
    let b = if produces(c, ImportGeometryKind::BoundingBox) && !has_output(
        cats,
        a,
        c.source_category_key@,
        AnnotationType::BoundingBox,
    ) {
        a.push(TaskOrigin::NewBox(ci))
    } else {
        a
    };
    if produces(c, ImportGeometryKind::Skeleton) && !has_output(cats, b, c.source_category_key@, AnnotationType::Skeleton) {
        b.push(TaskOrigin::NewSkeleton(ci))
    } else {
        b
    }
}

/// The workflows of the first `n` categories, included ones only.
pub open spec fn task_origins(cats: Seq<ImportCategoryDraft>, n: nat) -> Seq<TaskOrigin>
    decreases n,
{
    if n == 0 {
        Seq::empty()
    } else {
        let prev = task_origins(cats, (n - 1) as nat);
        if cats[n - 1].selected {
            category_task_origins(cats, prev, n - 1)
        } else {
            prev
        }
    }
}

/// A workflow mapping as a plain value: key, workflow and intent.
pub type TaskMappingValue = (Seq<char>, TaskValue, ImportWorkflowIntent);

/// The workflow mapping a workflow origin stands for.
pub open spec fn origin_value(cats: Seq<ImportCategoryDraft>, o: TaskOrigin) -> TaskMappingValue {
    match o {
        TaskOrigin::Stored(ci, k) => {
            let c = cats[ci];
            let base = task_value(c.task_mappings@[k].task);
            let is_box = base.annotation_type == AnnotationType::BoundingBox;
            (
                text::trim(c.source_category_key@),
                TaskValue {
                    task_id: if is_box {
                        text::trim(c.bounding_box_task_id@)
                    } else {
                        text::trim(c.skeleton_task_id@)
                    },
                    name: if is_box {
                        text::trim(c.bounding_box_task_name@)
                    } else {
                        text::trim(c.skeleton_task_name@)
                    },
                    class_ids: seq![text::trim(c.class_id@)],
                    review: intent_review(c.workflow_intent),
                    migration: if is_box {
                        base.migration
                    } else {
                        migration_for(c)
                    },
                    ..base
                },
                c.workflow_intent,
            )
        },
        TaskOrigin::NewBox(ci) => {
            let c = cats[ci];
            (
                c.source_category_key@,
                TaskValue {
                    task_id: text::trim(c.bounding_box_task_id@),
                    name: text::trim(c.bounding_box_task_name@),
                    annotation_type: AnnotationType::BoundingBox,
                    class_ids: seq![text::trim(c.class_id@)],
                    title: text::trim(c.bounding_box_task_name@),
                    example_text: "Follow the imported dataset definition and project guidance."@,
                    example_images: Seq::empty(),
                    skeleton: None,
                    review: task_review(c.workflow_intent, false),
                    prelabel_config_ids: Seq::empty(),
                    migration: None,
                    enabled: true,
                },
                c.workflow_intent,
            )
        },
        TaskOrigin::NewSkeleton(ci) => {
            let c = cats[ci];
            (
                c.source_category_key@,
                TaskValue {
                    task_id: text::trim(c.skeleton_task_id@),
                    name: text::trim(c.skeleton_task_name@),
                    annotation_type: AnnotationType::Skeleton,
                    class_ids: seq![text::trim(c.class_id@)],
                    title: text::trim(c.skeleton_task_name@),
                    example_text: "Follow the imported dataset definition and project guidance."@,
                    example_images: Seq::empty(),
                    skeleton: Some(new_skeleton(c)),
                    review: task_review(c.workflow_intent, manual_target(c)),
                    prelabel_config_ids: Seq::empty(),
                    migration: migration_for(c),
                    enabled: true,
                },
                c.workflow_intent,
            )
        },
    }
}

/// The workflow mappings the origins stand for.
pub open spec fn origin_values(cats: Seq<ImportCategoryDraft>, os: Seq<TaskOrigin>) -> Seq<TaskMappingValue> {
    os.map_values(|o: TaskOrigin| origin_value(cats, o))
}

/// The plain value of a workflow mapping.
pub open spec fn task_mapping_value(m: ImportTaskMappingRequest) -> TaskMappingValue {
    (m.source_category_key@, task_value(m.task), m.workflow_intent)
}

/// The plain values of a list of workflow mappings.
pub open spec fn task_mapping_values(ms: Seq<ImportTaskMappingRequest>) -> Seq<TaskMappingValue> {
    ms.map_values(|m: ImportTaskMappingRequest| task_mapping_value(m))
}

proof fn lemma_origin_value_key_type(cats: Seq<ImportCategoryDraft>, o: TaskOrigin)
    ensures
        origin_value(cats, o).0 == origin_key(cats, o),
        origin_value(cats, o).1.annotation_type == origin_type(cats, o),
{
}

fn produces_geometry(c: &ImportCategoryDraft, kind: ImportGeometryKind) -> (r: bool)
    ensures
        r == produces(*c, kind),
{
    let mut k: usize = 0;
    while k < c.geometry_mappings.len()
        invariant
            k <= c.geometry_mappings@.len(),
            forall|j: int|
                0 <= j < k ==> !((#[trigger] c.geometry_mappings@[j]).policy != ImportGeometryPolicy::Omit
                    && c.geometry_mappings@[j].target_geometry == kind),
        decreases c.geometry_mappings.len() - k,
    {
        let m = &c.geometry_mappings[k];
        if m.policy != ImportGeometryPolicy::Omit && m.target_geometry == kind {
            return true;
        }
        k += 1;
    }
    false
}

fn skeleton_output_with(c: &ImportCategoryDraft, policy: ImportGeometryPolicy) -> (r: bool)
    ensures
        r == exists|g: int|
            0 <= g < c.geometry_mappings@.len() && (#[trigger] c.geometry_mappings@[g]).target_geometry
                == ImportGeometryKind::Skeleton && c.geometry_mappings@[g].policy == policy,
{
    let mut g: usize = 0;
    while g < c.geometry_mappings.len()
        invariant
            g <= c.geometry_mappings@.len(),
            forall|j: int|
                0 <= j < g ==> !((#[trigger] c.geometry_mappings@[j]).target_geometry == ImportGeometryKind::Skeleton
                    && c.geometry_mappings@[j].policy == policy),
        decreases c.geometry_mappings.len() - g,
    {
        let m = &c.geometry_mappings[g];
        if m.target_geometry == ImportGeometryKind::Skeleton && m.policy == policy {
            return true;
        }
        g += 1;
    }
    false
}

fn geometry_of_type(t: AnnotationType) -> (g: ImportGeometryKind)
    ensures
        g == geometry_of(t),
{
    match t {
        AnnotationType::BoundingBox => ImportGeometryKind::BoundingBox,
        AnnotationType::Skeleton => ImportGeometryKind::Skeleton,
    }
}

fn migration_of(c: &ImportCategoryDraft) -> (m: Option<ManualBoxGuideMigration>)
    ensures
        match m {
            Some(x) => migration_for(*c) == Some((x.guide_task_id@, x.allow_exclusion)),
            None => migration_for(*c) is None,
        },
{
    if skeleton_output_with(c, ImportGeometryPolicy::ManualBoxGuideV1) {
        Some(ManualBoxGuideMigration {
            guide_task_id: text::trimmed(c.bounding_box_task_id.as_str()),
            allow_exclusion: true,
        })
    } else {
        None
    }
}

fn output_filed(tasks: &Vec<ImportTaskMappingRequest>, key: &str, t: AnnotationType) -> (r: bool)
    ensures
        r == exists|i: int|
            0 <= i < tasks@.len() && (#[trigger] task_mapping_values(tasks@)[i]).0 == key@
                && task_mapping_values(tasks@)[i].1.annotation_type == t,
{
    let ghost vals = task_mapping_values(tasks@);
    let mut i: usize = 0;
    while i < tasks.len()
        invariant
            i <= tasks@.len(),
            vals == task_mapping_values(tasks@),
            forall|j: int| 0 <= j < i ==> !((#[trigger] vals[j]).0 == key@ && vals[j].1.annotation_type == t),
        decreases tasks.len() - i,
    {
        let m = &tasks[i];
        assert(vals[i as int] == task_mapping_value(*m));
        if text::str_eq(m.source_category_key.as_str(), key) && m.task.annotation_type == t {
            return true;
        }
        i += 1;
    }
    false
}

/// The category a workflow comes from.
pub open spec fn origin_category(o: TaskOrigin) -> int {
    match o {
        TaskOrigin::Stored(c, _) => c,
        TaskOrigin::NewBox(c) => c,
        TaskOrigin::NewSkeleton(c) => c,
    }
}

proof fn lemma_stored_origins_of(cats: Seq<ImportCategoryDraft>, ci: int, n: nat)
    ensures
        forall|j: int| 0 <= j < stored_task_origins(cats, ci, n).len() ==> (#[trigger] stored_task_origins(cats, ci, n)[j]) is Stored && origin_category(stored_task_origins(cats, ci, n)[j]) == ci,
    decreases n,
{
    if n > 0 {
        lemma_stored_origins_of(cats, ci, (n - 1) as nat);
        let p = stored_task_origins(cats, ci, (n - 1) as nat);
        let t = stored_task_origins(cats, ci, n);
        assert forall|j: int| 0 <= j < t.len() implies (#[trigger] t[j]) is Stored && origin_category(t[j]) == ci by {
            if j < p.len() {
                assert(t[j] == p[j]);
            }
        }
    }
}

/// Every workflow of the first `n` categories comes from one of them.
proof fn lemma_origins_below(cats: Seq<ImportCategoryDraft>, n: nat)
    ensures
        forall|j: int| 0 <= j < task_origins(cats, n).len() ==> 0 <= origin_category(#[trigger] task_origins(cats, n)[j]) < n,
    decreases n,
{
    if n > 0 {
        lemma_origins_below(cats, (n - 1) as nat);
        let prev = task_origins(cats, (n - 1) as nat);
        if cats[n - 1].selected {
            let ci = n - 1;
            let c = cats[ci];
            lemma_stored_origins_of(cats, ci, c.task_mappings@.len());
            let s = stored_task_origins(cats, ci, c.task_mappings@.len());
            let a = prev + s;
            assert forall|j: int| 0 <= j < a.len() implies 0 <= origin_category(#[trigger] a[j]) < n by {
                if j >= prev.len() {
                    assert(a[j] == s[j - prev.len()]);
                }
            }
            let r = task_origins(cats, n);
            assert forall|j: int| 0 <= j < r.len() implies 0 <= origin_category(#[trigger] r[j]) < n by {
                if j < a.len() {
                    assert(r[j] == a[j]);
                } else if j == a.len() {
                } else {
                }
            }
        }
    }
}

/// Values and origins agree on keys and types, so looking up a workflow by
/// key and type in the values finds it among the origins.
proof fn lemma_lookup(cats: Seq<ImportCategoryDraft>, os: Seq<TaskOrigin>, key: Seq<char>, t: AnnotationType)
    ensures
        (exists|i: int|
            0 <= i < os.len() && (#[trigger] origin_values(cats, os)[i]).0 == key && origin_values(cats, os)[i].1.annotation_type
                == t) == has_output(cats, os, key, t),
{
    if has_output(cats, os, key, t) {
        let i = choose|i: int| 0 <= i < os.len() && origin_key(cats, #[trigger] os[i]) == key && origin_type(cats, os[i]) == t;
        lemma_origin_value_key_type(cats, os[i]);
        assert(origin_values(cats, os)[i] == origin_value(cats, os[i]));
    }
    if exists|i: int|
        0 <= i < os.len() && (#[trigger] origin_values(cats, os)[i]).0 == key && origin_values(cats, os)[i].1.annotation_type == t {
        let i = choose|i: int|
            0 <= i < os.len() && (#[trigger] origin_values(cats, os)[i]).0 == key && origin_values(cats, os)[i].1.annotation_type
                == t;
        lemma_origin_value_key_type(cats, os[i]);
        assert(origin_values(cats, os)[i] == origin_value(cats, os[i]));
        assert(origin_key(cats, os[i]) == key && origin_type(cats, os[i]) == t);
    }
}

fn stored_task_mapping(c: &ImportCategoryDraft, stored: &ImportTaskMappingRequest) -> (m: ImportTaskMappingRequest)
    ensures
        ({
            let base = task_value(stored.task);
            let is_box = base.annotation_type == AnnotationType::BoundingBox;
            task_mapping_value(m) == (
                text::trim(c.source_category_key@),
                TaskValue {
                    task_id: if is_box {
                        text::trim(c.bounding_box_task_id@)
                    } else {
                        text::trim(c.skeleton_task_id@)
                    },
                    name: if is_box {
                        text::trim(c.bounding_box_task_name@)
                    } else {
                        text::trim(c.skeleton_task_name@)
                    },
                    class_ids: seq![text::trim(c.class_id@)],
                    review: intent_review(c.workflow_intent),
                    migration: if is_box {
                        base.migration
                    } else {
                        migration_for(*c)
                    },
                    ..base
                },
                c.workflow_intent,
            )
        }),
{
    let mut task = copy_task(&stored.task);
    let mut class_ids: Vec<String> = Vec::new();
    class_ids.push(text::trimmed(c.class_id.as_str()));
    task.class_ids = class_ids;
    task.review = review_config(c.workflow_intent);
    match task.annotation_type {
        AnnotationType::BoundingBox => {
            task.task_id = text::trimmed(c.bounding_box_task_id.as_str());
            task.name = text::trimmed(c.bounding_box_task_name.as_str());
        },
        AnnotationType::Skeleton => {
            task.task_id = text::trimmed(c.skeleton_task_id.as_str());
            task.name = text::trimmed(c.skeleton_task_name.as_str());
            task.manual_box_guide_migration = migration_of(c);
        },
    }
    let m = ImportTaskMappingRequest {
        source_category_key: text::trimmed(c.source_category_key.as_str()),
        task,
        workflow_intent: c.workflow_intent,
    };
    assert(string_values(m.task.class_ids@) =~= seq![text::trim(c.class_id@)]);
    m
}

/// The skeleton of a generated skeleton workflow.
fn generated_skeleton(c: &ImportCategoryDraft) -> (s: SkeletonSpec)
    ensures
        skeleton_value(s) == new_skeleton(*c),
{
    match &c.source_skeleton {
        Some(s) => copy_skeleton(s),
        None => {
            let names = ids::split_csv(c.target_keypoint_names.as_str());
            let mut keypoints: Vec<KeypointSpec> = Vec::new();
            let mut i: usize = 0;
            while i < names.len()
                invariant
                    i <= names@.len(),
                    keypoints@.len() == i,
                    forall|j: int| 0 <= j < i ==> (#[trigger] keypoints@[j]).name@ == names@[j]@ && !keypoints@[j].required,
                decreases names.len() - i,
            {
                keypoints.push(KeypointSpec { name: names[i].clone(), required: false });
                i += 1;
            }
            let s = SkeletonSpec { keypoints, edges: Vec::new(), allow_hidden: true, allow_absent: true };
            assert(skeleton_value(s).keypoints =~= ids::csv_entries(c.target_keypoint_names@).map_values(
                |n: Seq<char>| (n, false),
            ));
            assert(skeleton_value(s).edges =~= Seq::<(Seq<char>, Seq<char>)>::empty());
            s
        },
    }
}

fn new_box_mapping(c: &ImportCategoryDraft) -> (m: ImportTaskMappingRequest)
    ensures
        task_mapping_value(m) == origin_value(seq![*c], TaskOrigin::NewBox(0)),
{
    let name = text::trimmed(c.bounding_box_task_name.as_str());
    let task = crate::import_support::mapped_task(
        text::trimmed(c.bounding_box_task_id.as_str()),
        name.as_str(),
        AnnotationType::BoundingBox,
        text::trimmed(c.class_id.as_str()),
        None,
        None,
        c.workflow_intent,
    );
    let m = ImportTaskMappingRequest {
        source_category_key: c.source_category_key.clone(),
        task,
        workflow_intent: c.workflow_intent,
    };
    assert(string_values(m.task.class_ids@) =~= seq![text::trim(c.class_id@)]);
    assert(string_values(m.task.instructions.example_images@) =~= Seq::<Seq<char>>::empty());
    assert(string_values(m.task.prelabel_config_ids@) =~= Seq::<Seq<char>>::empty());
    m
}

fn new_skeleton_mapping(c: &ImportCategoryDraft) -> (m: ImportTaskMappingRequest)
    ensures
        task_mapping_value(m) == origin_value(seq![*c], TaskOrigin::NewSkeleton(0)),
{
    let name = text::trimmed(c.skeleton_task_name.as_str());
    let migration = migration_of(c);
    let task = crate::import_support::mapped_task(
        text::trimmed(c.skeleton_task_id.as_str()),
        name.as_str(),
        AnnotationType::Skeleton,
        text::trimmed(c.class_id.as_str()),
        Some(generated_skeleton(c)),
        migration,
        c.workflow_intent,
    );
    let m = ImportTaskMappingRequest {
        source_category_key: c.source_category_key.clone(),
        task,
        workflow_intent: c.workflow_intent,
    };
    assert(string_values(m.task.class_ids@) =~= seq![text::trim(c.class_id@)]);
    assert(string_values(m.task.instructions.example_images@) =~= Seq::<Seq<char>>::empty());
    assert(string_values(m.task.prelabel_config_ids@) =~= Seq::<Seq<char>>::empty());
    m
}

fn push_category_tasks(tasks: &mut Vec<ImportTaskMappingRequest>, cats: &Vec<ImportCategoryDraft>, ci: usize, Ghost(prev): Ghost<Seq<TaskOrigin>>) -> (generated: bool)
    requires
        ci < cats@.len(),
        task_mapping_values(old(tasks)@) == origin_values(cats@, prev),
        forall|j: int| 0 <= j < prev.len() ==> origin_category(#[trigger] prev[j]) < ci,
    ensures
        task_mapping_values(final(tasks)@) == origin_values(cats@, category_task_origins(cats@, prev, ci as int)),
        generated == (category_task_origins(cats@, prev, ci as int).len() > 0 && category_task_origins(cats@, prev, ci as int).last()
            == TaskOrigin::NewSkeleton(ci as int)),
{
    let c = &cats[ci];
    let ghost cs = cats@;
    let mut k: usize = 0;
    while k < c.task_mappings.len()
        invariant
            k <= c.task_mappings@.len(),
            ci < cs.len(),
            cs == cats@,
            *c == cs[ci as int],
            task_mapping_values(tasks@) == origin_values(cs, prev + stored_task_origins(cs, ci as int, k as nat)),
        decreases c.task_mappings.len() - k,
    {
        let stored = &c.task_mappings[k];
        let ghost before = prev + stored_task_origins(cs, ci as int, k as nat);
        let ghost vals = task_mapping_values(tasks@);
        if produces_geometry(c, geometry_of_type(stored.task.annotation_type)) {
            let m = stored_task_mapping(c, stored);
            let ghost o = TaskOrigin::Stored(ci as int, k as int);
            assert(task_mapping_value(m) == origin_value(cs, o));
            tasks.push(m);
            assert(task_mapping_values(tasks@) =~= vals.push(origin_value(cs, o)));
            assert(origin_values(cs, before.push(o)) =~= origin_values(cs, before).push(origin_value(cs, o)));
            assert(before.push(o) =~= prev + stored_task_origins(cs, ci as int, (k + 1) as nat));
        } else {
            assert(before =~= prev + stored_task_origins(cs, ci as int, (k + 1) as nat));
        }
        k += 1;
    }
    let ghost a = prev + stored_task_origins(cs, ci as int, c.task_mappings@.len());
    proof {
        lemma_lookup(cs, a, c.source_category_key@, AnnotationType::BoundingBox);
    }
    let ghost b = if produces(*c, ImportGeometryKind::BoundingBox) && !has_output(cs, a, c.source_category_key@, AnnotationType::BoundingBox) {
        a.push(TaskOrigin::NewBox(ci as int))
    } else {
        a
    };
    if produces_geometry(c, ImportGeometryKind::BoundingBox) && !output_filed(tasks, c.source_category_key.as_str(), AnnotationType::BoundingBox) {
        let m = new_box_mapping(c);
        let ghost o = TaskOrigin::NewBox(ci as int);
        assert(origin_value(cs, o) == origin_value(seq![*c], TaskOrigin::NewBox(0)));
        let ghost vals = task_mapping_values(tasks@);
        tasks.push(m);
        assert(task_mapping_values(tasks@) =~= vals.push(origin_value(cs, o)));
        assert(origin_values(cs, a.push(o)) =~= origin_values(cs, a).push(origin_value(cs, o)));
    }
    proof {
        lemma_lookup(cs, b, c.source_category_key@, AnnotationType::Skeleton);
        lemma_stored_origins_of(cs, ci as int, c.task_mappings@.len());
        if b.len() > 0 {
            if b.len() > prev.len() {
                let x = b.last();
                assert(x is Stored || x == TaskOrigin::NewBox(ci as int)) by {
                    if b.len() > a.len() {
                    } else {
                        let s = stored_task_origins(cs, ci as int, c.task_mappings@.len());
                        assert(b.last() == s[s.len() - 1]);
                    }
                }
            } else {
                assert(b.last() == prev[prev.len() - 1]);
                assert(origin_category(prev[prev.len() - 1]) < ci);
            }
        }
    }
    if produces_geometry(c, ImportGeometryKind::Skeleton) && !output_filed(tasks, c.source_category_key.as_str(), AnnotationType::Skeleton) {
        let m = new_skeleton_mapping(c);
        let ghost o = TaskOrigin::NewSkeleton(ci as int);
        assert(origin_value(cs, o) == origin_value(seq![*c], TaskOrigin::NewSkeleton(0)));
        let ghost vals = task_mapping_values(tasks@);
        tasks.push(m);
        assert(task_mapping_values(tasks@) =~= vals.push(origin_value(cs, o)));
        assert(origin_values(cs, b.push(o)) =~= origin_values(cs, b).push(origin_value(cs, o)));
        true
    } else {
        false
    }
}

/// Where a skeleton mapping of the request comes from: the generated
/// skeleton workflow of a category, or a skeleton mapping it carries.
pub enum SkeletonOrigin {
    New(int),
    Stored(int, int),
}

/// The carried skeleton mappings of category `ci`.
pub open spec fn stored_skeleton_origins(cats: Seq<ImportCategoryDraft>, ci: int) -> Seq<SkeletonOrigin> {
    Seq::new(cats[ci].skeleton_mappings@.len(), |k: int| SkeletonOrigin::Stored(ci, k))
}

/// The skeleton mappings of the first `n` categories: for each included
/// category, one for a generated skeleton workflow, then, when it produces
/// skeletons, each skeleton mapping it carries.
pub open spec fn skeleton_origins(cats: Seq<ImportCategoryDraft>, n: nat) -> Seq<SkeletonOrigin>
    decreases n,
{
    if n == 0 {
        Seq::empty()
    } else {
        let prev = skeleton_origins(cats, (n - 1) as nat);
        let c = cats[n - 1];
        if c.selected {
            let outs = task_origins(cats, n);
            prev + (if outs.len() > 0 && outs.last() == TaskOrigin::NewSkeleton(n - 1) {
                seq![SkeletonOrigin::New(n - 1)]
            } else {
                Seq::<SkeletonOrigin>::empty()
            }) + if produces(c, ImportGeometryKind::Skeleton) {
                stored_skeleton_origins(cats, n - 1)
            } else {
                Seq::<SkeletonOrigin>::empty()
            }
        } else {
            prev
        }
    }
}

/// Workflow `i` is the first skeleton workflow filed under `key`.
pub open spec fn first_skeleton_workflow(cats: Seq<ImportCategoryDraft>, outs: Seq<TaskOrigin>, key: Seq<char>, i: int) -> bool {
    &&& 0 <= i < outs.len()
    &&& origin_key(cats, outs[i]) == key
    &&& origin_type(cats, outs[i]) == AnnotationType::Skeleton
    &&& forall|j: int|
        0 <= j < i ==> !(origin_key(cats, #[trigger] outs[j]) == key && origin_type(cats, outs[j]) == AnnotationType::Skeleton)
}

/// The skeleton of the first skeleton workflow filed under `key`, if it
/// has one.
pub open spec fn replacement_skeleton(cats: Seq<ImportCategoryDraft>, outs: Seq<TaskOrigin>, key: Seq<char>) -> Option<SkeletonValue> {
    if exists|i: int| first_skeleton_workflow(cats, outs, key, i) {
        origin_value(cats, outs[choose|i: int| first_skeleton_workflow(cats, outs, key, i)]).1.skeleton
    } else {
        None
    }
}

/// The names of a skeleton's keypoints.
pub open spec fn skeleton_names(s: SkeletonValue) -> Seq<Seq<char>> {
    s.keypoints.map_values(|k: (Seq<char>, bool)| k.0)
}

/// A skeleton mapping as a plain value: key, target workflow, source
/// keypoint names, skeleton, and whether the names are confirmed.
pub type SkeletonMappingValue = (Seq<char>, Seq<char>, Seq<Seq<char>>, SkeletonValue, bool);

/// The skeleton mapping an origin stands for.  A carried mapping takes the
/// skeleton of the first skeleton workflow filed under its trimmed key,
/// when that workflow has one; source keypoint names are listed only when
/// skeletons are imported directly.
pub open spec fn skeleton_origin_value(cats: Seq<ImportCategoryDraft>, o: SkeletonOrigin) -> SkeletonMappingValue {
    match o {
        SkeletonOrigin::New(ci) => {
            let c = cats[ci];
            let sk = new_skeleton(c);
            (
                c.source_category_key@,
                text::trim(c.skeleton_task_id@),
                if direct_target(c) {
                    skeleton_names(sk)
                } else {
                    Seq::empty()
                },
                sk,
                true,
            )
        },
        SkeletonOrigin::Stored(ci, k) => {
            let c = cats[ci];
            let st = c.skeleton_mappings@[k];
            let key = text::trim(c.source_category_key@);
            let sk = match replacement_skeleton(cats, task_origins(cats, (ci + 1) as nat), key) {
                Some(v) => v,
                None => skeleton_value(st.skeleton),
            };
            (
                key,
                text::trim(c.skeleton_task_id@),
                if direct_target(c) {
                    skeleton_names(sk)
                } else {
                    Seq::empty()
                },
                sk,
                st.names_confirmed,
            )
        },
    }
}

/// The skeleton mappings the origins stand for.
pub open spec fn skeleton_origin_values(cats: Seq<ImportCategoryDraft>, os: Seq<SkeletonOrigin>) -> Seq<SkeletonMappingValue> {
    os.map_values(|o: SkeletonOrigin| skeleton_origin_value(cats, o))
}

/// The plain value of a skeleton mapping.
pub open spec fn skeleton_mapping_value(m: ImportSkeletonMappingRequest) -> SkeletonMappingValue {
    (m.source_category_key@, m.target_task_id@, string_values(m.source_keypoint_names@), skeleton_value(m.skeleton), m.names_confirmed)
}

/// The plain values of a list of skeleton mappings.
pub open spec fn skeleton_mapping_values(ms: Seq<ImportSkeletonMappingRequest>) -> Seq<SkeletonMappingValue> {
    ms.map_values(|m: ImportSkeletonMappingRequest| skeleton_mapping_value(m))
}

fn keypoint_names_of(s: &SkeletonSpec) -> (r: Vec<String>)
    ensures
        string_values(r@) == skeleton_names(skeleton_value(*s)),
{
    let mut r: Vec<String> = Vec::new();
    let mut i: usize = 0;
    while i < s.keypoints.len()
        invariant
            i <= s.keypoints@.len(),
            string_values(r@) =~= skeleton_names(skeleton_value(*s)).subrange(0, i as int),
        decreases s.keypoints.len() - i,
    {
        let ghost before = r@;
        r.push(s.keypoints[i].name.clone());
        assert(string_values(r@) =~= string_values(before).push(s.keypoints@[i as int].name@));
        i += 1;
    }
    r
}

fn first_skeleton_task(tasks: &Vec<ImportTaskMappingRequest>, key: &str, Ghost(cats): Ghost<Seq<ImportCategoryDraft>>, Ghost(outs): Ghost<Seq<TaskOrigin>>) -> (r: Option<usize>)
    requires
        task_mapping_values(tasks@) == origin_values(cats, outs),
    ensures
        match r {
            Some(i) => first_skeleton_workflow(cats, outs, key@, i as int),
            None => !exists|i: int| first_skeleton_workflow(cats, outs, key@, i),
        },
{
    assert(task_mapping_values(tasks@).len() == tasks@.len());
    assert(origin_values(cats, outs).len() == outs.len());
    let mut i: usize = 0;
    while i < tasks.len()
        invariant
            i <= tasks@.len(),
            outs.len() == tasks@.len(),
            task_mapping_values(tasks@) == origin_values(cats, outs),
            forall|j: int|
                0 <= j < i ==> !(origin_key(cats, #[trigger] outs[j]) == key@ && origin_type(cats, outs[j]) == AnnotationType::Skeleton),
        decreases tasks.len() - i,
    {
        let m = &tasks[i];
        proof {
            assert(task_mapping_values(tasks@)[i as int] == task_mapping_value(*m));
            assert(origin_values(cats, outs)[i as int] == origin_value(cats, outs[i as int]));
            lemma_origin_value_key_type(cats, outs[i as int]);
        }
        if text::str_eq(m.source_category_key.as_str(), key) && m.task.annotation_type == AnnotationType::Skeleton {
            return Some(i);
        }
        i += 1;
    }
    None
}

fn stored_skeleton_mapping(
    tasks: &Vec<ImportTaskMappingRequest>,
    cats: &Vec<ImportCategoryDraft>,
    ci: usize,
    k: usize,
) -> (m: ImportSkeletonMappingRequest)
    requires
        ci < cats@.len(),
        k < cats@[ci as int].skeleton_mappings@.len(),
        task_mapping_values(tasks@) == origin_values(cats@, task_origins(cats@, (ci + 1) as nat)),
    ensures
        skeleton_mapping_value(m) == skeleton_origin_value(cats@, SkeletonOrigin::Stored(ci as int, k as int)),
{
    let c = &cats[ci];
    let st = &c.skeleton_mappings[k];
    let key = text::trimmed(c.source_category_key.as_str());
    let ghost outs = task_origins(cats@, (ci + 1) as nat);
    assert(task_mapping_values(tasks@).len() == tasks@.len());
    assert(origin_values(cats@, outs).len() == outs.len());
    let found = first_skeleton_task(tasks, key.as_str(), Ghost(cats@), Ghost(outs));
    let skeleton = match found {
        Some(i) => {
            proof {
                let x = choose|x: int| first_skeleton_workflow(cats@, outs, key@, x);
                if x < i {
                    assert(!(origin_key(cats@, outs[x]) == key@ && origin_type(cats@, outs[x]) == AnnotationType::Skeleton));
                } else if i < x {
                    assert(!(origin_key(cats@, outs[i as int]) == key@ && origin_type(cats@, outs[i as int]) == AnnotationType::Skeleton));
                }
                assert(task_mapping_values(tasks@)[i as int] == task_mapping_value(tasks@[i as int]));
                assert(origin_values(cats@, outs)[i as int] == origin_value(cats@, outs[i as int]));
            }
            match &tasks[i].task.skeleton {
                Some(s) => copy_skeleton(s),
                None => copy_skeleton(&st.skeleton),
            }
        },
        None => copy_skeleton(&st.skeleton),
    };
    let names = if skeleton_output_with(c, ImportGeometryPolicy::Direct) {
        keypoint_names_of(&skeleton)
    } else {
        Vec::new()
    };
    let m = ImportSkeletonMappingRequest {
        source_category_key: key,
        target_task_id: text::trimmed(c.skeleton_task_id.as_str()),
        source_keypoint_names: names,
        skeleton,
        names_confirmed: st.names_confirmed,
    };
    assert(string_values(Seq::<String>::empty()) =~= Seq::<Seq<char>>::empty());
    m
}

fn new_skeleton_entry(c: &ImportCategoryDraft) -> (m: ImportSkeletonMappingRequest)
    ensures
        skeleton_mapping_value(m) == skeleton_origin_value(seq![*c], SkeletonOrigin::New(0)),
{
    let skeleton = generated_skeleton(c);
    let names = if skeleton_output_with(c, ImportGeometryPolicy::Direct) {
        keypoint_names_of(&skeleton)
    } else {
        Vec::new()
    };
    let m = ImportSkeletonMappingRequest {
        source_category_key: c.source_category_key.clone(),
        target_task_id: text::trimmed(c.skeleton_task_id.as_str()),
        source_keypoint_names: names,
        skeleton,
        names_confirmed: true,
    };
    assert(string_values(Seq::<String>::empty()) =~= Seq::<Seq<char>>::empty());
    m
}

fn push_category_skeletons(
    skels: &mut Vec<ImportSkeletonMappingRequest>,
    tasks: &Vec<ImportTaskMappingRequest>,
    cats: &Vec<ImportCategoryDraft>,
    ci: usize,
    generated: bool,
)
    requires
        ci < cats@.len(),
        cats@[ci as int].selected,
        task_mapping_values(tasks@) == origin_values(cats@, task_origins(cats@, (ci + 1) as nat)),
        generated == (task_origins(cats@, (ci + 1) as nat).len() > 0 && task_origins(cats@, (ci + 1) as nat).last()
            == TaskOrigin::NewSkeleton(ci as int)),
        skeleton_mapping_values(old(skels)@) == skeleton_origin_values(cats@, skeleton_origins(cats@, ci as nat)),
    ensures
        skeleton_mapping_values(final(skels)@) == skeleton_origin_values(cats@, skeleton_origins(cats@, (ci + 1) as nat)),
{
    let c = &cats[ci];
    let ghost cs = cats@;
    let ghost prev = skeleton_origins(cs, ci as nat);
    let ghost head = prev + if generated {
        seq![SkeletonOrigin::New(ci as int)]
    } else {
        Seq::<SkeletonOrigin>::empty()
    };
    if generated {
        let m = new_skeleton_entry(c);
        let ghost o = SkeletonOrigin::New(ci as int);
        assert(skeleton_origin_value(cs, o) == skeleton_origin_value(seq![*c], SkeletonOrigin::New(0)));
        let ghost vals = skeleton_mapping_values(skels@);
        skels.push(m);
        assert(skeleton_mapping_values(skels@) =~= vals.push(skeleton_origin_value(cs, o)));
        assert(skeleton_origin_values(cs, head) =~= skeleton_origin_values(cs, prev).push(skeleton_origin_value(cs, o)));
    } else {
        assert(head =~= prev);
    }
    if produces_geometry(c, ImportGeometryKind::Skeleton) {
        let mut k: usize = 0;
        while k < c.skeleton_mappings.len()
            invariant
                k <= c.skeleton_mappings@.len(),
                ci < cs.len(),
                cs == cats@,
                *c == cs[ci as int],
                task_mapping_values(tasks@) == origin_values(cs, task_origins(cs, (ci + 1) as nat)),
                skeleton_mapping_values(skels@) == skeleton_origin_values(
                    cs,
                    head + stored_skeleton_origins(cs, ci as int).subrange(0, k as int),
                ),
            decreases c.skeleton_mappings.len() - k,
        {
            let m = stored_skeleton_mapping(tasks, cats, ci, k);
            let ghost o = SkeletonOrigin::Stored(ci as int, k as int);
            let ghost before = head + stored_skeleton_origins(cs, ci as int).subrange(0, k as int);
            let ghost vals = skeleton_mapping_values(skels@);
            skels.push(m);
            assert(skeleton_mapping_values(skels@) =~= vals.push(skeleton_origin_value(cs, o)));
            assert(before.push(o) =~= head + stored_skeleton_origins(cs, ci as int).subrange(0, k + 1));
            assert(skeleton_origin_values(cs, before.push(o)) =~= skeleton_origin_values(cs, before).push(
                skeleton_origin_value(cs, o),
            ));
            k += 1;
        }
        assert(stored_skeleton_origins(cs, ci as int).subrange(0, c.skeleton_mappings@.len() as int)
            =~= stored_skeleton_origins(cs, ci as int));
    } else {
        assert(head + Seq::<SkeletonOrigin>::empty() =~= head);
    }
}

/// A category mapping as a plain value: key, source id, class id, class
/// name, colour and whether the category is included.
pub type CategoryMappingValue = (Seq<char>, Seq<char>, Seq<char>, Seq<char>, Seq<char>, bool);

/// The category mapping a category draft asks for: its fields trimmed.
pub open spec fn category_request(c: ImportCategoryDraft) -> CategoryMappingValue {
    (
        text::trim(c.source_category_key@),
        text::trim(c.source_category_id@),
        text::trim(c.class_id@),
        text::trim(c.class_name@),
        text::trim(c.class_color@),
        c.selected,
    )
}

/// The plain value of a category mapping.
pub open spec fn category_mapping_value(m: ImportCategoryMappingRequest) -> CategoryMappingValue {
    (m.source_category_key@, m.source_category_id@, m.class_id@, m.class_name@, m.color@, m.selected)
}

/// A mapping parameter as a plain value.
pub enum ParameterValue {
    Scalar(Seq<char>, bool, bool),
    Boolean(Seq<char>, bool),
    Point(Seq<char>, bool, KeypointState),
}

/// The plain value of a mapping parameter.
pub open spec fn parameter_value(p: ImportMappingParameter) -> ParameterValue {
    match p {
        ImportMappingParameter::Scalar { name, unit_interval, pixel_count } => ParameterValue::Scalar(
            name@,
            unit_interval,
            pixel_count,
        ),
        ImportMappingParameter::Boolean { name, value } => ParameterValue::Boolean(name@, value),
        ImportMappingParameter::Point { name, in_unit_square, state } => ParameterValue::Point(name@, in_unit_square, state),
    }
}

/// The plain values of a list of mapping parameters.
pub open spec fn parameter_values(ps: Seq<ImportMappingParameter>) -> Seq<ParameterValue> {
    ps.map_values(|p: ImportMappingParameter| parameter_value(p))
}

/// A geometry mapping as a plain value.
pub type GeometryMappingValue = (Seq<char>, ImportGeometryKind, ImportGeometryKind, ImportGeometryPolicy, Seq<ParameterValue>);

/// The plain value of a geometry mapping.
pub open spec fn geometry_mapping_value(m: ImportGeometryMappingRequest) -> GeometryMappingValue {
    (m.source_category_key@, m.source_geometry, m.target_geometry, m.policy, parameter_values(m.parameters@))
}

/// The geometry mappings of a category, filed under its trimmed key.
pub open spec fn category_geometry_requests(c: ImportCategoryDraft) -> Seq<GeometryMappingValue> {
    c.geometry_mappings@.map_values(
        |m: ImportGeometryMappingRequest|
            (
                text::trim(c.source_category_key@),
                m.source_geometry,
                m.target_geometry,
                m.policy,
                parameter_values(m.parameters@),
            ),
    )
}

/// The geometry mappings of the included categories among the first `n`.
pub open spec fn geometry_requests(cats: Seq<ImportCategoryDraft>, n: nat) -> Seq<GeometryMappingValue>
    decreases n,
{
    if n == 0 {
        Seq::empty()
    } else {
        geometry_requests(cats, (n - 1) as nat) + if cats[n - 1].selected {
            category_geometry_requests(cats[n - 1])
        } else {
            Seq::<GeometryMappingValue>::empty()
        }
    }
}

/// The policy the first earlier acknowledgement of `code` chose.
pub open spec fn first_policy(code: Seq<char>, acks: Seq<ImportAcknowledgementRequest>) -> Option<Seq<char>>
    decreases acks.len(),
{
    if acks.len() == 0 {
        None
    } else if acks[0].diagnostic_code@ == code {
        Some(acks[0].policy@)
    } else {
        first_policy(code, acks.drop_first())
    }
}

/// The policy an acknowledgement of `code` records: the one the accepted
/// plan chose for it, else "mapping selection".
pub open spec fn acknowledgement_policy(code: Seq<char>, accepted: Option<Seq<ImportAcknowledgementRequest>>) -> Seq<char> {
    match accepted {
        Some(acks) => match first_policy(code, acks) {
            Some(p) => p,
            None => "mapping selection"@,
        },
        None => "mapping selection"@,
    }
}

/// An acknowledgement as a plain value: code, policy, affected count and
/// whether it is acknowledged.
pub type AcknowledgementValue = (Seq<char>, Seq<char>, u64, bool);

/// The plain value of an acknowledgement.
pub open spec fn acknowledgement_value(a: ImportAcknowledgementRequest) -> AcknowledgementValue {
    (a.diagnostic_code@, a.policy@, a.affected_count, a.acknowledged)
}

/// One acknowledgement for each preflight diagnostic whose code the user
/// acknowledged, in diagnostic order.
pub open spec fn acknowledgement_requests(
    diags: Seq<PreflightDiagnostic>,
    acked: Seq<Seq<char>>,
    accepted: Option<Seq<ImportAcknowledgementRequest>>,
) -> Seq<AcknowledgementValue>
    decreases diags.len(),
{
    if diags.len() == 0 {
        Seq::empty()
    } else {
        let d = diags.last();
        acknowledgement_requests(diags.drop_last(), acked, accepted) + if acked.contains(d.code@) {
            seq![(d.code@, acknowledgement_policy(d.code@, accepted), d.count, true)]
        } else {
            Seq::<AcknowledgementValue>::empty()
        }
    }
}

fn copy_parameter(p: &ImportMappingParameter) -> (r: ImportMappingParameter)
    ensures
        r == *p,
{
    match p {
        ImportMappingParameter::Scalar { name, unit_interval, pixel_count } => ImportMappingParameter::Scalar {
            name: name.clone(),
            unit_interval: *unit_interval,
            pixel_count: *pixel_count,
        },
        ImportMappingParameter::Boolean { name, value } => ImportMappingParameter::Boolean { name: name.clone(), value: *value },
        ImportMappingParameter::Point { name, in_unit_square, state } => ImportMappingParameter::Point {
            name: name.clone(),
            in_unit_square: *in_unit_square,
            state: *state,
        },
    }
}

fn copy_parameters(ps: &Vec<ImportMappingParameter>) -> (r: Vec<ImportMappingParameter>)
    ensures
        r@ == ps@,
{
    let mut r: Vec<ImportMappingParameter> = Vec::new();
    let mut i: usize = 0;
    while i < ps.len()
        invariant
            i <= ps@.len(),
            r@ =~= ps@.subrange(0, i as int),
        decreases ps.len() - i,
    {
        r.push(copy_parameter(&ps[i]));
        i += 1;
    }
    r
}

fn category_mappings(cats: &Vec<ImportCategoryDraft>) -> (r: Vec<ImportCategoryMappingRequest>)
    ensures
        r@.map_values(|m: ImportCategoryMappingRequest| category_mapping_value(m)) == cats@.map_values(
            |c: ImportCategoryDraft| category_request(c),
        ),
{
    let mut r: Vec<ImportCategoryMappingRequest> = Vec::new();
    let mut i: usize = 0;
    while i < cats.len()
        invariant
            i <= cats@.len(),
            r@.map_values(|m: ImportCategoryMappingRequest| category_mapping_value(m)) =~= cats@.subrange(0, i as int).map_values(
                |c: ImportCategoryDraft| category_request(c),
            ),
        decreases cats.len() - i,
    {
        let c = &cats[i];
        let ghost before = r@;
        r.push(
            ImportCategoryMappingRequest {
                source_category_key: text::trimmed(c.source_category_key.as_str()),
                source_category_id: text::trimmed(c.source_category_id.as_str()),
                class_id: text::trimmed(c.class_id.as_str()),
                class_name: text::trimmed(c.class_name.as_str()),
                color: text::trimmed(c.class_color.as_str()),
                selected: c.selected,
            },
        );
        assert(r@.map_values(|m: ImportCategoryMappingRequest| category_mapping_value(m)) =~= before.map_values(
            |m: ImportCategoryMappingRequest| category_mapping_value(m),
        ).push(category_request(*c)));
        assert(cats@.subrange(0, i + 1) =~= cats@.subrange(0, i as int).push(*c));
        i += 1;
    }
    assert(cats@.subrange(0, cats@.len() as int) =~= cats@);
    r
}

fn push_category_geometry(geometry: &mut Vec<ImportGeometryMappingRequest>, c: &ImportCategoryDraft)
    ensures
        final(geometry)@.map_values(|m: ImportGeometryMappingRequest| geometry_mapping_value(m)) == old(geometry)@.map_values(
            |m: ImportGeometryMappingRequest| geometry_mapping_value(m),
        ) + category_geometry_requests(*c),
{
    let ghost start = old(geometry)@.map_values(|m: ImportGeometryMappingRequest| geometry_mapping_value(m));
    let key = text::trimmed(c.source_category_key.as_str());
    let mut k: usize = 0;
    while k < c.geometry_mappings.len()
        invariant
            k <= c.geometry_mappings@.len(),
            key@ == text::trim(c.source_category_key@),
            geometry@.map_values(|m: ImportGeometryMappingRequest| geometry_mapping_value(m)) =~= start
                + category_geometry_requests(*c).subrange(0, k as int),
        decreases c.geometry_mappings.len() - k,
    {
        let g = &c.geometry_mappings[k];
        let ghost before = geometry@;
        geometry.push(
            ImportGeometryMappingRequest {
                source_category_key: key.clone(),
                source_geometry: g.source_geometry,
                target_geometry: g.target_geometry,
                policy: g.policy,
                parameters: copy_parameters(&g.parameters),
            },
        );
        assert(geometry@.map_values(|m: ImportGeometryMappingRequest| geometry_mapping_value(m)) =~= before.map_values(
            |m: ImportGeometryMappingRequest| geometry_mapping_value(m),
        ).push(category_geometry_requests(*c)[k as int]));
        k += 1;
    }
    assert(category_geometry_requests(*c).subrange(0, c.geometry_mappings@.len() as int) =~= category_geometry_requests(*c));
}

/// The acknowledgements of the accepted plan, when there is one.
pub open spec fn accepted_view(accepted: Option<&Vec<ImportAcknowledgementRequest>>) -> Option<Seq<ImportAcknowledgementRequest>> {
    match accepted {
        Some(v) => Some(v@),
        None => None,
    }
}

fn accepted_policy(code: &str, accepted: Option<&Vec<ImportAcknowledgementRequest>>) -> (r: String)
    ensures
        r@ == acknowledgement_policy(code@, accepted_view(accepted)),
{
    if let Some(acks) = accepted {
        assert(acks@.subrange(0, acks@.len() as int) =~= acks@);
        assert(accepted_view(accepted) == Some(acks@));
        let mut i: usize = 0;
        while i < acks.len()
            invariant
                i <= acks@.len(),
                accepted_view(accepted) == Some(acks@),
                first_policy(code@, acks@) == first_policy(code@, acks@.subrange(i as int, acks@.len() as int)),
            decreases acks.len() - i,
        {
            let a = &acks[i];
            let ghost rest = acks@.subrange(i as int, acks@.len() as int);
            assert(rest[0] == *a);
            if text::str_eq(a.diagnostic_code.as_str(), code) {
                assert(first_policy(code@, rest) == Some(a.policy@));
                return a.policy.clone();
            }
            assert(rest.drop_first() =~= acks@.subrange(i + 1, acks@.len() as int));
            i += 1;
        }
        assert(acks@.subrange(acks@.len() as int, acks@.len() as int) =~= Seq::<ImportAcknowledgementRequest>::empty());
    }
    text::to_string("mapping selection")
}

fn acknowledgements_for(
    diagnostics: Option<&Vec<PreflightDiagnostic>>,
    acknowledged: &Vec<String>,
    accepted: Option<&Vec<ImportAcknowledgementRequest>>,
) -> (r: Vec<ImportAcknowledgementRequest>)
    ensures
        r@.map_values(|a: ImportAcknowledgementRequest| acknowledgement_value(a)) == match diagnostics {
            Some(d) => acknowledgement_requests(
                d@,
                string_values(acknowledged@),
                accepted_view(accepted),
            ),
            None => Seq::<AcknowledgementValue>::empty(),
        },
{
    let mut r: Vec<ImportAcknowledgementRequest> = Vec::new();
    if let Some(diags) = diagnostics {
        let ghost acked = string_values(acknowledged@);
        let ghost acc = accepted_view(accepted);
        let mut i: usize = 0;
        while i < diags.len()
            invariant
                i <= diags@.len(),
                acked == string_values(acknowledged@),
                acc == accepted_view(accepted),
                r@.map_values(|a: ImportAcknowledgementRequest| acknowledgement_value(a)) =~= acknowledgement_requests(
                    diags@.subrange(0, i as int),
                    acked,
                    acc,
                ),
            decreases diags.len() - i,
        {
            let d = &diags[i];
            let ghost before = r@.map_values(|a: ImportAcknowledgementRequest| acknowledgement_value(a));
            assert(diags@.subrange(0, i + 1).drop_last() =~= diags@.subrange(0, i as int));
            assert(diags@.subrange(0, i + 1).last() == *d);
            assert(string_values(acknowledged@) == crate::ids::views(acknowledged@));
            if crate::ids::contains_string(acknowledged, d.code.as_str()) {
                r.push(
                    ImportAcknowledgementRequest {
                        diagnostic_code: d.code.clone(),
                        policy: accepted_policy(d.code.as_str(), accepted),
                        affected_count: d.count,
                        acknowledged: true,
                    },
                );
                assert(r@.map_values(|a: ImportAcknowledgementRequest| acknowledgement_value(a)) =~= before.push(
                    (d.code@, acknowledgement_policy(d.code@, acc), d.count, true),
                ));
            }
            i += 1;
        }
        assert(diags@.subrange(0, diags@.len() as int) =~= diags@);
    }
    r
}

/// The mapping plan request for a draft.
///
/// Every category gets a category mapping with its fields trimmed.  Each
/// included category contributes its geometry mappings under its trimmed
/// key; the workflow mappings it carries for outputs it produces, re-filed
/// under its trimmed key and rebound to its class, workflow ids, names and
/// review intent; a generated bounding-box or skeleton workflow for each
/// produced output that no workflow is filed under its key for yet; a
/// skeleton mapping for a generated skeleton workflow; and, when it
/// produces skeletons, the skeleton mappings it carries.  Each preflight
/// diagnostic whose code was acknowledged is acknowledged again, with the
/// policy the accepted plan chose for it or "mapping selection".
pub fn import_plan_request(
    draft: &ImportMappingDraft,
    diagnostics: Option<&Vec<PreflightDiagnostic>>,
    acknowledged: &Vec<String>,
    accepted: Option<&Vec<ImportAcknowledgementRequest>>,
) -> (r: UpdateImportPlanRequest)
    ensures
        r.category_mappings@.map_values(|m: ImportCategoryMappingRequest| category_mapping_value(m))
            == draft.categories@.map_values(|c: ImportCategoryDraft| category_request(c)),
        r.geometry_mappings@.map_values(|m: ImportGeometryMappingRequest| geometry_mapping_value(m))
            == geometry_requests(draft.categories@, draft.categories@.len()),
        task_mapping_values(r.task_mappings@) == origin_values(
            draft.categories@,
            task_origins(draft.categories@, draft.categories@.len()),
        ),
        skeleton_mapping_values(r.skeleton_mappings@) == skeleton_origin_values(
            draft.categories@,
            skeleton_origins(draft.categories@, draft.categories@.len()),
        ),
        r.compatibility == draft.compatibility,
        r.acknowledgements@.map_values(|a: ImportAcknowledgementRequest| acknowledgement_value(a)) == match diagnostics {
            Some(d) => acknowledgement_requests(d@, string_values(acknowledged@), accepted_view(accepted)),
            None => Seq::<AcknowledgementValue>::empty(),
        },
{
    let cats = &draft.categories;
    let ghost cs = cats@;
    let mut tasks: Vec<ImportTaskMappingRequest> = Vec::new();
    let mut skels: Vec<ImportSkeletonMappingRequest> = Vec::new();
    let mut geometry: Vec<ImportGeometryMappingRequest> = Vec::new();
    let mut i: usize = 0;
    while i < cats.len()
        invariant
            i <= cs.len(),
            cs == cats@,
            task_mapping_values(tasks@) == origin_values(cs, task_origins(cs, i as nat)),
            skeleton_mapping_values(skels@) == skeleton_origin_values(cs, skeleton_origins(cs, i as nat)),
            geometry@.map_values(|m: ImportGeometryMappingRequest| geometry_mapping_value(m)) == geometry_requests(cs, i as nat),
        decreases cats.len() - i,
    {
        let c = &cats[i];
        if c.selected {
            proof {
                lemma_origins_below(cs, i as nat);
            }
            let generated = push_category_tasks(&mut tasks, cats, i, Ghost(task_origins(cs, i as nat)));
            push_category_skeletons(&mut skels, &tasks, cats, i, generated);
            push_category_geometry(&mut geometry, c);
        } else {
            assert(geometry_requests(cs, (i + 1) as nat) =~= geometry_requests(cs, i as nat));
        }
        i += 1;
    }
    UpdateImportPlanRequest {
        category_mappings: category_mappings(cats),
        geometry_mappings: geometry,
        task_mappings: tasks,
        skeleton_mappings: skels,
        compatibility: draft.compatibility,
        acknowledgements: acknowledgements_for(diagnostics, acknowledged, accepted),
    }
}

/// Planning one more category keeps every workflow already planned, in
/// place.
proof fn lemma_origins_grow(cats: Seq<ImportCategoryDraft>, n: nat)
    ensures
        task_origins(cats, n).len() <= task_origins(cats, n + 1).len(),
        forall|j: int| 0 <= j < task_origins(cats, n).len() ==> #[trigger] task_origins(cats, n + 1)[j] == task_origins(cats, n)[j],
{
    let prev = task_origins(cats, n);
    if cats[n as int].selected {
        let c = cats[n as int];
        let a = prev + stored_task_origins(cats, n as int, c.task_mappings@.len());
        assert forall|j: int| 0 <= j < prev.len() implies #[trigger] task_origins(cats, n + 1)[j] == prev[j] by {
            assert(a[j] == prev[j]);
        }
    }
}

proof fn lemma_output_persists(cats: Seq<ImportCategoryDraft>, n: nat, m: nat, key: Seq<char>, t: AnnotationType)
    requires
        n <= m,
        has_output(cats, task_origins(cats, n), key, t),
    ensures
        has_output(cats, task_origins(cats, m), key, t),
    decreases m - n,
{
    if n < m {
        let i = choose|i: int|
            0 <= i < task_origins(cats, n).len() && origin_key(cats, #[trigger] task_origins(cats, n)[i]) == key
                && origin_type(cats, task_origins(cats, n)[i]) == t;
        lemma_origins_grow(cats, n);
        assert(task_origins(cats, n + 1)[i] == task_origins(cats, n)[i]);
        lemma_output_persists(cats, n + 1, m, key, t);
    }
}

proof fn lemma_category_outputs(cats: Seq<ImportCategoryDraft>, ci: int, t: AnnotationType)
    requires
        0 <= ci < cats.len(),
        cats[ci].selected,
        produces(cats[ci], geometry_of(t)),
    ensures
        has_output(cats, task_origins(cats, (ci + 1) as nat), cats[ci].source_category_key@, t),
{
    let c = cats[ci];
    let key = c.source_category_key@;
    let prev = task_origins(cats, ci as nat);
    let a = prev + stored_task_origins(cats, ci, c.task_mappings@.len());
    let b = if produces(c, ImportGeometryKind::BoundingBox) && !has_output(cats, a, key, AnnotationType::BoundingBox) {
        a.push(TaskOrigin::NewBox(ci))
    } else {
        a
    };
    let r = task_origins(cats, (ci + 1) as nat);
    assert(r == category_task_origins(cats, prev, ci));
    match t {
        AnnotationType::BoundingBox => {
            if has_output(cats, a, key, t) {
                let i = choose|i: int| 0 <= i < a.len() && origin_key(cats, #[trigger] a[i]) == key && origin_type(cats, a[i]) == t;
                assert(b[i] == a[i]);
                assert(r[i] == b[i]);
            } else {
                assert(b[a.len() as int] == TaskOrigin::NewBox(ci));
                assert(r[a.len() as int] == b[a.len() as int]);
            }
        },
        AnnotationType::Skeleton => {
            if !has_output(cats, b, key, t) {
                assert(r[b.len() as int] == TaskOrigin::NewSkeleton(ci));
            }
        },
    }
}

/// Every workflow planned for the first `n` categories comes from an
/// included one.
proof fn lemma_origins_selected(cats: Seq<ImportCategoryDraft>, n: nat)
    ensures
        forall|j: int| 0 <= j < task_origins(cats, n).len() ==> cats[origin_category(#[trigger] task_origins(cats, n)[j])].selected,
    decreases n,
{
    if n > 0 {
        lemma_origins_selected(cats, (n - 1) as nat);
        let prev = task_origins(cats, (n - 1) as nat);
        if cats[n - 1].selected {
            let ci = n - 1;
            lemma_stored_origins_of(cats, ci, cats[ci].task_mappings@.len());
            let st = stored_task_origins(cats, ci, cats[ci].task_mappings@.len());
            let a = prev + st;
            let r = task_origins(cats, n);
            assert forall|j: int| 0 <= j < r.len() implies cats[origin_category(#[trigger] r[j])].selected by {
                if j < prev.len() {
                    assert(r[j] == a[j]);
                    assert(a[j] == prev[j]);
                } else if j < a.len() {
                    assert(r[j] == a[j]);
                    assert(a[j] == st[j - prev.len()]);
                }
            }
        }
    }
}

/// Every output an included category produces gets a workflow of that
/// type in the plan request, filed under the category's key.
pub proof fn plan_request_covers_every_output(cats: Seq<ImportCategoryDraft>, ci: int, t: AnnotationType)
    requires
        0 <= ci < cats.len(),
        cats[ci].selected,
        produces(cats[ci], geometry_of(t)),
    ensures
        exists|j: int|
            0 <= j < task_origins(cats, cats.len()).len() && (#[trigger] origin_values(
                cats,
                task_origins(cats, cats.len()),
            )[j]).0 == cats[ci].source_category_key@ && origin_values(cats, task_origins(cats, cats.len()))[j].1.annotation_type == t,
{
    lemma_category_outputs(cats, ci, t);
    lemma_output_persists(cats, (ci + 1) as nat, cats.len(), cats[ci].source_category_key@, t);
    lemma_lookup(cats, task_origins(cats, cats.len()), cats[ci].source_category_key@, t);
}

/// A category left out of the import contributes no workflow to the plan
/// request: every workflow comes from an included category.
pub proof fn plan_request_workflows_come_from_included_categories(cats: Seq<ImportCategoryDraft>, j: int)
    requires
        0 <= j < task_origins(cats, cats.len()).len(),
    ensures
        0 <= origin_category(task_origins(cats, cats.len())[j]) < cats.len(),
        cats[origin_category(task_origins(cats, cats.len())[j])].selected,
{
    lemma_origins_below(cats, cats.len());
    lemma_origins_selected(cats, cats.len());
}

/// The category rows of a plan request: one per category, in order.
pub open spec fn category_rows(cats: Seq<ImportCategoryDraft>) -> Seq<CategoryMappingValue> {
    cats.map_values(|c: ImportCategoryDraft| category_request(c))
}

/// The category a skeleton mapping comes from.
pub open spec fn skeleton_origin_category(o: SkeletonOrigin) -> int {
    match o {
        SkeletonOrigin::New(c) => c,
        SkeletonOrigin::Stored(c, _) => c,
    }
}

/// Every geometry mapping of a category has the `Omit` policy.
pub open spec fn all_omitted(c: ImportCategoryDraft) -> bool {
    forall|g: int| 0 <= g < c.geometry_mappings@.len() ==> (#[trigger] c.geometry_mappings@[g]).policy == ImportGeometryPolicy::Omit
}

/// The workflows planned for the first `n` categories extend those planned
/// for the first `n - 1`, and every added one comes from category `n - 1`.
proof fn lemma_task_origins_step(cats: Seq<ImportCategoryDraft>, n: nat)
    requires
        n > 0,
    ensures
        task_origins(cats, n).len() >= task_origins(cats, (n - 1) as nat).len(),
        task_origins(cats, n).subrange(0, task_origins(cats, (n - 1) as nat).len() as int) == task_origins(
            cats,
            (n - 1) as nat,
        ),
        forall|j: int|
            task_origins(cats, (n - 1) as nat).len() <= j < task_origins(cats, n).len() ==> origin_category(
                #[trigger] task_origins(cats, n)[j],
            ) == n - 1,
{
    let prev = task_origins(cats, (n - 1) as nat);
    let r = task_origins(cats, n);
    if cats[n - 1].selected {
        let ci = n - 1;
        lemma_stored_origins_of(cats, ci, cats[ci].task_mappings@.len());
        let st = stored_task_origins(cats, ci, cats[ci].task_mappings@.len());
        let a = prev + st;
        assert(a.subrange(0, prev.len() as int) =~= prev);
        assert forall|j: int| prev.len() <= j < r.len() implies origin_category(#[trigger] r[j]) == n - 1 by {
            if j < a.len() {
                assert(r[j] == a[j]);
                assert(a[j] == st[j - prev.len()]);
            }
        }
        assert(r.subrange(0, prev.len() as int) =~= prev) by {
            assert forall|j: int| 0 <= j < prev.len() implies r[j] == prev[j] by {
                assert(r[j] == a[j]);
            }
        }
    } else {
        assert(r.subrange(0, prev.len() as int) =~= prev);
    }
}

/// A category whose geometry mappings are all omitted gets no workflow.
proof fn lemma_omitted_category_no_task(cats: Seq<ImportCategoryDraft>, ci: int, n: nat)
    requires
        0 <= ci < cats.len(),
        all_omitted(cats[ci]),
        n <= cats.len(),
    ensures
        forall|j: int| 0 <= j < task_origins(cats, n).len() ==> origin_category(#[trigger] task_origins(cats, n)[j]) != ci,
    decreases n,
{
    if n > 0 {
        lemma_omitted_category_no_task(cats, ci, (n - 1) as nat);
        lemma_task_origins_step(cats, n);
        let prev = task_origins(cats, (n - 1) as nat);
        let r = task_origins(cats, n);
        if n - 1 == ci && cats[ci].selected {
            let c = cats[ci];
            assert(!produces(c, ImportGeometryKind::BoundingBox));
            assert(!produces(c, ImportGeometryKind::Skeleton));
            lemma_no_stored_without_output(cats, ci, c.task_mappings@.len());
            assert(stored_task_origins(cats, ci, c.task_mappings@.len()) =~= Seq::<TaskOrigin>::empty());
            assert(r =~= prev);
        }
        assert forall|j: int| 0 <= j < r.len() implies origin_category(#[trigger] r[j]) != ci by {
            if j < prev.len() {
                assert(r[j] == r.subrange(0, prev.len() as int)[j]);
            }
        }
    }
}

/// A category that produces nothing carries no workflow into the request.
proof fn lemma_no_stored_without_output(cats: Seq<ImportCategoryDraft>, ci: int, n: nat)
    requires
        0 <= ci < cats.len(),
        !produces(cats[ci], ImportGeometryKind::BoundingBox),
        !produces(cats[ci], ImportGeometryKind::Skeleton),
    ensures
        stored_task_origins(cats, ci, n).len() == 0,
    decreases n,
{
    if n > 0 {
        lemma_no_stored_without_output(cats, ci, (n - 1) as nat);
        let t = cats[ci].task_mappings@[n - 1].task.annotation_type;
        assert(geometry_of(t) == ImportGeometryKind::BoundingBox || geometry_of(t) == ImportGeometryKind::Skeleton);
    }
}

/// Every skeleton mapping of the first `n` categories comes from an
/// included one of them, and none from an all-omitted category.
proof fn lemma_skeleton_origins_from(cats: Seq<ImportCategoryDraft>, n: nat)
    requires
        n <= cats.len(),
    ensures
        forall|j: int|
            0 <= j < skeleton_origins(cats, n).len() ==> {
                let c = skeleton_origin_category(#[trigger] skeleton_origins(cats, n)[j]);
                &&& 0 <= c < n
                &&& cats[c].selected
                &&& !all_omitted(cats[c])
            },
    decreases n,
{
    if n > 0 {
        lemma_skeleton_origins_from(cats, (n - 1) as nat);
        let prev = skeleton_origins(cats, (n - 1) as nat);
        let r = skeleton_origins(cats, n);
        let ci = n - 1;
        let c = cats[ci];
        if c.selected {
            let outs = task_origins(cats, n);
            let mid = if outs.len() > 0 && outs.last() == TaskOrigin::NewSkeleton(ci) {
                seq![SkeletonOrigin::New(ci)]
            } else {
                Seq::<SkeletonOrigin>::empty()
            };
            let tail = if produces(c, ImportGeometryKind::Skeleton) {
                stored_skeleton_origins(cats, ci)
            } else {
                Seq::<SkeletonOrigin>::empty()
            };
            assert(r == prev + mid + tail);
            if mid.len() > 0 && all_omitted(c) {
                lemma_omitted_category_no_task(cats, ci, n);
                assert(origin_category(outs[outs.len() - 1]) == ci);
            }
            if tail.len() > 0 {
                let k = choose|k: int|
                    0 <= k < c.geometry_mappings@.len() && (#[trigger] c.geometry_mappings@[k]).policy
                        != ImportGeometryPolicy::Omit && c.geometry_mappings@[k].target_geometry == ImportGeometryKind::Skeleton;
                assert(!all_omitted(c));
            }
            assert forall|j: int| 0 <= j < r.len() implies {
                let d = skeleton_origin_category(#[trigger] r[j]);
                &&& 0 <= d < n
                &&& cats[d].selected
                &&& !all_omitted(cats[d])
            } by {
                if j < prev.len() {
                    assert(r[j] == prev[j]);
                } else if j < prev.len() + mid.len() {
                    assert(r[j] == mid[j - prev.len()]);
                } else {
                    assert(r[j] == tail[j - prev.len() - mid.len()]);
                }
            }
        }
    }
}

/// The geometry mappings of the first `m` categories come first among those
/// of the first `n`.
proof fn lemma_geometry_prefix(cats: Seq<ImportCategoryDraft>, m: nat, n: nat)
    requires
        m <= n,
    ensures
        geometry_requests(cats, m).len() <= geometry_requests(cats, n).len(),
        geometry_requests(cats, n).subrange(0, geometry_requests(cats, m).len() as int) == geometry_requests(cats, m),
    decreases n - m,
{
    if m < n {
        lemma_geometry_prefix(cats, m, (n - 1) as nat);
        let a = geometry_requests(cats, (n - 1) as nat);
        let b = geometry_requests(cats, n);
        let p = geometry_requests(cats, m);
        assert(b.subrange(0, a.len() as int) =~= a);
        assert(b.subrange(0, p.len() as int) =~= a.subrange(0, p.len() as int));
    } else {
        assert(geometry_requests(cats, n).subrange(0, geometry_requests(cats, n).len() as int) =~= geometry_requests(cats, n));
    }
}

/// `v` is geometry mapping `g` of an included category among the first `n`.
pub open spec fn from_included_category(cats: Seq<ImportCategoryDraft>, n: int, v: GeometryMappingValue) -> bool {
    exists|ci: int, g: int|
        0 <= ci < n && cats[ci].selected && 0 <= g < cats[ci].geometry_mappings@.len() && v
            == #[trigger] category_geometry_requests(cats[ci])[g]
}

/// Every geometry mapping of the first `n` categories is one of an
/// included category.
proof fn lemma_geometry_from_included(cats: Seq<ImportCategoryDraft>, n: nat)
    requires
        n <= cats.len(),
    ensures
        forall|j: int|
            0 <= j < geometry_requests(cats, n).len() ==> from_included_category(cats, n as int, #[trigger] geometry_requests(cats, n)[j]),
    decreases n,
{
    if n > 0 {
        lemma_geometry_from_included(cats, (n - 1) as nat);
        let prev = geometry_requests(cats, (n - 1) as nat);
        let r = geometry_requests(cats, n);
        assert forall|j: int| 0 <= j < r.len() implies from_included_category(cats, n as int, #[trigger] r[j]) by {
            if j < prev.len() {
                assert(r[j] == prev[j]);
                assert(from_included_category(cats, n - 1, prev[j]));
                let (ci, g) = choose|ci: int, g: int|
                    0 <= ci < n - 1 && cats[ci].selected && 0 <= g < cats[ci].geometry_mappings@.len() && prev[j]
                        == #[trigger] category_geometry_requests(cats[ci])[g];
                assert(r[j] == category_geometry_requests(cats[ci])[g]);
            } else {
                let g = j - prev.len();
                assert(cats[n - 1].selected);
                assert(r[j] == category_geometry_requests(cats[n - 1])[g]);
            }
        }
    }
}

/// The shape of a plan request as a whole. It has one category row per
/// category, in order, each with the category's included flag. Every
/// geometry mapping, workflow mapping and skeleton mapping comes from an
/// included category. An included category whose geometry mappings are all
/// omitted passes those mappings on, at the place of its category, but adds
/// no workflow and no skeleton mapping.
pub proof fn plan_request_structure(cats: Seq<ImportCategoryDraft>)
    ensures
        category_rows(cats).len() == cats.len(),
        forall|i: int|
            0 <= i < cats.len() ==> (#[trigger] category_rows(cats)[i]).5 == cats[i].selected && category_rows(cats)[i].0
                == text::trim(cats[i].source_category_key@),
        forall|j: int|
            0 <= j < geometry_requests(cats, cats.len()).len() ==> from_included_category(
                cats,
                cats.len() as int,
                #[trigger] geometry_requests(cats, cats.len())[j],
            ),
        forall|j: int|
            0 <= j < task_origins(cats, cats.len()).len() ==> cats[origin_category(
                #[trigger] task_origins(cats, cats.len())[j],
            )].selected,
        forall|j: int|
            0 <= j < skeleton_origins(cats, cats.len()).len() ==> cats[skeleton_origin_category(
                #[trigger] skeleton_origins(cats, cats.len())[j],
            )].selected,
        forall|ci: int|
            0 <= ci < cats.len() && #[trigger] all_omitted(cats[ci]) ==> {
                &&& forall|j: int|
                    0 <= j < task_origins(cats, cats.len()).len() ==> origin_category(
                        #[trigger] task_origins(cats, cats.len())[j],
                    ) != ci
                &&& forall|j: int|
                    0 <= j < skeleton_origins(cats, cats.len()).len() ==> skeleton_origin_category(
                        #[trigger] skeleton_origins(cats, cats.len())[j],
                    ) != ci
                &&& cats[ci].selected ==> forall|g: int|
                    0 <= g < cats[ci].geometry_mappings@.len() ==> geometry_requests(cats, cats.len())[geometry_requests(
                        cats,
                        ci as nat,
                    ).len() + g] == #[trigger] category_geometry_requests(cats[ci])[g]
            },
{
    lemma_geometry_from_included(cats, cats.len());
    lemma_origins_below(cats, cats.len());
    lemma_origins_selected(cats, cats.len());
    lemma_skeleton_origins_from(cats, cats.len());
    assert forall|ci: int| 0 <= ci < cats.len() && #[trigger] all_omitted(cats[ci]) implies {
        &&& forall|j: int|
            0 <= j < task_origins(cats, cats.len()).len() ==> origin_category(#[trigger] task_origins(cats, cats.len())[j])
                != ci
        &&& forall|j: int|
            0 <= j < skeleton_origins(cats, cats.len()).len() ==> skeleton_origin_category(
                #[trigger] skeleton_origins(cats, cats.len())[j],
            ) != ci
        &&& cats[ci].selected ==> forall|g: int|
            0 <= g < cats[ci].geometry_mappings@.len() ==> geometry_requests(cats, cats.len())[geometry_requests(
                cats,
                ci as nat,
            ).len() + g] == #[trigger] category_geometry_requests(cats[ci])[g]
    } by {
        lemma_omitted_category_no_task(cats, ci, cats.len());
        lemma_geometry_prefix(cats, (ci + 1) as nat, cats.len());
        let whole = geometry_requests(cats, cats.len());
        let upto = geometry_requests(cats, (ci + 1) as nat);
        let before = geometry_requests(cats, ci as nat);
        if cats[ci].selected {
            assert forall|g: int| 0 <= g < cats[ci].geometry_mappings@.len() implies whole[before.len() + g]
                == #[trigger] category_geometry_requests(cats[ci])[g] by {
                assert(upto[before.len() + g] == category_geometry_requests(cats[ci])[g]);
                assert(whole.subrange(0, upto.len() as int)[before.len() + g] == upto[before.len() + g]);
            }
        }
    }
}


/// The four mapping lists of `r` are those `import_plan_request` makes for
/// `cats`.
pub open spec fn request_for_categories(cats: Seq<ImportCategoryDraft>, r: UpdateImportPlanRequest) -> bool {
    &&& r.category_mappings@.map_values(|m: ImportCategoryMappingRequest| category_mapping_value(m)) == category_rows(cats)
    &&& r.geometry_mappings@.map_values(|m: ImportGeometryMappingRequest| geometry_mapping_value(m)) == geometry_requests(
        cats,
        cats.len(),
    )
    &&& task_mapping_values(r.task_mappings@) == origin_values(cats, task_origins(cats, cats.len()))
    &&& skeleton_mapping_values(r.skeleton_mappings@) == skeleton_origin_values(cats, skeleton_origins(cats, cats.len()))
}

/// A workflow mapping stands for a workflow of an included category that
/// produces some output.
pub open spec fn task_from_producing_category(cats: Seq<ImportCategoryDraft>, v: TaskMappingValue) -> bool {
    exists|o: TaskOrigin|
        0 <= origin_category(o) < cats.len() && cats[origin_category(o)].selected && !all_omitted(cats[origin_category(o)])
            && v == #[trigger] origin_value(cats, o)
}

/// A skeleton mapping stands for one of an included category that produces
/// some output.
pub open spec fn skeleton_from_producing_category(cats: Seq<ImportCategoryDraft>, v: SkeletonMappingValue) -> bool {
    exists|o: SkeletonOrigin|
        0 <= skeleton_origin_category(o) < cats.len() && cats[skeleton_origin_category(o)].selected && !all_omitted(
            cats[skeleton_origin_category(o)],
        ) && v == #[trigger] skeleton_origin_value(cats, o)
}

/// Of every plan request made for a list of categories: it has one category
/// row per category, in order, with the category's trimmed key and its
/// included flag; each geometry mapping is one of an included category;
/// each workflow and skeleton mapping comes from an included category with
/// an output that is not omitted; every output such a category produces has
/// a workflow of its type filed under the category's key; and an included
/// category whose geometry mappings are all omitted still passes them on, in
/// place.
pub proof fn plan_request_selected_only(cats: Seq<ImportCategoryDraft>, r: UpdateImportPlanRequest)
    requires
        request_for_categories(cats, r),
    ensures
        r.category_mappings@.len() == cats.len(),
        forall|i: int|
            0 <= i < cats.len() ==> (#[trigger] r.category_mappings@[i]).selected == cats[i].selected
                && r.category_mappings@[i].source_category_key@ == text::trim(cats[i].source_category_key@),
        forall|j: int|
            0 <= j < r.geometry_mappings@.len() ==> from_included_category(
                cats,
                cats.len() as int,
                geometry_mapping_value(#[trigger] r.geometry_mappings@[j]),
            ),
        forall|j: int|
            0 <= j < r.task_mappings@.len() ==> task_from_producing_category(
                cats,
                task_mapping_value(#[trigger] r.task_mappings@[j]),
            ),
        forall|j: int|
            0 <= j < r.skeleton_mappings@.len() ==> skeleton_from_producing_category(
                cats,
                skeleton_mapping_value(#[trigger] r.skeleton_mappings@[j]),
            ),
        forall|ci: int, t: AnnotationType|
            0 <= ci < cats.len() && cats[ci].selected && #[trigger] produces(cats[ci], geometry_of(t)) ==> exists|j: int|
                0 <= j < r.task_mappings@.len() && (#[trigger] r.task_mappings@[j]).source_category_key@
                    == cats[ci].source_category_key@ && r.task_mappings@[j].task.annotation_type == t,
        forall|ci: int, g: int|
            0 <= ci < cats.len() && cats[ci].selected && all_omitted(cats[ci]) && 0 <= g
                < cats[ci].geometry_mappings@.len() ==> geometry_mapping_value(
                r.geometry_mappings@[geometry_requests(cats, ci as nat).len() + g],
            ) == #[trigger] category_geometry_requests(cats[ci])[g],
{
    plan_request_structure(cats);
    let rows = category_rows(cats);
    let geo = geometry_requests(cats, cats.len());
    let tos = task_origins(cats, cats.len());
    let sos = skeleton_origins(cats, cats.len());
    lemma_origins_below(cats, cats.len());
    assert(r.category_mappings@.len() == rows.len());
    assert forall|i: int| 0 <= i < cats.len() implies (#[trigger] r.category_mappings@[i]).selected == cats[i].selected
        && r.category_mappings@[i].source_category_key@ == text::trim(cats[i].source_category_key@) by {
        assert(category_mapping_value(r.category_mappings@[i]) == rows[i]);
    }
    assert(r.geometry_mappings@.len() == geo.len());
    assert forall|j: int| 0 <= j < r.geometry_mappings@.len() implies from_included_category(
        cats,
        cats.len() as int,
        geometry_mapping_value(#[trigger] r.geometry_mappings@[j]),
    ) by {
        assert(geometry_mapping_value(r.geometry_mappings@[j]) == geo[j]);
    }
    assert(task_mapping_values(r.task_mappings@).len() == r.task_mappings@.len());
    assert(origin_values(cats, tos).len() == tos.len());
    assert(r.task_mappings@.len() == tos.len());
    assert forall|j: int| 0 <= j < r.task_mappings@.len() implies task_from_producing_category(
        cats,
        task_mapping_value(#[trigger] r.task_mappings@[j]),
    ) by {
        let o = tos[j];
        assert(task_mapping_values(r.task_mappings@)[j] == task_mapping_value(r.task_mappings@[j]));
        assert(origin_values(cats, tos)[j] == origin_value(cats, o));
        if all_omitted(cats[origin_category(o)]) {
            assert(origin_category(tos[j]) != origin_category(o));
        }
    }
    assert(skeleton_mapping_values(r.skeleton_mappings@).len() == r.skeleton_mappings@.len());
    assert(skeleton_origin_values(cats, sos).len() == sos.len());
    assert(r.skeleton_mappings@.len() == sos.len());
    assert forall|j: int| 0 <= j < r.skeleton_mappings@.len() implies skeleton_from_producing_category(
        cats,
        skeleton_mapping_value(#[trigger] r.skeleton_mappings@[j]),
    ) by {
        let o = sos[j];
        lemma_skeleton_origins_from(cats, cats.len());
        assert(skeleton_mapping_values(r.skeleton_mappings@)[j] == skeleton_mapping_value(r.skeleton_mappings@[j]));
        assert(skeleton_origin_values(cats, sos)[j] == skeleton_origin_value(cats, o));
        if all_omitted(cats[skeleton_origin_category(o)]) {
            assert(skeleton_origin_category(sos[j]) != skeleton_origin_category(o));
        }
    }
    assert forall|ci: int, t: AnnotationType|
        0 <= ci < cats.len() && cats[ci].selected && #[trigger] produces(cats[ci], geometry_of(t)) implies exists|j: int|
        0 <= j < r.task_mappings@.len() && (#[trigger] r.task_mappings@[j]).source_category_key@
            == cats[ci].source_category_key@ && r.task_mappings@[j].task.annotation_type == t by {
        plan_request_covers_every_output(cats, ci, t);
        let j = choose|j: int|
            0 <= j < tos.len() && (#[trigger] origin_values(cats, tos)[j]).0 == cats[ci].source_category_key@
                && origin_values(cats, tos)[j].1.annotation_type == t;
        assert(task_mapping_values(r.task_mappings@)[j] == task_mapping_value(r.task_mappings@[j]));
    }
    assert forall|ci: int, g: int|
        0 <= ci < cats.len() && cats[ci].selected && all_omitted(cats[ci]) && 0 <= g < cats[ci].geometry_mappings@.len()
        implies geometry_mapping_value(r.geometry_mappings@[geometry_requests(cats, ci as nat).len() + g])
        == #[trigger] category_geometry_requests(cats[ci])[g] by {
        let k = geometry_requests(cats, ci as nat).len() + g;
        lemma_geometry_prefix(cats, (ci + 1) as nat, cats.len());
        assert(geometry_requests(cats, (ci + 1) as nat).len() == geometry_requests(cats, ci as nat).len()
            + category_geometry_requests(cats[ci]).len());
        assert(geo[k] == category_geometry_requests(cats[ci])[g]);
        assert(0 <= k < geo.len());
        assert(geometry_mapping_value(r.geometry_mappings@[k]) == geo[k]);
    }
}

} // verus!
