//! Restoring the import flow from a job the server already holds: its
//! source, attestations and, once a plan was accepted, the category drafts
//! the plan was built from.
use vstd::prelude::*;
use crate::diagnostics::{join, join_strings};
use crate::ids;
use crate::import_model::{
    ImportAcknowledgementRequest, ImportCategoryDraft, ImportCategoryMappingRequest, ImportDescriptorKind, ImportGeometryKind,
    ImportGeometryMappingRequest, ImportMappingDraft, ImportProfile, ImportSkeletonMappingRequest,
    ImportTaskMappingRequest, ImportTransport, ImportWorkflowIntent, UpdateImportPlanRequest,
};
use crate::import_support::{ImportDescriptorDraft, ImportSourceDraft, ImportYoloSplitDraft, RegisteredImportPath};
use crate::mapping_draft::{default_mappings_added, is_direct_mapping, seed_scope};
use crate::model::{AnnotationType, SkeletonSpec};
use crate::plan_request::skeleton_names;
use crate::model::skeleton_value;
use crate::text;

verus! {

/// A file the server registered for the import.
#[derive(Debug)]
pub struct RegisteredImportFile {
    pub client_file_id: String,
    pub file_id: String,
}

/// A descriptor file as the sealed source records it.
#[derive(Debug)]
pub struct ImportDescriptorSelection {
    pub descriptor_file_id: String,
    pub kind: ImportDescriptorKind,
    pub release: String,
    pub split: String,
    pub image_root_file_id: Option<String>,
    pub pairing_group: Option<String>,
}

/// A sealed import source.
#[derive(Debug)]
pub struct ImportSourceConfiguration {
    pub source_namespace: String,
    pub descriptors: Vec<ImportDescriptorSelection>,
    pub selected_splits: Vec<String>,
    pub selected_category_keys: Vec<String>,
}

/// What the importing user attests about the source.
#[derive(Debug)]
pub struct ImportAttestations {
    pub ground_truth: bool,
    pub exhaustive: bool,
    pub coverage_scope: Vec<String>,
    pub provenance: String,
}

/// A source category of an accepted plan, with the mappings currently in
/// force for it.
#[derive(Debug)]
pub struct ImportSourceCategory {
    pub source_category_key: String,
    pub source_category_id: String,
    pub source_name: String,
    pub direct_geometry: Vec<ImportGeometryKind>,
    pub keypoint_schema: Option<SkeletonSpec>,
    pub current_category_mapping: ImportCategoryMappingRequest,
    pub current_geometry_mappings: Vec<ImportGeometryMappingRequest>,
    pub current_task_mappings: Vec<ImportTaskMappingRequest>,
    pub current_skeleton_mappings: Vec<ImportSkeletonMappingRequest>,
}

/// An accepted plan: how many source categories its report discovered, its
/// source categories, and the request it was accepted for.
#[derive(Debug)]
pub struct ImportPlanRecord {
    pub discovered_categories: usize,
    pub source_categories: Vec<ImportSourceCategory>,
    pub accepted_request: Option<UpdateImportPlanRequest>,
}

/// What the server kept of an interrupted import.
#[derive(Debug)]
pub struct ImportRecoveryState {
    pub attestations: ImportAttestations,
    pub server_root_id: Option<String>,
    pub registered_files: Vec<RegisteredImportFile>,
    pub source: Option<ImportSourceConfiguration>,
    pub accepted_plan: Option<ImportPlanRecord>,
}

/// The parts of an import job the flow is restored from.
#[derive(Debug)]
pub struct ImportJobContract {
    pub profile: ImportProfile,
    pub transport: ImportTransport,
    pub destination_dataset_id: String,
    pub destination_name: String,
    pub recovery: Option<ImportRecoveryState>,
}

/// The first workflow mapping of annotation type `t`.
pub open spec fn first_task_of_type(tasks: Seq<ImportTaskMappingRequest>, t: AnnotationType) -> Option<int>
    decreases tasks.len(),
{
    if tasks.len() == 0 {
        None
    } else {
        match first_task_of_type(tasks.drop_last(), t) {
            Some(i) => Some(i),
            None => if tasks.last().task.annotation_type == t {
                Some(tasks.len() - 1)
            } else {
                None
            },
        }
    }
}

/// The first skeleton mapping that targets workflow `task_id`.
pub open spec fn first_skeleton_for(maps: Seq<ImportSkeletonMappingRequest>, task_id: Seq<char>) -> Option<int>
    decreases maps.len(),
{
    if maps.len() == 0 {
        None
    } else {
        match first_skeleton_for(maps.drop_last(), task_id) {
            Some(i) => Some(i),
            None => if maps.last().target_task_id@ == task_id {
                Some(maps.len() - 1)
            } else {
                None
            },
        }
    }
}

/// The skeleton the category's target keypoints are read from: that of the
/// skeleton mapping of its first skeleton workflow, else its source schema.
pub open spec fn target_skeleton(s: ImportSourceCategory) -> Option<SkeletonSpec> {
    let tasks = s.current_task_mappings@;
    match first_task_of_type(tasks, AnnotationType::Skeleton) {
        Some(k) => match first_skeleton_for(s.current_skeleton_mappings@, tasks[k].task.task_id@) {
            Some(m) => Some(s.current_skeleton_mappings@[m].skeleton),
            None => s.keypoint_schema,
        },
        None => s.keypoint_schema,
    }
}

/// A workflow id or name the category restores: that of its first workflow
/// of type `t`, else the given default.
pub open spec fn restored_task_field(
    s: ImportSourceCategory,
    t: AnnotationType,
    id: bool,
    default: Seq<char>,
) -> Seq<char> {
    match first_task_of_type(s.current_task_mappings@, t) {
        Some(k) => if id {
            s.current_task_mappings@[k].task.task_id@
        } else {
            s.current_task_mappings@[k].task.name@
        },
        None => default,
    }
}

/// Every field of the category draft but its geometry mappings is the one
/// the source category records.
pub open spec fn restored_fields(s: ImportSourceCategory, c: ImportCategoryDraft) -> bool {
    let m = s.current_category_mapping;
    &&& c.selected == m.selected
    &&& c.source_category_key == s.source_category_key
    &&& c.source_category_id == s.source_category_id
    &&& c.source_name == s.source_name
    &&& c.class_id@ == m.class_id@
    &&& c.class_name@ == m.class_name@
    &&& c.class_color == m.color
    &&& c.bounding_box_task_id@ == restored_task_field(s, AnnotationType::BoundingBox, true, "bounding_box:"@ + m.class_id@)
    &&& c.bounding_box_task_name@ == restored_task_field(s, AnnotationType::BoundingBox, false, m.class_name@ + " boxes"@)
    &&& c.skeleton_task_id@ == restored_task_field(s, AnnotationType::Skeleton, true, "skeleton:"@ + m.class_id@)
    &&& c.skeleton_task_name@ == restored_task_field(s, AnnotationType::Skeleton, false, m.class_name@ + " skeletons"@)
    &&& c.source_skeleton == s.keypoint_schema
    &&& c.direct_geometry == s.direct_geometry
    &&& c.task_mappings == s.current_task_mappings
    &&& c.skeleton_mappings == s.current_skeleton_mappings
    &&& c.workflow_intent == if s.current_task_mappings@.len() > 0 {
        s.current_task_mappings@[0].workflow_intent
    } else {
        ImportWorkflowIntent::AuthoritativeGroundTruth
    }
    &&& c.target_keypoint_names@ == match target_skeleton(s) {
        Some(k) => join(skeleton_names(skeleton_value(k)), ", "@),
        None => Seq::empty(),
    }
}

/// The category draft restored from a source category: its recorded
/// fields, and its geometry mappings, or one direct mapping per discovered
/// geometry when none were recorded.
pub open spec fn restored_category(s: ImportSourceCategory, c: ImportCategoryDraft) -> bool {
    &&& restored_fields(s, c)
    &&& if s.current_geometry_mappings@.len() == 0 {
        &&& c.geometry_mappings@.len() == s.direct_geometry@.len()
        &&& forall|k: int|
            0 <= k < s.direct_geometry@.len() ==> is_direct_mapping(
                #[trigger] c.geometry_mappings@[k],
                s.source_category_key@,
                s.direct_geometry@[k],
            )
    } else {
        c.geometry_mappings == s.current_geometry_mappings
    }
}

proof fn lemma_first_task_bounds(tasks: Seq<ImportTaskMappingRequest>, t: AnnotationType)
    ensures
        first_task_of_type(tasks, t) matches Some(i) ==> 0 <= i < tasks.len() && tasks[i].task.annotation_type == t,
    decreases tasks.len(),
{
    if tasks.len() > 0 {
        lemma_first_task_bounds(tasks.drop_last(), t);
    }
}

proof fn lemma_first_skeleton_bounds(maps: Seq<ImportSkeletonMappingRequest>, task_id: Seq<char>)
    ensures
        first_skeleton_for(maps, task_id) matches Some(i) ==> 0 <= i < maps.len() && maps[i].target_task_id@ == task_id,
    decreases maps.len(),
{
    if maps.len() > 0 {
        lemma_first_skeleton_bounds(maps.drop_last(), task_id);
    }
}

fn first_of_type(tasks: &Vec<ImportTaskMappingRequest>, t: AnnotationType) -> (r: Option<usize>)
    ensures
        match r {
            Some(i) => first_task_of_type(tasks@, t) == Some(i as int) && i < tasks@.len(),
            None => first_task_of_type(tasks@, t) is None,
        },
{
    let mut i: usize = 0;
    while i < tasks.len()
        invariant
            i <= tasks@.len(),
            first_task_of_type(tasks@.subrange(0, i as int), t) is None,
        decreases tasks.len() - i,
    {
        let ghost next = tasks@.subrange(0, i + 1);
        assert(next.drop_last() =~= tasks@.subrange(0, i as int));
        if tasks[i].task.annotation_type == t {
            proof {
                lemma_first_task_prefix(tasks@, t, i + 1);
            }
            return Some(i);
        }
        i += 1;
    }
    assert(tasks@.subrange(0, tasks@.len() as int) =~= tasks@);
    None
}

/// Once a prefix holds a workflow of type `t`, the whole list finds the
/// same first one.
proof fn lemma_first_task_prefix(tasks: Seq<ImportTaskMappingRequest>, t: AnnotationType, n: int)
    requires
        0 <= n <= tasks.len(),
        first_task_of_type(tasks.subrange(0, n), t) is Some,
    ensures
        first_task_of_type(tasks, t) == first_task_of_type(tasks.subrange(0, n), t),
    decreases tasks.len() - n,
{
    if n < tasks.len() {
        let next = tasks.subrange(0, n + 1);
        assert(next.drop_last() =~= tasks.subrange(0, n));
        lemma_first_task_prefix(tasks, t, n + 1);
    } else {
        assert(tasks.subrange(0, n) =~= tasks);
    }
}

fn first_skeleton_mapping(maps: &Vec<ImportSkeletonMappingRequest>, task_id: &str) -> (r: Option<usize>)
    ensures
        match r {
            Some(i) => first_skeleton_for(maps@, task_id@) == Some(i as int) && i < maps@.len(),
            None => first_skeleton_for(maps@, task_id@) is None,
        },
{
    let mut i: usize = 0;
    while i < maps.len()
        invariant
            i <= maps@.len(),
            first_skeleton_for(maps@.subrange(0, i as int), task_id@) is None,
        decreases maps.len() - i,
    {
        let ghost next = maps@.subrange(0, i + 1);
        assert(next.drop_last() =~= maps@.subrange(0, i as int));
        if text::str_eq(maps[i].target_task_id.as_str(), task_id) {
            proof {
                lemma_first_skeleton_prefix(maps@, task_id@, i + 1);
            }
            return Some(i);
        }
        i += 1;
    }
    assert(maps@.subrange(0, maps@.len() as int) =~= maps@);
    None
}

proof fn lemma_first_skeleton_prefix(maps: Seq<ImportSkeletonMappingRequest>, task_id: Seq<char>, n: int)
    requires
        0 <= n <= maps.len(),
        first_skeleton_for(maps.subrange(0, n), task_id) is Some,
    ensures
        first_skeleton_for(maps, task_id) == first_skeleton_for(maps.subrange(0, n), task_id),
    decreases maps.len() - n,
{
    if n < maps.len() {
        let next = maps.subrange(0, n + 1);
        assert(next.drop_last() =~= maps.subrange(0, n));
        lemma_first_skeleton_prefix(maps, task_id, n + 1);
    } else {
        assert(maps.subrange(0, n) =~= maps);
    }
}

/// The keypoint names of a skeleton, joined with ", ".
fn keypoint_names_text(s: &SkeletonSpec) -> (r: String)
    ensures
        r@ == join(skeleton_names(skeleton_value(*s)), ", "@),
{
    let mut names: Vec<String> = Vec::new();
    let mut i: usize = 0;
    while i < s.keypoints.len()
        invariant
            i <= s.keypoints@.len(),
            ids::views(names@) =~= skeleton_names(skeleton_value(*s)).subrange(0, i as int),
        decreases s.keypoints.len() - i,
    {
        let ghost before = names@;
        names.push(s.keypoints[i].name.clone());
        assert(ids::views(names@) =~= ids::views(before).push(s.keypoints@[i as int].name@));
        i += 1;
    }
    assert(skeleton_names(skeleton_value(*s)).subrange(0, s.keypoints@.len() as int) =~= skeleton_names(skeleton_value(*s)));
    join_strings(&names, ", ")
}

/// The target keypoint names a source category restores.
fn target_keypoint_text(s: &ImportSourceCategory) -> (r: String)
    ensures
        r@ == match target_skeleton(*s) {
            Some(k) => join(skeleton_names(skeleton_value(k)), ", "@),
            None => Seq::<char>::empty(),
        },
{
    let from_schema = match &s.keypoint_schema {
        Some(k) => keypoint_names_text(k),
        None => String::new(),
    };
    match first_of_type(&s.current_task_mappings, AnnotationType::Skeleton) {
        Some(k) => match first_skeleton_mapping(
            &s.current_skeleton_mappings,
            s.current_task_mappings[k].task.task_id.as_str(),
        ) {
            Some(m) => keypoint_names_text(&s.current_skeleton_mappings[m].skeleton),
            None => from_schema,
        },
        None => from_schema,
    }
}

/// A workflow id or name of the category: that of its first workflow of
/// type `t`, else `default`.
fn task_field(s: &ImportSourceCategory, t: AnnotationType, id: bool, default: String) -> (r: String)
    ensures
        r@ == restored_task_field(*s, t, id, default@),
{
    match first_of_type(&s.current_task_mappings, t) {
        Some(k) => if id {
            s.current_task_mappings[k].task.task_id.clone()
        } else {
            s.current_task_mappings[k].task.name.clone()
        },
        None => default,
    }
}

/// The category draft a source category of an accepted plan restores,
/// before default geometry mappings are added.
fn category_from_source(s: ImportSourceCategory) -> (c: ImportCategoryDraft)
    ensures
        restored_fields(s, c),
        c.geometry_mappings == s.current_geometry_mappings,
{
    let m = &s.current_category_mapping;
    let box_id = task_field(&s, AnnotationType::BoundingBox, true, text::concat2("bounding_box:", m.class_id.as_str()));
    let box_name = task_field(&s, AnnotationType::BoundingBox, false, text::concat2(m.class_name.as_str(), " boxes"));
    let skeleton_id = task_field(&s, AnnotationType::Skeleton, true, text::concat2("skeleton:", m.class_id.as_str()));
    let skeleton_name = task_field(&s, AnnotationType::Skeleton, false, text::concat2(m.class_name.as_str(), " skeletons"));
    let names = target_keypoint_text(&s);
    let intent = if s.current_task_mappings.len() > 0 {
        s.current_task_mappings[0].workflow_intent
    } else {
        ImportWorkflowIntent::AuthoritativeGroundTruth
    };
    let ghost old_s = s;
    let ImportSourceCategory {
        source_category_key,
        source_category_id,
        source_name,
        direct_geometry,
        keypoint_schema,
        current_category_mapping,
        current_geometry_mappings,
        current_task_mappings,
        current_skeleton_mappings,
    } = s;
    let ImportCategoryMappingRequest { class_id, class_name, color, selected, .. } = current_category_mapping;
    ImportCategoryDraft {
        selected,
        source_category_key,
        source_category_id,
        source_name,
        class_id,
        class_name,
        class_color: color,
        bounding_box_task_id: box_id,
        bounding_box_task_name: box_name,
        skeleton_task_id: skeleton_id,
        skeleton_task_name: skeleton_name,
        source_skeleton: keypoint_schema,
        direct_geometry,
        geometry_mappings: current_geometry_mappings,
        task_mappings: current_task_mappings,
        skeleton_mappings: current_skeleton_mappings,
        workflow_intent: intent,
        target_keypoint_names: names,
    }
}

/// The text an optional string stands for: the string, or nothing.
pub open spec fn opt_text(o: Option<String>) -> Seq<char> {
    match o {
        Some(s) => s@,
        None => Seq::empty(),
    }
}

/// A registered path restored from a registered file: shown by its client
/// file id, or by its server file id when it has none.
pub open spec fn restored_path(f: RegisteredImportFile, p: RegisteredImportPath) -> bool {
    &&& p.client_file_id@ == f.client_file_id@
    &&& p.file_id@ == f.file_id@
    &&& p.relative_path@ == if f.client_file_id@.len() == 0 {
        f.file_id@
    } else {
        f.client_file_id@
    }
}

/// A descriptor draft restored from a sealed descriptor.
pub open spec fn restored_descriptor(sel: ImportDescriptorSelection, d: ImportDescriptorDraft) -> bool {
    &&& d.descriptor_file_id == sel.descriptor_file_id
    &&& d.kind == sel.kind
    &&& d.release == sel.release
    &&& d.split == sel.split
    &&& d.image_root_file_id@ == opt_text(sel.image_root_file_id)
    &&& d.pairing_group@ == opt_text(sel.pairing_group)
}

/// The codes of the acknowledgements that are acknowledged, in order.
pub open spec fn acknowledged_codes(acks: Seq<ImportAcknowledgementRequest>) -> Seq<Seq<char>>
    decreases acks.len(),
{
    if acks.len() == 0 {
        Seq::empty()
    } else {
        acknowledged_codes(acks.drop_last()) + if acks.last().acknowledged {
            seq![acks.last().diagnostic_code@]
        } else {
            Seq::<Seq<char>>::empty()
        }
    }
}

/// Some workflow mapping of the request seeds future annotation.
pub open spec fn has_seed_workflow(tasks: Seq<ImportTaskMappingRequest>) -> bool {
    exists|i: int| 0 <= i < tasks.len() && (#[trigger] tasks[i]).workflow_intent == ImportWorkflowIntent::SeedFutureAnnotation
}

/// The import flow as the mapping and source steps edit it.
#[derive(Debug)]
pub struct ImportFlowState {
    pub destination_id: String,
    pub destination_name: String,
    pub server_relative_path: String,
    pub ground_truth: bool,
    pub coverage_scope: String,
    pub provenance: String,
    pub source: ImportSourceDraft,
    pub mapping: ImportMappingDraft,
    pub acknowledgements: Vec<String>,
    pub accepted_plan_request: Option<UpdateImportPlanRequest>,
    pub recovery_contract_gap: bool,
}

/// The source draft restored from a recovery: the job's profile and
/// transport, the server root, the registered files, and the sealed source
/// when there is one (else a fresh starting descriptor and no inspection).
pub open spec fn hydrated_source(
    before: ImportSourceDraft,
    profile: ImportProfile,
    transport: ImportTransport,
    server_root_id: Option<String>,
    files: Seq<RegisteredImportFile>,
    sealed: Option<ImportSourceConfiguration>,
    after: ImportSourceDraft,
) -> bool {
    &&& after.profile == profile
    &&& after.transport == transport
    &&& after.server_root_id@ == opt_text(server_root_id)
    &&& after.registered_paths@.len() == files.len()
    &&& forall|i: int| 0 <= i < files.len() ==> restored_path(files[i], #[trigger] after.registered_paths@[i])
    &&& match sealed {
        None => {
            &&& after.source_namespace == before.source_namespace
            &&& after.descriptors@.len() == 1
            &&& after.descriptors@[0].descriptor_file_id@ == Seq::<char>::empty()
            &&& after.descriptors@[0].kind == crate::import_support::profile_descriptor_kind(profile)
            &&& after.descriptors@[0].release@ == "default"@
            &&& after.descriptors@[0].split@ == "train"@
            &&& after.descriptors@[0].image_root_file_id@ == Seq::<char>::empty()
            &&& after.descriptors@[0].pairing_group@ == Seq::<char>::empty()
            &&& after.yolo_splits@.len() == 0
            &&& !after.yolo_inspection_loading
            &&& after.yolo_inspection_error is None
            &&& after.yolo_inspected_descriptor_file_id is None
        },
        Some(src) => {
            let coco = profile == ImportProfile::CocoInstancesGtV1 || profile == ImportProfile::CocoKeypointsGtV1;
            &&& after.source_namespace == src.source_namespace
            &&& after.descriptors@.len() == src.descriptors@.len()
            &&& forall|i: int|
                0 <= i < src.descriptors@.len() ==> restored_descriptor(src.descriptors@[i], #[trigger] after.descriptors@[i])
            &&& coco ==> {
                &&& after.yolo_splits == before.yolo_splits
                &&& after.yolo_inspection_loading == before.yolo_inspection_loading
                &&& after.yolo_inspection_error == before.yolo_inspection_error
                &&& after.yolo_inspected_descriptor_file_id == before.yolo_inspected_descriptor_file_id
            }
            &&& !coco ==> {
                &&& after.yolo_splits@.len() == src.selected_splits@.len()
                &&& forall|i: int|
                    0 <= i < src.selected_splits@.len() ==> {
                        let d = #[trigger] after.yolo_splits@[i];
                        &&& d.name == src.selected_splits@[i]
                        &&& d.usable
                        &&& d.selected
                        &&& d.issue is None
                    }
                &&& !after.yolo_inspection_loading
                &&& after.yolo_inspection_error is None
                &&& match after.yolo_inspected_descriptor_file_id {
                    Some(f) => src.descriptors@.len() > 0 && f@ == src.descriptors@[0].descriptor_file_id@,
                    None => src.descriptors@.len() == 0,
                }
            }
        },
    }
}

fn restore_paths(files: &Vec<RegisteredImportFile>) -> (r: Vec<RegisteredImportPath>)
    ensures
        r@.len() == files@.len(),
        forall|i: int| 0 <= i < files@.len() ==> restored_path(files@[i], #[trigger] r@[i]),
{
    let mut r: Vec<RegisteredImportPath> = Vec::new();
    let mut i: usize = 0;
    while i < files.len()
        invariant
            i <= files@.len(),
            r@.len() == i,
            forall|j: int| 0 <= j < i ==> restored_path(files@[j], #[trigger] r@[j]),
        decreases files.len() - i,
    {
        let f = &files[i];
        let relative_path = if f.client_file_id.as_str().is_empty() {
            f.file_id.clone()
        } else {
            f.client_file_id.clone()
        };
        r.push(RegisteredImportPath { client_file_id: f.client_file_id.clone(), file_id: f.file_id.clone(), relative_path });
        i += 1;
    }
    r
}

fn opt_string(o: Option<String>) -> (r: String)
    ensures
        r@ == opt_text(o),
{
    match o {
        Some(s) => s,
        None => String::new(),
    }
}

fn restore_descriptors(ds: Vec<ImportDescriptorSelection>) -> (r: Vec<ImportDescriptorDraft>)
    ensures
        r@.len() == ds@.len(),
        forall|i: int| 0 <= i < ds@.len() ==> restored_descriptor(ds@[i], #[trigger] r@[i]),
{
    let ghost all = ds@;
    let mut rest = ds;
    let mut r: Vec<ImportDescriptorDraft> = Vec::new();
    while rest.len() > 0
        invariant
            r@.len() + rest@.len() == all.len(),
            rest@ == all.subrange(r@.len() as int, all.len() as int),
            forall|j: int| 0 <= j < r@.len() ==> restored_descriptor(all[j], #[trigger] r@[j]),
        decreases rest.len(),
    {
        let ghost k: int = r@.len() as int;
        let d = rest.remove(0);
        assert(d == all[k]);
        assert(rest@ =~= all.subrange(k + 1, all.len() as int));
        r.push(ImportDescriptorDraft {
            descriptor_file_id: d.descriptor_file_id,
            kind: d.kind,
            release: d.release,
            split: d.split,
            image_root_file_id: opt_string(d.image_root_file_id),
            pairing_group: opt_string(d.pairing_group),
        });
    }
    r
}

fn restore_splits(names: Vec<String>) -> (r: Vec<ImportYoloSplitDraft>)
    ensures
        r@.len() == names@.len(),
        forall|i: int|
            0 <= i < names@.len() ==> {
                let d = #[trigger] r@[i];
                &&& d.name == names@[i]
                &&& d.usable
                &&& d.selected
                &&& d.issue is None
            },
{
    let ghost all = names@;
    let mut rest = names;
    let mut r: Vec<ImportYoloSplitDraft> = Vec::new();
    while rest.len() > 0
        invariant
            r@.len() + rest@.len() == all.len(),
            rest@ == all.subrange(r@.len() as int, all.len() as int),
            forall|j: int|
                0 <= j < r@.len() ==> {
                    let d = #[trigger] r@[j];
                    &&& d.name == all[j]
                    &&& d.usable
                    &&& d.selected
                    &&& d.issue is None
                },
        decreases rest.len(),
    {
        let ghost k: int = r@.len() as int;
        let name = rest.remove(0);
        assert(name == all[k]);
        assert(rest@ =~= all.subrange(k + 1, all.len() as int));
        r.push(ImportYoloSplitDraft { name, usable: true, selected: true, issue: None });
    }
    r
}

fn restore_categories(sources: Vec<ImportSourceCategory>) -> (r: Vec<ImportCategoryDraft>)
    ensures
        r@.len() == sources@.len(),
        forall|i: int|
            0 <= i < sources@.len() ==> restored_fields(sources@[i], #[trigger] r@[i]) && r@[i].geometry_mappings
                == sources@[i].current_geometry_mappings,
{
    let ghost all = sources@;
    let mut rest = sources;
    let mut r: Vec<ImportCategoryDraft> = Vec::new();
    while rest.len() > 0
        invariant
            r@.len() + rest@.len() == all.len(),
            rest@ == all.subrange(r@.len() as int, all.len() as int),
            forall|j: int|
                0 <= j < r@.len() ==> restored_fields(all[j], #[trigger] r@[j]) && r@[j].geometry_mappings
                    == all[j].current_geometry_mappings,
        decreases rest.len(),
    {
        let ghost k: int = r@.len() as int;
        let s = rest.remove(0);
        assert(s == all[k]);
        assert(rest@ =~= all.subrange(k + 1, all.len() as int));
        r.push(category_from_source(s));
    }
    r
}

fn acknowledged_code_list(acks: &Vec<ImportAcknowledgementRequest>) -> (r: Vec<String>)
    ensures
        ids::views(r@) == acknowledged_codes(acks@),
{
    let mut r: Vec<String> = Vec::new();
    let mut i: usize = 0;
    while i < acks.len()
        invariant
            i <= acks@.len(),
            ids::views(r@) == acknowledged_codes(acks@.subrange(0, i as int)),
        decreases acks.len() - i,
    {
        let ghost before = r@;
        assert(acks@.subrange(0, i + 1).drop_last() =~= acks@.subrange(0, i as int));
        if acks[i].acknowledged {
            r.push(acks[i].diagnostic_code.clone());
            assert(ids::views(r@) =~= ids::views(before).push(acks@[i as int].diagnostic_code@));
        }
        i += 1;
    }
    assert(acks@.subrange(0, acks@.len() as int) =~= acks@);
    r
}

fn any_seed_workflow(tasks: &Vec<ImportTaskMappingRequest>) -> (r: bool)
    ensures
        r == has_seed_workflow(tasks@),
{
    let mut i: usize = 0;
    while i < tasks.len()
        invariant
            i <= tasks@.len(),
            forall|j: int| 0 <= j < i ==> (#[trigger] tasks@[j]).workflow_intent != ImportWorkflowIntent::SeedFutureAnnotation,
        decreases tasks.len() - i,
    {
        if tasks[i].workflow_intent == ImportWorkflowIntent::SeedFutureAnnotation {
            return true;
        }
        i += 1;
    }
    false
}

/// The flow restored from a recovery: the attestations, the source, and,
/// once a plan was accepted, its categories (with default geometry
/// mappings where none were recorded), the plan's category count, the
/// accepted request with the compatibility choices, acknowledgements and
/// seed confirmation it carries, and the seed scope of the restored
/// categories; without an accepted plan, no categories, plan or request.
pub open spec fn hydrated(before: ImportFlowState, job: ImportJobContract, rec: ImportRecoveryState, after: ImportFlowState) -> bool {
    let att = rec.attestations;
    &&& !after.recovery_contract_gap
    &&& after.ground_truth == att.ground_truth
    &&& after.mapping.exhaustive == att.exhaustive
    &&& after.coverage_scope@ == join(ids::views(att.coverage_scope@), ", "@)
    &&& after.provenance == att.provenance
    &&& hydrated_source(
        before.source,
        job.profile,
        job.transport,
        rec.server_root_id,
        rec.registered_files@,
        rec.source,
        after.source,
    )
    &&& hydrated_plan(before, rec.accepted_plan, after)
}

/// The categories, plan and accepted request restored from an accepted
/// plan, or cleared when there is none.
pub open spec fn hydrated_plan(before: ImportFlowState, accepted_plan: Option<ImportPlanRecord>, after: ImportFlowState) -> bool {
    match accepted_plan {
        None => {
            &&& after.mapping.categories@.len() == 0
            &&& after.mapping.plan_categories is None
            &&& after.accepted_plan_request is None
            &&& after.acknowledgements == before.acknowledgements
            &&& after.mapping.compatibility == before.mapping.compatibility
            &&& after.mapping.seed_workflow_confirmed == before.mapping.seed_workflow_confirmed
            &&& after.mapping.seed_workflow_confirmation_scope == before.mapping.seed_workflow_confirmation_scope
        },
        Some(plan) => {
            &&& after.mapping.categories@.len() == plan.source_categories@.len()
            &&& forall|i: int|
                0 <= i < plan.source_categories@.len() ==> restored_category(
                    plan.source_categories@[i],
                    #[trigger] after.mapping.categories@[i],
                )
            &&& after.mapping.plan_categories == Some(plan.discovered_categories)
            &&& after.accepted_plan_request == plan.accepted_request
            &&& match plan.accepted_request {
                Some(req) => {
                    &&& after.mapping.compatibility == req.compatibility
                    &&& ids::views(after.acknowledgements@) == acknowledged_codes(req.acknowledgements@)
                    &&& after.mapping.seed_workflow_confirmed == has_seed_workflow(req.task_mappings@)
                },
                None => {
                    &&& after.mapping.compatibility == before.mapping.compatibility
                    &&& after.acknowledgements == before.acknowledgements
                    &&& after.mapping.seed_workflow_confirmed == before.mapping.seed_workflow_confirmed
                },
            }
            &&& match after.mapping.seed_workflow_confirmation_scope {
                Some(scope) => seed_scope(after.mapping.categories@) == Some(scope@),
                None => seed_scope(after.mapping.categories@) is None,
            }
        },
    }
}

impl ImportFlowState {
    /// Restores the flow from an import job: its profile, transport and
    /// destination always, and everything its recovery state records.
    pub fn hydrate_job_contract(&mut self, job: ImportJobContract)
        ensures
            final(self).source.profile == job.profile,
            final(self).source.transport == job.transport,
            final(self).mapping.profile == job.profile,
            final(self).destination_id == job.destination_dataset_id,
            final(self).destination_name == job.destination_name,
            final(self).server_relative_path == old(self).server_relative_path,
            final(self).mapping.preflight_categories == old(self).mapping.preflight_categories,
            final(self).mapping.capabilities == old(self).mapping.capabilities,
            match job.recovery {
                None => *final(self) == (ImportFlowState {
                    destination_id: job.destination_dataset_id,
                    destination_name: job.destination_name,
                    source: ImportSourceDraft { profile: job.profile, transport: job.transport, ..old(self).source },
                    mapping: ImportMappingDraft { profile: job.profile, ..old(self).mapping },
                    ..*old(self)
                }),
                Some(rec) => hydrated(*old(self), job, rec, *final(self)),
            },
    {
        let ImportJobContract { profile, transport, destination_dataset_id, destination_name, recovery } = job;
        self.source.profile = profile;
        self.source.transport = transport;
        self.mapping.profile = profile;
        self.destination_id = destination_dataset_id;
        self.destination_name = destination_name;
        let rec = match recovery {
            Some(r) => r,
            None => return ,
        };
        let ImportRecoveryState { attestations, server_root_id, registered_files, source, accepted_plan } = rec;
        self.recovery_contract_gap = false;
        self.ground_truth = attestations.ground_truth;
        self.mapping.exhaustive = attestations.exhaustive;
        self.coverage_scope = join_strings(&attestations.coverage_scope, ", ");
        self.provenance = attestations.provenance;
        restore_source(&mut self.source, server_root_id, &registered_files, source);
        self.restore_plan(accepted_plan);
    }

    fn restore_plan(&mut self, accepted_plan: Option<ImportPlanRecord>)
        ensures
            hydrated_plan(*old(self), accepted_plan, *final(self)),
            final(self).source == old(self).source,
            final(self).destination_id == old(self).destination_id,
            final(self).destination_name == old(self).destination_name,
            final(self).server_relative_path == old(self).server_relative_path,
            final(self).ground_truth == old(self).ground_truth,
            final(self).coverage_scope == old(self).coverage_scope,
            final(self).provenance == old(self).provenance,
            final(self).recovery_contract_gap == old(self).recovery_contract_gap,
            final(self).mapping.profile == old(self).mapping.profile,
            final(self).mapping.exhaustive == old(self).mapping.exhaustive,
            final(self).mapping.preflight_categories == old(self).mapping.preflight_categories,
            final(self).mapping.capabilities == old(self).mapping.capabilities,
    {
        match accepted_plan {
            None => {
                self.mapping.plan_categories = None;
                self.accepted_plan_request = None;
                self.mapping.categories = Vec::new();
            },
            Some(plan) => {
                let ghost sources = plan.source_categories@;
                let ImportPlanRecord { discovered_categories, source_categories, accepted_request } = plan;
                self.mapping.categories = restore_categories(source_categories);
                if let Some(req) = &accepted_request {
                    self.mapping.compatibility = req.compatibility;
                    self.acknowledgements = acknowledged_code_list(&req.acknowledgements);
                    self.mapping.seed_workflow_confirmed = any_seed_workflow(&req.task_mappings);
                }
                self.accepted_plan_request = accepted_request;
                self.mapping.plan_categories = Some(discovered_categories);
                let ghost restored = self.mapping.categories@;
                self.mapping.normalize_mapping_draft();
                proof {
                    assert forall|i: int| 0 <= i < sources.len() implies restored_category(
                        sources[i],
                        #[trigger] self.mapping.categories@[i],
                    ) by {
                        assert(default_mappings_added(restored[i], self.mapping.categories@[i]));
                    }
                }
                self.mapping.seed_workflow_confirmation_scope = self.mapping.seed_workflow_scope();
            },
        }
    }
}

fn restore_source(
    src: &mut ImportSourceDraft,
    server_root_id: Option<String>,
    files: &Vec<RegisteredImportFile>,
    sealed: Option<ImportSourceConfiguration>,
)
    ensures
        hydrated_source(*old(src), old(src).profile, old(src).transport, server_root_id, files@, sealed, *final(src)),
{
    let profile = src.profile;
    src.server_root_id = opt_string(server_root_id);
    src.registered_paths = restore_paths(files);
    match sealed {
        None => {
            src.descriptors = vec![crate::import_support::descriptor_draft(profile)];
            src.yolo_splits = Vec::new();
            src.yolo_inspection_loading = false;
            src.yolo_inspection_error = None;
            src.yolo_inspected_descriptor_file_id = None;
        },
        Some(config) => {
            let ImportSourceConfiguration { source_namespace, descriptors, selected_splits, .. } = config;
            src.source_namespace = source_namespace;
            let ds = restore_descriptors(descriptors);
            if !crate::import_support::is_coco_profile(profile) {
                src.yolo_splits = restore_splits(selected_splits);
                src.yolo_inspected_descriptor_file_id = if ds.len() > 0 {
                    Some(ds[0].descriptor_file_id.clone())
                } else {
                    None
                };
                src.yolo_inspection_loading = false;
                src.yolo_inspection_error = None;
            }
            src.descriptors = ds;
        },
    }
}

} // verus!
