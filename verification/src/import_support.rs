//! Import source rules: descriptor kinds per profile, descriptor and source
//! checks, browser selection limits, review settings of imported workflows,
//! and idempotency keys.
use vstd::prelude::*;
use crate::ids;
use crate::import_model::{ImportDescriptorKind, ImportLimits, ImportProfile, ImportTransport, ImportWorkflowIntent};
use crate::model::{
    AnnotationType, ManualBoxGuideMigration, ReviewConfig, ReviewWorkflow, SkeletonSpec, TaskDefinition,
    TutorialContent,
};
use crate::text;

verus! {

/// The descriptor file kind a profile starts with.
pub open spec fn profile_descriptor_kind(profile: ImportProfile) -> ImportDescriptorKind {
    match profile {
        ImportProfile::UltralyticsYoloDetectV1 | ImportProfile::UltralyticsYoloPoseV1 => ImportDescriptorKind::YoloDataset,
        ImportProfile::CocoKeypointsGtV1 => ImportDescriptorKind::CocoKeypoints,
        _ => ImportDescriptorKind::CocoInstances,
    }
}

/// The descriptor file kind a profile starts with.
pub fn descriptor_kind(profile: ImportProfile) -> (k: ImportDescriptorKind)
    ensures
        k == profile_descriptor_kind(profile),
{
    match profile {
        ImportProfile::UltralyticsYoloDetectV1 | ImportProfile::UltralyticsYoloPoseV1 => ImportDescriptorKind::YoloDataset,
        ImportProfile::CocoKeypointsGtV1 => ImportDescriptorKind::CocoKeypoints,
        ImportProfile::CocoInstancesGtV1 | ImportProfile::Unknown => ImportDescriptorKind::CocoInstances,
    }
}

/// Whether a profile reads COCO files.
pub fn is_coco_profile(profile: ImportProfile) -> (r: bool)
    ensures
        r == (profile == ImportProfile::CocoInstancesGtV1 || profile == ImportProfile::CocoKeypointsGtV1),
{
    match profile {
        ImportProfile::CocoInstancesGtV1 | ImportProfile::CocoKeypointsGtV1 => true,
        _ => false,
    }
}

/// A descriptor file being configured for an import source.
#[derive(Debug)]
pub struct ImportDescriptorDraft {
    pub descriptor_file_id: String,
    pub kind: ImportDescriptorKind,
    pub release: String,
    pub split: String,
    pub image_root_file_id: String,
    pub pairing_group: String,
}

impl Default for ImportDescriptorDraft {
    /// A COCO instances descriptor for release `default`, split `train`.
    fn default() -> (d: Self)
        ensures
            d.descriptor_file_id@ == Seq::<char>::empty(),
            d.kind == ImportDescriptorKind::CocoInstances,
            d.release@ == "default"@,
            d.split@ == "train"@,
            d.image_root_file_id@ == Seq::<char>::empty(),
            d.pairing_group@ == Seq::<char>::empty(),
    {
        ImportDescriptorDraft {
            descriptor_file_id: String::new(),
            kind: ImportDescriptorKind::CocoInstances,
            release: text::to_string("default"),
            split: text::to_string("train"),
            image_root_file_id: String::new(),
            pairing_group: String::new(),
        }
    }
}

/// The starting descriptor of a profile: the default descriptor with the
/// profile's kind.
pub fn descriptor_draft(profile: ImportProfile) -> (d: ImportDescriptorDraft)
    ensures
        d.descriptor_file_id@ == Seq::<char>::empty(),
        d.kind == profile_descriptor_kind(profile),
        d.release@ == "default"@,
        d.split@ == "train"@,
        d.image_root_file_id@ == Seq::<char>::empty(),
        d.pairing_group@ == Seq::<char>::empty(),
{
    let mut d = ImportDescriptorDraft::default();
    d.kind = descriptor_kind(profile);
    d
}

/// The descriptor kinds a profile accepts.
pub open spec fn kind_allowed(profile: ImportProfile, kind: ImportDescriptorKind) -> bool {
    match profile {
        ImportProfile::UltralyticsYoloDetectV1 | ImportProfile::UltralyticsYoloPoseV1 => kind == ImportDescriptorKind::YoloDataset,
        ImportProfile::CocoInstancesGtV1 => kind == ImportDescriptorKind::CocoInstances,
        ImportProfile::CocoKeypointsGtV1 => kind == ImportDescriptorKind::CocoInstances || kind
            == ImportDescriptorKind::CocoKeypoints,
        ImportProfile::Unknown => false,
    }
}

/// Whether a profile accepts a descriptor kind.
pub fn descriptor_kind_allowed(profile: ImportProfile, kind: ImportDescriptorKind) -> (r: bool)
    ensures
        r == kind_allowed(profile, kind),
{
    match profile {
        ImportProfile::UltralyticsYoloDetectV1 | ImportProfile::UltralyticsYoloPoseV1 => kind == ImportDescriptorKind::YoloDataset,
        ImportProfile::CocoInstancesGtV1 => kind == ImportDescriptorKind::CocoInstances,
        ImportProfile::CocoKeypointsGtV1 => kind == ImportDescriptorKind::CocoInstances || kind
            == ImportDescriptorKind::CocoKeypoints,
        ImportProfile::Unknown => false,
    }
}

/// The display name of a descriptor kind.
pub open spec fn kind_label(kind: ImportDescriptorKind) -> Seq<char> {
    match kind {
        ImportDescriptorKind::YoloDataset => "YOLO dataset"@,
        ImportDescriptorKind::CocoInstances => "COCO instances"@,
        ImportDescriptorKind::CocoKeypoints => "COCO keypoints"@,
    }
}

/// The display name of a descriptor kind.
pub fn descriptor_kind_label(kind: ImportDescriptorKind) -> (r: &'static str)
    ensures
        r@ == kind_label(kind),
{
    match kind {
        ImportDescriptorKind::YoloDataset => "YOLO dataset",
        ImportDescriptorKind::CocoInstances => "COCO instances",
        ImportDescriptorKind::CocoKeypoints => "COCO keypoints",
    }
}

/// A path a profile can read as its descriptor: YAML for YOLO profiles,
/// JSON for COCO profiles, in any letter case.
pub open spec fn descriptor_path(profile: ImportProfile, path: Seq<char>) -> bool {
    let lower = text::ascii_lower_seq(path);
    match profile {
        ImportProfile::UltralyticsYoloDetectV1 | ImportProfile::UltralyticsYoloPoseV1 => text::ends_with(
            lower,
            ".yaml"@,
        ) || text::ends_with(lower, ".yml"@),
        ImportProfile::CocoInstancesGtV1 | ImportProfile::CocoKeypointsGtV1 => text::ends_with(lower, ".json"@),
        ImportProfile::Unknown => false,
    }
}

/// Whether `path` can be the descriptor of a `profile` import.
pub fn descriptor_path_matches(profile: ImportProfile, path: &str) -> (r: bool)
    ensures
        r == descriptor_path(profile, path@),
{
    let lower = text::ascii_lowercase_chars(path);
    match profile {
        ImportProfile::UltralyticsYoloDetectV1 | ImportProfile::UltralyticsYoloPoseV1 => text::chars_end_with(
            &lower,
            &text::chars_of(".yaml"),
        ) || text::chars_end_with(&lower, &text::chars_of(".yml")),
        ImportProfile::CocoInstancesGtV1 | ImportProfile::CocoKeypointsGtV1 => text::chars_end_with(
            &lower,
            &text::chars_of(".json"),
        ),
        ImportProfile::Unknown => false,
    }
}

/// The review settings an imported workflow gets for its intent: none for
/// authoritative ground truth, one approval otherwise.
pub open spec fn intent_review(intent: ImportWorkflowIntent) -> ReviewConfig {
    match intent {
        ImportWorkflowIntent::AuthoritativeGroundTruth => ReviewConfig {
            required_reviews: 0,
            workflow: ReviewWorkflow::NoReview,
            allow_reviewer_corrections: false,
            agreement_threshold: None,
        },
        _ => ReviewConfig {
            required_reviews: 1,
            workflow: ReviewWorkflow::Approval,
            allow_reviewer_corrections: false,
            agreement_threshold: None,
        },
    }
}

/// The review settings of an imported workflow with `intent`.
pub fn review_config(intent: ImportWorkflowIntent) -> (r: ReviewConfig)
    ensures
        r == intent_review(intent),
{
    match intent {
        ImportWorkflowIntent::AuthoritativeGroundTruth => ReviewConfig {
            required_reviews: 0,
            workflow: ReviewWorkflow::NoReview,
            allow_reviewer_corrections: false,
            agreement_threshold: None,
        },
        ImportWorkflowIntent::RequireApproval | ImportWorkflowIntent::SeedFutureAnnotation => ReviewConfig {
            required_reviews: 1,
            workflow: ReviewWorkflow::Approval,
            allow_reviewer_corrections: false,
            agreement_threshold: None,
        },
    }
}

/// The review settings of an imported workflow: a manual box-guide
/// migration always needs one approval; otherwise the intent decides.
pub open spec fn task_review(intent: ImportWorkflowIntent, manual_box_guide_migration: bool) -> ReviewConfig {
    if manual_box_guide_migration {
        ReviewConfig {
            required_reviews: 1,
            workflow: ReviewWorkflow::Approval,
            allow_reviewer_corrections: false,
            agreement_threshold: None,
        }
    } else {
        intent_review(intent)
    }
}

/// The review settings of an imported workflow.
pub fn review_config_for_task(intent: ImportWorkflowIntent, manual_box_guide_migration: bool) -> (r: ReviewConfig)
    ensures
        r == task_review(intent, manual_box_guide_migration),
{
    if manual_box_guide_migration {
        return ReviewConfig {
            required_reviews: 1,
            workflow: ReviewWorkflow::Approval,
            allow_reviewer_corrections: false,
            agreement_threshold: None,
        };
    }
    review_config(intent)
}

/// The workflow an import creates for one class and output.
pub fn mapped_task(
    task_id: String,
    name: &str,
    annotation_type: AnnotationType,
    class_id: String,
    skeleton: Option<SkeletonSpec>,
    manual_box_guide_migration: Option<ManualBoxGuideMigration>,
    workflow_intent: ImportWorkflowIntent,
) -> (t: TaskDefinition)
    ensures
        t.task_id == task_id,
        t.name@ == name@,
        t.annotation_type == annotation_type,
        t.class_ids@.len() == 1,
        t.class_ids@[0] == class_id,
        t.instructions.title@ == name@,
        t.instructions.example_text@ == "Follow the imported dataset definition and project guidance."@,
        t.instructions.example_images@.len() == 0,
        t.skeleton == skeleton,
        t.review == task_review(workflow_intent, manual_box_guide_migration is Some),
        t.prelabel_config_ids@.len() == 0,
        t.manual_box_guide_migration == manual_box_guide_migration,
        t.enabled,
{
    let review = review_config_for_task(workflow_intent, manual_box_guide_migration.is_some());
    let mut class_ids: Vec<String> = Vec::new();
    class_ids.push(class_id);
    TaskDefinition {
        task_id,
        name: text::to_string(name),
        annotation_type,
        class_ids,
        instructions: TutorialContent {
            title: text::to_string(name),
            example_text: text::to_string("Follow the imported dataset definition and project guidance."),
            example_images: Vec::new(),
        },
        skeleton,
        review,
        prelabel_config_ids: Vec::new(),
        manual_box_guide_migration,
        enabled: true,
    }
}

/// The first violated browser selection limit, if any.
pub open spec fn selection_limit_error(
    file_count: nat,
    total_bytes: nat,
    file_sizes: Seq<u64>,
    limits: ImportLimits,
) -> Option<Seq<char>> {
    if file_count == 0 {
        Some("selected folder contains no files"@)
    } else if file_count > limits.max_browser_files {
        Some(
            "selected folder has "@ + text::decimal(file_count) + " files; the server limit is "@
                + text::decimal(limits.max_browser_files as nat),
        )
    } else if total_bytes > limits.max_browser_bytes {
        Some(
            "selected folder has "@ + text::decimal(total_bytes) + " bytes; the server limit is "@
                + text::decimal(limits.max_browser_bytes as nat),
        )
    } else if exists|i: int| 0 <= i < file_sizes.len() && #[trigger] file_sizes[i] > limits.max_single_file_bytes {
        Some(
            "a selected file exceeds the "@ + text::decimal(limits.max_single_file_bytes as nat)
                + " byte per-file limit"@,
        )
    } else {
        None
    }
}

/// Checks a browser folder selection against the server's limits before any
/// file content is read: some file, at most the file and byte limits, and no
/// file over the per-file limit.
pub fn validate_browser_selection_limits(
    file_count: usize,
    total_bytes: u64,
    file_sizes: &Vec<u64>,
    limits: &ImportLimits,
) -> (r: Result<(), String>)
    ensures
        match r {
            Ok(()) => selection_limit_error(file_count as nat, total_bytes as nat, file_sizes@, *limits) is None,
            Err(m) => selection_limit_error(file_count as nat, total_bytes as nat, file_sizes@, *limits) == Some(m@),
        },
{
    if file_count == 0 {
        return Err(text::to_string("selected folder contains no files"));
    }
    if file_count as u64 > limits.max_browser_files {
        let mut m = text::with_number("selected folder has ", file_count as u64);
        text::push_str(&mut m, " files; the server limit is ");
        text::push_decimal(&mut m, limits.max_browser_files);
        return Err(m);
    }
    if total_bytes > limits.max_browser_bytes {
        let mut m = text::with_number("selected folder has ", total_bytes);
        text::push_str(&mut m, " bytes; the server limit is ");
        text::push_decimal(&mut m, limits.max_browser_bytes);
        return Err(m);
    }
    let mut i: usize = 0;
    while i < file_sizes.len()
        invariant
            i <= file_sizes@.len(),
            file_count != 0,
            file_count as u64 <= limits.max_browser_files,
            total_bytes <= limits.max_browser_bytes,
            forall|j: int| 0 <= j < i ==> file_sizes@[j] <= limits.max_single_file_bytes,
        decreases file_sizes.len() - i,
    {
        if file_sizes[i] > limits.max_single_file_bytes {
            assert(file_sizes@[i as int] > limits.max_single_file_bytes);
            let mut m = text::with_number("a selected file exceeds the ", limits.max_single_file_bytes);
            text::push_str(&mut m, " byte per-file limit");
            return Err(m);
        }
        i += 1;
    }
    Ok(())
}

/// A file registered for an import: its client-side ID, its server-side ID
/// and its path relative to the source root.
#[derive(Debug)]
pub struct RegisteredImportPath {
    pub client_file_id: String,
    pub file_id: String,
    pub relative_path: String,
}

/// A split a YOLO dataset file declares, with whether it can be imported
/// and whether it is selected.
#[derive(Debug)]
pub struct ImportYoloSplitDraft {
    pub name: String,
    pub usable: bool,
    pub selected: bool,
    pub issue: Option<String>,
}

/// The import source as configured before it is sealed.
#[derive(Debug)]
pub struct ImportSourceDraft {
    pub profile: ImportProfile,
    pub transport: ImportTransport,
    pub server_root_id: String,
    pub source_namespace: String,
    pub descriptors: Vec<ImportDescriptorDraft>,
    pub registered_paths: Vec<RegisteredImportPath>,
    pub yolo_inspection_loading: bool,
    pub yolo_inspection_error: Option<String>,
    pub yolo_inspected_descriptor_file_id: Option<String>,
    pub yolo_splits: Vec<ImportYoloSplitDraft>,
}

impl Default for ImportSourceDraft {
    /// A new source: YOLO detection from a browser folder, namespace
    /// `source`, the profile's starting descriptor, nothing registered or
    /// inspected.
    fn default() -> (s: Self)
        ensures
            s.profile == ImportProfile::UltralyticsYoloDetectV1,
            s.transport == ImportTransport::BrowserFolder,
            s.server_root_id@ == Seq::<char>::empty(),
            s.source_namespace@ == "source"@,
            s.descriptors@.len() == 1,
            s.descriptors@[0].kind == ImportDescriptorKind::YoloDataset,
            s.descriptors@[0].descriptor_file_id@ == Seq::<char>::empty(),
            s.descriptors@[0].release@ == "default"@,
            s.descriptors@[0].split@ == "train"@,
            s.registered_paths@.len() == 0,
            !s.yolo_inspection_loading,
            s.yolo_inspection_error is None,
            s.yolo_inspected_descriptor_file_id is None,
            s.yolo_splits@.len() == 0,
    {
        let mut descriptors: Vec<ImportDescriptorDraft> = Vec::new();
        descriptors.push(descriptor_draft(ImportProfile::UltralyticsYoloDetectV1));
        ImportSourceDraft {
            profile: ImportProfile::UltralyticsYoloDetectV1,
            transport: ImportTransport::BrowserFolder,
            server_root_id: String::new(),
            source_namespace: text::to_string("source"),
            descriptors,
            registered_paths: Vec::new(),
            yolo_inspection_loading: false,
            yolo_inspection_error: None,
            yolo_inspected_descriptor_file_id: None,
            yolo_splits: Vec::new(),
        }
    }
}

/// A reference names a file: it is not blank and, unless the server reads
/// the directory itself, it is the server or client ID of a registered file.
pub open spec fn reference_valid(src: ImportSourceDraft, r: Seq<char>) -> bool {
    &&& !text::all_space(r)
    &&& (src.transport == ImportTransport::ServerDirectory || exists|p: int|
        0 <= p < src.registered_paths@.len() && ((#[trigger] src.registered_paths@[p]).file_id@ == r
            || src.registered_paths@[p].client_file_id@ == r))
}

/// Two descriptors describe the same kind, release, split and pairing group.
pub open spec fn same_identity(a: ImportDescriptorDraft, b: ImportDescriptorDraft) -> bool {
    &&& a.kind == b.kind
    &&& text::trim(a.release@) == text::trim(b.release@)
    &&& text::trim(a.split@) == text::trim(b.split@)
    &&& text::trim(a.pairing_group@) == text::trim(b.pairing_group@)
}

/// COCO descriptor `i` is acceptable given the ones before it: an allowed
/// kind, a registered descriptor and image root, a file not used before,
/// valid release, split and (optional) pairing group, and an identity not
/// used before.
pub open spec fn coco_descriptor_ok(src: ImportSourceDraft, i: int) -> bool {
    let ds = src.descriptors@;
    let d = ds[i];
    &&& kind_allowed(src.profile, d.kind)
    &&& reference_valid(src, d.descriptor_file_id@)
    &&& forall|j: int| 0 <= j < i ==> text::trim((#[trigger] ds[j]).descriptor_file_id@) != text::trim(d.descriptor_file_id@)
    &&& ids::valid_identity(d.release@)
    &&& ids::valid_identity(d.split@)
    &&& (text::all_space(d.pairing_group@) || ids::valid_identity(d.pairing_group@))
    &&& forall|j: int| 0 <= j < i ==> !same_identity(#[trigger] ds[j], d)
    &&& reference_valid(src, d.image_root_file_id@)
}

/// Why the source cannot be sealed yet, if it cannot.
pub open spec fn source_error(src: ImportSourceDraft) -> Option<Seq<char>> {
    let ds = src.descriptors@;
    let coco = src.profile == ImportProfile::CocoInstancesGtV1 || src.profile == ImportProfile::CocoKeypointsGtV1;
    if !ids::valid_identity(src.source_namespace@) {
        Some("Source namespace must use only letters, numbers, '.', '_', or '-'."@)
    } else if !coco {
        if ds.len() == 0 {
            Some("Select one Dataset YAML."@)
        } else if ds.len() != 1 || ds[0].kind != ImportDescriptorKind::YoloDataset {
            Some("YOLO imports require exactly one Dataset YAML."@)
        } else if !reference_valid(src, ds[0].descriptor_file_id@) {
            Some("Select a registered Dataset YAML."@)
        } else if !ids::valid_identity(ds[0].release@) {
            Some("Release must use only letters, numbers, '.', '_', or '-'."@)
        } else if src.yolo_inspection_loading {
            Some("Wait for YAML split inspection to finish."@)
        } else if src.yolo_inspection_error is Some {
            Some(src.yolo_inspection_error->0@)
        } else if !(src.yolo_inspected_descriptor_file_id matches Some(f) && text::trim(f@) == text::trim(
            ds[0].descriptor_file_id@,
        )) {
            Some("Inspect the selected YAML before sealing the source."@)
        } else if !exists|k: int|
            0 <= k < src.yolo_splits@.len() && (#[trigger] src.yolo_splits@[k]).usable && src.yolo_splits@[k].selected {
            Some("Select at least one usable YAML split."@)
        } else {
            None
        }
    } else if ds.len() > 0 && forall|i: int| 0 <= i < ds.len() ==> #[trigger] coco_descriptor_ok(src, i) {
        None
    } else {
        Some(
            "Every COCO descriptor needs a unique registered JSON file, valid release and split, and an exact registered image root."@,
        )
    }
}

fn reference_is_valid(src: &ImportSourceDraft, r: &str) -> (b: bool)
    ensures
        b == reference_valid(*src, r@),
{
    if text::is_blank(r) {
        return false;
    }
    if src.transport == ImportTransport::ServerDirectory {
        return true;
    }
    let mut p: usize = 0;
    while p < src.registered_paths.len()
        invariant
            p <= src.registered_paths@.len(),
            !text::all_space(r@),
            forall|q: int|
                0 <= q < p ==> !((#[trigger] src.registered_paths@[q]).file_id@ == r@
                    || src.registered_paths@[q].client_file_id@ == r@),
        decreases src.registered_paths.len() - p,
    {
        let path = &src.registered_paths[p];
        if text::str_eq(path.file_id.as_str(), r) || text::str_eq(path.client_file_id.as_str(), r) {
            return true;
        }
        p += 1;
    }
    false
}

fn descriptor_identity_seen(ds: &Vec<ImportDescriptorDraft>, i: usize) -> (r: (bool, bool))
    requires
        i < ds@.len(),
    ensures
        r.0 == exists|j: int| 0 <= j < i && text::trim((#[trigger] ds@[j]).descriptor_file_id@) == text::trim(ds@[i as int].descriptor_file_id@),
        r.1 == exists|j: int| 0 <= j < i && same_identity(#[trigger] ds@[j], ds@[i as int]),
{
    let d = &ds[i];
    let file = text::trimmed_chars(d.descriptor_file_id.as_str());
    let release = text::trimmed_chars(d.release.as_str());
    let split = text::trimmed_chars(d.split.as_str());
    let pairing = text::trimmed_chars(d.pairing_group.as_str());
    let mut file_seen = false;
    let mut identity_seen = false;
    let mut j: usize = 0;
    while j < i
        invariant
            j <= i < ds@.len(),
            *d == ds@[i as int],
            file@ == text::trim(d.descriptor_file_id@),
            release@ == text::trim(d.release@),
            split@ == text::trim(d.split@),
            pairing@ == text::trim(d.pairing_group@),
            file_seen == exists|k: int| 0 <= k < j && text::trim((#[trigger] ds@[k]).descriptor_file_id@) == text::trim(d.descriptor_file_id@),
            identity_seen == exists|k: int| 0 <= k < j && same_identity(#[trigger] ds@[k], *d),
        decreases i - j,
    {
        let o = &ds[j];
        if text::chars_eq(&text::trimmed_chars(o.descriptor_file_id.as_str()), &file) {
            file_seen = true;
        }
        if o.kind == d.kind && text::chars_eq(&text::trimmed_chars(o.release.as_str()), &release) && text::chars_eq(
            &text::trimmed_chars(o.split.as_str()),
            &split,
        ) && text::chars_eq(&text::trimmed_chars(o.pairing_group.as_str()), &pairing) {
            identity_seen = true;
        }
        j += 1;
    }
    (file_seen, identity_seen)
}

fn coco_descriptor_is_ok(src: &ImportSourceDraft, i: usize) -> (r: bool)
    requires
        i < src.descriptors@.len(),
    ensures
        r == coco_descriptor_ok(*src, i as int),
{
    let d = &src.descriptors[i];
    let (file_seen, identity_seen) = descriptor_identity_seen(&src.descriptors, i);
    descriptor_kind_allowed(src.profile, d.kind) && reference_is_valid(src, d.descriptor_file_id.as_str())
        && !file_seen && ids::valid_identity_component(d.release.as_str()) && ids::valid_identity_component(
        d.split.as_str(),
    ) && (text::is_blank(d.pairing_group.as_str()) || ids::valid_identity_component(d.pairing_group.as_str()))
        && !identity_seen && reference_is_valid(src, d.image_root_file_id.as_str())
}

fn yolo_source_error(src: &ImportSourceDraft) -> (r: Option<String>)
    requires
        ids::valid_identity(src.source_namespace@),
        !(src.profile == ImportProfile::CocoInstancesGtV1 || src.profile == ImportProfile::CocoKeypointsGtV1),
    ensures
        match r {
            Some(m) => source_error(*src) == Some(m@),
            None => source_error(*src) is None,
        },
{
    if src.descriptors.len() == 0 {
        return Some(text::to_string("Select one Dataset YAML."));
    }
    let d = &src.descriptors[0];
    if src.descriptors.len() != 1 || d.kind != ImportDescriptorKind::YoloDataset {
        return Some(text::to_string("YOLO imports require exactly one Dataset YAML."));
    }
    if !reference_is_valid(src, d.descriptor_file_id.as_str()) {
        return Some(text::to_string("Select a registered Dataset YAML."));
    }
    if !ids::valid_identity_component(d.release.as_str()) {
        return Some(text::to_string("Release must use only letters, numbers, '.', '_', or '-'."));
    }
    if src.yolo_inspection_loading {
        return Some(text::to_string("Wait for YAML split inspection to finish."));
    }
    if let Some(error) = &src.yolo_inspection_error {
        return Some(error.clone());
    }
    let inspected_matches = match &src.yolo_inspected_descriptor_file_id {
        Some(f) => text::chars_eq(
            &text::trimmed_chars(f.as_str()),
            &text::trimmed_chars(d.descriptor_file_id.as_str()),
        ),
        None => false,
    };
    if !inspected_matches {
        return Some(text::to_string("Inspect the selected YAML before sealing the source."));
    }
    let mut any = false;
    let mut k: usize = 0;
    while k < src.yolo_splits.len()
        invariant
            k <= src.yolo_splits@.len(),
            any == exists|x: int| 0 <= x < k && (#[trigger] src.yolo_splits@[x]).usable && src.yolo_splits@[x].selected,
        decreases src.yolo_splits.len() - k,
    {
        if src.yolo_splits[k].usable && src.yolo_splits[k].selected {
            any = true;
        }
        k += 1;
    }
    if any {
        None
    } else {
        Some(text::to_string("Select at least one usable YAML split."))
    }
}

/// The server or client ID of a registered file, or any non-blank name
/// when the server reads the directory itself.
pub open spec fn names_registered_file(src: ImportSourceDraft, r: Seq<char>) -> bool {
    &&& !text::all_space(r)
    &&& (src.transport == ImportTransport::ServerDirectory || exists|p: int|
        0 <= p < src.registered_paths@.len() && (src.registered_paths@[p].file_id@ == r
            || src.registered_paths@[p].client_file_id@ == r))
}

/// A COCO source is sealable only when it has a descriptor and every
/// descriptor names an image root and a descriptor file that are not blank
/// and, unless the server reads the directory itself, are registered
/// files; its release and split are valid identities; and no two
/// descriptors share a descriptor file.
pub proof fn sealable_coco_sources_name_registered_image_roots(src: ImportSourceDraft)
    requires
        src.profile == ImportProfile::CocoInstancesGtV1 || src.profile == ImportProfile::CocoKeypointsGtV1,
        source_error(src) is None,
    ensures
        src.descriptors@.len() > 0,
        forall|i: int|
            0 <= i < src.descriptors@.len() ==> names_registered_file(src, (#[trigger] src.descriptors@[i]).image_root_file_id@)
                && names_registered_file(src, src.descriptors@[i].descriptor_file_id@)
                && ids::valid_identity(src.descriptors@[i].release@) && ids::valid_identity(src.descriptors@[i].split@),
        forall|i: int, j: int|
            0 <= j < i < src.descriptors@.len() ==> text::trim((#[trigger] src.descriptors@[j]).descriptor_file_id@)
                != text::trim((#[trigger] src.descriptors@[i]).descriptor_file_id@),
{
    assert forall|i: int| 0 <= i < src.descriptors@.len() implies names_registered_file(
        src,
        (#[trigger] src.descriptors@[i]).image_root_file_id@,
    ) && names_registered_file(src, src.descriptors@[i].descriptor_file_id@) && ids::valid_identity(
        src.descriptors@[i].release@,
    ) && ids::valid_identity(src.descriptors@[i].split@) by {
        assert(coco_descriptor_ok(src, i));
    }
    assert forall|i: int, j: int| 0 <= j < i < src.descriptors@.len() implies text::trim(
        (#[trigger] src.descriptors@[j]).descriptor_file_id@,
    ) != text::trim((#[trigger] src.descriptors@[i]).descriptor_file_id@) by {
        assert(coco_descriptor_ok(src, i));
    }
}

/// Why the import source cannot be sealed yet, or nothing when it can: a
/// valid namespace, and for YOLO exactly one registered, inspected dataset
/// YAML with a valid release and a usable selected split; for COCO every
/// descriptor acceptable.
pub fn import_descriptor_error(src: &ImportSourceDraft) -> (r: Option<String>)
    ensures
        match r {
            Some(m) => source_error(*src) == Some(m@),
            None => source_error(*src) is None,
        },
{
    if !ids::valid_identity_component(src.source_namespace.as_str()) {
        return Some(text::to_string("Source namespace must use only letters, numbers, '.', '_', or '-'."));
    }
    if !is_coco_profile(src.profile) {
        return yolo_source_error(src);
    }
    let mut valid = src.descriptors.len() > 0;
    let mut i: usize = 0;
    while valid && i < src.descriptors.len()
        invariant
            i <= src.descriptors@.len(),
            valid == (src.descriptors@.len() > 0 && forall|j: int| 0 <= j < i ==> #[trigger] coco_descriptor_ok(*src, j)),
        decreases src.descriptors.len() - i,
    {
        if !coco_descriptor_is_ok(src, i) {
            valid = false;
        }
        i += 1;
    }
    if valid {
        None
    } else {
        Some(
            text::to_string(
                "Every COCO descriptor needs a unique registered JSON file, valid release and split, and an exact registered image root.",
            ),
        )
    }
}

/// Whether the server offers a profile.
#[derive(Clone, Copy, Debug, PartialEq, Eq, Structural)]
pub struct ImportProfileCapability {
    pub profile: ImportProfile,
    pub enabled: bool,
}

/// Whether the server offers a transport.
#[derive(Clone, Copy, Debug, PartialEq, Eq, Structural)]
pub struct ImportTransportCapability {
    pub transport: ImportTransport,
    pub enabled: bool,
}

/// What the server offers to imports: profiles, transports, the IDs of the
/// server directories it exposes, manual box-guide migration and limits.
#[derive(Debug)]
pub struct ImportCapabilities {
    pub profiles: Vec<ImportProfileCapability>,
    pub transports: Vec<ImportTransportCapability>,
    pub server_roots: Vec<String>,
    pub manual_box_guide_migration: bool,
    pub limits: ImportLimits,
}

/// `k` is the first enabled profile entry.
pub open spec fn first_enabled_profile(ps: Seq<ImportProfileCapability>, k: int) -> bool {
    0 <= k < ps.len() && ps[k].enabled && forall|j: int| 0 <= j < k ==> !(#[trigger] ps[j]).enabled
}

/// `k` is the first enabled transport entry.
pub open spec fn first_enabled_transport(ts: Seq<ImportTransportCapability>, k: int) -> bool {
    0 <= k < ts.len() && ts[k].enabled && forall|j: int| 0 <= j < k ==> !(#[trigger] ts[j]).enabled
}

/// The profile kept after normalization: the current one if the server
/// offers it, else the first offered one, else the current one.
pub open spec fn normalized_profile(current: ImportProfile, ps: Seq<ImportProfileCapability>) -> ImportProfile {
    if exists|j: int| 0 <= j < ps.len() && (#[trigger] ps[j]).enabled && ps[j].profile == current {
        current
    } else if exists|k: int| first_enabled_profile(ps, k) {
        ps[choose|k: int| first_enabled_profile(ps, k)].profile
    } else {
        current
    }
}

/// The transport kept after normalization, chosen as the profile is.
pub open spec fn normalized_transport(current: ImportTransport, ts: Seq<ImportTransportCapability>) -> ImportTransport {
    if exists|j: int| 0 <= j < ts.len() && (#[trigger] ts[j]).enabled && ts[j].transport == current {
        current
    } else if exists|k: int| first_enabled_transport(ts, k) {
        ts[choose|k: int| first_enabled_transport(ts, k)].transport
    } else {
        current
    }
}

fn pick_profile(current: ImportProfile, ps: &Vec<ImportProfileCapability>) -> (r: ImportProfile)
    ensures
        r == normalized_profile(current, ps@),
{
    let mut offered = false;
    let mut first: Option<usize> = None;
    let mut i: usize = 0;
    while i < ps.len()
        invariant
            i <= ps@.len(),
            offered == exists|j: int| 0 <= j < i && (#[trigger] ps@[j]).enabled && ps@[j].profile == current,
            match first {
                Some(k) => first_enabled_profile(ps@, k as int) && k < i,
                None => forall|j: int| 0 <= j < i ==> !(#[trigger] ps@[j]).enabled,
            },
        decreases ps.len() - i,
    {
        if ps[i].enabled {
            if ps[i].profile == current {
                offered = true;
            }
            if first.is_none() {
                first = Some(i);
            }
        }
        i += 1;
    }
    if offered {
        return current;
    }
    match first {
        Some(k) => {
            proof {
                assert forall|a: int, b: int| first_enabled_profile(ps@, a) && first_enabled_profile(ps@, b) implies a == b by {
                    if a < b {
                        assert(!ps@[a].enabled);
                    } else if b < a {
                        assert(!ps@[b].enabled);
                    }
                }
                assert(first_enabled_profile(ps@, k as int));
            }
            ps[k].profile
        },
        None => current,
    }
}

fn pick_transport(current: ImportTransport, ts: &Vec<ImportTransportCapability>) -> (r: ImportTransport)
    ensures
        r == normalized_transport(current, ts@),
{
    let mut offered = false;
    let mut first: Option<usize> = None;
    let mut i: usize = 0;
    while i < ts.len()
        invariant
            i <= ts@.len(),
            offered == exists|j: int| 0 <= j < i && (#[trigger] ts@[j]).enabled && ts@[j].transport == current,
            match first {
                Some(k) => first_enabled_transport(ts@, k as int) && k < i,
                None => forall|j: int| 0 <= j < i ==> !(#[trigger] ts@[j]).enabled,
            },
        decreases ts.len() - i,
    {
        if ts[i].enabled {
            if ts[i].transport == current {
                offered = true;
            }
            if first.is_none() {
                first = Some(i);
            }
        }
        i += 1;
    }
    if offered {
        return current;
    }
    match first {
        Some(k) => {
            proof {
                assert forall|a: int, b: int| first_enabled_transport(ts@, a) && first_enabled_transport(ts@, b) implies a == b by {
                    if a < b {
                        assert(!ts@[a].enabled);
                    } else if b < a {
                        assert(!ts@[b].enabled);
                    }
                }
                assert(first_enabled_transport(ts@, k as int));
            }
            ts[k].transport
        },
        None => current,
    }
}

/// Brings the source's profile, transport and server directory in line with
/// what the server offers.  A profile or transport the server does not offer
/// is replaced by the first one it offers; a server directory it does not
/// expose by its first one (or none).  When the profile changes, the source
/// restarts with the profile's starting descriptor, no YOLO inspection and
/// no category mappings.
pub fn normalize_capability_selection(
    source: &mut ImportSourceDraft,
    categories: &mut Vec<crate::import_model::ImportCategoryDraft>,
    capabilities: &ImportCapabilities,
)
    ensures
        final(source).profile == normalized_profile(old(source).profile, capabilities.profiles@),
        final(source).transport == normalized_transport(old(source).transport, capabilities.transports@),
        final(source).server_root_id@ == if final(source).transport == ImportTransport::ServerDirectory && !ids::views(
            capabilities.server_roots@,
        ).contains(old(source).server_root_id@) {
            if capabilities.server_roots@.len() > 0 {
                capabilities.server_roots@[0]@
            } else {
                Seq::<char>::empty()
            }
        } else {
            old(source).server_root_id@
        },
        final(source).profile != old(source).profile ==> {
            &&& final(source).descriptors@.len() == 1
            &&& final(source).descriptors@[0].kind == profile_descriptor_kind(final(source).profile)
            &&& final(source).descriptors@[0].descriptor_file_id@ == Seq::<char>::empty()
            &&& final(source).descriptors@[0].release@ == "default"@
            &&& final(source).descriptors@[0].split@ == "train"@
            &&& final(source).descriptors@[0].image_root_file_id@ == Seq::<char>::empty()
            &&& final(source).descriptors@[0].pairing_group@ == Seq::<char>::empty()
            &&& final(source).yolo_splits@.len() == 0
            &&& !final(source).yolo_inspection_loading
            &&& final(source).yolo_inspection_error is None
            &&& final(source).yolo_inspected_descriptor_file_id is None
            &&& final(categories)@.len() == 0
        },
        final(source).profile == old(source).profile ==> {
            &&& final(source).descriptors == old(source).descriptors
            &&& final(source).yolo_splits == old(source).yolo_splits
            &&& final(source).yolo_inspection_loading == old(source).yolo_inspection_loading
            &&& final(source).yolo_inspection_error == old(source).yolo_inspection_error
            &&& final(source).yolo_inspected_descriptor_file_id == old(source).yolo_inspected_descriptor_file_id
            &&& *final(categories) == *old(categories)
        },
        final(source).source_namespace == old(source).source_namespace,
        final(source).registered_paths == old(source).registered_paths,
{
    let previous = source.profile;
    source.profile = pick_profile(source.profile, &capabilities.profiles);
    source.transport = pick_transport(source.transport, &capabilities.transports);
    if source.transport == ImportTransport::ServerDirectory && !ids::contains_string(
        &capabilities.server_roots,
        source.server_root_id.as_str(),
    ) {
        source.server_root_id = if capabilities.server_roots.len() > 0 {
            capabilities.server_roots[0].clone()
        } else {
            String::new()
        };
    }
    if source.profile != previous {
        let mut descriptors: Vec<ImportDescriptorDraft> = Vec::new();
        descriptors.push(descriptor_draft(source.profile));
        source.descriptors = descriptors;
        source.yolo_splits = Vec::new();
        source.yolo_inspection_loading = false;
        source.yolo_inspection_error = None;
        source.yolo_inspected_descriptor_file_id = None;
        *categories = Vec::new();
    }
}

/// Issues idempotency keys for import requests.  Each key names the action,
/// this client session, a sequence number the issuer never repeats, and the
/// request, so keys stay unique when request counters start over.
#[derive(Debug)]
pub struct ImportKeys {
    pub session: u64,
    pub issued: u64,
}

/// The key for `action` and `request_id`, issued as number `sequence` of
/// session `session`.
pub open spec fn import_key_text(action: Seq<char>, session: u64, sequence: u64, request_id: u64) -> Seq<char> {
    "ui-"@ + action + "-"@ + text::decimal(session as nat) + "-"@ + text::decimal(sequence as nat) + "-"@
        + text::decimal(request_id as nat)
}

impl ImportKeys {
    /// An issuer for a session that has issued no key yet.
    pub fn new(session: u64) -> (k: Self)
        ensures
            k.session == session,
            k.issued == 0,
    {
        ImportKeys { session, issued: 0 }
    }

    /// The next idempotency key for `action` and `request_id`.
    pub fn import_key(&mut self, action: &str, request_id: u64) -> (key: String)
        requires
            old(self).issued < u64::MAX,
        ensures
            key@ == import_key_text(action@, old(self).session, old(self).issued, request_id),
            final(self).session == old(self).session,
            final(self).issued == old(self).issued + 1,
    {
        let mut key = text::concat3("ui-", action, "-");
        text::push_decimal(&mut key, self.session);
        text::push_str(&mut key, "-");
        text::push_decimal(&mut key, self.issued);
        text::push_str(&mut key, "-");
        text::push_decimal(&mut key, request_id);
        self.issued = self.issued + 1;
        key
    }
}

/// Keys issued under different sequence numbers differ, whatever the action
/// and request: an issuer never hands out the same key twice.
pub proof fn lemma_import_keys_unique(
    action: Seq<char>,
    session: u64,
    a: u64,
    b: u64,
    request_a: u64,
    request_b: u64,
)
    requires
        a != b,
    ensures
        import_key_text(action, session, a, request_a) != import_key_text(action, session, b, request_b),
{
    let head = "ui-"@ + action + "-"@ + text::decimal(session as nat) + "-"@;
    let ka = import_key_text(action, session, a, request_a);
    let kb = import_key_text(action, session, b, request_b);
    assert(ka =~= head + (text::decimal(a as nat) + "-"@ + text::decimal(request_a as nat)));
    assert(kb =~= head + (text::decimal(b as nat) + "-"@ + text::decimal(request_b as nat)));
    if ka == kb {
        let ta = text::decimal(a as nat) + "-"@ + text::decimal(request_a as nat);
        let tb = text::decimal(b as nat) + "-"@ + text::decimal(request_b as nat);
        assert(ta =~= ka.subrange(head.len() as int, ka.len() as int));
        assert(tb =~= kb.subrange(head.len() as int, kb.len() as int));
        assert(ta == tb);
        lemma_digits_then_dash(a as nat, request_a as nat, b as nat, request_b as nat);
    }
}

/// A decimal followed by `-` and another decimal determines both numbers'
/// first part: the digits before the first dash.
proof fn lemma_digits_then_dash(a: nat, ra: nat, b: nat, rb: nat)
    requires
        text::decimal(a) + "-"@ + text::decimal(ra) == text::decimal(b) + "-"@ + text::decimal(rb),
    ensures
        a == b,
{
    reveal_strlit("-");
    let da = text::decimal(a);
    let db = text::decimal(b);
    let s = da + "-"@ + text::decimal(ra);
    lemma_decimal_digits(a);
    lemma_decimal_digits(b);
    if da.len() < db.len() {
        assert(s[da.len() as int] == '-');
        assert(s[da.len() as int] == db[da.len() as int]);
    } else if db.len() < da.len() {
        assert(s[db.len() as int] == da[db.len() as int]);
        assert((db + "-"@ + text::decimal(rb))[db.len() as int] == '-');
    } else {
        assert(da =~= s.subrange(0, da.len() as int));
        assert(db =~= (db + "-"@ + text::decimal(rb)).subrange(0, db.len() as int));
        text::lemma_decimal_injective(a, b);
    }
}

/// Decimal renderings hold digits only.
proof fn lemma_decimal_digits(n: nat)
    ensures
        forall|i: int| 0 <= i < text::decimal(n).len() ==> '0' <= #[trigger] text::decimal(n)[i] <= '9',
    decreases n,
{
    if n >= 10 {
        lemma_decimal_digits(n / 10);
        let d = text::decimal(n / 10);
        assert forall|i: int| 0 <= i < text::decimal(n).len() implies '0' <= #[trigger] text::decimal(n)[i] <= '9' by {
            if i < d.len() {
                assert(text::decimal(n)[i] == d[i]);
            }
        }
    }
}

} // verus!
