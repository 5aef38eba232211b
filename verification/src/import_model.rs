//! The import wizard's vocabulary: profiles, transports, geometry mappings
//! and the editable category drafts.
//!
//! Numeric mapping parameters are carried as the outcome of the range checks
//! the client makes on them; the numbers themselves stay with the editor.
use vstd::prelude::*;
use crate::model::{SkeletonSpec, TaskDefinition};

verus! {

/// The source dataset format of an import.
#[derive(Clone, Copy, Debug, PartialEq, Eq, Structural)]
pub enum ImportProfile {
    UltralyticsYoloDetectV1,
    UltralyticsYoloPoseV1,
    CocoInstancesGtV1,
    CocoKeypointsGtV1,
    Unknown,
}

/// How the source files reach the server.
#[derive(Clone, Copy, Debug, PartialEq, Eq, Structural)]
pub enum ImportTransport {
    BrowserFolder,
    ServerDirectory,
    Unknown,
}

/// The kind of a dataset descriptor file.
#[derive(Clone, Copy, Debug, PartialEq, Eq, Structural)]
pub enum ImportDescriptorKind {
    YoloDataset,
    CocoInstances,
    CocoKeypoints,
}

/// A geometry a source provides or an import produces.
#[derive(Clone, Copy, Debug, PartialEq, Eq, Structural)]
pub enum ImportGeometryKind {
    BoundingBox,
    Skeleton,
}

/// How one target geometry is produced from a source geometry.
#[derive(Clone, Copy, Debug, PartialEq, Eq, Structural)]
pub enum ImportGeometryPolicy {
    Direct,
    KeypointEnvelopeV1,
    BoxRelativeTemplateV1,
    ManualBoxGuideV1,
    Omit,
}

/// What imported annotations become in the labeling workflow.
#[derive(Clone, Copy, Debug, PartialEq, Eq, Structural)]
pub enum ImportWorkflowIntent {
    AuthoritativeGroundTruth,
    RequireApproval,
    SeedFutureAnnotation,
}

/// The visibility state of a template keypoint.
#[derive(Clone, Copy, Debug, PartialEq, Eq, Structural)]
pub enum KeypointState {
    Visible,
    Hidden,
    Absent,
}

/// What to do when a YOLO label file is missing.
#[derive(Clone, Copy, Debug, PartialEq, Eq, Structural)]
pub enum YoloMissingLabelPolicy {
    Block,
    Incomplete,
    MissingIsBackground,
}

/// What to do with exact duplicate YOLO rows.
#[derive(Clone, Copy, Debug, PartialEq, Eq, Structural)]
pub enum YoloDuplicateRowPolicy {
    Block,
    Deduplicate,
}

/// What to do with COCO crowd objects.
#[derive(Clone, Copy, Debug, PartialEq, Eq, Structural)]
pub enum CocoCrowdPolicy {
    Block,
    Incomplete,
    ExcludeImageTask,
}

/// How strictly COCO structure is read.
#[derive(Clone, Copy, Debug, PartialEq, Eq, Structural)]
pub enum CocoStructurePolicy {
    Canonical,
    BboxCompatibility,
}

/// What to do with geometry outside the image.
#[derive(Clone, Copy, Debug, PartialEq, Eq, Structural)]
pub enum GeometryBoundsPolicy {
    Reject,
    Clip,
}

/// What to do with an image listed in several splits.
#[derive(Clone, Copy, Debug, PartialEq, Eq, Structural)]
pub enum CrossSplitDuplicatePolicy {
    Block,
    MergeMemberships,
}

/// What to do when pose keypoints carry no names.
#[derive(Clone, Copy, Debug, PartialEq, Eq, Structural)]
pub enum MissingKeypointNamesPolicy {
    Block,
    GenerateIndexed,
}

/// The compatibility choices of an import plan.
#[derive(Clone, Copy, Debug, PartialEq, Eq, Structural)]
pub struct ImportCompatibility {
    pub yolo_missing_labels: YoloMissingLabelPolicy,
    pub yolo_duplicate_rows: YoloDuplicateRowPolicy,
    pub coco_crowds: CocoCrowdPolicy,
    pub coco_structure: CocoStructurePolicy,
    pub geometry_bounds: GeometryBoundsPolicy,
    pub cross_split_duplicates: CrossSplitDuplicatePolicy,
    pub missing_keypoint_names: MissingKeypointNamesPolicy,
}

/// The server's import limits.
#[derive(Clone, Copy, Debug, PartialEq, Eq, Structural)]
pub struct ImportLimits {
    pub max_browser_files: u64,
    pub max_browser_bytes: u64,
    pub max_single_file_bytes: u64,
    pub max_keypoints_per_skeleton: u64,
    pub max_generated_tasks: u64,
}

/// What the server offers to mapping: its limits and whether manual
/// box-guide migration is available.
#[derive(Clone, Copy, Debug, PartialEq, Eq, Structural)]
pub struct MappingCapabilities {
    pub manual_box_guide_migration: bool,
    pub limits: ImportLimits,
}

/// One parameter of a geometry mapping.  A scalar records whether its value
/// is a finite number between 0 and 1 (`unit_interval`) and whether it is a
/// whole number from 1 through `u32::MAX` (`pixel_count`); a point records
/// whether both coordinates lie between 0 and 1.
#[derive(Debug)]
pub enum ImportMappingParameter {
    Scalar { name: String, unit_interval: bool, pixel_count: bool },
    Boolean { name: String, value: bool },
    Point { name: String, in_unit_square: bool, state: KeypointState },
}

/// How one target geometry of a category is produced.
#[derive(Debug)]
pub struct ImportGeometryMappingRequest {
    pub source_category_key: String,
    pub source_geometry: ImportGeometryKind,
    pub target_geometry: ImportGeometryKind,
    pub policy: ImportGeometryPolicy,
    pub parameters: Vec<ImportMappingParameter>,
}

/// A workflow an import plan creates for a source category.
#[derive(Debug)]
pub struct ImportTaskMappingRequest {
    pub source_category_key: String,
    pub task: TaskDefinition,
    pub workflow_intent: ImportWorkflowIntent,
}

/// The target skeleton of a category's skeleton workflow, with the source
/// keypoint names matched to it.
#[derive(Debug)]
pub struct ImportSkeletonMappingRequest {
    pub source_category_key: String,
    pub target_task_id: String,
    pub source_keypoint_names: Vec<String>,
    pub skeleton: SkeletonSpec,
    pub names_confirmed: bool,
}

/// The class a source category becomes, and whether it is included.
#[derive(Debug)]
pub struct ImportCategoryMappingRequest {
    pub source_category_key: String,
    pub source_category_id: String,
    pub class_id: String,
    pub class_name: String,
    pub color: String,
    pub selected: bool,
}

/// An acknowledged preflight diagnostic.
#[derive(Debug)]
pub struct ImportAcknowledgementRequest {
    pub diagnostic_code: String,
    pub policy: String,
    pub affected_count: u64,
    pub acknowledged: bool,
}

/// A preflight diagnostic as the plan request reads it: its code and how
/// many items it affects.
#[derive(Debug)]
pub struct PreflightDiagnostic {
    pub code: String,
    pub count: u64,
}

/// The mapping plan sent to the server.
#[derive(Debug)]
pub struct UpdateImportPlanRequest {
    pub category_mappings: Vec<ImportCategoryMappingRequest>,
    pub geometry_mappings: Vec<ImportGeometryMappingRequest>,
    pub task_mappings: Vec<ImportTaskMappingRequest>,
    pub skeleton_mappings: Vec<ImportSkeletonMappingRequest>,
    pub compatibility: ImportCompatibility,
    pub acknowledgements: Vec<ImportAcknowledgementRequest>,
}

/// The editable mapping of one source category.
#[derive(Debug)]
pub struct ImportCategoryDraft {
    pub selected: bool,
    pub source_category_key: String,
    pub source_category_id: String,
    pub source_name: String,
    pub class_id: String,
    pub class_name: String,
    pub class_color: String,
    pub bounding_box_task_id: String,
    pub bounding_box_task_name: String,
    pub skeleton_task_id: String,
    pub skeleton_task_name: String,
    pub source_skeleton: Option<SkeletonSpec>,
    pub direct_geometry: Vec<ImportGeometryKind>,
    pub geometry_mappings: Vec<ImportGeometryMappingRequest>,
    pub task_mappings: Vec<ImportTaskMappingRequest>,
    pub skeleton_mappings: Vec<ImportSkeletonMappingRequest>,
    pub workflow_intent: ImportWorkflowIntent,
    pub target_keypoint_names: String,
}

/// Everything the mapping checks read: how many categories preflight (or
/// else the current plan) discovered, the category drafts, the server's
/// capabilities, the attestation and confirmation flags (with the seed
/// workflows the confirmation was given for), and the compatibility
/// choices.
#[derive(Debug)]
pub struct ImportMappingDraft {
    pub preflight_categories: Option<usize>,
    pub plan_categories: Option<usize>,
    pub categories: Vec<ImportCategoryDraft>,
    pub capabilities: Option<MappingCapabilities>,
    pub exhaustive: bool,
    pub seed_workflow_confirmed: bool,
    pub seed_workflow_confirmation_scope: Option<String>,
    pub profile: ImportProfile,
    pub compatibility: ImportCompatibility,
}

} // verus!
