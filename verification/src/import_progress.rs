//! Where an import stands: the wizard screen a job belongs on, the five
//! progress stages and their status, display labels, and the diagnostics
//! summary line.
use vstd::prelude::*;
use crate::import_model::{ImportProfile, ImportTransport, ImportWorkflowIntent};

verus! {

/// The screens of the import wizard.
#[derive(Clone, Copy, Debug, PartialEq, Eq, Structural)]
pub enum ImportScreen {
    Source,
    Configure,
    Preflight,
    Ready,
    Running,
    Failure,
    Success,
}

impl Default for ImportScreen {
    /// The wizard starts at the source screen.
    fn default() -> (s: Self)
        ensures
            s == ImportScreen::Source,
    {
        ImportScreen::Source
    }
}

/// The five progress stages shown above the wizard.
#[derive(Clone, Copy, Debug, PartialEq, Eq, Structural)]
pub enum ImportStage {
    Source,
    Configure,
    Preflight,
    Ready,
    Import,
}

/// The name of a stage.
pub open spec fn stage_label(stage: ImportStage) -> Seq<char> {
    match stage {
        ImportStage::Source => "Source"@,
        ImportStage::Configure => "Configure"@,
        ImportStage::Preflight => "Preflight"@,
        ImportStage::Ready => "Ready"@,
        ImportStage::Import => "Import"@,
    }
}

/// The position of a stage, from 0.
pub open spec fn stage_index(stage: ImportStage) -> nat {
    match stage {
        ImportStage::Source => 0,
        ImportStage::Configure => 1,
        ImportStage::Preflight => 2,
        ImportStage::Ready => 3,
        ImportStage::Import => 4,
    }
}

impl ImportStage {
    /// The position of the stage, from 0.
    pub fn index(self) -> (i: usize)
        ensures
            i == stage_index(self),
    {
        match self {
            ImportStage::Source => 0,
            ImportStage::Configure => 1,
            ImportStage::Preflight => 2,
            ImportStage::Ready => 3,
            ImportStage::Import => 4,
        }
    }

    /// The name of the stage.
    pub fn label(self) -> (r: &'static str)
        ensures
            r@ == stage_label(self),
    {
        match self {
            ImportStage::Source => "Source",
            ImportStage::Configure => "Configure",
            ImportStage::Preflight => "Preflight",
            ImportStage::Ready => "Ready",
            ImportStage::Import => "Import",
        }
    }

    /// All stages in order.
    pub fn all() -> (v: Vec<ImportStage>)
        ensures
            v@ == seq![ImportStage::Source, ImportStage::Configure, ImportStage::Preflight, ImportStage::Ready, ImportStage::Import],
    {
        let mut v: Vec<ImportStage> = Vec::new();
        v.push(ImportStage::Source);
        v.push(ImportStage::Configure);
        v.push(ImportStage::Preflight);
        v.push(ImportStage::Ready);
        v.push(ImportStage::Import);
        assert(v@ =~= seq![ImportStage::Source, ImportStage::Configure, ImportStage::Preflight, ImportStage::Ready, ImportStage::Import]);
        v
    }
}

/// How a stage is shown.
#[derive(Clone, Copy, Debug, PartialEq, Eq, Structural)]
pub enum ImportStageStatus {
    Pending,
    Active,
    Complete,
    Failed,
}

/// The server-side phase an import job is in or failed in.
#[derive(Clone, Copy, Debug, PartialEq, Eq, Structural)]
pub enum ImportProgressPhase {
    Registration,
    Upload,
    Sealing,
    Preflight,
    Build,
    Verification,
    Commit,
    Cleanup,
    Unknown,
}

/// The lifecycle state of an import job.
#[derive(Clone, Copy, Debug, PartialEq, Eq, Structural)]
pub enum ImportLifecycle {
    Registering,
    Uploading,
    Sealed,
    Preflighting,
    AwaitingDecision,
    Building,
    Verifying,
    Committing,
    Succeeded,
    Failed,
    Cancelled,
    Expired,
    Unknown,
}

/// What the progress view reads of an import job: the phase it failed in,
/// if it failed, the phase it is in, and whether preflight has reported.
#[derive(Clone, Copy, Debug, PartialEq, Eq, Structural)]
pub struct ImportJobProgress {
    pub failure_phase: Option<ImportProgressPhase>,
    pub progress_phase: ImportProgressPhase,
    pub has_preflight_report: bool,
}

/// What the progress view reads of the wizard: its screen, its job, and
/// whether it holds a plan.
#[derive(Clone, Copy, Debug, PartialEq, Eq, Structural)]
pub struct ImportProgressState {
    pub screen: ImportScreen,
    pub job: Option<ImportJobProgress>,
    pub has_plan: bool,
}

/// The phase a failed import is attributed to: the job's failure phase, or
/// without one and without a plan, the job's current phase.
pub open spec fn failure_phase(flow: ImportProgressState) -> Option<ImportProgressPhase> {
    match flow.job {
        Some(job) => match job.failure_phase {
            Some(p) => Some(p),
            None => if !flow.has_plan {
                Some(job.progress_phase)
            } else {
                None
            },
        },
        None => None,
    }
}

/// The stage a failed import is shown at.
pub open spec fn failure_stage(flow: ImportProgressState) -> ImportStage {
    match failure_phase(flow) {
        Some(ImportProgressPhase::Registration) => ImportStage::Source,
        Some(ImportProgressPhase::Upload) | Some(ImportProgressPhase::Sealing) => ImportStage::Configure,
        Some(ImportProgressPhase::Preflight) => ImportStage::Preflight,
        Some(ImportProgressPhase::Build) | Some(ImportProgressPhase::Verification) | Some(
            ImportProgressPhase::Commit,
        ) => ImportStage::Import,
        Some(ImportProgressPhase::Unknown) => ImportStage::Configure,
        _ => if flow.has_plan {
            ImportStage::Import
        } else if flow.job matches Some(job) && job.has_preflight_report {
            ImportStage::Preflight
        } else if flow.job is Some {
            ImportStage::Configure
        } else {
            ImportStage::Source
        },
    }
}

/// The stage a failed import is shown at.
pub fn failure_import_stage(flow: &ImportProgressState) -> (s: ImportStage)
    ensures
        s == failure_stage(*flow),
{
    let phase = match &flow.job {
        Some(job) => match job.failure_phase {
            Some(p) => Some(p),
            None => if !flow.has_plan {
                Some(job.progress_phase)
            } else {
                None
            },
        },
        None => None,
    };
    match phase {
        Some(ImportProgressPhase::Registration) => ImportStage::Source,
        Some(ImportProgressPhase::Upload) | Some(ImportProgressPhase::Sealing) => ImportStage::Configure,
        Some(ImportProgressPhase::Preflight) => ImportStage::Preflight,
        Some(ImportProgressPhase::Build) | Some(ImportProgressPhase::Verification) | Some(
            ImportProgressPhase::Commit,
        ) => ImportStage::Import,
        Some(ImportProgressPhase::Unknown) => ImportStage::Configure,
        Some(ImportProgressPhase::Cleanup) | None => {
            if flow.has_plan {
                ImportStage::Import
            } else if match &flow.job {
                Some(job) => job.has_preflight_report,
                None => false,
            } {
                ImportStage::Preflight
            } else if flow.job.is_some() {
                ImportStage::Configure
            } else {
                ImportStage::Source
            }
        },
    }
}

/// The stage the wizard's screen belongs to.
pub open spec fn current_stage(flow: ImportProgressState) -> ImportStage {
    match flow.screen {
        ImportScreen::Source => ImportStage::Source,
        ImportScreen::Configure => ImportStage::Configure,
        ImportScreen::Preflight => ImportStage::Preflight,
        ImportScreen::Ready => ImportStage::Ready,
        ImportScreen::Running | ImportScreen::Success => ImportStage::Import,
        ImportScreen::Failure => failure_stage(flow),
    }
}

/// The stage the wizard's screen belongs to.
pub fn current_import_stage(flow: &ImportProgressState) -> (s: ImportStage)
    ensures
        s == current_stage(*flow),
{
    match flow.screen {
        ImportScreen::Source => ImportStage::Source,
        ImportScreen::Configure => ImportStage::Configure,
        ImportScreen::Preflight => ImportStage::Preflight,
        ImportScreen::Ready => ImportStage::Ready,
        ImportScreen::Running | ImportScreen::Success => ImportStage::Import,
        ImportScreen::Failure => failure_import_stage(flow),
    }
}

/// How a stage is shown: everything is complete after success; a failed
/// import marks its stage failed; otherwise stages before the current one
/// are complete, the current one active and later ones pending.
pub open spec fn stage_status(flow: ImportProgressState, stage: ImportStage) -> ImportStageStatus {
    let current = current_stage(flow);
    if flow.screen == ImportScreen::Success {
        ImportStageStatus::Complete
    } else if flow.screen == ImportScreen::Failure && stage == current {
        ImportStageStatus::Failed
    } else if stage_index(stage) < stage_index(current) {
        ImportStageStatus::Complete
    } else if stage_index(stage) == stage_index(current) {
        ImportStageStatus::Active
    } else {
        ImportStageStatus::Pending
    }
}

/// How a stage is shown.
pub fn import_stage_status(flow: &ImportProgressState, stage: ImportStage) -> (s: ImportStageStatus)
    ensures
        s == stage_status(*flow, stage),
{
    if flow.screen == ImportScreen::Success {
        return ImportStageStatus::Complete;
    }
    let current = current_import_stage(flow);
    if flow.screen == ImportScreen::Failure && stage == current {
        return ImportStageStatus::Failed;
    }
    let a = stage.index();
    let b = current.index();
    if a < b {
        ImportStageStatus::Complete
    } else if a == b {
        ImportStageStatus::Active
    } else {
        ImportStageStatus::Pending
    }
}

/// The screen an import job belongs on, given whether its plan is ready to
/// commit (none when there is no plan).
pub open spec fn job_screen(lifecycle: ImportLifecycle, plan_commit_ready: Option<bool>) -> ImportScreen {
    match lifecycle {
        ImportLifecycle::Registering | ImportLifecycle::Uploading | ImportLifecycle::Sealed => ImportScreen::Configure,
        ImportLifecycle::Preflighting => ImportScreen::Preflight,
        ImportLifecycle::AwaitingDecision => if plan_commit_ready == Some(true) {
            ImportScreen::Ready
        } else {
            ImportScreen::Preflight
        },
        ImportLifecycle::Building | ImportLifecycle::Verifying | ImportLifecycle::Committing => ImportScreen::Running,
        ImportLifecycle::Succeeded => ImportScreen::Success,
        _ => ImportScreen::Failure,
    }
}

/// The screen an import job belongs on.
pub fn import_screen(lifecycle: ImportLifecycle, plan_commit_ready: Option<bool>) -> (s: ImportScreen)
    ensures
        s == job_screen(lifecycle, plan_commit_ready),
{
    match lifecycle {
        ImportLifecycle::Registering | ImportLifecycle::Uploading | ImportLifecycle::Sealed => ImportScreen::Configure,
        ImportLifecycle::Preflighting => ImportScreen::Preflight,
        ImportLifecycle::AwaitingDecision => {
            if plan_commit_ready == Some(true) {
                ImportScreen::Ready
            } else {
                ImportScreen::Preflight
            }
        },
        ImportLifecycle::Building | ImportLifecycle::Verifying | ImportLifecycle::Committing => ImportScreen::Running,
        ImportLifecycle::Succeeded => ImportScreen::Success,
        ImportLifecycle::Failed | ImportLifecycle::Cancelled | ImportLifecycle::Expired | ImportLifecycle::Unknown => {
            ImportScreen::Failure
        },
    }
}

/// The heading of a wizard screen.
pub fn import_step_label(screen: ImportScreen) -> (r: &'static str)
    ensures
        r@ == match screen {
            ImportScreen::Source => "1. Source, profile, transport, and attestations"@,
            ImportScreen::Configure => "2. Register files and configure the source"@,
            ImportScreen::Preflight => "3. Preflight diagnostics and mappings"@,
            ImportScreen::Ready => "4. Ready to commit"@,
            ImportScreen::Running => "5. Building and verifying the dataset"@,
            ImportScreen::Failure => "Import needs attention"@,
            ImportScreen::Success => "Import complete"@,
        },
{
    match screen {
        ImportScreen::Source => "1. Source, profile, transport, and attestations",
        ImportScreen::Configure => "2. Register files and configure the source",
        ImportScreen::Preflight => "3. Preflight diagnostics and mappings",
        ImportScreen::Ready => "4. Ready to commit",
        ImportScreen::Running => "5. Building and verifying the dataset",
        ImportScreen::Failure => "Import needs attention",
        ImportScreen::Success => "Import complete",
    }
}

/// The display name of a profile.
pub fn profile_label(profile: ImportProfile) -> (r: &'static str)
    ensures
        r@ == match profile {
            ImportProfile::UltralyticsYoloDetectV1 => "Ultralytics YOLO detect v1"@,
            ImportProfile::UltralyticsYoloPoseV1 => "Ultralytics YOLO pose v1"@,
            ImportProfile::CocoInstancesGtV1 => "COCO instances ground truth v1"@,
            ImportProfile::CocoKeypointsGtV1 => "COCO keypoints ground truth v1"@,
            ImportProfile::Unknown => "Unknown profile"@,
        },
{
    match profile {
        ImportProfile::UltralyticsYoloDetectV1 => "Ultralytics YOLO detect v1",
        ImportProfile::UltralyticsYoloPoseV1 => "Ultralytics YOLO pose v1",
        ImportProfile::CocoInstancesGtV1 => "COCO instances ground truth v1",
        ImportProfile::CocoKeypointsGtV1 => "COCO keypoints ground truth v1",
        ImportProfile::Unknown => "Unknown profile",
    }
}

/// The display name of a transport.
pub fn transport_label(transport: ImportTransport) -> (r: &'static str)
    ensures
        r@ == match transport {
            ImportTransport::BrowserFolder => "Browser folder upload"@,
            ImportTransport::ServerDirectory => "Server directory"@,
            ImportTransport::Unknown => "Unknown transport"@,
        },
{
    match transport {
        ImportTransport::BrowserFolder => "Browser folder upload",
        ImportTransport::ServerDirectory => "Server directory",
        ImportTransport::Unknown => "Unknown transport",
    }
}

/// The display name of a workflow intent.
pub fn intent_label(intent: ImportWorkflowIntent) -> (r: &'static str)
    ensures
        r@ == match intent {
            ImportWorkflowIntent::AuthoritativeGroundTruth => "Authoritative ground truth"@,
            ImportWorkflowIntent::RequireApproval => "Require approval"@,
            ImportWorkflowIntent::SeedFutureAnnotation => "Seed future annotation"@,
        },
{
    match intent {
        ImportWorkflowIntent::AuthoritativeGroundTruth => "Authoritative ground truth",
        ImportWorkflowIntent::RequireApproval => "Require approval",
        ImportWorkflowIntent::SeedFutureAnnotation => "Seed future annotation",
    }
}

/// The description of a lifecycle state.
pub open spec fn lifecycle_text(lifecycle: ImportLifecycle) -> Seq<char> {
    match lifecycle {
        ImportLifecycle::Registering => "Registering files"@,
        ImportLifecycle::Uploading => "Uploading files"@,
        ImportLifecycle::Sealed => "Source sealed"@,
        ImportLifecycle::Preflighting => "Running preflight"@,
        ImportLifecycle::AwaitingDecision => "Awaiting decision"@,
        ImportLifecycle::Building => "Building dataset"@,
        ImportLifecycle::Verifying => "Verifying dataset"@,
        ImportLifecycle::Committing => "Committing dataset"@,
        ImportLifecycle::Succeeded => "Succeeded"@,
        ImportLifecycle::Failed => "Failed"@,
        ImportLifecycle::Cancelled => "Cancelled"@,
        ImportLifecycle::Expired => "Expired"@,
        ImportLifecycle::Unknown => "Unknown"@,
    }
}

/// The display name of a lifecycle state.
pub fn lifecycle_label(lifecycle: ImportLifecycle) -> (r: &'static str)
    ensures
        r@ == lifecycle_text(lifecycle),
{
    match lifecycle {
        ImportLifecycle::Registering => "Registering files",
        ImportLifecycle::Uploading => "Uploading files",
        ImportLifecycle::Sealed => "Source sealed",
        ImportLifecycle::Preflighting => "Running preflight",
        ImportLifecycle::AwaitingDecision => "Awaiting decision",
        ImportLifecycle::Building => "Building dataset",
        ImportLifecycle::Verifying => "Verifying dataset",
        ImportLifecycle::Committing => "Committing dataset",
        ImportLifecycle::Succeeded => "Succeeded",
        ImportLifecycle::Failed => "Failed",
        ImportLifecycle::Cancelled => "Cancelled",
        ImportLifecycle::Expired => "Expired",
        ImportLifecycle::Unknown => "Unknown",
    }
}

} // verus!
