//! The progress line under the current import stage: how many of the
//! stage's requirements are met, how far the upload or build has got, or
//! which activity is running.
use vstd::prelude::*;
use crate::diagnostics::ImportDiagnosticSummary;
use crate::import_model::ImportTransport;
use crate::import_progress::{lifecycle_label, ImportLifecycle, ImportScreen, ImportStage};
use crate::import_support::{import_descriptor_error, source_error};
use crate::mapping::{add_all_unique, severity_count, ImportMappingIssueSeverity};
use crate::mapping_check::{draft_candidates, import_mappings_complete, is_unsafe_segment, unsafe_segment};
use crate::recovery::ImportFlowState;
use crate::text;

verus! {

/// The counters of an import job.
#[derive(Clone, Copy, Debug, PartialEq, Eq, Structural)]
pub struct ImportJobCounters {
    pub lifecycle: ImportLifecycle,
    pub transport: ImportTransport,
    pub uploaded_files: u64,
    pub total_files: u64,
    pub accepted_bytes: u64,
    pub total_bytes: u64,
    pub processed_images: u64,
    pub total_images: u64,
    pub processed_objects: u64,
    pub total_objects: u64,
}

/// The activity in flight, as far as the progress line tells them apart.
#[derive(Clone, Copy, Debug, PartialEq, Eq, Structural)]
pub enum RunningActivity {
    Create,
    Other,
}

/// The progress line of a stage.
#[derive(Debug)]
pub enum StageProgress {
    /// A label and how much of the stage is done, as `done` of `total`.
    Determinate { label: String, done: u64, total: u64 },
    /// The source upload: files and bytes accepted so far.
    Uploading { uploaded_files: u64, total_files: u64, accepted_bytes: u64, total_bytes: u64 },
    /// The running activity, labelled by the activity itself.
    Activity,
    /// A label without a measure of progress.
    Indeterminate { label: String },
}

/// A progress line as a plain value.
pub enum StageProgressView {
    Determinate(Seq<char>, nat, nat),
    Uploading(u64, u64, u64, u64),
    Activity,
    Indeterminate(Seq<char>),
}

/// The plain value of a progress line.
pub open spec fn progress_view(p: StageProgress) -> StageProgressView {
    match p {
        StageProgress::Determinate { label, done, total } => StageProgressView::Determinate(label@, done as nat, total as nat),
        StageProgress::Uploading { uploaded_files, total_files, accepted_bytes, total_bytes } => StageProgressView::Uploading(
            uploaded_files,
            total_files,
            accepted_bytes,
            total_bytes,
        ),
        StageProgress::Activity => StageProgressView::Activity,
        StageProgress::Indeterminate { label } => StageProgressView::Indeterminate(label@),
    }
}

/// One for a met requirement, zero otherwise.
pub open spec fn met(b: bool) -> nat {
    if b {
        1
    } else {
        0
    }
}

/// The source-setup requirements met: a path-safe destination dataset ID, a
/// destination name, a selected source, the ground-truth attestation and a
/// provenance.
pub open spec fn source_setup_met(f: ImportFlowState) -> nat {
    let source_selected = f.source.transport == ImportTransport::BrowserFolder || (f.source.server_root_id@.len() > 0
        && text::trim(f.server_relative_path@).len() > 0);
    met(!unsafe_segment(f.destination_id@)) + met(text::trim(f.destination_name@).len() > 0) + met(source_selected) + met(
        f.ground_truth,
    ) + met(text::trim(f.provenance@).len() > 0)
}

/// The source-configuration requirements met: the upload is done (or the
/// server reads the directory), a source namespace, and a source that can
/// be sealed.
pub open spec fn source_configuration_met(f: ImportFlowState, job: Option<ImportJobCounters>) -> nat {
    let upload_ready = f.source.transport == ImportTransport::ServerDirectory || match job {
        Some(j) => j.total_files > 0 && j.uploaded_files == j.total_files && j.accepted_bytes == j.total_bytes,
        None => false,
    };
    met(upload_ready) + met(text::trim(f.source.source_namespace@).len() > 0) + met(source_error(f.source) is None)
}

/// Every diagnostic that needs an acknowledgement has one.
pub open spec fn acknowledgements_given(report: Seq<ImportDiagnosticSummary>, acked: Seq<Seq<char>>) -> bool {
    forall|i: int|
        0 <= i < report.len() ==> (#[trigger] report[i]).requires_acknowledgement ==> acked.contains(report[i].code@)
}

/// The preflight-review requirements met: a report, complete mappings, and
/// every acknowledgement the report asks for.
pub open spec fn preflight_review_met(f: ImportFlowState, report: Option<Seq<ImportDiagnosticSummary>>) -> nat {
    met(report is Some) + met(
        severity_count(add_all_unique(Seq::empty(), draft_candidates(f.mapping)), ImportMappingIssueSeverity::Error) == 0,
    ) + met(
        match report {
            Some(r) => acknowledgements_given(r, crate::ids::views(f.acknowledgements@)),
            None => false,
        },
    )
}

/// The records a job has processed and has to process, each sum held at
/// `u64::MAX`.
pub open spec fn saturating_sum(a: u64, b: u64) -> nat {
    if a + b > u64::MAX {
        u64::MAX as nat
    } else {
        (a + b) as nat
    }
}

/// The progress line of a stage.
pub open spec fn stage_progress(
    f: ImportFlowState,
    screen: ImportScreen,
    stage: ImportStage,
    activity: Option<RunningActivity>,
    job: Option<ImportJobCounters>,
    report: Option<Seq<ImportDiagnosticSummary>>,
) -> StageProgressView {
    if screen == ImportScreen::Failure {
        StageProgressView::Determinate(crate::import_progress::stage_label(stage) + " needs attention"@, 1, 1)
    } else if screen == ImportScreen::Success {
        StageProgressView::Determinate("Import complete"@, 1, 1)
    } else {
        match stage {
            ImportStage::Source => if activity == Some(RunningActivity::Create) {
                StageProgressView::Activity
            } else {
                let n = source_setup_met(f);
                StageProgressView::Determinate(
                    "Source setup: "@ + text::decimal(n) + " of 5 requirements complete"@,
                    n,
                    5,
                )
            },
            ImportStage::Configure => match job {
                Some(j) if j.transport == ImportTransport::BrowserFolder && j.total_bytes > 0 && j.accepted_bytes
                    < j.total_bytes => StageProgressView::Uploading(
                    j.uploaded_files,
                    j.total_files,
                    j.accepted_bytes,
                    j.total_bytes,
                ),
                _ => if activity is Some {
                    StageProgressView::Activity
                } else {
                    let n = source_configuration_met(f, job);
                    StageProgressView::Determinate(
                        "Source configuration: "@ + text::decimal(n) + " of 3 requirements complete"@,
                        n,
                        3,
                    )
                },
            },
            ImportStage::Preflight => if activity is Some {
                StageProgressView::Activity
            } else {
                let n = preflight_review_met(f, report);
                StageProgressView::Determinate(
                    "Preflight review: "@ + text::decimal(n) + " of 3 requirements complete"@,
                    n,
                    3,
                )
            },
            ImportStage::Ready => StageProgressView::Determinate("Preflight accepted; ready to import"@, 1, 1),
            ImportStage::Import => match job {
                Some(j) if saturating_sum(j.total_images, j.total_objects) > 0 && saturating_sum(
                    j.processed_images,
                    j.processed_objects,
                ) < saturating_sum(j.total_images, j.total_objects) => {
                    let done = saturating_sum(j.processed_images, j.processed_objects);
                    let total = saturating_sum(j.total_images, j.total_objects);
                    StageProgressView::Determinate(
                        "Building dataset: "@ + text::decimal(done) + " of "@ + text::decimal(total) + " records processed"@,
                        done,
                        total,
                    )
                },
                _ => if activity is Some {
                    StageProgressView::Activity
                } else {
                    match job {
                        Some(j) => StageProgressView::Indeterminate(crate::import_progress::lifecycle_text(j.lifecycle)),
                        None => StageProgressView::Indeterminate("Building and publishing dataset"@),
                    }
                },
            },
        }
    }
}

fn counted_line(prefix: &str, n: u64, suffix: &str) -> (r: String)
    ensures
        r@ == prefix@ + text::decimal(n as nat) + suffix@,
{
    let mut r = text::with_number(prefix, n);
    text::push_str(&mut r, suffix);
    r
}

fn saturating(a: u64, b: u64) -> (r: u64)
    ensures
        r as nat == saturating_sum(a, b),
{
    if a > u64::MAX - b {
        u64::MAX
    } else {
        a + b
    }
}

fn acknowledged_all(report: &Vec<ImportDiagnosticSummary>, acked: &Vec<String>) -> (r: bool)
    ensures
        r == acknowledgements_given(report@, crate::ids::views(acked@)),
{
    let mut i: usize = 0;
    while i < report.len()
        invariant
            i <= report@.len(),
            forall|j: int|
                0 <= j < i ==> (#[trigger] report@[j]).requires_acknowledgement ==> crate::ids::views(acked@).contains(
                    report@[j].code@,
                ),
        decreases report.len() - i,
    {
        if report[i].requires_acknowledgement && !crate::ids::contains_string(acked, report[i].code.as_str()) {
            return false;
        }
        i += 1;
    }
    true
}

impl ImportFlowState {
    /// The progress line under `stage` while the wizard shows `screen`:
    /// what is needed on a failed or finished import, the running activity
    /// or how many of the stage's requirements are met, the upload's
    /// progress, or how many records the build has processed.
    pub fn active_stage_progress(
        &self,
        screen: ImportScreen,
        stage: ImportStage,
        activity: Option<RunningActivity>,
        job: Option<ImportJobCounters>,
        report: Option<&Vec<ImportDiagnosticSummary>>,
    ) -> (r: StageProgress)
        requires
            self.mapping.categories@.len() <= usize::MAX / 2,
        ensures
            progress_view(r) == stage_progress(
                *self,
                screen,
                stage,
                activity,
                job,
                match report {
                    Some(d) => Some(d@),
                    None => None,
                },
            ),
    {
        if screen == ImportScreen::Failure {
            let mut label = text::to_string(stage.label());
            text::push_str(&mut label, " needs attention");
            return StageProgress::Determinate { label, done: 1, total: 1 };
        }
        if screen == ImportScreen::Success {
            return StageProgress::Determinate { label: text::to_string("Import complete"), done: 1, total: 1 };
        }
        match stage {
            ImportStage::Source => {
                if activity == Some(RunningActivity::Create) {
                    return StageProgress::Activity;
                }
                let selected = self.source.transport == ImportTransport::BrowserFolder || (!self.source.server_root_id.as_str().is_empty()
                    && !text::is_blank(self.server_relative_path.as_str()));
                let n: u64 = (if !is_unsafe_segment(self.destination_id.as_str()) {
                    1
                } else {
                    0
                }) + (if !text::is_blank(self.destination_name.as_str()) {
                    1
                } else {
                    0
                }) + (if selected {
                    1
                } else {
                    0
                }) + (if self.ground_truth {
                    1
                } else {
                    0
                }) + (if !text::is_blank(self.provenance.as_str()) {
                    1
                } else {
                    0
                });
                StageProgress::Determinate {
                    label: counted_line("Source setup: ", n, " of 5 requirements complete"),
                    done: n,
                    total: 5,
                }
            },
            ImportStage::Configure => {
                if let Some(j) = job {
                    if j.transport == ImportTransport::BrowserFolder && j.total_bytes > 0 && j.accepted_bytes < j.total_bytes {
                        return StageProgress::Uploading {
                            uploaded_files: j.uploaded_files,
                            total_files: j.total_files,
                            accepted_bytes: j.accepted_bytes,
                            total_bytes: j.total_bytes,
                        };
                    }
                }
                if activity.is_some() {
                    return StageProgress::Activity;
                }
                let upload_ready = self.source.transport == ImportTransport::ServerDirectory || match job {
                    Some(j) => j.total_files > 0 && j.uploaded_files == j.total_files && j.accepted_bytes == j.total_bytes,
                    None => false,
                };
                let n: u64 = (if upload_ready {
                    1
                } else {
                    0
                }) + (if !text::is_blank(self.source.source_namespace.as_str()) {
                    1
                } else {
                    0
                }) + (if import_descriptor_error(&self.source).is_none() {
                    1
                } else {
                    0
                });
                StageProgress::Determinate {
                    label: counted_line("Source configuration: ", n, " of 3 requirements complete"),
                    done: n,
                    total: 3,
                }
            },
            ImportStage::Preflight => {
                if activity.is_some() {
                    return StageProgress::Activity;
                }
                let acknowledged = match report {
                    Some(r) => acknowledged_all(r, &self.acknowledgements),
                    None => false,
                };
                let n: u64 = (if report.is_some() {
                    1
                } else {
                    0
                }) + (if import_mappings_complete(&self.mapping) {
                    1
                } else {
                    0
                }) + (if acknowledged {
                    1
                } else {
                    0
                });
                StageProgress::Determinate {
                    label: counted_line("Preflight review: ", n, " of 3 requirements complete"),
                    done: n,
                    total: 3,
                }
            },
            ImportStage::Ready => StageProgress::Determinate {
                label: text::to_string("Preflight accepted; ready to import"),
                done: 1,
                total: 1,
            },
            ImportStage::Import => {
                if let Some(j) = job {
                    let total = saturating(j.total_images, j.total_objects);
                    let done = saturating(j.processed_images, j.processed_objects);
                    if total > 0 && done < total {
                        let mut label = counted_line("Building dataset: ", done, " of ");
                        text::push_decimal(&mut label, total);
                        text::push_str(&mut label, " records processed");
                        return StageProgress::Determinate { label, done, total };
                    }
                }
                if activity.is_some() {
                    return StageProgress::Activity;
                }
                match job {
                    Some(j) => StageProgress::Indeterminate { label: text::to_string(lifecycle_label(j.lifecycle)) },
                    None => StageProgress::Indeterminate { label: text::to_string("Building and publishing dataset") },
                }
            },
        }
    }
}

} // verus!
