use labello_ui::source_edits::{
    add_coco_descriptor, apply_source_pick, keep_single_descriptor, remove_coco_descriptor, start_yolo_inspection,
    yolo_inspect_controls, PickFollowUp, SourcePick,
};
use labello_ui::diagnostics::{
    counted, DiagnosticTone, ImportDiagnosticOverview, ImportDiagnosticSeverity,
    ImportDiagnosticSummary,
};
use labello_ui::import_model::{
    CocoCrowdPolicy, CocoStructurePolicy, CrossSplitDuplicatePolicy, GeometryBoundsPolicy,
    ImportCategoryDraft, ImportCompatibility, ImportDescriptorKind, ImportGeometryKind,
    ImportGeometryMappingRequest, ImportGeometryPolicy, ImportLimits, ImportMappingDraft,
    ImportMappingParameter, ImportProfile, ImportTransport, ImportWorkflowIntent, KeypointState,
    ImportAcknowledgementRequest, ImportTaskMappingRequest, MappingCapabilities,
    MissingKeypointNamesPolicy, PreflightDiagnostic, UpdateImportPlanRequest,
    YoloDuplicateRowPolicy, YoloMissingLabelPolicy,
};
use labello_ui::import_progress::{
    import_screen, import_stage_status, ImportJobProgress, ImportLifecycle, ImportProgressPhase,
    ImportProgressState, ImportScreen, ImportStage, ImportStageStatus,
};
use labello_ui::import_support::{
    descriptor_draft, import_descriptor_error, mapped_task, normalize_capability_selection,
    validate_browser_selection_limits, ImportCapabilities, ImportDescriptorDraft, ImportKeys,
    ImportProfileCapability, ImportSourceDraft, ImportTransportCapability, ImportYoloSplitDraft,
    RegisteredImportPath,
};
use labello_ui::mapping::{
    policies_for_mapping, ImportCompatibilityField, ImportGeometryChoice, ImportMappingField,
    ImportMappingValidation,
};
use labello_ui::mapping_check::{import_mapping_validation, import_mappings_complete, PlanOutput};
use labello_ui::plan_currency::{same_plan_request, CommitPlan, PlanRequestState};
use labello_ui::mapping_editor::{choose_geometry, seed_warning_shown, CategoryFormLayout, MappingSummaryTone};
use labello_ui::import_requests::{
    register_selected_files, ImportSourceSelection, SelectedImportFile,
};
use labello_ui::plan_request::import_plan_request;
use labello_ui::source_picker::{
    open_source_picker, request_source_browse, BrowseCommand, ImportSourceBrowseMode,
    ImportSourcePickerTarget,
};
use labello_ui::stage_progress::{ImportJobCounters, RunningActivity, StageProgress};
use labello_ui::recovery::{
    ImportAttestations, ImportDescriptorSelection, ImportFlowState, ImportJobContract,
    ImportPlanRecord, ImportRecoveryState, ImportSourceCategory, ImportSourceConfiguration,
    RegisteredImportFile,
};
use labello_ui::model::{
    AnnotationType, KeypointSpec, ManualBoxGuideMigration, ReviewWorkflow, SkeletonSpec,
};

fn strict_compatibility() -> ImportCompatibility {
    ImportCompatibility {
        yolo_missing_labels: YoloMissingLabelPolicy::Block,
        yolo_duplicate_rows: YoloDuplicateRowPolicy::Block,
        coco_crowds: CocoCrowdPolicy::Block,
        coco_structure: CocoStructurePolicy::Canonical,
        geometry_bounds: GeometryBoundsPolicy::Reject,
        cross_split_duplicates: CrossSplitDuplicatePolicy::Block,
        missing_keypoint_names: MissingKeypointNamesPolicy::Block,
    }
}

fn limits() -> ImportLimits {
    ImportLimits {
        max_browser_files: 0,
        max_browser_bytes: 0,
        max_single_file_bytes: 0,
        max_keypoints_per_skeleton: 0,
        max_generated_tasks: 0,
    }
}

fn scalar(name: &str, value: f64) -> ImportMappingParameter {
    ImportMappingParameter::Scalar {
        name: name.to_string(),
        unit_interval: value.is_finite() && (0.0..=1.0).contains(&value),
        pixel_count: value.is_finite()
            && value.fract() == 0.0
            && value >= 1.0
            && value <= f64::from(u32::MAX),
    }
}

fn point(name: &str, x: f64, y: f64, state: KeypointState) -> ImportMappingParameter {
    ImportMappingParameter::Point {
        name: name.to_string(),
        in_unit_square: x.is_finite()
            && y.is_finite()
            && (0.0..=1.0).contains(&x)
            && (0.0..=1.0).contains(&y),
        state,
    }
}

fn mapping(
    key: &str,
    source: ImportGeometryKind,
    target: ImportGeometryKind,
    policy: ImportGeometryPolicy,
) -> ImportGeometryMappingRequest {
    ImportGeometryMappingRequest {
        source_category_key: key.to_string(),
        source_geometry: source,
        target_geometry: target,
        policy,
        parameters: Vec::new(),
    }
}

fn category(key: &str, source_id: &str, class_id: &str) -> ImportCategoryDraft {
    ImportCategoryDraft {
        selected: true,
        source_category_key: key.to_string(),
        source_category_id: source_id.to_string(),
        source_name: "Person".to_string(),
        class_id: class_id.to_string(),
        class_name: "Person".to_string(),
        class_color: "#5eead4".to_string(),
        bounding_box_task_id: format!("bounding_box:{class_id}"),
        bounding_box_task_name: "Person bounding boxes".to_string(),
        skeleton_task_id: format!("skeleton:{class_id}"),
        skeleton_task_name: "Person skeletons".to_string(),
        source_skeleton: Some(SkeletonSpec {
            keypoints: vec![KeypointSpec {
                name: "nose".to_string(),
                required: false,
            }],
            edges: Vec::new(),
            allow_hidden: true,
            allow_absent: true,
        }),
        direct_geometry: vec![ImportGeometryKind::BoundingBox, ImportGeometryKind::Skeleton],
        geometry_mappings: vec![
            mapping(
                key,
                ImportGeometryKind::BoundingBox,
                ImportGeometryKind::BoundingBox,
                ImportGeometryPolicy::Direct,
            ),
            mapping(
                key,
                ImportGeometryKind::Skeleton,
                ImportGeometryKind::Skeleton,
                ImportGeometryPolicy::Direct,
            ),
        ],
        task_mappings: Vec::new(),
        skeleton_mappings: Vec::new(),
        workflow_intent: ImportWorkflowIntent::AuthoritativeGroundTruth,
        target_keypoint_names: "nose".to_string(),
    }
}

fn manual_category(key: &str, source_id: &str, class_id: &str, keypoints: &str) -> ImportCategoryDraft {
    let mut category = category(key, source_id, class_id);
    category.direct_geometry = vec![ImportGeometryKind::BoundingBox];
    category.source_skeleton = None;
    category.target_keypoint_names = keypoints.to_string();
    category.geometry_mappings = vec![
        mapping(
            key,
            ImportGeometryKind::BoundingBox,
            ImportGeometryKind::BoundingBox,
            ImportGeometryPolicy::Direct,
        ),
        mapping(
            key,
            ImportGeometryKind::BoundingBox,
            ImportGeometryKind::Skeleton,
            ImportGeometryPolicy::ManualBoxGuideV1,
        ),
    ];
    category
}

fn validation_draft(categories: Vec<ImportCategoryDraft>) -> ImportMappingDraft {
    ImportMappingDraft {
        preflight_categories: Some(categories.len()),
        plan_categories: None,
        categories,
        capabilities: None,
        exhaustive: true,
        seed_workflow_confirmed: false,
        seed_workflow_confirmation_scope: None,
        profile: ImportProfile::CocoInstancesGtV1,
        compatibility: strict_compatibility(),
    }
}

fn plan_request(categories: Vec<ImportCategoryDraft>) -> UpdateImportPlanRequest {
    let mut draft = validation_draft(categories);
    draft.profile = ImportProfile::UltralyticsYoloDetectV1;
    import_plan_request(&draft, None, &Vec::new(), None)
}

fn has_mapping_issue(
    validation: &ImportMappingValidation,
    category_index: Option<usize>,
    field: ImportMappingField,
    message: &str,
) -> bool {
    validation
        .for_field(category_index, field)
        .iter()
        .any(|issue| issue.message.contains(message))
}

#[test]
fn import_idempotency_keys_remain_unique_when_request_counters_restart() {
    let mut keys = ImportKeys::new(1_700_000_000);
    let first = keys.import_key("plan", 1);
    let second = keys.import_key("plan", 1);

    assert_ne!(first, second);
    for key in [first, second] {
        assert!(key.starts_with("ui-plan-"));
        assert!(key.ends_with("-1"));
        assert!(!key.is_empty() && key.len() <= 200);
        assert!(key.bytes().all(|byte| byte.is_ascii_graphic()));
    }
}

#[test]
fn import_flow_defaults_to_yolo_detect_with_a_matching_descriptor() {
    let flow = ImportSourceDraft::default();

    assert_eq!(flow.profile, ImportProfile::UltralyticsYoloDetectV1);
    assert_eq!(flow.descriptors.len(), 1);
    assert_eq!(flow.descriptors[0].kind, ImportDescriptorKind::YoloDataset);
}

#[test]
fn diagnostic_overview_keeps_blocking_severity_visible_when_collapsed() {
    let diagnostics = vec![
        ImportDiagnosticSummary {
            code: String::new(),
            severity: ImportDiagnosticSeverity::Error,
            count: 3,
            blocks_commit: true,
            requires_acknowledgement: false,
        },
        ImportDiagnosticSummary {
            code: "warning".to_string(),
            severity: ImportDiagnosticSeverity::WarningRequiresAck,
            count: 2,
            blocks_commit: false,
            requires_acknowledgement: true,
        },
        ImportDiagnosticSummary {
            code: String::new(),
            severity: ImportDiagnosticSeverity::Info,
            count: 1,
            blocks_commit: false,
            requires_acknowledgement: false,
        },
    ];
    let overview = ImportDiagnosticOverview::from_diagnostics(&diagnostics, &Vec::new());

    assert_eq!(
        overview.disclosure_label(false),
        "Diagnostics — 1 error, 1 warning, 1 info · 6 affected · 1 blocking diagnostic · 1 acknowledgement required"
    );
    assert_eq!(
        overview.disclosure_label(true),
        "Diagnostics (1 error, 1 warning, 1 info) · commit blocked"
    );
    assert_eq!(overview.tone(), DiagnosticTone::Danger);

    let acknowledged = vec![diagnostics[1].code.clone()];
    let acknowledged_overview = ImportDiagnosticOverview::from_diagnostics(&diagnostics, &acknowledged);
    assert!(
        !acknowledged_overview
            .disclosure_label(false)
            .contains("acknowledgement required")
    );
}

#[test]
fn diagnostics_summary_covers_empty_and_plural_cases() {
    let none = ImportDiagnosticOverview::from_diagnostics(&Vec::new(), &Vec::new());
    assert_eq!(none.disclosure_label(true), "Diagnostics (none)");
    assert_eq!(none.tone(), DiagnosticTone::Success);
    let warnings = vec![
        ImportDiagnosticSummary {
            code: "a".to_string(),
            severity: ImportDiagnosticSeverity::Warning,
            count: u64::MAX,
            blocks_commit: false,
            requires_acknowledgement: true,
        },
        ImportDiagnosticSummary {
            code: "b".to_string(),
            severity: ImportDiagnosticSeverity::WarningRequiresAck,
            count: 5,
            blocks_commit: false,
            requires_acknowledgement: true,
        },
    ];
    let overview = ImportDiagnosticOverview::from_diagnostics(&warnings, &Vec::new());
    assert_eq!(overview.affected, u64::MAX);
    assert_eq!(overview.disclosure_label(true), "Diagnostics (2 warnings) · action required");
    assert_eq!(
        overview.disclosure_label(false),
        "Diagnostics — 2 warnings · 18446744073709551615 affected · 2 acknowledgements required"
    );
    assert_eq!(overview.tone(), DiagnosticTone::Warning);
    assert_eq!(counted(1, "item"), "1 item");
    assert_eq!(counted(0, "item"), "0 items");
}

#[test]
fn progress_overview_projects_each_screen_to_one_current_stage() {
    for (screen, current) in [
        (ImportScreen::Source, ImportStage::Source),
        (ImportScreen::Configure, ImportStage::Configure),
        (ImportScreen::Preflight, ImportStage::Preflight),
        (ImportScreen::Ready, ImportStage::Ready),
        (ImportScreen::Running, ImportStage::Import),
    ] {
        let flow = ImportProgressState {
            screen,
            job: None,
            has_plan: false,
        };
        for stage in ImportStage::all() {
            let expected = match stage.index().cmp(&current.index()) {
                std::cmp::Ordering::Less => ImportStageStatus::Complete,
                std::cmp::Ordering::Equal => ImportStageStatus::Active,
                std::cmp::Ordering::Greater => ImportStageStatus::Pending,
            };
            assert_eq!(import_stage_status(&flow, stage), expected);
        }
    }

    let success = ImportProgressState {
        screen: ImportScreen::Success,
        job: None,
        has_plan: false,
    };
    assert!(
        ImportStage::all()
            .into_iter()
            .all(|stage| import_stage_status(&success, stage) == ImportStageStatus::Complete)
    );

    let failure = ImportProgressState {
        screen: ImportScreen::Failure,
        job: None,
        has_plan: false,
    };
    assert_eq!(
        import_stage_status(&failure, ImportStage::Source),
        ImportStageStatus::Failed
    );
}

#[test]
fn failed_imports_are_shown_at_their_phase() {
    let failed_in = |phase: Option<ImportProgressPhase>, has_plan: bool| ImportProgressState {
        screen: ImportScreen::Failure,
        job: Some(ImportJobProgress {
            failure_phase: phase,
            progress_phase: ImportProgressPhase::Upload,
            has_preflight_report: true,
        }),
        has_plan,
    };
    assert_eq!(
        import_stage_status(&failed_in(Some(ImportProgressPhase::Build), false), ImportStage::Import),
        ImportStageStatus::Failed
    );
    assert_eq!(
        import_stage_status(&failed_in(None, false), ImportStage::Configure),
        ImportStageStatus::Failed
    );
    assert_eq!(
        import_stage_status(&failed_in(None, true), ImportStage::Import),
        ImportStageStatus::Failed
    );
    assert_eq!(
        import_stage_status(&failed_in(Some(ImportProgressPhase::Cleanup), false), ImportStage::Preflight),
        ImportStageStatus::Failed
    );
    assert_eq!(import_screen(ImportLifecycle::AwaitingDecision, Some(true)), ImportScreen::Ready);
    assert_eq!(import_screen(ImportLifecycle::AwaitingDecision, None), ImportScreen::Preflight);
    assert_eq!(import_screen(ImportLifecycle::Expired, None), ImportScreen::Failure);
}

#[test]
fn mapping_validation_reports_each_invalid_field_at_its_input() {
    let mut invalid = category("release:person:17", "17", "person");
    invalid.class_id = "bad/class".to_string();
    invalid.class_name.clear();
    invalid.class_color = "teal".to_string();
    invalid.bounding_box_task_id = "bad/task".to_string();
    let draft = validation_draft(vec![invalid]);

    let validation = import_mapping_validation(&draft);

    assert!(has_mapping_issue(
        &validation,
        Some(0),
        ImportMappingField::ClassId,
        "safe path segment"
    ));
    assert!(has_mapping_issue(
        &validation,
        Some(0),
        ImportMappingField::ClassName,
        "cannot be empty"
    ));
    assert!(has_mapping_issue(
        &validation,
        Some(0),
        ImportMappingField::ClassColor,
        "#RRGGBB"
    ));
    assert!(has_mapping_issue(
        &validation,
        Some(0),
        ImportMappingField::BoundingBoxTaskId,
        "safe path segment"
    ));
}

#[test]
fn mapping_validation_marks_every_duplicate_owner() {
    let first = category("release:person:17", "17", "person");
    let mut second = category("release:vehicle:18", "18", "person");
    second.bounding_box_task_id = first.bounding_box_task_id.clone();
    let draft = validation_draft(vec![first, second]);

    let validation = import_mapping_validation(&draft);

    for index in 0..2 {
        assert!(has_mapping_issue(
            &validation,
            Some(index),
            ImportMappingField::ClassId,
            "unique class IDs"
        ));
        assert!(has_mapping_issue(
            &validation,
            Some(index),
            ImportMappingField::BoundingBoxTaskId,
            "unique task ID"
        ));
    }
}

#[test]
fn mapping_validation_reports_parameter_and_template_schema_errors() {
    let mut envelope = category("release:person:17", "17", "person");
    envelope.geometry_mappings = vec![ImportGeometryMappingRequest {
        source_category_key: envelope.source_category_key.clone(),
        source_geometry: ImportGeometryKind::Skeleton,
        target_geometry: ImportGeometryKind::BoundingBox,
        policy: ImportGeometryPolicy::KeypointEnvelopeV1,
        parameters: vec![scalar("paddingRatio", 1.5), scalar("minimumPixels", 0.5)],
    }];
    let draft = validation_draft(vec![envelope]);

    let validation = import_mapping_validation(&draft);
    let field = ImportMappingField::Geometry(ImportGeometryKind::BoundingBox);

    assert!(has_mapping_issue(
        &validation,
        Some(0),
        field,
        "padding must be between 0 and 1"
    ));
    assert!(has_mapping_issue(
        &validation,
        Some(0),
        field,
        "minimum pixels must be a whole number"
    ));
    assert!(has_mapping_issue(&validation, Some(0), field, "hidden keypoints"));

    let mut template = category("release:person:17", "17", "person");
    template.direct_geometry = vec![ImportGeometryKind::BoundingBox];
    template.source_skeleton = None;
    template.target_keypoint_names = "nose".to_string();
    template.geometry_mappings = vec![
        mapping(
            &template.source_category_key,
            ImportGeometryKind::BoundingBox,
            ImportGeometryKind::BoundingBox,
            ImportGeometryPolicy::Direct,
        ),
        ImportGeometryMappingRequest {
            source_category_key: template.source_category_key.clone(),
            source_geometry: ImportGeometryKind::BoundingBox,
            target_geometry: ImportGeometryKind::Skeleton,
            policy: ImportGeometryPolicy::BoxRelativeTemplateV1,
            parameters: vec![point("nose", 0.5, 0.5, KeypointState::Absent)],
        },
    ];
    let validation = import_mapping_validation(&validation_draft(vec![template]));
    assert!(has_mapping_issue(
        &validation,
        Some(0),
        ImportMappingField::Geometry(ImportGeometryKind::Skeleton),
        "At least one template keypoint must be present"
    ));
}

#[test]
fn compatibility_warnings_are_profile_specific() {
    let mut draft = validation_draft(vec![category("release:person:17", "17", "person")]);
    draft.compatibility.coco_crowds = CocoCrowdPolicy::Incomplete;
    draft.compatibility.geometry_bounds = GeometryBoundsPolicy::Clip;
    draft.compatibility.yolo_missing_labels = YoloMissingLabelPolicy::MissingIsBackground;

    let validation = import_mapping_validation(&draft);

    assert!(has_mapping_issue(
        &validation,
        None,
        ImportMappingField::Compatibility(ImportCompatibilityField::CocoCrowds),
        "coverage incomplete"
    ));
    assert!(has_mapping_issue(
        &validation,
        None,
        ImportMappingField::Compatibility(ImportCompatibilityField::GeometryBounds),
        "clipped"
    ));
    assert!(validation
        .for_field(
            None,
            ImportMappingField::Compatibility(ImportCompatibilityField::YoloMissingLabels)
        )
        .is_empty());
}

#[test]
fn a_clean_mapping_has_no_errors_and_counts_outputs() {
    let draft = validation_draft(vec![category("release:person:17", "17", "person")]);
    let validation = import_mapping_validation(&draft);
    assert_eq!(validation.error_count(), 0);
    assert_eq!(validation.warning_count(), 0);
    assert!(validation.is_valid());
    assert!(import_mappings_complete(&draft));

    let mut unchecked = validation_draft(vec![category("k", "1", "person")]);
    unchecked.preflight_categories = Some(2);
    let validation = import_mapping_validation(&unchecked);
    assert_eq!(
        validation.for_field(None, ImportMappingField::Form)[0].message,
        "Expected 2 source categories, but the mapping contract contains 1."
    );
    assert_eq!(validation.category_counts(0), (0, 0));
}

#[test]
fn manual_migration_needs_server_support_and_an_exhaustive_source() {
    let mut draft = validation_draft(vec![manual_category("k", "1", "person", "nose, eye")]);
    draft.exhaustive = false;
    let validation = import_mapping_validation(&draft);
    let field = ImportMappingField::Geometry(ImportGeometryKind::Skeleton);
    assert!(has_mapping_issue(&validation, Some(0), field, "Choose a supported"));
    assert!(has_mapping_issue(&validation, Some(0), field, "not available on this server"));
    assert!(has_mapping_issue(&validation, Some(0), field, "exhaustive source attestation"));

    draft.exhaustive = true;
    draft.capabilities = Some(MappingCapabilities {
        manual_box_guide_migration: true,
        limits: ImportLimits {
            max_keypoints_per_skeleton: 1,
            max_generated_tasks: 1,
            ..limits()
        },
    });
    let validation = import_mapping_validation(&draft);
    assert!(!has_mapping_issue(&validation, Some(0), field, "not available"));
    assert!(has_mapping_issue(
        &validation,
        Some(0),
        ImportMappingField::TargetKeypointNames,
        "Target skeleton has 2 keypoints; the server limit is 1."
    ));
    assert!(has_mapping_issue(
        &validation,
        None,
        ImportMappingField::Form,
        "The mapping generates 2 tasks; the server limit is 1."
    ));
    assert_eq!(validation.category_counts(0), (1, 0));
}

#[test]
fn browser_limits_are_checked_before_file_contents_are_needed() {
    let limits = ImportLimits {
        max_browser_files: 2,
        max_browser_bytes: 10,
        max_single_file_bytes: 6,
        ..limits()
    };
    assert!(validate_browser_selection_limits(2, 10, &vec![4, 6], &limits).is_ok());
    assert!(validate_browser_selection_limits(3, 10, &vec![3, 3, 4], &limits).is_err());
    assert!(validate_browser_selection_limits(2, 11, &vec![5, 6], &limits).is_err());
    assert!(validate_browser_selection_limits(1, 7, &vec![7], &limits).is_err());
    assert_eq!(
        validate_browser_selection_limits(1, 7, &vec![7], &limits),
        Err("a selected file exceeds the 6 byte per-file limit".to_string())
    );
    assert_eq!(
        validate_browser_selection_limits(0, 0, &Vec::new(), &limits),
        Err("selected folder contains no files".to_string())
    );
}

#[test]
fn manual_policy_is_not_offered_without_server_capability() {
    let policies = policies_for_mapping(
        ImportGeometryKind::BoundingBox,
        ImportGeometryKind::Skeleton,
        &vec![ImportGeometryKind::BoundingBox],
        false,
    );

    assert!(!policies.contains(&ImportGeometryPolicy::ManualBoxGuideV1));
}

#[test]
fn mapped_tasks_match_api_review_validation_for_every_intent() {
    for (intent, workflow, required_reviews) in [
        (ImportWorkflowIntent::AuthoritativeGroundTruth, ReviewWorkflow::NoReview, 0),
        (ImportWorkflowIntent::RequireApproval, ReviewWorkflow::Approval, 1),
        (ImportWorkflowIntent::SeedFutureAnnotation, ReviewWorkflow::Approval, 1),
    ] {
        let task = mapped_task(
            "bounding_box:person".to_string(),
            "Person boxes",
            AnnotationType::BoundingBox,
            "person".to_string(),
            None,
            None,
            intent,
        );
        assert_eq!(task.review.workflow, workflow);
        assert_eq!(task.review.required_reviews, required_reviews);
        assert!(!task.review.allow_reviewer_corrections);
        assert!(task.review.agreement_threshold.is_none());
    }

    let manual = mapped_task(
        "skeleton:person".to_string(),
        "Person skeletons",
        AnnotationType::Skeleton,
        "person".to_string(),
        Some(SkeletonSpec {
            keypoints: Vec::new(),
            edges: Vec::new(),
            allow_hidden: true,
            allow_absent: true,
        }),
        Some(ManualBoxGuideMigration {
            guide_task_id: "bounding_box:person".to_string(),
            allow_exclusion: true,
        }),
        ImportWorkflowIntent::AuthoritativeGroundTruth,
    );
    assert_eq!(manual.review.workflow, ReviewWorkflow::Approval);
    assert_eq!(manual.review.required_reviews, 1);
    assert!(!manual.review.allow_reviewer_corrections);
}

#[test]
fn capability_normalization_rejects_unadvertised_profile_and_transport() {
    let mut flow = ImportSourceDraft {
        profile: ImportProfile::CocoKeypointsGtV1,
        transport: ImportTransport::ServerDirectory,
        server_root_id: "missing".to_string(),
        ..Default::default()
    };
    let mut categories = vec![category("k", "1", "person")];
    let capabilities = ImportCapabilities {
        profiles: vec![ImportProfileCapability {
            profile: ImportProfile::CocoInstancesGtV1,
            enabled: true,
        }],
        transports: vec![ImportTransportCapability {
            transport: ImportTransport::BrowserFolder,
            enabled: true,
        }],
        server_roots: Vec::new(),
        manual_box_guide_migration: false,
        limits: limits(),
    };

    normalize_capability_selection(&mut flow, &mut categories, &capabilities);

    assert_eq!(flow.profile, ImportProfile::CocoInstancesGtV1);
    assert_eq!(flow.transport, ImportTransport::BrowserFolder);
    assert_eq!(flow.server_root_id, "missing");
    assert_eq!(flow.descriptors[0].kind, ImportDescriptorKind::CocoInstances);
    assert!(categories.is_empty());
}

fn yolo_source() -> ImportSourceDraft {
    ImportSourceDraft {
        profile: ImportProfile::UltralyticsYoloDetectV1,
        transport: ImportTransport::ServerDirectory,
        descriptors: vec![ImportDescriptorDraft {
            descriptor_file_id: "dataset.yaml".to_string(),
            kind: ImportDescriptorKind::YoloDataset,
            release: "v1".to_string(),
            ..Default::default()
        }],
        yolo_inspected_descriptor_file_id: Some("dataset.yaml".to_string()),
        yolo_splits: vec![
            ImportYoloSplitDraft {
                name: "train".to_string(),
                usable: true,
                selected: true,
                issue: None,
            },
            ImportYoloSplitDraft {
                name: "test".to_string(),
                usable: false,
                selected: false,
                issue: Some("invalid split".to_string()),
            },
        ],
        ..Default::default()
    }
}

#[test]
fn yolo_sources_need_one_inspected_yaml_and_a_usable_split() {
    let mut source = yolo_source();
    assert_eq!(import_descriptor_error(&source), None);
    source.yolo_inspected_descriptor_file_id = Some(" other.yaml ".to_string());
    assert_eq!(
        import_descriptor_error(&source),
        Some("Inspect the selected YAML before sealing the source.".to_string())
    );
    source.yolo_inspected_descriptor_file_id = Some(" dataset.yaml".to_string());
    source.yolo_splits[0].selected = false;
    assert_eq!(
        import_descriptor_error(&source),
        Some("Select at least one usable YAML split.".to_string())
    );
    source.transport = ImportTransport::BrowserFolder;
    assert_eq!(
        import_descriptor_error(&source),
        Some("Select a registered Dataset YAML.".to_string())
    );
    source.source_namespace = "bad namespace".to_string();
    assert_eq!(
        import_descriptor_error(&source),
        Some("Source namespace must use only letters, numbers, '.', '_', or '-'.".to_string())
    );
}

#[test]
fn paired_coco_descriptors_must_be_unique_and_registered() {
    let mut source = ImportSourceDraft {
        profile: ImportProfile::CocoKeypointsGtV1,
        transport: ImportTransport::BrowserFolder,
        registered_paths: vec![
            RegisteredImportPath {
                client_file_id: "annotations/instances.json".to_string(),
                file_id: "f1".to_string(),
                relative_path: "annotations/instances.json".to_string(),
            },
            RegisteredImportPath {
                client_file_id: "annotations/keypoints.json".to_string(),
                file_id: "f2".to_string(),
                relative_path: "annotations/keypoints.json".to_string(),
            },
            RegisteredImportPath {
                client_file_id: "images/example.jpg".to_string(),
                file_id: "f3".to_string(),
                relative_path: "images/example.jpg".to_string(),
            },
        ],
        descriptors: vec![
            ImportDescriptorDraft {
                descriptor_file_id: "annotations/instances.json".to_string(),
                kind: ImportDescriptorKind::CocoInstances,
                image_root_file_id: "f3".to_string(),
                pairing_group: "people_train".to_string(),
                ..Default::default()
            },
            ImportDescriptorDraft {
                descriptor_file_id: "f2".to_string(),
                kind: ImportDescriptorKind::CocoKeypoints,
                image_root_file_id: "images/example.jpg".to_string(),
                pairing_group: "people_train".to_string(),
                ..Default::default()
            },
        ],
        ..Default::default()
    };
    assert_eq!(import_descriptor_error(&source), None);
    source.descriptors[1].kind = ImportDescriptorKind::CocoInstances;
    assert!(import_descriptor_error(&source).is_some());
    source.descriptors[1].kind = ImportDescriptorKind::CocoKeypoints;
    source.descriptors[1].descriptor_file_id = " annotations/instances.json ".to_string();
    assert!(import_descriptor_error(&source).is_some());
    assert_eq!(descriptor_draft(ImportProfile::CocoKeypointsGtV1).kind, ImportDescriptorKind::CocoKeypoints);
}

#[test]
fn seed_confirmation_is_reset_when_its_mapping_scope_changes() {
    let mut flow = validation_draft(vec![category("release:person:17", "17", "person")]);
    flow.categories[0].workflow_intent = ImportWorkflowIntent::SeedFutureAnnotation;
    flow.seed_workflow_confirmation_scope = flow.seed_workflow_scope();
    flow.seed_workflow_confirmed = true;

    flow.categories[0].workflow_intent = ImportWorkflowIntent::RequireApproval;
    flow.sync_seed_workflow_confirmation_scope();

    assert!(!flow.seed_workflow_confirmed);
}

#[test]
fn manual_mapping_submits_guide_and_target_tasks_for_every_category() {
    let request = plan_request(vec![
        manual_category("release:v2:17", "17", "person", "nose,left_eye"),
        manual_category("release:v2:18", "18", "vehicle", "nose,left_eye"),
    ]);

    assert_eq!(request.task_mappings.len(), 4);
    let guide = request
        .task_mappings
        .iter()
        .find(|mapping| mapping.task.task_id == "bounding_box:person")
        .unwrap();
    assert!(guide.task.manual_box_guide_migration.is_none());
    assert_eq!(guide.task.review.workflow, ReviewWorkflow::NoReview);
    let target = request
        .task_mappings
        .iter()
        .find(|mapping| mapping.task.task_id == "skeleton:person")
        .unwrap();
    assert!(target
        .task
        .manual_box_guide_migration
        .as_ref()
        .is_some_and(|migration| migration.guide_task_id == "bounding_box:person"));
    assert_eq!(target.task.review.workflow, ReviewWorkflow::Approval);
    assert_eq!(target.task.review.required_reviews, 1);
    assert!(request.task_mappings.iter().any(|mapping| {
        mapping.task.task_id == "skeleton:vehicle"
            && mapping
                .task
                .manual_box_guide_migration
                .as_ref()
                .is_some_and(|migration| migration.guide_task_id == "bounding_box:vehicle")
    }));
    assert_eq!(request.geometry_mappings.len(), 4);
    assert_eq!(request.skeleton_mappings.len(), 2);
    assert_eq!(request.category_mappings[0].source_category_key, "release:v2:17");
    assert!(request.category_mappings[0].selected);
    assert!(request.skeleton_mappings[0].source_keypoint_names.is_empty());
}

#[test]
fn category_specific_manual_mapping_allows_multiple_categories() {
    let person = manual_category("source:0", "0", "person", "nose");
    let vehicle = manual_category("source:1", "1", "vehicle", "wheel, axle");
    let mut draft = validation_draft(vec![person, vehicle]);
    draft.profile = ImportProfile::UltralyticsYoloDetectV1;
    draft.preflight_categories = Some(2);
    draft.exhaustive = true;
    draft.capabilities = Some(MappingCapabilities {
        manual_box_guide_migration: true,
        limits: ImportLimits {
            max_keypoints_per_skeleton: 64,
            max_generated_tasks: 64,
            ..limits()
        },
    });

    assert!(import_mappings_complete(&draft));
    let request = import_plan_request(&draft, None, &Vec::new(), None);
    assert_eq!(request.task_mappings.len(), 4);
    assert_eq!(request.skeleton_mappings.len(), 2);
    for (category, guide, target) in [
        ("source:0", "bounding_box:person", "skeleton:person"),
        ("source:1", "bounding_box:vehicle", "skeleton:vehicle"),
    ] {
        let target = request
            .task_mappings
            .iter()
            .find(|mapping| mapping.source_category_key == category && mapping.task.task_id == target)
            .unwrap();
        assert_eq!(
            target.task.manual_box_guide_migration.as_ref().unwrap().guide_task_id,
            guide
        );
    }
}

#[test]
fn omit_geometry_emits_no_tasks() {
    let mut categories = vec![category("source:3", "3", "person")];
    for mapping in &mut categories[0].geometry_mappings {
        mapping.policy = ImportGeometryPolicy::Omit;
    }

    let request = plan_request(categories);

    assert!(request.task_mappings.is_empty());
    assert!(request.skeleton_mappings.is_empty());
    assert!(!request.geometry_mappings.is_empty());
    assert!(request
        .geometry_mappings
        .iter()
        .all(|mapping| mapping.policy == ImportGeometryPolicy::Omit));
}

#[test]
fn pose_direct_box_and_skeleton_mappings_are_independent() {
    let mut categories = vec![category("paired:person:17", "17", "person")];

    let both = plan_request(vec![category("paired:person:17", "17", "person")]);
    assert_eq!(both.geometry_mappings.len(), 2);
    assert_eq!(both.task_mappings.len(), 2);
    assert_eq!(both.skeleton_mappings.len(), 1);

    categories[0].geometry_mappings[0].policy = ImportGeometryPolicy::Omit;
    let skeleton_only = plan_request(categories);
    assert_eq!(skeleton_only.geometry_mappings.len(), 2);
    assert_eq!(skeleton_only.task_mappings.len(), 1);
    assert_eq!(
        skeleton_only.task_mappings[0].task.annotation_type,
        AnnotationType::Skeleton
    );
}

#[test]
fn manual_mapping_uses_only_the_selected_real_category() {
    let selected = manual_category("release:person:17", "17", "person", "nose");
    let mut omitted = manual_category("release:vehicle:91", "91", "vehicle", "nose");
    omitted.selected = false;

    let request = plan_request(vec![selected, omitted]);

    assert_eq!(request.category_mappings.len(), 2);
    assert_eq!(request.category_mappings.iter().filter(|row| row.selected).count(), 1);
    assert_eq!(request.task_mappings.len(), 2);
    assert!(request
        .task_mappings
        .iter()
        .all(|mapping| mapping.source_category_key == "release:person:17"));
    assert!(request.skeleton_mappings[0].source_keypoint_names.is_empty());
}

#[test]
fn acknowledgements_reuse_the_accepted_policy_or_default_to_the_mapping() {
    let diagnostics = vec![
        PreflightDiagnostic { code: "a".to_string(), count: 3 },
        PreflightDiagnostic { code: "b".to_string(), count: 2 },
        PreflightDiagnostic { code: "c".to_string(), count: 1 },
    ];
    let acknowledged = vec!["c".to_string(), "a".to_string()];
    let accepted = vec![ImportAcknowledgementRequest {
        diagnostic_code: "c".to_string(),
        policy: "keep originals".to_string(),
        affected_count: 9,
        acknowledged: true,
    }];
    let draft = validation_draft(vec![category("k", "1", "person")]);

    let request = import_plan_request(&draft, Some(&diagnostics), &acknowledged, Some(&accepted));
    assert_eq!(request.acknowledgements.len(), 2);
    assert_eq!(request.acknowledgements[0].diagnostic_code, "a");
    assert_eq!(request.acknowledgements[0].policy, "mapping selection");
    assert_eq!(request.acknowledgements[0].affected_count, 3);
    assert!(request.acknowledgements[0].acknowledged);
    assert_eq!(request.acknowledgements[1].diagnostic_code, "c");
    assert_eq!(request.acknowledgements[1].policy, "keep originals");
    assert_eq!(request.acknowledgements[1].affected_count, 1);

    let without_report = import_plan_request(&draft, None, &acknowledged, Some(&accepted));
    assert!(without_report.acknowledgements.is_empty());
    assert_eq!(without_report.compatibility, strict_compatibility());
}

#[test]
fn plan_request_trims_category_fields_and_lists_direct_keypoint_names() {
    let mut padded = category(" k ", " 7 ", " person ");
    padded.class_name = " Person ".to_string();
    padded.class_color = " #5eead4 ".to_string();
    let request = plan_request(vec![padded]);

    let row = &request.category_mappings[0];
    assert_eq!(row.source_category_key, "k");
    assert_eq!(row.source_category_id, "7");
    assert_eq!(row.class_id, "person");
    assert_eq!(row.class_name, "Person");
    assert_eq!(row.color, "#5eead4");
    assert!(request.geometry_mappings.iter().all(|m| m.source_category_key == "k"));
    assert_eq!(request.task_mappings.len(), 2);
    assert_eq!(request.task_mappings[0].task.class_ids, vec!["person".to_string()]);
    assert_eq!(request.skeleton_mappings.len(), 1);
    assert_eq!(request.skeleton_mappings[0].source_keypoint_names, vec!["nose".to_string()]);
    assert!(request.skeleton_mappings[0].names_confirmed);
}

#[test]
fn carried_workflows_are_rebound_to_the_category() {
    let mut carried = category("k", "1", "person");
    let mut task = mapped_task(
        "old-box".to_string(),
        "Old boxes",
        AnnotationType::BoundingBox,
        "old-class".to_string(),
        None,
        None,
        ImportWorkflowIntent::RequireApproval,
    );
    task.enabled = false;
    carried.task_mappings = vec![ImportTaskMappingRequest {
        source_category_key: " k ".to_string(),
        task,
        workflow_intent: ImportWorkflowIntent::RequireApproval,
    }];
    let request = plan_request(vec![carried]);

    assert_eq!(request.task_mappings.len(), 2);
    let boxes = &request.task_mappings[0];
    assert_eq!(boxes.source_category_key, "k");
    assert_eq!(boxes.task.task_id, "bounding_box:person");
    assert_eq!(boxes.task.name, "Person bounding boxes");
    assert_eq!(boxes.task.class_ids, vec!["person".to_string()]);
    assert_eq!(boxes.task.review.workflow, ReviewWorkflow::NoReview);
    assert_eq!(boxes.workflow_intent, ImportWorkflowIntent::AuthoritativeGroundTruth);
    assert!(!boxes.task.enabled);
    assert_eq!(request.task_mappings[1].task.annotation_type, AnnotationType::Skeleton);
}

fn recovery_draft() -> ImportMappingDraft {
    let mut draft = validation_draft(vec![
        manual_category("source:0", "0", "person", "nose, left_eye"),
        manual_category("source:1", "1", "vehicle", "wheel, axle"),
    ]);
    draft.profile = ImportProfile::UltralyticsYoloDetectV1;
    draft
}

fn accepted_request() -> UpdateImportPlanRequest {
    import_plan_request(&recovery_draft(), None, &Vec::new(), None)
}

fn empty_flow() -> ImportFlowState {
    ImportFlowState {
        destination_id: String::new(),
        destination_name: String::new(),
        server_relative_path: String::new(),
        ground_truth: false,
        coverage_scope: String::new(),
        provenance: String::new(),
        source: ImportSourceDraft::default(),
        mapping: ImportMappingDraft {
            preflight_categories: None,
            plan_categories: None,
            categories: Vec::new(),
            capabilities: Some(MappingCapabilities {
                manual_box_guide_migration: true,
                limits: ImportLimits {
                    max_keypoints_per_skeleton: 64,
                    max_generated_tasks: 64,
                    ..limits()
                },
            }),
            exhaustive: false,
            seed_workflow_confirmed: false,
            seed_workflow_confirmation_scope: None,
            profile: ImportProfile::UltralyticsYoloDetectV1,
            compatibility: strict_compatibility(),
        },
        acknowledgements: Vec::new(),
        accepted_plan_request: None,
        recovery_contract_gap: true,
    }
}

fn recovery_job(accepted_plan: Option<ImportPlanRecord>) -> ImportJobContract {
    ImportJobContract {
        profile: ImportProfile::UltralyticsYoloDetectV1,
        transport: ImportTransport::ServerDirectory,
        destination_dataset_id: "recovered".to_string(),
        destination_name: "Recovered".to_string(),
        recovery: Some(ImportRecoveryState {
            attestations: ImportAttestations {
                ground_truth: true,
                exhaustive: true,
                coverage_scope: Vec::new(),
                provenance: "fixture".to_string(),
            },
            server_root_id: None,
            registered_files: Vec::new(),
            source: None,
            accepted_plan,
        }),
    }
}

#[test]
fn recovery_restores_each_manual_category_target_schema() {
    let source_categories = recovery_draft()
        .categories
        .into_iter()
        .map(|category| {
            let key = category.source_category_key.clone();
            let category_mapping = accepted_request()
                .category_mappings
                .into_iter()
                .find(|mapping| mapping.source_category_key == key)
                .unwrap();
            ImportSourceCategory {
                source_category_key: category.source_category_key,
                source_category_id: category.source_category_id,
                source_name: category.source_name,
                direct_geometry: category.direct_geometry,
                keypoint_schema: None,
                current_category_mapping: category_mapping,
                current_geometry_mappings: accepted_request()
                    .geometry_mappings
                    .into_iter()
                    .filter(|mapping| mapping.source_category_key == key)
                    .collect(),
                current_task_mappings: accepted_request()
                    .task_mappings
                    .into_iter()
                    .filter(|mapping| mapping.source_category_key == key)
                    .collect(),
                current_skeleton_mappings: accepted_request()
                    .skeleton_mappings
                    .into_iter()
                    .filter(|mapping| mapping.source_category_key == key)
                    .collect(),
            }
        })
        .collect();
    let job = recovery_job(Some(ImportPlanRecord {
        discovered_categories: 2,
        source_categories,
        accepted_request: Some(accepted_request()),
    }));

    let mut recovered = empty_flow();
    recovered.hydrate_job_contract(job);

    assert_eq!(recovered.mapping.categories.len(), 2);
    assert_eq!(
        recovered
            .mapping
            .categories
            .iter()
            .map(|category| (category.class_id.as_str(), category.target_keypoint_names.as_str()))
            .collect::<Vec<_>>(),
        vec![("person", "nose, left_eye"), ("vehicle", "wheel, axle")]
    );
    assert_eq!(
        format!("{:?}", recovered.accepted_plan_request),
        format!("{:?}", Some(accepted_request()))
    );
    assert!(import_mappings_complete(&recovered.mapping));
}

#[test]
fn recovery_without_a_plan_clears_categories_and_restores_the_source() {
    let mut flow = empty_flow();
    flow.mapping.categories = vec![category("k", "1", "person")];
    flow.acknowledgements = vec!["kept".to_string()];
    let mut job = recovery_job(None);
    if let Some(recovery) = job.recovery.as_mut() {
        recovery.server_root_id = Some("root-a".to_string());
        recovery.registered_files = vec![
            RegisteredImportFile { client_file_id: "browser-0".to_string(), file_id: "f0".to_string() },
            RegisteredImportFile { client_file_id: String::new(), file_id: "f1".to_string() },
        ];
        recovery.attestations.coverage_scope = vec!["train".to_string(), "val".to_string()];
        recovery.source = Some(ImportSourceConfiguration {
            source_namespace: "release".to_string(),
            descriptors: vec![ImportDescriptorSelection {
                descriptor_file_id: "data.yaml".to_string(),
                kind: ImportDescriptorKind::YoloDataset,
                release: "v2".to_string(),
                split: "train".to_string(),
                image_root_file_id: None,
                pairing_group: Some("g".to_string()),
            }],
            selected_splits: vec!["train".to_string(), "val".to_string()],
            selected_category_keys: Vec::new(),
        });
    }

    flow.hydrate_job_contract(job);

    assert!(flow.mapping.categories.is_empty());
    assert!(flow.mapping.plan_categories.is_none());
    assert!(flow.accepted_plan_request.is_none());
    assert_eq!(flow.acknowledgements, vec!["kept".to_string()]);
    assert!(!flow.recovery_contract_gap);
    assert!(flow.ground_truth && flow.mapping.exhaustive);
    assert_eq!(flow.coverage_scope, "train, val");
    assert_eq!(flow.provenance, "fixture");
    assert_eq!(flow.destination_id, "recovered");
    assert_eq!(flow.source.transport, ImportTransport::ServerDirectory);
    assert_eq!(flow.source.server_root_id, "root-a");
    assert_eq!(flow.source.registered_paths[0].relative_path, "browser-0");
    assert_eq!(flow.source.registered_paths[1].relative_path, "f1");
    assert_eq!(flow.source.source_namespace, "release");
    assert_eq!(flow.source.descriptors.len(), 1);
    assert_eq!(flow.source.descriptors[0].release, "v2");
    assert_eq!(flow.source.descriptors[0].image_root_file_id, "");
    assert_eq!(flow.source.descriptors[0].pairing_group, "g");
    assert_eq!(flow.source.yolo_splits.len(), 2);
    assert!(flow.source.yolo_splits.iter().all(|split| split.usable && split.selected));
    assert_eq!(flow.source.yolo_inspected_descriptor_file_id, Some("data.yaml".to_string()));
}

#[test]
fn a_job_without_recovery_only_sets_its_contract() {
    let mut flow = empty_flow();
    flow.mapping.categories = vec![category("k", "1", "person")];
    let mut job = recovery_job(None);
    job.recovery = None;
    job.profile = ImportProfile::CocoInstancesGtV1;

    flow.hydrate_job_contract(job);

    assert_eq!(flow.source.profile, ImportProfile::CocoInstancesGtV1);
    assert_eq!(flow.mapping.profile, ImportProfile::CocoInstancesGtV1);
    assert_eq!(flow.destination_name, "Recovered");
    assert_eq!(flow.mapping.categories.len(), 1);
    assert!(flow.recovery_contract_gap);
    assert!(!flow.ground_truth);
}

#[test]
fn recovered_acknowledgements_and_seed_confirmation_come_from_the_accepted_request() {
    let mut request = accepted_request();
    request.acknowledgements = vec![
        ImportAcknowledgementRequest {
            diagnostic_code: "a".to_string(),
            policy: "p".to_string(),
            affected_count: 1,
            acknowledged: true,
        },
        ImportAcknowledgementRequest {
            diagnostic_code: "b".to_string(),
            policy: "p".to_string(),
            affected_count: 1,
            acknowledged: false,
        },
    ];
    request.task_mappings[0].workflow_intent = ImportWorkflowIntent::SeedFutureAnnotation;
    let job = recovery_job(Some(ImportPlanRecord {
        discovered_categories: 3,
        source_categories: Vec::new(),
        accepted_request: Some(request),
    }));
    let mut flow = empty_flow();
    flow.hydrate_job_contract(job);

    assert_eq!(flow.acknowledgements, vec!["a".to_string()]);
    assert!(flow.mapping.seed_workflow_confirmed);
    assert_eq!(flow.mapping.plan_categories, Some(3));
    assert!(flow.mapping.seed_workflow_confirmation_scope.is_none());
}

fn flow_with_source(source: ImportSourceDraft) -> ImportFlowState {
    let mut flow = empty_flow();
    flow.source = source;
    flow
}

#[test]
fn paired_coco_descriptor_kinds_are_preserved_and_api_validated() {
    let mut source = ImportSourceDraft::default();
    source.profile = ImportProfile::CocoKeypointsGtV1;
    source.transport = ImportTransport::ServerDirectory;
    source.descriptors = vec![
        ImportDescriptorDraft {
            descriptor_file_id: "annotations/instances.json".to_string(),
            kind: ImportDescriptorKind::CocoInstances,
            image_root_file_id: "images/example.jpg".to_string(),
            pairing_group: "people_train".to_string(),
            ..Default::default()
        },
        ImportDescriptorDraft {
            descriptor_file_id: "annotations/keypoints.json".to_string(),
            kind: ImportDescriptorKind::CocoKeypoints,
            image_root_file_id: "images/example.jpg".to_string(),
            pairing_group: "people_train".to_string(),
            ..Default::default()
        },
    ];
    let flow = flow_with_source(source);

    assert!(import_descriptor_error(&flow.source).is_none());
    let body = flow.seal_import_request().unwrap();
    assert_eq!(
        body.source.descriptors.iter().map(|descriptor| descriptor.kind).collect::<Vec<_>>(),
        vec![ImportDescriptorKind::CocoInstances, ImportDescriptorKind::CocoKeypoints]
    );
}

#[test]
fn yolo_seal_uses_one_descriptor_and_all_checked_discovered_splits() {
    let mut source = ImportSourceDraft::default();
    source.profile = ImportProfile::UltralyticsYoloDetectV1;
    source.transport = ImportTransport::ServerDirectory;
    source.descriptors = vec![ImportDescriptorDraft {
        descriptor_file_id: "dataset.yaml".to_string(),
        kind: ImportDescriptorKind::YoloDataset,
        release: "v1".to_string(),
        ..Default::default()
    }];
    source.yolo_inspected_descriptor_file_id = Some("dataset.yaml".to_string());
    source.yolo_splits = vec![
        ImportYoloSplitDraft { name: "train".to_string(), usable: true, selected: true, issue: None },
        ImportYoloSplitDraft { name: "val".to_string(), usable: true, selected: true, issue: None },
        ImportYoloSplitDraft {
            name: "test".to_string(),
            usable: false,
            selected: false,
            issue: Some("invalid split".to_string()),
        },
    ];
    let flow = flow_with_source(source);

    assert!(import_descriptor_error(&flow.source).is_none());
    let body = flow.seal_import_request().unwrap();
    assert_eq!(body.source.descriptors.len(), 1);
    assert_eq!(body.source.descriptors[0].split, "train");
    assert_eq!(body.source.selected_splits, vec!["train", "val"]);
}

#[test]
fn coco_seal_lists_each_trimmed_split_once_in_order_and_drops_blank_fields() {
    let mut source = ImportSourceDraft::default();
    source.profile = ImportProfile::CocoInstancesGtV1;
    source.transport = ImportTransport::ServerDirectory;
    source.source_namespace = " source ".to_string();
    let descriptor = |file: &str, split: &str| ImportDescriptorDraft {
        descriptor_file_id: file.to_string(),
        kind: ImportDescriptorKind::CocoInstances,
        split: split.to_string(),
        image_root_file_id: "images/a.jpg".to_string(),
        ..Default::default()
    };
    source.descriptors = vec![
        descriptor("val.json", "val"),
        descriptor("train.json", "train"),
        descriptor("train2.json", "train"),
        descriptor("aux.json", "aux"),
    ];
    source.descriptors[2].release = "second".to_string();
    let mut flow = flow_with_source(source);
    flow.coverage_scope = "train, , val".to_string();
    flow.provenance = "  lab export ".to_string();
    flow.ground_truth = true;

    let body = flow.seal_import_request().unwrap();
    assert_eq!(body.source.source_namespace, "source");
    assert_eq!(body.source.selected_splits, vec!["aux", "train", "val"]);
    assert_eq!(body.source.descriptors[0].split, "val");
    assert_eq!(body.source.descriptors[0].image_root_file_id, Some("images/a.jpg".to_string()));
    assert_eq!(body.source.descriptors[0].pairing_group, None);
    assert!(body.source.selected_category_keys.is_empty());
    assert_eq!(body.attestations.coverage_scope, vec!["train".to_string(), "val".to_string()]);
    assert_eq!(body.attestations.provenance, "lab export");
    assert!(body.attestations.ground_truth);
}

#[test]
fn an_invalid_source_is_not_sealed() {
    let mut source = ImportSourceDraft::default();
    source.source_namespace = "bad namespace".to_string();
    let flow = flow_with_source(source);
    assert_eq!(
        flow.seal_import_request().err(),
        Some("Source namespace must use only letters, numbers, '.', '_', or '-'.".to_string())
    );
}

fn offered(profile: ImportProfile, transport: ImportTransport) -> ImportCapabilities {
    ImportCapabilities {
        profiles: vec![
            ImportProfileCapability { profile: ImportProfile::CocoInstancesGtV1, enabled: false },
            ImportProfileCapability { profile, enabled: true },
        ],
        transports: vec![ImportTransportCapability { transport, enabled: true }],
        server_roots: vec!["root-a".to_string()],
        manual_box_guide_migration: false,
        limits: limits(),
    }
}

#[test]
fn create_request_needs_an_advertised_profile_and_transport() {
    let mut flow = empty_flow();
    flow.destination_id = " imported ".to_string();
    flow.destination_name = " Imported set ".to_string();
    flow.source.transport = ImportTransport::ServerDirectory;
    flow.source.server_root_id = "root-a".to_string();
    flow.server_relative_path = " exports/2024 ".to_string();
    flow.provenance = " vendor ".to_string();

    let refused = flow.create_import_request(&offered(
        ImportProfile::UltralyticsYoloDetectV1,
        ImportTransport::BrowserFolder,
    ));
    assert_eq!(
        refused.err(),
        Some("The selected profile or transport is not advertised by the server.".to_string())
    );

    let body = flow
        .create_import_request(&offered(
            ImportProfile::UltralyticsYoloDetectV1,
            ImportTransport::ServerDirectory,
        ))
        .unwrap()
        .unwrap();
    assert_eq!(body.destination_dataset_id, "imported");
    assert_eq!(body.destination_name, "Imported set");
    assert_eq!(body.profile, ImportProfile::UltralyticsYoloDetectV1);
    match body.source {
        ImportSourceSelection::ServerDirectory { import_root_id, relative_path } => {
            assert_eq!(import_root_id, "root-a");
            assert_eq!(relative_path, "exports/2024");
        }
        ImportSourceSelection::BrowserFolder => panic!("expected a server directory"),
    }
    assert_eq!(body.attestations.provenance, "vendor");

    flow.source.profile = ImportProfile::CocoInstancesGtV1;
    assert!(flow
        .create_import_request(&offered(ImportProfile::UltralyticsYoloDetectV1, ImportTransport::ServerDirectory))
        .is_err());

    flow.source.profile = ImportProfile::UltralyticsYoloDetectV1;
    flow.source.transport = ImportTransport::Unknown;
    assert!(flow
        .create_import_request(&offered(ImportProfile::UltralyticsYoloDetectV1, ImportTransport::Unknown))
        .unwrap()
        .is_none());
}

fn picked(id: &str, size: u64) -> SelectedImportFile {
    SelectedImportFile {
        client_file_id: id.to_string(),
        relative_path: format!("folder/{id}.jpg"),
        byte_size: size,
        blake3: format!("digest-{id}"),
    }
}

#[test]
fn picked_files_are_registered_only_within_the_advertised_limits() {
    let limits = ImportLimits {
        max_browser_files: 2,
        max_browser_bytes: 10,
        max_single_file_bytes: 6,
        ..limits()
    };
    let (registrations, paths) =
        register_selected_files(&vec![picked("a", 4), picked("b", 6)], &limits).unwrap();
    assert_eq!(registrations.len(), 2);
    assert_eq!(registrations[1].relative_path, "folder/b.jpg");
    assert_eq!(registrations[1].blake3, Some("digest-b".to_string()));
    assert_eq!(paths[0].client_file_id, "a");
    assert_eq!(paths[0].file_id, "");
    assert_eq!(paths[0].relative_path, "folder/a.jpg");

    let message = Some("Selected folder is empty or exceeds the advertised browser import limits.".to_string());
    assert_eq!(register_selected_files(&Vec::new(), &limits).err(), message);
    assert_eq!(
        register_selected_files(&vec![picked("a", 1), picked("b", 1), picked("c", 1)], &limits).err(),
        message
    );
    assert_eq!(register_selected_files(&vec![picked("a", 5), picked("b", 6)], &limits).err(), message);
    assert_eq!(register_selected_files(&vec![picked("a", 7)], &limits).err(), message);
}

#[test]
fn mapping_summary_names_errors_then_warnings_then_success() {
    let clean = import_mapping_validation(&validation_draft(vec![category("release:person:17", "17", "person")]));
    assert_eq!(
        clean.summary(),
        (MappingSummaryTone::Success, "All mapping inputs are locally valid.".to_string())
    );
    assert_eq!(clean.category_status(0), "Valid");

    let mut draft = validation_draft(vec![category("k", "1", "person")]);
    draft.preflight_categories = Some(2);
    let broken = import_mapping_validation(&draft);
    let errors = broken.error_count();
    let (tone, message) = broken.summary();
    assert_eq!(tone, MappingSummaryTone::Error);
    let noun = if errors == 1 { "error" } else { "errors" };
    assert_eq!(
        message,
        format!("{errors} mapping {noun} must be fixed before saving. Each affected input is explained below.")
    );
}

#[test]
fn a_skeleton_output_is_added_once_from_source_boxes() {
    let mut boxes_only = category("k", "1", "person");
    boxes_only.direct_geometry = vec![ImportGeometryKind::BoundingBox];
    boxes_only.geometry_mappings.truncate(1);
    assert!(boxes_only.skeleton_output_addable());
    boxes_only.add_skeleton_output();
    assert_eq!(boxes_only.geometry_mappings.len(), 2);
    let added = &boxes_only.geometry_mappings[1];
    assert_eq!(added.source_geometry, ImportGeometryKind::BoundingBox);
    assert_eq!(added.target_geometry, ImportGeometryKind::Skeleton);
    assert_eq!(added.policy, ImportGeometryPolicy::BoxRelativeTemplateV1);
    assert_eq!(added.source_category_key, "k");
    assert!(!boxes_only.skeleton_output_addable());
    boxes_only.add_skeleton_output();
    assert_eq!(boxes_only.geometry_mappings.len(), 2);

    let mut mapping = mapping(
        "k",
        ImportGeometryKind::BoundingBox,
        ImportGeometryKind::Skeleton,
        ImportGeometryPolicy::BoxRelativeTemplateV1,
    );
    mapping.parameters = vec![scalar("padding", 0.1)];
    choose_geometry(
        &mut mapping,
        ImportGeometryChoice {
            source: ImportGeometryKind::BoundingBox,
            policy: ImportGeometryPolicy::BoxRelativeTemplateV1,
            label: "same",
        },
    );
    assert_eq!(mapping.parameters.len(), 1);
    choose_geometry(
        &mut mapping,
        ImportGeometryChoice {
            source: ImportGeometryKind::BoundingBox,
            policy: ImportGeometryPolicy::ManualBoxGuideV1,
            label: "manual",
        },
    );
    assert_eq!(mapping.policy, ImportGeometryPolicy::ManualBoxGuideV1);
    assert!(mapping.parameters.is_empty());
}

fn planned_flow() -> ImportFlowState {
    let mut flow = empty_flow();
    flow.mapping = recovery_draft();
    flow.mapping.capabilities = empty_flow().mapping.capabilities;
    flow.mapping.preflight_categories = Some(2);
    flow.mapping.exhaustive = true;
    flow
}

fn commit_plan(accepted: Option<UpdateImportPlanRequest>, tasks: u64) -> CommitPlan {
    CommitPlan {
        import_id: "imp-1".to_string(),
        plan_hash: "hash-1".to_string(),
        output: PlanOutput { classes: 2, tasks },
        commit_ready: true,
        accepted_request: accepted,
    }
}

#[test]
fn a_plan_is_current_only_for_the_request_it_was_accepted_for() {
    let flow = planned_flow();
    let plan = commit_plan(Some(accepted_request()), 4);
    assert!(flow.import_plan_is_current(Some(&plan), None));
    assert!(!flow.import_plan_is_current(None, None));
    assert!(!flow.import_plan_is_current(Some(&commit_plan(None, 4)), None));

    let mut renamed = planned_flow();
    renamed.mapping.categories[1].class_name = "Truck".to_string();
    assert!(!renamed.import_plan_is_current(Some(&plan), None));

    let request = accepted_request();
    let mut other = accepted_request();
    assert!(same_plan_request(&request, &other));
    other.geometry_mappings[0].parameters = vec![scalar("padding", 0.1)];
    assert!(!same_plan_request(&request, &other));
}

#[test]
fn commit_needs_a_current_complete_plan_that_covers_every_output() {
    let flow = planned_flow();
    assert_eq!(
        flow.commit_import_request(Some(&commit_plan(Some(accepted_request()), 4)), None),
        Ok(("imp-1".to_string(), "hash-1".to_string()))
    );
    let refused = Err(
        "Mappings changed or the accepted plan omits discovered categories/tasks. Save exact source mappings and wait for a complete matching plan before committing."
            .to_string(),
    );
    assert_eq!(flow.commit_import_request(Some(&commit_plan(Some(accepted_request()), 3)), None), refused);
    assert_eq!(flow.commit_import_request(None, None), refused);
    let mut stale = planned_flow();
    stale.mapping.categories[0].class_color = "#000000".to_string();
    assert_eq!(stale.commit_import_request(Some(&commit_plan(Some(accepted_request()), 4)), None), refused);
}

fn counters(transport: ImportTransport) -> ImportJobCounters {
    ImportJobCounters {
        lifecycle: ImportLifecycle::Building,
        transport,
        uploaded_files: 0,
        total_files: 0,
        accepted_bytes: 0,
        total_bytes: 0,
        processed_images: 0,
        total_images: 0,
        processed_objects: 0,
        total_objects: 0,
    }
}

fn determinate(progress: StageProgress) -> (String, u64, u64) {
    match progress {
        StageProgress::Determinate { label, done, total } => (label, done, total),
        other => panic!("expected a measured line, got {other:?}"),
    }
}

#[test]
fn stage_progress_counts_the_requirements_of_each_stage() {
    let mut flow = empty_flow();
    let line = flow.active_stage_progress(ImportScreen::Source, ImportStage::Source, None, None, None);
    assert_eq!(determinate(line), ("Source setup: 1 of 5 requirements complete".to_string(), 1, 5));

    flow.destination_id = " imported ".to_string();
    flow.destination_name = "Imported".to_string();
    flow.ground_truth = true;
    flow.provenance = "vendor".to_string();
    let line = flow.active_stage_progress(ImportScreen::Source, ImportStage::Source, None, None, None);
    assert_eq!(determinate(line), ("Source setup: 5 of 5 requirements complete".to_string(), 5, 5));
    assert!(matches!(
        flow.active_stage_progress(
            ImportScreen::Source,
            ImportStage::Source,
            Some(RunningActivity::Create),
            None,
            None
        ),
        StageProgress::Activity
    ));

    let line = flow.active_stage_progress(ImportScreen::Configure, ImportStage::Configure, None, None, None);
    assert_eq!(determinate(line).0, "Source configuration: 1 of 3 requirements complete");

    let mut uploading = counters(ImportTransport::BrowserFolder);
    uploading.total_bytes = 10;
    uploading.accepted_bytes = 4;
    uploading.total_files = 3;
    uploading.uploaded_files = 1;
    assert!(matches!(
        flow.active_stage_progress(ImportScreen::Configure, ImportStage::Configure, None, Some(uploading), None),
        StageProgress::Uploading { uploaded_files: 1, total_files: 3, accepted_bytes: 4, total_bytes: 10 }
    ));

    let report = vec![ImportDiagnosticSummary {
        code: "warning".to_string(),
        severity: ImportDiagnosticSeverity::WarningRequiresAck,
        count: 2,
        blocks_commit: false,
        requires_acknowledgement: true,
    }];
    let mut planned = planned_flow();
    let line = planned.active_stage_progress(ImportScreen::Preflight, ImportStage::Preflight, None, None, Some(&report));
    assert_eq!(determinate(line).0, "Preflight review: 2 of 3 requirements complete");
    planned.acknowledgements = vec!["warning".to_string()];
    let line = planned.active_stage_progress(ImportScreen::Preflight, ImportStage::Preflight, None, None, Some(&report));
    assert_eq!(determinate(line).0, "Preflight review: 3 of 3 requirements complete");
    let line = planned.active_stage_progress(ImportScreen::Preflight, ImportStage::Preflight, None, None, None);
    assert_eq!(determinate(line).0, "Preflight review: 1 of 3 requirements complete");
}

#[test]
fn stage_progress_reports_the_build_and_the_outcome() {
    let flow = empty_flow();
    let mut building = counters(ImportTransport::ServerDirectory);
    building.total_images = 10;
    building.total_objects = 30;
    building.processed_images = 10;
    building.processed_objects = 5;
    let line = flow.active_stage_progress(ImportScreen::Running, ImportStage::Import, None, Some(building), None);
    assert_eq!(determinate(line), ("Building dataset: 15 of 40 records processed".to_string(), 15, 40));

    let idle = counters(ImportTransport::ServerDirectory);
    match flow.active_stage_progress(ImportScreen::Running, ImportStage::Import, None, Some(idle), None) {
        StageProgress::Indeterminate { label } => assert_eq!(label, "Building dataset"),
        other => panic!("unexpected {other:?}"),
    }
    match flow.active_stage_progress(ImportScreen::Running, ImportStage::Import, None, None, None) {
        StageProgress::Indeterminate { label } => assert_eq!(label, "Building and publishing dataset"),
        other => panic!("unexpected {other:?}"),
    }
    let line = flow.active_stage_progress(ImportScreen::Failure, ImportStage::Preflight, None, None, None);
    assert_eq!(determinate(line), ("Preflight needs attention".to_string(), 1, 1));
    let line = flow.active_stage_progress(ImportScreen::Success, ImportStage::Import, None, None, None);
    assert_eq!(determinate(line), ("Import complete".to_string(), 1, 1));
    let line = flow.active_stage_progress(ImportScreen::Ready, ImportStage::Ready, None, None, None);
    assert_eq!(determinate(line).0, "Preflight accepted; ready to import");
}

#[test]
fn the_decision_screen_is_ready_only_for_a_committable_current_plan() {
    let flow = planned_flow();
    let plan = commit_plan(Some(accepted_request()), 4);
    let awaiting = Some(ImportLifecycle::AwaitingDecision);
    assert_eq!(
        flow.sync_import_decision_screen(ImportScreen::Preflight, awaiting, false, Some(&plan), None),
        ImportScreen::Ready
    );
    let mut waiting = commit_plan(Some(accepted_request()), 4);
    waiting.commit_ready = false;
    assert_eq!(
        flow.sync_import_decision_screen(ImportScreen::Ready, awaiting, false, Some(&waiting), None),
        ImportScreen::Preflight
    );
    assert_eq!(
        flow.sync_import_decision_screen(ImportScreen::Preflight, awaiting, true, Some(&plan), None),
        ImportScreen::Preflight
    );
    assert_eq!(
        flow.sync_import_decision_screen(
            ImportScreen::Configure,
            Some(ImportLifecycle::Building),
            false,
            Some(&plan),
            None
        ),
        ImportScreen::Configure
    );
}

#[test]
fn the_source_picker_lists_the_chosen_root_or_the_imports_source() {
    let (picker, command) = open_source_picker(ImportSourcePickerTarget::DatasetFolder, "ignored", "", None, 7);
    assert!(matches!(command, BrowseCommand::Nothing));
    assert!(!picker.loading);
    assert_eq!(picker.error, Some("Choose a server import root first.".to_string()));
    assert_eq!(picker.pending_request_id, Some(7));

    let (picker, command) = open_source_picker(ImportSourcePickerTarget::DatasetFolder, "x", "root-a", None, 8);
    match command {
        BrowseCommand::ServerRoot { root_id, relative_path, offset } => {
            assert_eq!(root_id, "root-a");
            assert_eq!(relative_path, "");
            assert_eq!(offset, 0);
        }
        other => panic!("unexpected {other:?}"),
    }
    assert!(picker.loading);

    let (mut picker, command) =
        open_source_picker(ImportSourcePickerTarget::CocoImageRoot(0), "exports", "root-a", Some("imp-1"), 9);
    match command {
        BrowseCommand::ImportSource { import_id, relative_path, offset, mode } => {
            assert_eq!(import_id, "imp-1");
            assert_eq!(relative_path, "exports");
            assert_eq!(offset, 0);
            assert_eq!(mode, ImportSourceBrowseMode::Images);
        }
        other => panic!("unexpected {other:?}"),
    }
    assert!(matches!(
        request_source_browse(&mut picker, "root-a", Some("imp-1"), "exports".to_string(), 50, 10),
        BrowseCommand::Nothing
    ));
    picker.loading = false;
    match request_source_browse(&mut picker, "root-a", Some("imp-1"), "other".to_string(), 50, 11) {
        BrowseCommand::ImportSource { relative_path, offset, .. } => {
            assert_eq!(relative_path, "other");
            assert_eq!(offset, 50);
        }
        other => panic!("unexpected {other:?}"),
    }
    assert_eq!(picker.relative_path, "exports");
    assert!(picker.pending_append);

    let (picker, command) =
        open_source_picker(ImportSourcePickerTarget::Descriptor(0), ".", "root-a", None, 12);
    assert!(matches!(command, BrowseCommand::Nothing));
    assert_eq!(picker.relative_path, "");
    assert!(!picker.loading);
}

fn coco_source() -> ImportSourceDraft {
    ImportSourceDraft {
        profile: ImportProfile::CocoInstancesGtV1,
        transport: ImportTransport::ServerDirectory,
        descriptors: vec![descriptor_draft(ImportProfile::CocoInstancesGtV1), descriptor_draft(ImportProfile::CocoInstancesGtV1)],
        registered_paths: vec![RegisteredImportPath {
            client_file_id: "c1".to_string(),
            file_id: "f1".to_string(),
            relative_path: "old/a.json".to_string(),
        }],
        ..Default::default()
    }
}

#[test]
fn source_picks_set_folders_files_and_descriptor_roots() {
    let mut source = coco_source();
    let mut folder = String::new();
    assert_eq!(
        apply_source_pick(&mut source, &mut folder, ImportSourcePickerTarget::DatasetFolder, "", SourcePick::ListedFolder),
        PickFollowUp::Close
    );
    assert_eq!(folder, ".");
    apply_source_pick(&mut source, &mut folder, ImportSourcePickerTarget::DatasetFolder, "data", SourcePick::ListedFolder);
    assert_eq!(folder, "data");
    apply_source_pick(&mut source, &mut folder, ImportSourcePickerTarget::DatasetFolder, "data", SourcePick::Folder("data/train".to_string()));
    assert_eq!(folder, "data/train");

    let no_id = SourcePick::File { file_id: None, relative_path: "x.json".to_string() };
    assert_eq!(
        apply_source_pick(&mut source, &mut folder, ImportSourcePickerTarget::Descriptor(0), "", no_id),
        PickFollowUp::KeepOpen
    );
    assert_eq!(source.registered_paths.len(), 1);

    let pick = SourcePick::File { file_id: Some("f1".to_string()), relative_path: "new/a.json".to_string() };
    assert_eq!(
        apply_source_pick(&mut source, &mut folder, ImportSourcePickerTarget::Descriptor(1), "", pick),
        PickFollowUp::Close
    );
    assert_eq!(source.registered_paths.len(), 1);
    assert_eq!(source.registered_paths[0].client_file_id, "");
    assert_eq!(source.registered_paths[0].relative_path, "new/a.json");
    assert_eq!(source.descriptors[1].descriptor_file_id, "f1");
    assert_eq!(source.descriptors[0].descriptor_file_id, "");

    let root = SourcePick::File { file_id: Some("img".to_string()), relative_path: "images/1.jpg".to_string() };
    apply_source_pick(&mut source, &mut folder, ImportSourcePickerTarget::CocoImageRoot(0), "", root);
    assert_eq!(source.registered_paths.len(), 2);
    assert_eq!(source.descriptors[0].image_root_file_id, "img");

    let mut yolo = yolo_source();
    let pick = SourcePick::File { file_id: Some("data.yaml".to_string()), relative_path: "data.yaml".to_string() };
    assert_eq!(
        apply_source_pick(&mut yolo, &mut folder, ImportSourcePickerTarget::Descriptor(0), "", pick),
        PickFollowUp::CloseAndInspect
    );
    assert_eq!(yolo.descriptors[0].descriptor_file_id, "data.yaml");
    assert!(yolo.yolo_splits.is_empty());
    assert!(yolo.yolo_inspected_descriptor_file_id.is_none());
}

#[test]
fn yolo_inspection_and_descriptor_lists_follow_the_profile() {
    let mut yolo = yolo_source();
    let controls = yolo_inspect_controls(&yolo);
    assert_eq!(controls.label, "Refresh splits");
    assert!(controls.enabled && !controls.in_progress && !controls.invite);
    assert_eq!(start_yolo_inspection(&mut yolo, None), None);
    assert_eq!(start_yolo_inspection(&mut yolo, Some("imp")), Some("dataset.yaml".to_string()));
    assert!(yolo.yolo_inspection_loading && yolo.yolo_splits.is_empty());
    assert_eq!(start_yolo_inspection(&mut yolo, Some("imp")), None);
    let busy = yolo_inspect_controls(&yolo);
    assert!(!busy.enabled && busy.in_progress);
    assert_eq!(busy.label, "Inspect YAML splits");
    yolo.yolo_inspection_loading = false;
    yolo.yolo_inspection_error = Some("bad".to_string());
    assert_eq!(yolo_inspect_controls(&yolo).label, "Retry split inspection");

    yolo.descriptors.push(descriptor_draft(ImportProfile::UltralyticsYoloDetectV1));
    keep_single_descriptor(&mut yolo);
    assert_eq!(yolo.descriptors.len(), 1);
    assert_eq!(yolo.descriptors[0].descriptor_file_id, "");
    assert!(yolo.yolo_inspection_error.is_none());
    let fresh = yolo_inspect_controls(&yolo);
    assert!(!fresh.enabled && !fresh.invite);

    let mut coco = coco_source();
    keep_single_descriptor(&mut coco);
    assert_eq!(coco.descriptors.len(), 2);
    add_coco_descriptor(&mut coco);
    assert_eq!(coco.descriptors.len(), 3);
    assert_eq!(coco.descriptors[2].release, "default");
    assert!(remove_coco_descriptor(&mut coco, 0));
    assert!(remove_coco_descriptor(&mut coco, 1));
    assert!(!remove_coco_descriptor(&mut coco, 0));
    assert!(!remove_coco_descriptor(&mut coco, 5));
    assert_eq!(coco.descriptors.len(), 1);
}

#[test]
fn saving_mappings_sends_a_keyed_plan_update() {
    let mut keys = ImportKeys::new(7);
    let mut flow = planned_flow();
    flow.accepted_plan_request = Some(accepted_request());
    let mut step = shown_plan_step();
    assert!(flow.update_import_plan(&mut step, None, None, &mut keys, 3).is_none());
    assert_eq!(keys.issued, 0);
    assert!(!step.busy && step.plan.is_some() && step.diagnostics.len() == 1);
    let update = flow.update_import_plan(&mut step, Some("imp-1"), None, &mut keys, 3).unwrap();
    assert_eq!(update.import_id, "imp-1");
    assert!(same_plan_request(&update.body, &accepted_request()));
    assert_eq!(update.idempotency_key, "ui-plan-7-0-3");
    assert!(flow.accepted_plan_request.is_none());
    assert_eq!(keys.issued, 1);
    assert!(step.busy);
    assert!(step.plan.is_none());
    assert!(step.diagnostics.is_empty());
    assert!(step.diagnostics_cursor.is_none());
    assert!(same_plan_request(step.pending_plan_request.as_ref().unwrap(), &update.body));
    assert!(step.error.is_none());

    let mut broken = planned_flow();
    broken.mapping.categories[0].class_name = " ".to_string();
    let mut broken_step = shown_plan_step();
    assert!(broken.update_import_plan(&mut broken_step, Some("imp-1"), None, &mut keys, 4).is_none());
    assert_eq!(
        broken_step.error,
        Some("Every discovered category needs one complete, uniquely keyed mapping.".to_string())
    );
    assert!(!broken_step.busy && broken_step.plan.is_some() && broken_step.diagnostics.len() == 1);
    assert_eq!(broken_step.diagnostics_cursor.as_deref(), Some("page-2"));
    assert!(broken_step.pending_plan_request.is_none());
    assert_eq!(keys.issued, 1);
}

fn shown_plan_step() -> PlanRequestState {
    PlanRequestState {
        busy: false,
        error: None,
        plan: Some(commit_plan(None, 2)),
        diagnostics: vec![ImportDiagnosticSummary {
            code: "missing_label".to_string(),
            severity: ImportDiagnosticSeverity::Warning,
            count: 3,
            blocks_commit: false,
            requires_acknowledgement: false,
        }],
        diagnostics_cursor: Some("page-2".to_string()),
        pending_plan_request: None,
    }
}

#[test]
fn category_form_shows_the_inputs_its_outputs_need() {
    let direct = category("source:0", "0", "person");
    let clean = import_mapping_validation(&validation_draft(vec![category("source:0", "0", "person")]));
    assert_eq!(
        clean.category_form_layout(&direct, 0),
        CategoryFormLayout {
            bounding_box_identity: true,
            skeleton_identity: true,
            identity_open: false,
            target_keypoint_names: false,
        }
    );

    let manual = manual_category("source:0", "0", "person", "nose, left_eye");
    let layout = clean.category_form_layout(&manual, 0);
    assert!(layout.target_keypoint_names);
    assert!(layout.bounding_box_identity && layout.skeleton_identity);

    let mut boxes_only = category("source:0", "0", "person");
    boxes_only.geometry_mappings[1].policy = ImportGeometryPolicy::Omit;
    let layout = clean.category_form_layout(&boxes_only, 0);
    assert!(layout.bounding_box_identity && !layout.skeleton_identity);

    let mut no_outputs = manual_category("source:0", "0", "person", "nose");
    no_outputs.geometry_mappings.clear();
    assert!(!clean.category_form_layout(&no_outputs, 0).target_keypoint_names);

    let mut bad_task = category("source:0", "0", "person");
    bad_task.bounding_box_task_id = " ".to_string();
    let invalid = import_mapping_validation(&validation_draft(vec![bad_task]));
    let bad_task = category("source:0", "0", "person");
    assert!(invalid.category_form_layout(&bad_task, 0).identity_open);
    assert!(!invalid.category_form_layout(&bad_task, 1).identity_open);
}

#[test]
fn seed_warning_shows_only_for_included_seed_categories() {
    let mut seed = category("source:0", "0", "person");
    seed.workflow_intent = ImportWorkflowIntent::SeedFutureAnnotation;
    let plain = category("source:1", "1", "car");
    assert!(!seed_warning_shown(&vec![category("source:1", "1", "car")]));
    assert!(seed_warning_shown(&vec![plain, seed]));
    let mut left_out = category("source:0", "0", "person");
    left_out.workflow_intent = ImportWorkflowIntent::SeedFutureAnnotation;
    left_out.selected = false;
    assert!(!seed_warning_shown(&vec![left_out]));
}

#[test]
fn plan_request_keeps_left_out_and_omitted_categories_out_of_the_workflows() {
    let included = category("source:0", "0", "person");
    let mut left_out = category("source:1", "1", "car");
    left_out.selected = false;
    let mut omitted = category("source:2", "2", "dog");
    for m in omitted.geometry_mappings.iter_mut() {
        m.policy = ImportGeometryPolicy::Omit;
    }
    let request = plan_request(vec![included, left_out, omitted]);
    assert_eq!(request.category_mappings.len(), 3);
    assert!(request.category_mappings[0].selected);
    assert!(!request.category_mappings[1].selected);
    assert!(request.category_mappings[2].selected);
    assert!(request.geometry_mappings.iter().all(|m| m.source_category_key != "source:1"));
    assert_eq!(
        request.geometry_mappings.iter().filter(|m| m.source_category_key == "source:2").count(),
        2
    );
    assert!(request.task_mappings.iter().all(|m| m.source_category_key == "source:0"));
    assert!(request
        .task_mappings
        .iter()
        .any(|m| m.task.annotation_type == AnnotationType::BoundingBox));
    assert!(request
        .task_mappings
        .iter()
        .any(|m| m.task.annotation_type == AnnotationType::Skeleton));
    assert!(request.skeleton_mappings.iter().all(|m| m.source_category_key == "source:0"));
}
