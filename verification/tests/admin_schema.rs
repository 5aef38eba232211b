use labello_ui::role_staging::set_user_role;
use labello_ui::people::{admin_count, disabled_role_hint, role_toggle_enabled};
use labello_ui::schema::{add_class, add_workflow, remove_class, remove_prelabel_config, set_prelabel_enabled};
use labello_ui::schema::{add_keypoint, add_next_edge, remove_keypoint, rename_keypoint};
use labello_ui::model::{
    AnnotationType, DatasetMetadata, DatasetRole, DatasetRoleAssignment, ImbalanceConfig,
    KeypointSpec, LabelClass, ModelSpec, PrelabelConfig, ReviewWorkflow, SkeletonEdge,
    SkeletonSpec, TaskStatus,
};
use labello_ui::people::{task_status_summary, DatasetUser};
use labello_ui::role_staging::staged_role_assignments;
use labello_ui::schema::{
    add_class_workflow, add_task_for_class, canonical_edge, default_class_color,
    has_task_for_class, next_class_id, next_keypoint_name, next_skeleton_edge,
    set_task_annotation_type, starter_skeleton_spec, workflow_task_for_class,
};
use labello_ui::validation::{
    class_issues, config_issues, dataset_issues, image_root_issues, imbalance_issues,
    prelabel_issues, role_issues, skeleton_issues, task_issues,
};

fn person() -> LabelClass {
    LabelClass {
        class_id: "person".to_string(),
        name: "Person".to_string(),
        color: "#5eead4".to_string(),
        description: None,
    }
}

fn vehicle() -> LabelClass {
    LabelClass {
        class_id: "vehicle".to_string(),
        name: "Vehicle".to_string(),
        color: "#60a5fa".to_string(),
        description: None,
    }
}

fn demo_config() -> DatasetMetadata {
    DatasetMetadata {
        dataset_id: "demo".to_string(),
        name: "Demo".to_string(),
        image_roots: vec!["images".to_string()],
        label_classes: Vec::new(),
        tasks: Vec::new(),
        prelabel_configs: Vec::new(),
        imbalance: None,
        role_assignments: vec![DatasetRoleAssignment {
            dataset_id: "demo".to_string(),
            user_id: "admin".to_string(),
            roles: vec![DatasetRole::DataAdmin],
            assigned_at: 0,
            assigned_by: None,
        }],
    }
}

#[test]
fn starter_skeleton_is_valid() {
    let skeleton = starter_skeleton_spec();

    assert!(skeleton_issues(&skeleton, "Skeleton").is_empty());
    assert_eq!(skeleton.keypoints.len(), 1);
    assert!(skeleton.keypoints[0].required);
}

#[test]
fn skeleton_validation_rejects_invalid_keypoints_and_edges() {
    let skeleton = SkeletonSpec {
        keypoints: vec![
            KeypointSpec {
                name: "joint".to_string(),
                required: true,
            },
            KeypointSpec {
                name: "joint".to_string(),
                required: false,
            },
            KeypointSpec {
                name: " ".to_string(),
                required: false,
            },
        ],
        edges: vec![
            SkeletonEdge {
                from: "joint".to_string(),
                to: "joint".to_string(),
            },
            SkeletonEdge {
                from: "missing".to_string(),
                to: "joint".to_string(),
            },
            SkeletonEdge {
                from: "joint".to_string(),
                to: "missing".to_string(),
            },
        ],
        allow_hidden: true,
        allow_absent: true,
    };

    let issues = skeleton_issues(&skeleton, "Skeleton").join("\n");
    assert!(issues.contains("non-empty name"));
    assert!(issues.contains("duplicated; choose a unique name"));
    assert!(issues.contains("from and to must be different"));
    assert!(issues.contains("from endpoint 'missing'"));
    assert!(issues.contains("to endpoint 'missing'"));
}

#[test]
fn skeleton_validation_requires_a_keypoint() {
    let mut skeleton = starter_skeleton_spec();
    skeleton.keypoints.clear();

    assert!(
        skeleton_issues(&skeleton, "Skeleton")
            .iter()
            .any(|issue| issue.contains("add at least one keypoint"))
    );
}

#[test]
fn skeleton_validation_treats_reversed_edges_as_duplicates() {
    let skeleton = SkeletonSpec {
        keypoints: vec![
            KeypointSpec {
                name: "left".to_string(),
                required: true,
            },
            KeypointSpec {
                name: "right".to_string(),
                required: true,
            },
        ],
        edges: vec![
            SkeletonEdge {
                from: "left".to_string(),
                to: "right".to_string(),
            },
            SkeletonEdge {
                from: "right".to_string(),
                to: "left".to_string(),
            },
        ],
        allow_hidden: false,
        allow_absent: false,
    };

    assert!(
        skeleton_issues(&skeleton, "Skeleton")
            .iter()
            .any(|issue| issue.contains("is duplicated"))
    );
}

#[test]
fn switching_annotation_type_initializes_and_clears_skeleton() {
    let class = person();
    let mut task = workflow_task_for_class(&class, AnnotationType::BoundingBox);

    set_task_annotation_type(&mut task, AnnotationType::Skeleton);
    assert!(task.skeleton.is_some());
    assert!(skeleton_issues(task.skeleton.as_ref().unwrap(), "Skeleton").is_empty());

    set_task_annotation_type(&mut task, AnnotationType::BoundingBox);
    assert!(task.skeleton.is_none());
}

#[test]
fn disabled_quick_workflow_is_not_duplicated() {
    let class = person();
    let mut config = demo_config();
    config.label_classes.push(class.clone());
    let mut task = workflow_task_for_class(&class, AnnotationType::BoundingBox);
    task.enabled = false;
    config.tasks.push(task);

    assert!(has_task_for_class(
        &config,
        &class.class_id,
        &AnnotationType::BoundingBox
    ));
    add_task_for_class(&mut config, &class, AnnotationType::BoundingBox);
    assert_eq!(config.tasks.len(), 1);
}

#[test]
fn enabled_workflows_require_exactly_one_class() {
    let person = person();
    let vehicle = vehicle();
    let mut task = workflow_task_for_class(&person, AnnotationType::BoundingBox);
    task.class_ids.push(vehicle.class_id.clone());

    assert!(
        task_issues(&vec![task], &vec![person, vehicle], &Vec::new())
            .iter()
            .any(|issue| issue.contains("exactly one class"))
    );
}

#[test]
fn task_status_summary_groups_statuses_in_workflow_order() {
    assert_eq!(task_status_summary(&Vec::new()), "No workflow status");
    assert_eq!(
        task_status_summary(&vec![
            TaskStatus::Completed,
            TaskStatus::Pending,
            TaskStatus::Pending,
        ]),
        "Pending 2 | Completed 1"
    );
}

#[test]
fn class_workflow_has_expected_identity_and_defaults() {
    let task = workflow_task_for_class(&person(), AnnotationType::Skeleton);
    assert_eq!(task.task_id, "skeleton:person");
    assert_eq!(task.name, "Person skeletons");
    assert_eq!(task.class_ids, vec!["person".to_string()]);
    assert_eq!(task.review.workflow, ReviewWorkflow::NoReview);
    assert_eq!(task.review.required_reviews, 0);
    assert!(task.enabled);
    let skeleton = task.skeleton.unwrap();
    assert_eq!(skeleton.keypoints[0].name, "keypoint_1");
}

#[test]
fn adding_a_class_workflow_is_idempotent_for_an_existing_class() {
    let mut config = demo_config();
    config.label_classes.push(person());
    add_task_for_class(&mut config, &person(), AnnotationType::BoundingBox);
    add_task_for_class(&mut config, &person(), AnnotationType::BoundingBox);
    assert_eq!(config.tasks.len(), 1);
    add_task_for_class(&mut config, &person(), AnnotationType::Skeleton);
    assert_eq!(config.tasks.len(), 2);
}

#[test]
fn new_classes_take_the_next_free_id_name_and_color() {
    let mut config = demo_config();
    add_class_workflow(&mut config, AnnotationType::BoundingBox);
    add_class_workflow(&mut config, AnnotationType::BoundingBox);
    assert_eq!(config.label_classes[0].class_id, "object");
    assert_eq!(config.label_classes[0].name, "Object");
    assert_eq!(config.label_classes[0].color, "#5eead4");
    assert_eq!(config.label_classes[1].class_id, "object_2");
    assert_eq!(config.label_classes[1].name, "Object 2");
    assert_eq!(config.label_classes[1].color, "#60a5fa");
    assert_eq!(config.tasks.len(), 2);
    assert_eq!(config.tasks[1].task_id, "bounding_box:object_2");

    config.label_classes.remove(0);
    assert_eq!(next_class_id(&config), "object");
    assert_eq!(default_class_color(7), "#5eead4");
    assert_eq!(default_class_color(12), "#34d399");
}

#[test]
fn keypoint_names_and_edges_fill_the_first_gap() {
    let mut skeleton = starter_skeleton_spec();
    assert_eq!(next_keypoint_name(&skeleton), "keypoint_2");
    skeleton.keypoints.push(KeypointSpec {
        name: "keypoint_3".to_string(),
        required: false,
    });
    assert_eq!(next_keypoint_name(&skeleton), "keypoint_2");

    let edge = next_skeleton_edge(&skeleton).unwrap();
    assert_eq!(edge.from, "keypoint_1");
    assert_eq!(edge.to, "keypoint_3");
    skeleton.edges.push(edge);
    assert!(next_skeleton_edge(&skeleton).is_none());
    assert_eq!(canonical_edge("b", "a"), ("a", "b"));
    assert_eq!(canonical_edge("a", "b"), ("a", "b"));
}

#[test]
fn dataset_and_class_checks_name_each_problem() {
    assert_eq!(
        dataset_issues(" ", &Vec::new()),
        vec![
            "Dataset: enter a non-empty dataset name.".to_string(),
            "Image roots: add at least one dataset-relative root path.".to_string(),
        ]
    );
    assert_eq!(
        image_root_issues(&vec!["images".to_string(), "../up".to_string(), "/abs".to_string()]),
        vec![
            "Image roots: root 2 must be a non-empty relative path without '..' or backslashes."
                .to_string(),
            "Image roots: root 3 must be a non-empty relative path without '..' or backslashes."
                .to_string(),
        ]
    );
    let mut bad = person();
    bad.class_id = "a/b".to_string();
    bad.color = "#12345".to_string();
    let issues = class_issues(&vec![person(), person(), bad]);
    assert_eq!(
        issues,
        vec![
            "Classes: class ID 'person' is duplicated; choose a unique ID.".to_string(),
            "Class 3: ID 'a/b' is unsafe; use one path-safe segment under 256 bytes with no '/', '\\', control characters, '.' or '..'.".to_string(),
            "Class 3: color '#12345' is invalid; use # followed by six hexadecimal digits.".to_string(),
        ]
    );
}

#[test]
fn prelabel_imbalance_and_role_checks() {
    let prelabel = PrelabelConfig {
        config_id: "yolo".to_string(),
        name: " ".to_string(),
        model: ModelSpec {
            model_id: "m".to_string(),
            display_name: "Model".to_string(),
            location: "".to_string(),
        },
        available_to_annotators: true,
        confidence_in_unit_range: false,
        overlap_iou_in_unit_range: Some(false),
    };
    assert_eq!(
        prelabel_issues(&vec![prelabel]),
        vec![
            "Prelabel 1: enter a non-empty prelabel name.".to_string(),
            "Prelabel 1: enter a model location.".to_string(),
            "Prelabel 1: confidence threshold must be between 0 and 1.".to_string(),
            "Prelabel 1: overlap suppression IoU must be between 0 and 1.".to_string(),
        ]
    );
    assert!(imbalance_issues(None).is_empty());
    assert_eq!(
        imbalance_issues(Some(&ImbalanceConfig {
            max_ratio_valid: false,
            enforce: true,
        })),
        vec!["Assignment balance: maximum class ratio must be a finite value of at least 1."
            .to_string()]
    );
    let assignments = vec![
        DatasetRoleAssignment {
            dataset_id: "demo".to_string(),
            user_id: "ana".to_string(),
            roles: vec![DatasetRole::Annotator],
            assigned_at: 0,
            assigned_by: None,
        },
        DatasetRoleAssignment {
            dataset_id: "other".to_string(),
            user_id: "ana".to_string(),
            roles: Vec::new(),
            assigned_at: 0,
            assigned_by: None,
        },
    ];
    assert_eq!(
        role_issues(&assignments, "demo", "ana"),
        vec![
            "Access roles: user 'ana' has duplicate assignments; combine their roles into one row."
                .to_string(),
            "Role assignment 2: assignment belongs to another dataset; remove and recreate it."
                .to_string(),
            "Role assignment 2: select at least one role.".to_string(),
            "Access roles: assign at least one data admin.".to_string(),
            "Access roles: keep data_admin enabled for the current user 'ana'.".to_string(),
        ]
    );
}

#[test]
fn a_complete_configuration_has_no_issues() {
    let mut config = demo_config();
    add_class_workflow(&mut config, AnnotationType::Skeleton);
    assert!(config_issues(&config, "admin").is_empty());
    assert_eq!(
        config_issues(&config, "someone"),
        vec!["Access roles: keep data_admin enabled for the current user 'someone'.".to_string()]
    );
}

fn member(id: &str, roles: Vec<DatasetRole>) -> DatasetUser {
    DatasetUser {
        user_id: id.to_string(),
        display_name: id.to_string(),
        github_login: None,
        roles,
    }
}

#[test]
fn staged_roles_follow_the_people_page_and_are_ordered_by_user() {
    let mut config = demo_config();
    config.role_assignments.push(DatasetRoleAssignment {
        dataset_id: "demo".to_string(),
        user_id: "carl".to_string(),
        roles: vec![DatasetRole::Reviewer, DatasetRole::Annotator],
        assigned_at: 5,
        assigned_by: Some("admin".to_string()),
    });
    config.role_assignments.push(DatasetRoleAssignment {
        dataset_id: "demo".to_string(),
        user_id: "gone".to_string(),
        roles: vec![DatasetRole::Annotator],
        assigned_at: 5,
        assigned_by: None,
    });
    let users = vec![
        member("carl", vec![DatasetRole::Annotator, DatasetRole::Reviewer, DatasetRole::Annotator]),
        member("gone", Vec::new()),
        member("bea", vec![DatasetRole::DataAdmin, DatasetRole::Annotator]),
        member("admin", vec![DatasetRole::DataAdmin, DatasetRole::Reviewer]),
    ];

    let staged = staged_role_assignments(&config, &users, 42, "admin");

    let ids: Vec<&str> = staged.iter().map(|a| a.user_id.as_str()).collect();
    assert_eq!(ids, vec!["admin", "bea", "carl"]);
    let admin = &staged[0];
    assert_eq!(admin.roles, vec![DatasetRole::Reviewer, DatasetRole::DataAdmin]);
    assert_eq!(admin.assigned_at, 42);
    assert_eq!(admin.assigned_by, Some("admin".to_string()));
    let bea = &staged[1];
    assert_eq!(bea.dataset_id, "demo");
    assert_eq!(bea.roles, vec![DatasetRole::Annotator, DatasetRole::DataAdmin]);
    assert_eq!(bea.assigned_at, 42);
    let carl = &staged[2];
    assert_eq!(carl.roles, vec![DatasetRole::Reviewer, DatasetRole::Annotator]);
    assert_eq!(carl.assigned_at, 5);
}

fn named_skeleton(names: &[&str], edges: &[(&str, &str)]) -> labello_ui::model::SkeletonSpec {
    labello_ui::model::SkeletonSpec {
        keypoints: names
            .iter()
            .map(|n| labello_ui::model::KeypointSpec { name: n.to_string(), required: false })
            .collect(),
        edges: edges
            .iter()
            .map(|(a, b)| labello_ui::model::SkeletonEdge { from: a.to_string(), to: b.to_string() })
            .collect(),
        allow_hidden: true,
        allow_absent: false,
    }
}

fn edge_pairs(s: &labello_ui::model::SkeletonSpec) -> Vec<(String, String)> {
    s.edges.iter().map(|e| (e.from.clone(), e.to.clone())).collect()
}

#[test]
fn editing_keypoints_keeps_edges_attached() {
    let mut s = named_skeleton(&["nose", "eye", "ear"], &[("nose", "eye"), ("eye", "ear"), ("ear", "nose")]);
    rename_keypoint(&mut s, 1, "left_eye".to_string());
    assert_eq!(s.keypoints[1].name, "left_eye");
    assert_eq!(
        edge_pairs(&s),
        vec![
            ("nose".to_string(), "left_eye".to_string()),
            ("left_eye".to_string(), "ear".to_string()),
            ("ear".to_string(), "nose".to_string()),
        ]
    );
    remove_keypoint(&mut s, 0);
    assert_eq!(s.keypoints.len(), 2);
    assert_eq!(edge_pairs(&s), vec![("left_eye".to_string(), "ear".to_string())]);

    add_keypoint(&mut s);
    assert_eq!(s.keypoints[2].name, "keypoint_1");
    assert!(s.keypoints[2].required);
    assert!(add_next_edge(&mut s));
    assert_eq!(s.edges.last().map(|e| (e.from.as_str(), e.to.as_str())), Some(("left_eye", "keypoint_1")));
    assert!(add_next_edge(&mut s));
    assert!(!add_next_edge(&mut s));
    assert_eq!(s.edges.len(), 3);
}

fn label(id: &str) -> LabelClass {
    LabelClass { class_id: id.to_string(), name: id.to_string(), color: "#5eead4".to_string(), description: None }
}

#[test]
fn removing_classes_and_prelabels_unlinks_workflows() {
    let mut labels = vec![label("cat"), label("dog")];
    let mut tasks = Vec::new();
    add_workflow(&mut tasks, &labels);
    add_workflow(&mut tasks, &labels);
    assert_eq!(tasks[0].task_id, "task_1");
    assert_eq!(tasks[1].task_id, "task_2");
    assert_eq!(tasks[0].class_ids, vec!["cat".to_string()]);
    assert_eq!(tasks[0].name, "New task");
    assert!(tasks[0].enabled && tasks[0].skeleton.is_none());
    assert_eq!(tasks[0].review.workflow, ReviewWorkflow::NoReview);
    tasks[1].class_ids = vec!["dog".to_string(), "cat".to_string()];

    set_prelabel_enabled(&mut tasks[0], "p1", true);
    set_prelabel_enabled(&mut tasks[0], "p1", true);
    set_prelabel_enabled(&mut tasks[0], "p2", true);
    assert_eq!(tasks[0].prelabel_config_ids, vec!["p1".to_string(), "p2".to_string()]);
    set_prelabel_enabled(&mut tasks[0], "p1", false);
    assert_eq!(tasks[0].prelabel_config_ids, vec!["p2".to_string()]);

    remove_class(&mut labels, &mut tasks, 0);
    assert_eq!(labels.len(), 1);
    assert!(tasks[0].class_ids.is_empty());
    assert_eq!(tasks[1].class_ids, vec!["dog".to_string()]);

    let mut configs = vec![PrelabelConfig {
        config_id: "p2".to_string(),
        name: "Detector".to_string(),
        model: ModelSpec { model_id: "m".to_string(), display_name: "M".to_string(), location: "models/m.onnx".to_string() },
        available_to_annotators: true,
        confidence_in_unit_range: true,
        overlap_iou_in_unit_range: None,
    }];
    remove_prelabel_config(&mut configs, &mut tasks, 0);
    assert!(configs.is_empty());
    assert!(tasks[0].prelabel_config_ids.is_empty());

    add_class(&mut labels);
    assert_eq!(labels[1].class_id, "class_1");
    assert_eq!(labels[1].name, "New class");
    assert!(labels[1].description.is_none());
    let mut empty_tasks = Vec::new();
    add_workflow(&mut empty_tasks, &Vec::new());
    assert!(empty_tasks[0].class_ids.is_empty());
}

fn role_holder(id: &str, roles: Vec<DatasetRole>) -> DatasetUser {
    DatasetUser { user_id: id.to_string(), display_name: id.to_string(), github_login: None, roles }
}

#[test]
fn role_checkboxes_protect_the_last_and_own_admin_role() {
    let mut me = role_holder("me", vec![DatasetRole::DataAdmin]);
    let other = role_holder("other", vec![DatasetRole::DataAdmin, DatasetRole::Annotator]);
    let users = vec![role_holder("me", vec![DatasetRole::DataAdmin]), other, role_holder("x", vec![])];
    assert_eq!(admin_count(&users), 2);
    assert!(!role_toggle_enabled(&me, DatasetRole::DataAdmin, "me", 2, false));
    assert!(role_toggle_enabled(&users[1], DatasetRole::DataAdmin, "me", 2, false));
    assert!(!role_toggle_enabled(&users[1], DatasetRole::DataAdmin, "me", 1, false));
    assert!(role_toggle_enabled(&me, DatasetRole::Reviewer, "me", 2, false));
    assert!(!role_toggle_enabled(&me, DatasetRole::Reviewer, "me", 2, true));
    assert_eq!(disabled_role_hint(&me, "me"), "You cannot remove your own data admin role.");
    assert_eq!(disabled_role_hint(&users[1], "me"), "At least one data admin must remain.");

    set_user_role(&mut me, DatasetRole::Annotator, true);
    assert_eq!(me.roles, vec![DatasetRole::Annotator, DatasetRole::DataAdmin]);
    set_user_role(&mut me, DatasetRole::Annotator, true);
    assert_eq!(me.roles, vec![DatasetRole::Annotator, DatasetRole::DataAdmin]);
    set_user_role(&mut me, DatasetRole::DataAdmin, false);
    assert_eq!(me.roles, vec![DatasetRole::Annotator]);
}
