use labello_ui::people::{image_refresh_label, images_empty_state, images_loading_text, normalized_search};
use labello_ui::people::{admin_load_error_message, admin_status, AdminTone};
use labello_ui::people::{image_controls_enabled, image_paging, images_error_message};
use labello_ui::ids::{
    is_image_path, is_safe_id, is_safe_relative_path, parent_source_directory, split_csv,
    valid_color, valid_identity_component,
};
use labello_ui::import_model::ImportProfile;
use labello_ui::import_support::{descriptor_kind_label, descriptor_path_matches};
use labello_ui::model::{DatasetRole, TaskStatus};
use labello_ui::people::{
    contains_text, image_classes, image_status_details, task_status_label, user_matches_search,
    user_permissions_dirty, AdminSection, DatasetUser, ImageExplorerItem,
};

fn user(id: &str, name: &str, login: Option<&str>, roles: Vec<DatasetRole>) -> DatasetUser {
    DatasetUser {
        user_id: id.to_string(),
        display_name: name.to_string(),
        github_login: login.map(str::to_string),
        roles,
    }
}

#[test]
fn image_summaries_list_classes_and_statuses() {
    let empty = ImageExplorerItem {
        class_ids: Vec::new(),
        task_statuses: Vec::new(),
    };
    assert_eq!(image_classes(&empty), "None");
    assert_eq!(image_status_details(&empty), "No workflow status");
    let item = ImageExplorerItem {
        class_ids: vec!["person".to_string(), "car".to_string()],
        task_statuses: vec![
            ("bounding_box:car".to_string(), TaskStatus::NeedsCorrection),
            ("skeleton:person".to_string(), TaskStatus::InProgress),
        ],
    };
    assert_eq!(image_classes(&item), "person, car");
    assert_eq!(
        image_status_details(&item),
        "bounding_box:car: Needs correction\nskeleton:person: In progress"
    );
    assert_eq!(task_status_label(&TaskStatus::AdjudicationRequired), "Adjudication required");
}

#[test]
fn people_search_matches_lowercased_fields() {
    let ana = user("Ana.Lima", "Ana Lima", Some("AnaL"), vec![DatasetRole::Annotator]);
    assert!(user_matches_search(&ana, ""));
    assert!(user_matches_search(&ana, "lima"));
    assert!(user_matches_search(&ana, "ana.l"));
    assert!(user_matches_search(&ana, "anal"));
    assert!(!user_matches_search(&ana, "Lima"));
    assert!(!user_matches_search(&ana, "bob"));
    assert!(contains_text("abc", "bc"));
    assert!(!contains_text("ab", "abc"));
}

#[test]
fn role_edits_are_dirty_until_saved() {
    let saved = vec![
        user("ana", "Ana", None, vec![DatasetRole::Annotator]),
        user("bob", "Bob", None, vec![DatasetRole::Reviewer]),
    ];
    assert!(!user_permissions_dirty(&user("ana", "Ana", None, vec![DatasetRole::Annotator]), &saved));
    assert!(user_permissions_dirty(
        &user("ana", "Ana", None, vec![DatasetRole::Annotator, DatasetRole::Reviewer]),
        &saved
    ));
    assert!(user_permissions_dirty(&user("cy", "Cy", None, Vec::new()), &saved));
    assert_eq!(
        AdminSection::all().into_iter().map(AdminSection::label).collect::<Vec<_>>(),
        vec!["Overview", "People", "Images", "Schema", "Automation", "Backups"]
    );
}

#[test]
fn path_and_identity_rules() {
    assert!(is_image_path("a/b/PHOTO.JPEG"));
    assert!(!is_image_path("a/b/notes.txt"));
    assert!(valid_color("#A0b1C2"));
    assert!(!valid_color("#A0b1C"));
    assert!(!valid_color("A0b1C22"));
    assert!(valid_identity_component("  release-1.0_a "));
    assert!(!valid_identity_component("release 1"));
    assert!(!valid_identity_component("   "));
    assert_eq!(
        split_csv(" nose, ,left_eye ,"),
        vec!["nose".to_string(), "left_eye".to_string()]
    );
    assert_eq!(parent_source_directory("a/b/c.json"), "a/b");
    assert_eq!(parent_source_directory("c.json"), "");
    assert!(is_safe_id("person"));
    assert!(!is_safe_id(".."));
    assert!(!is_safe_id("a\\b"));
    assert!(is_safe_relative_path("images/train"));
    assert!(!is_safe_relative_path("images//train"));
    assert!(!is_safe_relative_path(" images"));
    assert!(descriptor_path_matches(ImportProfile::UltralyticsYoloPoseV1, "data.YML"));
    assert!(!descriptor_path_matches(ImportProfile::CocoInstancesGtV1, "data.yaml"));
    assert!(!descriptor_path_matches(ImportProfile::Unknown, "data.json"));
    assert_eq!(descriptor_kind_label(labello_ui::import_model::ImportDescriptorKind::CocoKeypoints), "COCO keypoints");
}

#[test]
fn image_explorer_pages_forward_and_back_while_idle() {
    assert!(image_controls_enabled(false, false, false, false, false));
    assert!(!image_controls_enabled(false, false, false, true, false));

    let first = image_paging(1, 3, 62, true);
    assert_eq!(first.summary, "62 images | Page 1 of 3");
    assert_eq!(first.previous, None);
    assert_eq!(first.next, Some(2));
    let last = image_paging(3, 3, 62, true);
    assert_eq!((last.previous, last.next), (Some(2), None));
    let busy = image_paging(2, 3, 62, false);
    assert_eq!((busy.previous, busy.next), (None, None));
    assert_eq!(image_paging(1, 0, 0, true).summary, "0 images | Page 1 of 1");

    assert_eq!(
        images_error_message("timeout", true),
        ("Showing saved image results. Refresh failed: timeout".to_string(), true)
    );
    assert_eq!(
        images_error_message("timeout", false),
        ("Could not load images: timeout".to_string(), false)
    );
}

#[test]
fn admin_header_reports_staged_changes_and_gates_saving() {
    let saved = admin_status(false, false, false, false, true, false, false, false, 0);
    assert_eq!(saved.text, "Admin changes saved");
    assert_eq!(saved.tone, AdminTone::Success);
    assert!(saved.can_reload && !saved.can_save && saved.idle);

    let staged = admin_status(false, false, false, false, true, false, true, true, 2);
    assert_eq!(staged.text, "Admin changes staged; 2 validation error(s)");
    assert_eq!(staged.tone, AdminTone::Warning);
    assert!(!staged.can_save && !staged.can_reload);
    assert_eq!(staged.save_hint, "Fix validation errors before saving.");

    let ready = admin_status(false, false, false, false, true, false, false, true, 0);
    assert_eq!(ready.text, "Permission changes staged");
    assert!(ready.can_save);

    let busy = admin_status(false, true, false, false, true, false, true, false, 0);
    assert_eq!(busy.text, "Saving Admin changes");
    assert_eq!(busy.tone, AdminTone::Info);
    assert_eq!(busy.save_hint, "Wait for the active Admin operation to finish.");
    assert_eq!(admin_status(true, false, false, false, false, false, false, false, 0).text, "Loading Admin configuration");
    let failed = admin_status(false, false, false, false, false, true, false, false, 0);
    assert_eq!(failed.text, "Admin configuration unavailable");
    assert_eq!(failed.tone, AdminTone::Danger);

    assert_eq!(admin_load_error_message("boom", false), ("Admin load failed: boom".to_string(), false));
    assert_eq!(
        admin_load_error_message("boom", true),
        ("Showing saved admin data. Refresh failed: boom".to_string(), true)
    );
}

#[test]
fn people_search_and_image_labels_follow_the_explorer_state() {
    assert_eq!(normalized_search("  Ada LOVELACE "), "ada lovelace");
    assert_eq!(image_refresh_label(true, false), "Retry image load");
    assert_eq!(image_refresh_label(true, true), "Refresh images");
    assert_eq!(images_loading_text(true), "Refreshing images...");
    assert_eq!(images_loading_text(false), "Loading images...");
    assert_eq!(images_empty_state(false, false, Some(0)), Some(("No matching images", "Change the filters or ingest more images.")));
    assert_eq!(images_empty_state(true, false, Some(0)), None);
    assert_eq!(images_empty_state(false, false, Some(3)), None);
    assert_eq!(images_empty_state(false, false, None), Some(("No image results", "Apply filters or refresh to load indexed images.")));
    assert_eq!(images_empty_state(false, true, None), None);
}
