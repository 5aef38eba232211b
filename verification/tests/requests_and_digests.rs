use labello_ui::canvas_modes::CanvasModes;
use labello_ui::import_bookkeeping::{ImportActivity, ImportRequestBook};
use labello_ui::import_requests::selected_browser_file;
use labello_ui::import_upload::{file_digest, next_hash_range, FileHasher, HASH_CHUNK_BYTES};
use labello_ui::model::{KeypointSpec, SkeletonEdge, SkeletonSpec};
use labello_ui::validation::skeleton_issues;
use labello_ui::work_session::{repaint_requests, RepaintClock, RepaintRequests};

fn blake3_hex(bytes: &[u8]) -> String {
    blake3::hash(bytes).to_hex().to_string()
}

#[test]
fn queued_import_activity_is_cleared_with_the_import_epoch() {
    let mut book = ImportRequestBook::new();
    let request = book.identity(None);
    let request_id = request.request_id;

    assert!(book.queue(&request, ImportActivity::CheckCapabilities));
    assert_eq!(book.activity(request_id), Some(ImportActivity::CheckCapabilities));

    book.begin_epoch();
    assert!(book.active.is_empty());
    assert!(book.queued.is_empty());
}

#[test]
fn import_requests_get_fresh_ids_and_settle_once() {
    let mut book = ImportRequestBook::new();
    let first = book.identity(Some("imp-1".to_string()));
    let second = book.identity(Some("imp-1".to_string()));
    assert_eq!(first.request_id, 1);
    assert_eq!(second.request_id, 2);
    assert_eq!(first.epoch, 0);
    assert_eq!(second.import_id.as_deref(), Some("imp-1"));

    assert!(book.queue(&first, ImportActivity::UpdatePlan));
    assert!(!book.queue(&first, ImportActivity::Commit));
    assert!(book.queue(&second, ImportActivity::LoadStatus));
    assert!(book.runs(ImportActivity::LoadStatus));
    assert!(!book.runs(ImportActivity::Commit));
    assert_eq!(book.start_next(), Some(1));
    assert_eq!(book.queued, vec![2]);

    assert!(book.settle(&second));
    assert!(!book.settle(&second));
    assert!(book.queued.is_empty());
    assert!(!book.runs(ImportActivity::LoadStatus));
    assert_eq!(book.activity(1), Some(ImportActivity::UpdatePlan));
    assert_eq!(book.activity(2), None);
}

#[test]
fn responses_from_an_earlier_epoch_are_ignored() {
    let mut book = ImportRequestBook::new();
    let stale = book.identity(None);
    assert!(book.queue(&stale, ImportActivity::Create));
    book.begin_epoch();
    assert_eq!(book.epoch, 1);
    assert!(!book.settle(&stale));
    assert!(!book.queue(&stale, ImportActivity::Create));
    let fresh = book.identity(None);
    assert_eq!(fresh.epoch, 1);
    assert!(book.queue(&fresh, ImportActivity::Create));
    assert!(book.settle(&fresh));
}

#[test]
fn file_hash_ranges_cover_the_file_in_eight_mebibyte_steps() {
    assert_eq!(HASH_CHUNK_BYTES, 8 * 1024 * 1024);
    assert_eq!(next_hash_range(0, 20 * 1024 * 1024), Some((0, 8 * 1024 * 1024)));
    assert_eq!(
        next_hash_range(16 * 1024 * 1024, 20 * 1024 * 1024),
        Some((16 * 1024 * 1024, 4 * 1024 * 1024))
    );
    assert_eq!(next_hash_range(3, 10), Some((3, 7)));
    assert_eq!(next_hash_range(10, 10), None);
    assert_eq!(next_hash_range(0, 0), None);
}

#[test]
fn file_digest_of_ranges_is_the_digest_of_the_whole_file() {
    let ranges = vec![b"hello ".to_vec(), b"world".to_vec()];
    assert_eq!(file_digest(&ranges), blake3_hex(b"hello world"));
    assert_eq!(
        file_digest(&Vec::new()),
        "af1349b9f5f9a1a6a0404dea36dcc9499bcb25c9adc112b7cc9a93cae41f3262"
    );

    let mut hasher = FileHasher::new();
    hasher.update(&b"hello ".to_vec());
    hasher.update(&b"world".to_vec());
    assert_eq!(hasher.finish(), blake3_hex(b"hello world"));
    assert_ne!(hasher.finish(), "hello world");
}

#[test]
fn a_selected_browser_file_carries_its_index_and_content_digest() {
    let mut hasher = FileHasher::new();
    hasher.update(&b"0 0.5 0.5 0.2 0.2\n".to_vec());
    let file = selected_browser_file(3, "labels/a.txt".to_string(), 18, &hasher);
    assert_eq!(file.client_file_id, "browser-3");
    assert_eq!(file.relative_path, "labels/a.txt");
    assert_eq!(file.byte_size, 18);
    assert_eq!(file.blake3, blake3_hex(b"0 0.5 0.5 0.2 0.2\n"));
}

fn idle_clock() -> RepaintClock {
    RepaintClock {
        dirty: false,
        since_last_edit_ms: None,
        ingesting: false,
        stats_idle: false,
        since_stats_attempt_ms: None,
        availability_watched: false,
        availability_checked: false,
        availability_age_ms: None,
        since_availability_attempt_ms: None,
    }
}

#[test]
fn repaints_follow_the_autosave_ingest_stats_and_availability_timers() {
    assert_eq!(
        repaint_requests(idle_clock()),
        RepaintRequests { autosave: None, ingest: None, stats: None, availability: None }
    );

    let busy = RepaintClock {
        dirty: true,
        since_last_edit_ms: Some(200),
        ingesting: true,
        stats_idle: true,
        since_stats_attempt_ms: Some(1000),
        availability_watched: true,
        availability_checked: true,
        availability_age_ms: Some(12_000),
        since_availability_attempt_ms: Some(1),
    };
    assert_eq!(
        repaint_requests(busy),
        RepaintRequests {
            autosave: Some(550),
            ingest: Some(500),
            stats: Some(2000),
            availability: Some(18_000),
        }
    );

    let late = RepaintClock {
        dirty: true,
        since_last_edit_ms: Some(900),
        stats_idle: true,
        availability_watched: true,
        since_availability_attempt_ms: Some(40_000),
        ..idle_clock()
    };
    assert_eq!(
        repaint_requests(late),
        RepaintRequests { autosave: Some(0), ingest: None, stats: Some(3000), availability: Some(0) }
    );

    let unchecked = RepaintClock {
        availability_watched: true,
        since_availability_attempt_ms: Some(5_000),
        dirty: true,
        ..idle_clock()
    };
    assert_eq!(
        repaint_requests(unchecked),
        RepaintRequests { autosave: None, ingest: None, stats: None, availability: Some(25_000) }
    );
}

#[test]
fn zooming_ends_a_drag_and_zooming_out_fully_ends_panning() {
    let mut modes = CanvasModes::new();
    modes.dragging = true;
    modes.pan_mode = true;
    modes.zoom_in();
    assert!(!modes.is_dragging());
    assert!(modes.pan_mode);

    modes.dragging = true;
    modes.zoom_out(false);
    assert!(!modes.is_dragging());
    assert!(modes.pan_mode);

    modes.dragging = true;
    modes.primary_pan = true;
    modes.zoom_out(true);
    assert!(!modes.is_dragging());
    assert!(!modes.pan_mode && !modes.primary_pan);
}

fn keypoint(name: &str) -> KeypointSpec {
    KeypointSpec { name: name.to_string(), required: false }
}

fn edge(from: &str, to: &str) -> SkeletonEdge {
    SkeletonEdge { from: from.to_string(), to: to.to_string() }
}

#[test]
fn a_sound_skeleton_draws_no_issue_and_each_flaw_draws_one() {
    let sound = SkeletonSpec {
        keypoints: vec![keypoint("left"), keypoint("right"), keypoint("nose")],
        edges: vec![edge("left", "right"), edge("right", "nose")],
        allow_hidden: true,
        allow_absent: true,
    };
    assert!(skeleton_issues(&sound, "skeleton").is_empty());

    let empty = SkeletonSpec { keypoints: Vec::new(), edges: Vec::new(), allow_hidden: true, allow_absent: true };
    assert_eq!(skeleton_issues(&empty, "skeleton"), vec!["skeleton: add at least one keypoint.".to_string()]);

    let flawed = SkeletonSpec {
        keypoints: vec![keypoint(" "), keypoint("a"), keypoint("a")],
        edges: vec![edge("a", "a"), edge("a", "zz")],
        allow_hidden: true,
        allow_absent: true,
    };
    assert_eq!(
        skeleton_issues(&flawed, "s"),
        vec![
            "s: keypoint 1 needs a non-empty name.".to_string(),
            "s: keypoint name 'a' is duplicated; choose a unique name.".to_string(),
            "s edge 1: from and to must be different keypoints.".to_string(),
            "s edge 2: to endpoint 'zz' is not an existing keypoint.".to_string(),
        ]
    );
}
