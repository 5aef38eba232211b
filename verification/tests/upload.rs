use labello_ui::upload::{batch_message, folder_upload_start, next_upload_batch, MAX_BATCH_BYTES, MAX_FILES_PER_BATCH};
use labello_ui::upload::{api_base, ingest_job_id, ingest_job_url, ingest_poll, ingest_start_url, ingest_step, IngestPoll};
use labello_ui::upload::{encode_component, notify_and_wake, upload_batch_url, OneShotCompletion};
use labello_ui::import_upload::{
    next_import_chunk, raw_import_chunk_request, ImportChunkPlan, ImportUploadFile,
    DEFAULT_UPLOAD_CHUNK_BYTES,
};

#[test]
fn upload_request_encodes_dataset_and_root_without_changing_the_api_base() {
    assert_eq!(
        upload_batch_url(
            "https://example.test/api/",
            "data/set",
            "uploads/My folder+#1"
        ),
        "https://example.test/api/datasets/data%2Fset/uploads?root=uploads%2FMy%20folder%2B%231&ingest=false"
    );
}

#[test]
fn picker_cleanup_is_one_shot() {
    let mut completion = OneShotCompletion::default();
    assert!(completion.begin());
    assert!(!completion.begin());
}

#[test]
fn message_delivery_wakes_the_ui_even_when_the_receiver_is_gone() {
    let mut woke = false;
    notify_and_wake((), |_| {}, || woke = true);
    assert!(woke);
}

#[test]
fn component_encoding_keeps_unreserved_bytes_and_escapes_the_rest() {
    assert_eq!(encode_component("a-Z_0.!~*'()"), "a-Z_0.!~*'()");
    assert_eq!(encode_component("é /"), "%C3%A9%20%2F");
    assert_eq!(encode_component(""), "");
    assert_eq!(
        upload_batch_url("https://x.test//", "d", "r"),
        "https://x.test/datasets/d/uploads?root=r&ingest=false"
    );
}

#[test]
fn send_happens_before_wake() {
    let log = std::cell::RefCell::new(Vec::new());
    let (sent, woke) = notify_and_wake(
        7,
        |m| {
            log.borrow_mut().push(format!("send {m}"));
            m + 1
        },
        || {
            log.borrow_mut().push("wake".to_string());
            true
        },
    );
    assert_eq!(sent, 8);
    assert!(woke);
    assert_eq!(*log.borrow(), vec!["send 7".to_string(), "wake".to_string()]);
}

fn upload_file(byte_size: u64, accepted_bytes: u64, complete: bool) -> ImportUploadFile {
    ImportUploadFile {
        client_file_id: "browser-0".to_string(),
        file_id: "file-0".to_string(),
        byte_size,
        accepted_bytes,
        complete,
    }
}

#[test]
fn next_chunk_continues_the_first_incomplete_file() {
    let files = vec![
        upload_file(10, 10, true),
        upload_file(20_000_000, 8_388_608, false),
        upload_file(5, 0, false),
    ];
    assert_eq!(
        next_import_chunk(&files, None),
        Some(ImportChunkPlan { file_index: 1, offset: 8_388_608, length: 8_388_608 })
    );
    assert_eq!(
        next_import_chunk(&files, Some(0)),
        Some(ImportChunkPlan { file_index: 1, offset: 8_388_608, length: 1 })
    );
    assert_eq!(
        next_import_chunk(&files, Some(100_000_000)),
        Some(ImportChunkPlan { file_index: 1, offset: 8_388_608, length: 11_611_392 })
    );
    assert_eq!(next_import_chunk(&vec![upload_file(3, 3, true)], None), None);
    assert_eq!(DEFAULT_UPLOAD_CHUNK_BYTES, 8 * 1024 * 1024);
}

#[test]
fn chunk_requests_carry_the_blake3_digest_of_their_bytes() {
    let request = raw_import_chunk_request(
        "https://labello.example/api".to_string(),
        "imp-1".to_string(),
        "file-0".to_string(),
        0,
        3,
        b"abc".to_vec(),
        "token".to_string(),
        "ui-chunk-1".to_string(),
    );
    assert_eq!(request.digest, blake3::hash(b"abc").to_hex().to_string());
    assert_eq!(request.digest.len(), 64);
    assert_eq!(request.bytes, b"abc".to_vec());
    assert_eq!(request.offset, 0);
    assert_eq!(request.length, 3);

    let empty = raw_import_chunk_request(
        String::new(),
        String::new(),
        String::new(),
        0,
        0,
        Vec::new(),
        String::new(),
        String::new(),
    );
    assert_eq!(
        empty.digest,
        "af1349b9f5f9a1a6a0404dea36dcc9499bcb25c9adc112b7cc9a93cae41f3262"
    );
}

#[test]
fn ingest_jobs_are_started_polled_and_finished_by_status() {
    assert_eq!(api_base("https://api.example//"), "https://api.example");
    assert_eq!(
        ingest_start_url("https://api.example/", "data set"),
        "https://api.example/datasets/data%20set/ingest-jobs"
    );
    assert_eq!(
        ingest_job_url("https://api.example", "d1", "job/7"),
        "https://api.example/datasets/d1/ingest-jobs/job%2F7"
    );
    assert_eq!(ingest_job_id(Some("j1".to_string())), Ok("j1".to_string()));
    assert_eq!(ingest_job_id(None), Err("ingest job response missing jobId".to_string()));

    assert!(matches!(ingest_poll(Some("completed"), None), IngestPoll::Completed));
    assert!(matches!(ingest_poll(Some("queued"), None), IngestPoll::Running));
    assert!(matches!(ingest_poll(None, Some("x".to_string())), IngestPoll::Running));
    match ingest_poll(Some("failed"), None) {
        IngestPoll::Failed(m) => assert_eq!(m, "ingest failed"),
        other => panic!("unexpected {other:?}"),
    }
    match ingest_poll(Some("failed"), Some("disk full".to_string())) {
        IngestPoll::Failed(m) => assert_eq!(m, "disk full"),
        other => panic!("unexpected {other:?}"),
    }
    assert_eq!(ingest_step(IngestPoll::Running), None);
    assert_eq!(ingest_step(IngestPoll::Completed), Some(Ok(())));
    assert_eq!(ingest_step(IngestPoll::Failed("e".to_string())), Some(Err("e".to_string())));
}

#[test]
fn folder_uploads_are_cut_into_bounded_batches() {
    assert_eq!(folder_upload_start(None), Err("no folder selected".to_string()));
    assert_eq!(folder_upload_start(Some(0)), Err("selected folder contains no files".to_string()));
    assert_eq!(folder_upload_start(Some(3)), Ok(3));

    let many: Vec<Option<u64>> = vec![Some(10); 30];
    let (first, next) = next_upload_batch(&many, 0).unwrap();
    assert_eq!(first.len(), MAX_FILES_PER_BATCH);
    assert_eq!(next, 24);
    let (second, next) = next_upload_batch(&many, next).unwrap();
    assert_eq!(second, (24..30).collect::<Vec<usize>>());
    assert_eq!(next, 30);

    let half = MAX_BATCH_BYTES / 2;
    let sizes = vec![Some(half), None, Some(half), Some(1), Some(MAX_BATCH_BYTES * 3)];
    let (a, next) = next_upload_batch(&sizes, 0).unwrap();
    assert_eq!(a, vec![0, 2]);
    assert_eq!(next, 3);
    let (b, next) = next_upload_batch(&sizes, next).unwrap();
    assert_eq!(b, vec![3]);
    assert_eq!(next, 4);
    let (c, next) = next_upload_batch(&sizes, next).unwrap();
    assert_eq!(c, vec![4]);
    assert_eq!(next, 5);

    let unreadable = vec![Some(5), None, None];
    assert_eq!(next_upload_batch(&unreadable, 1), Err("selected folder contained no readable files".to_string()));

    assert_eq!(batch_message(false, 3), "Uploading batch 3");
    assert_eq!(batch_message(true, 12), "Uploaded batch 12");
}
