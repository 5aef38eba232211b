//! Folder uploads: the upload request URL, percent-encoding of its path
//! parts, and the one-shot completion of a folder picker.
use vstd::prelude::*;
use vstd::string::StringSliceAdditionalSpecFns;
use crate::text;

verus! {

/// A byte that URI components leave as it is: an ASCII letter or digit, or
/// one of `-_.!~*'()`.
pub open spec fn unreserved(b: u8) -> bool {
    ||| 48 <= b <= 57
    ||| 65 <= b <= 90
    ||| 97 <= b <= 122
    ||| b == 45 || b == 95 || b == 46 || b == 33 || b == 126 || b == 42 || b == 39 || b == 40 || b == 41
}

/// The uppercase hexadecimal digit of a value below 16.
pub open spec fn hex_digit(v: u8) -> char {
    if v < 10 {
        ((v + 48) as u8) as char
    } else {
        ((v + 55) as u8) as char
    }
}

/// How one byte is written in a URI component: itself, or `%` and two
/// uppercase hexadecimal digits.
pub open spec fn encoded_byte(b: u8) -> Seq<char> {
    if unreserved(b) {
        seq![b as char]
    } else {
        seq!['%', hex_digit(b / 16), hex_digit(b % 16)]
    }
}

/// The URI-component encoding of a byte sequence.
pub open spec fn encoded(bytes: Seq<u8>) -> Seq<char>
    decreases bytes.len(),
{
    if bytes.len() == 0 {
        Seq::empty()
    } else {
        encoded(bytes.drop_last()) + encoded_byte(bytes.last())
    }
}

fn hex_char(v: u8) -> (c: char)
    requires
        v < 16,
    ensures
        c == hex_digit(v),
{
    if v < 10 {
        (v + 48) as char
    } else {
        (v + 55) as char
    }
}

/// Percent-encodes every byte of `value` that is not unreserved.
pub fn encode_component(value: &str) -> (r: String)
    ensures
        r@ == encoded(value.spec_bytes()),
{
    let bytes = value.as_bytes();
    let mut r = String::new();
    let mut i: usize = 0;
    while i < bytes.len()
        invariant
            bytes@ == value.spec_bytes(),
            i <= bytes@.len(),
            r@ == encoded(bytes@.subrange(0, i as int)),
        decreases bytes.len() - i,
    {
        let b = bytes[i];
        assert(bytes@.subrange(0, i + 1).drop_last() =~= bytes@.subrange(0, i as int));
        let ghost before = r@;
        if (48 <= b && b <= 57) || (65 <= b && b <= 90) || (97 <= b && b <= 122) || b == 45 || b == 95 || b == 46
            || b == 33 || b == 126 || b == 42 || b == 39 || b == 40 || b == 41 {
            text::push_char(&mut r, b as char);
        } else {
            text::push_char(&mut r, '%');
            text::push_char(&mut r, hex_char(b / 16));
            text::push_char(&mut r, hex_char(b % 16));
        }
        assert(r@ =~= before + encoded_byte(b));
        i += 1;
    }
    assert(bytes@.subrange(0, bytes@.len() as int) =~= bytes@);
    r
}

/// `s` without its trailing slashes.
pub open spec fn strip_trailing_slashes(s: Seq<char>) -> Seq<char>
    decreases s.len(),
{
    if s.len() > 0 && s.last() == '/' {
        strip_trailing_slashes(s.drop_last())
    } else {
        s
    }
}

/// The upload endpoint of a dataset for files under `root`, with no
/// ingestion started.
pub open spec fn upload_url(api_base_url: Seq<char>, dataset_id: Seq<u8>, root: Seq<u8>) -> Seq<char> {
    strip_trailing_slashes(api_base_url) + "/datasets/"@ + encoded(dataset_id) + "/uploads?root="@ + encoded(root)
        + "&ingest=false"@
}

/// The API base URL without its trailing slashes.
pub fn api_base(api_base_url: &str) -> (r: String)
    ensures
        r@ == strip_trailing_slashes(api_base_url@),
{
    let v = text::chars_of(api_base_url);
    let mut end: usize = v.len();
    assert(v@.subrange(0, end as int) =~= v@);
    while end > 0 && v[end - 1] == '/'
        invariant
            end <= v@.len(),
            v@ == api_base_url@,
            strip_trailing_slashes(api_base_url@) == strip_trailing_slashes(v@.subrange(0, end as int)),
        decreases end,
    {
        assert(v@.subrange(0, end as int).drop_last() =~= v@.subrange(0, end - 1));
        end -= 1;
    }
    let mut base: Vec<char> = Vec::new();
    let mut i: usize = 0;
    while i < end
        invariant
            end <= v@.len(),
            i <= end,
            base@ =~= v@.subrange(0, i as int),
        decreases end - i,
    {
        base.push(v[i]);
        i += 1;
    }
    text::string_from_chars(&base)
}

/// The upload request URL: the API base without trailing slashes, then the
/// encoded dataset ID and root.
pub fn upload_batch_url(api_base_url: &str, dataset_id: &str, root: &str) -> (r: String)
    ensures
        r@ == upload_url(api_base_url@, dataset_id.spec_bytes(), root.spec_bytes()),
{
    let mut r = api_base(api_base_url);
    text::push_str(&mut r, "/datasets/");
    let id = encode_component(dataset_id);
    text::push_str(&mut r, id.as_str());
    text::push_str(&mut r, "/uploads?root=");
    let enc_root = encode_component(root);
    text::push_str(&mut r, enc_root.as_str());
    text::push_str(&mut r, "&ingest=false");
    r
}

/// The endpoint that starts an ingest job for a dataset.
pub open spec fn ingest_jobs_url(api_base_url: Seq<char>, dataset_id: Seq<u8>) -> Seq<char> {
    strip_trailing_slashes(api_base_url) + "/datasets/"@ + encoded(dataset_id) + "/ingest-jobs"@
}

/// The URL that starts an ingest job for the dataset.
pub fn ingest_start_url(api_base_url: &str, dataset_id: &str) -> (r: String)
    ensures
        r@ == ingest_jobs_url(api_base_url@, dataset_id.spec_bytes()),
{
    let mut r = api_base(api_base_url);
    text::push_str(&mut r, "/datasets/");
    let id = encode_component(dataset_id);
    text::push_str(&mut r, id.as_str());
    text::push_str(&mut r, "/ingest-jobs");
    r
}

/// The URL of one ingest job of the dataset.
pub fn ingest_job_url(api_base_url: &str, dataset_id: &str, job_id: &str) -> (r: String)
    ensures
        r@ == ingest_jobs_url(api_base_url@, dataset_id.spec_bytes()) + "/"@ + encoded(job_id.spec_bytes()),
{
    let mut r = ingest_start_url(api_base_url, dataset_id);
    text::push_str(&mut r, "/");
    let job = encode_component(job_id);
    text::push_str(&mut r, job.as_str());
    r
}

/// The ID of a started ingest job, from the `jobId` of the server's reply.
pub fn ingest_job_id(job_id: Option<String>) -> (r: Result<String, String>)
    ensures
        match job_id {
            Some(id) => r == Ok::<String, String>(id),
            None => r matches Err(m) && m@ == "ingest job response missing jobId"@,
        },
{
    match job_id {
        Some(id) => Ok(id),
        None => Err(text::to_string("ingest job response missing jobId")),
    }
}

/// Where an ingest job stands.
#[derive(Debug)]
pub enum IngestPoll {
    Running,
    Completed,
    Failed(String),
}

/// An ingest job's state from the `status` and `error` of the server's
/// reply: `completed` and `failed` end it (a failure without an error says
/// `ingest failed`); any other status, or none, means it still runs.
pub fn ingest_poll(status: Option<&str>, error: Option<String>) -> (r: IngestPoll)
    ensures
        (status matches Some(s) && s@ == "completed"@) ==> r is Completed,
        (status matches Some(s) && s@ == "failed"@) ==> (r matches IngestPoll::Failed(m) && m@ == match error {
            Some(e) => e@,
            None => "ingest failed"@,
        }),
        !(status matches Some(s) && (s@ == "completed"@ || s@ == "failed"@)) ==> r is Running,
{
    proof {
        reveal_strlit("completed");
        reveal_strlit("failed");
        assert("failed"@.len() != "completed"@.len());
    }
    match status {
        Some(s) => {
            if text::str_eq(s, "completed") {
                IngestPoll::Completed
            } else if text::str_eq(s, "failed") {
                IngestPoll::Failed(
                    match error {
                        Some(e) => e,
                        None => text::to_string("ingest failed"),
                    },
                )
            } else {
                IngestPoll::Running
            }
        },
        None => IngestPoll::Running,
    }
}

/// One step of waiting for an ingest job: keep polling while it runs, then
/// finish with its outcome.
pub fn ingest_step(poll: IngestPoll) -> (r: Option<Result<(), String>>)
    ensures
        match poll {
            IngestPoll::Running => r is None,
            IngestPoll::Completed => r == Some(Ok::<(), String>(())),
            IngestPoll::Failed(m) => r == Some(Err::<(), String>(m)),
        },
{
    match poll {
        IngestPoll::Running => None,
        IngestPoll::Completed => Some(Ok(())),
        IngestPoll::Failed(m) => Some(Err(m)),
    }
}

/// The most files one upload request carries.
pub const MAX_FILES_PER_BATCH: usize = 24;

/// The most bytes one upload request carries, unless a single file is
/// larger on its own.
pub const MAX_BATCH_BYTES: u64 = 33554432;

/// The batch that starts at file `j`, given `count` files and `bytes` bytes
/// already taken: files are taken in order while fewer than
/// `MAX_FILES_PER_BATCH` are taken, skipping unreadable ones (`None`), and a
/// file that would push a non-empty batch past `MAX_BATCH_BYTES` starts the
/// next batch. Returns the positions taken and where the next batch starts.
pub open spec fn fill_batch(sizes: Seq<Option<u64>>, j: int, count: nat, bytes: nat) -> (Seq<int>, int)
    decreases sizes.len() - j,
{
    if j < 0 || j >= sizes.len() || count >= MAX_FILES_PER_BATCH {
        (seq![], j)
    } else {
        match sizes[j] {
            None => fill_batch(sizes, j + 1, count, bytes),
            Some(size) => if count > 0 && bytes + size > MAX_BATCH_BYTES {
                (seq![], j)
            } else {
                let (rest, next) = fill_batch(sizes, j + 1, count + 1, (bytes + size) as nat);
                (seq![j] + rest, next)
            },
        }
    }
}

/// The byte size of file `i`, nothing for an unreadable one.
pub open spec fn size_at(sizes: Seq<Option<u64>>, i: int) -> nat {
    match sizes[i] {
        Some(x) => x as nat,
        None => 0,
    }
}

/// The bytes of the files at `taken`.
pub open spec fn taken_bytes(sizes: Seq<Option<u64>>, taken: Seq<int>) -> nat
    decreases taken.len(),
{
    if taken.len() == 0 {
        0
    } else {
        size_at(sizes, taken[0]) + taken_bytes(sizes, taken.subrange(1, taken.len() as int))
    }
}

/// A batch being filled stays within the limits and takes exactly the
/// readable files it passes.
proof fn lemma_fill_batch(
    sizes: Seq<Option<u64>>,
    j: int,
    count: nat,
    bytes: nat,
)
    requires
        0 <= j,
        count <= MAX_FILES_PER_BATCH,
        count >= 2 ==> bytes <= MAX_BATCH_BYTES,
        count == 0 ==> bytes == 0,
    ensures
        ({
            let (t, next) = fill_batch(sizes, j, count, bytes);
            &&& count + t.len() <= MAX_FILES_PER_BATCH
            &&& count + t.len() >= 2 ==> bytes + taken_bytes(sizes, t) <= MAX_BATCH_BYTES
            &&& j <= next
            &&& forall|a: int| 0 <= a < t.len() ==> j <= #[trigger] t[a] < next && sizes[t[a]] is Some
            &&& forall|a: int, b: int| 0 <= a < b < t.len() ==> t[a] < t[b]
            &&& forall|k: int| j <= k < next && sizes[k] is Some ==> t.contains(k)
        }),
    decreases sizes.len() - j,
{
    if j >= sizes.len() || count >= MAX_FILES_PER_BATCH {
    } else {
        match sizes[j] {
            None => {
                lemma_fill_batch(sizes, j + 1, count, bytes);
            },
            Some(size) => {
                if count > 0 && bytes + size > MAX_BATCH_BYTES {
                } else {
                    let nb = (bytes + size) as nat;
                    lemma_fill_batch(sizes, j + 1, count + 1, nb);
                    let (rest, next) = fill_batch(sizes, j + 1, count + 1, nb);
                    let t = seq![j] + rest;
                    assert(t.subrange(1, t.len() as int) =~= rest);
                    assert(t[0] == j);
                    assert(taken_bytes(sizes, t) == size + taken_bytes(sizes, rest));
                    assert forall|a: int| 0 <= a < t.len() implies j <= #[trigger] t[a] < next && sizes[t[a]] is Some by {
                        if a > 0 {
                            assert(t[a] == rest[a - 1]);
                        }
                    }
                    assert forall|a: int, b: int| 0 <= a < b < t.len() implies t[a] < t[b] by {
                        assert(t[b] == rest[b - 1]);
                        if a > 0 {
                            assert(t[a] == rest[a - 1]);
                        }
                    }
                    assert forall|k: int| j <= k < next && sizes[k] is Some implies t.contains(k) by {
                        if k == j {
                            assert(t[0] == k);
                        } else {
                            assert(rest.contains(k));
                            let w = choose|w: int| 0 <= w < rest.len() && rest[w] == k;
                            assert(t[w + 1] == rest[w]);
                            assert(t[w + 1] == k);
                        }
                    }
                }
            },
        }
    }
}

/// An upload batch holds at most `MAX_FILES_PER_BATCH` files and, unless
/// it is a single file, at most `MAX_BATCH_BYTES` bytes; it takes, in order,
/// every readable file from where it starts to where the next batch starts,
/// and no other.
pub proof fn upload_batches_respect_limits_and_skip_no_file(sizes: Seq<Option<u64>>, start: int)
    requires
        0 <= start,
    ensures
        ({
            let (t, next) = fill_batch(sizes, start, 0, 0);
            &&& t.len() <= MAX_FILES_PER_BATCH
            &&& t.len() >= 2 ==> taken_bytes(sizes, t) <= MAX_BATCH_BYTES
            &&& start <= next
            &&& forall|a: int| 0 <= a < t.len() ==> start <= #[trigger] t[a] < next && sizes[t[a]] is Some
            &&& forall|a: int, b: int| 0 <= a < b < t.len() ==> t[a] < t[b]
            &&& forall|k: int| start <= k < next && sizes[k] is Some ==> t.contains(k)
        }),
{
    lemma_fill_batch(sizes, start, 0, 0);
}

/// Checks a folder selection before its files are read: a folder must be
/// chosen and hold files. Returns the number of files.
pub fn folder_upload_start(file_count: Option<u32>) -> (r: Result<u32, String>)
    ensures
        match file_count {
            None => r matches Err(m) && m@ == "no folder selected"@,
            Some(0) => r matches Err(m) && m@ == "selected folder contains no files"@,
            Some(n) => r == Ok::<u32, String>(n),
        },
{
    match file_count {
        None => Err(text::to_string("no folder selected")),
        Some(0) => Err(text::to_string("selected folder contains no files")),
        Some(n) => Ok(n),
    }
}

/// The next upload batch of a folder, starting at file `start`, where
/// `sizes[i]` is the byte size of file `i` or `None` when it cannot be read:
/// the positions it takes and where the batch after it starts (see
/// `fill_batch`). A batch that finds no readable file is an error.
pub fn next_upload_batch(sizes: &Vec<Option<u64>>, start: usize) -> (r: Result<(Vec<usize>, usize), String>)
    ensures
        ({
            let (taken, next) = fill_batch(sizes@, start as int, 0, 0);
            match r {
                Ok((positions, n)) => taken.len() > 0 && positions@.len() == taken.len() && (forall|i: int|
                    0 <= i < taken.len() ==> #[trigger] positions@[i] as int == taken[i]) && n as int == next,
                Err(m) => taken.len() == 0 && m@ == "selected folder contained no readable files"@,
            }
        }),
{
    let mut positions: Vec<usize> = Vec::new();
    let mut bytes: u64 = 0;
    let mut j: usize = start;
    let ghost mut acc: Seq<int> = seq![];
    while j < sizes.len() && positions.len() < MAX_FILES_PER_BATCH
        invariant
            start <= j <= sizes@.len() || (j == start && start > sizes@.len()),
            positions@.len() <= MAX_FILES_PER_BATCH,
            positions@.len() == acc.len(),
            forall|i: int| 0 <= i < acc.len() ==> #[trigger] positions@[i] as int == acc[i],
            positions@.len() == 0 ==> bytes == 0,
            positions@.len() > 0 ==> bytes <= MAX_BATCH_BYTES || positions@.len() == 1,
            ({
                let (t0, n0) = fill_batch(sizes@, start as int, 0, 0);
                let (t1, n1) = fill_batch(sizes@, j as int, positions@.len() as nat, bytes as nat);
                t0 == acc + t1 && n0 == n1
            }),
        ensures
            fill_batch(sizes@, j as int, positions@.len() as nat, bytes as nat).0.len() == 0,
            fill_batch(sizes@, j as int, positions@.len() as nat, bytes as nat).1 == j,
            start <= j <= sizes@.len() || (j == start && start > sizes@.len()),
            positions@.len() == acc.len(),
            forall|i: int| 0 <= i < acc.len() ==> #[trigger] positions@[i] as int == acc[i],
            ({
                let (t0, n0) = fill_batch(sizes@, start as int, 0, 0);
                let (t1, n1) = fill_batch(sizes@, j as int, positions@.len() as nat, bytes as nat);
                t0 == acc + t1 && n0 == n1
            }),
        decreases sizes.len() - j,
    {
        match sizes[j] {
            None => {
                j += 1;
            },
            Some(size) => {
                let fits = positions.len() == 0 || (bytes <= MAX_BATCH_BYTES && size <= MAX_BATCH_BYTES - bytes);
                if !fits {
                    break;
                }
                proof {
                    let (t1, n1) = fill_batch(sizes@, j + 1, (positions@.len() + 1) as nat, (bytes + size) as nat);
                    assert(fill_batch(sizes@, j as int, positions@.len() as nat, bytes as nat) == (seq![j as int] + t1, n1));
                    assert(acc + (seq![j as int] + t1) =~= acc.push(j as int) + t1);
                    acc = acc.push(j as int);
                }
                positions.push(j);
                bytes = if positions.len() == 1 {
                    size
                } else {
                    bytes + size
                };
                j += 1;
            },
        }
    }
    proof {
        let (t1, n1) = fill_batch(sizes@, j as int, positions@.len() as nat, bytes as nat);
        assert(acc + t1 =~= acc);
    }
    if positions.len() == 0 {
        return Err(text::to_string("selected folder contained no readable files"));
    }
    Ok((positions, j))
}

/// The progress message around the upload of batch `n`.
pub fn batch_message(uploaded: bool, n: u32) -> (r: String)
    ensures
        r@ == if uploaded {
            "Uploaded batch "@
        } else {
            "Uploading batch "@
        } + crate::text::decimal(n as nat),
{
    if uploaded {
        text::with_number("Uploaded batch ", n as u64)
    } else {
        text::with_number("Uploading batch ", n as u64)
    }
}

/// Guards the cleanup of a folder picker so that it runs once.
#[derive(Debug)]
pub struct OneShotCompletion {
    pub completed: bool,
}

impl Default for OneShotCompletion {
    /// Not yet completed.
    fn default() -> (c: Self)
        ensures
            !c.completed,
    {
        OneShotCompletion { completed: false }
    }
}

impl OneShotCompletion {
    /// Claims the completion: true the first time, false afterwards.
    pub fn begin(&mut self) -> (first: bool)
        ensures
            claimed(*old(self), *final(self), first),
    {
        if self.completed {
            false
        } else {
            self.completed = true;
            true
        }
    }
}

/// A claim on a completion: it succeeds exactly when nothing claimed the
/// completion before, and the completion is claimed afterwards.
pub open spec fn claimed(before: OneShotCompletion, after: OneShotCompletion, first: bool) -> bool {
    first == !before.completed && after.completed
}

/// However often a completion is claimed, at most one claim succeeds: after
/// any claim, every later claim fails.
pub proof fn completion_runs_once(
    c0: OneShotCompletion,
    c1: OneShotCompletion,
    first: bool,
    c2: OneShotCompletion,
    second: bool,
)
    requires
        claimed(c0, c1, first),
        claimed(c1, c2, second),
    ensures
        !second,
        c2.completed,
{
}

/// Delivers `message` with `send`, then wakes the UI with `wake`, even when
/// nobody receives the message; returns what the two calls returned.
pub fn notify_and_wake<T, A, B>(message: T, send: impl FnOnce(T) -> A, wake: impl FnOnce() -> B) -> (r: (A, B))
    requires
        call_requires(send, (message,)),
        call_requires(wake, ()),
    ensures
        call_ensures(send, (message,), r.0),
        call_ensures(wake, (), r.1),
{
    let a = send(message);
    let b = wake();
    (a, b)
}

} // verus!
