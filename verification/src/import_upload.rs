//! Uploading browser files to an import chunk by chunk: which chunk goes
//! next and the request that carries it.
use vstd::prelude::*;

verus! {

/// The BLAKE3 digest of a byte string, written in hexadecimal.
pub uninterp spec fn blake3_hex(bytes: Seq<u8>) -> Seq<char>;

/// Hashes `bytes` with `blake3::hash` and renders the digest with
/// `Hash::to_hex`; the result is the named digest of exactly these bytes.
#[verifier::external_body]
fn blake3_hex_digest(bytes: &Vec<u8>) -> (r: String)
    ensures
        r@ == blake3_hex(bytes@),
{
    blake3::hash(bytes.as_slice()).to_hex().to_string()
}

/// The incremental BLAKE3 hasher of the `blake3` crate.
#[verifier::external_type_specification]
#[verifier::external_body]
pub struct ExBlake3Hasher(blake3::Hasher);

/// The bytes a BLAKE3 hasher has been fed, in order.
pub uninterp spec fn hasher_input(h: blake3::Hasher) -> Seq<u8>;

/// A fresh hasher from `blake3::Hasher::new`: it has been fed nothing.
#[verifier::external_body]
fn new_blake3_hasher() -> (h: blake3::Hasher)
    ensures
        hasher_input(h) == Seq::<u8>::empty(),
{
    blake3::Hasher::new()
}

/// `blake3::Hasher::update`: the bytes are appended to what the hasher was
/// fed.
#[verifier::external_body]
fn blake3_hasher_update(h: &mut blake3::Hasher, bytes: &Vec<u8>)
    ensures
        hasher_input(*final(h)) == hasher_input(*old(h)) + bytes@,
{
    h.update(bytes.as_slice());
}

/// `blake3::Hasher::finalize` rendered with `Hash::to_hex`: the crate
/// documents that the incremental hasher gives the digest `blake3::hash`
/// gives of everything it was fed, so this is the named digest of those
/// bytes.
#[verifier::external_body]
fn blake3_hasher_hex(h: &blake3::Hasher) -> (r: String)
    ensures
        r@ == blake3_hex(hasher_input(*h)),
{
    h.finalize().to_hex().to_string()
}

/// The bytes of a file are hashed in ranges of at most this many bytes.
pub const HASH_CHUNK_BYTES: u64 = 8388608;

/// The next range of a file of `size` bytes to hash from `offset`: none
/// once the whole file is read, else up to `HASH_CHUNK_BYTES` bytes.
pub fn next_hash_range(offset: u64, size: u64) -> (r: Option<(u64, u64)>)
    ensures
        offset >= size ==> r is None,
        offset < size ==> r == Some(
            (
                offset,
                if size - offset <= HASH_CHUNK_BYTES {
                    (size - offset) as u64
                } else {
                    HASH_CHUNK_BYTES
                },
            ),
        ),
{
    if offset >= size {
        None
    } else if size - offset <= HASH_CHUNK_BYTES {
        Some((offset, size - offset))
    } else {
        Some((offset, HASH_CHUNK_BYTES))
    }
}

/// The digest of a file being read range by range.
#[derive(Debug)]
pub struct FileHasher {
    inner: blake3::Hasher,
}

impl FileHasher {
    /// The bytes hashed so far.
    pub closed spec fn fed(&self) -> Seq<u8> {
        hasher_input(self.inner)
    }

    /// A hasher that has read nothing.
    pub fn new() -> (h: Self)
        ensures
            h.fed() == Seq::<u8>::empty(),
    {
        FileHasher { inner: new_blake3_hasher() }
    }

    /// Feeds the next bytes of the file.
    pub fn update(&mut self, bytes: &Vec<u8>)
        ensures
            final(self).fed() == old(self).fed() + bytes@,
    {
        blake3_hasher_update(&mut self.inner, bytes);
    }

    /// The hexadecimal BLAKE3 digest of everything fed so far.
    pub fn finish(&self) -> (r: String)
        ensures
            r@ == blake3_hex(self.fed()),
    {
        blake3_hasher_hex(&self.inner)
    }
}

/// The bytes of a file read as consecutive ranges, one after the other.
pub open spec fn concat_ranges(ranges: Seq<Vec<u8>>) -> Seq<u8>
    decreases ranges.len(),
{
    if ranges.len() == 0 {
        Seq::empty()
    } else {
        concat_ranges(ranges.drop_last()) + ranges.last()@
    }
}

/// The digest of a file given as the ranges it was read in: the digest of
/// their concatenation, whatever the cut.
pub fn file_digest(ranges: &Vec<Vec<u8>>) -> (r: String)
    ensures
        r@ == blake3_hex(concat_ranges(ranges@)),
{
    let mut h = FileHasher::new();
    let mut i: usize = 0;
    while i < ranges.len()
        invariant
            i <= ranges@.len(),
            h.fed() == concat_ranges(ranges@.subrange(0, i as int)),
        decreases ranges.len() - i,
    {
        assert(ranges@.subrange(0, i + 1).drop_last() =~= ranges@.subrange(0, i as int));
        h.update(&ranges[i]);
        i += 1;
    }
    assert(ranges@.subrange(0, ranges@.len() as int) =~= ranges@);
    h.finish()
}

/// One chunk of a registered file, sent to the import's raw upload route.
#[derive(Debug)]
pub struct RawImportChunkRequest {
    pub api_base_url: String,
    pub import_id: String,
    pub file_id: String,
    pub offset: u64,
    pub length: u64,
    pub digest: String,
    pub bytes: Vec<u8>,
    pub csrf_token: String,
    pub idempotency_key: String,
}

/// What the server answers to a chunk: how far the file is accepted and
/// whether it is complete.
#[derive(Clone, Copy, Debug, PartialEq, Eq, Structural)]
pub struct RawImportChunkResponse {
    pub accepted_offset: u64,
    pub complete: bool,
}

/// A browser file registered for the import, with how much of it the
/// server has accepted.
#[derive(Debug)]
pub struct ImportUploadFile {
    pub client_file_id: String,
    pub file_id: String,
    pub byte_size: u64,
    pub accepted_bytes: u64,
    pub complete: bool,
}

/// The chunk to send next: which file, from where, and how many bytes.
#[derive(Clone, Copy, Debug, PartialEq, Eq, Structural)]
pub struct ImportChunkPlan {
    pub file_index: usize,
    pub offset: u64,
    pub length: u64,
}

/// The chunk size used when the server advertises none: 8 MiB.
pub const DEFAULT_UPLOAD_CHUNK_BYTES: u64 = 8388608;

/// The chunk size: the advertised one, at least one byte, or the default.
pub open spec fn chunk_size(limit: Option<u64>) -> u64 {
    match limit {
        Some(n) => if n == 0 {
            1
        } else {
            n
        },
        None => DEFAULT_UPLOAD_CHUNK_BYTES,
    }
}

/// The first file that is not complete yet.
pub open spec fn first_incomplete(files: Seq<ImportUploadFile>) -> Option<int>
    decreases files.len(),
{
    if files.len() == 0 {
        None
    } else {
        match first_incomplete(files.drop_last()) {
            Some(i) => Some(i),
            None => if !files.last().complete {
                Some(files.len() - 1)
            } else {
                None
            },
        }
    }
}

proof fn lemma_first_incomplete_prefix(files: Seq<ImportUploadFile>, n: int)
    requires
        0 <= n <= files.len(),
        first_incomplete(files.subrange(0, n)) is Some,
    ensures
        first_incomplete(files) == first_incomplete(files.subrange(0, n)),
    decreases files.len() - n,
{
    if n < files.len() {
        assert(files.subrange(0, n + 1).drop_last() =~= files.subrange(0, n));
        lemma_first_incomplete_prefix(files, n + 1);
    } else {
        assert(files.subrange(0, n) =~= files);
    }
}

/// The next chunk to upload: from the first incomplete file, starting
/// where the server's acceptance ends, as long as the chunk size allows
/// and the file has bytes left; nothing once every file is complete.
pub fn next_import_chunk(files: &Vec<ImportUploadFile>, chunk_limit: Option<u64>) -> (r: Option<ImportChunkPlan>)
    requires
        forall|i: int|
            0 <= i < files@.len() && !(#[trigger] files@[i]).complete ==> files@[i].accepted_bytes <= files@[i].byte_size,
    ensures
        match r {
            None => first_incomplete(files@) is None,
            Some(p) => {
                let f = files@[p.file_index as int];
                &&& first_incomplete(files@) == Some(p.file_index as int)
                &&& p.offset == f.accepted_bytes
                &&& p.length == if f.byte_size - f.accepted_bytes <= chunk_size(chunk_limit) {
                    (f.byte_size - f.accepted_bytes) as u64
                } else {
                    chunk_size(chunk_limit)
                }
            },
        },
{
    let chunk = match chunk_limit {
        Some(n) => if n == 0 {
            1
        } else {
            n
        },
        None => DEFAULT_UPLOAD_CHUNK_BYTES,
    };
    let mut i: usize = 0;
    while i < files.len()
        invariant
            i <= files@.len(),
            first_incomplete(files@.subrange(0, i as int)) is None,
            chunk == chunk_size(chunk_limit),
            forall|j: int|
                0 <= j < files@.len() && !(#[trigger] files@[j]).complete ==> files@[j].accepted_bytes <= files@[j].byte_size,
        decreases files.len() - i,
    {
        assert(files@.subrange(0, i + 1).drop_last() =~= files@.subrange(0, i as int));
        let f = &files[i];
        if !f.complete {
            proof {
                lemma_first_incomplete_prefix(files@, i + 1);
            }
            let left = f.byte_size - f.accepted_bytes;
            let length = if left <= chunk {
                left
            } else {
                chunk
            };
            return Some(ImportChunkPlan { file_index: i, offset: f.accepted_bytes, length });
        }
        i += 1;
    }
    assert(files@.subrange(0, files@.len() as int) =~= files@);
    None
}

/// The request that uploads `bytes` as the chunk of `file_id` at `offset`,
/// carrying their BLAKE3 digest.
pub fn raw_import_chunk_request(
    api_base_url: String,
    import_id: String,
    file_id: String,
    offset: u64,
    length: u64,
    bytes: Vec<u8>,
    csrf_token: String,
    idempotency_key: String,
) -> (r: RawImportChunkRequest)
    ensures
        r.digest@ == blake3_hex(bytes@),
        r.bytes == bytes,
        r.api_base_url == api_base_url,
        r.import_id == import_id,
        r.file_id == file_id,
        r.offset == offset,
        r.length == length,
        r.csrf_token == csrf_token,
        r.idempotency_key == idempotency_key,
{
    let digest = blake3_hex_digest(&bytes);
    RawImportChunkRequest {
        api_base_url,
        import_id,
        file_id,
        offset,
        length,
        digest,
        bytes,
        csrf_token,
        idempotency_key,
    }
}

} // verus!
