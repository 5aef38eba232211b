//! The requests that create an import, register its browser files and
//! seal its source, each checked against what the server advertises.
use vstd::prelude::*;
use crate::ids;
use crate::import_upload::{blake3_hex, FileHasher};
use crate::import_model::{ImportLimits, ImportProfile, ImportTransport};
use crate::import_support::{
    import_descriptor_error, source_error, ImportCapabilities, ImportDescriptorDraft, ImportSourceDraft,
    ImportYoloSplitDraft, RegisteredImportPath,
};
use crate::recovery::{ImportAttestations, ImportDescriptorSelection, ImportFlowState, ImportSourceConfiguration};
use crate::schema::{lemma_lex_antisymmetric, lemma_lex_total, lemma_lex_transitive, lex_le};
use crate::text;

verus! {

/// The body of a seal request.
#[derive(Debug)]
pub struct SealImportRequest {
    pub source: ImportSourceConfiguration,
    pub attestations: ImportAttestations,
}

/// `a` comes strictly before `b` in code-point order.
pub open spec fn lex_lt(a: Seq<char>, b: Seq<char>) -> bool {
    lex_le(a, b) && a != b
}

/// Each entry comes strictly before the next.
pub open spec fn strictly_sorted(xs: Seq<Seq<char>>) -> bool {
    forall|i: int, j: int| 0 <= i < j < xs.len() ==> lex_lt(#[trigger] xs[i], #[trigger] xs[j])
}

proof fn lemma_lex_lt_transitive(a: Seq<char>, b: Seq<char>, c: Seq<char>)
    requires
        lex_lt(a, b),
        lex_lt(b, c),
    ensures
        lex_lt(a, c),
{
    lemma_lex_transitive(a, b, c);
    if a == c {
        lemma_lex_antisymmetric(a, b);
    }
}

/// Whether `a` comes strictly before `b`.
fn chars_lt(a: &Vec<char>, b: &Vec<char>) -> (r: bool)
    ensures
        r == lex_lt(a@, b@),
{
    crate::schema::chars_le(a, b) && !text::chars_eq(a, b)
}

/// Adds `s` to a strictly sorted list unless it is already there.
fn insert_sorted(xs: &mut Vec<String>, s: String)
    requires
        strictly_sorted(ids::views(old(xs)@)),
    ensures
        strictly_sorted(ids::views(final(xs)@)),
        ids::views(final(xs)@).to_set() == ids::views(old(xs)@).to_set().insert(s@),
{
    let ghost before = ids::views(xs@);
    let key = text::chars_of(s.as_str());
    let mut p: usize = 0;
    while p < xs.len()
        invariant
            p <= xs@.len(),
            ids::views(xs@) == before,
            strictly_sorted(before),
            key@ == s@,
            forall|j: int| 0 <= j < p ==> lex_lt(#[trigger] before[j], s@),
        ensures
            p <= xs@.len(),
            ids::views(xs@) == before,
            forall|j: int| 0 <= j < p ==> lex_lt(#[trigger] before[j], s@),
            p < xs@.len() ==> !lex_lt(before[p as int], s@),
        decreases xs.len() - p,
    {
        let x = text::chars_of(xs[p].as_str());
        assert(before[p as int] == xs@[p as int]@);
        if !chars_lt(&x, &key) {
            break;
        }
        p += 1;
    }
    if p < xs.len() {
        let x = text::chars_of(xs[p].as_str());
        assert(before[p as int] == xs@[p as int]@);
        if text::chars_eq(&x, &key) {
            assert(before.to_set() =~= before.to_set().insert(s@)) by {
                assert(before.contains(s@));
            }
            return;
        }
        proof {
            lemma_lex_total(x@, s@);
        }
    }
    let ghost p_int = p as int;
    xs.insert(p, s);
    proof {
        let after = ids::views(xs@);
        assert(after =~= before.insert(p_int, s@));
        assert forall|i: int, j: int| 0 <= i < j < after.len() implies lex_lt(#[trigger] after[i], #[trigger] after[j]) by {
            if j < p_int {
            } else if i < p_int && j == p_int {
            } else if i < p_int {
                assert(after[j] == before[j - 1]);
                if i + 1 <= j - 1 && j - 1 >= p_int {
                    assert(lex_lt(s@, before[p_int]));
                    if p_int < j - 1 {
                        lemma_lex_lt_transitive(s@, before[p_int], before[j - 1]);
                    }
                    lemma_lex_lt_transitive(before[i], s@, before[j - 1]);
                }
            } else if i == p_int {
                assert(after[j] == before[j - 1]);
                assert(lex_lt(s@, before[p_int]));
                if p_int < j - 1 {
                    lemma_lex_lt_transitive(s@, before[p_int], before[j - 1]);
                }
            } else {
                assert(after[i] == before[i - 1]);
                assert(after[j] == before[j - 1]);
            }
        }
        assert(after.to_set() =~= before.to_set().insert(s@)) by {
            assert forall|x: Seq<char>| after.to_set().contains(x) <==> before.to_set().insert(s@).contains(x) by {
                if after.contains(x) {
                    let k = choose|k: int| 0 <= k < after.len() && after[k] == x;
                    if k < p_int {
                        assert(before[k] == x);
                    } else if k > p_int {
                        assert(before[k - 1] == x);
                    }
                }
                if before.contains(x) {
                    let k = choose|k: int| 0 <= k < before.len() && before[k] == x;
                    if k < p_int {
                        assert(after[k] == x);
                    } else {
                        assert(after[k + 1] == x);
                    }
                }
                if x == s@ {
                    assert(after[p_int] == x);
                }
            }
        }
    }
}

/// The names of the usable, selected YAML splits, in order.
pub open spec fn chosen_splits(splits: Seq<ImportYoloSplitDraft>) -> Seq<Seq<char>>
    decreases splits.len(),
{
    if splits.len() == 0 {
        Seq::empty()
    } else {
        let d = splits.last();
        chosen_splits(splits.drop_last()) + if d.usable && d.selected {
            seq![d.name@]
        } else {
            Seq::<Seq<char>>::empty()
        }
    }
}

/// The trimmed splits of the descriptors.
pub open spec fn descriptor_splits(ds: Seq<ImportDescriptorDraft>) -> Set<Seq<char>> {
    Set::new(|x: Seq<char>| exists|i: int| 0 <= i < ds.len() && text::trim((#[trigger] ds[i]).split@) == x)
}

/// A trimmed optional field: the trimmed text, or nothing when it is blank.
pub open spec fn sealed_optional(value: Seq<char>, sealed: Option<String>) -> bool {
    match sealed {
        Some(x) => text::trim(value).len() > 0 && x@ == text::trim(value),
        None => text::trim(value).len() == 0,
    }
}

/// A sealed descriptor: the draft's fields trimmed, with the split given
/// for YOLO sources.
pub open spec fn sealed_descriptor(d: ImportDescriptorDraft, split: Seq<char>, sel: ImportDescriptorSelection) -> bool {
    &&& sel.descriptor_file_id@ == text::trim(d.descriptor_file_id@)
    &&& sel.kind == d.kind
    &&& sel.release@ == text::trim(d.release@)
    &&& sel.split@ == split
    &&& sealed_optional(d.image_root_file_id@, sel.image_root_file_id)
    &&& sealed_optional(d.pairing_group@, sel.pairing_group)
}

/// Whether a profile reads YOLO files.
pub open spec fn is_yolo(profile: ImportProfile) -> bool {
    !(profile == ImportProfile::CocoInstancesGtV1 || profile == ImportProfile::CocoKeypointsGtV1)
}

/// The sealed source of a draft: its trimmed namespace and descriptors;
/// for YOLO the usable selected splits in order, every descriptor filed
/// under the first of them; for COCO each descriptor under its own split
/// and every split once, in code-point order.
pub open spec fn sealed_source(src: ImportSourceDraft, c: ImportSourceConfiguration) -> bool {
    let ds = src.descriptors@;
    let chosen = chosen_splits(src.yolo_splits@);
    let yolo_split = if chosen.len() > 0 {
        chosen[0]
    } else {
        Seq::<char>::empty()
    };
    &&& c.source_namespace@ == text::trim(src.source_namespace@)
    &&& c.descriptors@.len() == ds.len()
    &&& forall|i: int|
        0 <= i < ds.len() ==> sealed_descriptor(
            ds[i],
            if is_yolo(src.profile) {
                yolo_split
            } else {
                text::trim(ds[i].split@)
            },
            #[trigger] c.descriptors@[i],
        )
    &&& is_yolo(src.profile) ==> ids::views(c.selected_splits@) == chosen
    &&& !is_yolo(src.profile) ==> strictly_sorted(ids::views(c.selected_splits@)) && ids::views(c.selected_splits@).to_set()
        == descriptor_splits(ds)
    &&& c.selected_category_keys@.len() == 0
}

fn chosen_split_names(splits: &Vec<ImportYoloSplitDraft>) -> (r: Vec<String>)
    ensures
        ids::views(r@) == chosen_splits(splits@),
{
    let mut r: Vec<String> = Vec::new();
    let mut i: usize = 0;
    while i < splits.len()
        invariant
            i <= splits@.len(),
            ids::views(r@) == chosen_splits(splits@.subrange(0, i as int)),
        decreases splits.len() - i,
    {
        let ghost before = r@;
        assert(splits@.subrange(0, i + 1).drop_last() =~= splits@.subrange(0, i as int));
        if splits[i].usable && splits[i].selected {
            r.push(splits[i].name.clone());
            assert(ids::views(r@) =~= ids::views(before).push(splits@[i as int].name@));
        }
        i += 1;
    }
    assert(splits@.subrange(0, splits@.len() as int) =~= splits@);
    r
}

fn descriptor_split_names(ds: &Vec<ImportDescriptorDraft>) -> (r: Vec<String>)
    ensures
        strictly_sorted(ids::views(r@)),
        ids::views(r@).to_set() == descriptor_splits(ds@),
{
    let mut r: Vec<String> = Vec::new();
    let mut i: usize = 0;
    assert(ids::views(r@).to_set() =~= Set::<Seq<char>>::empty());
    while i < ds.len()
        invariant
            i <= ds@.len(),
            strictly_sorted(ids::views(r@)),
            ids::views(r@).to_set() == descriptor_splits(ds@.subrange(0, i as int)),
        decreases ds.len() - i,
    {
        let split = text::trimmed(ds[i].split.as_str());
        let ghost before = descriptor_splits(ds@.subrange(0, i as int));
        insert_sorted(&mut r, split);
        assert(descriptor_splits(ds@.subrange(0, i + 1)) =~= before.insert(text::trim(ds@[i as int].split@))) by {
            let next = ds@.subrange(0, i + 1);
            assert(next[i as int] == ds@[i as int]);
            assert forall|x: Seq<char>| descriptor_splits(next).contains(x) <==> before.insert(text::trim(ds@[i as int].split@)).contains(x) by {
                if descriptor_splits(next).contains(x) {
                    let k = choose|k: int| 0 <= k < next.len() && text::trim((#[trigger] next[k]).split@) == x;
                    if k < i {
                        assert(ds@.subrange(0, i as int)[k] == next[k]);
                    }
                }
                if before.contains(x) {
                    let k = choose|k: int| 0 <= k < i && text::trim((#[trigger] ds@.subrange(0, i as int)[k]).split@) == x;
                    assert(next[k] == ds@.subrange(0, i as int)[k]);
                }
            }
        }
        i += 1;
    }
    assert(ds@.subrange(0, ds@.len() as int) =~= ds@);
    r
}

fn optional_trimmed(value: &str) -> (r: Option<String>)
    ensures
        sealed_optional(value@, r),
{
    let t = text::trimmed(value);
    if t.as_str().is_empty() {
        None
    } else {
        Some(t)
    }
}

fn sealed_configuration(src: &ImportSourceDraft) -> (c: ImportSourceConfiguration)
    ensures
        sealed_source(*src, c),
{
    let yolo = !crate::import_support::is_coco_profile(src.profile);
    let selected_splits = if yolo {
        chosen_split_names(&src.yolo_splits)
    } else {
        descriptor_split_names(&src.descriptors)
    };
    let yolo_split = if yolo && selected_splits.len() > 0 {
        selected_splits[0].clone()
    } else {
        String::new()
    };
    let ghost first = yolo_split@;
    assert(yolo ==> first == (if chosen_splits(src.yolo_splits@).len() > 0 {
        chosen_splits(src.yolo_splits@)[0]
    } else {
        Seq::<char>::empty()
    }));
    let mut descriptors: Vec<ImportDescriptorSelection> = Vec::new();
    let mut i: usize = 0;
    while i < src.descriptors.len()
        invariant
            i <= src.descriptors@.len(),
            descriptors@.len() == i,
            yolo == is_yolo(src.profile),
            yolo ==> yolo_split@ == first,
            forall|j: int|
                0 <= j < i ==> sealed_descriptor(
                    src.descriptors@[j],
                    if yolo {
                        first
                    } else {
                        text::trim(src.descriptors@[j].split@)
                    },
                    #[trigger] descriptors@[j],
                ),
        decreases src.descriptors.len() - i,
    {
        let d = &src.descriptors[i];
        let split = if yolo {
            yolo_split.clone()
        } else {
            text::trimmed(d.split.as_str())
        };
        descriptors.push(ImportDescriptorSelection {
            descriptor_file_id: text::trimmed(d.descriptor_file_id.as_str()),
            kind: d.kind,
            release: text::trimmed(d.release.as_str()),
            split,
            image_root_file_id: optional_trimmed(d.image_root_file_id.as_str()),
            pairing_group: optional_trimmed(d.pairing_group.as_str()),
        });
        i += 1;
    }
    ImportSourceConfiguration {
        source_namespace: text::trimmed(src.source_namespace.as_str()),
        descriptors,
        selected_splits,
        selected_category_keys: Vec::new(),
    }
}

impl ImportFlowState {
    /// What the user attests about the source: the ground-truth and
    /// exhaustive flags, the coverage scope's comma-separated entries and
    /// the trimmed provenance.
    pub fn import_attestations(&self) -> (a: ImportAttestations)
        ensures
            a.ground_truth == self.ground_truth,
            a.exhaustive == self.mapping.exhaustive,
            ids::views(a.coverage_scope@) == ids::csv_entries(self.coverage_scope@),
            a.provenance@ == text::trim(self.provenance@),
    {
        ImportAttestations {
            ground_truth: self.ground_truth,
            exhaustive: self.mapping.exhaustive,
            coverage_scope: ids::split_csv(self.coverage_scope.as_str()),
            provenance: text::trimmed(self.provenance.as_str()),
        }
    }

    /// The seal request for the source, or why the source cannot be sealed
    /// yet.
    pub fn seal_import_request(&self) -> (r: Result<SealImportRequest, String>)
        ensures
            match r {
                Err(m) => source_error(self.source) == Some(m@),
                Ok(body) => {
                    &&& source_error(self.source) is None
                    &&& sealed_source(self.source, body.source)
                    &&& body.attestations.ground_truth == self.ground_truth
                    &&& body.attestations.exhaustive == self.mapping.exhaustive
                    &&& ids::views(body.attestations.coverage_scope@) == ids::csv_entries(self.coverage_scope@)
                    &&& body.attestations.provenance@ == text::trim(self.provenance@)
                },
            },
    {
        if let Some(error) = import_descriptor_error(&self.source) {
            return Err(error);
        }
        Ok(SealImportRequest { source: sealed_configuration(&self.source), attestations: self.import_attestations() })
    }
}

/// Where a new import reads its source from.
#[derive(Debug)]
pub enum ImportSourceSelection {
    BrowserFolder,
    ServerDirectory { import_root_id: String, relative_path: String },
}

/// The body of a request that creates an import.
#[derive(Debug)]
pub struct CreateImportRequest {
    pub destination_dataset_id: String,
    pub destination_name: String,
    pub profile: ImportProfile,
    pub source: ImportSourceSelection,
    pub attestations: ImportAttestations,
}

/// The server advertises the profile, enabled.
pub open spec fn profile_offered(caps: ImportCapabilities, p: ImportProfile) -> bool {
    exists|i: int| 0 <= i < caps.profiles@.len() && (#[trigger] caps.profiles@[i]).enabled && caps.profiles@[i].profile == p
}

/// The server advertises the transport, enabled.
pub open spec fn transport_offered(caps: ImportCapabilities, t: ImportTransport) -> bool {
    exists|i: int|
        0 <= i < caps.transports@.len() && (#[trigger] caps.transports@[i]).enabled && caps.transports@[i].transport == t
}

fn offers_profile(caps: &ImportCapabilities, p: ImportProfile) -> (r: bool)
    ensures
        r == profile_offered(*caps, p),
{
    let mut i: usize = 0;
    while i < caps.profiles.len()
        invariant
            i <= caps.profiles@.len(),
            forall|j: int| 0 <= j < i ==> !((#[trigger] caps.profiles@[j]).enabled && caps.profiles@[j].profile == p),
        decreases caps.profiles.len() - i,
    {
        if caps.profiles[i].enabled && caps.profiles[i].profile == p {
            return true;
        }
        i += 1;
    }
    false
}

fn offers_transport(caps: &ImportCapabilities, t: ImportTransport) -> (r: bool)
    ensures
        r == transport_offered(*caps, t),
{
    let mut i: usize = 0;
    while i < caps.transports.len()
        invariant
            i <= caps.transports@.len(),
            forall|j: int| 0 <= j < i ==> !((#[trigger] caps.transports@[j]).enabled && caps.transports@[j].transport == t),
        decreases caps.transports.len() - i,
    {
        if caps.transports[i].enabled && caps.transports[i].transport == t {
            return true;
        }
        i += 1;
    }
    false
}

impl ImportFlowState {
    /// The request that creates the import: refused when the server does
    /// not advertise the chosen profile and transport; nothing for an
    /// unknown transport; else the trimmed destination, the profile, the
    /// source (a browser folder, or the chosen server root with the trimmed
    /// relative path) and the attestations.
    pub fn create_import_request(&self, caps: &ImportCapabilities) -> (r: Result<Option<CreateImportRequest>, String>)
        ensures
            match r {
                Err(m) => {
                    &&& !(profile_offered(*caps, self.source.profile) && transport_offered(*caps, self.source.transport))
                    &&& m@ == "The selected profile or transport is not advertised by the server."@
                },
                Ok(None) => {
                    &&& profile_offered(*caps, self.source.profile) && transport_offered(*caps, self.source.transport)
                    &&& self.source.transport == ImportTransport::Unknown
                },
                Ok(Some(body)) => {
                    &&& profile_offered(*caps, self.source.profile) && transport_offered(*caps, self.source.transport)
                    &&& body.destination_dataset_id@ == text::trim(self.destination_id@)
                    &&& body.destination_name@ == text::trim(self.destination_name@)
                    &&& body.profile == self.source.profile
                    &&& match body.source {
                        ImportSourceSelection::BrowserFolder => self.source.transport == ImportTransport::BrowserFolder,
                        ImportSourceSelection::ServerDirectory { import_root_id, relative_path } => {
                            &&& self.source.transport == ImportTransport::ServerDirectory
                            &&& import_root_id@ == self.source.server_root_id@
                            &&& relative_path@ == text::trim(self.server_relative_path@)
                        },
                    }
                    &&& body.attestations.ground_truth == self.ground_truth
                    &&& body.attestations.exhaustive == self.mapping.exhaustive
                    &&& ids::views(body.attestations.coverage_scope@) == ids::csv_entries(self.coverage_scope@)
                    &&& body.attestations.provenance@ == text::trim(self.provenance@)
                },
            },
    {
        if !offers_profile(caps, self.source.profile) || !offers_transport(caps, self.source.transport) {
            return Err(text::to_string("The selected profile or transport is not advertised by the server."));
        }
        let source = match self.source.transport {
            ImportTransport::BrowserFolder => ImportSourceSelection::BrowserFolder,
            ImportTransport::ServerDirectory => ImportSourceSelection::ServerDirectory {
                import_root_id: self.source.server_root_id.clone(),
                relative_path: text::trimmed(self.server_relative_path.as_str()),
            },
            ImportTransport::Unknown => return Ok(None),
        };
        Ok(
            Some(
                CreateImportRequest {
                    destination_dataset_id: text::trimmed(self.destination_id.as_str()),
                    destination_name: text::trimmed(self.destination_name.as_str()),
                    profile: self.source.profile,
                    source,
                    attestations: self.import_attestations(),
                },
            ),
        )
    }
}

/// A file picked in the browser, with its size and BLAKE3 digest.
#[derive(Debug)]
pub struct SelectedImportFile {
    pub client_file_id: String,
    pub relative_path: String,
    pub byte_size: u64,
    pub blake3: String,
}

/// A chosen browser file, ready to register: ID `browser-<index>`, its
/// path and size, and the digest of the bytes `hasher` read from it.
pub fn selected_browser_file(index: usize, relative_path: String, byte_size: u64, hasher: &FileHasher) -> (f: SelectedImportFile)
    ensures
        f.client_file_id@ == "browser-"@ + text::decimal(index as nat),
        f.relative_path == relative_path,
        f.byte_size == byte_size,
        f.blake3@ == blake3_hex(hasher.fed()),
{
    SelectedImportFile {
        client_file_id: text::with_number("browser-", index as u64),
        relative_path,
        byte_size,
        blake3: hasher.finish(),
    }
}

/// A file announced to the server before it is uploaded.
#[derive(Debug)]
pub struct ImportFileRegistration {
    pub client_file_id: String,
    pub relative_path: String,
    pub byte_size: u64,
    pub blake3: Option<String>,
}

/// The total size of the picked files.
pub open spec fn total_size(files: Seq<SelectedImportFile>) -> nat
    decreases files.len(),
{
    if files.len() == 0 {
        0
    } else {
        total_size(files.drop_last()) + files.last().byte_size as nat
    }
}

/// The picked files fit the advertised limits: at least one file, no more
/// files or bytes than allowed, and no file larger than allowed.
pub open spec fn within_browser_limits(files: Seq<SelectedImportFile>, limits: ImportLimits) -> bool {
    &&& files.len() > 0
    &&& files.len() <= limits.max_browser_files
    &&& total_size(files) <= limits.max_browser_bytes
    &&& forall|i: int| 0 <= i < files.len() ==> (#[trigger] files[i]).byte_size <= limits.max_single_file_bytes
}

/// The registrations for picked files and the paths the flow shows for
/// them until the server assigns file ids; refused, with the reason, when
/// the files do not fit the advertised limits.
pub fn register_selected_files(files: &Vec<SelectedImportFile>, limits: &ImportLimits) -> (r: Result<
    (Vec<ImportFileRegistration>, Vec<RegisteredImportPath>),
    String,
>)
    requires
        total_size(files@) <= u64::MAX,
    ensures
        match r {
            Err(m) => !within_browser_limits(files@, *limits) && m@
                == "Selected folder is empty or exceeds the advertised browser import limits."@,
            Ok((registrations, paths)) => {
                &&& within_browser_limits(files@, *limits)
                &&& registrations@.len() == files@.len()
                &&& paths@.len() == files@.len()
                &&& forall|i: int|
                    0 <= i < files@.len() ==> {
                        let f = files@[i];
                        let g = #[trigger] registrations@[i];
                        &&& g.client_file_id@ == f.client_file_id@
                        &&& g.relative_path@ == f.relative_path@
                        &&& g.byte_size == f.byte_size
                        &&& g.blake3 matches Some(d) && d@ == f.blake3@
                    }
                &&& forall|i: int|
                    0 <= i < files@.len() ==> {
                        let f = files@[i];
                        let p = #[trigger] paths@[i];
                        &&& p.client_file_id@ == f.client_file_id@
                        &&& p.file_id@ == Seq::<char>::empty()
                        &&& p.relative_path@ == f.relative_path@
                    }
            },
        },
{
    let mut total: u64 = 0;
    let mut oversized = false;
    let mut i: usize = 0;
    while i < files.len()
        invariant
            i <= files@.len(),
            total_size(files@) <= u64::MAX,
            total as nat == total_size(files@.subrange(0, i as int)),
            oversized == exists|j: int| 0 <= j < i && (#[trigger] files@[j]).byte_size > limits.max_single_file_bytes,
        decreases files.len() - i,
    {
        proof {
            lemma_total_size_prefix(files@, i as int + 1);
        }
        assert(files@.subrange(0, i + 1).drop_last() =~= files@.subrange(0, i as int));
        total = total + files[i].byte_size;
        if files[i].byte_size > limits.max_single_file_bytes {
            oversized = true;
        }
        i += 1;
    }
    assert(files@.subrange(0, files@.len() as int) =~= files@);
    if files.len() == 0 || files.len() as u64 > limits.max_browser_files || total > limits.max_browser_bytes || oversized {
        return Err(text::to_string("Selected folder is empty or exceeds the advertised browser import limits."));
    }
    let mut registrations: Vec<ImportFileRegistration> = Vec::new();
    let mut paths: Vec<RegisteredImportPath> = Vec::new();
    let mut k: usize = 0;
    while k < files.len()
        invariant
            k <= files@.len(),
            registrations@.len() == k,
            paths@.len() == k,
            forall|i: int|
                0 <= i < k ==> {
                    let f = files@[i];
                    let g = #[trigger] registrations@[i];
                    &&& g.client_file_id@ == f.client_file_id@
                    &&& g.relative_path@ == f.relative_path@
                    &&& g.byte_size == f.byte_size
                    &&& g.blake3 matches Some(d) && d@ == f.blake3@
                },
            forall|i: int|
                0 <= i < k ==> {
                    let f = files@[i];
                    let p = #[trigger] paths@[i];
                    &&& p.client_file_id@ == f.client_file_id@
                    &&& p.file_id@ == Seq::<char>::empty()
                    &&& p.relative_path@ == f.relative_path@
                },
        decreases files.len() - k,
    {
        let f = &files[k];
        registrations.push(ImportFileRegistration {
            client_file_id: f.client_file_id.clone(),
            relative_path: f.relative_path.clone(),
            byte_size: f.byte_size,
            blake3: Some(f.blake3.clone()),
        });
        paths.push(RegisteredImportPath {
            client_file_id: f.client_file_id.clone(),
            file_id: String::new(),
            relative_path: f.relative_path.clone(),
        });
        k += 1;
    }
    Ok((registrations, paths))
}

/// A prefix of the files is no larger than all of them.
proof fn lemma_total_size_prefix(files: Seq<SelectedImportFile>, n: int)
    requires
        0 <= n <= files.len(),
    ensures
        total_size(files.subrange(0, n)) <= total_size(files),
    decreases files.len() - n,
{
    if n < files.len() {
        lemma_total_size_prefix(files, n + 1);
        assert(files.subrange(0, n + 1).drop_last() =~= files.subrange(0, n));
    } else {
        assert(files.subrange(0, n) =~= files);
    }
}

} // verus!
