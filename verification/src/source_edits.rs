//! Edits of the import source on the transport step: what a pick in the
//! server source picker does, the YOLO descriptor inspection, and the
//! descriptor list.
use vstd::prelude::*;
use crate::import_model::ImportProfile;
use crate::import_support::{
    descriptor_draft, is_coco_profile, profile_descriptor_kind, ImportDescriptorDraft, ImportSourceDraft,
    RegisteredImportPath,
};
use crate::source_picker::ImportSourcePickerTarget;
use crate::text;

verus! {

/// A COCO profile, whose descriptors each name their own image root.
pub open spec fn coco_profile(p: ImportProfile) -> bool {
    p == ImportProfile::CocoInstancesGtV1 || p == ImportProfile::CocoKeypointsGtV1
}

/// What the annotator chose in the server source picker.
#[derive(Debug)]
pub enum SourcePick {
    /// The folder being listed, as the dataset folder.
    ListedFolder,
    /// A folder of the listing, by its path, as the dataset folder.
    Folder(String),
    /// A file of the listing: its server file ID, when it has one, and its
    /// path.
    File { file_id: Option<String>, relative_path: String },
}

/// What follows a pick.
#[derive(Clone, Copy, Debug, PartialEq, Eq, Structural)]
pub enum PickFollowUp {
    /// The pick did nothing and the picker stays open.
    KeepOpen,
    /// The picker closes and resets.
    Close,
    /// The picker closes and resets, and the YOLO descriptor is inspected
    /// anew.
    CloseAndInspect,
}

/// A registered path as plain values: client file ID, server file ID and
/// relative path.
pub open spec fn path_views(s: Seq<RegisteredImportPath>) -> Seq<(Seq<char>, Seq<char>, Seq<char>)> {
    s.map_values(|p: RegisteredImportPath| (p.client_file_id@, p.file_id@, p.relative_path@))
}

/// The first registered path with server file ID `id`.
pub open spec fn first_path_with_file(s: Seq<RegisteredImportPath>, id: Seq<char>) -> Option<int>
    decreases s.len(),
{
    if s.len() == 0 {
        None
    } else {
        match first_path_with_file(s.drop_last(), id) {
            Some(i) => Some(i),
            None => if s.last().file_id@ == id {
                Some(s.len() - 1)
            } else {
                None
            },
        }
    }
}

/// The registered paths after file `id` at `path` was picked: it replaces
/// the first path with that file ID, or is added after the others.
pub open spec fn paths_after_pick(
    before: Seq<(Seq<char>, Seq<char>, Seq<char>)>,
    first: Option<int>,
    id: Seq<char>,
    path: Seq<char>,
) -> Seq<(Seq<char>, Seq<char>, Seq<char>)> {
    match first {
        Some(i) => before.update(i, (Seq::empty(), id, path)),
        None => before.push((Seq::empty(), id, path)),
    }
}

/// `after` is `before` with no YOLO inspection: no splits, nothing loading,
/// no error, no descriptor inspected; everything else unchanged.
pub open spec fn inspection_cleared(before: ImportSourceDraft, after: ImportSourceDraft) -> bool {
    &&& after.yolo_splits@.len() == 0
    &&& !after.yolo_inspection_loading
    &&& after.yolo_inspection_error is None
    &&& after.yolo_inspected_descriptor_file_id is None
    &&& after == (ImportSourceDraft {
        yolo_splits: after.yolo_splits,
        yolo_inspection_loading: false,
        yolo_inspection_error: None,
        yolo_inspected_descriptor_file_id: None,
        ..before
    })
}

/// Drops the YOLO inspection.
pub fn invalidate_yolo_inspection(source: &mut ImportSourceDraft)
    ensures
        inspection_cleared(*old(source), *final(source)),
{
    source.yolo_splits = Vec::new();
    source.yolo_inspection_loading = false;
    source.yolo_inspection_error = None;
    source.yolo_inspected_descriptor_file_id = None;
}

fn first_path_index(paths: &Vec<RegisteredImportPath>, id: &str) -> (r: Option<usize>)
    ensures
        match r {
            Some(i) => first_path_with_file(paths@, id@) == Some(i as int) && i < paths@.len(),
            None => first_path_with_file(paths@, id@) is None,
        },
{
    let mut i: usize = 0;
    while i < paths.len()
        invariant
            i <= paths@.len(),
            first_path_with_file(paths@.subrange(0, i as int), id@) is None,
        decreases paths.len() - i,
    {
        assert(paths@.subrange(0, i + 1).drop_last() =~= paths@.subrange(0, i as int));
        if text::str_eq(paths[i].file_id.as_str(), id) {
            proof {
                lemma_first_path_prefix(paths@, id@, i + 1);
            }
            return Some(i);
        }
        i += 1;
    }
    assert(paths@.subrange(0, paths@.len() as int) =~= paths@);
    None
}

proof fn lemma_first_path_prefix(s: Seq<RegisteredImportPath>, id: Seq<char>, n: int)
    requires
        0 <= n <= s.len(),
        first_path_with_file(s.subrange(0, n), id) is Some,
    ensures
        first_path_with_file(s, id) == first_path_with_file(s.subrange(0, n), id),
    decreases s.len() - n,
{
    if n < s.len() {
        assert(s.subrange(0, n + 1).drop_last() =~= s.subrange(0, n));
        lemma_first_path_prefix(s, id, n + 1);
    } else {
        assert(s.subrange(0, n) =~= s);
    }
}

proof fn lemma_first_path_bounds(s: Seq<RegisteredImportPath>, id: Seq<char>)
    ensures
        first_path_with_file(s, id) matches Some(i) ==> 0 <= i < s.len(),
    decreases s.len(),
{
    if s.len() > 0 {
        lemma_first_path_bounds(s.drop_last(), id);
    }
}

/// What a pick in the source picker does to the source. The listed folder
/// (`.` for the top) or a listed folder becomes the server directory. A
/// file without a server file ID does nothing. A file with one is
/// registered under its path (replacing the first registration of the same
/// file ID, or added last) and becomes the descriptor file or the COCO
/// image root of the descriptor the picker was opened for; picking a YOLO
/// descriptor drops its inspection and asks for a new one.
pub fn apply_source_pick(
    source: &mut ImportSourceDraft,
    server_relative_path: &mut String,
    target: ImportSourcePickerTarget,
    listed_folder: &str,
    pick: SourcePick,
) -> (follow_up: PickFollowUp)
    ensures
        match pick {
            SourcePick::ListedFolder => {
                &&& follow_up == PickFollowUp::Close
                &&& final(server_relative_path)@ == if listed_folder@.len() == 0 {
                    "."@
                } else {
                    listed_folder@
                }
                &&& *final(source) == *old(source)
            },
            SourcePick::Folder(p) => {
                &&& follow_up == PickFollowUp::Close
                &&& final(server_relative_path)@ == p@
                &&& *final(source) == *old(source)
            },
            SourcePick::File { file_id: None, .. } => {
                &&& follow_up == PickFollowUp::KeepOpen
                &&& final(server_relative_path)@ == old(server_relative_path)@
                &&& *final(source) == *old(source)
            },
            SourcePick::File { file_id: Some(id), relative_path } => {
                let yolo_descriptor = target is Descriptor && !coco_profile(old(source).profile);
                let n = old(source).descriptors@.len();
                &&& final(server_relative_path)@ == old(server_relative_path)@
                &&& follow_up == if yolo_descriptor {
                    PickFollowUp::CloseAndInspect
                } else {
                    PickFollowUp::Close
                }
                &&& path_views(final(source).registered_paths@) == paths_after_pick(
                    path_views(old(source).registered_paths@),
                    first_path_with_file(old(source).registered_paths@, id@),
                    id@,
                    relative_path@,
                )
                &&& final(source).descriptors@.len() == n
                &&& forall|k: int|
                    0 <= k < n && !(target == ImportSourcePickerTarget::Descriptor(k as usize)
                        || target == ImportSourcePickerTarget::CocoImageRoot(k as usize)) ==> #[trigger] final(source).descriptors@[k]
                        == old(source).descriptors@[k]
                &&& match target {
                    ImportSourcePickerTarget::Descriptor(k) => k < n ==> {
                        &&& final(source).descriptors@[k as int].descriptor_file_id@ == id@
                        &&& final(source).descriptors@[k as int] == (ImportDescriptorDraft {
                            descriptor_file_id: final(source).descriptors@[k as int].descriptor_file_id,
                            ..old(source).descriptors@[k as int]
                        })
                    },
                    ImportSourcePickerTarget::CocoImageRoot(k) => k < n ==> {
                        &&& final(source).descriptors@[k as int].image_root_file_id@ == id@
                        &&& final(source).descriptors@[k as int] == (ImportDescriptorDraft {
                            image_root_file_id: final(source).descriptors@[k as int].image_root_file_id,
                            ..old(source).descriptors@[k as int]
                        })
                    },
                    ImportSourcePickerTarget::DatasetFolder => true,
                }
                &&& yolo_descriptor ==> final(source).yolo_splits@.len() == 0 && !final(source).yolo_inspection_loading
                    && final(source).yolo_inspection_error is None && final(source).yolo_inspected_descriptor_file_id is None
                &&& !yolo_descriptor ==> final(source).yolo_splits == old(source).yolo_splits
                    && final(source).yolo_inspection_loading == old(source).yolo_inspection_loading
                    && final(source).yolo_inspection_error == old(source).yolo_inspection_error
                    && final(source).yolo_inspected_descriptor_file_id == old(source).yolo_inspected_descriptor_file_id
                &&& final(source).profile == old(source).profile
                &&& final(source).transport == old(source).transport
                &&& final(source).server_root_id == old(source).server_root_id
                &&& final(source).source_namespace == old(source).source_namespace
            },
        },
{
    match pick {
        SourcePick::ListedFolder => {
            proof {
                reveal_strlit(".");
            }
            let listed = text::chars_of(listed_folder);
            *server_relative_path = if listed.len() == 0 {
                text::to_string(".")
            } else {
                text::to_string(listed_folder)
            };
            PickFollowUp::Close
        },
        SourcePick::Folder(p) => {
            *server_relative_path = p;
            PickFollowUp::Close
        },
        SourcePick::File { file_id, relative_path } => {
            let id = match file_id {
                Some(id) => id,
                None => return PickFollowUp::KeepOpen,
            };
            let ghost before = path_views(source.registered_paths@);
            let entry = RegisteredImportPath {
                client_file_id: String::new(),
                file_id: id.clone(),
                relative_path,
            };
            let ghost entry_view = (Seq::<char>::empty(), id@, entry.relative_path@);
            proof {
                lemma_first_path_bounds(source.registered_paths@, id@);
            }
            match first_path_index(&source.registered_paths, id.as_str()) {
                Some(i) => {
                    source.registered_paths.set(i, entry);
                    assert(path_views(source.registered_paths@) =~= before.update(i as int, entry_view));
                },
                None => {
                    source.registered_paths.push(entry);
                    assert(path_views(source.registered_paths@) =~= before.push(entry_view));
                },
            }
            match target {
                ImportSourcePickerTarget::DatasetFolder => PickFollowUp::Close,
                ImportSourcePickerTarget::Descriptor(k) => {
                    if k < source.descriptors.len() {
                        source.descriptors[k].descriptor_file_id = id;
                    }
                    if !is_coco_profile(source.profile) {
                        invalidate_yolo_inspection(source);
                        PickFollowUp::CloseAndInspect
                    } else {
                        PickFollowUp::Close
                    }
                },
                ImportSourcePickerTarget::CocoImageRoot(k) => {
                    if k < source.descriptors.len() {
                        source.descriptors[k].image_root_file_id = id;
                    }
                    PickFollowUp::Close
                },
            }
        },
    }
}

/// Starts inspecting the YOLO descriptor for the import `import_id`: not
/// without an import, without a descriptor file chosen (after trimming), or
/// while an inspection runs. Otherwise the old inspection is dropped, the
/// new one is loading, and the trimmed descriptor file ID to inspect is
/// returned.
pub fn start_yolo_inspection(source: &mut ImportSourceDraft, import_id: Option<&str>) -> (r: Option<String>)
    ensures
        ({
            let ready = import_id is Some && old(source).descriptors@.len() > 0 && text::trim(
                old(source).descriptors@[0].descriptor_file_id@,
            ).len() > 0 && !old(source).yolo_inspection_loading;
            &&& !ready ==> r is None && *final(source) == *old(source)
            &&& ready ==> {
                &&& r matches Some(d) && d@ == text::trim(old(source).descriptors@[0].descriptor_file_id@)
                &&& final(source).yolo_inspection_loading
                &&& final(source).yolo_splits@.len() == 0
                &&& final(source).yolo_inspection_error is None
                &&& final(source).yolo_inspected_descriptor_file_id is None
                &&& *final(source) == (ImportSourceDraft {
                    yolo_splits: final(source).yolo_splits,
                    yolo_inspection_loading: true,
                    yolo_inspection_error: None,
                    yolo_inspected_descriptor_file_id: None,
                    ..*old(source)
                })
            }
        }),
{
    if import_id.is_none() || source.descriptors.len() == 0 {
        return None;
    }
    proof {
        text::lemma_trim_empty(source.descriptors@[0].descriptor_file_id@);
    }
    if text::is_blank(source.descriptors[0].descriptor_file_id.as_str()) || source.yolo_inspection_loading {
        return None;
    }
    let descriptor = text::trimmed(source.descriptors[0].descriptor_file_id.as_str());
    invalidate_yolo_inspection(source);
    source.yolo_inspection_loading = true;
    Some(descriptor)
}

/// The YOLO inspection controls of the transport step.
#[derive(Debug)]
pub struct YoloInspectControls {
    pub label: &'static str,
    pub enabled: bool,
    /// Say that an inspection is in progress.
    pub in_progress: bool,
    /// Invite an inspection to discover the splits.
    pub invite: bool,
}

/// A descriptor file is chosen for the YOLO descriptor.
pub open spec fn descriptor_chosen(source: ImportSourceDraft) -> bool {
    source.descriptors@.len() > 0 && text::trim(source.descriptors@[0].descriptor_file_id@).len() > 0
}

/// The inspection button and notes: retry after an error, refresh after an
/// inspection, else inspect; usable with a descriptor chosen and nothing
/// loading; an invitation while nothing was inspected or failed.
pub fn yolo_inspect_controls(source: &ImportSourceDraft) -> (r: YoloInspectControls)
    ensures
        r.label@ == if source.yolo_inspection_error is Some {
            "Retry split inspection"@
        } else if source.yolo_inspected_descriptor_file_id is Some {
            "Refresh splits"@
        } else {
            "Inspect YAML splits"@
        },
        r.enabled == (descriptor_chosen(*source) && !source.yolo_inspection_loading),
        r.in_progress == source.yolo_inspection_loading,
        r.invite == (descriptor_chosen(*source) && !source.yolo_inspection_loading && source.yolo_splits@.len() == 0
            && source.yolo_inspection_error is None),
{
    let chosen = if source.descriptors.len() > 0 {
        !text::is_blank(source.descriptors[0].descriptor_file_id.as_str())
    } else {
        false
    };
    proof {
        if source.descriptors@.len() > 0 {
            text::lemma_trim_empty(source.descriptors@[0].descriptor_file_id@);
        }
    }
    let label = if source.yolo_inspection_error.is_some() {
        "Retry split inspection"
    } else if source.yolo_inspected_descriptor_file_id.is_some() {
        "Refresh splits"
    } else {
        "Inspect YAML splits"
    };
    YoloInspectControls {
        label,
        enabled: chosen && !source.yolo_inspection_loading,
        in_progress: source.yolo_inspection_loading,
        invite: chosen && !source.yolo_inspection_loading && source.yolo_splits.len() == 0
            && source.yolo_inspection_error.is_none(),
    }
}

/// A fresh descriptor of a profile, as `descriptor_draft` makes it.
pub open spec fn fresh_descriptor(d: ImportDescriptorDraft, profile: ImportProfile) -> bool {
    &&& d.descriptor_file_id@ == Seq::<char>::empty()
    &&& d.kind == profile_descriptor_kind(profile)
    &&& d.release@ == "default"@
    &&& d.split@ == "train"@
    &&& d.image_root_file_id@ == Seq::<char>::empty()
    &&& d.pairing_group@ == Seq::<char>::empty()
}

/// A YOLO import has exactly one descriptor: any other count is replaced
/// by one fresh descriptor, and the inspection is dropped. A COCO import is
/// left alone.
pub fn keep_single_descriptor(source: &mut ImportSourceDraft)
    ensures
        (coco_profile(old(source).profile) || old(source).descriptors@.len() == 1) ==> *final(source) == *old(source),
        !(coco_profile(old(source).profile) || old(source).descriptors@.len() == 1) ==> {
            &&& final(source).descriptors@.len() == 1
            &&& fresh_descriptor(final(source).descriptors@[0], old(source).profile)
            &&& inspection_cleared(
                ImportSourceDraft { descriptors: final(source).descriptors, ..*old(source) },
                *final(source),
            )
        },
{
    if is_coco_profile(source.profile) || source.descriptors.len() == 1 {
        return ;
    }
    let mut one: Vec<ImportDescriptorDraft> = Vec::new();
    one.push(descriptor_draft(source.profile));
    source.descriptors = one;
    invalidate_yolo_inspection(source);
}

/// Adds a fresh descriptor of the source's profile.
pub fn add_coco_descriptor(source: &mut ImportSourceDraft)
    ensures
        final(source).descriptors@.len() == old(source).descriptors@.len() + 1,
        final(source).descriptors@.drop_last() == old(source).descriptors@,
        fresh_descriptor(final(source).descriptors@.last(), old(source).profile),
        *final(source) == (ImportSourceDraft { descriptors: final(source).descriptors, ..*old(source) }),
{
    let d = descriptor_draft(source.profile);
    source.descriptors.push(d);
}

/// Removes descriptor `index` when more than one is left; reports whether
/// it did (the source picker then resets).
pub fn remove_coco_descriptor(source: &mut ImportSourceDraft, index: usize) -> (removed: bool)
    ensures
        removed == (index < old(source).descriptors@.len() && old(source).descriptors@.len() > 1),
        removed ==> final(source).descriptors@ == old(source).descriptors@.remove(index as int),
        !removed ==> final(source).descriptors@ == old(source).descriptors@,
        *final(source) == (ImportSourceDraft { descriptors: final(source).descriptors, ..*old(source) }),
{
    if index < source.descriptors.len() && source.descriptors.len() > 1 {
        source.descriptors.remove(index);
        true
    } else {
        false
    }
}

} // verus!
