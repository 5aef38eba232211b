//! The server-side file picker of the import source steps: which folder it
//! lists and the browse request it sends.
use vstd::prelude::*;
use crate::text;

verus! {

/// What the picker chooses: the dataset folder on a server root, or a
/// descriptor file or COCO image root of the descriptor at an index.
#[derive(Clone, Copy, Debug, PartialEq, Eq, Structural)]
pub enum ImportSourcePickerTarget {
    DatasetFolder,
    Descriptor(usize),
    CocoImageRoot(usize),
}

/// The picker's state: what it chooses, the folder it lists, and the
/// browse request in flight.
#[derive(Debug)]
pub struct ImportSourcePickerState {
    pub target: Option<ImportSourcePickerTarget>,
    pub relative_path: String,
    pub loading: bool,
    pub error: Option<String>,
    pub pending_request_id: Option<u64>,
    pub pending_append: bool,
}

/// What an import source listing shows.
#[derive(Clone, Copy, Debug, PartialEq, Eq, Structural)]
pub enum ImportSourceBrowseMode {
    Descriptors,
    Images,
}

/// The browse request the picker sends, if any.
#[derive(Debug)]
pub enum BrowseCommand {
    Nothing,
    /// List a folder of a server import root.
    ServerRoot { root_id: String, relative_path: String, offset: u32 },
    /// List the files of the import's source.
    ImportSource { import_id: String, relative_path: String, offset: u32, mode: ImportSourceBrowseMode },
}

/// The error the picker shows when no server root is chosen.
pub open spec fn missing_root_message() -> Seq<char> {
    "Choose a server import root first."@
}

/// Asks for a page of a folder's listing for the picker's target: nothing
/// without a target or while a page is loading; otherwise the picker starts
/// loading (at `offset` 0 it moves to the folder) and lists the chosen
/// server root, or the import's source; without a root it shows why, and
/// without an import it stops loading.
pub fn request_source_browse(
    picker: &mut ImportSourcePickerState,
    server_root_id: &str,
    import_id: Option<&str>,
    relative_path: String,
    offset: u32,
    request_id: u64,
) -> (r: BrowseCommand)
    ensures
        (old(picker).target is None || old(picker).loading) ==> r is Nothing && *final(picker) == *old(picker),
        !(old(picker).target is None || old(picker).loading) ==> {
            &&& final(picker).target == old(picker).target
            &&& final(picker).pending_request_id == Some(request_id)
            &&& final(picker).pending_append == (offset > 0)
            &&& final(picker).relative_path@ == if offset == 0 {
                relative_path@
            } else {
                old(picker).relative_path@
            }
            &&& match old(picker).target->0 {
                ImportSourcePickerTarget::DatasetFolder => if server_root_id@.len() == 0 {
                    &&& r is Nothing
                    &&& !final(picker).loading
                    &&& final(picker).error matches Some(m) && m@ == missing_root_message()
                } else {
                    &&& r matches BrowseCommand::ServerRoot { root_id, relative_path: p, offset: o } && root_id@
                        == server_root_id@ && p@ == relative_path@ && o == offset
                    &&& final(picker).loading
                    &&& final(picker).error is None
                },
                _ => match import_id {
                    None => r is Nothing && !final(picker).loading && final(picker).error is None,
                    Some(id) => {
                        &&& r matches BrowseCommand::ImportSource { import_id: i, relative_path: p, offset: o, mode } && i@
                            == id@ && p@ == relative_path@ && o == offset && mode == if old(picker).target->0 is Descriptor {
                            ImportSourceBrowseMode::Descriptors
                        } else {
                            ImportSourceBrowseMode::Images
                        }
                        &&& final(picker).loading
                        &&& final(picker).error is None
                    },
                },
            }
        },
{
    let target = match picker.target {
        Some(t) => t,
        None => return BrowseCommand::Nothing,
    };
    if picker.loading {
        return BrowseCommand::Nothing;
    }
    picker.loading = true;
    picker.error = None;
    picker.pending_request_id = Some(request_id);
    picker.pending_append = offset > 0;
    if offset == 0 {
        picker.relative_path = relative_path.clone();
    }
    match target {
        ImportSourcePickerTarget::DatasetFolder => {
            if server_root_id.is_empty() {
                picker.loading = false;
                picker.error = Some(text::to_string("Choose a server import root first."));
                return BrowseCommand::Nothing;
            }
            BrowseCommand::ServerRoot { root_id: text::to_string(server_root_id), relative_path, offset }
        },
        ImportSourcePickerTarget::Descriptor(_) | ImportSourcePickerTarget::CocoImageRoot(_) => {
            let id = match import_id {
                Some(id) => id,
                None => {
                    picker.loading = false;
                    return BrowseCommand::Nothing;
                },
            };
            let mode = match target {
                ImportSourcePickerTarget::Descriptor(_) => ImportSourceBrowseMode::Descriptors,
                _ => ImportSourceBrowseMode::Images,
            };
            BrowseCommand::ImportSource { import_id: text::to_string(id), relative_path, offset, mode }
        },
    }
}

/// The folder the picker opens at: the dataset folder starts at the root's
/// top; a descriptor or image root starts in the chosen server folder,
/// where `.` and nothing both mean the top.
pub open spec fn initial_folder(target: ImportSourcePickerTarget, server_relative_path: Seq<char>) -> Seq<char> {
    match target {
        ImportSourcePickerTarget::DatasetFolder => Seq::empty(),
        _ => if server_relative_path == "."@ {
            Seq::empty()
        } else {
            server_relative_path
        },
    }
}

/// Opens the picker afresh for a target and asks for the first page of its
/// starting folder.
pub fn open_source_picker(
    target: ImportSourcePickerTarget,
    server_relative_path: &str,
    server_root_id: &str,
    import_id: Option<&str>,
    request_id: u64,
) -> (r: (ImportSourcePickerState, BrowseCommand))
    ensures
        r.0.target == Some(target),
        r.0.pending_request_id == Some(request_id),
        !r.0.pending_append,
        r.0.relative_path@ == initial_folder(target, server_relative_path@),
        match target {
            ImportSourcePickerTarget::DatasetFolder => if server_root_id@.len() == 0 {
                &&& r.1 is Nothing
                &&& !r.0.loading
                &&& r.0.error matches Some(m) && m@ == missing_root_message()
            } else {
                &&& r.1 matches BrowseCommand::ServerRoot { root_id, relative_path: p, offset } && root_id@
                    == server_root_id@ && p@ == Seq::<char>::empty() && offset == 0
                &&& r.0.loading
                &&& r.0.error is None
            },
            _ => match import_id {
                None => r.1 is Nothing && !r.0.loading && r.0.error is None,
                Some(id) => {
                    &&& r.1 matches BrowseCommand::ImportSource { import_id: i, relative_path: p, offset, mode } && i@
                        == id@ && p@ == initial_folder(target, server_relative_path@) && offset == 0 && mode == if target is Descriptor {
                        ImportSourceBrowseMode::Descriptors
                    } else {
                        ImportSourceBrowseMode::Images
                    }
                    &&& r.0.loading
                    &&& r.0.error is None
                },
            },
        },
{
    let mut picker = ImportSourcePickerState {
        target: Some(target),
        relative_path: String::new(),
        loading: false,
        error: None,
        pending_request_id: None,
        pending_append: false,
    };
    proof {
        reveal_strlit(".");
    }
    let initial = match target {
        ImportSourcePickerTarget::DatasetFolder => String::new(),
        _ => if text::str_eq(server_relative_path, ".") {
            String::new()
        } else {
            text::to_string(server_relative_path)
        },
    };
    let command = request_source_browse(&mut picker, server_root_id, import_id, initial, 0, request_id);
    (picker, command)
}

} // verus!
