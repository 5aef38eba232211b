//! Verified core logic of the Labello annotation client.
use vstd::prelude::*;

pub mod actions;
pub mod canvas_modes;
pub mod diagnostics;
pub mod editing;
pub mod ids;
pub mod import_bookkeeping;
pub mod import_model;
pub mod import_progress;
pub mod import_requests;
pub mod import_support;
pub mod import_upload;
pub mod mapping;
pub mod mapping_check;
pub mod mapping_draft;
pub mod mapping_editor;
pub mod model;
pub mod people;
pub mod plan_currency;
pub mod plan_request;
pub mod recovery;
pub mod role_staging;
pub mod schema;
pub mod source_edits;
pub mod source_picker;
pub mod stage_progress;
pub mod text;
pub mod upload;
pub mod validation;
pub mod work_session;
pub mod workspace;

verus! {
}
