//! The edits the mapping form makes to a category draft, and the summary
//! lines it shows above the categories.
use vstd::prelude::*;
use crate::diagnostics::{counted, counted_text};
use crate::import_model::{
    ImportCategoryDraft, ImportGeometryKind, ImportGeometryMappingRequest, ImportGeometryPolicy, ImportWorkflowIntent,
};
use crate::mapping::{
    category_severity_count, issues_at, severity_count, ImportGeometryChoice, ImportMappingField,
    ImportMappingIssueSeverity, ImportMappingValidation, IssueView,
};
use crate::mapping_check::{produces, produces_kind};
use crate::text;

verus! {

/// How the summary line above the mapping form is shown.
#[derive(Clone, Copy, Debug, PartialEq, Eq, Structural)]
pub enum MappingSummaryTone {
    Error,
    Warning,
    Success,
}

/// The summary of a validation: the errors that block saving, else the
/// warnings to review, else that every input is valid.
pub open spec fn summary_text(errors: nat, warnings: nat) -> (MappingSummaryTone, Seq<char>) {
    if errors > 0 {
        (
            MappingSummaryTone::Error,
            counted_text(errors, "mapping error"@)
                + " must be fixed before saving. Each affected input is explained below."@,
        )
    } else if warnings > 0 {
        (
            MappingSummaryTone::Warning,
            counted_text(warnings, "mapping warning"@) + ". Review the highlighted consequences before saving."@,
        )
    } else {
        (MappingSummaryTone::Success, "All mapping inputs are locally valid."@)
    }
}

/// The status a category's header shows.
pub open spec fn status_text(errors: nat, warnings: nat) -> Seq<char> {
    if errors > 0 {
        text::decimal(errors) + " errors"@
    } else if warnings > 0 {
        text::decimal(warnings) + " warnings"@
    } else {
        "Valid"@
    }
}

impl ImportMappingValidation {
    /// The summary line above the mapping form.
    pub fn summary(&self) -> (r: (MappingSummaryTone, String))
        ensures
            r.0 == summary_text(
                severity_count(self@, ImportMappingIssueSeverity::Error) as nat,
                severity_count(self@, ImportMappingIssueSeverity::Warning) as nat,
            ).0,
            r.1@ == summary_text(
                severity_count(self@, ImportMappingIssueSeverity::Error) as nat,
                severity_count(self@, ImportMappingIssueSeverity::Warning) as nat,
            ).1,
    {
        let errors = self.error_count();
        let warnings = self.warning_count();
        if errors > 0 {
            let mut m = counted(errors, "mapping error");
            text::push_str(&mut m, " must be fixed before saving. Each affected input is explained below.");
            (MappingSummaryTone::Error, m)
        } else if warnings > 0 {
            let mut m = counted(warnings, "mapping warning");
            text::push_str(&mut m, ". Review the highlighted consequences before saving.");
            (MappingSummaryTone::Warning, m)
        } else {
            (MappingSummaryTone::Success, text::to_string("All mapping inputs are locally valid."))
        }
    }

    /// The status a category's header shows.
    pub fn category_status(&self, category_index: usize) -> (r: String)
        ensures
            r@ == status_text(
                category_severity_count(self@, category_index, ImportMappingIssueSeverity::Error) as nat,
                category_severity_count(self@, category_index, ImportMappingIssueSeverity::Warning) as nat,
            ),
    {
        let (errors, warnings) = self.category_counts(category_index);
        if errors > 0 {
            let mut r = String::new();
            text::push_decimal(&mut r, errors as u64);
            text::push_str(&mut r, " errors");
            r
        } else if warnings > 0 {
            let mut r = String::new();
            text::push_decimal(&mut r, warnings as u64);
            text::push_str(&mut r, " warnings");
            r
        } else {
            text::to_string("Valid")
        }
    }
}

/// Switches a geometry mapping to another offered transformation: a
/// different source or policy replaces the mapping's and drops its
/// parameters; the same one leaves the mapping as it is.
pub fn choose_geometry(mapping: &mut ImportGeometryMappingRequest, choice: ImportGeometryChoice)
    ensures
        (choice.source == old(mapping).source_geometry && choice.policy == old(mapping).policy) ==> *final(mapping)
            == *old(mapping),
        !(choice.source == old(mapping).source_geometry && choice.policy == old(mapping).policy) ==> {
            &&& final(mapping).source_geometry == choice.source
            &&& final(mapping).policy == choice.policy
            &&& final(mapping).parameters@.len() == 0
            &&& final(mapping).source_category_key == old(mapping).source_category_key
            &&& final(mapping).target_geometry == old(mapping).target_geometry
        },
{
    if choice.source != mapping.source_geometry || choice.policy != mapping.policy {
        mapping.source_geometry = choice.source;
        mapping.policy = choice.policy;
        mapping.parameters = Vec::new();
    }
}

/// Some mapping of the category already targets skeletons.
pub open spec fn has_skeleton_output(c: ImportCategoryDraft) -> bool {
    exists|g: int|
        0 <= g < c.geometry_mappings@.len() && (#[trigger] c.geometry_mappings@[g]).target_geometry == ImportGeometryKind::Skeleton
}

/// A skeleton output can be added: the source provides boxes and no
/// mapping targets skeletons yet.
pub open spec fn can_add_skeleton_output(c: ImportCategoryDraft) -> bool {
    c.direct_geometry@.contains(ImportGeometryKind::BoundingBox) && !has_skeleton_output(c)
}

impl ImportCategoryDraft {
    /// Whether a skeleton output can be added.
    pub fn skeleton_output_addable(&self) -> (r: bool)
        ensures
            r == can_add_skeleton_output(*self),
    {
        let mut boxes = false;
        let mut i: usize = 0;
        while i < self.direct_geometry.len()
            invariant
                i <= self.direct_geometry@.len(),
                boxes == exists|j: int| 0 <= j < i && self.direct_geometry@[j] == ImportGeometryKind::BoundingBox,
            decreases self.direct_geometry.len() - i,
        {
            if self.direct_geometry[i] == ImportGeometryKind::BoundingBox {
                boxes = true;
            }
            i += 1;
        }
        if !boxes {
            return false;
        }
        let mut g: usize = 0;
        while g < self.geometry_mappings.len()
            invariant
                g <= self.geometry_mappings@.len(),
                forall|j: int|
                    0 <= j < g ==> (#[trigger] self.geometry_mappings@[j]).target_geometry != ImportGeometryKind::Skeleton,
            decreases self.geometry_mappings.len() - g,
        {
            if self.geometry_mappings[g].target_geometry == ImportGeometryKind::Skeleton {
                return false;
            }
            g += 1;
        }
        true
    }

    /// Adds a skeleton output built from the source boxes with the
    /// box-relative template, when one can be added.
    pub fn add_skeleton_output(&mut self)
        ensures
            !can_add_skeleton_output(*old(self)) ==> *final(self) == *old(self),
            can_add_skeleton_output(*old(self)) ==> {
                let m = final(self).geometry_mappings@.last();
                &&& final(self).geometry_mappings@.drop_last() == old(self).geometry_mappings@
                &&& m.source_category_key@ == old(self).source_category_key@
                &&& m.source_geometry == ImportGeometryKind::BoundingBox
                &&& m.target_geometry == ImportGeometryKind::Skeleton
                &&& m.policy == ImportGeometryPolicy::BoxRelativeTemplateV1
                &&& m.parameters@.len() == 0
                &&& *final(self) == (ImportCategoryDraft { geometry_mappings: final(self).geometry_mappings, ..*old(self) })
            },
    {
        if !self.skeleton_output_addable() {
            return;
        }
        let m = ImportGeometryMappingRequest {
            source_category_key: self.source_category_key.clone(),
            source_geometry: ImportGeometryKind::BoundingBox,
            target_geometry: ImportGeometryKind::Skeleton,
            policy: ImportGeometryPolicy::BoxRelativeTemplateV1,
            parameters: Vec::new(),
        };
        self.geometry_mappings.push(m);
        assert(self.geometry_mappings@.drop_last() =~= old(self).geometry_mappings@);
    }
}

/// The category turns boxes into skeletons with no source skeleton to
/// follow, so the target skeleton's keypoint names must be typed in.
pub open spec fn needs_target_keypoint_names(c: ImportCategoryDraft) -> bool {
    &&& c.source_skeleton is None
    &&& exists|g: int|
        0 <= g < c.geometry_mappings@.len() && (#[trigger] c.geometry_mappings@[g]).target_geometry
            == ImportGeometryKind::Skeleton && c.geometry_mappings@[g].source_geometry == ImportGeometryKind::BoundingBox
            && c.geometry_mappings@[g].policy != ImportGeometryPolicy::Omit
}

/// Some issue of category `index` sits at one of its workflow identity
/// inputs.
pub open spec fn identity_issue(issues: Seq<IssueView>, index: usize) -> bool {
    ||| issues_at(issues, Some(index), ImportMappingField::BoundingBoxTaskId).len() > 0
    ||| issues_at(issues, Some(index), ImportMappingField::BoundingBoxTaskName).len() > 0
    ||| issues_at(issues, Some(index), ImportMappingField::SkeletonTaskId).len() > 0
    ||| issues_at(issues, Some(index), ImportMappingField::SkeletonTaskName).len() > 0
}

/// Which parts of a category's form show: the bounding-box and skeleton
/// workflow identity inputs, whether the identity section starts open, and
/// the target keypoint names input.
#[derive(Clone, Copy, Debug, PartialEq, Eq, Structural)]
pub struct CategoryFormLayout {
    pub bounding_box_identity: bool,
    pub skeleton_identity: bool,
    pub identity_open: bool,
    pub target_keypoint_names: bool,
}

fn needs_keypoint_names(c: &ImportCategoryDraft) -> (r: bool)
    ensures
        r == needs_target_keypoint_names(*c),
{
    if c.source_skeleton.is_some() {
        return false;
    }
    let mut g: usize = 0;
    while g < c.geometry_mappings.len()
        invariant
            g <= c.geometry_mappings@.len(),
            c.source_skeleton is None,
            forall|j: int|
                0 <= j < g ==> !((#[trigger] c.geometry_mappings@[j]).target_geometry == ImportGeometryKind::Skeleton
                    && c.geometry_mappings@[j].source_geometry == ImportGeometryKind::BoundingBox
                    && c.geometry_mappings@[j].policy != ImportGeometryPolicy::Omit),
        decreases c.geometry_mappings.len() - g,
    {
        let m = &c.geometry_mappings[g];
        if m.target_geometry == ImportGeometryKind::Skeleton && m.source_geometry == ImportGeometryKind::BoundingBox
            && m.policy != ImportGeometryPolicy::Omit {
            assert(c.geometry_mappings@[g as int] == *m);
            return true;
        }
        g += 1;
    }
    false
}

impl ImportMappingValidation {
    /// The layout of category `index`'s form: the identity inputs of the
    /// workflows it produces, the identity section open when one of them
    /// has an issue, and the target keypoint names asked for when it has
    /// outputs and turns boxes into skeletons without a source skeleton.
    pub fn category_form_layout(&self, category: &ImportCategoryDraft, index: usize) -> (r: CategoryFormLayout)
        ensures
            r.bounding_box_identity == produces(*category, ImportGeometryKind::BoundingBox),
            r.skeleton_identity == produces(*category, ImportGeometryKind::Skeleton),
            r.identity_open == identity_issue(self@, index),
            r.target_keypoint_names == (category.geometry_mappings@.len() > 0 && needs_target_keypoint_names(*category)),
    {
        let open = self.for_field(Some(index), ImportMappingField::BoundingBoxTaskId).len() > 0
            || self.for_field(Some(index), ImportMappingField::BoundingBoxTaskName).len() > 0
            || self.for_field(Some(index), ImportMappingField::SkeletonTaskId).len() > 0
            || self.for_field(Some(index), ImportMappingField::SkeletonTaskName).len() > 0;
        CategoryFormLayout {
            bounding_box_identity: produces_kind(category, ImportGeometryKind::BoundingBox),
            skeleton_identity: produces_kind(category, ImportGeometryKind::Skeleton),
            identity_open: open,
            target_keypoint_names: category.geometry_mappings.len() > 0 && needs_keypoint_names(category),
        }
    }
}

/// Some included category seeds workflows for future annotation.
pub open spec fn seeds_future_annotation(cats: Seq<ImportCategoryDraft>) -> bool {
    exists|i: int|
        0 <= i < cats.len() && (#[trigger] cats[i]).selected && cats[i].workflow_intent
            == ImportWorkflowIntent::SeedFutureAnnotation
}

/// Whether the seed workflow warning and its confirmation show: some
/// included category seeds future annotation.
pub fn seed_warning_shown(categories: &Vec<ImportCategoryDraft>) -> (r: bool)
    ensures
        r == seeds_future_annotation(categories@),
{
    let mut i: usize = 0;
    while i < categories.len()
        invariant
            i <= categories@.len(),
            forall|j: int|
                0 <= j < i ==> !((#[trigger] categories@[j]).selected && categories@[j].workflow_intent
                    == ImportWorkflowIntent::SeedFutureAnnotation),
        decreases categories.len() - i,
    {
        let c = &categories[i];
        if c.selected && c.workflow_intent == ImportWorkflowIntent::SeedFutureAnnotation {
            return true;
        }
        i += 1;
    }
    false
}

} // verus!
