//! Validation of an import mapping draft before it is saved as a plan.
//!
//! Each check contributes candidate issues in a fixed order; the validation
//! records every candidate once, in the order it first comes up.
use vstd::prelude::*;
use crate::ids;
use crate::import_model::{
    CocoCrowdPolicy, CocoStructurePolicy, CrossSplitDuplicatePolicy, GeometryBoundsPolicy,
    ImportCategoryDraft, ImportCompatibility, ImportGeometryKind, ImportGeometryPolicy,
    ImportMappingDraft, ImportProfile, ImportWorkflowIntent, MissingKeypointNamesPolicy,
    YoloDuplicateRowPolicy, YoloMissingLabelPolicy,
};
use crate::mapping::{
    add_all_unique, add_unique, push_mapping_issue, ImportCompatibilityField, ImportMappingField,
    ImportMappingIssueSeverity, ImportMappingValidation, IssueView, SkeletonView,
};
use crate::model::{KeypointSpec, SkeletonSpec};
use crate::schema;
use crate::text;

verus! {

/// A one-issue candidate list when `cond` holds, an empty one otherwise.
pub open spec fn issue_if(cond: bool, issue: IssueView) -> Seq<IssueView> {
    if cond {
        seq![issue]
    } else {
        Seq::empty()
    }
}

/// An error at one input.
pub open spec fn error_at(index: Option<usize>, field: ImportMappingField, message: Seq<char>) -> IssueView {
    (ImportMappingIssueSeverity::Error, index, field, message)
}

/// A warning at one input.
pub open spec fn warning_at(index: Option<usize>, field: ImportMappingField, message: Seq<char>) -> IssueView {
    (ImportMappingIssueSeverity::Warning, index, field, message)
}

/// Adding two candidate lists in turn adds their concatenation.
pub proof fn lemma_add_all_concat(acc: Seq<IssueView>, a: Seq<IssueView>, b: Seq<IssueView>)
    ensures
        add_all_unique(acc, a + b) == add_all_unique(add_all_unique(acc, a), b),
    decreases b.len(),
{
    if b.len() == 0 {
        assert(a + b =~= a);
    } else {
        lemma_add_all_concat(acc, a, b.drop_last());
        assert((a + b).drop_last() =~= a + b.drop_last());
        assert((a + b).last() == b.last());
    }
}

/// Adding one candidate is adding the one-element list.
pub proof fn lemma_add_one(acc: Seq<IssueView>, v: IssueView)
    ensures
        add_all_unique(acc, seq![v]) == add_unique(acc, v),
{
    assert(seq![v].drop_last() =~= Seq::<IssueView>::empty());
    assert(add_all_unique(acc, Seq::<IssueView>::empty()) == acc);
    assert(seq![v].last() == v);
}

/// Records the issue when `cond` holds.
pub fn push_issue_if(
    validation: &mut ImportMappingValidation,
    cond: bool,
    severity: ImportMappingIssueSeverity,
    index: Option<usize>,
    field: ImportMappingField,
    message: String,
)
    ensures
        final(validation)@ == add_all_unique(old(validation)@, issue_if(cond, (severity, index, field, message@))),
{
    proof {
        lemma_add_one(old(validation)@, (severity, index, field, message@));
    }
    if cond {
        push_mapping_issue(validation, severity, index, field, message);
    }
}

/// An owner of a key that must be unique: the key, the category, and the
/// input the duplicate is reported at.
pub type OwnerView = (Seq<char>, usize, ImportMappingField);

/// An owner of a key that must be unique.
pub struct KeyOwner {
    pub key: Vec<char>,
    pub index: usize,
    pub field: ImportMappingField,
}

/// The plain values of a list of owners.
pub open spec fn owner_views(owners: Seq<KeyOwner>) -> Seq<OwnerView> {
    owners.map_values(|o: KeyOwner| (o.key@, o.index, o.field))
}

/// How many owners hold `key`.
pub open spec fn key_count(owners: Seq<OwnerView>, key: Seq<char>) -> nat
    decreases owners.len(),
{
    if owners.len() == 0 {
        0
    } else {
        key_count(owners.drop_last(), key) + if owners.last().0 == key {
            1nat
        } else {
            0nat
        }
    }
}

/// The first `n` owners whose key some other owner of `all` shares.
pub open spec fn shared_prefix(all: Seq<OwnerView>, n: nat) -> Seq<OwnerView>
    decreases n,
{
    if n == 0 {
        Seq::empty()
    } else {
        shared_prefix(all, (n - 1) as nat) + if key_count(all, all[n - 1].0) >= 2 {
            seq![all[n - 1]]
        } else {
            Seq::<OwnerView>::empty()
        }
    }
}

/// The owners whose key is shared with another owner, in their original
/// order.
pub open spec fn shared_owners(all: Seq<OwnerView>) -> Seq<OwnerView> {
    shared_prefix(all, all.len())
}

/// `sorted` with `o` placed after every owner whose key does not come after
/// its own.
pub open spec fn insert_by_key(sorted: Seq<OwnerView>, o: OwnerView) -> Seq<OwnerView>
    decreases sorted.len(),
{
    if sorted.len() == 0 {
        seq![o]
    } else if schema::lex_le(sorted.last().0, o.0) {
        sorted.push(o)
    } else {
        insert_by_key(sorted.drop_last(), o).push(sorted.last())
    }
}

/// The owners ordered by key, owners of equal keys keeping their order: the
/// order in which a map from key to owners lists them.
pub open spec fn sort_by_key(owners: Seq<OwnerView>) -> Seq<OwnerView>
    decreases owners.len(),
{
    if owners.len() == 0 {
        Seq::empty()
    } else {
        insert_by_key(sort_by_key(owners.drop_last()), owners.last())
    }
}

/// The duplicate errors of the owners of shared keys, grouped by key.
pub open spec fn owner_errors(owners: Seq<OwnerView>, message: Seq<char>) -> Seq<IssueView> {
    sort_by_key(shared_owners(owners)).map_values(
        |o: OwnerView| error_at(Some(o.1), o.2, message),
    )
}

proof fn lemma_insert_at(sorted: Seq<OwnerView>, o: OwnerView, pos: int)
    requires
        0 <= pos <= sorted.len(),
        pos == 0 || schema::lex_le(sorted[pos - 1].0, o.0),
        forall|j: int| pos <= j < sorted.len() ==> !schema::lex_le(#[trigger] sorted[j].0, o.0),
    ensures
        insert_by_key(sorted, o) == sorted.insert(pos, o),
    decreases sorted.len(),
{
    if sorted.len() == 0 {
        assert(sorted.insert(pos, o) =~= seq![o]);
    } else if pos == sorted.len() {
        assert(sorted.insert(pos, o) =~= sorted.push(o));
    } else {
        let d = sorted.drop_last();
        assert forall|j: int| pos <= j < d.len() implies !schema::lex_le(#[trigger] d[j].0, o.0) by {
            assert(d[j] == sorted[j]);
        }
        if pos > 0 {
            assert(d[pos - 1] == sorted[pos - 1]);
        }
        lemma_insert_at(d, o, pos);
        assert(!schema::lex_le(sorted[sorted.len() - 1].0, o.0));
        assert(d.insert(pos, o).push(sorted.last()) =~= sorted.insert(pos, o));
    }
}

fn owner_key_count(owners: &Vec<KeyOwner>, key: &Vec<char>) -> (n: usize)
    ensures
        n == key_count(owner_views(owners@), key@),
{
    let mut n: usize = 0;
    let mut i: usize = 0;
    while i < owners.len()
        invariant
            i <= owners@.len(),
            n <= i,
            n == key_count(owner_views(owners@).subrange(0, i as int), key@),
        decreases owners.len() - i,
    {
        assert(owner_views(owners@).subrange(0, i + 1).drop_last() =~= owner_views(owners@).subrange(0, i as int));
        if crate::text::chars_eq(&owners[i].key, key) {
            n += 1;
        }
        i += 1;
    }
    assert(owner_views(owners@).subrange(0, owners@.len() as int) =~= owner_views(owners@));
    n
}

fn copy_chars(v: &Vec<char>) -> (r: Vec<char>)
    ensures
        r@ == v@,
{
    let mut r: Vec<char> = Vec::new();
    let mut i: usize = 0;
    while i < v.len()
        invariant
            i <= v@.len(),
            r@ =~= v@.subrange(0, i as int),
        decreases v.len() - i,
    {
        r.push(v[i]);
        i += 1;
    }
    r
}

/// Records a duplicate error for every owner of a shared key, grouped by key
/// in ascending order and, within a key, in the owners' order.
pub fn push_owner_errors(validation: &mut ImportMappingValidation, owners: &Vec<KeyOwner>, message: &str)
    ensures
        final(validation)@ == add_all_unique(old(validation)@, owner_errors(owner_views(owners@), message@)),
{
    let ghost all = owner_views(owners@);
    let mut sorted: Vec<KeyOwner> = Vec::new();
    let mut i: usize = 0;
    assert(owner_views(sorted@) =~= sort_by_key(shared_prefix(all, 0)));
    while i < owners.len()
        invariant
            i <= owners@.len(),
            all == owner_views(owners@),
            owner_views(sorted@) == sort_by_key(shared_prefix(all, i as nat)),
        decreases owners.len() - i,
    {
        let o = &owners[i];
        if owner_key_count(owners, &o.key) >= 2 {
            let ghost s = owner_views(sorted@);
            let mut pos: usize = sorted.len();
            while pos > 0 && !schema::chars_le(&sorted[pos - 1].key, &o.key)
                invariant
                    pos <= sorted@.len(),
                    s == owner_views(sorted@),
                    forall|j: int| pos <= j < s.len() ==> !schema::lex_le(#[trigger] s[j].0, o.key@),
                decreases pos,
            {
                pos -= 1;
            }
            proof {
                lemma_insert_at(s, all[i as int], pos as int);
                assert(shared_prefix(all, (i + 1) as nat) =~= shared_prefix(all, i as nat).push(all[i as int]));
                assert(shared_prefix(all, (i + 1) as nat).drop_last() =~= shared_prefix(all, i as nat));
            }
            let entry = KeyOwner { key: copy_chars(&o.key), index: o.index, field: o.field };
            sorted.insert(pos, entry);
            assert(owner_views(sorted@) =~= s.insert(pos as int, all[i as int]));
        } else {
            assert(shared_prefix(all, (i + 1) as nat) =~= shared_prefix(all, i as nat));
        }
        i += 1;
    }
    let ghost start = validation@;
    let ghost errs = owner_errors(all, message@);
    let mut k: usize = 0;
    while k < sorted.len()
        invariant
            k <= sorted@.len(),
            owner_views(sorted@) == sort_by_key(shared_owners(all)),
            errs == owner_errors(all, message@),
            errs.len() == sorted@.len(),
            validation@ == add_all_unique(start, errs.subrange(0, k as int)),
        decreases sorted.len() - k,
    {
        let ghost before = validation@;
        let o = &sorted[k];
        proof {
            assert(errs[k as int] == error_at(Some(o.index), o.field, message@));
            assert(errs.subrange(0, k + 1).drop_last() =~= errs.subrange(0, k as int));
        }
        push_mapping_issue(
            validation,
            ImportMappingIssueSeverity::Error,
            Some(o.index),
            o.field,
            crate::text::to_string(message),
        );
        k += 1;
    }
    assert(errs.subrange(0, errs.len() as int) =~= errs);
}

/// The number of source categories preflight (or else the current plan)
/// discovered; none known counts as zero.
pub open spec fn discovered_categories(d: ImportMappingDraft) -> nat {
    match d.preflight_categories {
        Some(n) => n as nat,
        None => match d.plan_categories {
            Some(n) => n as nat,
            None => 0,
        },
    }
}

/// The form-wide issue about the number of categories.
pub open spec fn count_candidates(d: ImportMappingDraft) -> Seq<IssueView> {
    let n = discovered_categories(d);
    if n == 0 {
        seq![error_at(None, ImportMappingField::Form, "Preflight has not reported any source categories to map."@)]
    } else if d.categories@.len() != n {
        seq![error_at(
            None,
            ImportMappingField::Form,
            "Expected "@ + text::decimal(n) + " source categories, but the mapping contract contains "@
                + text::decimal(d.categories@.len()) + "."@,
        )]
    } else {
        Seq::empty()
    }
}

/// The issue of a draft that includes no category.
pub open spec fn selection_candidates(d: ImportMappingDraft) -> Seq<IssueView> {
    issue_if(
        !exists|i: int| 0 <= i < d.categories@.len() && (#[trigger] d.categories@[i]).selected,
        error_at(None, ImportMappingField::CategorySelection, "Include at least one source category."@),
    )
}

/// Whether the server offers manual box-guide migration.
pub open spec fn manual_available(d: ImportMappingDraft) -> bool {
    match d.capabilities {
        Some(c) => c.manual_box_guide_migration,
        None => false,
    }
}

/// Some mapping of the category produces `kind`.
pub open spec fn produces(c: ImportCategoryDraft, kind: ImportGeometryKind) -> bool {
    exists|k: int|
        0 <= k < c.geometry_mappings@.len() && (#[trigger] c.geometry_mappings@[k]).policy
            != ImportGeometryPolicy::Omit && c.geometry_mappings@[k].target_geometry == kind
}

/// Trimmed text that is not a safe path segment of at most 255 bytes.
pub open spec fn unsafe_segment(v: Seq<char>) -> bool {
    !ids::safe_id_bytes(vstd::utf8::encode_utf8(text::trim(v)))
}

/// The issues of a category's identity and class fields.
pub open spec fn category_head(c: ImportCategoryDraft, i: usize) -> Seq<IssueView> {
    issue_if(
        text::all_space(c.source_category_key@) || text::all_space(c.source_category_id@),
        error_at(Some(i), ImportMappingField::Form, "The server mapping contract is missing this category's source key or ID."@),
    ) + issue_if(
        unsafe_segment(c.class_id@),
        error_at(Some(i), ImportMappingField::ClassId, "Class ID must be a non-empty safe path segment of at most 255 bytes."@),
    ) + issue_if(
        text::all_space(c.class_name@),
        error_at(Some(i), ImportMappingField::ClassName, "Class name cannot be empty."@),
    ) + issue_if(
        !ids::hex_color_bytes(vstd::utf8::encode_utf8(text::trim(c.class_color@))),
        error_at(Some(i), ImportMappingField::ClassColor, "Class color must use #RRGGBB hexadecimal format."@),
    )
}

/// The skeleton a category's skeleton output is checked against: its source
/// skeleton, or else one built from its target keypoint names.
pub open spec fn target_skeleton(c: ImportCategoryDraft) -> Option<SkeletonView> {
    match c.source_skeleton {
        Some(s) => Some(crate::mapping::skeleton_view(s)),
        None => {
            let names = ids::csv_entries(c.target_keypoint_names@);
            if names.len() > 0 {
                Some((names.map_values(|n: Seq<char>| (n, false)), true, true))
            } else {
                None
            }
        },
    }
}

/// Some offered choice has `policy` and, unless it omits the output, `source`.
pub open spec fn choice_supported(
    choices: Seq<crate::mapping::ChoiceView>,
    policy: ImportGeometryPolicy,
    source: ImportGeometryKind,
) -> bool {
    exists|j: int|
        0 <= j < choices.len() && (#[trigger] choices[j]).1 == policy && (policy
            == ImportGeometryPolicy::Omit || choices[j].0 == source)
}

/// The notes and errors that depend on a mapping's policy.
pub open spec fn policy_candidates(d: ImportMappingDraft, c: ImportCategoryDraft, i: usize, k: int) -> Seq<IssueView> {
    let m = c.geometry_mappings@[k];
    let field = ImportMappingField::Geometry(m.target_geometry);
    match m.policy {
        ImportGeometryPolicy::KeypointEnvelopeV1 => seq![warning_at(
            Some(i),
            field,
            "Derived envelopes are pending seeds and require acknowledgement after preflight."@,
        )],
        ImportGeometryPolicy::BoxRelativeTemplateV1 => seq![warning_at(
            Some(i),
            field,
            "Template skeletons are derived pending seeds and require acknowledgement after preflight."@,
        )],
        ImportGeometryPolicy::ManualBoxGuideV1 => issue_if(
            !manual_available(d),
            error_at(Some(i), field, "Manual box-guide migration is not available on this server."@),
        ) + issue_if(
            !d.exhaustive,
            error_at(Some(i), field, "Manual box-guide migration requires an exhaustive source attestation."@),
        ) + issue_if(
            c.source_skeleton is Some || c.direct_geometry@.contains(ImportGeometryKind::Skeleton),
            error_at(Some(i), field, "Manual box-guide migration only supports categories without source skeleton geometry."@),
        ) + issue_if(
            !produces(c, ImportGeometryKind::BoundingBox),
            error_at(Some(i), field, "Manual migration requires a direct bounding-box guide output."@),
        ),
        ImportGeometryPolicy::Omit => seq![warning_at(
            Some(i),
            field,
            "This annotation output will not be imported for the category."@,
        )],
        ImportGeometryPolicy::Direct => Seq::empty(),
    }
}

/// The issues of mapping `k` of category `c` (at position `i`).
pub open spec fn mapping_candidates(d: ImportMappingDraft, c: ImportCategoryDraft, i: usize, k: int) -> Seq<IssueView> {
    let m = c.geometry_mappings@[k];
    let field = ImportMappingField::Geometry(m.target_geometry);
    issue_if(
        exists|j: int| 0 <= j < k && (#[trigger] c.geometry_mappings@[j]).target_geometry == m.target_geometry,
        error_at(Some(i), field, "Each category can define a target output only once."@),
    ) + issue_if(
        m.policy != ImportGeometryPolicy::Omit && !c.direct_geometry@.contains(m.source_geometry),
        error_at(Some(i), field, "The selected source geometry was not discovered for this category."@),
    ) + issue_if(
        !choice_supported(
            crate::mapping::target_choices(m.target_geometry, c.direct_geometry@, manual_available(d), c.source_skeleton is Some),
            m.policy,
            m.source_geometry,
        ),
        error_at(Some(i), field, "Choose a supported source-to-output transformation."@),
    ) + crate::mapping::parameter_errors(m.policy, m.parameters@, target_skeleton(c)).map_values(
        |msg: Seq<char>| error_at(Some(i), field, msg),
    ) + policy_candidates(d, c, i, k)
}

/// The issues of the first `n` mappings of category `c`.
pub open spec fn mappings_candidates(d: ImportMappingDraft, c: ImportCategoryDraft, i: usize, n: nat) -> Seq<IssueView>
    decreases n,
{
    if n == 0 {
        Seq::empty()
    } else {
        mappings_candidates(d, c, i, (n - 1) as nat) + mapping_candidates(d, c, i, n - 1)
    }
}

/// The keypoint names a skeleton output targets.
pub open spec fn target_names(c: ImportCategoryDraft) -> Seq<Seq<char>> {
    match c.source_skeleton {
        Some(s) => schema::keypoint_names(s),
        None => ids::csv_entries(c.target_keypoint_names@),
    }
}

/// Some name occurs twice.
pub open spec fn has_repeat(names: Seq<Seq<char>>) -> bool {
    exists|a: int, b: int| 0 <= a < b < names.len() && #[trigger] names[a] == #[trigger] names[b]
}

/// The server's keypoint limit, unlimited when capabilities are unknown.
pub open spec fn keypoint_limit(d: ImportMappingDraft) -> nat {
    match d.capabilities {
        Some(c) => c.limits.max_keypoints_per_skeleton as nat,
        None => usize::MAX as nat,
    }
}

/// The issues of a category's generated bounding-box workflow.
pub open spec fn box_task_candidates(c: ImportCategoryDraft, i: usize) -> Seq<IssueView> {
    if produces(c, ImportGeometryKind::BoundingBox) {
        issue_if(
            unsafe_segment(c.bounding_box_task_id@),
            error_at(Some(i), ImportMappingField::BoundingBoxTaskId, "Bounding-box task ID must be a non-empty safe path segment of at most 255 bytes."@),
        ) + issue_if(
            text::all_space(c.bounding_box_task_name@),
            error_at(Some(i), ImportMappingField::BoundingBoxTaskName, "Bounding-box task name cannot be empty."@),
        )
    } else {
        Seq::empty()
    }
}

/// The issues of a category's generated skeleton workflow and its target
/// keypoints.
pub open spec fn skeleton_task_candidates(d: ImportMappingDraft, c: ImportCategoryDraft, i: usize) -> Seq<IssueView> {
    let names = target_names(c);
    if produces(c, ImportGeometryKind::Skeleton) {
        issue_if(
            unsafe_segment(c.skeleton_task_id@),
            error_at(Some(i), ImportMappingField::SkeletonTaskId, "Skeleton task ID must be a non-empty safe path segment of at most 255 bytes."@),
        ) + issue_if(
            text::all_space(c.skeleton_task_name@),
            error_at(Some(i), ImportMappingField::SkeletonTaskName, "Skeleton task name cannot be empty."@),
        ) + (if names.len() == 0 {
            seq![error_at(Some(i), ImportMappingField::TargetKeypointNames, "Skeleton output requires at least one target keypoint."@)]
        } else if has_repeat(names) {
            seq![error_at(Some(i), ImportMappingField::TargetKeypointNames, "Target keypoint names must be unique."@)]
        } else {
            Seq::empty()
        }) + issue_if(
            names.len() > keypoint_limit(d),
            error_at(
                Some(i),
                ImportMappingField::TargetKeypointNames,
                "Target skeleton has "@ + text::decimal(names.len()) + " keypoints; the server limit is "@
                    + text::decimal(keypoint_limit(d)) + "."@,
            ),
        )
    } else {
        Seq::empty()
    }
}

/// The issues of a category's workflow intent.
pub open spec fn intent_candidates(d: ImportMappingDraft, c: ImportCategoryDraft, i: usize) -> Seq<IssueView> {
    issue_if(
        c.workflow_intent == ImportWorkflowIntent::AuthoritativeGroundTruth && !d.exhaustive,
        error_at(Some(i), ImportMappingField::WorkflowIntent, "Authoritative ground truth requires an exhaustive source attestation."@),
    ) + (match c.workflow_intent {
        ImportWorkflowIntent::SeedFutureAnnotation => seq![warning_at(
            Some(i),
            ImportMappingField::WorkflowIntent,
            "Imported geometry remains pending for future human annotation."@,
        )],
        ImportWorkflowIntent::RequireApproval => seq![warning_at(
            Some(i),
            ImportMappingField::WorkflowIntent,
            "Imported annotations require one human approval before completion."@,
        )],
        ImportWorkflowIntent::AuthoritativeGroundTruth => Seq::empty(),
    })
}

/// The issues of category `i`: an excluded category only gets its field
/// checks and a note; an included one is checked through its outputs,
/// generated workflows and intent.
pub open spec fn category_candidates(d: ImportMappingDraft, i: int) -> Seq<IssueView> {
    let c = d.categories@[i];
    let ix = i as usize;
    if !c.selected {
        category_head(c, ix) + seq![warning_at(
            Some(ix),
            ImportMappingField::CategorySelection,
            "This source category and its annotations will be excluded from the import."@,
        )]
    } else {
        category_head(c, ix) + issue_if(
            !produces(c, ImportGeometryKind::BoundingBox) && !produces(c, ImportGeometryKind::Skeleton),
            error_at(Some(ix), ImportMappingField::CategorySelection, "An included category must produce at least one annotation output."@),
        ) + mappings_candidates(d, c, ix, c.geometry_mappings@.len()) + box_task_candidates(c, ix)
            + skeleton_task_candidates(d, c, ix) + intent_candidates(d, c, ix)
    }
}

/// The issues of the first `n` categories.
pub open spec fn categories_candidates(d: ImportMappingDraft, n: nat) -> Seq<IssueView>
    decreases n,
{
    if n == 0 {
        Seq::empty()
    } else {
        categories_candidates(d, (n - 1) as nat) + category_candidates(d, n - 1)
    }
}

/// Every category owns its trimmed source key.
pub open spec fn source_key_owners(d: ImportMappingDraft) -> Seq<OwnerView> {
    Seq::new(
        d.categories@.len(),
        |i: int| (text::trim(d.categories@[i].source_category_key@), i as usize, ImportMappingField::Form),
    )
}

/// Each of the first `n` included categories owns its trimmed class ID.
pub open spec fn class_owners(d: ImportMappingDraft, n: nat) -> Seq<OwnerView>
    decreases n,
{
    if n == 0 {
        Seq::empty()
    } else {
        let c = d.categories@[n - 1];
        class_owners(d, (n - 1) as nat) + if c.selected {
            seq![(text::trim(c.class_id@), (n - 1) as usize, ImportMappingField::ClassId)]
        } else {
            Seq::<OwnerView>::empty()
        }
    }
}

/// The generated workflows of the first `n` included categories own their
/// trimmed task IDs: the bounding-box workflow, then the skeleton one.
pub open spec fn task_owners(d: ImportMappingDraft, n: nat) -> Seq<OwnerView>
    decreases n,
{
    if n == 0 {
        Seq::empty()
    } else {
        let c = d.categories@[n - 1];
        let ix = (n - 1) as usize;
        task_owners(d, (n - 1) as nat) + if c.selected {
            (if produces(c, ImportGeometryKind::BoundingBox) {
                seq![(text::trim(c.bounding_box_task_id@), ix, ImportMappingField::BoundingBoxTaskId)]
            } else {
                Seq::<OwnerView>::empty()
            }) + (if produces(c, ImportGeometryKind::Skeleton) {
                seq![(text::trim(c.skeleton_task_id@), ix, ImportMappingField::SkeletonTaskId)]
            } else {
                Seq::<OwnerView>::empty()
            })
        } else {
            Seq::<OwnerView>::empty()
        }
    }
}

/// The number of workflows the first `n` categories generate.
pub open spec fn generated_tasks(d: ImportMappingDraft, n: nat) -> nat
    decreases n,
{
    if n == 0 {
        0
    } else {
        let c = d.categories@[n - 1];
        generated_tasks(d, (n - 1) as nat) + if c.selected && produces(c, ImportGeometryKind::BoundingBox) {
            1nat
        } else {
            0nat
        } + if c.selected && produces(c, ImportGeometryKind::Skeleton) {
            1nat
        } else {
            0nat
        }
    }
}

/// The issue of a mapping that generates more workflows than the server
/// allows.
pub open spec fn generated_candidates(d: ImportMappingDraft) -> Seq<IssueView> {
    let g = generated_tasks(d, d.categories@.len());
    match d.capabilities {
        Some(c) => issue_if(
            g > c.limits.max_generated_tasks,
            error_at(
                None,
                ImportMappingField::Form,
                "The mapping generates "@ + text::decimal(g) + " tasks; the server limit is "@
                    + text::decimal(c.limits.max_generated_tasks as nat) + "."@,
            ),
        ),
        None => Seq::empty(),
    }
}

/// The issue of unconfirmed pending seed workflows.
pub open spec fn seed_candidates(d: ImportMappingDraft) -> Seq<IssueView> {
    issue_if(
        (exists|i: int|
            0 <= i < d.categories@.len() && (#[trigger] d.categories@[i]).selected
                && d.categories@[i].workflow_intent == ImportWorkflowIntent::SeedFutureAnnotation)
            && !d.seed_workflow_confirmed,
        error_at(None, ImportMappingField::SeedConfirmation, "Confirm the selected pending seed workflows before saving."@),
    )
}

/// A form-wide note at a compatibility choice.
pub open spec fn compatibility_note(field: ImportCompatibilityField, message: Seq<char>) -> IssueView {
    warning_at(None, ImportMappingField::Compatibility(field), message)
}

/// The notes about compatibility choices that apply to `profile`.
pub open spec fn compatibility_candidates(profile: ImportProfile, c: ImportCompatibility) -> Seq<IssueView> {
    let yolo = profile == ImportProfile::UltralyticsYoloDetectV1 || profile == ImportProfile::UltralyticsYoloPoseV1;
    let coco = profile == ImportProfile::CocoInstancesGtV1 || profile == ImportProfile::CocoKeypointsGtV1;
    (if yolo {
        (match c.yolo_missing_labels {
            YoloMissingLabelPolicy::Incomplete => seq![compatibility_note(
                ImportCompatibilityField::YoloMissingLabels,
                "If a label file is missing, coverage remains incomplete."@,
            )],
            YoloMissingLabelPolicy::MissingIsBackground => seq![compatibility_note(
                ImportCompatibilityField::YoloMissingLabels,
                "Missing label files will be treated as verified background and require acknowledgement when encountered."@,
            )],
            YoloMissingLabelPolicy::Block => Seq::empty(),
        }) + issue_if(
            c.yolo_duplicate_rows == YoloDuplicateRowPolicy::Deduplicate,
            compatibility_note(
                ImportCompatibilityField::YoloDuplicateRows,
                "Exact duplicate YOLO rows will be discarded and require acknowledgement when encountered."@,
            ),
        ) + issue_if(
            profile == ImportProfile::UltralyticsYoloPoseV1 && c.missing_keypoint_names
                == MissingKeypointNamesPolicy::GenerateIndexed,
            compatibility_note(
                ImportCompatibilityField::MissingKeypointNames,
                "Missing keypoint names will be generated by index without inferred edges."@,
            ),
        )
    } else {
        Seq::empty()
    }) + (if coco {
        (match c.coco_crowds {
            CocoCrowdPolicy::Incomplete => seq![compatibility_note(
                ImportCompatibilityField::CocoCrowds,
                "Crowd objects will be skipped and leave coverage incomplete."@,
            )],
            CocoCrowdPolicy::ExcludeImageTask => seq![compatibility_note(
                ImportCompatibilityField::CocoCrowds,
                "Crowd objects will exclude the affected image-task pair."@,
            )],
            CocoCrowdPolicy::Block => Seq::empty(),
        }) + issue_if(
            c.coco_structure == CocoStructurePolicy::BboxCompatibility,
            compatibility_note(
                ImportCompatibilityField::CocoStructure,
                "BBox compatibility may synthesize noncanonical COCO fields and always requires acknowledgement."@,
            ),
        )
    } else {
        Seq::empty()
    }) + issue_if(
        c.geometry_bounds == GeometryBoundsPolicy::Clip,
        compatibility_note(
            ImportCompatibilityField::GeometryBounds,
            "Out-of-bounds geometry will be clipped as derived pending data and requires acknowledgement."@,
        ),
    ) + issue_if(
        c.cross_split_duplicates == CrossSplitDuplicatePolicy::MergeMemberships,
        compatibility_note(
            ImportCompatibilityField::CrossSplitDuplicates,
            "Duplicate images will retain multiple split memberships and require acknowledgement when encountered."@,
        ),
    )
}

/// Every candidate issue of a mapping draft, in the order they come up.
pub open spec fn draft_candidates(d: ImportMappingDraft) -> Seq<IssueView> {
    let n = d.categories@.len();
    count_candidates(d) + selection_candidates(d) + categories_candidates(d, n) + owner_errors(
        source_key_owners(d),
        "The server mapping contract contains a duplicate source category key."@,
    ) + owner_errors(class_owners(d, n), "Included categories must use unique class IDs."@)
        + owner_errors(task_owners(d, n), "Every generated task must use a unique task ID."@)
        + generated_candidates(d) + seed_candidates(d) + compatibility_candidates(d.profile, d.compatibility)
}

pub(crate) fn produces_kind(c: &ImportCategoryDraft, kind: ImportGeometryKind) -> (r: bool)
    ensures
        r == produces(*c, kind),
{
    let mut k: usize = 0;
    while k < c.geometry_mappings.len()
        invariant
            k <= c.geometry_mappings@.len(),
            forall|j: int|
                0 <= j < k ==> !((#[trigger] c.geometry_mappings@[j]).policy != ImportGeometryPolicy::Omit
                    && c.geometry_mappings@[j].target_geometry == kind),
        decreases c.geometry_mappings.len() - k,
    {
        let m = &c.geometry_mappings[k];
        if m.policy != ImportGeometryPolicy::Omit && m.target_geometry == kind {
            return true;
        }
        k += 1;
    }
    false
}

pub(crate) fn is_unsafe_segment(value: &str) -> (r: bool)
    ensures
        r == unsafe_segment(value@),
{
    let t = text::trimmed(value);
    !ids::is_safe_id(t.as_str())
}

fn push_count_issues(validation: &mut ImportMappingValidation, d: &ImportMappingDraft)
    ensures
        final(validation)@ == add_all_unique(old(validation)@, count_candidates(*d)),
{
    let n: usize = match d.preflight_categories {
        Some(n) => n,
        None => match d.plan_categories {
            Some(n) => n,
            None => 0,
        },
    };
    proof {
        lemma_add_one(validation@, count_candidates(*d)[0]);
    }
    if n == 0 {
        push_mapping_issue(
            validation,
            ImportMappingIssueSeverity::Error,
            None,
            ImportMappingField::Form,
            text::to_string("Preflight has not reported any source categories to map."),
        );
    } else if d.categories.len() != n {
        let mut m = text::with_number("Expected ", n as u64);
        text::push_str(&mut m, " source categories, but the mapping contract contains ");
        text::push_decimal(&mut m, d.categories.len() as u64);
        text::push_str(&mut m, ".");
        push_mapping_issue(validation, ImportMappingIssueSeverity::Error, None, ImportMappingField::Form, m);
    } else {
        assert(count_candidates(*d) =~= Seq::<IssueView>::empty());
    }
}

fn push_selection_issue(validation: &mut ImportMappingValidation, d: &ImportMappingDraft)
    ensures
        final(validation)@ == add_all_unique(old(validation)@, selection_candidates(*d)),
{
    let mut any = false;
    let mut i: usize = 0;
    while i < d.categories.len()
        invariant
            i <= d.categories@.len(),
            any == exists|j: int| 0 <= j < i && (#[trigger] d.categories@[j]).selected,
        decreases d.categories.len() - i,
    {
        if d.categories[i].selected {
            any = true;
        }
        i += 1;
    }
    push_issue_if(
        validation,
        !any,
        ImportMappingIssueSeverity::Error,
        None,
        ImportMappingField::CategorySelection,
        text::to_string("Include at least one source category."),
    );
}

fn push_category_head(validation: &mut ImportMappingValidation, c: &ImportCategoryDraft, i: usize)
    ensures
        final(validation)@ == add_all_unique(old(validation)@, category_head(*c, i)),
{
    let ghost start = validation@;
    let ghost x1 = issue_if(
        text::all_space(c.source_category_key@) || text::all_space(c.source_category_id@),
        error_at(Some(i), ImportMappingField::Form, "The server mapping contract is missing this category's source key or ID."@),
    );
    let ghost x2 = issue_if(
        unsafe_segment(c.class_id@),
        error_at(Some(i), ImportMappingField::ClassId, "Class ID must be a non-empty safe path segment of at most 255 bytes."@),
    );
    let ghost x3 = issue_if(
        text::all_space(c.class_name@),
        error_at(Some(i), ImportMappingField::ClassName, "Class name cannot be empty."@),
    );
    let ghost x4 = issue_if(
        !ids::hex_color_bytes(vstd::utf8::encode_utf8(text::trim(c.class_color@))),
        error_at(Some(i), ImportMappingField::ClassColor, "Class color must use #RRGGBB hexadecimal format."@),
    );
    push_issue_if(
        validation,
        text::is_blank(c.source_category_key.as_str()) || text::is_blank(c.source_category_id.as_str()),
        ImportMappingIssueSeverity::Error,
        Some(i),
        ImportMappingField::Form,
        text::to_string("The server mapping contract is missing this category's source key or ID."),
    );
    push_issue_if(
        validation,
        is_unsafe_segment(c.class_id.as_str()),
        ImportMappingIssueSeverity::Error,
        Some(i),
        ImportMappingField::ClassId,
        text::to_string("Class ID must be a non-empty safe path segment of at most 255 bytes."),
    );
    push_issue_if(
        validation,
        text::is_blank(c.class_name.as_str()),
        ImportMappingIssueSeverity::Error,
        Some(i),
        ImportMappingField::ClassName,
        text::to_string("Class name cannot be empty."),
    );
    let color = text::trimmed(c.class_color.as_str());
    push_issue_if(
        validation,
        !ids::valid_color(color.as_str()),
        ImportMappingIssueSeverity::Error,
        Some(i),
        ImportMappingField::ClassColor,
        text::to_string("Class color must use #RRGGBB hexadecimal format."),
    );
    proof {
        lemma_add_all_concat(start, x1, x2);
        lemma_add_all_concat(start, x1 + x2, x3);
        lemma_add_all_concat(start, x1 + x2 + x3, x4);
    }
}

fn push_box_task_issues(validation: &mut ImportMappingValidation, c: &ImportCategoryDraft, i: usize, active: bool)
    requires
        active == produces(*c, ImportGeometryKind::BoundingBox),
    ensures
        final(validation)@ == add_all_unique(old(validation)@, box_task_candidates(*c, i)),
{
    let ghost start = validation@;
    if active {
        let ghost x1 = issue_if(
            unsafe_segment(c.bounding_box_task_id@),
            error_at(Some(i), ImportMappingField::BoundingBoxTaskId, "Bounding-box task ID must be a non-empty safe path segment of at most 255 bytes."@),
        );
        let ghost x2 = issue_if(
            text::all_space(c.bounding_box_task_name@),
            error_at(Some(i), ImportMappingField::BoundingBoxTaskName, "Bounding-box task name cannot be empty."@),
        );
        push_issue_if(
            validation,
            is_unsafe_segment(c.bounding_box_task_id.as_str()),
            ImportMappingIssueSeverity::Error,
            Some(i),
            ImportMappingField::BoundingBoxTaskId,
            text::to_string("Bounding-box task ID must be a non-empty safe path segment of at most 255 bytes."),
        );
        push_issue_if(
            validation,
            text::is_blank(c.bounding_box_task_name.as_str()),
            ImportMappingIssueSeverity::Error,
            Some(i),
            ImportMappingField::BoundingBoxTaskName,
            text::to_string("Bounding-box task name cannot be empty."),
        );
        proof {
            lemma_add_all_concat(start, x1, x2);
        }
    } else {
        assert(add_all_unique(start, Seq::<IssueView>::empty()) == start);
    }
}

fn push_intent_issues(validation: &mut ImportMappingValidation, d: &ImportMappingDraft, c: &ImportCategoryDraft, i: usize)
    ensures
        final(validation)@ == add_all_unique(old(validation)@, intent_candidates(*d, *c, i)),
{
    let ghost start = validation@;
    let ghost x1 = issue_if(
        c.workflow_intent == ImportWorkflowIntent::AuthoritativeGroundTruth && !d.exhaustive,
        error_at(Some(i), ImportMappingField::WorkflowIntent, "Authoritative ground truth requires an exhaustive source attestation."@),
    );
    push_issue_if(
        validation,
        c.workflow_intent == ImportWorkflowIntent::AuthoritativeGroundTruth && !d.exhaustive,
        ImportMappingIssueSeverity::Error,
        Some(i),
        ImportMappingField::WorkflowIntent,
        text::to_string("Authoritative ground truth requires an exhaustive source attestation."),
    );
    let ghost mid = validation@;
    let ghost x2 = intent_candidates(*d, *c, i).subrange(x1.len() as int, intent_candidates(*d, *c, i).len() as int);
    assert(intent_candidates(*d, *c, i) =~= x1 + x2);
    match c.workflow_intent {
        ImportWorkflowIntent::SeedFutureAnnotation => {
            proof { lemma_add_one(mid, x2[0]); assert(x2 =~= seq![x2[0]]); }
            push_mapping_issue(
                validation,
                ImportMappingIssueSeverity::Warning,
                Some(i),
                ImportMappingField::WorkflowIntent,
                text::to_string("Imported geometry remains pending for future human annotation."),
            );
        },
        ImportWorkflowIntent::RequireApproval => {
            proof { lemma_add_one(mid, x2[0]); assert(x2 =~= seq![x2[0]]); }
            push_mapping_issue(
                validation,
                ImportMappingIssueSeverity::Warning,
                Some(i),
                ImportMappingField::WorkflowIntent,
                text::to_string("Imported annotations require one human approval before completion."),
            );
        },
        ImportWorkflowIntent::AuthoritativeGroundTruth => {
            assert(x2 =~= Seq::<IssueView>::empty());
            assert(add_all_unique(mid, x2) == mid);
        },
    }
    proof {
        lemma_add_all_concat(start, x1, x2);
    }
}

fn target_name_list(c: &ImportCategoryDraft) -> (names: Vec<String>)
    ensures
        ids::views(names@) == target_names(*c),
{
    match &c.source_skeleton {
        Some(s) => schema::keypoint_name_list(s),
        None => ids::split_csv(c.target_keypoint_names.as_str()),
    }
}

fn names_repeat(names: &Vec<String>) -> (r: bool)
    ensures
        r == has_repeat(ids::views(names@)),
{
    let ghost v = ids::views(names@);
    let mut b: usize = 0;
    while b < names.len()
        invariant
            b <= names@.len(),
            v == ids::views(names@),
            forall|x: int, y: int| 0 <= x < y < b ==> #[trigger] v[x] != #[trigger] v[y],
        decreases names.len() - b,
    {
        let mut a: usize = 0;
        while a < b
            invariant
                a <= b < names@.len(),
                v == ids::views(names@),
                forall|x: int, y: int| 0 <= x < y < b ==> #[trigger] v[x] != #[trigger] v[y],
                forall|x: int| 0 <= x < a ==> #[trigger] v[x] != v[b as int],
            decreases b - a,
        {
            if names[a] == names[b] {
                assert(v[a as int] == v[b as int]);
                return true;
            }
            a += 1;
        }
        b += 1;
    }
    false
}

fn push_skeleton_task_issues(
    validation: &mut ImportMappingValidation,
    d: &ImportMappingDraft,
    c: &ImportCategoryDraft,
    i: usize,
    active: bool,
)
    requires
        active == produces(*c, ImportGeometryKind::Skeleton),
    ensures
        final(validation)@ == add_all_unique(old(validation)@, skeleton_task_candidates(*d, *c, i)),
{
    let ghost start = validation@;
    if !active {
        assert(add_all_unique(start, Seq::<IssueView>::empty()) == start);
        return;
    }
    let names = target_name_list(c);
    let ghost nv = ids::views(names@);
    let ghost x1 = issue_if(
        unsafe_segment(c.skeleton_task_id@),
        error_at(Some(i), ImportMappingField::SkeletonTaskId, "Skeleton task ID must be a non-empty safe path segment of at most 255 bytes."@),
    );
    let ghost x2 = issue_if(
        text::all_space(c.skeleton_task_name@),
        error_at(Some(i), ImportMappingField::SkeletonTaskName, "Skeleton task name cannot be empty."@),
    );
    let ghost x3 = if nv.len() == 0 {
        seq![error_at(Some(i), ImportMappingField::TargetKeypointNames, "Skeleton output requires at least one target keypoint."@)]
    } else if has_repeat(nv) {
        seq![error_at(Some(i), ImportMappingField::TargetKeypointNames, "Target keypoint names must be unique."@)]
    } else {
        Seq::<IssueView>::empty()
    };
    let ghost x4 = issue_if(
        nv.len() > keypoint_limit(*d),
        error_at(
            Some(i),
            ImportMappingField::TargetKeypointNames,
            "Target skeleton has "@ + text::decimal(nv.len()) + " keypoints; the server limit is "@
                + text::decimal(keypoint_limit(*d)) + "."@,
        ),
    );
    push_issue_if(
        validation,
        is_unsafe_segment(c.skeleton_task_id.as_str()),
        ImportMappingIssueSeverity::Error,
        Some(i),
        ImportMappingField::SkeletonTaskId,
        text::to_string("Skeleton task ID must be a non-empty safe path segment of at most 255 bytes."),
    );
    push_issue_if(
        validation,
        text::is_blank(c.skeleton_task_name.as_str()),
        ImportMappingIssueSeverity::Error,
        Some(i),
        ImportMappingField::SkeletonTaskName,
        text::to_string("Skeleton task name cannot be empty."),
    );
    let ghost s2 = validation@;
    if names.len() == 0 {
        proof { lemma_add_one(s2, x3[0]); assert(x3 =~= seq![x3[0]]); }
        push_mapping_issue(
            validation,
            ImportMappingIssueSeverity::Error,
            Some(i),
            ImportMappingField::TargetKeypointNames,
            text::to_string("Skeleton output requires at least one target keypoint."),
        );
    } else if names_repeat(&names) {
        proof { lemma_add_one(s2, x3[0]); assert(x3 =~= seq![x3[0]]); }
        push_mapping_issue(
            validation,
            ImportMappingIssueSeverity::Error,
            Some(i),
            ImportMappingField::TargetKeypointNames,
            text::to_string("Target keypoint names must be unique."),
        );
    } else {
        assert(add_all_unique(s2, x3) == s2);
    }
    let ghost s3 = validation@;
    match &d.capabilities {
        Some(caps) => {
            let limit = caps.limits.max_keypoints_per_skeleton;
            let over = names.len() as u64 > limit;
            let mut m = text::with_number("Target skeleton has ", names.len() as u64);
            text::push_str(&mut m, " keypoints; the server limit is ");
            text::push_decimal(&mut m, limit);
            text::push_str(&mut m, ".");
            push_issue_if(validation, over, ImportMappingIssueSeverity::Error, Some(i), ImportMappingField::TargetKeypointNames, m);
        },
        None => {
            assert(x4 =~= Seq::<IssueView>::empty());
            assert(add_all_unique(s3, x4) == s3);
        },
    }
    proof {
        lemma_add_all_concat(start, x1, x2);
        lemma_add_all_concat(start, x1 + x2, x3);
        lemma_add_all_concat(start, x1 + x2 + x3, x4);
    }
}

fn skeleton_from_names(names: &Vec<String>) -> (s: SkeletonSpec)
    ensures
        crate::mapping::skeleton_view(s) == (ids::views(names@).map_values(|n: Seq<char>| (n, false)), true, true),
{
    let mut keypoints: Vec<KeypointSpec> = Vec::new();
    let mut i: usize = 0;
    while i < names.len()
        invariant
            i <= names@.len(),
            keypoints@.len() == i,
            forall|j: int| 0 <= j < i ==> (#[trigger] keypoints@[j]).name@ == names@[j]@ && !keypoints@[j].required,
        decreases names.len() - i,
    {
        keypoints.push(KeypointSpec { name: names[i].clone(), required: false });
        i += 1;
    }
    let s = SkeletonSpec { keypoints, edges: Vec::new(), allow_hidden: true, allow_absent: true };
    assert(crate::mapping::skeleton_view(s).0 =~= ids::views(names@).map_values(|n: Seq<char>| (n, false)));
    s
}

fn category_parameter_errors(c: &ImportCategoryDraft, k: usize) -> (errs: Vec<String>)
    requires
        k < c.geometry_mappings@.len(),
    ensures
        ids::views(errs@) == crate::mapping::parameter_errors(
            c.geometry_mappings@[k as int].policy,
            c.geometry_mappings@[k as int].parameters@,
            target_skeleton(*c),
        ),
{
    let m = &c.geometry_mappings[k];
    match &c.source_skeleton {
        Some(s) => crate::mapping::mapping_parameter_errors(m, Some(s)),
        None => {
            let names = ids::split_csv(c.target_keypoint_names.as_str());
            if names.len() > 0 {
                let sk = skeleton_from_names(&names);
                crate::mapping::mapping_parameter_errors(m, Some(&sk))
            } else {
                crate::mapping::mapping_parameter_errors(m, None)
            }
        },
    }
}

/// Records every message as an error at one input.
fn push_errors_at(
    validation: &mut ImportMappingValidation,
    index: usize,
    field: ImportMappingField,
    messages: &Vec<String>,
)
    ensures
        final(validation)@ == add_all_unique(
            old(validation)@,
            ids::views(messages@).map_values(|msg: Seq<char>| error_at(Some(index), field, msg)),
        ),
{
    let ghost start = validation@;
    let ghost all = ids::views(messages@).map_values(|msg: Seq<char>| error_at(Some(index), field, msg));
    let mut j: usize = 0;
    while j < messages.len()
        invariant
            j <= messages@.len(),
            all == ids::views(messages@).map_values(|msg: Seq<char>| error_at(Some(index), field, msg)),
            validation@ == add_all_unique(start, all.subrange(0, j as int)),
        decreases messages.len() - j,
    {
        proof {
            assert(all.subrange(0, j + 1).drop_last() =~= all.subrange(0, j as int));
            assert(all[j as int] == error_at(Some(index), field, messages@[j as int]@));
        }
        push_mapping_issue(validation, ImportMappingIssueSeverity::Error, Some(index), field, messages[j].clone());
        j += 1;
    }
    assert(all.subrange(0, all.len() as int) =~= all);
}

fn push_policy_issues(
    validation: &mut ImportMappingValidation,
    d: &ImportMappingDraft,
    c: &ImportCategoryDraft,
    i: usize,
    k: usize,
    box_active: bool,
)
    requires
        k < c.geometry_mappings@.len(),
        box_active == produces(*c, ImportGeometryKind::BoundingBox),
    ensures
        final(validation)@ == add_all_unique(old(validation)@, policy_candidates(*d, *c, i, k as int)),
{
    let ghost start = validation@;
    let m = &c.geometry_mappings[k];
    let field = ImportMappingField::Geometry(m.target_geometry);
    let manual = match &d.capabilities {
        Some(caps) => caps.manual_box_guide_migration,
        None => false,
    };
    match m.policy {
        ImportGeometryPolicy::KeypointEnvelopeV1 => {
            proof { lemma_add_one(start, policy_candidates(*d, *c, i, k as int)[0]); }
            push_mapping_issue(
                validation,
                ImportMappingIssueSeverity::Warning,
                Some(i),
                field,
                text::to_string("Derived envelopes are pending seeds and require acknowledgement after preflight."),
            );
        },
        ImportGeometryPolicy::BoxRelativeTemplateV1 => {
            proof { lemma_add_one(start, policy_candidates(*d, *c, i, k as int)[0]); }
            push_mapping_issue(
                validation,
                ImportMappingIssueSeverity::Warning,
                Some(i),
                field,
                text::to_string("Template skeletons are derived pending seeds and require acknowledgement after preflight."),
            );
        },
        ImportGeometryPolicy::ManualBoxGuideV1 => {
            let ghost x1 = issue_if(
                !manual_available(*d),
                error_at(Some(i), field, "Manual box-guide migration is not available on this server."@),
            );
            let ghost x2 = issue_if(
                !d.exhaustive,
                error_at(Some(i), field, "Manual box-guide migration requires an exhaustive source attestation."@),
            );
            let ghost x3 = issue_if(
                c.source_skeleton is Some || c.direct_geometry@.contains(ImportGeometryKind::Skeleton),
                error_at(Some(i), field, "Manual box-guide migration only supports categories without source skeleton geometry."@),
            );
            let ghost x4 = issue_if(
                !produces(*c, ImportGeometryKind::BoundingBox),
                error_at(Some(i), field, "Manual migration requires a direct bounding-box guide output."@),
            );
            push_issue_if(
                validation,
                !manual,
                ImportMappingIssueSeverity::Error,
                Some(i),
                field,
                text::to_string("Manual box-guide migration is not available on this server."),
            );
            push_issue_if(
                validation,
                !d.exhaustive,
                ImportMappingIssueSeverity::Error,
                Some(i),
                field,
                text::to_string("Manual box-guide migration requires an exhaustive source attestation."),
            );
            let skeleton_source = c.source_skeleton.is_some() || crate::mapping::geometry_available(
                &c.direct_geometry,
                ImportGeometryKind::Skeleton,
            );
            push_issue_if(
                validation,
                skeleton_source,
                ImportMappingIssueSeverity::Error,
                Some(i),
                field,
                text::to_string("Manual box-guide migration only supports categories without source skeleton geometry."),
            );
            push_issue_if(
                validation,
                !box_active,
                ImportMappingIssueSeverity::Error,
                Some(i),
                field,
                text::to_string("Manual migration requires a direct bounding-box guide output."),
            );
            proof {
                lemma_add_all_concat(start, x1, x2);
                lemma_add_all_concat(start, x1 + x2, x3);
                lemma_add_all_concat(start, x1 + x2 + x3, x4);
            }
        },
        ImportGeometryPolicy::Omit => {
            proof { lemma_add_one(start, policy_candidates(*d, *c, i, k as int)[0]); }
            push_mapping_issue(
                validation,
                ImportMappingIssueSeverity::Warning,
                Some(i),
                field,
                text::to_string("This annotation output will not be imported for the category."),
            );
        },
        ImportGeometryPolicy::Direct => {
            assert(add_all_unique(start, Seq::<IssueView>::empty()) == start);
        },
    }
}

fn choice_offered(choices: &Vec<crate::mapping::ImportGeometryChoice>, policy: ImportGeometryPolicy, source: ImportGeometryKind) -> (r: bool)
    ensures
        r == choice_supported(crate::mapping::choice_views(choices@), policy, source),
{
    let ghost cv = crate::mapping::choice_views(choices@);
    let mut j: usize = 0;
    while j < choices.len()
        invariant
            j <= choices@.len(),
            cv == crate::mapping::choice_views(choices@),
            forall|x: int| 0 <= x < j ==> !((#[trigger] cv[x]).1 == policy && (policy == ImportGeometryPolicy::Omit || cv[x].0 == source)),
        decreases choices.len() - j,
    {
        let ch = &choices[j];
        assert(cv[j as int] == (ch.source, ch.policy, ch.label@));
        if ch.policy == policy && (policy == ImportGeometryPolicy::Omit || ch.source == source) {
            return true;
        }
        j += 1;
    }
    false
}

fn push_mapping_issues(
    validation: &mut ImportMappingValidation,
    d: &ImportMappingDraft,
    c: &ImportCategoryDraft,
    i: usize,
    k: usize,
    box_active: bool,
)
    requires
        k < c.geometry_mappings@.len(),
        box_active == produces(*c, ImportGeometryKind::BoundingBox),
    ensures
        final(validation)@ == add_all_unique(old(validation)@, mapping_candidates(*d, *c, i, k as int)),
{
    let ghost start = validation@;
    let m = &c.geometry_mappings[k];
    let field = ImportMappingField::Geometry(m.target_geometry);
    let ghost x1 = issue_if(
        exists|j: int| 0 <= j < k && (#[trigger] c.geometry_mappings@[j]).target_geometry == m.target_geometry,
        error_at(Some(i), field, "Each category can define a target output only once."@),
    );
    let ghost x2 = issue_if(
        m.policy != ImportGeometryPolicy::Omit && !c.direct_geometry@.contains(m.source_geometry),
        error_at(Some(i), field, "The selected source geometry was not discovered for this category."@),
    );
    let ghost x3 = issue_if(
        !choice_supported(
            crate::mapping::target_choices(m.target_geometry, c.direct_geometry@, manual_available(*d), c.source_skeleton is Some),
            m.policy,
            m.source_geometry,
        ),
        error_at(Some(i), field, "Choose a supported source-to-output transformation."@),
    );
    let ghost x4 = crate::mapping::parameter_errors(m.policy, m.parameters@, target_skeleton(*c)).map_values(
        |msg: Seq<char>| error_at(Some(i), field, msg),
    );
    let ghost x5 = policy_candidates(*d, *c, i, k as int);
    let mut seen = false;
    let mut j: usize = 0;
    while j < k
        invariant
            j <= k < c.geometry_mappings@.len(),
            *m == c.geometry_mappings@[k as int],
            seen == exists|x: int| 0 <= x < j && (#[trigger] c.geometry_mappings@[x]).target_geometry == m.target_geometry,
        decreases k - j,
    {
        if c.geometry_mappings[j].target_geometry == m.target_geometry {
            seen = true;
        }
        j += 1;
    }
    push_issue_if(
        validation,
        seen,
        ImportMappingIssueSeverity::Error,
        Some(i),
        field,
        text::to_string("Each category can define a target output only once."),
    );
    push_issue_if(
        validation,
        m.policy != ImportGeometryPolicy::Omit && !crate::mapping::geometry_available(&c.direct_geometry, m.source_geometry),
        ImportMappingIssueSeverity::Error,
        Some(i),
        field,
        text::to_string("The selected source geometry was not discovered for this category."),
    );
    let manual = match &d.capabilities {
        Some(caps) => caps.manual_box_guide_migration,
        None => false,
    };
    let choices = crate::mapping::geometry_choices_for_target(
        m.target_geometry,
        &c.direct_geometry,
        manual,
        c.source_skeleton.is_some(),
    );
    push_issue_if(
        validation,
        !choice_offered(&choices, m.policy, m.source_geometry),
        ImportMappingIssueSeverity::Error,
        Some(i),
        field,
        text::to_string("Choose a supported source-to-output transformation."),
    );
    let errs = category_parameter_errors(c, k);
    push_errors_at(validation, i, field, &errs);
    push_policy_issues(validation, d, c, i, k, box_active);
    proof {
        lemma_add_all_concat(start, x1, x2);
        lemma_add_all_concat(start, x1 + x2, x3);
        lemma_add_all_concat(start, x1 + x2 + x3, x4);
        lemma_add_all_concat(start, x1 + x2 + x3 + x4, x5);
        assert(mapping_candidates(*d, *c, i, k as int) == x1 + x2 + x3 + x4 + x5);
    }
}

fn push_category_issues(validation: &mut ImportMappingValidation, d: &ImportMappingDraft, i: usize)
    requires
        i < d.categories@.len(),
    ensures
        final(validation)@ == add_all_unique(old(validation)@, category_candidates(*d, i as int)),
{
    let ghost start = validation@;
    let c = &d.categories[i];
    let ghost h = category_head(*c, i);
    push_category_head(validation, c, i);
    if !c.selected {
        let ghost w = warning_at(
            Some(i),
            ImportMappingField::CategorySelection,
            "This source category and its annotations will be excluded from the import."@,
        );
        let ghost mid = validation@;
        push_mapping_issue(
            validation,
            ImportMappingIssueSeverity::Warning,
            Some(i),
            ImportMappingField::CategorySelection,
            text::to_string("This source category and its annotations will be excluded from the import."),
        );
        proof {
            lemma_add_one(mid, w);
            lemma_add_all_concat(start, h, seq![w]);
        }
        return;
    }
    let box_active = produces_kind(c, ImportGeometryKind::BoundingBox);
    let skeleton_active = produces_kind(c, ImportGeometryKind::Skeleton);
    let ghost x2 = issue_if(
        !box_active && !skeleton_active,
        error_at(Some(i), ImportMappingField::CategorySelection, "An included category must produce at least one annotation output."@),
    );
    push_issue_if(
        validation,
        !box_active && !skeleton_active,
        ImportMappingIssueSeverity::Error,
        Some(i),
        ImportMappingField::CategorySelection,
        text::to_string("An included category must produce at least one annotation output."),
    );
    let ghost s2 = validation@;
    let mut k: usize = 0;
    while k < c.geometry_mappings.len()
        invariant
            k <= c.geometry_mappings@.len(),
            i < d.categories@.len(),
            *c == d.categories@[i as int],
            box_active == produces(*c, ImportGeometryKind::BoundingBox),
            validation@ == add_all_unique(s2, mappings_candidates(*d, *c, i, k as nat)),
        decreases c.geometry_mappings.len() - k,
    {
        let ghost before = validation@;
        push_mapping_issues(validation, d, c, i, k, box_active);
        proof {
            lemma_add_all_concat(s2, mappings_candidates(*d, *c, i, k as nat), mapping_candidates(*d, *c, i, k as int));
        }
        k += 1;
    }
    let ghost x3 = mappings_candidates(*d, *c, i, c.geometry_mappings@.len());
    push_box_task_issues(validation, c, i, box_active);
    push_skeleton_task_issues(validation, d, c, i, skeleton_active);
    push_intent_issues(validation, d, c, i);
    proof {
        let x4 = box_task_candidates(*c, i);
        let x5 = skeleton_task_candidates(*d, *c, i);
        let x6 = intent_candidates(*d, *c, i);
        assert(add_all_unique(start, Seq::<IssueView>::empty()) == start);
        lemma_add_all_concat(start, h, x2);
        lemma_add_all_concat(start, h + x2, x3);
        lemma_add_all_concat(start, h + x2 + x3, x4);
        lemma_add_all_concat(start, h + x2 + x3 + x4, x5);
        lemma_add_all_concat(start, h + x2 + x3 + x4 + x5, x6);
        assert(category_candidates(*d, i as int) == h + x2 + x3 + x4 + x5 + x6);
    }
}

fn trimmed_key(s: &str) -> (r: Vec<char>)
    ensures
        r@ == text::trim(s@),
{
    text::trimmed_chars(s)
}

fn source_key_owner_list(d: &ImportMappingDraft) -> (owners: Vec<KeyOwner>)
    ensures
        owner_views(owners@) == source_key_owners(*d),
{
    let mut owners: Vec<KeyOwner> = Vec::new();
    let mut i: usize = 0;
    while i < d.categories.len()
        invariant
            i <= d.categories@.len(),
            owner_views(owners@) =~= source_key_owners(*d).subrange(0, i as int),
        decreases d.categories.len() - i,
    {
        let ghost before = owners@;
        owners.push(KeyOwner {
            key: trimmed_key(d.categories[i].source_category_key.as_str()),
            index: i,
            field: ImportMappingField::Form,
        });
        assert(owner_views(owners@) =~= owner_views(before).push(source_key_owners(*d)[i as int]));
        assert(source_key_owners(*d).subrange(0, i + 1) =~= source_key_owners(*d).subrange(0, i as int).push(source_key_owners(*d)[i as int]));
        i += 1;
    }
    owners
}

fn class_owner_list(d: &ImportMappingDraft) -> (owners: Vec<KeyOwner>)
    ensures
        owner_views(owners@) == class_owners(*d, d.categories@.len()),
{
    let mut owners: Vec<KeyOwner> = Vec::new();
    let mut i: usize = 0;
    while i < d.categories.len()
        invariant
            i <= d.categories@.len(),
            owner_views(owners@) == class_owners(*d, i as nat),
        decreases d.categories.len() - i,
    {
        let ghost before = owner_views(owners@);
        let c = &d.categories[i];
        if c.selected {
            owners.push(KeyOwner { key: trimmed_key(c.class_id.as_str()), index: i, field: ImportMappingField::ClassId });
        }
        assert(owner_views(owners@) =~= class_owners(*d, (i + 1) as nat));
        i += 1;
    }
    owners
}

fn task_owner_list(d: &ImportMappingDraft) -> (owners: Vec<KeyOwner>)
    ensures
        owner_views(owners@) == task_owners(*d, d.categories@.len()),
{
    let mut owners: Vec<KeyOwner> = Vec::new();
    let mut i: usize = 0;
    while i < d.categories.len()
        invariant
            i <= d.categories@.len(),
            owner_views(owners@) == task_owners(*d, i as nat),
        decreases d.categories.len() - i,
    {
        let ghost before = owner_views(owners@);
        let c = &d.categories[i];
        if c.selected {
            if produces_kind(c, ImportGeometryKind::BoundingBox) {
                owners.push(KeyOwner {
                    key: trimmed_key(c.bounding_box_task_id.as_str()),
                    index: i,
                    field: ImportMappingField::BoundingBoxTaskId,
                });
            }
            if produces_kind(c, ImportGeometryKind::Skeleton) {
                owners.push(KeyOwner {
                    key: trimmed_key(c.skeleton_task_id.as_str()),
                    index: i,
                    field: ImportMappingField::SkeletonTaskId,
                });
            }
        }
        assert(owner_views(owners@) =~= task_owners(*d, (i + 1) as nat));
        i += 1;
    }
    owners
}

fn push_generated_issue(validation: &mut ImportMappingValidation, d: &ImportMappingDraft)
    requires
        d.categories@.len() <= usize::MAX / 2,
    ensures
        final(validation)@ == add_all_unique(old(validation)@, generated_candidates(*d)),
{
    let mut g: usize = 0;
    let mut i: usize = 0;
    while i < d.categories.len()
        invariant
            i <= d.categories@.len(),
            d.categories@.len() <= usize::MAX / 2,
            g <= 2 * i,
            g == generated_tasks(*d, i as nat),
        decreases d.categories.len() - i,
    {
        let c = &d.categories[i];
        if c.selected && produces_kind(c, ImportGeometryKind::BoundingBox) {
            g += 1;
        }
        if c.selected && produces_kind(c, ImportGeometryKind::Skeleton) {
            g += 1;
        }
        i += 1;
    }
    match &d.capabilities {
        Some(caps) => {
            let limit = caps.limits.max_generated_tasks;
            let mut m = text::with_number("The mapping generates ", g as u64);
            text::push_str(&mut m, " tasks; the server limit is ");
            text::push_decimal(&mut m, limit);
            text::push_str(&mut m, ".");
            push_issue_if(validation, g as u64 > limit, ImportMappingIssueSeverity::Error, None, ImportMappingField::Form, m);
        },
        None => {
            assert(add_all_unique(validation@, Seq::<IssueView>::empty()) == validation@);
        },
    }
}

fn push_seed_issue(validation: &mut ImportMappingValidation, d: &ImportMappingDraft)
    ensures
        final(validation)@ == add_all_unique(old(validation)@, seed_candidates(*d)),
{
    let mut any = false;
    let mut i: usize = 0;
    while i < d.categories.len()
        invariant
            i <= d.categories@.len(),
            any == exists|j: int|
                0 <= j < i && (#[trigger] d.categories@[j]).selected
                    && d.categories@[j].workflow_intent == ImportWorkflowIntent::SeedFutureAnnotation,
        decreases d.categories.len() - i,
    {
        let c = &d.categories[i];
        if c.selected && c.workflow_intent == ImportWorkflowIntent::SeedFutureAnnotation {
            any = true;
        }
        i += 1;
    }
    push_issue_if(
        validation,
        any && !d.seed_workflow_confirmed,
        ImportMappingIssueSeverity::Error,
        None,
        ImportMappingField::SeedConfirmation,
        text::to_string("Confirm the selected pending seed workflows before saving."),
    );
}

fn push_compatibility_issues(validation: &mut ImportMappingValidation, profile: ImportProfile, c: &ImportCompatibility)
    ensures
        final(validation)@ == add_all_unique(old(validation)@, compatibility_candidates(profile, *c)),
{
    let ghost start = validation@;
    let yolo = profile == ImportProfile::UltralyticsYoloDetectV1 || profile == ImportProfile::UltralyticsYoloPoseV1;
    let coco = profile == ImportProfile::CocoInstancesGtV1 || profile == ImportProfile::CocoKeypointsGtV1;
    let ghost all = compatibility_candidates(profile, *c);
    let ghost y1 = if yolo {
        match c.yolo_missing_labels {
            YoloMissingLabelPolicy::Incomplete => seq![compatibility_note(
                ImportCompatibilityField::YoloMissingLabels,
                "If a label file is missing, coverage remains incomplete."@,
            )],
            YoloMissingLabelPolicy::MissingIsBackground => seq![compatibility_note(
                ImportCompatibilityField::YoloMissingLabels,
                "Missing label files will be treated as verified background and require acknowledgement when encountered."@,
            )],
            YoloMissingLabelPolicy::Block => Seq::<IssueView>::empty(),
        }
    } else {
        Seq::<IssueView>::empty()
    };
    let ghost y2 = issue_if(
        yolo && c.yolo_duplicate_rows == YoloDuplicateRowPolicy::Deduplicate,
        compatibility_note(
            ImportCompatibilityField::YoloDuplicateRows,
            "Exact duplicate YOLO rows will be discarded and require acknowledgement when encountered."@,
        ),
    );
    let ghost y3 = issue_if(
        yolo && profile == ImportProfile::UltralyticsYoloPoseV1 && c.missing_keypoint_names
            == MissingKeypointNamesPolicy::GenerateIndexed,
        compatibility_note(
            ImportCompatibilityField::MissingKeypointNames,
            "Missing keypoint names will be generated by index without inferred edges."@,
        ),
    );
    let ghost c1 = if coco {
        match c.coco_crowds {
            CocoCrowdPolicy::Incomplete => seq![compatibility_note(
                ImportCompatibilityField::CocoCrowds,
                "Crowd objects will be skipped and leave coverage incomplete."@,
            )],
            CocoCrowdPolicy::ExcludeImageTask => seq![compatibility_note(
                ImportCompatibilityField::CocoCrowds,
                "Crowd objects will exclude the affected image-task pair."@,
            )],
            CocoCrowdPolicy::Block => Seq::<IssueView>::empty(),
        }
    } else {
        Seq::<IssueView>::empty()
    };
    let ghost c2 = issue_if(
        coco && c.coco_structure == CocoStructurePolicy::BboxCompatibility,
        compatibility_note(
            ImportCompatibilityField::CocoStructure,
            "BBox compatibility may synthesize noncanonical COCO fields and always requires acknowledgement."@,
        ),
    );
    let ghost g1 = issue_if(
        c.geometry_bounds == GeometryBoundsPolicy::Clip,
        compatibility_note(
            ImportCompatibilityField::GeometryBounds,
            "Out-of-bounds geometry will be clipped as derived pending data and requires acknowledgement."@,
        ),
    );
    let ghost g2 = issue_if(
        c.cross_split_duplicates == CrossSplitDuplicatePolicy::MergeMemberships,
        compatibility_note(
            ImportCompatibilityField::CrossSplitDuplicates,
            "Duplicate images will retain multiple split memberships and require acknowledgement when encountered."@,
        ),
    );
    let field = ImportMappingField::Compatibility(ImportCompatibilityField::YoloMissingLabels);
    let missing_incomplete = yolo && c.yolo_missing_labels == YoloMissingLabelPolicy::Incomplete;
    let missing_background = yolo && c.yolo_missing_labels == YoloMissingLabelPolicy::MissingIsBackground;
    proof {
        assert(y1 =~= issue_if(missing_incomplete, compatibility_note(
            ImportCompatibilityField::YoloMissingLabels,
            "If a label file is missing, coverage remains incomplete."@,
        )) + issue_if(missing_background, compatibility_note(
            ImportCompatibilityField::YoloMissingLabels,
            "Missing label files will be treated as verified background and require acknowledgement when encountered."@,
        )));
    }
    let ghost y1a = issue_if(missing_incomplete, compatibility_note(
        ImportCompatibilityField::YoloMissingLabels,
        "If a label file is missing, coverage remains incomplete."@,
    ));
    let ghost y1b = issue_if(missing_background, compatibility_note(
        ImportCompatibilityField::YoloMissingLabels,
        "Missing label files will be treated as verified background and require acknowledgement when encountered."@,
    ));
    push_issue_if(
        validation,
        missing_incomplete,
        ImportMappingIssueSeverity::Warning,
        None,
        field,
        text::to_string("If a label file is missing, coverage remains incomplete."),
    );
    push_issue_if(
        validation,
        missing_background,
        ImportMappingIssueSeverity::Warning,
        None,
        field,
        text::to_string("Missing label files will be treated as verified background and require acknowledgement when encountered."),
    );
    push_issue_if(
        validation,
        yolo && c.yolo_duplicate_rows == YoloDuplicateRowPolicy::Deduplicate,
        ImportMappingIssueSeverity::Warning,
        None,
        ImportMappingField::Compatibility(ImportCompatibilityField::YoloDuplicateRows),
        text::to_string("Exact duplicate YOLO rows will be discarded and require acknowledgement when encountered."),
    );
    push_issue_if(
        validation,
        yolo && profile == ImportProfile::UltralyticsYoloPoseV1 && c.missing_keypoint_names
            == MissingKeypointNamesPolicy::GenerateIndexed,
        ImportMappingIssueSeverity::Warning,
        None,
        ImportMappingField::Compatibility(ImportCompatibilityField::MissingKeypointNames),
        text::to_string("Missing keypoint names will be generated by index without inferred edges."),
    );
    let crowd_field = ImportMappingField::Compatibility(ImportCompatibilityField::CocoCrowds);
    let crowd_incomplete = coco && c.coco_crowds == CocoCrowdPolicy::Incomplete;
    let crowd_exclude = coco && c.coco_crowds == CocoCrowdPolicy::ExcludeImageTask;
    let ghost c1a = issue_if(crowd_incomplete, compatibility_note(
        ImportCompatibilityField::CocoCrowds,
        "Crowd objects will be skipped and leave coverage incomplete."@,
    ));
    let ghost c1b = issue_if(crowd_exclude, compatibility_note(
        ImportCompatibilityField::CocoCrowds,
        "Crowd objects will exclude the affected image-task pair."@,
    ));
    assert(c1 =~= c1a + c1b);
    push_issue_if(
        validation,
        crowd_incomplete,
        ImportMappingIssueSeverity::Warning,
        None,
        crowd_field,
        text::to_string("Crowd objects will be skipped and leave coverage incomplete."),
    );
    push_issue_if(
        validation,
        crowd_exclude,
        ImportMappingIssueSeverity::Warning,
        None,
        crowd_field,
        text::to_string("Crowd objects will exclude the affected image-task pair."),
    );
    push_issue_if(
        validation,
        coco && c.coco_structure == CocoStructurePolicy::BboxCompatibility,
        ImportMappingIssueSeverity::Warning,
        None,
        ImportMappingField::Compatibility(ImportCompatibilityField::CocoStructure),
        text::to_string("BBox compatibility may synthesize noncanonical COCO fields and always requires acknowledgement."),
    );
    push_issue_if(
        validation,
        c.geometry_bounds == GeometryBoundsPolicy::Clip,
        ImportMappingIssueSeverity::Warning,
        None,
        ImportMappingField::Compatibility(ImportCompatibilityField::GeometryBounds),
        text::to_string("Out-of-bounds geometry will be clipped as derived pending data and requires acknowledgement."),
    );
    push_issue_if(
        validation,
        c.cross_split_duplicates == CrossSplitDuplicatePolicy::MergeMemberships,
        ImportMappingIssueSeverity::Warning,
        None,
        ImportMappingField::Compatibility(ImportCompatibilityField::CrossSplitDuplicates),
        text::to_string("Duplicate images will retain multiple split memberships and require acknowledgement when encountered."),
    );
    proof {
        lemma_add_all_concat(start, y1a, y1b);
        lemma_add_all_concat(start, y1a + y1b, y2);
        lemma_add_all_concat(start, y1a + y1b + y2, y3);
        lemma_add_all_concat(start, y1a + y1b + y2 + y3, c1a);
        lemma_add_all_concat(start, y1a + y1b + y2 + y3 + c1a, c1b);
        lemma_add_all_concat(start, y1a + y1b + y2 + y3 + c1a + c1b, c2);
        lemma_add_all_concat(start, y1a + y1b + y2 + y3 + c1a + c1b + c2, g1);
        lemma_add_all_concat(start, y1a + y1b + y2 + y3 + c1a + c1b + c2 + g1, g2);
        assert(all =~= y1a + y1b + y2 + y3 + c1a + c1b + c2 + g1 + g2);
    }
}

/// Validates an import mapping draft: the category count against preflight,
/// each category's fields, outputs, transformations, parameters, generated
/// workflows and intent, keys and IDs that must be unique, the server's task
/// limit, unconfirmed seed workflows, and notes on compatibility choices.
/// Each issue is recorded once, where it first comes up.
pub fn import_mapping_validation(d: &ImportMappingDraft) -> (v: ImportMappingValidation)
    requires
        d.categories@.len() <= usize::MAX / 2,
    ensures
        v@ == add_all_unique(Seq::empty(), draft_candidates(*d)),
{
    let mut validation = ImportMappingValidation::new();
    let ghost e = validation@;
    let n = d.categories.len();
    push_count_issues(&mut validation, d);
    push_selection_issue(&mut validation, d);
    let ghost s2 = validation@;
    let mut i: usize = 0;
    while i < n
        invariant
            i <= n,
            n == d.categories@.len(),
            validation@ == add_all_unique(s2, categories_candidates(*d, i as nat)),
        decreases n - i,
    {
        push_category_issues(&mut validation, d, i);
        proof {
            lemma_add_all_concat(s2, categories_candidates(*d, i as nat), category_candidates(*d, i as int));
        }
        i += 1;
    }
    push_owner_errors(
        &mut validation,
        &source_key_owner_list(d),
        "The server mapping contract contains a duplicate source category key.",
    );
    push_owner_errors(&mut validation, &class_owner_list(d), "Included categories must use unique class IDs.");
    push_owner_errors(&mut validation, &task_owner_list(d), "Every generated task must use a unique task ID.");
    push_generated_issue(&mut validation, d);
    push_seed_issue(&mut validation, d);
    push_compatibility_issues(&mut validation, d.profile, &d.compatibility);
    proof {
        let x1 = count_candidates(*d);
        let x2 = selection_candidates(*d);
        let x3 = categories_candidates(*d, n as nat);
        let x4 = owner_errors(source_key_owners(*d), "The server mapping contract contains a duplicate source category key."@);
        let x5 = owner_errors(class_owners(*d, n as nat), "Included categories must use unique class IDs."@);
        let x6 = owner_errors(task_owners(*d, n as nat), "Every generated task must use a unique task ID."@);
        let x7 = generated_candidates(*d);
        let x8 = seed_candidates(*d);
        let x9 = compatibility_candidates(d.profile, d.compatibility);
        lemma_add_all_concat(e, x1, x2);
        lemma_add_all_concat(e, x1 + x2, x3);
        lemma_add_all_concat(e, x1 + x2 + x3, x4);
        lemma_add_all_concat(e, x1 + x2 + x3 + x4, x5);
        lemma_add_all_concat(e, x1 + x2 + x3 + x4 + x5, x6);
        lemma_add_all_concat(e, x1 + x2 + x3 + x4 + x5 + x6, x7);
        lemma_add_all_concat(e, x1 + x2 + x3 + x4 + x5 + x6 + x7, x8);
        lemma_add_all_concat(e, x1 + x2 + x3 + x4 + x5 + x6 + x7 + x8, x9);
        assert(draft_candidates(*d) == x1 + x2 + x3 + x4 + x5 + x6 + x7 + x8 + x9);
    }
    validation
}

proof fn lemma_push_contains(s: Seq<IssueView>, v: IssueView)
    ensures
        forall|x: IssueView| s.push(v).contains(x) <==> (s.contains(x) || x == v),
{
    assert forall|x: IssueView| s.push(v).contains(x) <==> (s.contains(x) || x == v) by {
        if s.push(v).contains(x) {
            let j = choose|j: int| 0 <= j < s.push(v).len() && s.push(v)[j] == x;
            if j < s.len() {
                assert(s[j] == x);
            }
        }
        if s.contains(x) {
            let j = choose|j: int| 0 <= j < s.len() && s[j] == x;
            assert(s.push(v)[j] == x);
        }
        if x == v {
            assert(s.push(v)[s.len() as int] == v);
        }
    }
}

/// The issues a validation records are exactly the candidates, each once.
pub proof fn lemma_recorded_issues(acc: Seq<IssueView>, vs: Seq<IssueView>)
    ensures
        forall|x: IssueView| add_all_unique(acc, vs).contains(x) <==> (acc.contains(x) || vs.contains(x)),
        (forall|a: int, b: int| 0 <= a < b < acc.len() ==> acc[a] != acc[b]) ==> (forall|a: int, b: int|
            0 <= a < b < add_all_unique(acc, vs).len() ==> add_all_unique(acc, vs)[a] != add_all_unique(acc, vs)[b]),
    decreases vs.len(),
{
    if vs.len() > 0 {
        let p = vs.drop_last();
        let v = vs.last();
        lemma_recorded_issues(acc, p);
        let r = add_all_unique(acc, p);
        assert(vs =~= p.push(v));
        lemma_push_contains(p, v);
        lemma_push_contains(r, v);
        assert(add_all_unique(acc, vs) == add_unique(r, v));
    }
}

/// The validation holds each candidate issue of the draft exactly once, and
/// nothing else.
pub proof fn lemma_validation_issues(d: ImportMappingDraft)
    ensures
        forall|x: IssueView|
            add_all_unique(Seq::empty(), draft_candidates(d)).contains(x) <==> draft_candidates(d).contains(x),
        forall|a: int, b: int|
            0 <= a < b < add_all_unique(Seq::empty(), draft_candidates(d)).len() ==> add_all_unique(
                Seq::empty(),
                draft_candidates(d),
            )[a] != add_all_unique(Seq::empty(), draft_candidates(d))[b],
{
    lemma_recorded_issues(Seq::empty(), draft_candidates(d));
}

proof fn lemma_category_issue_listed(d: ImportMappingDraft, n: nat, i: int, x: IssueView)
    requires
        0 <= i < n,
        category_candidates(d, i).contains(x),
    ensures
        categories_candidates(d, n).contains(x),
    decreases n,
{
    let prev = categories_candidates(d, (n - 1) as nat);
    let last = category_candidates(d, n - 1);
    let all = categories_candidates(d, n);
    assert(all == prev + last);
    if i < n - 1 {
        lemma_category_issue_listed(d, (n - 1) as nat, i, x);
        let p = choose|p: int| 0 <= p < prev.len() && prev[p] == x;
        assert(all[p] == x);
    } else {
        let p = choose|p: int| 0 <= p < last.len() && last[p] == x;
        assert(all[prev.len() + p] == x);
    }
}

proof fn lemma_listed_severity_counts(s: Seq<IssueView>, x: IssueView)
    requires
        s.contains(x),
    ensures
        crate::mapping::severity_count(s, x.0) > 0,
    decreases s.len(),
{
    if s.last() != x {
        let p = choose|p: int| 0 <= p < s.len() && s[p] == x;
        assert(s.drop_last()[p] == x);
        lemma_listed_severity_counts(s.drop_last(), x);
    }
}

/// An included category that imports as authoritative ground truth from a
/// source not attested exhaustive draws an error at its workflow intent,
/// so the mappings cannot be saved; equivalently, mappings without errors
/// import authoritative ground truth only from an exhaustive source.
pub proof fn authoritative_intent_needs_exhaustive_source(d: ImportMappingDraft, i: int)
    requires
        d.categories@.len() <= usize::MAX,
        0 <= i < d.categories@.len(),
        d.categories@[i].selected,
        d.categories@[i].workflow_intent == ImportWorkflowIntent::AuthoritativeGroundTruth,
        !d.exhaustive,
    ensures
        add_all_unique(Seq::empty(), draft_candidates(d)).contains(
            (
                ImportMappingIssueSeverity::Error,
                Some(i as usize),
                ImportMappingField::WorkflowIntent,
                "Authoritative ground truth requires an exhaustive source attestation."@,
            ),
        ),
        crate::mapping::severity_count(add_all_unique(Seq::empty(), draft_candidates(d)), ImportMappingIssueSeverity::Error)
            > 0,
{
    let x = (
        ImportMappingIssueSeverity::Error,
        Some(i as usize),
        ImportMappingField::WorkflowIntent,
        "Authoritative ground truth requires an exhaustive source attestation."@,
    );
    let c = d.categories@[i];
    let ix = i as usize;
    let cand = category_candidates(d, i);
    let intent = intent_candidates(d, c, ix);
    assert(intent[0] == x);
    let front = category_head(c, ix) + issue_if(
        !produces(c, ImportGeometryKind::BoundingBox) && !produces(c, ImportGeometryKind::Skeleton),
        error_at(Some(ix), ImportMappingField::CategorySelection, "An included category must produce at least one annotation output."@),
    ) + mappings_candidates(d, c, ix, c.geometry_mappings@.len()) + box_task_candidates(c, ix)
        + skeleton_task_candidates(d, c, ix);
    assert(cand == front + intent);
    assert(cand[front.len() as int] == x);
    let n = d.categories@.len();
    lemma_category_issue_listed(d, n, i, x);
    let cats = categories_candidates(d, n);
    let lead = count_candidates(d) + selection_candidates(d);
    let p = choose|p: int| 0 <= p < cats.len() && cats[p] == x;
    let all = draft_candidates(d);
    assert(all[lead.len() + p] == x);
    assert(all.contains(x));
    lemma_validation_issues(d);
    assert(add_all_unique(Seq::empty(), all).contains(x));
    lemma_listed_severity_counts(add_all_unique(Seq::empty(), all), x);
}

/// Whether the draft can be saved: its validation holds no error.
pub fn import_mappings_complete(d: &ImportMappingDraft) -> (r: bool)
    requires
        d.categories@.len() <= usize::MAX / 2,
    ensures
        r == (crate::mapping::severity_count(
            add_all_unique(Seq::empty(), draft_candidates(*d)),
            ImportMappingIssueSeverity::Error,
        ) == 0),
{
    import_mapping_validation(d).is_valid()
}

/// The number of outputs category `c` produces.
pub open spec fn output_count(c: ImportCategoryDraft) -> nat {
    (if produces(c, ImportGeometryKind::BoundingBox) {
        1nat
    } else {
        0nat
    }) + (if produces(c, ImportGeometryKind::Skeleton) {
        1nat
    } else {
        0nat
    })
}

/// The number of included categories among the first `n`, and the number
/// of outputs they produce.
pub open spec fn required_outputs(cats: Seq<ImportCategoryDraft>, n: nat) -> (nat, nat)
    decreases n,
{
    if n == 0 {
        (0, 0)
    } else {
        let (s, t) = required_outputs(cats, (n - 1) as nat);
        if cats[n - 1].selected {
            (s + 1, t + output_count(cats[n - 1]))
        } else {
            (s, t)
        }
    }
}

/// The number of included categories and of outputs they must produce.
pub fn import_required_output_counts(categories: &Vec<ImportCategoryDraft>) -> (r: (u64, u64))
    requires
        categories@.len() <= usize::MAX / 2,
    ensures
        r.0 as nat == required_outputs(categories@, categories@.len()).0,
        r.1 as nat == required_outputs(categories@, categories@.len()).1,
{
    let mut selected: u64 = 0;
    let mut tasks: u64 = 0;
    let mut i: usize = 0;
    while i < categories.len()
        invariant
            i <= categories@.len(),
            categories@.len() <= usize::MAX / 2,
            selected <= i,
            tasks <= 2 * i,
            selected as nat == required_outputs(categories@, i as nat).0,
            tasks as nat == required_outputs(categories@, i as nat).1,
        decreases categories.len() - i,
    {
        let c = &categories[i];
        if c.selected {
            selected += 1;
            if produces_kind(c, ImportGeometryKind::BoundingBox) {
                tasks += 1;
            }
            if produces_kind(c, ImportGeometryKind::Skeleton) {
                tasks += 1;
            }
        }
        i += 1;
    }
    (selected, tasks)
}

/// The classes and workflows an accepted plan's report says it produces.
#[derive(Clone, Copy, Debug, PartialEq, Eq, Structural)]
pub struct PlanOutput {
    pub classes: u64,
    pub tasks: u64,
}

/// Whether the current plan covers the draft: some category is included,
/// the plan produces one class per included category and at least the
/// workflows their outputs need.
pub fn import_plan_covers_all_categories(categories: &Vec<ImportCategoryDraft>, plan: Option<PlanOutput>) -> (r: bool)
    requires
        categories@.len() <= usize::MAX / 2,
    ensures
        r == match plan {
            Some(p) => {
                let (s, t) = required_outputs(categories@, categories@.len());
                s > 0 && p.classes == s && p.tasks >= t
            },
            None => false,
        },
{
    match plan {
        Some(p) => {
            let (selected, tasks) = import_required_output_counts(categories);
            selected > 0 && p.classes == selected && p.tasks >= tasks
        },
        None => false,
    }
}

} // verus!
