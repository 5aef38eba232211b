//! Keeping a mapping draft consistent while it is edited: default mappings
//! for new categories and the scope of the seed-workflow confirmation.
use vstd::prelude::*;
use crate::diagnostics::join;
use crate::ids;
use crate::import_model::{
    ImportCategoryDraft, ImportGeometryKind, ImportGeometryMappingRequest, ImportGeometryPolicy,
    ImportMappingDraft, ImportWorkflowIntent,
};
use crate::text;

verus! {

/// The debug name of a geometry kind.
pub open spec fn kind_name(k: ImportGeometryKind) -> Seq<char> {
    match k {
        ImportGeometryKind::BoundingBox => "BoundingBox"@,
        ImportGeometryKind::Skeleton => "Skeleton"@,
    }
}

/// The debug name of a policy.
pub open spec fn policy_name(p: ImportGeometryPolicy) -> Seq<char> {
    match p {
        ImportGeometryPolicy::Direct => "Direct"@,
        ImportGeometryPolicy::KeypointEnvelopeV1 => "KeypointEnvelopeV1"@,
        ImportGeometryPolicy::BoxRelativeTemplateV1 => "BoxRelativeTemplateV1"@,
        ImportGeometryPolicy::ManualBoxGuideV1 => "ManualBoxGuideV1"@,
        ImportGeometryPolicy::Omit => "Omit"@,
    }
}

fn kind_text(k: ImportGeometryKind) -> (r: &'static str)
    ensures
        r@ == kind_name(k),
{
    match k {
        ImportGeometryKind::BoundingBox => "BoundingBox",
        ImportGeometryKind::Skeleton => "Skeleton",
    }
}

fn policy_text(p: ImportGeometryPolicy) -> (r: &'static str)
    ensures
        r@ == policy_name(p),
{
    match p {
        ImportGeometryPolicy::Direct => "Direct",
        ImportGeometryPolicy::KeypointEnvelopeV1 => "KeypointEnvelopeV1",
        ImportGeometryPolicy::BoxRelativeTemplateV1 => "BoxRelativeTemplateV1",
        ImportGeometryPolicy::ManualBoxGuideV1 => "ManualBoxGuideV1",
        ImportGeometryPolicy::Omit => "Omit",
    }
}

/// `source:target:policy` for each output a category produces.
pub open spec fn output_entries(maps: Seq<ImportGeometryMappingRequest>, n: nat) -> Seq<Seq<char>>
    decreases n,
{
    if n == 0 {
        Seq::empty()
    } else {
        let m = maps[n - 1];
        output_entries(maps, (n - 1) as nat) + if m.policy != ImportGeometryPolicy::Omit {
            seq![kind_name(m.source_geometry) + ":"@ + kind_name(m.target_geometry) + ":"@ + policy_name(m.policy)]
        } else {
            Seq::<Seq<char>>::empty()
        }
    }
}

/// `key=outputs` for each included seed-workflow category among the first
/// `n`.
pub open spec fn seed_entries(cats: Seq<ImportCategoryDraft>, n: nat) -> Seq<Seq<char>>
    decreases n,
{
    if n == 0 {
        Seq::empty()
    } else {
        let c = cats[n - 1];
        seed_entries(cats, (n - 1) as nat) + if c.selected && c.workflow_intent == ImportWorkflowIntent::SeedFutureAnnotation {
            seq![c.source_category_key@ + "="@ + join(output_entries(c.geometry_mappings@, c.geometry_mappings@.len()), ","@)]
        } else {
            Seq::<Seq<char>>::empty()
        }
    }
}

/// What a seed-workflow confirmation covers: the included seed-workflow
/// categories and their outputs, or nothing when there are none.
pub open spec fn seed_scope(cats: Seq<ImportCategoryDraft>) -> Option<Seq<char>> {
    let entries = seed_entries(cats, cats.len());
    if entries.len() == 0 {
        None
    } else {
        Some(join(entries, "|"@))
    }
}

fn output_list(c: &ImportCategoryDraft) -> (r: String)
    ensures
        r@ == join(output_entries(c.geometry_mappings@, c.geometry_mappings@.len()), ","@),
{
    let mut entries: Vec<String> = Vec::new();
    let mut k: usize = 0;
    while k < c.geometry_mappings.len()
        invariant
            k <= c.geometry_mappings@.len(),
            ids::views(entries@) == output_entries(c.geometry_mappings@, k as nat),
        decreases c.geometry_mappings.len() - k,
    {
        let m = &c.geometry_mappings[k];
        let ghost before = ids::views(entries@);
        if m.policy != ImportGeometryPolicy::Omit {
            let e = text::concat5(kind_text(m.source_geometry), ":", kind_text(m.target_geometry), ":", policy_text(m.policy));
            entries.push(e);
        }
        assert(ids::views(entries@) =~= output_entries(c.geometry_mappings@, (k + 1) as nat));
        k += 1;
    }
    crate::diagnostics::join_strings(&entries, ",")
}

/// Whether two optional texts are equal.
fn same_text(a: &Option<String>, b: &Option<String>) -> (r: bool)
    ensures
        r == match (a, b) {
            (Some(x), Some(y)) => x@ == y@,
            (None, None) => true,
            _ => false,
        },
{
    match (a, b) {
        (Some(x), Some(y)) => text::str_eq(x.as_str(), y.as_str()),
        (None, None) => true,
        _ => false,
    }
}

impl ImportMappingDraft {
    /// What a seed-workflow confirmation given now would cover.
    pub fn seed_workflow_scope(&self) -> (r: Option<String>)
        ensures
            match r {
                Some(s) => seed_scope(self.categories@) == Some(s@),
                None => seed_scope(self.categories@) is None,
            },
    {
        let mut entries: Vec<String> = Vec::new();
        let mut i: usize = 0;
        while i < self.categories.len()
            invariant
                i <= self.categories@.len(),
                ids::views(entries@) == seed_entries(self.categories@, i as nat),
            decreases self.categories.len() - i,
        {
            let c = &self.categories[i];
            let ghost before = ids::views(entries@);
            if c.selected && c.workflow_intent == ImportWorkflowIntent::SeedFutureAnnotation {
                let outputs = output_list(c);
                entries.push(text::concat3(c.source_category_key.as_str(), "=", outputs.as_str()));
            }
            assert(ids::views(entries@) =~= seed_entries(self.categories@, (i + 1) as nat));
            i += 1;
        }
        if entries.len() == 0 {
            None
        } else {
            Some(crate::diagnostics::join_strings(&entries, "|"))
        }
    }

    /// Withdraws the seed-workflow confirmation when what it would cover has
    /// changed since it was given, and records the new scope.
    pub fn sync_seed_workflow_confirmation_scope(&mut self)
        ensures
            ({
                let scope = seed_scope(old(self).categories@);
                let stored = match old(self).seed_workflow_confirmation_scope {
                    Some(s) => Some(s@),
                    None => None,
                };
                &&& stored == scope ==> *final(self) == *old(self)
                &&& stored != scope ==> {
                    &&& !final(self).seed_workflow_confirmed
                    &&& match final(self).seed_workflow_confirmation_scope {
                        Some(s) => scope == Some(s@),
                        None => scope is None,
                    }
                    &&& *final(self) == (ImportMappingDraft {
                        seed_workflow_confirmed: false,
                        seed_workflow_confirmation_scope: final(self).seed_workflow_confirmation_scope,
                        ..*old(self)
                    })
                }
            }),
    {
        let scope = self.seed_workflow_scope();
        if !same_text(&self.seed_workflow_confirmation_scope, &scope) {
            self.seed_workflow_confirmation_scope = scope;
            self.seed_workflow_confirmed = false;
        }
    }

    /// Gives every category without mappings one direct mapping per
    /// geometry its source provides; other categories keep theirs.
    pub fn normalize_mapping_draft(&mut self)
        ensures
            draft_normalized(*old(self), *final(self)),
    {
        let n = self.categories.len();
        let mut i: usize = 0;
        while i < n
            invariant
                i <= n,
                n == old(self).categories@.len(),
                self.categories@.len() == n,
                forall|j: int| 0 <= j < i ==> #[trigger] default_mappings_added(old(self).categories@[j], self.categories@[j]),
                forall|j: int| i <= j < n ==> #[trigger] self.categories@[j] == old(self).categories@[j],
                *self == (ImportMappingDraft { categories: self.categories, ..*old(self) }),
            decreases n - i,
        {
            if self.categories[i].geometry_mappings.len() == 0 {
                let defaults = direct_mappings(&self.categories[i]);
                let mut c = self.categories.remove(i);
                c.geometry_mappings = defaults;
                self.categories.insert(i, c);
            }
            i += 1;
        }
    }
}

/// `after` is `before` with default mappings added to every category that
/// had none, and nothing else changed.
pub open spec fn draft_normalized(before: ImportMappingDraft, after: ImportMappingDraft) -> bool {
    &&& after.categories@.len() == before.categories@.len()
    &&& forall|i: int|
        0 <= i < before.categories@.len() ==> #[trigger] default_mappings_added(before.categories@[i], after.categories@[i])
    &&& after == (ImportMappingDraft { categories: after.categories, ..before })
}

/// Normalizing a draft a second time adds nothing: every category keeps
/// the mappings the first pass left, and everything else stays as it was.
pub proof fn normalizing_twice_changes_nothing(d0: ImportMappingDraft, d1: ImportMappingDraft, d2: ImportMappingDraft)
    requires
        draft_normalized(d0, d1),
        draft_normalized(d1, d2),
    ensures
        d2.categories@.len() == d1.categories@.len(),
        forall|i: int|
            0 <= i < d1.categories@.len() ==> (#[trigger] d2.categories@[i]).geometry_mappings@
                == d1.categories@[i].geometry_mappings@ && d2.categories@[i] == (ImportCategoryDraft {
                geometry_mappings: d2.categories@[i].geometry_mappings,
                ..d1.categories@[i]
            }),
        d2 == (ImportMappingDraft { categories: d2.categories, ..d1 }),
{
    assert forall|i: int| 0 <= i < d1.categories@.len() implies (#[trigger] d2.categories@[i]).geometry_mappings@
        == d1.categories@[i].geometry_mappings@ && d2.categories@[i] == (ImportCategoryDraft {
        geometry_mappings: d2.categories@[i].geometry_mappings,
        ..d1.categories@[i]
    }) by {
        assert(default_mappings_added(d0.categories@[i], d1.categories@[i]));
        assert(default_mappings_added(d1.categories@[i], d2.categories@[i]));
        if d1.categories@[i].geometry_mappings@.len() == 0 {
            assert(d2.categories@[i].geometry_mappings@ =~= d1.categories@[i].geometry_mappings@);
        }
    }
}

/// The direct mapping of one discovered geometry of a category.
pub open spec fn is_direct_mapping(m: ImportGeometryMappingRequest, key: Seq<char>, g: ImportGeometryKind) -> bool {
    &&& m.source_category_key@ == key
    &&& m.source_geometry == g
    &&& m.target_geometry == g
    &&& m.policy == ImportGeometryPolicy::Direct
    &&& m.parameters@.len() == 0
}

/// `after` is `before`, with one direct mapping per discovered geometry
/// when `before` had no mapping.
pub open spec fn default_mappings_added(before: ImportCategoryDraft, after: ImportCategoryDraft) -> bool {
    if before.geometry_mappings@.len() == 0 {
        &&& after.geometry_mappings@.len() == before.direct_geometry@.len()
        &&& forall|k: int|
            0 <= k < before.direct_geometry@.len() ==> is_direct_mapping(
                #[trigger] after.geometry_mappings@[k],
                before.source_category_key@,
                before.direct_geometry@[k],
            )
        &&& after == (ImportCategoryDraft { geometry_mappings: after.geometry_mappings, ..before })
    } else {
        after == before
    }
}

fn direct_mappings(c: &ImportCategoryDraft) -> (r: Vec<ImportGeometryMappingRequest>)
    ensures
        r@.len() == c.direct_geometry@.len(),
        forall|k: int|
            0 <= k < c.direct_geometry@.len() ==> is_direct_mapping(#[trigger] r@[k], c.source_category_key@, c.direct_geometry@[k]),
{
    let mut r: Vec<ImportGeometryMappingRequest> = Vec::new();
    let mut k: usize = 0;
    while k < c.direct_geometry.len()
        invariant
            k <= c.direct_geometry@.len(),
            r@.len() == k,
            forall|j: int| 0 <= j < k ==> is_direct_mapping(#[trigger] r@[j], c.source_category_key@, c.direct_geometry@[j]),
        decreases c.direct_geometry.len() - k,
    {
        let g = c.direct_geometry[k];
        r.push(ImportGeometryMappingRequest {
            source_category_key: c.source_category_key.clone(),
            source_geometry: g,
            target_geometry: g,
            policy: ImportGeometryPolicy::Direct,
            parameters: Vec::new(),
        });
        k += 1;
    }
    r
}

} // verus!
