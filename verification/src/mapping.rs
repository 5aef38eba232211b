//! Mapping issues, the transformations offered for each output geometry, and
//! the parameter checks of a single geometry mapping.
use vstd::prelude::*;
use crate::import_model::{
    ImportGeometryKind, ImportGeometryMappingRequest, ImportGeometryPolicy,
    ImportMappingParameter, KeypointState,
};
use crate::model::{KeypointSpec, SkeletonSpec};
use crate::text;

verus! {

/// Whether an issue blocks saving the mapping.
#[derive(Clone, Copy, Debug, PartialEq, Eq, Structural)]
pub enum ImportMappingIssueSeverity {
    Error,
    Warning,
}

/// A compatibility choice an issue is attached to.
#[derive(Clone, Copy, Debug, PartialEq, Eq, Structural)]
pub enum ImportCompatibilityField {
    YoloMissingLabels,
    YoloDuplicateRows,
    CocoCrowds,
    CocoStructure,
    GeometryBounds,
    CrossSplitDuplicates,
    MissingKeypointNames,
}

/// The input an issue is shown at.
#[derive(Clone, Copy, Debug, PartialEq, Eq, Structural)]
pub enum ImportMappingField {
    Form,
    CategorySelection,
    ClassId,
    ClassName,
    ClassColor,
    BoundingBoxTaskId,
    BoundingBoxTaskName,
    SkeletonTaskId,
    SkeletonTaskName,
    Geometry(ImportGeometryKind),
    TargetKeypointNames,
    WorkflowIntent,
    SeedConfirmation,
    Compatibility(ImportCompatibilityField),
}

/// One mapping issue: its severity, the category it belongs to (none for
/// form-wide issues), the input it is shown at, and its message.
#[derive(Debug)]
pub struct ImportMappingIssue {
    pub severity: ImportMappingIssueSeverity,
    pub category_index: Option<usize>,
    pub field: ImportMappingField,
    pub message: String,
}

/// An issue as a plain value.
pub type IssueView = (ImportMappingIssueSeverity, Option<usize>, ImportMappingField, Seq<char>);

impl View for ImportMappingIssue {
    type V = IssueView;

    open spec fn view(&self) -> IssueView {
        (self.severity, self.category_index, self.field, self.message@)
    }
}

impl Clone for ImportMappingIssue {
    fn clone(&self) -> (res: Self)
        ensures
            res@ == self@,
    {
        ImportMappingIssue {
            severity: self.severity,
            category_index: self.category_index,
            field: self.field,
            message: self.message.clone(),
        }
    }
}

/// The issues of a mapping draft, in the order they were found, each at
/// most once.
#[derive(Debug)]
pub struct ImportMappingValidation {
    pub issues: Vec<ImportMappingIssue>,
}

/// The plain values of a list of issues.
pub open spec fn issue_views(issues: Seq<ImportMappingIssue>) -> Seq<IssueView> {
    issues.map_values(|i: ImportMappingIssue| i@)
}

impl View for ImportMappingValidation {
    type V = Seq<IssueView>;

    open spec fn view(&self) -> Seq<IssueView> {
        issue_views(self.issues@)
    }
}

/// `acc` with `v` appended unless it already holds it.
pub open spec fn add_unique(acc: Seq<IssueView>, v: IssueView) -> Seq<IssueView> {
    if acc.contains(v) {
        acc
    } else {
        acc.push(v)
    }
}

/// `acc` with each of `vs` added in turn unless already present.
pub open spec fn add_all_unique(acc: Seq<IssueView>, vs: Seq<IssueView>) -> Seq<IssueView>
    decreases vs.len(),
{
    if vs.len() == 0 {
        acc
    } else {
        add_unique(add_all_unique(acc, vs.drop_last()), vs.last())
    }
}

/// The number of issues of severity `severity`.
pub open spec fn severity_count(issues: Seq<IssueView>, severity: ImportMappingIssueSeverity) -> nat
    decreases issues.len(),
{
    if issues.len() == 0 {
        0
    } else {
        severity_count(issues.drop_last(), severity) + if issues.last().0 == severity {
            1nat
        } else {
            0nat
        }
    }
}

/// The issues of one category (or of the form, for `None`) at one input.
pub open spec fn issues_at(
    issues: Seq<IssueView>,
    category_index: Option<usize>,
    field: ImportMappingField,
) -> Seq<IssueView> {
    issues.filter(|i: IssueView| i.1 == category_index && i.2 == field)
}

/// The errors and warnings recorded for category `index`.
pub open spec fn category_severity_count(
    issues: Seq<IssueView>,
    index: usize,
    severity: ImportMappingIssueSeverity,
) -> nat
    decreases issues.len(),
{
    if issues.len() == 0 {
        0
    } else {
        category_severity_count(issues.drop_last(), index, severity) + if issues.last().1 == Some(
            index,
        ) && issues.last().0 == severity {
            1nat
        } else {
            0nat
        }
    }
}

fn same_issue(a: &ImportMappingIssue, b: &ImportMappingIssue) -> (r: bool)
    ensures
        r == (a@ == b@),
{
    let same_index = match (a.category_index, b.category_index) {
        (Some(x), Some(y)) => x == y,
        (None, None) => true,
        _ => false,
    };
    a.severity == b.severity && same_index && a.field == b.field && a.message == b.message
}

impl ImportMappingValidation {
    /// A validation without issues.
    pub fn new() -> (v: Self)
        ensures
            v@ == Seq::<IssueView>::empty(),
    {
        let v = ImportMappingValidation { issues: Vec::new() };
        assert(v@ =~= Seq::<IssueView>::empty());
        v
    }

    /// Whether the validation already records `issue`.
    pub fn contains(&self, issue: &ImportMappingIssue) -> (r: bool)
        ensures
            r == self@.contains(issue@),
    {
        let mut i: usize = 0;
        while i < self.issues.len()
            invariant
                i <= self.issues@.len(),
                forall|j: int| 0 <= j < i ==> self@[j] != issue@,
            decreases self.issues.len() - i,
        {
            if same_issue(&self.issues[i], issue) {
                assert(self@[i as int] == issue@);
                return true;
            }
            i += 1;
        }
        false
    }

    /// The number of errors.
    pub fn error_count(&self) -> (n: usize)
        ensures
            n == severity_count(self@, ImportMappingIssueSeverity::Error),
    {
        self.severity_total(ImportMappingIssueSeverity::Error)
    }

    /// The number of warnings.
    pub fn warning_count(&self) -> (n: usize)
        ensures
            n == severity_count(self@, ImportMappingIssueSeverity::Warning),
    {
        self.severity_total(ImportMappingIssueSeverity::Warning)
    }

    fn severity_total(&self, severity: ImportMappingIssueSeverity) -> (n: usize)
        ensures
            n == severity_count(self@, severity),
    {
        let mut n: usize = 0;
        let mut i: usize = 0;
        while i < self.issues.len()
            invariant
                i <= self.issues@.len(),
                n <= i,
                n == severity_count(self@.subrange(0, i as int), severity),
            decreases self.issues.len() - i,
        {
            assert(self@.subrange(0, i + 1).drop_last() =~= self@.subrange(0, i as int));
            if self.issues[i].severity == severity {
                n += 1;
            }
            i += 1;
        }
        assert(self@.subrange(0, self@.len() as int) =~= self@);
        n
    }

    /// Whether the mapping has no errors; warnings do not block it.
    pub fn is_valid(&self) -> (r: bool)
        ensures
            r == (severity_count(self@, ImportMappingIssueSeverity::Error) == 0),
    {
        self.error_count() == 0
    }

    /// The issues of one category (or of the form) at one input, in order.
    pub fn for_field(&self, category_index: Option<usize>, field: ImportMappingField) -> (r: Vec<
        ImportMappingIssue,
    >)
        ensures
            issue_views(r@) == issues_at(self@, category_index, field),
    {
        let mut r: Vec<ImportMappingIssue> = Vec::new();
        let mut i: usize = 0;
        while i < self.issues.len()
            invariant
                i <= self.issues@.len(),
                issue_views(r@) == issues_at(self@.subrange(0, i as int), category_index, field),
            decreases self.issues.len() - i,
        {
            let ghost before = r@;
            let issue = &self.issues[i];
            let same_index = match (issue.category_index, category_index) {
                (Some(x), Some(y)) => x == y,
                (None, None) => true,
                _ => false,
            };
            assert(self@.subrange(0, i + 1).drop_last() =~= self@.subrange(0, i as int));
            reveal(Seq::filter);
            if same_index && issue.field == field {
                r.push(issue.clone());
                assert(issue_views(r@) =~= issue_views(before).push(self@[i as int]));
            }
            i += 1;
        }
        assert(self@.subrange(0, self@.len() as int) =~= self@);
        r
    }

    /// The numbers of errors and of warnings of category `category_index`.
    pub fn category_counts(&self, category_index: usize) -> (r: (usize, usize))
        ensures
            r.0 == category_severity_count(self@, category_index, ImportMappingIssueSeverity::Error),
            r.1 == category_severity_count(self@, category_index, ImportMappingIssueSeverity::Warning),
    {
        let mut errors: usize = 0;
        let mut warnings: usize = 0;
        let mut i: usize = 0;
        while i < self.issues.len()
            invariant
                i <= self.issues@.len(),
                errors + warnings <= i,
                errors == category_severity_count(self@.subrange(0, i as int), category_index, ImportMappingIssueSeverity::Error),
                warnings == category_severity_count(self@.subrange(0, i as int), category_index, ImportMappingIssueSeverity::Warning),
            decreases self.issues.len() - i,
        {
            assert(self@.subrange(0, i + 1).drop_last() =~= self@.subrange(0, i as int));
            let issue = &self.issues[i];
            let mine = match issue.category_index {
                Some(x) => x == category_index,
                None => false,
            };
            if mine {
                match issue.severity {
                    ImportMappingIssueSeverity::Error => errors += 1,
                    ImportMappingIssueSeverity::Warning => warnings += 1,
                }
            }
            i += 1;
        }
        assert(self@.subrange(0, self@.len() as int) =~= self@);
        (errors, warnings)
    }
}

/// Records an issue unless the validation already holds the same one.
pub fn push_mapping_issue(
    validation: &mut ImportMappingValidation,
    severity: ImportMappingIssueSeverity,
    category_index: Option<usize>,
    field: ImportMappingField,
    message: String,
)
    ensures
        final(validation)@ == add_unique(old(validation)@, (severity, category_index, field, message@)),
{
    let issue = ImportMappingIssue { severity, category_index, field, message };
    if !validation.contains(&issue) {
        validation.issues.push(issue);
        assert(validation@ =~= old(validation)@.push(issue@));
    }
}

/// The policies that can produce `target` from `source`, given the source
/// geometries that are available.
pub open spec fn mapping_policies(
    source: ImportGeometryKind,
    target: ImportGeometryKind,
    available: Seq<ImportGeometryKind>,
    manual_box_guide_available: bool,
) -> Seq<ImportGeometryPolicy> {
    let offered = if available.contains(source) {
        match (source, target) {
            (ImportGeometryKind::Skeleton, ImportGeometryKind::BoundingBox) => seq![ImportGeometryPolicy::KeypointEnvelopeV1],
            (ImportGeometryKind::BoundingBox, ImportGeometryKind::Skeleton) => if manual_box_guide_available {
                seq![ImportGeometryPolicy::BoxRelativeTemplateV1, ImportGeometryPolicy::ManualBoxGuideV1]
            } else {
                seq![ImportGeometryPolicy::BoxRelativeTemplateV1]
            },
            _ => seq![ImportGeometryPolicy::Direct],
        }
    } else {
        Seq::empty()
    };
    offered.push(ImportGeometryPolicy::Omit)
}

/// Whether `kind` is among the available source geometries.
pub fn geometry_available(available: &Vec<ImportGeometryKind>, kind: ImportGeometryKind) -> (r: bool)
    ensures
        r == available@.contains(kind),
{
    let mut i: usize = 0;
    while i < available.len()
        invariant
            i <= available@.len(),
            forall|j: int| 0 <= j < i ==> available@[j] != kind,
        decreases available.len() - i,
    {
        if available[i] == kind {
            assert(available@[i as int] == kind);
            return true;
        }
        i += 1;
    }
    false
}

/// The policies that can produce `target` from `source`; omitting the output
/// is always possible.
pub fn policies_for_mapping(
    source: ImportGeometryKind,
    target: ImportGeometryKind,
    available: &Vec<ImportGeometryKind>,
    manual_box_guide_available: bool,
) -> (r: Vec<ImportGeometryPolicy>)
    ensures
        r@ == mapping_policies(source, target, available@, manual_box_guide_available),
{
    let mut policies: Vec<ImportGeometryPolicy> = Vec::new();
    if geometry_available(available, source) {
        match (source, target) {
            (ImportGeometryKind::Skeleton, ImportGeometryKind::BoundingBox) => {
                policies.push(ImportGeometryPolicy::KeypointEnvelopeV1);
            },
            (ImportGeometryKind::BoundingBox, ImportGeometryKind::Skeleton) => {
                policies.push(ImportGeometryPolicy::BoxRelativeTemplateV1);
                if manual_box_guide_available {
                    policies.push(ImportGeometryPolicy::ManualBoxGuideV1);
                }
            },
            _ => {
                policies.push(ImportGeometryPolicy::Direct);
            },
        }
    }
    policies.push(ImportGeometryPolicy::Omit);
    assert(policies@ =~= mapping_policies(source, target, available@, manual_box_guide_available));
    policies
}

/// A transformation offered for one output geometry.
#[derive(Clone, Copy, Debug)]
pub struct ImportGeometryChoice {
    pub source: ImportGeometryKind,
    pub policy: ImportGeometryPolicy,
    pub label: &'static str,
}

/// A choice as a plain value.
pub type ChoiceView = (ImportGeometryKind, ImportGeometryPolicy, Seq<char>);

/// The plain values of a list of choices.
pub open spec fn choice_views(choices: Seq<ImportGeometryChoice>) -> Seq<ChoiceView> {
    choices.map_values(|c: ImportGeometryChoice| (c.source, c.policy, c.label@))
}

/// The transformations offered for `target`: direct ones first, then derived
/// ones, and always the option to omit the output.
pub open spec fn target_choices(
    target: ImportGeometryKind,
    available: Seq<ImportGeometryKind>,
    manual_box_guide_available: bool,
    has_source_skeleton: bool,
) -> Seq<ChoiceView> {
    let has_box = available.contains(ImportGeometryKind::BoundingBox);
    let has_skeleton = available.contains(ImportGeometryKind::Skeleton);
    let offered = match target {
        ImportGeometryKind::BoundingBox => (if has_box {
            seq![(ImportGeometryKind::BoundingBox, ImportGeometryPolicy::Direct, "Direct bounding boxes"@)]
        } else {
            Seq::empty()
        }) + (if has_skeleton {
            seq![(ImportGeometryKind::Skeleton, ImportGeometryPolicy::KeypointEnvelopeV1, "Derive boxes from skeletons"@)]
        } else {
            Seq::empty()
        }),
        ImportGeometryKind::Skeleton => (if has_skeleton {
            seq![(ImportGeometryKind::Skeleton, ImportGeometryPolicy::Direct, "Direct skeletons"@)]
        } else {
            Seq::empty()
        }) + (if has_box {
            seq![(ImportGeometryKind::BoundingBox, ImportGeometryPolicy::BoxRelativeTemplateV1, "Template skeletons from boxes"@)]
                + if manual_box_guide_available && !has_source_skeleton {
                seq![(ImportGeometryKind::BoundingBox, ImportGeometryPolicy::ManualBoxGuideV1, "Manual box guide"@)]
            } else {
                Seq::empty()
            }
        } else {
            Seq::empty()
        }),
    };
    let omit_source = if available.len() > 0 {
        available[0]
    } else {
        target
    };
    offered.push((omit_source, ImportGeometryPolicy::Omit, "Do not import this output"@))
}

fn push_choice(
    choices: &mut Vec<ImportGeometryChoice>,
    source: ImportGeometryKind,
    policy: ImportGeometryPolicy,
    label: &'static str,
)
    ensures
        choice_views(final(choices)@) == choice_views(old(choices)@).push((source, policy, label@)),
{
    choices.push(ImportGeometryChoice { source, policy, label });
    assert(choice_views(final(choices)@) =~= choice_views(old(choices)@).push((source, policy, label@)));
}

/// The transformations offered for one output geometry of a category.
pub fn geometry_choices_for_target(
    target: ImportGeometryKind,
    available: &Vec<ImportGeometryKind>,
    manual_box_guide_available: bool,
    has_source_skeleton: bool,
) -> (r: Vec<ImportGeometryChoice>)
    ensures
        choice_views(r@) == target_choices(target, available@, manual_box_guide_available, has_source_skeleton),
{
    let mut choices: Vec<ImportGeometryChoice> = Vec::new();
    let has_box = geometry_available(available, ImportGeometryKind::BoundingBox);
    let has_skeleton = geometry_available(available, ImportGeometryKind::Skeleton);
    match target {
        ImportGeometryKind::BoundingBox => {
            if has_box {
                push_choice(&mut choices, ImportGeometryKind::BoundingBox, ImportGeometryPolicy::Direct, "Direct bounding boxes");
            }
            if has_skeleton {
                push_choice(&mut choices, ImportGeometryKind::Skeleton, ImportGeometryPolicy::KeypointEnvelopeV1, "Derive boxes from skeletons");
            }
        },
        ImportGeometryKind::Skeleton => {
            if has_skeleton {
                push_choice(&mut choices, ImportGeometryKind::Skeleton, ImportGeometryPolicy::Direct, "Direct skeletons");
            }
            if has_box {
                push_choice(&mut choices, ImportGeometryKind::BoundingBox, ImportGeometryPolicy::BoxRelativeTemplateV1, "Template skeletons from boxes");
                if manual_box_guide_available && !has_source_skeleton {
                    push_choice(&mut choices, ImportGeometryKind::BoundingBox, ImportGeometryPolicy::ManualBoxGuideV1, "Manual box guide");
                }
            }
        },
    }
    let omit_source = if available.len() > 0 {
        available[0]
    } else {
        target
    };
    push_choice(&mut choices, omit_source, ImportGeometryPolicy::Omit, "Do not import this output");
    assert(choice_views(choices@) =~= target_choices(target, available@, manual_box_guide_available, has_source_skeleton));
    choices
}

/// A scalar name that sets the envelope padding.
pub open spec fn padding_name(n: Seq<char>) -> bool {
    n == "padding"@ || n == "padding_ratio"@ || n == "paddingRatio"@
}

/// A scalar name that sets the envelope's minimum size in pixels.
pub open spec fn minimum_pixels_name(n: Seq<char>) -> bool {
    n == "minimum_pixels"@ || n == "minimumPixels"@ || n == "min_pixels"@ || n == "minPixels"@
}

/// A flag name that says whether hidden keypoints count.
pub open spec fn include_hidden_name(n: Seq<char>) -> bool {
    n == "include_hidden"@ || n == "includeHidden"@ || n == "hidden"@
}

/// A padding scalar.
pub open spec fn is_padding(p: ImportMappingParameter) -> bool {
    p matches ImportMappingParameter::Scalar { name, .. } && padding_name(name@)
}

/// A minimum-pixels scalar.
pub open spec fn is_minimum_pixels(p: ImportMappingParameter) -> bool {
    p matches ImportMappingParameter::Scalar { name, .. } && minimum_pixels_name(name@)
}

/// An include-hidden flag.
pub open spec fn is_include_hidden(p: ImportMappingParameter) -> bool {
    p matches ImportMappingParameter::Boolean { name, .. } && include_hidden_name(name@)
}

/// Envelope parameter `i` is the first of its kind.
pub open spec fn fills_envelope_slot(params: Seq<ImportMappingParameter>, i: int) -> bool {
    ||| is_padding(params[i]) && forall|j: int| 0 <= j < i ==> !is_padding(#[trigger] params[j])
    ||| is_minimum_pixels(params[i]) && forall|j: int| 0 <= j < i ==> !is_minimum_pixels(#[trigger] params[j])
    ||| is_include_hidden(params[i]) && forall|j: int| 0 <= j < i ==> !is_include_hidden(#[trigger] params[j])
}

/// Whether the last padding scalar lies between 0 and 1, if there is one.
pub open spec fn last_padding_ok(params: Seq<ImportMappingParameter>) -> Option<bool>
    decreases params.len(),
{
    if params.len() == 0 {
        None
    } else if is_padding(params.last()) {
        Some(params.last()->unit_interval)
    } else {
        last_padding_ok(params.drop_last())
    }
}

/// Whether the last minimum-pixels scalar is a valid pixel count, if there
/// is one.
pub open spec fn last_minimum_ok(params: Seq<ImportMappingParameter>) -> Option<bool>
    decreases params.len(),
{
    if params.len() == 0 {
        None
    } else if is_minimum_pixels(params.last()) {
        Some(params.last()->pixel_count)
    } else {
        last_minimum_ok(params.drop_last())
    }
}

/// A value that is missing or out of range.
pub open spec fn missing_or_bad(v: Option<bool>) -> bool {
    match v {
        Some(ok) => !ok,
        None => true,
    }
}

/// The errors of keypoint-envelope parameters, sorted.
pub open spec fn envelope_errors(params: Seq<ImportMappingParameter>) -> Seq<Seq<char>> {
    crate::validation::opt(
        !exists|i: int| 0 <= i < params.len() && is_include_hidden(#[trigger] params[i]),
        "Choose whether hidden keypoints contribute to envelopes."@,
    ) + crate::validation::opt(
        missing_or_bad(last_minimum_ok(params)),
        "Envelope minimum pixels must be a whole number from 1 through 4294967295."@,
    ) + crate::validation::opt(
        missing_or_bad(last_padding_ok(params)),
        "Envelope padding must be between 0 and 1."@,
    ) + crate::validation::opt(
        exists|i: int| 0 <= i < params.len() && !#[trigger] fills_envelope_slot(params, i),
        "Envelope parameters must contain one padding, minimum-pixels, and hidden value."@,
    )
}

/// A keypoint as a plain value: its name and whether it is required.
pub type KeypointView = (Seq<char>, bool);

/// A skeleton as mapping checks read it: its keypoints, and whether hidden
/// and absent keypoints are allowed.
pub type SkeletonView = (Seq<KeypointView>, bool, bool);

/// The plain value of a skeleton specification.
pub open spec fn skeleton_view(s: SkeletonSpec) -> SkeletonView {
    (s.keypoints@.map_values(|k: KeypointSpec| (k.name@, k.required)), s.allow_hidden, s.allow_absent)
}

/// Template parameter `i` marks a keypoint the target skeleton cannot leave
/// absent.
pub open spec fn bad_absent(params: Seq<ImportMappingParameter>, s: SkeletonView, i: int) -> bool {
    params[i] matches ImportMappingParameter::Point { state, .. } && state == KeypointState::Absent
        && (!s.2 || s.0[i].1)
}

/// Template parameter `i` is a visible or hidden point.
pub open spec fn present_point(p: ImportMappingParameter) -> bool {
    p matches ImportMappingParameter::Point { state, .. } && state != KeypointState::Absent
}

/// Template parameter `i` is a point whose name differs from keypoint `i`.
pub open spec fn misnamed_point(params: Seq<ImportMappingParameter>, s: SkeletonView, i: int) -> bool {
    params[i] matches ImportMappingParameter::Point { name, .. } && name@ != s.0[i].0
}

/// A point with a coordinate outside 0 to 1.
pub open spec fn point_out_of_range(p: ImportMappingParameter) -> bool {
    p matches ImportMappingParameter::Point { in_unit_square, .. } && !in_unit_square
}

/// A hidden point.
pub open spec fn hidden_point(p: ImportMappingParameter) -> bool {
    p matches ImportMappingParameter::Point { state, .. } && state == KeypointState::Hidden
}

/// The errors of box-relative template parameters against the target
/// skeleton, sorted.
pub open spec fn template_errors(params: Seq<ImportMappingParameter>, skeleton: Option<SkeletonView>) -> Seq<Seq<char>> {
    match skeleton {
        None => seq!["Define a target skeleton before editing template points."@],
        Some(s) => if params.len() != s.0.len() || params.len() == 0 {
            seq!["Template points must define every target keypoint exactly once."@]
        } else {
            crate::validation::opt(
                exists|i: int| 0 <= i < params.len() && #[trigger] bad_absent(params, s, i),
                "A required target keypoint cannot be marked absent."@,
            ) + crate::validation::opt(
                !exists|i: int| 0 <= i < params.len() && present_point(#[trigger] params[i]),
                "At least one template keypoint must be present."@,
            ) + crate::validation::opt(
                exists|i: int| 0 <= i < params.len() && !(#[trigger] params[i] is Point),
                "Template parameters must be named points."@,
            ) + crate::validation::opt(
                exists|i: int| 0 <= i < params.len() && point_out_of_range(#[trigger] params[i]),
                "Template point coordinates must be between 0 and 1."@,
            ) + crate::validation::opt(
                exists|i: int| 0 <= i < params.len() && #[trigger] misnamed_point(params, s, i),
                "Template point names and order must match the target skeleton."@,
            ) + crate::validation::opt(
                exists|i: int| 0 <= i < params.len() && hidden_point(#[trigger] params[i]) && !s.1,
                "This target skeleton does not allow hidden keypoints."@,
            )
        },
    }
}

/// The parameter errors of one geometry mapping, sorted and without
/// repeats.
pub open spec fn parameter_errors(
    policy: ImportGeometryPolicy,
    params: Seq<ImportMappingParameter>,
    skeleton: Option<SkeletonView>,
) -> Seq<Seq<char>> {
    match policy {
        ImportGeometryPolicy::KeypointEnvelopeV1 => envelope_errors(params),
        ImportGeometryPolicy::BoxRelativeTemplateV1 => template_errors(params, skeleton),
        _ => crate::validation::opt(params.len() > 0, "This output policy does not accept parameters."@),
    }
}

/// The three kinds of envelope parameter names do not overlap.
proof fn lemma_envelope_names_disjoint(n: Seq<char>)
    ensures
        !(padding_name(n) && minimum_pixels_name(n)),
        !(padding_name(n) && include_hidden_name(n)),
        !(minimum_pixels_name(n) && include_hidden_name(n)),
{
    reveal_strlit("padding");
    reveal_strlit("padding_ratio");
    reveal_strlit("paddingRatio");
    reveal_strlit("minimum_pixels");
    reveal_strlit("minimumPixels");
    reveal_strlit("min_pixels");
    reveal_strlit("minPixels");
    reveal_strlit("include_hidden");
    reveal_strlit("includeHidden");
    reveal_strlit("hidden");
    if padding_name(n) {
        assert(n[0] == 'p');
    }
    if minimum_pixels_name(n) {
        assert(n[0] == 'm');
    }
}

fn is_padding_name(n: &str) -> (r: bool)
    ensures
        r == padding_name(n@),
{
    text::str_eq(n, "padding") || text::str_eq(n, "padding_ratio") || text::str_eq(n, "paddingRatio")
}

fn is_minimum_pixels_name(n: &str) -> (r: bool)
    ensures
        r == minimum_pixels_name(n@),
{
    text::str_eq(n, "minimum_pixels") || text::str_eq(n, "minimumPixels") || text::str_eq(n, "min_pixels")
        || text::str_eq(n, "minPixels")
}

fn is_include_hidden_name(n: &str) -> (r: bool)
    ensures
        r == include_hidden_name(n@),
{
    text::str_eq(n, "include_hidden") || text::str_eq(n, "includeHidden") || text::str_eq(n, "hidden")
}

fn envelope_parameter_errors(params: &Vec<ImportMappingParameter>) -> (r: Vec<String>)
    ensures
        crate::ids::views(r@) == envelope_errors(params@),
{
    let mut pad_seen = false;
    let mut pad_ok = false;
    let mut min_seen = false;
    let mut min_ok = false;
    let mut hid_seen = false;
    let mut bad = false;
    let mut i: usize = 0;
    while i < params.len()
        invariant
            i <= params@.len(),
            pad_seen == exists|j: int| 0 <= j < i && is_padding(#[trigger] params@[j]),
            min_seen == exists|j: int| 0 <= j < i && is_minimum_pixels(#[trigger] params@[j]),
            hid_seen == exists|j: int| 0 <= j < i && is_include_hidden(#[trigger] params@[j]),
            bad == exists|j: int| 0 <= j < i && !#[trigger] fills_envelope_slot(params@, j),
            last_padding_ok(params@.subrange(0, i as int)) == if pad_seen { Some(pad_ok) } else { None },
            last_minimum_ok(params@.subrange(0, i as int)) == if min_seen { Some(min_ok) } else { None },
        decreases params.len() - i,
    {
        let ghost sub = params@.subrange(0, i + 1);
        assert(sub.drop_last() =~= params@.subrange(0, i as int));
        assert(sub.last() == params@[i as int]);
        let ghost p = params@[i as int];
        proof {
            if let ImportMappingParameter::Scalar { name, .. } = p {
                lemma_envelope_names_disjoint(name@);
            }
            if let ImportMappingParameter::Boolean { name, .. } = p {
                lemma_envelope_names_disjoint(name@);
            }
            assert(!(is_padding(p) && is_minimum_pixels(p)));
        }
        let ghost was_pad = pad_seen;
        let ghost was_min = min_seen;
        let ghost was_hid = hid_seen;
        match &params[i] {
            ImportMappingParameter::Scalar { name, unit_interval, pixel_count } => {
                if is_padding_name(name.as_str()) {
                    if pad_seen {
                        bad = true;
                    }
                    pad_seen = true;
                    pad_ok = *unit_interval;
                } else if is_minimum_pixels_name(name.as_str()) {
                    if min_seen {
                        bad = true;
                    }
                    min_seen = true;
                    min_ok = *pixel_count;
                } else {
                    bad = true;
                }
            },
            ImportMappingParameter::Boolean { name, value } => {
                if is_include_hidden_name(name.as_str()) {
                    if hid_seen {
                        bad = true;
                    }
                    hid_seen = true;
                } else {
                    bad = true;
                }
            },
            ImportMappingParameter::Point { .. } => {
                bad = true;
            },
        }
        proof {
            assert(fills_envelope_slot(params@, i as int) == (
                (is_padding(p) && !was_pad) || (is_minimum_pixels(p) && !was_min) || (is_include_hidden(p) && !was_hid)));
        }
        i += 1;
    }
    assert(params@.subrange(0, params@.len() as int) =~= params@);
    let mut errors: Vec<String> = Vec::new();
    if !hid_seen {
        errors.push(text::to_string("Choose whether hidden keypoints contribute to envelopes."));
    }
    if !min_seen || !min_ok {
        errors.push(text::to_string("Envelope minimum pixels must be a whole number from 1 through 4294967295."));
    }
    if !pad_seen || !pad_ok {
        errors.push(text::to_string("Envelope padding must be between 0 and 1."));
    }
    if bad {
        errors.push(text::to_string("Envelope parameters must contain one padding, minimum-pixels, and hidden value."));
    }
    assert(crate::ids::views(errors@) =~= envelope_errors(params@));
    errors
}

fn template_parameter_errors(params: &Vec<ImportMappingParameter>, skeleton: &SkeletonSpec) -> (r: Vec<String>)
    requires
        params@.len() == skeleton.keypoints@.len(),
        params@.len() > 0,
    ensures
        crate::ids::views(r@) == template_errors(params@, Some(skeleton_view(*skeleton))),
{
    let mut absent_bad = false;
    let mut present = false;
    let mut not_point = false;
    let mut out_of_range = false;
    let mut misnamed = false;
    let mut hidden_bad = false;
    let mut i: usize = 0;
    while i < params.len()
        invariant
            i <= params@.len(),
            params@.len() == skeleton.keypoints@.len(),
            absent_bad == exists|j: int| 0 <= j < i && #[trigger] bad_absent(params@, skeleton_view(*skeleton), j),
            present == exists|j: int| 0 <= j < i && present_point(#[trigger] params@[j]),
            not_point == exists|j: int| 0 <= j < i && !(#[trigger] params@[j] is Point),
            out_of_range == exists|j: int| 0 <= j < i && point_out_of_range(#[trigger] params@[j]),
            misnamed == exists|j: int| 0 <= j < i && #[trigger] misnamed_point(params@, skeleton_view(*skeleton), j),
            hidden_bad == exists|j: int| 0 <= j < i && hidden_point(#[trigger] params@[j]) && !skeleton.allow_hidden,
        decreases params.len() - i,
    {
        match &params[i] {
            ImportMappingParameter::Point { name, in_unit_square, state } => {
                let spec = &skeleton.keypoints[i];
                if !text::str_eq(name.as_str(), spec.name.as_str()) {
                    misnamed = true;
                }
                if !*in_unit_square {
                    out_of_range = true;
                }
                match state {
                    KeypointState::Visible => {
                        present = true;
                    },
                    KeypointState::Hidden => {
                        present = true;
                        if !skeleton.allow_hidden {
                            hidden_bad = true;
                        }
                    },
                    KeypointState::Absent => {
                        if !skeleton.allow_absent || spec.required {
                            absent_bad = true;
                        }
                    },
                }
                assert(misnamed_point(params@, skeleton_view(*skeleton), i as int) == (name@ != spec.name@));
                assert(bad_absent(params@, skeleton_view(*skeleton), i as int) == (*state == KeypointState::Absent && (!skeleton.allow_absent || spec.required)));
            },
            _ => {
                not_point = true;
            },
        }
        i += 1;
    }
    let mut errors: Vec<String> = Vec::new();
    if absent_bad {
        errors.push(text::to_string("A required target keypoint cannot be marked absent."));
    }
    if !present {
        errors.push(text::to_string("At least one template keypoint must be present."));
    }
    if not_point {
        errors.push(text::to_string("Template parameters must be named points."));
    }
    if out_of_range {
        errors.push(text::to_string("Template point coordinates must be between 0 and 1."));
    }
    if misnamed {
        errors.push(text::to_string("Template point names and order must match the target skeleton."));
    }
    if hidden_bad {
        errors.push(text::to_string("This target skeleton does not allow hidden keypoints."));
    }
    assert(crate::ids::views(errors@) =~= template_errors(params@, Some(skeleton_view(*skeleton))));
    errors
}

/// The plain value of an optional skeleton reference.
pub open spec fn opt_skeleton(skeleton: Option<&SkeletonSpec>) -> Option<SkeletonView> {
    match skeleton {
        Some(s) => Some(skeleton_view(*s)),
        None => None,
    }
}

/// The parameter errors of one geometry mapping against its target
/// skeleton, sorted and without repeats: policies without parameters accept
/// none, an envelope needs one valid padding, minimum size and hidden flag,
/// and a template needs one in-range point per target keypoint, in order,
/// with states the skeleton allows and at least one present.
pub fn mapping_parameter_errors(mapping: &ImportGeometryMappingRequest, skeleton: Option<&SkeletonSpec>) -> (r: Vec<String>)
    ensures
        crate::ids::views(r@) == parameter_errors(mapping.policy, mapping.parameters@, opt_skeleton(skeleton)),
{
    match mapping.policy {
        ImportGeometryPolicy::KeypointEnvelopeV1 => envelope_parameter_errors(&mapping.parameters),
        ImportGeometryPolicy::BoxRelativeTemplateV1 => {
            match skeleton {
                None => {
                    let mut errors: Vec<String> = Vec::new();
                    errors.push(text::to_string("Define a target skeleton before editing template points."));
                    assert(crate::ids::views(errors@) =~= parameter_errors(mapping.policy, mapping.parameters@, opt_skeleton(skeleton)));
                    errors
                },
                Some(s) => {
                    if mapping.parameters.len() != s.keypoints.len() || mapping.parameters.len() == 0 {
                        let mut errors: Vec<String> = Vec::new();
                        errors.push(text::to_string("Template points must define every target keypoint exactly once."));
                        assert(crate::ids::views(errors@) =~= parameter_errors(mapping.policy, mapping.parameters@, opt_skeleton(skeleton)));
                        errors
                    } else {
                        template_parameter_errors(&mapping.parameters, s)
                    }
                },
            }
        },
        _ => {
            let mut errors: Vec<String> = Vec::new();
            if mapping.parameters.len() > 0 {
                errors.push(text::to_string("This output policy does not accept parameters."));
            }
            assert(crate::ids::views(errors@) =~= parameter_errors(mapping.policy, mapping.parameters@, opt_skeleton(skeleton)));
            errors
        },
    }
}

} // verus!
