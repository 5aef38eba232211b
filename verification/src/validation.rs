//! Validation of a staged dataset configuration.
//!
//! Each check returns the human-readable issues it finds, in the order the
//! configuration lists the offending entries.
use vstd::prelude::*;
use vstd::string::StringSliceAdditionalSpecFns;
use crate::ids;
use crate::model::{
    AnnotationType, DatasetMetadata, DatasetRole, DatasetRoleAssignment, ImbalanceConfig,
    KeypointSpec, LabelClass, PrelabelConfig, ReviewWorkflow, SkeletonEdge, SkeletonSpec,
    TaskDefinition,
};
use crate::schema;
use crate::text;

verus! {

/// One issue when `cond` holds, none otherwise.
pub open spec fn opt(cond: bool, m: Seq<char>) -> Seq<Seq<char>> {
    if cond {
        seq![m]
    } else {
        Seq::empty()
    }
}

/// Appends one issue.
pub fn push_issue(issues: &mut Vec<String>, m: String)
    ensures
        ids::views(final(issues)@) == ids::views(old(issues)@) + seq![m@],
{
    issues.push(m);
    assert(ids::views(final(issues)@) =~= ids::views(old(issues)@) + seq![m@]);
}

/// Appends `m` when `cond` holds.
pub fn push_when(issues: &mut Vec<String>, cond: bool, m: String)
    ensures
        ids::views(final(issues)@) == ids::views(old(issues)@) + opt(cond, m@),
{
    if cond {
        push_issue(issues, m);
    } else {
        assert(ids::views(final(issues)@) =~= ids::views(old(issues)@) + opt(cond, m@));
    }
}

/// The issue about an identifier `v` reported under `ctx`.
pub open spec fn id_issues(ctx: Seq<char>, v: Seq<char>) -> Seq<Seq<char>> {
    if v.len() == 0 {
        seq![ctx + ": enter a non-empty ID."@]
    } else if !ids::safe_id_bytes(vstd::utf8::encode_utf8(v)) {
        seq![
            ctx + ": ID '"@ + v
                + "' is unsafe; use one path-safe segment under 256 bytes with no '/', '\\', control characters, '.' or '..'."@,
        ]
    } else {
        Seq::empty()
    }
}

/// Reports an empty or path-unsafe identifier.
pub fn validate_id(issues: &mut Vec<String>, context: &str, value: &str)
    ensures
        ids::views(final(issues)@) == ids::views(old(issues)@) + id_issues(context@, value@),
{
    if value.is_empty() {
        push_issue(issues, text::concat2(context, ": enter a non-empty ID."));
    } else if !ids::is_safe_id(value) {
        push_issue(
            issues,
            text::concat4(
                context,
                ": ID '",
                value,
                "' is unsafe; use one path-safe segment under 256 bytes with no '/', '\\', control characters, '.' or '..'.",
            ),
        );
    } else {
        assert(ids::views(final(issues)@) =~= ids::views(old(issues)@) + id_issues(context@, value@));
    }
}

/// Some keypoint before position `i` has the same name as keypoint `i`.
pub open spec fn keypoint_name_seen(kps: Seq<KeypointSpec>, i: int) -> bool {
    exists|j: int| 0 <= j < i && #[trigger] kps[j].name@ == kps[i].name@
}

/// The issues of keypoint `i`.
pub open spec fn keypoint_issue(ctx: Seq<char>, kps: Seq<KeypointSpec>, i: int) -> Seq<Seq<char>> {
    opt(
        text::all_space(kps[i].name@),
        ctx + ": keypoint "@ + text::decimal((i + 1) as nat) + " needs a non-empty name."@,
    ) + opt(
        keypoint_name_seen(kps, i),
        ctx + ": keypoint name '"@ + kps[i].name@ + "' is duplicated; choose a unique name."@,
    )
}

/// The issues of the first `n` keypoints.
pub open spec fn keypoint_issues(ctx: Seq<char>, kps: Seq<KeypointSpec>, n: nat) -> Seq<Seq<char>>
    decreases n,
{
    if n == 0 {
        Seq::empty()
    } else {
        keypoint_issues(ctx, kps, (n - 1) as nat) + keypoint_issue(ctx, kps, n - 1)
    }
}

/// Some keypoint is named `v`.
pub open spec fn is_keypoint_name(kps: Seq<KeypointSpec>, v: Seq<char>) -> bool {
    exists|j: int| 0 <= j < kps.len() && #[trigger] kps[j].name@ == v
}

/// Some edge before position `i` joins the same keypoints as edge `i`.
pub open spec fn edge_seen(edges: Seq<SkeletonEdge>, i: int) -> bool {
    exists|j: int|
        0 <= j < i && schema::same_edge(#[trigger] edges[j].from@, edges[j].to@, edges[i].from@, edges[i].to@)
}

/// The issues of edge `i`.
pub open spec fn edge_issue(ctx: Seq<char>, s: SkeletonSpec, i: int) -> Seq<Seq<char>> {
    let e = s.edges@[i];
    let ec = ctx + " edge "@ + text::decimal((i + 1) as nat);
    opt(
        !is_keypoint_name(s.keypoints@, e.from@),
        ec + ": from endpoint '"@ + e.from@ + "' is not an existing keypoint."@,
    ) + opt(
        !is_keypoint_name(s.keypoints@, e.to@),
        ec + ": to endpoint '"@ + e.to@ + "' is not an existing keypoint."@,
    ) + opt(e.from@ == e.to@, ec + ": from and to must be different keypoints."@) + opt(
        edge_seen(s.edges@, i),
        ec + ": edge '"@ + e.from@ + " - "@ + e.to@ + "' is duplicated."@,
    )
}

/// The issues of the first `n` edges.
pub open spec fn edge_issues(ctx: Seq<char>, s: SkeletonSpec, n: nat) -> Seq<Seq<char>>
    decreases n,
{
    if n == 0 {
        Seq::empty()
    } else {
        edge_issues(ctx, s, (n - 1) as nat) + edge_issue(ctx, s, n - 1)
    }
}

/// All issues of a skeleton specification reported under `ctx`.
pub open spec fn skeleton_issue_list(s: SkeletonSpec, ctx: Seq<char>) -> Seq<Seq<char>> {
    opt(s.keypoints@.len() == 0, ctx + ": add at least one keypoint."@) + keypoint_issues(
        ctx,
        s.keypoints@,
        s.keypoints@.len(),
    ) + edge_issues(ctx, s, s.edges@.len())
}

fn keypoint_seen_before(kps: &Vec<KeypointSpec>, i: usize) -> (r: bool)
    requires
        i < kps@.len(),
    ensures
        r == keypoint_name_seen(kps@, i as int),
{
    let mut j: usize = 0;
    while j < i
        invariant
            i < kps@.len(),
            j <= i,
            forall|k: int| 0 <= k < j ==> #[trigger] kps@[k].name@ != kps@[i as int].name@,
        decreases i - j,
    {
        if kps[j].name == kps[i].name {
            return true;
        }
        j += 1;
    }
    false
}

fn keypoint_named(kps: &Vec<KeypointSpec>, v: &str) -> (r: bool)
    ensures
        r == is_keypoint_name(kps@, v@),
{
    let mut j: usize = 0;
    while j < kps.len()
        invariant
            j <= kps@.len(),
            forall|k: int| 0 <= k < j ==> #[trigger] kps@[k].name@ != v@,
        decreases kps.len() - j,
    {
        if text::str_eq(kps[j].name.as_str(), v) {
            return true;
        }
        j += 1;
    }
    false
}

fn edge_seen_before(edges: &Vec<SkeletonEdge>, i: usize) -> (r: bool)
    requires
        i < edges@.len(),
    ensures
        r == edge_seen(edges@, i as int),
{
    let e = &edges[i];
    let mut j: usize = 0;
    while j < i
        invariant
            i < edges@.len(),
            *e == edges@[i as int],
            j <= i,
            forall|k: int|
                0 <= k < j ==> !schema::same_edge(#[trigger] edges@[k].from@, edges@[k].to@, e.from@, e.to@),
        decreases i - j,
    {
        let other = &edges[j];
        if (other.from == e.from && other.to == e.to) || (other.from == e.to && other.to == e.from) {
            return true;
        }
        j += 1;
    }
    false
}

/// Reports the problems of a skeleton specification: no keypoints, blank or
/// repeated keypoint names, and edges with unknown, equal or repeated
/// endpoints.
pub fn skeleton_issues(skeleton: &SkeletonSpec, context: &str) -> (issues: Vec<String>)
    ensures
        ids::views(issues@) == skeleton_issue_list(*skeleton, context@),
{
    let mut issues: Vec<String> = Vec::new();
    if skeleton.keypoints.len() == 0 {
        push_issue(&mut issues, text::concat2(context, ": add at least one keypoint."));
    }
    assert(ids::views(issues@) =~= opt(skeleton.keypoints@.len() == 0, context@ + ": add at least one keypoint."@));
    let ghost head = ids::views(issues@);
    let mut i: usize = 0;
    while i < skeleton.keypoints.len()
        invariant
            i <= skeleton.keypoints@.len(),
            ids::views(issues@) == head + keypoint_issues(context@, skeleton.keypoints@, i as nat),
        decreases skeleton.keypoints.len() - i,
    {
        let ghost before = ids::views(issues@);
        let kp = &skeleton.keypoints[i];
        if text::is_blank(kp.name.as_str()) {
            let mut m = text::concat2(context, ": keypoint ");
            text::push_decimal(&mut m, (i + 1) as u64);
            text::push_str(&mut m, " needs a non-empty name.");
            push_issue(&mut issues, m);
        }
        if keypoint_seen_before(&skeleton.keypoints, i) {
            push_issue(
                &mut issues,
                text::concat4(context, ": keypoint name '", kp.name.as_str(), "' is duplicated; choose a unique name."),
            );
        }
        assert(ids::views(issues@) =~= before + keypoint_issue(context@, skeleton.keypoints@, i as int));
        i += 1;
    }
    let ghost mid = ids::views(issues@);
    let mut i: usize = 0;
    while i < skeleton.edges.len()
        invariant
            i <= skeleton.edges@.len(),
            ids::views(issues@) == mid + edge_issues(context@, *skeleton, i as nat),
        decreases skeleton.edges.len() - i,
    {
        let ghost before = ids::views(issues@);
        let edge = &skeleton.edges[i];
        let mut ec = text::concat2(context, " edge ");
        text::push_decimal(&mut ec, (i + 1) as u64);
        if !keypoint_named(&skeleton.keypoints, edge.from.as_str()) {
            push_issue(
                &mut issues,
                text::concat4(ec.as_str(), ": from endpoint '", edge.from.as_str(), "' is not an existing keypoint."),
            );
        }
        if !keypoint_named(&skeleton.keypoints, edge.to.as_str()) {
            push_issue(
                &mut issues,
                text::concat4(ec.as_str(), ": to endpoint '", edge.to.as_str(), "' is not an existing keypoint."),
            );
        }
        if edge.from == edge.to {
            push_issue(&mut issues, text::concat2(ec.as_str(), ": from and to must be different keypoints."));
        }
        if edge_seen_before(&skeleton.edges, i) {
            let mut m = text::concat4(ec.as_str(), ": edge '", edge.from.as_str(), " - ");
            text::push_str(&mut m, edge.to.as_str());
            text::push_str(&mut m, "' is duplicated.");
            push_issue(&mut issues, m);
        }
        assert(ids::views(issues@) =~= before + edge_issue(context@, *skeleton, i as int));
        i += 1;
    }
    issues
}

/// A skeleton specification is sound: it has a keypoint, every keypoint has
/// a name that is not blank and unlike every other, and every edge joins two
/// different existing keypoints and no other edge joins the same two, in
/// either direction.
pub open spec fn sound_skeleton(s: SkeletonSpec) -> bool {
    let kps = s.keypoints@;
    let edges = s.edges@;
    &&& kps.len() > 0
    &&& forall|i: int| 0 <= i < kps.len() ==> !text::all_space(#[trigger] kps[i].name@)
    &&& forall|i: int, j: int| 0 <= i < j < kps.len() ==> #[trigger] kps[i].name@ != #[trigger] kps[j].name@
    &&& forall|i: int|
        0 <= i < edges.len() ==> {
            &&& is_keypoint_name(kps, #[trigger] edges[i].from@)
            &&& is_keypoint_name(kps, edges[i].to@)
            &&& edges[i].from@ != edges[i].to@
        }
    &&& forall|i: int, j: int|
        0 <= i < j < edges.len() ==> !schema::same_edge(
            #[trigger] edges[i].from@,
            edges[i].to@,
            #[trigger] edges[j].from@,
            edges[j].to@,
        )
}

proof fn keypoint_issues_empty(ctx: Seq<char>, kps: Seq<KeypointSpec>, n: nat)
    requires
        n <= kps.len(),
    ensures
        keypoint_issues(ctx, kps, n).len() == 0 <==> forall|i: int|
            0 <= i < n ==> !text::all_space(#[trigger] kps[i].name@) && !keypoint_name_seen(kps, i),
    decreases n,
{
    if n > 0 {
        keypoint_issues_empty(ctx, kps, (n - 1) as nat);
        let last = n - 1;
        if keypoint_issues(ctx, kps, n).len() == 0 {
            assert forall|i: int| 0 <= i < n implies !text::all_space(#[trigger] kps[i].name@) && !keypoint_name_seen(kps, i) by {
                if i < last {
                } else {
                    assert(keypoint_issue(ctx, kps, last).len() == 0);
                }
            }
        } else {
            if keypoint_issues(ctx, kps, (n - 1) as nat).len() != 0 {
                let i = choose|i: int| 0 <= i < n - 1 && !(!text::all_space(#[trigger] kps[i].name@) && !keypoint_name_seen(kps, i));
                assert(0 <= i < n);
            } else {
                assert(keypoint_issue(ctx, kps, last).len() != 0);
                assert(text::all_space(kps[last].name@) || keypoint_name_seen(kps, last));
            }
        }
    }
}

proof fn edge_issues_empty(ctx: Seq<char>, s: SkeletonSpec, n: nat)
    requires
        n <= s.edges@.len(),
    ensures
        edge_issues(ctx, s, n).len() == 0 <==> forall|i: int| 0 <= i < n ==> {
            &&& is_keypoint_name(s.keypoints@, #[trigger] s.edges@[i].from@)
            &&& is_keypoint_name(s.keypoints@, s.edges@[i].to@)
            &&& s.edges@[i].from@ != s.edges@[i].to@
            &&& !edge_seen(s.edges@, i)
        },
    decreases n,
{
    if n > 0 {
        edge_issues_empty(ctx, s, (n - 1) as nat);
        let last = n - 1;
        assert(edge_issues(ctx, s, n) == edge_issues(ctx, s, (n - 1) as nat) + edge_issue(ctx, s, last));
        if edge_issues(ctx, s, n).len() == 0 {
            assert(edge_issue(ctx, s, last).len() == 0);
        } else if edge_issues(ctx, s, (n - 1) as nat).len() != 0 {
            let i = choose|i: int| 0 <= i < n - 1 && !({
                &&& is_keypoint_name(s.keypoints@, #[trigger] s.edges@[i].from@)
                &&& is_keypoint_name(s.keypoints@, s.edges@[i].to@)
                &&& s.edges@[i].from@ != s.edges@[i].to@
                &&& !edge_seen(s.edges@, i)
            });
            assert(0 <= i < n);
        } else {
            assert(edge_issue(ctx, s, last).len() != 0);
        }
    }
}

/// A skeleton specification draws no issue exactly when it is sound,
/// whatever context the issues are reported under.
pub proof fn skeleton_issues_empty_iff_sound(s: SkeletonSpec, ctx: Seq<char>)
    ensures
        skeleton_issue_list(s, ctx).len() == 0 <==> sound_skeleton(s),
{
    let kps = s.keypoints@;
    let edges = s.edges@;
    keypoint_issues_empty(ctx, kps, kps.len());
    edge_issues_empty(ctx, s, edges.len());
    let head = opt(kps.len() == 0, ctx + ": add at least one keypoint."@);
    assert(skeleton_issue_list(s, ctx).len() == head.len() + keypoint_issues(ctx, kps, kps.len()).len()
        + edge_issues(ctx, s, edges.len()).len());
    if skeleton_issue_list(s, ctx).len() == 0 {
        assert forall|i: int, j: int| 0 <= i < j < kps.len() implies #[trigger] kps[i].name@ != #[trigger] kps[j].name@ by {
            assert(!keypoint_name_seen(kps, j));
        }
        assert forall|i: int, j: int| 0 <= i < j < edges.len() implies !schema::same_edge(
            #[trigger] edges[i].from@,
            edges[i].to@,
            #[trigger] edges[j].from@,
            edges[j].to@,
        ) by {
            assert(!edge_seen(edges, j));
            if schema::same_edge(edges[i].from@, edges[i].to@, edges[j].from@, edges[j].to@) {
                assert(schema::same_edge(edges[i].from@, edges[i].to@, edges[j].from@, edges[j].to@));
            }
        }
    }
    if sound_skeleton(s) {
        assert forall|i: int| 0 <= i < kps.len() implies !text::all_space(#[trigger] kps[i].name@) && !keypoint_name_seen(kps, i) by {
            if keypoint_name_seen(kps, i) {
                let j = choose|j: int| 0 <= j < i && #[trigger] kps[j].name@ == kps[i].name@;
                assert(kps[j].name@ != kps[i].name@);
            }
        }
        assert forall|i: int| 0 <= i < edges.len() implies {
            &&& is_keypoint_name(kps, #[trigger] edges[i].from@)
            &&& is_keypoint_name(kps, edges[i].to@)
            &&& edges[i].from@ != edges[i].to@
            &&& !edge_seen(edges, i)
        } by {
            if edge_seen(edges, i) {
                let j = choose|j: int|
                    0 <= j < i && schema::same_edge(#[trigger] edges[j].from@, edges[j].to@, edges[i].from@, edges[i].to@);
                assert(!schema::same_edge(edges[j].from@, edges[j].to@, edges[i].from@, edges[i].to@));
            }
        }
        assert(head.len() == 0);
    }
}

/// The context `label` followed by a 1-based position.
pub open spec fn numbered_context(label: Seq<char>, i: int) -> Seq<char> {
    label + text::decimal((i + 1) as nat)
}

/// Some class before position `i` has the class ID of class `i`.
pub open spec fn class_id_seen(labels: Seq<LabelClass>, i: int) -> bool {
    exists|j: int| 0 <= j < i && #[trigger] labels[j].class_id@ == labels[i].class_id@
}

/// The issues of class `i`.
pub open spec fn class_issue(labels: Seq<LabelClass>, i: int) -> Seq<Seq<char>> {
    let ctx = numbered_context("Class "@, i);
    let l = labels[i];
    id_issues(ctx, l.class_id@) + opt(
        class_id_seen(labels, i),
        "Classes: class ID '"@ + l.class_id@ + "' is duplicated; choose a unique ID."@,
    ) + opt(text::all_space(l.name@), ctx + ": enter a non-empty class name."@) + opt(
        !ids::hex_color_bytes(vstd::utf8::encode_utf8(l.color@)),
        ctx + ": color '"@ + l.color@ + "' is invalid; use # followed by six hexadecimal digits."@,
    )
}

/// The issues of the first `n` classes.
pub open spec fn class_issues_upto(labels: Seq<LabelClass>, n: nat) -> Seq<Seq<char>>
    decreases n,
{
    if n == 0 {
        Seq::empty()
    } else {
        class_issues_upto(labels, (n - 1) as nat) + class_issue(labels, n - 1)
    }
}

fn class_id_seen_before(labels: &Vec<LabelClass>, i: usize) -> (r: bool)
    requires
        i < labels@.len(),
    ensures
        r == class_id_seen(labels@, i as int),
{
    let mut j: usize = 0;
    while j < i
        invariant
            i < labels@.len(),
            j <= i,
            forall|k: int| 0 <= k < j ==> #[trigger] labels@[k].class_id@ != labels@[i as int].class_id@,
        decreases i - j,
    {
        if labels[j].class_id == labels[i].class_id {
            return true;
        }
        j += 1;
    }
    false
}

/// Reports invalid or repeated class IDs, blank class names and malformed
/// colors.
pub fn class_issues(labels: &Vec<LabelClass>) -> (issues: Vec<String>)
    ensures
        ids::views(issues@) == class_issues_upto(labels@, labels@.len()),
{
    let mut issues: Vec<String> = Vec::new();
    let mut i: usize = 0;
    assert(ids::views(issues@) =~= Seq::<Seq<char>>::empty());
    while i < labels.len()
        invariant
            i <= labels@.len(),
            ids::views(issues@) == class_issues_upto(labels@, i as nat),
        decreases labels.len() - i,
    {
        let ghost before = ids::views(issues@);
        let label = &labels[i];
        let context = text::with_number("Class ", (i + 1) as u64);
        validate_id(&mut issues, context.as_str(), label.class_id.as_str());
        if class_id_seen_before(labels, i) {
            push_issue(
                &mut issues,
                text::concat3("Classes: class ID '", label.class_id.as_str(), "' is duplicated; choose a unique ID."),
            );
        }
        if text::is_blank(label.name.as_str()) {
            push_issue(&mut issues, text::concat2(context.as_str(), ": enter a non-empty class name."));
        }
        if !ids::is_hex_color(label.color.as_str()) {
            push_issue(
                &mut issues,
                text::concat4(
                    context.as_str(),
                    ": color '",
                    label.color.as_str(),
                    "' is invalid; use # followed by six hexadecimal digits.",
                ),
            );
        }
        assert(ids::views(issues@) =~= before + class_issue(labels@, i as int));
        i += 1;
    }
    issues
}

/// The review issues of a workflow reported under `ctx`.
pub open spec fn review_issues(ctx: Seq<char>, task: TaskDefinition) -> Seq<Seq<char>> {
    let r = task.review;
    let ia = r.workflow == ReviewWorkflow::IndependentAgreement;
    opt(
        r.workflow == ReviewWorkflow::Approval && r.required_reviews == 0,
        ctx + ": approval workflow requires at least one review."@,
    ) + opt(ia && r.required_reviews < 2, ctx + ": independent agreement requires at least two reviews."@)
        + opt(
        ia && r.agreement_threshold is None,
        ctx + ": enable an agreement threshold for independent agreement."@,
    ) + match r.agreement_threshold {
        Some(a) => if ia {
            opt(!a.threshold_in_unit_range, ctx + ": agreement threshold must be between 0 and 1."@)
                + opt(
                a.metric != schema::metric_for(task.annotation_type),
                ctx + ": agreement metric must match the annotation type."@,
            )
        } else {
            Seq::empty()
        },
        None => Seq::empty(),
    }
}

/// Reports review settings that cannot work: approval without a review,
/// independent agreement with fewer than two reviews or without a valid
/// threshold whose metric fits the annotation type.
pub fn validate_review(issues: &mut Vec<String>, context: &str, task: &TaskDefinition)
    ensures
        ids::views(final(issues)@) == ids::views(old(issues)@) + review_issues(context@, *task),
{
    let ghost start = ids::views(issues@);
    let ia = task.review.workflow == ReviewWorkflow::IndependentAgreement;
    if task.review.workflow == ReviewWorkflow::Approval && task.review.required_reviews == 0 {
        push_issue(issues, text::concat2(context, ": approval workflow requires at least one review."));
    }
    if ia && task.review.required_reviews < 2 {
        push_issue(issues, text::concat2(context, ": independent agreement requires at least two reviews."));
    }
    if ia && task.review.agreement_threshold.is_none() {
        push_issue(
            issues,
            text::concat2(context, ": enable an agreement threshold for independent agreement."),
        );
    }
    if ia {
        if let Some(agreement) = &task.review.agreement_threshold {
            if !agreement.threshold_in_unit_range {
                push_issue(issues, text::concat2(context, ": agreement threshold must be between 0 and 1."));
            }
            let expected = match task.annotation_type {
                AnnotationType::BoundingBox => crate::model::AgreementMetric::Iou,
                AnnotationType::Skeleton => crate::model::AgreementMetric::KeypointMeanDistance,
            };
            if agreement.metric != expected {
                push_issue(
                    issues,
                    text::concat2(context, ": agreement metric must match the annotation type."),
                );
            }
        }
    }
    assert(ids::views(issues@) =~= start + review_issues(context@, *task));
}

/// Some class has the class ID `v`.
pub open spec fn class_defined(labels: Seq<LabelClass>, v: Seq<char>) -> bool {
    exists|j: int| 0 <= j < labels.len() && #[trigger] labels[j].class_id@ == v
}

/// Some prelabel source has the ID `v`.
pub open spec fn prelabel_defined(prelabels: Seq<PrelabelConfig>, v: Seq<char>) -> bool {
    exists|j: int| 0 <= j < prelabels.len() && #[trigger] prelabels[j].config_id@ == v
}

/// Some string before position `i` equals string `i`.
pub open spec fn seen_before(v: Seq<String>, i: int) -> bool {
    exists|j: int| 0 <= j < i && #[trigger] v[j]@ == v[i]@
}

/// The issues of the class reference at position `k` of a workflow.
pub open spec fn class_reference_issue(
    ctx: Seq<char>,
    task_id: Seq<char>,
    class_ids: Seq<String>,
    labels: Seq<LabelClass>,
    k: int,
) -> Seq<Seq<char>> {
    let c = class_ids[k]@;
    opt(
        !class_defined(labels, c),
        ctx + ": task '"@ + task_id + "' references missing class '"@ + c
            + "'; select an existing class or remove the reference."@,
    ) + opt(seen_before(class_ids, k), ctx + ": class '"@ + c + "' is selected more than once."@)
}

/// The issues of the first `n` class references of a workflow.
pub open spec fn class_reference_issues(
    ctx: Seq<char>,
    task_id: Seq<char>,
    class_ids: Seq<String>,
    labels: Seq<LabelClass>,
    n: nat,
) -> Seq<Seq<char>>
    decreases n,
{
    if n == 0 {
        Seq::empty()
    } else {
        class_reference_issues(ctx, task_id, class_ids, labels, (n - 1) as nat)
            + class_reference_issue(ctx, task_id, class_ids, labels, n - 1)
    }
}

/// The issues of the prelabel reference at position `k` of a workflow.
pub open spec fn prelabel_reference_issue(
    ctx: Seq<char>,
    task_id: Seq<char>,
    config_ids: Seq<String>,
    prelabels: Seq<PrelabelConfig>,
    k: int,
) -> Seq<Seq<char>> {
    let c = config_ids[k]@;
    opt(
        !prelabel_defined(prelabels, c),
        ctx + ": task '"@ + task_id + "' references missing prelabel '"@ + c
            + "'; select an existing source or remove the reference."@,
    ) + opt(seen_before(config_ids, k), ctx + ": prelabel '"@ + c + "' is selected more than once."@)
}

/// The issues of the first `n` prelabel references of a workflow.
pub open spec fn prelabel_reference_issues(
    ctx: Seq<char>,
    task_id: Seq<char>,
    config_ids: Seq<String>,
    prelabels: Seq<PrelabelConfig>,
    n: nat,
) -> Seq<Seq<char>>
    decreases n,
{
    if n == 0 {
        Seq::empty()
    } else {
        prelabel_reference_issues(ctx, task_id, config_ids, prelabels, (n - 1) as nat)
            + prelabel_reference_issue(ctx, task_id, config_ids, prelabels, n - 1)
    }
}

/// The issues of the first `n` tutorial image paths of a workflow.
pub open spec fn example_image_issues(ctx: Seq<char>, images: Seq<String>, n: nat) -> Seq<Seq<char>>
    decreases n,
{
    if n == 0 {
        Seq::empty()
    } else {
        example_image_issues(ctx, images, (n - 1) as nat) + opt(
            !ids::safe_relative_path(images[n - 1]@),
            ctx + ": tutorial image path "@ + text::decimal(n)
                + " must be a non-empty dataset-relative path without '..' or backslashes."@,
        )
    }
}

fn string_seen_before(v: &Vec<String>, i: usize) -> (r: bool)
    requires
        i < v@.len(),
    ensures
        r == seen_before(v@, i as int),
{
    let mut j: usize = 0;
    while j < i
        invariant
            i < v@.len(),
            j <= i,
            forall|k: int| 0 <= k < j ==> #[trigger] v@[k]@ != v@[i as int]@,
        decreases i - j,
    {
        if v[j] == v[i] {
            return true;
        }
        j += 1;
    }
    false
}

fn class_is_defined(labels: &Vec<LabelClass>, v: &String) -> (r: bool)
    ensures
        r == class_defined(labels@, v@),
{
    let mut j: usize = 0;
    while j < labels.len()
        invariant
            j <= labels@.len(),
            forall|k: int| 0 <= k < j ==> #[trigger] labels@[k].class_id@ != v@,
        decreases labels.len() - j,
    {
        if labels[j].class_id == *v {
            return true;
        }
        j += 1;
    }
    false
}

fn prelabel_is_defined(prelabels: &Vec<PrelabelConfig>, v: &String) -> (r: bool)
    ensures
        r == prelabel_defined(prelabels@, v@),
{
    let mut j: usize = 0;
    while j < prelabels.len()
        invariant
            j <= prelabels@.len(),
            forall|k: int| 0 <= k < j ==> #[trigger] prelabels@[k].config_id@ != v@,
        decreases prelabels.len() - j,
    {
        if prelabels[j].config_id == *v {
            return true;
        }
        j += 1;
    }
    false
}

fn push_class_reference_issues(
    issues: &mut Vec<String>,
    context: &str,
    task_id: &str,
    class_ids: &Vec<String>,
    labels: &Vec<LabelClass>,
)
    ensures
        ids::views(final(issues)@) == ids::views(old(issues)@) + class_reference_issues(
            context@,
            task_id@,
            class_ids@,
            labels@,
            class_ids@.len(),
        ),
{
    let ghost start = ids::views(issues@);
    let mut k: usize = 0;
    assert(ids::views(issues@) =~= start + class_reference_issues(context@, task_id@, class_ids@, labels@, 0));
    while k < class_ids.len()
        invariant
            k <= class_ids@.len(),
            ids::views(issues@) == start + class_reference_issues(
                context@,
                task_id@,
                class_ids@,
                labels@,
                k as nat,
            ),
        decreases class_ids.len() - k,
    {
        let ghost before = ids::views(issues@);
        let c = &class_ids[k];
        if !class_is_defined(labels, c) {
            let mut m = text::concat4(context, ": task '", task_id, "' references missing class '");
            text::push_str(&mut m, c.as_str());
            text::push_str(&mut m, "'; select an existing class or remove the reference.");
            push_issue(issues, m);
        }
        if string_seen_before(class_ids, k) {
            push_issue(issues, text::concat4(context, ": class '", c.as_str(), "' is selected more than once."));
        }
        assert(ids::views(issues@) =~= before + class_reference_issue(context@, task_id@, class_ids@, labels@, k as int));
        k += 1;
    }
}

fn push_prelabel_reference_issues(
    issues: &mut Vec<String>,
    context: &str,
    task_id: &str,
    config_ids: &Vec<String>,
    prelabels: &Vec<PrelabelConfig>,
)
    ensures
        ids::views(final(issues)@) == ids::views(old(issues)@) + prelabel_reference_issues(
            context@,
            task_id@,
            config_ids@,
            prelabels@,
            config_ids@.len(),
        ),
{
    let ghost start = ids::views(issues@);
    let mut k: usize = 0;
    assert(ids::views(issues@) =~= start + prelabel_reference_issues(context@, task_id@, config_ids@, prelabels@, 0));
    while k < config_ids.len()
        invariant
            k <= config_ids@.len(),
            ids::views(issues@) == start + prelabel_reference_issues(
                context@,
                task_id@,
                config_ids@,
                prelabels@,
                k as nat,
            ),
        decreases config_ids.len() - k,
    {
        let ghost before = ids::views(issues@);
        let c = &config_ids[k];
        if !prelabel_is_defined(prelabels, c) {
            let mut m = text::concat4(context, ": task '", task_id, "' references missing prelabel '");
            text::push_str(&mut m, c.as_str());
            text::push_str(&mut m, "'; select an existing source or remove the reference.");
            push_issue(issues, m);
        }
        if string_seen_before(config_ids, k) {
            push_issue(issues, text::concat4(context, ": prelabel '", c.as_str(), "' is selected more than once."));
        }
        assert(ids::views(issues@) =~= before + prelabel_reference_issue(context@, task_id@, config_ids@, prelabels@, k as int));
        k += 1;
    }
}

fn push_example_image_issues(issues: &mut Vec<String>, context: &str, images: &Vec<String>)
    ensures
        ids::views(final(issues)@) == ids::views(old(issues)@) + example_image_issues(
            context@,
            images@,
            images@.len(),
        ),
{
    let ghost start = ids::views(issues@);
    let mut k: usize = 0;
    assert(ids::views(issues@) =~= start + example_image_issues(context@, images@, 0));
    while k < images.len()
        invariant
            k <= images@.len(),
            ids::views(issues@) == start + example_image_issues(context@, images@, k as nat),
        decreases images.len() - k,
    {
        let ghost before = ids::views(issues@);
        if !ids::is_safe_relative_path(images[k].as_str()) {
            let mut m = text::concat2(context, ": tutorial image path ");
            text::push_decimal(&mut m, (k + 1) as u64);
            text::push_str(&mut m, " must be a non-empty dataset-relative path without '..' or backslashes.");
            push_issue(issues, m);
        }
        assert(ids::views(issues@) =~= before + opt(
            !ids::safe_relative_path(images@[k as int]@),
            context@ + ": tutorial image path "@ + text::decimal((k + 1) as nat)
                + " must be a non-empty dataset-relative path without '..' or backslashes."@,
        ));
        k += 1;
    }
}

/// Some workflow before position `i` has the task ID of workflow `i`.
pub open spec fn task_id_seen(tasks: Seq<TaskDefinition>, i: int) -> bool {
    exists|j: int| 0 <= j < i && #[trigger] tasks[j].task_id@ == tasks[i].task_id@
}

/// The identity, name and class-count issues of workflow `i`.
pub open spec fn task_head_issues(tasks: Seq<TaskDefinition>, i: int, ctx: Seq<char>) -> Seq<Seq<char>> {
    let t = tasks[i];
    let id = t.task_id@;
    id_issues(ctx, id) + opt(
        task_id_seen(tasks, i),
        "Workflows: task ID '"@ + id + "' is duplicated; choose a unique ID."@,
    ) + opt(text::all_space(t.name@), ctx + ": enter a non-empty task name."@) + (if t.enabled
        && t.class_ids@.len() != 1 {
        seq![ctx + ": enabled workflow '"@ + id + "' must select exactly one class."@]
    } else if t.class_ids@.len() > 1 {
        seq![ctx + ": workflow '"@ + id + "' can reference only one class."@]
    } else {
        Seq::empty()
    })
}

/// The skeleton issues of a workflow: those of its skeleton specification
/// for a skeleton workflow, or the lack of one.
pub open spec fn task_skeleton_issues(ctx: Seq<char>, t: TaskDefinition) -> Seq<Seq<char>> {
    if t.annotation_type == AnnotationType::Skeleton {
        match t.skeleton {
            Some(sk) => skeleton_issue_list(sk, ctx + " skeleton"@),
            None => seq![ctx + ": skeleton task '"@ + t.task_id@ + "' needs a skeleton specification."@],
        }
    } else {
        Seq::empty()
    }
}

/// The issues of workflow `i`.
#[verifier::opaque]
pub open spec fn task_issue(
    tasks: Seq<TaskDefinition>,
    labels: Seq<LabelClass>,
    prelabels: Seq<PrelabelConfig>,
    i: int,
) -> Seq<Seq<char>> {
    let ctx = numbered_context("Workflow "@, i);
    let t = tasks[i];
    let id = t.task_id@;
    task_head_issues(tasks, i, ctx)
        + class_reference_issues(ctx, id, t.class_ids@, labels, t.class_ids@.len())
        + prelabel_reference_issues(ctx, id, t.prelabel_config_ids@, prelabels, t.prelabel_config_ids@.len())
        + opt(text::all_space(t.instructions.title@), ctx + ": enter a non-empty instruction title."@)
        + example_image_issues(ctx, t.instructions.example_images@, t.instructions.example_images@.len())
        + task_skeleton_issues(ctx, t) + review_issues(ctx, t)
}

/// The issues of the first `n` workflows.
pub open spec fn task_issues_upto(
    tasks: Seq<TaskDefinition>,
    labels: Seq<LabelClass>,
    prelabels: Seq<PrelabelConfig>,
    n: nat,
) -> Seq<Seq<char>>
    decreases n,
{
    if n == 0 {
        Seq::empty()
    } else {
        task_issues_upto(tasks, labels, prelabels, (n - 1) as nat) + task_issue(tasks, labels, prelabels, n - 1)
    }
}

fn task_id_seen_before(tasks: &Vec<TaskDefinition>, i: usize) -> (r: bool)
    requires
        i < tasks@.len(),
    ensures
        r == task_id_seen(tasks@, i as int),
{
    let mut j: usize = 0;
    while j < i
        invariant
            i < tasks@.len(),
            j <= i,
            forall|k: int| 0 <= k < j ==> #[trigger] tasks@[k].task_id@ != tasks@[i as int].task_id@,
        decreases i - j,
    {
        if tasks[j].task_id == tasks[i].task_id {
            return true;
        }
        j += 1;
    }
    false
}

fn push_task_head_issues(issues: &mut Vec<String>, tasks: &Vec<TaskDefinition>, i: usize, ctx: &str)
    requires
        i < tasks@.len(),
    ensures
        ids::views(final(issues)@) == ids::views(old(issues)@) + task_head_issues(tasks@, i as int, ctx@),
{
    let ghost start = ids::views(issues@);
    let task = &tasks[i];
    let id = task.task_id.as_str();
    validate_id(issues, ctx, id);
    if task_id_seen_before(tasks, i) {
        push_issue(issues, text::concat3("Workflows: task ID '", id, "' is duplicated; choose a unique ID."));
    }
    if text::is_blank(task.name.as_str()) {
        push_issue(issues, text::concat2(ctx, ": enter a non-empty task name."));
    }
    if task.enabled && task.class_ids.len() != 1 {
        push_issue(issues, text::concat4(ctx, ": enabled workflow '", id, "' must select exactly one class."));
    } else if task.class_ids.len() > 1 {
        push_issue(issues, text::concat4(ctx, ": workflow '", id, "' can reference only one class."));
    }
    assert(ids::views(issues@) =~= start + task_head_issues(tasks@, i as int, ctx@));
}

fn append_issues(issues: &mut Vec<String>, found: &Vec<String>)
    ensures
        ids::views(final(issues)@) == ids::views(old(issues)@) + ids::views(found@),
{
    let ghost start = ids::views(issues@);
    let mut k: usize = 0;
    while k < found.len()
        invariant
            k <= found@.len(),
            ids::views(issues@) =~= start + ids::views(found@).subrange(0, k as int),
        decreases found.len() - k,
    {
        push_issue(issues, found[k].clone());
        assert(ids::views(found@).subrange(0, k + 1) =~= ids::views(found@).subrange(0, k as int).push(found@[k as int]@));
        k += 1;
    }
    assert(ids::views(found@).subrange(0, found@.len() as int) =~= ids::views(found@));
}

fn push_task_skeleton_issues(issues: &mut Vec<String>, ctx: &str, task: &TaskDefinition)
    ensures
        ids::views(final(issues)@) == ids::views(old(issues)@) + task_skeleton_issues(ctx@, *task),
{
    let ghost start = ids::views(issues@);
    if task.annotation_type == AnnotationType::Skeleton {
        match &task.skeleton {
            Some(skeleton) => {
                let sub = text::concat2(ctx, " skeleton");
                let found = skeleton_issues(skeleton, sub.as_str());
                append_issues(issues, &found);
            },
            None => {
                push_issue(
                    issues,
                    text::concat4(ctx, ": skeleton task '", task.task_id.as_str(), "' needs a skeleton specification."),
                );
            },
        }
    }
    assert(ids::views(issues@) =~= start + task_skeleton_issues(ctx@, *task));
}

fn push_task_issues(
    issues: &mut Vec<String>,
    tasks: &Vec<TaskDefinition>,
    labels: &Vec<LabelClass>,
    prelabels: &Vec<PrelabelConfig>,
    i: usize,
)
    requires
        i < tasks@.len(),
    ensures
        ids::views(final(issues)@) == ids::views(old(issues)@) + task_issue(tasks@, labels@, prelabels@, i as int),
{
    let ghost start = ids::views(issues@);
    let n = tasks.len();
    let task = &tasks[i];
    let context = text::with_number("Workflow ", (i + 1) as u64);
    let ctx = context.as_str();
    let id = task.task_id.as_str();
    push_task_head_issues(issues, tasks, i, ctx);
    let ghost s1 = ids::views(issues@);
    push_class_reference_issues(issues, ctx, id, &task.class_ids, labels);
    let ghost s2 = ids::views(issues@);
    push_prelabel_reference_issues(issues, ctx, id, &task.prelabel_config_ids, prelabels);
    let ghost s3 = ids::views(issues@);
    if text::is_blank(task.instructions.title.as_str()) {
        push_issue(issues, text::concat2(ctx, ": enter a non-empty instruction title."));
    }
    let ghost s4 = ids::views(issues@);
    push_example_image_issues(issues, ctx, &task.instructions.example_images);
    let ghost s5 = ids::views(issues@);
    push_task_skeleton_issues(issues, ctx, task);
    let ghost s6 = ids::views(issues@);
    validate_review(issues, ctx, task);
    proof {
        let c = context@;
        let t = tasks@[i as int];
        let a = task_head_issues(tasks@, i as int, c);
        let b = class_reference_issues(c, id@, t.class_ids@, labels@, t.class_ids@.len());
        let d = prelabel_reference_issues(c, id@, t.prelabel_config_ids@, prelabels@, t.prelabel_config_ids@.len());
        let e = opt(text::all_space(t.instructions.title@), c + ": enter a non-empty instruction title."@);
        let f = example_image_issues(c, t.instructions.example_images@, t.instructions.example_images@.len());
        let g = task_skeleton_issues(c, t);
        let h = review_issues(c, t);
        assert(s4 == s3 + e);
        vstd::seq_lib::lemma_concat_associative(start, a, b);
        vstd::seq_lib::lemma_concat_associative(start, a + b, d);
        vstd::seq_lib::lemma_concat_associative(start, a + b + d, e);
        vstd::seq_lib::lemma_concat_associative(start, a + b + d + e, f);
        vstd::seq_lib::lemma_concat_associative(start, a + b + d + e + f, g);
        vstd::seq_lib::lemma_concat_associative(start, a + b + d + e + f + g, h);
        assert(task_issue(tasks@, labels@, prelabels@, i as int) == a + b + d + e + f + g + h) by {
            reveal(task_issue);
        }
    }
}

/// Reports the problems of each workflow: invalid or repeated task IDs,
/// blank names and titles, class selections that are missing, repeated or
/// not exactly one for an enabled workflow, unknown or repeated prelabel
/// sources, unsafe tutorial image paths, skeleton problems and review
/// settings that cannot work.
pub fn task_issues(
    tasks: &Vec<TaskDefinition>,
    labels: &Vec<LabelClass>,
    prelabels: &Vec<PrelabelConfig>,
) -> (issues: Vec<String>)
    ensures
        ids::views(issues@) == task_issues_upto(tasks@, labels@, prelabels@, tasks@.len()),
{
    let mut issues: Vec<String> = Vec::new();
    let mut i: usize = 0;
    assert(ids::views(issues@) =~= Seq::<Seq<char>>::empty());
    while i < tasks.len()
        invariant
            i <= tasks@.len(),
            ids::views(issues@) == task_issues_upto(tasks@, labels@, prelabels@, i as nat),
        decreases tasks.len() - i,
    {
        push_task_issues(&mut issues, tasks, labels, prelabels, i);
        i += 1;
    }
    issues
}

/// Some prelabel source before position `i` has the ID of source `i`.
pub open spec fn prelabel_id_seen(configs: Seq<PrelabelConfig>, i: int) -> bool {
    exists|j: int| 0 <= j < i && #[trigger] configs[j].config_id@ == configs[i].config_id@
}

/// The issues of prelabel source `i`.
pub open spec fn prelabel_issue(configs: Seq<PrelabelConfig>, i: int) -> Seq<Seq<char>> {
    let ctx = numbered_context("Prelabel "@, i);
    let c = configs[i];
    id_issues(ctx, c.config_id@) + opt(
        prelabel_id_seen(configs, i),
        "Prelabels: prelabel ID '"@ + c.config_id@ + "' is duplicated; choose a unique ID."@,
    ) + opt(text::all_space(c.name@), ctx + ": enter a non-empty prelabel name."@) + opt(
        text::all_space(c.model.model_id@),
        ctx + ": enter a non-empty model ID."@,
    ) + opt(text::all_space(c.model.display_name@), ctx + ": enter a non-empty model name."@) + opt(
        text::all_space(c.model.location@),
        ctx + ": enter a model location."@,
    ) + opt(!c.confidence_in_unit_range, ctx + ": confidence threshold must be between 0 and 1."@)
        + opt(
        c.overlap_iou_in_unit_range == Some(false),
        ctx + ": overlap suppression IoU must be between 0 and 1."@,
    )
}

/// The issues of the first `n` prelabel sources.
pub open spec fn prelabel_issues_upto(configs: Seq<PrelabelConfig>, n: nat) -> Seq<Seq<char>>
    decreases n,
{
    if n == 0 {
        Seq::empty()
    } else {
        prelabel_issues_upto(configs, (n - 1) as nat) + prelabel_issue(configs, n - 1)
    }
}

fn prelabel_id_seen_before(configs: &Vec<PrelabelConfig>, i: usize) -> (r: bool)
    requires
        i < configs@.len(),
    ensures
        r == prelabel_id_seen(configs@, i as int),
{
    let mut j: usize = 0;
    while j < i
        invariant
            i < configs@.len(),
            j <= i,
            forall|k: int| 0 <= k < j ==> #[trigger] configs@[k].config_id@ != configs@[i as int].config_id@,
        decreases i - j,
    {
        if configs[j].config_id == configs[i].config_id {
            return true;
        }
        j += 1;
    }
    false
}

fn push_prelabel_issues(issues: &mut Vec<String>, configs: &Vec<PrelabelConfig>, i: usize)
    requires
        i < configs@.len(),
    ensures
        ids::views(final(issues)@) == ids::views(old(issues)@) + prelabel_issue(configs@, i as int),
{
    let ghost start = ids::views(issues@);
    let n = configs.len();
    let config = &configs[i];
    let context = text::with_number("Prelabel ", (i + 1) as u64);
    let ctx = context.as_str();
    validate_id(issues, ctx, config.config_id.as_str());
    push_when(
        issues,
        prelabel_id_seen_before(configs, i),
        text::concat3("Prelabels: prelabel ID '", config.config_id.as_str(), "' is duplicated; choose a unique ID."),
    );
    push_when(issues, text::is_blank(config.name.as_str()), text::concat2(ctx, ": enter a non-empty prelabel name."));
    push_when(issues, text::is_blank(config.model.model_id.as_str()), text::concat2(ctx, ": enter a non-empty model ID."));
    push_when(
        issues,
        text::is_blank(config.model.display_name.as_str()),
        text::concat2(ctx, ": enter a non-empty model name."),
    );
    push_when(issues, text::is_blank(config.model.location.as_str()), text::concat2(ctx, ": enter a model location."));
    push_when(
        issues,
        !config.confidence_in_unit_range,
        text::concat2(ctx, ": confidence threshold must be between 0 and 1."),
    );
    let bad_overlap = match config.overlap_iou_in_unit_range {
        Some(ok) => !ok,
        None => false,
    };
    push_when(issues, bad_overlap, text::concat2(ctx, ": overlap suppression IoU must be between 0 and 1."));
    proof {
        let c = configs@[i as int];
        let cx = context@;
        let x1 = id_issues(cx, c.config_id@);
        let x2 = opt(
            prelabel_id_seen(configs@, i as int),
            "Prelabels: prelabel ID '"@ + c.config_id@ + "' is duplicated; choose a unique ID."@,
        );
        let x3 = opt(text::all_space(c.name@), cx + ": enter a non-empty prelabel name."@);
        let x4 = opt(text::all_space(c.model.model_id@), cx + ": enter a non-empty model ID."@);
        let x5 = opt(text::all_space(c.model.display_name@), cx + ": enter a non-empty model name."@);
        let x6 = opt(text::all_space(c.model.location@), cx + ": enter a model location."@);
        let x7 = opt(!c.confidence_in_unit_range, cx + ": confidence threshold must be between 0 and 1."@);
        let x8 = opt(c.overlap_iou_in_unit_range == Some(false), cx + ": overlap suppression IoU must be between 0 and 1."@);
        vstd::seq_lib::lemma_concat_associative(start, x1, x2);
        vstd::seq_lib::lemma_concat_associative(start, x1 + x2, x3);
        vstd::seq_lib::lemma_concat_associative(start, x1 + x2 + x3, x4);
        vstd::seq_lib::lemma_concat_associative(start, x1 + x2 + x3 + x4, x5);
        vstd::seq_lib::lemma_concat_associative(start, x1 + x2 + x3 + x4 + x5, x6);
        vstd::seq_lib::lemma_concat_associative(start, x1 + x2 + x3 + x4 + x5 + x6, x7);
        vstd::seq_lib::lemma_concat_associative(start, x1 + x2 + x3 + x4 + x5 + x6 + x7, x8);
        assert(prelabel_issue(configs@, i as int) == x1 + x2 + x3 + x4 + x5 + x6 + x7 + x8);
    }
}

/// Reports invalid or repeated prelabel IDs, blank names and model fields,
/// and confidence or overlap thresholds outside 0 to 1.
pub fn prelabel_issues(configs: &Vec<PrelabelConfig>) -> (issues: Vec<String>)
    ensures
        ids::views(issues@) == prelabel_issues_upto(configs@, configs@.len()),
{
    let mut issues: Vec<String> = Vec::new();
    let mut i: usize = 0;
    assert(ids::views(issues@) =~= Seq::<Seq<char>>::empty());
    while i < configs.len()
        invariant
            i <= configs@.len(),
            ids::views(issues@) == prelabel_issues_upto(configs@, i as nat),
        decreases configs.len() - i,
    {
        push_prelabel_issues(&mut issues, configs, i);
        i += 1;
    }
    issues
}

/// The assignment-balance issues.
pub open spec fn imbalance_issue_list(imbalance: Option<ImbalanceConfig>) -> Seq<Seq<char>> {
    match imbalance {
        Some(c) => opt(
            !c.max_ratio_valid,
            "Assignment balance: maximum class ratio must be a finite value of at least 1."@,
        ),
        None => Seq::empty(),
    }
}

/// Reports a maximum class ratio that is not a finite value of at least 1.
pub fn imbalance_issues(imbalance: Option<&ImbalanceConfig>) -> (issues: Vec<String>)
    ensures
        ids::views(issues@) == imbalance_issue_list(
            match imbalance {
                Some(c) => Some(*c),
                None => None,
            },
        ),
{
    let mut issues: Vec<String> = Vec::new();
    if let Some(c) = imbalance {
        if !c.max_ratio_valid {
            push_issue(
                &mut issues,
                text::to_string("Assignment balance: maximum class ratio must be a finite value of at least 1."),
            );
        }
    }
    assert(ids::views(issues@) =~= imbalance_issue_list(
        match imbalance {
            Some(c) => Some(*c),
            None => None,
        },
    ));
    issues
}

/// Some assignment before position `i` is for the user of assignment `i`.
pub open spec fn user_seen(assignments: Seq<DatasetRoleAssignment>, i: int) -> bool {
    exists|j: int| 0 <= j < i && #[trigger] assignments[j].user_id@ == assignments[i].user_id@
}

/// The issues of role assignment `i` of dataset `dataset_id`.
pub open spec fn role_issue(assignments: Seq<DatasetRoleAssignment>, dataset_id: Seq<char>, i: int) -> Seq<Seq<char>> {
    let ctx = numbered_context("Role assignment "@, i);
    let a = assignments[i];
    id_issues(ctx, a.user_id@) + opt(
        user_seen(assignments, i),
        "Access roles: user '"@ + a.user_id@ + "' has duplicate assignments; combine their roles into one row."@,
    ) + opt(
        a.dataset_id@ != dataset_id,
        ctx + ": assignment belongs to another dataset; remove and recreate it."@,
    ) + opt(a.roles@.len() == 0, ctx + ": select at least one role."@)
}

/// The issues of the first `n` role assignments.
pub open spec fn role_issues_upto(assignments: Seq<DatasetRoleAssignment>, dataset_id: Seq<char>, n: nat) -> Seq<Seq<char>>
    decreases n,
{
    if n == 0 {
        Seq::empty()
    } else {
        role_issues_upto(assignments, dataset_id, (n - 1) as nat) + role_issue(assignments, dataset_id, n - 1)
    }
}

/// Assignment `a` makes its user a data admin of `dataset_id`.
pub open spec fn grants_admin(a: DatasetRoleAssignment, dataset_id: Seq<char>) -> bool {
    a.dataset_id@ == dataset_id && a.roles@.contains(DatasetRole::DataAdmin)
}

/// All issues of the role assignments of `dataset_id` for the editing user
/// `current_user`.
pub open spec fn role_issue_list(
    assignments: Seq<DatasetRoleAssignment>,
    dataset_id: Seq<char>,
    current_user: Seq<char>,
) -> Seq<Seq<char>> {
    role_issues_upto(assignments, dataset_id, assignments.len()) + opt(
        !exists|j: int| 0 <= j < assignments.len() && grants_admin(#[trigger] assignments[j], dataset_id),
        "Access roles: assign at least one data admin."@,
    ) + opt(
        !exists|j: int|
            0 <= j < assignments.len() && grants_admin(#[trigger] assignments[j], dataset_id)
                && assignments[j].user_id@ == current_user,
        "Access roles: keep data_admin enabled for the current user '"@ + current_user + "'."@,
    )
}

fn user_seen_before(assignments: &Vec<DatasetRoleAssignment>, i: usize) -> (r: bool)
    requires
        i < assignments@.len(),
    ensures
        r == user_seen(assignments@, i as int),
{
    let mut j: usize = 0;
    while j < i
        invariant
            i < assignments@.len(),
            j <= i,
            forall|k: int| 0 <= k < j ==> #[trigger] assignments@[k].user_id@ != assignments@[i as int].user_id@,
        decreases i - j,
    {
        if assignments[j].user_id == assignments[i].user_id {
            return true;
        }
        j += 1;
    }
    false
}

fn has_role(roles: &Vec<DatasetRole>, role: DatasetRole) -> (r: bool)
    ensures
        r == roles@.contains(role),
{
    let mut j: usize = 0;
    while j < roles.len()
        invariant
            j <= roles@.len(),
            forall|k: int| 0 <= k < j ==> roles@[k] != role,
        decreases roles.len() - j,
    {
        if roles[j] == role {
            assert(roles@[j as int] == role);
            return true;
        }
        j += 1;
    }
    false
}

fn admin_grant(a: &DatasetRoleAssignment, dataset_id: &str) -> (r: bool)
    ensures
        r == grants_admin(*a, dataset_id@),
{
    text::str_eq(a.dataset_id.as_str(), dataset_id) && has_role(&a.roles, DatasetRole::DataAdmin)
}

fn push_role_issues(issues: &mut Vec<String>, assignments: &Vec<DatasetRoleAssignment>, dataset_id: &str, i: usize)
    requires
        i < assignments@.len(),
    ensures
        ids::views(final(issues)@) == ids::views(old(issues)@) + role_issue(assignments@, dataset_id@, i as int),
{
    let ghost start = ids::views(issues@);
    let n = assignments.len();
    let a = &assignments[i];
    let context = text::with_number("Role assignment ", (i + 1) as u64);
    let ctx = context.as_str();
    validate_id(issues, ctx, a.user_id.as_str());
    if user_seen_before(assignments, i) {
        push_issue(
            issues,
            text::concat3(
                "Access roles: user '",
                a.user_id.as_str(),
                "' has duplicate assignments; combine their roles into one row.",
            ),
        );
    }
    if !text::str_eq(a.dataset_id.as_str(), dataset_id) {
        push_issue(issues, text::concat2(ctx, ": assignment belongs to another dataset; remove and recreate it."));
    }
    if a.roles.len() == 0 {
        push_issue(issues, text::concat2(ctx, ": select at least one role."));
    }
    assert(ids::views(issues@) =~= start + role_issue(assignments@, dataset_id@, i as int));
}

/// Reports invalid or repeated users, assignments of another dataset, empty
/// role lists, a dataset without a data admin, and an editing user who would
/// lose the data admin role.
pub fn role_issues(assignments: &Vec<DatasetRoleAssignment>, dataset_id: &str, current_user: &str) -> (issues: Vec<String>)
    ensures
        ids::views(issues@) == role_issue_list(assignments@, dataset_id@, current_user@),
{
    let mut issues: Vec<String> = Vec::new();
    let mut i: usize = 0;
    assert(ids::views(issues@) =~= Seq::<Seq<char>>::empty());
    while i < assignments.len()
        invariant
            i <= assignments@.len(),
            ids::views(issues@) == role_issues_upto(assignments@, dataset_id@, i as nat),
        decreases assignments.len() - i,
    {
        push_role_issues(&mut issues, assignments, dataset_id, i);
        i += 1;
    }
    let ghost head = ids::views(issues@);
    let mut has_admin = false;
    let mut current_is_admin = false;
    let mut j: usize = 0;
    while j < assignments.len()
        invariant
            j <= assignments@.len(),
            has_admin == exists|k: int| 0 <= k < j && grants_admin(#[trigger] assignments@[k], dataset_id@),
            current_is_admin == exists|k: int|
                0 <= k < j && grants_admin(#[trigger] assignments@[k], dataset_id@)
                    && assignments@[k].user_id@ == current_user@,
        decreases assignments.len() - j,
    {
        let a = &assignments[j];
        if admin_grant(a, dataset_id) {
            has_admin = true;
            if text::str_eq(a.user_id.as_str(), current_user) {
                current_is_admin = true;
            }
        }
        j += 1;
    }
    if !has_admin {
        push_issue(&mut issues, text::to_string("Access roles: assign at least one data admin."));
    }
    if !current_is_admin {
        push_issue(
            &mut issues,
            text::concat3("Access roles: keep data_admin enabled for the current user '", current_user, "'."),
        );
    }
    assert(ids::views(issues@) =~= role_issue_list(assignments@, dataset_id@, current_user@));
    issues
}

/// The dataset-name issues.
pub open spec fn dataset_name_issue_list(name: Seq<char>) -> Seq<Seq<char>> {
    opt(text::all_space(name), "Dataset: enter a non-empty dataset name."@)
}

/// Reports a blank dataset name.
pub fn dataset_name_issues(name: &str) -> (issues: Vec<String>)
    ensures
        ids::views(issues@) == dataset_name_issue_list(name@),
{
    let mut issues: Vec<String> = Vec::new();
    if text::is_blank(name) {
        push_issue(&mut issues, text::to_string("Dataset: enter a non-empty dataset name."));
    }
    assert(ids::views(issues@) =~= dataset_name_issue_list(name@));
    issues
}

/// The issues of the first `n` image roots.
pub open spec fn image_root_issues_upto(roots: Seq<String>, n: nat) -> Seq<Seq<char>>
    decreases n,
{
    if n == 0 {
        Seq::empty()
    } else {
        image_root_issues_upto(roots, (n - 1) as nat) + opt(
            !ids::safe_relative_path(roots[n - 1]@),
            "Image roots: root "@ + text::decimal(n)
                + " must be a non-empty relative path without '..' or backslashes."@,
        )
    }
}

/// All image-root issues.
pub open spec fn image_root_issue_list(roots: Seq<String>) -> Seq<Seq<char>> {
    opt(roots.len() == 0, "Image roots: add at least one dataset-relative root path."@)
        + image_root_issues_upto(roots, roots.len())
}

/// Reports a dataset without image roots and roots that are not safe
/// dataset-relative paths.
pub fn image_root_issues(image_roots: &Vec<String>) -> (issues: Vec<String>)
    ensures
        ids::views(issues@) == image_root_issue_list(image_roots@),
{
    let mut issues: Vec<String> = Vec::new();
    if image_roots.len() == 0 {
        push_issue(&mut issues, text::to_string("Image roots: add at least one dataset-relative root path."));
    }
    let ghost head = ids::views(issues@);
    assert(head =~= opt(image_roots@.len() == 0, "Image roots: add at least one dataset-relative root path."@));
    let mut i: usize = 0;
    while i < image_roots.len()
        invariant
            i <= image_roots@.len(),
            head == opt(image_roots@.len() == 0, "Image roots: add at least one dataset-relative root path."@),
            ids::views(issues@) == head + image_root_issues_upto(image_roots@, i as nat),
        decreases image_roots.len() - i,
    {
        let ghost before = ids::views(issues@);
        if !ids::is_safe_relative_path(image_roots[i].as_str()) {
            let mut m = text::to_string("Image roots: root ");
            text::push_decimal(&mut m, (i + 1) as u64);
            text::push_str(&mut m, " must be a non-empty relative path without '..' or backslashes.");
            push_issue(&mut issues, m);
        }
        assert(ids::views(issues@) =~= before + opt(
            !ids::safe_relative_path(image_roots@[i as int]@),
            "Image roots: root "@ + text::decimal((i + 1) as nat)
                + " must be a non-empty relative path without '..' or backslashes."@,
        ));
        i += 1;
    }
    issues
}

/// The issues of a dataset's name and image roots.
pub fn dataset_issues(name: &str, image_roots: &Vec<String>) -> (issues: Vec<String>)
    ensures
        ids::views(issues@) == dataset_name_issue_list(name@) + image_root_issue_list(image_roots@),
{
    let mut issues = dataset_name_issues(name);
    let more = image_root_issues(image_roots);
    append_issues(&mut issues, &more);
    issues
}

/// Every issue of a staged configuration, edited by `current_user`: dataset,
/// classes, workflows, prelabel sources, assignment balance, then roles.
pub open spec fn config_issue_list(config: DatasetMetadata, current_user: Seq<char>) -> Seq<Seq<char>> {
    dataset_name_issue_list(config.name@) + image_root_issue_list(config.image_roots@)
        + class_issues_upto(config.label_classes@, config.label_classes@.len())
        + task_issues_upto(config.tasks@, config.label_classes@, config.prelabel_configs@, config.tasks@.len())
        + prelabel_issues_upto(config.prelabel_configs@, config.prelabel_configs@.len())
        + imbalance_issue_list(config.imbalance)
        + role_issue_list(config.role_assignments@, config.dataset_id@, current_user)
}

/// Validates a whole staged configuration; it may be saved only when the
/// result is empty.
pub fn config_issues(config: &DatasetMetadata, current_user: &str) -> (issues: Vec<String>)
    ensures
        ids::views(issues@) == config_issue_list(*config, current_user@),
{
    let mut issues = dataset_issues(config.name.as_str(), &config.image_roots);
    let ghost a = ids::views(issues@);
    append_issues(&mut issues, &class_issues(&config.label_classes));
    let ghost b = ids::views(issues@);
    append_issues(&mut issues, &task_issues(&config.tasks, &config.label_classes, &config.prelabel_configs));
    let ghost c = ids::views(issues@);
    append_issues(&mut issues, &prelabel_issues(&config.prelabel_configs));
    let ghost d = ids::views(issues@);
    let imbalance = match &config.imbalance {
        Some(c) => Some(c),
        None => None,
    };
    append_issues(&mut issues, &imbalance_issues(imbalance));
    let ghost e = ids::views(issues@);
    append_issues(&mut issues, &role_issues(&config.role_assignments, config.dataset_id.as_str(), current_user));
    proof {
        assert(match imbalance {
            Some(c) => Some(*c),
            None => None,
        } == config.imbalance);
    }
    assert(ids::views(issues@) =~= config_issue_list(*config, current_user@));
    issues
}

proof fn lemma_class_reference_issue_listed(
    ctx: Seq<char>,
    task_id: Seq<char>,
    class_ids: Seq<String>,
    labels: Seq<LabelClass>,
    n: nat,
    k: int,
)
    requires
        0 <= k < n,
        n <= class_ids.len(),
        forall|j: int| 0 <= j < labels.len() ==> #[trigger] labels[j].class_id@ != class_ids[k]@,
    ensures
        class_reference_issues(ctx, task_id, class_ids, labels, n).contains(
            ctx + ": task '"@ + task_id + "' references missing class '"@ + class_ids[k]@
                + "'; select an existing class or remove the reference."@,
        ),
    decreases n,
{
    let m = ctx + ": task '"@ + task_id + "' references missing class '"@ + class_ids[k]@
        + "'; select an existing class or remove the reference."@;
    let prev = class_reference_issues(ctx, task_id, class_ids, labels, (n - 1) as nat);
    let last = class_reference_issue(ctx, task_id, class_ids, labels, n - 1);
    let all = class_reference_issues(ctx, task_id, class_ids, labels, n);
    assert(all == prev + last);
    if k < n - 1 {
        lemma_class_reference_issue_listed(ctx, task_id, class_ids, labels, (n - 1) as nat, k);
        let p = choose|p: int| 0 <= p < prev.len() && prev[p] == m;
        assert(all[p] == m);
    } else {
        assert(!class_defined(labels, class_ids[k]@));
        assert(last[0] == m);
        assert(all[prev.len() as int] == m);
    }
}

proof fn lemma_task_issue_listed(
    tasks: Seq<TaskDefinition>,
    labels: Seq<LabelClass>,
    prelabels: Seq<PrelabelConfig>,
    n: nat,
    i: int,
    m: Seq<char>,
)
    requires
        0 <= i < n,
        n <= tasks.len(),
        task_issue(tasks, labels, prelabels, i).contains(m),
    ensures
        task_issues_upto(tasks, labels, prelabels, n).contains(m),
    decreases n,
{
    let prev = task_issues_upto(tasks, labels, prelabels, (n - 1) as nat);
    let last = task_issue(tasks, labels, prelabels, n - 1);
    let all = task_issues_upto(tasks, labels, prelabels, n);
    assert(all == prev + last);
    if i < n - 1 {
        lemma_task_issue_listed(tasks, labels, prelabels, (n - 1) as nat, i, m);
        let p = choose|p: int| 0 <= p < prev.len() && prev[p] == m;
        assert(all[p] == m);
    } else {
        let p = choose|p: int| 0 <= p < last.len() && last[p] == m;
        assert(all[prev.len() + p] == m);
    }
}

/// A configuration whose workflow `i` selects a class ID that no label
/// class has is reported: its issues name the workflow (numbered from 1),
/// the task and the missing class, so it cannot be saved. Hence a
/// configuration with no issues has every class a workflow selects
/// defined.
pub proof fn dangling_class_references_are_reported(config: DatasetMetadata, current_user: Seq<char>, i: int, k: int)
    requires
        0 <= i < config.tasks@.len(),
        0 <= k < config.tasks@[i].class_ids@.len(),
        forall|j: int|
            0 <= j < config.label_classes@.len() ==> #[trigger] config.label_classes@[j].class_id@
                != config.tasks@[i].class_ids@[k]@,
    ensures
        config_issue_list(config, current_user).contains(
            "Workflow "@ + text::decimal((i + 1) as nat) + ": task '"@ + config.tasks@[i].task_id@
                + "' references missing class '"@ + config.tasks@[i].class_ids@[k]@
                + "'; select an existing class or remove the reference."@,
        ),
        config_issue_list(config, current_user).len() > 0,
{
    let tasks = config.tasks@;
    let labels = config.label_classes@;
    let prelabels = config.prelabel_configs@;
    let t = tasks[i];
    let ctx = numbered_context("Workflow "@, i);
    let m = ctx + ": task '"@ + t.task_id@ + "' references missing class '"@ + t.class_ids@[k]@
        + "'; select an existing class or remove the reference."@;
    lemma_class_reference_issue_listed(ctx, t.task_id@, t.class_ids@, labels, t.class_ids@.len(), k);
    let head = task_head_issues(tasks, i, ctx);
    let refs = class_reference_issues(ctx, t.task_id@, t.class_ids@, labels, t.class_ids@.len());
    let whole = task_issue(tasks, labels, prelabels, i);
    assert(whole.contains(m)) by {
        reveal(task_issue);
        let p = choose|p: int| 0 <= p < refs.len() && refs[p] == m;
        assert(whole =~= head + refs + prelabel_reference_issues(ctx, t.task_id@, t.prelabel_config_ids@, prelabels, t.prelabel_config_ids@.len())
            + opt(text::all_space(t.instructions.title@), ctx + ": enter a non-empty instruction title."@)
            + example_image_issues(ctx, t.instructions.example_images@, t.instructions.example_images@.len())
            + task_skeleton_issues(ctx, t) + review_issues(ctx, t));
        assert(whole[head.len() + p] == m);
    }
    lemma_task_issue_listed(tasks, labels, prelabels, tasks.len(), i, m);
    let before = dataset_name_issue_list(config.name@) + image_root_issue_list(config.image_roots@)
        + class_issues_upto(labels, labels.len());
    let ts = task_issues_upto(tasks, labels, prelabels, tasks.len());
    let all = config_issue_list(config, current_user);
    let q = choose|q: int| 0 <= q < ts.len() && ts[q] == m;
    assert(all[before.len() + q] == m);
}

} // verus!
