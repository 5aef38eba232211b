//! Staging the role changes made on the people page into the dataset's
//! role assignments before the configuration is saved.
use vstd::prelude::*;
use crate::model::{DatasetMetadata, DatasetRole, DatasetRoleAssignment};
use crate::people::DatasetUser;
use crate::schema::lex_le;
use crate::text;

verus! {

/// A role assignment as a plain value.
pub struct AssignmentValue {
    pub dataset_id: Seq<char>,
    pub user_id: Seq<char>,
    pub roles: Seq<DatasetRole>,
    pub assigned_at: u64,
    pub assigned_by: Option<Seq<char>>,
}

/// The plain value of a role assignment.
pub open spec fn assignment_value(a: DatasetRoleAssignment) -> AssignmentValue {
    AssignmentValue {
        dataset_id: a.dataset_id@,
        user_id: a.user_id@,
        roles: a.roles@,
        assigned_at: a.assigned_at,
        assigned_by: match a.assigned_by {
            Some(s) => Some(s@),
            None => None,
        },
    }
}

/// The plain values of a list of role assignments.
pub open spec fn assignment_values(s: Seq<DatasetRoleAssignment>) -> Seq<AssignmentValue> {
    s.map_values(|a: DatasetRoleAssignment| assignment_value(a))
}

/// Every role, in declaration order.
pub open spec fn all_roles() -> Seq<DatasetRole> {
    seq![DatasetRole::Annotator, DatasetRole::Reviewer, DatasetRole::Adjudicator, DatasetRole::DataAdmin]
}

/// The roles of a list as a set: each role held, once, in declaration
/// order.
pub open spec fn role_set(roles: Seq<DatasetRole>) -> Seq<DatasetRole> {
    all_roles().filter(|r: DatasetRole| roles.contains(r))
}

/// The first assignment of `user`.
pub open spec fn first_assignment_of(s: Seq<AssignmentValue>, user: Seq<char>) -> Option<int>
    decreases s.len(),
{
    if s.len() == 0 {
        None
    } else {
        match first_assignment_of(s.drop_last(), user) {
            Some(i) => Some(i),
            None => if s.last().user_id == user {
                Some(s.len() - 1)
            } else {
                None
            },
        }
    }
}

/// The assignments after staging one user: a user without roles loses
/// every assignment; otherwise the user's first assignment takes the roles
/// (with the new stamp) when they differ from it as a set, or a new
/// assignment is added when the user has none.
pub open spec fn apply_user(
    s: Seq<AssignmentValue>,
    dataset_id: Seq<char>,
    user: Seq<char>,
    roles: Seq<DatasetRole>,
    at: u64,
    by: Seq<char>,
) -> Seq<AssignmentValue> {
    let set = role_set(roles);
    if set.len() == 0 {
        s.filter(|a: AssignmentValue| a.user_id != user)
    } else {
        match first_assignment_of(s, user) {
            Some(i) => if role_set(s[i].roles) == set {
                s
            } else {
                s.update(i, AssignmentValue { roles: set, assigned_at: at, assigned_by: Some(by), ..s[i] })
            },
            None => s.push(
                AssignmentValue { dataset_id, user_id: user, roles: set, assigned_at: at, assigned_by: Some(by) },
            ),
        }
    }
}

/// The assignments after staging the first `n` users, in order.
pub open spec fn apply_users(
    s: Seq<AssignmentValue>,
    dataset_id: Seq<char>,
    users: Seq<DatasetUser>,
    n: nat,
    at: u64,
    by: Seq<char>,
) -> Seq<AssignmentValue>
    decreases n,
{
    if n == 0 {
        s
    } else {
        let u = users[n - 1];
        apply_user(apply_users(s, dataset_id, users, (n - 1) as nat, at, by), dataset_id, u.user_id@, u.roles@, at, by)
    }
}

/// `sorted` with `a` placed after every assignment whose user does not come
/// after its own.
pub open spec fn insert_by_user(sorted: Seq<AssignmentValue>, a: AssignmentValue) -> Seq<AssignmentValue>
    decreases sorted.len(),
{
    if sorted.len() == 0 {
        seq![a]
    } else if lex_le(sorted.last().user_id, a.user_id) {
        sorted.push(a)
    } else {
        insert_by_user(sorted.drop_last(), a).push(sorted.last())
    }
}

/// The assignments ordered by user, assignments of one user keeping their
/// order.
pub open spec fn sort_by_user(s: Seq<AssignmentValue>) -> Seq<AssignmentValue>
    decreases s.len(),
{
    if s.len() == 0 {
        Seq::empty()
    } else {
        insert_by_user(sort_by_user(s.drop_last()), s.last())
    }
}

/// The staged role assignments: the configuration's, with every user's
/// roles staged in turn, ordered by user.
pub open spec fn staged_assignments(
    metadata: DatasetMetadata,
    users: Seq<DatasetUser>,
    at: u64,
    by: Seq<char>,
) -> Seq<AssignmentValue> {
    sort_by_user(
        apply_users(assignment_values(metadata.role_assignments@), metadata.dataset_id@, users, users.len(), at, by),
    )
}

fn copy_roles(roles: &Vec<DatasetRole>) -> (r: Vec<DatasetRole>)
    ensures
        r@ == roles@,
{
    let mut r: Vec<DatasetRole> = Vec::new();
    let mut i: usize = 0;
    while i < roles.len()
        invariant
            i <= roles@.len(),
            r@ =~= roles@.subrange(0, i as int),
        decreases roles.len() - i,
    {
        r.push(roles[i]);
        i += 1;
    }
    r
}

fn copy_assignment(a: &DatasetRoleAssignment) -> (r: DatasetRoleAssignment)
    ensures
        assignment_value(r) == assignment_value(*a),
{
    DatasetRoleAssignment {
        dataset_id: a.dataset_id.clone(),
        user_id: a.user_id.clone(),
        roles: copy_roles(&a.roles),
        assigned_at: a.assigned_at,
        assigned_by: match &a.assigned_by {
            Some(s) => Some(s.clone()),
            None => None,
        },
    }
}

fn holds_role(roles: &Vec<DatasetRole>, role: DatasetRole) -> (r: bool)
    ensures
        r == roles@.contains(role),
{
    let mut i: usize = 0;
    while i < roles.len()
        invariant
            i <= roles@.len(),
            forall|j: int| 0 <= j < i ==> roles@[j] != role,
        decreases roles.len() - i,
    {
        if roles[i] == role {
            return true;
        }
        i += 1;
    }
    false
}

/// The roles of a list as a set, in declaration order.
fn role_set_of(roles: &Vec<DatasetRole>) -> (r: Vec<DatasetRole>)
    ensures
        r@ == role_set(roles@),
{
    let mut r: Vec<DatasetRole> = Vec::new();
    let all = [DatasetRole::Annotator, DatasetRole::Reviewer, DatasetRole::Adjudicator, DatasetRole::DataAdmin];
    let ghost spec_all = all_roles();
    assert(all@ =~= spec_all);
    let mut i: usize = 0;
    while i < 4
        invariant
            i <= 4,
            all@ == spec_all,
            spec_all == all_roles(),
            r@ == spec_all.subrange(0, i as int).filter(|x: DatasetRole| roles@.contains(x)),
        decreases 4 - i,
    {
        let role = all[i];
        let ghost before = spec_all.subrange(0, i as int);
        assert(spec_all.subrange(0, i + 1) =~= before.push(role));
        proof {
            before.lemma_filter_push(role, |x: DatasetRole| roles@.contains(x));
        }
        if holds_role(roles, role) {
            r.push(role);
        }
        i += 1;
    }
    assert(spec_all.subrange(0, 4) =~= spec_all);
    r
}

fn same_role_set(a: &Vec<DatasetRole>, b: &Vec<DatasetRole>) -> (r: bool)
    ensures
        r == (role_set(a@) == role_set(b@)),
{
    let x = role_set_of(a);
    let y = role_set_of(b);
    if x.len() != y.len() {
        return false;
    }
    let mut i: usize = 0;
    while i < x.len()
        invariant
            i <= x@.len(),
            x@.len() == y@.len(),
            x@ == role_set(a@),
            y@ == role_set(b@),
            forall|j: int| 0 <= j < i ==> x@[j] == y@[j],
        decreases x.len() - i,
    {
        if x[i] != y[i] {
            assert(role_set(a@)[i as int] != role_set(b@)[i as int]);
            return false;
        }
        i += 1;
    }
    assert(x@ =~= y@);
    true
}

fn first_assignment(s: &Vec<DatasetRoleAssignment>, user: &str) -> (r: Option<usize>)
    ensures
        match r {
            Some(i) => first_assignment_of(assignment_values(s@), user@) == Some(i as int) && i < s@.len(),
            None => first_assignment_of(assignment_values(s@), user@) is None,
        },
{
    let ghost all = assignment_values(s@);
    let mut i: usize = 0;
    while i < s.len()
        invariant
            i <= s@.len(),
            all == assignment_values(s@),
            first_assignment_of(all.subrange(0, i as int), user@) is None,
        decreases s.len() - i,
    {
        assert(all.subrange(0, i + 1).drop_last() =~= all.subrange(0, i as int));
        if text::str_eq(s[i].user_id.as_str(), user) {
            proof {
                lemma_first_assignment_prefix(all, user@, i + 1);
            }
            return Some(i);
        }
        i += 1;
    }
    assert(all.subrange(0, all.len() as int) =~= all);
    None
}

proof fn lemma_first_assignment_prefix(s: Seq<AssignmentValue>, user: Seq<char>, n: int)
    requires
        0 <= n <= s.len(),
        first_assignment_of(s.subrange(0, n), user) is Some,
    ensures
        first_assignment_of(s, user) == first_assignment_of(s.subrange(0, n), user),
    decreases s.len() - n,
{
    if n < s.len() {
        assert(s.subrange(0, n + 1).drop_last() =~= s.subrange(0, n));
        lemma_first_assignment_prefix(s, user, n + 1);
    } else {
        assert(s.subrange(0, n) =~= s);
    }
}

fn without_user(s: Vec<DatasetRoleAssignment>, user: &str) -> (r: Vec<DatasetRoleAssignment>)
    ensures
        assignment_values(r@) == assignment_values(s@).filter(|a: AssignmentValue| a.user_id != user@),
{
    let ghost all = assignment_values(s@);
    let ghost keep = |a: AssignmentValue| a.user_id != user@;
    let mut rest = s;
    let mut r: Vec<DatasetRoleAssignment> = Vec::new();
    let ghost mut k: int = 0;
    while rest.len() > 0
        invariant
            0 <= k <= all.len(),
            assignment_values(rest@) == all.subrange(k, all.len() as int),
            assignment_values(r@) == all.subrange(0, k).filter(keep),
            keep == (|a: AssignmentValue| a.user_id != user@),
        decreases rest.len(),
    {
        let ghost old_rest = rest@;
        assert(assignment_values(old_rest).len() == old_rest.len());
        assert(assignment_values(old_rest)[0] == all[k]);
        let a = rest.remove(0);
        proof {
            assert(a == old_rest[0]);
            assert(assignment_value(a) == all[k]);
            assert(all.subrange(0, k + 1) =~= all.subrange(0, k).push(all[k]));
            all.subrange(0, k).lemma_filter_push(all[k], keep);
            assert(rest@ =~= old_rest.subrange(1, old_rest.len() as int));
            assert(assignment_values(rest@) =~= assignment_values(old_rest).subrange(1, old_rest.len() as int));
            assert(assignment_values(rest@) =~= all.subrange(k + 1, all.len() as int));
        }
        let ghost before = r@;
        if !text::str_eq(a.user_id.as_str(), user) {
            r.push(a);
            assert(assignment_values(r@) =~= assignment_values(before).push(all[k]));
        }
        proof {
            k = k + 1;
        }
    }
    assert(all.subrange(0, all.len() as int) =~= all);
    r
}

fn apply_user_roles(
    s: Vec<DatasetRoleAssignment>,
    dataset_id: &String,
    user: &DatasetUser,
    at: u64,
    by: &str,
) -> (r: Vec<DatasetRoleAssignment>)
    ensures
        assignment_values(r@) == apply_user(assignment_values(s@), dataset_id@, user.user_id@, user.roles@, at, by@),
{
    let set = role_set_of(&user.roles);
    if set.len() == 0 {
        return without_user(s, user.user_id.as_str());
    }
    let mut s = s;
    let ghost vals = assignment_values(s@);
    match first_assignment(&s, user.user_id.as_str()) {
        Some(i) => {
            if same_role_set(&s[i].roles, &set) {
                assert(role_set(set@) == set@) by {
                    lemma_role_set_idempotent(user.roles@);
                }
                s
            } else {
                proof {
                    lemma_role_set_idempotent(user.roles@);
                }
                let old_entry = s.remove(i);
                let entry = DatasetRoleAssignment {
                    dataset_id: old_entry.dataset_id,
                    user_id: old_entry.user_id,
                    roles: set,
                    assigned_at: at,
                    assigned_by: Some(text::to_string(by)),
                };
                s.insert(i, entry);
                assert(assignment_values(s@) =~= vals.update(
                    i as int,
                    AssignmentValue { roles: role_set(user.roles@), assigned_at: at, assigned_by: Some(by@), ..vals[i as int] },
                ));
                s
            }
        },
        None => {
            s.push(
                DatasetRoleAssignment {
                    dataset_id: dataset_id.clone(),
                    user_id: user.user_id.clone(),
                    roles: set,
                    assigned_at: at,
                    assigned_by: Some(text::to_string(by)),
                },
            );
            assert(assignment_values(s@) =~= vals.push(
                AssignmentValue {
                    dataset_id: dataset_id@,
                    user_id: user.user_id@,
                    roles: role_set(user.roles@),
                    assigned_at: at,
                    assigned_by: Some(by@),
                },
            ));
            s
        },
    }
}

/// Taking the role set of a role set changes nothing.
proof fn lemma_role_set_idempotent(roles: Seq<DatasetRole>)
    ensures
        role_set(role_set(roles)) == role_set(roles),
{
    let s = role_set(roles);
    let pred = |x: DatasetRole| roles.contains(x);
    assert forall|r: DatasetRole| s.contains(r) <==> roles.contains(r) by {
        let k: int = match r {
            DatasetRole::Annotator => 0,
            DatasetRole::Reviewer => 1,
            DatasetRole::Adjudicator => 2,
            DatasetRole::DataAdmin => 3,
        };
        assert(all_roles()[k] == r);
        if roles.contains(r) {
            all_roles().lemma_filter_contains(pred, k);
        }
        if s.contains(r) {
            let j = choose|j: int| 0 <= j < s.len() && s[j] == r;
            #[allow(deprecated)]
            all_roles().filter_lemma(pred);
            assert(pred(s[j]));
        }
    }
    assert(role_set(s) =~= s) by {
        let f1 = |x: DatasetRole| s.contains(x);
        let f2 = |x: DatasetRole| roles.contains(x);
        assert(f1 =~= f2);
    }
}

proof fn lemma_insert_by_user_at(sorted: Seq<AssignmentValue>, a: AssignmentValue, pos: int)
    requires
        0 <= pos <= sorted.len(),
        pos == 0 || lex_le(sorted[pos - 1].user_id, a.user_id),
        forall|j: int| pos <= j < sorted.len() ==> !lex_le(#[trigger] sorted[j].user_id, a.user_id),
    ensures
        insert_by_user(sorted, a) == sorted.insert(pos, a),
    decreases sorted.len(),
{
    if sorted.len() == 0 {
        assert(sorted.insert(pos, a) =~= seq![a]);
    } else if pos == sorted.len() {
        assert(sorted.insert(pos, a) =~= sorted.push(a));
    } else {
        let d = sorted.drop_last();
        assert forall|j: int| pos <= j < d.len() implies !lex_le(#[trigger] d[j].user_id, a.user_id) by {
            assert(d[j] == sorted[j]);
        }
        if pos > 0 {
            assert(d[pos - 1] == sorted[pos - 1]);
        }
        lemma_insert_by_user_at(d, a, pos);
        assert(!lex_le(sorted[sorted.len() - 1].user_id, a.user_id));
        assert(d.insert(pos, a).push(sorted.last()) =~= sorted.insert(pos, a));
    }
}

fn sorted_by_user(s: Vec<DatasetRoleAssignment>) -> (r: Vec<DatasetRoleAssignment>)
    ensures
        assignment_values(r@) == sort_by_user(assignment_values(s@)),
{
    let ghost all = assignment_values(s@);
    let mut rest = s;
    let mut sorted: Vec<DatasetRoleAssignment> = Vec::new();
    let ghost mut k: int = 0;
    while rest.len() > 0
        invariant
            0 <= k <= all.len(),
            assignment_values(rest@) == all.subrange(k, all.len() as int),
            assignment_values(sorted@) == sort_by_user(all.subrange(0, k)),
        decreases rest.len(),
    {
        let ghost old_rest = rest@;
        assert(assignment_values(old_rest).len() == old_rest.len());
        assert(assignment_values(old_rest)[0] == all[k]);
        let a = rest.remove(0);
        proof {
            assert(rest@ =~= old_rest.subrange(1, old_rest.len() as int));
            assert(assignment_values(rest@) =~= assignment_values(old_rest).subrange(1, old_rest.len() as int));
            assert(assignment_values(rest@) =~= all.subrange(k + 1, all.len() as int));
        }
        let key = text::chars_of(a.user_id.as_str());
        let ghost sv = assignment_values(sorted@);
        let mut pos: usize = sorted.len();
        while pos > 0 && !crate::schema::chars_le(&text::chars_of(sorted[pos - 1].user_id.as_str()), &key)
            invariant
                pos <= sorted@.len(),
                sv == assignment_values(sorted@),
                key@ == a.user_id@,
                forall|j: int| pos <= j < sv.len() ==> !lex_le(#[trigger] sv[j].user_id, a.user_id@),
            decreases pos,
        {
            pos -= 1;
        }
        proof {
            if pos > 0 {
                assert(sv[pos - 1] == assignment_value(sorted@[pos - 1]));
            }
            lemma_insert_by_user_at(sv, all[k], pos as int);
            assert(all.subrange(0, k + 1).drop_last() =~= all.subrange(0, k));
            assert(all.subrange(0, k + 1).last() == all[k]);
        }
        sorted.insert(pos, a);
        proof {
            assert(assignment_values(sorted@) =~= sv.insert(pos as int, all[k]));
            k = k + 1;
        }
    }
    assert(all.subrange(0, all.len() as int) =~= all);
    sorted
}

/// The role assignments the configuration is saved with: the dataset's
/// assignments with each listed user's roles staged in turn (a user
/// without roles is removed; changed roles are restamped with `assigned_at`
/// and `current_user`; a new user is added), ordered by user.
pub fn staged_role_assignments(
    metadata: &DatasetMetadata,
    users: &Vec<DatasetUser>,
    assigned_at: u64,
    current_user: &str,
) -> (r: Vec<DatasetRoleAssignment>)
    ensures
        assignment_values(r@) == staged_assignments(*metadata, users@, assigned_at, current_user@),
{
    let mut work: Vec<DatasetRoleAssignment> = Vec::new();
    let mut i: usize = 0;
    while i < metadata.role_assignments.len()
        invariant
            i <= metadata.role_assignments@.len(),
            assignment_values(work@) =~= assignment_values(metadata.role_assignments@).subrange(0, i as int),
        decreases metadata.role_assignments.len() - i,
    {
        let ghost before = work@;
        work.push(copy_assignment(&metadata.role_assignments[i]));
        assert(assignment_values(work@) =~= assignment_values(before).push(
            assignment_value(metadata.role_assignments@[i as int]),
        ));
        i += 1;
    }
    let ghost start = assignment_values(metadata.role_assignments@);
    let mut u: usize = 0;
    while u < users.len()
        invariant
            u <= users@.len(),
            start == assignment_values(metadata.role_assignments@),
            assignment_values(work@) == apply_users(start, metadata.dataset_id@, users@, u as nat, assigned_at, current_user@),
        decreases users.len() - u,
    {
        work = apply_user_roles(work, &metadata.dataset_id, &users[u], assigned_at, current_user);
        u += 1;
    }
    sorted_by_user(work)
}

/// Each assignment's user comes before or equals the next one's.
pub open spec fn ordered_by_user(s: Seq<AssignmentValue>) -> bool {
    forall|i: int, j: int| 0 <= i < j < s.len() ==> lex_le(#[trigger] s[i].user_id, #[trigger] s[j].user_id)
}

proof fn lemma_insert_keeps_order(sorted: Seq<AssignmentValue>, a: AssignmentValue)
    requires
        ordered_by_user(sorted),
    ensures
        ordered_by_user(insert_by_user(sorted, a)),
        insert_by_user(sorted, a).to_multiset() == sorted.to_multiset().insert(a),
    decreases sorted.len(),
{
    broadcast use vstd::multiset::group_multiset_axioms;
    broadcast use vstd::seq_lib::group_to_multiset_ensures;

    if sorted.len() == 0 {
        assert(seq![a] =~= Seq::<AssignmentValue>::empty().push(a));
    } else if lex_le(sorted.last().user_id, a.user_id) {
        let r = sorted.push(a);
        assert forall|i: int, j: int| 0 <= i < j < r.len() implies lex_le(#[trigger] r[i].user_id, #[trigger] r[j].user_id) by {
            if j == r.len() - 1 && i < sorted.len() - 1 {
                crate::schema::lemma_lex_transitive(r[i].user_id, sorted.last().user_id, a.user_id);
            }
        }
    } else {
        let d = sorted.drop_last();
        let l = sorted.last();
        assert(ordered_by_user(d)) by {
            assert forall|i: int, j: int| 0 <= i < j < d.len() implies lex_le(#[trigger] d[i].user_id, #[trigger] d[j].user_id) by {
                assert(d[i] == sorted[i] && d[j] == sorted[j]);
            }
        }
        lemma_insert_keeps_order(d, a);
        let m = insert_by_user(d, a);
        let r = m.push(l);
        crate::schema::lemma_lex_total(l.user_id, a.user_id);
        assert forall|k: int| 0 <= k < m.len() implies lex_le(#[trigger] m[k].user_id, l.user_id) by {
            lemma_insert_members(d, a, k);
            if m[k] == a {
            } else {
                let i = choose|i: int| 0 <= i < d.len() && d[i] == m[k];
                assert(sorted[i] == d[i]);
            }
        }
        assert forall|i: int, j: int| 0 <= i < j < r.len() implies lex_le(#[trigger] r[i].user_id, #[trigger] r[j].user_id) by {
            if j == r.len() - 1 {
                assert(r[i] == m[i]);
            } else {
                assert(r[i] == m[i] && r[j] == m[j]);
            }
        }
        assert(sorted =~= d.push(l));
    }
}

/// An entry of `insert_by_user(sorted, a)` is `a` or an entry of `sorted`.
proof fn lemma_insert_members(sorted: Seq<AssignmentValue>, a: AssignmentValue, k: int)
    requires
        0 <= k < insert_by_user(sorted, a).len(),
    ensures
        insert_by_user(sorted, a).len() == sorted.len() + 1,
        insert_by_user(sorted, a)[k] == a || exists|i: int| 0 <= i < sorted.len() && sorted[i] == insert_by_user(sorted, a)[k],
    decreases sorted.len(),
{
    lemma_insert_len(sorted, a);
    let m = insert_by_user(sorted, a);
    if sorted.len() == 0 {
    } else if lex_le(sorted.last().user_id, a.user_id) {
        if k < sorted.len() {
            assert(sorted[k] == m[k]);
        }
    } else {
        let d = sorted.drop_last();
        if k == m.len() - 1 {
            assert(sorted[sorted.len() - 1] == m[k]);
        } else {
            lemma_insert_members(d, a, k);
            if m[k] != a {
                let i = choose|i: int| 0 <= i < d.len() && d[i] == insert_by_user(d, a)[k];
                assert(sorted[i] == d[i]);
            }
        }
    }
}

proof fn lemma_insert_len(sorted: Seq<AssignmentValue>, a: AssignmentValue)
    ensures
        insert_by_user(sorted, a).len() == sorted.len() + 1,
    decreases sorted.len(),
{
    if sorted.len() > 0 && !lex_le(sorted.last().user_id, a.user_id) {
        lemma_insert_len(sorted.drop_last(), a);
    }
}

/// Staged assignments come ordered by user and hold exactly the
/// assignments staging produced: sorting only reorders them.
pub proof fn staged_assignments_are_ordered_by_user(s: Seq<AssignmentValue>)
    ensures
        ordered_by_user(sort_by_user(s)),
        sort_by_user(s).to_multiset() == s.to_multiset(),
    decreases s.len(),
{
    broadcast use vstd::multiset::group_multiset_axioms;
    broadcast use vstd::seq_lib::group_to_multiset_ensures;

    if s.len() > 0 {
        staged_assignments_are_ordered_by_user(s.drop_last());
        lemma_insert_keeps_order(sort_by_user(s.drop_last()), s.last());
        assert(s =~= s.drop_last().push(s.last()));
    }
}

/// Gives or takes a role on the people page, as its checkbox now says.
/// Giving a role the user lacks leaves the user's roles as a set in
/// declaration order; taking a role the user holds drops every copy of it
/// and keeps the rest in order; a checkbox that already agrees changes
/// nothing.
pub fn set_user_role(user: &mut DatasetUser, role: DatasetRole, enabled: bool)
    ensures
        enabled && !old(user).roles@.contains(role) ==> final(user).roles@ == role_set(old(user).roles@.push(role)),
        !enabled && old(user).roles@.contains(role) ==> final(user).roles@ == old(user).roles@.filter(
            |r: DatasetRole| r != role,
        ),
        enabled == old(user).roles@.contains(role) ==> final(user).roles@ == old(user).roles@,
        final(user).user_id == old(user).user_id,
        final(user).display_name == old(user).display_name,
        final(user).github_login == old(user).github_login,
{
    let held = holds_role(&user.roles, role);
    if enabled && !held {
        let mut with_role = copy_roles(&user.roles);
        with_role.push(role);
        user.roles = role_set_of(&with_role);
    } else if !enabled && held {
        let mut kept: Vec<DatasetRole> = Vec::new();
        let mut i: usize = 0;
        while i < user.roles.len()
            invariant
                i <= user.roles@.len(),
                user.roles@ == old(user).roles@,
                kept@ == user.roles@.subrange(0, i as int).filter(|r: DatasetRole| r != role),
            decreases user.roles.len() - i,
        {
            let r = user.roles[i];
            proof {
                let before = user.roles@.subrange(0, i as int);
                assert(user.roles@.subrange(0, i + 1) =~= before.push(r));
                before.lemma_filter_push(r, |x: DatasetRole| x != role);
            }
            if r != role {
                kept.push(r);
            }
            i += 1;
        }
        assert(user.roles@.subrange(0, user.roles@.len() as int) =~= user.roles@);
        user.roles = kept;
    }
}

} // verus!
