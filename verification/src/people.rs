//! Admin views of people and images: section names, workflow status
//! summaries, user search and unsaved role changes.
use vstd::prelude::*;
use crate::diagnostics::join;
use crate::ids;
use crate::model::{DatasetRole, TaskStatus};
use crate::text;
use crate::text::decimal;

verus! {

/// The sections of the admin view.
#[derive(Clone, Copy, Debug, PartialEq, Eq, Structural)]
pub enum AdminSection {
    Overview,
    People,
    Images,
    Schema,
    Automation,
    Backups,
}

impl AdminSection {
    /// The sections in navigation order.
    pub fn all() -> (v: Vec<AdminSection>)
        ensures
            v@ == seq![
                AdminSection::Overview,
                AdminSection::People,
                AdminSection::Images,
                AdminSection::Schema,
                AdminSection::Automation,
                AdminSection::Backups,
            ],
    {
        let mut v: Vec<AdminSection> = Vec::new();
        v.push(AdminSection::Overview);
        v.push(AdminSection::People);
        v.push(AdminSection::Images);
        v.push(AdminSection::Schema);
        v.push(AdminSection::Automation);
        v.push(AdminSection::Backups);
        assert(v@ =~= seq![
            AdminSection::Overview,
            AdminSection::People,
            AdminSection::Images,
            AdminSection::Schema,
            AdminSection::Automation,
            AdminSection::Backups,
        ]);
        v
    }

    /// The navigation label of the section.
    pub fn label(self) -> (r: &'static str)
        ensures
            r@ == match self {
                AdminSection::Overview => "Overview"@,
                AdminSection::People => "People"@,
                AdminSection::Images => "Images"@,
                AdminSection::Schema => "Schema"@,
                AdminSection::Automation => "Automation"@,
                AdminSection::Backups => "Backups"@,
            },
    {
        match self {
            AdminSection::Overview => "Overview",
            AdminSection::People => "People",
            AdminSection::Images => "Images",
            AdminSection::Schema => "Schema",
            AdminSection::Automation => "Automation",
            AdminSection::Backups => "Backups",
        }
    }
}

/// The workflow statuses in workflow order.
pub open spec fn status_order() -> Seq<TaskStatus> {
    seq![
        TaskStatus::Pending,
        TaskStatus::InProgress,
        TaskStatus::Submitted,
        TaskStatus::Completed,
        TaskStatus::NeedsCorrection,
        TaskStatus::AdjudicationRequired,
    ]
}

/// The workflow statuses in workflow order.
pub fn task_statuses() -> (v: Vec<TaskStatus>)
    ensures
        v@ == status_order(),
{
    let mut v: Vec<TaskStatus> = Vec::new();
    v.push(TaskStatus::Pending);
    v.push(TaskStatus::InProgress);
    v.push(TaskStatus::Submitted);
    v.push(TaskStatus::Completed);
    v.push(TaskStatus::NeedsCorrection);
    v.push(TaskStatus::AdjudicationRequired);
    assert(v@ =~= status_order());
    v
}

/// The display name of a workflow status.
pub open spec fn status_label(status: TaskStatus) -> Seq<char> {
    match status {
        TaskStatus::Pending => "Pending"@,
        TaskStatus::InProgress => "In progress"@,
        TaskStatus::Submitted => "Submitted"@,
        TaskStatus::Completed => "Completed"@,
        TaskStatus::NeedsCorrection => "Needs correction"@,
        TaskStatus::AdjudicationRequired => "Adjudication required"@,
    }
}

/// The display name of a workflow status.
pub fn task_status_label(status: &TaskStatus) -> (r: &'static str)
    ensures
        r@ == status_label(*status),
{
    match status {
        TaskStatus::Pending => "Pending",
        TaskStatus::InProgress => "In progress",
        TaskStatus::Submitted => "Submitted",
        TaskStatus::Completed => "Completed",
        TaskStatus::NeedsCorrection => "Needs correction",
        TaskStatus::AdjudicationRequired => "Adjudication required",
    }
}

/// How often `status` occurs in `statuses`.
pub open spec fn status_count(statuses: Seq<TaskStatus>, status: TaskStatus) -> nat
    decreases statuses.len(),
{
    if statuses.len() == 0 {
        0
    } else {
        status_count(statuses.drop_last(), status) + if statuses.last() == status {
            1nat
        } else {
            0nat
        }
    }
}

/// One `label count` entry per status that occurs, among the first `n`
/// statuses of the workflow order.
pub open spec fn summary_entries(statuses: Seq<TaskStatus>, n: nat) -> Seq<Seq<char>>
    decreases n,
{
    if n == 0 {
        Seq::empty()
    } else {
        let s = status_order()[n - 1];
        let c = status_count(statuses, s);
        summary_entries(statuses, (n - 1) as nat) + if c > 0 {
            seq![status_label(s) + " "@ + text::decimal(c)]
        } else {
            Seq::<Seq<char>>::empty()
        }
    }
}

/// The status summary of a set of image-workflow pairs: the count of each
/// status that occurs, in workflow order, or a placeholder when there is
/// none.
pub open spec fn status_summary(statuses: Seq<TaskStatus>) -> Seq<char> {
    let entries = summary_entries(statuses, 6);
    if entries.len() == 0 {
        "No workflow status"@
    } else {
        join(entries, " | "@)
    }
}

fn count_status(statuses: &Vec<TaskStatus>, status: TaskStatus) -> (n: usize)
    ensures
        n == status_count(statuses@, status),
{
    let mut n: usize = 0;
    let mut i: usize = 0;
    while i < statuses.len()
        invariant
            i <= statuses@.len(),
            n <= i,
            n == status_count(statuses@.subrange(0, i as int), status),
        decreases statuses.len() - i,
    {
        assert(statuses@.subrange(0, i + 1).drop_last() =~= statuses@.subrange(0, i as int));
        if statuses[i] == status {
            n += 1;
        }
        i += 1;
    }
    assert(statuses@.subrange(0, statuses@.len() as int) =~= statuses@);
    n
}

/// Summarizes workflow statuses as `Pending 2 | Completed 1`, in workflow
/// order, or `No workflow status` when there are none.
pub fn task_status_summary(statuses: &Vec<TaskStatus>) -> (r: String)
    ensures
        r@ == status_summary(statuses@),
{
    let order = task_statuses();
    let mut entries: Vec<String> = Vec::new();
    let mut k: usize = 0;
    while k < order.len()
        invariant
            order@ == status_order(),
            k <= 6,
            ids::views(entries@) == summary_entries(statuses@, k as nat),
        decreases order.len() - k,
    {
        let s = order[k];
        let c = count_status(statuses, s);
        let ghost before = ids::views(entries@);
        if c > 0 {
            let mut e = text::concat2(task_status_label(&s), " ");
            text::push_decimal(&mut e, c as u64);
            entries.push(e);
        }
        assert(ids::views(entries@) =~= summary_entries(statuses@, (k + 1) as nat));
        k += 1;
    }
    if entries.len() == 0 {
        text::to_string("No workflow status")
    } else {
        crate::diagnostics::join_strings(&entries, " | ")
    }
}

/// Whether the image explorer's controls respond: nothing is loading,
/// saving roles, uploading or ingesting.
pub fn image_controls_enabled(
    images_loading: bool,
    admin_loading: bool,
    saving_roles: bool,
    uploading: bool,
    ingesting: bool,
) -> (r: bool)
    ensures
        r == (!images_loading && !admin_loading && !saving_roles && !uploading && !ingesting),
{
    !images_loading && !admin_loading && !saving_roles && !uploading && !ingesting
}

/// The paging line of the image explorer and where its buttons lead.
#[derive(Debug)]
pub struct ImagePaging {
    /// `N images | Page p of t`, with at least one page.
    pub summary: String,
    /// The page the previous button loads, when it is enabled.
    pub previous: Option<u32>,
    /// The page the next button loads, when it is enabled.
    pub next: Option<u32>,
}

/// The paging line of a result page.
pub open spec fn paging_summary(page: u32, total_pages: u32, total_items: u64) -> Seq<char> {
    decimal(total_items as nat) + " images | Page "@ + decimal(page as nat) + " of "@ + decimal(
        if total_pages >= 1 {
            total_pages as nat
        } else {
            1
        },
    )
}

/// The paging of result page `page` of `total_pages`: the previous page
/// when past the first, the next page when before the last, each only while
/// the controls respond.
pub fn image_paging(page: u32, total_pages: u32, total_items: u64, controls_enabled: bool) -> (r: ImagePaging)
    ensures
        r.summary@ == paging_summary(page, total_pages, total_items),
        r.previous == if controls_enabled && page > 1 {
            Some((page - 1) as u32)
        } else {
            None
        },
        r.next == if controls_enabled && page < total_pages {
            Some((page + 1) as u32)
        } else {
            None
        },
{
    let mut summary = String::new();
    text::push_decimal(&mut summary, total_items);
    text::push_str(&mut summary, " images | Page ");
    text::push_decimal(&mut summary, page as u64);
    text::push_str(&mut summary, " of ");
    let shown: u32 = if total_pages >= 1 {
        total_pages
    } else {
        1
    };
    text::push_decimal(&mut summary, shown as u64);
    proof {
        reveal_strlit(" images | Page ");
        reveal_strlit(" of ");
    }
    let previous = if controls_enabled && page > 1 {
        Some(page - 1)
    } else {
        None
    };
    let next = if controls_enabled && page < total_pages {
        Some(page + 1)
    } else {
        None
    };
    ImagePaging { summary, previous, next }
}

/// The message shown when loading images failed, and whether it is only a
/// warning: with earlier results still shown it is; without, it is an
/// error.
pub fn images_error_message(error: &str, has_results: bool) -> (r: (String, bool))
    ensures
        r.1 == has_results,
        r.0@ == if has_results {
            "Showing saved image results. Refresh failed: "@ + error@
        } else {
            "Could not load images: "@ + error@
        },
{
    if has_results {
        (text::concat2("Showing saved image results. Refresh failed: ", error), true)
    } else {
        (text::concat2("Could not load images: ", error), false)
    }
}

/// The colour family of the admin status line.
#[derive(Clone, Copy, Debug, PartialEq, Eq, Structural)]
pub enum AdminTone {
    Danger,
    Info,
    Warning,
    Success,
}

/// What the admin header shows and allows.
#[derive(Debug)]
pub struct AdminStatus {
    pub text: String,
    pub tone: AdminTone,
    /// Reloading from the server is allowed.
    pub can_reload: bool,
    /// Saving the staged changes is allowed.
    pub can_save: bool,
    /// No admin operation is running.
    pub idle: bool,
    /// The hint on the save button.
    pub save_hint: &'static str,
}

/// The admin status line before the count of validation errors.
pub open spec fn admin_status_base(
    loading_admin: bool,
    saving_roles: bool,
    has_config: bool,
    load_failed: bool,
    config_dirty: bool,
    permissions_dirty: bool,
) -> Seq<char> {
    if loading_admin || saving_roles {
        if saving_roles {
            "Saving Admin changes"@
        } else if has_config {
            "Saving or refreshing Admin changes"@
        } else {
            "Loading Admin configuration"@
        }
    } else if load_failed {
        if has_config {
            "Admin refresh failed"@
        } else {
            "Admin configuration unavailable"@
        }
    } else if config_dirty && permissions_dirty {
        "Admin changes staged"@
    } else if config_dirty {
        "Configuration changes staged"@
    } else if permissions_dirty {
        "Permission changes staged"@
    } else {
        "Admin changes saved"@
    }
}

/// The state of the admin header: what is loading or saving, whether the
/// configuration is loaded, whether the last load failed, which staged
/// changes exist and how many validation errors the staged configuration
/// has. Saving needs staged changes, no validation error and no running
/// operation; reloading also needs no staged change.
pub fn admin_status(
    loading_admin: bool,
    saving_roles: bool,
    uploading: bool,
    ingesting: bool,
    has_config: bool,
    load_failed: bool,
    config_dirty: bool,
    permissions_dirty: bool,
    issue_count: usize,
) -> (r: AdminStatus)
    ensures
        r.text@ == admin_status_base(loading_admin, saving_roles, has_config, load_failed, config_dirty, permissions_dirty)
            + if (config_dirty || permissions_dirty) && issue_count > 0 {
            "; "@ + decimal(issue_count as nat) + " validation error(s)"@
        } else {
            Seq::<char>::empty()
        },
        r.tone == if load_failed {
            AdminTone::Danger
        } else if loading_admin || saving_roles {
            AdminTone::Info
        } else if config_dirty || permissions_dirty {
            AdminTone::Warning
        } else {
            AdminTone::Success
        },
        r.idle == (!loading_admin && !saving_roles && !uploading && !ingesting),
        r.can_reload == (r.idle && !config_dirty && !permissions_dirty),
        r.can_save == ((config_dirty || permissions_dirty) && issue_count == 0 && r.idle),
        r.save_hint@ == if r.can_save {
            "Save all staged configuration and permission changes."@
        } else if issue_count > 0 {
            "Fix validation errors before saving."@
        } else {
            "Wait for the active Admin operation to finish."@
        },
{
    let busy = loading_admin || saving_roles;
    let base: &str = if busy {
        if saving_roles {
            "Saving Admin changes"
        } else if has_config {
            "Saving or refreshing Admin changes"
        } else {
            "Loading Admin configuration"
        }
    } else if load_failed {
        if has_config {
            "Admin refresh failed"
        } else {
            "Admin configuration unavailable"
        }
    } else if config_dirty && permissions_dirty {
        "Admin changes staged"
    } else if config_dirty {
        "Configuration changes staged"
    } else if permissions_dirty {
        "Permission changes staged"
    } else {
        "Admin changes saved"
    };
    let dirty = config_dirty || permissions_dirty;
    let mut text = text::to_string(base);
    if dirty && issue_count > 0 {
        text::push_str(&mut text, "; ");
        text::push_decimal(&mut text, issue_count as u64);
        text::push_str(&mut text, " validation error(s)");
    }
    let tone = if load_failed {
        AdminTone::Danger
    } else if busy {
        AdminTone::Info
    } else if dirty {
        AdminTone::Warning
    } else {
        AdminTone::Success
    };
    let idle = !loading_admin && !saving_roles && !uploading && !ingesting;
    let can_save = dirty && issue_count == 0 && idle;
    let save_hint = if can_save {
        "Save all staged configuration and permission changes."
    } else if issue_count > 0 {
        "Fix validation errors before saving."
    } else {
        "Wait for the active Admin operation to finish."
    };
    proof {
        reveal_strlit("; ");
        reveal_strlit(" validation error(s)");
    }
    AdminStatus { text, tone, can_reload: idle && !dirty, can_save, idle, save_hint }
}

/// The message shown when loading the admin data failed: a warning while
/// earlier data is still shown, an error otherwise.
pub fn admin_load_error_message(error: &str, has_config: bool) -> (r: (String, bool))
    ensures
        r.1 == has_config,
        r.0@ == if has_config {
            "Showing saved admin data. Refresh failed: "@ + error@
        } else {
            "Admin load failed: "@ + error@
        },
{
    if has_config {
        (text::concat2("Showing saved admin data. Refresh failed: ", error), true)
    } else {
        (text::concat2("Admin load failed: ", error), false)
    }
}

/// What the image explorer shows of an image: its class IDs and, per
/// workflow, its status (in workflow-ID order, as the server's map lists
/// them).
#[derive(Debug)]
pub struct ImageExplorerItem {
    pub class_ids: Vec<String>,
    pub task_statuses: Vec<(String, TaskStatus)>,
}

/// The class IDs of an image, comma-separated, or `None` when it has none.
pub open spec fn classes_text(class_ids: Seq<String>) -> Seq<char> {
    let joined = join(ids::views(class_ids), ", "@);
    if joined.len() == 0 {
        "None"@
    } else {
        joined
    }
}

/// The class IDs of an image, comma-separated, or `None`.
pub fn image_classes(item: &ImageExplorerItem) -> (r: String)
    ensures
        r@ == classes_text(item.class_ids@),
{
    let joined = crate::diagnostics::join_strings(&item.class_ids, ", ");
    if joined.as_str().is_empty() {
        text::to_string("None")
    } else {
        joined
    }
}

/// One `workflow: status` line per workflow.
pub open spec fn status_lines(entries: Seq<(String, TaskStatus)>) -> Seq<Seq<char>> {
    entries.map_values(|e: (String, TaskStatus)| e.0@ + ": "@ + status_label(e.1))
}

/// The per-workflow statuses of an image, one line each, or a placeholder.
pub open spec fn status_details_text(entries: Seq<(String, TaskStatus)>) -> Seq<char> {
    let joined = join(status_lines(entries), "\n"@);
    if joined.len() == 0 {
        "No workflow status"@
    } else {
        joined
    }
}

/// The per-workflow statuses of an image, one `workflow: status` line each.
pub fn image_status_details(item: &ImageExplorerItem) -> (r: String)
    ensures
        r@ == status_details_text(item.task_statuses@),
{
    let mut lines: Vec<String> = Vec::new();
    let mut i: usize = 0;
    while i < item.task_statuses.len()
        invariant
            i <= item.task_statuses@.len(),
            ids::views(lines@) =~= status_lines(item.task_statuses@).subrange(0, i as int),
        decreases item.task_statuses.len() - i,
    {
        let (task, status) = &item.task_statuses[i];
        let ghost before = lines@;
        lines.push(text::concat3(task.as_str(), ": ", task_status_label(status)));
        assert(ids::views(lines@) =~= ids::views(before).push(status_lines(item.task_statuses@)[i as int]));
        i += 1;
    }
    assert(status_lines(item.task_statuses@).subrange(0, item.task_statuses@.len() as int) =~= status_lines(item.task_statuses@));
    let joined = crate::diagnostics::join_strings(&lines, "\n");
    if joined.as_str().is_empty() {
        text::to_string("No workflow status")
    } else {
        joined
    }
}

/// A member of a dataset as the people view lists it.
#[derive(Debug)]
pub struct DatasetUser {
    pub user_id: String,
    pub display_name: String,
    pub github_login: Option<String>,
    pub roles: Vec<DatasetRole>,
}

/// The lowercase form of a text, as `str::to_lowercase` computes it.
pub uninterp spec fn lowercase_of(s: Seq<char>) -> Seq<char>;

/// The lowercase form of `s`, from `str::to_lowercase`.
#[verifier::external_body]
fn lowercase(s: &str) -> (r: String)
    ensures
        r@ == lowercase_of(s@),
{
    s.to_lowercase()
}

/// `needle` occurs in `hay`.
pub open spec fn has_substring(hay: Seq<char>, needle: Seq<char>) -> bool {
    exists|i: int| 0 <= i && i + needle.len() <= hay.len() && #[trigger] hay.subrange(i, i + needle.len()) == needle
}

/// Whether `needle` occurs in `hay`.
pub fn contains_text(hay: &str, needle: &str) -> (r: bool)
    ensures
        r == has_substring(hay@, needle@),
{
    let h = text::chars_of(hay);
    let n = text::chars_of(needle);
    if n.len() > h.len() {
        return false;
    }
    let last = h.len() - n.len();
    let mut i: usize = 0;
    while i <= last
        invariant
            h@ == hay@,
            n@ == needle@,
            n@.len() <= h@.len(),
            last == h@.len() - n@.len(),
            i <= last + 1,
            forall|j: int| 0 <= j < i ==> #[trigger] h@.subrange(j, j + n@.len()) != n@,
        decreases h.len() - i,
    {
        let mut k: usize = 0;
        let mut same = true;
        while k < n.len()
            invariant
                i <= last,
                last == h.len() - n.len(),
                k <= n@.len(),
                same == forall|x: int| 0 <= x < k ==> h@[i + x] == n@[x],
            decreases n.len() - k,
        {
            if h[i + k] != n[k] {
                same = false;
            }
            k += 1;
        }
        if same {
            assert(h@.subrange(i as int, i + n@.len()) =~= n@);
            return true;
        }
        assert(h@.subrange(i as int, i + n@.len()) != n@) by {
            let x = choose|x: int| 0 <= x < n@.len() && h@[i + x] != n@[x];
            assert(h@.subrange(i as int, i + n@.len())[x] == h@[i + x]);
        }
        i += 1;
    }
    false
}

/// A user matches a (lowercase) search text when the text is empty or
/// occurs in the lowercase display name, user ID or GitHub login.
pub open spec fn matches_search(
    display_lower: Seq<char>,
    id_lower: Seq<char>,
    login_lower: Option<Seq<char>>,
    search: Seq<char>,
) -> bool {
    ||| search.len() == 0
    ||| has_substring(display_lower, search)
    ||| has_substring(id_lower, search)
    ||| (login_lower matches Some(l) && has_substring(l, search))
}

/// Whether a user matches the search text, given the user's lowercased
/// display name, user ID and GitHub login.
pub fn matches_lowercased(
    display_lower: &str,
    id_lower: &str,
    login_lower: Option<&str>,
    search: &str,
) -> (r: bool)
    ensures
        r == matches_search(
            display_lower@,
            id_lower@,
            match login_lower {
                Some(l) => Some(l@),
                None => None,
            },
            search@,
        ),
{
    search.is_empty() || contains_text(display_lower, search) || contains_text(id_lower, search) || match login_lower {
        Some(l) => contains_text(l, search),
        None => false,
    }
}

/// Whether a user matches the (lowercase) search text in the people view.
pub fn user_matches_search(user: &DatasetUser, search: &str) -> (r: bool)
    ensures
        r == matches_search(
            lowercase_of(user.display_name@),
            lowercase_of(user.user_id@),
            match user.github_login {
                Some(l) => Some(lowercase_of(l@)),
                None => None,
            },
            search@,
        ),
{
    let display = lowercase(user.display_name.as_str());
    let id = lowercase(user.user_id.as_str());
    match &user.github_login {
        Some(login) => {
            let login_lower = lowercase(login.as_str());
            matches_lowercased(display.as_str(), id.as_str(), Some(login_lower.as_str()), search)
        },
        None => matches_lowercased(display.as_str(), id.as_str(), None, search),
    }
}

/// A user's roles differ from the saved ones: the user is new, or the first
/// saved entry for the same user has different roles.
pub open spec fn permissions_dirty(user: DatasetUser, baseline: Seq<DatasetUser>) -> bool {
    match first_same_user(user, baseline) {
        Some(k) => baseline[k].roles@ != user.roles@,
        None => true,
    }
}

/// Saved entry `k` is the first for the same user.
pub open spec fn first_entry_of(user: DatasetUser, baseline: Seq<DatasetUser>, k: int) -> bool {
    0 <= k < baseline.len() && baseline[k].user_id@ == user.user_id@ && forall|j: int|
        0 <= j < k ==> (#[trigger] baseline[j]).user_id@ != user.user_id@
}

/// The position of the first saved entry for the same user.
pub open spec fn first_same_user(user: DatasetUser, baseline: Seq<DatasetUser>) -> Option<int> {
    if exists|k: int| first_entry_of(user, baseline, k) {
        Some(choose|k: int| first_entry_of(user, baseline, k))
    } else {
        None
    }
}

fn same_roles(a: &Vec<DatasetRole>, b: &Vec<DatasetRole>) -> (r: bool)
    ensures
        r == (a@ == b@),
{
    if a.len() != b.len() {
        return false;
    }
    let mut i: usize = 0;
    while i < a.len()
        invariant
            a@.len() == b@.len(),
            i <= a@.len(),
            forall|j: int| 0 <= j < i ==> a@[j] == b@[j],
        decreases a.len() - i,
    {
        if a[i] != b[i] {
            return false;
        }
        i += 1;
    }
    assert(a@ =~= b@);
    true
}

/// Whether a user's roles have unsaved changes against the saved list.
pub fn user_permissions_dirty(user: &DatasetUser, baseline: &Vec<DatasetUser>) -> (r: bool)
    ensures
        r == permissions_dirty(*user, baseline@),
{
    let mut k: usize = 0;
    while k < baseline.len()
        invariant
            k <= baseline@.len(),
            forall|j: int| 0 <= j < k ==> (#[trigger] baseline@[j]).user_id@ != user.user_id@,
        decreases baseline.len() - k,
    {
        if baseline[k].user_id == user.user_id {
            proof {
                assert(first_entry_of(*user, baseline@, k as int));
                let c = choose|c: int| first_entry_of(*user, baseline@, c);
                if c < k {
                    assert(baseline@[c].user_id@ != user.user_id@);
                } else if k < c {
                    assert(baseline@[k as int].user_id@ != user.user_id@);
                }
                assert(first_same_user(*user, baseline@) == Some(k as int));
            }
            return !same_roles(&baseline[k].roles, &user.roles);
        }
        k += 1;
    }
    true
}

/// How many users hold the data admin role.
pub open spec fn admin_count_of(users: Seq<DatasetUser>) -> nat
    decreases users.len(),
{
    if users.len() == 0 {
        0
    } else {
        admin_count_of(users.drop_last()) + if users.last().roles@.contains(DatasetRole::DataAdmin) {
            1nat
        } else {
            0nat
        }
    }
}

/// The number of data admins among the users.
pub fn admin_count(users: &Vec<DatasetUser>) -> (n: usize)
    ensures
        n == admin_count_of(users@),
{
    let mut n: usize = 0;
    let mut i: usize = 0;
    while i < users.len()
        invariant
            i <= users@.len(),
            n == admin_count_of(users@.subrange(0, i as int)),
            n <= i,
        decreases users.len() - i,
    {
        assert(users@.subrange(0, i + 1).drop_last() =~= users@.subrange(0, i as int));
        let mut admin = false;
        let mut j: usize = 0;
        while j < users[i].roles.len()
            invariant
                i < users@.len(),
                j <= users@[i as int].roles@.len(),
                admin == exists|k: int| 0 <= k < j && users@[i as int].roles@[k] == DatasetRole::DataAdmin,
            decreases users[i as int].roles@.len() - j,
        {
            if users[i].roles[j] == DatasetRole::DataAdmin {
                admin = true;
            }
            j += 1;
        }
        if admin {
            n += 1;
        }
        i += 1;
    }
    assert(users@.subrange(0, users@.len() as int) =~= users@);
    n
}

/// Whether a role checkbox responds: not while admin work runs, and never
/// for taking the data admin role from oneself or from the last data admin.
pub fn role_toggle_enabled(
    user: &DatasetUser,
    role: DatasetRole,
    current_user: &str,
    admin_count: usize,
    admin_loading: bool,
) -> (r: bool)
    ensures
        r == (!admin_loading && !(role == DatasetRole::DataAdmin && user.roles@.contains(role) && (user.user_id@
            == current_user@ || admin_count == 1))),
{
    if admin_loading {
        return false;
    }
    if role != DatasetRole::DataAdmin {
        return true;
    }
    let mut held = false;
    let mut j: usize = 0;
    while j < user.roles.len()
        invariant
            j <= user.roles@.len(),
            held == exists|k: int| 0 <= k < j && user.roles@[k] == role,
        decreases user.roles.len() - j,
    {
        if user.roles[j] == role {
            held = true;
        }
        j += 1;
    }
    !(held && (text::str_eq(user.user_id.as_str(), current_user) || admin_count == 1))
}

/// Why a data admin checkbox does not respond.
pub fn disabled_role_hint(user: &DatasetUser, current_user: &str) -> (r: &'static str)
    ensures
        r@ == if user.user_id@ == current_user@ {
            "You cannot remove your own data admin role."@
        } else {
            "At least one data admin must remain."@
        },
{
    if text::str_eq(user.user_id.as_str(), current_user) {
        "You cannot remove your own data admin role."
    } else {
        "At least one data admin must remain."
    }
}

/// The people search as it is matched: the typed text trimmed, then
/// lowercased.
pub fn normalized_search(search: &str) -> (r: String)
    ensures
        r@ == lowercase_of(text::trim(search@)),
{
    let t = text::trimmed(search);
    lowercase(t.as_str())
}

/// The refresh button of the image explorer: a retry after a failed first
/// load, a refresh otherwise.
pub fn image_refresh_label(failed: bool, has_results: bool) -> (r: &'static str)
    ensures
        r@ == if failed && !has_results {
            "Retry image load"@
        } else {
            "Refresh images"@
        },
{
    if failed && !has_results {
        "Retry image load"
    } else {
        "Refresh images"
    }
}

/// What the image explorer says while it loads.
pub fn images_loading_text(has_results: bool) -> (r: &'static str)
    ensures
        r@ == if has_results {
            "Refreshing images..."@
        } else {
            "Loading images..."@
        },
{
    if has_results {
        "Refreshing images..."
    } else {
        "Loading images..."
    }
}

/// Whether the image explorer shows an empty state, and which: no matching
/// images on an empty page, or no results before any page loaded (neither
/// while loading, nor after a failed first load).
pub fn images_empty_state(loading: bool, failed: bool, page_items: Option<usize>) -> (r: Option<(&'static str, &'static str)>)
    ensures
        match page_items {
            Some(0) => if loading {
                r is None
            } else {
                r matches Some((t, b)) && t@ == "No matching images"@ && b@ == "Change the filters or ingest more images."@
            },
            Some(_) => r is None,
            None => if !loading && !failed {
                r matches Some((t, b)) && t@ == "No image results"@ && b@ == "Apply filters or refresh to load indexed images."@
            } else {
                r is None
            },
        },
{
    match page_items {
        Some(0) => if loading {
            None
        } else {
            Some(("No matching images", "Change the filters or ingest more images."))
        },
        Some(_) => None,
        None => if !loading && !failed {
            Some(("No image results", "Apply filters or refresh to load indexed images."))
        } else {
            None
        },
    }
}

} // verus!
