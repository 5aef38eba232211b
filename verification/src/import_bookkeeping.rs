//! The bookkeeping of import requests: each request gets a fresh id within
//! the current import epoch, queued requests record what they do until
//! their response settles them, and a new epoch forgets everything still
//! running or queued so that late responses are ignored.
use vstd::prelude::*;

verus! {

/// What an import request does.
#[derive(Clone, Copy, Debug, PartialEq, Eq, Structural)]
pub enum ImportActivity {
    CheckCapabilities,
    Create,
    BrowseSource,
    InspectDescriptor,
    SelectFolder,
    UploadChunk,
    Seal,
    Preflight,
    UpdatePlan,
    LoadStatus,
    Commit,
    RefreshDatasets,
}

/// Who an import request is: its id, the epoch it was made in, and the
/// import it concerns (none before an import exists).
#[derive(Debug)]
pub struct ImportRequestIdentity {
    pub request_id: u64,
    pub epoch: u64,
    pub import_id: Option<String>,
}

/// The requests of the import flow: the current epoch, the next request
/// id, the activity of each request still running (queued or started),
/// and the requests queued and not yet started, oldest first.
#[derive(Debug)]
pub struct ImportRequestBook {
    pub epoch: u64,
    pub next_request_id: u64,
    pub active: Vec<(u64, ImportActivity)>,
    pub queued: Vec<u64>,
}

/// The ids of the running requests.
pub open spec fn active_ids(active: Seq<(u64, ImportActivity)>) -> Seq<u64> {
    active.map_values(|p: (u64, ImportActivity)| p.0)
}

/// The running requests other than `id`.
pub open spec fn without_request(active: Seq<(u64, ImportActivity)>, id: u64) -> Seq<(u64, ImportActivity)> {
    active.filter(|p: (u64, ImportActivity)| p.0 != id)
}

/// The queued requests other than `id`.
pub open spec fn without_queued(queued: Seq<u64>, id: u64) -> Seq<u64> {
    queued.filter(|q: u64| q != id)
}

/// The activity recorded for request `id`, if it is running.
pub open spec fn activity_of(active: Seq<(u64, ImportActivity)>, id: u64) -> Option<ImportActivity>
    decreases active.len(),
{
    if active.len() == 0 {
        None
    } else if active[0].0 == id {
        Some(active[0].1)
    } else {
        activity_of(active.subrange(1, active.len() as int), id)
    }
}

/// A response to `request` is current: it was made in the current epoch and
/// the request is still running.
pub open spec fn response_current(book: ImportRequestBook, request: ImportRequestIdentity) -> bool {
    request.epoch == book.epoch && active_ids(book.active@).contains(request.request_id)
}

/// `after` is `before` in a new epoch: nothing runs and nothing is queued.
pub open spec fn began_epoch(before: ImportRequestBook, after: ImportRequestBook) -> bool {
    &&& after.epoch == before.epoch + 1
    &&& after.next_request_id == before.next_request_id
    &&& after.active@.len() == 0
    &&& after.queued@.len() == 0
}

impl ImportRequestBook {
    /// A book in the first epoch with nothing running.
    pub fn new() -> (b: Self)
        ensures
            b.epoch == 0,
            b.next_request_id == 1,
            b.active@.len() == 0,
            b.queued@.len() == 0,
    {
        ImportRequestBook { epoch: 0, next_request_id: 1, active: Vec::new(), queued: Vec::new() }
    }

    /// A fresh identity for a request about `import_id`, in the current
    /// epoch.
    pub fn identity(&mut self, import_id: Option<String>) -> (r: ImportRequestIdentity)
        requires
            old(self).next_request_id < u64::MAX,
        ensures
            r.request_id == old(self).next_request_id,
            r.epoch == old(self).epoch,
            r.import_id == import_id,
            final(self).next_request_id == old(self).next_request_id + 1,
            final(self).epoch == old(self).epoch,
            final(self).active == old(self).active,
            final(self).queued == old(self).queued,
    {
        let request_id = self.next_request_id;
        self.next_request_id = self.next_request_id + 1;
        ImportRequestIdentity { request_id, epoch: self.epoch, import_id }
    }

    /// Whether request `id` is running.
    pub fn is_active(&self, id: u64) -> (r: bool)
        ensures
            r == active_ids(self.active@).contains(id),
    {
        let mut i: usize = 0;
        while i < self.active.len()
            invariant
                i <= self.active@.len(),
                forall|j: int| 0 <= j < i ==> (#[trigger] self.active@[j]).0 != id,
            decreases self.active.len() - i,
        {
            if self.active[i].0 == id {
                assert(active_ids(self.active@)[i as int] == id);
                return true;
            }
            i += 1;
        }
        assert(!active_ids(self.active@).contains(id)) by {
            if active_ids(self.active@).contains(id) {
                let k = choose|k: int| 0 <= k < active_ids(self.active@).len() && active_ids(self.active@)[k] == id;
                assert(self.active@[k].0 == id);
            }
        }
        false
    }

    /// Queues `request` to do `activity`. A request of an earlier epoch, or
    /// one already running, is refused and nothing changes; otherwise its
    /// activity is recorded and it joins the end of the queue.
    pub fn queue(&mut self, request: &ImportRequestIdentity, activity: ImportActivity) -> (ok: bool)
        ensures
            ok == (request.epoch == old(self).epoch && !active_ids(old(self).active@).contains(request.request_id)),
            ok ==> final(self).active@ == old(self).active@.push((request.request_id, activity)),
            ok ==> final(self).queued@ == old(self).queued@.push(request.request_id),
            !ok ==> final(self).active == old(self).active && final(self).queued == old(self).queued,
            final(self).epoch == old(self).epoch,
            final(self).next_request_id == old(self).next_request_id,
    {
        if request.epoch != self.epoch || self.is_active(request.request_id) {
            return false;
        }
        self.active.push((request.request_id, activity));
        self.queued.push(request.request_id);
        true
    }

    /// The activity recorded for request `id`, if it is running.
    pub fn activity(&self, id: u64) -> (r: Option<ImportActivity>)
        ensures
            r == activity_of(self.active@, id),
    {
        assert(self.active@.subrange(0, self.active@.len() as int) =~= self.active@);
        let mut i: usize = 0;
        while i < self.active.len()
            invariant
                i <= self.active@.len(),
                activity_of(self.active@, id) == activity_of(self.active@.subrange(i as int, self.active@.len() as int), id),
            decreases self.active.len() - i,
        {
            let ghost rest = self.active@.subrange(i as int, self.active@.len() as int);
            assert(rest.subrange(1, rest.len() as int) =~= self.active@.subrange(i + 1, self.active@.len() as int));
            if self.active[i].0 == id {
                return Some(self.active[i].1);
            }
            i += 1;
        }
        None
    }

    /// Whether some running request does `activity`.
    pub fn runs(&self, activity: ImportActivity) -> (r: bool)
        ensures
            r == exists|j: int| 0 <= j < self.active@.len() && (#[trigger] self.active@[j]).1 == activity,
    {
        let mut i: usize = 0;
        while i < self.active.len()
            invariant
                i <= self.active@.len(),
                forall|j: int| 0 <= j < i ==> (#[trigger] self.active@[j]).1 != activity,
            decreases self.active.len() - i,
        {
            if self.active[i].1 == activity {
                return true;
            }
            i += 1;
        }
        false
    }

    /// Starts the oldest queued request: it leaves the queue and keeps
    /// running until its response settles it.
    pub fn start_next(&mut self) -> (r: Option<u64>)
        ensures
            old(self).queued@.len() == 0 ==> r is None && final(self).queued == old(self).queued,
            old(self).queued@.len() > 0 ==> r == Some(old(self).queued@[0]) && final(self).queued@
                == old(self).queued@.subrange(1, old(self).queued@.len() as int),
            final(self).active == old(self).active,
            final(self).epoch == old(self).epoch,
            final(self).next_request_id == old(self).next_request_id,
    {
        if self.queued.len() == 0 {
            return None;
        }
        let first = self.queued.remove(0);
        Some(first)
    }

    /// Begins a new import epoch: every running and queued request is
    /// forgotten, so that their responses are no longer current.
    pub fn begin_epoch(&mut self)
        requires
            old(self).epoch < u64::MAX,
        ensures
            began_epoch(*old(self), *final(self)),
    {
        self.epoch = self.epoch + 1;
        self.active = Vec::new();
        self.queued = Vec::new();
    }

    /// Settles the response to `request`: it is current when the request
    /// was made in this epoch and still runs, and it then stops running and
    /// leaves the queue. A response that is not current changes nothing.
    pub fn settle(&mut self, request: &ImportRequestIdentity) -> (current: bool)
        ensures
            current == response_current(*old(self), *request),
            current ==> final(self).active@ == without_request(old(self).active@, request.request_id),
            current ==> final(self).queued@ == without_queued(old(self).queued@, request.request_id),
            !current ==> final(self).active == old(self).active && final(self).queued == old(self).queued,
            final(self).epoch == old(self).epoch,
            final(self).next_request_id == old(self).next_request_id,
    {
        if request.epoch != self.epoch || !self.is_active(request.request_id) {
            return false;
        }
        let id = request.request_id;
        let mut kept: Vec<(u64, ImportActivity)> = Vec::new();
        let mut i: usize = 0;
        while i < self.active.len()
            invariant
                i <= self.active@.len(),
                kept@ == without_request(self.active@.subrange(0, i as int), id),
            decreases self.active.len() - i,
        {
            let ghost before = kept@;
            let p = self.active[i];
            assert(self.active@.subrange(0, i + 1).drop_last() =~= self.active@.subrange(0, i as int));
            reveal(Seq::filter);
            if p.0 != id {
                kept.push(p);
            }
            i += 1;
        }
        assert(self.active@.subrange(0, self.active@.len() as int) =~= self.active@);
        let mut waiting: Vec<u64> = Vec::new();
        let mut i: usize = 0;
        while i < self.queued.len()
            invariant
                i <= self.queued@.len(),
                waiting@ == without_queued(self.queued@.subrange(0, i as int), id),
            decreases self.queued.len() - i,
        {
            let q = self.queued[i];
            assert(self.queued@.subrange(0, i + 1).drop_last() =~= self.queued@.subrange(0, i as int));
            reveal(Seq::filter);
            if q != id {
                waiting.push(q);
            }
            i += 1;
        }
        assert(self.queued@.subrange(0, self.queued@.len() as int) =~= self.queued@);
        self.active = kept;
        self.queued = waiting;
        true
    }
}

/// After a new epoch begins, no response to a request made before it is
/// current, whatever was running.
pub proof fn new_epoch_ignores_earlier_responses(
    before: ImportRequestBook,
    after: ImportRequestBook,
    request: ImportRequestIdentity,
)
    requires
        began_epoch(before, after),
        request.epoch <= before.epoch,
    ensures
        !response_current(after, request),
{
}

/// A request queued in the current epoch is running with the activity it
/// was queued for, and a response to it is current.
pub proof fn queued_request_runs(
    before: ImportRequestBook,
    after: ImportRequestBook,
    request: ImportRequestIdentity,
    activity: ImportActivity,
)
    requires
        request.epoch == before.epoch,
        !active_ids(before.active@).contains(request.request_id),
        after.epoch == before.epoch,
        after.active@ == before.active@.push((request.request_id, activity)),
    ensures
        response_current(after, request),
        activity_of(after.active@, request.request_id) == Some(activity),
{
    let s = after.active@;
    assert(active_ids(s)[s.len() - 1] == request.request_id);
    lemma_activity_of_push(before.active@, request.request_id, activity);
}

proof fn lemma_activity_of_push(s: Seq<(u64, ImportActivity)>, id: u64, a: ImportActivity)
    requires
        !active_ids(s).contains(id),
    ensures
        activity_of(s.push((id, a)), id) == Some(a),
    decreases s.len(),
{
    let t = s.push((id, a));
    if s.len() > 0 {
        assert(active_ids(s)[0] == s[0].0);
        let rest = s.subrange(1, s.len() as int);
        assert(t.subrange(1, t.len() as int) =~= rest.push((id, a)));
        assert(!active_ids(rest).contains(id)) by {
            if active_ids(rest).contains(id) {
                let k = choose|k: int| 0 <= k < active_ids(rest).len() && active_ids(rest)[k] == id;
                assert(active_ids(s)[k + 1] == id);
            }
        }
        lemma_activity_of_push(rest, id, a);
    }
}

} // verus!
