//! The job store: every job record, found by identifier, updated
//! optimistically, and queried by the discovery workers.
//!
//! An update names the version it was made for and goes through only if the
//! stored record still has that version; the version then goes up by one.
//! Records are never removed.

use crate::decimal::{parse_u64, parse_u64_spec};
use crate::errors::{JobError, JobErrorView};
use crate::metadata::Metadata;
use crate::text::str_eq;
use crate::types::{ExternalId, ExternalIdView, JobItem, JobItemView, JobStatus, JobType};
use vstd::prelude::*;
use vstd::string::*;

verus! {

/// What each record of a list holds.
pub open spec fn views(jobs: Seq<JobItem>) -> Seq<JobItemView> {
    jobs.map_values(|j: JobItem| j@)
}

/// Some record of `s` has the identifier `id`.
pub open spec fn has_id(s: Seq<JobItemView>, id: u128) -> bool {
    exists|i: int| 0 <= i < s.len() && (#[trigger] s[i]).id == id
}

/// A place in `s` of the record with identifier `id`.
pub open spec fn place_of_id(s: Seq<JobItemView>, id: u128) -> int {
    choose|i: int| 0 <= i < s.len() && (#[trigger] s[i]).id == id
}

/// The record of `s` with identifier `id`.
pub open spec fn by_id(s: Seq<JobItemView>, id: u128) -> Option<JobItemView> {
    if has_id(s, id) {
        Some(s[place_of_id(s, id)])
    } else {
        None
    }
}

/// Some record of `s` has the type `job_type` and the internal id
/// `internal_id`.
pub open spec fn has_key(s: Seq<JobItemView>, job_type: JobType, internal_id: Seq<char>) -> bool {
    exists|i: int|
        0 <= i < s.len() && (#[trigger] s[i]).job_type == job_type && s[i].internal_id
            == internal_id
}

/// A place in `s` of the record with this type and internal id.
pub open spec fn place_of_key(s: Seq<JobItemView>, job_type: JobType, internal_id: Seq<char>) -> int {
    choose|i: int|
        0 <= i < s.len() && (#[trigger] s[i]).job_type == job_type && s[i].internal_id
            == internal_id
}

/// The record of `s` with this type and internal id.
pub open spec fn by_key(s: Seq<JobItemView>, job_type: JobType, internal_id: Seq<char>) -> Option<
    JobItemView,
> {
    if has_key(s, job_type, internal_id) {
        Some(s[place_of_key(s, job_type, internal_id)])
    } else {
        None
    }
}

/// No two records share an identifier, and no two share both type and
/// internal id.
pub open spec fn unique(s: Seq<JobItemView>) -> bool {
    forall|i: int, j: int|
        0 <= i < s.len() && 0 <= j < s.len() && i != j ==> {
            &&& (#[trigger] s[i]).id != (#[trigger] s[j]).id
            &&& !(s[i].job_type == s[j].job_type && s[i].internal_id == s[j].internal_id)
        }
}

/// The fields that an update sets; a field that is `None` stays as stored.
pub struct JobPatch {
    pub status: Option<JobStatus>,
    pub external_id: Option<ExternalIdView>,
    pub metadata: Option<Map<Seq<char>, Seq<char>>>,
}

/// The fields that an update sets, as the store takes them; a field that is
/// `None` stays as stored.
#[derive(Debug)]
pub struct JobUpdate {
    pub status: Option<JobStatus>,
    pub external_id: Option<ExternalId>,
    pub metadata: Option<Metadata>,
}

impl View for JobUpdate {
    type V = JobPatch;

    open spec fn view(&self) -> JobPatch {
        JobPatch {
            status: self.status,
            external_id: match self.external_id {
                Some(e) => Some(e@),
                None => None,
            },
            metadata: match self.metadata {
                Some(m) => Some(m@),
                None => None,
            },
        }
    }
}

/// The record after an update: the patch applied, the version one higher.
pub open spec fn patched(job: JobItemView, patch: JobPatch) -> JobItemView {
    JobItemView {
        status: match patch.status {
            Some(s) => s,
            None => job.status,
        },
        external_id: match patch.external_id {
            Some(e) => e,
            None => job.external_id,
        },
        metadata: match patch.metadata {
            Some(m) => m,
            None => job.metadata,
        },
        version: (job.version + 1) as i32,
        ..job
    }
}

/// The store after an optimistic update of the job `id`, made for the version
/// `version`. With no record of that identifier and version the update is
/// stale; at the highest version none is possible.
pub open spec fn optimistic_update(
    s: Seq<JobItemView>,
    id: u128,
    version: i32,
    patch: JobPatch,
) -> Result<Seq<JobItemView>, JobErrorView> {
    if !has_id(s, id) || s[place_of_id(s, id)].version != version {
        Err(JobErrorView::StaleVersion)
    } else if version == i32::MAX {
        Err(JobErrorView::VersionOverflow)
    } else {
        Ok(s.update(place_of_id(s, id), patched(s[place_of_id(s, id)], patch)))
    }
}

/// The records of `jobs` in their order, without those that double an
/// earlier one in identifier or in type and internal id.
pub open spec fn without_doubles(jobs: Seq<JobItemView>) -> Seq<JobItemView>
    decreases jobs.len(),
{
    if jobs.len() == 0 {
        jobs
    } else {
        let head = without_doubles(jobs.drop_last());
        let last = jobs.last();
        if has_id(head, last.id) || has_key(head, last.job_type, last.internal_id) {
            head
        } else {
            head.push(last)
        }
    }
}

/// The number by which an internal id is ordered: its value where it is a
/// decimal `u64`, and -1, below all of those, where it is not.
pub open spec fn rank(internal_id: Seq<char>) -> int {
    match parse_u64_spec(internal_id) {
        Some(n) => n as int,
        None => -1,
    }
}

/// No internal id ranks below -1.
pub proof fn lemma_rank_floor(internal_id: Seq<char>)
    ensures
        rank(internal_id) >= -1,
{
}

/// The record has the type, and the status where one is asked for.
pub open spec fn of_kind(j: JobItemView, job_type: JobType, status: Option<JobStatus>) -> bool {
    j.job_type == job_type && (status matches Some(s) ==> j.status == s)
}

/// `i` is the place of the latest record of the kind: none of the kind has a
/// higher rank, and of those with the same rank it is the first.
pub open spec fn is_latest(
    s: Seq<JobItemView>,
    i: int,
    job_type: JobType,
    status: Option<JobStatus>,
) -> bool {
    &&& 0 <= i < s.len()
    &&& of_kind(s[i], job_type, status)
    &&& forall|j: int|
        0 <= j < s.len() && of_kind(#[trigger] s[j], job_type, status) ==> rank(s[j].internal_id)
            < rank(s[i].internal_id) || (rank(s[j].internal_id) == rank(s[i].internal_id) && i
            <= j)
}

/// The record has the type and ranks above the internal id.
pub open spec fn is_after(j: JobItemView, job_type: JobType, internal_id: Seq<char>) -> bool {
    j.job_type == job_type && rank(j.internal_id) > rank(internal_id)
}

/// Where a record of rank `r` goes into the ascending list `s`: behind the
/// last record that does not rank above it.
pub open spec fn insert_place(s: Seq<JobItemView>, r: int) -> int
    decreases s.len(),
{
    if s.len() == 0 {
        0
    } else if rank(s.last().internal_id) <= r {
        s.len() as int
    } else {
        insert_place(s.drop_last(), r)
    }
}

/// The records of `s` by ascending rank; records of one rank keep their
/// order.
pub open spec fn ascending(s: Seq<JobItemView>) -> Seq<JobItemView>
    decreases s.len(),
{
    if s.len() == 0 {
        s
    } else {
        let head = ascending(s.drop_last());
        head.insert(insert_place(head, rank(s.last().internal_id)), s.last())
    }
}

/// No record of `s` ranks above a later one.
pub open spec fn is_ascending(s: Seq<JobItemView>) -> bool {
    forall|a: int, b: int|
        0 <= a < b < s.len() ==> rank((#[trigger] s[a]).internal_id) <= rank(
            (#[trigger] s[b]).internal_id,
        )
}

/// The first `limit` records of `s`, or all of them where there is no limit.
pub open spec fn first_n(s: Seq<JobItemView>, limit: Option<usize>) -> Seq<JobItemView> {
    match limit {
        Some(n) => if n < s.len() {
            s.take(n as int)
        } else {
            s
        },
        None => s,
    }
}

/// The record is of type `a_type` in status `a_status`, and `s` has no record
/// of type `b_type` with its internal id.
pub open spec fn lacks_successor(
    s: Seq<JobItemView>,
    j: JobItemView,
    a_type: JobType,
    a_status: JobStatus,
    b_type: JobType,
) -> bool {
    j.job_type == a_type && j.status == a_status && !has_key(s, b_type, j.internal_id)
}

/// A place is found at most once: in a store without doubles the record
/// with an identifier is the one at any place that has it.
pub proof fn lemma_place_of_id(s: Seq<JobItemView>, i: int)
    requires
        unique(s),
        0 <= i < s.len(),
    ensures
        has_id(s, s[i].id),
        place_of_id(s, s[i].id) == i,
        by_id(s, s[i].id) == Some(s[i]),
{
    let p = place_of_id(s, s[i].id);
    assert(0 <= p < s.len() && s[p].id == s[i].id);
}

/// In a store without doubles the record with a type and an internal id is
/// the one at any place that has them.
pub proof fn lemma_place_of_key(s: Seq<JobItemView>, i: int)
    requires
        unique(s),
        0 <= i < s.len(),
    ensures
        has_key(s, s[i].job_type, s[i].internal_id),
        place_of_key(s, s[i].job_type, s[i].internal_id) == i,
        by_key(s, s[i].job_type, s[i].internal_id) == Some(s[i]),
{
    let p = place_of_key(s, s[i].job_type, s[i].internal_id);
    assert(0 <= p < s.len() && s[p].job_type == s[i].job_type && s[p].internal_id
        == s[i].internal_id);
}

/// An update keeps the store free of doubles, keeps every other record, and
/// keeps who the updated record is.
pub proof fn lemma_update_keeps_unique(
    s: Seq<JobItemView>,
    id: u128,
    version: i32,
    patch: JobPatch,
)
    requires
        unique(s),
        optimistic_update(s, id, version, patch) is Ok,
    ensures
        unique(optimistic_update(s, id, version, patch)->Ok_0),
        optimistic_update(s, id, version, patch)->Ok_0.len() == s.len(),
        forall|k: u128| has_id(optimistic_update(s, id, version, patch)->Ok_0, k) == has_id(s, k),
        forall|t: JobType, n: Seq<char>|
            has_key(optimistic_update(s, id, version, patch)->Ok_0, t, n) == has_key(s, t, n),
        forall|k: u128|
            k != id ==> by_id(optimistic_update(s, id, version, patch)->Ok_0, k) == by_id(s, k),
        by_id(optimistic_update(s, id, version, patch)->Ok_0, id) == Some(
            patched(by_id(s, id)->0, patch),
        ),
{
    let p = place_of_id(s, id);
    let t = optimistic_update(s, id, version, patch)->Ok_0;
    assert(t == s.update(p, patched(s[p], patch)));
    assert forall|i: int| 0 <= i < s.len() implies (#[trigger] t[i]).id == s[i].id && t[i].job_type
        == s[i].job_type && t[i].internal_id == s[i].internal_id by {}
    assert(unique(t)) by {
        assert forall|i: int, j: int| 0 <= i < t.len() && 0 <= j < t.len() && i != j implies {
            &&& (#[trigger] t[i]).id != (#[trigger] t[j]).id
            &&& !(t[i].job_type == t[j].job_type && t[i].internal_id == t[j].internal_id)
        } by {
            assert(s[i].id != s[j].id);
        }
    }
    assert forall|k: u128| has_id(t, k) == has_id(s, k) by {
        if has_id(t, k) {
            let i = place_of_id(t, k);
            assert(s[i].id == k);
        }
        if has_id(s, k) {
            let i = place_of_id(s, k);
            assert(t[i].id == k);
        }
    }
    assert forall|ty: JobType, n: Seq<char>| has_key(t, ty, n) == has_key(s, ty, n) by {
        if has_key(t, ty, n) {
            let i = place_of_key(t, ty, n);
            assert(s[i].job_type == ty && s[i].internal_id == n);
        }
        if has_key(s, ty, n) {
            let i = place_of_key(s, ty, n);
            assert(t[i].job_type == ty && t[i].internal_id == n);
        }
    }
    assert forall|k: u128| k != id implies by_id(t, k) == by_id(s, k) by {
        if has_id(s, k) {
            let i = place_of_id(s, k);
            lemma_place_of_id(s, i);
            lemma_place_of_id(t, i);
        }
    }
    lemma_place_of_id(s, p);
    lemma_place_of_id(t, p);
}

/// The ascending list of `s` is in ascending order and as long as `s`.
pub proof fn lemma_ascending(s: Seq<JobItemView>)
    ensures
        is_ascending(ascending(s)),
        ascending(s).len() == s.len(),
    decreases s.len(),
{
    if s.len() > 0 {
        let head = ascending(s.drop_last());
        lemma_ascending(s.drop_last());
        let r = rank(s.last().internal_id);
        lemma_insert_place(head, r);
        let p = insert_place(head, r);
        let out = head.insert(p, s.last());
        assert forall|a: int, b: int| 0 <= a < b < out.len() implies rank(
            (#[trigger] out[a]).internal_id,
        ) <= rank((#[trigger] out[b]).internal_id) by {
            if a < p && b > p {
                assert(out[a] == head[a]);
                assert(out[b] == head[b - 1]);
            } else if a < p && b < p {
                assert(out[a] == head[a]);
                assert(out[b] == head[b]);
            } else if a > p {
                assert(out[a] == head[a - 1]);
                assert(out[b] == head[b - 1]);
            } else if a == p {
                assert(out[b] == head[b - 1]);
            } else {
                assert(out[a] == head[a]);
            }
        }
    }
}

/// The ascending list of `s` has every record of `s`.
pub proof fn lemma_ascending_has_all(s: Seq<JobItemView>, i: int)
    requires
        0 <= i < s.len(),
    ensures
        ascending(s).contains(s[i]),
    decreases s.len(),
{
    let head = ascending(s.drop_last());
    lemma_ascending(s.drop_last());
    lemma_insert_place(head, rank(s.last().internal_id));
    let p = insert_place(head, rank(s.last().internal_id));
    let out = head.insert(p, s.last());
    if i == s.len() - 1 {
        assert(out[p] == s[i]);
    } else {
        lemma_ascending_has_all(s.drop_last(), i);
        assert(s.drop_last()[i] == s[i]);
        let k = choose|k: int| 0 <= k < head.len() && head[k] == s[i];
        if k < p {
            assert(out[k] == s[i]);
        } else {
            assert(out[k + 1] == s[i]);
        }
    }
}

/// The ascending list of `s` holds the records of `s`, each as often as `s`
/// holds it.
pub proof fn lemma_ascending_same_records(s: Seq<JobItemView>)
    ensures
        ascending(s).to_multiset() == s.to_multiset(),
    decreases s.len(),
{
    if s.len() > 0 {
        let head = ascending(s.drop_last());
        lemma_ascending_same_records(s.drop_last());
        lemma_ascending(s.drop_last());
        lemma_insert_place(head, rank(s.last().internal_id));
        vstd::seq_lib::to_multiset_insert(
            head,
            insert_place(head, rank(s.last().internal_id)),
            s.last(),
        );
        vstd::seq_lib::to_multiset_build(s.drop_last(), s.last());
        assert(s.drop_last().push(s.last()) =~= s);
    }
}

/// In an ascending list the place for rank `r` has only records of rank up
/// to `r` before it and only higher ones from it on.
pub proof fn lemma_insert_place(s: Seq<JobItemView>, r: int)
    requires
        is_ascending(s),
    ensures
        0 <= insert_place(s, r) <= s.len(),
        forall|k: int| 0 <= k < insert_place(s, r) ==> rank((#[trigger] s[k]).internal_id) <= r,
        forall|k: int| insert_place(s, r) <= k < s.len() ==> rank((#[trigger] s[k]).internal_id) > r,
    decreases s.len(),
{
    if s.len() == 0 {
    } else if rank(s.last().internal_id) <= r {
        assert forall|k: int| 0 <= k < s.len() implies rank((#[trigger] s[k]).internal_id)
            <= r by {
            if k < s.len() - 1 {
                assert(rank(s[k].internal_id) <= rank(s[s.len() - 1].internal_id));
            }
        }
    } else {
        let t = s.drop_last();
        assert forall|a: int, b: int| 0 <= a < b < t.len() implies rank(
            (#[trigger] t[a]).internal_id,
        ) <= rank((#[trigger] t[b]).internal_id) by {
            assert(t[a] == s[a] && t[b] == s[b]);
        }
        lemma_insert_place(t, r);
        assert forall|k: int| 0 <= k < insert_place(s, r) implies rank(
            (#[trigger] s[k]).internal_id,
        ) <= r by {
            assert(t[k] == s[k]);
        }
        assert forall|k: int| insert_place(s, r) <= k < s.len() implies rank(
            (#[trigger] s[k]).internal_id,
        ) > r by {
            if k < s.len() - 1 {
                assert(t[k] == s[k]);
            }
        }
    }
}

/// The rank of an internal id, for comparing.
fn rank_of(internal_id: &str) -> (r: i128)
    ensures
        r == rank(internal_id@),
{
    match parse_u64(internal_id) {
        Some(n) => n as i128,
        None => -1,
    }
}

/// Every job record.
#[derive(Debug)]
pub struct JobStore {
    jobs: Vec<JobItem>,
}

impl View for JobStore {
    type V = Seq<JobItemView>;

    closed spec fn view(&self) -> Seq<JobItemView> {
        views(self.jobs@)
    }
}

impl Clone for JobStore {
    fn clone(&self) -> (r: JobStore)
        ensures
            r@ == self@,
    {
        let mut jobs: Vec<JobItem> = Vec::new();
        let mut i: usize = 0;
        while i < self.jobs.len()
            invariant
                i <= self.jobs@.len(),
                views(jobs@) =~= views(self.jobs@).take(i as int),
            decreases self.jobs@.len() - i,
        {
            let copy = self.jobs[i].clone();
            let ghost before = jobs@;
            jobs.push(copy);
            assert(views(jobs@) =~= views(before).push(copy@));
            assert(views(self.jobs@).take(i + 1) =~= views(self.jobs@).take(i as int).push(
                self.jobs@[i as int]@,
            ));
            i = i + 1;
        }
        assert(views(self.jobs@).take(i as int) =~= views(self.jobs@));
        JobStore { jobs }
    }
}

impl JobStore {
    /// The store holds no two records with one identifier, and no two with
    /// one type and internal id.
    pub open spec fn wf(&self) -> bool {
        unique(self@)
    }

    /// A store without records.
    pub fn new() -> (s: JobStore)
        ensures
            s@ == Seq::<JobItemView>::empty(),
            s.wf(),
    {
        let s = JobStore { jobs: Vec::new() };
        assert(s@ =~= Seq::<JobItemView>::empty());
        s
    }

    /// A store with the records of `jobs`, in their order; a record that
    /// doubles an earlier one is left out.
    pub fn from_jobs(jobs: Vec<JobItem>) -> (s: JobStore)
        ensures
            s@ == without_doubles(views(jobs@)),
            s.wf(),
    {
        let mut store = JobStore::new();
        let mut i: usize = 0;
        while i < jobs.len()
            invariant
                i <= jobs@.len(),
                store.wf(),
                store@ == without_doubles(views(jobs@).take(i as int)),
            decreases jobs@.len() - i,
        {
            let job = jobs[i].clone();
            proof {
                assert(views(jobs@).take(i + 1).drop_last() =~= views(jobs@).take(i as int));
                assert(views(jobs@).take(i + 1).last() == jobs@[i as int]@);
            }
            let _ = store.create_job(job);
            i = i + 1;
        }
        assert(views(jobs@).take(i as int) =~= views(jobs@));
        store
    }

    /// Number of records.
    pub fn len(&self) -> (n: usize)
        ensures
            n == self@.len(),
    {
        self.jobs.len()
    }

    /// The place of the record with identifier `id`.
    fn position(&self, id: u128) -> (r: Option<usize>)
        ensures
            match r {
                Some(i) => i < self@.len() && self@[i as int].id == id,
                None => !has_id(self@, id),
            },
    {
        let mut i: usize = 0;
        while i < self.jobs.len()
            invariant
                i <= self.jobs@.len(),
                forall|k: int| 0 <= k < i ==> (#[trigger] self@[k]).id != id,
            decreases self.jobs@.len() - i,
        {
            if self.jobs[i].id == id {
                return Some(i);
            }
            i = i + 1;
        }
        None
    }

    /// The place of the record with this type and internal id.
    fn position_of_key(&self, job_type: JobType, internal_id: &str) -> (r: Option<usize>)
        ensures
            match r {
                Some(i) => i < self@.len() && self@[i as int].job_type == job_type
                    && self@[i as int].internal_id == internal_id@,
                None => !has_key(self@, job_type, internal_id@),
            },
    {
        let mut i: usize = 0;
        while i < self.jobs.len()
            invariant
                i <= self.jobs@.len(),
                forall|k: int|
                    0 <= k < i ==> !((#[trigger] self@[k]).job_type == job_type
                        && self@[k].internal_id == internal_id@),
            decreases self.jobs@.len() - i,
        {
            if self.jobs[i].job_type == job_type && str_eq(
                self.jobs[i].internal_id.as_str(),
                internal_id,
            ) {
                return Some(i);
            }
            i = i + 1;
        }
        None
    }

    /// Stores a new record. Refused as a duplicate where a record with its
    /// identifier, or with its type and internal id, is stored already.
    pub fn create_job(&mut self, job: JobItem) -> (r: Result<JobItem, JobError>)
        requires
            old(self).wf(),
        ensures
            final(self).wf(),
            match r {
                Ok(stored) => {
                    &&& !has_id(old(self)@, job.id)
                    &&& !has_key(old(self)@, job.job_type, job.internal_id@)
                    &&& final(self)@ == old(self)@.push(job@)
                    &&& stored@ == job@
                },
                Err(e) => {
                    &&& e@ == JobErrorView::Duplicate
                    &&& has_id(old(self)@, job.id) || has_key(
                        old(self)@,
                        job.job_type,
                        job.internal_id@,
                    )
                    &&& final(self)@ == old(self)@
                },
            },
    {
        if self.position(job.id).is_some() {
            return Err(JobError::Duplicate);
        }
        if self.position_of_key(job.job_type, job.internal_id.as_str()).is_some() {
            return Err(JobError::Duplicate);
        }
        let stored = job.clone();
        self.jobs.push(job);
        proof {
            let s = old(self)@;
            let t = self@;
            assert(t =~= s.push(job@));
            assert forall|i: int, j: int| 0 <= i < t.len() && 0 <= j < t.len() && i != j implies {
                &&& (#[trigger] t[i]).id != (#[trigger] t[j]).id
                &&& !(t[i].job_type == t[j].job_type && t[i].internal_id == t[j].internal_id)
            } by {
                if i < s.len() && j < s.len() {
                    assert(s[i].id != s[j].id);
                } else if i < s.len() {
                    assert(s[i].id != job.id);
                } else {
                    assert(s[j].id != job.id);
                }
            }
        }
        Ok(stored)
    }

    /// The record with identifier `id`.
    pub fn get_job_by_id(&self, id: u128) -> (r: Option<JobItem>)
        requires
            self.wf(),
        ensures
            match r {
                Some(j) => by_id(self@, id) == Some(j@),
                None => by_id(self@, id) is None,
            },
    {
        match self.position(id) {
            Some(i) => {
                proof {
                    lemma_place_of_id(self@, i as int);
                }
                Some(self.jobs[i].clone())
            },
            None => None,
        }
    }

    /// The record with this type and internal id.
    pub fn get_job_by_internal_id_and_type(&self, internal_id: &str, job_type: &JobType) -> (r:
        Option<JobItem>)
        requires
            self.wf(),
        ensures
            match r {
                Some(j) => by_key(self@, *job_type, internal_id@) == Some(j@),
                None => by_key(self@, *job_type, internal_id@) is None,
            },
    {
        match self.position_of_key(*job_type, internal_id) {
            Some(i) => {
                proof {
                    lemma_place_of_key(self@, i as int);
                }
                Some(self.jobs[i].clone())
            },
            None => None,
        }
    }

    /// Applies `update` to the record with the identifier of `current`, if
    /// that record still has the version of `current`; its version then goes
    /// up by one. Nothing is stored where no such record is found.
    pub fn update(&mut self, current: &JobItem, update: JobUpdate) -> (r: Result<(), JobError>)
        requires
            old(self).wf(),
        ensures
            final(self).wf(),
            match r {
                Ok(()) => optimistic_update(old(self)@, current.id, current.version, update@)
                    == Ok::<Seq<JobItemView>, JobErrorView>(final(self)@),
                Err(e) => optimistic_update(old(self)@, current.id, current.version, update@)
                    == Err::<Seq<JobItemView>, JobErrorView>(e@) && final(self)@ == old(self)@,
            },
    {
        let ghost patch = update@;
        let i = match self.position(current.id) {
            Some(i) => i,
            None => {
                return Err(JobError::StaleVersion);
            },
        };
        proof {
            lemma_place_of_id(self@, i as int);
        }
        if self.jobs[i].version != current.version {
            return Err(JobError::StaleVersion);
        }
        if current.version == i32::MAX {
            return Err(JobError::VersionOverflow);
        }
        let stored = &self.jobs[i];
        let updated = JobItem {
            id: stored.id,
            internal_id: stored.internal_id.clone(),
            job_type: stored.job_type,
            status: match update.status {
                Some(s) => s,
                None => stored.status,
            },
            external_id: match update.external_id {
                Some(e) => e,
                None => stored.external_id.clone(),
            },
            metadata: match update.metadata {
                Some(m) => m,
                None => stored.metadata.clone(),
            },
            version: stored.version + 1,
        };
        assert(updated@ == patched(self@[i as int], patch));
        self.jobs.set(i, updated);
        proof {
            assert(self@ =~= old(self)@.update(i as int, patched(old(self)@[i as int], patch)));
            lemma_update_keeps_unique(old(self)@, current.id, current.version, patch);
        }
        Ok(())
    }

    /// Stores the status, external id and metadata of `job` on the record
    /// with its identifier, if that record has the version of `job`.
    pub fn update_job(&mut self, job: &JobItem) -> (r: Result<(), JobError>)
        requires
            old(self).wf(),
        ensures
            final(self).wf(),
            match r {
                Ok(()) => optimistic_update(
                    old(self)@,
                    job.id,
                    job.version,
                    JobPatch {
                        status: Some(job.status),
                        external_id: Some(job.external_id@),
                        metadata: Some(job.metadata@),
                    },
                ) == Ok::<Seq<JobItemView>, JobErrorView>(final(self)@),
                Err(e) => optimistic_update(
                    old(self)@,
                    job.id,
                    job.version,
                    JobPatch {
                        status: Some(job.status),
                        external_id: Some(job.external_id@),
                        metadata: Some(job.metadata@),
                    },
                ) == Err::<Seq<JobItemView>, JobErrorView>(e@) && final(self)@ == old(self)@,
            },
    {
        self.update(
            job,
            JobUpdate {
                status: Some(job.status),
                external_id: Some(job.external_id.clone()),
                metadata: Some(job.metadata.clone()),
            },
        )
    }

    /// Sets the status of the record that `job` was read from, if it still
    /// has the version of `job`.
    pub fn update_job_status(&mut self, job: &JobItem, new_status: JobStatus) -> (r: Result<
        (),
        JobError,
    >)
        requires
            old(self).wf(),
        ensures
            final(self).wf(),
            match r {
                Ok(()) => optimistic_update(
                    old(self)@,
                    job.id,
                    job.version,
                    JobPatch { status: Some(new_status), external_id: None, metadata: None },
                ) == Ok::<Seq<JobItemView>, JobErrorView>(final(self)@),
                Err(e) => optimistic_update(
                    old(self)@,
                    job.id,
                    job.version,
                    JobPatch { status: Some(new_status), external_id: None, metadata: None },
                ) == Err::<Seq<JobItemView>, JobErrorView>(e@) && final(self)@ == old(self)@,
            },
    {
        self.update(job, JobUpdate { status: Some(new_status), external_id: None, metadata: None })
    }

    /// Sets the metadata of the record that `job` was read from, if it still
    /// has the version of `job`.
    pub fn update_metadata(&mut self, job: &JobItem, metadata: Metadata) -> (r: Result<
        (),
        JobError,
    >)
        requires
            old(self).wf(),
        ensures
            final(self).wf(),
            match r {
                Ok(()) => optimistic_update(
                    old(self)@,
                    job.id,
                    job.version,
                    JobPatch { status: None, external_id: None, metadata: Some(metadata@) },
                ) == Ok::<Seq<JobItemView>, JobErrorView>(final(self)@),
                Err(e) => optimistic_update(
                    old(self)@,
                    job.id,
                    job.version,
                    JobPatch { status: None, external_id: None, metadata: Some(metadata@) },
                ) == Err::<Seq<JobItemView>, JobErrorView>(e@) && final(self)@ == old(self)@,
            },
    {
        self.update(job, JobUpdate { status: None, external_id: None, metadata: Some(metadata) })
    }

    /// Sets external id, status and metadata of the record that `job` was
    /// read from in one update, if it still has the version of `job`.
    pub fn update_external_id_and_status_and_metadata(
        &mut self,
        job: &JobItem,
        external_id: String,
        new_status: JobStatus,
        metadata: Metadata,
    ) -> (r: Result<(), JobError>)
        requires
            old(self).wf(),
        ensures
            final(self).wf(),
            match r {
                Ok(()) => optimistic_update(
                    old(self)@,
                    job.id,
                    job.version,
                    JobPatch {
                        status: Some(new_status),
                        external_id: Some(ExternalIdView::String(external_id@)),
                        metadata: Some(metadata@),
                    },
                ) == Ok::<Seq<JobItemView>, JobErrorView>(final(self)@),
                Err(e) => optimistic_update(
                    old(self)@,
                    job.id,
                    job.version,
                    JobPatch {
                        status: Some(new_status),
                        external_id: Some(ExternalIdView::String(external_id@)),
                        metadata: Some(metadata@),
                    },
                ) == Err::<Seq<JobItemView>, JobErrorView>(e@) && final(self)@ == old(self)@,
            },
    {
        self.update(
            job,
            JobUpdate {
                status: Some(new_status),
                external_id: Some(ExternalId::String(external_id)),
                metadata: Some(metadata),
            },
        )
    }

    /// The place of the latest record of the kind.
    fn latest_place(&self, job_type: JobType, status: Option<JobStatus>) -> (r: Option<usize>)
        ensures
            match r {
                Some(i) => is_latest(self@, i as int, job_type, status),
                None => forall|k: int|
                    0 <= k < self@.len() ==> !of_kind(#[trigger] self@[k], job_type, status),
            },
    {
        let mut best: Option<usize> = None;
        let mut best_rank: i128 = -1;
        let mut i: usize = 0;
        while i < self.jobs.len()
            invariant
                i <= self.jobs@.len(),
                match best {
                    Some(b) => {
                        &&& b < i
                        &&& of_kind(self@[b as int], job_type, status)
                        &&& best_rank == rank(self@[b as int].internal_id)
                        &&& forall|k: int|
                            0 <= k < i && of_kind(#[trigger] self@[k], job_type, status) ==> rank(
                                self@[k].internal_id,
                            ) < best_rank || (rank(self@[k].internal_id) == best_rank && b <= k)
                    },
                    None => forall|k: int|
                        0 <= k < i ==> !of_kind(#[trigger] self@[k], job_type, status),
                },
            decreases self.jobs@.len() - i,
        {
            let job = &self.jobs[i];
            let of_status = match status {
                Some(s) => job.status == s,
                None => true,
            };
            if job.job_type == job_type && of_status {
                let r = rank_of(job.internal_id.as_str());
                if best.is_none() || r > best_rank {
                    best = Some(i);
                    best_rank = r;
                }
            }
            i = i + 1;
        }
        best
    }

    /// The record of the type with the highest internal id; of several with
    /// that rank, the one stored first.
    pub fn get_latest_job_by_type(&self, job_type: JobType) -> (r: Option<JobItem>)
        ensures
            match r {
                Some(j) => exists|i: int|
                    is_latest(self@, i, job_type, None) && j@ == #[trigger] self@[i],
                None => forall|k: int|
                    0 <= k < self@.len() ==> (#[trigger] self@[k]).job_type != job_type,
            },
    {
        match self.latest_place(job_type, None) {
            Some(i) => Some(self.jobs[i].clone()),
            None => {
                assert forall|k: int| 0 <= k < self@.len() implies (#[trigger] self@[k]).job_type
                    != job_type by {
                    assert(!of_kind(self@[k], job_type, None));
                }
                None
            },
        }
    }

    /// The record of the type and status with the highest internal id; of
    /// several with that rank, the one stored first.
    pub fn get_latest_job_by_type_and_status(&self, job_type: JobType, job_status: JobStatus) -> (r:
        Option<JobItem>)
        ensures
            match r {
                Some(j) => exists|i: int|
                    is_latest(self@, i, job_type, Some(job_status)) && j@ == #[trigger] self@[i],
                None => forall|k: int|
                    0 <= k < self@.len() ==> !((#[trigger] self@[k]).job_type == job_type
                        && self@[k].status == job_status),
            },
    {
        match self.latest_place(job_type, Some(job_status)) {
            Some(i) => Some(self.jobs[i].clone()),
            None => {
                assert forall|k: int| 0 <= k < self@.len() implies !((
                #[trigger] self@[k]).job_type == job_type && self@[k].status == job_status) by {
                    assert(!of_kind(self@[k], job_type, Some(job_status)));
                }
                None
            },
        }
    }

    /// The records of the type whose internal id ranks above `internal_id`,
    /// by ascending rank; records of one rank come in the order in which
    /// they were stored.
    pub fn get_jobs_after_internal_id_by_job_type(&self, job_type: JobType, internal_id: String) -> (r:
        Vec<JobItem>)
        ensures
            views(r@) == ascending(
                self@.filter(|j: JobItemView| is_after(j, job_type, internal_id@)),
            ),
            is_ascending(views(r@)),
    {
        let ghost pred = |j: JobItemView| is_after(j, job_type, internal_id@);
        let floor = rank_of(internal_id.as_str());
        let mut out: Vec<JobItem> = Vec::new();
        let mut i: usize = 0;
        proof {
            reveal(Seq::filter);
            assert(self@.take(0) =~= Seq::<JobItemView>::empty());
            assert(views(out@) =~= Seq::<JobItemView>::empty());
        }
        while i < self.jobs.len()
            invariant
                i <= self.jobs@.len(),
                floor == rank(internal_id@),
                pred == (|j: JobItemView| is_after(j, job_type, internal_id@)),
                views(out@) == ascending(self@.take(i as int).filter(pred)),
            decreases self.jobs@.len() - i,
        {
            let job = &self.jobs[i];
            let ghost before = self@.take(i as int).filter(pred);
            proof {
                reveal(Seq::filter);
                assert(self@.take(i + 1).drop_last() =~= self@.take(i as int));
                assert(self@.take(i + 1).last() == self@[i as int]);
                lemma_ascending(before);
            }
            if job.job_type == job_type {
                let r = rank_of(job.internal_id.as_str());
                if r > floor {
                    assert(pred(self@[i as int]));
                    assert(self@.take(i + 1).filter(pred) == before.push(self@[i as int]));
                    assert(before.push(self@[i as int]).drop_last() =~= before);
                    let mut p: usize = out.len();
                    assert(views(out@).take(p as int) =~= views(out@));
                    while p > 0 && rank_of(out[p - 1].internal_id.as_str()) > r
                        invariant
                            p <= out@.len(),
                            insert_place(views(out@), r as int) == insert_place(
                                views(out@).take(p as int),
                                r as int,
                            ),
                        decreases p,
                    {
                        assert(views(out@).take(p as int).drop_last() =~= views(out@).take(
                            p - 1,
                        ));
                        p = p - 1;
                    }
                    proof {
                        if p == 0 {
                            assert(views(out@).take(0).len() == 0);
                        }
                    }
                    assert(p == insert_place(views(out@), r as int));
                    let ghost head = views(out@);
                    out.insert(p, job.clone());
                    assert(views(out@) =~= head.insert(p as int, self@[i as int]));
                } else {
                    assert(!pred(self@[i as int]));
                }
            } else {
                assert(!pred(self@[i as int]));
            }
            i = i + 1;
        }
        proof {
            assert(self@.take(i as int) =~= self@);
            lemma_ascending(self@.filter(pred));
        }
        out
    }

    /// The records in one of the statuses, in the order in which they were
    /// stored, and no more than `limit` of them.
    pub fn get_jobs_by_statuses(&self, status: Vec<JobStatus>, limit: Option<usize>) -> (r: Vec<
        JobItem,
    >)
        ensures
            views(r@) == first_n(
                self@.filter(|j: JobItemView| status@.contains(j.status)),
                limit,
            ),
    {
        let ghost pred = |j: JobItemView| status@.contains(j.status);
        let mut out: Vec<JobItem> = Vec::new();
        let mut i: usize = 0;
        proof {
            reveal(Seq::filter);
            assert(self@.take(0) =~= Seq::<JobItemView>::empty());
            assert(views(out@) =~= Seq::<JobItemView>::empty());
        }
        while i < self.jobs.len()
            invariant
                i <= self.jobs@.len(),
                pred == (|j: JobItemView| status@.contains(j.status)),
                views(out@) =~= first_n(self@.take(i as int).filter(pred), limit),
            decreases self.jobs@.len() - i,
        {
            let job = &self.jobs[i];
            let ghost before = self@.take(i as int).filter(pred);
            proof {
                reveal(Seq::filter);
                assert(self@.take(i + 1).drop_last() =~= self@.take(i as int));
                assert(self@.take(i + 1).last() == self@[i as int]);
            }
            let listed = contains_status(&status, job.status);
            let room = match limit {
                Some(n) => out.len() < n,
                None => true,
            };
            assert(views(out@).len() == out@.len());
            let ghost held = views(out@);
            if listed && room {
                let copy = job.clone();
                out.push(copy);
                assert(views(out@) =~= held.push(copy@));
            }
            proof {
                if listed {
                    assert(pred(self@[i as int]));
                    assert(self@.take(i + 1).filter(pred) == before.push(self@[i as int]));
                    if !room {
                        assert(before.push(self@[i as int]).take(limit->0 as int) =~= before.take(
                            limit->0 as int,
                        ));
                        assert(before.len() == limit->0 ==> before.take(limit->0 as int)
                            =~= before);
                    }
                } else {
                    assert(!pred(self@[i as int]));
                    assert(self@.take(i + 1).filter(pred) == before);
                }
            }
            i = i + 1;
        }
        assert(self@.take(i as int) =~= self@);
        out
    }

    /// The records of type `job_a_type` in status `job_a_status` for which no
    /// record of type `job_b_type` with the same internal id is stored, in
    /// the order in which they were stored.
    pub fn get_jobs_without_successor(
        &self,
        job_a_type: JobType,
        job_a_status: JobStatus,
        job_b_type: JobType,
    ) -> (r: Vec<JobItem>)
        ensures
            views(r@) == self@.filter(
                |j: JobItemView| lacks_successor(self@, j, job_a_type, job_a_status, job_b_type),
            ),
    {
        let ghost pred = |j: JobItemView|
            lacks_successor(self@, j, job_a_type, job_a_status, job_b_type);
        let mut out: Vec<JobItem> = Vec::new();
        let mut i: usize = 0;
        proof {
            reveal(Seq::filter);
            assert(self@.take(0) =~= Seq::<JobItemView>::empty());
            assert(views(out@) =~= Seq::<JobItemView>::empty());
        }
        while i < self.jobs.len()
            invariant
                i <= self.jobs@.len(),
                pred == (|j: JobItemView|
                    lacks_successor(self@, j, job_a_type, job_a_status, job_b_type)),
                views(out@) =~= self@.take(i as int).filter(pred),
            decreases self.jobs@.len() - i,
        {
            let job = &self.jobs[i];
            proof {
                reveal(Seq::filter);
                assert(self@.take(i + 1).drop_last() =~= self@.take(i as int));
                assert(self@.take(i + 1).last() == self@[i as int]);
            }
            if job.job_type == job_a_type && job.status == job_a_status && self.position_of_key(
                job_b_type,
                job.internal_id.as_str(),
            ).is_none() {
                out.push(job.clone());
            }
            i = i + 1;
        }
        assert(self@.take(i as int) =~= self@);
        out
    }
}

/// What a conditional write on identifier and version means that changed
/// `modified_count` records of a document store: with none changed the
/// version was stale.
pub fn conditional_write_outcome(modified_count: u64) -> (r: Result<(), JobError>)
    ensures
        match r {
            Ok(()) => modified_count > 0,
            Err(e) => modified_count == 0 && e@ == JobErrorView::StaleVersion,
        },
{
    if modified_count == 0 {
        Err(JobError::StaleVersion)
    } else {
        Ok(())
    }
}

/// Whether `status` is one of `list`.
fn contains_status(list: &Vec<JobStatus>, status: JobStatus) -> (r: bool)
    ensures
        r == list@.contains(status),
{
    let mut i: usize = 0;
    while i < list.len()
        invariant
            i <= list@.len(),
            forall|k: int| 0 <= k < i ==> list@[k] != status,
        decreases list@.len() - i,
    {
        if list[i] == status {
            return true;
        }
        i = i + 1;
    }
    false
}

} // verus!
