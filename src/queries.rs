//! Read-only views of the store: one job's properties, and pages of the job
//! list.
use vstd::prelude::*;
use crate::model::JobStatus;
use crate::store::{Job, Store};

verus! {

/// How many jobs a page of the job list shows.
pub const PAGE_SIZE: i64 = 50;

/// One line of the job list.
#[derive(Debug)]
pub struct JobProperty {
    pub id: i64,
    pub commit_id: String,
    pub added_at: u64,
    pub status: JobStatus,
}

/// What the details page of a job shows of the job itself.
#[derive(Debug)]
pub struct JobProperties {
    pub commit_id: String,
    pub added_at: u64,
    pub status: JobStatus,
}

pub open spec fn lists_job(p: JobProperty, j: Job) -> bool {
    p.id == j.id && p.commit_id@ == j.commit_id@ && p.added_at == j.added_at && p.status == j.status
}

pub open spec fn min_int(a: int, b: int) -> int {
    if a <= b {
        a
    } else {
        b
    }
}

pub open spec fn max_int(a: int, b: int) -> int {
    if a >= b {
        a
    } else {
        b
    }
}

impl Store {
    fn property_of(&self, idx: usize) -> (r: JobProperty)
        requires
            idx < self.jobs@.len(),
        ensures
            lists_job(r, self.jobs@[idx as int]),
    {
        let j = &self.jobs[idx];
        JobProperty { id: j.id, commit_id: j.commit_id.clone(), added_at: j.added_at, status: j.status }
    }

    /// The job of id `id`, if there is one.
    pub fn job_properties(&self, id: i64) -> (r: Option<JobProperties>)
        requires
            self.wf(),
        ensures
            r is Some <==> 1 <= id <= self.jobs@.len(),
            r is Some ==> ({
                let j = self.jobs@[id - 1];
                let p = r->0;
                p.commit_id@ == j.commit_id@ && p.added_at == j.added_at && p.status == j.status
            }),
    {
        if id < 1 || id > 0x4000_0000 || id as usize > self.jobs.len() {
            return None;
        }
        let j = &self.jobs[(id - 1) as usize];
        Some(JobProperties { commit_id: j.commit_id.clone(), added_at: j.added_at, status: j.status })
    }

    /// The jobs of id `hi` down to `lo`, newest first.
    fn jobs_down(&self, hi: i64, lo: i64) -> (r: Vec<JobProperty>)
        requires
            self.wf(),
            1 <= lo <= hi,
            hi <= self.jobs@.len(),
        ensures
            r@.len() == max_int(0, hi - lo + 1),
            forall|k: int| 0 <= k < r@.len() ==> lists_job(#[trigger] r@[k], self.jobs@[hi - k - 1]),
    {
        let mut r: Vec<JobProperty> = Vec::new();
        let mut id = hi;
        while id >= lo
            invariant
                self.wf(),
                1 <= lo,
                hi <= self.jobs@.len(),
                lo - 1 <= id <= hi,
                r@.len() == hi - id,
                forall|k: int| 0 <= k < r@.len() ==> lists_job(#[trigger] r@[k], self.jobs@[hi - k - 1]),
            decreases id - lo + 1,
        {
            let p = self.property_of((id - 1) as usize);
            r.push(p);
            id = id - 1;
        }
        r
    }

    /// A page of the job list: the newest jobs with id at most `max_id`,
    /// newest first.
    pub fn list_jobs_with_max_id(&self, max_id: i64) -> (r: Vec<JobProperty>)
        requires
            self.wf(),
        ensures
            ({
                let hi = min_int(max_id as int, self.jobs@.len() as int);
                let lo = max_int(1, hi - PAGE_SIZE + 1);
                &&& r@.len() == max_int(0, hi - lo + 1)
                &&& forall|k: int|
                    0 <= k < r@.len() ==> lists_job(#[trigger] r@[k], self.jobs@[hi - k - 1])
            }),
    {
        let n = self.jobs.len() as i64;
        let hi = if max_id < n {
            max_id
        } else {
            n
        };
        let lo = if hi > PAGE_SIZE {
            hi - PAGE_SIZE + 1
        } else {
            1
        };
        if hi < lo {
            return Vec::new();
        }
        self.jobs_down(hi, lo)
    }

    /// A page of the job list: the oldest jobs with id at least `min_id`,
    /// shown newest first.
    pub fn list_jobs_with_min_id(&self, min_id: i64) -> (r: Vec<JobProperty>)
        requires
            self.wf(),
        ensures
            ({
                let lo = max_int(1, min_id as int);
                let hi = min_int(lo + PAGE_SIZE - 1, self.jobs@.len() as int);
                &&& r@.len() == max_int(0, hi - lo + 1)
                &&& forall|k: int|
                    0 <= k < r@.len() ==> lists_job(#[trigger] r@[k], self.jobs@[hi - k - 1])
            }),
    {
        let n = self.jobs.len() as i64;
        let lo = if min_id > 1 {
            min_id
        } else {
            1
        };
        if lo > n {
            return Vec::new();
        }
        let hi = if lo + PAGE_SIZE - 1 < n {
            lo + PAGE_SIZE - 1
        } else {
            n
        };
        self.jobs_down(hi, lo)
    }
}

} // verus!
