//! Jobs.

use vstd::prelude::*;
use crate::notes::domain::Job;
use crate::notes::domain::JobStatus;
use crate::notes::domain::JobView;
use crate::notes::domain::NewJob;
use crate::notes::error::CoreError;
use crate::notes::error::CoreErrorView;
use crate::notes::store::duplicate;
use crate::notes::store::duplicate_error;
use crate::notes::store::not_found;
use crate::notes::store::JobRow;
use crate::notes::store::JobRowView;
use crate::notes::store::Stamp;
use crate::notes::store::StampView;
use crate::notes::store::Store;
use crate::notes::store::StoreView;
use crate::notes::store::table::find;
use crate::notes::store::table::insert_row;
use crate::views::option_view;
use crate::views::result_view;

verus! {

/// The job that is created from what the caller knows.
pub open spec fn job_of(new: NewJob, device_id: Seq<char>, st: StampView) -> JobView {
    JobView {
        id: st.id,
        name: new.name@,
        client: option_view(new.client),
        site: option_view(new.site),
        scheduled_at: new.scheduled_at,
        status: JobStatus::Active,
        created_at: st.now,
        updated_at: st.now,
        device_id,
    }
}

/// Creating a job.
pub open spec fn job_created(v: StoreView, new: NewJob, st: StampView) -> (
    StoreView,
    Result<JobView, CoreErrorView>,
) {
    if v.jobs.contains_key(st.id) {
        (v, Err(duplicate("jobs.id"@)))
    } else {
        let job = job_of(new, v.device_id, st);
        (
            StoreView { jobs: v.jobs.insert(st.id, JobRowView { job, deleted_at: None }), ..v },
            Ok(job),
        )
    }
}

impl Store {
    /// Creates an active job.
    pub fn create_job(&mut self, new: NewJob) -> (r: Result<Job, CoreError>)
        requires
            old(self).wf(),
        ensures
            final(self).wf(),
            exists|st: StampView| #[trigger]
                old(self)@.gives(st) && (final(self)@, result_view(r)) == job_created(
                    old(self)@,
                    new,
                    st,
                ),
    {
        let st = self.stamp();
        self.create_job_as(new, st)
    }

    /// Creates an active job under the given id and time.
    pub fn create_job_as(&mut self, new: NewJob, st: Stamp) -> (r: Result<Job, CoreError>)
        requires
            old(self).wf(),
        ensures
            final(self).wf(),
            (final(self)@, result_view(r)) == job_created(old(self)@, new, st@),
    {
        if find(&self.jobs, st.id.as_str()).is_some() {
            return Err(duplicate_error("jobs.id"));
        }
        let job = Job {
            id: st.id,
            name: new.name,
            client: new.client,
            site: new.site,
            scheduled_at: new.scheduled_at,
            status: JobStatus::Active,
            created_at: st.now,
            updated_at: st.now,
            device_id: self.device_id.clone(),
        };
        let row = JobRow { job: job.clone(), deleted_at: None };
        insert_row(&mut self.jobs, row);
        Ok(job)
    }

    /// The job with this id.
    pub fn get_job(&self, id: &str) -> (r: Result<Job, CoreError>)
        requires
            self.wf(),
        ensures
            result_view(r) == (match self@.job(id@) {
                Some(job) => Ok(job),
                None => Err(not_found("job"@, id@)),
            }),
    {
        match find(&self.jobs, id) {
            Some(i) => if self.jobs[i].deleted_at.is_none() {
                return Ok(self.jobs[i].job.clone());
            },
            None => {},
        }
        Err(CoreError::NotFound { entity: "job", id: id.to_string() })
    }
}

} // verus!
