//! The jobs that are running, as the window sees them: only one job runs at
//! a time, so a double click cannot start two copies to the same
//! destination.

use std::sync::atomic::AtomicBool;
use std::sync::Arc;

use vstd::prelude::*;

use crate::text::str_to_string;

verus! {

/// The running jobs, each with the flag that cancels it. The caller keeps
/// it behind a lock, and checks and registers under a single lock, so two
/// concurrent starts cannot both pass the check.
pub struct JobRegistry {
    jobs: Vec<(String, Arc<AtomicBool>)>,
}

impl JobRegistry {
    /// The ids of the running jobs.
    pub closed spec fn ids(self) -> Seq<Seq<char>> {
        self.jobs@.map_values(|j: (String, Arc<AtomicBool>)| j.0@)
    }

    /// The cancel flags of the running jobs, in the same order.
    pub closed spec fn flags(self) -> Seq<Arc<AtomicBool>> {
        self.jobs@.map_values(|j: (String, Arc<AtomicBool>)| j.1)
    }

    #[verifier::type_invariant]
    spec fn at_most_one(self) -> bool {
        self.jobs@.len() <= 1
    }

    /// No job is running.
    pub fn new() -> (r: Self)
        ensures
            r.ids() == Seq::<Seq<char>>::empty(),
    {
        let r = JobRegistry { jobs: Vec::new() };
        assert(r.ids() =~= Seq::<Seq<char>>::empty());
        r
    }

    pub fn is_busy(&self) -> (b: bool)
        ensures
            b == (self.ids().len() > 0),
            self.ids().len() <= 1,
    {
        proof {
            use_type_invariant(self);
        }
        self.jobs.len() > 0
    }

    /// Registers a job that is starting, unless one is already running.
    pub fn try_register(&mut self, job_id: String, cancel: Arc<AtomicBool>) -> (r: Result<
        (),
        String,
    >)
        ensures
            old(self).ids().len() > 0 ==> (r matches Err(m) && m@
                == "A job is already running. Wait for it to finish, or cancel it."@)
                && *final(self) == *old(self),
            old(self).ids().len() == 0 ==> r is Ok && final(self).ids() == seq![job_id@]
                && final(self).flags() == seq![cancel],
            final(self).ids().len() <= 1,
    {
        proof {
            use_type_invariant(&*self);
        }
        if self.jobs.len() > 0 {
            return Err(
                str_to_string("A job is already running. Wait for it to finish, or cancel it."),
            );
        }
        let ghost id = job_id@;
        let ghost flag = cancel;
        let mut jobs: Vec<(String, Arc<AtomicBool>)> = Vec::new();
        jobs.push((job_id, cancel));
        self.jobs = jobs;
        assert(self.ids() =~= seq![id]);
        assert(self.flags() =~= seq![flag]);
        Ok(())
    }

    /// Forgets a job that has finished; any other job stays as it was.
    pub fn remove(&mut self, job_id: &str)
        ensures
            old(self).ids().len() > 0 && old(self).ids()[0] == job_id@ ==> final(self).ids()
                == Seq::<Seq<char>>::empty() && final(self).flags() == Seq::<
                Arc<AtomicBool>,
            >::empty(),
            !(old(self).ids().len() > 0 && old(self).ids()[0] == job_id@) ==> *final(self)
                == *old(self),
    {
        proof {
            use_type_invariant(&*self);
        }
        let target = str_to_string(job_id);
        if self.jobs.len() > 0 && self.jobs[0].0 == target {
            self.jobs = Vec::new();
            assert(self.ids() =~= Seq::<Seq<char>>::empty());
            assert(self.flags() =~= Seq::<Arc<AtomicBool>>::empty());
        }
    }

    /// The cancel flag of a running job.
    pub fn flag(&self, job_id: &str) -> (r: Option<&Arc<AtomicBool>>)
        ensures
            r is Some <==> self.ids().contains(job_id@),
            r matches Some(f) ==> self.ids()[0] == job_id@ && *f == self.flags()[0],
    {
        proof {
            use_type_invariant(self);
        }
        let target = str_to_string(job_id);
        if self.jobs.len() > 0 && self.jobs[0].0 == target {
            assert(self.ids()[0] == job_id@);
            Some(&self.jobs[0].1)
        } else {
            proof {
                if self.ids().contains(job_id@) {
                    let k = choose|k: int| 0 <= k < self.ids().len() && self.ids()[k] == job_id@;
                    assert(k == 0);
                }
            }
            None
        }
    }
}

} // verus!
