//! The queue of downloads and what becomes of a job.

use std::collections::VecDeque;
use vstd::prelude::*;
use crate::errors::{AppError, AppResult};
use crate::loader::Config;
use crate::tag::{first_bad_name, tag_names, texts, to_tags, Tag};

verus! {

/// No download takes longer than this many seconds.
pub const TIMEOUT_SECS: u64 = 300;

/// No connection takes longer than this many seconds to be made.
pub const CONNECT_TIMEOUT_SECS: u64 = 10;

/// A download slower than [`LOW_SPEED_LIMIT`] for this many seconds is given
/// up.
pub const LOW_SPEED_SECS: u64 = 30;

/// The bytes a second below which a download counts as slow.
pub const LOW_SPEED_LIMIT: u32 = 1024;

/// The seconds that the worker rests between two jobs.
pub const PAUSE_SECS: u64 = 3;

/// The tags to bind to a downloaded image.
#[derive(Clone, Debug, PartialEq, Eq)]
pub struct Tags {
    pub items: Vec<String>,
    /// Who says so.
    pub source: String,
}

/// A download to make.
#[derive(Debug, PartialEq, Eq)]
pub struct Job {
    pub tags: Option<Tags>,
    /// The path of the file to write.
    pub to: String,
    pub url: String,
}

/// The jobs that wait, in the order they came, and the count of those that
/// failed.
pub struct Manager {
    pool: VecDeque<Job>,
    errors: usize,
}

impl Manager {
    /// The jobs that wait, the next one first.
    pub closed spec fn waiting(&self) -> Seq<Job> {
        self.pool@
    }

    /// How many jobs failed; the count stops at the greatest number.
    pub closed spec fn failures(&self) -> nat {
        self.errors as nat
    }

    /// A queue with no job and no failure.
    pub fn new() -> (manager: Self)
        ensures
            manager.waiting() == Seq::<Job>::empty(),
            manager.failures() == 0,
    {
        Manager { pool: VecDeque::new(), errors: 0 }
    }

    /// Puts `job` behind the jobs that wait.
    pub fn download(&mut self, job: Job)
        ensures
            final(self).waiting() == old(self).waiting().push(job),
            final(self).failures() == old(self).failures(),
    {
        self.pool.push_back(job);
    }

    /// One turn of the worker: the jobs that `arrived` join the queue in
    /// their order, then the first job of the queue is taken off to be done;
    /// `None` where none waits.
    pub fn step(&mut self, arrived: Vec<Job>) -> (job: Option<Job>)
        ensures
            final(self).failures() == old(self).failures(),
            match job {
                Some(next) => old(self).waiting() + arrived@ == seq![next] + final(self).waiting(),
                None => old(self).waiting() + arrived@ == Seq::<Job>::empty() && final(self).waiting() == Seq::<Job>::empty(),
            },
    {
        let mut arrived = arrived;
        let ghost all = self.pool@ + arrived@;
        while arrived.len() > 0
            invariant
                self.pool@ + arrived@ == all,
                self.errors == old(self).errors,
            decreases arrived.len(),
        {
            let ghost queue = self.pool@;
            let ghost rest = arrived@;
            let job = arrived.remove(0);
            self.pool.push_back(job);
            assert(self.pool@ + arrived@ =~= queue + rest);
        }
        assert(self.pool@ =~= all);
        let job = self.pool.pop_front();
        proof {
            if job is Some {
                assert(all =~= seq![job->0] + self.pool@);
            }
        }
        job
    }

    /// Notes how a job ended. A failed job counts as a failure and is not
    /// queued again.
    pub fn finished(&mut self, succeeded: bool)
        ensures
            final(self).waiting() == old(self).waiting(),
            final(self).failures() == (if succeeded || old(self).failures() == usize::MAX {
                old(self).failures()
            } else {
                old(self).failures() + 1
            }),
    {
        if !succeeded && self.errors < usize::MAX {
            self.errors = self.errors + 1;
        }
    }

    /// How many jobs wait.
    pub fn pending(&self) -> (count: usize)
        ensures
            count == self.waiting().len(),
    {
        self.pool.len()
    }

    /// How many jobs failed.
    pub fn errors(&self) -> (count: usize)
        ensures
            count == self.failures(),
    {
        self.errors
    }
}

impl Job {
    /// The tags to bind once the file is in the catalog, and their source;
    /// `None` for a job without tags. A tag that is no tag name is refused
    /// with `InvalidTagFormat`.
    pub fn tags_to_add(&self) -> (result: AppResult<Option<Vec<Tag>>>)
        ensures
            match self.tags {
                None => result matches Ok(None),
                Some(tags) => match result {
                    Ok(Some(names)) => first_bad_name(texts(tags.items@), 0) == tags.items.len()
                        && tag_names(names@) == texts(tags.items@),
                    Ok(None) => false,
                    Err(AppError::InvalidTagFormat(given)) => first_bad_name(
                        texts(tags.items@),
                        0,
                    ) < tags.items.len() && given@ == tags.items[first_bad_name(
                        texts(tags.items@),
                        0,
                    )]@,
                    Err(_) => false,
                },
            },
    {
        match &self.tags {
            None => Ok(None),
            Some(tags) => match to_tags(&tags.items) {
                Ok(names) => Ok(Some(names)),
                Err(error) => Err(error),
            },
        }
    }
}

/// How a downloaded file is ingested: with its perceptual hash, and nothing
/// else asked for.
pub fn record_config() -> (config: Config<'static>)
    ensures
        config.compute_dhash,
        !config.check_extension,
        !config.dry_run,
        !config.skip_errors,
        !config.update,
        config.tag_generator is None,
        config.tag_source is None,
{
    Config {
        check_extension: false,
        compute_dhash: true,
        dry_run: false,
        skip_errors: false,
        tag_generator: None,
        tag_source: None,
        update: false,
    }
}

} // verus!
