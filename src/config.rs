use vstd::prelude::*;
use crate::matcher::{lower_of, lowercase};

verus! {

/// Number of workers used when the caller does not choose one.
pub const DEFAULT_WORKERS: u16 = 8;

/// The settings of one search run, read-only once built.
pub struct Config {
    pub query: String,
    pub query_lowercased: String,
    pub file_path: String,
    pub ignore_case: bool,
    pub num_workers: u16,
}

impl Config {
    /// At least one worker, and the lower-cased query belongs to the query.
    pub open spec fn wf(&self) -> bool {
        &&& self.num_workers >= 1
        &&& self.query_lowercased@ == lower_of(self.query@)
    }

    /// Builds the settings from the program's arguments (the program name, the
    /// query, the file path, then anything) and the case-sensitivity toggle.
    /// Fails when fewer than three arguments are given.
    pub fn build(args: &[String], ignore_case: bool) -> (r: Result<Config, &'static str>)
        ensures
            args@.len() < 3 <==> r is Err,
            r is Ok ==> ({
                let c = r->Ok_0;
                &&& c.wf()
                &&& c.query@ == args@[1]@
                &&& c.file_path@ == args@[2]@
                &&& c.ignore_case == ignore_case
                &&& c.num_workers == DEFAULT_WORKERS
            }),
    {
        if args.len() < 3 {
            return Err("Not enough arguments!");
        }
        let query = args[1].clone();
        let file_path = args[2].clone();
        let query_lowercased = lowercase(query.as_str());
        Ok(Config { query, query_lowercased, file_path, ignore_case, num_workers: DEFAULT_WORKERS })
    }
}

/// Capacity of the bounded work channel for a given number of workers.
pub fn work_capacity(worker_count: u16) -> (r: usize)
    ensures
        r == worker_count as int * 16,
{
    worker_count as usize * 16
}

} // verus!
