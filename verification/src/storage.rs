//! Where backtest runs are stored, and when they expire.

use vstd::prelude::*;
use vstd::string::*;
use std::path::PathBuf;
use crate::market_data::{join_path, spec_older_than, path_components, single_component};

verus! {

/// Store of backtest runs: one directory per run under `<data dir>/runs`, removed
/// after a number of hours.
#[derive(Clone)]
pub struct RunStore {
    base: PathBuf,
    ttl_hours: u64,
}

impl RunStore {
    /// The runs directory.
    pub closed spec fn base(&self) -> PathBuf {
        self.base
    }

    /// How many hours a run is kept.
    pub closed spec fn ttl_hours(&self) -> u64 {
        self.ttl_hours
    }

    /// The store under `data_dir`: its runs live in the `runs` subdirectory.
    pub fn new(data_dir: PathBuf, ttl_hours: u64) -> (store: RunStore)
        ensures
            path_components(store.base()) == path_components(data_dir).push("runs"@),
            store.ttl_hours() == ttl_hours,
    {
        proof {
            reveal_strlit("runs");
            reveal_strlit(".");
            reveal_strlit("..");
        }
        RunStore { base: join_path(&data_dir, "runs"), ttl_hours }
    }

    /// How many hours a run is kept.
    pub fn lifetime_hours(&self) -> (h: u64)
        ensures
            h == self.ttl_hours(),
    {
        self.ttl_hours
    }

    /// The runs directory.
    pub fn base_dir(&self) -> (dir: &PathBuf)
        ensures
            *dir == self.base(),
    {
        &self.base
    }

    /// The directory of the run whose id is written `id`.
    ///
    /// When `id` is a single normal path component, the result's components are
    /// those of the runs directory followed by `id`.
    pub fn run_dir(&self, id: &str) -> (d: PathBuf)
        ensures
            single_component(id@) ==> path_components(d) == path_components(self.base()).push(id@),
    {
        join_path(&self.base, id)
    }

    /// Whether a run directory last modified the given time ago (seconds, plus
    /// nanoseconds) is older than `ttl_hours` hours, and is to be removed.
    pub fn is_expired(&self, age_secs: u64, age_nanos: u32) -> (expired: bool)
        requires
            self.ttl_hours() * 3600 <= u64::MAX,
        ensures
            expired == spec_older_than(age_secs, age_nanos, self.ttl_hours() * 3600),
    {
        let ttl: u64 = self.ttl_hours * 3600;
        age_secs > ttl || (age_secs == ttl && age_nanos > 0)
    }
}

} // verus!
