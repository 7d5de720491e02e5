//! The description of a job, as a configuration file gives it.
use vstd::prelude::*;

verus! {

/// The delay between two polls, in seconds, of a job that configures none.
pub const DEFAULT_DELAY: u64 = 2;

/// One configured job. Every field but the directory may be left out.
#[derive(Clone, Debug, PartialEq, Eq)]
pub struct JobConfig {
    /// The directory to watch.
    pub dir: String,
    /// The file extensions to watch; every file is watched if there is no list.
    pub filetypes: Option<Vec<String>>,
    /// Shell commands that are run to completion after each change, in this order.
    pub scripts: Option<Vec<String>>,
    /// Shell commands that are kept running and restarted after each change.
    pub servers: Option<Vec<String>>,
    /// Seconds to wait between two polls.
    pub delay: Option<u64>,
}

/// What a [`JobConfig`] holds, as mathematical values.
pub struct JobConfigView {
    pub dir: Seq<char>,
    pub filetypes: Option<Seq<Seq<char>>>,
    pub scripts: Option<Seq<Seq<char>>>,
    pub servers: Option<Seq<Seq<char>>>,
    pub delay: Option<u64>,
}

impl View for JobConfig {
    type V = JobConfigView;

    open spec fn view(&self) -> JobConfigView {
        JobConfigView {
            dir: self.dir@,
            filetypes: self.filetypes.deep_view(),
            scripts: self.scripts.deep_view(),
            servers: self.servers.deep_view(),
            delay: self.delay,
        }
    }
}

impl JobConfigView {
    /// The scripts of the job: none where the configuration names none.
    pub open spec fn scripts_or_none(self) -> Seq<Seq<char>> {
        match self.scripts {
            Some(list) => list,
            None => Seq::empty(),
        }
    }

    /// The servers of the job: none where the configuration names none.
    pub open spec fn servers_or_none(self) -> Seq<Seq<char>> {
        match self.servers {
            Some(list) => list,
            None => Seq::empty(),
        }
    }

    /// The delay of the job: the default where the configuration names none.
    pub open spec fn delay_or_default(self) -> u64 {
        match self.delay {
            Some(seconds) => seconds,
            None => DEFAULT_DELAY,
        }
    }
}

} // verus!
