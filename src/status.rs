//! What the daemon reports about one job, held as plain values.

use vstd::prelude::*;

verus! {

/// One file of a job, with the URIs it is fetched from.
pub struct JobFile {
    pub path: String,
    pub uris: Vec<String>,
}

/// A point-in-time status report of one job, as the daemon gives it.
pub struct JobStatus {
    pub gid: String,
    pub total_length: u64,
    pub completed_length: u64,
    pub verified_length: Option<u64>,
    pub download_speed: u64,
    pub connections: u64,
    pub num_pieces: u64,
    pub piece_length: u64,
    pub error_code: Option<String>,
    pub error_message: Option<String>,
    pub dir: String,
    pub files: Vec<JobFile>,
}

/// The verified length of a report, zero when the daemon gave none.
pub open spec fn verified_of(s: JobStatus) -> u64 {
    match s.verified_length {
        Some(v) => v,
        None => 0,
    }
}

/// The job is complete: every byte is there, and there is at least one.
pub open spec fn status_completed(s: JobStatus) -> bool {
    s.completed_length == s.total_length && s.completed_length != 0
}

/// The daemon is checking the downloaded data and has not finished.
pub open spec fn status_verifying(s: JobStatus) -> bool {
    verified_of(s) != 0 && verified_of(s) != s.total_length
}

/// The report carries the error code `"0"`, which the error flag compares against.
pub open spec fn status_error(s: JobStatus) -> bool {
    match s.error_code {
        Some(c) => c@ == "0"@,
        None => false,
    }
}

impl JobStatus {
    pub fn is_completed(&self) -> (r: bool)
        ensures
            r == status_completed(*self),
    {
        self.completed_length == self.total_length && self.completed_length != 0
    }

    pub fn verified(&self) -> (r: u64)
        ensures
            r == verified_of(*self),
    {
        match self.verified_length {
            Some(v) => v,
            None => 0,
        }
    }

    pub fn is_verifying(&self) -> (r: bool)
        ensures
            r == status_verifying(*self),
    {
        let v = self.verified();
        v != 0 && v != self.total_length
    }

    pub fn is_error(&self) -> (r: bool)
        ensures
            r == status_error(*self),
    {
        match &self.error_code {
            Some(c) => {
                let zero = String::from_str("0");
                *c == zero
            },
            None => false,
        }
    }
}

} // verus!
