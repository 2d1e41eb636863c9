//! Placement of the database files and the refresh policy.
//!
//! The manager knows the configured data directory and the fallback
//! directories searched for a data file; whether a path exists is input
//! from the surrounding program, handed in as one flag per candidate. The
//! refresh policy re-downloads a database file older than one day.

use vstd::prelude::*;

verus! {

/// How old a database file may grow, in seconds, before it is refreshed.
pub const UPDATE_INTERVAL_SECS: u64 = 86400;

/// Knows where the database files live.
#[derive(Debug, Clone)]
pub struct DatabaseManager {
    pub data_dir: String,
}

/// A directory joined with a file name.
pub open spec fn spec_join_path(dir: Seq<char>, file: Seq<char>) -> Seq<char> {
    dir + "/"@ + file
}

/// The candidate path for a data file: the configured directory, then the
/// two fallback directories, the first that exists winning; a file nowhere
/// to be found is placed in the configured directory.
pub open spec fn spec_data_file_path(dir: Seq<char>, file: Seq<char>, present: Seq<bool>) -> Seq<
    char,
> {
    if present[0] {
        spec_join_path(dir, file)
    } else if present[1] {
        spec_join_path("../data"@, file)
    } else if present[2] {
        spec_join_path("/usr/local/share/ipgeo"@, file)
    } else {
        spec_join_path(dir, file)
    }
}

impl DatabaseManager {
    /// A manager over the given data directory.
    pub fn new(data_dir: String) -> (r: DatabaseManager)
        ensures
            r.data_dir@ == data_dir@,
    {
        DatabaseManager { data_dir }
    }

    /// The candidate paths for one data file, in search order.
    pub fn candidate_paths(&self, filename: &str) -> (r: Vec<String>)
        ensures
            r@.len() == 3,
            r@[0]@ == spec_join_path(self.data_dir@, filename@),
            r@[1]@ == spec_join_path("../data"@, filename@),
            r@[2]@ == spec_join_path("/usr/local/share/ipgeo"@, filename@),
    {
        let mut r: Vec<String> = Vec::new();
        r.push(self.data_dir.clone().concat("/").concat(filename));
        r.push("../data".to_owned().concat("/").concat(filename));
        r.push("/usr/local/share/ipgeo".to_owned().concat("/").concat(filename));
        r
    }

    /// Chooses the path for a data file, given which candidates exist.
    pub fn get_data_file_path(&self, filename: &str, present: &Vec<bool>) -> (r: String)
        requires
            present@.len() == 3,
        ensures
            r@ == spec_data_file_path(self.data_dir@, filename@, present@),
    {
        if present[0] {
            self.data_dir.clone().concat("/").concat(filename)
        } else if present[1] {
            "../data".to_owned().concat("/").concat(filename)
        } else if present[2] {
            "/usr/local/share/ipgeo".to_owned().concat("/").concat(filename)
        } else {
            self.data_dir.clone().concat("/").concat(filename)
        }
    }
}

/// Whether a database file should be downloaded again: when it is missing,
/// when its age is unknown, or when it is older than the refresh interval.
pub open spec fn spec_should_update(file_exists: bool, age_seconds: Option<u64>) -> bool {
    !file_exists || match age_seconds {
        Option::Some(a) => a > UPDATE_INTERVAL_SECS,
        Option::None => true,
    }
}

/// Decides whether a database file is to be downloaded again.
pub fn should_update(file_exists: bool, age_seconds: Option<u64>) -> (r: bool)
    ensures
        r == spec_should_update(file_exists, age_seconds),
{
    if !file_exists {
        return true;
    }
    match age_seconds {
        Option::Some(a) => a > UPDATE_INTERVAL_SECS,
        Option::None => true,
    }
}

} // verus!
