//! The local config record: the per-project `katac.json` with the list of
//! katas that random selection draws from. Reading and writing the file is
//! the caller's side.

use vstd::prelude::*;

use crate::random::shuffle_strings;
use crate::text::clone_strings;

verus! {

/// The local config record: where it lives and its random-kata list.
pub struct LocalConfigFile {
    pub path: String,
    pub random: Vec<String>,
}

impl LocalConfigFile {
    /// A local config record assembled from loaded values.
    pub fn new(path: String, random: Vec<String>) -> (r: LocalConfigFile)
        ensures
            r.path == path,
            r.random@ == random@,
    {
        LocalConfigFile { path, random }
    }

    /// The record's random-kata list, shuffled; an empty list is reported.
    pub fn get_random_katas_from_config(&self) -> (r: Result<Vec<String>, String>)
        ensures
            r is Err <==> self.random@.len() == 0,
            r matches Err(message) ==> message@ == "config file's random setting is empty"@,
            r matches Ok(v) ==> v@.to_multiset() == self.random@.to_multiset() && v@.len()
                == self.random@.len(),
    {
        if self.random.len() == 0 {
            return Err(String::from_str("config file's random setting is empty"));
        }
        let mut names = clone_strings(&self.random);
        shuffle_strings(&mut names);
        Ok(names)
    }
}

} // verus!
