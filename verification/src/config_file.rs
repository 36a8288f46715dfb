//! The TOML config record holding an optional random-kata list. Reading
//! and writing the file is the caller's side.

use vstd::prelude::*;

use crate::random::shuffle_strings;
use crate::text::clone_strings;

verus! {

/// The config record: its optional random-kata list.
pub struct ConfigFile {
    pub random: Option<Vec<String>>,
}

impl ConfigFile {
    /// A config record assembled from loaded values.
    pub fn new(random: Option<Vec<String>>) -> (r: ConfigFile)
        ensures
            r.random == random,
    {
        ConfigFile { random }
    }

    /// The record's random-kata list, shuffled; a missing or empty list is
    /// reported.
    pub fn get_random_katas_from_config(&self) -> (r: Result<Vec<String>, String>)
        ensures
            r is Err <==> (self.random is None || self.random->0@.len() == 0),
            r matches Err(message) ==> message@ == "config file's random setting is empty"@,
            r matches Ok(v) ==> v@.to_multiset() == self.random->0@.to_multiset() && v@.len()
                == self.random->0@.len(),
    {
        match &self.random {
            None => Err(String::from_str("config file's random setting is empty")),
            Some(list) => {
                if list.len() == 0 {
                    return Err(String::from_str("config file's random setting is empty"));
                }
                let mut names = clone_strings(list);
                shuffle_strings(&mut names);
                Ok(names)
            },
        }
    }
}

} // verus!
