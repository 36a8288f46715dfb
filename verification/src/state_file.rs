//! The state record: an optional random-kata list and the katas added so
//! far. Reading and writing the file is the caller's side.

use vstd::prelude::*;

use crate::Kata;
use crate::random::shuffle_strings;
use crate::text::clone_strings;

verus! {

/// The state record kept in the config file.
pub struct StateFile {
    pub random: Option<Vec<String>>,
    pub katas: Option<Vec<Kata>>,
}

/// The record's random-kata list, shuffled; a missing or empty list is
/// reported.
pub fn read_random_katas_from_config_file(state: &StateFile) -> (r: Result<Vec<String>, String>)
    ensures
        r is Err <==> (state.random is None || state.random->0@.len() == 0),
        r matches Err(message) ==> message@ == "config file is empty"@,
        r matches Ok(v) ==> v@.to_multiset() == state.random->0@.to_multiset() && v@.len()
            == state.random->0@.len(),
{
    match &state.random {
        None => Err(String::from_str("config file is empty")),
        Some(list) => {
            if list.len() == 0 {
                return Err(String::from_str("config file is empty"));
            }
            let mut names = clone_strings(list);
            shuffle_strings(&mut names);
            Ok(names)
        },
    }
}

} // verus!
