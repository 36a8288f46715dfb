//! Planning of the copy and create operations.
//!
//! Each function decides one step of an operation from plain values (the
//! kata name, the directories, whether a path exists) and returns what to
//! do together with the exact line to print. Carrying the steps out on the
//! filesystem is the caller's side.

use vstd::prelude::*;

use crate::paths::{dirname, dirname_spec, kata_path, kata_path_spec};
use crate::text::{contains_sub, contains_char, str_contains};

verus! {

/// A kata name that is not a path must not contain `..`.
pub open spec fn valid_copy_name(name: Seq<char>) -> bool {
    name.contains('/') || !contains_sub(name, ".."@)
}

/// The line printed when a kata is copied into a day folder.
pub open spec fn copying_message_spec(name: Seq<char>, day: Seq<char>) -> Seq<char> {
    "Copying "@ + name + " to "@ + day + "..."@
}

/// The line printed when a kata is copied into a day folder.
pub fn copying_message(kata_name: &str, day_base: &str) -> (r: String)
    ensures
        r@ == copying_message_spec(kata_name@, day_base@),
{
    let mut r = String::from_str("Copying ");
    r.append(kata_name);
    r.append(" to ");
    r.append(day_base);
    r.append("...");
    proof {
        assert(r@ =~= copying_message_spec(kata_name@, day_base@));
    }
    r
}

/// One step of the copy operation.
pub enum CopyStep {
    /// The name is rejected; the kata is skipped and counted as failed.
    RejectName { message: String },
    /// The kata's source path does not exist; skipped, counted as failed.
    Missing { message: String },
    /// Copy the source into the day folder and print the message.
    Copy { src: String, message: String },
}

/// Decides what to do for one kata name: a name that is not a path and
/// contains `..` is rejected, a missing source is reported, any other kata
/// is copied from its resolved path into the day folder.
pub fn copy_step(kata_name: &str, katas_dir: &str, day_base: &str, src_exists: bool) -> (r:
    CopyStep)
    ensures
        r is RejectName <==> !valid_copy_name(kata_name@),
        r is Missing <==> valid_copy_name(kata_name@) && !src_exists,
        r is Copy <==> valid_copy_name(kata_name@) && src_exists,
        r matches CopyStep::RejectName { message } ==> message@ == "Error: kata name '"@
            + kata_name@ + "' cannot contain '..'"@,
        r matches CopyStep::Missing { message } ==> message@ == "Error: Kata '"@ + kata_name@
            + "' does not exist"@,
        r matches CopyStep::Copy { src, message } ==> src@ == kata_path_spec(
            kata_name@,
            katas_dir@,
        ) && message@ == copying_message_spec(kata_name@, day_base@),
{
    if !contains_char(kata_name, '/') && str_contains(kata_name, "..") {
        let mut message = String::from_str("Error: kata name '");
        message.append(kata_name);
        message.append("' cannot contain '..'");
        proof {
            assert(message@ =~= "Error: kata name '"@ + kata_name@ + "' cannot contain '..'"@);
        }
        return CopyStep::RejectName { message };
    }
    if !src_exists {
        let mut message = String::from_str("Error: Kata '");
        message.append(kata_name);
        message.append("' does not exist");
        proof {
            assert(message@ =~= "Error: Kata '"@ + kata_name@ + "' does not exist"@);
        }
        return CopyStep::Missing { message };
    }
    let src = kata_path(kata_name, katas_dir);
    let message = copying_message(kata_name, day_base);
    CopyStep::Copy { src, message }
}

/// The file a fresh kata is seeded with.
pub enum RunnerFile {
    /// A Makefile with a `run` target; used whenever `make` is available.
    Makefile,
    /// A `run.sh` script, made executable; used without `make` off Windows.
    RunSh,
    /// A `run.bat` script; used without `make` on Windows.
    RunBat,
}

/// A kata name that is not a path must be nonempty, must not contain `..`
/// and must not start with `.`.
pub open spec fn valid_new_name(name: Seq<char>) -> bool {
    name.contains('/') || (name.len() > 0 && !contains_sub(name, ".."@) && name[0] != '.')
}

/// The step the create operation takes.
pub enum NewKataStep {
    /// The name is rejected with the message.
    InvalidName { message: String },
    /// A kata of that name already exists; nothing is changed.
    AlreadyExists { message: String },
    /// Create the kata folder, print the message, and seed the file.
    Create { path: String, message: String, file: RunnerFile },
}

/// Decides what creating a kata does: an invalid name or an existing kata
/// is reported and nothing is created; otherwise the kata folder is
/// created and seeded with a Makefile when `make` is available, else with
/// an OS run script.
pub fn new_kata_plan(
    kata_name: &str,
    katas_dir: &str,
    path_exists: bool,
    make_available: bool,
    windows: bool,
) -> (r: NewKataStep)
    ensures
        r is InvalidName <==> !valid_new_name(kata_name@),
        r is AlreadyExists <==> valid_new_name(kata_name@) && path_exists,
        r is Create <==> valid_new_name(kata_name@) && !path_exists,
        r matches NewKataStep::InvalidName { message } ==> message@ == (if kata_name@.len() == 0 {
            "Error: kata name cannot be empty"@
        } else if contains_sub(kata_name@, ".."@) {
            "Error: kata name cannot contain '..'"@
        } else {
            "Error: kata name cannot start with '.'"@
        }),
        r matches NewKataStep::AlreadyExists { message } ==> message@ == "Kata "@ + kata_name@
            + " already exists"@,
        r matches NewKataStep::Create { path, message, file } ==> {
            &&& path@ == kata_path_spec(kata_name@, katas_dir@)
            &&& message@ == kata_name@ + " created in "@ + dirname_spec(
                kata_path_spec(kata_name@, katas_dir@),
            ) + "."@
            &&& (file is Makefile <==> make_available)
            &&& (file is RunBat <==> !make_available && windows)
            &&& (file is RunSh <==> !make_available && !windows)
        },
{
    if !contains_char(kata_name, '/') {
        if kata_name.unicode_len() == 0 {
            return NewKataStep::InvalidName {
                message: String::from_str("Error: kata name cannot be empty"),
            };
        }
        if str_contains(kata_name, "..") {
            return NewKataStep::InvalidName {
                message: String::from_str("Error: kata name cannot contain '..'"),
            };
        }
        if kata_name.get_char(0) == '.' {
            return NewKataStep::InvalidName {
                message: String::from_str("Error: kata name cannot start with '.'"),
            };
        }
    }
    if path_exists {
        let mut message = String::from_str("Kata ");
        message.append(kata_name);
        message.append(" already exists");
        proof {
            assert(message@ =~= "Kata "@ + kata_name@ + " already exists"@);
        }
        return NewKataStep::AlreadyExists { message };
    }
    let path = kata_path(kata_name, katas_dir);
    let mut message = String::from_str(kata_name);
    message.append(" created in ");
    message.append(dirname(path.as_str()).as_str());
    message.append(".");
    proof {
        assert(message@ =~= kata_name@ + " created in "@ + dirname_spec(
            kata_path_spec(kata_name@, katas_dir@),
        ) + "."@);
    }
    let file = if make_available {
        RunnerFile::Makefile
    } else if windows {
        RunnerFile::RunBat
    } else {
        RunnerFile::RunSh
    };
    NewKataStep::Create { path, message, file }
}

} // verus!
