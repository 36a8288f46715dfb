//! Choosing how a kata is run.
//!
//! A kata is run by a custom command, by `make run` when a Makefile is
//! present, by the run command recorded in a bundled example kata, or by
//! an OS run script (`run.sh`, or `run.bat` on Windows); when none of
//! these is at hand the kata is reported and the batch goes on. Launching
//! the chosen process is the caller's side.

use vstd::prelude::*;

use crate::text::{dec_rep, is_space, split_spec, trim, trim_spec, u32_to_string, views_of};

verus! {

/// Makefiles are preferred whenever `make` is available.
pub const USE_MAKEFILE: bool = true;

/// How one kata is to be run.
pub enum Runner {
    /// Run the user's custom command in the kata folder.
    Custom { command: String },
    /// The custom command is blank; print the message and continue with
    /// the next kata.
    EmptyCommand { message: String },
    /// Run `make run` in the kata folder.
    Make,
    /// Run the command recorded for a bundled example kata.
    Embedded { command: String },
    /// Run the OS run script: `run.bat` on Windows, `run.sh` elsewhere.
    Script { windows: bool },
    /// Nothing to run; print the message and continue with the next kata.
    NoRunner { message: String },
}

/// Picks the runner for a kata folder: a custom command wins (a blank one
/// is reported); with `make` available a Makefile wins next, then a
/// bundled kata's recorded command; without `make` the OS run script is
/// used. A missing runner is reported, never an error.
pub fn choose_runner(
    path: &str,
    custom_command: Option<&String>,
    make_available: bool,
    makefile_exists: bool,
    embedded_command: Option<&String>,
    windows: bool,
    script_exists: bool,
) -> (r: Runner)
    ensures
        r is Custom <==> custom_command is Some && trim_spec(custom_command->0@).len() > 0,
        r matches Runner::Custom { command } ==> command@ == custom_command->0@,
        r is EmptyCommand <==> custom_command is Some && trim_spec(custom_command->0@).len() == 0,
        r matches Runner::EmptyCommand { message } ==> message@ == "Error: empty command provided"@,
        r is Make <==> custom_command is None && make_available && makefile_exists,
        r is Embedded <==> custom_command is None && make_available && !makefile_exists
            && embedded_command is Some,
        r matches Runner::Embedded { command } ==> command@ == embedded_command->0@,
        r is Script <==> custom_command is None && !make_available && script_exists,
        r matches Runner::Script { windows: w } ==> w == windows,
        r is NoRunner <==> custom_command is None && ((make_available && !makefile_exists
            && embedded_command is None) || (!make_available && !script_exists)),
        r matches Runner::NoRunner { message } ==> message@ == (if make_available {
            "No Makefile found in "@ + path@
        } else if windows {
            "No run.bat file found in "@ + path@
        } else {
            "No run.sh file found in "@ + path@
        }),
{
    match custom_command {
        Some(cmd) => {
            let trimmed = trim(cmd.as_str());
            if trimmed.unicode_len() > 0 {
                return Runner::Custom { command: cmd.clone() };
            }
            return Runner::EmptyCommand {
                message: String::from_str("Error: empty command provided"),
            };
        },
        None => {},
    }
    if make_available {
        if makefile_exists {
            return Runner::Make;
        }
        match embedded_command {
            Some(command) => Runner::Embedded { command: command.clone() },
            None => {
                let mut message = String::from_str("No Makefile found in ");
                message.append(path);
                proof {
                    assert(message@ =~= "No Makefile found in "@ + path@);
                }
                Runner::NoRunner { message }
            },
        }
    } else {
        if script_exists {
            return Runner::Script { windows };
        }
        let mut message = if windows {
            String::from_str("No run.bat file found in ")
        } else {
            String::from_str("No run.sh file found in ")
        };
        message.append(path);
        proof {
            if windows {
                assert(message@ =~= "No run.bat file found in "@ + path@);
            } else {
                assert(message@ =~= "No run.sh file found in "@ + path@);
            }
        }
        Runner::NoRunner { message }
    }
}

/// The header line printed before a kata runs: position and total are
/// 1-based.
pub open spec fn run_header_spec(name: Seq<char>, pos: nat, total: nat) -> Seq<char> {
    "\n> Running "@ + name + " ["@ + dec_rep(pos) + "/"@ + dec_rep(total) + "]"@
}

/// Builds the header line printed before a kata runs.
pub fn run_header(kata_name: &str, pos: u32, total: u32) -> (r: String)
    ensures
        r@ == run_header_spec(kata_name@, pos as nat, total as nat),
{
    let mut r = String::from_str("\n> Running ");
    r.append(kata_name);
    r.append(" [");
    r.append(u32_to_string(pos).as_str());
    r.append("/");
    r.append(u32_to_string(total).as_str());
    r.append("]");
    proof {
        assert(r@ =~= run_header_spec(kata_name@, pos as nat, total as nat));
    }
    r
}

/// A line of dashes, as wide as the header above it.
pub fn dash_line(width: usize) -> (r: String)
    ensures
        r@.len() == width,
        forall|j: int| 0 <= j < width ==> r@[j] == '-',
{
    let mut r = String::new();
    let mut i: usize = 0;
    while i < width
        invariant
            0 <= i <= width,
            r@.len() == i,
            forall|j: int| 0 <= j < i ==> r@[j] == '-',
        decreases width - i,
    {
        proof {
            reveal_strlit("-");
        }
        r.append("-");
        i = i + 1;
    }
    r
}

/// A Makefile line that carries a command: it starts with a tab and is
/// not blank.
pub open spec fn is_command_line(l: Seq<char>) -> bool {
    l.len() > 0 && l[0] == '\t' && trim_spec(l).len() > 0
}

/// The first command carried by a list of Makefile lines, trimmed.
pub open spec fn first_tab_command(lines: Seq<Seq<char>>) -> Option<Seq<char>>
    decreases lines.len(),
{
    if lines.len() == 0 {
        None
    } else if is_command_line(lines[0]) {
        Some(trim_spec(lines[0]))
    } else {
        first_tab_command(lines.drop_first())
    }
}

/// Extracts the run command from a Makefile's text: the first line that
/// starts with a tab and is not blank, trimmed of whitespace. Lines are
/// the `\n`-separated pieces of the text.
pub fn get_embedded_run_command(content: &str) -> (r: Option<String>)
    ensures
        r is Some <==> first_tab_command(split_spec(content@, '\n')) is Some,
        r matches Some(cmd) ==> first_tab_command(split_spec(content@, '\n')) == Some(cmd@),
{
    let lines = crate::text::split_char(content, '\n');
    let ghost all = views_of(lines@);
    let mut i: usize = 0;
    assert(all.skip(0) =~= all);
    while i < lines.len()
        invariant
            0 <= i <= lines.len(),
            all == views_of(lines@),
            all == split_spec(content@, '\n'),
            all.len() == lines.len(),
            first_tab_command(all) == first_tab_command(all.skip(i as int)),
        decreases lines.len() - i,
    {
        let line: &str = lines[i].as_str();
        assert(line@ == all[i as int]);
        proof {
            assert(all.skip(i as int)[0] == all[i as int]);
            assert(all.skip(i as int).drop_first() =~= all.skip(i + 1));
        }
        if line.unicode_len() > 0 && line.get_char(0) == '\t' {
            let t = trim(line);
            if t.unicode_len() > 0 {
                proof {
                    assert(is_command_line(all[i as int]));
                    assert(first_tab_command(all.skip(i as int)) == Some(
                        trim_spec(all[i as int]),
                    ));
                }
                return Some(t);
            }
        }
        i = i + 1;
    }
    proof {
        assert(all.skip(i as int) =~= Seq::<Seq<char>>::empty());
    }
    None
}

} // verus!
