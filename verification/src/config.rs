//! The configuration threaded through the tool: the global config record
//! and, when present, the local one; and where those records live.

use vstd::prelude::*;

use crate::Kata;
use crate::args::Args;
use crate::global_config_file::{GlobalConfigFile, first_workspace_index, has_workspace};
use crate::local_config_file::LocalConfigFile;
use crate::text::views_of;
use crate::workspaces::{Workspace, workspace_eq};

verus! {

pub const DEF_KATAS_DIR: &'static str = "katas";

pub const DEF_DAYS_DIR: &'static str = "days";

pub const DEF_CONFIG_FILENAME: &'static str = "katac.json";

/// The configuration: the global record, and the local one when its file
/// was there.
pub struct Config {
    pub global_config_file: GlobalConfigFile,
    pub local_config_file: Option<LocalConfigFile>,
}

impl Config {
    /// A configuration assembled from the loaded records.
    pub fn new(
        global_config_file: GlobalConfigFile,
        local_config_file: Option<LocalConfigFile>,
    ) -> (r: Config)
        ensures
            r.global_config_file == global_config_file,
            r.local_config_file == local_config_file,
    {
        Config { global_config_file, local_config_file }
    }

    /// Whether no workspace of that name is recorded yet.
    pub fn is_new_workspace(&self, name: &str) -> (r: bool)
        ensures
            r == !has_workspace(self.global_config_file.workspaces@, name@),
    {
        !self.global_config_file.contains_workspace(name)
    }

    /// Records the workspace; one of the same name is reported and nothing
    /// changes.
    pub fn add_workspace(&mut self, workspace: &Workspace) -> (r: Result<(), String>)
        ensures
            r is Err <==> has_workspace(old(self).global_config_file.workspaces@, workspace.name@),
            r matches Err(message) ==> message@ == "Workspace already exists"@ && final(self).global_config_file.workspaces@ == old(self).global_config_file.workspaces@,
            r is Ok ==> {
                &&& final(self).global_config_file.workspaces@.len() == old(self).global_config_file.workspaces@.len() + 1
                &&& final(self).global_config_file.workspaces@.subrange(
                    0,
                    old(self).global_config_file.workspaces@.len() as int,
                ) == old(self).global_config_file.workspaces@
                &&& workspace_eq(final(self).global_config_file.workspaces@.last(), *workspace)
            },
            final(self).local_config_file == old(self).local_config_file,
    {
        self.global_config_file.add_workspace(workspace)
    }

    /// The recorded workspaces' names, in order.
    pub fn list_workspaces(&self) -> (r: Vec<String>)
        ensures
            views_of(r@) == self.global_config_file.workspaces@.map_values(
                |w: Workspace| w.name@,
            ),
    {
        self.global_config_file.list_workspaces()
    }

    /// Removes every workspace of that name; the others keep their order.
    pub fn remove_workspace(&mut self, name: &str)
        ensures
            final(self).global_config_file.workspaces@ == old(self).global_config_file.workspaces@.filter((|w: Workspace| w.name@ != name@)),
            final(self).local_config_file == old(self).local_config_file,
    {
        self.global_config_file.remove_workspace(name);
        proof {
            assert((|w: Workspace| w.name@ != name@) =~= (|w: Workspace| w.name@ != name@));
        }
    }

    /// An owned copy of the first recorded workspace of that name, if any.
    pub fn find_workspace(&self, name: &str) -> (r: Option<Workspace>)
        ensures
            r is Some <==> has_workspace(self.global_config_file.workspaces@, name@),
            r matches Some(w) ==> workspace_eq(
                w,
                self.global_config_file.workspaces@[first_workspace_index(
                    self.global_config_file.workspaces@,
                    name@,
                )],
            ),
    {
        self.global_config_file.find_workspace(name)
    }

    /// Carries directory overrides from the arguments into the workspace;
    /// when one was given, the recorded workspace is updated to match.
    pub fn update_cfg_if_given_args(&mut self, args: &Args, workspace: &mut Workspace)
        ensures
            final(workspace).katas_dir@ == (if args.katas_dir is Some {
                args.katas_dir->0@
            } else {
                old(workspace).katas_dir@
            }),
            final(workspace).days_dir@ == (if args.days_dir is Some {
                args.days_dir->0@
            } else {
                old(workspace).days_dir@
            }),
            final(workspace).name == old(workspace).name,
            final(workspace).path == old(workspace).path,
            final(workspace).remote == old(workspace).remote,
            final(workspace).author == old(workspace).author,
            final(workspace).katas@ == old(workspace).katas@,
            final(self).local_config_file == old(self).local_config_file,
            args.katas_dir is None && args.days_dir is None ==> final(self).global_config_file.workspaces@ == old(self).global_config_file.workspaces@,
            (args.katas_dir is Some || args.days_dir is Some) && has_workspace(
                old(self).global_config_file.workspaces@,
                old(workspace).name@,
            ) ==> {
                &&& final(self).global_config_file.workspaces@.len() == old(self).global_config_file.workspaces@.len()
                &&& workspace_eq(
                    final(self).global_config_file.workspaces@[first_workspace_index(
                        old(self).global_config_file.workspaces@,
                        old(workspace).name@,
                    )],
                    *final(workspace),
                )
            },
            (args.katas_dir is Some || args.days_dir is Some) && !has_workspace(
                old(self).global_config_file.workspaces@,
                old(workspace).name@,
            ) ==> final(self).global_config_file.workspaces@ == old(self).global_config_file.workspaces@,
    {
        let mut changed = false;
        match &args.katas_dir {
            Some(katas_dir) => {
                workspace.katas_dir = katas_dir.clone();
                changed = true;
            },
            None => {},
        }
        match &args.days_dir {
            Some(days_dir) => {
                workspace.days_dir = days_dir.clone();
                changed = true;
            },
            None => {},
        }
        if changed {
            self.global_config_file.update_workspace(workspace);
        }
    }
}

/// The share directory: under the user profile on Windows, under
/// `.local/share` elsewhere.
pub open spec fn share_dir_spec(home: Seq<char>, windows: bool) -> Seq<char> {
    if windows {
        home + "/katac"@
    } else {
        home + "/.local/share/katac"@
    }
}

/// The directory the global records live in, under the user's home (the
/// profile directory on Windows).
pub fn share_dir(home: &str, windows: bool) -> (r: String)
    ensures
        r@ == share_dir_spec(home@, windows),
{
    let mut r = String::from_str(home);
    if windows {
        r.append("/katac");
    } else {
        r.append("/.local/share/katac");
    }
    r
}

/// The local config file: the one named by the arguments, or the default.
pub fn local_config_path(args: &Args) -> (r: String)
    ensures
        r@ == (if args.config_file is Some {
            args.config_file->0@
        } else {
            DEF_CONFIG_FILENAME@
        }),
{
    match &args.config_file {
        Some(path) => path.clone(),
        None => String::from_str(DEF_CONFIG_FILENAME),
    }
}

/// The global config file inside the share directory.
pub fn global_config_path(home: &str, windows: bool) -> (r: String)
    ensures
        r@ == share_dir_spec(home@, windows) + "/"@ + DEF_CONFIG_FILENAME@,
{
    let mut r = share_dir(home, windows);
    r.append("/");
    r.append(DEF_CONFIG_FILENAME);
    r
}

} // verus!
