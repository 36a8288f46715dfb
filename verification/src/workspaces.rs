//! Workspaces: named project roots with their own katas and days
//! directories and their list of katas.

use vstd::prelude::*;

use crate::Kata;
use crate::config::{DEF_DAYS_DIR, DEF_KATAS_DIR};
use crate::days::day_path;
use crate::paths::{base_of, basename, is_absolute, kata_path, kata_path_spec, resolve_under, resolved_under};
use crate::text::{split_char, split_spec, str_eq, views_of};

verus! {

/// A workspace: its name, root path, optional remote, author, the two
/// directories it works with, and its katas.
pub struct Workspace {
    pub name: String,
    pub path: String,
    pub remote: Option<String>,
    pub author: String,
    pub katas_dir: String,
    pub days_dir: String,
    pub katas: Vec<Kata>,
}

/// Two workspaces with the same fields.
pub open spec fn workspace_eq(a: Workspace, b: Workspace) -> bool {
    &&& a.name == b.name
    &&& a.path == b.path
    &&& a.remote == b.remote
    &&& a.author == b.author
    &&& a.katas_dir == b.katas_dir
    &&& a.days_dir == b.days_dir
    &&& a.katas@ == b.katas@
}

/// The workspace's katas hold a kata of that name.
pub open spec fn has_kata(katas: Seq<Kata>, name: Seq<char>) -> bool {
    exists|i: int| 0 <= i < katas.len() && #[trigger] katas[i].name@ == name
}

/// An owned copy of a list of katas.
pub(crate) fn clone_katas(katas: &Vec<Kata>) -> (r: Vec<Kata>)
    ensures
        r@ == katas@,
{
    let mut r: Vec<Kata> = Vec::new();
    let mut i: usize = 0;
    while i < katas.len()
        invariant
            0 <= i <= katas.len(),
            r@ == katas@.subrange(0, i as int),
        decreases katas.len() - i,
    {
        r.push(katas[i].duplicate());
        proof {
            assert(r@ =~= katas@.subrange(0, i + 1));
        }
        i = i + 1;
    }
    proof {
        assert(katas@.subrange(0, katas@.len() as int) =~= katas@);
    }
    r
}

impl Workspace {
    /// A workspace assembled from resolved values; it starts without a
    /// remote.
    pub fn new_with(
        name: &str,
        path: String,
        katas_dir: String,
        days_dir: String,
        author: String,
        katas: Vec<Kata>,
    ) -> (r: Workspace)
        ensures
            r.name@ == name@,
            r.path == path,
            r.remote is None,
            r.author == author,
            r.katas_dir == katas_dir,
            r.days_dir == days_dir,
            r.katas@ == katas@,
    {
        Workspace {
            name: String::from_str(name),
            path,
            remote: None,
            author,
            katas_dir,
            days_dir,
            katas,
        }
    }

    /// An owned copy with the same fields.
    pub fn duplicate(&self) -> (r: Workspace)
        ensures
            workspace_eq(r, *self),
    {
        let remote = match &self.remote {
            Some(s) => Some(s.clone()),
            None => None,
        };
        Workspace {
            name: self.name.clone(),
            path: self.path.clone(),
            remote,
            author: self.author.clone(),
            katas_dir: self.katas_dir.clone(),
            days_dir: self.days_dir.clone(),
            katas: clone_katas(&self.katas),
        }
    }

    /// The katas that a list of directory entries stands for, each
    /// resolved against this workspace's katas directory.
    pub fn get_katas(&self, names: &Vec<String>) -> (r: Vec<Kata>)
        ensures
            r@.len() == names@.len(),
            forall|i: int|
                0 <= i < names@.len() ==> (#[trigger] r@[i]).name@ == names@[i]@ && r@[i].path@
                    == kata_path_spec(names@[i]@, self.katas_dir@),
    {
        let mut r: Vec<Kata> = Vec::new();
        let mut i: usize = 0;
        while i < names.len()
            invariant
                0 <= i <= names.len(),
                r@.len() == i,
                forall|j: int|
                    0 <= j < i ==> (#[trigger] r@[j]).name@ == names@[j]@ && r@[j].path@
                        == kata_path_spec(names@[j]@, self.katas_dir@),
            decreases names.len() - i,
        {
            let name = &names[i];
            let kata = Kata {
                name: name.clone(),
                path: get_kata_path(name.as_str(), self.katas_dir.as_str()),
            };
            r.push(kata);
            i = i + 1;
        }
        r
    }

    /// The names of this workspace's katas, in order.
    pub fn get_kata_names(&self) -> (r: Vec<String>)
        ensures
            views_of(r@) == self.katas@.map_values(|k: Kata| k.name@),
    {
        let mut r: Vec<String> = Vec::new();
        let mut i: usize = 0;
        while i < self.katas.len()
            invariant
                0 <= i <= self.katas.len(),
                views_of(r@) =~= self.katas@.subrange(0, i as int).map_values(|k: Kata| k.name@),
            decreases self.katas.len() - i,
        {
            let ghost r0 = r@;
            r.push(self.katas[i].name.clone());
            proof {
                let f = |k: Kata| k.name@;
                let ext = self.katas@.subrange(0, i + 1);
                assert(r@ == r0.push(self.katas@[i as int].name));
                assert(views_of(r0).len() == i as int);
                assert(r0.len() == i as int);
                assert(r@.len() == i + 1);
                assert(views_of(r@).len() == r@.len());
                assert(views_of(r@).len() == i + 1);
                assert(ext.map_values(f).len() == i + 1);
                let mapped = ext.map_values(f);
                assert forall|j: int| 0 <= j < i + 1 implies views_of(r@)[j] == mapped[j] by {
                    assert(views_of(r@)[j] == r@[j]@);
                    assert(mapped[j] == f(ext[j]));
                    assert(ext[j] == self.katas@[j]);
                    if j < i {
                        assert(r@[j] == r0[j]);
                        assert(r0[j]@ == views_of(r0)[j]);
                    } else {
                        assert(r@[j] == self.katas@[i as int].name);
                    }
                }
                assert(views_of(r@) =~= ext.map_values(f));
            }
            i = i + 1;
        }
        proof {
            assert(self.katas@.subrange(0, self.katas@.len() as int) =~= self.katas@);
        }
        r
    }

    /// Whether the workspace holds a kata of that name.
    pub fn contains(&self, kata_name: &str) -> (r: bool)
        ensures
            r == has_kata(self.katas@, kata_name@),
    {
        let mut i: usize = 0;
        while i < self.katas.len()
            invariant
                0 <= i <= self.katas.len(),
                forall|j: int| 0 <= j < i ==> #[trigger] self.katas@[j].name@ != kata_name@,
            decreases self.katas.len() - i,
        {
            if str_eq(self.katas[i].name.as_str(), kata_name) {
                return true;
            }
            i = i + 1;
        }
        false
    }

    /// Adds a kata of that name: an existing kata is reported and nothing
    /// changes; otherwise the kata, resolved against the katas directory,
    /// is appended and returned. Creating the folder is the caller's side.
    pub fn add(&mut self, kata_name: &str, kata_exists: bool) -> (r: Result<Kata, String>)
        ensures
            r is Err <==> kata_exists,
            r matches Err(message) ==> message@ == "Kata "@ + kata_name@ + " already exists"@
                && workspace_eq(*final(self), *old(self)),
            r matches Ok(kata) ==> {
                &&& kata.name@ == kata_name@
                &&& kata.path@ == kata_path_spec(kata_name@, old(self).katas_dir@)
                &&& final(self).katas@ == old(self).katas@.push(kata)
                &&& final(self).name == old(self).name
                &&& final(self).path == old(self).path
                &&& final(self).remote == old(self).remote
                &&& final(self).author == old(self).author
                &&& final(self).katas_dir == old(self).katas_dir
                &&& final(self).days_dir == old(self).days_dir
            },
    {
        if kata_exists {
            let mut message = String::from_str("Kata ");
            message.append(kata_name);
            message.append(" already exists");
            proof {
                assert(message@ =~= "Kata "@ + kata_name@ + " already exists"@);
            }
            return Err(message);
        }
        let kata = Kata {
            name: String::from_str(kata_name),
            path: get_kata_path(kata_name, self.katas_dir.as_str()),
        };
        let out = kata.duplicate();
        self.katas.push(kata);
        Ok(out)
    }

    /// The path of the given day inside this workspace's days directory.
    pub fn curday_path(&self, day: u32) -> (r: String)
        ensures
            r@ == day_path(self.days_dir@, day as nat),
    {
        crate::days::curday_path(self.days_dir.as_str(), day)
    }

    /// The path of the day after the given one.
    pub fn nextday_path(&self, day: u32) -> (r: String)
        requires
            day < u32::MAX,
        ensures
            r@ == day_path(self.days_dir@, day as nat + 1),
    {
        crate::days::nextday_path(self.days_dir.as_str(), day)
    }

    /// The path of a kata inside the given day of this workspace.
    pub fn curday_kata_path(&self, day: u32, kata_name: &String) -> (r: String)
        ensures
            r@ == day_path(self.days_dir@, day as nat) + seq!['/'] + kata_name@,
    {
        crate::days::curday_kata_path(self.days_dir.as_str(), day, kata_name.as_str())
    }
}

/// A workspace is named after the final component of its path. The path
/// must carry one, and it must be a real name (not `.` or `..`): on any
/// other path the original tool gives up rather than answer.
pub fn workspace_name(path: &str) -> (r: String)
    requires
        base_of(path@).len() > 0,
        base_of(path@) != seq!['.', '.'],
        base_of(path@) != seq!['.'],
    ensures
        r@ == base_of(path@),
{
    basename(path)
}

/// The directory the choice stands for: the explicit argument wins, then
/// the environment's value, then the config file's entry, then the
/// default.
pub open spec fn chosen_dir(
    arg: Option<String>,
    env: Option<String>,
    config: Option<String>,
    default: Seq<char>,
) -> Seq<char> {
    if arg is Some {
        arg->0@
    } else if env is Some {
        env->0@
    } else if config is Some {
        config->0@
    } else {
        default
    }
}

/// The days directory: the `--days-dir` argument wins, then the `DAYS_DIR`
/// environment value, then the config file's entry, then the default; a
/// relative result is placed under the current directory, and the path is
/// cleaned. Under an absolute current directory the result is absolute.
pub fn days_dir(arg: &Option<String>, env: &Option<String>, config: &Option<String>, cwd: &str)
    -> (r: String)
    ensures
        r@ == resolved_under(cwd@, chosen_dir(*arg, *env, *config, DEF_DAYS_DIR@)),
        is_absolute(cwd@) ==> is_absolute(r@),
{
    let picked: &str = match arg {
        Some(dir) => dir.as_str(),
        None => match env {
            Some(dir) => dir.as_str(),
            None => match config {
                Some(dir) => dir.as_str(),
                None => DEF_DAYS_DIR,
            },
        },
    };
    resolve_under(cwd, picked)
}

/// The katas directory: the `--katas-dir` argument wins, then the
/// `KATAS_DIR` environment value, then the config file's entry, then the
/// default; a relative result is placed under the current directory, and
/// the path is cleaned. Under an absolute current directory the result is
/// absolute.
pub fn katas_dir(arg: &Option<String>, env: &Option<String>, config: &Option<String>, cwd: &str)
    -> (r: String)
    ensures
        r@ == resolved_under(cwd@, chosen_dir(*arg, *env, *config, DEF_KATAS_DIR@)),
        is_absolute(cwd@) ==> is_absolute(r@),
{
    let picked: &str = match arg {
        Some(dir) => dir.as_str(),
        None => match env {
            Some(dir) => dir.as_str(),
            None => match config {
                Some(dir) => dir.as_str(),
                None => DEF_KATAS_DIR,
            },
        },
    };
    resolve_under(cwd, picked)
}

/// Resolves a kata name against the katas directory.
pub fn get_kata_path(kata_name: &str, katas_dir: &str) -> (r: String)
    ensures
        r@ == kata_path_spec(kata_name@, katas_dir@),
{
    kata_path(kata_name, katas_dir)
}

/// The pieces joined with the separator between them.
pub open spec fn join_with(parts: Seq<Seq<char>>, c: char) -> Seq<char>
    decreases parts.len(),
{
    if parts.len() == 0 {
        Seq::<char>::empty()
    } else if parts.len() == 1 {
        parts[0]
    } else {
        parts[0] + seq![c] + join_with(parts.drop_first(), c)
    }
}

/// Index of the first piece equal to `name` (the length when none is).
pub open spec fn first_eq_index(parts: Seq<Seq<char>>, name: Seq<char>) -> int
    decreases parts.len(),
{
    if parts.len() == 0 {
        0
    } else if parts[0] == name {
        0
    } else {
        1 + first_eq_index(parts.drop_first(), name)
    }
}

/// Some piece equals `name`.
pub open spec fn has_piece(parts: Seq<Seq<char>>, name: Seq<char>) -> bool {
    exists|i: int| 0 <= i < parts.len() && parts[i] == name
}

/// `first_eq_index` points at the first equal piece, or past the end.
proof fn lemma_first_eq_index(parts: Seq<Seq<char>>, name: Seq<char>)
    ensures
        has_piece(parts, name) ==> 0 <= first_eq_index(parts, name) < parts.len() && parts[
            first_eq_index(parts, name)] == name,
        has_piece(parts, name) ==> forall|j: int|
            0 <= j < first_eq_index(parts, name) ==> parts[j] != name,
        !has_piece(parts, name) ==> first_eq_index(parts, name) == parts.len(),
    decreases parts.len(),
{
    if parts.len() > 0 && parts[0] != name {
        lemma_first_eq_index(parts.drop_first(), name);
        if has_piece(parts, name) {
            let w = choose|i: int| 0 <= i < parts.len() && parts[i] == name;
            assert(parts.drop_first()[w - 1] == name);
            assert(has_piece(parts.drop_first(), name));
            assert forall|j: int| 0 <= j < first_eq_index(parts, name) implies parts[j] != name by {
                if j > 0 {
                    assert(parts.drop_first()[j - 1] == parts[j]);
                }
            }
        } else {
            if has_piece(parts.drop_first(), name) {
                let w = choose|i: int|
                    0 <= i < parts.drop_first().len() && parts.drop_first()[i] == name;
                assert(parts[w + 1] == name);
            }
        }
    }
}

/// The pieces of the vector from `from` on, joined with `/`.
fn join_from(parts: &Vec<String>, from: usize) -> (r: String)
    requires
        from <= parts@.len(),
    ensures
        r@ == join_with(views_of(parts@).skip(from as int), '/'),
    decreases parts@.len() - from,
{
    let ghost rest = views_of(parts@).skip(from as int);
    if from == parts.len() {
        assert(rest =~= Seq::<Seq<char>>::empty());
        String::new()
    } else if from == parts.len() - 1 {
        assert(rest[0] == views_of(parts@)[from as int]);
        parts[from].clone()
    } else {
        let mut r = parts[from].clone();
        r.append("/");
        let tail = join_from(parts, from + 1);
        r.append(tail.as_str());
        proof {
            reveal_strlit("/");
            assert(rest.drop_first() =~= views_of(parts@).skip(from + 1));
            assert(rest[0] == views_of(parts@)[from as int]);
            assert(r@ =~= join_with(rest, '/'));
        }
        r
    }
}

/// The path below the component named after the workspace: what follows
/// the first `/`-separated piece equal to the workspace name.
pub fn workspace_relative_path(workspace_name: &str, path: &str) -> (r: String)
    requires
        has_piece(split_spec(path@, '/'), workspace_name@),
    ensures
        r@ == join_with(
            split_spec(path@, '/').skip(
                first_eq_index(split_spec(path@, '/'), workspace_name@) + 1,
            ),
            '/',
        ),
{
    let parts = split_char(path, '/');
    let ghost all = views_of(parts@);
    proof {
        lemma_first_eq_index(all, workspace_name@);
    }
    let mut i: usize = 0;
    while i < parts.len()
        invariant
            0 <= i <= parts.len(),
            all == views_of(parts@),
            all == split_spec(path@, '/'),
            has_piece(all, workspace_name@),
            forall|j: int| 0 <= j < i ==> all[j] != workspace_name@,
            0 <= first_eq_index(all, workspace_name@) < all.len(),
            parts@.len() == all.len(),
        decreases parts.len() - i,
    {
        if str_eq(parts[i].as_str(), workspace_name) {
            proof {
                lemma_first_eq_index(all, workspace_name@);
                let fi = first_eq_index(all, workspace_name@);
                if fi < i as int {
                    assert(all[fi] != workspace_name@);
                    assert(false);
                }
                if fi > i as int {
                    assert(all[i as int] != workspace_name@);
                    assert(false);
                }
            }
            return join_from(&parts, i + 1);
        }
        i = i + 1;
    }
    proof {
        let fi = first_eq_index(all, workspace_name@);
        assert(all[fi] != workspace_name@);
        assert(false);
    }
    join_from(&parts, 0)
}

} // verus!
