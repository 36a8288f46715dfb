//! The global config record: the list of workspaces kept in the per-user
//! config file. Reading and writing the file itself is the caller's side;
//! the operations here say exactly how the list changes.

use vstd::prelude::*;

use crate::Kata;
use crate::text::{str_eq, views_of};
use crate::workspaces::{Workspace, workspace_eq};

verus! {

/// The global config record: where it lives and the workspaces it holds.
pub struct GlobalConfigFile {
    pub path: String,
    pub workspaces: Vec<Workspace>,
}

/// The list holds a workspace of that name.
pub open spec fn has_workspace(list: Seq<Workspace>, name: Seq<char>) -> bool {
    exists|i: int| 0 <= i < list.len() && #[trigger] list[i].name@ == name
}

/// Index of the first workspace of that name (the length when none is).
pub open spec fn first_workspace_index(list: Seq<Workspace>, name: Seq<char>) -> int
    decreases list.len(),
{
    if list.len() == 0 {
        0
    } else if list[0].name@ == name {
        0
    } else {
        1 + first_workspace_index(list.drop_first(), name)
    }
}

/// `first_workspace_index` points at the first match, or past the end.
proof fn lemma_first_workspace_index(list: Seq<Workspace>, name: Seq<char>)
    ensures
        has_workspace(list, name) ==> 0 <= first_workspace_index(list, name) < list.len() && list[
            first_workspace_index(list, name)].name@ == name,
        has_workspace(list, name) ==> forall|j: int|
            0 <= j < first_workspace_index(list, name) ==> #[trigger] list[j].name@ != name,
        !has_workspace(list, name) ==> first_workspace_index(list, name) == list.len(),
    decreases list.len(),
{
    if list.len() > 0 && list[0].name@ != name {
        lemma_first_workspace_index(list.drop_first(), name);
        if has_workspace(list, name) {
            let w = choose|i: int| 0 <= i < list.len() && #[trigger] list[i].name@ == name;
            assert(list.drop_first()[w - 1].name@ == name);
            assert(has_workspace(list.drop_first(), name));
            assert forall|j: int|
                0 <= j < first_workspace_index(list, name) implies #[trigger] list[j].name@
                != name by {
                if j > 0 {
                    assert(list.drop_first()[j - 1] == list[j]);
                }
            }
        } else {
            if has_workspace(list.drop_first(), name) {
                let w = choose|i: int|
                    0 <= i < list.drop_first().len() && #[trigger] list.drop_first()[i].name@
                        == name;
                assert(list[w + 1].name@ == name);
            }
        }
    }
}

impl GlobalConfigFile {
    /// A global config record assembled from loaded values.
    pub fn new(path: String, workspaces: Vec<Workspace>) -> (r: GlobalConfigFile)
        ensures
            r.path == path,
            r.workspaces@ == workspaces@,
    {
        GlobalConfigFile { path, workspaces }
    }

    /// Whether the record holds a workspace of that name.
    pub fn contains_workspace(&self, name: &str) -> (r: bool)
        ensures
            r == has_workspace(self.workspaces@, name@),
    {
        let mut i: usize = 0;
        while i < self.workspaces.len()
            invariant
                0 <= i <= self.workspaces.len(),
                forall|j: int| 0 <= j < i ==> #[trigger] self.workspaces@[j].name@ != name@,
            decreases self.workspaces.len() - i,
        {
            if str_eq(self.workspaces[i].name.as_str(), name) {
                return true;
            }
            i = i + 1;
        }
        false
    }

    /// Appends the workspace; one of the same name is reported and nothing
    /// changes. Workspace names stay unique this way.
    pub fn add_workspace(&mut self, ws: &Workspace) -> (r: Result<(), String>)
        ensures
            r is Err <==> has_workspace(old(self).workspaces@, ws.name@),
            r matches Err(message) ==> message@ == "Workspace already exists"@ && final(self).workspaces@ == old(self).workspaces@ && final(self).path == old(self).path,
            r is Ok ==> {
                &&& final(self).workspaces@.len() == old(self).workspaces@.len() + 1
                &&& final(self).workspaces@.subrange(0, old(self).workspaces@.len() as int) == old(self).workspaces@
                &&& workspace_eq(final(self).workspaces@.last(), *ws)
                &&& final(self).path == old(self).path
            },
    {
        if self.contains_workspace(ws.name.as_str()) {
            return Err(String::from_str("Workspace already exists"));
        }
        self.workspaces.push(ws.duplicate());
        proof {
            assert(final(self).workspaces@.subrange(0, old(self).workspaces@.len() as int)
                =~= old(self).workspaces@);
        }
        Ok(())
    }

    /// The names of the workspaces, in order.
    pub fn list_workspaces(&self) -> (r: Vec<String>)
        ensures
            views_of(r@) == self.workspaces@.map_values(|w: Workspace| w.name@),
    {
        let mut r: Vec<String> = Vec::new();
        let mut i: usize = 0;
        while i < self.workspaces.len()
            invariant
                0 <= i <= self.workspaces.len(),
                views_of(r@) =~= self.workspaces@.subrange(0, i as int).map_values(
                    |w: Workspace| w.name@,
                ),
            decreases self.workspaces.len() - i,
        {
            let ghost r0 = r@;
            r.push(self.workspaces[i].name.clone());
            proof {
                let f = |w: Workspace| w.name@;
                let ext = self.workspaces@.subrange(0, i + 1);
                assert(r@ == r0.push(self.workspaces@[i as int].name));
                assert(views_of(r0).len() == i as int);
                assert(r0.len() == i as int);
                assert(views_of(r@).len() == i + 1);
                let mapped = ext.map_values(f);
                assert(mapped.len() == i + 1);
                assert forall|j: int| 0 <= j < i + 1 implies views_of(r@)[j] == mapped[j] by {
                    assert(views_of(r@)[j] == r@[j]@);
                    assert(mapped[j] == f(ext[j]));
                    assert(ext[j] == self.workspaces@[j]);
                    if j < i {
                        assert(r@[j] == r0[j]);
                        assert(r0[j]@ == views_of(r0)[j]);
                    } else {
                        assert(r@[j] == self.workspaces@[i as int].name);
                    }
                }
                assert(views_of(r@) =~= mapped);
            }
            i = i + 1;
        }
        proof {
            assert(self.workspaces@.subrange(0, self.workspaces@.len() as int)
                =~= self.workspaces@);
        }
        r
    }

    /// Removes every workspace of that name; the others keep their order.
    pub fn remove_workspace(&mut self, name: &str)
        ensures
            final(self).workspaces@ == old(self).workspaces@.filter(
                (|w: Workspace| w.name@ != name@),
            ),
            final(self).path == old(self).path,
    {
        let ghost keep = |w: Workspace| w.name@ != name@;
        let ghost orig = old(self).workspaces@;
        let mut i: usize = 0;
        let ghost mut k: int = 0;
        proof {
            reveal(Seq::filter);
            assert(orig.subrange(0, 0).filter(keep) =~= Seq::<Workspace>::empty());
            assert(orig.skip(0) =~= orig);
            assert(self.workspaces@ =~= orig.subrange(0, 0).filter(keep) + orig.skip(0));
        }
        while i < self.workspaces.len()
            invariant
                0 <= k <= orig.len(),
                orig == old(self).workspaces@,
                self.path == old(self).path,
                self.workspaces@ == orig.subrange(0, k).filter(keep) + orig.skip(k),
                i == orig.subrange(0, k).filter(keep).len(),
                keep == (|w: Workspace| w.name@ != name@),
            decreases self.workspaces@.len() - i,
        {
            let ghost prefix = orig.subrange(0, k).filter(keep);
            proof {
                assert(self.workspaces@[i as int] == orig.skip(k)[0]);
                assert(orig.skip(k)[0] == orig[k]);
                reveal(Seq::filter);
                assert(orig.subrange(0, k + 1).drop_last() =~= orig.subrange(0, k));
                assert(orig.subrange(0, k + 1).last() == orig[k]);
            }
            if str_eq(self.workspaces[i].name.as_str(), name) {
                let _ = self.workspaces.remove(i);
                proof {
                    assert(self.workspaces@ =~= prefix + orig.skip(k + 1));
                    assert(orig.subrange(0, k + 1).filter(keep) == prefix);
                }
            } else {
                proof {
                    assert(orig.subrange(0, k + 1).filter(keep) == prefix.push(orig[k]));
                    assert(self.workspaces@ =~= orig.subrange(0, k + 1).filter(keep) + orig.skip(
                        k + 1,
                    ));
                }
                i = i + 1;
            }
            proof {
                k = k + 1;
            }
        }
        proof {
            assert(orig.skip(k).len() == 0);
            assert(k == orig.len());
            assert(orig.subrange(0, orig.len() as int) =~= orig);
            assert(self.workspaces@ =~= orig.filter(keep));
            assert(keep =~= (|w: Workspace| w.name@ != name@));
        }
    }

    /// An owned copy of the first workspace of that name, if any.
    pub fn find_workspace(&self, name: &str) -> (r: Option<Workspace>)
        ensures
            r is Some <==> has_workspace(self.workspaces@, name@),
            r matches Some(w) ==> workspace_eq(
                w,
                self.workspaces@[first_workspace_index(self.workspaces@, name@)],
            ),
    {
        proof {
            lemma_first_workspace_index(self.workspaces@, name@);
        }
        let mut i: usize = 0;
        while i < self.workspaces.len()
            invariant
                0 <= i <= self.workspaces.len(),
                forall|j: int| 0 <= j < i ==> #[trigger] self.workspaces@[j].name@ != name@,
            decreases self.workspaces.len() - i,
        {
            if str_eq(self.workspaces[i].name.as_str(), name) {
                proof {
                    assert(has_workspace(self.workspaces@, name@));
                    lemma_first_workspace_index(self.workspaces@, name@);
                    let fi = first_workspace_index(self.workspaces@, name@);
                    if fi < i as int {
                        assert(self.workspaces@[fi].name@ != name@);
                        assert(false);
                    }
                    if fi > i as int {
                        assert(self.workspaces@[i as int].name@ != name@);
                        assert(false);
                    }
                }
                return Some(self.workspaces[i].duplicate());
            }
            i = i + 1;
        }
        None
    }

    /// Replaces the first workspace named like the given one; without a
    /// match nothing changes.
    pub fn update_workspace(&mut self, ws: &Workspace)
        ensures
            has_workspace(old(self).workspaces@, ws.name@) ==> {
                &&& final(self).workspaces@.len() == old(self).workspaces@.len()
                &&& workspace_eq(
                    final(self).workspaces@[first_workspace_index(
                        old(self).workspaces@,
                        ws.name@,
                    )],
                    *ws,
                )
                &&& forall|j: int|
                    0 <= j < old(self).workspaces@.len() && j != first_workspace_index(
                        old(self).workspaces@,
                        ws.name@,
                    ) ==> final(self).workspaces@[j] == old(self).workspaces@[j]
            },
            !has_workspace(old(self).workspaces@, ws.name@) ==> final(self).workspaces@ == old(self).workspaces@,
            final(self).path == old(self).path,
    {
        proof {
            lemma_first_workspace_index(self.workspaces@, ws.name@);
        }
        let mut i: usize = 0;
        while i < self.workspaces.len()
            invariant
                0 <= i <= self.workspaces.len(),
                self.workspaces@ == old(self).workspaces@,
                self.path == old(self).path,
                forall|j: int| 0 <= j < i ==> #[trigger] self.workspaces@[j].name@ != ws.name@,
            decreases self.workspaces.len() - i,
        {
            if str_eq(self.workspaces[i].name.as_str(), ws.name.as_str()) {
                proof {
                    assert(has_workspace(self.workspaces@, ws.name@));
                    lemma_first_workspace_index(self.workspaces@, ws.name@);
                    let fi = first_workspace_index(self.workspaces@, ws.name@);
                    if fi < i as int {
                        assert(self.workspaces@[fi].name@ != ws.name@);
                        assert(false);
                    }
                    if fi > i as int {
                        assert(self.workspaces@[i as int].name@ != ws.name@);
                        assert(false);
                    }
                }
                self.workspaces.set(i, ws.duplicate());
                return ;
            }
            i = i + 1;
        }
    }

    /// All katas of all workspaces, workspace by workspace.
    pub fn all_katas(&self) -> (r: Vec<Kata>)
        ensures
            r@ == self.workspaces@.map_values(|w: Workspace| w.katas@).flatten(),
    {
        broadcast use vstd::seq_lib::group_seq_properties;

        let ghost lists = self.workspaces@.map_values(|w: Workspace| w.katas@);
        let mut r: Vec<Kata> = Vec::new();
        let mut i: usize = 0;
        proof {
            assert(self.workspaces@.subrange(0, 0).map_values(|w: Workspace| w.katas@)
                =~= Seq::<Seq<Kata>>::empty());
            assert(Seq::<Seq<Kata>>::empty().flatten() =~= Seq::<Kata>::empty());
        }
        while i < self.workspaces.len()
            invariant
                0 <= i <= self.workspaces.len(),
                r@ == self.workspaces@.subrange(0, i as int).map_values(
                    |w: Workspace| w.katas@,
                ).flatten(),
            decreases self.workspaces.len() - i,
        {
            let ghost prefix = self.workspaces@.subrange(0, i as int).map_values(
                |w: Workspace| w.katas@,
            );
            let mut next = crate::workspaces::clone_katas(&self.workspaces[i].katas);
            let ghost elem = self.workspaces@[i as int].katas@;
            r.append(&mut next);
            proof {
                prefix.lemma_flatten_push(elem);
                assert(self.workspaces@.subrange(0, i + 1).map_values(|w: Workspace| w.katas@)
                    =~= prefix.push(elem));
                assert(r@ == prefix.push(elem).flatten());
            }
            i = i + 1;
        }
        proof {
            assert(self.workspaces@.subrange(0, self.workspaces@.len() as int)
                =~= self.workspaces@);
        }
        r
    }
}

/// A named kata repository record.
pub struct Repo {
    pub name: String,
    pub path: String,
    pub author: String,
    pub katas: Vec<String>,
}

} // verus!
