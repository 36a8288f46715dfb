//! The global katas record: every kata added so far, kept in the per-user
//! katas file. Reading and writing the file is the caller's side.

use vstd::prelude::*;

use crate::Kata;
use crate::text::str_eq;
use crate::workspaces::clone_katas;

verus! {

/// The global katas record: where it lives and the katas it holds.
pub struct GlobalKatasFile {
    pub filepath: String,
    pub katas: Option<Vec<Kata>>,
}

/// The recorded katas as a sequence: none recorded counts as empty.
pub open spec fn recorded_katas(katas: Option<Vec<Kata>>) -> Seq<Kata> {
    match katas {
        Some(list) => list@,
        None => Seq::<Kata>::empty(),
    }
}

impl GlobalKatasFile {
    /// Appends a kata of that name and path to the record.
    pub fn save(&mut self, kata_name: &str, kata_path: String)
        ensures
            final(self).katas is Some,
            recorded_katas(final(self).katas).len() == recorded_katas(old(self).katas).len() + 1,
            recorded_katas(final(self).katas).subrange(
                0,
                recorded_katas(old(self).katas).len() as int,
            ) == recorded_katas(old(self).katas),
            recorded_katas(final(self).katas).last().name@ == kata_name@,
            recorded_katas(final(self).katas).last().path == kata_path,
            final(self).filepath == old(self).filepath,
    {
        let mut list = match &self.katas {
            Some(existing) => clone_katas(existing),
            None => Vec::new(),
        };
        list.push(Kata { name: String::from_str(kata_name), path: kata_path });
        proof {
            assert(list@.subrange(0, recorded_katas(old(self).katas).len() as int)
                =~= recorded_katas(old(self).katas));
        }
        self.katas = Some(list);
    }

    /// Whether a kata of that name is recorded.
    pub fn is_saved(&self, kata: &str) -> (r: bool)
        ensures
            r == exists|i: int|
                0 <= i < recorded_katas(self.katas).len() && (#[trigger] recorded_katas(
                    self.katas,
                )[i]).name@ == kata@,
    {
        match &self.katas {
            None => false,
            Some(list) => {
                let mut i: usize = 0;
                while i < list.len()
                    invariant
                        0 <= i <= list.len(),
                        list@ == recorded_katas(self.katas),
                        forall|j: int|
                            0 <= j < i ==> (#[trigger] recorded_katas(self.katas)[j]).name@
                                != kata@,
                    decreases list.len() - i,
                {
                    if str_eq(list[i].name.as_str(), kata) {
                        return true;
                    }
                    i = i + 1;
                }
                false
            },
        }
    }

    /// An owned copy of the recorded katas, in order.
    pub fn global_katas(&self) -> (r: Vec<Kata>)
        ensures
            r@ == recorded_katas(self.katas),
    {
        match &self.katas {
            None => Vec::new(),
            Some(list) => clone_katas(list),
        }
    }
}

} // verus!
