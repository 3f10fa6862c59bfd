use vstd::prelude::*;

use crate::station::Station;

verus! {

/// The stations last fetched for one postcode, in fetch order.
pub struct PostcodeEntry {
    pub postcode: String,
    pub stations: Vec<Station>,
}

/// Mapping from postcode to the stations last fetched for it.
///
/// Entries are kept in order of first insertion; postcodes are unique.
pub struct PriceStore {
    entries: Vec<PostcodeEntry>,
}

impl PriceStore {
    /// The entries, in order of first insertion.
    pub closed spec fn entries(&self) -> Seq<PostcodeEntry> {
        self.entries@
    }

    /// No postcode appears twice.
    pub open spec fn wf(&self) -> bool {
        forall|i: int, j: int|
            0 <= i < j < self.entries().len() ==> #[trigger] self.entries()[i].postcode@
                != #[trigger] self.entries()[j].postcode@
    }

    /// Whether some entry is keyed by `postcode`.
    pub open spec fn has_postcode(&self, postcode: Seq<char>) -> bool {
        exists|i: int| 0 <= i < self.entries().len() && #[trigger] self.entries()[i].postcode@ == postcode
    }

    /// An empty store.
    pub fn new() -> (r: PriceStore)
        ensures
            r.wf(),
            r.entries().len() == 0,
    {
        PriceStore { entries: Vec::new() }
    }

    /// Number of postcodes held.
    pub fn len(&self) -> (r: usize)
        ensures
            r == self.entries().len(),
    {
        self.entries.len()
    }

    /// The entry at position `i`.
    pub fn entry(&self, i: usize) -> (r: &PostcodeEntry)
        requires
            i < self.entries().len(),
        ensures
            *r == self.entries()[i as int],
    {
        &self.entries[i]
    }

    /// Stores `stations` under `postcode`, replacing the entry for that
    /// postcode if there is one, and otherwise adding it at the end.
    pub fn insert(&mut self, postcode: String, stations: Vec<Station>)
        requires
            old(self).wf(),
        ensures
            final(self).wf(),
            final(self).has_postcode(postcode@),
            ({
                let e = PostcodeEntry { postcode, stations };
                if old(self).has_postcode(postcode@) {
                    exists|i: int|
                        0 <= i < old(self).entries().len()
                            && old(self).entries()[i].postcode@ == postcode@
                            && final(self).entries() == old(self).entries().update(i, e)
                } else {
                    final(self).entries() == old(self).entries().push(e)
                }
            }),
    {
        let mut i: usize = 0;
        while i < self.entries.len()
            invariant
                i <= self.entries@.len(),
                old(self).wf(),
                self.entries@ == old(self).entries@,
                forall|k: int| 0 <= k < i ==> #[trigger] self.entries@[k].postcode@ != postcode@,
            decreases self.entries@.len() - i,
        {
            if self.entries[i].postcode == postcode {
                let ghost before = self.entries@;
                let ghost e = PostcodeEntry { postcode, stations };
                self.entries.set(i, PostcodeEntry { postcode, stations });
                assert(self.entries@ =~= before.update(i as int, e));
                assert(self.entries()[i as int].postcode@ == postcode@);
                assert(forall|k: int|
                    0 <= k < self.entries@.len() && k != i ==> #[trigger] self.entries@[k]
                        == before[k]);
                assert forall|a: int, b: int|
                    0 <= a < b < self.entries@.len() implies #[trigger] self.entries@[a].postcode@
                        != #[trigger] self.entries@[b].postcode@ by {
                    if a != i && b != i {
                        assert(old(self).entries()[a].postcode@ != old(self).entries()[b].postcode@);
                    }
                    if a < i {
                        assert(before[a].postcode@ != postcode@);
                    } else if a > i {
                        assert(old(self).entries()[i as int].postcode@ != old(self).entries()[a].postcode@);
                    }
                    if b < i {
                        assert(before[b].postcode@ != postcode@);
                    } else if b > i {
                        assert(old(self).entries()[i as int].postcode@ != old(self).entries()[b].postcode@);
                    }
                }
                return;
            }
            i += 1;
        }
        let ghost before = self.entries@;
        let ghost e = PostcodeEntry { postcode, stations };
        self.entries.push(PostcodeEntry { postcode, stations });
        assert(self.entries@ =~= before.push(e));
        assert(self.entries()[before.len() as int].postcode@ == postcode@);
        assert(forall|k: int| 0 <= k < before.len() ==> #[trigger] self.entries@[k] == before[k]);
        assert forall|a: int, b: int|
            0 <= a < b < self.entries@.len() implies #[trigger] self.entries@[a].postcode@
                != #[trigger] self.entries@[b].postcode@ by {
            if b < before.len() {
                assert(old(self).entries()[a].postcode@ != old(self).entries()[b].postcode@);
            }
        }
    }
}

} // verus!
