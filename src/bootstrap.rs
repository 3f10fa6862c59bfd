use vstd::prelude::*;

use crate::station::Station;
use crate::store::{PostcodeEntry, PriceStore};

verus! {

/// What the startup sequence asks for next.
pub enum BootAction {
    /// Fetch the stations of this postcode and report the outcome.
    Fetch(String),
    /// Every postcode is loaded: start serving the store.
    Serve,
    /// A fetch failed: stop without serving.
    Abort,
}

/// The startup sequence: postcodes are fetched one at a time, in the
/// configured order, and each result is stored before the next fetch. A
/// single failed fetch aborts the whole sequence; the store is handed out
/// for serving only once every postcode has loaded.
pub struct Bootstrap {
    postcodes: Vec<String>,
    loaded: usize,
    failed: bool,
    store: PriceStore,
}

impl Bootstrap {
    /// The configured postcodes, in fetch order.
    pub closed spec fn postcodes(&self) -> Seq<String> {
        self.postcodes@
    }

    /// How many postcodes, from the front, have been fetched and stored.
    pub closed spec fn loaded(&self) -> nat {
        self.loaded as nat
    }

    /// Whether a fetch has failed.
    pub closed spec fn failed(&self) -> bool {
        self.failed
    }

    /// The store as filled so far.
    pub closed spec fn store(&self) -> PriceStore {
        self.store
    }

    /// Every postcode has loaded and none failed.
    pub open spec fn is_complete(&self) -> bool {
        !self.failed() && self.loaded() == self.postcodes().len()
    }

    pub open spec fn wf(&self) -> bool {
        &&& self.loaded() <= self.postcodes().len()
        &&& self.store().wf()
        &&& forall|k: int|
            0 <= k < self.loaded() ==> self.store().has_postcode(
                #[trigger] self.postcodes()[k]@,
            )
    }

    /// A sequence over `postcodes`, with nothing fetched yet and an empty store.
    pub fn new(postcodes: Vec<String>) -> (r: Bootstrap)
        ensures
            r.wf(),
            r.postcodes() == postcodes@,
            r.loaded() == 0,
            !r.failed(),
            r.store().entries().len() == 0,
    {
        Bootstrap { postcodes, loaded: 0, failed: false, store: PriceStore::new() }
    }

    /// The next step: abort after a failure, otherwise fetch the first
    /// postcode not yet loaded, or serve once all have loaded.
    pub fn next_action(&self) -> (r: BootAction)
        requires
            self.wf(),
        ensures
            match r {
                BootAction::Abort => self.failed(),
                BootAction::Serve => self.is_complete(),
                BootAction::Fetch(p) => !self.failed() && self.loaded() < self.postcodes().len()
                    && p@ == self.postcodes()[self.loaded() as int]@,
            },
    {
        if self.failed {
            BootAction::Abort
        } else if self.loaded < self.postcodes.len() {
            BootAction::Fetch(self.postcodes[self.loaded].clone())
        } else {
            BootAction::Serve
        }
    }

    /// Records the stations fetched for the postcode that was asked for,
    /// and moves on to the next one.
    pub fn on_fetched(&mut self, stations: Vec<Station>)
        requires
            old(self).wf(),
            !old(self).failed(),
            old(self).loaded() < old(self).postcodes().len(),
        ensures
            final(self).wf(),
            !final(self).failed(),
            final(self).postcodes() == old(self).postcodes(),
            final(self).loaded() == old(self).loaded() + 1,
            final(self).store().has_postcode(old(self).postcodes()[old(self).loaded() as int]@),
            ({
                let p = old(self).postcodes()[old(self).loaded() as int]@;
                let before = old(self).store().entries();
                let after = final(self).store().entries();
                if old(self).store().has_postcode(p) {
                    &&& after.len() == before.len()
                    &&& exists|i: int|
                        0 <= i < before.len() && #[trigger] before[i].postcode@ == p
                            && after[i].postcode@ == p && after[i].stations@ == stations@
                            && forall|j: int|
                            0 <= j < before.len() && j != i ==> #[trigger] after[j] == before[j]
                } else {
                    &&& after.drop_last() == before
                    &&& after.len() == before.len() + 1
                    &&& after.last().postcode@ == p
                    &&& after.last().stations@ == stations@
                }
            }),
    {
        let n = self.postcodes.len();
        let postcode = self.postcodes[self.loaded].clone();
        let ghost before = self.store;
        self.store.insert(postcode, stations);
        assert forall|k: int| 0 <= k < self.loaded + 1 implies self.store.has_postcode(
            #[trigger] self.postcodes@[k]@,
        ) by {
            if k < self.loaded {
                assert(before.has_postcode(self.postcodes@[k]@));
                let i = choose|i: int|
                    0 <= i < before.entries().len() && #[trigger] before.entries()[i].postcode@
                        == self.postcodes@[k]@;
                if before.has_postcode(postcode@) {
                    let j = choose|j: int|
                        0 <= j < before.entries().len() && before.entries()[j].postcode@
                            == postcode@ && self.store.entries() == before.entries().update(
                            j,
                            PostcodeEntry { postcode, stations },
                        );
                    if i == j {
                        assert(self.store.entries()[j].postcode@ == postcode@);
                    } else {
                        assert(self.store.entries()[i] == before.entries()[i]);
                    }
                } else {
                    assert(self.store.entries()[i] == before.entries()[i]);
                }
            }
        }
        proof {
            let after = self.store.entries();
            if before.has_postcode(postcode@) {
                let j = choose|j: int|
                    0 <= j < before.entries().len() && before.entries()[j].postcode@ == postcode@
                        && after == before.entries().update(j, PostcodeEntry { postcode, stations });
                assert(before.entries()[j].postcode@ == postcode@ && after[j].postcode@ == postcode@
                    && after[j].stations@ == stations@ && forall|k: int|
                    0 <= k < before.entries().len() && k != j ==> #[trigger] after[k]
                        == before.entries()[k]);
            } else {
                assert(after.drop_last() =~= before.entries());
            }
        }
        assert(self.loaded < n);
        self.loaded = self.loaded + 1;
    }

    /// Records that the fetch asked for failed: the sequence aborts.
    pub fn on_fetch_failed(&mut self)
        requires
            old(self).wf(),
        ensures
            final(self).wf(),
            final(self).failed(),
            final(self).postcodes() == old(self).postcodes(),
            final(self).loaded() == old(self).loaded(),
    {
        self.failed = true;
    }

    /// Hands out the filled store; only a complete sequence has one to give.
    pub fn into_store(self) -> (r: PriceStore)
        requires
            self.wf(),
            self.is_complete(),
        ensures
            r == self.store(),
            r.wf(),
            forall|k: int|
                0 <= k < self.postcodes().len() ==> r.has_postcode(
                    #[trigger] self.postcodes()[k]@,
                ),
    {
        self.store
    }
}

/// Once a fetch has failed the sequence only aborts: it never asks for
/// another fetch, never counts as complete, and so never hands out a store
/// to serve.
pub proof fn lemma_failure_never_serves(b: Bootstrap)
    requires
        b.wf(),
        b.failed(),
    ensures
        !b.is_complete(),
{
}

} // verus!
