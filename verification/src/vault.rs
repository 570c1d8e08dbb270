//! The in-memory credential collection: records with assigned ids, an
//! append-only id counter, and removal by id.

use vstd::prelude::*;

verus! {

/// Mathematical model of one stored credential record.
#[verifier::ext_equal]
pub ghost struct VaultView {
    pub id: int,
    pub service: Seq<char>,
    pub username: Seq<char>,
    pub password: Seq<char>,
}

/// Mathematical model of the whole collection.
#[verifier::ext_equal]
pub ghost struct StoreView {
    pub next_id: int,
    pub items: Seq<VaultView>,
}

impl StoreView {
    /// Well-formedness: ids are positive, strictly below `next_id`, and
    /// pairwise distinct.  `next_id` therefore can never collide with an
    /// id already in the collection.
    pub open spec fn wf(self) -> bool {
        &&& 1 <= self.next_id
        &&& forall|i: int|
            0 <= i < self.items.len() ==> 1 <= (#[trigger] self.items[i]).id < self.next_id
        &&& forall|i: int, j: int|
            0 <= i < self.items.len() && 0 <= j < self.items.len() && i != j ==> (
            #[trigger] self.items[i]).id != (#[trigger] self.items[j]).id
    }

    /// The collection a first run starts from: no records, ids start at 1.
    pub open spec fn empty() -> StoreView {
        StoreView { next_id: 1, items: Seq::empty() }
    }
}

/// One stored credential record.
pub struct Vault {
    pub id: usize,
    pub service: String,
    pub username: String,
    pub password: String,
}

impl View for Vault {
    type V = VaultView;

    open spec fn view(&self) -> VaultView {
        VaultView {
            id: self.id as int,
            service: self.service@,
            username: self.username@,
            password: self.password@,
        }
    }
}

impl Vault {
    pub fn new(id: usize, service: String, username: String, password: String) -> (r: Self)
        ensures
            r@ == (VaultView { id: id as int, service: service@, username: username@, password: password@ }),
    {
        Self { id, service, username, password }
    }
}

/// The record collection, with its id counter.
pub struct Store {
    next_id: usize,
    vault_items: Vec<Vault>,
}

impl View for Store {
    type V = StoreView;

    closed spec fn view(&self) -> StoreView {
        StoreView {
            next_id: self.next_id as int,
            items: self.vault_items@.map_values(|v: Vault| v@),
        }
    }
}

impl Store {
    /// A fresh, empty collection: `next_id` is 1 and there are no records.
    pub fn new() -> (s: Store)
        ensures
            s@ == StoreView::empty(),
            s@.wf(),
    {
        let s = Store { next_id: 1, vault_items: Vec::new() };
        proof {
            assert(s@.items =~= Seq::<VaultView>::empty());
            assert(s@ =~= StoreView::empty());
        }
        s
    }

    /// Rebuild a collection from raw parts, e.g. as read from a file.
    /// The caller is responsible for checking well-formedness afterwards.
    pub fn from_parts(next_id: usize, vault_items: Vec<Vault>) -> (s: Store)
        ensures
            s@ == (StoreView {
                next_id: next_id as int,
                items: vault_items@.map_values(|v: Vault| v@),
            }),
    {
        Store { next_id, vault_items }
    }

    /// The id the next added record will receive.
    pub fn next_id(&self) -> (r: usize)
        ensures
            r as int == self@.next_id,
    {
        self.next_id
    }

    /// Runtime check of the model-level invariant, for data read from disk.
    pub fn check_wf(&self) -> (r: bool)
        ensures
            r == self@.wf(),
    {
        if self.next_id < 1 {
            return false;
        }
        let n = self.vault_items.len();
        let mut i: usize = 0;
        while i < n
            invariant
                n == self.vault_items.len(),
                i <= n,
                1 <= self.next_id,
                forall|p: int|
                    0 <= p < i ==> 1 <= (#[trigger] self@.items[p]).id < self@.next_id,
                forall|p: int, q: int|
                    0 <= p < i && 0 <= q < i && p != q ==> (#[trigger] self@.items[p]).id != (
                    #[trigger] self@.items[q]).id,
            decreases n - i,
        {
            proof {
                assert(self@.items[i as int] == self.vault_items@[i as int]@);
            }
            let vi = self.vault_items[i].id;
            if vi < 1 || vi >= self.next_id {
                return false;
            }
            let mut j: usize = 0;
            while j < i
                invariant
                    i < n,
                    n == self.vault_items.len(),
                    j <= i,
                    forall|q: int| 0 <= q < j ==> (#[trigger] self@.items[q]).id != vi as int,
                    vi == self.vault_items[i as int].id,
                decreases i - j,
            {
                proof {
                    assert(self@.items[j as int] == self.vault_items@[j as int]@);
                }
                if self.vault_items[j].id == vi {
                    proof {
                        assert(self@.items[j as int].id == self@.items[i as int].id);
                    }
                    return false;
                }
                j += 1;
            }
            i += 1;
        }
        true
    }

    /// Add a record: it receives id `next_id`, which is then incremented.
    /// The new id differs from every id already present.
    pub fn add(&mut self, service: String, username: String, password: String) -> (r: Vault)
        requires
            old(self)@.next_id < usize::MAX,
            1 <= old(self)@.next_id,
        ensures
            r@ == (VaultView {
                id: old(self)@.next_id,
                service: service@,
                username: username@,
                password: password@,
            }),
            final(self)@.next_id == old(self)@.next_id + 1,
            final(self)@.items == old(self)@.items.push(r@),
            old(self)@.wf() ==> final(self)@.wf(),
            old(self)@.wf() ==> forall|k: int|
                0 <= k < old(self)@.items.len() ==> (#[trigger] old(self)@.items[k]).id != r@.id,
    {
        let id = self.next_id;
        self.next_id = self.next_id + 1;
        let v = Vault::new(id, service, username, password);
        let ghost prev = self.vault_items@.map_values(|x: Vault| x@);
        self.vault_items.push(v);
        let r = Vault {
            id,
            service: self.vault_items[self.vault_items.len() - 1].service.clone(),
            username: self.vault_items[self.vault_items.len() - 1].username.clone(),
            password: self.vault_items[self.vault_items.len() - 1].password.clone(),
        };
        proof {
            assert(final(self)@.items =~= prev.push(final(self).vault_items@.last()@));
        }
        r
    }

    /// Remove the record with the given id, if present; report whether a
    /// removal happened.  `next_id` never decreases and ids are never reused.
    pub fn remove(&mut self, id: usize) -> (r: bool)
        ensures
            final(self)@.next_id == old(self)@.next_id,
            r == (exists|k: int|
                0 <= k < old(self)@.items.len() && (#[trigger] old(self)@.items[k]).id
                    == id as int),
            r ==> exists|k: int|
                0 <= k < old(self)@.items.len() && (#[trigger] old(self)@.items[k]).id == id as int
                    && final(self)@.items == old(self)@.items.remove(k),
            !r ==> final(self)@ == old(self)@,
            old(self)@.wf() ==> final(self)@.wf(),
    {
        let n = self.vault_items.len();
        let mut i: usize = 0;
        while i < n
            invariant
                self@ == old(self)@,
                n == self.vault_items.len(),
                i <= n,
                forall|p: int| 0 <= p < i ==> (#[trigger] self@.items[p]).id != id as int,
            decreases n - i,
        {
            proof {
                assert(self@.items[i as int] == self.vault_items@[i as int]@);
            }
            if self.vault_items[i].id == id {
                let ghost prev = self@;
                proof {
                    assert(prev.items[i as int].id == id as int);
                }
                self.vault_items.remove(i);
                proof {
                    assert(final(self)@.items =~= prev.items.remove(i as int));
                    if prev.wf() {
                        assert forall|p: int, q: int|
                            0 <= p < final(self)@.items.len() && 0 <= q < final(self)@.items.len()
                                && p != q implies (#[trigger] final(self)@.items[p]).id != (
                        #[trigger] final(self)@.items[q]).id by {
                            let p0 = if p < i as int { p } else { p + 1 };
                            let q0 = if q < i as int { q } else { q + 1 };
                            assert(final(self)@.items[p] == prev.items[p0]);
                            assert(final(self)@.items[q] == prev.items[q0]);
                        }
                        assert forall|p: int| 0 <= p < final(self)@.items.len() implies 1 <= (
                        #[trigger] final(self)@.items[p]).id < final(self)@.next_id by {
                            let p0 = if p < i as int { p } else { p + 1 };
                            assert(final(self)@.items[p] == prev.items[p0]);
                        }
                    }
                }
                return true;
            }
            i += 1;
        }
        proof {
            assert(final(self)@ =~= old(self)@);
        }
        false
    }

    /// All records, in insertion order.
    pub fn list(&self) -> (r: &Vec<Vault>)
        ensures
            r@.len() == self@.items.len(),
            forall|k: int| 0 <= k < r@.len() ==> (#[trigger] r@[k])@ == self@.items[k],
    {
        &self.vault_items
    }
}

/// The model of a real collection fits the machine: its counter and ids
/// are `usize` values.
pub proof fn lemma_view_fits(s: &Store)
    ensures
        0 <= s@.next_id <= usize::MAX as int,
        forall|i: int|
            0 <= i < s@.items.len() ==> 0 <= (#[trigger] s@.items[i]).id <= usize::MAX as int,
{
    assert forall|i: int|
        0 <= i < s@.items.len() implies 0 <= (#[trigger] s@.items[i]).id <= usize::MAX as int by {
        assert(s@.items[i] == s.vault_items@[i]@);
    }
}

/// No two records of a well-formed collection share an id, and every id is
/// strictly below `next_id`; together with the contracts of `add` and
/// `remove` this gives id monotonicity: ids are assigned in increasing
/// order and never reused, even after removals.
pub proof fn lemma_ids_unique(s: StoreView)
    requires
        s.wf(),
    ensures
        forall|i: int, j: int|
            0 <= i < s.items.len() && 0 <= j < s.items.len() && i != j ==> (
            #[trigger] s.items[i]).id != (#[trigger] s.items[j]).id,
        forall|i: int| 0 <= i < s.items.len() ==> (#[trigger] s.items[i]).id < s.next_id,
{
}

} // verus!
