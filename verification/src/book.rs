//! The record store: the live offers, each under the key of its maker and id.

use crate::state::{Offer, OfferKey};
use crate::table::{as_map, distinct_keys, has_key, lemma_entry, lemma_push, lemma_remove};
use vstd::prelude::*;

verus! {

/// The live offers. At most one stands under each key.
#[derive(Clone, Debug, PartialEq, Eq)]
pub struct OfferBook {
    records: Vec<(OfferKey, Offer)>,
}

impl OfferBook {
    /// The records in the order in which they are stored.
    pub closed spec fn entries(&self) -> Seq<(OfferKey, Offer)> {
        self.records@
    }

    /// The live offers by key.
    pub open spec fn offers(&self) -> Map<OfferKey, Offer> {
        as_map(self.entries())
    }

    /// Every key is stored once, and each record stands under its own key.
    pub open spec fn wf(&self) -> bool {
        &&& distinct_keys(self.entries())
        &&& forall|key: OfferKey| #[trigger]
            self.offers().contains_key(key) ==> self.offers()[key].spec_key() == key
    }

    /// A store without offers.
    pub fn new() -> (book: OfferBook)
        ensures
            book.wf(),
            book.offers() == Map::<OfferKey, Offer>::empty(),
    {
        let book = OfferBook { records: Vec::new() };
        assert(book.offers() =~= Map::<OfferKey, Offer>::empty());
        book
    }

    fn find(&self, key: &OfferKey) -> (found: Option<usize>)
        ensures
            match found {
                Some(i) => i < self.records.len() && self.records[i as int].0 == *key,
                None => !has_key(self.records@, *key),
            },
    {
        let mut i: usize = 0;
        while i < self.records.len()
            invariant
                i <= self.records.len(),
                forall|j: int| 0 <= j < i ==> (#[trigger] self.records[j]).0 != *key,
            decreases self.records.len() - i,
        {
            if self.records[i].0 == *key {
                return Some(i);
            }
            i += 1;
        }
        None
    }

    /// The live offer under `key`, if there is one.
    pub open spec fn spec_get(&self, key: &OfferKey) -> Option<Offer> {
        if self.offers().contains_key(*key) {
            Some(self.offers()[*key])
        } else {
            None
        }
    }

    /// The live offer under `key`, if there is one.
    #[verifier::when_used_as_spec(spec_get)]
    pub fn get(&self, key: &OfferKey) -> (offer: Option<Offer>)
        requires
            self.wf(),
        ensures
            offer == self.spec_get(key),
    {
        match self.find(key) {
            Some(i) => {
                proof {
                    lemma_entry(self.records@, i as int);
                }
                Some(self.records[i].1)
            },
            None => None,
        }
    }

    /// Puts `offer` under its key. Returns `false`, and changes nothing, if
    /// an offer stands there already.
    pub fn insert(&mut self, offer: Offer) -> (inserted: bool)
        requires
            old(self).wf(),
        ensures
            final(self).wf(),
            inserted == !old(self).offers().contains_key(offer.spec_key()),
            !inserted ==> *final(self) == *old(self),
            inserted ==> final(self).offers() == old(self).offers().insert(offer.spec_key(), offer),
    {
        let key = offer.key();
        match self.find(&key) {
            Some(i) => {
                proof {
                    lemma_entry(self.records@, i as int);
                }
                false
            },
            None => {
                proof {
                    lemma_push(self.records@, key, offer);
                }
                self.records.push((key, offer));
                proof {
                    assert forall|k: OfferKey| #[trigger]
                        self.offers().contains_key(k) implies self.offers()[k].spec_key() == k by {
                        assert(k == key || old(self).offers().contains_key(k));
                    }
                }
                true
            },
        }
    }

    /// Takes the offer under `key` out of the store and returns it, if there
    /// is one.
    pub fn remove(&mut self, key: &OfferKey) -> (removed: Option<Offer>)
        requires
            old(self).wf(),
        ensures
            final(self).wf(),
            removed == if old(self).offers().contains_key(*key) {
                Some(old(self).offers()[*key])
            } else {
                None
            },
            removed is None ==> *final(self) == *old(self),
            final(self).offers() == old(self).offers().remove(*key),
    {
        match self.find(key) {
            Some(i) => {
                proof {
                    lemma_entry(self.records@, i as int);
                    lemma_remove(self.records@, i as int);
                }
                let entry = self.records.remove(i);
                proof {
                    assert forall|k: OfferKey| #[trigger]
                        self.offers().contains_key(k) implies self.offers()[k].spec_key() == k by {
                        assert(old(self).offers().contains_key(k));
                    }
                }
                Some(entry.1)
            },
            None => {
                assert(self.offers().remove(*key) =~= self.offers());
                None
            },
        }
    }
}

} // verus!
