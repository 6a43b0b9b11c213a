//! The record store: the records in insertion order, one per id.

use crate::error::StoreError;
use crate::model::has_id;
use crate::model::ids_distinct;
use crate::model::lemma_record_of_index;
use crate::model::lemma_update_keeps_ids;
use crate::model::record_of;
use crate::model::revised;
use crate::model::with_update;
use crate::model::StockView;
use crate::stock::Stock;
use vstd::prelude::*;

verus! {

/// The views of a sequence of records, in the same order.
pub open spec fn views_of(records: Seq<Stock>) -> Seq<StockView> {
    records.map_values(|r: Stock| r@)
}

/// A collection of stock records that keeps the order in which they were
/// inserted and never holds two records with one id.
pub struct StockStore {
    records: Vec<Stock>,
}

impl View for StockStore {
    type V = Seq<StockView>;

    closed spec fn view(&self) -> Seq<StockView> {
        views_of(self.records@)
    }
}

impl StockStore {
    #[verifier::type_invariant]
    spec fn ids_are_distinct(self) -> bool {
        ids_distinct(views_of(self.records@))
    }

    /// The empty store.
    pub fn new() -> (store: Self)
        ensures
            store@ == Seq::<StockView>::empty(),
    {
        StockStore { records: Vec::new() }
    }

    /// The place of the record with the id `id`, if there is one.
    fn position(&self, id: u32) -> (at: Option<usize>)
        ensures
            match at {
                Some(i) => i < self@.len() && self@[i as int].id == id,
                None => !has_id(self@, id),
            },
    {
        let mut i: usize = 0;
        while i < self.records.len()
            invariant
                i <= self.records.len(),
                forall|j: int| 0 <= j < i ==> (#[trigger] self@[j]).id != id,
            decreases self.records.len() - i,
        {
            if self.records[i].id == id {
                return Some(i);
            }
            i += 1;
        }
        None
    }

    /// Appends `record`, unless a record with its id is already there.
    pub fn insert(&mut self, record: Stock) -> (r: Result<(), StoreError>)
        ensures
            ids_distinct(final(self)@),
            match r {
                Ok(()) => {
                    &&& !has_id(old(self)@, record.id)
                    &&& final(self)@ == old(self)@.push(record@)
                },
                Err(e) => {
                    &&& e == StoreError::IdTaken
                    &&& has_id(old(self)@, record.id)
                    &&& final(self)@ == old(self)@
                },
            },
    {
        proof {
            use_type_invariant(&*self);
        }
        match self.position(record.id) {
            Some(_) => Err(StoreError::IdTaken),
            None => {
                let ghost before = self.records@;
                let ghost added = record@;
                // The records leave the store for the change and come back
                // after it, so the store holds distinct ids at every moment.
                let mut records: Vec<Stock> = Vec::new();
                std::mem::swap(&mut self.records, &mut records);
                records.push(record);
                assert(views_of(records@) =~= views_of(before).push(added));
                std::mem::swap(&mut self.records, &mut records);
                Ok(())
            },
        }
    }

    /// The record with the id `id`.
    pub fn find_id(&self, id: u32) -> (r: Result<&Stock, StoreError>)
        ensures
            ids_distinct(self@),
            match r {
                Ok(record) => has_id(self@, id) && record@ == record_of(self@, id),
                Err(e) => e == StoreError::ObjectNotFound && !has_id(self@, id),
            },
    {
        proof {
            use_type_invariant(self);
        }
        match self.position(id) {
            Some(i) => {
                proof {
                    lemma_record_of_index(self@, i as int);
                }
                Ok(&self.records[i])
            },
            None => Err(StoreError::ObjectNotFound),
        }
    }

    /// Replaces name and description of the record with the id `id` and
    /// hands the record back as it then stands.
    pub fn update(&mut self, id: u32, name: String, description: String) -> (r: Result<
        Stock,
        StoreError,
    >)
        ensures
            ids_distinct(final(self)@),
            match r {
                Ok(record) => {
                    &&& has_id(old(self)@, id)
                    &&& final(self)@ == with_update(old(self)@, id, name@, description@)
                    &&& record@ == revised(record_of(old(self)@, id), name@, description@)
                    &&& record@ == record_of(final(self)@, id)
                },
                Err(e) => {
                    &&& e == StoreError::ObjectNotFound
                    &&& !has_id(old(self)@, id)
                    &&& final(self)@ == old(self)@
                },
            },
    {
        proof {
            use_type_invariant(&*self);
        }
        match self.position(id) {
            Some(i) => {
                let ghost before = self.records@;
                let mut records: Vec<Stock> = Vec::new();
                std::mem::swap(&mut self.records, &mut records);
                let target = &mut records[i];
                let record = target.update(name, description).clone();
                assert(views_of(records@) =~= with_update(views_of(before), id, name@, description@));
                proof {
                    lemma_update_keeps_ids(views_of(before), id, name@, description@);
                    lemma_record_of_index(views_of(before), i as int);
                    lemma_record_of_index(views_of(records@), i as int);
                }
                std::mem::swap(&mut self.records, &mut records);
                Ok(record)
            },
            None => Err(StoreError::ObjectNotFound),
        }
    }

    /// The record that was inserted last, if there is any.
    pub fn last(&self) -> (r: Option<&Stock>)
        ensures
            match r {
                Some(record) => self@.len() > 0 && record@ == self@.last(),
                None => self@.len() == 0,
            },
    {
        let n: usize = self.records.len();
        if n == 0 {
            None
        } else {
            Some(&self.records[n - 1])
        }
    }

    /// The records in insertion order.
    pub fn as_vec(&self) -> (records: &Vec<Stock>)
        ensures
            views_of(records@) == self@,
            records@.len() == self@.len(),
            forall|i: int| 0 <= i < records@.len() ==> (#[trigger] records@[i])@ == self@[i],
            ids_distinct(self@),
    {
        proof {
            use_type_invariant(self);
        }
        &self.records
    }
}

} // verus!
