//! The stock manager: id allocation and the four operations.

use crate::clock::utc_now;
use crate::error::ids_exhausted_text;
use crate::error::lookup_miss_text;
use crate::error::update_miss_text;
use crate::error::ServiceError;
use crate::error::ServiceErrorView;
use crate::error::ServiceResult;
use crate::model::after;
use crate::model::can_create;
use crate::model::created;
use crate::model::creation;
use crate::model::has_id;
use crate::model::ids_distinct;
use crate::model::lemma_max_id_is_greatest;
use crate::model::lemma_max_id_push;
use crate::model::lemma_update_of_absent_id;
use crate::model::max_id;
use crate::model::next_id;
use crate::model::record_of;
use crate::model::revised;
use crate::model::revision;
use crate::model::with_update;
use crate::model::StockView;
use crate::stock::Stock;
use crate::store::views_of;
use crate::store::StockStore;
use chrono::NaiveDateTime;
use vstd::prelude::*;

verus! {

/// The manager of one collection of stock records. It owns the store, so
/// whoever holds the manager exclusively holds the collection.
pub struct StockService {
    stocks: StockStore,
}

impl View for StockService {
    type V = Seq<StockView>;

    closed spec fn view(&self) -> Seq<StockView> {
        self.stocks@
    }
}

impl StockService {
    /// A manager of the records in `db`.
    pub fn new(db: StockStore) -> (service: Self)
        ensures
            service@ == db@,
    {
        StockService { stocks: db }
    }

    /// The id for the next record: one above the largest id in the
    /// collection, so 1 for the empty collection. `None` where the largest
    /// id is already the last one that fits.
    pub fn next_id(&self) -> (id: Option<u32>)
        ensures
            ids_distinct(self@),
            match id {
                Some(id) => id == next_id(self@),
                None => !can_create(self@),
            },
    {
        let records = self.stocks.as_vec();
        let mut latest_id: u32 = 0;
        let mut i: usize = 0;
        while i < records.len()
            invariant
                i <= records.len(),
                views_of(records@) == self@,
                latest_id == max_id(self@.take(i as int)),
            decreases records.len() - i,
        {
            proof {
                lemma_max_id_push(self@.take(i as int), self@[i as int]);
                assert(self@.take(i as int).push(self@[i as int]) =~= self@.take(i + 1));
            }
            let id: u32 = *records[i].get_id();
            if id > latest_id {
                latest_id = id;
            }
            i += 1;
        }
        assert(self@.take(i as int) =~= self@);
        latest_id.checked_add(1)
    }

    /// Creates a record with the next id and the given creation instant,
    /// appends it and returns it. Fails, and changes nothing, only where no
    /// id is left.
    pub fn create_new_at(
        &mut self,
        name: String,
        description: String,
        created_by: u32,
        created_at: NaiveDateTime,
    ) -> (r: ServiceResult<Stock>)
        ensures
            ids_distinct(final(self)@),
            final(self)@ == after(
                old(self)@,
                creation(name@, description@, created_by, created_at),
            ),
            match r {
                Ok(record) => {
                    &&& can_create(old(self)@)
                    &&& record@ == created(
                        old(self)@,
                        name@,
                        description@,
                        created_by,
                        created_at,
                    )
                    &&& final(self)@ == old(self)@.push(record@)
                },
                Err(e) => {
                    &&& !can_create(old(self)@)
                    &&& e@ == ServiceErrorView::InternalError(ids_exhausted_text())
                    &&& final(self)@ == old(self)@
                },
            },
    {
        let id: u32 = match self.next_id() {
            Some(id) => id,
            None => {
                return Err(ServiceError::internal_error("Nincs több szabad stock azonosító!"));
            },
        };
        let record = Stock::stamped(id, name, description, created_at, created_by);
        proof {
            lemma_max_id_is_greatest(self@);
            if has_id(self@, id) {
                let i = choose|i: int| 0 <= i < self@.len() && (#[trigger] self@[i]).id == id;
                assert(self@[i].id <= max_id(self@));
            }
        }
        match self.stocks.insert(record.clone()) {
            Ok(()) => Ok(record),
            // The id is above every id in the store, so the store takes the record.
            Err(_) => Err(ServiceError::internal_error("Az új stock nem tárolható!")),
        }
    }

    /// Creates a record with the next id, stamped with the current instant,
    /// appends it and returns it. Fails, and changes nothing, only where no
    /// id is left. The contract leaves `created_at` open: it is whatever
    /// the clock said; [`StockService::create_new_at`] states the rest for
    /// a given instant.
    pub fn create_new(&mut self, name: String, description: String, created_by: u32) -> (r:
        ServiceResult<Stock>)
        ensures
            ids_distinct(final(self)@),
            match r {
                Ok(record) => {
                    &&& can_create(old(self)@)
                    &&& record@ == created(
                        old(self)@,
                        name@,
                        description@,
                        created_by,
                        record@.created_at,
                    )
                    &&& final(self)@ == old(self)@.push(record@)
                    &&& final(self)@ == after(
                        old(self)@,
                        creation(name@, description@, created_by, record@.created_at),
                    )
                },
                Err(e) => {
                    &&& !can_create(old(self)@)
                    &&& e@ == ServiceErrorView::InternalError(ids_exhausted_text())
                    &&& final(self)@ == old(self)@
                },
            },
    {
        self.create_new_at(name, description, created_by, utc_now())
    }

    /// The record with the id `id`, as it stands.
    pub fn get_by_id(&self, id: u32) -> (r: ServiceResult<Stock>)
        ensures
            ids_distinct(self@),
            match r {
                Ok(record) => has_id(self@, id) && record@ == record_of(self@, id),
                Err(e) => !has_id(self@, id) && e@ == ServiceErrorView::NotFound(
                    lookup_miss_text(),
                ),
            },
    {
        match self.stocks.find_id(id) {
            Ok(record) => Ok(record.clone()),
            Err(_) => Err(ServiceError::not_found("A megadott raktár nem található")),
        }
    }

    /// Replaces name and description of the record with the id `id`, both
    /// at once, and returns the record as it then stands. Every other field
    /// and every other record stay as they are.
    pub fn update_by_id(&mut self, id: u32, name: String, description: String) -> (r:
        ServiceResult<Stock>)
        ensures
            ids_distinct(final(self)@),
            final(self)@ == after(old(self)@, revision(id, name@, description@)),
            match r {
                Ok(record) => {
                    &&& has_id(old(self)@, id)
                    &&& final(self)@ == with_update(old(self)@, id, name@, description@)
                    &&& record@ == revised(record_of(old(self)@, id), name@, description@)
                    &&& record@ == record_of(final(self)@, id)
                },
                Err(e) => {
                    &&& !has_id(old(self)@, id)
                    &&& e@ == ServiceErrorView::NotFound(update_miss_text())
                    &&& final(self)@ == old(self)@
                },
            },
    {
        proof {
            if !has_id(self@, id) {
                lemma_update_of_absent_id(self@, id, name@, description@);
            }
        }
        match self.stocks.update(id, name, description) {
            Ok(record) => Ok(record),
            Err(_) => Err(ServiceError::not_found("A megadott stock nem található!")),
        }
    }

    /// Every record of the collection, in insertion order.
    pub fn get_all(&self) -> (all: Vec<Stock>)
        ensures
            views_of(all@) == self@,
            all@.len() == self@.len(),
            forall|i: int| 0 <= i < all@.len() ==> (#[trigger] all@[i])@ == self@[i],
            ids_distinct(self@),
    {
        let records = self.stocks.as_vec();
        let mut all: Vec<Stock> = Vec::new();
        let mut i: usize = 0;
        while i < records.len()
            invariant
                i <= records.len(),
                all@ == records@.take(i as int),
            decreases records.len() - i,
        {
            all.push(records[i].clone());
            assert(all@ =~= records@.take(i + 1));
            i += 1;
        }
        assert(all@ =~= records@);
        all
    }
}

} // verus!
