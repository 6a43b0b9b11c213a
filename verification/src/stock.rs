//! The stock record.

use crate::clock::utc_now;
use crate::model::revised;
use crate::model::StockView;
use chrono::NaiveDateTime;
use vstd::prelude::*;

verus! {

/// A named storage location.
///
/// `id`, `created_at` and `created_by` are set when the record is made and
/// no operation of the library changes them afterwards; `name` and
/// `description` change through [`Stock::update`]. `created_at` is an instant
/// in UTC.
#[derive(Debug)]
pub struct Stock {
    pub id: u32,
    pub name: String,
    pub description: String,
    pub created_at: NaiveDateTime,
    pub created_by: u32,
}

impl View for Stock {
    type V = StockView;

    open spec fn view(&self) -> StockView {
        StockView {
            id: self.id,
            name: self.name@,
            description: self.description@,
            created_at: self.created_at,
            created_by: self.created_by,
        }
    }
}

impl Stock {
    /// A record with the given fields, stamped with the current instant.
    /// The contract leaves `created_at` open: it is whatever the clock said.
    pub fn new(id: u32, name: String, description: String, created_by: u32) -> (r: Self)
        ensures
            r@.id == id,
            r@.name == name@,
            r@.description == description@,
            r@.created_by == created_by,
    {
        Stock::stamped(id, name, description, utc_now(), created_by)
    }

    /// A record with the given fields and the given creation instant.
    pub fn stamped(
        id: u32,
        name: String,
        description: String,
        created_at: NaiveDateTime,
        created_by: u32,
    ) -> (r: Self)
        ensures
            r@ == (StockView {
                id,
                name: name@,
                description: description@,
                created_at,
                created_by,
            }),
    {
        Stock { id, name, description, created_at, created_by }
    }

    /// Replaces name and description, both at once, and hands the record
    /// back. The other three fields stay as they are.
    pub fn update(&mut self, name: String, description: String) -> (r: &Self)
        ensures
            final(self)@ == revised(old(self)@, name@, description@),
            *r == *final(self),
    {
        self.name = name;
        self.description = description;
        self
    }

    /// The id by which a collection finds the record.
    pub fn get_id(&self) -> (r: &u32)
        ensures
            *r == self.id,
    {
        &self.id
    }
}

impl Clone for Stock {
    fn clone(&self) -> (r: Self)
        ensures
            r == *self,
    {
        Stock {
            id: self.id,
            name: self.name.clone(),
            description: self.description.clone(),
            created_at: self.created_at,
            created_by: self.created_by,
        }
    }
}

impl Default for Stock {
    /// The record with id 0, empty texts and creator 0, stamped with the
    /// current instant.
    fn default() -> (r: Self)
        ensures
            r@.id == 0,
            r@.name == Seq::<char>::empty(),
            r@.description == Seq::<char>::empty(),
            r@.created_by == 0,
    {
        Stock::stamped(0, String::new(), String::new(), utc_now(), 0)
    }
}

} // verus!
