//! The failures that the store and the service report.

use vstd::prelude::*;

verus! {

/// Why the store refused an operation.
#[derive(Debug, Clone, Copy, PartialEq, Eq, Structural)]
pub enum StoreError {
    /// A record with that id is already in the store.
    IdTaken,
    /// No record in the store has that id.
    ObjectNotFound,
}

/// Why the service failed a call. Each failure carries a text for people.
#[derive(Debug)]
pub enum ServiceError {
    /// The requested id is not in the collection. The caller may try again
    /// with another id.
    NotFound(String),
    /// The service could not do what was asked though the request was in
    /// order.
    InternalError(String),
}

/// What a call of the service returns.
pub type ServiceResult<T> = Result<T, ServiceError>;

/// A [`ServiceError`] with its text as a sequence of characters.
pub enum ServiceErrorView {
    NotFound(Seq<char>),
    InternalError(Seq<char>),
}

impl ServiceErrorView {
    /// The text of the failure.
    pub open spec fn text(self) -> Seq<char> {
        match self {
            ServiceErrorView::NotFound(text) => text,
            ServiceErrorView::InternalError(text) => text,
        }
    }
}

impl View for ServiceError {
    type V = ServiceErrorView;

    open spec fn view(&self) -> ServiceErrorView {
        match self {
            ServiceError::NotFound(text) => ServiceErrorView::NotFound(text@),
            ServiceError::InternalError(text) => ServiceErrorView::InternalError(text@),
        }
    }
}

impl ServiceError {
    /// A not-found failure with the given text.
    pub fn not_found(text: &str) -> (e: Self)
        ensures
            e@ == ServiceErrorView::NotFound(text@),
    {
        ServiceError::NotFound(text.to_owned())
    }

    /// An internal failure with the given text.
    pub fn internal_error(text: &str) -> (e: Self)
        ensures
            e@ == ServiceErrorView::InternalError(text@),
    {
        ServiceError::InternalError(text.to_owned())
    }

    /// The text of the failure.
    pub fn message(&self) -> (text: &str)
        ensures
            text@ == self@.text(),
    {
        match self {
            ServiceError::NotFound(text) => text.as_str(),
            ServiceError::InternalError(text) => text.as_str(),
        }
    }
}

/// The text of the failure of a lookup by an id that is not there.
pub open spec fn lookup_miss_text() -> Seq<char> {
    "A megadott raktár nem található"@
}

/// The text of the failure of an update by an id that is not there.
pub open spec fn update_miss_text() -> Seq<char> {
    "A megadott stock nem található!"@
}

/// The text of the failure of a creation for which no id is left.
pub open spec fn ids_exhausted_text() -> Seq<char> {
    "Nincs több szabad stock azonosító!"@
}

} // verus!
