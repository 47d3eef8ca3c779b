//! Identities and the errors that a store reports.

use vstd::prelude::*;

verus! {

/// A value that is no identity.
#[derive(Clone, Copy, Debug, PartialEq, Eq)]
pub struct InvalidId {
    pub value: i32,
}

/// The identity of a tenant: a number that is not negative.
#[derive(Clone, Copy, Debug, PartialEq, Eq, Hash)]
pub struct HubId {
    id: i32,
}

impl View for HubId {
    type V = int;

    closed spec fn view(&self) -> int {
        self.id as int
    }
}

impl HubId {
    /// Every identity is at least zero.
    #[verifier::type_invariant]
    pub closed spec fn valid(&self) -> bool {
        self.id >= 0
    }

    /// The identity with the number `id`; an error for a negative number.
    pub fn new(id: i32) -> (r: Result<HubId, InvalidId>)
        ensures
            match r {
                Ok(h) => id >= 0 && h@ == id,
                Err(e) => id < 0 && e.value == id,
            },
    {
        if id >= 0 {
            Ok(HubId { id })
        } else {
            Err(InvalidId { value: id })
        }
    }

    /// The identity's number.
    pub fn get(&self) -> (r: i32)
        ensures
            r == self@,
            r >= 0,
    {
        proof {
            use_type_invariant(self);
        }
        self.id
    }
}

/// Who set a product's category.
#[derive(Clone, Copy, Debug, PartialEq, Eq)]
pub enum CategoryAssignmentSource {
    /// An operator. Such an assignment is never changed automatically.
    Manual,
    /// The category matcher.
    Automatic,
}

/// What a store reports when an operation fails.
#[derive(Debug)]
pub enum RepositoryError {
    NotFound,
    ValidationError(String),
    Unexpected(String),
}

} // verus!
