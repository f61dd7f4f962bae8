//! One record of the contact book.

use vstd::prelude::*;
use crate::clock::Timestamp;
use crate::text::lowercase;

verus! {

/// A contact: three text fields and the instant at which it was made.
#[derive(Clone, Debug, PartialEq, Eq)]
pub struct Contact {
    pub name: String,
    pub phone: String,
    pub email: String,
    pub created_at: Timestamp,
}

/// What a contact holds, as plain values.
pub struct ContactView {
    pub name: Seq<char>,
    pub phone: Seq<char>,
    pub email: Seq<char>,
    pub created_at: Timestamp,
}

impl View for Contact {
    type V = ContactView;

    open spec fn view(&self) -> ContactView {
        ContactView {
            name: self.name@,
            phone: self.phone@,
            email: self.email@,
            created_at: self.created_at,
        }
    }
}

/// The text by which a contact is found and ordered: its name in lowercase.
pub open spec fn name_key(c: Contact) -> Seq<char> {
    lowercase(c.name@)
}

impl Contact {
    /// The contact's name in lowercase.
    pub fn key(&self) -> (key: String)
        ensures
            key@ == name_key(*self),
    {
        self.name.as_str().to_lowercase()
    }
}

} // verus!
