//! A contact record: a unique id assigned at creation, a name, and an email
//! address. Records are immutable once created.
use vstd::prelude::*;

use crate::text::{contains_str, contains_substring};

verus! {

/// A stored contact. The id is assigned by the store at creation; name and
/// email are taken as given, with no validation.
pub struct Contact {
    pub id: String,
    pub name: String,
    pub email: String,
}

/// The mathematical content of a contact: its three fields as character
/// sequences.
pub ghost struct ContactView {
    pub id: Seq<char>,
    pub name: Seq<char>,
    pub email: Seq<char>,
}

impl View for Contact {
    type V = ContactView;

    open spec fn view(&self) -> ContactView {
        ContactView { id: self.id@, name: self.name@, email: self.email@ }
    }
}

impl Clone for Contact {
    fn clone(&self) -> (r: Self)
        ensures
            r@ == self@,
    {
        Contact { id: self.id.clone(), name: self.name.clone(), email: self.email.clone() }
    }
}

/// The query matches a contact when it is a substring of the contact's name
/// or of its email.
pub open spec fn contact_matches(c: ContactView, q: Seq<char>) -> bool {
    contains_substring(c.name, q) || contains_substring(c.email, q)
}

impl Contact {
    /// Whether this contact matches the query: the query is a substring of
    /// its name or of its email.
    pub fn matches(&self, q: &str) -> (r: bool)
        ensures
            r == contact_matches(self@, q@),
    {
        contains_str(self.name.as_str(), q) || contains_str(self.email.as_str(), q)
    }
}

} // verus!
