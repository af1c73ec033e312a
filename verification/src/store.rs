//! The contact store: an append-only sequence of contacts in insertion order,
//! with full listing and substring search. No contact is ever updated or
//! removed, and no two contacts ever share an id.
//!
//! The store itself is a plain value; callers that share it across tasks wrap
//! it in a mutual-exclusion lock and hold the lock for the duration of each
//! operation, so that every operation appears atomic.
use vstd::prelude::*;

use crate::contact::{contact_matches, Contact, ContactView};
use crate::text::lemma_empty_needle_occurs;

verus! {

/// Relies on `uuid::Uuid::new_v4` and `From<Uuid> for String`: a freshly
/// generated version-4 UUID rendered in its hyphenated form, which is 36
/// characters long. The value is random, so nothing relates two calls.
#[verifier::external_body]
fn new_uuid_string() -> (r: String)
    ensures
        r@.len() == 36,
{
    uuid::Uuid::new_v4().into()
}

/// Some contact of `s` carries `id`.
pub open spec fn has_id(s: Seq<ContactView>, id: Seq<char>) -> bool {
    exists|i: int| 0 <= i < s.len() && s[i].id == id
}

pub struct ContactStore {
    contacts: Vec<Contact>,
}

impl View for ContactStore {
    type V = Seq<ContactView>;

    closed spec fn view(&self) -> Seq<ContactView> {
        self.contacts@.map_values(|c: Contact| c@)
    }
}

impl ContactStore {
    /// The store's invariant: no two contacts share an id.
    pub open spec fn wf(&self) -> bool {
        forall|i: int, j: int| 0 <= i < j < self@.len() ==> self@[i].id != self@[j].id
    }

    /// An empty store.
    pub fn new() -> (s: Self)
        ensures
            s@ == Seq::<ContactView>::empty(),
            s.wf(),
    {
        let s = ContactStore { contacts: Vec::new() };
        proof {
            assert(s@ =~= Seq::<ContactView>::empty());
        }
        s
    }

    /// Whether some stored contact already carries `id`.
    fn contains_id(&self, id: &String) -> (r: bool)
        ensures
            r == has_id(self@, id@),
    {
        let mut k: usize = 0;
        while k < self.contacts.len()
            invariant
                k <= self.contacts.len(),
                forall|t: int| 0 <= t < k ==> self@[t].id != id@,
            decreases self.contacts.len() - k,
        {
            if self.contacts[k].id == *id {
                proof {
                    assert(self@[k as int].id == id@);
                }
                return true;
            }
            k += 1;
        }
        false
    }

    /// A string strictly longer than every stored id, hence equal to none of
    /// them.
    fn id_longer_than_all(&self) -> (r: String)
        ensures
            !has_id(self@, r@),
    {
        let mut s = String::from_str("u");
        proof {
            reveal_strlit("u");
        }
        let mut k: usize = 0;
        while k < self.contacts.len()
            invariant
                k <= self.contacts.len(),
                s@.len() >= 1,
                forall|t: int| 0 <= t < k ==> self@[t].id.len() < s@.len(),
            decreases self.contacts.len() - k,
        {
            let target = self.contacts[k].id.as_str().unicode_len();
            while s.as_str().unicode_len() <= target
                invariant
                    k < self.contacts.len(),
                    target == self@[k as int].id.len(),
                    s@.len() >= 1,
                    forall|t: int| 0 <= t < k ==> self@[t].id.len() < s@.len(),
                decreases target + 1 - s@.len(),
            {
                s.append("u");
                proof {
                    reveal_strlit("u");
                }
            }
            k += 1;
        }
        proof {
            assert(forall|t: int| 0 <= t < self@.len() ==> self@[t].id != s@);
        }
        s
    }

    /// Append a new contact built from `name` and `email`, under a freshly
    /// generated id that no stored contact carries, and return a copy of the
    /// created record. Every contact already present keeps its position; the
    /// new one stands last.
    pub fn append(&mut self, name: String, email: String) -> (c: Contact)
        requires
            old(self).wf(),
        ensures
            final(self).wf(),
            final(self)@ == old(self)@.push(c@),
            c@.name == name@,
            c@.email == email@,
            !has_id(old(self)@, c@.id),
    {
        let candidate = new_uuid_string();
        let id = if !self.contains_id(&candidate) {
            candidate
        } else {
            self.id_longer_than_all()
        };
        let c = Contact { id, name, email };
        let r = c.clone();
        self.contacts.push(c);
        proof {
            assert(self@ =~= old(self)@.push(r@));
            assert forall|i: int, j: int| 0 <= i < j < self@.len() implies self@[i].id
                != self@[j].id by {
                if j == self@.len() - 1 {
                    assert(!has_id(old(self)@, r@.id));
                    assert(old(self)@[i].id != r@.id);
                }
            }
        }
        r
    }

    /// A snapshot of all contacts, in insertion order.
    pub fn list(&self) -> (r: Vec<Contact>)
        ensures
            r@.map_values(|c: Contact| c@) == self@,
    {
        let mut out: Vec<Contact> = Vec::new();
        let mut k: usize = 0;
        while k < self.contacts.len()
            invariant
                k <= self.contacts.len(),
                out@.len() == k as int,
                forall|i: int| 0 <= i < k ==> out@[i]@ == self@[i],
            decreases self.contacts.len() - k,
        {
            out.push(self.contacts[k].clone());
            k += 1;
        }
        proof {
            assert(out@.map_values(|c: Contact| c@) =~= self@);
        }
        out
    }

    /// The contacts whose name or email contains `q` as a substring, in
    /// insertion order. The store itself is untouched.
    pub fn search(&self, q: &str) -> (r: Vec<Contact>)
        ensures
            r@.map_values(|c: Contact| c@) == self@.filter(
                |cv: ContactView| contact_matches(cv, q@),
            ),
    {
        let ghost pred = (|cv: ContactView| contact_matches(cv, q@));
        let mut out: Vec<Contact> = Vec::new();
        let mut k: usize = 0;
        while k < self.contacts.len()
            invariant
                k <= self.contacts.len(),
                pred == (|cv: ContactView| contact_matches(cv, q@)),
                out@.len() == self@.take(k as int).filter(pred).len(),
                forall|i: int| 0 <= i < out@.len() ==> out@[i]@ == self@.take(k as int).filter(
                    pred,
                )[i],
            decreases self.contacts.len() - k,
        {
            let ghost pre = self@.take(k as int).filter(pred);
            let c = &self.contacts[k];
            if c.matches(q) {
                out.push(c.clone());
            }
            proof {
                lemma_filter_take_step(self@, pred, k as int);
                if pred(self@[k as int]) {
                    assert(self@.take(k as int + 1).filter(pred) == pre.push(self@[k as int]));
                    assert(out@[out@.len() - 1]@ == self@[k as int]);
                }
            }
            k += 1;
        }
        proof {
            assert(self@.take(self@.len() as int) =~= self@);
            assert(out@.map_values(|c: Contact| c@) =~= self@.filter(
                |cv: ContactView| contact_matches(cv, q@),
            ));
        }
        out
    }
}

/// Filtering one more element of a prefix: the element joins the filtered
/// prefix exactly when it satisfies the predicate.
proof fn lemma_filter_take_step(s: Seq<ContactView>, pred: spec_fn(ContactView) -> bool, k: int)
    requires
        0 <= k < s.len(),
    ensures
        s.take(k + 1).filter(pred) == if pred(s[k]) {
            s.take(k).filter(pred).push(s[k])
        } else {
            s.take(k).filter(pred)
        },
{
    reveal_with_fuel(Seq::<_>::filter, 2);
    assert(s.take(k + 1).drop_last() =~= s.take(k));
    assert(s.take(k + 1).last() == s[k]);
}

/// No two positions of a well-formed store hold the same id: the id assigned
/// at creation stays unique across the store's lifetime.
pub proof fn lemma_ids_unique(s: &ContactStore, i: int, j: int)
    requires
        s.wf(),
        0 <= i < s@.len(),
        0 <= j < s@.len(),
        i != j,
    ensures
        s@[i].id != s@[j].id,
{
}

/// Appending touches only the end of the store: every contact already present
/// keeps its position, and the new one stands last.
pub proof fn lemma_append_extends(pre: Seq<ContactView>, post: Seq<ContactView>, c: ContactView)
    requires
        post == pre.push(c),
    ensures
        post.len() == pre.len() + 1,
        post[pre.len() as int] == c,
        forall|k: int| 0 <= k < pre.len() ==> post[k] == pre[k],
{
}

/// A search result is exactly the matching subset of the store: a contact
/// stands in the filtered sequence precisely when it stands in the store and
/// the query matches its name or email.
pub proof fn lemma_search_is_exact_subset(s: Seq<ContactView>, q: Seq<char>, c: ContactView)
    ensures
        s.filter(|cv: ContactView| contact_matches(cv, q)).contains(c) <==> (s.contains(c)
            && contact_matches(c, q)),
    decreases s.len(),
{
    reveal_with_fuel(Seq::<_>::filter, 2);
    let pred = (|cv: ContactView| contact_matches(cv, q));
    if s.len() == 0 {
        assert(!s.contains(c));
        assert(!s.filter(pred).contains(c));
    } else {
        let rest = s.drop_last();
        lemma_search_is_exact_subset(rest, q, c);
        assert(s.contains(c) <==> rest.contains(c) || c == s.last()) by {
            if s.contains(c) {
                let i = choose|i: int| 0 <= i < s.len() && s[i] == c;
                if i < s.len() - 1 {
                    assert(rest[i] == c);
                }
            }
            if rest.contains(c) {
                let i = choose|i: int| 0 <= i < rest.len() && rest[i] == c;
                assert(s[i] == c);
            }
            if c == s.last() {
                assert(s[s.len() - 1] == c);
            }
        }
        if pred(s.last()) {
            let f = rest.filter(pred).push(s.last());
            assert(s.filter(pred) == f);
            assert(f.contains(c) <==> rest.filter(pred).contains(c) || c == s.last()) by {
                if f.contains(c) {
                    let i = choose|i: int| 0 <= i < f.len() && f[i] == c;
                    if i < f.len() - 1 {
                        assert(rest.filter(pred)[i] == c);
                    }
                }
                if rest.filter(pred).contains(c) {
                    let i = choose|i: int| 0 <= i < rest.filter(pred).len() && rest.filter(
                        pred,
                    )[i] == c;
                    assert(f[i] == c);
                }
                if c == s.last() {
                    assert(f[f.len() - 1] == c);
                }
            }
        } else {
            assert(s.filter(pred) == rest.filter(pred));
        }
    }
}

/// The empty query matches every contact, so searching with it keeps the
/// whole store.
pub proof fn lemma_empty_query_keeps_all(s: Seq<ContactView>)
    ensures
        s.filter(|cv: ContactView| contact_matches(cv, Seq::<char>::empty())) == s,
    decreases s.len(),
{
    reveal_with_fuel(Seq::<_>::filter, 2);
    let pred = (|cv: ContactView| contact_matches(cv, Seq::<char>::empty()));
    if s.len() == 0 {
        assert(s.filter(pred) =~= s);
    } else {
        lemma_empty_query_keeps_all(s.drop_last());
        lemma_empty_needle_occurs(s.last().name);
        assert(pred(s.last()));
        assert(s.filter(pred) =~= s.drop_last().push(s.last()));
        assert(s.drop_last().push(s.last()) =~= s);
    }
}

/// A store holding the two seed contacts, John and Jane.
pub fn seeded() -> (s: ContactStore)
    ensures
        s.wf(),
        s@.len() == 2,
        s@[0].name == "John"@,
        s@[0].email == "john@email.com"@,
        s@[1].name == "Jane"@,
        s@[1].email == "jane@email.com"@,
{
    let mut s = ContactStore::new();
    let _ = s.append(String::from_str("John"), String::from_str("john@email.com"));
    let _ = s.append(String::from_str("Jane"), String::from_str("jane@email.com"));
    s
}

} // verus!
