//! Contacts.

use vstd::prelude::*;
use crate::notes::domain::Contact;
use crate::notes::domain::ContactView;
use crate::notes::error::CoreError;
use crate::notes::error::CoreErrorView;
use crate::notes::store::ContactRow;
use crate::notes::store::ContactRowView;
use crate::notes::store::duplicate;
use crate::notes::store::duplicate_error;
use crate::notes::store::sessions::str_option;
use crate::notes::store::Stamp;
use crate::notes::store::StampView;
use crate::notes::store::Store;
use crate::notes::store::StoreView;
use crate::notes::store::table::find;
use crate::notes::store::table::index_of_key;
use crate::notes::store::table::insert_row;
use crate::notes::store::table::lemma_at;
use crate::notes::store::table::lemma_replaced;
use crate::text::lemma_lex_irreflexive;
use crate::text::lemma_lex_total;
use crate::text::lemma_lex_transitive;
use crate::text::lex_lt;
use crate::text::text_eq;
use crate::views::own_option;
use crate::views::result_view;
use crate::views::seq_views;

verus! {

/// The contact with this id, unless it was deleted.
pub open spec fn contact_of(v: StoreView, id: Seq<char>) -> Option<ContactView> {
    if v.contacts.contains_key(id) && v.contacts[id].deleted_at is None {
        Some(v.contacts[id].contact)
    } else {
        None
    }
}

/// A live contact with exactly this name, and no other such contact has a
/// smaller id.
pub open spec fn is_named(v: StoreView, name: Seq<char>, c: ContactView) -> bool {
    &&& contact_of(v, c.id) == Some(c)
    &&& c.name == name
    &&& forall|id: Seq<char>|
        (#[trigger] contact_of(v, id)) is Some && contact_of(v, id)->0.name == name ==> !lex_lt(
            id,
            c.id,
        )
}

/// A newly learned value, or the one that was known.
pub open spec fn learned(new: Option<Seq<char>>, known: Option<Seq<char>>) -> Option<Seq<char>> {
    if new is Some {
        new
    } else {
        known
    }
}

/// Saving a contact. A contact with exactly this name takes on what is newly
/// known and keeps the rest; without one, a new contact is written.
pub open spec fn contact_saved(
    v: StoreView,
    name: Seq<char>,
    trade: Option<Seq<char>>,
    phone: Option<Seq<char>>,
    notes: Option<Seq<char>>,
    st: StampView,
) -> (StoreView, Result<ContactView, CoreErrorView>) {
    if exists|c: ContactView| is_named(v, name, c) {
        let c = choose|c: ContactView| is_named(v, name, c);
        let changed = ContactView {
            trade: learned(trade, c.trade),
            phone: learned(phone, c.phone),
            notes: learned(notes, c.notes),
            updated_at: st.now,
            ..c
        };
        (
            StoreView {
                contacts: v.contacts.insert(
                    c.id,
                    ContactRowView { contact: changed, deleted_at: None },
                ),
                ..v
            },
            Ok(changed),
        )
    } else if v.contacts.contains_key(st.id) {
        (v, Err(duplicate("contacts.id"@)))
    } else {
        let c = ContactView {
            id: st.id,
            name,
            trade,
            phone,
            notes,
            created_at: st.now,
            updated_at: st.now,
            device_id: v.device_id,
        };
        (
            StoreView {
                contacts: v.contacts.insert(st.id, ContactRowView { contact: c, deleted_at: None }),
                ..v
            },
            Ok(c),
        )
    }
}

/// The contacts in the order of their ids: nothing is left out, nothing is
/// added, nothing comes twice.
pub open spec fn lists_contacts(v: StoreView, out: Seq<ContactView>) -> bool {
    &&& forall|i: int, j: int|
        0 <= i < j < out.len() ==> lex_lt((#[trigger] out[i]).id, (#[trigger] out[j]).id)
    &&& forall|i: int| 0 <= i < out.len() ==> contact_of(v, (#[trigger] out[i]).id) == Some(out[i])
    &&& forall|id: Seq<char>|
        (#[trigger] contact_of(v, id)) is Some ==> exists|i: int|
            0 <= i < out.len() && #[trigger] out[i] == contact_of(v, id)->0
}

impl Store {
    /// Saves or updates a person. Fields that are not known are left alone.
    pub fn upsert_contact(
        &mut self,
        name: &str,
        trade: Option<&str>,
        phone: Option<&str>,
        notes: Option<&str>,
    ) -> (r: Result<Contact, CoreError>)
        requires
            old(self).wf(),
        ensures
            final(self).wf(),
            exists|st: StampView| #[trigger]
                old(self)@.gives(st) && (final(self)@, result_view(r)) == contact_saved(
                    old(self)@,
                    name@,
                    str_option(trade),
                    str_option(phone),
                    str_option(notes),
                    st,
                ),
    {
        let st = self.stamp();
        self.upsert_contact_as(name, trade, phone, notes, st)
    }

    /// Saves or updates a person, under the given id and time.
    pub fn upsert_contact_as(
        &mut self,
        name: &str,
        trade: Option<&str>,
        phone: Option<&str>,
        notes: Option<&str>,
        st: Stamp,
    ) -> (r: Result<Contact, CoreError>)
        requires
            old(self).wf(),
        ensures
            final(self).wf(),
            (final(self)@, result_view(r)) == contact_saved(
                old(self)@,
                name@,
                str_option(trade),
                str_option(phone),
                str_option(notes),
                st@,
            ),
    {
        let mut i: usize = 0;
        while i < self.contacts.len() && !(self.contacts[i].deleted_at.is_none() && text_eq(
            self.contacts[i].contact.name.as_str(),
            name,
        ))
            invariant
                i <= self.contacts.len(),
                *self == *old(self),
                forall|j: int|
                    0 <= j < i ==> !((#[trigger] self.contacts@[j]).deleted_at is None
                        && self.contacts@[j].contact@.name == name@),
            decreases self.contacts.len() - i,
        {
            i = i + 1;
        }
        if i < self.contacts.len() {
            let ghost before = self.contacts@;
            let ghost c = self.contacts@[i as int].contact@;
            proof {
                lemma_at(before, i as int);
                assert forall|id: Seq<char>|
                    (#[trigger] contact_of(self@, id)) is Some && contact_of(self@, id)->0.name
                        == name@ implies !lex_lt(id, c.id) by {
                    let k = index_of_key(before, id);
                    assert(before[k].contact@.id == id);
                    lemma_at(before, k);
                    lemma_lex_irreflexive(id);
                    if k > i && lex_lt(id, c.id) {
                        lemma_lex_transitive(id, c.id, id);
                    }
                }
                assert(is_named(self@, name@, c));
                let d = choose|d: ContactView| is_named(self@, name@, d);
                lemma_lex_total(c.id, d.id);
                assert(d == c);
            }
            let row = &mut self.contacts[i];
            if trade.is_some() {
                row.contact.trade = own_option(trade);
            }
            if phone.is_some() {
                row.contact.phone = own_option(phone);
            }
            if notes.is_some() {
                row.contact.notes = own_option(notes);
            }
            row.contact.updated_at = st.now;
            proof {
                lemma_replaced(before, i as int, self.contacts@[i as int]);
            }
            return Ok(self.contacts[i].contact.clone());
        }
        proof {
            assert forall|c: ContactView| !is_named(self@, name@, c) by {
                if contact_of(self@, c.id) == Some(c) && c.name == name@ {
                    let k = index_of_key(self.contacts@, c.id);
                    assert(self.contacts@[k].contact@.id == c.id);
                    lemma_at(self.contacts@, k);
                }
            }
        }
        if find(&self.contacts, st.id.as_str()).is_some() {
            return Err(duplicate_error("contacts.id"));
        }
        let contact = Contact {
            id: st.id,
            name: name.to_string(),
            trade: own_option(trade),
            phone: own_option(phone),
            notes: own_option(notes),
            created_at: st.now,
            updated_at: st.now,
            device_id: self.device_id.clone(),
        };
        let row = ContactRow { contact: contact.clone(), deleted_at: None };
        insert_row(&mut self.contacts, row);
        Ok(contact)
    }

    /// All contacts, in the order of their ids.
    pub fn list_contacts(&self) -> (r: Result<Vec<Contact>, CoreError>)
        requires
            self.wf(),
        ensures
            r matches Ok(contacts) && lists_contacts(self@, seq_views(contacts@)),
    {
        let mut out: Vec<Contact> = Vec::new();
        let ghost mut from: Seq<int> = Seq::empty();
        let mut i: usize = 0;
        while i < self.contacts.len()
            invariant
                i <= self.contacts.len(),
                self.wf(),
                from.len() == out.len(),
                forall|j: int|
                    0 <= j < from.len() ==> 0 <= (#[trigger] from[j]) < i && out@[j]@
                        == self.contacts@[from[j]].contact@
                        && self.contacts@[from[j]].deleted_at is None,
                forall|a: int, b: int|
                    0 <= a < b < from.len() ==> (#[trigger] from[a]) < (#[trigger] from[b]),
                forall|k: int|
                    0 <= k < i && (#[trigger] self.contacts@[k]).deleted_at is None
                        ==> from.contains(k),
            decreases self.contacts.len() - i,
        {
            let ghost seen = from;
            if self.contacts[i].deleted_at.is_none() {
                out.push(self.contacts[i].contact.clone());
                proof {
                    from = from.push(i as int);
                    assert forall|k: int|
                        0 <= k < i + 1 && (#[trigger] self.contacts@[k]).deleted_at is None implies from.contains(
                    k) by {
                        if k < i {
                            let j = seen.index_of(k);
                            assert(from[j] == k);
                        } else {
                            assert(from[from.len() - 1] == k);
                        }
                    }
                }
            }
            i = i + 1;
        }
        proof {
            let view = seq_views(out@);
            assert forall|a: int, b: int| 0 <= a < b < view.len() implies lex_lt(
                (#[trigger] view[a]).id,
                (#[trigger] view[b]).id,
            ) by {
                assert(from[a] < from[b]);
                assert(view[a] == out@[a]@ && view[b] == out@[b]@);
            }
            assert forall|a: int| 0 <= a < view.len() implies contact_of(
                self@,
                (#[trigger] view[a]).id,
            ) == Some(view[a]) by {
                assert(0 <= from[a] < self.contacts.len());
                lemma_at(self.contacts@, from[a]);
            }
            assert forall|id: Seq<char>| (#[trigger] contact_of(self@, id)) is Some implies exists|
                a: int,
            |
                0 <= a < view.len() && #[trigger] view[a] == contact_of(self@, id)->0 by {
                let k = index_of_key(self.contacts@, id);
                assert(0 <= k < self.contacts.len() && self.contacts@[k].contact@.id == id);
                let a = from.index_of(k);
                assert(from[a] == k);
                assert(view[a] == out@[a]@);
            }
        }
        Ok(out)
    }
}

} // verus!
