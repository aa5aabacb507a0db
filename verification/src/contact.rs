//! Peer references and the ordered, duplicate-free contact list.

use vstd::prelude::*;

verus! {

/// The mathematical value of a [`Contact`]: its three text fields as
/// character sequences. Two contacts are the same peer reference exactly
/// when their values are equal.
pub struct ContactValue {
    pub pk: Seq<char>,
    pub relay_url: Seq<char>,
    pub alias: Seq<char>,
}

/// A reference to another protocol participant, held locally.
/// Equality is value equality over all fields.
pub struct Contact {
    /// The peer's public key, as hex text.
    pub pk: String,
    /// The relay where the peer is best reached.
    pub relay_url: String,
    /// A local display name.
    pub alias: String,
}

impl View for Contact {
    type V = ContactValue;

    open spec fn view(&self) -> ContactValue {
        ContactValue { pk: self.pk@, relay_url: self.relay_url@, alias: self.alias@ }
    }
}

impl Contact {
    /// Builds a contact from its parts.
    pub fn new(pk: String, relay_url: String, alias: String) -> (r: Self)
        ensures
            r@ == (ContactValue { pk: pk@, relay_url: relay_url@, alias: alias@ }),
    {
        Contact { pk, relay_url, alias }
    }
}

impl Clone for Contact {
    fn clone(&self) -> (r: Self)
        ensures
            r == *self,
    {
        Contact { pk: self.pk.clone(), relay_url: self.relay_url.clone(), alias: self.alias.clone() }
    }
}

impl PartialEq for Contact {
    fn eq(&self, other: &Contact) -> (r: bool) {
        self.pk == other.pk && self.relay_url == other.relay_url && self.alias == other.alias
    }
}

impl vstd::std_specs::cmp::PartialEqSpecImpl for Contact {
    open spec fn obeys_eq_spec() -> bool {
        true
    }

    open spec fn eq_spec(&self, other: &Contact) -> bool {
        self@ == other@
    }
}

/// The contact list is well formed: no two elements are the same peer
/// reference. Insertion order is the only order it keeps.
pub open spec fn contacts_wf(cs: Seq<Contact>) -> bool {
    forall|i: int, j: int| 0 <= i < j < cs.len() ==> cs[i]@ != cs[j]@
}

/// Whether the list holds a contact with the given value.
pub open spec fn contains_contact(cs: Seq<Contact>, c: ContactValue) -> bool {
    exists|i: int| 0 <= i < cs.len() && cs[i]@ == c
}

/// What adding a contact leaves behind: the list unchanged when the value
/// is already present, else the value appended at the end.
pub open spec fn add_contact_spec(cs: Seq<Contact>, c: Contact) -> Seq<Contact> {
    if contains_contact(cs, c@) {
        cs
    } else {
        cs.push(c)
    }
}

/// What removing a value leaves behind: every element with that value
/// taken out, the others kept in order.
pub open spec fn remove_contact_spec(cs: Seq<Contact>, c: ContactValue) -> Seq<Contact>
    decreases cs.len(),
{
    if cs.len() == 0 {
        Seq::empty()
    } else {
        let rest = remove_contact_spec(cs.drop_last(), c);
        if cs.last()@ == c {
            rest
        } else {
            rest.push(cs.last())
        }
    }
}

/// Removing a value that the list does not hold leaves the list unchanged.
pub proof fn lemma_remove_absent_is_noop(cs: Seq<Contact>, c: ContactValue)
    requires
        !contains_contact(cs, c),
    ensures
        remove_contact_spec(cs, c) == cs,
    decreases cs.len(),
{
    if cs.len() > 0 {
        assert(forall|i: int| 0 <= i < cs.drop_last().len() ==> cs.drop_last()[i] == cs[i]);
        lemma_remove_absent_is_noop(cs.drop_last(), c);
        assert(cs.last()@ != c) by {
            assert(cs[cs.len() - 1] == cs.last());
        }
        assert(remove_contact_spec(cs, c) == cs.drop_last().push(cs.last()));
        assert(cs.drop_last().push(cs.last()) =~= cs);
    } else {
        assert(remove_contact_spec(cs, c) =~= cs);
    }
}

/// Every value held after a removal was held before, and the removed value
/// is gone.
pub proof fn lemma_remove_contains(cs: Seq<Contact>, c: ContactValue)
    ensures
        forall|v: ContactValue|
            contains_contact(remove_contact_spec(cs, c), v) ==> contains_contact(cs, v),
        !contains_contact(remove_contact_spec(cs, c), c),
    decreases cs.len(),
{
    if cs.len() > 0 {
        lemma_remove_contains(cs.drop_last(), c);
        let rest = remove_contact_spec(cs.drop_last(), c);
        assert forall|v: ContactValue|
            contains_contact(remove_contact_spec(cs, c), v) implies contains_contact(cs, v) by {
            let r = remove_contact_spec(cs, c);
            let k = choose|k: int| 0 <= k < r.len() && r[k]@ == v;
            if cs.last()@ != c && k == r.len() - 1 {
                assert(cs[cs.len() - 1]@ == v);
            } else {
                assert(contains_contact(rest, v));
                assert(contains_contact(cs.drop_last(), v));
                let m = choose|m: int| 0 <= m < cs.drop_last().len() && cs.drop_last()[m]@ == v;
                assert(cs[m]@ == v);
            }
        }
    }
}

/// Removal keeps the list well formed.
pub proof fn lemma_remove_preserves_wf(cs: Seq<Contact>, c: ContactValue)
    requires
        contacts_wf(cs),
    ensures
        contacts_wf(remove_contact_spec(cs, c)),
    decreases cs.len(),
{
    if cs.len() > 0 {
        assert(forall|i: int| 0 <= i < cs.drop_last().len() ==> cs.drop_last()[i] == cs[i]);
        lemma_remove_preserves_wf(cs.drop_last(), c);
        lemma_remove_contains(cs.drop_last(), c);
        let rest = remove_contact_spec(cs.drop_last(), c);
        if cs.last()@ != c {
            assert forall|i: int, j: int|
                0 <= i < j < rest.push(cs.last()).len() implies rest.push(cs.last())[i]@
                != rest.push(cs.last())[j]@ by {
                if j == rest.len() {
                    assert(rest.push(cs.last())[i] == rest[i]);
                    if rest[i]@ == cs.last()@ {
                        assert(contains_contact(rest, cs.last()@));
                        assert(contains_contact(cs.drop_last(), cs.last()@));
                        let m = choose|m: int|
                            0 <= m < cs.drop_last().len() && cs.drop_last()[m]@ == cs.last()@;
                        assert(cs[m]@ == cs[cs.len() - 1]@);
                    }
                } else {
                    assert(rest.push(cs.last())[i] == rest[i]);
                    assert(rest.push(cs.last())[j] == rest[j]);
                }
            }
        }
    }
}

/// Adding the same value twice has the same result as adding it once:
/// contact insertion is idempotent.
pub proof fn lemma_add_idempotent(cs: Seq<Contact>, c: Contact)
    ensures
        add_contact_spec(add_contact_spec(cs, c), c) == add_contact_spec(cs, c),
{
    if !contains_contact(cs, c@) {
        assert(cs.push(c)[cs.len() as int]@ == c@);
        assert(contains_contact(cs.push(c), c@));
    }
}

/// Adding a contact keeps the list well formed.
pub proof fn lemma_add_preserves_wf(cs: Seq<Contact>, c: Contact)
    requires
        contacts_wf(cs),
    ensures
        contacts_wf(add_contact_spec(cs, c)),
{
    if !contains_contact(cs, c@) {
        let r = cs.push(c);
        assert forall|i: int, j: int| 0 <= i < j < r.len() implies r[i]@ != r[j]@ by {
            if j == cs.len() {
                assert(r[i] == cs[i]);
                assert(r[j] == c);
            } else {
                assert(r[i] == cs[i]);
                assert(r[j] == cs[j]);
            }
        }
    }
}

} // verus!
