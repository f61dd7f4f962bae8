//! The collection of contacts and the three operations on it.

use vstd::prelude::*;
use vstd::string::StringExecFns;
use crate::clock::Timestamp;
use crate::contact::{name_key, Contact, ContactView};
use crate::filters::{lemma_filter_all, lemma_filter_push, lemma_filter_within};
use crate::sorting::{name_ordering_of, sort_by_name};
use crate::text::{
    alike_but_for_case, ascii_text, decimal, lemma_lowercase_of_ascii, lowercase, push_decimal,
};
use crate::validate::{
    email_accepted, name_accepted, phone_accepted, validate_email, validate_name, validate_phone,
};

verus! {

/// The contacts that go by `name`, whatever the case of its letters.
pub open spec fn named(name: Seq<char>) -> spec_fn(Contact) -> bool {
    |c: Contact| name_key(c) == lowercase(name)
}

/// The contacts that do not go by `name`.
pub open spec fn not_named(name: Seq<char>) -> spec_fn(Contact) -> bool {
    |c: Contact| name_key(c) != lowercase(name)
}

/// Deleting by a name that no contact goes by leaves the contacts as they
/// are.
pub proof fn lemma_delete_without_match(s: Seq<Contact>, name: Seq<char>)
    requires
        forall|i: int| 0 <= i < s.len() ==> !named(name)(s[i]),
    ensures
        s.filter(not_named(name)) == s,
{
    lemma_filter_all(s, not_named(name));
}

/// Deleting by a name that a contact goes by leaves fewer contacts.
pub proof fn lemma_delete_with_match(s: Seq<Contact>, name: Seq<char>, i: int)
    requires
        0 <= i < s.len(),
        named(name)(s[i]),
    ensures
        s.filter(not_named(name)).len() < s.len(),
{
    lemma_delete_removes_every_match(s, name);
    s.lemma_filter_contains(named(name), i);
}

/// Deleting by a name leaves no contact that goes by it, however many there
/// were, and takes away as many contacts as went by it.
pub proof fn lemma_delete_removes_every_match(s: Seq<Contact>, name: Seq<char>)
    ensures
        forall|i: int|
            0 <= i < s.filter(not_named(name)).len() ==> !named(name)(
                #[trigger] s.filter(not_named(name))[i],
            ),
        s.filter(not_named(name)).len() + s.filter(named(name)).len() == s.len(),
    decreases s.len(),
{
    reveal(Seq::filter);
    if s.len() > 0 {
        lemma_delete_removes_every_match(s.drop_last(), name);
    }
}

/// A contact is deleted by its name in any case: by every text whose
/// lowercase form is that of the contact's name.
pub proof fn lemma_delete_ignores_case(s: Seq<Contact>, c: Contact, name: Seq<char>)
    requires
        lowercase(name) == lowercase(c.name@),
    ensures
        s.push(c).filter(not_named(name)) == s.filter(not_named(name)),
        s.push(c).filter(not_named(name)).len() < s.push(c).len(),
{
    lemma_filter_push(s, c, not_named(name));
    s.lemma_filter_len(not_named(name));
}

/// A contact whose name is of ASCII alone is deleted by every text of ASCII
/// that is its name but for the case of its letters, and by no other text of
/// ASCII.
pub proof fn lemma_delete_ignores_ascii_case(s: Seq<Contact>, c: Contact, name: Seq<char>)
    requires
        ascii_text(name),
        ascii_text(c.name@),
    ensures
        alike_but_for_case(name, c.name@) ==> s.push(c).filter(not_named(name)) == s.filter(
            not_named(name),
        ),
        !alike_but_for_case(name, c.name@) ==> s.push(c).filter(not_named(name)) == s.filter(
            not_named(name),
        ).push(c),
{
    lemma_lowercase_of_ascii(name, c.name@);
    lemma_filter_push(s, c, not_named(name));
}

/// Removes every contact that goes by `name`, whatever the case of its
/// letters, and says whether there was one.
pub fn delete_contact(contacts: &mut Vec<Contact>, name: &str) -> (removed: bool)
    ensures
        final(contacts)@ == old(contacts)@.filter(not_named(name@)),
        removed == (final(contacts)@.len() < old(contacts)@.len()),
        removed == exists|i: int| 0 <= i < old(contacts)@.len() && named(name@)(old(contacts)@[i]),
        !removed ==> final(contacts)@ == old(contacts)@,
{
    let wanted = name.to_lowercase();
    let ghost before = contacts@;
    let ghost keep = not_named(name@);
    let ghost mut seen: int = 0;
    let mut removed = false;
    let mut i: usize = 0;
    while i < contacts.len()
        invariant
            wanted@ == lowercase(name@),
            keep == not_named(name@),
            0 <= i <= contacts.len(),
            i <= seen,
            contacts.len() - i == before.len() - seen,
            contacts@.take(i as int) == before.take(seen).filter(keep),
            forall|j: int| i <= j < contacts.len() ==> contacts@[j] == before[j - i + seen],
            removed == (i < seen),
            removed == exists|j: int| 0 <= j < seen && named(name@)(before[j]),
        decreases contacts.len() - i,
    {
        let ghost current = contacts@;
        proof {
            assert(before.take(seen + 1) =~= before.take(seen).push(before[seen]));
            lemma_filter_push(before.take(seen), before[seen], keep);
            before.take(seen).lemma_filter_len(keep);
        }
        let key = contacts[i].key();
        if key == wanted {
            contacts.remove(i);
            removed = true;
            proof {
                assert(contacts@.take(i as int) =~= current.take(i as int));
                assert(named(name@)(before[seen]));
                seen = seen + 1;
            }
        } else {
            proof {
                assert(current.take(i + 1) =~= current.take(i as int).push(current[i as int]));
                seen = seen + 1;
            }
            i += 1;
        }
    }
    proof {
        assert(contacts@.take(i as int) =~= contacts@);
        assert(before.take(seen) =~= before);
        if !removed {
            lemma_delete_without_match(before, name@);
        }
    }
    removed
}

/// The line above a listing.
pub const VIEW_HEADING: &'static str = "\n--- All Contacts ---";

/// The line that stands for an empty listing.
pub const NONE_FOUND: &'static str = "No contacts found.";

/// The line of a listing that shows the contact `c` under the number `number`.
pub open spec fn entry_line(number: nat, c: ContactView) -> Seq<char> {
    decimal(number) + ". Name: "@ + c.name + ", Phone: "@ + c.phone + ", Email: "@ + c.email
        + ", Created At: "@ + c.created_at.spec_text()
}

/// The lines that show the contacts `s` in the order they stand in, numbered
/// from one.
pub open spec fn listing(s: Seq<Contact>) -> Seq<Seq<char>> {
    if s.len() == 0 {
        seq![VIEW_HEADING@, NONE_FOUND@]
    } else {
        seq![VIEW_HEADING@] + Seq::new(s.len(), |i: int| entry_line((i + 1) as nat, s[i]@))
    }
}

/// The line of a listing that shows `contact` under the number `number`.
pub fn format_entry(number: usize, contact: &Contact) -> (line: String)
    ensures
        line@ == entry_line(number as nat, contact@),
{
    let mut line = String::new();
    push_decimal(&mut line, number);
    line.append(". Name: ");
    line.append(contact.name.as_str());
    line.append(", Phone: ");
    line.append(contact.phone.as_str());
    line.append(", Email: ");
    line.append(contact.email.as_str());
    line.append(", Created At: ");
    let shown = contact.created_at.text();
    line.append(shown.as_str());
    proof {
        assert(line@ =~= entry_line(number as nat, contact@));
    }
    line
}

/// Puts the contacts in the order of their keys and returns the lines that
/// show them in that order.
pub fn view_contacts(contacts: &mut Vec<Contact>) -> (lines: Vec<String>)
    ensures
        name_ordering_of(final(contacts)@, old(contacts)@),
        lines.deep_view() == listing(final(contacts)@),
{
    let mut lines: Vec<String> = Vec::new();
    lines.push(VIEW_HEADING.to_owned());
    if contacts.is_empty() {
        lines.push(NONE_FOUND.to_owned());
        proof {
            assert(name_ordering_of(contacts@, contacts@));
            assert(lines.deep_view() =~= listing(contacts@));
        }
        return lines;
    }
    sort_by_name(contacts);
    let mut i: usize = 0;
    while i < contacts.len()
        invariant
            0 <= i <= contacts.len(),
            lines.len() == i + 1,
            lines[0]@ == VIEW_HEADING@,
            forall|j: int| 0 <= j < i ==> (#[trigger] lines[j + 1])@ == entry_line(
                (j + 1) as nat,
                contacts@[j]@,
            ),
        decreases contacts.len() - i,
    {
        let line = format_entry(i + 1, &contacts[i]);
        lines.push(line);
        i += 1;
    }
    proof {
        let got = lines.deep_view();
        let want = listing(contacts@);
        assert(got.len() == want.len());
        assert forall|k: int| 0 <= k < got.len() implies got[k] == want[k] by {
            if k > 0 {
                assert((lines[(k - 1) + 1])@ == entry_line(k as nat, contacts@[k - 1]@));
            }
        }
        assert(got =~= want);
    }
    lines
}

/// The reason for which a contact is not taken.
#[derive(Clone, Copy, Debug, PartialEq, Eq)]
pub enum Rejection {
    /// The name is empty or holds something other than letters and whitespace.
    Name,
    /// The phone number is not ten or more digits.
    Phone,
    /// The email address does not have the shape of one.
    Email,
}

/// What is said of a name that is not taken.
pub const NAME_REJECTED: &'static str = "Name must be alphabetic and non-empty.";

/// What is said of a phone number that is not taken.
pub const PHONE_REJECTED: &'static str = "Phone must be digits only and at least 10 digits.";

/// What is said of an email address that is not taken.
pub const EMAIL_REJECTED: &'static str = "Invalid email format.";

impl Rejection {
    /// What is said of a field that is not taken for this reason.
    pub open spec fn spec_message(self) -> Seq<char> {
        match self {
            Rejection::Name => NAME_REJECTED@,
            Rejection::Phone => PHONE_REJECTED@,
            Rejection::Email => EMAIL_REJECTED@,
        }
    }

    /// What is said of a field that is not taken for this reason.
    pub fn message(&self) -> (text: String)
        ensures
            text@ == self.spec_message(),
    {
        match self {
            Rejection::Name => NAME_REJECTED.to_owned(),
            Rejection::Phone => PHONE_REJECTED.to_owned(),
            Rejection::Email => EMAIL_REJECTED.to_owned(),
        }
    }
}

/// The first reason, going from name to phone to email, for which a contact
/// with these fields is not taken.
pub open spec fn rejection(name: Seq<char>, phone: Seq<char>, email: Seq<char>) -> Option<
    Rejection,
> {
    if !name_accepted(name) {
        Some(Rejection::Name)
    } else if !phone_accepted(phone) {
        Some(Rejection::Phone)
    } else if !email_accepted(email) {
        Some(Rejection::Email)
    } else {
        None
    }
}

/// Appends a contact with these fields where all three are valid, and
/// otherwise leaves the contacts as they are and gives the first reason.
pub fn add_contact(
    contacts: &mut Vec<Contact>,
    name: String,
    phone: String,
    email: String,
    created_at: Timestamp,
) -> (added: Result<(), Rejection>)
    ensures
        match rejection(name@, phone@, email@) {
            Some(why) => added == Err::<(), Rejection>(why) && final(contacts)@ == old(contacts)@,
            None => {
                &&& added is Ok
                &&& final(contacts)@.len() == old(contacts)@.len() + 1
                &&& final(contacts)@.drop_last() == old(contacts)@
                &&& final(contacts)@.last()@ == (ContactView {
                    name: name@,
                    phone: phone@,
                    email: email@,
                    created_at,
                })
            },
        },
{
    if !validate_name(name.as_str()) {
        return Err(Rejection::Name);
    }
    if !validate_phone(phone.as_str()) {
        return Err(Rejection::Phone);
    }
    if !validate_email(email.as_str()) {
        return Err(Rejection::Email);
    }
    let ghost before = contacts@;
    contacts.push(Contact { name, phone, email, created_at });
    proof {
        assert(contacts@.drop_last() =~= before);
    }
    Ok(())
}

/// A contact whose three fields are valid.
pub open spec fn well_formed(c: ContactView) -> bool {
    rejection(c.name, c.phone, c.email) is None
}

/// Contacts whose fields are all valid.
pub open spec fn all_well_formed(s: Seq<Contact>) -> bool {
    forall|i: int| 0 <= i < s.len() ==> well_formed(#[trigger] s[i]@)
}

/// A contact that `add_contact` has taken is well formed, and so are the
/// contacts with it where they were before.
pub proof fn lemma_added_is_well_formed(before: Seq<Contact>, after: Seq<Contact>)
    requires
        all_well_formed(before),
        after.len() == before.len() + 1,
        after.drop_last() == before,
        well_formed(after.last()@),
    ensures
        all_well_formed(after),
{
    assert forall|i: int| 0 <= i < after.len() implies well_formed(#[trigger] after[i]@) by {
        if i < before.len() {
            assert(after[i] == after.drop_last()[i]);
        }
    }
}

/// Deleting leaves well-formed contacts well formed.
pub proof fn lemma_delete_keeps_well_formed(s: Seq<Contact>, name: Seq<char>)
    requires
        all_well_formed(s),
    ensures
        all_well_formed(s.filter(not_named(name))),
{
    let kept = s.filter(not_named(name));
    assert forall|i: int| 0 <= i < kept.len() implies well_formed(#[trigger] kept[i]@) by {
        lemma_filter_within(s, not_named(name), i);
    }
}

/// Ordering leaves well-formed contacts well formed.
pub proof fn lemma_ordering_keeps_well_formed(after: Seq<Contact>, before: Seq<Contact>)
    requires
        all_well_formed(before),
        name_ordering_of(after, before),
    ensures
        all_well_formed(after),
{
    assert forall|i: int| 0 <= i < after.len() implies well_formed(#[trigger] after[i]@) by {
        vstd::seq_lib::to_multiset_contains(after, after[i]);
        vstd::seq_lib::to_multiset_contains(before, after[i]);
        assert(after.contains(after[i]));
    }
}

/// The contacts to start with: those that storage gave, and none where it
/// gave nothing that could be read as contacts.
pub fn load_contacts(stored: Option<Vec<Contact>>) -> (contacts: Vec<Contact>)
    ensures
        contacts@ == match stored {
            Some(found) => found@,
            None => Seq::<Contact>::empty(),
        },
{
    match stored {
        Some(found) => found,
        None => Vec::new(),
    }
}

} // verus!
