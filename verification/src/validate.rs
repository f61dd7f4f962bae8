//! The three field validators.

use vstd::prelude::*;
use crate::pattern::{finds, search};
use crate::text::{
    alphabetic, ascii_digit, ascii_punctuation, lemma_trimmed, trimmed, whitespace,
};

verus! {

/// Every character of `s` is a letter or whitespace.
pub open spec fn letters_and_blanks(s: Seq<char>) -> bool {
    forall|i: int| 0 <= i < s.len() ==> alphabetic(#[trigger] s[i]) || whitespace(s[i])
}

/// The names that a contact may have: letters and whitespace only, with
/// something left once the surrounding whitespace is gone.
pub open spec fn name_accepted(s: Seq<char>) -> bool {
    trimmed(s).len() > 0 && letters_and_blanks(s)
}

/// Whether `name` may be a contact's name.
pub fn validate_name(name: &str) -> (ok: bool)
    ensures
        ok == name_accepted(name@),
{
    let mut ok = true;
    let mut visible = false;
    for c in it: name.chars()
        invariant
            it.seq() == name@,
            ok == letters_and_blanks(name@.take(it.index())),
            visible == exists|i: int| 0 <= i < it.index() && !whitespace(name@[i]),
    {
        proof {
            let seen = name@.take(it.index());
            let more = name@.take(it.index() + 1);
            assert(more[it.index()] == c);
            assert(forall|i: int| 0 <= i < seen.len() ==> seen[i] == more[i]);
        }
        let blank = c.is_whitespace();
        ok = ok && (c.is_alphabetic() || blank);
        visible = visible || !blank;
    }
    proof {
        assert(name@.take(name@.len() as int) =~= name@);
        lemma_trimmed(name@);
    }
    ok && visible
}

/// A text of letters and spaces of which something is left after trimming is
/// a name.
pub proof fn lemma_letters_and_spaces_make_a_name(s: Seq<char>)
    requires
        forall|i: int| 0 <= i < s.len() ==> alphabetic(s[i]) || s[i] == ' ',
        trimmed(s).len() > 0,
    ensures
        name_accepted(s),
{
}

/// A text that holds a decimal digit of ASCII is no name, whatever else it
/// holds.
pub proof fn lemma_digit_spoils_a_name(s: Seq<char>, i: int)
    requires
        0 <= i < s.len(),
        ascii_digit(s[i]),
    ensures
        !name_accepted(s),
{
}

/// A text that holds a punctuation mark or a symbol of ASCII is no name,
/// whatever else it holds.
pub proof fn lemma_punctuation_spoils_a_name(s: Seq<char>, i: int)
    requires
        0 <= i < s.len(),
        ascii_punctuation(s[i]),
    ensures
        !name_accepted(s),
{
}

/// A text that holds a character which is neither a letter nor whitespace is
/// no name, whatever else it holds.
pub proof fn lemma_other_character_spoils_a_name(s: Seq<char>, i: int)
    requires
        0 <= i < s.len(),
        !alphabetic(s[i]),
        !whitespace(s[i]),
    ensures
        !name_accepted(s),
{
}

/// A text of nothing but whitespace, the empty text among them, is no name.
pub proof fn lemma_blank_is_no_name(s: Seq<char>)
    requires
        forall|i: int| 0 <= i < s.len() ==> whitespace(s[i]),
    ensures
        !name_accepted(s),
{
    lemma_trimmed(s);
}

/// The expression that a phone number has to match from end to end: ten or
/// more decimal digits and nothing else.
pub const PHONE_PATTERN: &'static str = r"^\d{10,}$";

/// The expression that an email address has to match from end to end: word
/// characters, dots and hyphens on both sides of an `@`, then a dot and a
/// suffix of word characters.
pub const EMAIL_PATTERN: &'static str = r"^[\w\.-]+@[\w\.-]+\.\w+$";

/// The phone numbers that a contact may have.
pub open spec fn phone_accepted(s: Seq<char>) -> bool {
    finds(PHONE_PATTERN@, s)
}

/// The email addresses that a contact may have.
pub open spec fn email_accepted(s: Seq<char>) -> bool {
    finds(EMAIL_PATTERN@, s)
}

/// Whether `phone` may be a contact's phone number.
pub fn validate_phone(phone: &str) -> (ok: bool)
    ensures
        ok == phone_accepted(phone@),
{
    search(PHONE_PATTERN, phone)
}

/// Whether `email` may be a contact's email address.
pub fn validate_email(email: &str) -> (ok: bool)
    ensures
        ok == email_accepted(email@),
{
    search(EMAIL_PATTERN, email)
}

} // verus!
