//! The text menu as a state machine: what is shown in each stage, and what
//! one line of input does to the stage and to the contacts.

use vstd::prelude::*;
use crate::book::{
    add_contact, all_well_formed, delete_contact, lemma_added_is_well_formed,
    lemma_delete_keeps_well_formed, lemma_delete_with_match, lemma_delete_without_match,
    lemma_ordering_keeps_well_formed, listing, named, not_named, view_contacts, Rejection,
};
use crate::clock::Timestamp;
use crate::contact::{Contact, ContactView};
use crate::sorting::name_ordering_of;
use crate::text::{read_input, trimmed};
use crate::validate::{
    email_accepted, name_accepted, phone_accepted, validate_email, validate_name, validate_phone,
};

verus! {

/// The title above the menu.
pub const MENU_TITLE: &'static str = "Welcome to my Contact Manager";

/// The menu entry that opens the addition of a contact.
pub const MENU_ADD: &'static str = "1. Add a contact";

/// The menu entry that lists the contacts.
pub const MENU_VIEW: &'static str = "2. View all contacts";

/// The menu entry that opens the deletion of contacts.
pub const MENU_DELETE: &'static str = "3. Delete contact by name";

/// The menu entry that ends the dialogue.
pub const MENU_EXIT: &'static str = "4. Exit";

/// A line that holds a line break, shown around the title.
pub const BLANK: &'static str = "\n";

/// The prompt for a choice from the menu.
pub const ASK_CHOICE: &'static str = "Enter choice: ";

/// The prompt for the name of a new contact.
pub const ASK_NAME: &'static str = "Enter name: ";

/// The prompt for the phone number of a new contact.
pub const ASK_PHONE: &'static str = "Enter phone: ";

/// The prompt for the email address of a new contact.
pub const ASK_EMAIL: &'static str = "Enter email: ";

/// The prompt for the name to delete.
pub const ASK_DELETE: &'static str = "Enter name to delete: ";

/// The line above the addition of a contact.
pub const ADD_HEADING: &'static str = "\n--- Add Contact ---";

/// The line above the deletion of contacts.
pub const DELETE_HEADING: &'static str = "\n--- Delete Contact ---";

/// What is said once a contact is added.
pub const ADDED: &'static str = "Contact added.";

/// What is said once contacts are deleted.
pub const DELETED: &'static str = "Contact deleted.";

/// What is said where no contact goes by the name to delete.
pub const NOT_FOUND: &'static str = "Contact not found.";

/// What is said at the end of the dialogue.
pub const FAREWELL: &'static str = "Hope to see you back soon!";

/// What is said of a choice that the menu does not offer.
pub const INVALID_CHOICE: &'static str = "Invalid selection, please choose from 1-4.";

/// Where the dialogue stands: what the next line of input is taken for.
#[derive(Clone, Debug, PartialEq, Eq)]
pub enum Stage {
    /// A choice from the menu.
    Menu,
    /// The name of a new contact.
    AddName,
    /// The phone number of a new contact whose name is known.
    AddPhone { name: String },
    /// The email address of a new contact whose name and phone are known.
    AddEmail { name: String, phone: String },
    /// The name of the contacts to delete.
    Delete,
    /// Nothing: the dialogue is over.
    Exit,
}

/// A stage, as plain values.
pub enum StageView {
    Menu,
    AddName,
    AddPhone { name: Seq<char> },
    AddEmail { name: Seq<char>, phone: Seq<char> },
    Delete,
    Exit,
}

impl View for Stage {
    type V = StageView;

    open spec fn view(&self) -> StageView {
        match self {
            Stage::Menu => StageView::Menu,
            Stage::AddName => StageView::AddName,
            Stage::AddPhone { name } => StageView::AddPhone { name: name@ },
            Stage::AddEmail { name, phone } => StageView::AddEmail { name: name@, phone: phone@ },
            Stage::Delete => StageView::Delete,
            Stage::Exit => StageView::Exit,
        }
    }
}

/// What is shown before a line of input is read.
#[derive(Clone, Debug, PartialEq, Eq)]
pub struct Screen {
    /// Whole lines, shown first.
    pub lines: Vec<String>,
    /// The text after which the input is typed; none where nothing is read.
    pub prompt: Option<String>,
}

/// A screen, as plain values.
pub struct ScreenView {
    pub lines: Seq<Seq<char>>,
    pub prompt: Option<Seq<char>>,
}

impl View for Screen {
    type V = ScreenView;

    open spec fn view(&self) -> ScreenView {
        ScreenView {
            lines: self.lines.deep_view(),
            prompt: match self.prompt {
                Some(text) => Some(text@),
                None => None,
            },
        }
    }
}

/// The lines of the menu.
pub open spec fn menu_lines() -> Seq<Seq<char>> {
    seq![BLANK@, MENU_TITLE@, BLANK@, MENU_ADD@, MENU_VIEW@, MENU_DELETE@, MENU_EXIT@]
}

/// What is shown in each stage before a line of input is read.
pub open spec fn screen_of(stage: StageView) -> ScreenView {
    match stage {
        StageView::Menu => ScreenView { lines: menu_lines(), prompt: Some(ASK_CHOICE@) },
        StageView::AddName => ScreenView { lines: Seq::empty(), prompt: Some(ASK_NAME@) },
        StageView::AddPhone { .. } => ScreenView { lines: Seq::empty(), prompt: Some(ASK_PHONE@) },
        StageView::AddEmail { .. } => ScreenView { lines: Seq::empty(), prompt: Some(ASK_EMAIL@) },
        StageView::Delete => ScreenView { lines: Seq::empty(), prompt: Some(ASK_DELETE@) },
        StageView::Exit => ScreenView { lines: Seq::empty(), prompt: None },
    }
}

/// What is shown in `stage` before a line of input is read.
pub fn screen(stage: &Stage) -> (shown: Screen)
    ensures
        shown@ == screen_of(stage@),
{
    let mut lines: Vec<String> = Vec::new();
    let prompt = match stage {
        Stage::Menu => {
            lines.push(BLANK.to_owned());
            lines.push(MENU_TITLE.to_owned());
            lines.push(BLANK.to_owned());
            lines.push(MENU_ADD.to_owned());
            lines.push(MENU_VIEW.to_owned());
            lines.push(MENU_DELETE.to_owned());
            lines.push(MENU_EXIT.to_owned());
            Some(ASK_CHOICE.to_owned())
        },
        Stage::AddName => Some(ASK_NAME.to_owned()),
        Stage::AddPhone { .. } => Some(ASK_PHONE.to_owned()),
        Stage::AddEmail { .. } => Some(ASK_EMAIL.to_owned()),
        Stage::Delete => Some(ASK_DELETE.to_owned()),
        Stage::Exit => None,
    };
    proof {
        assert(lines.deep_view() =~= screen_of(stage@).lines);
    }
    Screen { lines, prompt }
}

/// What one line of input leads to.
#[derive(Clone, Debug, PartialEq, Eq)]
pub struct Reply {
    /// The stage in which the next line is read.
    pub stage: Stage,
    /// Whole lines to show.
    pub lines: Vec<String>,
    /// Whether the contacts are to be written to storage now.
    pub save: bool,
}

/// A reply, as plain values.
pub struct ReplyView {
    pub stage: StageView,
    pub lines: Seq<Seq<char>>,
    pub save: bool,
}

impl View for Reply {
    type V = ReplyView;

    open spec fn view(&self) -> ReplyView {
        ReplyView { stage: self.stage@, lines: self.lines.deep_view(), save: self.save }
    }
}

/// The contacts stay as they are and nothing is saved: the reply only shows
/// `lines` and moves to `stage`.
pub open spec fn only_says(
    before: Seq<Contact>,
    after: Seq<Contact>,
    reply: ReplyView,
    stage: StageView,
    lines: Seq<Seq<char>>,
) -> bool {
    after == before && reply == (ReplyView { stage, lines, save: false })
}

/// What the line `input`, already trimmed and read at the instant `now`, leads
/// to in `stage`: the contacts `before` become `after`, and `reply` is given.
///
/// A choice from the menu opens one of the operations, lists the contacts in
/// the order of their keys, ends the dialogue, or is refused. Each field of a
/// new contact is asked for until it is valid; with the last of them the
/// contact is appended, made at `now`, and the contacts are saved. A name to
/// delete removes every contact that goes by it, and the contacts are saved
/// whether or not there was one.
pub open spec fn responds(
    before: Seq<Contact>,
    stage: StageView,
    input: Seq<char>,
    now: Timestamp,
    after: Seq<Contact>,
    reply: ReplyView,
) -> bool {
    match stage {
        StageView::Menu => {
            if input == "1"@ {
                only_says(before, after, reply, StageView::AddName, seq![ADD_HEADING@])
            } else if input == "2"@ {
                &&& name_ordering_of(after, before)
                &&& reply == (ReplyView {
                    stage: StageView::Menu,
                    lines: listing(after),
                    save: false,
                })
            } else if input == "3"@ {
                only_says(before, after, reply, StageView::Delete, seq![DELETE_HEADING@])
            } else if input == "4"@ {
                only_says(before, after, reply, StageView::Exit, seq![FAREWELL@])
            } else {
                only_says(before, after, reply, StageView::Menu, seq![INVALID_CHOICE@])
            }
        },
        StageView::AddName => {
            if name_accepted(input) {
                only_says(before, after, reply, StageView::AddPhone { name: input }, Seq::empty())
            } else {
                only_says(
                    before,
                    after,
                    reply,
                    StageView::AddName,
                    seq![Rejection::Name.spec_message()],
                )
            }
        },
        StageView::AddPhone { name } => {
            if phone_accepted(input) {
                only_says(
                    before,
                    after,
                    reply,
                    StageView::AddEmail { name, phone: input },
                    Seq::empty(),
                )
            } else {
                only_says(
                    before,
                    after,
                    reply,
                    StageView::AddPhone { name },
                    seq![Rejection::Phone.spec_message()],
                )
            }
        },
        StageView::AddEmail { name, phone } => {
            if !email_accepted(input) {
                only_says(
                    before,
                    after,
                    reply,
                    StageView::AddEmail { name, phone },
                    seq![Rejection::Email.spec_message()],
                )
            } else if !name_accepted(name) {
                only_says(
                    before,
                    after,
                    reply,
                    StageView::AddName,
                    seq![Rejection::Name.spec_message()],
                )
            } else if !phone_accepted(phone) {
                only_says(
                    before,
                    after,
                    reply,
                    StageView::AddPhone { name },
                    seq![Rejection::Phone.spec_message()],
                )
            } else {
                &&& after.len() == before.len() + 1
                &&& after.drop_last() == before
                &&& after.last()@ == (ContactView {
                    name,
                    phone,
                    email: input,
                    created_at: now,
                })
                &&& reply == (ReplyView { stage: StageView::Menu, lines: seq![ADDED@], save: true })
            }
        },
        StageView::Delete => {
            &&& after == before.filter(not_named(input))
            &&& reply == (ReplyView {
                stage: StageView::Menu,
                lines: seq![
                    if after.len() < before.len() {
                        DELETED@
                    } else {
                        NOT_FOUND@
                    },
                ],
                save: true,
            })
        },
        StageView::Exit => only_says(before, after, reply, StageView::Exit, Seq::empty()),
    }
}

/// Whatever a line of input leads to, well-formed contacts stay well formed.
pub proof fn lemma_responds_keeps_well_formed(
    before: Seq<Contact>,
    stage: StageView,
    input: Seq<char>,
    now: Timestamp,
    after: Seq<Contact>,
    reply: ReplyView,
)
    requires
        all_well_formed(before),
        responds(before, stage, input, now, after, reply),
    ensures
        all_well_formed(after),
{
    match stage {
        StageView::Menu => {
            if input != "1"@ && input == "2"@ {
                lemma_ordering_keeps_well_formed(after, before);
            }
        },
        StageView::AddEmail { name, phone } => {
            if email_accepted(input) && name_accepted(name) && phone_accepted(phone) {
                lemma_added_is_well_formed(before, after);
            }
        },
        StageView::Delete => {
            lemma_delete_keeps_well_formed(before, input);
        },
        _ => {},
    }
}

/// The contacts change only where a contact is added or a name is deleted,
/// and the order of the others only where they are listed; they are saved
/// exactly after an addition and after a deletion.
pub proof fn lemma_saved_when_changed(
    before: Seq<Contact>,
    stage: StageView,
    input: Seq<char>,
    now: Timestamp,
    after: Seq<Contact>,
    reply: ReplyView,
)
    requires
        responds(before, stage, input, now, after, reply),
    ensures
        !reply.save ==> after.to_multiset() == before.to_multiset(),
        reply.save ==> reply.stage == StageView::Menu,
        reply.save <==> stage == StageView::Delete || after.len() == before.len() + 1,
{
    if stage == StageView::Delete {
        before.lemma_filter_len(not_named(input));
    }
}

/// Whether `input` is valid as the field that `stage` asks for; true of the
/// stages that ask for no field of a contact.
pub open spec fn asked_field_accepted(stage: StageView, input: Seq<char>) -> bool {
    match stage {
        StageView::AddName => name_accepted(input),
        StageView::AddPhone { .. } => phone_accepted(input),
        StageView::AddEmail { .. } => email_accepted(input),
        _ => true,
    }
}

/// A field that is not valid is asked for again, as often as it takes: the
/// stage stays, the contacts stay, and nothing is saved.
pub proof fn lemma_rejected_field_is_asked_again(
    before: Seq<Contact>,
    stage: StageView,
    input: Seq<char>,
    now: Timestamp,
    after: Seq<Contact>,
    reply: ReplyView,
)
    requires
        responds(before, stage, input, now, after, reply),
        !asked_field_accepted(stage, input),
    ensures
        reply.stage == stage,
        reply.lines.len() == 1,
        !reply.save,
        after == before,
{
}

/// Choosing the addition from the menu and typing a valid name, a valid
/// phone number and a valid email address appends one contact with these
/// fields, made at the instant at which the email address was read, and
/// leads back to the menu; the contacts are saved at the end and not before.
pub proof fn lemma_addition_appends(
    contacts: Seq<Seq<Contact>>,
    replies: Seq<ReplyView>,
    instants: Seq<Timestamp>,
    name: Seq<char>,
    phone: Seq<char>,
    email: Seq<char>,
)
    requires
        contacts.len() == 5,
        replies.len() == 4,
        instants.len() == 4,
        name_accepted(name),
        phone_accepted(phone),
        email_accepted(email),
        responds(contacts[0], StageView::Menu, "1"@, instants[0], contacts[1], replies[0]),
        responds(contacts[1], replies[0].stage, name, instants[1], contacts[2], replies[1]),
        responds(contacts[2], replies[1].stage, phone, instants[2], contacts[3], replies[2]),
        responds(contacts[3], replies[2].stage, email, instants[3], contacts[4], replies[3]),
    ensures
        contacts[4].len() == contacts[0].len() + 1,
        contacts[4].drop_last() == contacts[0],
        contacts[4].last()@ == (ContactView { name, phone, email, created_at: instants[3] }),
        replies[3].stage == StageView::Menu,
        replies[3].save,
        !replies[0].save && !replies[1].save && !replies[2].save,
{
}

/// Choosing the deletion from the menu and typing a name removes every
/// contact that goes by it in any case and no other, says whether there was
/// one, saves the contacts either way and leads back to the menu.
pub proof fn lemma_deletion_removes(
    contacts: Seq<Seq<Contact>>,
    replies: Seq<ReplyView>,
    instants: Seq<Timestamp>,
    name: Seq<char>,
)
    requires
        contacts.len() == 3,
        replies.len() == 2,
        instants.len() == 2,
        responds(contacts[0], StageView::Menu, "3"@, instants[0], contacts[1], replies[0]),
        responds(contacts[1], replies[0].stage, name, instants[1], contacts[2], replies[1]),
    ensures
        contacts[2] == contacts[0].filter(not_named(name)),
        replies[1].lines == seq![
            if exists|i: int| 0 <= i < contacts[0].len() && named(name)(contacts[0][i]) {
                DELETED@
            } else {
                NOT_FOUND@
            },
        ],
        replies[1].stage == StageView::Menu,
        replies[1].save,
        !replies[0].save,
{
    reveal_strlit("1");
    reveal_strlit("3");
    assert("3"@ != "1"@) by {
        assert("3"@[0] != "1"@[0]);
    }
    reveal_strlit("2");
    assert("3"@ != "2"@) by {
        assert("3"@[0] != "2"@[0]);
    }
    if exists|i: int| 0 <= i < contacts[0].len() && named(name)(contacts[0][i]) {
        let i = choose|i: int| 0 <= i < contacts[0].len() && named(name)(contacts[0][i]);
        lemma_delete_with_match(contacts[0], name, i);
    } else {
        lemma_delete_without_match(contacts[0], name);
    }
}

fn say(stage: Stage, text: String) -> (reply: Reply)
    ensures
        reply@ == (ReplyView { stage: stage@, lines: seq![text@], save: false }),
{
    let mut lines: Vec<String> = Vec::new();
    lines.push(text);
    proof {
        assert(lines.deep_view() =~= seq![text@]);
    }
    Reply { stage, lines, save: false }
}

fn pass(stage: Stage) -> (reply: Reply)
    ensures
        reply@ == (ReplyView { stage: stage@, lines: Seq::empty(), save: false }),
{
    let lines: Vec<String> = Vec::new();
    proof {
        assert(lines.deep_view() =~= Seq::<Seq<char>>::empty());
    }
    Reply { stage, lines, save: false }
}

fn is_word(input: &String, word: &str) -> (same: bool)
    ensures
        same == (input@ == word@),
{
    let other = word.to_owned();
    *input == other
}

/// Takes one line of input, read at the instant `now`, in `stage`: trims it,
/// does to the contacts what it asks for, and says what to show, where to go
/// on and whether to save.
pub fn respond(
    contacts: &mut Vec<Contact>,
    stage: Stage,
    line: &str,
    now: Timestamp,
) -> (reply: Reply)
    ensures
        responds(old(contacts)@, stage@, trimmed(line@), now, final(contacts)@, reply@),
{
    let input = read_input(line);
    match stage {
        Stage::Menu => {
            if is_word(&input, "1") {
                say(Stage::AddName, ADD_HEADING.to_owned())
            } else if is_word(&input, "2") {
                let lines = view_contacts(contacts);
                Reply { stage: Stage::Menu, lines, save: false }
            } else if is_word(&input, "3") {
                say(Stage::Delete, DELETE_HEADING.to_owned())
            } else if is_word(&input, "4") {
                say(Stage::Exit, FAREWELL.to_owned())
            } else {
                say(Stage::Menu, INVALID_CHOICE.to_owned())
            }
        },
        Stage::AddName => {
            if validate_name(input.as_str()) {
                pass(Stage::AddPhone { name: input })
            } else {
                say(Stage::AddName, Rejection::Name.message())
            }
        },
        Stage::AddPhone { name } => {
            if validate_phone(input.as_str()) {
                pass(Stage::AddEmail { name, phone: input })
            } else {
                say(Stage::AddPhone { name }, Rejection::Phone.message())
            }
        },
        Stage::AddEmail { name, phone } => {
            if !validate_email(input.as_str()) {
                say(Stage::AddEmail { name, phone }, Rejection::Email.message())
            } else {
                let kept = name.clone();
                match add_contact(contacts, name, phone, input, now) {
                    Ok(()) => {
                        let mut reply = say(Stage::Menu, ADDED.to_owned());
                        reply.save = true;
                        reply
                    },
                    Err(Rejection::Name) => say(Stage::AddName, Rejection::Name.message()),
                    Err(Rejection::Phone) => say(
                        Stage::AddPhone { name: kept },
                        Rejection::Phone.message(),
                    ),
                    Err(Rejection::Email) => {
                        proof {
                            assert(false);
                        }
                        vstd::pervasive::unreached()
                    },
                }
            }
        },
        Stage::Delete => {
            let removed = delete_contact(contacts, input.as_str());
            let text = if removed {
                DELETED
            } else {
                NOT_FOUND
            };
            let mut reply = say(Stage::Menu, text.to_owned());
            reply.save = true;
            reply
        },
        Stage::Exit => pass(Stage::Exit),
    }
}

} // verus!
