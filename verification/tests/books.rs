use contact_book::book::{
    add_contact, delete_contact, format_entry, load_contacts, view_contacts, Rejection,
};
use contact_book::clock::Timestamp;
use contact_book::contact::Contact;
use contact_book::sorting::sort_by_name;

fn at(secs: i64) -> Timestamp {
    Timestamp::new(secs, 0).unwrap()
}

fn contact(name: &str, secs: i64) -> Contact {
    Contact {
        name: name.to_string(),
        phone: "0123456789".to_string(),
        email: "someone@example.org".to_string(),
        created_at: at(secs),
    }
}

fn names(contacts: &[Contact]) -> Vec<String> {
    contacts.iter().map(|c| c.name.clone()).collect()
}

fn stamps(contacts: &[Contact]) -> Vec<i64> {
    contacts.iter().map(|c| c.created_at.secs()).collect()
}

#[test]
fn add_appends_a_valid_contact() {
    let mut contacts = vec![contact("Zed", 1)];
    let added = add_contact(
        &mut contacts,
        "Alice".to_string(),
        "0123456789".to_string(),
        "alice@example.org".to_string(),
        at(1431648000),
    );
    assert_eq!(added, Ok(()));
    assert_eq!(contacts.len(), 2);
    assert_eq!(contacts[0], contact("Zed", 1));
    assert_eq!(
        contacts[1],
        Contact {
            name: "Alice".to_string(),
            phone: "0123456789".to_string(),
            email: "alice@example.org".to_string(),
            created_at: at(1431648000),
        }
    );
}

#[test]
fn add_does_not_look_for_duplicates() {
    let mut contacts = Vec::new();
    for secs in 0..3 {
        let added = add_contact(
            &mut contacts,
            "Alice".to_string(),
            "0123456789".to_string(),
            "alice@example.org".to_string(),
            at(secs),
        );
        assert_eq!(added, Ok(()));
    }
    assert_eq!(names(&contacts), vec!["Alice", "Alice", "Alice"]);
    assert_eq!(stamps(&contacts), vec![0, 1, 2]);
}

#[test]
fn add_refuses_a_bad_name() {
    let mut contacts = vec![contact("Zed", 1)];
    let added = add_contact(
        &mut contacts,
        "Al1ce".to_string(),
        "0123456789".to_string(),
        "alice@example.org".to_string(),
        at(2),
    );
    assert_eq!(added, Err(Rejection::Name));
    assert_eq!(contacts, vec![contact("Zed", 1)]);
}

#[test]
fn add_refuses_a_bad_phone() {
    let mut contacts = Vec::new();
    let added = add_contact(
        &mut contacts,
        "Alice".to_string(),
        "012345".to_string(),
        "alice@example.org".to_string(),
        at(2),
    );
    assert_eq!(added, Err(Rejection::Phone));
    assert!(contacts.is_empty());
}

#[test]
fn add_refuses_a_bad_email() {
    let mut contacts = Vec::new();
    let added = add_contact(
        &mut contacts,
        "Alice".to_string(),
        "0123456789".to_string(),
        "alice".to_string(),
        at(2),
    );
    assert_eq!(added, Err(Rejection::Email));
    assert!(contacts.is_empty());
}

#[test]
fn add_names_the_first_bad_field() {
    let mut contacts = Vec::new();
    let added =
        add_contact(&mut contacts, "".to_string(), "x".to_string(), "y".to_string(), at(2));
    assert_eq!(added, Err(Rejection::Name));
    let added =
        add_contact(&mut contacts, "Al".to_string(), "x".to_string(), "y".to_string(), at(2));
    assert_eq!(added, Err(Rejection::Phone));
    assert!(contacts.is_empty());
}

#[test]
fn rejection_messages() {
    assert_eq!(Rejection::Name.message(), "Name must be alphabetic and non-empty.");
    assert_eq!(
        Rejection::Phone.message(),
        "Phone must be digits only and at least 10 digits."
    );
    assert_eq!(Rejection::Email.message(), "Invalid email format.");
}

#[test]
fn delete_is_case_insensitive() {
    let mut contacts = vec![contact("Alice", 1)];
    assert!(delete_contact(&mut contacts, "alice"));
    assert!(contacts.is_empty());
    let mut contacts = vec![contact("alice", 1)];
    assert!(delete_contact(&mut contacts, "ALICE"));
    assert!(contacts.is_empty());
}

#[test]
fn delete_without_match_changes_nothing() {
    let mut contacts = vec![contact("Alice", 1), contact("Bob", 2)];
    assert!(!delete_contact(&mut contacts, "Carol"));
    assert_eq!(contacts, vec![contact("Alice", 1), contact("Bob", 2)]);
}

#[test]
fn delete_from_nothing_finds_nothing() {
    let mut contacts: Vec<Contact> = Vec::new();
    assert!(!delete_contact(&mut contacts, "Alice"));
    assert!(contacts.is_empty());
}

#[test]
fn delete_removes_every_match() {
    let mut contacts = vec![
        contact("Alice", 1),
        contact("Bob", 2),
        contact("ALICE", 3),
        contact("Carol", 4),
        contact("alice", 5),
    ];
    assert!(delete_contact(&mut contacts, "aLiCe"));
    assert_eq!(contacts, vec![contact("Bob", 2), contact("Carol", 4)]);
}

#[test]
fn delete_removes_neighbours_that_match() {
    let mut contacts = vec![contact("Al", 1), contact("al", 2), contact("AL", 3)];
    assert!(delete_contact(&mut contacts, "al"));
    assert!(contacts.is_empty());
}

#[test]
fn delete_matches_the_whole_name_only() {
    let mut contacts = vec![contact("Alice", 1), contact("Al", 2), contact("Alice B", 3)];
    assert!(delete_contact(&mut contacts, "Al"));
    assert_eq!(contacts, vec![contact("Alice", 1), contact("Alice B", 3)]);
}

#[test]
fn delete_takes_the_name_as_it_is() {
    let mut contacts = vec![contact("Alice", 1)];
    assert!(!delete_contact(&mut contacts, ""));
    assert!(!delete_contact(&mut contacts, " Alice"));
    assert!(!delete_contact(&mut contacts, "Al1ce"));
    assert_eq!(contacts.len(), 1);
    let mut odd = vec![contact("", 1), contact("x", 2)];
    assert!(delete_contact(&mut odd, ""));
    assert_eq!(names(&odd), vec!["x"]);
}

#[test]
fn delete_folds_unicode_case() {
    let mut contacts = vec![contact("Émile", 1), contact("ÉMILE", 2), contact("Emile", 3)];
    assert!(delete_contact(&mut contacts, "émile"));
    assert_eq!(names(&contacts), vec!["Emile"]);
}

#[test]
fn sort_orders_by_lowercase_name() {
    let mut contacts = vec![contact("Bob", 1), contact("alice", 2)];
    sort_by_name(&mut contacts);
    assert_eq!(names(&contacts), vec!["alice", "Bob"]);
}

#[test]
fn sort_keeps_equal_keys_in_their_order() {
    let mut contacts = vec![
        contact("bob", 1),
        contact("Carol", 2),
        contact("BOB", 3),
        contact("alice", 4),
        contact("Bob", 5),
        contact("ALICE", 6),
    ];
    sort_by_name(&mut contacts);
    assert_eq!(names(&contacts), vec!["alice", "ALICE", "bob", "BOB", "Bob", "Carol"]);
    assert_eq!(stamps(&contacts), vec![4, 6, 1, 3, 5, 2]);
}

#[test]
fn sort_agrees_with_a_stable_sort_by_lowercase() {
    let words = [
        "delta", "Alpha", "charlie", "Bravo", "alpha", "ECHO", "echo", "Zulu", "a", "", "A",
        "bravo", "Élan", "elan", "zulu", "Z",
    ];
    let mut contacts: Vec<Contact> =
        words.iter().enumerate().map(|(i, w)| contact(w, i as i64)).collect();
    let mut expected = contacts.clone();
    expected.sort_by(|a, b| a.name.to_lowercase().cmp(&b.name.to_lowercase()));
    sort_by_name(&mut contacts);
    assert_eq!(contacts, expected);
}

#[test]
fn sort_of_sorted_or_reversed_input() {
    let mut contacts = vec![contact("a", 1), contact("b", 2), contact("c", 3)];
    sort_by_name(&mut contacts);
    assert_eq!(names(&contacts), vec!["a", "b", "c"]);
    let mut contacts = vec![contact("c", 1), contact("b", 2), contact("a", 3)];
    sort_by_name(&mut contacts);
    assert_eq!(names(&contacts), vec!["a", "b", "c"]);
    let mut none: Vec<Contact> = Vec::new();
    sort_by_name(&mut none);
    assert!(none.is_empty());
}

#[test]
fn format_entry_shows_all_four_fields() {
    let c = Contact {
        name: "Alice".to_string(),
        phone: "0123456789".to_string(),
        email: "alice@example.org".to_string(),
        created_at: Timestamp::new(1705314600, 123456789).unwrap(),
    };
    assert_eq!(
        format_entry(12, &c),
        "12. Name: Alice, Phone: 0123456789, Email: alice@example.org, \
         Created At: 2024-01-15 10:30:00.123456789 UTC"
    );
}

#[test]
fn view_of_nothing_says_so() {
    let mut contacts: Vec<Contact> = Vec::new();
    let lines = view_contacts(&mut contacts);
    assert_eq!(lines, vec!["\n--- All Contacts ---", "No contacts found."]);
    assert!(contacts.is_empty());
}

#[test]
fn view_lists_in_name_order_from_one() {
    let mut contacts = Vec::new();
    for (name, secs) in [("Bob", 0), ("alice", 1431648000)] {
        let added = add_contact(
            &mut contacts,
            name.to_string(),
            "0123456789".to_string(),
            "x@example.org".to_string(),
            at(secs),
        );
        assert_eq!(added, Ok(()));
    }
    let lines = view_contacts(&mut contacts);
    assert_eq!(
        lines,
        vec![
            "\n--- All Contacts ---",
            "1. Name: alice, Phone: 0123456789, Email: x@example.org, \
             Created At: 2015-05-15 00:00:00 UTC",
            "2. Name: Bob, Phone: 0123456789, Email: x@example.org, \
             Created At: 1970-01-01 00:00:00 UTC",
        ]
    );
    assert_eq!(names(&contacts), vec!["alice", "Bob"]);
}

#[test]
fn view_numbers_past_nine() {
    let mut contacts: Vec<Contact> = (0..11).map(|i| contact("same", i)).collect();
    let lines = view_contacts(&mut contacts);
    assert_eq!(lines.len(), 12);
    assert!(lines[9].starts_with("9. Name: same, "));
    assert!(lines[10].starts_with("10. Name: same, "));
    assert!(lines[11].starts_with("11. Name: same, "));
    assert_eq!(stamps(&contacts), (0..11).collect::<Vec<i64>>());
}

#[test]
fn load_takes_what_storage_gave() {
    let stored = vec![contact("Bob", 1), contact("alice", 2)];
    assert_eq!(load_contacts(Some(stored.clone())), stored);
    assert_eq!(load_contacts(Some(Vec::new())), Vec::<Contact>::new());
}

#[test]
fn load_without_storage_is_empty() {
    assert_eq!(load_contacts(None), Vec::<Contact>::new());
}

#[test]
fn load_does_not_validate() {
    let odd = Contact {
        name: "4".to_string(),
        phone: "x".to_string(),
        email: "".to_string(),
        created_at: at(0),
    };
    assert_eq!(load_contacts(Some(vec![odd.clone()])), vec![odd]);
}

#[test]
fn contact_key_is_the_lowercase_name() {
    assert_eq!(contact("Alice SMITH", 0).key(), "alice smith");
    assert_eq!(contact("ÉMILE", 0).key(), "émile");
}

#[test]
fn contact_key_over_every_character_of_ascii() {
    for code in 0u8..128 {
        let c = code as char;
        let name = format!("A{}z{}", c, c);
        let small = if c.is_ascii_uppercase() { (code + 32) as char } else { c };
        assert_eq!(contact(&name, 0).key(), format!("a{}z{}", small, small), "{:?}", c);
    }
    assert_eq!(contact("", 0).key(), "");
    assert_eq!(
        contact("The Quick BROWN fox, 42!", 0).key(),
        "the quick brown fox, 42!"
    );
}

#[test]
fn delete_by_any_case_of_an_ascii_name() {
    for typed in ["alice smith", "ALICE SMITH", "Alice Smith", "aLiCe sMiTh"] {
        let mut contacts = vec![contact("Bob", 1), contact("Alice Smith", 2)];
        assert!(delete_contact(&mut contacts, typed), "{:?}", typed);
        assert_eq!(names(&contacts), vec!["Bob"]);
    }
    for typed in ["alice  smith", "alice smit", "alice_smith", "alice smith "] {
        let mut contacts = vec![contact("Bob", 1), contact("Alice Smith", 2)];
        assert!(!delete_contact(&mut contacts, typed), "{:?}", typed);
        assert_eq!(contacts.len(), 2);
    }
}

#[test]
fn sort_of_two_puts_the_smaller_key_first() {
    for (first, second, swapped) in [
        ("Bob", "alice", true),
        ("alice", "Bob", false),
        ("bob", "BOB", false),
        ("BOB", "bob", false),
        ("b", "a", true),
        ("a", "", true),
        ("Z", "a", true),
    ] {
        let mut contacts = vec![contact(first, 1), contact(second, 2)];
        sort_by_name(&mut contacts);
        let expected = if swapped { vec![second, first] } else { vec![first, second] };
        assert_eq!(names(&contacts), expected);
    }
}
