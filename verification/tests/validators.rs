use contact_book::validate::{validate_email, validate_name, validate_phone};

#[test]
fn name_of_letters_is_accepted() {
    assert!(validate_name("Alice"));
    assert!(validate_name("Mary Ann"));
    assert!(validate_name("  padded  "));
    assert!(validate_name("a"));
}

#[test]
fn name_with_unicode_letters_is_accepted() {
    assert!(validate_name("Émile Zola"));
    assert!(validate_name("京"));
    assert!(validate_name("Zoë\u{a0}Müller"));
}

#[test]
fn name_with_tabs_and_newlines_between_letters_is_accepted() {
    assert!(validate_name("a\tb"));
    assert!(validate_name("a\nb"));
}

#[test]
fn empty_or_blank_name_is_rejected() {
    assert!(!validate_name(""));
    assert!(!validate_name(" "));
    assert!(!validate_name(" \t\n "));
}

#[test]
fn name_with_digit_is_rejected() {
    assert!(!validate_name("Alice1"));
    assert!(!validate_name("4"));
    assert!(!validate_name("Al1ce"));
}

#[test]
fn name_with_punctuation_is_rejected() {
    assert!(!validate_name("O'Brien"));
    assert!(!validate_name("Anne-Marie"));
    assert!(!validate_name("Bob."));
    assert!(!validate_name("a_b"));
    assert!(!validate_name("💝"));
}

#[test]
fn phone_of_ten_or_more_digits_is_accepted() {
    assert!(validate_phone("0123456789"));
    assert!(validate_phone("01234567890"));
    assert!(validate_phone("00000000000000000000000000000000"));
}

#[test]
fn phone_of_fewer_than_ten_digits_is_rejected() {
    assert!(!validate_phone(""));
    assert!(!validate_phone("1"));
    assert!(!validate_phone("012345678"));
}

#[test]
fn phone_with_another_character_is_rejected() {
    assert!(!validate_phone("+0123456789"));
    assert!(!validate_phone("012-345-6789"));
    assert!(!validate_phone("012 345 6789"));
    assert!(!validate_phone("0123456789a"));
    assert!(!validate_phone(" 0123456789"));
    assert!(!validate_phone("0123456789 "));
    assert!(!validate_phone("0123456789\n"));
    assert!(!validate_phone("01234.56789"));
}

#[test]
fn phone_is_matched_from_end_to_end() {
    assert!(!validate_phone("x0123456789"));
    assert!(!validate_phone("0123456789x0123456789"));
}

#[test]
fn email_samples() {
    assert!(validate_email("a.b-c@d.e.com"));
    assert!(!validate_email("no-at-sign.com"));
    assert!(!validate_email("a@b"));
}

#[test]
fn email_of_plain_shape_is_accepted() {
    assert!(validate_email("bob@example.org"));
    assert!(validate_email("first.last@mail.example.co"));
    assert!(validate_email("under_score@host-name.io"));
    assert!(validate_email("1@2.3"));
    assert!(validate_email(".@-.a"));
}

#[test]
fn email_with_a_missing_part_is_rejected() {
    assert!(!validate_email(""));
    assert!(!validate_email("@example.org"));
    assert!(!validate_email("bob@"));
    assert!(!validate_email("bob@.org"));
    assert!(!validate_email("bob@example."));
    assert!(!validate_email("bob@example"));
}

#[test]
fn email_with_a_foreign_character_is_rejected() {
    assert!(!validate_email("bob smith@example.org"));
    assert!(!validate_email("bob@exa mple.org"));
    assert!(!validate_email("bob@example.o-g"));
    assert!(!validate_email("bob+tag@example.org"));
    assert!(!validate_email("a@b@c.de"));
    assert!(!validate_email(" bob@example.org"));
    assert!(!validate_email("bob@example.org "));
}

#[test]
fn validators_give_the_same_answer_when_asked_again() {
    for text in ["", "Alice", "0123456789", "bob@example.org", "  ", "x1"] {
        assert_eq!(validate_name(text), validate_name(text));
        assert_eq!(validate_phone(text), validate_phone(text));
        assert_eq!(validate_email(text), validate_email(text));
    }
}

#[test]
fn name_over_every_character_of_ascii() {
    for code in 0u8..128 {
        let c = code as char;
        let letter = c.is_ascii_alphabetic();
        let blank = c == ' ' || ('\t'..='\r').contains(&c);
        assert_eq!(validate_name(&format!("a{}", c)), letter || blank, "{:?} after a letter", c);
        assert_eq!(validate_name(&c.to_string()), letter, "{:?} alone", c);
    }
}

#[test]
fn name_with_any_digit_of_ascii_is_rejected() {
    for c in '0'..='9' {
        assert!(!validate_name(&format!("Al{}ce", c)));
        assert!(!validate_name(&format!("Bob {}", c)));
        assert!(!validate_name(&format!("{}", c)));
    }
}

#[test]
fn name_with_any_punctuation_of_ascii_is_rejected() {
    let mut seen = 0;
    for code in 0u8..128 {
        let c = code as char;
        if c.is_ascii_punctuation() {
            seen += 1;
            assert!(!validate_name(&format!("a{}b", c)), "{:?}", c);
            assert!(!validate_name(&format!("Anne {}", c)), "{:?}", c);
        }
    }
    assert_eq!(seen, 32);
}

#[test]
fn name_of_letters_and_spaces_is_accepted() {
    for name in ["a", " a", "a ", "Mary Ann", "  Mary   Ann  ", "Émile Zola", "京 都"] {
        assert!(validate_name(name), "{:?}", name);
    }
    for name in ["", " ", "     "] {
        assert!(!validate_name(name), "{:?}", name);
    }
}
