use contact::contact::{Contact, ContactError};

fn make(first: &str, last: &str, number: &str) -> Contact {
    Contact::new(first.to_string(), last.to_string(), number.to_string()).unwrap()
}

#[test]
fn new_trims_and_capitalizes_the_names() {
    let c = make("  alfred ", "PEACOCK\n", "5551234567");
    assert_eq!(c.first(), "Alfred");
    assert_eq!(c.last(), "Peacock");
    assert_eq!(c.number(), "5551234567");
}

#[test]
fn new_keeps_the_number_as_it_is() {
    let c = make("al", "smith", " 555-AbC ");
    assert_eq!(c.number(), " 555-AbC ");
}

#[test]
fn new_accepts_empty_names() {
    let c = make("", "   ", "");
    assert_eq!(c.first(), "");
    assert_eq!(c.last(), "");
    assert_eq!(c.key(), " ");
    assert_eq!(c.display_length(), 22);
}

#[test]
fn width_of_short_names_is_that_of_the_number_line() {
    assert_eq!(make("al", "smith", "5551234567").display_length(), 22);
    assert_eq!(make("a", "b", "5551234567").display_length(), 22);
}

#[test]
fn width_of_long_names_is_that_of_the_name_line() {
    let c = make("christopher", "montgomery", "5551234567");
    assert_eq!(c.display_length(), 11 + 10 + 7);
    let d = make("abcdefgh", "abcdefg", "5551234567");
    assert_eq!(d.display_length(), 22);
    let e = make("abcdefgh", "abcdefgh", "5551234567");
    assert_eq!(e.display_length(), 23);
}

#[test]
fn width_does_not_depend_on_the_number() {
    assert_eq!(make("al", "smith", "555123456789012345").display_length(), 22);
    assert_eq!(make("al", "smith", "1").display_length(), 22);
}

#[test]
fn width_counts_characters() {
    let c = make("éééééééé", "éééééééé", "5551234567");
    assert_eq!(c.display_length(), 23);
}

#[test]
fn from_parts_stores_the_names_as_given() {
    let c = Contact::from_parts(
        " al".to_string(),
        "SMITH".to_string(),
        "5551234567".to_string(),
    )
    .unwrap();
    assert_eq!(c.first(), " al");
    assert_eq!(c.last(), "SMITH");
    assert_eq!(c.display_length(), 22);
    assert_eq!(c.key(), " al SMITH");
}

#[test]
fn key_is_first_name_space_last_name() {
    assert_eq!(make("al", "smith", "5551234567").key(), "Al Smith");
}

#[test]
fn clone_keeps_every_field() {
    let c = make("al", "smith", "5551234567");
    let d = c.clone();
    assert_eq!(d.first(), c.first());
    assert_eq!(d.last(), c.last());
    assert_eq!(d.number(), c.number());
    assert_eq!(d.display_length(), c.display_length());
}

#[test]
fn display_at_own_width() {
    let c = make("al", "smith", "5551234567");
    let text = c.display(&22).unwrap();
    assert_eq!(text, "Name:         Al Smith\nNumber: (555) 123-4567");
}

#[test]
fn display_at_a_larger_width_pads_both_lines() {
    let c = make("al", "smith", "5551234567");
    let text = c.display(&30).unwrap();
    assert_eq!(
        text,
        "Name:                 Al Smith\nNumber:         (555) 123-4567"
    );
}

#[test]
fn display_of_a_long_name_has_no_padding_in_the_name_line() {
    let c = make("christopher", "montgomery", "5551234567");
    let text = c.display(&28).unwrap();
    assert_eq!(
        text,
        "Name: Christopher Montgomery\nNumber:       (555) 123-4567"
    );
}

#[test]
fn display_puts_what_follows_the_sixth_digit_last() {
    let c = make("al", "smith", "555123456789");
    let text = c.display(&22).unwrap();
    assert_eq!(text, "Name:         Al Smith\nNumber: (555) 123-456789");
}

#[test]
fn display_rejects_a_short_number() {
    let c = make("al", "smith", "555123456");
    assert_eq!(c.display(&22), Err(ContactError::InvalidNumber));
    let d = make("al", "smith", "");
    assert_eq!(d.display(&40), Err(ContactError::InvalidNumber));
}

#[test]
fn to_text_displays_at_the_own_width() {
    let c = make("christopher", "montgomery", "5551234567");
    assert_eq!(c.to_text(), c.display(&28));
    let d = make("al", "smith", "5551234567");
    assert_eq!(
        d.to_text().unwrap(),
        "Name:         Al Smith\nNumber: (555) 123-4567"
    );
    let e = make("al", "smith", "12");
    assert_eq!(e.to_text(), Err(ContactError::InvalidNumber));
}

#[test]
fn both_lines_of_a_display_have_the_width() {
    let c = make("al", "smith", "5551234567");
    for width in [22usize, 23, 40, 80] {
        let text = c.display(&width).unwrap();
        for line in text.split('\n') {
            assert_eq!(line.chars().count(), width);
        }
    }
}
