use contact::command::{exit_code, parse_command, Command};
use contact::contact::{Contact, ContactError};
use contact::directory::Deletion;
use contact::render::{added_notice, deletion_notice, display_contacts, docs, vec_max_length};

fn person(first: &str, last: &str, number: &str) -> Contact {
    Contact::new(first.to_string(), last.to_string(), number.to_string()).unwrap()
}

const RULE_22: &str = "----------------------";
const AL: &str = "Name:         Al Smith\nNumber: (555) 123-4567";

#[test]
fn batch_width_of_no_contacts_is_zero() {
    assert_eq!(vec_max_length(&Vec::new()), 0);
}

#[test]
fn batch_width_is_the_largest_width() {
    let batch = vec![
        person("al", "smith", "5551234567"),
        person("christopher", "montgomery", "5551234567"),
        person("bo", "jones", "5551234567"),
    ];
    assert_eq!(vec_max_length(&batch), 28);
    assert_eq!(vec_max_length(&batch[..1].to_vec()), 22);
}

#[test]
fn empty_batch_shows_one_sentence() {
    assert_eq!(display_contacts(&Vec::new()).unwrap(), "No matches found.\n");
}

#[test]
fn batch_of_one_is_framed_by_rules() {
    let text = display_contacts(&vec![person("al", "smith", "5551234567")]).unwrap();
    assert_eq!(text, format!("{}\n{}\n{}\n", RULE_22, AL, RULE_22));
}

#[test]
fn batch_of_two_shares_the_larger_width() {
    let batch = vec![
        person("al", "smith", "5551234567"),
        person("christopher", "montgomery", "5550000000"),
    ];
    let rule = "----------------------------";
    let expected = format!(
        "{}\n{}\n{}\n{}\n{}\n",
        rule,
        "Name:               Al Smith\nNumber:       (555) 123-4567",
        rule,
        "Name: Christopher Montgomery\nNumber:       (555) 000-0000",
        rule
    );
    assert_eq!(display_contacts(&batch).unwrap(), expected);
}

#[test]
fn every_line_of_a_batch_has_the_same_length() {
    let batch = vec![
        person("al", "smith", "5551234567"),
        person("christopher", "montgomery", "5550000000"),
        person("émile", "zola", "5552222222"),
        person("x", "", "0000000000"),
    ];
    let text = display_contacts(&batch).unwrap();
    let lines: Vec<&str> = text.lines().collect();
    assert_eq!(lines.len(), 1 + 3 * batch.len());
    for line in lines {
        assert_eq!(line.chars().count(), 28);
    }
}

#[test]
fn batch_with_a_short_number_is_rejected() {
    let batch = vec![
        person("al", "smith", "5551234567"),
        person("bo", "jones", "555"),
    ];
    assert_eq!(display_contacts(&batch), Err(ContactError::InvalidNumber));
}

#[test]
fn added_notice_for_an_even_width() {
    let text = added_notice(&person("al", "smith", "5551234567")).unwrap();
    let pad = "        ";
    let expected = format!(
        "\n{p}Added\n  {p}|\n  {p}|\n  {p}V\n{r}\n{c}\n{r}\n",
        p = pad,
        r = RULE_22,
        c = AL
    );
    assert_eq!(text, expected);
}

#[test]
fn added_notice_for_an_odd_width() {
    let text = added_notice(&person("abcdefgh", "abcdefgh", "5551234567")).unwrap();
    let pad = "         ";
    let rule = "-----------------------";
    let expected = format!(
        "\n{p}Added\n  {p}|\n  {p}|\n  {p}V\n{r}\n{c}\n{r}\n",
        p = pad,
        r = rule,
        c = "Name: Abcdefgh Abcdefgh\nNumber:  (555) 123-4567"
    );
    assert_eq!(text, expected);
}

#[test]
fn added_notice_rejects_a_short_number() {
    assert_eq!(
        added_notice(&person("al", "smith", "12345")),
        Err(ContactError::InvalidNumber)
    );
}

#[test]
fn notice_of_a_deletion() {
    let outcome = Deletion::Deleted(person("al", "smith", "5551234567"));
    assert_eq!(
        deletion_notice(&outcome).unwrap(),
        format!(
            "The following contact has been deleted:\n{r}\n{c}\n{r}\n",
            r = RULE_22,
            c = AL
        )
    );
}

#[test]
fn notice_of_no_match() {
    assert_eq!(
        deletion_notice(&Deletion::NotFound).unwrap(),
        "No contacts found with that name.\n"
    );
}

#[test]
fn notice_of_several_matches() {
    let outcome = Deletion::Ambiguous(vec![
        person("al", "smith", "5551234567"),
        person("al", "jones", "5550000000"),
    ]);
    let expected = format!(
        "There are multiple contacts that match that query:\n\n{r}\n{a}\n{r}\n{b}\n{r}\n\nPlease retry with the full name of the contact you wish to delete.\n",
        r = RULE_22,
        a = AL,
        b = "Name:         Al Jones\nNumber: (555) 000-0000"
    );
    assert_eq!(deletion_notice(&outcome).unwrap(), expected);
}

#[test]
fn notice_of_a_deletion_rejects_a_short_number() {
    let outcome = Deletion::Deleted(person("al", "smith", "1"));
    assert_eq!(deletion_notice(&outcome), Err(ContactError::InvalidNumber));
    let outcome = Deletion::Ambiguous(vec![
        person("al", "smith", "5551234567"),
        person("al", "jones", "1"),
    ]);
    assert_eq!(deletion_notice(&outcome), Err(ContactError::InvalidNumber));
}

#[test]
fn docs_name_the_commands() {
    let text = docs();
    assert!(text.starts_with("\n----------------------------------------------------------------\nDOCUMENTATION\n\n"));
    assert!(text.contains("\tsearch [name/number (can be partial)]\n"));
    assert!(text.contains("\tadd [first name] [last name] [phone number w/ no spaces]\n"));
    assert!(text.ends_with("----------------------------------------------------------------\n\n"));
}

#[test]
fn command_words_and_their_short_forms() {
    assert_eq!(parse_command("add"), Command::Add);
    assert_eq!(parse_command("a"), Command::Add);
    assert_eq!(parse_command("edit"), Command::Edit);
    assert_eq!(parse_command("e"), Command::Edit);
    assert_eq!(parse_command("search"), Command::Search);
    assert_eq!(parse_command("s"), Command::Search);
    assert_eq!(parse_command("view"), Command::Search);
    assert_eq!(parse_command("reverse-search"), Command::ReverseSearch);
    assert_eq!(parse_command("rs"), Command::ReverseSearch);
    assert_eq!(parse_command("delete"), Command::Delete);
    assert_eq!(parse_command("help"), Command::Help);
}

#[test]
fn other_words_name_no_command() {
    assert_eq!(parse_command(""), Command::Unknown);
    assert_eq!(parse_command("Add"), Command::Unknown);
    assert_eq!(parse_command("d"), Command::Unknown);
    assert_eq!(parse_command("remove"), Command::Unknown);
}

#[test]
fn exit_codes_of_failures() {
    assert_eq!(exit_code(ContactError::MissingArguments), 1);
    assert_eq!(exit_code(ContactError::InvalidNumber), 1);
    assert_eq!(exit_code(ContactError::TooLong), 1);
    assert_eq!(exit_code(ContactError::NotFound), 0);
}
