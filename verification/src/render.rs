//! Text for the screen: a batch of contacts in one common width, and the
//! notices that follow a command.

use crate::contact::{
    name_line, natural_width, number_line, rendered, Contact, ContactError, ContactView,
    NUMBER_DIGITS, NUMBER_LINE,
};
use crate::directory::{views, Deletion};
use crate::text::{lb, repeated, spaces};
use vstd::prelude::*;
use vstd::string::*;

verus! {

/// The usage text, as `docs` returns it.
pub const DOCS: &'static str =
    "\n----------------------------------------------------------------\nDOCUMENTATION\n\nAvailable commands:\ncontact ______\n\tsearch [name/number (can be partial)]\n\tadd [first name] [last name] [phone number w/ no spaces]\n----------------------------------------------------------------\n\n";

/// The width of a batch: the largest width that one of its contacts needs,
/// and 0 for no contacts.
pub open spec fn batch_width(batch: Seq<ContactView>) -> nat
    decreases batch.len(),
{
    if batch.len() == 0 {
        0
    } else {
        let rest = batch_width(batch.drop_last());
        let own = natural_width(batch.last());
        if own > rest {
            own
        } else {
            rest
        }
    }
}

/// Every contact of the batch has a number that can be displayed.
pub open spec fn displayable(batch: Seq<ContactView>) -> bool {
    forall|i: int| 0 <= i < batch.len() ==> (#[trigger] batch[i]).number.len() >= NUMBER_DIGITS
}

/// The contacts of a batch one after the other at `width`, each followed by
/// a separator line.
pub open spec fn listed(batch: Seq<ContactView>, width: nat) -> Seq<char>
    decreases batch.len(),
{
    if batch.len() == 0 {
        Seq::empty()
    } else {
        listed(batch.drop_last(), width) + rendered(batch.last(), width) + seq!['\n'] + repeated(
            '-',
            width,
        ) + seq!['\n']
    }
}

/// What is shown for a batch: a separator line and the contacts at the
/// width of the batch, or one sentence where the batch is empty.
pub open spec fn listing(batch: Seq<ContactView>) -> Seq<char> {
    if batch.len() == 0 {
        "No matches found.\n"@
    } else {
        repeated('-', batch_width(batch)) + seq!['\n'] + listed(batch, batch_width(batch))
    }
}

/// The batch width is at least the width of each contact of the batch, and
/// it is the width of one of them.
pub proof fn law_batch_width_is_maximum(batch: Seq<ContactView>)
    ensures
        forall|i: int|
            0 <= i < batch.len() ==> natural_width(#[trigger] batch[i]) <= batch_width(batch),
        batch.len() > 0 ==> exists|i: int|
            0 <= i < batch.len() && natural_width(#[trigger] batch[i]) == batch_width(batch),
        batch.len() > 0 ==> batch_width(batch) >= NUMBER_LINE,
    decreases batch.len(),
{
    if batch.len() > 0 {
        let front = batch.drop_last();
        law_batch_width_is_maximum(front);
        assert forall|i: int| 0 <= i < batch.len() implies natural_width(#[trigger] batch[i])
            <= batch_width(batch) by {
            if i < front.len() {
                assert(batch[i] == front[i]);
            }
        }
        if natural_width(batch.last()) > batch_width(front) || front.len() == 0 {
            assert(natural_width(batch[batch.len() - 1]) == batch_width(batch));
        } else {
            let k = choose|k: int|
                0 <= k < front.len() && natural_width(#[trigger] front[k]) == batch_width(front);
            assert(batch[k] == front[k]);
        }
    }
}

/// In a batch of contacts with numbers of ten digits, both lines of every
/// contact, displayed at the width of the batch, are as long as that width,
/// and so is the separator line.
pub proof fn law_lines_fill_batch_width(batch: Seq<ContactView>, i: int)
    requires
        0 <= i < batch.len(),
        batch[i].number.len() == NUMBER_DIGITS,
    ensures
        name_line(batch[i], batch_width(batch)).len() == batch_width(batch),
        number_line(batch[i], batch_width(batch)).len() == batch_width(batch),
        repeated('-', batch_width(batch)).len() == batch_width(batch),
{
    law_batch_width_is_maximum(batch);
    reveal_strlit("Name: ");
    reveal_strlit("Number: ");
}

/// The largest display width among the contacts of `list`, 0 for none.
pub fn vec_max_length(list: &Vec<Contact>) -> (max: usize)
    ensures
        max == batch_width(views(list@)),
{
    let mut max: usize = 0;
    let mut i: usize = 0;
    assert(views(list@).take(0) =~= Seq::<ContactView>::empty());
    while i < list.len()
        invariant
            i <= list@.len(),
            max == batch_width(views(list@).take(i as int)),
        decreases list@.len() - i,
    {
        assert(views(list@).take(i + 1).drop_last() =~= views(list@).take(i as int));
        let width = list[i].display_length();
        if width > max {
            max = width;
        }
        i = i + 1;
    }
    assert(views(list@).take(i as int) =~= views(list@));
    max
}

/// The text that shows a batch of contacts: every contact at the width of
/// the widest, between separator lines.
pub fn display_contacts(contacts_vec: &Vec<Contact>) -> (result: Result<String, ContactError>)
    ensures
        match result {
            Ok(text) => displayable(views(contacts_vec@)) && text@ == listing(
                views(contacts_vec@),
            ),
            Err(e) => !displayable(views(contacts_vec@)) && e == ContactError::InvalidNumber,
        },
{
    let n = contacts_vec.len();
    if n == 0 {
        return Ok("No matches found.\n".to_owned());
    }
    let length = vec_max_length(contacts_vec);
    let custom_lb = lb(&length);
    let ghost batch = views(contacts_vec@);
    let ghost width = length as nat;
    proof {
        reveal_strlit("\n");
        law_batch_width_is_maximum(batch);
    }
    let mut text = custom_lb.clone();
    text.append("\n");
    let mut i: usize = 0;
    assert(batch.take(0) =~= Seq::<ContactView>::empty());
    assert(text@ =~= repeated('-', width) + seq!['\n'] + listed(batch.take(0), width));
    while i < n
        invariant
            i <= n,
            n == contacts_vec@.len(),
            batch == views(contacts_vec@),
            width == length,
            width == batch_width(batch),
            custom_lb@ == repeated('-', width),
            "\n"@ == seq!['\n'],
            forall|j: int| 0 <= j < batch.len() ==> natural_width(#[trigger] batch[j]) <= width,
            displayable(batch.take(i as int)),
            text@ == repeated('-', width) + seq!['\n'] + listed(batch.take(i as int), width),
        decreases n - i,
    {
        assert(batch[i as int] == contacts_vec@[i as int]@);
        assert(batch.take(i + 1).drop_last() =~= batch.take(i as int));
        match contacts_vec[i].display(&length) {
            Ok(lines) => {
                text.append(lines.as_str());
                text.append("\n");
                text.append(custom_lb.as_str());
                text.append("\n");
                assert(text@ =~= repeated('-', width) + seq!['\n'] + listed(
                    batch.take(i + 1),
                    width,
                ));
                assert forall|j: int| 0 <= j < batch.take(i + 1).len() implies (
                #[trigger] batch.take(i + 1)[j]).number.len() >= NUMBER_DIGITS by {
                    if j < i {
                        assert(batch.take(i + 1)[j] == batch.take(i as int)[j]);
                    }
                }
            },
            Err(e) => {
                return Err(e);
            },
        }
        i = i + 1;
    }
    assert(batch.take(i as int) =~= batch);
    Ok(text)
}

/// How far the arrow above a newly filed contact is moved to the right, for
/// a contact of this width: to the middle, less the half of the word above it.
pub open spec fn arrow_indent(width: nat) -> nat {
    if width % 2 == 1 {
        (width / 2 - 2) as nat
    } else {
        (width / 2 - 3) as nat
    }
}

/// The word `Added` with an arrow below it that points down, for a contact
/// of this width.
pub open spec fn added_banner(width: nat) -> Seq<char> {
    let pad = repeated(' ', arrow_indent(width));
    "\n"@ + pad + "Added\n  "@ + pad + "|\n  "@ + pad + "|\n  "@ + pad + "V\n"@
}

/// The contacts that the notice of a deletion shows.
pub open spec fn deletion_batch(outcome: Deletion) -> Seq<ContactView> {
    match outcome {
        Deletion::Deleted(c) => seq![c@],
        Deletion::NotFound => Seq::empty(),
        Deletion::Ambiguous(found) => views(found@),
    }
}

/// The notice of a deletion.
pub open spec fn deletion_text(outcome: Deletion) -> Seq<char> {
    match outcome {
        Deletion::Deleted(c) => "The following contact has been deleted:\n"@ + listing(seq![c@]),
        Deletion::NotFound => "No contacts found with that name.\n"@,
        Deletion::Ambiguous(found) => "There are multiple contacts that match that query:\n\n"@
            + listing(views(found@))
            + "\nPlease retry with the full name of the contact you wish to delete.\n"@,
    }
}

/// The notice that follows the filing of `contact`: the banner, then the
/// contact as a batch of one.
pub fn added_notice(contact: &Contact) -> (result: Result<String, ContactError>)
    ensures
        match result {
            Ok(text) => contact@.number.len() >= NUMBER_DIGITS && text@ == added_banner(
                natural_width(contact@),
            ) + listing(seq![contact@]),
            Err(e) => contact@.number.len() < NUMBER_DIGITS && e == ContactError::InvalidNumber,
        },
{
    let mut batch: Vec<Contact> = Vec::new();
    batch.push(contact.clone());
    assert(views(batch@) =~= seq![contact@]);
    assert(views(batch@)[0] == contact@);
    let shown = match display_contacts(&batch) {
        Ok(shown) => shown,
        Err(e) => { return Err(e); },
    };
    let width = contact.display_length();
    let indent = if width % 2 == 1 {
        width / 2 - 2
    } else {
        width / 2 - 3
    };
    let pad = spaces(indent);
    let mut text = "\n".to_owned();
    text.append(pad.as_str());
    text.append("Added\n  ");
    text.append(pad.as_str());
    text.append("|\n  ");
    text.append(pad.as_str());
    text.append("|\n  ");
    text.append(pad.as_str());
    text.append("V\n");
    text.append(shown.as_str());
    Ok(text)
}

/// The notice that follows a deletion: the contact that was deleted, the
/// contacts among which none was chosen, or that none was found.
pub fn deletion_notice(outcome: &Deletion) -> (result: Result<String, ContactError>)
    ensures
        match result {
            Ok(text) => displayable(deletion_batch(*outcome)) && text@ == deletion_text(*outcome),
            Err(e) => !displayable(deletion_batch(*outcome)) && e == ContactError::InvalidNumber,
        },
{
    match outcome {
        Deletion::Deleted(contact) => {
            let mut batch: Vec<Contact> = Vec::new();
            batch.push(contact.clone());
            assert(views(batch@) =~= seq![contact@]);
            let shown = match display_contacts(&batch) {
                Ok(shown) => shown,
                Err(e) => { return Err(e); },
            };
            let mut text = "The following contact has been deleted:\n".to_owned();
            text.append(shown.as_str());
            Ok(text)
        },
        Deletion::NotFound => Ok("No contacts found with that name.\n".to_owned()),
        Deletion::Ambiguous(found) => {
            let shown = match display_contacts(found) {
                Ok(shown) => shown,
                Err(e) => { return Err(e); },
            };
            let mut text = "There are multiple contacts that match that query:\n\n".to_owned();
            text.append(shown.as_str());
            text.append("\nPlease retry with the full name of the contact you wish to delete.\n");
            Ok(text)
        },
    }
}

/// The usage text.
pub fn docs() -> (result: String)
    ensures
        result@ == DOCS@,
{
    DOCS.to_owned()
}

} // verus!
