//! One record of the directory: a first name, a last name and a phone number,
//! with the width it needs on screen.

use crate::text::{capitalize, capitalized, join_words, repeated, spaced, spaces, trim, trimmed};
use vstd::prelude::*;
use vstd::string::*;

verus! {

/// Characters that the name line holds besides the two names: the label
/// `Name: ` and the space between the names.
pub const NAME_FRAME: usize = 7;

/// Characters of a number line without padding, for a number of ten digits:
/// the label `Number: `, the brackets, the space, the dash and the digits.
pub const NUMBER_LINE: usize = 22;

/// Characters that a phone number must at least have to be displayed.
pub const NUMBER_DIGITS: usize = 10;

/// Why an operation of this library did not do what was asked.
#[derive(Debug, Clone, Copy, PartialEq, Eq)]
pub enum ContactError {
    /// The wrong number of arguments was given.
    MissingArguments,
    /// No stored contact has the name that was to be edited.
    NotFound,
    /// The phone number is too short to be split into its three groups.
    InvalidNumber,
    /// The names are so long that the display width does not fit the machine.
    TooLong,
}

/// What a contact is: three texts.
pub struct ContactView {
    pub first: Seq<char>,
    pub last: Seq<char>,
    pub number: Seq<char>,
}

/// The form in which a name is stored: trimmed, then capitalised.
pub open spec fn normalized(name: Seq<char>) -> Seq<char> {
    capitalized(trimmed(name))
}

/// The name under which a contact is filed: first name, a space, last name.
pub open spec fn key_of(v: ContactView) -> Seq<char> {
    spaced(v.first, v.last)
}

/// The width that a contact needs on screen: that of its name line or, if
/// that is larger, that of a number line.
pub open spec fn natural_width(v: ContactView) -> nat {
    if v.first.len() + v.last.len() + NAME_FRAME >= NUMBER_LINE {
        v.first.len() + v.last.len() + NAME_FRAME as nat
    } else {
        NUMBER_LINE as nat
    }
}

/// Whether the width of a contact with these names fits a `usize`.
pub open spec fn fits(first: Seq<char>, last: Seq<char>) -> bool {
    first.len() + last.len() + NAME_FRAME <= usize::MAX
}

/// The name line of `v`, padded on the left to `width` characters.
pub open spec fn name_line(v: ContactView, width: nat) -> Seq<char> {
    "Name: "@ + repeated(' ', (width - (v.first.len() + v.last.len() + NAME_FRAME)) as nat)
        + v.first + seq![' '] + v.last
}

/// The number line of `v`: the number in three groups, padded on the left as
/// a number of ten digits needs it to reach `width` characters.
pub open spec fn number_line(v: ContactView, width: nat) -> Seq<char> {
    "Number: "@ + repeated(' ', (width - NUMBER_LINE) as nat) + seq!['('] + v.number.subrange(0, 3)
        + seq![')', ' '] + v.number.subrange(3, 6) + seq!['-'] + v.number.subrange(
        6,
        v.number.len() as int,
    )
}

/// The two lines of `v` at `width`, with a line feed between them.
pub open spec fn rendered(v: ContactView, width: nat) -> Seq<char> {
    name_line(v, width) + seq!['\n'] + number_line(v, width)
}

/// A contact. The names are private: `new` stores them trimmed and
/// capitalised, and the display width always follows from them.
#[derive(Debug)]
pub struct Contact {
    first: String,
    last: String,
    number: String,
    display_length: usize,
}

impl View for Contact {
    type V = ContactView;

    closed spec fn view(&self) -> ContactView {
        ContactView { first: self.first@, last: self.last@, number: self.number@ }
    }
}

impl Clone for Contact {
    fn clone(&self) -> (copy: Self)
        ensures
            copy@ == self@,
    {
        proof {
            use_type_invariant(self);
        }
        Contact {
            first: self.first.clone(),
            last: self.last.clone(),
            number: self.number.clone(),
            display_length: self.display_length,
        }
    }
}

impl Contact {
    #[verifier::type_invariant]
    spec fn width_is_derived(&self) -> bool {
        self.display_length == natural_width(self@)
    }

    /// Makes a contact of a first name, a last name and a number. The names
    /// are trimmed and capitalised, the number is kept as it is.
    pub fn new(first: String, last: String, number: String) -> (result: Result<
        Contact,
        ContactError,
    >)
        ensures
            match result {
                Ok(c) => fits(normalized(first@), normalized(last@)) && c@ == (ContactView {
                    first: normalized(first@),
                    last: normalized(last@),
                    number: number@,
                }),
                Err(e) => !fits(normalized(first@), normalized(last@)) && e
                    == ContactError::TooLong,
            },
    {
        let first = capitalize(&trim(first.as_str()));
        let last = capitalize(&trim(last.as_str()));
        Contact::from_parts(first, last, number)
    }

    /// Makes a contact of names that are stored as they are given.
    pub fn from_parts(first: String, last: String, number: String) -> (result: Result<
        Contact,
        ContactError,
    >)
        ensures
            match result {
                Ok(c) => fits(first@, last@) && c@ == (ContactView {
                    first: first@,
                    last: last@,
                    number: number@,
                }),
                Err(e) => !fits(first@, last@) && e == ContactError::TooLong,
            },
    {
        let f = first.as_str().unicode_len();
        let l = last.as_str().unicode_len();
        let names = match f.checked_add(l) {
            Some(n) => n,
            None => { return Err(ContactError::TooLong); },
        };
        let name_width = match names.checked_add(NAME_FRAME) {
            Some(n) => n,
            None => { return Err(ContactError::TooLong); },
        };
        let display_length = if name_width >= NUMBER_LINE {
            name_width
        } else {
            NUMBER_LINE
        };
        Ok(Contact { first, last, number, display_length })
    }

    /// The first name.
    pub fn first(&self) -> (result: &String)
        ensures
            result@ == self@.first,
    {
        &self.first
    }

    /// The last name.
    pub fn last(&self) -> (result: &String)
        ensures
            result@ == self@.last,
    {
        &self.last
    }

    /// The phone number.
    pub fn number(&self) -> (result: &String)
        ensures
            result@ == self@.number,
    {
        &self.number
    }

    /// The width that this contact needs on screen.
    pub fn display_length(&self) -> (result: usize)
        ensures
            result == natural_width(self@),
    {
        proof {
            use_type_invariant(self);
        }
        self.display_length
    }

    /// The name under which this contact is filed.
    pub fn key(&self) -> (result: String)
        ensures
            result@ == key_of(self@),
    {
        join_words(self.first.as_str(), self.last.as_str())
    }

    /// The two lines of this contact, each padded on the left so that a
    /// contact with a number of ten digits fills `length` characters.
    pub fn display(&self, length: &usize) -> (result: Result<String, ContactError>)
        requires
            *length >= natural_width(self@),
        ensures
            match result {
                Ok(text) => self@.number.len() >= NUMBER_DIGITS && text@ == rendered(
                    self@,
                    *length as nat,
                ),
                Err(e) => self@.number.len() < NUMBER_DIGITS && e == ContactError::InvalidNumber,
            },
    {
        let number = self.number.as_str();
        let digits = number.unicode_len();
        if digits < NUMBER_DIGITS {
            return Err(ContactError::InvalidNumber);
        }
        let f = self.first.as_str().unicode_len();
        let l = self.last.as_str().unicode_len();
        proof {
            reveal_strlit("(");
            reveal_strlit(") ");
            reveal_strlit("-");
            reveal_strlit(" ");
            reveal_strlit("\n");
        }
        let mut text = "Name: ".to_owned();
        text.append(spaces(*length - (NAME_FRAME + f + l)).as_str());
        text.append(self.first.as_str());
        text.append(" ");
        text.append(self.last.as_str());
        assert(text@ == name_line(self@, *length as nat));
        text.append("\n");
        let mut line = "Number: ".to_owned();
        line.append(spaces(*length - NUMBER_LINE).as_str());
        line.append("(");
        line.append(number.substring_char(0, 3));
        line.append(") ");
        line.append(number.substring_char(3, 6));
        line.append("-");
        line.append(number.substring_char(6, digits));
        assert(line@ == number_line(self@, *length as nat));
        text.append(line.as_str());
        assert(text@ == rendered(self@, *length as nat));
        Ok(text)
    }

    /// The two lines of this contact at its own width.
    pub fn to_text(&self) -> (result: Result<String, ContactError>)
        ensures
            match result {
                Ok(text) => self@.number.len() >= NUMBER_DIGITS && text@ == rendered(
                    self@,
                    natural_width(self@),
                ),
                Err(e) => self@.number.len() < NUMBER_DIGITS && e == ContactError::InvalidNumber,
            },
    {
        let width = self.display_length();
        self.display(&width)
    }
}

} // verus!
