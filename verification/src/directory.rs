//! The directory: contacts filed under their full names, one per name, and
//! the commands that add, find and delete them.

use crate::contact::{fits, key_of, normalized, Contact, ContactError, ContactView};
use crate::text::{
    contains, is_substring, join_words, lowercase_of, occurs_at, spaced, to_lower,
};
use vstd::prelude::*;
use vstd::string::*;

verus! {

/// What a list of contacts holds.
pub open spec fn views(list: Seq<Contact>) -> Seq<ContactView> {
    list.map_values(|c: Contact| c@)
}

/// No two entries are filed under the same name.
pub open spec fn distinct_keys(entries: Seq<ContactView>) -> bool {
    forall|i: int, j: int|
        0 <= i < j < entries.len() ==> key_of(#[trigger] entries[i]) != key_of(
            #[trigger] entries[j],
        )
}

/// The entry at `i` is filed under `key`.
pub open spec fn filed_at(entries: Seq<ContactView>, key: Seq<char>, i: int) -> bool {
    0 <= i < entries.len() && key_of(entries[i]) == key
}

/// Some entry is filed under `key`.
pub open spec fn has_key(entries: Seq<ContactView>, key: Seq<char>) -> bool {
    exists|i: int| filed_at(entries, key, i)
}

/// Where the entry filed under `key` stands.
pub open spec fn index_of(entries: Seq<ContactView>, key: Seq<char>) -> int {
    choose|i: int| filed_at(entries, key, i)
}

/// The entries after `v` was filed: in the place of the entry of the same
/// name where there is one, else at the end.
pub open spec fn upserted(entries: Seq<ContactView>, v: ContactView) -> Seq<ContactView> {
    if has_key(entries, key_of(v)) {
        entries.update(index_of(entries, key_of(v)), v)
    } else {
        entries.push(v)
    }
}

/// The entries without the one filed under `key`.
pub open spec fn without(entries: Seq<ContactView>, key: Seq<char>) -> Seq<ContactView> {
    if has_key(entries, key) {
        entries.remove(index_of(entries, key))
    } else {
        entries
    }
}

/// The text of a contact that a query is held against.
#[derive(Debug, Clone, Copy, PartialEq, Eq)]
pub enum Field {
    /// The full name.
    Name,
    /// The phone number.
    Number,
}

/// The text of `v` that a query on `field` is held against.
pub open spec fn field_of(v: ContactView, field: Field) -> Seq<char> {
    match field {
        Field::Name => key_of(v),
        Field::Number => v.number,
    }
}

/// Whether the lower-case form of the `field` of `v` holds `lowered`.
pub open spec fn field_holds(v: ContactView, field: Field, lowered: Seq<char>) -> bool {
    is_substring(lowered, lowercase_of(field_of(v, field)))
}

/// The entries whose `field`, in lower case, holds `lowered`, in the order
/// of the directory.
pub open spec fn selected(entries: Seq<ContactView>, field: Field, lowered: Seq<char>) -> Seq<
    ContactView,
> {
    entries.filter(|v: ContactView| field_holds(v, field, lowered))
}

/// Whether a name query finds `v`: the lower-case form of the query stands in
/// the lower-case form of the full name.
pub open spec fn name_matches(v: ContactView, term: Seq<char>) -> bool {
    field_holds(v, Field::Name, lowercase_of(term))
}

/// Whether a number query finds `v`: the lower-case form of the query stands
/// in the lower-case form of the number.
pub open spec fn number_matches(v: ContactView, term: Seq<char>) -> bool {
    field_holds(v, Field::Number, lowercase_of(term))
}

/// The entries that a name query finds, in the order of the directory.
pub open spec fn found_by_name(entries: Seq<ContactView>, term: Seq<char>) -> Seq<ContactView> {
    selected(entries, Field::Name, lowercase_of(term))
}

/// The entries that a number query finds, in the order of the directory.
pub open spec fn found_by_number(entries: Seq<ContactView>, term: Seq<char>) -> Seq<
    ContactView,
> {
    selected(entries, Field::Number, lowercase_of(term))
}

/// The query that one or two words of a name stand for.
pub open spec fn search_term(args: Seq<String>) -> Seq<char> {
    if args.len() == 1 {
        args[0]@
    } else {
        spaced(args[0]@, args[1]@)
    }
}

/// The contact that two or three words stand for: first name, last name and
/// number, or first name and number with the last name `UNKNOWN`.
pub open spec fn contact_of_args(args: Seq<String>) -> ContactView {
    if args.len() == 3 {
        ContactView {
            first: normalized(args[0]@),
            last: normalized(args[1]@),
            number: args[2]@,
        }
    } else {
        ContactView {
            first: normalized(args[0]@),
            last: normalized("UNKNOWN"@),
            number: args[1]@,
        }
    }
}

/// Whether `add` files a contact whatever the directory holds, or only in
/// the place of one of the same name.
#[derive(Debug, Clone, Copy, PartialEq, Eq)]
pub enum Mode {
    Insert,
    Edit,
}

/// What `add` does with these words on these entries: the contact it files,
/// or why it files none.
pub open spec fn add_outcome(args: Seq<String>, entries: Seq<ContactView>, mode: Mode) -> Result<
    ContactView,
    ContactError,
> {
    let v = contact_of_args(args);
    if args.len() != 2 && args.len() != 3 {
        Err(ContactError::MissingArguments)
    } else if !fits(v.first, v.last) {
        Err(ContactError::TooLong)
    } else if mode == Mode::Edit && !has_key(entries, key_of(v)) {
        Err(ContactError::NotFound)
    } else {
        Ok(v)
    }
}

/// How `delete` ended.
#[derive(Debug)]
pub enum Deletion {
    /// One contact matched and was removed: this one.
    Deleted(Contact),
    /// No contact matched.
    NotFound,
    /// Several contacts matched, these, and none was removed.
    Ambiguous(Vec<Contact>),
}

/// The contacts, in the order in which their names were first filed.
#[derive(Debug)]
pub struct Directory {
    entries: Vec<Contact>,
}

impl View for Directory {
    type V = Seq<ContactView>;

    closed spec fn view(&self) -> Seq<ContactView> {
        views(self.entries@)
    }
}

/// In entries with distinct names, the entry that is filed under a name
/// stands where `index_of` says.
pub proof fn lemma_index_of(entries: Seq<ContactView>, key: Seq<char>, i: int)
    requires
        distinct_keys(entries),
        filed_at(entries, key, i),
    ensures
        has_key(entries, key),
        index_of(entries, key) == i,
{
    let k = index_of(entries, key);
    assert(filed_at(entries, key, k));
    if k < i {
        assert(key_of(entries[k]) != key_of(entries[i]));
    } else if i < k {
        assert(key_of(entries[i]) != key_of(entries[k]));
    }
}

/// Filing a contact keeps the names distinct, and files it under its name.
pub proof fn lemma_upserted_distinct(entries: Seq<ContactView>, v: ContactView)
    requires
        distinct_keys(entries),
    ensures
        distinct_keys(upserted(entries, v)),
        has_key(upserted(entries, v), key_of(v)),
        upserted(entries, v)[index_of(upserted(entries, v), key_of(v))] == v,
{
    let after = upserted(entries, v);
    if has_key(entries, key_of(v)) {
        let k = index_of(entries, key_of(v));
        assert(filed_at(entries, key_of(v), k));
        assert forall|i: int, j: int| 0 <= i < j < after.len() implies key_of(
            #[trigger] after[i],
        ) != key_of(#[trigger] after[j]) by {
            assert(key_of(after[i]) == key_of(entries[i]));
            assert(key_of(after[j]) == key_of(entries[j]));
        }
        assert(filed_at(after, key_of(v), k));
        lemma_index_of(after, key_of(v), k);
    } else {
        assert forall|i: int, j: int| 0 <= i < j < after.len() implies key_of(
            #[trigger] after[i],
        ) != key_of(#[trigger] after[j]) by {
            if j == entries.len() {
                assert(!filed_at(entries, key_of(v), i));
            } else {
                assert(after[i] == entries[i]);
                assert(after[j] == entries[j]);
            }
        }
        assert(filed_at(after, key_of(v), entries.len() as int));
        lemma_index_of(after, key_of(v), entries.len() as int);
    }
}

/// Removing the entry of a name keeps the names distinct, and leaves none
/// under that name.
pub proof fn lemma_without_distinct(entries: Seq<ContactView>, key: Seq<char>)
    requires
        distinct_keys(entries),
    ensures
        distinct_keys(without(entries, key)),
        !has_key(without(entries, key), key),
{
    let after = without(entries, key);
    if has_key(entries, key) {
        let k = index_of(entries, key);
        assert(filed_at(entries, key, k));
        assert forall|i: int, j: int| 0 <= i < j < after.len() implies key_of(
            #[trigger] after[i],
        ) != key_of(#[trigger] after[j]) by {
            let a = if i < k { i } else { i + 1 };
            let b = if j < k { j } else { j + 1 };
            assert(after[i] == entries[a]);
            assert(after[j] == entries[b]);
        }
        assert forall|i: int| !filed_at(after, key, i) by {
            if 0 <= i < after.len() {
                let a = if i < k { i } else { i + 1 };
                assert(after[i] == entries[a]);
                if a < k {
                    assert(key_of(entries[a]) != key_of(entries[k]));
                } else {
                    assert(key_of(entries[k]) != key_of(entries[a]));
                }
            }
        }
    } else {
        assert forall|i: int| !filed_at(after, key, i) by {
            if filed_at(after, key, i) {
                assert(has_key(entries, key));
            }
        }
    }
}

/// Where exactly one element of a sequence meets a condition, the filter
/// by that condition keeps that element alone.
pub proof fn lemma_filter_single<A>(s: Seq<A>, keep: spec_fn(A) -> bool, k: int)
    requires
        0 <= k < s.len(),
        keep(s[k]),
        forall|i: int| 0 <= i < s.len() && i != k ==> !keep(#[trigger] s[i]),
    ensures
        s.filter(keep) == seq![s[k]],
    decreases s.len(),
{
    reveal(Seq::filter);
    let front = s.drop_last();
    if k == s.len() - 1 {
        assert forall|i: int| 0 <= i < front.len() implies !keep(#[trigger] front[i]) by {
            assert(front[i] == s[i]);
        }
        assert(front.all(|x: A| !keep(x)));
        front.lemma_all_neg_filter_empty(keep);
        assert(s.filter(keep) =~= seq![s[k]]);
    } else {
        assert forall|i: int| 0 <= i < front.len() && i != k implies !keep(
            #[trigger] front[i],
        ) by {
            assert(front[i] == s[i]);
        }
        assert(front[k] == s[k]);
        lemma_filter_single(front, keep, k);
        assert(!keep(s[s.len() - 1]));
    }
}

/// A contact is found by its own full name, whatever the case of the letters.
pub proof fn lemma_found_by_own_name(v: ContactView)
    ensures
        name_matches(v, key_of(v)),
{
    let low = lowercase_of(key_of(v));
    assert(low.subrange(0, low.len() as int) =~= low);
    assert(occurs_at(low, low, 0));
}

/// Round trip: after a contact was filed, a search for its full name finds
/// this contact and no other, provided that the full name does not stand
/// inside the name of another entry.
pub proof fn law_filed_contact_is_found(entries: Seq<ContactView>, v: ContactView)
    requires
        distinct_keys(entries),
        forall|i: int|
            0 <= i < entries.len() && key_of(#[trigger] entries[i]) != key_of(v) ==> !name_matches(
                entries[i],
                key_of(v),
            ),
    ensures
        found_by_name(upserted(entries, v), key_of(v)) == seq![v],
{
    let after = upserted(entries, v);
    let keep = |e: ContactView| field_holds(e, Field::Name, lowercase_of(key_of(v)));
    lemma_upserted_distinct(entries, v);
    let k = index_of(after, key_of(v));
    assert(filed_at(after, key_of(v), k));
    lemma_found_by_own_name(v);
    assert forall|i: int| 0 <= i < after.len() && i != k implies !keep(#[trigger] after[i]) by {
        if i < k {
            assert(key_of(after[i]) != key_of(after[k]));
        } else {
            assert(key_of(after[k]) != key_of(after[i]));
        }
        assert(after[i] == entries[i]);
    }
    lemma_filter_single(after, keep, k);
}

/// Filing the same contact twice is filing it once: the entries are the
/// same, and exactly one of them has the name of the contact.
pub proof fn law_filed_twice_is_filed_once(entries: Seq<ContactView>, v: ContactView)
    requires
        distinct_keys(entries),
    ensures
        upserted(upserted(entries, v), v) == upserted(entries, v),
        upserted(entries, v).filter(|e: ContactView| key_of(e) == key_of(v)) == seq![v],
{
    let after = upserted(entries, v);
    let keep = |e: ContactView| key_of(e) == key_of(v);
    lemma_upserted_distinct(entries, v);
    let k = index_of(after, key_of(v));
    assert(filed_at(after, key_of(v), k));
    assert(upserted(after, v) =~= after);
    assert forall|i: int| 0 <= i < after.len() && i != k implies !keep(#[trigger] after[i]) by {
        if i < k {
            assert(key_of(after[i]) != key_of(after[k]));
        } else {
            assert(key_of(after[k]) != key_of(after[i]));
        }
    }
    lemma_filter_single(after, keep, k);
}

impl Directory {
    #[verifier::type_invariant]
    spec fn one_entry_per_name(&self) -> bool {
        distinct_keys(views(self.entries@))
    }

    /// A directory without entries.
    pub fn new() -> (result: Directory)
        ensures
            result@ == Seq::<ContactView>::empty(),
    {
        let entries: Vec<Contact> = Vec::new();
        assert(views(entries@) =~= Seq::<ContactView>::empty());
        Directory { entries }
    }

    /// The number of entries.
    pub fn len(&self) -> (result: usize)
        ensures
            result == self@.len(),
    {
        self.entries.len()
    }

    /// The entries, in order.
    pub fn contacts(&self) -> (result: &Vec<Contact>)
        ensures
            views(result@) == self@,
            distinct_keys(self@),
    {
        proof {
            use_type_invariant(self);
        }
        &self.entries
    }

    /// Where the entry filed under `key` stands, if there is one.
    pub fn position(&self, key: &String) -> (result: Option<usize>)
        ensures
            distinct_keys(self@),
            match result {
                Some(i) => filed_at(self@, key@, i as int) && index_of(self@, key@) == i,
                None => !has_key(self@, key@),
            },
    {
        proof {
            use_type_invariant(self);
        }
        let n = self.entries.len();
        let mut i: usize = 0;
        while i < n
            invariant
                i <= n,
                n == self.entries@.len(),
                distinct_keys(self@),
                forall|j: int| 0 <= j < i ==> !filed_at(self@, key@, j),
            decreases n - i,
        {
            let name = self.entries[i].key();
            if name == *key {
                proof {
                    lemma_index_of(self@, key@, i as int);
                }
                return Some(i);
            }
            i = i + 1;
        }
        None
    }

    /// Files `contact` under its name: in the place of the entry of that name
    /// where there is one, else as a new entry.
    pub fn insert(&mut self, contact: Contact)
        ensures
            final(self)@ == upserted(old(self)@, contact@),
    {
        let key = contact.key();
        proof {
            use_type_invariant(&*self);
            lemma_upserted_distinct(self@, contact@);
        }
        let place = self.position(&key);
        let mut entries: Vec<Contact> = Vec::new();
        assert(views(entries@) =~= Seq::<ContactView>::empty());
        std::mem::swap(&mut self.entries, &mut entries);
        match place {
            Some(i) => {
                entries[i] = contact;
            },
            None => {
                entries.push(contact);
            },
        }
        assert(views(entries@) =~= upserted(old(self)@, contact@));
        self.entries = entries;
    }

    /// Takes out the entry filed under `key` and returns it, if there is one.
    pub fn remove(&mut self, key: &String) -> (result: Option<Contact>)
        ensures
            final(self)@ == without(old(self)@, key@),
            match result {
                Some(c) => has_key(old(self)@, key@) && c@ == old(self)@[index_of(
                    old(self)@,
                    key@,
                )],
                None => !has_key(old(self)@, key@),
            },
    {
        proof {
            use_type_invariant(&*self);
            lemma_without_distinct(self@, key@);
        }
        match self.position(key) {
            Some(i) => {
                let mut entries: Vec<Contact> = Vec::new();
                assert(views(entries@) =~= Seq::<ContactView>::empty());
                std::mem::swap(&mut self.entries, &mut entries);
                let taken = entries.remove(i);
                assert(views(entries@) =~= without(old(self)@, key@));
                self.entries = entries;
                Some(taken)
            },
            None => None,
        }
    }
}

/// Files the contact that `args` stand for. In `Mode::Edit` a contact is
/// filed only in the place of one of the same name.
pub fn add(args: &[String], contacts: &mut Directory, mode: Mode) -> (result: Result<
    Contact,
    ContactError,
>)
    ensures
        match (result, add_outcome(args@, old(contacts)@, mode)) {
            (Ok(c), Ok(v)) => c@ == v && final(contacts)@ == upserted(old(contacts)@, v),
            (Err(e), Err(f)) => e == f && final(contacts)@ == old(contacts)@,
            _ => false,
        },
{
    let made = if args.len() == 3 {
        Contact::new(args[0].clone(), args[1].clone(), args[2].clone())
    } else if args.len() == 2 {
        Contact::new(args[0].clone(), "UNKNOWN".to_owned(), args[1].clone())
    } else {
        return Err(ContactError::MissingArguments);
    };
    let contact = match made {
        Ok(c) => c,
        Err(e) => { return Err(e); },
    };
    match mode {
        Mode::Edit => {
            let key = contact.key();
            if contacts.position(&key).is_none() {
                return Err(ContactError::NotFound);
            }
        },
        Mode::Insert => {},
    }
    let filed = contact.clone();
    contacts.insert(contact);
    Ok(filed)
}

/// The contacts whose `field`, in lower case, holds `lowered`: a query that
/// is in lower case already.
pub fn select(contacts: &Directory, field: Field, lowered: &str) -> (found: Vec<Contact>)
    ensures
        views(found@) == selected(contacts@, field, lowered@),
{
    let entries = contacts.contacts();
    let ghost keep = |v: ContactView| field_holds(v, field, lowered@);
    let mut found: Vec<Contact> = Vec::new();
    let mut i: usize = 0;
    proof {
        reveal(Seq::filter);
        assert(views(entries@).take(0) =~= Seq::<ContactView>::empty());
        assert(views(found@) =~= Seq::<ContactView>::empty());
    }
    while i < entries.len()
        invariant
            i <= entries@.len(),
            keep == |v: ContactView| field_holds(v, field, lowered@),
            views(found@) == views(entries@).take(i as int).filter(keep),
        decreases entries@.len() - i,
    {
        let text = match field {
            Field::Name => to_lower(entries[i].key().as_str()),
            Field::Number => to_lower(entries[i].number().as_str()),
        };
        let hit = contains(text.as_str(), lowered);
        proof {
            let before = views(entries@).take(i as int);
            assert(views(entries@).take(i + 1) =~= before.push(entries@[i as int]@));
            before.lemma_filter_push(entries@[i as int]@, keep);
            assert(hit == keep(entries@[i as int]@));
        }
        if hit {
            let ghost kept = found@;
            found.push(entries[i].clone());
            assert(views(found@) =~= views(kept).push(entries@[i as int]@));
        }
        i = i + 1;
    }
    assert(views(entries@).take(i as int) =~= views(entries@));
    found
}

/// The contacts whose full name holds the query, whatever the case of the
/// letters. The query is one word, or two that are joined with a space.
pub fn search(args: &[String], contacts: &Directory) -> (result: Result<
    Vec<Contact>,
    ContactError,
>)
    ensures
        match result {
            Ok(found) => (args@.len() == 1 || args@.len() == 2) && views(found@) == found_by_name(
                contacts@,
                search_term(args@),
            ),
            Err(e) => args@.len() != 1 && args@.len() != 2 && e == ContactError::MissingArguments,
        },
{
    let term = if args.len() == 1 {
        args[0].clone()
    } else if args.len() == 2 {
        join_words(args[0].as_str(), args[1].as_str())
    } else {
        return Err(ContactError::MissingArguments);
    };
    let lowered = to_lower(term.as_str());
    Ok(select(contacts, Field::Name, lowered.as_str()))
}

/// The contacts whose number holds the query. Exactly one word is taken.
pub fn reverse_search(args: &[String], contacts: &Directory) -> (result: Result<
    Vec<Contact>,
    ContactError,
>)
    ensures
        match result {
            Ok(found) => args@.len() == 1 && views(found@) == found_by_number(
                contacts@,
                args@[0]@,
            ),
            Err(e) => args@.len() != 1 && e == ContactError::MissingArguments,
        },
{
    if args.len() != 1 {
        return Err(ContactError::MissingArguments);
    }
    let lowered = to_lower(args[0].as_str());
    Ok(select(contacts, Field::Number, lowered.as_str()))
}

/// Deletes the contact that a name query finds, if it finds exactly one.
pub fn delete(args: &[String], contacts: &mut Directory) -> (result: Result<
    Deletion,
    ContactError,
>)
    ensures
        match result {
            Ok(Deletion::Deleted(c)) => {
                &&& args@.len() == 1 || args@.len() == 2
                &&& found_by_name(old(contacts)@, search_term(args@)) == seq![c@]
                &&& final(contacts)@ == without(old(contacts)@, key_of(c@))
            },
            Ok(Deletion::NotFound) => {
                &&& args@.len() == 1 || args@.len() == 2
                &&& found_by_name(old(contacts)@, search_term(args@)).len() == 0
                &&& final(contacts)@ == old(contacts)@
            },
            Ok(Deletion::Ambiguous(found)) => {
                &&& args@.len() == 1 || args@.len() == 2
                &&& views(found@).len() >= 2
                &&& views(found@) == found_by_name(old(contacts)@, search_term(args@))
                &&& final(contacts)@ == old(contacts)@
            },
            Err(e) => {
                &&& args@.len() != 1 && args@.len() != 2
                &&& e == ContactError::MissingArguments
                &&& final(contacts)@ == old(contacts)@
            },
        },
{
    let mut found = match search(args, contacts) {
        Ok(found) => found,
        Err(e) => { return Err(e); },
    };
    if found.len() == 1 {
        let key = found[0].key();
        let ghost matched = views(found@);
        let _ = contacts.remove(&key);
        let gone = found.remove(0);
        assert(matched =~= seq![gone@]);
        Ok(Deletion::Deleted(gone))
    } else if found.len() == 0 {
        Ok(Deletion::NotFound)
    } else {
        Ok(Deletion::Ambiguous(found))
    }
}

} // verus!
