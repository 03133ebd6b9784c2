//! What `msb ls --format json` says of the sandboxes. A listing that could not be read is
//! told apart from one in which a sandbox is missing.

use vstd::prelude::*;
use vstd::string::*;

use crate::text;

verus! {

/// One sandbox in a listing. A field that the listing does not give is missing here, and
/// is never taken for an empty text.
#[derive(Clone, Debug)]
pub struct LsEntry {
    pub name: Option<String>,
    pub status: Option<String>,
}

/// Whether an entry names a sandbox and gives it a status.
pub open spec fn has_status(entry: LsEntry, name: Seq<char>, status: Seq<char>) -> bool {
    entry.name matches Some(n) && entry.status matches Some(s) && n@ == name && s@ == status
}

/// Whether a listing gives a sandbox a status; one that could not be read gives none.
pub open spec fn listed_with(
    listing: Option<Vec<LsEntry>>,
    name: Seq<char>,
    status: Seq<char>,
) -> bool {
    listing matches Some(entries) && exists|i: int|
        0 <= i < entries@.len() && has_status(#[trigger] entries@[i], name, status)
}

/// Whether an entry names a sandbox and gives it a status.
fn entry_has(entry: &LsEntry, name: &str, status: &str) -> (yes: bool)
    ensures
        yes == has_status(*entry, name@, status@),
{
    match (&entry.name, &entry.status) {
        (Some(n), Some(s)) => text::same_text(n.as_str(), name) && text::same_text(
            s.as_str(),
            status,
        ),
        _ => false,
    }
}

/// Whether a list of texts holds a text.
pub fn holds_text(list: &Vec<String>, wanted: &str) -> (yes: bool)
    ensures
        yes == text::texts(list@).contains(wanted@),
{
    let mut i: usize = 0;
    while i < list.len()
        invariant
            i <= list@.len(),
            forall|j: int| 0 <= j < i ==> list@[j]@ != wanted@,
        decreases list.len() - i,
    {
        if text::same_text(list[i].as_str(), wanted) {
            assert(text::texts(list@)[i as int] == wanted@);
            return true;
        }
        i = i + 1;
    }
    assert forall|j: int| 0 <= j < text::texts(list@).len() implies text::texts(list@)[j]
        != wanted@ by {
        assert(text::texts(list@)[j] == list@[j]@);
    }
    false
}

/// The names of the running sandboxes, each once: those whose status is exactly
/// `Running`. A listing that could not be read gives none.
pub fn running_names(listing: &Option<Vec<LsEntry>>) -> (names: Vec<String>)
    ensures
        text::texts(names@).no_duplicates(),
        forall|name: Seq<char>|
            text::texts(names@).contains(name) <==> listed_with(*listing, name, "Running"@),
{
    let mut names: Vec<String> = Vec::new();
    match listing {
        None => {},
        Some(entries) => {
            let mut i: usize = 0;
            while i < entries.len()
                invariant
                    i <= entries@.len(),
                    text::texts(names@).no_duplicates(),
                    forall|name: Seq<char>|
                        text::texts(names@).contains(name) <==> exists|j: int|
                            0 <= j < i && has_status(#[trigger] entries@[j], name, "Running"@),
                decreases entries.len() - i,
            {
                let ghost before = text::texts(names@);
                match (&entries[i].name, &entries[i].status) {
                    (Some(name), Some(status)) => {
                        if text::same_text(status.as_str(), "Running") {
                            assert(has_status(entries@[i as int], name@, "Running"@));
                            if !holds_text(&names, name.as_str()) {
                                names.push(name.clone());
                                assert(text::texts(names@) =~= before.push(name@));
                            }
                        }
                        assert forall|other: Seq<char>| text::texts(names@).contains(other) implies (
                        exists|j: int|
                            0 <= j < i + 1 && has_status(#[trigger] entries@[j], other, "Running"@)) by {
                            if before.contains(other) {
                            } else {
                                assert(other == name@);
                                assert(has_status(entries@[i as int], other, "Running"@));
                            }
                        }
                        assert forall|other: Seq<char>| #![auto]
                            (exists|j: int|
                                0 <= j < i + 1 && has_status(
                                    #[trigger] entries@[j],
                                    other,
                                    "Running"@,
                                )) implies text::texts(names@).contains(other) by {
                            let j = choose|j: int|
                                0 <= j < i + 1 && has_status(
                                    #[trigger] entries@[j],
                                    other,
                                    "Running"@,
                                );
                            let now = text::texts(names@);
                            if j < i {
                                assert(before.contains(other));
                                let k = choose|k: int| 0 <= k < before.len() && before[k] == other;
                                assert(now[k] == other);
                            } else if before.contains(other) {
                            } else {
                                assert(now.last() == other);
                            }
                        }
                    },
                    _ => {
                        assert forall|other: Seq<char>| !has_status(
                            entries@[i as int],
                            other,
                            "Running"@,
                        ) by {}
                    },
                }
                i = i + 1;
            }
        },
    }
    names
}

/// Whether a listing gives a sandbox exactly this status.
pub fn status_is(listing: &Option<Vec<LsEntry>>, name: &str, wanted: &str) -> (yes: bool)
    ensures
        yes == listed_with(*listing, name@, wanted@),
{
    match listing {
        None => false,
        Some(entries) => {
            let mut i: usize = 0;
            while i < entries.len()
                invariant
                    *listing == Some(*entries),
                    i <= entries@.len(),
                    forall|j: int| 0 <= j < i ==> !has_status(#[trigger] entries@[j], name@, wanted@),
                decreases entries.len() - i,
            {
                if entry_has(&entries[i], name, wanted) {
                    assert(has_status((*listing)->0@[i as int], name@, wanted@));
                    return true;
                }
                i = i + 1;
            }
            false
        },
    }
}

/// The status of the first entry that names a sandbox and gives it one.
pub open spec fn first_status(entries: Seq<LsEntry>, name: Seq<char>) -> Option<Seq<char>>
    decreases entries.len(),
{
    if entries.len() == 0 {
        None
    } else {
        match (entries[0].name, entries[0].status) {
            (Some(n), Some(s)) => if n@ == name {
                Some(s@)
            } else {
                first_status(entries.skip(1), name)
            },
            _ => first_status(entries.skip(1), name),
        }
    }
}

/// The status a listing gives a sandbox; none where the sandbox is not in it, or where the
/// listing could not be read.
pub open spec fn status_of_spec(listing: Option<Vec<LsEntry>>, name: Seq<char>) -> Option<
    Seq<char>,
> {
    match listing {
        Some(entries) => first_status(entries@, name),
        None => None,
    }
}

/// The status a listing gives a sandbox.
pub fn status_of(listing: &Option<Vec<LsEntry>>, name: &str) -> (status: Option<String>)
    ensures
        crate::model::text_option(status) == status_of_spec(*listing, name@),
{
    match listing {
        None => None,
        Some(entries) => {
            let mut i: usize = 0;
            assert(entries@.skip(0) =~= entries@);
            while i < entries.len()
                invariant
                    *listing == Some(*entries),
                    i <= entries@.len(),
                    first_status(entries@, name@) == first_status(entries@.skip(i as int), name@),
                decreases entries.len() - i,
            {
                assert(entries@.skip(i as int).skip(1) =~= entries@.skip(i + 1));
                assert(entries@.skip(i as int)[0] == entries@[i as int]);
                match (&entries[i].name, &entries[i].status) {
                    (Some(n), Some(s)) => {
                        if text::same_text(n.as_str(), name) {
                            return Some(s.clone());
                        }
                    },
                    _ => {},
                }
                i = i + 1;
            }
            None
        },
    }
}

/// Whether a listing names a sandbox.
pub open spec fn names_sandbox(entries: Seq<LsEntry>, name: Seq<char>) -> bool {
    exists|i: int|
        0 <= i < entries.len() && ((#[trigger] entries[i]).name matches Some(n) && n@ == name)
}

/// Whether a sandbox is listed; nothing where the listing could not be read.
pub open spec fn try_is_listed_spec(listing: Option<Vec<LsEntry>>, name: Seq<char>) -> Option<
    bool,
> {
    match listing {
        Some(entries) => Some(names_sandbox(entries@, name)),
        None => None,
    }
}

/// Whether a sandbox is listed; nothing where the listing could not be read.
pub fn try_is_listed(listing: &Option<Vec<LsEntry>>, name: &str) -> (listed: Option<bool>)
    ensures
        listed == try_is_listed_spec(*listing, name@),
{
    match listing {
        None => None,
        Some(entries) => {
            let mut i: usize = 0;
            while i < entries.len()
                invariant
                    *listing == Some(*entries),
                    i <= entries@.len(),
                    forall|j: int|
                        0 <= j < i ==> !((#[trigger] entries@[j]).name matches Some(n) && n@
                            == name@),
                decreases entries.len() - i,
            {
                match &entries[i].name {
                    Some(n) => {
                        if text::same_text(n.as_str(), name) {
                            return Some(true);
                        }
                    },
                    None => {},
                }
                i = i + 1;
            }
            Some(false)
        },
    }
}

/// A sandbox that is running according to a listing is listed in it, and one that a
/// listing does not name has no status in it.
pub proof fn law_listing_answers_agree(listing: Option<Vec<LsEntry>>, name: Seq<char>)
    ensures
        listed_with(listing, name, "Running"@) ==> try_is_listed_spec(listing, name) == Some(true),
        try_is_listed_spec(listing, name) != Some(true) ==> status_of_spec(listing, name) is None,
{
    match listing {
        None => {},
        Some(entries) => {
            lemma_status_needs_name(entries@, name);
        },
    }
}

/// A list of entries in which no entry names a sandbox gives it no status.
proof fn lemma_status_needs_name(entries: Seq<LsEntry>, name: Seq<char>)
    ensures
        !names_sandbox(entries, name) ==> first_status(entries, name) is None,
    decreases entries.len(),
{
    if entries.len() > 0 && !names_sandbox(entries, name) {
        let rest = entries.skip(1);
        if names_sandbox(rest, name) {
            let i = choose|i: int|
                0 <= i < rest.len() && ((#[trigger] rest[i]).name matches Some(n) && n@ == name);
            assert(entries[i + 1] == rest[i]);
            assert(false);
        }
        lemma_status_needs_name(rest, name);
        assert(!(entries[0].name matches Some(n) && n@ == name));
    }
}

/// A listing gives a sandbox a status exactly where one of its entries has both the name and the
/// status, letter for letter; an entry that lacks either gives none, and neither does a listing
/// that could not be read.
pub proof fn law_what_a_listing_gives(
    entries: Vec<LsEntry>,
    name: Seq<char>,
    status: Seq<char>,
    at: int,
)
    requires
        0 <= at < entries@.len(),
    ensures
        crate::model::text_option(entries@[at].name) == Some(name) && crate::model::text_option(
            entries@[at].status,
        ) == Some(status) ==> listed_with(Some(entries), name, status),
        (forall|i: int|
            0 <= i < entries@.len() ==> crate::model::text_option((#[trigger] entries@[i]).name)
                != Some(name) || crate::model::text_option(entries@[i].status) != Some(status))
            ==> !listed_with(Some(entries), name, status),
        !listed_with(None, name, status),
{
    if crate::model::text_option(entries@[at].name) == Some(name) && crate::model::text_option(
        entries@[at].status,
    ) == Some(status) {
        assert(has_status(entries@[at], name, status));
    }
    if listed_with(Some(entries), name, status) {
        let i = choose|i: int|
            0 <= i < entries@.len() && has_status(#[trigger] entries@[i], name, status);
        assert(crate::model::text_option(entries@[i].name) == Some(name));
    }
}

/// The first entry that names a sandbox and gives it a status decides, whatever the entries
/// after it say, and whatever entries without a status of its come before.
pub proof fn law_the_first_status_decides(entries: Seq<LsEntry>, name: Seq<char>, at: int)
    requires
        0 <= at < entries.len(),
        crate::model::text_option(entries[at].name) == Some(name),
        entries[at].status is Some,
        forall|i: int|
            0 <= i < at ==> crate::model::text_option((#[trigger] entries[i]).name) != Some(name)
                || entries[i].status is None,
    ensures
        first_status(entries, name) == Some(entries[at].status->0@),
    decreases at,
{
    if at > 0 {
        let rest = entries.skip(1);
        assert forall|i: int| 0 <= i < at - 1 implies crate::model::text_option(
            (#[trigger] rest[i]).name,
        ) != Some(name) || rest[i].status is None by {
            assert(rest[i] == entries[i + 1]);
        }
        assert(rest[at - 1] == entries[at]);
        law_the_first_status_decides(rest, name, at - 1);
        assert(crate::model::text_option(entries[0].name) != Some(name) || entries[0].status
            is None);
    }
}

/// The status of a sandbox is the one that its listing gives first; a listing that could not be
/// read, and one in which no entry gives it a status, give none.
pub proof fn law_a_status_comes_from_the_listing(entries: Vec<LsEntry>, name: Seq<char>)
    ensures
        status_of_spec(None, name) is None,
        status_of_spec(Some(entries), name) == first_status(entries@, name),
        (forall|i: int|
            0 <= i < entries@.len() ==> crate::model::text_option((#[trigger] entries@[i]).name)
                != Some(name) || entries@[i].status is None) ==> status_of_spec(
            Some(entries),
            name,
        ) is None,
{
    if forall|i: int|
        0 <= i < entries@.len() ==> crate::model::text_option((#[trigger] entries@[i]).name)
            != Some(name) || entries@[i].status is None {
        lemma_no_status(entries@, name);
    }
}

/// Entries none of which gives a sandbox a status give it none.
proof fn lemma_no_status(entries: Seq<LsEntry>, name: Seq<char>)
    requires
        forall|i: int|
            0 <= i < entries.len() ==> crate::model::text_option((#[trigger] entries[i]).name)
                != Some(name) || entries[i].status is None,
    ensures
        first_status(entries, name) is None,
    decreases entries.len(),
{
    if entries.len() > 0 {
        let rest = entries.skip(1);
        assert forall|i: int| 0 <= i < rest.len() implies crate::model::text_option(
            (#[trigger] rest[i]).name,
        ) != Some(name) || rest[i].status is None by {
            assert(rest[i] == entries[i + 1]);
        }
        lemma_no_status(rest, name);
        assert(crate::model::text_option(entries[0].name) != Some(name) || entries[0].status
            is None);
    }
}

/// A sandbox is listed exactly where an entry names it, with a status or without; of a listing
/// that could not be read nothing is known.
pub proof fn law_an_entry_lists_its_sandbox(entries: Vec<LsEntry>, name: Seq<char>, at: int)
    requires
        0 <= at < entries@.len(),
    ensures
        try_is_listed_spec(None, name) is None,
        crate::model::text_option(entries@[at].name) == Some(name) ==> try_is_listed_spec(
            Some(entries),
            name,
        ) == Some(true),
        (forall|i: int|
            0 <= i < entries@.len() ==> crate::model::text_option((#[trigger] entries@[i]).name)
                != Some(name)) ==> try_is_listed_spec(Some(entries), name) == Some(false),
{
    if crate::model::text_option(entries@[at].name) == Some(name) {
        assert(entries@[at].name matches Some(n) && n@ == name);
    }
    if names_sandbox(entries@, name) {
        let i = choose|i: int|
            0 <= i < entries@.len() && ((#[trigger] entries@[i]).name matches Some(n) && n@
                == name);
        assert(crate::model::text_option(entries@[i].name) == Some(name));
    }
}

} // verus!
