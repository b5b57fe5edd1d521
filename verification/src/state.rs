//! What the documents about a container say: its state, and the configuration of its bundle.
use vstd::prelude::*;
use vstd::string::*;

use crate::image::BUNDLE_CONFIG;
use crate::paths::{join, joined};

verus! {

/// Where containers keep their states.
pub const CONTAINER_ROOT: &'static str = "/run/youki";

/// The name of the file with the state of a container.
pub const STATE_FILE: &'static str = "state.json";

/// The member of a state that gives the directory of the container's bundle.
pub const BUNDLE_MEMBER: &'static str = "bundle";

/// A JSON document, as far as its texts go.
pub enum Json {
    Text(String),
    List(Vec<Json>),
    Object(Vec<(String, Json)>),
    /// A number, a truth value or nothing.
    Other,
}

/// The texts in a document, first to last; names of members are not among them.
pub open spec fn texts_of(value: Json) -> Seq<Seq<char>>
    decreases value,
{
    match value {
        Json::Text(text) => seq![text@],
        Json::List(items) => texts_of_items(items@),
        Json::Object(members) => texts_of_members(members@),
        Json::Other => Seq::empty(),
    }
}

/// The texts in some documents.
pub open spec fn texts_of_items(items: Seq<Json>) -> Seq<Seq<char>>
    decreases items,
{
    if items.len() == 0 {
        Seq::empty()
    } else {
        texts_of_items(items.drop_last()) + texts_of(items.last())
    }
}

/// The texts in the members of an object.
pub open spec fn texts_of_members(members: Seq<(String, Json)>) -> Seq<Seq<char>>
    decreases members,
{
    if members.len() == 0 {
        Seq::empty()
    } else {
        texts_of_members(members.drop_last()) + texts_of(members.last().1)
    }
}

/// The first member of that name.
pub open spec fn member(members: Seq<(String, Json)>, name: Seq<char>) -> Option<Json>
    decreases members.len(),
{
    if members.len() == 0 {
        None
    } else if members[0].0@ == name {
        Some(members[0].1)
    } else {
        member(members.drop_first(), name)
    }
}

/// The directory of the bundle that a state names.
pub open spec fn bundle_of(state: Json) -> Option<Seq<char>> {
    match state {
        Json::Object(members) => match member(members@, BUNDLE_MEMBER@) {
            Some(Json::Text(text)) => Some(text@),
            _ => None,
        },
        _ => None,
    }
}

fn append_texts(out: &mut Vec<String>, more: Vec<String>)
    ensures
        final(out).deep_view() == old(out).deep_view() + more.deep_view(),
{
    let ghost added = more.deep_view();
    let mut more = more;
    out.append(&mut more);
    assert(out.deep_view() =~= old(out).deep_view() + added);
}

/// The texts in a document.
pub fn texts(value: &Json) -> (r: Vec<String>)
    ensures
        r.deep_view() == texts_of(*value),
    decreases value,
{
    let mut out: Vec<String> = Vec::new();
    assert(out.deep_view() =~= Seq::empty());
    match value {
        Json::Text(text) => {
            out.push(text.clone());
            assert(out.deep_view() =~= seq![text@]);
        },
        Json::List(items) => {
            let n: usize = items.len();
            let mut i: usize = 0;
            assert(items@.take(0) =~= Seq::empty());
            while i < n
                invariant
                    i <= n,
                    n == items.len(),
                    *value == Json::List(*items),
                    out.deep_view() == texts_of_items(items@.take(i as int)),
                decreases n - i,
            {
                assert(decreases_to!(value => value->List_0@));
                assert(decreases_to!(items@ => items@[i as int]));
                append_texts(&mut out, texts(&items[i]));
                assert(items@.take(i + 1).drop_last() =~= items@.take(i as int));
                i = i + 1;
            }
            assert(items@.take(n as int) =~= items@);
        },
        Json::Object(members) => {
            let n: usize = members.len();
            let mut i: usize = 0;
            assert(members@.take(0) =~= Seq::empty());
            while i < n
                invariant
                    i <= n,
                    n == members.len(),
                    *value == Json::Object(*members),
                    out.deep_view() == texts_of_members(members@.take(i as int)),
                decreases n - i,
            {
                assert(decreases_to!(value => value->Object_0@));
                assert(decreases_to!(members@ => members@[i as int]));
                assert(decreases_to!(members@[i as int] => members@[i as int].1));
                append_texts(&mut out, texts(&members[i].1));
                assert(members@.take(i + 1).drop_last() =~= members@.take(i as int));
                i = i + 1;
            }
            assert(members@.take(n as int) =~= members@);
        },
        Json::Other => {},
    }
    out
}

/// The texts in some documents.
pub fn all_texts(documents: &Vec<Json>) -> (r: Vec<String>)
    ensures
        r.deep_view() == texts_of_items(documents@),
{
    let mut out: Vec<String> = Vec::new();
    let n: usize = documents.len();
    let mut i: usize = 0;
    assert(out.deep_view() =~= Seq::empty());
    assert(documents@.take(0) =~= Seq::empty());
    while i < n
        invariant
            i <= n,
            n == documents.len(),
            out.deep_view() == texts_of_items(documents@.take(i as int)),
        decreases n - i,
    {
        append_texts(&mut out, texts(&documents[i]));
        assert(documents@.take(i + 1).drop_last() =~= documents@.take(i as int));
        i = i + 1;
    }
    assert(documents@.take(n as int) =~= documents@);
    out
}

/// The configuration file of the bundle that a state names, if it names one.
pub fn bundle_config(state: &Json) -> (r: Option<String>)
    ensures
        match bundle_of(*state) {
            Some(dir) => r matches Some(path) && path@ == joined(dir, BUNDLE_CONFIG@),
            None => r is None,
        },
{
    if let Json::Object(members) = state {
        let n: usize = members.len();
        let mut i: usize = 0;
        assert(members@.skip(0) =~= members@);
        while i < n
            invariant
                i <= n,
                n == members.len(),
                *state == Json::Object(*members),
                member(members@, BUNDLE_MEMBER@) == member(
                    members@.skip(i as int),
                    BUNDLE_MEMBER@,
                ),
            decreases n - i,
        {
            assert(members@.skip(i as int)[0] == members@[i as int]);
            if members[i].0 == BUNDLE_MEMBER.to_string() {
                return match &members[i].1 {
                    Json::Text(dir) => Some(join(dir.as_str(), BUNDLE_CONFIG)),
                    _ => None,
                };
            }
            assert(members@.skip(i as int).drop_first() =~= members@.skip(i + 1));
            i = i + 1;
        }
    }
    None
}

proof fn texts_of_items_flattened(items: Seq<Json>, parts: Seq<Seq<Seq<char>>>)
    requires
        parts.len() == items.len(),
        forall|i: int| 0 <= i < parts.len() ==> #[trigger] parts[i] == texts_of(items[i]),
    ensures
        texts_of_items(items) == parts.flatten(),
    decreases items.len(),
{
    if items.len() == 0 {
        assert(parts.flatten() =~= Seq::empty());
    } else {
        let less = parts.drop_last();
        assert forall|i: int| 0 <= i < less.len() implies #[trigger] less[i] == texts_of(
            items.drop_last()[i],
        ) by {
            assert(less[i] == parts[i]);
        }
        texts_of_items_flattened(items.drop_last(), less);
        less.lemma_flatten_push(parts.last());
        assert(less.push(parts.last()) =~= parts);
        assert(parts[parts.len() - 1] == texts_of(items.last()));
    }
}

proof fn texts_of_members_flattened(members: Seq<(String, Json)>, parts: Seq<Seq<Seq<char>>>)
    requires
        parts.len() == members.len(),
        forall|i: int| 0 <= i < parts.len() ==> #[trigger] parts[i] == texts_of(members[i].1),
    ensures
        texts_of_members(members) == parts.flatten(),
    decreases members.len(),
{
    if members.len() == 0 {
        assert(parts.flatten() =~= Seq::empty());
    } else {
        let less = parts.drop_last();
        assert forall|i: int| 0 <= i < less.len() implies #[trigger] less[i] == texts_of(
            members.drop_last()[i].1,
        ) by {
            assert(less[i] == parts[i]);
        }
        texts_of_members_flattened(members.drop_last(), less);
        less.lemma_flatten_push(parts.last());
        assert(less.push(parts.last()) =~= parts);
        assert(parts[parts.len() - 1] == texts_of(members.last().1));
    }
}

/// The texts of documents are those of each of them, one after the other.
pub proof fn texts_of_documents(items: Seq<Json>, parts: Seq<Seq<Seq<char>>>)
    requires
        parts.len() == items.len(),
        forall|i: int| 0 <= i < parts.len() ==> #[trigger] parts[i] == texts_of(items[i]),
    ensures
        texts_of_items(items) == parts.flatten(),
{
    texts_of_items_flattened(items, parts);
}

/// A text is its own only text, and what is neither text, list nor object has none. A list or
/// an object has the texts of its items or members, one after the other, and no other.
pub proof fn texts_of_a_document(value: Json, parts: Seq<Seq<Seq<char>>>)
    ensures
        value matches Json::Text(text) ==> texts_of(value) == seq![text@],
        value is Other ==> texts_of(value).len() == 0,
        value matches Json::List(items) ==> parts.len() == items@.len() && (forall|i: int|
            0 <= i < parts.len() ==> #[trigger] parts[i] == texts_of(items@[i])) ==> texts_of(value)
            == parts.flatten(),
        value matches Json::Object(members) ==> parts.len() == members@.len() && (forall|i: int|
            0 <= i < parts.len() ==> #[trigger] parts[i] == texts_of(members@[i].1)) ==> texts_of(
            value,
        ) == parts.flatten(),
{
    match value {
        Json::List(items) => {
            if parts.len() == items@.len() && (forall|i: int|
                0 <= i < parts.len() ==> #[trigger] parts[i] == texts_of(items@[i])) {
                texts_of_items_flattened(items@, parts);
            }
        },
        Json::Object(members) => {
            if parts.len() == members@.len() && (forall|i: int|
                0 <= i < parts.len() ==> #[trigger] parts[i] == texts_of(members@[i].1)) {
                texts_of_members_flattened(members@, parts);
            }
        },
        _ => {},
    }
}

proof fn first_member(members: Seq<(String, Json)>, name: Seq<char>, i: int)
    requires
        0 <= i <= members.len(),
        forall|j: int| 0 <= j < i ==> (#[trigger] members[j]).0@ != name,
        i < members.len() ==> members[i].0@ == name,
    ensures
        member(members, name) == (if i < members.len() {
            Some(members[i].1)
        } else {
            None
        }),
    decreases members.len(),
{
    if members.len() > 0 && i > 0 {
        let rest = members.drop_first();
        assert(members[0].0@ != name);
        assert forall|j: int| 0 <= j < i - 1 implies (#[trigger] rest[j]).0@ != name by {
            assert(rest[j] == members[j + 1]);
        }
        if i < members.len() {
            assert(rest[i - 1] == members[i]);
        }
        first_member(rest, name, i - 1);
    }
}

/// The bundle of a state is the text of its first member `bundle`. A state without such a
/// member, or in which it is no text, or that is no object, names none.
pub proof fn bundle_of_a_state(state: Json, members: Vec<(String, Json)>, i: int)
    requires
        0 <= i <= members@.len(),
        forall|j: int| 0 <= j < i ==> (#[trigger] members@[j]).0@ != "bundle"@,
        i < members@.len() ==> members@[i].0@ == "bundle"@,
    ensures
        !(state is Object) ==> bundle_of(state) == None::<Seq<char>>,
        state == Json::Object(members) ==> bundle_of(state) == (if i < members@.len()
            && members@[i].1 is Text {
            Some((members@[i].1->Text_0)@)
        } else {
            None
        }),
{
    first_member(members@, "bundle"@, i);
}

/// Where the states of containers are.
pub proof fn places_of_states()
    ensures
        CONTAINER_ROOT@ == "/run/youki"@,
        STATE_FILE@ == "state.json"@,
{
}

} // verus!
