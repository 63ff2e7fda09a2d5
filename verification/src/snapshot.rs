//! The snapshot codec: the whole contents of a cache as one JSON text, a list of objects with a
//! `key` field and a `value` field, and back.
//!
//! Reading and writing JSON is left to `serde_json`. What it reads from a text and what it writes
//! for a list of objects are given names, [`json_objects`] and [`json_text`]; the two functions
//! that call it state their results over those names and are not verified. Which objects stand
//! for which entries is decided here, and proved.

use crate::entry::{entries_view, CacheEntry, EntryView};
use std::collections::BTreeMap;
use vstd::prelude::*;
use vstd::string::StringExecFns;

verus! {

/// `serde_json::Error`. Nothing is read from it: each failure becomes a [`CacheError`].
#[verifier::external_type_specification]
#[verifier::external_body]
pub struct ExJsonError(serde_json::Error);

/// Why a snapshot could not be read or written.
#[derive(Debug, Clone, Copy, PartialEq, Eq, Structural)]
pub enum CacheError {
    /// The file is there and could not be read.
    Unreadable,
    /// The text is not a list of objects that each have a `key` and a `value` holding text.
    Decode,
    /// The entries could not be written as JSON.
    Encode,
}

/// One field of a JSON object whose fields all hold text.
#[derive(Debug, Clone)]
pub struct Field {
    pub name: String,
    pub text: String,
}

/// A JSON object whose fields all hold text, as contracts see it: each field's name with what
/// the field holds.
pub type ObjectView = Map<Seq<char>, Seq<char>>;

/// What `serde_json` reads from `text` when asked for a list of objects whose fields all hold
/// text: the objects in the order of the text, or `None` where the text is no such list.
pub uninterp spec fn json_objects(text: Seq<char>) -> Option<Seq<Map<Seq<char>, Seq<char>>>>;

/// The text that `serde_json` writes for a list of objects whose fields all hold text, or
/// `None` where it writes none.
pub uninterp spec fn json_text(objects: Seq<Map<Seq<char>, Seq<char>>>) -> Option<Seq<char>>;

/// The object that a list of fields stands for. Where a name occurs twice, the first field
/// with it counts.
pub open spec fn object_view(fields: Seq<Field>) -> ObjectView
    decreases fields.len(),
{
    if fields.len() == 0 {
        Map::empty()
    } else {
        let earlier = object_view(fields.drop_last());
        if earlier.contains_key(fields.last().name@) {
            earlier
        } else {
            earlier.insert(fields.last().name@, fields.last().text@)
        }
    }
}

/// The objects that a list of field lists stands for.
pub open spec fn objects_view(objects: Seq<Vec<Field>>) -> Seq<ObjectView> {
    Seq::new(objects.len(), |i: int| object_view(objects[i]@))
}

/// No two fields have the same name.
pub open spec fn names_distinct(fields: Seq<Field>) -> bool {
    forall|a: int, b: int|
        0 <= a < b < fields.len() ==> (#[trigger] fields[a]).name@ != (#[trigger] fields[b]).name@
}

/// The name of the field that holds an entry's key.
pub open spec fn key_name() -> Seq<char> {
    "key"@
}

/// The name of the field that holds an entry's value.
pub open spec fn value_name() -> Seq<char> {
    "value"@
}

/// An object stands for an entry when it has both fields; others it may have are ignored.
pub open spec fn is_entry_object(object: ObjectView) -> bool {
    object.contains_key(key_name()) && object.contains_key(value_name())
}

/// The entry that an object with both fields stands for.
pub open spec fn entry_of(object: ObjectView) -> EntryView {
    (object[key_name()], object[value_name()])
}

/// The object written for an entry: its key under `key`, its value under `value`.
pub open spec fn object_of(entry: EntryView) -> ObjectView {
    Map::<Seq<char>, Seq<char>>::empty().insert(key_name(), entry.0).insert(value_name(), entry.1)
}

/// The entries that a list of objects stands for, in the same order; `None` where an object
/// lacks one of the two fields.
pub open spec fn entries_of(objects: Seq<ObjectView>) -> Option<Seq<EntryView>> {
    if forall|i: int| 0 <= i < objects.len() ==> is_entry_object(#[trigger] objects[i]) {
        Some(Seq::new(objects.len(), |i: int| entry_of(objects[i])))
    } else {
        None
    }
}

/// The entries that a snapshot text holds, in the order of the text; `None` where the text is
/// not a snapshot.
pub open spec fn decoded(text: Seq<char>) -> Option<Seq<EntryView>> {
    match json_objects(text) {
        Some(objects) => entries_of(objects),
        None => None,
    }
}

/// The snapshot text of a list of entries, or `None` where there is none.
pub open spec fn encoded(entries: Seq<EntryView>) -> Option<Seq<char>> {
    json_text(Seq::new(entries.len(), |i: int| object_of(entries[i])))
}

/// The two field names differ.
pub proof fn lemma_field_names_differ()
    ensures
        key_name() != value_name(),
{
    reveal_strlit("key");
    reveal_strlit("value");
    assert("key"@.len() == 3);
    assert("value"@.len() == 5);
}

/// The object written for an entry stands for that entry.
pub proof fn lemma_object_of_entry(entry: EntryView)
    ensures
        is_entry_object(object_of(entry)),
        entry_of(object_of(entry)) == entry,
{
    lemma_field_names_differ();
}

/// The objects written for a list of entries stand for those entries.
pub proof fn lemma_entries_of_objects(entries: Seq<EntryView>)
    ensures
        entries_of(Seq::new(entries.len(), |i: int| object_of(entries[i]))) == Some(entries),
{
    let objects = Seq::new(entries.len(), |i: int| object_of(entries[i]));
    assert forall|i: int| 0 <= i < objects.len() implies is_entry_object(
        #[trigger] objects[i],
    ) by {
        lemma_object_of_entry(entries[i]);
    }
    assert forall|i: int| 0 <= i < entries.len() implies entry_of(objects[i]) == entries[i] by {
        lemma_object_of_entry(entries[i]);
    }
    assert(Seq::new(objects.len(), |i: int| entry_of(objects[i])) =~= entries);
}

/// `serde_json::from_str`, asked for a list of maps from text to text; each map is handed on as
/// the list of its fields. The result depends on the text alone; an error means that the text
/// is no such list.
#[verifier::external_body]
pub(crate) fn json_read(text: &str) -> (read: Result<Vec<Vec<Field>>, serde_json::Error>)
    ensures
        match read {
            Ok(objects) => json_objects(text@) == Some(objects_view(objects@)),
            Err(_) => json_objects(text@).is_none(),
        },
{
    let maps: Vec<BTreeMap<String, String>> = serde_json::from_str(text)?;
    Ok(
        maps.into_iter().map(
            |m| m.into_iter().map(|(name, text)| Field { name, text }).collect(),
        ).collect(),
    )
}

/// `serde_json::to_string` on a list of maps from text to text, each given as the list of its
/// fields. Whether a text is written and which depends on the objects alone, and `serde_json`
/// reads the same objects back from the text.
#[verifier::external_body]
pub(crate) fn json_write(objects: &Vec<Vec<Field>>) -> (written: Result<String, serde_json::Error>)
    requires
        forall|i: int| 0 <= i < objects.len() ==> names_distinct(#[trigger] objects[i]@),
    ensures
        match written {
            Ok(text) => {
                &&& json_text(objects_view(objects@)) == Some(text@)
                &&& json_objects(text@) == Some(objects_view(objects@))
            },
            Err(_) => json_text(objects_view(objects@)).is_none(),
        },
{
    let maps: Vec<BTreeMap<&str, &str>> = objects.iter().map(
        |o| o.iter().map(|f| (f.name.as_str(), f.text.as_str())).collect(),
    ).collect();
    serde_json::to_string(&maps)
}

/// The text of the field called `name`, if the object has one.
pub fn find_field(fields: &Vec<Field>, name: &str) -> (found: Option<String>)
    ensures
        match found {
            Some(text) => object_view(fields@).contains_key(name@) && object_view(fields@)[name@]
                == text@,
            None => !object_view(fields@).contains_key(name@),
        },
{
    let wanted = String::from_str(name);
    let mut found: Option<String> = None;
    let mut i: usize = 0;
    while i < fields.len()
        invariant
            i <= fields.len(),
            wanted@ == name@,
            match found {
                Some(text) => object_view(fields@.take(i as int)).contains_key(name@)
                    && object_view(fields@.take(i as int))[name@] == text@,
                None => !object_view(fields@.take(i as int)).contains_key(name@),
            },
        decreases fields.len() - i,
    {
        assert(fields@.take(i + 1).drop_last() == fields@.take(i as int));
        assert(fields@.take(i + 1).last() == fields@[i as int]);
        if found.is_none() && fields[i].name == wanted {
            found = Some(fields[i].text.clone());
        }
        i += 1;
    }
    assert(fields@.take(i as int) == fields@);
    found
}

/// The entries that a list of objects stands for, as [`entries_of`] says: all of them in order,
/// or [`CacheError::Decode`] where an object lacks its `key` or its `value`.
pub fn entries_from_objects(objects: &Vec<Vec<Field>>) -> (entries: Result<
    Vec<CacheEntry>,
    CacheError,
>)
    ensures
        match entries {
            Ok(list) => entries_of(objects_view(objects@)) == Some(entries_view(list@)),
            Err(e) => e == CacheError::Decode && entries_of(objects_view(objects@)).is_none(),
        },
{
    let ghost views = objects_view(objects@);
    let mut list: Vec<CacheEntry> = Vec::new();
    let mut i: usize = 0;
    while i < objects.len()
        invariant
            i <= objects.len(),
            views == objects_view(objects@),
            list.len() == i,
            forall|j: int| 0 <= j < i ==> is_entry_object(#[trigger] views[j]),
            forall|j: int| 0 <= j < i ==> (#[trigger] list[j])@ == entry_of(views[j]),
        decreases objects.len() - i,
    {
        let key = find_field(&objects[i], "key");
        let value = find_field(&objects[i], "value");
        assert(views[i as int] == object_view(objects[i as int]@));
        match (key, value) {
            (Some(key), Some(value)) => {
                list.push(CacheEntry { key, value });
            },
            _ => {
                assert(!is_entry_object(views[i as int]));
                return Err(CacheError::Decode);
            },
        }
        i += 1;
    }
    assert(entries_view(list@) =~= Seq::new(views.len(), |j: int| entry_of(views[j])));
    Ok(list)
}

/// The fields written for one entry.
pub fn object_for(entry: &CacheEntry) -> (fields: Vec<Field>)
    ensures
        names_distinct(fields@),
        object_view(fields@) == object_of(entry@),
{
    let first = Field { name: String::from_str("key"), text: entry.key.clone() };
    let second = Field { name: String::from_str("value"), text: entry.value.clone() };
    let mut fields: Vec<Field> = Vec::new();
    fields.push(first);
    fields.push(second);
    proof {
        lemma_field_names_differ();
        let one = fields@.drop_last();
        assert(one.drop_last().len() == 0);
        assert(object_view(one.drop_last()) == Map::<Seq<char>, Seq<char>>::empty());
        assert(object_view(one) == Map::<Seq<char>, Seq<char>>::empty().insert(
            key_name(),
            entry@.0,
        ));
        assert(object_view(fields@) == object_of(entry@));
    }
    fields
}

/// The snapshot text of `entries`, or [`CacheError::Encode`] where there is none. The text
/// holds exactly these entries when it is decoded.
pub fn encode(entries: &Vec<CacheEntry>) -> (text: Result<String, CacheError>)
    ensures
        match text {
            Ok(text) => {
                &&& encoded(entries_view(entries@)) == Some(text@)
                &&& decoded(text@) == Some(entries_view(entries@))
            },
            Err(e) => e == CacheError::Encode && encoded(entries_view(entries@)).is_none(),
        },
{
    let ghost views = entries_view(entries@);
    let ghost wanted = Seq::new(views.len(), |i: int| object_of(views[i]));
    let mut objects: Vec<Vec<Field>> = Vec::new();
    let mut i: usize = 0;
    while i < entries.len()
        invariant
            i <= entries.len(),
            objects.len() == i,
            views == entries_view(entries@),
            forall|j: int| 0 <= j < i ==> names_distinct(#[trigger] objects[j]@),
            forall|j: int|
                0 <= j < i ==> object_view(#[trigger] objects[j]@) == object_of(views[j]),
        decreases entries.len() - i,
    {
        let fields = object_for(&entries[i]);
        objects.push(fields);
        i += 1;
    }
    assert(objects_view(objects@) =~= wanted);
    proof {
        lemma_entries_of_objects(views);
    }
    written_text(json_write(&objects))
}

/// What [`encode`] hands back for each outcome of the writing: the text, or
/// [`CacheError::Encode`].
pub fn written_text(written: Result<String, serde_json::Error>) -> (text: Result<
    String,
    CacheError,
>)
    ensures
        match written {
            Ok(t) => text == Ok::<String, CacheError>(t),
            Err(_) => text == Err::<String, CacheError>(CacheError::Encode),
        },
{
    match written {
        Ok(t) => Ok(t),
        Err(_) => Err(CacheError::Encode),
    }
}

/// The entries that a snapshot text holds, in the order of the text, or
/// [`CacheError::Decode`] where the text is not a snapshot. Nothing is handed back of a text
/// of which only a part can be read.
pub fn decode(text: &str) -> (entries: Result<Vec<CacheEntry>, CacheError>)
    ensures
        match entries {
            Ok(list) => decoded(text@) == Some(entries_view(list@)),
            Err(e) => e == CacheError::Decode && decoded(text@).is_none(),
        },
{
    match json_read(text) {
        Ok(objects) => entries_from_objects(&objects),
        Err(_) => Err(CacheError::Decode),
    }
}

} // verus!
