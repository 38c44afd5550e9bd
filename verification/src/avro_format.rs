//! Avro container files: every entry of the container is one row, read
//! without regard to the container's schema.

use vstd::prelude::*;
use vstd::string::StringExecFns;
use crate::csv_format::{all_wf, cells_of};
use crate::row::{inserted, Row};

verus! {

#[verifier::external_type_specification]
#[verifier::external_body]
pub struct ExAvroValue(apache_avro::types::Value);

#[verifier::external_type_specification]
#[verifier::external_body]
pub struct ExAvroError(apache_avro::Error);

#[verifier::external_type_specification]
#[verifier::external_body]
pub struct ExJsonValue(serde_json::Value);

/// One member of a decoded entry: its name, whether its value is a string,
/// and the value's text as JSON writes it.
pub struct AvroField {
    pub name: String,
    pub is_text: bool,
    pub rendered: String,
}

/// What the avro reader makes of `bytes`: the entries of the container in
/// their order, an entry that could not be decoded standing as `None`; or
/// nothing where the container's header cannot be read.
pub uninterp spec fn avro_entries(bytes: Seq<u8>) -> Option<Seq<Option<apache_avro::types::Value>>>;

/// The generic structured value that an entry deserialises to, if it does.
pub uninterp spec fn avro_json(entry: apache_avro::types::Value) -> Option<serde_json::Value>;

/// The members of a structured value that is an object: each name with its
/// value, in the order in which the object hands them out.
pub uninterp spec fn json_members(value: serde_json::Value) -> Option<
    Seq<(Seq<char>, serde_json::Value)>,
>;

/// Whether a structured value is a string.
pub uninterp spec fn json_is_text(value: serde_json::Value) -> bool;

/// The text of a structured value as JSON writes it.
pub uninterp spec fn json_rendered(value: serde_json::Value) -> Seq<char>;

/// Opens `contents` with `apache_avro::Reader::new`, which reads the
/// container's header, and takes every item that the reader's iterator
/// yields. The iterator yields an undecodable entry as an error; it stands
/// here as `None`.
#[verifier::external_body]
pub(crate) fn avro_read(contents: &Vec<u8>) -> (entries: Result<
    Vec<Option<apache_avro::types::Value>>,
    apache_avro::Error,
>)
    ensures
        match entries {
            Ok(list) => avro_entries(contents@) == Some(list@),
            Err(_) => avro_entries(contents@).is_none(),
        },
{
    let reader = apache_avro::Reader::new(contents.as_slice())?;
    Ok(reader.map(|entry| entry.ok()).collect())
}

/// Deserialises an entry with `apache_avro::from_value` into a
/// `serde_json::Value`; `None` where that fails.
#[verifier::external_body]
pub(crate) fn avro_to_json(entry: &apache_avro::types::Value) -> (json: Option<serde_json::Value>)
    ensures
        json == avro_json(*entry),
{
    apache_avro::from_value::<serde_json::Value>(entry).ok()
}

/// The members of an object, by `serde_json::Value::as_object` and the
/// map's iterator; `None` for a value that is no object.
#[verifier::external_body]
pub(crate) fn json_object(value: &serde_json::Value) -> (members: Option<
    Vec<(String, serde_json::Value)>,
>)
    ensures
        match members {
            Some(list) => json_members(*value) == Some(
                Seq::new(list@.len(), |i: int| (list@[i].0@, list@[i].1)),
            ),
            None => json_members(*value).is_none(),
        },
{
    value.as_object().map(|object| object.iter().map(|(k, v)| (k.clone(), v.clone())).collect())
}

/// `serde_json::Value::is_string`.
#[verifier::external_body]
pub(crate) fn json_is_string(value: &serde_json::Value) -> (is_text: bool)
    ensures
        is_text == json_is_text(*value),
{
    value.is_string()
}

/// The text that `serde_json::Value`'s `Display` gives: the value as compact
/// JSON.
#[verifier::external_body]
pub(crate) fn json_render(value: &serde_json::Value) -> (rendered: String)
    ensures
        rendered@ == json_rendered(*value),
{
    value.to_string()
}

/// `text` without its first and its last character; empty where it has
/// fewer than two.
pub open spec fn unquoted(text: Seq<char>) -> Seq<char> {
    if text.len() >= 2 {
        text.subrange(1, text.len() - 1)
    } else {
        Seq::empty()
    }
}

/// The text that a member's value has in a row: a string stands without the
/// quotes that JSON writes round it, any other value as JSON writes it.
pub open spec fn cell_text(is_text: bool, rendered: Seq<char>) -> Seq<char> {
    if is_text {
        unquoted(rendered)
    } else {
        rendered
    }
}

/// The plain values of `fields`.
pub open spec fn fields_of(fields: Seq<AvroField>) -> Seq<(Seq<char>, bool, Seq<char>)> {
    Seq::new(fields.len(), |i: int| (fields[i].name@, fields[i].is_text, fields[i].rendered@))
}

/// The row of the first `n` members: each member's text under its name.
pub open spec fn avro_row_upto(fields: Seq<(Seq<char>, bool, Seq<char>)>, n: nat) -> Seq<
    (Seq<char>, Seq<char>),
>
    decreases n,
{
    if n == 0 {
        Seq::empty()
    } else {
        inserted(
            avro_row_upto(fields, (n - 1) as nat),
            fields[n - 1].0,
            cell_text(fields[n - 1].1, fields[n - 1].2),
        )
    }
}

/// The row of an entry with these members.
pub open spec fn avro_row(fields: Seq<(Seq<char>, bool, Seq<char>)>) -> Seq<(Seq<char>, Seq<char>)> {
    avro_row_upto(fields, fields.len())
}

/// The text of one member's value in a row.
pub fn avro_cell(is_text: bool, rendered: &String) -> (text: String)
    ensures
        text@ == cell_text(is_text, rendered@),
{
    if is_text {
        let length: usize = rendered.as_str().unicode_len();
        if length >= 2 {
            String::from_str(rendered.as_str().substring_char(1, length - 1))
        } else {
            String::new()
        }
    } else {
        rendered.clone()
    }
}

/// Builds the row of one entry from its members.
pub fn row_from_fields(fields: &Vec<AvroField>) -> (row: Row)
    ensures
        row.wf(),
        row.cells() == avro_row(fields_of(fields@)),
{
    let mut row = Row::new();
    let mut i: usize = 0;
    while i < fields.len()
        invariant
            i <= fields@.len(),
            row.wf(),
            row.cells() == avro_row_upto(fields_of(fields@), i as nat),
        decreases fields@.len() - i,
    {
        let text = avro_cell(fields[i].is_text, &fields[i].rendered);
        row.insert(fields[i].name.clone(), text);
        i += 1;
    }
    row
}

/// The members of an entry as plain values, where the entry deserialises to
/// an object.
pub open spec fn entry_fields(entry: apache_avro::types::Value) -> Option<
    Seq<(Seq<char>, bool, Seq<char>)>,
> {
    match avro_json(entry) {
        Some(json) => match json_members(json) {
            Some(members) => Some(
                Seq::new(
                    members.len(),
                    |i: int| (members[i].0, json_is_text(members[i].1), json_rendered(members[i].1)),
                ),
            ),
            None => None,
        },
        None => None,
    }
}

/// The rows of the first `n` entries: one for each entry that deserialises
/// to an object, in the entries' order; other entries are passed over.
pub open spec fn avro_rows_upto(entries: Seq<Option<apache_avro::types::Value>>, n: nat) -> Seq<
    Seq<(Seq<char>, Seq<char>)>,
>
    decreases n,
{
    if n == 0 {
        Seq::empty()
    } else {
        let before = avro_rows_upto(entries, (n - 1) as nat);
        match entries[n - 1] {
            Some(entry) => match entry_fields(entry) {
                Some(fields) => before.push(avro_row(fields)),
                None => before,
            },
            None => before,
        }
    }
}

/// The rows of a container with these entries.
pub open spec fn avro_rows(entries: Seq<Option<apache_avro::types::Value>>) -> Seq<
    Seq<(Seq<char>, Seq<char>)>,
> {
    avro_rows_upto(entries, entries.len())
}

/// The members of one entry as plain values; `None` where the entry does
/// not deserialise to an object.
pub fn fields_from_entry(entry: &apache_avro::types::Value) -> (fields: Option<Vec<AvroField>>)
    ensures
        match fields {
            Some(list) => entry_fields(*entry) == Some(fields_of(list@)),
            None => entry_fields(*entry).is_none(),
        },
{
    let json = match avro_to_json(entry) {
        Some(json) => json,
        None => {
            return None;
        },
    };
    let members = match json_object(&json) {
        Some(members) => members,
        None => {
            return None;
        },
    };
    let ghost named = json_members(json).unwrap();
    let mut fields: Vec<AvroField> = Vec::new();
    let mut i: usize = 0;
    while i < members.len()
        invariant
            i <= members@.len(),
            named.len() == members@.len(),
            forall|j: int|
                0 <= j < members@.len() ==> named[j] == (members@[j].0@, members@[j].1),
            fields@.len() == i,
            forall|j: int|
                0 <= j < i ==> {
                    &&& (#[trigger] fields@[j]).name@ == named[j].0
                    &&& fields@[j].is_text == json_is_text(named[j].1)
                    &&& fields@[j].rendered@ == json_rendered(named[j].1)
                },
        decreases members@.len() - i,
    {
        let is_text = json_is_string(&members[i].1);
        let rendered = json_render(&members[i].1);
        fields.push(AvroField { name: members[i].0.clone(), is_text, rendered });
        i += 1;
    }
    assert(fields_of(fields@) =~= entry_fields(*entry).unwrap());
    Some(fields)
}

/// Builds the rows of a container from its entries.
pub fn rows_from_entries(entries: &Vec<Option<apache_avro::types::Value>>) -> (rows: Vec<Row>)
    ensures
        all_wf(rows@),
        cells_of(rows@) == avro_rows(entries@),
{
    let mut rows: Vec<Row> = Vec::new();
    let mut i: usize = 0;
    assert(cells_of(rows@) =~= Seq::<Seq<(Seq<char>, Seq<char>)>>::empty());
    while i < entries.len()
        invariant
            i <= entries@.len(),
            all_wf(rows@),
            cells_of(rows@) == avro_rows_upto(entries@, i as nat),
        decreases entries@.len() - i,
    {
        let ghost before = rows@;
        match &entries[i] {
            Some(entry) => {
                match fields_from_entry(entry) {
                    Some(fields) => {
                        let row = row_from_fields(&fields);
                        rows.push(row);
                        assert(cells_of(rows@) =~= cells_of(before).push(row.cells()));
                    },
                    None => {},
                }
            },
            None => {},
        }
        i += 1;
    }
    rows
}

} // verus!
