//! The catalog of tables: the document that records a table, and the names
//! of the tables that are recorded.

use vstd::prelude::*;
use vstd::string::StringExecFns;
use crate::row::names_of;
use crate::text::{join, joined, split, split_by};

verus! {

#[verifier::external_type_specification]
#[verifier::external_body]
pub struct ExYamlError(serde_yaml::Error);

/// An entry of the directory that holds the catalog.
pub struct DirectoryEntry {
    pub file_name: String,
    pub is_file: bool,
}

/// What is to be done for a table that is to be created.
pub enum Creation {
    /// The table is recorded already: nothing is written.
    Exists,
    /// The table is new: this document records it.
    Write(String),
}

/// Why a table cannot be recorded.
#[derive(Clone, Copy, Debug, PartialEq, Eq, Structural)]
pub enum DocumentError {
    /// The schema is no mapping from column names to types.
    Schema,
    /// The document could not be written out as text.
    Render,
}

/// The plain values of name and value pairs.
pub open spec fn pairs_of(pairs: Seq<(String, String)>) -> Seq<(Seq<char>, Seq<char>)> {
    Seq::new(pairs.len(), |i: int| (pairs[i].0@, pairs[i].1@))
}

/// The plain values of the sections of a document.
pub open spec fn sections_of(sections: Seq<(String, Vec<(String, String)>)>) -> Seq<
    (Seq<char>, Seq<(Seq<char>, Seq<char>)>),
> {
    Seq::new(sections.len(), |i: int| (sections[i].0@, pairs_of(sections[i].1@)))
}

/// The mapping from names to text that the YAML text `text` holds, as the
/// pairs that the mapping hands out; nothing where `text` holds no such
/// mapping.
pub uninterp spec fn yaml_schema(text: Seq<char>) -> Option<Seq<(Seq<char>, Seq<char>)>>;

/// The YAML text of the two-level mapping that these sections make;
/// nothing where it cannot be written.
pub uninterp spec fn yaml_document(
    sections: Seq<(Seq<char>, Seq<(Seq<char>, Seq<char>)>)>,
) -> Option<Seq<char>>;

/// Reads `contents` with `serde_yaml::from_str` as a map from `String` to
/// `String`, and hands out the map's pairs in the map's order.
#[verifier::external_body]
pub(crate) fn yaml_schema_read(contents: &str) -> (schema: Result<
    Vec<(String, String)>,
    serde_yaml::Error,
>)
    ensures
        match schema {
            Ok(pairs) => yaml_schema(contents@) == Some(pairs_of(pairs@)),
            Err(_) => yaml_schema(contents@).is_none(),
        },
{
    let map = serde_yaml::from_str::<std::collections::BTreeMap<String, String>>(contents)?;
    Ok(map.into_iter().collect())
}

/// Writes the sections with `serde_yaml::to_string`, as a map from each
/// section's name to the map of its pairs.
#[verifier::external_body]
pub(crate) fn yaml_write(sections: &Vec<(String, Vec<(String, String)>)>) -> (text: Result<
    String,
    serde_yaml::Error,
>)
    ensures
        match text {
            Ok(written) => yaml_document(sections_of(sections@)) == Some(written@),
            Err(_) => yaml_document(sections_of(sections@)).is_none(),
        },
{
    let map: std::collections::BTreeMap<String, std::collections::BTreeMap<String, String>> =
        sections.iter().map(|s| (s.0.clone(), s.1.iter().cloned().collect())).collect();
    serde_yaml::to_string(&map)
}

/// The sections of the document that records a table: its metadata, and
/// its schema.
pub open spec fn table_sections(
    table: Seq<char>,
    format: Seq<char>,
    file_path: Seq<char>,
    schema: Seq<(Seq<char>, Seq<char>)>,
) -> Seq<(Seq<char>, Seq<(Seq<char>, Seq<char>)>)> {
    seq![
        ("metadata"@, seq![("name"@, table), ("format"@, format), ("data_path"@, file_path)]),
        ("schema"@, schema),
    ]
}

/// What creating a table comes to.
pub open spec fn creation(
    exists: bool,
    table: Seq<char>,
    schema_text: Seq<char>,
    file_path: Seq<char>,
    format: Seq<char>,
) -> Result<Option<Seq<char>>, DocumentError> {
    if exists {
        Ok(None)
    } else {
        match yaml_schema(schema_text) {
            None => Err(DocumentError::Schema),
            Some(schema) => match yaml_document(table_sections(table, format, file_path, schema)) {
                Some(text) => Ok(Some(text)),
                None => Err(DocumentError::Render),
            },
        }
    }
}

/// Decides what is written for a table that is to be created. A table that
/// is recorded already is left as it is. For a new one the schema is read
/// from `schema_text`, and the document holds the table's name, format and
/// data path, and that schema.
pub fn create_table(
    table: &String,
    exists: bool,
    schema_text: &String,
    file_path: &String,
    format: &String,
) -> (outcome: Result<Creation, DocumentError>)
    ensures
        match outcome {
            Ok(Creation::Exists) => creation(exists, table@, schema_text@, file_path@, format@)
                == Ok::<Option<Seq<char>>, DocumentError>(None),
            Ok(Creation::Write(document)) => creation(
                exists,
                table@,
                schema_text@,
                file_path@,
                format@,
            ) == Ok::<Option<Seq<char>>, DocumentError>(Some(document@)),
            Err(error) => creation(exists, table@, schema_text@, file_path@, format@) == Err::<
                Option<Seq<char>>,
                DocumentError,
            >(error),
        },
{
    if exists {
        return Ok(Creation::Exists);
    }
    let schema = match yaml_schema_read(schema_text.as_str()) {
        Ok(pairs) => pairs,
        Err(_) => {
            return Err(DocumentError::Schema);
        },
    };
    let ghost plain = pairs_of(schema@);
    let mut metadata: Vec<(String, String)> = Vec::new();
    metadata.push((String::from_str("name"), table.clone()));
    metadata.push((String::from_str("format"), format.clone()));
    metadata.push((String::from_str("data_path"), file_path.clone()));
    let mut sections: Vec<(String, Vec<(String, String)>)> = Vec::new();
    sections.push((String::from_str("metadata"), metadata));
    sections.push((String::from_str("schema"), schema));
    proof {
        assert(pairs_of(sections@[0].1@) =~= seq![
            ("name"@, table@),
            ("format"@, format@),
            ("data_path"@, file_path@),
        ]);
        assert(sections_of(sections@) =~= table_sections(table@, format@, file_path@, plain));
    }
    match yaml_write(&sections) {
        Ok(document) => Ok(Creation::Write(document)),
        Err(_) => Err(DocumentError::Render),
    }
}

/// The name of the file that records table `table`.
pub open spec fn file_name_of(table: Seq<char>) -> Seq<char> {
    table + ".yaml"@
}

/// The name of the file that records table `table`.
pub fn table_file_name(table: &String) -> (file_name: String)
    ensures
        file_name@ == file_name_of(table@),
{
    table.clone().concat(".yaml")
}

/// The table that a file of the catalog records: the file's name without
/// any `.yaml` in it.
pub open spec fn table_name_of(file_name: Seq<char>) -> Seq<char> {
    joined(split_by(file_name, ".yaml"@), Seq::empty())
}

/// What an entry is listed as: a file as the table it records, anything
/// else as `.`.
pub open spec fn listed_as(file_name: Seq<char>, is_file: bool) -> Seq<char> {
    if is_file {
        table_name_of(file_name)
    } else {
        "."@
    }
}

/// The tables among the first `n` entries, in the entries' order: what
/// each entry is listed as, but for `.`.
pub open spec fn tables_among(entries: Seq<DirectoryEntry>, n: nat) -> Seq<Seq<char>>
    decreases n,
{
    if n == 0 {
        Seq::empty()
    } else {
        let before = tables_among(entries, (n - 1) as nat);
        let name = listed_as(entries[n - 1].file_name@, entries[n - 1].is_file);
        if name != "."@ {
            before.push(name)
        } else {
            before
        }
    }
}

/// The names of the tables that the entries of the catalog's directory
/// record.
pub fn get_tables(entries: &Vec<DirectoryEntry>) -> (tables: Vec<String>)
    ensures
        names_of(tables@) == tables_among(entries@, entries@.len()),
{
    proof {
        reveal_strlit(".yaml");
        reveal_strlit("");
    }
    let dot = String::from_str(".");
    let mut tables: Vec<String> = Vec::new();
    let mut i: usize = 0;
    assert(names_of(tables@) =~= tables_among(entries@, 0));
    while i < entries.len()
        invariant
            i <= entries@.len(),
            dot@ == "."@,
            ".yaml"@.len() > 0,
            ""@ == Seq::<char>::empty(),
            names_of(tables@) == tables_among(entries@, i as nat),
        decreases entries@.len() - i,
    {
        let ghost before = names_of(tables@);
        let name = if entries[i].is_file {
            let parts = split(entries[i].file_name.as_str(), ".yaml");
            join(&parts, "")
        } else {
            dot.clone()
        };
        assert(name@ == listed_as(entries@[i as int].file_name@, entries@[i as int].is_file));
        if name != dot {
            tables.push(name);
            assert(names_of(tables@) =~= before.push(name@));
        }
        i += 1;
    }
    tables
}

} // verus!
