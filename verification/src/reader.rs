//! The format reader: what one file decodes to under a declared format.

use vstd::prelude::*;
use vstd::string::StringExecFns;
use crate::avro_format::{avro_entries, avro_read, avro_rows, rows_from_entries};
use crate::csv_format::{all_wf, cells_of, csv_read, csv_rows, csv_table, rows_from_csv};
use crate::row::Row;

verus! {

/// One scanned path with what was found there: the extension of its file
/// name, whether it is a regular file, and the file's bytes.
pub struct FileSource {
    pub path: String,
    pub extension: Option<String>,
    pub is_file: bool,
    pub contents: Vec<u8>,
}

/// The decoder that a file is read with.
#[derive(Clone, Copy, Debug, PartialEq, Eq, Structural)]
pub enum Decoder {
    Csv,
    Avro,
}

/// Why a file could not be decoded: the decoder that reported the failure.
#[derive(Clone, Copy, Debug, PartialEq, Eq, Structural)]
pub enum DecodeError {
    /// The csv reader reported an error in the header or in a record.
    Csv,
    /// The avro reader could not read the container's header.
    Avro,
}

/// The decoder for a path under a declared format: a regular file whose
/// extension is the format's own is read with the format's decoder; any
/// other path, and any other format, is read with none.
pub open spec fn decoder_for(is_file: bool, extension: Option<Seq<char>>, format: Seq<char>) -> Option<
    Decoder,
> {
    if !is_file {
        None
    } else if format == "csv"@ && extension == Some("csv"@) {
        Some(Decoder::Csv)
    } else if format == "avro"@ && extension == Some("avro"@) {
        Some(Decoder::Avro)
    } else {
        None
    }
}

/// The extension of `source` as plain text.
pub open spec fn extension_of(source: FileSource) -> Option<Seq<char>> {
    match source.extension {
        Some(text) => Some(text@),
        None => None,
    }
}

/// What a file decodes to: its rows in the order of its records, or the
/// error of the decoder that failed. A path that is read with no decoder
/// has no rows.
pub open spec fn decoded(source: FileSource, format: Seq<char>) -> Result<
    Seq<Seq<(Seq<char>, Seq<char>)>>,
    DecodeError,
> {
    match decoder_for(source.is_file, extension_of(source), format) {
        None => Ok(Seq::empty()),
        Some(Decoder::Csv) => match csv_table(source.contents@) {
            Some((header, records)) => Ok(csv_rows(header, records)),
            None => Err(DecodeError::Csv),
        },
        Some(Decoder::Avro) => match avro_entries(source.contents@) {
            Some(entries) => Ok(avro_rows(entries)),
            None => Err(DecodeError::Avro),
        },
    }
}

/// Whether `text` is the tag `tag`.
fn is_tag(text: &String, tag: &str) -> (same: bool)
    ensures
        same == (text@ == tag@),
{
    *text == String::from_str(tag)
}

/// Picks the decoder for a path under a declared format.
pub fn choose_decoder(is_file: bool, extension: &Option<String>, format: &String) -> (decoder:
    Option<Decoder>)
    ensures
        decoder == decoder_for(
            is_file,
            match *extension {
                Some(text) => Some(text@),
                None => None,
            },
            format@,
        ),
{
    if !is_file {
        return None;
    }
    match extension {
        Some(text) => {
            if is_tag(format, "csv") && is_tag(text, "csv") {
                Some(Decoder::Csv)
            } else if is_tag(format, "avro") && is_tag(text, "avro") {
                Some(Decoder::Avro)
            } else {
                None
            }
        },
        None => None,
    }
}

/// Whether decoding `source` under `format` reads the file's bytes at all.
pub fn wants_contents(is_file: bool, extension: &Option<String>, format: &String) -> (wanted: bool)
    ensures
        wanted == decoder_for(
            is_file,
            match *extension {
                Some(text) => Some(text@),
                None => None,
            },
            format@,
        ).is_some(),
{
    choose_decoder(is_file, extension, format).is_some()
}

/// Decodes one file under a declared format into its rows.
pub fn read_path(source: &FileSource, format: &String) -> (rows: Result<Vec<Row>, DecodeError>)
    ensures
        match rows {
            Ok(list) => all_wf(list@) && decoded(*source, format@) == Ok::<_, DecodeError>(
                cells_of(list@),
            ),
            Err(error) => decoded(*source, format@) == Err::<Seq<Seq<(Seq<char>, Seq<char>)>>, _>(
                error,
            ),
        },
{
    match choose_decoder(source.is_file, &source.extension, format) {
        None => {
            let rows: Vec<Row> = Vec::new();
            assert(cells_of(rows@) =~= Seq::<Seq<(Seq<char>, Seq<char>)>>::empty());
            Ok(rows)
        },
        Some(Decoder::Csv) => match csv_read(&source.contents) {
            Ok(table) => Ok(rows_from_csv(&table.header, &table.records)),
            Err(_) => Err(DecodeError::Csv),
        },
        Some(Decoder::Avro) => match avro_read(&source.contents) {
            Ok(entries) => Ok(rows_from_entries(&entries)),
            Err(_) => Err(DecodeError::Avro),
        },
    }
}

} // verus!
