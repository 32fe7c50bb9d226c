//! The schema of the catalog: which document is a catalog, and which
//! catalog it is.
//!
//! A catalog is a list of records. Each record field has a name, is owed or
//! may be missing, and holds a text, a flag, a list or a record. A field
//! that may be missing may also be written as null. A name that the schema
//! does not know is passed over; a name that it knows may stand once in a
//! record. One entry that does not fit fails the whole catalog.

use vstd::prelude::*;
use crate::document::{Doc, count, place};

pub mod decode;
pub mod encode;
pub mod laws;
pub mod read;

verus! {

/// The names of the fields of the catalog's records.
#[derive(Clone, Copy, Debug, PartialEq, Eq, Structural)]
pub enum Field {
    Path,
    Title,
    Description,
    Image,
    Versions,
    Current,
    Past,
    Contributors,
    Name,
    Website,
    Notes,
    License,
    Extension,
    Incompatible,
    Type,
    Value,
    Broken,
    Reason,
    Documentation,
    Source,
    Examples,
}

impl Field {
    /// The name as it is written in a catalog.
    pub open spec fn text(self) -> Seq<char> {
        match self {
            Field::Path => "path"@,
            Field::Title => "title"@,
            Field::Description => "description"@,
            Field::Image => "image"@,
            Field::Versions => "versions"@,
            Field::Current => "current"@,
            Field::Past => "past"@,
            Field::Contributors => "contributors"@,
            Field::Name => "name"@,
            Field::Website => "website"@,
            Field::Notes => "notes"@,
            Field::License => "license"@,
            Field::Extension => "extension"@,
            Field::Incompatible => "incompatible"@,
            Field::Type => "type"@,
            Field::Value => "value"@,
            Field::Broken => "broken"@,
            Field::Reason => "reason"@,
            Field::Documentation => "documentation"@,
            Field::Source => "source"@,
            Field::Examples => "examples"@,
        }
    }

    /// The name as it is written in a catalog.
    pub fn name(self) -> (name: &'static str)
        ensures
            name@ == self.text(),
    {
        match self {
            Field::Path => "path",
            Field::Title => "title",
            Field::Description => "description",
            Field::Image => "image",
            Field::Versions => "versions",
            Field::Current => "current",
            Field::Past => "past",
            Field::Contributors => "contributors",
            Field::Name => "name",
            Field::Website => "website",
            Field::Notes => "notes",
            Field::License => "license",
            Field::Extension => "extension",
            Field::Incompatible => "incompatible",
            Field::Type => "type",
            Field::Value => "value",
            Field::Broken => "broken",
            Field::Reason => "reason",
            Field::Documentation => "documentation",
            Field::Source => "source",
            Field::Examples => "examples",
        }
    }
}

/// What a value can be asked to be.
#[derive(Clone, Copy, Debug, PartialEq, Eq, Structural)]
pub enum Shape {
    Text,
    Flag,
    List,
    Record,
}

/// Why a record does not fit the schema.
#[derive(Clone, Copy, Debug, PartialEq, Eq, Structural)]
pub enum SchemaError {
    /// A field that is owed is not there.
    Missing(Field),
    /// A field stands more than once.
    Repeated(Field),
    /// A field, or an item of the list that it holds, is not of the shape asked for.
    Mismatch(Field, Shape),
}

/// Why a document is no catalog.
#[derive(Clone, Copy, Debug, PartialEq, Eq, Structural)]
pub enum CatalogError {
    /// The document is not a list.
    NotAList,
    /// The item at this place of the list is not a record.
    NotARecord(usize),
    /// The entry at this place of the list does not fit the schema.
    Entry(usize, SchemaError),
}

/// The value of a field that may stand at most once: `None` where it does not stand.
pub open spec fn single(fields: Seq<(Seq<char>, Doc)>, field: Field) -> Result<
    Option<Doc>,
    SchemaError,
> {
    if count(fields, field.text()) == 0 {
        Ok(None)
    } else if count(fields, field.text()) == 1 {
        Ok(Some(fields[place(fields, field.text())].1))
    } else {
        Err(SchemaError::Repeated(field))
    }
}

/// The value of a field that is owed.
pub open spec fn required(fields: Seq<(Seq<char>, Doc)>, field: Field) -> Result<Doc, SchemaError> {
    match single(fields, field) {
        Ok(Some(value)) => Ok(value),
        Ok(None) => Err(SchemaError::Missing(field)),
        Err(error) => Err(error),
    }
}

/// The text that a value is.
pub open spec fn text_in(value: Doc, field: Field) -> Result<Seq<char>, SchemaError> {
    match value {
        Doc::Text(text) => Ok(text),
        _ => Err(SchemaError::Mismatch(field, Shape::Text)),
    }
}

/// The text of a field that is owed.
pub open spec fn required_text(fields: Seq<(Seq<char>, Doc)>, field: Field) -> Result<
    Seq<char>,
    SchemaError,
> {
    match required(fields, field) {
        Ok(value) => text_in(value, field),
        Err(error) => Err(error),
    }
}

/// The text of a field that may be missing, or be null.
pub open spec fn optional_text(fields: Seq<(Seq<char>, Doc)>, field: Field) -> Result<
    Option<Seq<char>>,
    SchemaError,
> {
    match single(fields, field) {
        Ok(None) => Ok(None),
        Ok(Some(Doc::Null)) => Ok(None),
        Ok(Some(value)) => match text_in(value, field) {
            Ok(text) => Ok(Some(text)),
            Err(error) => Err(error),
        },
        Err(error) => Err(error),
    }
}

/// The flag of a field that counts as false where it is missing.
pub open spec fn flag_or_false(fields: Seq<(Seq<char>, Doc)>, field: Field) -> Result<
    bool,
    SchemaError,
> {
    match single(fields, field) {
        Ok(None) => Ok(false),
        Ok(Some(Doc::Flag(flag))) => Ok(flag),
        Ok(Some(_)) => Err(SchemaError::Mismatch(field, Shape::Flag)),
        Err(error) => Err(error),
    }
}

/// The items of a field that is owed and holds a list.
pub open spec fn required_list(fields: Seq<(Seq<char>, Doc)>, field: Field) -> Result<
    Seq<Doc>,
    SchemaError,
> {
    match required(fields, field) {
        Ok(Doc::List(items)) => Ok(items),
        Ok(_) => Err(SchemaError::Mismatch(field, Shape::List)),
        Err(error) => Err(error),
    }
}

/// The items of a field that holds a list and may be missing, or be null.
pub open spec fn optional_list(fields: Seq<(Seq<char>, Doc)>, field: Field) -> Result<
    Option<Seq<Doc>>,
    SchemaError,
> {
    match single(fields, field) {
        Ok(None) => Ok(None),
        Ok(Some(Doc::Null)) => Ok(None),
        Ok(Some(Doc::List(items))) => Ok(Some(items)),
        Ok(Some(_)) => Err(SchemaError::Mismatch(field, Shape::List)),
        Err(error) => Err(error),
    }
}

/// The fields of a field that is owed and holds a record.
pub open spec fn required_record(fields: Seq<(Seq<char>, Doc)>, field: Field) -> Result<
    Seq<(Seq<char>, Doc)>,
    SchemaError,
> {
    match required(fields, field) {
        Ok(Doc::Record(inner)) => Ok(inner),
        Ok(_) => Err(SchemaError::Mismatch(field, Shape::Record)),
        Err(error) => Err(error),
    }
}

/// The texts that the items of a list are. The first item that is no text is the error.
pub open spec fn all_texts(items: Seq<Doc>, field: Field) -> Result<Seq<Seq<char>>, SchemaError>
    decreases items.len(),
{
    if items.len() == 0 {
        Ok(Seq::empty())
    } else {
        match all_texts(items.drop_last(), field) {
            Ok(before) => match text_in(items.last(), field) {
                Ok(text) => Ok(before.push(text)),
                Err(error) => Err(error),
            },
            Err(error) => Err(error),
        }
    }
}

/// The records that the items of a list are, each read by `decode`. The
/// first item that is no record, or that `decode` refuses, is the error.
pub open spec fn all_records<T>(
    items: Seq<Doc>,
    field: Field,
    decode: spec_fn(Seq<(Seq<char>, Doc)>) -> Result<T, SchemaError>,
) -> Result<Seq<T>, SchemaError>
    decreases items.len(),
{
    if items.len() == 0 {
        Ok(Seq::empty())
    } else {
        match all_records(items.drop_last(), field, decode) {
            Ok(before) => match items.last() {
                Doc::Record(fields) => match decode(fields) {
                    Ok(record) => Ok(before.push(record)),
                    Err(error) => Err(error),
                },
                _ => Err(SchemaError::Mismatch(field, Shape::Record)),
            },
            Err(error) => Err(error),
        }
    }
}

} // verus!
