//! Reading the catalog out of a [`Document`]: the functions that run, each
//! with the record of [`decode`](super::decode) that it computes.

use vstd::prelude::*;
use crate::catalog::{
    Versions, Contributor, License, Compatibility, Example, Extension, VersionsModel,
    ContributorModel, LicenseModel, CompatibilityModel, ExampleModel, ExtensionModel, contributors,
    incompatibilities, examples, extensions,
};
use crate::document::{
    Doc, Document, docs, pairs, find, lemma_place, lemma_list_view, lemma_record_view,
};
use crate::text::{texts, text_if_any};
use super::{
    Field, Shape, SchemaError, CatalogError, single, required, text_in, required_text,
    optional_text, flag_or_false, required_list, optional_list, required_record, all_texts,
    all_records,
};
use super::decode::{
    versions_in, contributors_in, license_in, incompatible_in, examples_in, decode_entries,
    contributor_decoder, compatibility_decoder, example_decoder,
    decode_catalog, lemma_all_texts_fails_early, lemma_all_records_fails_early,
    lemma_decode_entries_fails_early,
};

verus! {

/// The value of a field that may stand at most once.
fn get_single<'a>(fields: &'a Vec<(String, Document)>, field: Field) -> (value: Result<
    Option<&'a Document>,
    SchemaError,
>)
    ensures
        match value {
            Ok(Some(found)) => single(pairs(fields@), field) == Ok::<Option<Doc>, SchemaError>(
                Some(found@),
            ),
            Ok(None) => single(pairs(fields@), field) == Ok::<Option<Doc>, SchemaError>(None),
            Err(error) => single(pairs(fields@), field) == Err::<Option<Doc>, SchemaError>(error),
        },
{
    let (times, last) = find(fields, field.name());
    if times == 0 {
        Ok(None)
    } else if times == 1 {
        proof {
            lemma_place(pairs(fields@), field.text());
        }
        Ok(Some(&fields[last].1))
    } else {
        Err(SchemaError::Repeated(field))
    }
}

/// The value of a field that is owed.
fn get_required<'a>(fields: &'a Vec<(String, Document)>, field: Field) -> (value: Result<
    &'a Document,
    SchemaError,
>)
    ensures
        match value {
            Ok(found) => required(pairs(fields@), field) == Ok::<Doc, SchemaError>(found@),
            Err(error) => required(pairs(fields@), field) == Err::<Doc, SchemaError>(error),
        },
{
    match get_single(fields, field) {
        Ok(Some(found)) => Ok(found),
        Ok(None) => Err(SchemaError::Missing(field)),
        Err(error) => Err(error),
    }
}

/// The text that a value is.
fn get_text_in(value: &Document, field: Field) -> (text: Result<String, SchemaError>)
    ensures
        match text {
            Ok(found) => text_in(value@, field) == Ok::<Seq<char>, SchemaError>(found@),
            Err(error) => text_in(value@, field) == Err::<Seq<char>, SchemaError>(error),
        },
{
    match value {
        Document::Text(text) => Ok(text.clone()),
        _ => Err(SchemaError::Mismatch(field, Shape::Text)),
    }
}

/// The text of a field that is owed.
fn get_required_text(fields: &Vec<(String, Document)>, field: Field) -> (text: Result<
    String,
    SchemaError,
>)
    ensures
        match text {
            Ok(found) => required_text(pairs(fields@), field) == Ok::<Seq<char>, SchemaError>(
                found@,
            ),
            Err(error) => required_text(pairs(fields@), field) == Err::<Seq<char>, SchemaError>(
                error,
            ),
        },
{
    match get_required(fields, field) {
        Ok(value) => get_text_in(value, field),
        Err(error) => Err(error),
    }
}

/// The text of a field that may be missing, or be null.
fn get_optional_text(fields: &Vec<(String, Document)>, field: Field) -> (text: Result<
    Option<String>,
    SchemaError,
>)
    ensures
        match text {
            Ok(found) => optional_text(pairs(fields@), field) == Ok::<
                Option<Seq<char>>,
                SchemaError,
            >(text_if_any(found)),
            Err(error) => optional_text(pairs(fields@), field) == Err::<
                Option<Seq<char>>,
                SchemaError,
            >(error),
        },
{
    match get_single(fields, field) {
        Ok(None) => Ok(None),
        Ok(Some(Document::Null)) => Ok(None),
        Ok(Some(value)) => match get_text_in(value, field) {
            Ok(text) => Ok(Some(text)),
            Err(error) => Err(error),
        },
        Err(error) => Err(error),
    }
}

/// The flag of a field that counts as false where it is missing.
fn get_flag_or_false(fields: &Vec<(String, Document)>, field: Field) -> (flag: Result<
    bool,
    SchemaError,
>)
    ensures
        flag == flag_or_false(pairs(fields@), field),
{
    match get_single(fields, field) {
        Ok(None) => Ok(false),
        Ok(Some(Document::Flag(flag))) => Ok(*flag),
        Ok(Some(_)) => Err(SchemaError::Mismatch(field, Shape::Flag)),
        Err(error) => Err(error),
    }
}

/// The items of a field that is owed and holds a list.
fn get_required_list<'a>(fields: &'a Vec<(String, Document)>, field: Field) -> (items: Result<
    &'a Vec<Document>,
    SchemaError,
>)
    ensures
        match items {
            Ok(found) => required_list(pairs(fields@), field) == Ok::<Seq<Doc>, SchemaError>(
                docs(found@),
            ),
            Err(error) => required_list(pairs(fields@), field) == Err::<Seq<Doc>, SchemaError>(
                error,
            ),
        },
{
    match get_required(fields, field) {
        Ok(Document::List(items)) => {
            proof {
                lemma_list_view(*items);
            }
            Ok(items)
        },
        Ok(_) => Err(SchemaError::Mismatch(field, Shape::List)),
        Err(error) => Err(error),
    }
}

/// The items of a field that holds a list and may be missing, or be null.
fn get_optional_list<'a>(fields: &'a Vec<(String, Document)>, field: Field) -> (items: Result<
    Option<&'a Vec<Document>>,
    SchemaError,
>)
    ensures
        match items {
            Ok(Some(found)) => optional_list(pairs(fields@), field) == Ok::<
                Option<Seq<Doc>>,
                SchemaError,
            >(Some(docs(found@))),
            Ok(None) => optional_list(pairs(fields@), field) == Ok::<Option<Seq<Doc>>, SchemaError>(
                None,
            ),
            Err(error) => optional_list(pairs(fields@), field) == Err::<
                Option<Seq<Doc>>,
                SchemaError,
            >(error),
        },
{
    match get_single(fields, field) {
        Ok(None) => Ok(None),
        Ok(Some(Document::Null)) => Ok(None),
        Ok(Some(Document::List(items))) => {
            proof {
                lemma_list_view(*items);
            }
            Ok(Some(items))
        },
        Ok(Some(_)) => Err(SchemaError::Mismatch(field, Shape::List)),
        Err(error) => Err(error),
    }
}

/// The fields of a field that is owed and holds a record.
fn get_required_record<'a>(fields: &'a Vec<(String, Document)>, field: Field) -> (inner: Result<
    &'a Vec<(String, Document)>,
    SchemaError,
>)
    ensures
        match inner {
            Ok(found) => required_record(pairs(fields@), field) == Ok::<
                Seq<(Seq<char>, Doc)>,
                SchemaError,
            >(pairs(found@)),
            Err(error) => required_record(pairs(fields@), field) == Err::<
                Seq<(Seq<char>, Doc)>,
                SchemaError,
            >(error),
        },
{
    match get_required(fields, field) {
        Ok(Document::Record(inner)) => {
            proof {
                lemma_record_view(*inner);
            }
            Ok(inner)
        },
        Ok(_) => Err(SchemaError::Mismatch(field, Shape::Record)),
        Err(error) => Err(error),
    }
}

/// The texts that the items of a list are.
fn get_all_texts(items: &Vec<Document>, field: Field) -> (found: Result<Vec<String>, SchemaError>)
    ensures
        match found {
            Ok(list) => all_texts(docs(items@), field) == Ok::<Seq<Seq<char>>, SchemaError>(
                texts(list@),
            ),
            Err(error) => all_texts(docs(items@), field) == Err::<Seq<Seq<char>>, SchemaError>(
                error,
            ),
        },
{
    let mut list: Vec<String> = Vec::new();
    let mut i: usize = 0;
    let ghost all = docs(items@);
    proof {
        assert(all.take(0) =~= Seq::<Doc>::empty());
        assert(texts(list@) =~= Seq::<Seq<char>>::empty());
    }
    while i < items.len()
        invariant
            i <= items.len(),
            all == docs(items@),
            all_texts(all.take(i as int), field) == Ok::<Seq<Seq<char>>, SchemaError>(texts(list@)),
        decreases items.len() - i,
    {
        proof {
            assert(all.take(i + 1).drop_last() =~= all.take(i as int));
            assert(all.take(i + 1).last() == items@[i as int]@);
        }
        match get_text_in(&items[i], field) {
            Ok(text) => {
                proof {
                    assert(texts(list@.push(text)) =~= texts(list@).push(text@));
                }
                list.push(text);
            },
            Err(error) => {
                proof {
                    lemma_all_texts_fails_early(all, field, i + 1);
                }
                return Err(error);
            },
        }
        i += 1;
    }
    proof {
        assert(all.take(i as int) =~= all);
    }
    Ok(list)
}

impl Versions {
    /// Reads the versions out of the fields of a record.
    pub fn from_fields(fields: &Vec<(String, Document)>) -> (read: Result<Versions, SchemaError>)
        ensures
            match read {
                Ok(versions) => VersionsModel::decode(pairs(fields@)) == Ok::<
                    VersionsModel,
                    SchemaError,
                >(versions@),
                Err(error) => VersionsModel::decode(pairs(fields@)) == Err::<
                    VersionsModel,
                    SchemaError,
                >(error),
            },
    {
        let current = match get_required_text(fields, Field::Current) {
            Ok(text) => text,
            Err(error) => { return Err(error); },
        };
        let listed = match get_required_list(fields, Field::Past) {
            Ok(items) => items,
            Err(error) => { return Err(error); },
        };
        let past = match get_all_texts(listed, Field::Past) {
            Ok(list) => list,
            Err(error) => { return Err(error); },
        };
        Ok(Versions { current, past })
    }
}

impl Contributor {
    /// Reads a contributor out of the fields of a record.
    pub fn from_fields(fields: &Vec<(String, Document)>) -> (read: Result<Contributor, SchemaError>)
        ensures
            match read {
                Ok(contributor) => ContributorModel::decode(pairs(fields@)) == Ok::<
                    ContributorModel,
                    SchemaError,
                >(contributor@),
                Err(error) => ContributorModel::decode(pairs(fields@)) == Err::<
                    ContributorModel,
                    SchemaError,
                >(error),
            },
    {
        let name = match get_required_text(fields, Field::Name) {
            Ok(text) => text,
            Err(error) => { return Err(error); },
        };
        let website = match get_optional_text(fields, Field::Website) {
            Ok(text) => text,
            Err(error) => { return Err(error); },
        };
        let notes = match get_optional_text(fields, Field::Notes) {
            Ok(text) => text,
            Err(error) => { return Err(error); },
        };
        Ok(Contributor { name, website, notes })
    }
}

impl License {
    /// Reads the licenses out of the fields of a record.
    pub fn from_fields(fields: &Vec<(String, Document)>) -> (read: Result<License, SchemaError>)
        ensures
            match read {
                Ok(license) => LicenseModel::decode(pairs(fields@)) == Ok::<
                    LicenseModel,
                    SchemaError,
                >(license@),
                Err(error) => LicenseModel::decode(pairs(fields@)) == Err::<
                    LicenseModel,
                    SchemaError,
                >(error),
            },
    {
        let extension = match get_required_text(fields, Field::Extension) {
            Ok(text) => text,
            Err(error) => { return Err(error); },
        };
        let image = match get_required_text(fields, Field::Image) {
            Ok(text) => text,
            Err(error) => { return Err(error); },
        };
        Ok(License { extension, image })
    }
}

impl Compatibility {
    /// Reads an incompatibility out of the fields of a record.
    pub fn from_fields(fields: &Vec<(String, Document)>) -> (read: Result<
        Compatibility,
        SchemaError,
    >)
        ensures
            match read {
                Ok(compatibility) => CompatibilityModel::decode(pairs(fields@)) == Ok::<
                    CompatibilityModel,
                    SchemaError,
                >(compatibility@),
                Err(error) => CompatibilityModel::decode(pairs(fields@)) == Err::<
                    CompatibilityModel,
                    SchemaError,
                >(error),
            },
    {
        let compat_type = match get_required_text(fields, Field::Type) {
            Ok(text) => text,
            Err(error) => { return Err(error); },
        };
        let value = match get_required_text(fields, Field::Value) {
            Ok(text) => text,
            Err(error) => { return Err(error); },
        };
        let broken = match get_flag_or_false(fields, Field::Broken) {
            Ok(flag) => flag,
            Err(error) => { return Err(error); },
        };
        let reason = match get_optional_text(fields, Field::Reason) {
            Ok(text) => text,
            Err(error) => { return Err(error); },
        };
        Ok(Compatibility { compat_type, value, broken, reason })
    }
}

impl Example {
    /// Reads an example out of the fields of a record.
    pub fn from_fields(fields: &Vec<(String, Document)>) -> (read: Result<Example, SchemaError>)
        ensures
            match read {
                Ok(example) => ExampleModel::decode(pairs(fields@)) == Ok::<
                    ExampleModel,
                    SchemaError,
                >(example@),
                Err(error) => ExampleModel::decode(pairs(fields@)) == Err::<
                    ExampleModel,
                    SchemaError,
                >(error),
            },
    {
        let name = match get_required_text(fields, Field::Name) {
            Ok(text) => text,
            Err(error) => { return Err(error); },
        };
        let description = match get_required_text(fields, Field::Description) {
            Ok(text) => text,
            Err(error) => { return Err(error); },
        };
        let path = match get_required_text(fields, Field::Path) {
            Ok(text) => text,
            Err(error) => { return Err(error); },
        };
        Ok(Example { name, description, path })
    }
}

/// The contributor records that the items of a list are.
fn get_contributors(items: &Vec<Document>) -> (found: Result<Vec<Contributor>, SchemaError>)
    ensures
        match found {
            Ok(list) => all_records(docs(items@), Field::Contributors, contributor_decoder())
                == Ok::<Seq<ContributorModel>, SchemaError>(contributors(list@)),
            Err(error) => all_records(docs(items@), Field::Contributors, contributor_decoder())
                == Err::<Seq<ContributorModel>, SchemaError>(error),
        },
{
    let mut list: Vec<Contributor> = Vec::new();
    let mut i: usize = 0;
    let ghost all = docs(items@);
    proof {
        assert(all.take(0) =~= Seq::<Doc>::empty());
        assert(contributors(list@) =~= Seq::<ContributorModel>::empty());
    }
    while i < items.len()
        invariant
            i <= items.len(),
            all == docs(items@),
            all_records(all.take(i as int), Field::Contributors, contributor_decoder()) == Ok::<
                Seq<ContributorModel>,
                SchemaError,
            >(contributors(list@)),
        decreases items.len() - i,
    {
        proof {
            assert(all.take(i + 1).drop_last() =~= all.take(i as int));
            assert(all.take(i + 1).last() == items@[i as int]@);
        }
        match &items[i] {
            Document::Record(fields) => {
                proof {
                    lemma_record_view(*fields);
                }
                match Contributor::from_fields(fields) {
                    Ok(record) => {
                        proof {
                            assert(contributors(list@.push(record)) =~= contributors(list@).push(
                                record@,
                            ));
                        }
                        list.push(record);
                    },
                    Err(error) => {
                        proof {
                            lemma_all_records_fails_early(
                                all,
                                Field::Contributors,
                                contributor_decoder(),
                                i + 1,
                            );
                        }
                        return Err(error);
                    },
                }
            },
            _ => {
                proof {
                    lemma_all_records_fails_early(
                        all,
                        Field::Contributors,
                        contributor_decoder(),
                        i + 1,
                    );
                }
                return Err(SchemaError::Mismatch(Field::Contributors, Shape::Record));
            },
        }
        i += 1;
    }
    proof {
        assert(all.take(i as int) =~= all);
    }
    Ok(list)
}

/// The compatibility records that the items of a list are.
fn get_incompatibilities(items: &Vec<Document>) -> (found: Result<Vec<Compatibility>, SchemaError>)
    ensures
        match found {
            Ok(list) => all_records(docs(items@), Field::Incompatible, compatibility_decoder())
                == Ok::<Seq<CompatibilityModel>, SchemaError>(incompatibilities(list@)),
            Err(error) => all_records(docs(items@), Field::Incompatible, compatibility_decoder())
                == Err::<Seq<CompatibilityModel>, SchemaError>(error),
        },
{
    let mut list: Vec<Compatibility> = Vec::new();
    let mut i: usize = 0;
    let ghost all = docs(items@);
    proof {
        assert(all.take(0) =~= Seq::<Doc>::empty());
        assert(incompatibilities(list@) =~= Seq::<CompatibilityModel>::empty());
    }
    while i < items.len()
        invariant
            i <= items.len(),
            all == docs(items@),
            all_records(all.take(i as int), Field::Incompatible, compatibility_decoder()) == Ok::<
                Seq<CompatibilityModel>,
                SchemaError,
            >(incompatibilities(list@)),
        decreases items.len() - i,
    {
        proof {
            assert(all.take(i + 1).drop_last() =~= all.take(i as int));
            assert(all.take(i + 1).last() == items@[i as int]@);
        }
        match &items[i] {
            Document::Record(fields) => {
                proof {
                    lemma_record_view(*fields);
                }
                match Compatibility::from_fields(fields) {
                    Ok(record) => {
                        proof {
                            assert(incompatibilities(list@.push(record)) =~= incompatibilities(
                                list@,
                            ).push(record@));
                        }
                        list.push(record);
                    },
                    Err(error) => {
                        proof {
                            lemma_all_records_fails_early(
                                all,
                                Field::Incompatible,
                                compatibility_decoder(),
                                i + 1,
                            );
                        }
                        return Err(error);
                    },
                }
            },
            _ => {
                proof {
                    lemma_all_records_fails_early(
                        all,
                        Field::Incompatible,
                        compatibility_decoder(),
                        i + 1,
                    );
                }
                return Err(SchemaError::Mismatch(Field::Incompatible, Shape::Record));
            },
        }
        i += 1;
    }
    proof {
        assert(all.take(i as int) =~= all);
    }
    Ok(list)
}

/// The example records that the items of a list are.
fn get_examples(items: &Vec<Document>) -> (found: Result<Vec<Example>, SchemaError>)
    ensures
        match found {
            Ok(list) => all_records(docs(items@), Field::Examples, example_decoder())
                == Ok::<Seq<ExampleModel>, SchemaError>(examples(list@)),
            Err(error) => all_records(docs(items@), Field::Examples, example_decoder())
                == Err::<Seq<ExampleModel>, SchemaError>(error),
        },
{
    let mut list: Vec<Example> = Vec::new();
    let mut i: usize = 0;
    let ghost all = docs(items@);
    proof {
        assert(all.take(0) =~= Seq::<Doc>::empty());
        assert(examples(list@) =~= Seq::<ExampleModel>::empty());
    }
    while i < items.len()
        invariant
            i <= items.len(),
            all == docs(items@),
            all_records(all.take(i as int), Field::Examples, example_decoder()) == Ok::<
                Seq<ExampleModel>,
                SchemaError,
            >(examples(list@)),
        decreases items.len() - i,
    {
        proof {
            assert(all.take(i + 1).drop_last() =~= all.take(i as int));
            assert(all.take(i + 1).last() == items@[i as int]@);
        }
        match &items[i] {
            Document::Record(fields) => {
                proof {
                    lemma_record_view(*fields);
                }
                match Example::from_fields(fields) {
                    Ok(record) => {
                        proof {
                            assert(examples(list@.push(record)) =~= examples(list@).push(
                                record@,
                            ));
                        }
                        list.push(record);
                    },
                    Err(error) => {
                        proof {
                            lemma_all_records_fails_early(
                                all,
                                Field::Examples,
                                example_decoder(),
                                i + 1,
                            );
                        }
                        return Err(error);
                    },
                }
            },
            _ => {
                proof {
                    lemma_all_records_fails_early(
                        all,
                        Field::Examples,
                        example_decoder(),
                        i + 1,
                    );
                }
                return Err(SchemaError::Mismatch(Field::Examples, Shape::Record));
            },
        }
        i += 1;
    }
    proof {
        assert(all.take(i as int) =~= all);
    }
    Ok(list)
}

impl Extension {
    /// Reads an entry of the catalog out of the fields of a record.
    pub fn from_fields(fields: &Vec<(String, Document)>) -> (read: Result<Extension, SchemaError>)
        ensures
            match read {
                Ok(extension) => ExtensionModel::decode(pairs(fields@)) == Ok::<
                    ExtensionModel,
                    SchemaError,
                >(extension@),
                Err(error) => ExtensionModel::decode(pairs(fields@)) == Err::<
                    ExtensionModel,
                    SchemaError,
                >(error),
            },
    {
        let path = match get_required_text(fields, Field::Path) {
            Ok(text) => text,
            Err(error) => { return Err(error); },
        };
        let title = match get_required_text(fields, Field::Title) {
            Ok(text) => text,
            Err(error) => { return Err(error); },
        };
        let description = match get_required_text(fields, Field::Description) {
            Ok(text) => text,
            Err(error) => { return Err(error); },
        };
        let image = match get_required_text(fields, Field::Image) {
            Ok(text) => text,
            Err(error) => { return Err(error); },
        };
        let versions = match get_required_record(fields, Field::Versions) {
            Ok(inner) => match Versions::from_fields(inner) {
                Ok(versions) => versions,
                Err(error) => { return Err(error); },
            },
            Err(error) => { return Err(error); },
        };
        let contributors = match get_required_list(fields, Field::Contributors) {
            Ok(items) => match get_contributors(items) {
                Ok(list) => list,
                Err(error) => { return Err(error); },
            },
            Err(error) => { return Err(error); },
        };
        let license = match get_required_record(fields, Field::License) {
            Ok(inner) => match License::from_fields(inner) {
                Ok(license) => license,
                Err(error) => { return Err(error); },
            },
            Err(error) => { return Err(error); },
        };
        let incompatible = match get_required_list(fields, Field::Incompatible) {
            Ok(items) => match get_incompatibilities(items) {
                Ok(list) => list,
                Err(error) => { return Err(error); },
            },
            Err(error) => { return Err(error); },
        };
        let documentation = match get_optional_text(fields, Field::Documentation) {
            Ok(text) => text,
            Err(error) => { return Err(error); },
        };
        let website = match get_optional_text(fields, Field::Website) {
            Ok(text) => text,
            Err(error) => { return Err(error); },
        };
        let source = match get_optional_text(fields, Field::Source) {
            Ok(text) => text,
            Err(error) => { return Err(error); },
        };
        let examples = match get_optional_list(fields, Field::Examples) {
            Ok(Some(items)) => match get_examples(items) {
                Ok(list) => Some(list),
                Err(error) => { return Err(error); },
            },
            Ok(None) => None,
            Err(error) => { return Err(error); },
        };
        Ok(
            Extension {
                path,
                title,
                description,
                image,
                versions,
                contributors,
                license,
                incompatible,
                documentation,
                website,
                source,
                examples,
            },
        )
    }
}

/// Reads a catalog out of a document: the entries in the order in which the
/// document lists them, or the first thing that keeps it from being a
/// catalog.
pub fn read_catalog(document: &Document) -> (read: Result<Vec<Extension>, CatalogError>)
    ensures
        match read {
            Ok(catalog) => decode_catalog(document@) == Ok::<Seq<ExtensionModel>, CatalogError>(
                extensions(catalog@),
            ),
            Err(error) => decode_catalog(document@) == Err::<Seq<ExtensionModel>, CatalogError>(
                error,
            ),
        },
{
    let items = match document {
        Document::List(items) => items,
        _ => { return Err(CatalogError::NotAList); },
    };
    proof {
        lemma_list_view(*items);
    }
    let mut catalog: Vec<Extension> = Vec::new();
    let mut i: usize = 0;
    let ghost all = docs(items@);
    proof {
        assert(all.take(0) =~= Seq::<Doc>::empty());
        assert(extensions(catalog@) =~= Seq::<ExtensionModel>::empty());
    }
    while i < items.len()
        invariant
            i <= items.len(),
            all == docs(items@),
            decode_catalog(document@) == decode_entries(all),
            decode_entries(all.take(i as int)) == Ok::<Seq<ExtensionModel>, CatalogError>(
                extensions(catalog@),
            ),
        decreases items.len() - i,
    {
        proof {
            assert(all.take(i + 1).drop_last() =~= all.take(i as int));
            assert(all.take(i + 1).last() == items@[i as int]@);
            assert(all.take(i + 1).len() - 1 == i);
        }
        match &items[i] {
            Document::Record(fields) => {
                proof {
                    lemma_record_view(*fields);
                }
                match Extension::from_fields(fields) {
                    Ok(entry) => {
                        proof {
                            assert(extensions(catalog@.push(entry)) =~= extensions(catalog@).push(
                                entry@,
                            ));
                        }
                        catalog.push(entry);
                    },
                    Err(error) => {
                        proof {
                            lemma_decode_entries_fails_early(all, i + 1);
                        }
                        return Err(CatalogError::Entry(i, error));
                    },
                }
            },
            _ => {
                proof {
                    lemma_decode_entries_fails_early(all, i + 1);
                }
                return Err(CatalogError::NotARecord(i));
            },
        }
        i += 1;
    }
    proof {
        assert(all.take(i as int) =~= all);
    }
    Ok(catalog)
}

} // verus!
