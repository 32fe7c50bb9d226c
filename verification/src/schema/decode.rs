//! Reading the catalog's records out of documents.

use vstd::prelude::*;
use crate::catalog::{
    VersionsModel, ContributorModel, LicenseModel, CompatibilityModel, ExampleModel, ExtensionModel,
};
use crate::document::Doc;
use super::{
    Field, Shape, SchemaError, CatalogError, required_text, optional_text, flag_or_false,
    required_list, optional_list, required_record, all_texts, all_records,
};

verus! {

impl VersionsModel {
    /// The versions that the fields of a record give.
    pub open spec fn decode(fields: Seq<(Seq<char>, Doc)>) -> Result<VersionsModel, SchemaError> {
        let current = required_text(fields, Field::Current);
        let listed = required_list(fields, Field::Past);
        if current is Err {
            Err(current->Err_0)
        } else if listed is Err {
            Err(listed->Err_0)
        } else {
            match all_texts(listed->Ok_0, Field::Past) {
                Ok(past) => Ok(VersionsModel { current: current->Ok_0, past }),
                Err(error) => Err(error),
            }
        }
    }
}

impl ContributorModel {
    /// The contributor that the fields of a record give.
    pub open spec fn decode(fields: Seq<(Seq<char>, Doc)>) -> Result<
        ContributorModel,
        SchemaError,
    > {
        let name = required_text(fields, Field::Name);
        let website = optional_text(fields, Field::Website);
        let notes = optional_text(fields, Field::Notes);
        if name is Err {
            Err(name->Err_0)
        } else if website is Err {
            Err(website->Err_0)
        } else if notes is Err {
            Err(notes->Err_0)
        } else {
            Ok(ContributorModel { name: name->Ok_0, website: website->Ok_0, notes: notes->Ok_0 })
        }
    }
}

impl LicenseModel {
    /// The licenses that the fields of a record give.
    pub open spec fn decode(fields: Seq<(Seq<char>, Doc)>) -> Result<LicenseModel, SchemaError> {
        let extension = required_text(fields, Field::Extension);
        let image = required_text(fields, Field::Image);
        if extension is Err {
            Err(extension->Err_0)
        } else if image is Err {
            Err(image->Err_0)
        } else {
            Ok(LicenseModel { extension: extension->Ok_0, image: image->Ok_0 })
        }
    }
}

impl CompatibilityModel {
    /// The incompatibility that the fields of a record give. Where the
    /// record does not say whether the extension is broken, it is not.
    pub open spec fn decode(fields: Seq<(Seq<char>, Doc)>) -> Result<
        CompatibilityModel,
        SchemaError,
    > {
        let compat_type = required_text(fields, Field::Type);
        let value = required_text(fields, Field::Value);
        let broken = flag_or_false(fields, Field::Broken);
        let reason = optional_text(fields, Field::Reason);
        if compat_type is Err {
            Err(compat_type->Err_0)
        } else if value is Err {
            Err(value->Err_0)
        } else if broken is Err {
            Err(broken->Err_0)
        } else if reason is Err {
            Err(reason->Err_0)
        } else {
            Ok(
                CompatibilityModel {
                    compat_type: compat_type->Ok_0,
                    value: value->Ok_0,
                    broken: broken->Ok_0,
                    reason: reason->Ok_0,
                },
            )
        }
    }
}

impl ExampleModel {
    /// The example that the fields of a record give.
    pub open spec fn decode(fields: Seq<(Seq<char>, Doc)>) -> Result<ExampleModel, SchemaError> {
        let name = required_text(fields, Field::Name);
        let description = required_text(fields, Field::Description);
        let path = required_text(fields, Field::Path);
        if name is Err {
            Err(name->Err_0)
        } else if description is Err {
            Err(description->Err_0)
        } else if path is Err {
            Err(path->Err_0)
        } else {
            Ok(ExampleModel { name: name->Ok_0, description: description->Ok_0, path: path->Ok_0 })
        }
    }
}

/// How a contributor is read out of a record.
pub open spec fn contributor_decoder() -> spec_fn(Seq<(Seq<char>, Doc)>) -> Result<
    ContributorModel,
    SchemaError,
> {
    |inner: Seq<(Seq<char>, Doc)>| ContributorModel::decode(inner)
}

/// How an incompatibility is read out of a record.
pub open spec fn compatibility_decoder() -> spec_fn(Seq<(Seq<char>, Doc)>) -> Result<
    CompatibilityModel,
    SchemaError,
> {
    |inner: Seq<(Seq<char>, Doc)>| CompatibilityModel::decode(inner)
}

/// How an example is read out of a record.
pub open spec fn example_decoder() -> spec_fn(Seq<(Seq<char>, Doc)>) -> Result<
    ExampleModel,
    SchemaError,
> {
    |inner: Seq<(Seq<char>, Doc)>| ExampleModel::decode(inner)
}

/// The versions that a field of a record gives.
pub open spec fn versions_in(fields: Seq<(Seq<char>, Doc)>) -> Result<VersionsModel, SchemaError> {
    match required_record(fields, Field::Versions) {
        Ok(inner) => VersionsModel::decode(inner),
        Err(error) => Err(error),
    }
}

/// The contributors that a field of a record gives.
pub open spec fn contributors_in(fields: Seq<(Seq<char>, Doc)>) -> Result<
    Seq<ContributorModel>,
    SchemaError,
> {
    match required_list(fields, Field::Contributors) {
        Ok(items) => all_records(items, Field::Contributors, contributor_decoder()),
        Err(error) => Err(error),
    }
}

/// The licenses that a field of a record gives.
pub open spec fn license_in(fields: Seq<(Seq<char>, Doc)>) -> Result<LicenseModel, SchemaError> {
    match required_record(fields, Field::License) {
        Ok(inner) => LicenseModel::decode(inner),
        Err(error) => Err(error),
    }
}

/// The incompatibilities that a field of a record gives.
pub open spec fn incompatible_in(fields: Seq<(Seq<char>, Doc)>) -> Result<
    Seq<CompatibilityModel>,
    SchemaError,
> {
    match required_list(fields, Field::Incompatible) {
        Ok(items) => all_records(items, Field::Incompatible, compatibility_decoder()),
        Err(error) => Err(error),
    }
}

/// The examples that a field of a record gives, where it gives any.
pub open spec fn examples_in(fields: Seq<(Seq<char>, Doc)>) -> Result<
    Option<Seq<ExampleModel>>,
    SchemaError,
> {
    match optional_list(fields, Field::Examples) {
        Ok(Some(items)) => match all_records(items, Field::Examples, example_decoder()) {
            Ok(examples) => Ok(Some(examples)),
            Err(error) => Err(error),
        },
        Ok(None) => Ok(None),
        Err(error) => Err(error),
    }
}

impl ExtensionModel {
    /// The entry that the fields of a record give. The fields are read in
    /// the order in which the entry lists them, and the first that does not
    /// fit is the error.
    pub open spec fn decode(fields: Seq<(Seq<char>, Doc)>) -> Result<ExtensionModel, SchemaError> {
        let path = required_text(fields, Field::Path);
        let title = required_text(fields, Field::Title);
        let description = required_text(fields, Field::Description);
        let image = required_text(fields, Field::Image);
        let versions = versions_in(fields);
        let contributors = contributors_in(fields);
        let license = license_in(fields);
        let incompatible = incompatible_in(fields);
        let documentation = optional_text(fields, Field::Documentation);
        let website = optional_text(fields, Field::Website);
        let source = optional_text(fields, Field::Source);
        let examples = examples_in(fields);
        if path is Err {
            Err(path->Err_0)
        } else if title is Err {
            Err(title->Err_0)
        } else if description is Err {
            Err(description->Err_0)
        } else if image is Err {
            Err(image->Err_0)
        } else if versions is Err {
            Err(versions->Err_0)
        } else if contributors is Err {
            Err(contributors->Err_0)
        } else if license is Err {
            Err(license->Err_0)
        } else if incompatible is Err {
            Err(incompatible->Err_0)
        } else if documentation is Err {
            Err(documentation->Err_0)
        } else if website is Err {
            Err(website->Err_0)
        } else if source is Err {
            Err(source->Err_0)
        } else if examples is Err {
            Err(examples->Err_0)
        } else {
            Ok(
                ExtensionModel {
                    path: path->Ok_0,
                    title: title->Ok_0,
                    description: description->Ok_0,
                    image: image->Ok_0,
                    versions: versions->Ok_0,
                    contributors: contributors->Ok_0,
                    license: license->Ok_0,
                    incompatible: incompatible->Ok_0,
                    documentation: documentation->Ok_0,
                    website: website->Ok_0,
                    source: source->Ok_0,
                    examples: examples->Ok_0,
                },
            )
        }
    }
}

/// The entries that the items of a list give. The first item that is no
/// record, or does not fit the schema, is the error, with its place.
pub open spec fn decode_entries(items: Seq<Doc>) -> Result<Seq<ExtensionModel>, CatalogError>
    decreases items.len(),
{
    if items.len() == 0 {
        Ok(Seq::empty())
    } else {
        match decode_entries(items.drop_last()) {
            Ok(before) => match items.last() {
                Doc::Record(fields) => match ExtensionModel::decode(fields) {
                    Ok(entry) => Ok(before.push(entry)),
                    Err(error) => Err(CatalogError::Entry((items.len() - 1) as usize, error)),
                },
                _ => Err(CatalogError::NotARecord((items.len() - 1) as usize)),
            },
            Err(error) => Err(error),
        }
    }
}

/// The catalog that a document is.
pub open spec fn decode_catalog(document: Doc) -> Result<Seq<ExtensionModel>, CatalogError> {
    match document {
        Doc::List(items) => decode_entries(items),
        _ => Err(CatalogError::NotAList),
    }
}


/// The error that reading a list ran into is the error of the first of its
/// items that fails: reading more of the list does not change it.
pub proof fn lemma_all_texts_fails_early(items: Seq<Doc>, field: Field, k: int)
    requires
        0 <= k <= items.len(),
        all_texts(items.take(k), field) is Err,
    ensures
        all_texts(items, field) == all_texts(items.take(k), field),
    decreases items.len() - k,
{
    if k < items.len() {
        assert(items.take(k + 1).drop_last() =~= items.take(k));
        lemma_all_texts_fails_early(items, field, k + 1);
    } else {
        assert(items.take(k) =~= items);
    }
}

/// The error that reading a list of records ran into is the error of the
/// first of its items that fails.
pub proof fn lemma_all_records_fails_early<T>(
    items: Seq<Doc>,
    field: Field,
    decode: spec_fn(Seq<(Seq<char>, Doc)>) -> Result<T, SchemaError>,
    k: int,
)
    requires
        0 <= k <= items.len(),
        all_records(items.take(k), field, decode) is Err,
    ensures
        all_records(items, field, decode) == all_records(items.take(k), field, decode),
    decreases items.len() - k,
{
    if k < items.len() {
        assert(items.take(k + 1).drop_last() =~= items.take(k));
        lemma_all_records_fails_early(items, field, decode, k + 1);
    } else {
        assert(items.take(k) =~= items);
    }
}

/// The error that reading a catalog ran into is the error of the first of
/// its entries that fails.
pub proof fn lemma_decode_entries_fails_early(items: Seq<Doc>, k: int)
    requires
        0 <= k <= items.len(),
        decode_entries(items.take(k)) is Err,
    ensures
        decode_entries(items) == decode_entries(items.take(k)),
    decreases items.len() - k,
{
    if k < items.len() {
        assert(items.take(k + 1).drop_last() =~= items.take(k));
        lemma_decode_entries_fails_early(items, k + 1);
    } else {
        assert(items.take(k) =~= items);
    }
}

} // verus!
