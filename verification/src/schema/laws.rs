//! What holds of reading and writing the catalog, for every catalog and
//! every document.

use vstd::prelude::*;
use crate::catalog::{
    VersionsModel, ContributorModel, LicenseModel, CompatibilityModel, ExampleModel, ExtensionModel,
};
use crate::document::{Doc, count, place, lemma_place};
use super::{
    Field, Shape, SchemaError, CatalogError, single, required, text_in, required_text,
    optional_text, flag_or_false, required_list, optional_list, required_record, all_texts,
    all_records,
};
use super::decode::{
    versions_in, contributors_in, license_in, incompatible_in, examples_in, decode_entries,
    decode_catalog, contributor_decoder, compatibility_decoder, example_decoder,
};
use super::encode::{
    text_or_null, text_list, contributor_list, compatibility_list, example_list, examples_or_null,
    encode_catalog,
};

verus! {

/// A name that only one field of a record has is counted once and found at that field.
pub proof fn lemma_found_once(fields: Seq<(Seq<char>, Doc)>, name: Seq<char>, i: int)
    requires
        0 <= i < fields.len(),
        fields[i].0 == name,
        forall|j: int| 0 <= j < fields.len() && j != i ==> fields[j].0 != name,
    ensures
        count(fields, name) == 1,
        place(fields, name) == i,
    decreases fields.len(),
{
    let shorter = fields.drop_last();
    if i == fields.len() - 1 {
        lemma_not_found(shorter, name);
    } else {
        lemma_found_once(shorter, name, i);
    }
}

/// A name that no field of a record has is not counted.
pub proof fn lemma_not_found(fields: Seq<(Seq<char>, Doc)>, name: Seq<char>)
    requires
        forall|j: int| 0 <= j < fields.len() ==> fields[j].0 != name,
    ensures
        count(fields, name) == 0,
    decreases fields.len(),
{
    if fields.len() > 0 {
        lemma_not_found(fields.drop_last(), name);
    }
}

/// The names of the fields are texts that differ from one another.
pub proof fn lemma_names_differ(first: Field, second: Field)
    requires
        first != second,
    ensures
        first.text() != second.text(),
{
    reveal_strlit("path");
    reveal_strlit("title");
    reveal_strlit("description");
    reveal_strlit("image");
    reveal_strlit("versions");
    reveal_strlit("current");
    reveal_strlit("past");
    reveal_strlit("contributors");
    reveal_strlit("name");
    reveal_strlit("website");
    reveal_strlit("notes");
    reveal_strlit("license");
    reveal_strlit("extension");
    reveal_strlit("incompatible");
    reveal_strlit("type");
    reveal_strlit("value");
    reveal_strlit("broken");
    reveal_strlit("reason");
    reveal_strlit("documentation");
    reveal_strlit("source");
    reveal_strlit("examples");
    let a = first.text();
    let b = second.text();
    if a.len() == b.len() {
        assert(a[0] != b[0] || a[1] != b[1] || a[2] != b[2]);
    }
}

/// The fields of the record have the given names, in their order.
pub open spec fn named(fields: Seq<(Seq<char>, Doc)>, names: Seq<Field>) -> bool {
    fields.len() == names.len() && forall|j: int|
        0 <= j < fields.len() ==> (#[trigger] fields[j]).0 == names[j].text()
}

/// No name stands twice in the sequence.
pub open spec fn all_differ(names: Seq<Field>) -> bool {
    forall|i: int, j: int| 0 <= i < j < names.len() ==> names[i] != names[j]
}

/// In a record whose fields have names that all differ, each name finds its field.
pub proof fn lemma_field_found(fields: Seq<(Seq<char>, Doc)>, names: Seq<Field>, i: int)
    requires
        named(fields, names),
        all_differ(names),
        0 <= i < names.len(),
    ensures
        single(fields, names[i]) == Ok::<Option<Doc>, SchemaError>(Some(fields[i].1)),
        count(fields, names[i].text()) == 1,
        place(fields, names[i].text()) == i,
{
    assert forall|j: int| 0 <= j < fields.len() && j != i implies fields[j].0
        != names[i].text() by {
        lemma_names_differ(names[j], names[i]);
    }
    lemma_found_once(fields, names[i].text(), i);
}

/// A list of texts is read as the texts that it holds.
pub proof fn lemma_texts_read_back(listed: Seq<Doc>, items: Seq<Seq<char>>, field: Field)
    requires
        listed.len() == items.len(),
        forall|i: int| 0 <= i < listed.len() ==> listed[i] == Doc::Text(items[i]),
    ensures
        all_texts(listed, field) == Ok::<Seq<Seq<char>>, SchemaError>(items),
    decreases listed.len(),
{
    if listed.len() > 0 {
        lemma_texts_read_back(listed.drop_last(), items.drop_last(), field);
        assert(items.drop_last().push(items.last()) =~= items);
    } else {
        assert(items =~= Seq::<Seq<char>>::empty());
    }
}

/// A list of records, each of which is read as a given item, is read as the list of the items.
pub proof fn lemma_records_read_back<T>(
    listed: Seq<Doc>,
    items: Seq<T>,
    field: Field,
    decode: spec_fn(Seq<(Seq<char>, Doc)>) -> Result<T, SchemaError>,
)
    requires
        listed.len() == items.len(),
        forall|i: int|
            0 <= i < listed.len() ==> (#[trigger] listed[i]) is Record && decode(
                listed[i]->Record_0,
            ) == Ok::<T, SchemaError>(items[i]),
    ensures
        all_records(listed, field, decode) == Ok::<Seq<T>, SchemaError>(items),
    decreases listed.len(),
{
    if listed.len() > 0 {
        let shorter = listed.drop_last();
        assert forall|i: int| 0 <= i < shorter.len() implies (#[trigger] shorter[i]) is Record
            && decode(shorter[i]->Record_0) == Ok::<T, SchemaError>(items.drop_last()[i]) by {
            assert(shorter[i] == listed[i]);
        }
        lemma_records_read_back(shorter, items.drop_last(), field, decode);
        assert(listed.last() == listed[listed.len() - 1]);
        assert(items.drop_last().push(items.last()) =~= items);
    } else {
        assert(items =~= Seq::<T>::empty());
    }
}

/// The versions that were written are the versions that are read.
pub proof fn lemma_versions_read_back(versions: VersionsModel)
    ensures
        versions.encode() is Record,
        VersionsModel::decode(versions.encode()->Record_0) == Ok::<VersionsModel, SchemaError>(
            versions,
        ),
{
    let fields = versions.encode()->Record_0;
    let names = seq![Field::Current, Field::Past];
    assert(named(fields, names));
    lemma_field_found(fields, names, 0);
    lemma_field_found(fields, names, 1);
    lemma_texts_read_back(text_list(versions.past)->List_0, versions.past, Field::Past);
}

/// The contributor that was written is the contributor that is read.
pub proof fn lemma_contributor_read_back(contributor: ContributorModel)
    ensures
        contributor.encode() is Record,
        ContributorModel::decode(contributor.encode()->Record_0) == Ok::<
            ContributorModel,
            SchemaError,
        >(contributor),
{
    let fields = contributor.encode()->Record_0;
    let names = seq![Field::Name, Field::Notes, Field::Website];
    assert(named(fields, names));
    lemma_field_found(fields, names, 0);
    lemma_field_found(fields, names, 1);
    lemma_field_found(fields, names, 2);
}

/// The licenses that were written are the licenses that are read.
pub proof fn lemma_license_read_back(license: LicenseModel)
    ensures
        license.encode() is Record,
        LicenseModel::decode(license.encode()->Record_0) == Ok::<LicenseModel, SchemaError>(
            license,
        ),
{
    let fields = license.encode()->Record_0;
    let names = seq![Field::Extension, Field::Image];
    assert(named(fields, names));
    lemma_field_found(fields, names, 0);
    lemma_field_found(fields, names, 1);
}

/// The incompatibility that was written is the incompatibility that is read.
pub proof fn lemma_compatibility_read_back(compatibility: CompatibilityModel)
    ensures
        compatibility.encode() is Record,
        CompatibilityModel::decode(compatibility.encode()->Record_0) == Ok::<
            CompatibilityModel,
            SchemaError,
        >(compatibility),
{
    let fields = compatibility.encode()->Record_0;
    let names = seq![Field::Broken, Field::Reason, Field::Type, Field::Value];
    assert(named(fields, names));
    lemma_field_found(fields, names, 0);
    lemma_field_found(fields, names, 1);
    lemma_field_found(fields, names, 2);
    lemma_field_found(fields, names, 3);
}

/// The example that was written is the example that is read.
pub proof fn lemma_example_read_back(example: ExampleModel)
    ensures
        example.encode() is Record,
        ExampleModel::decode(example.encode()->Record_0) == Ok::<ExampleModel, SchemaError>(
            example,
        ),
{
    let fields = example.encode()->Record_0;
    let names = seq![Field::Description, Field::Name, Field::Path];
    assert(named(fields, names));
    lemma_field_found(fields, names, 0);
    lemma_field_found(fields, names, 1);
    lemma_field_found(fields, names, 2);
}

/// The names of the fields of an entry, in the order in which an entry is written.
pub open spec fn entry_names() -> Seq<Field> {
    seq![
        Field::Contributors,
        Field::Description,
        Field::Documentation,
        Field::Examples,
        Field::Image,
        Field::Incompatible,
        Field::License,
        Field::Path,
        Field::Source,
        Field::Title,
        Field::Versions,
        Field::Website,
    ]
}

/// The entry that was written is the entry that is read.
pub proof fn lemma_extension_read_back(extension: ExtensionModel)
    ensures
        extension.encode() is Record,
        ExtensionModel::decode(extension.encode()->Record_0) == Ok::<ExtensionModel, SchemaError>(
            extension,
        ),
{
    let fields = extension.encode()->Record_0;
    let names = entry_names();
    assert(named(fields, names));
    assert(all_differ(names));
    lemma_field_found(fields, names, 0);
    lemma_field_found(fields, names, 1);
    lemma_field_found(fields, names, 2);
    lemma_field_found(fields, names, 3);
    lemma_field_found(fields, names, 4);
    lemma_field_found(fields, names, 5);
    lemma_field_found(fields, names, 6);
    lemma_field_found(fields, names, 7);
    lemma_field_found(fields, names, 8);
    lemma_field_found(fields, names, 9);
    lemma_field_found(fields, names, 10);
    lemma_field_found(fields, names, 11);
    lemma_versions_read_back(extension.versions);
    lemma_license_read_back(extension.license);
    assert(contributors_in(fields) == Ok::<Seq<ContributorModel>, SchemaError>(
        extension.contributors,
    )) by {
        let listed = contributor_list(extension.contributors)->List_0;
        assert forall|i: int| 0 <= i < listed.len() implies (#[trigger] listed[i]) is Record
            && contributor_decoder()(listed[i]->Record_0) == Ok::<ContributorModel, SchemaError>(
            extension.contributors[i],
        ) by {
            lemma_contributor_read_back(extension.contributors[i]);
        }
        lemma_records_read_back(
            listed,
            extension.contributors,
            Field::Contributors,
            contributor_decoder(),
        );
    }
    assert(incompatible_in(fields) == Ok::<Seq<CompatibilityModel>, SchemaError>(
        extension.incompatible,
    )) by {
        let listed = compatibility_list(extension.incompatible)->List_0;
        assert forall|i: int| 0 <= i < listed.len() implies (#[trigger] listed[i]) is Record
            && compatibility_decoder()(listed[i]->Record_0) == Ok::<
            CompatibilityModel,
            SchemaError,
        >(extension.incompatible[i]) by {
            lemma_compatibility_read_back(extension.incompatible[i]);
        }
        lemma_records_read_back(
            listed,
            extension.incompatible,
            Field::Incompatible,
            compatibility_decoder(),
        );
    }
    assert(examples_in(fields) == Ok::<Option<Seq<ExampleModel>>, SchemaError>(
        extension.examples,
    )) by {
        match extension.examples {
            Some(list) => {
                let listed = example_list(list)->List_0;
                assert forall|i: int| 0 <= i < listed.len() implies (#[trigger] listed[i]) is Record
                    && example_decoder()(listed[i]->Record_0) == Ok::<ExampleModel, SchemaError>(
                    list[i],
                ) by {
                    lemma_example_read_back(list[i]);
                }
                lemma_records_read_back(listed, list, Field::Examples, example_decoder());
            },
            None => {},
        }
    }
    assert(versions_in(fields) == Ok::<VersionsModel, SchemaError>(extension.versions));
    assert(license_in(fields) == Ok::<LicenseModel, SchemaError>(extension.license));
}

/// A list of records, each of which is read as a given entry, is read as
/// the catalog of the entries.
pub proof fn lemma_entries_read_back(listed: Seq<Doc>, catalog: Seq<ExtensionModel>)
    requires
        listed.len() == catalog.len(),
        forall|i: int|
            0 <= i < listed.len() ==> (#[trigger] listed[i]) is Record && ExtensionModel::decode(
                listed[i]->Record_0,
            ) == Ok::<ExtensionModel, SchemaError>(catalog[i]),
    ensures
        decode_entries(listed) == Ok::<Seq<ExtensionModel>, CatalogError>(catalog),
    decreases listed.len(),
{
    if listed.len() > 0 {
        let shorter = listed.drop_last();
        assert forall|i: int| 0 <= i < shorter.len() implies (#[trigger] shorter[i]) is Record
            && ExtensionModel::decode(shorter[i]->Record_0) == Ok::<ExtensionModel, SchemaError>(
            catalog.drop_last()[i],
        ) by {
            assert(shorter[i] == listed[i]);
        }
        lemma_entries_read_back(shorter, catalog.drop_last());
        assert(listed.last() == listed[listed.len() - 1]);
        assert(catalog.drop_last().push(catalog.last()) =~= catalog);
    } else {
        assert(catalog =~= Seq::<ExtensionModel>::empty());
    }
}

/// Reading back.
///
/// Every catalog, written as a document and read again, is the catalog
/// that was written: each entry with each of its fields, in the same order.
pub proof fn law_written_catalog_reads_back(catalog: Seq<ExtensionModel>)
    ensures
        decode_catalog(encode_catalog(catalog)) == Ok::<Seq<ExtensionModel>, CatalogError>(catalog),
{
    let listed = encode_catalog(catalog)->List_0;
    assert forall|i: int| 0 <= i < listed.len() implies (#[trigger] listed[i]) is Record
        && ExtensionModel::decode(listed[i]->Record_0) == Ok::<ExtensionModel, SchemaError>(
        catalog[i],
    ) by {
        lemma_extension_read_back(catalog[i]);
    }
    lemma_entries_read_back(listed, catalog);
}

/// An incompatibility whose record does not say whether the extension is
/// broken is read as not broken.
pub proof fn law_absent_broken_is_false(fields: Seq<(Seq<char>, Doc)>)
    requires
        count(fields, Field::Broken.text()) == 0,
        CompatibilityModel::decode(fields) is Ok,
    ensures
        CompatibilityModel::decode(fields)->Ok_0.broken == false,
{
}

/// A document that was written again agrees with the one it was read from:
/// a text, a flag, a number or null is the same in both; a list has as many
/// items in both, and they agree one by one; each field of a record agrees
/// with the field of that name in the first document.
pub open spec fn agrees(first: Doc, again: Doc) -> bool
    decreases again, 0int,
{
    match again {
        Doc::Null => first is Null,
        Doc::Flag(_) => first == again,
        Doc::Number => first == again,
        Doc::Text(_) => first == again,
        Doc::List(items) => first is List && first->List_0.len() == items.len() && (forall|
            i: int,
        |
            0 <= i < items.len() ==> agrees(first->List_0[i], #[trigger] items[i])),
        Doc::Record(fields) => first is Record && (forall|i: int|
            0 <= i < fields.len() ==> field_agrees(
                first->Record_0,
                (#[trigger] fields[i]).0,
                fields[i].1,
            )),
    }
}

/// A field that was written again agrees with the record that was read: the
/// record has the name once, with a value that agrees; or it does not have
/// the name, and what was written is what stands for a missing field, null
/// or the flag false.
pub open spec fn field_agrees(first: Seq<(Seq<char>, Doc)>, name: Seq<char>, value: Doc) -> bool
    decreases value, 1int,
{
    if count(first, name) == 0 {
        value is Null || value == Doc::Flag(false)
    } else {
        count(first, name) == 1 && agrees(first[place(first, name)].1, value)
    }
}

/// The texts that a list was read as are the texts that it holds.
pub proof fn lemma_texts_as_read(listed: Seq<Doc>, field: Field)
    requires
        all_texts(listed, field) is Ok,
    ensures
        all_texts(listed, field)->Ok_0.len() == listed.len(),
        forall|i: int|
            0 <= i < listed.len() ==> #[trigger] listed[i] == Doc::Text(
                all_texts(listed, field)->Ok_0[i],
            ),
    decreases listed.len(),
{
    if listed.len() > 0 {
        lemma_texts_as_read(listed.drop_last(), field);
        assert forall|i: int| 0 <= i < listed.len() implies #[trigger] listed[i] == Doc::Text(
            all_texts(listed, field)->Ok_0[i],
        ) by {
            if i < listed.len() - 1 {
                assert(listed.drop_last()[i] == listed[i]);
            }
        }
    }
}

/// The items that a list of records was read as are what its records are read as.
pub proof fn lemma_records_as_read<T>(
    listed: Seq<Doc>,
    field: Field,
    decode: spec_fn(Seq<(Seq<char>, Doc)>) -> Result<T, SchemaError>,
)
    requires
        all_records(listed, field, decode) is Ok,
    ensures
        all_records(listed, field, decode)->Ok_0.len() == listed.len(),
        forall|i: int|
            0 <= i < listed.len() ==> (#[trigger] listed[i]) is Record && decode(
                listed[i]->Record_0,
            ) == Ok::<T, SchemaError>(all_records(listed, field, decode)->Ok_0[i]),
    decreases listed.len(),
{
    if listed.len() > 0 {
        lemma_records_as_read(listed.drop_last(), field, decode);
        assert forall|i: int| 0 <= i < listed.len() implies (#[trigger] listed[i]) is Record
            && decode(listed[i]->Record_0) == Ok::<T, SchemaError>(
            all_records(listed, field, decode)->Ok_0[i],
        ) by {
            if i < listed.len() - 1 {
                assert(listed.drop_last()[i] == listed[i]);
            }
        }
    }
}

/// The entries that a list was read as are what its records are read as.
pub proof fn lemma_entries_as_read(listed: Seq<Doc>)
    requires
        decode_entries(listed) is Ok,
    ensures
        decode_entries(listed)->Ok_0.len() == listed.len(),
        forall|i: int|
            0 <= i < listed.len() ==> (#[trigger] listed[i]) is Record && ExtensionModel::decode(
                listed[i]->Record_0,
            ) == Ok::<ExtensionModel, SchemaError>(decode_entries(listed)->Ok_0[i]),
    decreases listed.len(),
{
    if listed.len() > 0 {
        lemma_entries_as_read(listed.drop_last());
        assert forall|i: int| 0 <= i < listed.len() implies (#[trigger] listed[i]) is Record
            && ExtensionModel::decode(listed[i]->Record_0) == Ok::<ExtensionModel, SchemaError>(
            decode_entries(listed)->Ok_0[i],
        ) by {
            if i < listed.len() - 1 {
                assert(listed.drop_last()[i] == listed[i]);
            }
        }
    }
}

/// A text that was read from a field that is owed agrees with the record when it is written again.
pub proof fn lemma_required_text_agrees(fields: Seq<(Seq<char>, Doc)>, field: Field)
    requires
        required_text(fields, field) is Ok,
    ensures
        field_agrees(fields, field.text(), Doc::Text(required_text(fields, field)->Ok_0)),
{
    lemma_place(fields, field.text());
    let value = fields[place(fields, field.text())].1;
    assert(agrees(value, Doc::Text(required_text(fields, field)->Ok_0)));
}

/// A text that was read from a field that may be missing agrees with the
/// record when it is written again, as text or as null.
pub proof fn lemma_optional_text_agrees(fields: Seq<(Seq<char>, Doc)>, field: Field)
    requires
        optional_text(fields, field) is Ok,
    ensures
        field_agrees(fields, field.text(), text_or_null(optional_text(fields, field)->Ok_0)),
{
    lemma_place(fields, field.text());
    if count(fields, field.text()) != 0 {
        let value = fields[place(fields, field.text())].1;
        assert(agrees(value, text_or_null(optional_text(fields, field)->Ok_0)));
    }
}

/// A list of texts that was read agrees with the list when it is written again.
pub proof fn lemma_text_list_agrees(listed: Seq<Doc>, field: Field)
    requires
        all_texts(listed, field) is Ok,
    ensures
        agrees(Doc::List(listed), text_list(all_texts(listed, field)->Ok_0)),
{
    lemma_texts_as_read(listed, field);
    let again = text_list(all_texts(listed, field)->Ok_0);
    assert forall|i: int| 0 <= i < again->List_0.len() implies agrees(
        listed[i],
        #[trigger] again->List_0[i],
    ) by {
        assert(listed[i] == again->List_0[i]);
    }
}

/// The versions that were read agree with their record when they are written again.
pub proof fn lemma_versions_agree(fields: Seq<(Seq<char>, Doc)>)
    requires
        VersionsModel::decode(fields) is Ok,
    ensures
        agrees(Doc::Record(fields), VersionsModel::decode(fields)->Ok_0.encode()),
{
    let versions = VersionsModel::decode(fields)->Ok_0;
    let again = versions.encode()->Record_0;
    lemma_required_text_agrees(fields, Field::Current);
    lemma_place(fields, Field::Past.text());
    lemma_text_list_agrees(required_list(fields, Field::Past)->Ok_0, Field::Past);
    assert forall|i: int| 0 <= i < again.len() implies field_agrees(
        fields,
        (#[trigger] again[i]).0,
        again[i].1,
    ) by {
        if i == 0 {
        } else {
            assert(i == 1);
        }
    }
}

/// A contributor that was read agrees with the record when it is written again.
pub proof fn lemma_contributor_agrees(fields: Seq<(Seq<char>, Doc)>)
    requires
        ContributorModel::decode(fields) is Ok,
    ensures
        agrees(Doc::Record(fields), ContributorModel::decode(fields)->Ok_0.encode()),
{
    let again = ContributorModel::decode(fields)->Ok_0.encode()->Record_0;
    lemma_required_text_agrees(fields, Field::Name);
    lemma_optional_text_agrees(fields, Field::Notes);
    lemma_optional_text_agrees(fields, Field::Website);
    assert forall|i: int| 0 <= i < again.len() implies field_agrees(
        fields,
        (#[trigger] again[i]).0,
        again[i].1,
    ) by {
        if i == 0 {
        } else if i == 1 {
        } else {
            assert(i == 2);
        }
    }
}

/// The licenses that were read agree with their record when they are written again.
pub proof fn lemma_license_agrees(fields: Seq<(Seq<char>, Doc)>)
    requires
        LicenseModel::decode(fields) is Ok,
    ensures
        agrees(Doc::Record(fields), LicenseModel::decode(fields)->Ok_0.encode()),
{
    let again = LicenseModel::decode(fields)->Ok_0.encode()->Record_0;
    lemma_required_text_agrees(fields, Field::Extension);
    lemma_required_text_agrees(fields, Field::Image);
    assert forall|i: int| 0 <= i < again.len() implies field_agrees(
        fields,
        (#[trigger] again[i]).0,
        again[i].1,
    ) by {
        if i == 0 {
        } else {
            assert(i == 1);
        }
    }
}

/// An incompatibility that was read agrees with the record when it is written again.
pub proof fn lemma_compatibility_agrees(fields: Seq<(Seq<char>, Doc)>)
    requires
        CompatibilityModel::decode(fields) is Ok,
    ensures
        agrees(Doc::Record(fields), CompatibilityModel::decode(fields)->Ok_0.encode()),
{
    let decoded = CompatibilityModel::decode(fields)->Ok_0;
    let again = decoded.encode()->Record_0;
    lemma_required_text_agrees(fields, Field::Type);
    lemma_required_text_agrees(fields, Field::Value);
    lemma_optional_text_agrees(fields, Field::Reason);
    assert(field_agrees(fields, Field::Broken.text(), Doc::Flag(decoded.broken))) by {
        lemma_place(fields, Field::Broken.text());
        if count(fields, Field::Broken.text()) != 0 {
            let value = fields[place(fields, Field::Broken.text())].1;
            assert(agrees(value, Doc::Flag(decoded.broken)));
        }
    }
    assert forall|i: int| 0 <= i < again.len() implies field_agrees(
        fields,
        (#[trigger] again[i]).0,
        again[i].1,
    ) by {
        if i == 0 {
        } else if i == 1 {
        } else if i == 2 {
        } else {
            assert(i == 3);
        }
    }
}

/// An example that was read agrees with the record when it is written again.
pub proof fn lemma_example_agrees(fields: Seq<(Seq<char>, Doc)>)
    requires
        ExampleModel::decode(fields) is Ok,
    ensures
        agrees(Doc::Record(fields), ExampleModel::decode(fields)->Ok_0.encode()),
{
    let again = ExampleModel::decode(fields)->Ok_0.encode()->Record_0;
    lemma_required_text_agrees(fields, Field::Description);
    lemma_required_text_agrees(fields, Field::Name);
    lemma_required_text_agrees(fields, Field::Path);
    assert forall|i: int| 0 <= i < again.len() implies field_agrees(
        fields,
        (#[trigger] again[i]).0,
        again[i].1,
    ) by {
        if i == 0 {
        } else if i == 1 {
        } else {
            assert(i == 2);
        }
    }
}

/// A list of contributors that was read agrees with the list when it is written again.
pub proof fn lemma_contributor_list_agrees(listed: Seq<Doc>)
    requires
        all_records(listed, Field::Contributors, contributor_decoder()) is Ok,
    ensures
        agrees(
            Doc::List(listed),
            contributor_list(all_records(listed, Field::Contributors, contributor_decoder())->Ok_0),
        ),
{
    lemma_records_as_read(listed, Field::Contributors, contributor_decoder());
    let items = all_records(listed, Field::Contributors, contributor_decoder())->Ok_0;
    let again = contributor_list(items);
    assert forall|i: int| 0 <= i < again->List_0.len() implies agrees(
        listed[i],
        #[trigger] again->List_0[i],
    ) by {
        assert(listed[i] is Record);
        assert(contributor_decoder()(listed[i]->Record_0) == Ok::<ContributorModel, SchemaError>(
            items[i],
        ));
        lemma_contributor_agrees(listed[i]->Record_0);
        assert(listed[i] == Doc::Record(listed[i]->Record_0));
    }
}

/// A list of incompatibilities that was read agrees with the list when it is written again.
pub proof fn lemma_compatibility_list_agrees(listed: Seq<Doc>)
    requires
        all_records(listed, Field::Incompatible, compatibility_decoder()) is Ok,
    ensures
        agrees(
            Doc::List(listed),
            compatibility_list(
                all_records(listed, Field::Incompatible, compatibility_decoder())->Ok_0,
            ),
        ),
{
    lemma_records_as_read(listed, Field::Incompatible, compatibility_decoder());
    let items = all_records(listed, Field::Incompatible, compatibility_decoder())->Ok_0;
    let again = compatibility_list(items);
    assert forall|i: int| 0 <= i < again->List_0.len() implies agrees(
        listed[i],
        #[trigger] again->List_0[i],
    ) by {
        assert(listed[i] is Record);
        assert(compatibility_decoder()(listed[i]->Record_0) == Ok::<
            CompatibilityModel,
            SchemaError,
        >(items[i]));
        lemma_compatibility_agrees(listed[i]->Record_0);
        assert(listed[i] == Doc::Record(listed[i]->Record_0));
    }
}

/// A list of examples that was read agrees with the list when it is written again.
pub proof fn lemma_example_list_agrees(listed: Seq<Doc>)
    requires
        all_records(listed, Field::Examples, example_decoder()) is Ok,
    ensures
        agrees(
            Doc::List(listed),
            example_list(all_records(listed, Field::Examples, example_decoder())->Ok_0),
        ),
{
    lemma_records_as_read(listed, Field::Examples, example_decoder());
    let items = all_records(listed, Field::Examples, example_decoder())->Ok_0;
    let again = example_list(items);
    assert forall|i: int| 0 <= i < again->List_0.len() implies agrees(
        listed[i],
        #[trigger] again->List_0[i],
    ) by {
        assert(listed[i] is Record);
        assert(example_decoder()(listed[i]->Record_0) == Ok::<ExampleModel, SchemaError>(
            items[i],
        ));
        lemma_example_agrees(listed[i]->Record_0);
        assert(listed[i] == Doc::Record(listed[i]->Record_0));
    }
}

/// An entry that was read agrees with the record when it is written again.
pub proof fn lemma_extension_agrees(fields: Seq<(Seq<char>, Doc)>)
    requires
        ExtensionModel::decode(fields) is Ok,
    ensures
        agrees(Doc::Record(fields), ExtensionModel::decode(fields)->Ok_0.encode()),
{
    let entry = ExtensionModel::decode(fields)->Ok_0;
    let again = entry.encode()->Record_0;
    lemma_required_text_agrees(fields, Field::Path);
    lemma_required_text_agrees(fields, Field::Title);
    lemma_required_text_agrees(fields, Field::Description);
    lemma_required_text_agrees(fields, Field::Image);
    lemma_optional_text_agrees(fields, Field::Documentation);
    lemma_optional_text_agrees(fields, Field::Website);
    lemma_optional_text_agrees(fields, Field::Source);
    assert(field_agrees(fields, Field::Versions.text(), entry.versions.encode())) by {
        lemma_place(fields, Field::Versions.text());
        let inner = required_record(fields, Field::Versions)->Ok_0;
        lemma_versions_agree(inner);
        assert(fields[place(fields, Field::Versions.text())].1 == Doc::Record(inner));
    }
    assert(field_agrees(fields, Field::License.text(), entry.license.encode())) by {
        lemma_place(fields, Field::License.text());
        let inner = required_record(fields, Field::License)->Ok_0;
        lemma_license_agrees(inner);
        assert(fields[place(fields, Field::License.text())].1 == Doc::Record(inner));
    }
    assert(field_agrees(
        fields,
        Field::Contributors.text(),
        contributor_list(entry.contributors),
    )) by {
        lemma_place(fields, Field::Contributors.text());
        let listed = required_list(fields, Field::Contributors)->Ok_0;
        lemma_contributor_list_agrees(listed);
        assert(fields[place(fields, Field::Contributors.text())].1 == Doc::List(listed));
    }
    assert(field_agrees(
        fields,
        Field::Incompatible.text(),
        compatibility_list(entry.incompatible),
    )) by {
        lemma_place(fields, Field::Incompatible.text());
        let listed = required_list(fields, Field::Incompatible)->Ok_0;
        lemma_compatibility_list_agrees(listed);
        assert(fields[place(fields, Field::Incompatible.text())].1 == Doc::List(listed));
    }
    assert(field_agrees(fields, Field::Examples.text(), examples_or_null(entry.examples))) by {
        lemma_place(fields, Field::Examples.text());
        if count(fields, Field::Examples.text()) != 0 {
            let value = fields[place(fields, Field::Examples.text())].1;
            match optional_list(fields, Field::Examples)->Ok_0 {
                Some(listed) => {
                    lemma_example_list_agrees(listed);
                    assert(value == Doc::List(listed));
                },
                None => {
                    assert(value is Null);
                    assert(agrees(value, Doc::Null));
                },
            }
        }
    }
    assert forall|i: int| 0 <= i < again.len() implies field_agrees(
        fields,
        (#[trigger] again[i]).0,
        again[i].1,
    ) by {
        if i == 0 {
        } else if i == 1 {
        } else if i == 2 {
        } else if i == 3 {
        } else if i == 4 {
        } else if i == 5 {
        } else if i == 6 {
        } else if i == 7 {
        } else if i == 8 {
        } else if i == 9 {
        } else if i == 10 {
        } else {
            assert(i == 11);
        }
    }
}

/// Reading and writing again.
///
/// Where a document is a catalog, the catalog written as a document agrees
/// with it field by field: every entry stands at its place, and every field
/// that is written holds the value that the document has under that name,
/// or, where the document has no such field, null or the flag false.
pub proof fn law_rewritten_catalog_agrees(document: Doc)
    requires
        decode_catalog(document) is Ok,
    ensures
        agrees(document, encode_catalog(decode_catalog(document)->Ok_0)),
{
    let listed = document->List_0;
    let catalog = decode_catalog(document)->Ok_0;
    let again = encode_catalog(catalog);
    lemma_entries_as_read(listed);
    assert forall|i: int| 0 <= i < again->List_0.len() implies agrees(
        listed[i],
        #[trigger] again->List_0[i],
    ) by {
        assert(listed[i] is Record);
        assert(ExtensionModel::decode(listed[i]->Record_0) == Ok::<ExtensionModel, SchemaError>(
            catalog[i],
        ));
        lemma_extension_agrees(listed[i]->Record_0);
        assert(listed[i] == Doc::Record(listed[i]->Record_0));
    }
}

} // verus!
