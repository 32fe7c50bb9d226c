//! The documents that the schema writes can be handed to the template
//! engine: the fields of their records stand in the order of their names.

use vstd::prelude::*;
use crate::catalog::{
    VersionsModel, ContributorModel, LicenseModel, CompatibilityModel, ExampleModel, ExtensionModel,
};
use crate::document::Doc;
use crate::schema::Field;
use crate::schema::encode::{
    text_or_null, text_list, contributor_list, compatibility_list, example_list, examples_or_null,
    encode_catalog,
};
use super::{precedes, ascending, renderable, context};

verus! {

/// Two texts that agree on their first `k` characters are in order where
/// the first ends there and the second does not, or has the smaller
/// character there.
pub proof fn lemma_precedes(first: Seq<char>, second: Seq<char>, k: int)
    requires
        0 <= k <= first.len(),
        k < second.len(),
        forall|j: int| 0 <= j < k ==> first[j] == second[j],
        k < first.len() ==> (first[k] as u32) < (second[k] as u32),
    ensures
        precedes(first, second),
{
    assert(first.take(k) =~= second.take(k));
}

/// The names of the fields of each record, in the order in which the record is written.
pub proof fn lemma_names_in_order()
    ensures
        precedes(Field::Current.text(), Field::Past.text()),
        precedes(Field::Name.text(), Field::Notes.text()),
        precedes(Field::Notes.text(), Field::Website.text()),
        precedes(Field::Extension.text(), Field::Image.text()),
        precedes(Field::Broken.text(), Field::Reason.text()),
        precedes(Field::Reason.text(), Field::Type.text()),
        precedes(Field::Type.text(), Field::Value.text()),
        precedes(Field::Description.text(), Field::Name.text()),
        precedes(Field::Name.text(), Field::Path.text()),
        precedes(Field::Contributors.text(), Field::Description.text()),
        precedes(Field::Description.text(), Field::Documentation.text()),
        precedes(Field::Documentation.text(), Field::Examples.text()),
        precedes(Field::Examples.text(), Field::Image.text()),
        precedes(Field::Image.text(), Field::Incompatible.text()),
        precedes(Field::Incompatible.text(), Field::License.text()),
        precedes(Field::License.text(), Field::Path.text()),
        precedes(Field::Path.text(), Field::Source.text()),
        precedes(Field::Source.text(), Field::Title.text()),
        precedes(Field::Title.text(), Field::Versions.text()),
        precedes(Field::Versions.text(), Field::Website.text()),
{
    reveal_strlit("path");
    reveal_strlit("title");
    reveal_strlit("description");
    reveal_strlit("image");
    reveal_strlit("versions");
    reveal_strlit("current");
    reveal_strlit("past");
    reveal_strlit("contributors");
    reveal_strlit("name");
    reveal_strlit("website");
    reveal_strlit("notes");
    reveal_strlit("license");
    reveal_strlit("extension");
    reveal_strlit("incompatible");
    reveal_strlit("type");
    reveal_strlit("value");
    reveal_strlit("broken");
    reveal_strlit("reason");
    reveal_strlit("documentation");
    reveal_strlit("source");
    reveal_strlit("examples");
    lemma_precedes(Field::Current.text(), Field::Past.text(), 0);
    lemma_precedes(Field::Name.text(), Field::Notes.text(), 1);
    lemma_precedes(Field::Notes.text(), Field::Website.text(), 0);
    lemma_precedes(Field::Extension.text(), Field::Image.text(), 0);
    lemma_precedes(Field::Broken.text(), Field::Reason.text(), 0);
    lemma_precedes(Field::Reason.text(), Field::Type.text(), 0);
    lemma_precedes(Field::Type.text(), Field::Value.text(), 0);
    lemma_precedes(Field::Description.text(), Field::Name.text(), 0);
    lemma_precedes(Field::Name.text(), Field::Path.text(), 0);
    lemma_precedes(Field::Contributors.text(), Field::Description.text(), 0);
    lemma_precedes(Field::Description.text(), Field::Documentation.text(), 1);
    lemma_precedes(Field::Documentation.text(), Field::Examples.text(), 0);
    lemma_precedes(Field::Examples.text(), Field::Image.text(), 0);
    lemma_precedes(Field::Image.text(), Field::Incompatible.text(), 1);
    lemma_precedes(Field::Incompatible.text(), Field::License.text(), 0);
    lemma_precedes(Field::License.text(), Field::Path.text(), 0);
    lemma_precedes(Field::Path.text(), Field::Source.text(), 0);
    lemma_precedes(Field::Source.text(), Field::Title.text(), 0);
    lemma_precedes(Field::Title.text(), Field::Versions.text(), 0);
    lemma_precedes(Field::Versions.text(), Field::Website.text(), 0);
}

/// A list of texts can be handed over.
pub proof fn lemma_text_list_renderable(items: Seq<Seq<char>>)
    ensures
        renderable(text_list(items)),
{
    let list = text_list(items);
    assert forall|i: int| 0 <= i < list->List_0.len() implies renderable(
        #[trigger] list->List_0[i],
    ) by {}
}

/// The versions, as a document, can be handed over.
pub proof fn lemma_versions_renderable(versions: VersionsModel)
    ensures
        renderable(versions.encode()),
{
    lemma_names_in_order();
    lemma_text_list_renderable(versions.past);
    let fields = versions.encode()->Record_0;
    assert(ascending(fields));
    assert forall|i: int| 0 <= i < fields.len() implies renderable(#[trigger] fields[i].1) by {}
}

/// A contributor, as a document, can be handed over.
pub proof fn lemma_contributor_renderable(contributor: ContributorModel)
    ensures
        renderable(contributor.encode()),
{
    lemma_names_in_order();
    let fields = contributor.encode()->Record_0;
    assert(ascending(fields));
    assert forall|i: int| 0 <= i < fields.len() implies renderable(#[trigger] fields[i].1) by {}
}

/// The licenses, as a document, can be handed over.
pub proof fn lemma_license_renderable(license: LicenseModel)
    ensures
        renderable(license.encode()),
{
    lemma_names_in_order();
    let fields = license.encode()->Record_0;
    assert(ascending(fields));
    assert forall|i: int| 0 <= i < fields.len() implies renderable(#[trigger] fields[i].1) by {}
}

/// An incompatibility, as a document, can be handed over.
pub proof fn lemma_compatibility_renderable(compatibility: CompatibilityModel)
    ensures
        renderable(compatibility.encode()),
{
    lemma_names_in_order();
    let fields = compatibility.encode()->Record_0;
    assert(ascending(fields));
    assert forall|i: int| 0 <= i < fields.len() implies renderable(#[trigger] fields[i].1) by {}
}

/// An example, as a document, can be handed over.
pub proof fn lemma_example_renderable(example: ExampleModel)
    ensures
        renderable(example.encode()),
{
    lemma_names_in_order();
    let fields = example.encode()->Record_0;
    assert(ascending(fields));
    assert forall|i: int| 0 <= i < fields.len() implies renderable(#[trigger] fields[i].1) by {}
}

/// An entry of the catalog, as a document, can be handed over.
pub proof fn lemma_extension_renderable(extension: ExtensionModel)
    ensures
        renderable(extension.encode()),
{
    lemma_names_in_order();
    lemma_versions_renderable(extension.versions);
    lemma_license_renderable(extension.license);
    let listed = contributor_list(extension.contributors);
    assert forall|i: int| 0 <= i < listed->List_0.len() implies renderable(
        #[trigger] listed->List_0[i],
    ) by {
        lemma_contributor_renderable(extension.contributors[i]);
    }
    let known = compatibility_list(extension.incompatible);
    assert forall|i: int| 0 <= i < known->List_0.len() implies renderable(
        #[trigger] known->List_0[i],
    ) by {
        lemma_compatibility_renderable(extension.incompatible[i]);
    }
    match extension.examples {
        Some(list) => {
            let shown = example_list(list);
            assert forall|i: int| 0 <= i < shown->List_0.len() implies renderable(
                #[trigger] shown->List_0[i],
            ) by {
                lemma_example_renderable(list[i]);
            }
        },
        None => {},
    }
    assert(renderable(listed));
    assert(renderable(known));
    assert(renderable(examples_or_null(extension.examples)));
    let fields = extension.encode()->Record_0;
    assert(ascending(fields));
    assert forall|i: int| 0 <= i < fields.len() implies renderable(#[trigger] fields[i].1) by {}
}

/// A catalog, as a document, can be handed over.
pub proof fn lemma_catalog_renderable(catalog: Seq<ExtensionModel>)
    ensures
        renderable(encode_catalog(catalog)),
{
    let list = encode_catalog(catalog);
    assert forall|i: int| 0 <= i < list->List_0.len() implies renderable(
        #[trigger] list->List_0[i],
    ) by {
        lemma_extension_renderable(catalog[i]);
    }
}

/// The context of the index page can be handed over.
pub proof fn lemma_context_renderable(catalog: Seq<ExtensionModel>, extensions_directory: Seq<char>)
    ensures
        renderable(context(catalog, extensions_directory)),
{
    reveal_strlit("extensions");
    reveal_strlit("extensions_directory");
    lemma_precedes("extensions"@, "extensions_directory"@, 10);
    lemma_catalog_renderable(catalog);
    let fields = context(catalog, extensions_directory)->Record_0;
    assert(ascending(fields));
    assert forall|i: int| 0 <= i < fields.len() implies renderable(#[trigger] fields[i].1) by {}
}

} // verus!
