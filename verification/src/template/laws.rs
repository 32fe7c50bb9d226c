//! What holds of the context of the index page, for every catalog and
//! every environment.

use vstd::prelude::*;
use crate::catalog::ExtensionModel;
use crate::config::{SnapshotModel, LookupModel, ConfigError, resolved};
use crate::document::{Doc, count, place};
use crate::schema::CatalogError;
use crate::schema::decode::decode_catalog;
use crate::schema::encode::encode_catalog;
use crate::schema::laws::{lemma_found_once, law_written_catalog_reads_back};
use super::context;

verus! {

/// The context has the two names `extensions` and `extensions_directory`, each once, and no other.
pub proof fn lemma_context_bindings(catalog: Seq<ExtensionModel>, extensions_directory: Seq<char>)
    ensures
        context(catalog, extensions_directory) is Record,
        ({
            let fields = context(catalog, extensions_directory)->Record_0;
            &&& fields.len() == 2
            &&& count(fields, "extensions"@) == 1
            &&& fields[place(fields, "extensions"@)].1 == encode_catalog(catalog)
            &&& count(fields, "extensions_directory"@) == 1
            &&& fields[place(fields, "extensions_directory"@)].1 == Doc::Text(extensions_directory)
        }),
{
    reveal_strlit("extensions");
    reveal_strlit("extensions_directory");
    let fields = context(catalog, extensions_directory)->Record_0;
    assert(fields[0].0.len() == 10);
    assert(fields[1].0.len() == 20);
    lemma_found_once(fields, "extensions"@, 0);
    lemma_found_once(fields, "extensions_directory"@, 1);
}

/// One item for each entry.
///
/// What the template finds under the name `extensions` is a list with one
/// item for each entry of the catalog, in the order of the catalog: the item
/// at each place is the entry at that place, written as a document, and the
/// list read as a catalog is the catalog.
pub proof fn law_context_lists_every_entry(
    catalog: Seq<ExtensionModel>,
    extensions_directory: Seq<char>,
)
    ensures
        ({
            let fields = context(catalog, extensions_directory)->Record_0;
            let listed = fields[place(fields, "extensions"@)].1;
            &&& count(fields, "extensions"@) == 1
            &&& listed is List
            &&& listed->List_0.len() == catalog.len()
            &&& forall|i: int|
                0 <= i < catalog.len() ==> #[trigger] listed->List_0[i] == catalog[i].encode()
            &&& decode_catalog(listed) == Ok::<Seq<ExtensionModel>, CatalogError>(catalog)
        }),
{
    lemma_context_bindings(catalog, extensions_directory);
    law_written_catalog_reads_back(catalog);
}

/// The prefix of the links.
///
/// Where the environment sets the extensions directory to a text, what the
/// template finds under the name `extensions_directory` is that text,
/// whatever the other variables are set to: two environments that agree on
/// the extensions directory give the same context for the same catalog.
pub proof fn law_link_prefix_is_extensions_dir(
    first: SnapshotModel,
    second: SnapshotModel,
    prefix: Seq<char>,
    catalog: Seq<ExtensionModel>,
)
    requires
        first.extensions_dir == LookupModel::Text(prefix),
        second.extensions_dir == LookupModel::Text(prefix),
        resolved(first) is Ok,
        resolved(second) is Ok,
    ensures
        ({
            let seen = context(catalog, resolved(first)->Ok_0.extensions_dir);
            let fields = seen->Record_0;
            &&& count(fields, "extensions_directory"@) == 1
            &&& fields[place(fields, "extensions_directory"@)].1 == Doc::Text(prefix)
            &&& seen == context(catalog, resolved(second)->Ok_0.extensions_dir)
        }),
{
    lemma_context_bindings(catalog, prefix);
}

} // verus!
