//! Writing the catalog's records as documents.
//!
//! Every field of a record is written, under its name: a text that is
//! missing as null, a flag as a flag. The fields of a record stand in the
//! order of their names.

use vstd::prelude::*;
use crate::catalog::{
    Versions, Contributor, License, Compatibility, Example, Extension, VersionsModel,
    ContributorModel, LicenseModel, CompatibilityModel, ExampleModel, ExtensionModel, contributors,
    incompatibilities, examples, extensions,
};
use crate::document::{Doc, Document, docs, pairs, lemma_list_view, lemma_record_view};
use crate::text::{texts, text_if_any};
use super::Field;

verus! {

/// A text that may be missing, as a document: the text, or null.
pub open spec fn text_or_null(text: Option<Seq<char>>) -> Doc {
    match text {
        Some(found) => Doc::Text(found),
        None => Doc::Null,
    }
}

/// A list of texts, as a document.
pub open spec fn text_list(items: Seq<Seq<char>>) -> Doc {
    Doc::List(Seq::new(items.len(), |i: int| Doc::Text(items[i])))
}

impl VersionsModel {
    /// The versions as a document.
    pub open spec fn encode(self) -> Doc {
        Doc::Record(
            seq![
                (Field::Current.text(), Doc::Text(self.current)),
                (Field::Past.text(), text_list(self.past)),
            ],
        )
    }
}

impl ContributorModel {
    /// The contributor as a document.
    pub open spec fn encode(self) -> Doc {
        Doc::Record(
            seq![
                (Field::Name.text(), Doc::Text(self.name)),
                (Field::Notes.text(), text_or_null(self.notes)),
                (Field::Website.text(), text_or_null(self.website)),
            ],
        )
    }
}

impl LicenseModel {
    /// The licenses as a document.
    pub open spec fn encode(self) -> Doc {
        Doc::Record(
            seq![
                (Field::Extension.text(), Doc::Text(self.extension)),
                (Field::Image.text(), Doc::Text(self.image)),
            ],
        )
    }
}

impl CompatibilityModel {
    /// The incompatibility as a document.
    pub open spec fn encode(self) -> Doc {
        Doc::Record(
            seq![
                (Field::Broken.text(), Doc::Flag(self.broken)),
                (Field::Reason.text(), text_or_null(self.reason)),
                (Field::Type.text(), Doc::Text(self.compat_type)),
                (Field::Value.text(), Doc::Text(self.value)),
            ],
        )
    }
}

impl ExampleModel {
    /// The example as a document.
    pub open spec fn encode(self) -> Doc {
        Doc::Record(
            seq![
                (Field::Description.text(), Doc::Text(self.description)),
                (Field::Name.text(), Doc::Text(self.name)),
                (Field::Path.text(), Doc::Text(self.path)),
            ],
        )
    }
}

/// A list of contributors, as a document.
pub open spec fn contributor_list(items: Seq<ContributorModel>) -> Doc {
    Doc::List(Seq::new(items.len(), |i: int| items[i].encode()))
}

/// A list of incompatibilities, as a document.
pub open spec fn compatibility_list(items: Seq<CompatibilityModel>) -> Doc {
    Doc::List(Seq::new(items.len(), |i: int| items[i].encode()))
}

/// A list of examples, as a document.
pub open spec fn example_list(items: Seq<ExampleModel>) -> Doc {
    Doc::List(Seq::new(items.len(), |i: int| items[i].encode()))
}

/// A list of examples that may be missing, as a document: the list, or null.
pub open spec fn examples_or_null(items: Option<Seq<ExampleModel>>) -> Doc {
    match items {
        Some(list) => example_list(list),
        None => Doc::Null,
    }
}

impl ExtensionModel {
    /// The entry as a document.
    pub open spec fn encode(self) -> Doc {
        Doc::Record(
            seq![
                (Field::Contributors.text(), contributor_list(self.contributors)),
                (Field::Description.text(), Doc::Text(self.description)),
                (Field::Documentation.text(), text_or_null(self.documentation)),
                (Field::Examples.text(), examples_or_null(self.examples)),
                (Field::Image.text(), Doc::Text(self.image)),
                (Field::Incompatible.text(), compatibility_list(self.incompatible)),
                (Field::License.text(), self.license.encode()),
                (Field::Path.text(), Doc::Text(self.path)),
                (Field::Source.text(), text_or_null(self.source)),
                (Field::Title.text(), Doc::Text(self.title)),
                (Field::Versions.text(), self.versions.encode()),
                (Field::Website.text(), text_or_null(self.website)),
            ],
        )
    }
}

/// A catalog as a document: the list of its entries, in their order.
pub open spec fn encode_catalog(catalog: Seq<ExtensionModel>) -> Doc {
    Doc::List(Seq::new(catalog.len(), |i: int| catalog[i].encode()))
}

/// A field of a record that is being written.
fn field_of(field: Field, value: Document) -> (pair: (String, Document))
    ensures
        pair.0@ == field.text(),
        pair.1 == value,
{
    (field.name().to_owned(), value)
}

/// A text as a document.
fn write_text(text: &String) -> (document: Document)
    ensures
        document@ == Doc::Text(text@),
{
    Document::Text(text.clone())
}

/// A text that may be missing, as a document.
fn write_text_or_null(text: &Option<String>) -> (document: Document)
    ensures
        document@ == text_or_null(text_if_any(*text)),
{
    match text {
        Some(found) => Document::Text(found.clone()),
        None => Document::Null,
    }
}

/// A list of texts, as a document.
fn write_text_list(items: &Vec<String>) -> (document: Document)
    ensures
        document@ == text_list(texts(items@)),
{
    let mut list: Vec<Document> = Vec::new();
    let mut i: usize = 0;
    while i < items.len()
        invariant
            i <= items.len(),
            list@.len() == i,
            forall|k: int| 0 <= k < i ==> (#[trigger] list@[k])@ == Doc::Text(items@[k]@),
        decreases items.len() - i,
    {
        list.push(write_text(&items[i]));
        i += 1;
    }
    proof {
        lemma_list_view(list);
        assert(docs(list@) =~= text_list(texts(items@))->List_0);
    }
    Document::List(list)
}

impl Versions {
    /// The versions as a document.
    pub fn to_document(&self) -> (document: Document)
        ensures
            document@ == self@.encode(),
    {
        let mut fields: Vec<(String, Document)> = Vec::new();
        fields.push(field_of(Field::Current, write_text(&self.current)));
        fields.push(field_of(Field::Past, write_text_list(&self.past)));
        proof {
            lemma_record_view(fields);
            assert(pairs(fields@) =~= self@.encode()->Record_0);
        }
        Document::Record(fields)
    }
}

impl Contributor {
    /// The contributor as a document.
    pub fn to_document(&self) -> (document: Document)
        ensures
            document@ == self@.encode(),
    {
        let mut fields: Vec<(String, Document)> = Vec::new();
        fields.push(field_of(Field::Name, write_text(&self.name)));
        fields.push(field_of(Field::Notes, write_text_or_null(&self.notes)));
        fields.push(field_of(Field::Website, write_text_or_null(&self.website)));
        proof {
            lemma_record_view(fields);
            assert(pairs(fields@) =~= self@.encode()->Record_0);
        }
        Document::Record(fields)
    }
}

impl License {
    /// The licenses as a document.
    pub fn to_document(&self) -> (document: Document)
        ensures
            document@ == self@.encode(),
    {
        let mut fields: Vec<(String, Document)> = Vec::new();
        fields.push(field_of(Field::Extension, write_text(&self.extension)));
        fields.push(field_of(Field::Image, write_text(&self.image)));
        proof {
            lemma_record_view(fields);
            assert(pairs(fields@) =~= self@.encode()->Record_0);
        }
        Document::Record(fields)
    }
}

impl Compatibility {
    /// The incompatibility as a document.
    pub fn to_document(&self) -> (document: Document)
        ensures
            document@ == self@.encode(),
    {
        let mut fields: Vec<(String, Document)> = Vec::new();
        fields.push(field_of(Field::Broken, Document::Flag(self.broken)));
        fields.push(field_of(Field::Reason, write_text_or_null(&self.reason)));
        fields.push(field_of(Field::Type, write_text(&self.compat_type)));
        fields.push(field_of(Field::Value, write_text(&self.value)));
        proof {
            lemma_record_view(fields);
            assert(pairs(fields@) =~= self@.encode()->Record_0);
        }
        Document::Record(fields)
    }
}

impl Example {
    /// The example as a document.
    pub fn to_document(&self) -> (document: Document)
        ensures
            document@ == self@.encode(),
    {
        let mut fields: Vec<(String, Document)> = Vec::new();
        fields.push(field_of(Field::Description, write_text(&self.description)));
        fields.push(field_of(Field::Name, write_text(&self.name)));
        fields.push(field_of(Field::Path, write_text(&self.path)));
        proof {
            lemma_record_view(fields);
            assert(pairs(fields@) =~= self@.encode()->Record_0);
        }
        Document::Record(fields)
    }
}

/// A list of contributors, as a document.
fn write_contributors(items: &Vec<Contributor>) -> (document: Document)
    ensures
        document@ == contributor_list(contributors(items@)),
{
    let mut list: Vec<Document> = Vec::new();
    let mut i: usize = 0;
    while i < items.len()
        invariant
            i <= items.len(),
            list@.len() == i,
            forall|k: int| 0 <= k < i ==> (#[trigger] list@[k])@ == items@[k]@.encode(),
        decreases items.len() - i,
    {
        list.push(items[i].to_document());
        i += 1;
    }
    proof {
        lemma_list_view(list);
        assert(docs(list@) =~= contributor_list(contributors(items@))->List_0);
    }
    Document::List(list)
}

/// A list of incompatibilities, as a document.
fn write_incompatibilities(items: &Vec<Compatibility>) -> (document: Document)
    ensures
        document@ == compatibility_list(incompatibilities(items@)),
{
    let mut list: Vec<Document> = Vec::new();
    let mut i: usize = 0;
    while i < items.len()
        invariant
            i <= items.len(),
            list@.len() == i,
            forall|k: int| 0 <= k < i ==> (#[trigger] list@[k])@ == items@[k]@.encode(),
        decreases items.len() - i,
    {
        list.push(items[i].to_document());
        i += 1;
    }
    proof {
        lemma_list_view(list);
        assert(docs(list@) =~= compatibility_list(incompatibilities(items@))->List_0);
    }
    Document::List(list)
}

/// A list of examples, as a document.
fn write_examples(items: &Vec<Example>) -> (document: Document)
    ensures
        document@ == example_list(examples(items@)),
{
    let mut list: Vec<Document> = Vec::new();
    let mut i: usize = 0;
    while i < items.len()
        invariant
            i <= items.len(),
            list@.len() == i,
            forall|k: int| 0 <= k < i ==> (#[trigger] list@[k])@ == items@[k]@.encode(),
        decreases items.len() - i,
    {
        list.push(items[i].to_document());
        i += 1;
    }
    proof {
        lemma_list_view(list);
        assert(docs(list@) =~= example_list(examples(items@))->List_0);
    }
    Document::List(list)
}

impl Extension {
    /// The entry as a document.
    pub fn to_document(&self) -> (document: Document)
        ensures
            document@ == self@.encode(),
    {
        let listed = match &self.examples {
            Some(list) => write_examples(list),
            None => Document::Null,
        };
        let mut fields: Vec<(String, Document)> = Vec::new();
        fields.push(field_of(Field::Contributors, write_contributors(&self.contributors)));
        fields.push(field_of(Field::Description, write_text(&self.description)));
        fields.push(field_of(Field::Documentation, write_text_or_null(&self.documentation)));
        fields.push(field_of(Field::Examples, listed));
        fields.push(field_of(Field::Image, write_text(&self.image)));
        fields.push(field_of(Field::Incompatible, write_incompatibilities(&self.incompatible)));
        fields.push(field_of(Field::License, self.license.to_document()));
        fields.push(field_of(Field::Path, write_text(&self.path)));
        fields.push(field_of(Field::Source, write_text_or_null(&self.source)));
        fields.push(field_of(Field::Title, write_text(&self.title)));
        fields.push(field_of(Field::Versions, self.versions.to_document()));
        fields.push(field_of(Field::Website, write_text_or_null(&self.website)));
        proof {
            lemma_record_view(fields);
            assert(pairs(fields@) =~= self@.encode()->Record_0);
        }
        Document::Record(fields)
    }
}

/// A catalog as a document: the list of its entries, in their order.
pub fn write_catalog(catalog: &Vec<Extension>) -> (document: Document)
    ensures
        document@ == encode_catalog(extensions(catalog@)),
{
    let mut list: Vec<Document> = Vec::new();
    let mut i: usize = 0;
    while i < catalog.len()
        invariant
            i <= catalog.len(),
            list@.len() == i,
            forall|k: int| 0 <= k < i ==> (#[trigger] list@[k])@ == catalog@[k]@.encode(),
        decreases catalog.len() - i,
    {
        list.push(catalog[i].to_document());
        i += 1;
    }
    proof {
        lemma_list_view(list);
        assert(docs(list@) =~= encode_catalog(extensions(catalog@))->List_0);
    }
    Document::List(list)
}

} // verus!
