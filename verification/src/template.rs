//! Rendering the index page.
//!
//! The template engine is minijinja. The page's template sees two names and
//! no more: `extensions`, the catalog, and `extensions_directory`, the
//! prefix of the links to the extensions' assets. What the engine makes of a
//! template is not stated here: it has a name, [`rendered`], and the
//! contracts say which template and which data it is applied to.

use vstd::prelude::*;
use crate::catalog::{Extension, ExtensionModel, extensions};
use crate::document::{Doc, Document, docs, pairs, lemma_list_view, lemma_record_view};
use crate::schema::encode::{encode_catalog, write_catalog};

pub mod laws;
pub mod order;

verus! {

/// A value of the template engine.
#[verifier::external_type_specification]
#[verifier::external_body]
pub struct ExTemplateValue(minijinja::Value);

/// An error of the template engine.
#[verifier::external_type_specification]
#[verifier::external_body]
pub struct ExTemplateError(minijinja::Error);

/// The data that a value of the template engine stands for, where the value
/// was put together by the functions of this module from nulls, flags, texts,
/// lists and records; `None` of every other value.
pub uninterp spec fn template_data(value: minijinja::Value) -> Option<Doc>;

/// What minijinja, as it comes, makes of a template of the given name and
/// source with the given data as its context: the text, or `None` where the
/// template does not compile or its evaluation fails.
pub uninterp spec fn rendered(name: Seq<char>, source: Seq<char>, context: Doc) -> Option<
    Seq<char>,
>;

/// The first text comes before the second in the order of strings: at the
/// first place where they differ it has the smaller character, or it ends
/// there and the second goes on.
pub open spec fn precedes(first: Seq<char>, second: Seq<char>) -> bool {
    exists|k: int|
        0 <= k <= first.len() && k <= second.len() && #[trigger] first.take(k) == second.take(k)
            && k < second.len() && (k < first.len() ==> (first[k] as u32) < (second[k] as u32))
}

/// The names of the fields are in strictly ascending order.
pub open spec fn ascending(fields: Seq<(Seq<char>, Doc)>) -> bool {
    forall|i: int| 0 <= i < fields.len() - 1 ==> precedes(#[trigger] fields[i].0, fields[i + 1].0)
}

/// The document can be handed to the template engine as it stands: it holds
/// no number, and the fields of each of its records are in the order of
/// their names, which is the order in which the engine keeps them.
pub open spec fn renderable(document: Doc) -> bool
    decreases document,
{
    match document {
        Doc::Null => true,
        Doc::Flag(_) => true,
        Doc::Number => false,
        Doc::Text(_) => true,
        Doc::List(items) => forall|i: int|
            0 <= i < items.len() ==> renderable(#[trigger] items[i]),
        Doc::Record(fields) => ascending(fields) && (forall|i: int|
            0 <= i < fields.len() ==> renderable(#[trigger] fields[i].1)),
    }
}

/// The items of a list that can be handed over can be handed over.
proof fn lemma_renderable_item(items: Seq<Doc>, i: int)
    requires
        renderable(Doc::List(items)),
        0 <= i < items.len(),
    ensures
        renderable(items[i]),
{
    let d = Doc::List(items);
    assert(d is List);
    assert(d->List_0 == items);
}

/// The fields of a record that can be handed over are in order, and their
/// values can be handed over.
proof fn lemma_renderable_field(fields: Seq<(Seq<char>, Doc)>, i: int)
    requires
        renderable(Doc::Record(fields)),
        0 <= i < fields.len(),
    ensures
        renderable(fields[i].1),
        ascending(fields),
{
    let record = Doc::Record(fields);
    assert(record is Record && record->Record_0 == fields);
}

/// `minijinja::Value::from(())`: the engine's none.
#[verifier::external_body]
fn none_value() -> (value: minijinja::Value)
    ensures
        template_data(value) == Some(Doc::Null),
{
    minijinja::Value::from(())
}

/// `minijinja::Value::from(bool)`: the flag, as a value of the engine.
#[verifier::external_body]
fn flag_value(flag: bool) -> (value: minijinja::Value)
    ensures
        template_data(value) == Some(Doc::Flag(flag)),
{
    minijinja::Value::from(flag)
}

/// `minijinja::Value::from(&str)`: the text, as a string of the engine that
/// is escaped where the template's name asks for it.
#[verifier::external_body]
fn text_value(text: &str) -> (value: minijinja::Value)
    ensures
        template_data(value) == Some(Doc::Text(text@)),
{
    minijinja::Value::from(text)
}

/// `minijinja::Value::from(Vec<Value>)`: a sequence of the engine that
/// holds the given values in their order.
#[verifier::external_body]
fn list_value(items: Vec<minijinja::Value>) -> (value: minijinja::Value)
    requires
        forall|i: int| 0 <= i < items@.len() ==> template_data(#[trigger] items@[i]) is Some,
    ensures
        template_data(value) == Some(
            Doc::List(Seq::new(items@.len(), |i: int| template_data(items@[i])->0)),
        ),
{
    minijinja::Value::from(items)
}

/// `minijinja::Value::from_iter` over pairs: a map of the engine with the
/// given keys and values. The engine keeps a map in the order of its keys,
/// which for strings is the order of their characters; the keys are asked
/// to come in that order, each once, so that the map holds the fields as
/// they are listed.
#[verifier::external_body]
fn record_value(fields: Vec<(String, minijinja::Value)>) -> (value: minijinja::Value)
    requires
        forall|i: int| 0 <= i < fields@.len() ==> template_data((#[trigger] fields@[i]).1) is Some,
        forall|i: int|
            0 <= i < fields@.len() - 1 ==> precedes((#[trigger] fields@[i]).0@, fields@[i + 1].0@),
    ensures
        template_data(value) == Some(
            Doc::Record(
                Seq::new(fields@.len(), |i: int| (fields@[i].0@, template_data(fields@[i].1)->0)),
            ),
        ),
{
    minijinja::Value::from_iter(fields)
}

/// `minijinja::Environment::new`, `add_template`, `get_template` and
/// `Template::render`: adds the source to a fresh environment under the
/// given name and renders it once with the given context. The result is the
/// rendered text, or the error of the step that failed.
#[verifier::external_body]
fn render_named(name: &str, source: &str, context: minijinja::Value) -> (outcome: Result<
    String,
    minijinja::Error,
>)
    requires
        template_data(context) is Some,
    ensures
        match outcome {
            Ok(text) => rendered(name@, source@, template_data(context)->0) == Some(text@),
            Err(_) => rendered(name@, source@, template_data(context)->0) is None,
        },
{
    let mut environment = minijinja::Environment::new();
    environment.add_template(name, source)?;
    environment.get_template(name)?.render(context)
}

/// The document as a value of the template engine.
fn template_value(document: &Document) -> (value: minijinja::Value)
    requires
        renderable(document@),
    ensures
        template_data(value) == Some(document@),
    decreases document,
{
    match document {
        Document::Null => none_value(),
        Document::Flag(flag) => flag_value(*flag),
        // A document that can be handed over holds no number.
        Document::Number => none_value(),
        Document::Text(text) => text_value(text.as_str()),
        Document::List(items) => {
            proof {
                lemma_list_view(*items);
            }
            let mut values: Vec<minijinja::Value> = Vec::new();
            let mut i: usize = 0;
            while i < items.len()
                invariant
                    i <= items.len(),
                    values@.len() == i,
                    document@ == Doc::List(docs(items@)),
                    renderable(document@),
                    decreases_to!(document => items),
                    forall|k: int|
                        0 <= k < i ==> template_data(#[trigger] values@[k]) == Some(items@[k]@),
                decreases items.len() - i,
            {
                proof {
                    lemma_renderable_item(docs(items@), i as int);
                }
                assert(docs(items@)[i as int] == items@[i as int]@);
                values.push(template_value(&items[i]));
                i += 1;
            }
            let ghost listed = Seq::new(values@.len(), |i: int| template_data(values@[i])->0);
            assert(listed =~= docs(items@));
            list_value(values)
        },
        Document::Record(fields) => {
            proof {
                lemma_record_view(*fields);
            }
            let mut values: Vec<(String, minijinja::Value)> = Vec::new();
            let mut i: usize = 0;
            while i < fields.len()
                invariant
                    i <= fields.len(),
                    values@.len() == i,
                    document@ == Doc::Record(pairs(fields@)),
                    renderable(document@),
                    decreases_to!(document => fields),
                    forall|k: int|
                        0 <= k < i ==> (#[trigger] values@[k]).0@ == fields@[k].0@ && template_data(
                            values@[k].1,
                        ) == Some(fields@[k].1@),
                decreases fields.len() - i,
            {
                proof {
                    lemma_renderable_field(pairs(fields@), i as int);
                }
                assert(pairs(fields@)[i as int].1 == fields@[i as int].1@);
                let value = template_value(&fields[i].1);
                values.push((fields[i].0.clone(), value));
                i += 1;
            }
            let ghost listed = Seq::new(
                values@.len(),
                |i: int| (values@[i].0@, template_data(values@[i].1)->0),
            );
            assert(listed =~= pairs(fields@));
            assert forall|i: int| 0 <= i < values@.len() - 1 implies precedes(
                (#[trigger] values@[i]).0@,
                values@[i + 1].0@,
            ) by {
                assert(pairs(fields@)[i].0 == values@[i].0@);
                assert(pairs(fields@)[i + 1].0 == values@[i + 1].0@);
            }
            record_value(values)
        },
    }
}

/// The name under which the template of the index page is rendered. The
/// engine escapes HTML in what a template of this name prints.
pub open spec fn index_name() -> Seq<char> {
    "index.html"@
}

/// What the template of the index page sees: the catalog under the name
/// `extensions`, and the prefix of the links to the extensions' assets under
/// the name `extensions_directory`.
pub open spec fn context(catalog: Seq<ExtensionModel>, extensions_directory: Seq<char>) -> Doc {
    Doc::Record(
        seq![
            ("extensions"@, encode_catalog(catalog)),
            ("extensions_directory"@, Doc::Text(extensions_directory)),
        ],
    )
}

/// Why the index page could not be rendered.
#[derive(Clone, Debug, PartialEq, Eq)]
pub struct RenderError {
    /// What the template engine says of it.
    pub detail: String,
}

/// The index page of a catalog, or `None` where the template does not
/// compile or cannot be evaluated.
pub open spec fn index_page(
    source: Seq<char>,
    catalog: Seq<ExtensionModel>,
    extensions_directory: Seq<char>,
) -> Option<Seq<char>> {
    rendered(index_name(), source, context(catalog, extensions_directory))
}

/// The outcome of rendering with the engine's error put into words.
fn page_or_error(outcome: Result<String, minijinja::Error>) -> (page: Result<
    String,
    RenderError,
>)
    ensures
        match (outcome, page) {
            (Ok(text), Ok(same)) => same == text,
            (Err(_), Err(_)) => true,
            _ => false,
        },
{
    match outcome {
        Ok(text) => Ok(text),
        Err(error) => Err(RenderError { detail: error.to_string() }),
    }
}

/// The context of the index page, as a document.
pub fn index_context(catalog: &Vec<Extension>, extensions_directory: &str) -> (document: Document)
    ensures
        document@ == context(extensions(catalog@), extensions_directory@),
{
    let mut fields: Vec<(String, Document)> = Vec::new();
    fields.push(("extensions".to_owned(), write_catalog(catalog)));
    fields.push(
        ("extensions_directory".to_owned(), Document::Text(extensions_directory.to_owned())),
    );
    proof {
        lemma_record_view(fields);
        assert(pairs(fields@) =~= context(
            extensions(catalog@),
            extensions_directory@,
        )->Record_0);
    }
    Document::Record(fields)
}

/// Renders the index page: the template, under the name `index.html`, with
/// the catalog and the prefix of the links as its context.
pub fn render_index(source: &str, catalog: &Vec<Extension>, extensions_directory: &str) -> (page:
    Result<String, RenderError>)
    ensures
        match page {
            Ok(text) => index_page(source@, extensions(catalog@), extensions_directory@) == Some(
                text@,
            ),
            Err(_) => index_page(source@, extensions(catalog@), extensions_directory@) is None,
        },
{
    let document = index_context(catalog, extensions_directory);
    proof {
        order::lemma_context_renderable(extensions(catalog@), extensions_directory@);
    }
    let value = template_value(&document);
    page_or_error(render_named("index.html", source, value))
}

} // verus!
