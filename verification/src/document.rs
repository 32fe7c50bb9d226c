//! Structured data as a relaxed-JSON text or a template holds it: a tree of
//! nulls, flags, numbers, texts, lists and records.
//!
//! A parser hands the catalog to this crate as a [`Document`], and the
//! template engine is handed one as its context. A number has no value
//! here: the catalog has no numeric field, so all that matters of a number
//! is that it is none of the other things.

use vstd::prelude::*;

verus! {

/// A document, as the model sees it.
pub enum Doc {
    Null,
    Flag(bool),
    Number,
    Text(Seq<char>),
    List(Seq<Doc>),
    Record(Seq<(Seq<char>, Doc)>),
}

/// A tree of structured data.
#[derive(Debug, PartialEq, Eq)]
pub enum Document {
    /// Nothing.
    Null,
    /// A flag, true or false.
    Flag(bool),
    /// A number, of whatever value.
    Number,
    /// A text.
    Text(String),
    /// A list of documents, in order.
    List(Vec<Document>),
    /// A record: fields of a name and a value, in the order in which they were written.
    Record(Vec<(String, Document)>),
}

/// The model of a document.
pub open spec fn model(document: Document) -> Doc
    decreases document,
{
    match document {
        Document::Null => Doc::Null,
        Document::Flag(flag) => Doc::Flag(flag),
        Document::Number => Doc::Number,
        Document::Text(text) => Doc::Text(text@),
        Document::List(items) => Doc::List(
            Seq::new(
                items@.len(),
                |i: int|
                    if 0 <= i < items@.len() {
                        model(items@[i])
                    } else {
                        Doc::Null
                    },
            ),
        ),
        Document::Record(fields) => Doc::Record(
            Seq::new(
                fields@.len(),
                |i: int|
                    if 0 <= i < fields@.len() {
                        (fields@[i].0@, model(fields@[i].1))
                    } else {
                        (Seq::empty(), Doc::Null)
                    },
            ),
        ),
    }
}

impl View for Document {
    type V = Doc;

    open spec fn view(&self) -> Doc {
        model(*self)
    }
}

/// The models of a sequence of documents.
pub open spec fn docs(items: Seq<Document>) -> Seq<Doc> {
    Seq::new(items.len(), |i: int| items[i]@)
}

/// The models of the fields of a record.
pub open spec fn pairs(fields: Seq<(String, Document)>) -> Seq<(Seq<char>, Doc)> {
    Seq::new(fields.len(), |i: int| (fields[i].0@, fields[i].1@))
}

/// The model of a list is the list of the models of its items.
pub proof fn lemma_list_view(items: Vec<Document>)
    ensures
        Document::List(items)@ == Doc::List(docs(items@)),
{
    assert(Document::List(items)@->List_0 =~= docs(items@));
}

/// The model of a record is the sequence of the models of its fields.
pub proof fn lemma_record_view(fields: Vec<(String, Document)>)
    ensures
        Document::Record(fields)@ == Doc::Record(pairs(fields@)),
{
    let whole = Document::Record(fields)@;
    assert(whole->Record_0 =~= pairs(fields@));
}

/// How many fields of the record have the name.
pub open spec fn count(fields: Seq<(Seq<char>, Doc)>, name: Seq<char>) -> nat
    decreases fields.len(),
{
    if fields.len() == 0 {
        0
    } else if fields.last().0 == name {
        count(fields.drop_last(), name) + 1
    } else {
        count(fields.drop_last(), name)
    }
}

/// The place of the last field of the record that has the name; -1 where none has it.
pub open spec fn place(fields: Seq<(Seq<char>, Doc)>, name: Seq<char>) -> int
    decreases fields.len(),
{
    if fields.len() == 0 {
        -1
    } else if fields.last().0 == name {
        fields.len() - 1
    } else {
        place(fields.drop_last(), name)
    }
}

/// The place that a name has in a record is the place of a field of that name.
pub proof fn lemma_place(fields: Seq<(Seq<char>, Doc)>, name: Seq<char>)
    ensures
        -1 <= place(fields, name) < fields.len(),
        count(fields, name) == 0 <==> place(fields, name) == -1,
        place(fields, name) >= 0 ==> fields[place(fields, name)].0 == name,
    decreases fields.len(),
{
    if fields.len() > 0 {
        lemma_place(fields.drop_last(), name);
    }
}

/// The number of fields that the record has of the name, and the place of the last of them.
pub fn find(fields: &Vec<(String, Document)>, name: &str) -> (found: (usize, usize))
    ensures
        found.0 == count(pairs(fields@), name@),
        found.0 > 0 ==> found.1 == place(pairs(fields@), name@),
{
    let wanted = name.to_owned();
    let mut times: usize = 0;
    let mut last: usize = 0;
    let mut i: usize = 0;
    let ghost all = pairs(fields@);
    while i < fields.len()
        invariant
            i <= fields.len(),
            all == pairs(fields@),
            wanted@ == name@,
            times <= i,
            times == count(all.take(i as int), name@),
            times > 0 ==> last == place(all.take(i as int), name@),
        decreases fields.len() - i,
    {
        proof {
            assert(all.take(i + 1).drop_last() =~= all.take(i as int));
            assert(all.take(i + 1).last() == all[i as int]);
        }
        if fields[i].0 == wanted {
            times += 1;
            last = i;
        }
        i += 1;
    }
    proof {
        assert(all.take(i as int) =~= all);
    }
    (times, last)
}

} // verus!
