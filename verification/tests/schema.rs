use extension_site::catalog::{
    Compatibility, Contributor, Example, Extension, License, Versions,
};
use extension_site::document::{find, Document};
use extension_site::schema::encode::write_catalog;
use extension_site::schema::read::read_catalog;
use extension_site::schema::{CatalogError, Field, SchemaError, Shape};

fn text(value: &str) -> Document {
    Document::Text(String::from(value))
}

fn record(fields: Vec<(&str, Document)>) -> Document {
    Document::Record(fields.into_iter().map(|(name, value)| (String::from(name), value)).collect())
}

fn fields_of(document: Document) -> Vec<(String, Document)> {
    match document {
        Document::Record(fields) => fields,
        other => panic!("not a record: {:?}", other),
    }
}

/// The smallest entry that is a valid one.
fn plain_entry() -> Vec<(&'static str, Document)> {
    vec![
        ("path", text("ext1")),
        ("title", text("Ext One")),
        ("description", text("d")),
        ("image", text("i.png")),
        ("versions", record(vec![("current", text("1.0")), ("past", Document::List(vec![]))])),
        ("contributors", Document::List(vec![])),
        ("license", record(vec![("extension", text("MIT")), ("image", text("MIT"))])),
        ("incompatible", Document::List(vec![])),
    ]
}

fn plain_extension() -> Extension {
    Extension {
        path: String::from("ext1"),
        title: String::from("Ext One"),
        description: String::from("d"),
        image: String::from("i.png"),
        versions: Versions { current: String::from("1.0"), past: vec![] },
        contributors: vec![],
        license: License { extension: String::from("MIT"), image: String::from("MIT") },
        incompatible: vec![],
        documentation: None,
        website: None,
        source: None,
        examples: None,
    }
}

fn without(mut fields: Vec<(&'static str, Document)>, name: &str) -> Vec<(&'static str, Document)> {
    fields.retain(|(field, _)| *field != name);
    fields
}

fn with(
    mut fields: Vec<(&'static str, Document)>,
    name: &'static str,
    value: Document,
) -> Vec<(&'static str, Document)> {
    fields.retain(|(field, _)| *field != name);
    fields.push((name, value));
    fields
}

fn full_extension() -> Extension {
    Extension {
        path: String::from("pen"),
        title: String::from("Pen <Plus>"),
        description: String::from("Draws lines"),
        image: String::from("images/pen.svg"),
        versions: Versions {
            current: String::from("2.1"),
            past: vec![String::from("2.0"), String::from("1.0")],
        },
        contributors: vec![
            Contributor {
                name: String::from("Ada"),
                website: Some(String::from("https://ada.example")),
                notes: None,
            },
            Contributor { name: String::from("Bob"), website: None, notes: Some(String::from("art")) },
        ],
        license: License { extension: String::from("MIT"), image: String::from("CC0") },
        incompatible: vec![
            Compatibility {
                compat_type: String::from("editor"),
                value: String::from("<1.0"),
                broken: true,
                reason: Some(String::from("needs new blocks")),
            },
            Compatibility {
                compat_type: String::from("player"),
                value: String::from("*"),
                broken: false,
                reason: None,
            },
        ],
        documentation: Some(String::from("docs/pen.md")),
        website: None,
        source: Some(String::from("https://git.example/pen")),
        examples: Some(vec![Example {
            name: String::from("Spiral"),
            description: String::from("A spiral"),
            path: String::from("examples/spiral.sb3"),
        }]),
    }
}

#[test]
fn a_plain_catalog_is_read() {
    let document = Document::List(vec![record(plain_entry())]);
    assert_eq!(read_catalog(&document), Ok(vec![plain_extension()]));
}

#[test]
fn an_empty_list_is_an_empty_catalog() {
    assert_eq!(read_catalog(&Document::List(vec![])), Ok(vec![]));
}

#[test]
fn entries_keep_their_order() {
    let first = record(with(plain_entry(), "title", text("First")));
    let second = record(with(plain_entry(), "title", text("Second")));
    let third = record(with(plain_entry(), "title", text("Third")));
    let catalog = read_catalog(&Document::List(vec![first, second, third])).unwrap();
    let titles: Vec<&str> = catalog.iter().map(|entry| entry.title.as_str()).collect();
    assert_eq!(titles, vec!["First", "Second", "Third"]);
}

#[test]
fn the_order_of_fields_does_not_matter() {
    let mut fields = plain_entry();
    fields.reverse();
    assert_eq!(read_catalog(&Document::List(vec![record(fields)])), Ok(vec![plain_extension()]));
}

#[test]
fn every_field_is_read() {
    let entry = record(vec![
        ("path", text("pen")),
        ("title", text("Pen <Plus>")),
        ("description", text("Draws lines")),
        ("image", text("images/pen.svg")),
        (
            "versions",
            record(vec![
                ("current", text("2.1")),
                ("past", Document::List(vec![text("2.0"), text("1.0")])),
            ]),
        ),
        (
            "contributors",
            Document::List(vec![
                record(vec![("name", text("Ada")), ("website", text("https://ada.example"))]),
                record(vec![
                    ("name", text("Bob")),
                    ("website", Document::Null),
                    ("notes", text("art")),
                ]),
            ]),
        ),
        ("license", record(vec![("extension", text("MIT")), ("image", text("CC0"))])),
        (
            "incompatible",
            Document::List(vec![
                record(vec![
                    ("type", text("editor")),
                    ("value", text("<1.0")),
                    ("broken", Document::Flag(true)),
                    ("reason", text("needs new blocks")),
                ]),
                record(vec![("type", text("player")), ("value", text("*"))]),
            ]),
        ),
        ("documentation", text("docs/pen.md")),
        ("source", text("https://git.example/pen")),
        (
            "examples",
            Document::List(vec![record(vec![
                ("name", text("Spiral")),
                ("description", text("A spiral")),
                ("path", text("examples/spiral.sb3")),
            ])]),
        ),
    ]);
    assert_eq!(read_catalog(&Document::List(vec![entry])), Ok(vec![full_extension()]));
}

#[test]
fn absent_broken_is_false() {
    let fields = fields_of(record(vec![("type", text("editor")), ("value", text("1"))]));
    let read = Compatibility::from_fields(&fields).unwrap();
    assert!(!read.broken);
    assert_eq!(read.reason, None);
}

#[test]
fn broken_is_read_where_it_stands() {
    let fields = fields_of(record(vec![
        ("type", text("editor")),
        ("value", text("1")),
        ("broken", Document::Flag(true)),
    ]));
    assert!(Compatibility::from_fields(&fields).unwrap().broken);
    let fields = fields_of(record(vec![
        ("type", text("editor")),
        ("value", text("1")),
        ("broken", Document::Flag(false)),
    ]));
    assert!(!Compatibility::from_fields(&fields).unwrap().broken);
}

#[test]
fn broken_that_is_null_is_refused() {
    let fields = fields_of(record(vec![
        ("type", text("editor")),
        ("value", text("1")),
        ("broken", Document::Null),
    ]));
    assert_eq!(
        Compatibility::from_fields(&fields),
        Err(SchemaError::Mismatch(Field::Broken, Shape::Flag))
    );
}

#[test]
fn a_missing_title_fails_the_catalog() {
    let document = Document::List(vec![record(without(plain_entry(), "title"))]);
    assert_eq!(
        read_catalog(&document),
        Err(CatalogError::Entry(0, SchemaError::Missing(Field::Title)))
    );
}

#[test]
fn each_field_that_is_owed_is_missed() {
    let owed = [
        ("path", Field::Path),
        ("title", Field::Title),
        ("description", Field::Description),
        ("image", Field::Image),
        ("versions", Field::Versions),
        ("contributors", Field::Contributors),
        ("license", Field::License),
        ("incompatible", Field::Incompatible),
    ];
    for (name, field) in owed {
        let document = Document::List(vec![record(without(plain_entry(), name))]);
        assert_eq!(
            read_catalog(&document),
            Err(CatalogError::Entry(0, SchemaError::Missing(field)))
        );
    }
}

#[test]
fn one_bad_entry_fails_the_whole_catalog() {
    let good = record(plain_entry());
    let bad = record(without(plain_entry(), "image"));
    let document = Document::List(vec![good, bad, record(plain_entry())]);
    assert_eq!(
        read_catalog(&document),
        Err(CatalogError::Entry(1, SchemaError::Missing(Field::Image)))
    );
}

#[test]
fn the_first_bad_entry_is_the_error() {
    let document = Document::List(vec![
        record(plain_entry()),
        text("not an entry"),
        record(without(plain_entry(), "path")),
    ]);
    assert_eq!(read_catalog(&document), Err(CatalogError::NotARecord(1)));
}

#[test]
fn the_first_bad_field_is_the_error() {
    let fields = with(without(plain_entry(), "license"), "title", Document::Flag(true));
    let document = Document::List(vec![record(fields)]);
    assert_eq!(
        read_catalog(&document),
        Err(CatalogError::Entry(0, SchemaError::Mismatch(Field::Title, Shape::Text)))
    );
}

#[test]
fn a_document_that_is_no_list_is_no_catalog() {
    assert_eq!(read_catalog(&record(plain_entry())), Err(CatalogError::NotAList));
    assert_eq!(read_catalog(&Document::Null), Err(CatalogError::NotAList));
    assert_eq!(read_catalog(&text("[]")), Err(CatalogError::NotAList));
    assert_eq!(read_catalog(&Document::Number), Err(CatalogError::NotAList));
}

#[test]
fn a_field_that_stands_twice_is_refused() {
    let mut fields = plain_entry();
    fields.push(("title", text("Again")));
    assert_eq!(
        read_catalog(&Document::List(vec![record(fields)])),
        Err(CatalogError::Entry(0, SchemaError::Repeated(Field::Title)))
    );
    let mut fields = plain_entry();
    fields.push(("website", Document::Null));
    fields.push(("website", Document::Null));
    assert_eq!(
        read_catalog(&Document::List(vec![record(fields)])),
        Err(CatalogError::Entry(0, SchemaError::Repeated(Field::Website)))
    );
}

#[test]
fn unknown_fields_are_passed_over() {
    let mut fields = plain_entry();
    fields.push(("stars", Document::Number));
    fields.push(("tags", Document::List(vec![text("a"), Document::Number])));
    fields.push(("stars", Document::Null));
    assert_eq!(read_catalog(&Document::List(vec![record(fields)])), Ok(vec![plain_extension()]));
}

#[test]
fn a_value_of_the_wrong_shape_is_refused() {
    let cases = vec![
        (with(plain_entry(), "path", Document::Number), SchemaError::Mismatch(Field::Path, Shape::Text)),
        (with(plain_entry(), "title", Document::Null), SchemaError::Mismatch(Field::Title, Shape::Text)),
        (
            with(plain_entry(), "versions", Document::List(vec![])),
            SchemaError::Mismatch(Field::Versions, Shape::Record),
        ),
        (
            with(plain_entry(), "contributors", record(vec![])),
            SchemaError::Mismatch(Field::Contributors, Shape::List),
        ),
        (
            with(plain_entry(), "contributors", Document::List(vec![text("Ada")])),
            SchemaError::Mismatch(Field::Contributors, Shape::Record),
        ),
        (
            with(plain_entry(), "license", text("MIT")),
            SchemaError::Mismatch(Field::License, Shape::Record),
        ),
        (
            with(plain_entry(), "incompatible", Document::Null),
            SchemaError::Mismatch(Field::Incompatible, Shape::List),
        ),
        (
            with(plain_entry(), "documentation", Document::Flag(false)),
            SchemaError::Mismatch(Field::Documentation, Shape::Text),
        ),
        (
            with(plain_entry(), "examples", text("none")),
            SchemaError::Mismatch(Field::Examples, Shape::List),
        ),
        (
            with(plain_entry(), "examples", Document::List(vec![Document::Null])),
            SchemaError::Mismatch(Field::Examples, Shape::Record),
        ),
        (
            with(
                plain_entry(),
                "versions",
                record(vec![("current", text("1")), ("past", Document::List(vec![Document::Number]))]),
            ),
            SchemaError::Mismatch(Field::Past, Shape::Text),
        ),
    ];
    for (fields, error) in cases {
        assert_eq!(
            read_catalog(&Document::List(vec![record(fields)])),
            Err(CatalogError::Entry(0, error))
        );
    }
}

#[test]
fn a_nested_record_misses_its_own_fields() {
    let fields = with(plain_entry(), "versions", record(vec![("past", Document::List(vec![]))]));
    assert_eq!(
        read_catalog(&Document::List(vec![record(fields)])),
        Err(CatalogError::Entry(0, SchemaError::Missing(Field::Current)))
    );
    let fields = with(plain_entry(), "license", record(vec![("extension", text("MIT"))]));
    assert_eq!(
        read_catalog(&Document::List(vec![record(fields)])),
        Err(CatalogError::Entry(0, SchemaError::Missing(Field::Image)))
    );
    let fields = with(
        plain_entry(),
        "examples",
        Document::List(vec![record(vec![("name", text("n")), ("path", text("p"))])]),
    );
    assert_eq!(
        read_catalog(&Document::List(vec![record(fields)])),
        Err(CatalogError::Entry(0, SchemaError::Missing(Field::Description)))
    );
}

#[test]
fn a_field_that_may_be_missing_may_be_null() {
    let mut fields = plain_entry();
    fields.push(("documentation", Document::Null));
    fields.push(("website", Document::Null));
    fields.push(("source", Document::Null));
    fields.push(("examples", Document::Null));
    assert_eq!(read_catalog(&Document::List(vec![record(fields)])), Ok(vec![plain_extension()]));
}

#[test]
fn an_empty_list_of_examples_is_not_a_missing_one() {
    let fields = with(plain_entry(), "examples", Document::List(vec![]));
    let catalog = read_catalog(&Document::List(vec![record(fields)])).unwrap();
    assert_eq!(catalog[0].examples, Some(vec![]));
}

#[test]
fn nested_records_are_read_on_their_own() {
    let fields = fields_of(record(vec![
        ("current", text("3")),
        ("past", Document::List(vec![text("2"), text("1")])),
    ]));
    assert_eq!(
        Versions::from_fields(&fields),
        Ok(Versions { current: String::from("3"), past: vec![String::from("2"), String::from("1")] })
    );
    let fields = fields_of(record(vec![("name", text("Ada")), ("notes", text("n"))]));
    assert_eq!(
        Contributor::from_fields(&fields),
        Ok(Contributor { name: String::from("Ada"), website: None, notes: Some(String::from("n")) })
    );
    let fields = fields_of(record(vec![("extension", text("MIT")), ("image", text("CC0"))]));
    assert_eq!(
        License::from_fields(&fields),
        Ok(License { extension: String::from("MIT"), image: String::from("CC0") })
    );
    let fields = fields_of(record(vec![
        ("name", text("n")),
        ("description", text("d")),
        ("path", text("p")),
    ]));
    assert_eq!(
        Example::from_fields(&fields),
        Ok(Example {
            name: String::from("n"),
            description: String::from("d"),
            path: String::from("p")
        })
    );
    assert_eq!(Extension::from_fields(&fields_of(record(plain_entry()))), Ok(plain_extension()));
}

#[test]
fn a_written_catalog_reads_back() {
    let catalog = vec![full_extension(), plain_extension()];
    let document = write_catalog(&catalog);
    assert_eq!(read_catalog(&document), Ok(catalog));
}

#[test]
fn a_catalog_is_written_field_by_field() {
    let document = write_catalog(&vec![plain_extension()]);
    let expected = Document::List(vec![record(vec![
        ("contributors", Document::List(vec![])),
        ("description", text("d")),
        ("documentation", Document::Null),
        ("examples", Document::Null),
        ("image", text("i.png")),
        ("incompatible", Document::List(vec![])),
        ("license", record(vec![("extension", text("MIT")), ("image", text("MIT"))])),
        ("path", text("ext1")),
        ("source", Document::Null),
        ("title", text("Ext One")),
        ("versions", record(vec![("current", text("1.0")), ("past", Document::List(vec![]))])),
        ("website", Document::Null),
    ])]);
    assert_eq!(document, expected);
}

#[test]
fn nested_records_are_written_on_their_own() {
    let compatibility = Compatibility {
        compat_type: String::from("editor"),
        value: String::from("1"),
        broken: true,
        reason: None,
    };
    assert_eq!(
        compatibility.to_document(),
        record(vec![
            ("broken", Document::Flag(true)),
            ("reason", Document::Null),
            ("type", text("editor")),
            ("value", text("1")),
        ])
    );
    let contributor =
        Contributor { name: String::from("Ada"), website: Some(String::from("w")), notes: None };
    assert_eq!(
        contributor.to_document(),
        record(vec![("name", text("Ada")), ("notes", Document::Null), ("website", text("w"))])
    );
    let example = Example {
        name: String::from("n"),
        description: String::from("d"),
        path: String::from("p"),
    };
    assert_eq!(
        example.to_document(),
        record(vec![("description", text("d")), ("name", text("n")), ("path", text("p"))])
    );
    let versions = Versions { current: String::from("2"), past: vec![String::from("1")] };
    assert_eq!(
        versions.to_document(),
        record(vec![("current", text("2")), ("past", Document::List(vec![text("1")]))])
    );
}

#[test]
fn fields_are_counted_and_found() {
    let fields = fields_of(record(vec![
        ("a", Document::Null),
        ("b", Document::Flag(true)),
        ("a", Document::Number),
    ]));
    assert_eq!(find(&fields, "a"), (2, 2));
    assert_eq!(find(&fields, "b"), (1, 1));
    assert_eq!(find(&fields, "c").0, 0);
}

#[test]
fn field_names_are_written_as_in_the_catalog() {
    assert_eq!(Field::Type.name(), "type");
    assert_eq!(Field::Path.name(), "path");
    assert_eq!(Field::Incompatible.name(), "incompatible");
    assert_eq!(Field::Extension.name(), "extension");
    assert_eq!(Field::Documentation.name(), "documentation");
}
