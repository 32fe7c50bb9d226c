use extension_site::catalog::{Extension, License, Versions};
use extension_site::config::{Config, Lookup, Snapshot};
use extension_site::document::Document;
use extension_site::pipeline::{Build, Event, Failure, Stage, Target, Task};
use extension_site::schema::{CatalogError, Field, SchemaError};
use extension_site::template::RenderError;

fn text(value: &str) -> Document {
    Document::Text(String::from(value))
}

fn record(fields: Vec<(&str, Document)>) -> Document {
    Document::Record(fields.into_iter().map(|(name, value)| (String::from(name), value)).collect())
}

fn defaults() -> Config {
    Config::resolve(Snapshot::unset()).unwrap()
}

/// The catalog of the scenario: one entry, `ext1`, titled `Ext One`.
fn scenario_catalog() -> Document {
    Document::List(vec![record(vec![
        ("path", text("ext1")),
        ("title", text("Ext One")),
        ("description", text("d")),
        ("image", text("i.png")),
        ("versions", record(vec![("current", text("1.0")), ("past", Document::List(vec![]))])),
        ("contributors", Document::List(vec![])),
        ("license", record(vec![("extension", text("MIT")), ("image", text("MIT"))])),
        ("incompatible", Document::List(vec![])),
    ])])
}

fn scenario_entry() -> Extension {
    Extension {
        path: String::from("ext1"),
        title: String::from("Ext One"),
        description: String::from("d"),
        image: String::from("i.png"),
        versions: Versions { current: String::from("1.0"), past: vec![] },
        contributors: vec![],
        license: License { extension: String::from("MIT"), image: String::from("MIT") },
        incompatible: vec![],
        documentation: None,
        website: None,
        source: None,
        examples: None,
    }
}

/// A build that has come to the given stage by the events that lead there.
fn build_at(stage: Stage) -> Build {
    let (mut build, _) = Build::begin(defaults());
    let events = vec![
        (Stage::Loading, Event::Catalog(scenario_catalog())),
        (Stage::CopyingStatic, Event::Copied),
        (Stage::CopyingExtensions, Event::Copied),
        (Stage::ReadingTemplate, Event::Template(String::from("page"))),
        (Stage::Writing, Event::Written),
    ];
    for (at, event) in events {
        if build.stage() == stage {
            break;
        }
        assert_eq!(build.stage(), at);
        build.step(event);
    }
    assert_eq!(build.stage(), stage);
    build
}

#[test]
fn a_build_begins_by_loading_the_catalog() {
    let (build, task) = Build::begin(defaults());
    assert_eq!(task, Task::LoadCatalog { path: String::from("extensions.json5") });
    assert_eq!(build.stage(), Stage::Loading);
    assert!(build.catalog().is_empty());
    assert_eq!(build.config(), &defaults());
}

#[test]
fn a_build_does_its_tasks_in_order() {
    let (mut build, _) = Build::begin(defaults());

    let task = build.step(Event::Catalog(scenario_catalog()));
    assert_eq!(
        task,
        Task::Copy {
            from: String::from("public"),
            into: Target { base: String::from("build"), child: None },
        }
    );
    assert_eq!(build.stage(), Stage::CopyingStatic);
    assert_eq!(build.catalog(), &vec![scenario_entry()]);

    let task = build.step(Event::Copied);
    assert_eq!(
        task,
        Task::Copy {
            from: String::from("extensions"),
            into: Target { base: String::from("build"), child: Some(String::from("extensions")) },
        }
    );
    assert_eq!(build.stage(), Stage::CopyingExtensions);

    let task = build.step(Event::Copied);
    assert_eq!(task, Task::ReadTemplate { path: String::from("index.html") });
    assert_eq!(build.stage(), Stage::ReadingTemplate);

    let template = "{% for ext in extensions %}<a href=\"{{ extensions_directory }}/{{ ext.path }}\">{{ ext.title }}</a>{% endfor %}";
    let task = build.step(Event::Template(String::from(template)));
    assert_eq!(
        task,
        Task::WriteIndex {
            into: Target { base: String::from("build"), child: Some(String::from("index.html")) },
            page: String::from("<a href=\"extensions/ext1\">Ext One</a>"),
        }
    );
    assert_eq!(build.stage(), Stage::Writing);

    let task = build.step(Event::Written);
    assert_eq!(task, Task::Finished);
    assert_eq!(build.stage(), Stage::Finished);
}

#[test]
fn the_settings_name_the_places() {
    let snapshot = Snapshot {
        extensions_file: Lookup::Text(String::from("list.json5")),
        extensions_dir: Lookup::Text(String::from("foo")),
        build_dir: Lookup::Text(String::from("out")),
        static_dir: Lookup::Text(String::from("assets")),
        index_view: Lookup::Text(String::from("view.html")),
    };
    let (mut build, task) = Build::begin(Config::resolve(snapshot).unwrap());
    assert_eq!(task, Task::LoadCatalog { path: String::from("list.json5") });
    assert_eq!(
        build.step(Event::Catalog(scenario_catalog())),
        Task::Copy {
            from: String::from("assets"),
            into: Target { base: String::from("out"), child: None },
        }
    );
    assert_eq!(
        build.step(Event::Copied),
        Task::Copy {
            from: String::from("foo"),
            into: Target { base: String::from("out"), child: Some(String::from("foo")) },
        }
    );
    assert_eq!(build.step(Event::Copied), Task::ReadTemplate { path: String::from("view.html") });
    assert_eq!(
        build.step(Event::Template(String::from("{{ extensions_directory }}"))),
        Task::WriteIndex {
            into: Target { base: String::from("out"), child: Some(String::from("index.html")) },
            page: String::from("foo"),
        }
    );
}

#[test]
fn the_link_prefix_does_not_depend_on_the_build_directory() {
    let mut pages = Vec::new();
    for build_dir in ["build", "out", "/tmp/site"] {
        let mut snapshot = Snapshot::unset();
        snapshot.extensions_dir = Lookup::Text(String::from("foo"));
        snapshot.build_dir = Lookup::Text(String::from(build_dir));
        let (mut build, _) = Build::begin(Config::resolve(snapshot).unwrap());
        build.step(Event::Catalog(scenario_catalog()));
        build.step(Event::Copied);
        build.step(Event::Copied);
        match build.step(Event::Template(String::from("{{ extensions_directory }}"))) {
            Task::WriteIndex { into, page } => {
                assert_eq!(into.base, build_dir);
                pages.push(page);
            }
            other => panic!("no page: {:?}", other),
        }
    }
    assert_eq!(pages, vec!["foo", "foo", "foo"]);
}

#[test]
fn a_malformed_catalog_ends_the_build_before_anything_is_written() {
    let without_title = Document::List(vec![record(vec![
        ("path", text("ext1")),
        ("description", text("d")),
        ("image", text("i.png")),
        ("versions", record(vec![("current", text("1.0")), ("past", Document::List(vec![]))])),
        ("contributors", Document::List(vec![])),
        ("license", record(vec![("extension", text("MIT")), ("image", text("MIT"))])),
        ("incompatible", Document::List(vec![])),
    ])]);
    let (mut build, first) = Build::begin(defaults());
    assert!(matches!(first, Task::LoadCatalog { .. }));
    let task = build.step(Event::Catalog(without_title));
    assert_eq!(
        task,
        Task::Abort(Failure::Catalog(CatalogError::Entry(0, SchemaError::Missing(Field::Title))))
    );
    assert_eq!(build.stage(), Stage::Aborted);
    for event in [Event::Copied, Event::Written, Event::Template(String::from("x")), Event::Failed] {
        let task = build.step(event);
        assert_eq!(task, Task::Abort(Failure::Stopped(Stage::Aborted)));
        assert_eq!(build.stage(), Stage::Aborted);
    }
}

#[test]
fn a_catalog_text_that_is_no_document_ends_the_build() {
    let (mut build, _) = Build::begin(defaults());
    let task = build.step(Event::Malformed(String::from("expected comma at line 3 column 1")));
    assert_eq!(
        task,
        Task::Abort(Failure::Syntax(String::from("expected comma at line 3 column 1")))
    );
    assert_eq!(build.stage(), Stage::Aborted);
    assert_eq!(build.step(Event::Copied), Task::Abort(Failure::Stopped(Stage::Aborted)));

    let mut build = build_at(Stage::CopyingStatic);
    assert_eq!(
        build.step(Event::Malformed(String::from("late"))),
        Task::Abort(Failure::Stopped(Stage::CopyingStatic))
    );
}

#[test]
fn a_template_that_fails_ends_the_build() {
    let mut build = build_at(Stage::ReadingTemplate);
    let task = build.step(Event::Template(String::from("{% for %}")));
    match task {
        Task::Abort(Failure::Render(error)) => assert!(!error.detail.is_empty()),
        other => panic!("not a render failure: {:?}", other),
    }
    assert_eq!(build.stage(), Stage::Aborted);
}

#[test]
fn a_failure_ends_the_build_at_every_stage() {
    let stages = [
        Stage::Loading,
        Stage::CopyingStatic,
        Stage::CopyingExtensions,
        Stage::ReadingTemplate,
        Stage::Writing,
    ];
    for stage in stages {
        let mut build = build_at(stage);
        assert_eq!(build.step(Event::Failed), Task::Abort(Failure::Stopped(stage)));
        assert_eq!(build.stage(), Stage::Aborted);
    }
}

#[test]
fn an_event_out_of_turn_ends_the_build() {
    let mut build = build_at(Stage::Loading);
    assert_eq!(build.step(Event::Copied), Task::Abort(Failure::Stopped(Stage::Loading)));

    let mut build = build_at(Stage::CopyingStatic);
    assert_eq!(build.step(Event::Written), Task::Abort(Failure::Stopped(Stage::CopyingStatic)));

    let mut build = build_at(Stage::CopyingExtensions);
    assert_eq!(
        build.step(Event::Catalog(scenario_catalog())),
        Task::Abort(Failure::Stopped(Stage::CopyingExtensions))
    );

    let mut build = build_at(Stage::ReadingTemplate);
    assert_eq!(build.step(Event::Copied), Task::Abort(Failure::Stopped(Stage::ReadingTemplate)));

    let mut build = build_at(Stage::Writing);
    assert_eq!(
        build.step(Event::Template(String::from("x"))),
        Task::Abort(Failure::Stopped(Stage::Writing))
    );
}

#[test]
fn a_build_that_is_done_stays_done() {
    let mut build = build_at(Stage::Finished);
    assert_eq!(build.step(Event::Failed), Task::Finished);
    assert_eq!(build.step(Event::Copied), Task::Finished);
    assert_eq!(build.stage(), Stage::Finished);
}

#[test]
fn the_outcome_of_rendering_decides_the_next_task() {
    let mut build = build_at(Stage::ReadingTemplate);
    assert_eq!(
        build.after_render(Ok(String::from("<html>"))),
        Task::WriteIndex {
            into: Target { base: String::from("build"), child: Some(String::from("index.html")) },
            page: String::from("<html>"),
        }
    );
    assert_eq!(build.stage(), Stage::Writing);

    let mut build = build_at(Stage::ReadingTemplate);
    let error = RenderError { detail: String::from("syntax error") };
    assert_eq!(build.after_render(Err(error.clone())), Task::Abort(Failure::Render(error)));
    assert_eq!(build.stage(), Stage::Aborted);

    let mut build = build_at(Stage::CopyingStatic);
    assert_eq!(
        build.after_render(Ok(String::from("<html>"))),
        Task::Abort(Failure::Stopped(Stage::CopyingStatic))
    );
}
