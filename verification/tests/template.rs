use extension_site::catalog::{
    Compatibility, Contributor, Example, Extension, License, Versions,
};
use extension_site::document::Document;
use extension_site::template::{index_context, render_index};

fn entry(path: &str, title: &str) -> Extension {
    Extension {
        path: String::from(path),
        title: String::from(title),
        description: String::from("d"),
        image: String::from("i.png"),
        versions: Versions { current: String::from("1.0"), past: vec![] },
        contributors: vec![],
        license: License { extension: String::from("MIT"), image: String::from("MIT") },
        incompatible: vec![],
        documentation: None,
        website: None,
        source: None,
        examples: None,
    }
}

#[test]
fn a_template_without_expressions_is_its_own_text() {
    assert_eq!(render_index("<h1>Extensions</h1>", &vec![], "extensions").unwrap(), "<h1>Extensions</h1>");
}

#[test]
fn the_loop_runs_once_for_each_entry_in_order() {
    let catalog = vec![entry("a", "Alpha"), entry("b", "Beta"), entry("c", "Gamma")];
    let page = render_index(
        "{% for ext in extensions %}[{{ loop.index }}:{{ ext.title }}]{% endfor %}",
        &catalog,
        "extensions",
    )
    .unwrap();
    assert_eq!(page, "[1:Alpha][2:Beta][3:Gamma]");
}

#[test]
fn an_empty_catalog_gives_no_iteration() {
    let page =
        render_index("{% for ext in extensions %}x{% endfor %}|{{ extensions|length }}", &vec![], "e")
            .unwrap();
    assert_eq!(page, "|0");
}

#[test]
fn the_link_prefix_is_the_extensions_directory() {
    let page = render_index("{{ extensions_directory }}", &vec![], "foo").unwrap();
    assert_eq!(page, "foo");
    let page = render_index(
        "{% for ext in extensions %}{{ extensions_directory }}/{{ ext.path }}/{{ ext.path }}.js{% endfor %}",
        &vec![entry("ext1", "Ext One")],
        "foo",
    )
    .unwrap();
    assert_eq!(page, "foo/ext1/ext1.js");
}

#[test]
fn the_context_has_two_names_and_no_other() {
    let page = render_index(
        "{{ extensions is defined }} {{ extensions_directory is defined }} {{ build_directory is defined }}",
        &vec![],
        "e",
    )
    .unwrap();
    assert_eq!(page, "True True False");
    assert_eq!(
        index_context(&vec![], "e"),
        Document::Record(vec![
            (String::from("extensions"), Document::List(vec![])),
            (String::from("extensions_directory"), Document::Text(String::from("e"))),
        ])
    );
}

#[test]
fn texts_are_escaped_as_html() {
    let page = render_index(
        "{% for ext in extensions %}{{ ext.title }}{% endfor %}",
        &vec![entry("a", "<b>Bold & \"quoted\"</b>")],
        "e",
    )
    .unwrap();
    assert_eq!(page, "&lt;b&gt;Bold &amp; &quot;quoted&quot;&lt;&#x2f;b&gt;");
}

#[test]
fn every_field_of_an_entry_can_be_read() {
    let mut full = entry("pen", "Pen");
    full.versions.past = vec![String::from("0.9"), String::from("0.8")];
    full.contributors = vec![Contributor {
        name: String::from("Ada"),
        website: Some(String::from("ada.example")),
        notes: None,
    }];
    full.incompatible = vec![
        Compatibility {
            compat_type: String::from("editor"),
            value: String::from("1"),
            broken: true,
            reason: Some(String::from("r")),
        },
        Compatibility {
            compat_type: String::from("player"),
            value: String::from("2"),
            broken: false,
            reason: None,
        },
    ];
    full.documentation = Some(String::from("docs"));
    full.examples = Some(vec![Example {
        name: String::from("n"),
        description: String::from("x"),
        path: String::from("p"),
    }]);
    let source = "{% for e in extensions %}\
{{ e.path }}|{{ e.title }}|{{ e.description }}|{{ e.image }}|\
{{ e.versions.current }}|{{ e.versions.past|join(',') }}|\
{% for c in e.contributors %}{{ c.name }}~{{ c.website }}~{{ c.notes is none }}{% endfor %}|\
{{ e.license.extension }}|{{ e.license.image }}|\
{% for i in e.incompatible %}{{ i.type }}~{{ i.value }}~{% if i.broken %}broken{% else %}works{% endif %}~{{ i.reason is none }};{% endfor %}|\
{{ e.documentation }}|{{ e.website is none }}|{{ e.source is none }}|\
{% for x in e.examples %}{{ x.name }}~{{ x.description }}~{{ x.path }}{% endfor %}\
{% endfor %}";
    let page = render_index(source, &vec![full], "e").unwrap();
    assert_eq!(
        page,
        "pen|Pen|d|i.png|1.0|0.9,0.8|Ada~ada.example~True|MIT|MIT|\
editor~1~broken~False;player~2~works~True;|docs|True|True|n~x~p"
    );
}

#[test]
fn a_missing_field_is_none_and_defined() {
    let page = render_index(
        "{% for e in extensions %}{{ e.website is defined }} {{ e.website is none }} {{ e.examples is none }} {{ e.nothing is defined }}{% endfor %}",
        &vec![entry("a", "A")],
        "e",
    )
    .unwrap();
    assert_eq!(page, "True True True False");
}

#[test]
fn the_fields_of_an_entry_are_kept_by_name() {
    let page = render_index(
        "{% for e in extensions %}{% for key in e %}{{ key }} {% endfor %}{% endfor %}",
        &vec![entry("a", "A")],
        "e",
    )
    .unwrap();
    assert_eq!(
        page,
        "contributors description documentation examples image incompatible license path source title versions website "
    );
}

#[test]
fn a_template_that_does_not_compile_is_an_error() {
    let error = render_index("{% for ext in extensions %}", &vec![], "e").unwrap_err();
    assert!(!error.detail.is_empty());
    assert!(render_index("{{ }", &vec![], "e").is_err());
    assert!(render_index("{% nonsense %}", &vec![], "e").is_err());
}

#[test]
fn a_template_that_cannot_be_evaluated_is_an_error() {
    assert!(render_index("{{ extensions|no_such_filter }}", &vec![], "e").is_err());
    assert!(render_index("{{ extensions_directory.a.b }}", &vec![], "e").is_err());
    assert!(render_index("{% include \"other.html\" %}", &vec![], "e").is_err());
}

#[test]
fn the_scenario_page_holds_the_title() {
    let page = render_index(
        "<ul>{% for ext in extensions %}<li>{{ ext.title }}</li>{% endfor %}</ul>",
        &vec![entry("ext1", "Ext One")],
        "extensions",
    )
    .unwrap();
    assert!(page.contains("Ext One"));
    assert_eq!(page, "<ul><li>Ext One</li></ul>");
}
