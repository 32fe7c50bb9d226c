//! The order of a build.
//!
//! A build loads the catalog, copies the static assets into the build
//! directory, copies the extensions' assets below it, reads the template,
//! renders the index page and writes it. [`Build`] names each of these
//! tasks in turn; the caller does the outside work of a task and reports the
//! event that came of it. Whatever goes wrong ends the build: nothing is
//! tried again and nothing is skipped.

use vstd::prelude::*;
use crate::catalog::{Extension, ExtensionModel, extensions};
use crate::config::{Config, ConfigModel};
use crate::document::{Doc, Document};
use crate::schema::CatalogError;
use crate::schema::decode::decode_catalog;
use crate::schema::read::read_catalog;
use crate::template::{RenderError, index_page, render_index};
use crate::text::text_if_any;

pub mod laws;

verus! {

/// Where a build stands.
#[derive(Clone, Copy, Debug, PartialEq, Eq, Structural)]
pub enum Stage {
    /// The catalog is being loaded.
    Loading,
    /// The static assets are being copied.
    CopyingStatic,
    /// The extensions' assets are being copied.
    CopyingExtensions,
    /// The template is being read.
    ReadingTemplate,
    /// The index page is being written.
    Writing,
    /// The build is done.
    Finished,
    /// The build was given up.
    Aborted,
}

/// A place in the output, as the model sees it.
pub struct TargetModel {
    pub base: Seq<char>,
    pub child: Option<Seq<char>>,
}

/// A place in the output: a directory, or the path that a second path gives
/// when it is joined onto that directory.
#[derive(Clone, Debug, PartialEq, Eq)]
pub struct Target {
    pub base: String,
    pub child: Option<String>,
}

impl View for Target {
    type V = TargetModel;

    open spec fn view(&self) -> TargetModel {
        TargetModel { base: self.base@, child: text_if_any(self.child) }
    }
}

/// Why a build was given up, as the model sees it.
pub enum FailureModel {
    Syntax(Seq<char>),
    Catalog(CatalogError),
    Render,
    Stopped(Stage),
}

/// Why a build was given up.
#[derive(Clone, Debug, PartialEq, Eq)]
pub enum Failure {
    /// The catalog file is no relaxed JSON text; the words are the parser's.
    Syntax(String),
    /// The document that was loaded is no catalog.
    Catalog(CatalogError),
    /// The template does not compile, or cannot be evaluated.
    Render(RenderError),
    /// At this stage the outside work failed, or an event came that does not answer the task.
    Stopped(Stage),
}

impl View for Failure {
    type V = FailureModel;

    open spec fn view(&self) -> FailureModel {
        match self {
            Failure::Syntax(detail) => FailureModel::Syntax(detail@),
            Failure::Catalog(error) => FailureModel::Catalog(*error),
            Failure::Render(_) => FailureModel::Render,
            Failure::Stopped(stage) => FailureModel::Stopped(*stage),
        }
    }
}

/// A task of a build, as the model sees it.
pub enum TaskModel {
    LoadCatalog { path: Seq<char> },
    Copy { from: Seq<char>, into: TargetModel },
    ReadTemplate { path: Seq<char> },
    WriteIndex { into: TargetModel, page: Seq<char> },
    Finished,
    Abort(FailureModel),
}

/// What the caller of a [`Build`] is to do next.
#[derive(Clone, Debug, PartialEq, Eq)]
pub enum Task {
    /// Read the file at this path and parse it as relaxed JSON.
    LoadCatalog { path: String },
    /// Copy the directory tree at `from` into the place `into`.
    Copy { from: String, into: Target },
    /// Read the file at this path as text.
    ReadTemplate { path: String },
    /// Write the page to the place `into`, over what is there.
    WriteIndex { into: Target, page: String },
    /// Nothing: the build is done.
    Finished,
    /// Nothing: the build was given up.
    Abort(Failure),
}

impl View for Task {
    type V = TaskModel;

    open spec fn view(&self) -> TaskModel {
        match self {
            Task::LoadCatalog { path } => TaskModel::LoadCatalog { path: path@ },
            Task::Copy { from, into } => TaskModel::Copy { from: from@, into: into@ },
            Task::ReadTemplate { path } => TaskModel::ReadTemplate { path: path@ },
            Task::WriteIndex { into, page } => TaskModel::WriteIndex { into: into@, page: page@ },
            Task::Finished => TaskModel::Finished,
            Task::Abort(failure) => TaskModel::Abort(failure@),
        }
    }
}

/// What came of a task, as the model sees it.
pub enum EventModel {
    Catalog(Doc),
    Malformed(Seq<char>),
    Copied,
    Template(Seq<char>),
    Written,
    Failed,
}

/// What came of the task that a [`Build`] asked for.
#[derive(Debug, PartialEq, Eq)]
pub enum Event {
    /// The catalog file holds this document.
    Catalog(Document),
    /// The catalog file holds no relaxed JSON text; the words are the parser's.
    Malformed(String),
    /// The directory tree has been copied.
    Copied,
    /// The template file holds this text.
    Template(String),
    /// The index page has been written.
    Written,
    /// The outside work failed.
    Failed,
}

impl View for Event {
    type V = EventModel;

    open spec fn view(&self) -> EventModel {
        match self {
            Event::Catalog(document) => EventModel::Catalog(document@),
            Event::Malformed(detail) => EventModel::Malformed(detail@),
            Event::Copied => EventModel::Copied,
            Event::Template(source) => EventModel::Template(source@),
            Event::Written => EventModel::Written,
            Event::Failed => EventModel::Failed,
        }
    }
}

/// The name of the index page in the build directory.
pub open spec fn index_file() -> Seq<char> {
    "index.html"@
}

/// A build, as the model sees it: its settings, its stage, and the catalog once it is loaded.
pub struct BuildModel {
    pub config: ConfigModel,
    pub stage: Stage,
    pub catalog: Seq<ExtensionModel>,
}

impl BuildModel {
    /// A build that has not begun.
    pub open spec fn start(config: ConfigModel) -> BuildModel {
        BuildModel { config, stage: Stage::Loading, catalog: Seq::empty() }
    }

    /// The first task of a build.
    pub open spec fn first_task(config: ConfigModel) -> TaskModel {
        TaskModel::LoadCatalog { path: config.catalog_path }
    }

    /// The build at another stage.
    pub open spec fn at(self, stage: Stage) -> BuildModel {
        BuildModel { config: self.config, stage, catalog: self.catalog }
    }

    /// The build given up at the stage where it stands.
    pub open spec fn stopped(self) -> (BuildModel, TaskModel) {
        (self.at(Stage::Aborted), TaskModel::Abort(FailureModel::Stopped(self.stage)))
    }

    /// What the build does with the outcome of rendering: the page is
    /// written to the file `index.html` of the build directory; without a
    /// page the build is given up.
    pub open spec fn after_render(self, page: Option<Seq<char>>) -> (BuildModel, TaskModel) {
        if self.stage == Stage::ReadingTemplate {
            match page {
                Some(text) => (
                    self.at(Stage::Writing),
                    TaskModel::WriteIndex {
                        into: TargetModel {
                            base: self.config.build_dir,
                            child: Some(index_file()),
                        },
                        page: text,
                    },
                ),
                None => (self.at(Stage::Aborted), TaskModel::Abort(FailureModel::Render)),
            }
        } else {
            self.stopped()
        }
    }

    /// The build after an event, and its next task.
    ///
    /// The catalog is read out of the document that was loaded; a text
    /// that is no document, or a document that is no catalog, ends the build
    /// before anything is copied or written. The static assets go into the build directory, the
    /// extensions' assets into the place that the extensions directory
    /// names below it. The template is rendered with the catalog and the
    /// extensions directory. A build that is done stays done. A failure, or
    /// an event that does not answer the task of the stage, ends the build.
    pub open spec fn next(self, event: EventModel) -> (BuildModel, TaskModel) {
        match (self.stage, event) {
            (Stage::Finished, _) => (self, TaskModel::Finished),
            (Stage::Loading, EventModel::Catalog(document)) => match decode_catalog(document) {
                Ok(catalog) => (
                    BuildModel { config: self.config, stage: Stage::CopyingStatic, catalog },
                    TaskModel::Copy {
                        from: self.config.static_dir,
                        into: TargetModel { base: self.config.build_dir, child: None },
                    },
                ),
                Err(error) => (
                    self.at(Stage::Aborted),
                    TaskModel::Abort(FailureModel::Catalog(error)),
                ),
            },
            (Stage::Loading, EventModel::Malformed(detail)) => (
                self.at(Stage::Aborted),
                TaskModel::Abort(FailureModel::Syntax(detail)),
            ),
            (Stage::CopyingStatic, EventModel::Copied) => (
                self.at(Stage::CopyingExtensions),
                TaskModel::Copy {
                    from: self.config.extensions_dir,
                    into: TargetModel {
                        base: self.config.build_dir,
                        child: Some(self.config.extensions_dir),
                    },
                },
            ),
            (Stage::CopyingExtensions, EventModel::Copied) => (
                self.at(Stage::ReadingTemplate),
                TaskModel::ReadTemplate { path: self.config.template_path },
            ),
            (Stage::ReadingTemplate, EventModel::Template(source)) => self.after_render(
                index_page(source, self.catalog, self.config.extensions_dir),
            ),
            (Stage::Writing, EventModel::Written) => (
                self.at(Stage::Finished),
                TaskModel::Finished,
            ),
            _ => self.stopped(),
        }
    }
}

/// The decisions of a build.
#[derive(Debug)]
pub struct Build {
    config: Config,
    stage: Stage,
    catalog: Vec<Extension>,
}

impl View for Build {
    type V = BuildModel;

    closed spec fn view(&self) -> BuildModel {
        BuildModel { config: self.config@, stage: self.stage, catalog: extensions(self.catalog@) }
    }
}

impl Build {
    /// A build with the given settings, and its first task: to load the catalog.
    pub fn begin(config: Config) -> (begun: (Build, Task))
        ensures
            begun.0@ == BuildModel::start(config@),
            begun.1@ == BuildModel::first_task(config@),
    {
        let task = Task::LoadCatalog { path: config.catalog_path.clone() };
        let build = Build { config, stage: Stage::Loading, catalog: Vec::new() };
        assert(build@.catalog =~= Seq::empty());
        (build, task)
    }

    /// The stage at which the build stands.
    pub fn stage(&self) -> (stage: Stage)
        ensures
            stage == self@.stage,
    {
        self.stage
    }

    /// The settings of the build.
    pub fn config(&self) -> (config: &Config)
        ensures
            config@ == self@.config,
    {
        &self.config
    }

    /// The catalog of the build: empty until it is loaded.
    pub fn catalog(&self) -> (catalog: &Vec<Extension>)
        ensures
            extensions(catalog@) == self@.catalog,
    {
        &self.catalog
    }

    /// Gives the build up at the stage where it stands.
    fn stop(&mut self) -> (task: Task)
        ensures
            (final(self)@, task@) == old(self)@.stopped(),
    {
        let task = Task::Abort(Failure::Stopped(self.stage));
        self.stage = Stage::Aborted;
        task
    }

    /// Takes the outcome of rendering the index page and decides the next task.
    pub fn after_render(&mut self, outcome: Result<String, RenderError>) -> (task: Task)
        ensures
            (final(self)@, task@) == old(self)@.after_render(
                match outcome {
                    Ok(page) => Some(page@),
                    Err(_) => None,
                },
            ),
    {
        if self.stage == Stage::ReadingTemplate {
            match outcome {
                Ok(page) => {
                    self.stage = Stage::Writing;
                    Task::WriteIndex {
                        into: Target {
                            base: self.config.build_dir.clone(),
                            child: Some("index.html".to_owned()),
                        },
                        page,
                    }
                },
                Err(error) => {
                    self.stage = Stage::Aborted;
                    Task::Abort(Failure::Render(error))
                },
            }
        } else {
            self.stop()
        }
    }

    /// Takes the event that came of the task asked for and decides the next task.
    pub fn step(&mut self, event: Event) -> (task: Task)
        ensures
            (final(self)@, task@) == old(self)@.next(event@),
    {
        match (self.stage, event) {
            (Stage::Finished, _) => Task::Finished,
            (Stage::Loading, Event::Catalog(document)) => match read_catalog(&document) {
                Ok(catalog) => {
                    self.catalog = catalog;
                    self.stage = Stage::CopyingStatic;
                    Task::Copy {
                        from: self.config.static_dir.clone(),
                        into: Target { base: self.config.build_dir.clone(), child: None },
                    }
                },
                Err(error) => {
                    self.stage = Stage::Aborted;
                    Task::Abort(Failure::Catalog(error))
                },
            },
            (Stage::Loading, Event::Malformed(detail)) => {
                self.stage = Stage::Aborted;
                Task::Abort(Failure::Syntax(detail))
            },
            (Stage::CopyingStatic, Event::Copied) => {
                self.stage = Stage::CopyingExtensions;
                Task::Copy {
                    from: self.config.extensions_dir.clone(),
                    into: Target {
                        base: self.config.build_dir.clone(),
                        child: Some(self.config.extensions_dir.clone()),
                    },
                }
            },
            (Stage::CopyingExtensions, Event::Copied) => {
                self.stage = Stage::ReadingTemplate;
                Task::ReadTemplate { path: self.config.template_path.clone() }
            },
            (Stage::ReadingTemplate, Event::Template(source)) => {
                let outcome = render_index(
                    source.as_str(),
                    &self.catalog,
                    self.config.extensions_dir.as_str(),
                );
                self.after_render(outcome)
            },
            (Stage::Writing, Event::Written) => {
                self.stage = Stage::Finished;
                Task::Finished
            },
            _ => self.stop(),
        }
    }
}

} // verus!
