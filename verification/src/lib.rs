//! Building blocks of a static site generator for a catalog of extensions.
//!
//! A build reads a catalog of extensions, copies two directory trees into
//! an output directory and renders one index page from a template. This
//! crate holds what such a build decides and computes:
//!
//! - [`config`]: the settings, resolved from a snapshot of the environment;
//! - [`document`]: structured data as a parser reads it and a template sees it;
//! - [`catalog`] and [`schema`]: the records of the catalog, and how they are
//!   read out of a document and written as one;
//! - [`materialize`]: the recursive copy of a directory tree;
//! - [`template`]: the rendering of the index page, by minijinja;
//! - [`pipeline`]: the order of a build.
//!
//! Nothing in this crate touches the file system or the environment. What
//! needs outside work is written as a machine that names the next thing to
//! do and takes a report of what came of it: [`materialize::Walk`] for a
//! copy, [`pipeline::Build`] for a whole build.

pub mod catalog;
pub mod config;
pub mod document;
pub mod materialize;
pub mod pipeline;
pub mod schema;
pub mod template;
pub mod text;
