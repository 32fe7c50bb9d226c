//! The records of the catalog: one [`Extension`] for each listed extension,
//! and the records nested in it.
//!
//! The records are plain data. Each has a model with the same fields, texts
//! taken as sequences of characters, which is what the contracts of the
//! schema and of the renderer speak of.

use vstd::prelude::*;
use crate::text::{texts, text_if_any};

verus! {

/// The versions of an extension, as the model sees them.
pub struct VersionsModel {
    pub current: Seq<char>,
    pub past: Seq<Seq<char>>,
}

/// The versions of an extension: the current one and those before it, in the order given.
#[derive(Clone, Debug, PartialEq, Eq)]
pub struct Versions {
    pub current: String,
    pub past: Vec<String>,
}

impl View for Versions {
    type V = VersionsModel;

    open spec fn view(&self) -> VersionsModel {
        VersionsModel { current: self.current@, past: texts(self.past@) }
    }
}

/// A contributor, as the model sees one.
pub struct ContributorModel {
    pub name: Seq<char>,
    pub website: Option<Seq<char>>,
    pub notes: Option<Seq<char>>,
}

/// Somebody who worked on an extension.
#[derive(Clone, Debug, PartialEq, Eq)]
pub struct Contributor {
    pub name: String,
    pub website: Option<String>,
    pub notes: Option<String>,
}

impl View for Contributor {
    type V = ContributorModel;

    open spec fn view(&self) -> ContributorModel {
        ContributorModel {
            name: self.name@,
            website: text_if_any(self.website),
            notes: text_if_any(self.notes),
        }
    }
}

/// The licenses of an extension, as the model sees them.
pub struct LicenseModel {
    pub extension: Seq<char>,
    pub image: Seq<char>,
}

/// The licenses of an extension: that of its code and that of its image.
#[derive(Clone, Debug, PartialEq, Eq)]
pub struct License {
    pub extension: String,
    pub image: String,
}

impl View for License {
    type V = LicenseModel;

    open spec fn view(&self) -> LicenseModel {
        LicenseModel { extension: self.extension@, image: self.image@ }
    }
}

/// A known incompatibility, as the model sees one.
pub struct CompatibilityModel {
    pub compat_type: Seq<char>,
    pub value: Seq<char>,
    pub broken: bool,
    pub reason: Option<Seq<char>>,
}

/// A known incompatibility of an extension with other software.
#[derive(Clone, Debug, PartialEq, Eq)]
pub struct Compatibility {
    /// The kind of software; the field is written `type` in the catalog.
    pub compat_type: String,
    pub value: String,
    /// Whether the extension does not work at all there. False where the catalog is silent.
    pub broken: bool,
    pub reason: Option<String>,
}

impl View for Compatibility {
    type V = CompatibilityModel;

    open spec fn view(&self) -> CompatibilityModel {
        CompatibilityModel {
            compat_type: self.compat_type@,
            value: self.value@,
            broken: self.broken,
            reason: text_if_any(self.reason),
        }
    }
}

/// An example project, as the model sees one.
pub struct ExampleModel {
    pub name: Seq<char>,
    pub description: Seq<char>,
    pub path: Seq<char>,
}

/// An example project that shows an extension at work.
#[derive(Clone, Debug, PartialEq, Eq)]
pub struct Example {
    pub name: String,
    pub description: String,
    pub path: String,
}

impl View for Example {
    type V = ExampleModel;

    open spec fn view(&self) -> ExampleModel {
        ExampleModel { name: self.name@, description: self.description@, path: self.path@ }
    }
}

/// The models of a sequence of contributors.
pub open spec fn contributors(items: Seq<Contributor>) -> Seq<ContributorModel> {
    Seq::new(items.len(), |i: int| items[i]@)
}

/// The models of a sequence of incompatibilities.
pub open spec fn incompatibilities(items: Seq<Compatibility>) -> Seq<CompatibilityModel> {
    Seq::new(items.len(), |i: int| items[i]@)
}

/// The models of a sequence of examples.
pub open spec fn examples(items: Seq<Example>) -> Seq<ExampleModel> {
    Seq::new(items.len(), |i: int| items[i]@)
}

/// The models of a sequence of examples that may be missing.
pub open spec fn examples_if_any(items: Option<Vec<Example>>) -> Option<Seq<ExampleModel>> {
    match items {
        Some(list) => Some(examples(list@)),
        None => None,
    }
}

/// An entry of the catalog, as the model sees one.
pub struct ExtensionModel {
    pub path: Seq<char>,
    pub title: Seq<char>,
    pub description: Seq<char>,
    pub image: Seq<char>,
    pub versions: VersionsModel,
    pub contributors: Seq<ContributorModel>,
    pub license: LicenseModel,
    pub incompatible: Seq<CompatibilityModel>,
    pub documentation: Option<Seq<char>>,
    pub website: Option<Seq<char>>,
    pub source: Option<Seq<char>>,
    pub examples: Option<Seq<ExampleModel>>,
}

/// An entry of the catalog: one listed extension.
#[derive(Clone, Debug, PartialEq, Eq)]
pub struct Extension {
    /// Names the extension's directory below the extensions directory.
    pub path: String,
    pub title: String,
    pub description: String,
    /// Path or address of a preview image.
    pub image: String,
    pub versions: Versions,
    pub contributors: Vec<Contributor>,
    pub license: License,
    pub incompatible: Vec<Compatibility>,
    pub documentation: Option<String>,
    pub website: Option<String>,
    pub source: Option<String>,
    pub examples: Option<Vec<Example>>,
}

impl View for Extension {
    type V = ExtensionModel;

    open spec fn view(&self) -> ExtensionModel {
        ExtensionModel {
            path: self.path@,
            title: self.title@,
            description: self.description@,
            image: self.image@,
            versions: self.versions@,
            contributors: contributors(self.contributors@),
            license: self.license@,
            incompatible: incompatibilities(self.incompatible@),
            documentation: text_if_any(self.documentation),
            website: text_if_any(self.website),
            source: text_if_any(self.source),
            examples: examples_if_any(self.examples),
        }
    }
}

/// The models of the entries of a catalog.
pub open spec fn extensions(items: Seq<Extension>) -> Seq<ExtensionModel> {
    Seq::new(items.len(), |i: int| items[i]@)
}

} // verus!
