//! The settings of a build, resolved from a snapshot of the environment.

use vstd::prelude::*;

verus! {

/// The environment variables that a build reads.
#[derive(Clone, Copy, Debug, PartialEq, Eq, Structural)]
pub enum Variable {
    /// Path of the catalog file.
    ExtensionsFile,
    /// Directory of the extensions' own assets.
    ExtensionsDir,
    /// Root of the output.
    BuildDir,
    /// Directory of the assets that are copied to the output as they are.
    StaticDir,
    /// Path of the template of the index page.
    IndexView,
}

impl Variable {
    /// The name under which the variable stands in the environment.
    pub open spec fn name_text(self) -> Seq<char> {
        match self {
            Variable::ExtensionsFile => "EXTENSIONS_FILE"@,
            Variable::ExtensionsDir => "EXTENSIONS_DIR"@,
            Variable::BuildDir => "BUILD_DIR"@,
            Variable::StaticDir => "STATIC_DIR"@,
            Variable::IndexView => "INDEX_VIEW"@,
        }
    }

    /// The value that stands in for a variable that is not set.
    pub open spec fn fallback_text(self) -> Seq<char> {
        match self {
            Variable::ExtensionsFile => "extensions.json5"@,
            Variable::ExtensionsDir => "extensions"@,
            Variable::BuildDir => "build"@,
            Variable::StaticDir => "public"@,
            Variable::IndexView => "index.html"@,
        }
    }

    /// What is said of a variable whose value is no valid text.
    pub open spec fn complaint_text(self) -> Seq<char> {
        match self {
            Variable::ExtensionsFile => "Value in EXTENSIONS_FILE is not a valid unicode string."@,
            Variable::ExtensionsDir => "Extension directory must be valid unicode."@,
            Variable::BuildDir => "Build directory must be valid unicode."@,
            Variable::StaticDir => "Static directory must be valid unicode."@,
            Variable::IndexView => "Index view must be a valid unicode string!"@,
        }
    }

    /// The name under which the variable stands in the environment.
    pub fn name(self) -> (name: &'static str)
        ensures
            name@ == self.name_text(),
    {
        match self {
            Variable::ExtensionsFile => "EXTENSIONS_FILE",
            Variable::ExtensionsDir => "EXTENSIONS_DIR",
            Variable::BuildDir => "BUILD_DIR",
            Variable::StaticDir => "STATIC_DIR",
            Variable::IndexView => "INDEX_VIEW",
        }
    }

    /// The value that stands in for a variable that is not set.
    pub fn fallback(self) -> (value: &'static str)
        ensures
            value@ == self.fallback_text(),
    {
        match self {
            Variable::ExtensionsFile => "extensions.json5",
            Variable::ExtensionsDir => "extensions",
            Variable::BuildDir => "build",
            Variable::StaticDir => "public",
            Variable::IndexView => "index.html",
        }
    }

    /// What is said of a variable whose value is no valid text.
    pub fn complaint(self) -> (message: &'static str)
        ensures
            message@ == self.complaint_text(),
    {
        match self {
            Variable::ExtensionsFile => "Value in EXTENSIONS_FILE is not a valid unicode string.",
            Variable::ExtensionsDir => "Extension directory must be valid unicode.",
            Variable::BuildDir => "Build directory must be valid unicode.",
            Variable::StaticDir => "Static directory must be valid unicode.",
            Variable::IndexView => "Index view must be a valid unicode string!",
        }
    }
}

/// What the environment holds under one name, as the model sees it.
pub enum LookupModel {
    Unset,
    Text(Seq<char>),
    NotUnicode,
}

/// What the environment holds under one name.
#[derive(Clone, Debug, PartialEq, Eq)]
pub enum Lookup {
    /// The variable is not set.
    Unset,
    /// The variable is set to this text.
    Text(String),
    /// The variable is set, to something that is no valid text.
    NotUnicode,
}

impl View for Lookup {
    type V = LookupModel;

    open spec fn view(&self) -> LookupModel {
        match self {
            Lookup::Unset => LookupModel::Unset,
            Lookup::Text(text) => LookupModel::Text(text@),
            Lookup::NotUnicode => LookupModel::NotUnicode,
        }
    }
}

/// The five lookups of a build, as the model sees them.
pub struct SnapshotModel {
    pub extensions_file: LookupModel,
    pub extensions_dir: LookupModel,
    pub build_dir: LookupModel,
    pub static_dir: LookupModel,
    pub index_view: LookupModel,
}

/// What the environment holds under the five names that a build reads.
#[derive(Clone, Debug, PartialEq, Eq)]
pub struct Snapshot {
    pub extensions_file: Lookup,
    pub extensions_dir: Lookup,
    pub build_dir: Lookup,
    pub static_dir: Lookup,
    pub index_view: Lookup,
}

impl View for Snapshot {
    type V = SnapshotModel;

    open spec fn view(&self) -> SnapshotModel {
        SnapshotModel {
            extensions_file: self.extensions_file@,
            extensions_dir: self.extensions_dir@,
            build_dir: self.build_dir@,
            static_dir: self.static_dir@,
            index_view: self.index_view@,
        }
    }
}

/// The settings of a build, as the model sees them.
pub struct ConfigModel {
    pub catalog_path: Seq<char>,
    pub extensions_dir: Seq<char>,
    pub build_dir: Seq<char>,
    pub static_dir: Seq<char>,
    pub template_path: Seq<char>,
}

/// The settings of a build.
#[derive(Clone, Debug, PartialEq, Eq)]
pub struct Config {
    /// Path of the catalog file.
    pub catalog_path: String,
    /// Directory of the extensions' assets. It names the directory below the
    /// build directory that they are copied to as well, and is what the
    /// template learns as the prefix of its links to them.
    pub extensions_dir: String,
    /// Root of the output.
    pub build_dir: String,
    /// Directory of the assets that are copied to the build directory as they are.
    pub static_dir: String,
    /// Path of the template of the index page.
    pub template_path: String,
}

impl View for Config {
    type V = ConfigModel;

    open spec fn view(&self) -> ConfigModel {
        ConfigModel {
            catalog_path: self.catalog_path@,
            extensions_dir: self.extensions_dir@,
            build_dir: self.build_dir@,
            static_dir: self.static_dir@,
            template_path: self.template_path@,
        }
    }
}

/// Why a snapshot of the environment gives no settings.
#[derive(Clone, Copy, Debug, PartialEq, Eq, Structural)]
pub enum ConfigError {
    /// The variable is set to something that is no valid text.
    NotUnicode(Variable),
}

impl ConfigError {
    /// What to tell the user.
    pub fn message(self) -> (message: &'static str)
        ensures
            message@ == (match self {
                ConfigError::NotUnicode(variable) => variable.complaint_text(),
            }),
    {
        match self {
            ConfigError::NotUnicode(variable) => variable.complaint(),
        }
    }
}

/// The value of one setting: the text that the variable is set to, or its
/// fallback where it is not set.
pub open spec fn setting(lookup: LookupModel, variable: Variable) -> Seq<char> {
    match lookup {
        LookupModel::Text(text) => text,
        _ => variable.fallback_text(),
    }
}

/// The settings that a snapshot gives. The first variable, in the order in
/// which a build reads them, that is set to something other than valid text
/// is the error.
pub open spec fn resolved(snapshot: SnapshotModel) -> Result<ConfigModel, ConfigError> {
    if snapshot.extensions_file is NotUnicode {
        Err(ConfigError::NotUnicode(Variable::ExtensionsFile))
    } else if snapshot.extensions_dir is NotUnicode {
        Err(ConfigError::NotUnicode(Variable::ExtensionsDir))
    } else if snapshot.build_dir is NotUnicode {
        Err(ConfigError::NotUnicode(Variable::BuildDir))
    } else if snapshot.static_dir is NotUnicode {
        Err(ConfigError::NotUnicode(Variable::StaticDir))
    } else if snapshot.index_view is NotUnicode {
        Err(ConfigError::NotUnicode(Variable::IndexView))
    } else {
        Ok(
            ConfigModel {
                catalog_path: setting(snapshot.extensions_file, Variable::ExtensionsFile),
                extensions_dir: setting(snapshot.extensions_dir, Variable::ExtensionsDir),
                build_dir: setting(snapshot.build_dir, Variable::BuildDir),
                static_dir: setting(snapshot.static_dir, Variable::StaticDir),
                template_path: setting(snapshot.index_view, Variable::IndexView),
            },
        )
    }
}

/// The value of one setting, or the variable where it is no valid text.
fn settle(lookup: Lookup, variable: Variable) -> (value: Result<String, ConfigError>)
    ensures
        match value {
            Ok(text) => !(lookup@ is NotUnicode) && text@ == setting(lookup@, variable),
            Err(error) => lookup@ is NotUnicode && error == ConfigError::NotUnicode(variable),
        },
{
    match lookup {
        Lookup::Unset => Ok(variable.fallback().to_owned()),
        Lookup::Text(text) => Ok(text),
        Lookup::NotUnicode => Err(ConfigError::NotUnicode(variable)),
    }
}

impl Snapshot {
    /// The snapshot of an environment in which none of the variables is set.
    pub fn unset() -> (snapshot: Snapshot)
        ensures
            snapshot@ == (SnapshotModel {
                extensions_file: LookupModel::Unset,
                extensions_dir: LookupModel::Unset,
                build_dir: LookupModel::Unset,
                static_dir: LookupModel::Unset,
                index_view: LookupModel::Unset,
            }),
    {
        Snapshot {
            extensions_file: Lookup::Unset,
            extensions_dir: Lookup::Unset,
            build_dir: Lookup::Unset,
            static_dir: Lookup::Unset,
            index_view: Lookup::Unset,
        }
    }
}

impl Config {
    /// The settings that a snapshot of the environment gives.
    pub fn resolve(snapshot: Snapshot) -> (settings: Result<Config, ConfigError>)
        ensures
            match settings {
                Ok(config) => resolved(snapshot@) == Ok::<ConfigModel, ConfigError>(config@),
                Err(error) => resolved(snapshot@) == Err::<ConfigModel, ConfigError>(error),
            },
    {
        let catalog_path = match settle(snapshot.extensions_file, Variable::ExtensionsFile) {
            Ok(text) => text,
            Err(error) => { return Err(error); },
        };
        let extensions_dir = match settle(snapshot.extensions_dir, Variable::ExtensionsDir) {
            Ok(text) => text,
            Err(error) => { return Err(error); },
        };
        let build_dir = match settle(snapshot.build_dir, Variable::BuildDir) {
            Ok(text) => text,
            Err(error) => { return Err(error); },
        };
        let static_dir = match settle(snapshot.static_dir, Variable::StaticDir) {
            Ok(text) => text,
            Err(error) => { return Err(error); },
        };
        let template_path = match settle(snapshot.index_view, Variable::IndexView) {
            Ok(text) => text,
            Err(error) => { return Err(error); },
        };
        Ok(Config { catalog_path, extensions_dir, build_dir, static_dir, template_path })
    }
}

} // verus!
