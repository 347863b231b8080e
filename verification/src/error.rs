//! Errors reported by the module pipeline, the plugin loader and the engine.

use vstd::prelude::*;

verus! {

/// Why a specifier could not be turned into a canonical name.
#[derive(Debug, Clone, PartialEq, Eq)]
pub enum ResolveError {
    /// No source recognizes the name, or the computed path does not exist.
    NotFound { base: String, specifier: String },
    /// The resolved path has no textual form.
    InvalidPath { specifier: String },
}

/// A `ResolveError` with its texts as character sequences.
pub enum ResolveErrorView {
    NotFound { base: Seq<char>, specifier: Seq<char> },
    InvalidPath { specifier: Seq<char> },
}

impl View for ResolveError {
    type V = ResolveErrorView;

    open spec fn view(&self) -> ResolveErrorView {
        match self {
            ResolveError::NotFound { base, specifier } => ResolveErrorView::NotFound {
                base: base@,
                specifier: specifier@,
            },
            ResolveError::InvalidPath { specifier } => ResolveErrorView::InvalidPath {
                specifier: specifier@,
            },
        }
    }
}

/// Why a canonical name could not be loaded.
#[derive(Debug, Clone, PartialEq, Eq)]
pub enum LoadError {
    /// The name is not registered and carries no file extension.
    InvalidPath { path: String },
    /// No loader claims the file's extension.
    ExtensionUnsupported { path: String },
    /// A plugin refused the source, or the source is not text.
    TransformFailure { path: String, diagnostic: String },
    /// The file could not be read.
    Io { path: String, cause: String },
    /// The engine refused the source handed to it.
    DecodeFailure { path: String, cause: String },
}

/// A `LoadError` with its texts as character sequences.
pub enum LoadErrorView {
    InvalidPath { path: Seq<char> },
    ExtensionUnsupported { path: Seq<char> },
    TransformFailure { path: Seq<char>, diagnostic: Seq<char> },
    Io { path: Seq<char>, cause: Seq<char> },
    DecodeFailure { path: Seq<char>, cause: Seq<char> },
}

impl View for LoadError {
    type V = LoadErrorView;

    open spec fn view(&self) -> LoadErrorView {
        match self {
            LoadError::InvalidPath { path } => LoadErrorView::InvalidPath { path: path@ },
            LoadError::ExtensionUnsupported { path } => LoadErrorView::ExtensionUnsupported {
                path: path@,
            },
            LoadError::TransformFailure { path, diagnostic } => LoadErrorView::TransformFailure {
                path: path@,
                diagnostic: diagnostic@,
            },
            LoadError::Io { path, cause } => LoadErrorView::Io { path: path@, cause: cause@ },
            LoadError::DecodeFailure { path, cause } => LoadErrorView::DecodeFailure {
                path: path@,
                cause: cause@,
            },
        }
    }
}

/// A plugin binary that could not be compiled, instantiated or queried.
#[derive(Debug, Clone, PartialEq, Eq)]
pub struct PluginInitError {
    pub path: String,
    pub cause: String,
}

/// A `PluginInitError` with its texts as character sequences.
pub struct PluginInitErrorView {
    pub path: Seq<char>,
    pub cause: Seq<char>,
}

impl View for PluginInitError {
    type V = PluginInitErrorView;

    open spec fn view(&self) -> PluginInitErrorView {
        PluginInitErrorView { path: self.path@, cause: self.cause@ }
    }
}

/// What running a script can fail with.
#[derive(Debug, Clone, PartialEq, Eq)]
pub enum EngineError {
    /// Raised by the script itself; the text is the script's own.
    Script { message: String },
    /// The drain loop could not complete the entry point.
    ExecutionFailure { message: String },
}

/// An `EngineError` with its texts as character sequences.
pub enum EngineErrorView {
    Script { message: Seq<char> },
    ExecutionFailure { message: Seq<char> },
}

impl View for EngineError {
    type V = EngineErrorView;

    open spec fn view(&self) -> EngineErrorView {
        match self {
            EngineError::Script { message } => EngineErrorView::Script { message: message@ },
            EngineError::ExecutionFailure { message } => EngineErrorView::ExecutionFailure {
                message: message@,
            },
        }
    }
}

/// The text shown for a `ResolveError`.
pub open spec fn resolve_message(e: ResolveErrorView) -> Seq<char> {
    match e {
        ResolveErrorView::NotFound { base, specifier } => "Error resolving module '"@ + specifier
            + "' from '"@ + base + "': path does not exist"@,
        ResolveErrorView::InvalidPath { specifier } => "Error resolving module '"@ + specifier
            + "': invalid path format"@,
    }
}

/// The diagnostic that a `LoadError` carries: the text of the plugin, of the
/// engine or of the disk where there is one, a fixed text otherwise.
pub open spec fn load_diagnostic(e: LoadErrorView) -> Seq<char> {
    match e {
        LoadErrorView::InvalidPath { .. } => "invalid path"@,
        LoadErrorView::ExtensionUnsupported { .. } => "no loader for file type"@,
        LoadErrorView::TransformFailure { diagnostic, .. } => diagnostic,
        LoadErrorView::Io { cause, .. } => cause,
        LoadErrorView::DecodeFailure { cause, .. } => cause,
    }
}

/// The path that a `LoadError` is about.
pub open spec fn load_path(e: LoadErrorView) -> Seq<char> {
    match e {
        LoadErrorView::InvalidPath { path } => path,
        LoadErrorView::ExtensionUnsupported { path } => path,
        LoadErrorView::TransformFailure { path, .. } => path,
        LoadErrorView::Io { path, .. } => path,
        LoadErrorView::DecodeFailure { path, .. } => path,
    }
}

/// The text shown for a `LoadError`: the path, then the diagnostic.
pub open spec fn load_message(e: LoadErrorView) -> Seq<char> {
    "Error loading module '"@ + load_path(e) + "': "@ + load_diagnostic(e)
}

impl ResolveError {
    /// Renders the error with the specifier and the base that it names.
    pub fn message(&self) -> (r: String)
        ensures
            r@ == resolve_message(self@),
    {
        match self {
            ResolveError::NotFound { base, specifier } => {
                let mut out = String::from_str("Error resolving module '");
                out.append(specifier.as_str());
                out.append("' from '");
                out.append(base.as_str());
                out.append("': path does not exist");
                out
            },
            ResolveError::InvalidPath { specifier } => {
                let mut out = String::from_str("Error resolving module '");
                out.append(specifier.as_str());
                out.append("': invalid path format");
                out
            },
        }
    }
}

impl LoadError {
    /// The path that the error is about.
    pub fn path(&self) -> (r: &String)
        ensures
            r@ == load_path(self@),
    {
        match self {
            LoadError::InvalidPath { path } => path,
            LoadError::ExtensionUnsupported { path } => path,
            LoadError::TransformFailure { path, .. } => path,
            LoadError::Io { path, .. } => path,
            LoadError::DecodeFailure { path, .. } => path,
        }
    }

    /// The diagnostic that the error carries, word for word.
    pub fn diagnostic(&self) -> (r: String)
        ensures
            r@ == load_diagnostic(self@),
    {
        match self {
            LoadError::InvalidPath { .. } => "invalid path".to_owned(),
            LoadError::ExtensionUnsupported { .. } => "no loader for file type".to_owned(),
            LoadError::TransformFailure { diagnostic, .. } => diagnostic.clone(),
            LoadError::Io { cause, .. } => cause.clone(),
            LoadError::DecodeFailure { cause, .. } => cause.clone(),
        }
    }

    /// Renders the error with the path and the underlying diagnostic.
    pub fn message(&self) -> (r: String)
        ensures
            r@ == load_message(self@),
    {
        let mut out = String::from_str("Error loading module '");
        out.append(self.path().as_str());
        out.append("': ");
        out.append(self.diagnostic().as_str());
        out
    }
}

impl PluginInitError {
    /// Renders the error with the path of the plugin that could not be
    /// opened.
    pub fn message(&self) -> (r: String)
        ensures
            r@ == "Error opening plugin '"@ + self.path@ + "': "@ + self.cause@,
    {
        let mut out = String::from_str("Error opening plugin '");
        out.append(self.path.as_str());
        out.append("': ");
        out.append(self.cause.as_str());
        out
    }
}

impl EngineError {
    /// The text of the error: what the script raised, or why the run could
    /// not be completed.
    pub fn message(&self) -> (r: &String)
        ensures
            r@ == (match self@ {
                EngineErrorView::Script { message } => message,
                EngineErrorView::ExecutionFailure { message } => message,
            }),
    {
        match self {
            EngineError::Script { message } => message,
            EngineError::ExecutionFailure { message } => message,
        }
    }
}

} // verus!
