//! The error type of the command layer, and the `{ kind, message }` shape the
//! frontend pattern-matches on. Errors raised by outside code arrive here
//! already rendered as text.

use crate::text::{push_str, string_of};
use vstd::prelude::*;

verus! {

#[derive(Debug, Clone)]
pub enum AppError {
    PromptNotFound(String),
    NoSourcePath { id: String },
    LibraryRootUnresolved,
    InvalidArg(String),
    Parse(String),
    Yaml(String),
    /// `path` is the path as `{:?}` renders it.
    Io { path: String, source: String },
    BareIo(String),
    Notify(String),
    Tauri(String),
    Enigo(String),
    Internal(String),
    UpdaterUnavailable(String),
    UpdaterCheckFailed(String),
    UpdaterInstallFailed(String),
    UpdaterNoUpdateAvailable,
}

impl AppError {
    pub open spec fn spec_kind(&self) -> Seq<char> {
        match self {
            AppError::PromptNotFound(_) => "prompt-not-found"@,
            AppError::NoSourcePath { .. } => "no-source-path"@,
            AppError::LibraryRootUnresolved => "library-root-unresolved"@,
            AppError::InvalidArg(_) => "invalid-arg"@,
            AppError::Parse(_) => "parse"@,
            AppError::Yaml(_) => "yaml"@,
            AppError::Io { .. } => "io"@,
            AppError::BareIo(_) => "io"@,
            AppError::Notify(_) => "notify"@,
            AppError::Tauri(_) => "tauri"@,
            AppError::Enigo(_) => "enigo"@,
            AppError::Internal(_) => "internal"@,
            AppError::UpdaterUnavailable(_) => "updater-unavailable"@,
            AppError::UpdaterCheckFailed(_) => "updater-check-failed"@,
            AppError::UpdaterInstallFailed(_) => "updater-install-failed"@,
            AppError::UpdaterNoUpdateAvailable => "updater-no-update-available"@,
        }
    }

    /// Stable kebab-case discriminant for the frontend.
    pub fn kind(&self) -> (r: &'static str)
        ensures
            r@ == self.spec_kind(),
    {
        match self {
            AppError::PromptNotFound(_) => "prompt-not-found",
            AppError::NoSourcePath { .. } => "no-source-path",
            AppError::LibraryRootUnresolved => "library-root-unresolved",
            AppError::InvalidArg(_) => "invalid-arg",
            AppError::Parse(_) => "parse",
            AppError::Yaml(_) => "yaml",
            AppError::Io { .. } | AppError::BareIo(_) => "io",
            AppError::Notify(_) => "notify",
            AppError::Tauri(_) => "tauri",
            AppError::Enigo(_) => "enigo",
            AppError::Internal(_) => "internal",
            AppError::UpdaterUnavailable(_) => "updater-unavailable",
            AppError::UpdaterCheckFailed(_) => "updater-check-failed",
            AppError::UpdaterInstallFailed(_) => "updater-install-failed",
            AppError::UpdaterNoUpdateAvailable => "updater-no-update-available",
        }
    }

    pub open spec fn spec_message(&self) -> Seq<char> {
        match self {
            AppError::PromptNotFound(s) => "prompt "@ + s@ + " not found"@,
            AppError::NoSourcePath { id } => "prompt "@ + id@ + " has no source path on disk"@,
            AppError::LibraryRootUnresolved => "could not resolve library root"@,
            AppError::InvalidArg(s) => "invalid argument: "@ + s@,
            AppError::Parse(s) => "parse error: "@ + s@,
            AppError::Yaml(s) => "yaml: "@ + s@,
            AppError::Io { path, source } => "io error on "@ + path@ + ": "@ + source@,
            AppError::BareIo(s) => "io: "@ + s@,
            AppError::Notify(s) => "notify: "@ + s@,
            AppError::Tauri(s) => "tauri: "@ + s@,
            AppError::Enigo(s) => "enigo: "@ + s@,
            AppError::Internal(s) => "internal: "@ + s@,
            AppError::UpdaterUnavailable(s) => "updater unavailable: "@ + s@,
            AppError::UpdaterCheckFailed(s) => "update check failed: "@ + s@,
            AppError::UpdaterInstallFailed(s) => "update install failed: "@ + s@,
            AppError::UpdaterNoUpdateAvailable => "no update available"@,
        }
    }

    /// The human-readable message.
    pub fn message(&self) -> (r: String)
        ensures
            r@ == self.spec_message(),
    {
        let mut out: Vec<char> = Vec::new();
        match self {
            AppError::PromptNotFound(s) => {
                push_str(&mut out, "prompt ");
                push_str(&mut out, s.as_str());
                push_str(&mut out, " not found");
            },
            AppError::NoSourcePath { id } => {
                push_str(&mut out, "prompt ");
                push_str(&mut out, id.as_str());
                push_str(&mut out, " has no source path on disk");
            },
            AppError::LibraryRootUnresolved => {
                push_str(&mut out, "could not resolve library root");
            },
            AppError::InvalidArg(s) => {
                push_str(&mut out, "invalid argument: ");
                push_str(&mut out, s.as_str());
            },
            AppError::Parse(s) => {
                push_str(&mut out, "parse error: ");
                push_str(&mut out, s.as_str());
            },
            AppError::Yaml(s) => {
                push_str(&mut out, "yaml: ");
                push_str(&mut out, s.as_str());
            },
            AppError::Io { path, source } => {
                push_str(&mut out, "io error on ");
                push_str(&mut out, path.as_str());
                push_str(&mut out, ": ");
                push_str(&mut out, source.as_str());
            },
            AppError::BareIo(s) => {
                push_str(&mut out, "io: ");
                push_str(&mut out, s.as_str());
            },
            AppError::Notify(s) => {
                push_str(&mut out, "notify: ");
                push_str(&mut out, s.as_str());
            },
            AppError::Tauri(s) => {
                push_str(&mut out, "tauri: ");
                push_str(&mut out, s.as_str());
            },
            AppError::Enigo(s) => {
                push_str(&mut out, "enigo: ");
                push_str(&mut out, s.as_str());
            },
            AppError::Internal(s) => {
                push_str(&mut out, "internal: ");
                push_str(&mut out, s.as_str());
            },
            AppError::UpdaterUnavailable(s) => {
                push_str(&mut out, "updater unavailable: ");
                push_str(&mut out, s.as_str());
            },
            AppError::UpdaterCheckFailed(s) => {
                push_str(&mut out, "update check failed: ");
                push_str(&mut out, s.as_str());
            },
            AppError::UpdaterInstallFailed(s) => {
                push_str(&mut out, "update install failed: ");
                push_str(&mut out, s.as_str());
            },
            AppError::UpdaterNoUpdateAvailable => {
                push_str(&mut out, "no update available");
            },
        }
        string_of(&out)
    }
}

/// Every kind is kebab-case: lowercase ASCII letters and `-` only.
pub proof fn lemma_kind_is_kebab(e: AppError)
    ensures
        forall|i: int|
            0 <= i < e.spec_kind().len() ==> ('a' <= #[trigger] e.spec_kind()[i] <= 'z'
                || e.spec_kind()[i] == '-'),
{
    reveal_strlit("prompt-not-found");
    reveal_strlit("no-source-path");
    reveal_strlit("library-root-unresolved");
    reveal_strlit("invalid-arg");
    reveal_strlit("parse");
    reveal_strlit("yaml");
    reveal_strlit("io");
    reveal_strlit("notify");
    reveal_strlit("tauri");
    reveal_strlit("enigo");
    reveal_strlit("internal");
    reveal_strlit("updater-unavailable");
    reveal_strlit("updater-check-failed");
    reveal_strlit("updater-install-failed");
    reveal_strlit("updater-no-update-available");
}

/// The error as the frontend receives it.
#[derive(Debug, Clone)]
pub struct IpcError {
    pub kind: String,
    pub message: String,
}

impl IpcError {
    /// `{ kind, message }` of an error.
    pub fn from_error(e: &AppError) -> (r: IpcError)
        ensures
            r.kind@ == e.spec_kind(),
            r.message@ == e.spec_message(),
    {
        IpcError { kind: crate::text::owned(e.kind()), message: e.message() }
    }
}

} // verus!
