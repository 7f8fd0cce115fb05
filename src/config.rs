//! The configuration record of one application and the catalogue built
//! from it.
use crate::pattern::ProfileRegex;
use vstd::prelude::*;

verus! {

/// One application definition, as decoded from its configuration document.
pub struct Ron {
    pub shorthand: String,
    pub cmd: String,
    pub args: String,
    pub profile_dirs: Vec<String>,
    /// When set, each profile directory is scanned by the content of this
    /// file instead of by the names of its files.
    pub profile_filename: Option<String>,
    pub profile_regex: ProfileRegex,
    pub opt_entries: Option<Vec<OptEntry>>,
    pub icon: Option<String>,
}

/// An entry declared in the configuration instead of found by scanning.
pub struct OptEntry {
    pub name: String,
    pub desc: Option<String>,
    pub cmd: Option<String>,
    pub args: Option<String>,
}

/// One application of the catalogue with its profiles.
pub struct AppConfig {
    /// The base name of the configuration document.
    pub name: String,
    pub conf: Ron,
    pub entries: Vec<AppEntry>,
}

/// One launchable profile.
pub struct AppEntry {
    pub name: String,
    /// Empty when the default description applies.
    pub desc: String,
    /// The launch line, passed to a shell on activation.
    pub cmd: String,
}

pub struct EntryView {
    pub name: Seq<char>,
    pub desc: Seq<char>,
    pub cmd: Seq<char>,
}

impl View for AppEntry {
    type V = EntryView;

    open spec fn view(&self) -> EntryView {
        EntryView { name: self.name@, desc: self.desc@, cmd: self.cmd@ }
    }
}

pub open spec fn entries_view(v: Seq<AppEntry>) -> Seq<EntryView> {
    v.map_values(|e: AppEntry| e@)
}

/// Why loading the catalogue failed.
#[derive(Debug)]
pub enum LoadError {
    /// A configuration document could not be decoded.
    Malformed(String),
    /// A profile directory is relative to a home directory that is unknown.
    NoHome,
    /// A directory or file could not be read.
    Io(String),
    /// A match of a profile pattern has no capture group 1.
    MissingCaptureGroup,
}

} // verus!
