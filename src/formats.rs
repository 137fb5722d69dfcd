//! The kinds of files the application reads, and the names and extensions
//! under which they are offered.

use vstd::prelude::*;

verus! {

/// The available import formats
#[derive(Debug, Clone, Copy, PartialEq, Eq, Hash, Structural)]
pub enum ImportFormat {
    /// The MQT neutral-atom format
    MQTNA,
}

impl ImportFormat {
    /// A human-readable name of this [ImportFormat]
    pub fn name(&self) -> (r: &'static str)
        ensures
            r@ == "mqt na"@,
    {
        match self {
            ImportFormat::MQTNA => "mqt na",
        }
    }

    /// The file-extensions commonly used by this [ImportFormat]
    pub fn file_extensions(&self) -> (r: Vec<&'static str>)
        ensures
            r@.len() == 1,
            r@[0]@ == "na"@,
    {
        match self {
            ImportFormat::MQTNA => vec!["na"],
        }
    }
}

/// The available file types for opening
#[derive(Debug, Clone, Copy, PartialEq, Eq, Structural)]
pub enum FileType {
    Instructions,
    Machine,
    Style,
}

/// Something which can be used to filter files by extension
pub trait FileFilter {
    /// The name of this filter
    fn name(&self) -> &'static str;

    /// Allowed extensions
    fn extensions(&self) -> Vec<&'static str>;
}

impl FileFilter for FileType {
    fn name(&self) -> &'static str {
        match self {
            FileType::Instructions => "NAViz instructions",
            FileType::Machine => "NAViz machine",
            FileType::Style => "NAViz style",
        }
    }

    fn extensions(&self) -> Vec<&'static str> {
        match self {
            FileType::Instructions => vec!["naviz"],
            FileType::Machine => vec!["namachine"],
            FileType::Style => vec!["nastyle"],
        }
    }
}

impl FileFilter for ImportFormat {
    fn name(&self) -> &'static str {
        self.name()
    }

    fn extensions(&self) -> Vec<&'static str> {
        self.file_extensions()
    }
}

/// Something that is either specified by an `id` from a repository or
/// loaded manually.
#[derive(Debug, Clone, Copy, PartialEq, Eq)]
pub enum IdOrManual<ID, MAN> {
    Id(ID),
    Manual(MAN),
}

} // verus!
