//! The library's error taxonomy. Each variant carries only what a log line needs.

use vstd::prelude::*;

verus! {

#[derive(Debug, Clone, PartialEq, Eq)]
pub enum SplitterError {
    /// Configuration could not be loaded (the message of the cause).
    LoadConfig(String),
    /// The store could not be opened or queried (the message of the cause).
    OpenDatabase(String),
    /// The base folder or the input file does not exist (the input path).
    NotFound(String),
    /// The input path exists but is not a regular file (the input path).
    InvalidInputFile(String),
    /// The output folder could not be created (the message of the cause).
    CreateFolder(String),
    /// A file could not be read (the message of the cause).
    Read(String),
    /// A file could not be written, removed or renamed (the message of the cause).
    Write(String),
    /// A path could not be made canonical (the message of the cause).
    Canonicalize(String),
    /// A path is not valid text (the path, lossily converted).
    PathToString(String),
    /// The encoder process could not be run (the message of the cause).
    FfmpegCommand(String),
    /// A duration in the manifest could not be read (index of the line, from 0).
    PlaylistParse(usize),
    /// The manifest named no part at all.
    PlaylistEmpty,
    /// A merge was asked of fewer than two parts.
    JoinRequiresAtLeastTwoParts,
}

} // verus!
