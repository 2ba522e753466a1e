//! Disk synchronisation and three-way merging for a markdown editor: line
//! merges with conflict grouping, the state machine that watches a file and
//! reconciles it with local edits, the decisions behind stable reads, atomic
//! writes and merge sidecars, and markdown formatting after editorconfig.

pub mod disk;
pub mod editing;
pub mod editorconfig;
pub mod fence;
pub mod format;
pub mod merge;
pub mod sync;
pub mod text;
