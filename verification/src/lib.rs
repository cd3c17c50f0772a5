//! Rules for organising media files into a library tree.
//!
//! Video and subtitle files are hard-linked from wherever they lie into a
//! tidy tree of shows and seasons. This crate holds every decision of that
//! work and none of its I/O: how names and paths are made safe, where a file
//! goes, in what order the file system is asked before a link is made, what
//! to do when the place is taken, and how the outcome of a batch is summed
//! up. The program around the crate asks the file system what the crate
//! wants to know and carries out what it decides.
//!
//! Texts are modelled as sequences of characters, and every function states
//! what it computes over that model.
//!
//! - `text`: strings as character sequences, UTF-8 lengths, numerals.
//! - `sanitize`: making a single name safe.
//! - `paths`: paths as text, and making a path safe component by component.
//! - `season`: season numbers and season folders.
//! - `link`: the engine that links one file.
//! - `conflict`: what to do when a target exists.
//! - `batch`: planning a batch and summing it up.
//! - `files`: what is shown of files and directories.
//! - `metadata`: what a file name says about an episode.
//! - `config`: the settings.
//! - `logs`: the bounded log.

pub mod batch;
pub mod config;
pub mod conflict;
pub mod files;
pub mod link;
pub mod logs;
pub mod metadata;
pub mod paths;
pub mod sanitize;
pub mod season;
pub mod text;
