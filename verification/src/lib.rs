//! `min_loc`: keeps source code short. Given code that is about to be written,
//! it counts its lines of code and runs a session in which a model proposes
//! shorter versions, keeping one only when generated tests still pass on it.
//!
//! - `text`: characters, trimming, searching, replacing, lines and words.
//! - `path`: paths taken apart as `std::path::Path` does on Unix.
//! - `lang`: the languages the tool knows.
//! - `counting`: lines, non-blank lines and non-import lines of code.
//! - `config`: the project configuration and what is read off it.
//! - `testing`: where generated tests go and how a test run is read.
//! - `prompts`: the instructions given to the model.
//! - `compress`: the compression session, as a state machine.
//! - `hook`: the editor hook's request and answer.
use vstd::prelude::*;

pub mod text;
pub mod path;
pub mod lang;
pub mod counting;
pub mod config;
pub mod testing;
pub mod prompts;
pub mod compress;
pub mod hook;

verus! {

} // verus!
