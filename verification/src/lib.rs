//! ev-grep finds source files from a description of their behavior. This library holds its logic: parsing
//! search targets and line ranges, selecting each file and range once, reading sources without truncating
//! them, framing Jev requests and checking their answers, and the summaries, exit codes and SARIF details a
//! search reports. Reading the disk, walking directories and talking to the network happen around it.

pub mod cli;
pub mod config;
pub mod discovery;
pub mod error;
pub mod json;
pub mod outcome;
pub mod protocol;
pub mod records;
pub mod sarif;
pub mod source;
pub mod summary;
pub mod target;
pub mod text;

pub use config::Provider;
pub use discovery::{Discovery, Identity, Selection};
pub use error::FileError;
pub use outcome::{Outcome, Uncertainty};
pub use source::{
    Focus, Source, SourceRead, MAX_FILE_BYTES, MAX_QUERY_BYTES, read_target, read_text,
};
pub use target::{LineRange, Target, label};
