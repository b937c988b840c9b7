//! A verified line-oriented text concatenation library.
//!
//! The crate resolves command tokens into a [`options::Options`] configuration
//! plus an ordered list of file names, and transforms the lines of each file
//! according to that configuration: line numbering, blank-line squeezing,
//! end-of-line markers, tab visualization, and caret/meta escaping of
//! non-printing bytes. Every transformation is specified against a
//! mathematical model and proved; reading files and writing to standard
//! output are left to the surrounding application.

pub mod escape;
pub mod laws;
pub mod lines;
pub mod number;
pub mod options;
pub mod textval;
pub mod transform;
