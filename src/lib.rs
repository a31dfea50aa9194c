//! Finds hard-coded text of a chosen script (CJK ideographs by default) in the
//! string literals, template segments and markup text of JavaScript and
//! TypeScript sources, and reports where each occurrence starts.

pub mod position;
pub mod matcher;
pub mod extract;
pub mod dialect;
pub mod exclude;
pub mod scan;

pub use dialect::{classify_extension, Dialect};
pub use exclude::exclude_patterns;
pub use extract::ScanResult;
pub use matcher::{MatcherError, ScriptMatcher};
pub use position::get_line_col;
pub use scan::{scan_candidates, Candidate, CandidateKind};
