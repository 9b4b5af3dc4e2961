//! correo — a lint for Japanese technical prose.
pub mod text;
pub mod numfmt;
pub mod wide;
pub mod double;
pub mod unicode;
pub mod report;
pub mod rhetoric;
pub mod rhythm;
pub mod kinoshita;
pub mod prose;
pub mod suppress;
pub mod structure;
pub mod calque;
pub mod check;
pub mod coinage;
pub mod codemix;
pub mod completeness;
pub mod config;
pub mod counter;
pub mod density;
pub mod deny;
pub mod notation;
pub mod jargon;
pub mod latin_token;
pub mod pipeline;
