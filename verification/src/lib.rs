//! Extraction of environment-variable bindings written in Bash syntax.
//!
//! The actual shell semantics are delegated to a helper interpreter script
//! run as a subprocess; this crate resolves the input source, provisions the
//! helper script on disk, invokes it, decodes its JSON reply, and merges the
//! reported variables into an ordered output record.

pub mod decode;
pub mod errors;
pub mod invoke;
pub mod pipeline;
pub mod record;
pub mod script;
pub mod source;
