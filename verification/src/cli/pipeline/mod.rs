//! What each output container's pipeline decides.
pub mod flac;
pub mod ts;
