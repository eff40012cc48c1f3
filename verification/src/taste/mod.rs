//! Taste: reading what an agent proposed, what the user kept, and what it says about them.
pub mod parse;
pub mod sidecar;
pub mod timeline;
pub mod compiler;
pub mod extract;
pub mod export;
pub mod show;
pub mod status;
