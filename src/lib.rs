//! Discovery of video4linux device nodes and resolution of their identity
//! through the per-subsystem metadata tree.
pub mod decimal;
pub mod discovery;
pub mod laws;
pub mod name;
pub mod node;
pub mod path_text;
