//! Project bootstrap logic: toolchain checks and dependency manifest rewriting.

pub mod command;
pub mod manifest;
pub mod registry;
pub mod text;
pub mod toolchain;
pub mod version;
