//! A compact binary codec whose byte stream does not describe its own shape.

pub mod de;
pub mod error;
pub mod format;
pub mod laws;
pub mod model;
pub mod ser;
pub mod wire;
