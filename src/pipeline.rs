//! The payload pipeline: compression framing, file-name rules for carrier
//! images, and the two end-to-end operations.
pub mod compression;
pub mod image;
pub mod operations;
