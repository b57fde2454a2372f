//! Descriptions of the resources a render driver creates (buffers, textures,
//! shaders, pipelines), the format tables a driver reads them with, the
//! slot table a driver keeps its resources in, and geometry batching.

pub mod attributes;
pub mod buffer;
pub mod texture;
pub mod pipeline;
pub mod formats;
pub mod resources;
pub mod batch;
