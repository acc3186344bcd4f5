//! Import of a sparse reconstruction exported in COLMAP's binary layout:
//! record decoders for cameras, image poses and points, the collections they
//! fill, a consume-once registry of encoded image files, and the join that
//! resolves every image against its camera and its file.
pub mod assembly;
pub mod camera;
pub mod collections;
pub mod cursor;
pub mod error;
pub mod files;
pub mod laws;
pub mod loaders;
pub mod point;
pub mod pose;
pub mod scene;

pub use error::Error;
