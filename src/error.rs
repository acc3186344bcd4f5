use vstd::prelude::*;

verus! {

/// Every way in which decoding or assembling a dataset can fail.
#[derive(Clone, Debug, PartialEq, Eq)]
pub enum Error {
    /// The byte stream ended inside a record.
    UnexpectedEof,
    /// A camera record names a model other than the pinhole model.
    UnsupportedCameraModel(u32),
    /// A camera record gives a width or a height of zero; the camera's id.
    ZeroCameraSize(u32),
    /// An image record holds a file name that is not UTF-8.
    InvalidFileName,
    /// An image refers to a camera id that no camera record carries.
    UnknownCameraId(u32),
    /// An image refers to a file name that the registry does not hold (any longer).
    UnknownFileName(String),
    /// The image codec rejected an encoded image; the codec's message.
    ImageCodec(String),
}

} // verus!
