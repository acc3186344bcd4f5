use crate::cursor::{read_u32, read_u64, u32_at, u64_at};
use crate::error::Error;
use vstd::prelude::*;

verus! {

/// A pinhole camera; a decoded one has a width and a height above zero. Focal lengths and principal point are held as the bit
/// patterns of IEEE-754 doubles, exactly as they stand in the record.
#[derive(Clone, Copy, Debug, PartialEq, Eq)]
pub struct PinholeCamera {
    pub id: u32,
    pub width: u64,
    pub height: u64,
    pub focal_length_x: u64,
    pub focal_length_y: u64,
    pub principal_point_x: u64,
    pub principal_point_y: u64,
}

/// A camera, by model. The pinhole model is the one implemented.
#[derive(Clone, Copy, Debug, PartialEq, Eq)]
pub enum Camera {
    Pinhole(PinholeCamera),
}

/// The model id of the pinhole model in the record layout.
pub const PINHOLE_MODEL_ID: u32 = 1;

impl Camera {
    pub open spec fn spec_id(&self) -> u32 {
        match self {
            Camera::Pinhole(c) => c.id,
        }
    }

    /// The id that the camera record carries.
    pub fn id(&self) -> (r: u32)
        ensures
            r == self.spec_id(),
    {
        match self {
            Camera::Pinhole(c) => c.id,
        }
    }
}

/// The camera record that starts at byte `p` of `s`, and the byte after it:
/// id, model id, width, height, then the model's parameters. A width or a
/// height of zero is refused.
pub open spec fn camera_record(s: Seq<u8>, p: int) -> Result<(Camera, int), Error> {
    if p + 24 > s.len() {
        Err(Error::UnexpectedEof)
    } else if u32_at(s, p + 4) != 1 {
        Err(Error::UnsupportedCameraModel(u32_at(s, p + 4)))
    } else if u64_at(s, p + 8) == 0 || u64_at(s, p + 16) == 0 {
        Err(Error::ZeroCameraSize(u32_at(s, p)))
    } else if p + 56 > s.len() {
        Err(Error::UnexpectedEof)
    } else {
        Ok(
            (
                Camera::Pinhole(
                    PinholeCamera {
                        id: u32_at(s, p),
                        width: u64_at(s, p + 8),
                        height: u64_at(s, p + 16),
                        focal_length_x: u64_at(s, p + 24),
                        focal_length_y: u64_at(s, p + 32),
                        principal_point_x: u64_at(s, p + 40),
                        principal_point_y: u64_at(s, p + 48),
                    },
                ),
                p + 56,
            ),
        )
    }
}

impl Camera {
    /// Decodes the camera record at `pos`. On success the position of the next
    /// record comes back with it.
    pub fn decode(bytes: &[u8], pos: usize) -> (r: Result<(Camera, usize), Error>)
        requires
            pos <= bytes@.len(),
        ensures
            match camera_record(bytes@, pos as int) {
                Ok((c, end)) => r is Ok && r->Ok_0.0 == c && r->Ok_0.1 == end,
                Err(e) => r == Err::<(Camera, usize), Error>(e),
            },
            r matches Ok((Camera::Pinhole(c), _)) ==> c.width > 0 && c.height > 0,
    {
        let (id, p) = read_u32(bytes, pos)?;
        let (model_id, p) = read_u32(bytes, p)?;
        let (width, p) = read_u64(bytes, p)?;
        let (height, p) = read_u64(bytes, p)?;
        if model_id != PINHOLE_MODEL_ID {
            return Err(Error::UnsupportedCameraModel(model_id));
        }
        if width == 0 || height == 0 {
            return Err(Error::ZeroCameraSize(id));
        }
        let (focal_length_x, p) = read_u64(bytes, p)?;
        let (focal_length_y, p) = read_u64(bytes, p)?;
        let (principal_point_x, p) = read_u64(bytes, p)?;
        let (principal_point_y, p) = read_u64(bytes, p)?;
        Ok(
            (
                Camera::Pinhole(
                    PinholeCamera {
                        id,
                        width,
                        height,
                        focal_length_x,
                        focal_length_y,
                        principal_point_x,
                        principal_point_y,
                    },
                ),
                p,
            ),
        )
    }
}

} // verus!
