use crate::cursor::{advance, read_u32, read_u64, read_u8, u32_at, u64_at};
use crate::error::Error;
use vstd::prelude::*;
use vstd::utf8::{decode_utf8, valid_utf8};

verus! {

/// The pose record of one image. Quaternion (w, x, y, z) and translation are
/// held as the bit patterns of IEEE-754 doubles, exactly as they stand in the
/// record; the keypoints that follow the file name are skipped.
#[derive(Clone, Debug, PartialEq)]
pub struct ImagePose {
    pub image_id: u32,
    pub camera_id: u32,
    pub quaternion: [u64; 4],
    pub translation: [u64; 3],
    pub file_name: String,
}

/// What an image pose holds, as sequences.
pub struct ImagePoseView {
    pub image_id: u32,
    pub camera_id: u32,
    pub quaternion: Seq<u64>,
    pub translation: Seq<u64>,
    pub file_name: Seq<char>,
}

impl View for ImagePose {
    type V = ImagePoseView;

    open spec fn view(&self) -> ImagePoseView {
        ImagePoseView {
            image_id: self.image_id,
            camera_id: self.camera_id,
            quaternion: self.quaternion@,
            translation: self.translation@,
            file_name: self.file_name@,
        }
    }
}

/// Bytes of an image record before its file name: image id, quaternion,
/// translation and camera id.
pub const POSE_HEADER_LEN: usize = 64;

/// Bytes of one keypoint: two coordinates and a point id, eight bytes each.
pub const KEYPOINT_LEN: u64 = 24;

/// The first index at or after `p` that holds a zero byte, or `s.len()`.
pub open spec fn nul_from(s: Seq<u8>, p: int) -> int
    decreases s.len() - p,
{
    if p < 0 || p >= s.len() {
        s.len() as int
    } else if s[p] == 0 {
        p
    } else {
        nul_from(s, p + 1)
    }
}

/// The image record that starts at byte `p` of `s`, and the byte after it:
/// the fixed fields, a zero-terminated UTF-8 file name, a keypoint count and
/// that many keypoints.
pub open spec fn pose_record(s: Seq<u8>, p: int) -> Result<(ImagePoseView, int), Error> {
    if p + 64 > s.len() {
        Err(Error::UnexpectedEof)
    } else {
        let n = nul_from(s, p + 64);
        let name = s.subrange(p + 64, n);
        if n >= s.len() {
            Err(Error::UnexpectedEof)
        } else if !valid_utf8(name) {
            Err(Error::InvalidFileName)
        } else if n + 9 > s.len() {
            Err(Error::UnexpectedEof)
        } else {
            let end = n + 9 + 24 * u64_at(s, n + 1);
            if end > s.len() {
                Err(Error::UnexpectedEof)
            } else {
                Ok(
                    (
                        ImagePoseView {
                            image_id: u32_at(s, p),
                            quaternion: seq![
                                u64_at(s, p + 4),
                                u64_at(s, p + 12),
                                u64_at(s, p + 20),
                                u64_at(s, p + 28),
                            ],
                            translation: seq![
                                u64_at(s, p + 36),
                                u64_at(s, p + 44),
                                u64_at(s, p + 52),
                            ],
                            camera_id: u32_at(s, p + 60),
                            file_name: decode_utf8(name),
                        },
                        end,
                    ),
                )
            }
        }
    }
}

/// Relies on `String::from_utf8`: it succeeds exactly on valid UTF-8, and the
/// string then holds the decoded characters.
#[verifier::external_body]
fn string_from_utf8(bytes: Vec<u8>) -> (r: Option<String>)
    ensures
        match r {
            Some(t) => valid_utf8(bytes@) && t@ == decode_utf8(bytes@),
            None => !valid_utf8(bytes@),
        },
{
    String::from_utf8(bytes).ok()
}

/// Copies the bytes from `pos` up to the first zero byte; the zero's index
/// comes back with them.
fn read_until_nul(bytes: &[u8], pos: usize) -> (r: (Vec<u8>, usize))
    requires
        pos <= bytes@.len(),
    ensures
        r.1 == nul_from(bytes@, pos as int),
        r.0@ == bytes@.subrange(pos as int, r.1 as int),
{
    let mut out: Vec<u8> = Vec::new();
    let mut i: usize = pos;
    while i < bytes.len() && bytes[i] != 0
        invariant
            pos <= i <= bytes@.len(),
            nul_from(bytes@, pos as int) == nul_from(bytes@, i as int),
            out@ == bytes@.subrange(pos as int, i as int),
        decreases bytes@.len() - i,
    {
        out.push(bytes[i]);
        i = i + 1;
        assert(out@ =~= bytes@.subrange(pos as int, i as int));
    }
    (out, i)
}

impl ImagePose {
    /// A copy of the pose, field by field.
    pub fn duplicate(&self) -> (r: ImagePose)
        ensures
            r@ == self@,
    {
        ImagePose {
            image_id: self.image_id,
            camera_id: self.camera_id,
            quaternion: self.quaternion,
            translation: self.translation,
            file_name: self.file_name.clone(),
        }
    }

    /// Decodes the image record at `pos`. On success the position of the next
    /// record comes back with it.
    pub fn decode(bytes: &[u8], pos: usize) -> (r: Result<(ImagePose, usize), Error>)
        requires
            pos <= bytes@.len(),
        ensures
            match pose_record(bytes@, pos as int) {
                Ok((v, end)) => r is Ok && r->Ok_0.0@ == v && r->Ok_0.1 == end,
                Err(e) => r == Err::<(ImagePose, usize), Error>(e),
            },
    {
        if bytes.len() - pos < POSE_HEADER_LEN {
            return Err(Error::UnexpectedEof);
        }
        let (image_id, p) = read_u32(bytes, pos)?;
        let (qw, p) = read_u64(bytes, p)?;
        let (qx, p) = read_u64(bytes, p)?;
        let (qy, p) = read_u64(bytes, p)?;
        let (qz, p) = read_u64(bytes, p)?;
        let (tx, p) = read_u64(bytes, p)?;
        let (ty, p) = read_u64(bytes, p)?;
        let (tz, p) = read_u64(bytes, p)?;
        let (camera_id, p) = read_u32(bytes, p)?;
        let (name, n) = read_until_nul(bytes, p);
        let (_, p) = read_u8(bytes, n)?;
        let file_name = match string_from_utf8(name) {
            Some(t) => t,
            None => return Err(Error::InvalidFileName),
        };
        let (keypoints, p) = read_u64(bytes, p)?;
        if keypoints > (bytes.len() - p) as u64 / KEYPOINT_LEN {
            return Err(Error::UnexpectedEof);
        }
        let p = advance(bytes, p, KEYPOINT_LEN * keypoints)?;
        let pose = ImagePose {
            image_id,
            camera_id,
            quaternion: [qw, qx, qy, qz],
            translation: [tx, ty, tz],
            file_name,
        };
        assert(pose@.quaternion =~= seq![qw, qx, qy, qz]);
        assert(pose@.translation =~= seq![tx, ty, tz]);
        Ok((pose, p))
    }
}

} // verus!
