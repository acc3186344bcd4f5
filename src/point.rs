use crate::cursor::{advance, read_u64, read_u8, u64_at};
use crate::error::Error;
use vstd::prelude::*;

verus! {

/// A point of the sparse cloud. The coordinates are held as the bit patterns
/// of IEEE-754 doubles, exactly as they stand in the record.
#[derive(Clone, Copy, Debug, PartialEq)]
pub struct Point {
    pub position: [u64; 3],
    pub color: [u8; 3],
}

/// What a point holds, as sequences.
pub struct PointView {
    pub position: Seq<u64>,
    pub color: Seq<u8>,
}

impl View for Point {
    type V = PointView;

    open spec fn view(&self) -> PointView {
        PointView { position: self.position@, color: self.color@ }
    }
}

/// Bytes of a point record before its track: id, position, color, error and
/// track length.
pub const POINT_HEADER_LEN: usize = 51;

/// Bytes of one track entry: an image id and a keypoint index, four bytes each.
pub const TRACK_ENTRY_LEN: u64 = 8;

/// The point record that starts at byte `p` of `s`, and the byte after it.
pub open spec fn point_record(s: Seq<u8>, p: int) -> Result<(PointView, int), Error> {
    if p + 51 > s.len() {
        Err(Error::UnexpectedEof)
    } else {
        let end = p + 51 + 8 * u64_at(s, p + 43);
        if end > s.len() {
            Err(Error::UnexpectedEof)
        } else {
            Ok(
                (
                    PointView {
                        position: seq![u64_at(s, p + 8), u64_at(s, p + 16), u64_at(s, p + 24)],
                        color: seq![s[p + 32], s[p + 33], s[p + 34]],
                    },
                    end,
                ),
            )
        }
    }
}

impl Point {
    /// Decodes the point record at `pos`. On success the position of the next
    /// record comes back with it.
    pub fn decode(bytes: &[u8], pos: usize) -> (r: Result<(Point, usize), Error>)
        requires
            pos <= bytes@.len(),
        ensures
            match point_record(bytes@, pos as int) {
                Ok((v, end)) => r is Ok && r->Ok_0.0@ == v && r->Ok_0.1 == end,
                Err(e) => r == Err::<(Point, usize), Error>(e),
            },
    {
        if bytes.len() - pos < POINT_HEADER_LEN {
            return Err(Error::UnexpectedEof);
        }
        let p = advance(bytes, pos, 8)?;
        let (x, p) = read_u64(bytes, p)?;
        let (y, p) = read_u64(bytes, p)?;
        let (z, p) = read_u64(bytes, p)?;
        let (red, p) = read_u8(bytes, p)?;
        let (green, p) = read_u8(bytes, p)?;
        let (blue, p) = read_u8(bytes, p)?;
        let p = advance(bytes, p, 8)?;
        let (track_len, p) = read_u64(bytes, p)?;
        if track_len > (bytes.len() - p) as u64 / TRACK_ENTRY_LEN {
            return Err(Error::UnexpectedEof);
        }
        let p = advance(bytes, p, TRACK_ENTRY_LEN * track_len)?;
        let point = Point { position: [x, y, z], color: [red, green, blue] };
        assert(point@.position =~= seq![x, y, z]);
        assert(point@.color =~= seq![red, green, blue]);
        Ok((point, p))
    }
}

} // verus!
