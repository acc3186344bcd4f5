use crate::camera::{camera_record, Camera};
use crate::collections::{with_pose, Cameras, Images};
use crate::cursor::{read_u64, u64_at};
use crate::error::Error;
use crate::point::{point_record, Point, PointView};
use crate::pose::{pose_record, ImagePose, ImagePoseView};
use vstd::prelude::*;

verus! {

/// `xs` in front of the records of `r`, or the error of `r`.
pub open spec fn prepend<T>(xs: Seq<T>, r: Result<Seq<T>, Error>) -> Result<Seq<T>, Error> {
    match r {
        Ok(ys) => Ok(xs + ys),
        Err(e) => Err(e),
    }
}

proof fn lemma_prepend_push<T>(xs: Seq<T>, x: T, r: Result<Seq<T>, Error>)
    ensures
        prepend(xs, prepend(seq![x], r)) == prepend(xs.push(x), r),
{
    if r is Ok {
        assert(xs + (seq![x] + r->Ok_0) =~= xs.push(x) + r->Ok_0);
    }
}

/// The `n` point records that follow one another from byte `p` of `s`.
pub open spec fn point_records(s: Seq<u8>, p: int, n: nat) -> Result<Seq<PointView>, Error>
    decreases n,
{
    if n == 0 {
        Ok(Seq::empty())
    } else {
        match point_record(s, p) {
            Ok((v, q)) => if q > p {
                prepend(seq![v], point_records(s, q, (n - 1) as nat))
            } else {
                Err(Error::UnexpectedEof)
            },
            Err(e) => Err(e),
        }
    }
}

/// The `n` camera records that follow one another from byte `p` of `s`.
pub open spec fn camera_records(s: Seq<u8>, p: int, n: nat) -> Result<Seq<Camera>, Error>
    decreases n,
{
    if n == 0 {
        Ok(Seq::empty())
    } else {
        match camera_record(s, p) {
            Ok((c, q)) => if q > p {
                prepend(seq![c], camera_records(s, q, (n - 1) as nat))
            } else {
                Err(Error::UnexpectedEof)
            },
            Err(e) => Err(e),
        }
    }
}

/// The `n` image records that follow one another from byte `p` of `s`.
pub open spec fn pose_records(s: Seq<u8>, p: int, n: nat) -> Result<Seq<ImagePoseView>, Error>
    decreases n,
{
    if n == 0 {
        Ok(Seq::empty())
    } else {
        match pose_record(s, p) {
            Ok((v, q)) => if q > p {
                prepend(seq![v], pose_records(s, q, (n - 1) as nat))
            } else {
                Err(Error::UnexpectedEof)
            },
            Err(e) => Err(e),
        }
    }
}

/// A file of records: a little-endian `u64` count, then that many records.
pub open spec fn counted<T>(
    s: Seq<u8>,
    records: spec_fn(Seq<u8>, int, nat) -> Result<Seq<T>, Error>,
) -> Result<Seq<T>, Error> {
    if s.len() < 8 {
        Err(Error::UnexpectedEof)
    } else {
        records(s, 8, u64_at(s, 0) as nat)
    }
}

/// The cameras of a sequence of records, later ones replacing earlier ones
/// with the same id.
pub open spec fn camera_map(cs: Seq<Camera>) -> Map<u32, Camera>
    decreases cs.len(),
{
    if cs.len() == 0 {
        Map::empty()
    } else {
        camera_map(cs.drop_last()).insert(cs.last().spec_id(), cs.last())
    }
}

/// The poses of a sequence of records, inserted one by one.
pub open spec fn pose_seq(ps: Seq<ImagePoseView>) -> Seq<ImagePoseView>
    decreases ps.len(),
{
    if ps.len() == 0 {
        Seq::empty()
    } else {
        with_pose(pose_seq(ps.drop_last()), ps.last())
    }
}

/// Decodes a points file: a count, then that many point records.
pub fn decode_points(bytes: &[u8]) -> (r: Result<Vec<Point>, Error>)
    ensures
        match counted(bytes@, |s, p, n| point_records(s, p, n)) {
            Ok(vs) => r is Ok && r->Ok_0@.map_values(|x: Point| x@) == vs,
            Err(e) => r == Err::<Vec<Point>, Error>(e),
        },
{
    let (count, mut p) = match read_u64(bytes, 0) {
        Ok(v) => v,
        Err(e) => return Err(e),
    };
    let mut out: Vec<Point> = Vec::new();
    let mut i: u64 = 0;
    while i < count
        invariant
            8 <= p <= bytes@.len(),
            i <= count,
            count == u64_at(bytes@, 0),
            point_records(bytes@, 8, count as nat) == prepend(
                out@.map_values(|x: Point| x@),
                point_records(bytes@, p as int, (count - i) as nat),
            ),
        decreases count - i,
    {
        let ghost done = out@.map_values(|x: Point| x@);
        let (point, q) = match Point::decode(bytes, p) {
            Ok(v) => v,
            Err(e) => return Err(e),
        };
        if q <= p {
            return Err(Error::UnexpectedEof);
        }
        proof {
            lemma_prepend_push(done, point@, point_records(bytes@, q as int, (count - i - 1) as nat));
        }
        out.push(point);
        assert(out@.map_values(|x: Point| x@) =~= done.push(point@));
        p = q;
        i = i + 1;
    }
    assert(out@.map_values(|x: Point| x@) + Seq::<PointView>::empty() =~= out@.map_values(
        |x: Point| x@,
    ));
    Ok(out)
}

impl Cameras {
    /// Decodes a cameras file: a count, then that many camera records.
    pub fn decode(bytes: &[u8]) -> (r: Result<Cameras, Error>)
        ensures
            match counted(bytes@, |s, p, n| camera_records(s, p, n)) {
                Ok(cs) => r is Ok && r->Ok_0@ == camera_map(cs),
                Err(e) => r is Err && r->Err_0 == e,
            },
    {
        let (count, mut p) = match read_u64(bytes, 0) {
            Ok(v) => v,
            Err(e) => return Err(e),
        };
        let mut out = Cameras::new();
        let ghost mut done: Seq<Camera> = Seq::empty();
        let mut i: u64 = 0;
        while i < count
            invariant
                8 <= p <= bytes@.len(),
                i <= count,
                count == u64_at(bytes@, 0),
                out@ == camera_map(done),
                camera_records(bytes@, 8, count as nat) == prepend(
                    done,
                    camera_records(bytes@, p as int, (count - i) as nat),
                ),
            decreases count - i,
        {
            let (camera, q) = match Camera::decode(bytes, p) {
                Ok(v) => v,
                Err(e) => return Err(e),
            };
            if q <= p {
                return Err(Error::UnexpectedEof);
            }
            proof {
                lemma_prepend_push(done, camera, camera_records(bytes@, q as int, (count - i - 1) as nat));
                assert(done.push(camera).drop_last() =~= done);
            }
            out.insert(camera);
            proof {
                done = done.push(camera);
            }
            p = q;
            i = i + 1;
        }
        assert(done + Seq::<Camera>::empty() =~= done);
        Ok(out)
    }
}

impl Images {
    /// Decodes an images file: a count, then that many image records.
    pub fn decode(bytes: &[u8]) -> (r: Result<Images, Error>)
        ensures
            match counted(bytes@, |s, p, n| pose_records(s, p, n)) {
                Ok(ps) => r is Ok && r->Ok_0@ == pose_seq(ps),
                Err(e) => r is Err && r->Err_0 == e,
            },
    {
        let (count, mut p) = match read_u64(bytes, 0) {
            Ok(v) => v,
            Err(e) => return Err(e),
        };
        let mut out = Images::new();
        let ghost mut done: Seq<ImagePoseView> = Seq::empty();
        let mut i: u64 = 0;
        while i < count
            invariant
                8 <= p <= bytes@.len(),
                i <= count,
                count == u64_at(bytes@, 0),
                out@ == pose_seq(done),
                pose_records(bytes@, 8, count as nat) == prepend(
                    done,
                    pose_records(bytes@, p as int, (count - i) as nat),
                ),
            decreases count - i,
        {
            let (pose, q) = match ImagePose::decode(bytes, p) {
                Ok(v) => v,
                Err(e) => return Err(e),
            };
            if q <= p {
                return Err(Error::UnexpectedEof);
            }
            proof {
                lemma_prepend_push(done, pose@, pose_records(bytes@, q as int, (count - i - 1) as nat));
                assert(done.push(pose@).drop_last() =~= done);
            }
            let ghost v = pose@;
            out.insert(pose);
            proof {
                done = done.push(v);
            }
            p = q;
            i = i + 1;
        }
        assert(done + Seq::<ImagePoseView>::empty() =~= done);
        Ok(out)
    }
}

} // verus!
