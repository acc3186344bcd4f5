use crate::assembly::{assembly_outcome, reports, Fault};
use crate::camera::{camera_record, Camera};
use crate::cursor::{u32_at, u64_at};
use crate::point::{point_record, PointView};
use crate::error::Error;
use crate::pose::{nul_from, pose_record, ImagePoseView};
use crate::scene::rgb_decoding;
use vstd::prelude::*;

verus! {

proof fn unknown_camera_from(
    cameras: Map<u32, Camera>,
    poses: Seq<ImagePoseView>,
    files: Map<Seq<char>, Seq<u8>>,
    i: int,
    k: int,
)
    requires
        0 <= k <= i < poses.len(),
        !cameras.contains_key(poses[i].camera_id),
    ensures
        assembly_outcome(cameras, poses, files, k) is Err,
    decreases i - k,
{
    if k < i {
        let p = poses[k];
        if cameras.contains_key(p.camera_id) && files.contains_key(p.file_name) {
            unknown_camera_from(cameras, poses, files.remove(p.file_name), i, k + 1);
        }
    }
}

/// An image whose camera id no camera carries makes the assembly fail.
pub proof fn lemma_unknown_camera_fails(
    cameras: Map<u32, Camera>,
    poses: Seq<ImagePoseView>,
    files: Map<Seq<char>, Seq<u8>>,
    i: int,
)
    requires
        0 <= i < poses.len(),
        !cameras.contains_key(poses[i].camera_id),
    ensures
        assembly_outcome(cameras, poses, files, 0) is Err,
{
    unknown_camera_from(cameras, poses, files, i, 0);
}

proof fn unknown_file_from(
    cameras: Map<u32, Camera>,
    poses: Seq<ImagePoseView>,
    files: Map<Seq<char>, Seq<u8>>,
    i: int,
    k: int,
)
    requires
        0 <= k <= i < poses.len(),
        !files.contains_key(poses[i].file_name),
    ensures
        assembly_outcome(cameras, poses, files, k) is Err,
    decreases i - k,
{
    if k < i {
        let p = poses[k];
        if cameras.contains_key(p.camera_id) && files.contains_key(p.file_name) {
            unknown_file_from(cameras, poses, files.remove(p.file_name), i, k + 1);
        }
    }
}

/// An image whose file name the registry does not hold makes the assembly
/// fail.
pub proof fn lemma_unknown_file_fails(
    cameras: Map<u32, Camera>,
    poses: Seq<ImagePoseView>,
    files: Map<Seq<char>, Seq<u8>>,
    i: int,
)
    requires
        0 <= i < poses.len(),
        !files.contains_key(poses[i].file_name),
    ensures
        assembly_outcome(cameras, poses, files, 0) is Err,
{
    unknown_file_from(cameras, poses, files, i, 0);
}

/// Every image but the one at position `i` can be joined: its camera is
/// there, its file is registered and decodes, and no two of them share a file.
pub open spec fn sound_but(
    cameras: Map<u32, Camera>,
    poses: Seq<ImagePoseView>,
    files: Map<Seq<char>, Seq<u8>>,
    i: int,
) -> bool {
    &&& forall|j: int|
        0 <= j < poses.len() && j != i ==> {
            &&& cameras.contains_key(#[trigger] poses[j].camera_id)
            &&& files.contains_key(poses[j].file_name)
            &&& rgb_decoding(files[poses[j].file_name]) is Ok
        }
    &&& forall|j1: int, j2: int|
        0 <= j1 < poses.len() && 0 <= j2 < poses.len() && j1 != j2 && j1 != i && j2 != i
            ==> #[trigger] poses[j1].file_name != #[trigger] poses[j2].file_name
}

proof fn single_unknown_camera_from(
    cameras: Map<u32, Camera>,
    poses: Seq<ImagePoseView>,
    files: Map<Seq<char>, Seq<u8>>,
    i: int,
    k: int,
)
    requires
        0 <= k <= i < poses.len(),
        !cameras.contains_key(poses[i].camera_id),
        forall|j: int|
            k <= j < poses.len() && j != i ==> {
                &&& cameras.contains_key(#[trigger] poses[j].camera_id)
                &&& files.contains_key(poses[j].file_name)
                &&& rgb_decoding(files[poses[j].file_name]) is Ok
            },
        forall|j1: int, j2: int|
            0 <= j1 < poses.len() && 0 <= j2 < poses.len() && j1 != j2 && j1 != i && j2 != i
                ==> #[trigger] poses[j1].file_name != #[trigger] poses[j2].file_name,
    ensures
        assembly_outcome(cameras, poses, files, k) == Err::<Map<Seq<char>, Seq<u8>>, Fault>(
            Fault::UnknownCameraId(poses[i].camera_id),
        ),
    decreases i - k,
{
    if k < i {
        let rest = files.remove(poses[k].file_name);
        assert forall|j: int| k + 1 <= j < poses.len() && j != i implies {
            &&& cameras.contains_key(#[trigger] poses[j].camera_id)
            &&& rest.contains_key(poses[j].file_name)
            &&& rgb_decoding(rest[poses[j].file_name]) is Ok
        } by {
            assert(cameras.contains_key(poses[j].camera_id));
            assert(poses[j].file_name != poses[k].file_name);
            assert(rest[poses[j].file_name] == files[poses[j].file_name]);
        }
        single_unknown_camera_from(cameras, poses, rest, i, k + 1);
    }
}

/// Where exactly one image names an unknown camera and every other image can
/// be joined, the assembly fails with that camera id, wherever in the order
/// that image stands.
pub proof fn lemma_single_unknown_camera(
    cameras: Map<u32, Camera>,
    poses: Seq<ImagePoseView>,
    files: Map<Seq<char>, Seq<u8>>,
    i: int,
)
    requires
        0 <= i < poses.len(),
        !cameras.contains_key(poses[i].camera_id),
        sound_but(cameras, poses, files, i),
    ensures
        assembly_outcome(cameras, poses, files, 0) == Err::<Map<Seq<char>, Seq<u8>>, Fault>(
            Fault::UnknownCameraId(poses[i].camera_id),
        ),
{
    single_unknown_camera_from(cameras, poses, files, i, 0);
}

/// Where exactly one image names an unknown camera and every other image can
/// be joined, the error that `assemble` and `ColmapSource::into_dataset`
/// return is `UnknownCameraId` with that id: never a success and never a
/// partial result, wherever in the order that image stands.
pub proof fn lemma_single_unknown_camera_error(
    cameras: Map<u32, Camera>,
    poses: Seq<ImagePoseView>,
    files: Map<Seq<char>, Seq<u8>>,
    i: int,
    e: Error,
)
    requires
        0 <= i < poses.len(),
        !cameras.contains_key(poses[i].camera_id),
        sound_but(cameras, poses, files, i),
        reports(e, assembly_outcome(cameras, poses, files, 0)->Err_0),
    ensures
        assembly_outcome(cameras, poses, files, 0) is Err,
        e == Error::UnknownCameraId(poses[i].camera_id),
{
    lemma_single_unknown_camera(cameras, poses, files, i);
}

proof fn taken_from(
    cameras: Map<u32, Camera>,
    poses: Seq<ImagePoseView>,
    files: Map<Seq<char>, Seq<u8>>,
    k: int,
)
    requires
        0 <= k <= poses.len(),
        assembly_outcome(cameras, poses, files, k) is Ok,
    ensures
        ({
            let rest = assembly_outcome(cameras, poses, files, k)->Ok_0;
            &&& rest.dom().subset_of(files.dom())
            &&& forall|j: int| k <= j < poses.len() ==> !rest.contains_key(#[trigger] poses[j].file_name)
        }),
    decreases poses.len() - k,
{
    if k < poses.len() {
        let name = poses[k].file_name;
        taken_from(cameras, poses, files.remove(name), k + 1);
    }
}

/// After an assembly succeeds, the registry holds the file of no image any
/// more: each file is taken once.
pub proof fn lemma_files_taken_once(
    cameras: Map<u32, Camera>,
    poses: Seq<ImagePoseView>,
    files: Map<Seq<char>, Seq<u8>>,
)
    requires
        assembly_outcome(cameras, poses, files, 0) is Ok,
    ensures
        forall|j: int|
            0 <= j < poses.len() ==> !assembly_outcome(cameras, poses, files, 0)->Ok_0.contains_key(
                #[trigger] poses[j].file_name,
            ),
{
    taken_from(cameras, poses, files, 0);
}

proof fn u64_in_prefix(a: Seq<u8>, b: Seq<u8>, p: int)
    requires
        0 <= p,
        p + 8 <= a.len(),
    ensures
        u64_at(a + b, p) == u64_at(a, p),
{
    assert((a + b).subrange(p, p + 8) =~= a.subrange(p, p + 8));
}

proof fn u64_in_suffix(a: Seq<u8>, b: Seq<u8>, p: int)
    requires
        0 <= p,
        p + 8 <= b.len(),
    ensures
        u64_at(a + b, a.len() + p) == u64_at(b, p),
{
    assert((a + b).subrange(a.len() + p, a.len() + p + 8) =~= b.subrange(p, p + 8));
}

proof fn u32_in_prefix(a: Seq<u8>, b: Seq<u8>, p: int)
    requires
        0 <= p,
        p + 4 <= a.len(),
    ensures
        u32_at(a + b, p) == u32_at(a, p),
{
    assert((a + b).subrange(p, p + 4) =~= a.subrange(p, p + 4));
}

proof fn u32_in_suffix(a: Seq<u8>, b: Seq<u8>, p: int)
    requires
        0 <= p,
        p + 4 <= b.len(),
    ensures
        u32_at(a + b, a.len() + p) == u32_at(b, p),
{
    assert((a + b).subrange(a.len() + p, a.len() + p + 4) =~= b.subrange(p, p + 4));
}

/// A point record decoded at `q` of `b`, as seen at `d + q`: the same point,
/// ending `d` bytes further on.
pub open spec fn shifted_point(r: Result<(PointView, int), Error>, d: int) -> Result<
    (PointView, int),
    Error,
> {
    match r {
        Ok((v, end)) => Ok((v, end + d)),
        Err(e) => Err(e),
    }
}

/// A camera record decoded at `q` of `b`, as seen at `d + q`: the same camera,
/// ending `d` bytes further on.
pub open spec fn shifted_camera(r: Result<(Camera, int), Error>, d: int) -> Result<
    (Camera, int),
    Error,
> {
    match r {
        Ok((c, end)) => Ok((c, end + d)),
        Err(e) => Err(e),
    }
}

proof fn point_in_suffix(a: Seq<u8>, b: Seq<u8>, q: int)
    requires
        0 <= q <= b.len(),
    ensures
        point_record(a + b, a.len() + q) == shifted_point(point_record(b, q), a.len() as int),
{
    if q + 51 <= b.len() {
        u64_in_suffix(a, b, q + 8);
        u64_in_suffix(a, b, q + 16);
        u64_in_suffix(a, b, q + 24);
        u64_in_suffix(a, b, q + 43);
        assert((a + b)[a.len() + q + 32] == b[q + 32]);
        assert((a + b)[a.len() + q + 33] == b[q + 33]);
        assert((a + b)[a.len() + q + 34] == b[q + 34]);
    }
}

/// A point record that fills `a` exactly is decoded alike when more bytes
/// follow it, and the decoding of what follows starts right after it: the
/// cursor stops at the start of the next record.
pub proof fn lemma_point_records_concat(a: Seq<u8>, b: Seq<u8>)
    requires
        point_record(a, 0) is Ok,
        point_record(a, 0)->Ok_0.1 == a.len(),
    ensures
        point_record(a + b, 0) == point_record(a, 0),
        forall|q: int|
            0 <= q <= b.len() ==> #[trigger] point_record(a + b, a.len() + q) == shifted_point(
                point_record(b, q),
                a.len() as int,
            ),
{
    u64_in_prefix(a, b, 8);
    u64_in_prefix(a, b, 16);
    u64_in_prefix(a, b, 24);
    u64_in_prefix(a, b, 43);
    assert((a + b)[32] == a[32]);
    assert((a + b)[33] == a[33]);
    assert((a + b)[34] == a[34]);
    assert forall|q: int| 0 <= q <= b.len() implies #[trigger] point_record(a + b, a.len() + q)
        == shifted_point(point_record(b, q), a.len() as int) by {
        point_in_suffix(a, b, q);
    }
}

proof fn camera_in_suffix(a: Seq<u8>, b: Seq<u8>, q: int)
    requires
        0 <= q <= b.len(),
    ensures
        camera_record(a + b, a.len() + q) == shifted_camera(camera_record(b, q), a.len() as int),
{
    if q + 24 <= b.len() {
        u32_in_suffix(a, b, q);
        u32_in_suffix(a, b, q + 4);
        u64_in_suffix(a, b, q + 8);
        u64_in_suffix(a, b, q + 16);
        if q + 56 <= b.len() {
            u64_in_suffix(a, b, q + 24);
            u64_in_suffix(a, b, q + 32);
            u64_in_suffix(a, b, q + 40);
            u64_in_suffix(a, b, q + 48);
        }
    }
}

/// A camera record that fills `a` exactly is decoded alike when more bytes
/// follow it, and the decoding of what follows starts right after it.
pub proof fn lemma_camera_records_concat(a: Seq<u8>, b: Seq<u8>)
    requires
        camera_record(a, 0) is Ok,
        camera_record(a, 0)->Ok_0.1 == a.len(),
    ensures
        camera_record(a + b, 0) == camera_record(a, 0),
        forall|q: int|
            0 <= q <= b.len() ==> #[trigger] camera_record(a + b, a.len() + q) == shifted_camera(
                camera_record(b, q),
                a.len() as int,
            ),
{
    u32_in_prefix(a, b, 0);
    u32_in_prefix(a, b, 4);
    u64_in_prefix(a, b, 8);
    u64_in_prefix(a, b, 16);
    u64_in_prefix(a, b, 24);
    u64_in_prefix(a, b, 32);
    u64_in_prefix(a, b, 40);
    u64_in_prefix(a, b, 48);
    assert forall|q: int| 0 <= q <= b.len() implies #[trigger] camera_record(a + b, a.len() + q)
        == shifted_camera(camera_record(b, q), a.len() as int) by {
        camera_in_suffix(a, b, q);
    }
}

proof fn nul_bounds(s: Seq<u8>, p: int)
    requires
        0 <= p <= s.len(),
    ensures
        p <= nul_from(s, p) <= s.len(),
    decreases s.len() - p,
{
    if p < s.len() && s[p] != 0 {
        nul_bounds(s, p + 1);
    }
}

proof fn nul_in_suffix(a: Seq<u8>, b: Seq<u8>, q: int)
    requires
        0 <= q <= b.len(),
    ensures
        nul_from(a + b, a.len() + q) == a.len() + nul_from(b, q),
    decreases b.len() - q,
{
    if q < b.len() {
        assert((a + b)[a.len() + q] == b[q]);
        nul_in_suffix(a, b, q + 1);
    }
}

proof fn nul_in_prefix(a: Seq<u8>, b: Seq<u8>, p: int)
    requires
        0 <= p <= a.len(),
        nul_from(a, p) < a.len(),
    ensures
        nul_from(a + b, p) == nul_from(a, p),
    decreases a.len() - p,
{
    assert((a + b)[p] == a[p]);
    if a[p] != 0 {
        nul_in_prefix(a, b, p + 1);
    }
}

/// An image record decoded at `q` of `b`, as seen at `d + q`: the same pose,
/// ending `d` bytes further on.
pub open spec fn shifted_pose(r: Result<(ImagePoseView, int), Error>, d: int) -> Result<
    (ImagePoseView, int),
    Error,
> {
    match r {
        Ok((v, end)) => Ok((v, end + d)),
        Err(e) => Err(e),
    }
}

proof fn pose_in_suffix(a: Seq<u8>, b: Seq<u8>, q: int)
    requires
        0 <= q <= b.len(),
    ensures
        pose_record(a + b, a.len() + q) == shifted_pose(pose_record(b, q), a.len() as int),
{
    if q + 64 <= b.len() {
        let s = a + b;
        let d = a.len() as int;
        u32_in_suffix(a, b, q);
        u64_in_suffix(a, b, q + 4);
        u64_in_suffix(a, b, q + 12);
        u64_in_suffix(a, b, q + 20);
        u64_in_suffix(a, b, q + 28);
        u64_in_suffix(a, b, q + 36);
        u64_in_suffix(a, b, q + 44);
        u64_in_suffix(a, b, q + 52);
        u32_in_suffix(a, b, q + 60);
        nul_in_suffix(a, b, q + 64);
        let n = nul_from(b, q + 64);
        nul_bounds(b, q + 64);
        assert(s.subrange(d + q + 64, d + n) =~= b.subrange(q + 64, n));
        if n + 9 <= b.len() {
            u64_in_suffix(a, b, n + 1);
        }
    }
}

proof fn pose_in_prefix(a: Seq<u8>, b: Seq<u8>)
    requires
        pose_record(a, 0) is Ok,
        pose_record(a, 0)->Ok_0.1 == a.len(),
    ensures
        pose_record(a + b, 0) == pose_record(a, 0),
{
    let s = a + b;
    u32_in_prefix(a, b, 0);
    u64_in_prefix(a, b, 4);
    u64_in_prefix(a, b, 12);
    u64_in_prefix(a, b, 20);
    u64_in_prefix(a, b, 28);
    u64_in_prefix(a, b, 36);
    u64_in_prefix(a, b, 44);
    u64_in_prefix(a, b, 52);
    u32_in_prefix(a, b, 60);
    let n = nul_from(a, 64);
    nul_bounds(a, 64);
    nul_in_prefix(a, b, 64);
    assert(s.subrange(64, n) =~= a.subrange(64, n));
    u64_in_prefix(a, b, n + 1);
}

/// An image record that fills `a` exactly is decoded alike when more bytes
/// follow it, and the decoding of what follows starts right after it.
pub proof fn lemma_pose_records_concat(a: Seq<u8>, b: Seq<u8>)
    requires
        pose_record(a, 0) is Ok,
        pose_record(a, 0)->Ok_0.1 == a.len(),
    ensures
        pose_record(a + b, 0) == pose_record(a, 0),
        forall|q: int|
            0 <= q <= b.len() ==> #[trigger] pose_record(a + b, a.len() + q) == shifted_pose(
                pose_record(b, q),
                a.len() as int,
            ),
{
    pose_in_prefix(a, b);
    assert forall|q: int| 0 <= q <= b.len() implies #[trigger] pose_record(a + b, a.len() + q)
        == shifted_pose(pose_record(b, q), a.len() as int) by {
        pose_in_suffix(a, b, q);
    }
}

} // verus!
