use crate::camera::{Camera, PinholeCamera};
use crate::collections::{Cameras, Images};
use crate::error::Error;
use crate::files::Files;
use crate::point::Point;
use crate::pose::{ImagePose, ImagePoseView};
use crate::scene::{rgb_decoding, Image};
use vstd::prelude::*;

verus! {

/// An image pose together with its pinhole camera, its image file and the
/// pixel dimensions of that file.
#[derive(Clone, Debug, PartialEq)]
pub struct AssembledView {
    pub view_id: u32,
    pub camera: PinholeCamera,
    pub pose: ImagePose,
    pub image: Image,
    pub image_width: u32,
    pub image_height: u32,
}

/// Why an assembly fails, as the first image that cannot be joined shows it.
pub enum Fault {
    UnknownCameraId(u32),
    UnknownFileName(Seq<char>),
    ImageCodec(Seq<char>),
}

/// Joining the images from position `k` on, in order, against the cameras and
/// the file entries `files`: either the entries that are left, or the fault of
/// the first image that cannot be joined. Each joined image takes its file's
/// entry out.
pub open spec fn assembly_outcome(
    cameras: Map<u32, Camera>,
    poses: Seq<ImagePoseView>,
    files: Map<Seq<char>, Seq<u8>>,
    k: int,
) -> Result<Map<Seq<char>, Seq<u8>>, Fault>
    decreases poses.len() - k,
{
    if k < 0 || k >= poses.len() {
        Ok(files)
    } else {
        let p = poses[k];
        if !cameras.contains_key(p.camera_id) {
            Err(Fault::UnknownCameraId(p.camera_id))
        } else if !files.contains_key(p.file_name) {
            Err(Fault::UnknownFileName(p.file_name))
        } else {
            match rgb_decoding(files[p.file_name]) {
                Err(m) => Err(Fault::ImageCodec(m)),
                Ok(_) => assembly_outcome(cameras, poses, files.remove(p.file_name), k + 1),
            }
        }
    }
}

/// The file entries before the image at position `k` is joined, when all the
/// images before it were.
pub open spec fn entries_before(
    poses: Seq<ImagePoseView>,
    files: Map<Seq<char>, Seq<u8>>,
    k: int,
) -> Map<Seq<char>, Seq<u8>>
    decreases k,
{
    if k <= 0 {
        files
    } else {
        entries_before(poses, files, k - 1).remove(poses[k - 1].file_name)
    }
}

/// The error that reports a fault.
pub open spec fn reports(e: Error, f: Fault) -> bool {
    match f {
        Fault::UnknownCameraId(id) => e == Error::UnknownCameraId(id),
        Fault::UnknownFileName(n) => e is UnknownFileName && e->UnknownFileName_0@ == n,
        Fault::ImageCodec(m) => e is ImageCodec && e->ImageCodec_0@ == m,
    }
}

/// The view that joining `pose` against `cameras`, with `bytes` as its file,
/// yields.
pub open spec fn joined(
    v: AssembledView,
    cameras: Map<u32, Camera>,
    pose: ImagePoseView,
    bytes: Seq<u8>,
) -> bool {
    &&& v.view_id == pose.image_id
    &&& v.pose@ == pose
    &&& cameras[pose.camera_id] == Camera::Pinhole(v.camera)
    &&& v.image.view_id == pose.image_id
    &&& v.image.image_encoded@ == bytes
    &&& rgb_decoding(bytes) is Ok
    &&& v.image_width == rgb_decoding(bytes)->Ok_0.0
    &&& v.image_height == rgb_decoding(bytes)->Ok_0.1
}

/// Joins every image, in order, with its camera and its file, which is taken
/// out of the registry, and decodes the file to learn its dimensions. The
/// first image that cannot be joined ends the assembly with its error.
pub fn assemble(cameras: &Cameras, images: &Images, files: &mut Files) -> (r: Result<
    Vec<AssembledView>,
    Error,
>)
    ensures
        match assembly_outcome(cameras@, images@, old(files)@, 0) {
            Ok(rest) => {
                &&& r is Ok
                &&& final(files)@ == rest
                &&& r->Ok_0@.len() == images@.len()
                &&& forall|j: int|
                    0 <= j < images@.len() ==> joined(
                        #[trigger] r->Ok_0@[j],
                        cameras@,
                        images@[j],
                        entries_before(images@, old(files)@, j)[images@[j].file_name],
                    )
            },
            Err(f) => r is Err && reports(r->Err_0, f),
        },
{
    let ghost start = files@;
    let mut views: Vec<AssembledView> = Vec::new();
    let mut i: usize = 0;
    while i < images.len()
        invariant
            i <= images@.len(),
            start == old(files)@,
            files@ == entries_before(images@, start, i as int),
            assembly_outcome(cameras@, images@, start, 0) == assembly_outcome(
                cameras@,
                images@,
                files@,
                i as int,
            ),
            views@.len() == i,
            forall|j: int|
                0 <= j < i ==> joined(
                    #[trigger] views@[j],
                    cameras@,
                    images@[j],
                    entries_before(images@, start, j)[images@[j].file_name],
                ),
        decreases images@.len() - i,
    {
        let pose = images.pose(i);
        let camera = match cameras.get(pose.camera_id) {
            Some(Camera::Pinhole(c)) => c,
            None => return Err(Error::UnknownCameraId(pose.camera_id)),
        };
        let bytes = match files.take(pose.file_name.as_str()) {
            Ok(b) => b,
            Err(e) => return Err(e),
        };
        let image = Image { image_encoded: bytes, view_id: pose.image_id };
        let raster = match image.decode_rgb() {
            Ok(raster) => raster,
            Err(e) => return Err(e),
        };
        let view = AssembledView {
            view_id: pose.image_id,
            camera,
            pose: pose.duplicate(),
            image_width: raster.width(),
            image_height: raster.height(),
            image,
        };
        views.push(view);
        assert(entries_before(images@, start, i + 1) == files@);
        i = i + 1;
    }
    Ok(views)
}

/// The parts of an imported reconstruction: cameras, the encoded image files,
/// the image poses and the points.
#[derive(Debug)]
pub struct ColmapSource {
    pub cameras: Cameras,
    pub files: Files,
    pub images: Images,
    pub points: Vec<Point>,
}

/// An assembled reconstruction: the joined views and the points.
#[derive(Debug)]
pub struct Dataset {
    pub views: Vec<AssembledView>,
    pub points: Vec<Point>,
}

impl ColmapSource {
    pub fn new() -> (r: ColmapSource)
        ensures
            r.cameras@ == Map::<u32, Camera>::empty(),
            r.files@ == Map::<Seq<char>, Seq<u8>>::empty(),
            r.images@ == Seq::<ImagePoseView>::empty(),
            r.points@ == Seq::<Point>::empty(),
    {
        ColmapSource {
            cameras: Cameras::new(),
            files: Files::new(),
            images: Images::new(),
            points: Vec::new(),
        }
    }

    /// Assembles the source into a dataset: the images are joined as
    /// `assemble` joins them, and the points pass through unchanged.
    pub fn into_dataset(self) -> (r: Result<Dataset, Error>)
        ensures
            match assembly_outcome(self.cameras@, self.images@, self.files@, 0) {
                Ok(_) => {
                    &&& r is Ok
                    &&& r->Ok_0.points@ == self.points@
                    &&& r->Ok_0.views@.len() == self.images@.len()
                    &&& forall|j: int|
                        0 <= j < self.images@.len() ==> joined(
                            #[trigger] r->Ok_0.views@[j],
                            self.cameras@,
                            self.images@[j],
                            entries_before(self.images@, self.files@, j)[self.images@[j].file_name],
                        )
                },
                Err(f) => r is Err && reports(r->Err_0, f),
            },
    {
        let mut files = self.files;
        match assemble(&self.cameras, &self.images, &mut files) {
            Ok(views) => Ok(Dataset { views, points: self.points }),
            Err(e) => Err(e),
        }
    }
}

impl Default for ColmapSource {
    fn default() -> (r: ColmapSource)
        ensures
            r.cameras@ == Map::<u32, Camera>::empty(),
            r.files@ == Map::<Seq<char>, Seq<u8>>::empty(),
            r.images@ == Seq::<ImagePoseView>::empty(),
            r.points@ == Seq::<Point>::empty(),
    {
        ColmapSource::new()
    }
}

} // verus!
