use crate::camera::Camera;
use crate::pose::{ImagePose, ImagePoseView};
use std::collections::HashMap;
use vstd::prelude::*;

verus! {

broadcast use vstd::std_specs::hash::group_hash_axioms;

/// Cameras by id. A camera inserted under an id already present replaces the
/// earlier one.
#[derive(Debug)]
pub struct Cameras {
    map: HashMap<u32, Camera>,
}

impl View for Cameras {
    type V = Map<u32, Camera>;

    closed spec fn view(&self) -> Map<u32, Camera> {
        self.map@
    }
}

impl Cameras {
    pub fn new() -> (r: Cameras)
        ensures
            r@ == Map::<u32, Camera>::empty(),
    {
        Cameras { map: HashMap::new() }
    }

    /// Adds a camera under its own id.
    pub fn insert(&mut self, camera: Camera)
        ensures
            final(self)@ == old(self)@.insert(camera.spec_id(), camera),
    {
        let id = camera.id();
        self.map.insert(id, camera);
    }

    /// The camera with the given id.
    pub fn get(&self, id: u32) -> (r: Option<Camera>)
        ensures
            match r {
                Some(c) => self@.contains_key(id) && self@[id] == c,
                None => !self@.contains_key(id),
            },
    {
        match self.map.get(&id) {
            Some(c) => Some(*c),
            None => None,
        }
    }
}

/// The index of the first pose in `s` from `k` on with the given image id,
/// or -1.
pub open spec fn index_of_id(s: Seq<ImagePoseView>, id: u32, k: int) -> int
    decreases s.len() - k,
{
    if k < 0 || k >= s.len() {
        -1
    } else if s[k].image_id == id {
        k
    } else {
        index_of_id(s, id, k + 1)
    }
}

/// `s` with `p` in place of the pose that has its image id, or with `p`
/// appended where none has.
pub open spec fn with_pose(s: Seq<ImagePoseView>, p: ImagePoseView) -> Seq<ImagePoseView> {
    let i = index_of_id(s, p.image_id, 0);
    if i < 0 {
        s.push(p)
    } else {
        s.update(i, p)
    }
}

/// Image poses in the order they were added; a pose inserted under an image
/// id already present replaces the earlier one in its place.
#[derive(Debug)]
pub struct Images {
    poses: Vec<ImagePose>,
}

impl View for Images {
    type V = Seq<ImagePoseView>;

    closed spec fn view(&self) -> Seq<ImagePoseView> {
        self.poses@.map_values(|p: ImagePose| p@)
    }
}

impl Images {
    pub fn new() -> (r: Images)
        ensures
            r@ == Seq::<ImagePoseView>::empty(),
    {
        let r = Images { poses: Vec::new() };
        assert(r@ =~= Seq::<ImagePoseView>::empty());
        r
    }

    pub fn len(&self) -> (r: usize)
        ensures
            r == self@.len(),
    {
        self.poses.len()
    }

    /// The pose at position `i`.
    pub fn pose(&self, i: usize) -> (r: &ImagePose)
        requires
            i < self@.len(),
        ensures
            r@ == self@[i as int],
    {
        &self.poses[i]
    }

    /// Adds a pose, replacing the one with the same image id if there is one.
    pub fn insert(&mut self, pose: ImagePose)
        ensures
            final(self)@ == with_pose(old(self)@, pose@),
    {
        let ghost s = self@;
        let ghost v = pose@;
        let mut i: usize = 0;
        while i < self.poses.len() && self.poses[i].image_id != pose.image_id
            invariant
                i <= self.poses@.len(),
                self@ == s,
                v == pose@,
                index_of_id(s, v.image_id, 0) == index_of_id(s, v.image_id, i as int),
            decreases self.poses@.len() - i,
        {
            assert(s[i as int] == self.poses@[i as int]@);
            i = i + 1;
        }
        if i < self.poses.len() {
            assert(s[i as int] == self.poses@[i as int]@);
            self.poses.set(i, pose);
            assert(self@ =~= s.update(i as int, v));
        } else {
            self.poses.push(pose);
            assert(self@ =~= s.push(v));
        }
    }
}

} // verus!
