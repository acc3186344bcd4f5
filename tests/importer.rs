use gausplat_importer::assembly::{assemble, ColmapSource};
use gausplat_importer::camera::{Camera, PinholeCamera};
use gausplat_importer::collections::{Cameras, Images};
use gausplat_importer::cursor::{advance, read_u32, read_u64, read_u8};
use gausplat_importer::files::Files;
use gausplat_importer::loaders::decode_points;
use gausplat_importer::point::Point;
use gausplat_importer::pose::ImagePose;
use gausplat_importer::scene::Image;
use gausplat_importer::Error;

fn one_pixel_png() -> Vec<u8> {
    vec![
        0x89, 0x50, 0x4e, 0x47, 0x0d, 0x0a, 0x1a, 0x0a, 0x00, 0x00, 0x00, 0x0d, 0x49, 0x48, 0x44,
        0x52, 0x00, 0x00, 0x00, 0x01, 0x00, 0x00, 0x00, 0x01, 0x08, 0x06, 0x00, 0x00, 0x00, 0x1f,
        0x15, 0xc4, 0x89, 0x00, 0x00, 0x00, 0x01, 0x73, 0x52, 0x47, 0x42, 0x00, 0xae, 0xce, 0x1c,
        0xe9, 0x00, 0x00, 0x00, 0x44, 0x65, 0x58, 0x49, 0x66, 0x4d, 0x4d, 0x00, 0x2a, 0x00, 0x00,
        0x00, 0x08, 0x00, 0x01, 0x87, 0x69, 0x00, 0x04, 0x00, 0x00, 0x00, 0x01, 0x00, 0x00, 0x00,
        0x1a, 0x00, 0x00, 0x00, 0x00, 0x00, 0x03, 0xa0, 0x01, 0x00, 0x03, 0x00, 0x00, 0x00, 0x01,
        0x00, 0x01, 0x00, 0x00, 0xa0, 0x02, 0x00, 0x04, 0x00, 0x00, 0x00, 0x01, 0x00, 0x00, 0x00,
        0x01, 0xa0, 0x03, 0x00, 0x04, 0x00, 0x00, 0x00, 0x01, 0x00, 0x00, 0x00, 0x01, 0x00, 0x00,
        0x00, 0x00, 0xf9, 0x22, 0x9d, 0xfe, 0x00, 0x00, 0x00, 0x0d, 0x49, 0x44, 0x41, 0x54, 0x08,
        0x1d, 0x63, 0xf8, 0xcf, 0x60, 0xdb, 0x0d, 0x00, 0x05, 0x06, 0x01, 0xc8, 0x5d, 0xd6, 0x92,
        0xd1, 0x00, 0x00, 0x00, 0x00, 0x49, 0x45, 0x4e, 0x44, 0xae, 0x42, 0x60, 0x82,
    ]
}

#[test]
fn decode_rgb() {
    let image = Image {
        image_encoded: one_pixel_png(),
        view_id: Default::default(),
    };

    // It should be idempotent
    for _ in 0..3 {
        let image = image.decode_rgb();
        assert!(image.is_ok(), "{:?}", image.as_ref().err());

        let image = image.unwrap();
        assert_eq!(image.height(), 1);
        assert_eq!(image.width(), 1);
        assert_eq!(image.get_pixel(0, 0).0, [0xff, 0x00, 0x3d]);
    }
}

#[test]
fn decode_rgb_rejects_garbage() {
    let image = Image { image_encoded: vec![1, 2, 3, 4], view_id: 0 };
    let result = image.decode_rgb();
    assert!(matches!(result, Err(gausplat_importer::Error::ImageCodec(_))));
}

#[test]
fn decode_rgb_rejects_empty_bytes() {
    let image = Image::default();
    assert!(image.decode_rgb().is_err());
}

fn point_bytes(id: u64, position: [f64; 3], color: [u8; 3], error: f64, track: &[(u32, u32)]) -> Vec<u8> {
    let mut b = Vec::new();
    b.extend_from_slice(&id.to_le_bytes());
    for c in position {
        b.extend_from_slice(&c.to_le_bytes());
    }
    b.extend_from_slice(&color);
    b.extend_from_slice(&error.to_le_bytes());
    b.extend_from_slice(&(track.len() as u64).to_le_bytes());
    for (image, keypoint) in track {
        b.extend_from_slice(&image.to_le_bytes());
        b.extend_from_slice(&keypoint.to_le_bytes());
    }
    b
}

fn camera_bytes(id: u32, model: u32, width: u64, height: u64, params: [f64; 4]) -> Vec<u8> {
    let mut b = Vec::new();
    b.extend_from_slice(&id.to_le_bytes());
    b.extend_from_slice(&model.to_le_bytes());
    b.extend_from_slice(&width.to_le_bytes());
    b.extend_from_slice(&height.to_le_bytes());
    for p in params {
        b.extend_from_slice(&p.to_le_bytes());
    }
    b
}

fn pose_bytes(
    image_id: u32,
    quaternion: [f64; 4],
    translation: [f64; 3],
    camera_id: u32,
    name: &[u8],
    keypoints: usize,
) -> Vec<u8> {
    let mut b = Vec::new();
    b.extend_from_slice(&image_id.to_le_bytes());
    for q in quaternion {
        b.extend_from_slice(&q.to_le_bytes());
    }
    for t in translation {
        b.extend_from_slice(&t.to_le_bytes());
    }
    b.extend_from_slice(&camera_id.to_le_bytes());
    b.extend_from_slice(name);
    b.push(0);
    b.extend_from_slice(&(keypoints as u64).to_le_bytes());
    for k in 0..keypoints {
        b.extend_from_slice(&(k as f64).to_le_bytes());
        b.extend_from_slice(&(2.0 * k as f64).to_le_bytes());
        b.extend_from_slice(&(k as i64 - 1).to_le_bytes());
    }
    b
}

fn bits3(v: [f64; 3]) -> [u64; 3] {
    [v[0].to_bits(), v[1].to_bits(), v[2].to_bits()]
}

fn bits4(v: [f64; 4]) -> [u64; 4] {
    [v[0].to_bits(), v[1].to_bits(), v[2].to_bits(), v[3].to_bits()]
}

fn pinhole(id: u32, width: u64, height: u64, f: [f64; 4]) -> PinholeCamera {
    PinholeCamera {
        id,
        width,
        height,
        focal_length_x: f[0].to_bits(),
        focal_length_y: f[1].to_bits(),
        principal_point_x: f[2].to_bits(),
        principal_point_y: f[3].to_bits(),
    }
}

fn pose(image_id: u32, camera_id: u32, name: &str) -> ImagePose {
    ImagePose {
        image_id,
        camera_id,
        quaternion: bits4([1.0, 0.0, 0.0, 0.0]),
        translation: bits3([0.0, 0.0, 0.0]),
        file_name: name.to_string(),
    }
}

#[test]
fn cursor_reads_little_endian() {
    let bytes = [1u8, 2, 3, 4, 5, 6, 7, 8, 9];
    assert_eq!(read_u64(&bytes, 0), Ok((0x0807060504030201, 8)));
    assert_eq!(read_u64(&bytes, 1), Ok((0x0908070605040302, 9)));
    assert_eq!(read_u64(&bytes, 2), Err(Error::UnexpectedEof));
    assert_eq!(read_u32(&bytes, 5), Ok((0x09080706, 9)));
    assert_eq!(read_u32(&bytes, 6), Err(Error::UnexpectedEof));
    assert_eq!(read_u8(&bytes, 8), Ok((9, 9)));
    assert_eq!(read_u8(&bytes, 9), Err(Error::UnexpectedEof));
    assert_eq!(read_u64(&[0xff; 8], 0), Ok((u64::MAX, 8)));
}

#[test]
fn cursor_advances_exactly() {
    let bytes = [0u8; 10];
    assert_eq!(advance(&bytes, 2, 8), Ok(10));
    assert_eq!(advance(&bytes, 2, 9), Err(Error::UnexpectedEof));
    assert_eq!(advance(&bytes, 0, u64::MAX), Err(Error::UnexpectedEof));
}

#[test]
fn point_record_round_trip() {
    let bytes = point_bytes(42, [1.5, -2.0, 3.25], [10, 20, 30], 0.5, &[(1, 2), (3, 4)]);
    assert_eq!(bytes.len(), 51 + 16);
    let (point, next) = Point::decode(&bytes, 0).unwrap();
    assert_eq!(point, Point { position: bits3([1.5, -2.0, 3.25]), color: [10, 20, 30] });
    assert_eq!(next, bytes.len());
}

#[test]
fn point_records_back_to_back() {
    let mut bytes = point_bytes(1, [0.0, 1.0, 2.0], [1, 2, 3], 0.0, &[(7, 8)]);
    let first_len = bytes.len();
    bytes.extend(point_bytes(2, [3.0, 4.0, 5.0], [4, 5, 6], 1.0, &[]));
    let (a, p) = Point::decode(&bytes, 0).unwrap();
    assert_eq!(p, first_len);
    let (b, q) = Point::decode(&bytes, p).unwrap();
    assert_eq!(q, bytes.len());
    assert_eq!(a, Point { position: bits3([0.0, 1.0, 2.0]), color: [1, 2, 3] });
    assert_eq!(b, Point { position: bits3([3.0, 4.0, 5.0]), color: [4, 5, 6] });
}

#[test]
fn point_record_short_track_is_eof() {
    let mut bytes = point_bytes(1, [0.0; 3], [0; 3], 0.0, &[(1, 1)]);
    bytes.pop();
    assert_eq!(Point::decode(&bytes, 0), Err(Error::UnexpectedEof));
    assert_eq!(Point::decode(&bytes[..50], 0), Err(Error::UnexpectedEof));
}

#[test]
fn point_record_huge_track_is_eof() {
    let mut bytes = point_bytes(1, [0.0; 3], [0; 3], 0.0, &[]);
    let n = bytes.len();
    bytes[n - 8..].copy_from_slice(&u64::MAX.to_le_bytes());
    assert_eq!(Point::decode(&bytes, 0), Err(Error::UnexpectedEof));
}

#[test]
fn camera_record_round_trip() {
    let mut bytes = camera_bytes(3, 1, 640, 480, [500.0, 510.0, 320.0, 240.0]);
    bytes.extend(camera_bytes(4, 1, 4, 4, [2.0, 2.0, 2.0, 2.0]));
    let (a, p) = Camera::decode(&bytes, 0).unwrap();
    assert_eq!(p, 56);
    assert_eq!(a, Camera::Pinhole(pinhole(3, 640, 480, [500.0, 510.0, 320.0, 240.0])));
    assert_eq!(a.id(), 3);
    let (b, q) = Camera::decode(&bytes, p).unwrap();
    assert_eq!(q, 112);
    assert_eq!(b, Camera::Pinhole(pinhole(4, 4, 4, [2.0, 2.0, 2.0, 2.0])));
}

#[test]
fn camera_record_other_model_is_unsupported() {
    let bytes = camera_bytes(3, 4, 640, 480, [0.0; 4]);
    assert_eq!(Camera::decode(&bytes, 0), Err(Error::UnsupportedCameraModel(4)));
    let bytes = camera_bytes(3, 1, 640, 480, [0.0; 4]);
    assert_eq!(Camera::decode(&bytes[..55], 0), Err(Error::UnexpectedEof));
}

#[test]
fn pose_record_round_trip() {
    let q = [0.5, 0.5, -0.5, 0.5];
    let t = [1.0, 2.0, 3.0];
    let mut bytes = pose_bytes(9, q, t, 2, b"frame_001.png", 3);
    let first_len = bytes.len();
    assert_eq!(first_len, 64 + 14 + 8 + 72);
    bytes.extend(pose_bytes(10, [1.0, 0.0, 0.0, 0.0], [0.0; 3], 2, b"b.png", 0));
    let (a, p) = ImagePose::decode(&bytes, 0).unwrap();
    assert_eq!(p, first_len);
    assert_eq!(
        a,
        ImagePose {
            image_id: 9,
            camera_id: 2,
            quaternion: bits4(q),
            translation: bits3(t),
            file_name: "frame_001.png".to_string(),
        }
    );
    let (b, r) = ImagePose::decode(&bytes, p).unwrap();
    assert_eq!(r, bytes.len());
    assert_eq!(b.image_id, 10);
    assert_eq!(b.file_name, "b.png");
}

#[test]
fn pose_record_bad_name() {
    let bytes = pose_bytes(9, [1.0, 0.0, 0.0, 0.0], [0.0; 3], 2, &[0xff, 0xfe], 0);
    assert_eq!(ImagePose::decode(&bytes, 0), Err(Error::InvalidFileName));
    let bytes = pose_bytes(9, [1.0, 0.0, 0.0, 0.0], [0.0; 3], 2, b"abc", 0);
    assert_eq!(ImagePose::decode(&bytes[..66], 0), Err(Error::UnexpectedEof));
    assert_eq!(ImagePose::decode(&bytes[..bytes.len() - 1], 0), Err(Error::UnexpectedEof));
}

#[test]
fn loaders_read_counted_files() {
    let mut points = 2u64.to_le_bytes().to_vec();
    points.extend(point_bytes(1, [0.0, 1.0, 2.0], [1, 2, 3], 0.0, &[(7, 8)]));
    points.extend(point_bytes(2, [3.0, 4.0, 5.0], [4, 5, 6], 1.0, &[]));
    let decoded = decode_points(&points).unwrap();
    assert_eq!(decoded.len(), 2);
    assert_eq!(decoded[1].color, [4, 5, 6]);
    assert_eq!(decode_points(&points[..points.len() - 1]), Err(Error::UnexpectedEof));
    assert_eq!(decode_points(&[0u8; 4]), Err(Error::UnexpectedEof));

    let mut cameras = 2u64.to_le_bytes().to_vec();
    cameras.extend(camera_bytes(1, 1, 4, 4, [2.0; 4]));
    cameras.extend(camera_bytes(1, 1, 8, 8, [3.0; 4]));
    let decoded = Cameras::decode(&cameras).unwrap();
    assert_eq!(decoded.get(1), Some(Camera::Pinhole(pinhole(1, 8, 8, [3.0; 4]))));
    assert_eq!(decoded.get(2), None);

    let mut images = 2u64.to_le_bytes().to_vec();
    images.extend(pose_bytes(5, [1.0, 0.0, 0.0, 0.0], [0.0; 3], 1, b"x.png", 1));
    images.extend(pose_bytes(6, [1.0, 0.0, 0.0, 0.0], [0.0; 3], 1, b"y.png", 0));
    let decoded = Images::decode(&images).unwrap();
    assert_eq!(decoded.len(), 2);
    assert_eq!(decoded.pose(1).file_name, "y.png");
}

#[test]
fn images_insert_replaces_same_id() {
    let mut images = Images::new();
    images.insert(pose(1, 1, "a.png"));
    images.insert(pose(2, 1, "b.png"));
    images.insert(pose(1, 3, "c.png"));
    assert_eq!(images.len(), 2);
    assert_eq!(images.pose(0).camera_id, 3);
    assert_eq!(images.pose(0).file_name, "c.png");
    assert_eq!(images.pose(1).image_id, 2);
}

#[test]
fn files_are_taken_once() {
    let mut files = Files::new();
    files.insert("a.png".to_string(), vec![1, 2]);
    files.insert("a.png".to_string(), vec![3]);
    assert_eq!(files.take("a.png"), Ok(vec![3]));
    assert_eq!(files.take("a.png"), Err(Error::UnknownFileName("a.png".to_string())));
}

fn scene_source() -> (Cameras, Images, Files) {
    let mut cameras = Cameras::new();
    cameras.insert(Camera::Pinhole(pinhole(1, 4, 4, [2.0, 2.0, 2.0, 2.0])));
    let mut images = Images::new();
    images.insert(pose(7, 1, "a.png"));
    let mut files = Files::new();
    files.insert("a.png".to_string(), one_pixel_png());
    (cameras, images, files)
}

#[test]
fn end_to_end_single_view() {
    let (cameras, images, mut files) = scene_source();
    let views = assemble(&cameras, &images, &mut files).unwrap();
    assert_eq!(views.len(), 1);
    let view = &views[0];
    assert_eq!(view.view_id, 7);
    assert_eq!(view.image.view_id, 7);
    assert_eq!(view.image.image_encoded, one_pixel_png());
    assert_eq!((view.image_width, view.image_height), (1, 1));
    assert_eq!(view.camera, pinhole(1, 4, 4, [2.0, 2.0, 2.0, 2.0]));
    assert_eq!(view.pose, pose(7, 1, "a.png"));
    let fx = f64::from_bits(view.camera.focal_length_x);
    let fov_x = 2.0 * (view.camera.width as f64).atan2(2.0 * fx);
    assert!((fov_x - std::f64::consts::FRAC_PI_2).abs() < 1e-12);
}

#[test]
fn file_consumed_once_after_assembly() {
    let (cameras, images, mut files) = scene_source();
    assert!(assemble(&cameras, &images, &mut files).is_ok());
    assert_eq!(files.take("a.png"), Err(Error::UnknownFileName("a.png".to_string())));
}

#[test]
fn unknown_camera_id_is_reported() {
    let (cameras, mut images, mut files) = scene_source();
    images.insert(pose(8, 5, "b.png"));
    files.insert("b.png".to_string(), one_pixel_png());
    assert_eq!(assemble(&cameras, &images, &mut files), Err(Error::UnknownCameraId(5)));
}

#[test]
fn unknown_file_name_is_reported() {
    let (cameras, mut images, mut files) = scene_source();
    images.insert(pose(8, 1, "missing.png"));
    assert_eq!(
        assemble(&cameras, &images, &mut files),
        Err(Error::UnknownFileName("missing.png".to_string()))
    );
}

#[test]
fn one_unknown_camera_always_fails_alike() {
    for run in 0..50u32 {
        let mut cameras = Cameras::new();
        cameras.insert(Camera::Pinhole(pinhole(1, 4, 4, [2.0; 4])));
        let mut images = Images::new();
        let mut files = Files::new();
        let bad = run % 8;
        for k in 0..8u32 {
            let name = format!("{k}.png");
            let camera = if k == bad { 99 } else { 1 };
            images.insert(pose(k, camera, &name));
            files.insert(name, one_pixel_png());
        }
        assert_eq!(assemble(&cameras, &images, &mut files), Err(Error::UnknownCameraId(99)));
    }
}

#[test]
fn broken_image_file_is_a_codec_error() {
    let (cameras, images, mut files) = scene_source();
    files.insert("a.png".to_string(), vec![0, 1, 2]);
    assert!(matches!(assemble(&cameras, &images, &mut files), Err(Error::ImageCodec(_))));
}

#[test]
fn default_try_from_error() {
    let mut source = ColmapSource::default();
    source.cameras.insert(Camera::Pinhole(pinhole(0, 0, 0, [0.0; 4])));
    source.files.insert(String::new(), Vec::new());
    source.images.insert(pose(0, 0, ""));
    source.points.push(Point { position: [0; 3], color: [0; 3] });
    assert!(source.into_dataset().is_err());
}

#[test]
fn dataset_keeps_points() {
    let (cameras, images, files) = scene_source();
    let point = Point { position: bits3([1.0, 2.0, 3.0]), color: [9, 8, 7] };
    let source = ColmapSource { cameras, files, images, points: vec![point] };
    let dataset = source.into_dataset().ok().unwrap();
    assert_eq!(dataset.points, vec![point]);
    assert_eq!(dataset.views.len(), 1);
}

#[test]
fn camera_record_zero_size_is_refused() {
    let bytes = camera_bytes(6, 1, 0, 480, [1.0; 4]);
    assert_eq!(Camera::decode(&bytes, 0), Err(Error::ZeroCameraSize(6)));
    let bytes = camera_bytes(7, 1, 640, 0, [1.0; 4]);
    assert_eq!(Camera::decode(&bytes, 0), Err(Error::ZeroCameraSize(7)));
    let bytes = camera_bytes(8, 2, 0, 0, [1.0; 4]);
    assert_eq!(Camera::decode(&bytes, 0), Err(Error::UnsupportedCameraModel(2)));
}
