use pam_codec::encoder::{
    write_adds_info, write_frame_info, write_image_info, write_moves_info, write_removes_info,
    write_sprite_info, write_string_by_u16, write_u16_len,
};
use pam_codec::{
    encode_pam, write_u8_count, write_variant_count, AddsInfo, Error, FrameInfo, ImageInfo,
    ImageTransformValue, MoveTransformValue, MovesInfo, PamInfo, Rectangle, RemovesInfo,
    SpriteInfo, PAM_MAGIC,
};

fn adds(index: i32, resource: u32) -> AddsInfo {
    AddsInfo {
        index,
        name: None,
        resource,
        sprite: false,
        additive: false,
        preload_frame: 0,
        time_scale: 65536,
        time_scale_set: false,
    }
}

fn moves(index: i32, transform: Vec<MoveTransformValue>) -> MovesInfo {
    MovesInfo { index, transform, color: None, source_rectangle: None, sprite_frame_number: None }
}

fn mtv(matrix: i32, angle: i16, offset: i32, rotates: bool) -> MoveTransformValue {
    MoveTransformValue { matrix, angle, offset, rotates }
}

fn itv(angle: i16, matrix: i32, offset: i16) -> ImageTransformValue {
    ImageTransformValue { angle, matrix, offset }
}

fn pam(version: i32, main_sprite: Option<SpriteInfo>) -> PamInfo {
    PamInfo {
        version,
        frame_rate: 24,
        position: [0, 0],
        size: [20, 20],
        image: Vec::new(),
        sprite: vec![SpriteInfo::default()],
        main_sprite,
    }
}

#[test]
fn u8_count_fits_and_overflows() {
    let mut w = Vec::new();
    assert!(write_u8_count(0, "c", &mut w).is_ok());
    assert!(write_u8_count(255, "c", &mut w).is_ok());
    assert_eq!(w, vec![0, 255]);
    let r = write_u8_count(256, "frame.command", &mut w);
    assert!(matches!(r, Err(Error::ValueOutOfRange { field: "frame.command", value: 256 })));
    assert_eq!(w, vec![0, 255]);
}

#[test]
fn u16_len_is_little_endian() {
    let mut w = Vec::new();
    assert!(write_u16_len(0x1234, "n", &mut w).is_ok());
    assert_eq!(w, vec![0x34, 0x12]);
    assert!(matches!(
        write_u16_len(65536, "pam.image", &mut w),
        Err(Error::ValueOutOfRange { field: "pam.image", value: 65536 })
    ));
    assert_eq!(w, vec![0x34, 0x12]);
}

#[test]
fn variant_count_short_and_long_forms() {
    let mut w = Vec::new();
    assert!(write_variant_count(254, "f", &mut w).is_ok());
    assert_eq!(w, vec![254]);
    let mut w = Vec::new();
    assert!(write_variant_count(255, "f", &mut w).is_ok());
    assert_eq!(w, vec![255, 255, 0]);
    let mut w = Vec::new();
    assert!(write_variant_count(300, "f", &mut w).is_ok());
    assert_eq!(w, vec![255, 44, 1]);
}

#[test]
fn variant_count_too_large_keeps_marker_byte() {
    let mut w = Vec::new();
    let r = write_variant_count(70000, "frame.remove", &mut w);
    assert!(matches!(r, Err(Error::ValueOutOfRange { field: "frame.remove", value: 70000 })));
    assert_eq!(w, vec![255]);
}

#[test]
fn strings_are_length_prefixed_utf8() {
    let mut w = Vec::new();
    assert!(write_string_by_u16("abc", &mut w).is_ok());
    assert_eq!(w, vec![3, 0, b'a', b'b', b'c']);
    let mut w = Vec::new();
    assert!(write_string_by_u16("", &mut w).is_ok());
    assert_eq!(w, vec![0, 0]);
    let mut w = Vec::new();
    assert!(write_string_by_u16("\u{e9}", &mut w).is_ok());
    assert_eq!(w, vec![2, 0, 0xC3, 0xA9]);
}

#[test]
fn string_too_long_is_refused() {
    let long = "x".repeat(65536);
    let mut w = vec![7];
    let r = write_string_by_u16(&long, &mut w);
    assert!(matches!(r, Err(Error::ValueOutOfRange { field: "string.length", value: 65536 })));
    assert_eq!(w, vec![7]);
    let fits = "x".repeat(65535);
    let mut w = Vec::new();
    assert!(write_string_by_u16(&fits, &mut w).is_ok());
    assert_eq!(w.len(), 65537);
    assert_eq!(&w[..2], &[0xFF, 0xFF]);
}

#[test]
fn removes_small_large_and_negative_index() {
    let mut w = Vec::new();
    assert!(write_removes_info(&RemovesInfo { index: 5 }, &mut w).is_ok());
    assert_eq!(w, vec![5, 0]);
    let mut w = Vec::new();
    assert!(write_removes_info(&RemovesInfo { index: 3000 }, &mut w).is_ok());
    assert_eq!(w, vec![0xFF, 0x07, 0xB8, 0x0B, 0, 0]);
    let mut w = Vec::new();
    assert!(write_removes_info(&RemovesInfo { index: 2046 }, &mut w).is_ok());
    assert_eq!(w, vec![0xFE, 0x07]);
    let mut w = Vec::new();
    assert!(write_removes_info(&RemovesInfo { index: -1 }, &mut w).is_ok());
    assert_eq!(w, vec![0xFF, 0xFF]);
}

#[test]
fn adds_plain_sprite() {
    let mut a = adds(5, 3);
    a.sprite = true;
    let mut w = Vec::new();
    assert!(write_adds_info(&a, &mut w, 4).is_ok());
    assert_eq!(w, vec![0x05, 0x80, 3]);
}

#[test]
fn adds_every_optional_field() {
    let a = AddsInfo {
        index: 3000,
        name: Some("ab".to_string()),
        resource: 300,
        sprite: false,
        additive: true,
        preload_frame: 7,
        time_scale: 131072,
        time_scale_set: true,
    };
    let mut w = Vec::new();
    assert!(write_adds_info(&a, &mut w, 6).is_ok());
    assert_eq!(
        w,
        vec![
            0xFF, 0x7F, 0xB8, 0x0B, 0, 0, 255, 0x2C, 0x01, 7, 0, 2, 0, b'a', b'b', 0, 0, 2, 0
        ]
    );
}

#[test]
fn adds_negative_index_sets_every_head_bit() {
    let mut a = adds(-1, 0);
    a.time_scale = -2;
    let mut w = Vec::new();
    assert!(write_adds_info(&a, &mut w, 3).is_ok());
    assert_eq!(w, vec![0xFF, 0xFF, 0, 0, 0, 0xFE, 0xFF, 0xFF, 0xFF]);
}

#[test]
fn adds_resource_limits_depend_on_version() {
    let mut w = Vec::new();
    let r = write_adds_info(&adds(1, 256), &mut w, 5);
    assert!(matches!(r, Err(Error::ValueOutOfRange { field: "append.resource", value: 256 })));
    assert_eq!(w, vec![1, 0]);
    let mut w = Vec::new();
    assert!(write_adds_info(&adds(1, 255), &mut w, 5).is_ok());
    assert_eq!(w, vec![1, 0, 255]);
    let mut w = Vec::new();
    assert!(write_adds_info(&adds(1, 255), &mut w, 6).is_ok());
    assert_eq!(w, vec![1, 0, 255, 255, 0]);
    let mut w = Vec::new();
    let r = write_adds_info(&adds(1, 70000), &mut w, 6);
    assert!(matches!(r, Err(Error::ValueOutOfRange { field: "append.resource", value: 70000 })));
}

#[test]
fn moves_with_matrix() {
    let t: Vec<MoveTransformValue> = (1..=6).map(|i| mtv(i, 0, 10 * i, false)).collect();
    let mut w = Vec::new();
    assert!(write_moves_info(&moves(2, t), &mut w, 6).is_ok());
    assert_eq!(
        w,
        vec![
            0x02, 0x18, 1, 0, 0, 0, 3, 0, 0, 0, 2, 0, 0, 0, 4, 0, 0, 0, 50, 0, 0, 0, 60, 0, 0, 0
        ]
    );
}

#[test]
fn moves_with_rotation() {
    let t = vec![mtv(0, 1571, 0, true), mtv(0, 0, 40, false), mtv(0, 0, -20, false)];
    let mut w = Vec::new();
    assert!(write_moves_info(&moves(1, t), &mut w, 6).is_ok());
    assert_eq!(w, vec![0x01, 0x48, 0x23, 0x06, 40, 0, 0, 0, 0xEC, 0xFF, 0xFF, 0xFF]);
}

#[test]
fn moves_rotation_needs_a_turning_angle() {
    let t = vec![mtv(0, 0, 0, false), mtv(0, 0, 1, false), mtv(0, 0, 2, false)];
    let mut w = Vec::new();
    assert!(write_moves_info(&moves(1, t), &mut w, 6).is_ok());
    assert_eq!(w, vec![0x01, 0x08, 1, 0, 0, 0, 2, 0, 0, 0]);
}

#[test]
fn moves_with_extras_and_no_transform() {
    let mut m = moves(1500, Vec::new());
    m.color = Some([1, 2, 3, 4]);
    m.sprite_frame_number = Some(-2);
    m.source_rectangle = Some(Rectangle { position: [1, 2], size: [3, 4] });
    let mut w = Vec::new();
    assert!(write_moves_info(&m, &mut w, 6).is_ok());
    assert_eq!(
        w,
        vec![
            0xFF, 0xAF, 0xDC, 0x05, 0, 0, 0, 0, 0, 0, 0, 0, 0, 0, 1, 0, 2, 0, 3, 0, 4, 0, 1, 2, 3,
            4, 0xFE, 0xFF
        ]
    );
}

#[test]
fn frame_flags_and_sections() {
    let mut w = Vec::new();
    assert!(write_frame_info(&FrameInfo::default(), &mut w, 6).is_ok());
    assert_eq!(w, vec![0]);

    let mut f = FrameInfo::default();
    f.stop = true;
    f.label = Some("a".to_string());
    let mut w = Vec::new();
    assert!(write_frame_info(&f, &mut w, 6).is_ok());
    assert_eq!(w, vec![24, 1, 0, b'a']);

    let mut f = FrameInfo::default();
    f.remove = vec![RemovesInfo { index: 1 }];
    f.append = vec![adds(2, 9)];
    f.change = vec![moves(3, Vec::new())];
    f.command = vec![["x".to_string(), "y".to_string()]];
    let mut w = Vec::new();
    assert!(write_frame_info(&f, &mut w, 6).is_ok());
    assert_eq!(
        w,
        vec![
            1 | 2 | 4 | 32,
            1, 1, 0,
            1, 2, 0, 9,
            1, 0x03, 0x08, 0, 0, 0, 0, 0, 0, 0, 0,
            1, 1, 0, b'x', 1, 0, b'y'
        ]
    );
}

#[test]
fn frame_with_too_many_commands() {
    let mut f = FrameInfo::default();
    f.command = (0..256).map(|_| ["a".to_string(), "b".to_string()]).collect();
    let mut w = Vec::new();
    let r = write_frame_info(&f, &mut w, 6);
    assert!(matches!(r, Err(Error::ValueOutOfRange { field: "frame.command", value: 256 })));
    assert_eq!(w, vec![32]);
}

#[test]
fn sprites_by_version() {
    let named = SpriteInfo {
        name: Some("s".to_string()),
        frame_rate: Some(30 * 65536),
        work_area: Some([0, 5]),
        frame: Vec::new(),
    };
    let mut w = Vec::new();
    assert!(write_sprite_info(&named, &mut w, 3).is_ok());
    assert_eq!(w, vec![0, 0]);
    let mut w = Vec::new();
    assert!(write_sprite_info(&named, &mut w, 4).is_ok());
    assert_eq!(w, vec![1, 0, b's', 0, 0, 0x1E, 0, 0, 0]);
    let mut w = Vec::new();
    assert!(write_sprite_info(&named, &mut w, 5).is_ok());
    assert_eq!(w, vec![1, 0, b's', 0, 0, 0x1E, 0, 0, 0, 0, 0, 5, 0]);
    let mut w = Vec::new();
    assert!(write_sprite_info(&named, &mut w, 6).is_ok());
    assert_eq!(w, vec![1, 0, b's', 0, 0, 0, 0, 0x1E, 0, 0, 0, 0, 0, 5, 0]);
}

#[test]
fn sprite_missing_fields() {
    let mut w = Vec::new();
    let r = write_sprite_info(&SpriteInfo::default(), &mut w, 4);
    assert!(matches!(r, Err(Error::MissingRequiredField { field: "sprite.name" })));
    assert!(w.is_empty());

    let mut s = SpriteInfo::default();
    s.name = Some("s".to_string());
    let mut w = Vec::new();
    let r = write_sprite_info(&s, &mut w, 6);
    assert!(matches!(r, Err(Error::MissingRequiredField { field: "sprite.frame_rate" })));
    assert_eq!(w, vec![1, 0, b's', 0, 0]);

    s.frame_rate = Some(1);
    let mut w = Vec::new();
    let r = write_sprite_info(&s, &mut w, 5);
    assert!(matches!(r, Err(Error::MissingRequiredField { field: "sprite.work_area" })));
    assert_eq!(w, vec![1, 0, b's', 1, 0, 0, 0, 0, 0]);
}

#[test]
fn version3_sprite_is_written_without_name_or_frame_rate() {
    let plain = SpriteInfo::default();
    let mut named = SpriteInfo::default();
    named.name = Some("walk".to_string());
    named.frame_rate = Some(12 * 65536);
    named.frame = Vec::new();
    let mut a = Vec::new();
    let mut b = Vec::new();
    assert!(write_sprite_info(&plain, &mut a, 3).is_ok());
    assert!(write_sprite_info(&named, &mut b, 3).is_ok());
    assert_eq!(a, b);
}

#[test]
fn images_by_version() {
    let v1 = ImageInfo {
        name: "i".to_string(),
        size: None,
        transform: vec![itv(1000, 0, 0), itv(0, 0, 20), itv(0, 0, -20)],
    };
    let mut w = Vec::new();
    assert!(write_image_info(&v1, &mut w, 1).is_ok());
    assert_eq!(w, vec![1, 0, b'i', 0xE8, 0x03, 20, 0, 0xEC, 0xFF]);

    let six: Vec<ImageTransformValue> = (1..=6).map(|i| itv(0, i * 1310720, i as i16)).collect();
    let v2 = ImageInfo { name: "i".to_string(), size: Some([64, 32]), transform: six };
    let mut w = Vec::new();
    assert!(write_image_info(&v2, &mut w, 2).is_ok());
    assert_eq!(
        w,
        vec![
            1, 0, b'i', 0, 0, 0x14, 0, 0, 0, 0x3C, 0, 0, 0, 0x28, 0, 0, 0, 0x50, 0, 5, 0, 6, 0
        ]
    );
    let mut w = Vec::new();
    assert!(write_image_info(&v2, &mut w, 4).is_ok());
    assert_eq!(&w[..7], &[1, 0, b'i', 64, 0, 32, 0]);
    assert_eq!(w.len(), 27);
}

#[test]
fn image_errors() {
    let v1 = ImageInfo {
        name: "i".to_string(),
        size: None,
        transform: vec![itv(0, 0, 0), itv(0, 0, 0), itv(0, 0, 0)],
    };
    let mut w = Vec::new();
    let r = write_image_info(&v1, &mut w, 2);
    assert!(matches!(
        r,
        Err(Error::InvalidTransform {
            field: "image.transform",
            expected: "6 values for PAM v2+",
            actual: 3
        })
    ));
    assert_eq!(w, vec![1, 0, b'i']);
    let mut w = Vec::new();
    let r = write_image_info(&v1, &mut w, 4);
    assert!(matches!(r, Err(Error::MissingRequiredField { field: "image.size" })));
    let mut w = Vec::new();
    let short = ImageInfo { name: "i".to_string(), size: None, transform: Vec::new() };
    let r = write_image_info(&short, &mut w, 1);
    assert!(matches!(
        r,
        Err(Error::InvalidTransform { field: "image.transform", expected: "3 values for PAM v1", actual: 0 })
    ));
}

#[test]
fn version_out_of_range_writes_nothing() {
    for v in [0, 7, -1, i32::MAX] {
        let mut w = vec![9, 9];
        let r = encode_pam(&pam(v, None), &mut w);
        assert!(matches!(r, Err(Error::VersionOutOfRange(x)) if x == v));
        assert_eq!(w, vec![9, 9]);
    }
}

#[test]
fn version3_file() {
    let mut w = Vec::new();
    assert!(encode_pam(&pam(3, Some(SpriteInfo::default())), &mut w).is_ok());
    assert_eq!(
        w,
        vec![
            0x54, 0x19, 0xF0, 0xBA, 3, 0, 0, 0, 24, 0, 0, 0, 0, 20, 0, 20, 0, 0, 0, 1, 0, 0, 0, 0,
            0
        ]
    );
}

#[test]
fn header_fields() {
    let mut p = pam(6, None);
    p.sprite = Vec::new();
    p.frame_rate = 300;
    p.position = [-1, 2];
    p.size = [0xFFFF, 1];
    let mut w = Vec::new();
    assert!(encode_pam(&p, &mut w).is_ok());
    assert_eq!(&w[..4], &PAM_MAGIC.to_le_bytes());
    assert_eq!(
        w,
        vec![0x54, 0x19, 0xF0, 0xBA, 6, 0, 0, 0, 44, 0xFF, 0xFF, 2, 0, 0xFF, 0xFF, 1, 0, 0, 0, 0, 0, 0]
    );
}

#[test]
fn main_sprite_is_optional_from_version_4() {
    let mut p = pam(4, None);
    p.sprite = Vec::new();
    let mut w = Vec::new();
    assert!(encode_pam(&p, &mut w).is_ok());
    assert_eq!(w.len(), 22);
    assert_eq!(*w.last().unwrap(), 0);
    let mut with_main = pam(4, Some(SpriteInfo::default()));
    with_main.sprite = Vec::new();
    let mut w = Vec::new();
    let r = encode_pam(&with_main, &mut w);
    assert!(matches!(r, Err(Error::MissingRequiredField { field: "sprite.name" })));
    assert_eq!(w.len(), 22);
    assert_eq!(*w.last().unwrap(), 1);
}

#[test]
fn main_sprite_is_required_before_version_4() {
    let mut w = Vec::new();
    let r = encode_pam(&pam(3, None), &mut w);
    assert!(matches!(r, Err(Error::MissingRequiredField { field: "main_sprite" })));
    assert_eq!(w.len(), 23);
}

#[test]
fn encoding_appends_to_existing_bytes() {
    let mut w = vec![1, 2, 3];
    assert!(encode_pam(&pam(3, Some(SpriteInfo::default())), &mut w).is_ok());
    assert_eq!(&w[..3], &[1, 2, 3]);
    assert_eq!(&w[3..7], &[0x54, 0x19, 0xF0, 0xBA]);
    assert_eq!(w.len(), 28);
}

#[test]
fn every_version_encodes_a_valid_file() {
    for v in 1..=6 {
        let n = if v == 1 { 3 } else { 6 };
        let image = ImageInfo {
            name: "img".to_string(),
            size: Some([8, 8]),
            transform: (0..n).map(|_| itv(0, 0, 0)).collect(),
        };
        let mut frame = FrameInfo::default();
        frame.remove = vec![RemovesInfo { index: 0 }];
        let sprite = SpriteInfo {
            name: Some("s".to_string()),
            frame_rate: Some(65536),
            work_area: Some([0, 1]),
            frame: vec![frame],
        };
        let p = PamInfo {
            version: v,
            frame_rate: 30,
            position: [0, 0],
            size: [0, 0],
            image: vec![image],
            sprite: vec![sprite],
            main_sprite: Some(SpriteInfo {
                name: Some("m".to_string()),
                frame_rate: Some(65536),
                work_area: Some([0, 0]),
                frame: Vec::new(),
            }),
        };
        let mut w = Vec::new();
        assert!(encode_pam(&p, &mut w).is_ok(), "version {}", v);
        assert_eq!(&w[..5], &[0x54, 0x19, 0xF0, 0xBA, v as u8]);
    }
}
