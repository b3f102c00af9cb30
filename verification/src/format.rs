//! The PAM byte layout: for each part of the model, the bytes that stand for
//! it and the error, if any, that stops the writing of it.
use crate::emission::{chain, chain_all, emit, fail, Emission};
use crate::error::Error;
use crate::types::{AddsInfo, FrameInfo, ImageInfo, PamInfo, SpriteInfo, PAM_MAGIC, MovesInfo, RemovesInfo, FRAME_ADDS, FRAME_COMMANDS, FRAME_MOVES, FRAME_NAME, FRAME_REMOVES, FRAME_STOP, MOVE_ANIM_FRAME_NUM, MOVE_COLOR, MOVE_LONG_COORDS, MOVE_MATRIX, MOVE_ROTATE, MOVE_SRC_RECT};
use crate::wire::{le_i16, le_i32, le_u16, le_u32};
use vstd::prelude::*;
use vstd::utf8::encode_utf8;

verus! {

/// A count stored in one byte.
pub open spec fn u8_count_bytes(count: usize, field: &'static str) -> Emission {
    if count > 255 {
        fail(Error::ValueOutOfRange { field, value: count as i64 })
    } else {
        emit(seq![count as u8])
    }
}

/// A count stored in two bytes.
pub open spec fn u16_len_bytes(count: usize, field: &'static str) -> Emission {
    if count > 65535 {
        fail(Error::ValueOutOfRange { field, value: count as i64 })
    } else {
        emit(le_u16(count as u16))
    }
}

/// A count below 255 takes one byte; a larger one is the byte 255 followed by
/// the count in two bytes.
pub open spec fn variant_count_bytes(count: usize, field: &'static str) -> Emission {
    if count < 255 {
        emit(seq![count as u8])
    } else {
        chain(emit(seq![255u8]), u16_len_bytes(count, field))
    }
}

/// A string: the length of its UTF-8 encoding in two bytes, then the encoding.
pub open spec fn string_bytes(s: Seq<char>) -> Emission {
    let b = encode_utf8(s);
    if b.len() > 65535 {
        fail(Error::ValueOutOfRange { field: "string.length", value: b.len() as i64 })
    } else {
        emit(le_u16(b.len() as u16) + b)
    }
}

/// A removal: an index below 2047 in two bytes, or the marker 2047 followed by
/// the index in four bytes.
pub open spec fn removes_bytes(info: RemovesInfo) -> Emission {
    if info.index >= 2047 {
        emit(le_u16(2047) + le_i32(info.index))
    } else {
        emit(le_u16(info.index as u16))
    }
}

/// The two-byte head of an addition: the index (or the marker 2047) in the
/// low bits, together with the bits sprite (32768), additive (16384), preload
/// frame present (8192), name present (4096) and time scale present (2048).
pub open spec fn adds_head(info: AddsInfo) -> u16 {
    (if info.index >= 2047 { 2047u16 } else { info.index as u16 })
        | (if info.sprite { 32768u16 } else { 0u16 })
        | (if info.additive { 16384u16 } else { 0u16 })
        | (if info.preload_frame != 0 { 8192u16 } else { 0u16 })
        | (if info.name is Some { 4096u16 } else { 0u16 })
        | (if info.time_scale_set { 2048u16 } else { 0u16 })
}

/// The resource index of an addition: one byte, or from version 6 on, for an
/// index of 255 or more, the byte 255 followed by the index in two bytes.
pub open spec fn resource_bytes(resource: u32, version: i32) -> Emission {
    if version >= 6 && resource >= 255 {
        if resource > 65535 {
            fail(Error::ValueOutOfRange { field: "append.resource", value: resource as i64 })
        } else {
            emit(seq![255u8] + le_u16(resource as u16))
        }
    } else if resource > 255 {
        fail(Error::ValueOutOfRange { field: "append.resource", value: resource as i64 })
    } else {
        emit(seq![resource as u8])
    }
}

/// The head of an addition, followed by its full index when that does not
/// fit the head.
pub open spec fn adds_index_bytes(info: AddsInfo) -> Seq<u8> {
    le_u16(adds_head(info)) + (if info.index >= 2047 { le_i32(info.index) } else { Seq::empty() })
}

/// The fields of an addition that its head marks present, in order: preload
/// frame, name and time scale.
pub open spec fn adds_tail_bytes(info: AddsInfo) -> Emission {
    chain(
        emit(
            if adds_head(info) & 8192 != 0 {
                le_i16(info.preload_frame as i16)
            } else {
                Seq::empty()
            },
        ),
        chain(
            match info.name {
                Some(name) => string_bytes(name@),
                None => emit(Seq::empty()),
            },
            emit(if adds_head(info) & 2048 != 0 { le_i32(info.time_scale) } else { Seq::empty() }),
        ),
    )
}

/// An addition: its head and index, the resource, then the fields that the
/// head marks present.
pub open spec fn adds_bytes(info: AddsInfo, version: i32) -> Emission {
    chain(
        emit(adds_index_bytes(info)),
        chain(resource_bytes(info.resource, version), adds_tail_bytes(info)),
    )
}

/// The flags of a move: a matrix when the transform has six components or
/// more, else a rotation when it has three or more and the first rotates; then
/// source rectangle, colour and sprite frame number when present; and always
/// 32-bit coordinates.
pub open spec fn move_flags(info: MovesInfo) -> u16 {
    let t = info.transform@;
    (if t.len() >= 6 {
        MOVE_MATRIX
    } else if t.len() >= 3 && t[0].rotates {
        MOVE_ROTATE
    } else {
        0u16
    }) | (if info.source_rectangle is Some { MOVE_SRC_RECT } else { 0u16 }) | (if info.color is Some {
        MOVE_COLOR
    } else {
        0u16
    }) | (if info.sprite_frame_number is Some { MOVE_ANIM_FRAME_NUM } else { 0u16 })
        | MOVE_LONG_COORDS
}

/// The translation stored for a move: the last two components of its
/// transform, or zero when it has fewer than two.
pub open spec fn move_translation(info: MovesInfo) -> (i32, i32) {
    let t = info.transform@;
    if t.len() >= 2 {
        (t[t.len() - 2].offset, t[t.len() - 1].offset)
    } else {
        (0i32, 0i32)
    }
}

/// The head of a move (its index, or the marker 1023, together with its
/// flags), followed by its full index when that does not fit the head.
pub open spec fn move_index_bytes(info: MovesInfo) -> Seq<u8> {
    le_u16((if info.index >= 1023 { 1023u16 } else { info.index as u16 }) | move_flags(info)) + (
    if info.index >= 1023 {
        le_i32(info.index)
    } else {
        Seq::empty()
    })
}

/// The matrix (a, c, b, d) or the rotation of a move, whichever its flags
/// name, then its translation.
pub open spec fn move_transform_bytes(info: MovesInfo) -> Seq<u8> {
    let t = info.transform@;
    (if t.len() >= 6 {
        le_i32(t[0].matrix) + le_i32(t[2].matrix) + le_i32(t[1].matrix) + le_i32(t[3].matrix)
    } else if t.len() >= 3 && t[0].rotates {
        le_i16(t[0].angle)
    } else {
        Seq::empty()
    }) + le_i32(move_translation(info).0) + le_i32(move_translation(info).1)
}

/// The source rectangle, colour and sprite frame number of a move, those that
/// are present.
pub open spec fn move_extra_bytes(info: MovesInfo) -> Seq<u8> {
    (match info.source_rectangle {
        Some(r) => le_i16(r.position[0]) + le_i16(r.position[1]) + le_i16(r.size[0]) + le_i16(
            r.size[1],
        ),
        None => Seq::empty(),
    }) + (match info.color {
        Some(c) => seq![c[0], c[1], c[2], c[3]],
        None => Seq::empty(),
    }) + (match info.sprite_frame_number {
        Some(n) => le_i16(n as i16),
        None => Seq::empty(),
    })
}

/// A move: its head and index, its transform, then its extras.
pub open spec fn moves_bytes(info: MovesInfo) -> Emission {
    emit(move_index_bytes(info) + move_transform_bytes(info) + move_extra_bytes(info))
}

/// A frame command: its name and its argument, as two strings.
pub open spec fn command_bytes(cmd: [String; 2]) -> Emission {
    chain(string_bytes(cmd[0]@), string_bytes(cmd[1]@))
}

/// The writer of one removal.
pub open spec fn removes_writer() -> spec_fn(RemovesInfo) -> Emission {
    |info: RemovesInfo| removes_bytes(info)
}

/// The writer of one addition in a file of version `version`.
pub open spec fn adds_writer(version: i32) -> spec_fn(AddsInfo) -> Emission {
    |info: AddsInfo| adds_bytes(info, version)
}

/// The writer of one move.
pub open spec fn moves_writer() -> spec_fn(MovesInfo) -> Emission {
    |info: MovesInfo| moves_bytes(info)
}

/// The writer of one command.
pub open spec fn command_writer() -> spec_fn([String; 2]) -> Emission {
    |cmd: [String; 2]| command_bytes(cmd)
}

/// The flags of a frame: one bit for each of removals, additions, moves,
/// label, stop and commands that the frame has.
pub open spec fn frame_flags(frame: FrameInfo) -> u8 {
    (if frame.remove@.len() > 0 { FRAME_REMOVES } else { 0u8 }) | (if frame.append@.len() > 0 {
        FRAME_ADDS
    } else {
        0u8
    }) | (if frame.change@.len() > 0 { FRAME_MOVES } else { 0u8 }) | (if frame.label is Some {
        FRAME_NAME
    } else {
        0u8
    }) | (if frame.stop { FRAME_STOP } else { 0u8 }) | (if frame.command@.len() > 0 {
        FRAME_COMMANDS
    } else {
        0u8
    })
}

/// The removals of a frame, when it has any: their count, then each.
pub open spec fn frame_removes_bytes(frame: FrameInfo) -> Emission {
    if frame.remove@.len() > 0 {
        chain(
            variant_count_bytes(frame.remove.len(), "frame.remove"),
            chain_all(frame.remove@, removes_writer()),
        )
    } else {
        emit(Seq::empty())
    }
}

/// The additions of a frame, when it has any: their count, then each.
pub open spec fn frame_adds_bytes(frame: FrameInfo, version: i32) -> Emission {
    if frame.append@.len() > 0 {
        chain(
            variant_count_bytes(frame.append.len(), "frame.append"),
            chain_all(frame.append@, adds_writer(version)),
        )
    } else {
        emit(Seq::empty())
    }
}

/// The moves of a frame, when it has any: their count, then each.
pub open spec fn frame_moves_bytes(frame: FrameInfo) -> Emission {
    if frame.change@.len() > 0 {
        chain(
            variant_count_bytes(frame.change.len(), "frame.change"),
            chain_all(frame.change@, moves_writer()),
        )
    } else {
        emit(Seq::empty())
    }
}

/// The label of a frame, when it has one.
pub open spec fn frame_label_bytes(frame: FrameInfo) -> Emission {
    match frame.label {
        Some(label) => string_bytes(label@),
        None => emit(Seq::empty()),
    }
}

/// The commands of a frame, when it has any: their count in one byte, then
/// each.
pub open spec fn frame_commands_bytes(frame: FrameInfo) -> Emission {
    if frame.command@.len() > 0 {
        chain(
            u8_count_bytes(frame.command.len(), "frame.command"),
            chain_all(frame.command@, command_writer()),
        )
    } else {
        emit(Seq::empty())
    }
}

/// A frame: its flags in one byte, then its removals, additions, moves,
/// label and commands.
pub open spec fn frame_bytes(frame: FrameInfo, version: i32) -> Emission {
    chain(
        emit(seq![frame_flags(frame)]),
        chain(
            frame_removes_bytes(frame),
            chain(
                frame_adds_bytes(frame, version),
                chain(
                    frame_moves_bytes(frame),
                    chain(frame_label_bytes(frame), frame_commands_bytes(frame)),
                ),
            ),
        ),
    )
}

/// The writer of one frame in a file of version `version`.
pub open spec fn frame_writer(version: i32) -> spec_fn(FrameInfo) -> Emission {
    |frame: FrameInfo| frame_bytes(frame, version)
}

/// What precedes the frame count of a sprite: nothing before version 4; from
/// version 4 on its name and its frame rate, and from version 6 on an empty
/// string between them.
pub open spec fn sprite_head_bytes(sprite: SpriteInfo, version: i32) -> Emission {
    if version >= 4 {
        match sprite.name {
            None => fail(Error::MissingRequiredField { field: "sprite.name" }),
            Some(name) => chain(
                string_bytes(name@),
                chain(
                    emit(if version >= 6 { seq![0u8, 0u8] } else { Seq::empty() }),
                    match sprite.frame_rate {
                        None => fail(Error::MissingRequiredField { field: "sprite.frame_rate" }),
                        Some(rate) => emit(le_i32(rate)),
                    },
                ),
            ),
        }
    } else {
        emit(Seq::empty())
    }
}

/// The work area of a sprite, from version 5 on.
pub open spec fn sprite_work_area_bytes(sprite: SpriteInfo, version: i32) -> Emission {
    if version >= 5 {
        match sprite.work_area {
            None => fail(Error::MissingRequiredField { field: "sprite.work_area" }),
            Some(w) => emit(le_i16(w[0] as i16) + le_i16(w[1] as i16)),
        }
    } else {
        emit(Seq::empty())
    }
}

/// A sprite: its head, its frame count in two bytes, its work area, then its
/// frames.
pub open spec fn sprite_bytes(sprite: SpriteInfo, version: i32) -> Emission {
    chain(
        sprite_head_bytes(sprite, version),
        chain(
            u16_len_bytes(sprite.frame.len(), "sprite.frame"),
            chain(
                sprite_work_area_bytes(sprite, version),
                chain_all(sprite.frame@, frame_writer(version)),
            ),
        ),
    )
}

/// The writer of one sprite in a file of version `version`.
pub open spec fn sprite_writer(version: i32) -> spec_fn(SpriteInfo) -> Emission {
    |sprite: SpriteInfo| sprite_bytes(sprite, version)
}

/// The size of an image, from version 4 on.
pub open spec fn image_size_bytes(img: ImageInfo, version: i32) -> Emission {
    if version >= 4 {
        match img.size {
            None => fail(Error::MissingRequiredField { field: "image.size" }),
            Some(s) => emit(le_i16(s[0] as i16) + le_i16(s[1] as i16)),
        }
    } else {
        emit(Seq::empty())
    }
}

/// The transform of an image: in version 1 exactly three components (angle,
/// x, y); from version 2 on exactly six (a, b, c, d, x, y), the matrix stored
/// as a, c, b, d.
pub open spec fn image_transform_bytes(img: ImageInfo, version: i32) -> Emission {
    let t = img.transform@;
    if version == 1 {
        if t.len() != 3 {
            fail(
                Error::InvalidTransform {
                    field: "image.transform",
                    expected: "3 values for PAM v1",
                    actual: img.transform.len(),
                },
            )
        } else {
            emit(le_i16(t[0].angle) + le_i16(t[1].offset) + le_i16(t[2].offset))
        }
    } else {
        if t.len() != 6 {
            fail(
                Error::InvalidTransform {
                    field: "image.transform",
                    expected: "6 values for PAM v2+",
                    actual: img.transform.len(),
                },
            )
        } else {
            emit(
                le_i32(t[0].matrix) + le_i32(t[2].matrix) + le_i32(t[1].matrix) + le_i32(t[3].matrix)
                    + le_i16(t[4].offset) + le_i16(t[5].offset),
            )
        }
    }
}

/// An image: its name, its size, then its transform.
pub open spec fn image_bytes(img: ImageInfo, version: i32) -> Emission {
    chain(
        string_bytes(img.name@),
        chain(image_size_bytes(img, version), image_transform_bytes(img, version)),
    )
}

/// The writer of one image in a file of version `version`.
pub open spec fn image_writer(version: i32) -> spec_fn(ImageInfo) -> Emission {
    |img: ImageInfo| image_bytes(img, version)
}

/// The fixed-size head of a file: magic, version, frame rate (its low byte),
/// position and size.
pub open spec fn pam_header_bytes(pam: PamInfo) -> Seq<u8> {
    le_u32(PAM_MAGIC) + le_u32(pam.version as u32) + seq![pam.frame_rate as u8] + le_i16(
        pam.position[0],
    ) + le_i16(pam.position[1]) + le_u16(pam.size[0]) + le_u16(pam.size[1])
}

/// The main sprite: from version 4 on, one byte that says whether there is
/// one, then the sprite if so; before version 4, the sprite, which must be
/// there.
pub open spec fn pam_main_sprite_bytes(pam: PamInfo) -> Emission {
    if pam.version > 3 {
        match pam.main_sprite {
            Some(main) => chain(emit(seq![1u8]), sprite_bytes(main, pam.version)),
            None => emit(seq![0u8]),
        }
    } else {
        match pam.main_sprite {
            Some(main) => sprite_bytes(main, pam.version),
            None => fail(Error::MissingRequiredField { field: "main_sprite" }),
        }
    }
}

/// Everything after the head: the image count and the images, the sprite
/// count and the sprites, then the main sprite.
pub open spec fn pam_body_bytes(pam: PamInfo) -> Emission {
    chain(
        u16_len_bytes(pam.image.len(), "pam.image"),
        chain(
            chain_all(pam.image@, image_writer(pam.version)),
            chain(
                u16_len_bytes(pam.sprite.len(), "pam.sprite"),
                chain(chain_all(pam.sprite@, sprite_writer(pam.version)), pam_main_sprite_bytes(pam)),
            ),
        ),
    )
}

/// A whole file: for a version from 1 to 6, the head, then the body.
pub open spec fn pam_bytes(pam: PamInfo) -> Emission {
    if !(1 <= pam.version <= 6) {
        fail(Error::VersionOutOfRange(pam.version))
    } else {
        chain(emit(pam_header_bytes(pam)), pam_body_bytes(pam))
    }
}

} // verus!
