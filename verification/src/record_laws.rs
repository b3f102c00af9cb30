//! What each written record holds at each position, read back with the
//! readers of `readback`.
use crate::format::{
    command_bytes,
    adds_writer, command_writer, frame_adds_bytes, frame_commands_bytes, frame_label_bytes,
    frame_moves_bytes, frame_removes_bytes, moves_writer, removes_writer,
    image_writer, pam_body_bytes, pam_bytes, pam_header_bytes, pam_main_sprite_bytes, removes_bytes,
    sprite_writer, u16_len_bytes, u8_count_bytes, variant_count_bytes,
    adds_bytes, adds_head, adds_index_bytes, adds_tail_bytes, resource_bytes,
    frame_writer, sprite_bytes, sprite_head_bytes, sprite_work_area_bytes,
    frame_bytes, frame_flags,
    image_bytes, image_size_bytes, image_transform_bytes, string_bytes,
    move_extra_bytes, move_flags, move_index_bytes, move_transform_bytes, move_translation, moves_bytes,
};
use crate::readback::{
    i16_at, i32_at, law_le_u32_reads_back, u32_at, law_le_i16_reads_back, law_le_i32_reads_back, law_le_u16_reads_back,
    lemma_prefix, lemma_shift,
    lemma_u16_prefix, lemma_u16_shift, u16_at,
};
use crate::emission::{chain, chain_all, Emission};
use crate::error::Error;
use crate::types::{PamInfo, RemovesInfo, PAM_MAGIC, AddsInfo, FrameInfo, ImageInfo, MovesInfo, SpriteInfo};
use crate::wire::{le_i16, le_i32, le_u16, le_u32};
use vstd::prelude::*;
use vstd::utf8::encode_utf8;

verus! {

/// Where the matrix or rotation of a move starts: after its two-byte head,
/// and after its full index when that does not fit the head.
pub open spec fn move_body_start(info: MovesInfo) -> int {
    if info.index >= 1023 {
        6
    } else {
        2
    }
}

/// Whether a move stores a matrix: its transform has six components or more.
pub open spec fn move_has_matrix(info: MovesInfo) -> bool {
    info.transform@.len() >= 6
}

/// Whether a move stores a rotation: no matrix, three components or more,
/// and a first component that rotates.
pub open spec fn move_has_rotation(info: MovesInfo) -> bool {
    !move_has_matrix(info) && info.transform@.len() >= 3 && info.transform@[0].rotates
}

/// Where the translation of a move starts: after the 16 bytes of a matrix or
/// the 2 bytes of a rotation.
pub open spec fn move_translation_start(info: MovesInfo) -> int {
    move_body_start(info) + if move_has_matrix(info) {
        16int
    } else if move_has_rotation(info) {
        2int
    } else {
        0int
    }
}

/// A move is always written, and its translation is the offsets of the last
/// two components of its transform, in that order, each as a 32-bit number
/// (a transform `[x, y]` stores `x` then `y`); with fewer than two
/// components it is zero, zero.
pub proof fn law_move_translation(info: MovesInfo)
    ensures
        moves_bytes(info).1 is None,
        ({
            let e = moves_bytes(info).0;
            let t = info.transform@;
            let x = move_translation_start(info);
            &&& i32_at(e, x) == if t.len() >= 2 { t[t.len() - 2].offset as int } else { 0 }
            &&& i32_at(e, x + 4) == if t.len() >= 2 { t[t.len() - 1].offset as int } else { 0 }
        }),
{
    let t = info.transform@;
    let head = move_index_bytes(info);
    let extras = move_extra_bytes(info);
    let tx: i32 = if t.len() >= 2 { t[t.len() - 2].offset } else { 0 };
    let ty: i32 = if t.len() >= 2 { t[t.len() - 1].offset } else { 0 };
    let m = if t.len() >= 6 {
        le_i32(t[0].matrix) + le_i32(t[2].matrix) + le_i32(t[1].matrix) + le_i32(t[3].matrix)
    } else if t.len() >= 3 && t[0].rotates {
        le_i16(t[0].angle)
    } else {
        Seq::empty()
    };
    let mx = m + le_i32(tx);
    let tb = mx + le_i32(ty);
    assert(move_transform_bytes(info) == tb);
    assert(head.len() == move_body_start(info));
    assert(m.len() == move_translation_start(info) - move_body_start(info));
    law_le_i32_reads_back(tx);
    law_le_i32_reads_back(ty);
    // x within the transform part
    lemma_shift(m, le_i32(tx), 0);
    lemma_prefix(mx, le_i32(ty), m.len() as int);
    // y within the transform part
    lemma_shift(mx, le_i32(ty), 0);
    // the transform part within the whole
    lemma_prefix(head + tb, extras, head.len() + m.len() as int);
    lemma_prefix(head + tb, extras, head.len() + m.len() + 4int);
    lemma_shift(head, tb, m.len() as int);
    lemma_shift(head, tb, m.len() + 4int);
}

/// The head of a move, one bit per fact, as the two bytes that store it.
proof fn lemma_move_head_bits(idx: u16, mat: bool, rot: bool, src: bool, col: bool, anim: bool)
    requires
        idx <= 1023,
    ensures
        ({
            let h = idx | ((if mat {
                4096u16
            } else if rot {
                16384u16
            } else {
                0u16
            }) | (if src { 32768u16 } else { 0u16 }) | (if col { 8192u16 } else { 0u16 }) | (if anim {
                1024u16
            } else {
                0u16
            }) | 2048u16);
            let lo = (h % 256) as u8;
            let hi = (h / 256) as u8;
            &&& (hi & 0x80 != 0) == src
            &&& (hi & 0x40 != 0) == (!mat && rot)
            &&& (hi & 0x20 != 0) == col
            &&& (hi & 0x10 != 0) == mat
            &&& (hi & 0x08 != 0)
            &&& (hi & 0x04 != 0) == anim
            &&& lo as u16 + 256 * ((hi & 3) as u16) == idx
        }),
{
    assert({
        let h = idx | ((if mat {
            4096u16
        } else if rot {
            16384u16
        } else {
            0u16
        }) | (if src { 32768u16 } else { 0u16 }) | (if col { 8192u16 } else { 0u16 }) | (if anim {
            1024u16
        } else {
            0u16
        }) | 2048u16);
        let lo = (h % 256) as u8;
        let hi = (h / 256) as u8;
        &&& (hi & 0x80 != 0) == src
        &&& (hi & 0x40 != 0) == (!mat && rot)
        &&& (hi & 0x20 != 0) == col
        &&& (hi & 0x10 != 0) == mat
        &&& (hi & 0x08 != 0)
        &&& (hi & 0x04 != 0) == anim
        &&& lo as u16 + 256 * ((hi & 3) as u16) == idx
    }) by (bit_vector)
        requires
            idx <= 1023,
    ;
}

/// The head of a move with a non-negative index: the high byte has one bit
/// for each of source rectangle (0x80), rotation (0x40), colour (0x20),
/// matrix (0x10), 32-bit coordinates (0x08, always) and sprite frame number
/// (0x04); the low ten bits hold the index, or 1023 when the index is 1023
/// or more, in which case the full index follows in four bytes.
pub proof fn law_move_head(info: MovesInfo)
    requires
        info.index >= 0,
    ensures
        ({
            let e = moves_bytes(info).0;
            &&& e[1] & 0x80 != 0 <==> info.source_rectangle is Some
            &&& e[1] & 0x40 != 0 <==> move_has_rotation(info)
            &&& e[1] & 0x20 != 0 <==> info.color is Some
            &&& e[1] & 0x10 != 0 <==> move_has_matrix(info)
            &&& e[1] & 0x08 != 0
            &&& e[1] & 0x04 != 0 <==> info.sprite_frame_number is Some
            &&& e[0] as int + 256 * ((e[1] & 3) as int) == if info.index >= 1023 {
                1023
            } else {
                info.index as int
            }
            &&& info.index >= 1023 ==> i32_at(e, 2) == info.index
        }),
{
    let e = moves_bytes(info).0;
    let t = info.transform@;
    let idx: u16 = if info.index >= 1023 { 1023u16 } else { info.index as u16 };
    let rot = t.len() >= 3 && t[0].rotates;
    lemma_move_head_bits(
        idx,
        t.len() >= 6,
        rot,
        info.source_rectangle is Some,
        info.color is Some,
        info.sprite_frame_number is Some,
    );
    let h = idx | move_flags(info);
    let big = if info.index >= 1023 { le_i32(info.index) } else { Seq::empty() };
    let i = le_u16(h) + big;
    let tr = move_transform_bytes(info);
    let ex = move_extra_bytes(info);
    assert(move_index_bytes(info) == i);
    assert(e == (i + tr) + ex);
    assert(e[0] == (h % 256) as u8);
    assert(e[1] == (h / 256) as u8);
    if info.index >= 1023 {
        law_le_i32_reads_back(info.index);
        lemma_shift(le_u16(h), big, 0);
        lemma_prefix(i, tr, 2);
        lemma_prefix(i + tr, ex, 2);
    }
}

/// The matrix of a move is stored a, c, b, d (its components 0, 2, 1, 3) as
/// 32-bit numbers; a rotation is stored as the angle of its first component
/// in 16 bits.
#[verifier::rlimit(50)]
pub proof fn law_move_matrix_or_rotation(info: MovesInfo)
    ensures
        ({
            let e = moves_bytes(info).0;
            let t = info.transform@;
            let k = move_body_start(info);
            &&& move_has_matrix(info) ==> {
                &&& i32_at(e, k) == t[0].matrix
                &&& i32_at(e, k + 4) == t[2].matrix
                &&& i32_at(e, k + 8) == t[1].matrix
                &&& i32_at(e, k + 12) == t[3].matrix
            }
            &&& move_has_rotation(info) ==> i16_at(e, k) == t[0].angle
        }),
{
    let e = moves_bytes(info).0;
    let t = info.transform@;
    let i = move_index_bytes(info);
    let tr = move_transform_bytes(info);
    let ex = move_extra_bytes(info);
    let x = le_i32(move_translation(info).0);
    let y = le_i32(move_translation(info).1);
    assert(e == (i + tr) + ex);
    assert(i.len() == move_body_start(info));
    if move_has_matrix(info) {
        let a = le_i32(t[0].matrix);
        let c = le_i32(t[2].matrix);
        let b = le_i32(t[1].matrix);
        let d = le_i32(t[3].matrix);
        let m = ((a + c) + b) + d;
        assert(tr == (m + x) + y);
        lemma_prefix(a, c, 0int);
        lemma_prefix((a + c), b, 0int);
        lemma_prefix(((a + c) + b), d, 0int);
        law_le_i32_reads_back(t[0].matrix);
        lemma_prefix(m, x, 0int);
        lemma_prefix(m + x, y, 0int);
        lemma_shift(i, tr, 0int);
        lemma_prefix(i + tr, ex, (i.len() + 0int) as int);
        lemma_shift(a, c, 0int);
        lemma_prefix((a + c), b, (a.len() + 0int) as int);
        lemma_prefix(((a + c) + b), d, (a.len() + 0int) as int);
        law_le_i32_reads_back(t[2].matrix);
        lemma_prefix(m, x, a.len() as int);
        lemma_prefix(m + x, y, a.len() as int);
        lemma_shift(i, tr, a.len() as int);
        lemma_prefix(i + tr, ex, (i.len() + a.len() as int) as int);
        lemma_shift((a + c), b, 0int);
        lemma_prefix(((a + c) + b), d, ((a + c).len() + 0int) as int);
        law_le_i32_reads_back(t[1].matrix);
        lemma_prefix(m, x, (a + c).len() as int);
        lemma_prefix(m + x, y, (a + c).len() as int);
        lemma_shift(i, tr, (a + c).len() as int);
        lemma_prefix(i + tr, ex, (i.len() + (a + c).len() as int) as int);
        lemma_shift(((a + c) + b), d, 0int);
        law_le_i32_reads_back(t[3].matrix);
        lemma_prefix(m, x, ((a + c) + b).len() as int);
        lemma_prefix(m + x, y, ((a + c) + b).len() as int);
        lemma_shift(i, tr, ((a + c) + b).len() as int);
        lemma_prefix(i + tr, ex, (i.len() + ((a + c) + b).len() as int) as int);
    } else if move_has_rotation(info) {
        let m = le_i16(t[0].angle);
        assert(tr == (m + x) + y);
        law_le_i16_reads_back(t[0].angle);
        lemma_prefix(m, x, 0);
        lemma_prefix(m + x, y, 0);
        lemma_shift(i, tr, 0);
        lemma_prefix(i + tr, ex, i.len() as int);
    }
}

/// After the translation of a move come, when present and in this order,
/// its source rectangle (four 16-bit numbers: x, y, width, height), its
/// colour (four bytes: red, green, blue, alpha) and its sprite frame number
/// (16 bits); nothing follows.
#[verifier::rlimit(50)]
pub proof fn law_move_extras(info: MovesInfo)
    ensures
        ({
            let e = moves_bytes(info).0;
            let r = move_translation_start(info) + 8;
            let c = r + if info.source_rectangle is Some { 8int } else { 0int };
            let f = c + if info.color is Some { 4int } else { 0int };
            &&& info.source_rectangle matches Some(rect) ==> {
                &&& i16_at(e, r) == rect.position[0]
                &&& i16_at(e, r + 2) == rect.position[1]
                &&& i16_at(e, r + 4) == rect.size[0]
                &&& i16_at(e, r + 6) == rect.size[1]
            }
            &&& info.color matches Some(col) ==> {
                &&& e[c] == col[0]
                &&& e[c + 1] == col[1]
                &&& e[c + 2] == col[2]
                &&& e[c + 3] == col[3]
            }
            &&& info.sprite_frame_number matches Some(n) ==> i16_at(e, f) == n as i16
            &&& e.len() == f + if info.sprite_frame_number is Some { 2int } else { 0int }
        }),
{
    let e = moves_bytes(info).0;
    let f = move_index_bytes(info) + move_transform_bytes(info);
    let ex = move_extra_bytes(info);
    assert(e == f + ex);
    assert(f.len() == move_translation_start(info) + 8);
    let rb = match info.source_rectangle {
        Some(rect) => le_i16(rect.position[0]) + le_i16(rect.position[1]) + le_i16(rect.size[0])
            + le_i16(rect.size[1]),
        None => Seq::empty(),
    };
    let cb = match info.color {
        Some(col) => seq![col[0], col[1], col[2], col[3]],
        None => Seq::<u8>::empty(),
    };
    let fb = match info.sprite_frame_number {
        Some(n) => le_i16(n as i16),
        None => Seq::empty(),
    };
    assert(ex == (rb + cb) + fb);
    if let Some(rect) = info.source_rectangle {
        let p0 = le_i16(rect.position[0]);
        let p1 = le_i16(rect.position[1]);
        let s0 = le_i16(rect.size[0]);
        let s1 = le_i16(rect.size[1]);
        assert(rb == ((p0 + p1) + s0) + s1);
        lemma_prefix(p0, p1, 0int);
        lemma_prefix((p0 + p1), s0, 0int);
        lemma_prefix(((p0 + p1) + s0), s1, 0int);
        law_le_i16_reads_back(rect.position[0]);
        lemma_prefix(rb, cb, 0int);
        lemma_prefix(rb + cb, fb, 0int);
        lemma_shift(f, ex, 0int);
        lemma_shift(p0, p1, 0int);
        lemma_prefix((p0 + p1), s0, (p0.len() + 0int) as int);
        lemma_prefix(((p0 + p1) + s0), s1, (p0.len() + 0int) as int);
        law_le_i16_reads_back(rect.position[1]);
        lemma_prefix(rb, cb, p0.len() as int);
        lemma_prefix(rb + cb, fb, p0.len() as int);
        lemma_shift(f, ex, p0.len() as int);
        lemma_shift((p0 + p1), s0, 0int);
        lemma_prefix(((p0 + p1) + s0), s1, ((p0 + p1).len() + 0int) as int);
        law_le_i16_reads_back(rect.size[0]);
        lemma_prefix(rb, cb, (p0 + p1).len() as int);
        lemma_prefix(rb + cb, fb, (p0 + p1).len() as int);
        lemma_shift(f, ex, (p0 + p1).len() as int);
        lemma_shift(((p0 + p1) + s0), s1, 0int);
        law_le_i16_reads_back(rect.size[1]);
        lemma_prefix(rb, cb, ((p0 + p1) + s0).len() as int);
        lemma_prefix(rb + cb, fb, ((p0 + p1) + s0).len() as int);
        lemma_shift(f, ex, ((p0 + p1) + s0).len() as int);
    }
    if let Some(col) = info.color {
        let c = (f.len() + rb.len()) as int;
        assert(e[c] == cb[0]);
        assert(e[c + 1] == cb[1]);
        assert(e[c + 2] == cb[2]);
        assert(e[c + 3] == cb[3]);
    }
    if let Some(n) = info.sprite_frame_number {
        law_le_i16_reads_back(n as i16);
        lemma_shift(rb + cb, fb, 0);
        lemma_shift(f, ex, (rb + cb).len() as int);
    }
}

/// Where the transform of an image starts: after its name (two length bytes
/// and the UTF-8 bytes) and, from version 4 on, its four size bytes.
pub open spec fn image_transform_start(img: ImageInfo, version: i32) -> int {
    2 + encode_utf8(img.name@).len() + if version >= 4 {
        4int
    } else {
        0int
    }
}

/// An image whose name fits, which has a size from version 4 on and a
/// transform of the right length is written whole: its name as a 16-bit byte
/// count and the UTF-8 bytes, from version 4 on its width and height in 16
/// bits each, then its transform.
pub proof fn law_image_name_and_size(img: ImageInfo, version: i32)
    requires
        encode_utf8(img.name@).len() <= 65535,
        version >= 4 ==> img.size is Some,
        img.transform@.len() == if version == 1 {
            3int
        } else {
            6int
        },
    ensures
        image_bytes(img, version).1 is None,
        ({
            let e = image_bytes(img, version).0;
            let name = encode_utf8(img.name@);
            &&& u16_at(e, 0) == name.len()
            &&& e.subrange(2, 2 + name.len() as int) == name
            &&& version >= 4 ==> {
                &&& i16_at(e, 2 + name.len() as int) == img.size.unwrap()[0] as i16
                &&& i16_at(e, 4 + name.len() as int) == img.size.unwrap()[1] as i16
            }
        }),
{
    let e = image_bytes(img, version).0;
    let name = encode_utf8(img.name@);
    let l = le_u16(name.len() as u16);
    let s = string_bytes(img.name@).0;
    let z = image_size_bytes(img, version).0;
    let t = image_transform_bytes(img, version).0;
    assert(s == l + name);
    assert(e == s + (z + t));
    law_le_u16_reads_back(name.len() as u16);
    lemma_u16_prefix(l, name, 0);
    lemma_u16_prefix(s, z + t, 0);
    assert(e.subrange(2, 2 + name.len() as int) =~= name);
    if version >= 4 {
        let size = img.size.unwrap();
        let w = le_i16(size[0] as i16);
        let h = le_i16(size[1] as i16);
        assert(z == w + h);
        law_le_i16_reads_back(size[0] as i16);
        law_le_i16_reads_back(size[1] as i16);
        lemma_prefix(w, h, 0);
        lemma_prefix(z, t, 0);
        lemma_shift(s, z + t, 0);
        lemma_shift(w, h, 0);
        lemma_prefix(z, t, 2);
        lemma_shift(s, z + t, 2);
    }
}

/// The transform of an image: in version 1 its angle and the x and y
/// offsets, 16 bits each; in every later version the matrix a, c, b, d
/// (components 0, 2, 1, 3) in 32 bits each, then the x and y offsets
/// (components 4 and 5) in 16 bits each. Nothing follows.
#[verifier::rlimit(50)]
pub proof fn law_image_transform(img: ImageInfo, version: i32)
    requires
        encode_utf8(img.name@).len() <= 65535,
        version >= 4 ==> img.size is Some,
        img.transform@.len() == if version == 1 {
            3int
        } else {
            6int
        },
    ensures
        ({
            let e = image_bytes(img, version).0;
            let t = img.transform@;
            let p = image_transform_start(img, version);
            &&& version == 1 ==> {
                &&& i16_at(e, p) == t[0].angle
                &&& i16_at(e, p + 2) == t[1].offset
                &&& i16_at(e, p + 4) == t[2].offset
                &&& e.len() == p + 6
            }
            &&& version != 1 ==> {
                &&& i32_at(e, p) == t[0].matrix
                &&& i32_at(e, p + 4) == t[2].matrix
                &&& i32_at(e, p + 8) == t[1].matrix
                &&& i32_at(e, p + 12) == t[3].matrix
                &&& i16_at(e, p + 16) == t[4].offset
                &&& i16_at(e, p + 18) == t[5].offset
                &&& e.len() == p + 20
            }
        }),
{
    let e = image_bytes(img, version).0;
    let t = img.transform@;
    let s = string_bytes(img.name@).0;
    let z = image_size_bytes(img, version).0;
    let t_bytes = image_transform_bytes(img, version).0;
    assert(e == s + (z + t_bytes));
    assert(s.len() + z.len() == image_transform_start(img, version));
    if version == 1 {
        let a = le_i16(t[0].angle);
        let x = le_i16(t[1].offset);
        let y = le_i16(t[2].offset);
        let t = (a + x) + y;
        assert(t_bytes == t);
        lemma_prefix(a, x, 0int);
        lemma_prefix((a + x), y, 0int);
        law_le_i16_reads_back(img.transform@[0].angle);
        lemma_shift(z, t, 0int);
        lemma_shift(s, z + t, (z.len() + 0int) as int);
        lemma_shift(a, x, 0int);
        lemma_prefix((a + x), y, (a.len() + 0int) as int);
        law_le_i16_reads_back(img.transform@[1].offset);
        lemma_shift(z, t, a.len() as int);
        lemma_shift(s, z + t, (z.len() + a.len() as int) as int);
        lemma_shift((a + x), y, 0int);
        law_le_i16_reads_back(img.transform@[2].offset);
        lemma_shift(z, t, (a + x).len() as int);
        lemma_shift(s, z + t, (z.len() + (a + x).len() as int) as int);
    } else {
        let a = le_i32(t[0].matrix);
        let c = le_i32(t[2].matrix);
        let b = le_i32(t[1].matrix);
        let d = le_i32(t[3].matrix);
        let x = le_i16(t[4].offset);
        let y = le_i16(t[5].offset);
        let t = ((((a + c) + b) + d) + x) + y;
        assert(t_bytes == t);
        lemma_prefix(a, c, 0int);
        lemma_prefix((a + c), b, 0int);
        lemma_prefix(((a + c) + b), d, 0int);
        lemma_prefix((((a + c) + b) + d), x, 0int);
        lemma_prefix(((((a + c) + b) + d) + x), y, 0int);
        law_le_i32_reads_back(img.transform@[0].matrix);
        lemma_shift(z, t, 0int);
        lemma_shift(s, z + t, (z.len() + 0int) as int);
        lemma_shift(a, c, 0int);
        lemma_prefix((a + c), b, (a.len() + 0int) as int);
        lemma_prefix(((a + c) + b), d, (a.len() + 0int) as int);
        lemma_prefix((((a + c) + b) + d), x, (a.len() + 0int) as int);
        lemma_prefix(((((a + c) + b) + d) + x), y, (a.len() + 0int) as int);
        law_le_i32_reads_back(img.transform@[2].matrix);
        lemma_shift(z, t, a.len() as int);
        lemma_shift(s, z + t, (z.len() + a.len() as int) as int);
        lemma_shift((a + c), b, 0int);
        lemma_prefix(((a + c) + b), d, ((a + c).len() + 0int) as int);
        lemma_prefix((((a + c) + b) + d), x, ((a + c).len() + 0int) as int);
        lemma_prefix(((((a + c) + b) + d) + x), y, ((a + c).len() + 0int) as int);
        law_le_i32_reads_back(img.transform@[1].matrix);
        lemma_shift(z, t, (a + c).len() as int);
        lemma_shift(s, z + t, (z.len() + (a + c).len() as int) as int);
        lemma_shift(((a + c) + b), d, 0int);
        lemma_prefix((((a + c) + b) + d), x, (((a + c) + b).len() + 0int) as int);
        lemma_prefix(((((a + c) + b) + d) + x), y, (((a + c) + b).len() + 0int) as int);
        law_le_i32_reads_back(img.transform@[3].matrix);
        lemma_shift(z, t, ((a + c) + b).len() as int);
        lemma_shift(s, z + t, (z.len() + ((a + c) + b).len() as int) as int);
        lemma_shift((((a + c) + b) + d), x, 0int);
        lemma_prefix(((((a + c) + b) + d) + x), y, ((((a + c) + b) + d).len() + 0int) as int);
        law_le_i16_reads_back(img.transform@[4].offset);
        lemma_shift(z, t, (((a + c) + b) + d).len() as int);
        lemma_shift(s, z + t, (z.len() + (((a + c) + b) + d).len() as int) as int);
        lemma_shift(((((a + c) + b) + d) + x), y, 0int);
        law_le_i16_reads_back(img.transform@[5].offset);
        lemma_shift(z, t, ((((a + c) + b) + d) + x).len() as int);
        lemma_shift(s, z + t, (z.len() + ((((a + c) + b) + d) + x).len() as int) as int);
    }
}

/// Six facts as the six low bits of a byte.
proof fn lemma_frame_flag_bits(rm: bool, add: bool, mv: bool, name: bool, stop: bool, cmd: bool)
    ensures
        ({
            let f = (if rm { 1u8 } else { 0u8 }) | (if add { 2u8 } else { 0u8 }) | (if mv {
                4u8
            } else {
                0u8
            }) | (if name { 8u8 } else { 0u8 }) | (if stop { 16u8 } else { 0u8 }) | (if cmd {
                32u8
            } else {
                0u8
            });
            &&& (f & 1 != 0) == rm
            &&& (f & 2 != 0) == add
            &&& (f & 4 != 0) == mv
            &&& (f & 8 != 0) == name
            &&& (f & 16 != 0) == stop
            &&& (f & 32 != 0) == cmd
            &&& f & 0xC0 == 0
        }),
{
    assert({
        let f = (if rm { 1u8 } else { 0u8 }) | (if add { 2u8 } else { 0u8 }) | (if mv {
            4u8
        } else {
            0u8
        }) | (if name { 8u8 } else { 0u8 }) | (if stop { 16u8 } else { 0u8 }) | (if cmd {
            32u8
        } else {
            0u8
        });
        &&& (f & 1 != 0) == rm
        &&& (f & 2 != 0) == add
        &&& (f & 4 != 0) == mv
        &&& (f & 8 != 0) == name
        &&& (f & 16 != 0) == stop
        &&& (f & 32 != 0) == cmd
        &&& f & 0xC0 == 0
    }) by (bit_vector);
}

/// A frame always starts with its flags byte, each bit of which stands for
/// one fact of the frame: removals (1), additions (2), moves (4), a label
/// (8), a stop (16), commands (32); the two top bits are clear.
pub proof fn law_frame_flags(frame: FrameInfo, version: i32)
    ensures
        ({
            let e = frame_bytes(frame, version).0;
            &&& e.len() >= 1
            &&& e[0] & 1 != 0 <==> frame.remove@.len() > 0
            &&& e[0] & 2 != 0 <==> frame.append@.len() > 0
            &&& e[0] & 4 != 0 <==> frame.change@.len() > 0
            &&& e[0] & 8 != 0 <==> frame.label is Some
            &&& e[0] & 16 != 0 <==> frame.stop
            &&& e[0] & 32 != 0 <==> frame.command@.len() > 0
            &&& e[0] & 0xC0 == 0
        }),
{
    lemma_frame_flag_bits(
        frame.remove@.len() > 0,
        frame.append@.len() > 0,
        frame.change@.len() > 0,
        frame.label is Some,
        frame.stop,
        frame.command@.len() > 0,
    );
    let e = frame_bytes(frame, version).0;
    assert(e[0] == frame_flags(frame));
}

/// The length of what precedes the frame count of a sprite: nothing before
/// version 4; from version 4 on its name (two length bytes and the UTF-8
/// bytes), two more bytes from version 6 on, and four bytes of frame rate.
pub open spec fn sprite_count_start(sprite: SpriteInfo, version: i32) -> int {
    if version >= 4 {
        2 + encode_utf8(sprite.name.unwrap()@).len() + (if version >= 6 {
            2int
        } else {
            0int
        }) + 4
    } else {
        0
    }
}

/// The fields of a sprite that a file of version `version` stores are
/// there, and its frames fit a 16-bit count.
pub open spec fn sprite_head_writable(sprite: SpriteInfo, version: i32) -> bool {
    &&& version >= 4 ==> sprite.name is Some && encode_utf8(sprite.name.unwrap()@).len() <= 65535
        && sprite.frame_rate is Some
    &&& sprite.frame@.len() <= 65535
}

/// A sprite whose stored fields are there: from version 4 on its name comes
/// first (a 16-bit byte count and the UTF-8 bytes), then from version 6 on an
/// empty string (a zero count), then its frame rate in 32 bits; then comes
/// its number of frames, in 16 bits, least significant byte first; then,
/// from version 5 on, its work area in two 16-bit numbers.
#[verifier::rlimit(50)]
pub proof fn law_sprite_layout(sprite: SpriteInfo, version: i32)
    requires
        sprite_head_writable(sprite, version),
    ensures
        ({
            let e = sprite_bytes(sprite, version).0;
            let h = sprite_count_start(sprite, version);
            &&& u16_at(e, h) == sprite.frame@.len()
            &&& version >= 4 ==> {
                let name = encode_utf8(sprite.name.unwrap()@);
                &&& u16_at(e, 0) == name.len()
                &&& e.subrange(2, 2 + name.len() as int) == name
                &&& version >= 6 ==> u16_at(e, 2 + name.len() as int) == 0
                &&& i32_at(e, h - 4) == sprite.frame_rate.unwrap()
            }
            &&& version >= 5 && sprite.work_area is Some ==> {
                &&& i16_at(e, h + 2) == sprite.work_area.unwrap()[0] as i16
                &&& i16_at(e, h + 4) == sprite.work_area.unwrap()[1] as i16
            }
        }),
{
    let e = sprite_bytes(sprite, version).0;
    let n = sprite.frame@.len();
    let hd = sprite_head_bytes(sprite, version).0;
    let c = le_u16(n as u16);
    let wa = sprite_work_area_bytes(sprite, version);
    let frames = chain_all(sprite.frame@, frame_writer(version));
    let rest = chain(wa, frames).0;
    assert(e == hd + (c + rest));
    law_le_u16_reads_back(n as u16);
    lemma_u16_prefix(c, rest, 0);
    if version >= 4 {
        let name = encode_utf8(sprite.name.unwrap()@);
        let l = le_u16(name.len() as u16);
        let s = l + name;
        let mid = if version >= 6 { seq![0u8, 0u8] } else { Seq::<u8>::empty() };
        let rate = sprite.frame_rate.unwrap();
        let r = le_i32(rate);
        assert(string_bytes(sprite.name.unwrap()@).0 == s);
        assert(hd == s + (mid + r));
        assert(hd.len() == sprite_count_start(sprite, version));
        law_le_u16_reads_back(name.len() as u16);
        lemma_u16_prefix(l, name, 0);
        lemma_u16_prefix(s, mid + r, 0);
        lemma_u16_prefix(hd, c + rest, 0);
        assert(e.subrange(2, 2 + name.len() as int) =~= name);
        if version >= 6 {
            lemma_u16_prefix(mid, r, 0);
            lemma_u16_shift(s, mid + r, 0);
            lemma_u16_prefix(hd, c + rest, s.len() as int);
        }
        law_le_i32_reads_back(rate);
        lemma_shift(mid, r, 0);
        lemma_shift(s, mid + r, mid.len() as int);
        lemma_prefix(hd, c + rest, (s.len() + mid.len()) as int);
    } else {
        assert(hd.len() == 0);
    }
    lemma_u16_shift(hd, c + rest, 0);
    if version >= 5 && sprite.work_area is Some {
        let w = sprite.work_area.unwrap();
        let w0 = le_i16(w[0] as i16);
        let w1 = le_i16(w[1] as i16);
        assert(rest == (w0 + w1) + frames.0);
        law_le_i16_reads_back(w[0] as i16);
        law_le_i16_reads_back(w[1] as i16);
        lemma_prefix(w0, w1, 0);
        lemma_prefix(w0 + w1, frames.0, 0);
        lemma_shift(c, rest, 0);
        lemma_shift(hd, c + rest, 2);
        lemma_shift(w0, w1, 0);
        lemma_prefix(w0 + w1, frames.0, 2);
        lemma_shift(c, rest, 2);
        lemma_shift(hd, c + rest, 4);
    }
}

/// The head of an addition, one bit per fact, as the two bytes that store it.
proof fn lemma_adds_head_bits(idx: u16, sp: bool, add: bool, pre: bool, nm: bool, ts: bool)
    requires
        idx <= 2047,
    ensures
        ({
            let h = idx | (if sp { 32768u16 } else { 0u16 }) | (if add { 16384u16 } else { 0u16 }) | (
            if pre {
                8192u16
            } else {
                0u16
            }) | (if nm { 4096u16 } else { 0u16 }) | (if ts { 2048u16 } else { 0u16 });
            let lo = (h % 256) as u8;
            let hi = (h / 256) as u8;
            &&& (hi & 0x80 != 0) == sp
            &&& (hi & 0x40 != 0) == add
            &&& (hi & 0x20 != 0) == pre
            &&& (hi & 0x10 != 0) == nm
            &&& (hi & 0x08 != 0) == ts
            &&& lo as u16 + 256 * ((hi & 7) as u16) == idx
            &&& (h & 8192 != 0) == pre
            &&& (h & 2048 != 0) == ts
        }),
{
    assert({
        let h = idx | (if sp { 32768u16 } else { 0u16 }) | (if add { 16384u16 } else { 0u16 }) | (
        if pre {
            8192u16
        } else {
            0u16
        }) | (if nm { 4096u16 } else { 0u16 }) | (if ts { 2048u16 } else { 0u16 });
        let lo = (h % 256) as u8;
        let hi = (h / 256) as u8;
        &&& (hi & 0x80 != 0) == sp
        &&& (hi & 0x40 != 0) == add
        &&& (hi & 0x20 != 0) == pre
        &&& (hi & 0x10 != 0) == nm
        &&& (hi & 0x08 != 0) == ts
        &&& lo as u16 + 256 * ((hi & 7) as u16) == idx
        &&& (h & 8192 != 0) == pre
        &&& (h & 2048 != 0) == ts
    }) by (bit_vector)
        requires
            idx <= 2047,
    ;
}

/// Where the resource index of an addition starts: after its two-byte head,
/// and after its full index when that does not fit the head.
pub open spec fn adds_resource_start(info: AddsInfo) -> int {
    if info.index >= 2047 {
        6
    } else {
        2
    }
}

/// The head of an addition with a non-negative index: the high byte has one
/// bit for each of sprite (0x80), additive (0x40), a non-zero preload frame
/// (0x20), a name (0x10) and a time scale other than 1 (0x08); the low eleven
/// bits hold the index, or 2047 when the index is 2047 or more, in which case
/// the full index follows in four bytes.
pub proof fn law_adds_head(info: AddsInfo, version: i32)
    requires
        info.index >= 0,
    ensures
        ({
            let e = adds_bytes(info, version).0;
            &&& e[1] & 0x80 != 0 <==> info.sprite
            &&& e[1] & 0x40 != 0 <==> info.additive
            &&& e[1] & 0x20 != 0 <==> info.preload_frame != 0
            &&& e[1] & 0x10 != 0 <==> info.name is Some
            &&& e[1] & 0x08 != 0 <==> info.time_scale_set
            &&& e[0] as int + 256 * ((e[1] & 7) as int) == if info.index >= 2047 {
                2047
            } else {
                info.index as int
            }
            &&& info.index >= 2047 ==> i32_at(e, 2) == info.index
        }),
{
    let e = adds_bytes(info, version).0;
    let idx: u16 = if info.index >= 2047 { 2047u16 } else { info.index as u16 };
    lemma_adds_head_bits(
        idx,
        info.sprite,
        info.additive,
        info.preload_frame != 0,
        info.name is Some,
        info.time_scale_set,
    );
    let h = adds_head(info);
    let rest = chain(resource_bytes(info.resource, version), adds_tail_bytes(info)).0;
    let big = if info.index >= 2047 { le_i32(info.index) } else { Seq::empty() };
    let i = le_u16(h) + big;
    assert(adds_index_bytes(info) == i);
    assert(e == i + rest);
    assert(e[0] == (h % 256) as u8);
    assert(e[1] == (h / 256) as u8);
    if info.index >= 2047 {
        law_le_i32_reads_back(info.index);
        lemma_shift(le_u16(h), big, 0);
        lemma_prefix(i, rest, 2);
    }
}

/// The resource index of an addition, after its head: one byte when it is
/// below 255, or before version 6; from version 6 on an index of 255 to 65535
/// is the byte 255 followed by the index in 16 bits. A larger index is
/// refused.
pub proof fn law_adds_resource(info: AddsInfo, version: i32)
    ensures
        ({
            let e = adds_bytes(info, version).0;
            let r = adds_resource_start(info);
            let res = info.resource;
            &&& (version >= 6 && 255 <= res <= 65535) ==> e[r] == 255 && u16_at(e, r + 1) == res
            &&& (res < 255 || (version < 6 && res == 255)) ==> e[r] == res
            &&& (adds_bytes(info, version).1 is Some <==> (if version >= 6 {
                res > 65535
            } else {
                res > 255
            }) || (info.name is Some && encode_utf8(info.name.unwrap()@).len() > 65535))
        }),
{
    let e = adds_bytes(info, version).0;
    let i = adds_index_bytes(info);
    let rb = resource_bytes(info.resource, version);
    let tail = adds_tail_bytes(info);
    assert(i.len() == adds_resource_start(info));
    assert(e == i + chain(rb, tail).0);
    if rb.1 is None {
        assert(e == i + (rb.0 + tail.0));
        if version >= 6 && info.resource >= 255 {
            let v = le_u16(info.resource as u16);
            assert(rb.0 == seq![255u8] + v);
            law_le_u16_reads_back(info.resource as u16);
            lemma_u16_shift(seq![255u8], v, 0);
            lemma_u16_prefix(rb.0, tail.0, 1);
            lemma_u16_shift(i, rb.0 + tail.0, 1);
            assert(e[i.len() as int] == 255u8);
        } else {
            assert(e[i.len() as int] == info.resource);
        }
    }
}

/// After the resource index of an addition that can be written come, in
/// this order and only when present: its preload frame (16 bits, when it is
/// not zero), its name (a 16-bit byte count and the UTF-8 bytes) and its
/// time scale (32 bits, when it is not 1); nothing follows.
#[verifier::rlimit(50)]
pub proof fn law_adds_tail(info: AddsInfo, version: i32)
    requires
        info.index >= 0,
        adds_bytes(info, version).1 is None,
    ensures
        ({
            let e = adds_bytes(info, version).0;
            let t = adds_resource_start(info) + if version >= 6 && info.resource >= 255 {
                3int
            } else {
                1int
            };
            let nm = t + if info.preload_frame != 0 { 2int } else { 0int };
            let ts = nm + match info.name {
                Some(name) => 2 + encode_utf8(name@).len() as int,
                None => 0int,
            };
            &&& info.preload_frame != 0 ==> i16_at(e, t) == info.preload_frame as i16
            &&& info.name is Some ==> u16_at(e, nm) == encode_utf8(info.name.unwrap()@).len()
            &&& info.time_scale_set ==> i32_at(e, ts) == info.time_scale
            &&& e.len() == ts + if info.time_scale_set { 4int } else { 0int }
        }),
{
    let e = adds_bytes(info, version).0;
    let idx: u16 = if info.index >= 2047 { 2047u16 } else { info.index as u16 };
    lemma_adds_head_bits(
        idx,
        info.sprite,
        info.additive,
        info.preload_frame != 0,
        info.name is Some,
        info.time_scale_set,
    );
    let i = adds_index_bytes(info);
    let r = resource_bytes(info.resource, version).0;
    let p = if info.preload_frame != 0 { le_i16(info.preload_frame as i16) } else { Seq::empty() };
    let n = match info.name {
        Some(name) => le_u16(encode_utf8(name@).len() as u16) + encode_utf8(name@),
        None => Seq::<u8>::empty(),
    };
    let ts = if info.time_scale_set { le_i32(info.time_scale) } else { Seq::empty() };
    let z = n + ts;
    let y = p + z;
    let x = r + y;
    assert(adds_tail_bytes(info).0 == y);
    assert(e == i + x);
    assert(i.len() == adds_resource_start(info));
    if info.preload_frame != 0 {
        law_le_i16_reads_back(info.preload_frame as i16);
        lemma_prefix(p, z, 0);
        lemma_shift(r, y, 0);
        lemma_shift(i, x, r.len() as int);
    }
    if let Some(name) = info.name {
        let b = encode_utf8(name@);
        law_le_u16_reads_back(b.len() as u16);
        lemma_u16_prefix(le_u16(b.len() as u16), b, 0);
        lemma_u16_prefix(n, ts, 0);
        lemma_u16_shift(p, z, 0);
        lemma_u16_shift(r, y, p.len() as int);
        lemma_u16_shift(i, x, (r.len() + p.len()) as int);
    }
    if info.time_scale_set {
        law_le_i32_reads_back(info.time_scale);
        lemma_shift(n, ts, 0);
        lemma_shift(p, z, n.len() as int);
        lemma_shift(r, y, (p.len() + n.len()) as int);
        lemma_shift(i, x, (r.len() + p.len() + n.len()) as int);
    }
}

/// A removal with a non-negative index: an index below 2047 is its two bytes;
/// a larger one is the marker 2047 followed by the index in 32 bits.
pub proof fn law_removes_layout(info: RemovesInfo)
    requires
        info.index >= 0,
    ensures
        removes_bytes(info).1 is None,
        ({
            let e = removes_bytes(info).0;
            &&& info.index < 2047 ==> e.len() == 2 && u16_at(e, 0) == info.index
            &&& info.index >= 2047 ==> e.len() == 6 && u16_at(e, 0) == 2047 && i32_at(e, 2)
                == info.index
        }),
{
    let e = removes_bytes(info).0;
    if info.index < 2047 {
        law_le_u16_reads_back(info.index as u16);
    } else {
        law_le_u16_reads_back(2047);
        law_le_i32_reads_back(info.index);
        lemma_u16_prefix(le_u16(2047), le_i32(info.index), 0);
        lemma_shift(le_u16(2047), le_i32(info.index), 0);
    }
}

/// A one-byte count is that byte; a count above 255 is refused with its
/// field and value.
pub proof fn law_u8_count_layout(count: usize, field: &'static str)
    ensures
        count <= 255 ==> u8_count_bytes(count, field) == (seq![count as u8], None::<Error>),
        count <= 255 ==> u8_count_bytes(count, field).0[0] == count,
        count > 255 ==> u8_count_bytes(count, field) == (Seq::<u8>::empty(), Some(
            Error::ValueOutOfRange { field, value: count as i64 },
        )),
{
}

/// A two-byte count reads back as itself; a count above 65535 is refused
/// with its field and value.
pub proof fn law_u16_len_layout(count: usize, field: &'static str)
    ensures
        count <= 65535 ==> u16_len_bytes(count, field).1 is None && u16_len_bytes(count, field).0.len()
            == 2 && u16_at(u16_len_bytes(count, field).0, 0) == count,
        count > 65535 ==> u16_len_bytes(count, field) == (Seq::<u8>::empty(), Some(
            Error::ValueOutOfRange { field, value: count as i64 },
        )),
{
    if count <= 65535 {
        law_le_u16_reads_back(count as u16);
    }
}

/// A count below 255 is one byte holding it; from 255 to 65535 it is the
/// byte 255 and then the count in 16 bits; above, the byte 255 is written and
/// the count is refused with its field and value.
pub proof fn law_variant_count_layout(count: usize, field: &'static str)
    ensures
        ({
            let e = variant_count_bytes(count, field);
            &&& count < 255 ==> e.1 is None && e.0.len() == 1 && e.0[0] == count
            &&& 255 <= count <= 65535 ==> e.1 is None && e.0.len() == 3 && e.0[0] == 255 && u16_at(
                e.0,
                1,
            ) == count
            &&& count > 65535 ==> e == (seq![255u8], Some(
                Error::ValueOutOfRange { field, value: count as i64 },
            ))
        }),
{
    if 255 <= count <= 65535 {
        law_le_u16_reads_back(count as u16);
        lemma_u16_shift(seq![255u8], le_u16(count as u16), 0);
    }
    if count > 65535 {
        assert(seq![255u8] + Seq::<u8>::empty() =~= seq![255u8]);
    }
}

/// A string is the number of bytes of its UTF-8 encoding in 16 bits, then
/// those bytes; one whose encoding is longer than 65535 bytes is refused with
/// that length.
pub proof fn law_string_layout(s: Seq<char>)
    ensures
        ({
            let b = encode_utf8(s);
            let e = string_bytes(s);
            &&& b.len() <= 65535 ==> e.1 is None && e.0.len() == 2 + b.len() && u16_at(e.0, 0)
                == b.len() && e.0.subrange(2, e.0.len() as int) == b
            &&& b.len() > 65535 ==> e == (Seq::<u8>::empty(), Some(
                Error::ValueOutOfRange { field: "string.length", value: b.len() as i64 },
            ))
        }),
{
    let b = encode_utf8(s);
    if b.len() <= 65535 {
        let l = le_u16(b.len() as u16);
        law_le_u16_reads_back(b.len() as u16);
        lemma_u16_prefix(l, b, 0);
        assert((l + b).subrange(2, (l + b).len() as int) =~= b);
    }
}

/// The 17-byte head of a file of a supported version: the magic number
/// 0xBAF01954 and the version in 32 bits, the low byte of the frame rate, the
/// x and y position in signed 16 bits and the width and height in unsigned 16
/// bits; then the number of images in 16 bits.
pub proof fn law_header_layout(pam: PamInfo)
    requires
        1 <= pam.version <= 6,
    ensures
        ({
            let e = pam_bytes(pam).0;
            &&& u32_at(e, 0) == 0xBAF01954
            &&& u32_at(e, 4) == pam.version
            &&& e[8] == pam.frame_rate as u8
            &&& i16_at(e, 9) == pam.position[0]
            &&& i16_at(e, 11) == pam.position[1]
            &&& u16_at(e, 13) == pam.size[0]
            &&& u16_at(e, 15) == pam.size[1]
            &&& pam.image@.len() <= 65535 ==> u16_at(e, 17) == pam.image@.len()
        }),
{
    let e = pam_bytes(pam).0;
    let b = pam_body_bytes(pam).0;
    let m = le_u32(PAM_MAGIC);
    let v = le_u32(pam.version as u32);
    let f = seq![pam.frame_rate as u8];
    let p0 = le_i16(pam.position[0]);
    let p1 = le_i16(pam.position[1]);
    let s0 = le_u16(pam.size[0]);
    let s1 = le_u16(pam.size[1]);
    let h = (((((m + v) + f) + p0) + p1) + s0) + s1;
    assert(pam_header_bytes(pam) == h);
    assert(e == h + b);
    law_le_u32_reads_back(PAM_MAGIC);
    law_le_u32_reads_back(pam.version as u32);
    law_le_i16_reads_back(pam.position[0]);
    law_le_i16_reads_back(pam.position[1]);
    law_le_u16_reads_back(pam.size[0]);
    law_le_u16_reads_back(pam.size[1]);
    assert(e.len() >= 17);
    assert forall|i: int| 0 <= i < 17 implies e[i] == h[i] by {}
    assert forall|i: int| 0 <= i < 4 implies h[i] == m[i] by {}
    assert forall|i: int| 4 <= i < 8 implies h[i] == v[i - 4] by {}
    assert(h[8] == f[0]);
    assert forall|i: int| 9 <= i < 11 implies h[i] == p0[i - 9] by {}
    assert forall|i: int| 11 <= i < 13 implies h[i] == p1[i - 11] by {}
    assert forall|i: int| 13 <= i < 15 implies h[i] == s0[i - 13] by {}
    assert forall|i: int| 15 <= i < 17 implies h[i] == s1[i - 15] by {}
    assert(u32_at(e, 0) == u32_at(m, 0));
    assert(u32_at(e, 4) == u32_at(v, 0));
    assert(u16_at(e, 9) == u16_at(p0, 0));
    assert(u16_at(e, 11) == u16_at(p1, 0));
    assert(u16_at(e, 13) == u16_at(s0, 0));
    assert(u16_at(e, 15) == u16_at(s1, 0));
    if pam.image@.len() <= 65535 {
        let c = le_u16(pam.image.len() as u16);
        law_le_u16_reads_back(pam.image.len() as u16);
        let rest = chain(
            chain_all(pam.image@, image_writer(pam.version)),
            chain(
                u16_len_bytes(pam.sprite.len(), "pam.sprite"),
                chain(chain_all(pam.sprite@, sprite_writer(pam.version)), pam_main_sprite_bytes(pam)),
            ),
        ).0;
        assert(b == c + rest);
        lemma_u16_prefix(c, rest, 0);
        lemma_u16_shift(h, b, 0);
    }
}

/// A chain starts with the bytes of its first part.
proof fn lemma_chain_first(a: Emission, b: Emission)
    ensures
        a.0.len() > 0 ==> chain(a, b).0[0] == a.0[0],
        a.0.len() > 1 ==> chain(a, b).0[1] == a.0[1],
        a.0.len() == 0 && a.1 is None ==> chain(a, b).0 == b.0,
{
    if a.0.len() == 0 && a.1 is None {
        assert(a.0 + b.0 =~= b.0);
    }
}

/// After its flags byte, a frame holds its sections in the order removals,
/// additions, moves, label, commands: each list section that is present
/// starts with its count and the label with its byte count, right after the
/// sections before it; a frame with none of them is its flags byte alone.
#[verifier::rlimit(50)]
pub proof fn law_frame_section_order(frame: FrameInfo, version: i32)
    ensures
        ({
            let e = frame_bytes(frame, version).0;
            let r = frame_removes_bytes(frame);
            let a = frame_adds_bytes(frame, version);
            let m = frame_moves_bytes(frame);
            let l = frame_label_bytes(frame);
            let ka = 1 + r.0.len() as int;
            let km = ka + a.0.len() as int;
            let kl = km + m.0.len() as int;
            let kc = kl + l.0.len() as int;
            let nr = frame.remove@.len();
            let na = frame.append@.len();
            let nm = frame.change@.len();
            let nc = frame.command@.len();
            &&& 0 < nr < 255 ==> e[1] == nr
            &&& r.1 is None && 0 < na < 255 ==> e[ka] == na
            &&& r.1 is None && a.1 is None && 0 < nm < 255 ==> e[km] == nm
            &&& r.1 is None && a.1 is None && m.1 is None && frame.label is Some && encode_utf8(
                frame.label.unwrap()@,
            ).len() <= 65535 ==> u16_at(e, kl) == encode_utf8(frame.label.unwrap()@).len()
            &&& r.1 is None && a.1 is None && m.1 is None && l.1 is None && 0 < nc <= 255 ==> e[kc]
                == nc
            &&& nr == 0 && na == 0 && nm == 0 && frame.label is None && nc == 0 ==> e.len() == 1
        }),
{
    let e = frame_bytes(frame, version).0;
    let r = frame_removes_bytes(frame);
    let a = frame_adds_bytes(frame, version);
    let m = frame_moves_bytes(frame);
    let l = frame_label_bytes(frame);
    let c = frame_commands_bytes(frame);
    let t4 = chain(l, c);
    let t3 = chain(m, t4);
    let t2 = chain(a, t3);
    let t1 = chain(r, t2);
    let f = seq![frame_flags(frame)];
    assert(e == f + t1.0);
    lemma_chain_first(r, t2);
    lemma_chain_first(a, t3);
    lemma_chain_first(m, t4);
    lemma_chain_first(l, c);
    lemma_chain_first(variant_count_bytes(frame.remove.len(), "frame.remove"), chain_all(frame.remove@, removes_writer()));
    lemma_chain_first(variant_count_bytes(frame.append.len(), "frame.append"), chain_all(frame.append@, adds_writer(version)));
    lemma_chain_first(variant_count_bytes(frame.change.len(), "frame.change"), chain_all(frame.change@, moves_writer()));
    lemma_chain_first(u8_count_bytes(frame.command.len(), "frame.command"), chain_all(frame.command@, command_writer()));
    if t1.0.len() > 0 {
        assert(e[1] == t1.0[0]);
    }
    if r.1 is None {
        assert(t1.0 == r.0 + t2.0);
        if t2.0.len() > 0 {
            assert(e[1 + r.0.len() as int] == t2.0[0]);
        }
        if a.1 is None {
            assert(t2.0 == a.0 + t3.0);
            if t3.0.len() > 0 {
                assert(e[1 + r.0.len() as int + a.0.len() as int] == t3.0[0]);
            }
            if m.1 is None {
                assert(t3.0 == m.0 + t4.0);
                let p = f + r.0 + a.0 + m.0;
                assert(e =~= p + t4.0);
                if let Some(label) = frame.label {
                    let b = encode_utf8(label@);
                    if b.len() <= 65535 {
                        law_le_u16_reads_back(b.len() as u16);
                        assert(l.0 == le_u16(b.len() as u16) + b);
                        lemma_u16_prefix(le_u16(b.len() as u16), b, 0);
                        lemma_u16_prefix(l.0, c.0, 0);
                        assert(t4.0 == l.0 + c.0);
                        lemma_u16_shift(p, t4.0, 0);
                    }
                }
                if l.1 is None {
                    assert(t4.0 == l.0 + c.0);
                    if c.0.len() > 0 {
                        assert(e[p.len() as int + l.0.len() as int] == c.0[0]);
                    }
                }
            }
        }
    }
    if frame.remove@.len() == 0 && frame.append@.len() == 0 && frame.change@.len() == 0
        && frame.label is None && frame.command@.len() == 0 {
        assert(t1.0.len() == 0);
    }
}

/// Which error stops a sprite: from version 4 on a missing name, then a name
/// too long, then a missing frame rate; then more than 65535 frames; then,
/// from version 5 on, a missing work area.
pub proof fn law_sprite_errors(sprite: SpriteInfo, version: i32)
    ensures
        ({
            let r = sprite_bytes(sprite, version).1;
            let head_ok = version >= 4 ==> sprite.name is Some && encode_utf8(sprite.name.unwrap()@).len()
                <= 65535 && sprite.frame_rate is Some;
            &&& version >= 4 && sprite.name is None ==> r == Some(
                Error::MissingRequiredField { field: "sprite.name" },
            )
            &&& version >= 4 && sprite.name is Some && encode_utf8(sprite.name.unwrap()@).len() > 65535
                ==> r == Some(
                Error::ValueOutOfRange {
                    field: "string.length",
                    value: encode_utf8(sprite.name.unwrap()@).len() as i64,
                },
            )
            &&& version >= 4 && sprite.name is Some && encode_utf8(sprite.name.unwrap()@).len() <= 65535
                && sprite.frame_rate is None ==> r == Some(
                Error::MissingRequiredField { field: "sprite.frame_rate" },
            )
            &&& head_ok && sprite.frame@.len() > 65535 ==> r == Some(
                Error::ValueOutOfRange { field: "sprite.frame", value: sprite.frame.len() as i64 },
            )
            &&& head_ok && sprite.frame@.len() <= 65535 && version >= 5 && sprite.work_area is None
                ==> r == Some(Error::MissingRequiredField { field: "sprite.work_area" })
        }),
{
}

/// Which error stops an image whose name fits: from version 4 on a missing
/// size; then a transform that does not have three components in version 1
/// or six in later versions, reported with its length.
pub proof fn law_image_errors(img: ImageInfo, version: i32)
    requires
        encode_utf8(img.name@).len() <= 65535,
    ensures
        ({
            let r = image_bytes(img, version).1;
            let n = img.transform.len();
            &&& version >= 4 && img.size is None ==> r == Some(
                Error::MissingRequiredField { field: "image.size" },
            )
            &&& (version < 4 || img.size is Some) && version == 1 && n != 3 ==> r == Some(
                Error::InvalidTransform {
                    field: "image.transform",
                    expected: "3 values for PAM v1",
                    actual: n,
                },
            )
            &&& (version < 4 || img.size is Some) && version != 1 && n != 6 ==> r == Some(
                Error::InvalidTransform {
                    field: "image.transform",
                    expected: "6 values for PAM v2+",
                    actual: n,
                },
            )
        }),
{
}

/// A resource index that does not fit is refused with its value: above 65535
/// from version 6 on, above 255 before.
pub proof fn law_adds_resource_error(info: AddsInfo, version: i32)
    requires
        if version >= 6 {
            info.resource > 65535
        } else {
            info.resource > 255
        },
    ensures
        adds_bytes(info, version).1 == Some(
            Error::ValueOutOfRange { field: "append.resource", value: info.resource as i64 },
        ),
{
}

/// After the head and the image count of a file come its images, then the
/// number of its sprites in 16 bits, its sprites, and its main sprite: from
/// version 4 on a byte that is 1 when there is one and 0 when not; before
/// version 4 the main sprite must be there.
pub proof fn law_pam_sprites_and_main(pam: PamInfo)
    requires
        1 <= pam.version <= 6,
        pam.image@.len() == 0,
    ensures
        ({
            let e = pam_bytes(pam).0;
            &&& pam.sprite@.len() <= 65535 ==> u16_at(e, 19) == pam.sprite@.len()
            &&& pam.sprite@.len() == 0 && pam.version >= 4 ==> e[21] == if pam.main_sprite is Some {
                1u8
            } else {
                0u8
            }
            &&& pam.sprite@.len() == 0 && pam.version >= 4 && pam.main_sprite is None ==> e.len() == 22
                && pam_bytes(pam).1 is None
            &&& pam.sprite@.len() == 0 && pam.version <= 3 && pam.main_sprite is None ==> e.len() == 21
                && pam_bytes(pam).1 == Some(Error::MissingRequiredField { field: "main_sprite" })
        }),
{
    let e = pam_bytes(pam).0;
    let h = pam_header_bytes(pam);
    let ci = le_u16(0);
    let imgs = chain_all(pam.image@, image_writer(pam.version));
    assert(imgs == (Seq::<u8>::empty(), None::<Error>));
    let sprs = chain_all(pam.sprite@, sprite_writer(pam.version));
    let main = pam_main_sprite_bytes(pam);
    let tail = chain(sprs, main);
    assert(h.len() == 17);
    if pam.sprite@.len() <= 65535 {
        let cs = le_u16(pam.sprite.len() as u16);
        assert(pam_body_bytes(pam).0 =~= ci + (cs + tail.0));
        assert(e =~= h + (ci + (cs + tail.0)));
        law_le_u16_reads_back(pam.sprite.len() as u16);
        lemma_u16_prefix(cs, tail.0, 0);
        lemma_u16_shift(ci, cs + tail.0, 0);
        lemma_u16_shift(h, ci + (cs + tail.0), 2);
        if pam.sprite@.len() == 0 {
            assert(sprs == (Seq::<u8>::empty(), None::<Error>));
            assert(tail.0 =~= main.0);
            assert(e =~= h + ci + cs + main.0);
            if pam.version >= 4 {
                assert(e[21] == main.0[0]);
            }
        }
    }
}

/// A command is its name and then its argument, each as a string: a 16-bit
/// byte count and the UTF-8 bytes.
pub proof fn law_command_layout(cmd: [String; 2])
    requires
        encode_utf8(cmd[0]@).len() <= 65535,
        encode_utf8(cmd[1]@).len() <= 65535,
    ensures
        ({
            let e = command_bytes(cmd);
            let b0 = encode_utf8(cmd[0]@);
            let b1 = encode_utf8(cmd[1]@);
            &&& e.1 is None
            &&& e.0.len() == 4 + b0.len() + b1.len()
            &&& u16_at(e.0, 0) == b0.len()
            &&& e.0.subrange(2, 2 + b0.len() as int) == b0
            &&& u16_at(e.0, 2 + b0.len() as int) == b1.len()
            &&& e.0.subrange(4 + b0.len() as int, e.0.len() as int) == b1
        }),
{
    let b0 = encode_utf8(cmd[0]@);
    let b1 = encode_utf8(cmd[1]@);
    let s0 = le_u16(b0.len() as u16) + b0;
    let s1 = le_u16(b1.len() as u16) + b1;
    let e = command_bytes(cmd).0;
    assert(e == s0 + s1);
    law_le_u16_reads_back(b0.len() as u16);
    law_le_u16_reads_back(b1.len() as u16);
    lemma_u16_prefix(le_u16(b0.len() as u16), b0, 0);
    lemma_u16_prefix(s0, s1, 0);
    lemma_u16_prefix(le_u16(b1.len() as u16), b1, 0);
    lemma_u16_shift(s0, s1, 0);
    assert(e.subrange(2, 2 + b0.len() as int) =~= b0);
    assert(e.subrange(4 + b0.len() as int, e.len() as int) =~= b1);
}

/// Removals with indices below 2047 are written one after the other, two
/// bytes each, in their order.
proof fn lemma_removes_list(items: Seq<RemovesInfo>)
    requires
        forall|i: int| 0 <= i < items.len() ==> 0 <= #[trigger] items[i].index < 2047,
    ensures
        chain_all(items, removes_writer()).1 is None,
        chain_all(items, removes_writer()).0.len() == 2 * items.len(),
        forall|i: int|
            0 <= i < items.len() ==> u16_at(chain_all(items, removes_writer()).0, 2 * i)
                == (#[trigger] items[i]).index,
    decreases items.len(),
{
    if items.len() > 0 {
        let init = items.drop_last();
        let last = items.last();
        assert forall|i: int| 0 <= i < init.len() implies 0 <= #[trigger] init[i].index < 2047 by {
            assert(init[i] == items[i]);
        }
        lemma_removes_list(init);
        law_removes_layout(last);
        let a = chain_all(init, removes_writer()).0;
        let b = removes_bytes(last).0;
        assert(removes_writer()(last) == removes_bytes(last));
        assert(chain_all(items, removes_writer()).0 == a + b);
        assert forall|i: int| 0 <= i < items.len() implies u16_at(
            chain_all(items, removes_writer()).0,
            2 * i,
        ) == (#[trigger] items[i]).index by {
            if i < init.len() {
                assert(init[i] == items[i]);
                lemma_u16_prefix(a, b, 2 * i);
            } else {
                lemma_u16_shift(a, b, 0);
            }
        }
    }
}

/// The removals of a frame follow its flags byte and their count, in their
/// order, each index below 2047 in two bytes.
pub proof fn law_frame_removals_in_order(frame: FrameInfo, version: i32)
    requires
        0 < frame.remove@.len() < 255,
        forall|i: int| 0 <= i < frame.remove@.len() ==> 0 <= #[trigger] frame.remove@[i].index < 2047,
    ensures
        forall|i: int|
            0 <= i < frame.remove@.len() ==> u16_at(frame_bytes(frame, version).0, 2 + 2 * i)
                == (#[trigger] frame.remove@[i]).index,
{
    let items = frame.remove@;
    lemma_removes_list(items);
    let list = chain_all(items, removes_writer());
    let cnt = variant_count_bytes(frame.remove.len(), "frame.remove");
    let r = frame_removes_bytes(frame);
    assert(r.0 == cnt.0 + list.0);
    let t2 = chain(
        frame_adds_bytes(frame, version),
        chain(
            frame_moves_bytes(frame),
            chain(frame_label_bytes(frame), frame_commands_bytes(frame)),
        ),
    );
    let e = frame_bytes(frame, version).0;
    let f = seq![frame_flags(frame)];
    assert(e == f + (r.0 + t2.0));
    assert forall|i: int| 0 <= i < items.len() implies u16_at(e, 2 + 2 * i) == (#[trigger] items[i]).index by {
        lemma_u16_prefix(list.0, t2.0, 2 * i);
        assert(cnt.0 + list.0 + t2.0 =~= cnt.0 + (list.0 + t2.0));
        lemma_u16_shift(cnt.0, list.0 + t2.0, 2 * i);
        assert(r.0 + t2.0 =~= cnt.0 + (list.0 + t2.0));
        lemma_u16_shift(f, r.0 + t2.0, 1 + 2 * i);
    }
}

} // verus!
