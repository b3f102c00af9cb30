//! Properties of the PAM format as a whole, over the layout in `format`.
use crate::emission::{chain, chain_all, emit, fail, Emission};
use crate::error::Error;
use crate::format::{
    adds_bytes, adds_writer, command_bytes, command_writer, frame_adds_bytes, frame_bytes,
    frame_commands_bytes, frame_label_bytes, frame_moves_bytes, frame_removes_bytes, frame_writer,
    image_bytes, image_writer, moves_bytes, moves_writer, pam_body_bytes, pam_bytes,
    pam_header_bytes, pam_main_sprite_bytes, removes_bytes, removes_writer, sprite_bytes,
    sprite_head_bytes, sprite_work_area_bytes, sprite_writer, u16_len_bytes, u8_count_bytes,
    variant_count_bytes,
};
use crate::types::{AddsInfo, FrameInfo, ImageInfo, PamInfo, SpriteInfo, PAM_MAGIC};
use crate::wire::{le_i16, le_u16, le_u32};
use vstd::prelude::*;
use vstd::utf8::encode_utf8;

verus! {

/// A file whose version is outside 1..=6 is refused with
/// `VersionOutOfRange`, and nothing is written.
pub proof fn law_version_out_of_range_writes_nothing(pam: PamInfo)
    requires
        !(1 <= pam.version <= 6),
    ensures
        pam_bytes(pam) == fail(Error::VersionOutOfRange(pam.version)),
        pam_bytes(pam).0.len() == 0,
{
}

/// The magic number is stored as the bytes 54 19 F0 BA.
proof fn lemma_magic_bytes()
    ensures
        le_u32(PAM_MAGIC) == seq![0x54u8, 0x19u8, 0xF0u8, 0xBAu8],
{
    assert(PAM_MAGIC % 256 == 0x54);
    assert(PAM_MAGIC / 256 % 256 == 0x19);
    assert(PAM_MAGIC / 65536 % 256 == 0xF0);
    assert(PAM_MAGIC / 16777216 == 0xBA);
    assert(le_u32(PAM_MAGIC) =~= seq![0x54u8, 0x19u8, 0xF0u8, 0xBAu8]);
}

/// The head is the magic number, the version, then the rest.
proof fn lemma_header_fields(pam: PamInfo)
    ensures
        pam_header_bytes(pam).take(4) == le_u32(PAM_MAGIC),
        pam_header_bytes(pam).subrange(4, 8) == le_u32(pam.version as u32),
{
    let m = le_u32(PAM_MAGIC);
    let v = le_u32(pam.version as u32);
    let r = seq![pam.frame_rate as u8] + le_i16(pam.position[0]) + le_i16(pam.position[1])
        + le_u16(pam.size[0]) + le_u16(pam.size[1]);
    assert(pam_header_bytes(pam) =~= m + v + r);
    assert((m + v + r).take(4) =~= m);
    assert((m + v + r).subrange(4, 8) =~= v);
}

/// For a supported version, whatever else happens, the output starts with
/// the 17-byte head, and the head starts with the magic bytes 54 19 F0 BA
/// followed by the version in four bytes.
pub proof fn law_output_starts_with_header(pam: PamInfo)
    requires
        1 <= pam.version <= 6,
    ensures
        pam_header_bytes(pam).len() == 17,
        pam_bytes(pam).0.take(17) == pam_header_bytes(pam),
        pam_header_bytes(pam).take(4) == seq![0x54u8, 0x19u8, 0xF0u8, 0xBAu8],
        pam_header_bytes(pam).subrange(4, 8) == le_u32(pam.version as u32),
{
    let h = pam_header_bytes(pam);
    let body = pam_body_bytes(pam);
    assert(pam_bytes(pam).0 == h + body.0);
    assert((h + body.0).take(17) =~= h);
    lemma_header_fields(pam);
    lemma_magic_bytes();
}

/// Before version 4 a sprite is stored as its frames alone: its name, frame
/// rate and work area are not written, so two sprites with the same frames
/// are written alike.
pub proof fn law_early_sprite_is_its_frames(s1: SpriteInfo, s2: SpriteInfo, version: i32)
    requires
        version < 4,
        s1.frame@ == s2.frame@,
    ensures
        sprite_bytes(s1, version) == sprite_bytes(s2, version),
{
}

/// A string fits a PAM string field: its UTF-8 encoding takes at most 65535
/// bytes.
pub open spec fn string_fits(s: Seq<char>) -> bool {
    encode_utf8(s).len() <= 65535
}

/// A resource index fits its field: up to 65535 from version 6 on, up to 255
/// before.
pub open spec fn resource_fits(resource: u32, version: i32) -> bool {
    if version >= 6 {
        resource <= 65535
    } else {
        resource <= 255
    }
}

/// An addition can be written.
pub open spec fn adds_valid(info: AddsInfo, version: i32) -> bool {
    &&& resource_fits(info.resource, version)
    &&& info.name matches Some(name) ==> string_fits(name@)
}

/// A frame can be written: each of its lists fits its count, each addition,
/// the label and each command string fit.
pub open spec fn frame_valid(frame: FrameInfo, version: i32) -> bool {
    &&& frame.remove@.len() <= 65535
    &&& frame.append@.len() <= 65535
    &&& forall|i: int| 0 <= i < frame.append@.len() ==> adds_valid(#[trigger] frame.append@[i], version)
    &&& frame.change@.len() <= 65535
    &&& frame.label matches Some(label) ==> string_fits(label@)
    &&& frame.command@.len() <= 255
    &&& forall|i: int|
        0 <= i < frame.command@.len() ==> string_fits((#[trigger] frame.command@[i])[0]@)
            && string_fits(frame.command@[i][1]@)
}

/// A sprite can be written in a file of version `version`.
pub open spec fn sprite_valid(sprite: SpriteInfo, version: i32) -> bool {
    &&& version >= 4 ==> (sprite.name matches Some(name) && string_fits(name@))
    &&& version >= 4 ==> sprite.frame_rate is Some
    &&& version >= 5 ==> sprite.work_area is Some
    &&& sprite.frame@.len() <= 65535
    &&& forall|i: int| 0 <= i < sprite.frame@.len() ==> frame_valid(#[trigger] sprite.frame@[i], version)
}

/// An image can be written in a file of version `version`: its name fits, it
/// has a size from version 4 on, and its transform has three components in
/// version 1 and six after.
pub open spec fn image_valid(img: ImageInfo, version: i32) -> bool {
    &&& string_fits(img.name@)
    &&& version >= 4 ==> img.size is Some
    &&& img.transform@.len() == if version == 1 {
        3int
    } else {
        6int
    }
}

/// A file can be written: its version is supported, its lists fit their
/// counts, each image and sprite can be written, and it has a main sprite
/// (which can be written) wherever the version needs one.
pub open spec fn pam_valid(pam: PamInfo) -> bool {
    &&& 1 <= pam.version <= 6
    &&& pam.image@.len() <= 65535
    &&& forall|i: int| 0 <= i < pam.image@.len() ==> image_valid(#[trigger] pam.image@[i], pam.version)
    &&& pam.sprite@.len() <= 65535
    &&& forall|i: int| 0 <= i < pam.sprite@.len() ==> sprite_valid(#[trigger] pam.sprite@[i], pam.version)
    &&& pam.version <= 3 ==> pam.main_sprite is Some
    &&& pam.main_sprite matches Some(main) ==> sprite_valid(main, pam.version)
}

/// Writing each item succeeds exactly when writing every one of them does.
pub proof fn lemma_chain_all_ok<T>(items: Seq<T>, f: spec_fn(T) -> Emission)
    ensures
        chain_all(items, f).1 is None <==> forall|i: int| 0 <= i < items.len() ==> (#[trigger] f(items[i])).1 is None,
    decreases items.len(),
{
    if items.len() > 0 {
        let init = items.drop_last();
        lemma_chain_all_ok(init, f);
        if chain_all(items, f).1 is None {
            assert forall|i: int| 0 <= i < items.len() implies (#[trigger] f(items[i])).1 is None by {
                if i < items.len() - 1 {
                    assert(items[i] == init[i]);
                }
            }
        }
        if forall|i: int| 0 <= i < items.len() ==> (#[trigger] f(items[i])).1 is None {
            assert forall|i: int| 0 <= i < init.len() implies (#[trigger] f(init[i])).1 is None by {
                assert(items[i] == init[i]);
            }
            assert(f(items[items.len() - 1]).1 is None);
        }
    }
}

/// A chain succeeds exactly when both of its parts do.
proof fn lemma_chain_ok(a: Emission, b: Emission)
    ensures
        chain(a, b).1 is None <==> (a.1 is None && b.1 is None),
{
}

proof fn lemma_variant_count_ok(count: usize, field: &'static str)
    ensures
        variant_count_bytes(count, field).1 is None <==> count <= 65535,
{
}

proof fn lemma_frame_removes_ok(frame: FrameInfo)
    ensures
        frame_removes_bytes(frame).1 is None <==> frame.remove@.len() <= 65535,
{
    lemma_chain_all_ok(frame.remove@, removes_writer());
    assert forall|i: int| 0 <= i < frame.remove@.len() implies (#[trigger] removes_writer()(frame.remove@[i])).1 is None by {
        assert(removes_writer()(frame.remove@[i]) == removes_bytes(frame.remove@[i]));
    }
    lemma_variant_count_ok(frame.remove.len(), "frame.remove");
}

proof fn lemma_frame_moves_ok(frame: FrameInfo)
    ensures
        frame_moves_bytes(frame).1 is None <==> frame.change@.len() <= 65535,
{
    lemma_chain_all_ok(frame.change@, moves_writer());
    assert forall|i: int| 0 <= i < frame.change@.len() implies (#[trigger] moves_writer()(frame.change@[i])).1 is None by {
        assert(moves_writer()(frame.change@[i]) == moves_bytes(frame.change@[i]));
    }
    lemma_variant_count_ok(frame.change.len(), "frame.change");
}

proof fn lemma_adds_ok(info: AddsInfo, version: i32)
    ensures
        adds_bytes(info, version).1 is None <==> adds_valid(info, version),
{
}

proof fn lemma_frame_adds_ok(frame: FrameInfo, version: i32)
    ensures
        frame_adds_bytes(frame, version).1 is None <==> (frame.append@.len() <= 65535 && forall|i: int|
            0 <= i < frame.append@.len() ==> adds_valid(#[trigger] frame.append@[i], version)),
{
    let items = frame.append@;
    let f = adds_writer(version);
    lemma_chain_all_ok(items, f);
    assert forall|i: int| 0 <= i < items.len() implies ((#[trigger] f(items[i])).1 is None <==> adds_valid(items[i], version)) by {
        lemma_adds_ok(items[i], version);
    }
    let all_written = forall|i: int| 0 <= i < items.len() ==> (#[trigger] f(items[i])).1 is None;
    let all_valid = forall|i: int| 0 <= i < items.len() ==> adds_valid(#[trigger] items[i], version);
    if all_written {
        assert forall|i: int| 0 <= i < items.len() implies adds_valid(#[trigger] items[i], version) by {
            assert(f(items[i]).1 is None);
        }
    }
    if all_valid {
        assert forall|i: int| 0 <= i < items.len() implies (#[trigger] f(items[i])).1 is None by {
            assert(adds_valid(items[i], version));
        }
    }
    assert(all_written == all_valid);
    lemma_variant_count_ok(frame.append.len(), "frame.append");
    if items.len() > 0 {
        lemma_chain_ok(variant_count_bytes(frame.append.len(), "frame.append"), chain_all(items, f));
    }
}

proof fn lemma_frame_commands_ok(frame: FrameInfo)
    ensures
        frame_commands_bytes(frame).1 is None <==> (frame.command@.len() <= 255 && forall|i: int|
            0 <= i < frame.command@.len() ==> string_fits((#[trigger] frame.command@[i])[0]@)
                && string_fits(frame.command@[i][1]@)),
{
    let items = frame.command@;
    let f = command_writer();
    lemma_chain_all_ok(items, f);
    let all_written = forall|i: int| 0 <= i < items.len() ==> (#[trigger] f(items[i])).1 is None;
    let all_fit = forall|i: int|
        0 <= i < items.len() ==> string_fits((#[trigger] items[i])[0]@) && string_fits(items[i][1]@);
    if all_written {
        assert forall|i: int| 0 <= i < items.len() implies string_fits((#[trigger] items[i])[0]@)
            && string_fits(items[i][1]@) by {
            assert(f(items[i]).1 is None);
            assert(f(items[i]) == command_bytes(items[i]));
        }
    }
    if all_fit {
        assert forall|i: int| 0 <= i < items.len() implies (#[trigger] f(items[i])).1 is None by {
            assert(f(items[i]) == command_bytes(items[i]));
            assert(string_fits(items[i][0]@) && string_fits(items[i][1]@));
        }
    }
    assert(all_written == all_fit);
    if items.len() > 0 {
        lemma_chain_ok(u8_count_bytes(frame.command.len(), "frame.command"), chain_all(items, f));
    }
}

proof fn lemma_frame_ok(frame: FrameInfo, version: i32)
    ensures
        frame_bytes(frame, version).1 is None <==> frame_valid(frame, version),
{
    lemma_frame_removes_ok(frame);
    lemma_frame_adds_ok(frame, version);
    lemma_frame_moves_ok(frame);
    lemma_frame_commands_ok(frame);
    lemma_chain_ok(frame_label_bytes(frame), frame_commands_bytes(frame));
}

proof fn lemma_sprite_head_ok(sprite: SpriteInfo, version: i32)
    ensures
        sprite_head_bytes(sprite, version).1 is None <==> (version >= 4 ==> (sprite.name matches Some(
            name,
        ) && string_fits(name@) && sprite.frame_rate is Some)),
{
}

proof fn lemma_sprite_frames_ok(sprite: SpriteInfo, version: i32)
    ensures
        chain_all(sprite.frame@, frame_writer(version)).1 is None <==> forall|i: int|
            0 <= i < sprite.frame@.len() ==> frame_valid(#[trigger] sprite.frame@[i], version),
{
    let items = sprite.frame@;
    let f = frame_writer(version);
    lemma_chain_all_ok(items, f);
    let all_written = forall|i: int| 0 <= i < items.len() ==> (#[trigger] f(items[i])).1 is None;
    let all_valid = forall|i: int| 0 <= i < items.len() ==> frame_valid(#[trigger] items[i], version);
    if all_written {
        assert forall|i: int| 0 <= i < items.len() implies frame_valid(#[trigger] items[i], version) by {
            assert(f(items[i]).1 is None);
            lemma_frame_ok(items[i], version);
        }
    }
    if all_valid {
        assert forall|i: int| 0 <= i < items.len() implies (#[trigger] f(items[i])).1 is None by {
            assert(frame_valid(items[i], version));
            lemma_frame_ok(items[i], version);
        }
    }
    assert(all_written == all_valid);
}

proof fn lemma_sprite_ok(sprite: SpriteInfo, version: i32)
    ensures
        sprite_bytes(sprite, version).1 is None <==> sprite_valid(sprite, version),
{
    lemma_sprite_head_ok(sprite, version);
    lemma_sprite_frames_ok(sprite, version);
    let t3 = chain_all(sprite.frame@, frame_writer(version));
    let t2 = chain(sprite_work_area_bytes(sprite, version), t3);
    let t1 = chain(u16_len_bytes(sprite.frame.len(), "sprite.frame"), t2);
    lemma_chain_ok(sprite_work_area_bytes(sprite, version), t3);
    lemma_chain_ok(u16_len_bytes(sprite.frame.len(), "sprite.frame"), t2);
    lemma_chain_ok(sprite_head_bytes(sprite, version), t1);
}

proof fn lemma_image_ok(img: ImageInfo, version: i32)
    ensures
        image_bytes(img, version).1 is None <==> image_valid(img, version),
{
}

/// Encoding succeeds exactly on the files that `pam_valid` describes; on
/// every other file it reports an error.
pub proof fn law_encoding_succeeds_iff_valid(pam: PamInfo)
    ensures
        pam_bytes(pam).1 is None <==> pam_valid(pam),
{
    let v = pam.version;
    let images = pam.image@;
    let sprites = pam.sprite@;
    let fi = image_writer(v);
    let fs = sprite_writer(v);
    lemma_chain_all_ok(images, fi);
    lemma_chain_all_ok(sprites, fs);
    let images_written = forall|i: int| 0 <= i < images.len() ==> (#[trigger] fi(images[i])).1 is None;
    let images_valid = forall|i: int| 0 <= i < images.len() ==> image_valid(#[trigger] images[i], v);
    if images_written {
        assert forall|i: int| 0 <= i < images.len() implies image_valid(#[trigger] images[i], v) by {
            assert(fi(images[i]).1 is None);
            lemma_image_ok(images[i], v);
        }
    }
    if images_valid {
        assert forall|i: int| 0 <= i < images.len() implies (#[trigger] fi(images[i])).1 is None by {
            assert(image_valid(images[i], v));
            lemma_image_ok(images[i], v);
        }
    }
    assert(images_written == images_valid);
    let sprites_written = forall|i: int| 0 <= i < sprites.len() ==> (#[trigger] fs(sprites[i])).1 is None;
    let sprites_valid = forall|i: int| 0 <= i < sprites.len() ==> sprite_valid(#[trigger] sprites[i], v);
    if sprites_written {
        assert forall|i: int| 0 <= i < sprites.len() implies sprite_valid(#[trigger] sprites[i], v) by {
            assert(fs(sprites[i]).1 is None);
            lemma_sprite_ok(sprites[i], v);
        }
    }
    if sprites_valid {
        assert forall|i: int| 0 <= i < sprites.len() implies (#[trigger] fs(sprites[i])).1 is None by {
            assert(sprite_valid(sprites[i], v));
            lemma_sprite_ok(sprites[i], v);
        }
    }
    assert(sprites_written == sprites_valid);
    if let Some(main) = pam.main_sprite {
        lemma_sprite_ok(main, v);
        lemma_chain_ok(emit(seq![1u8]), sprite_bytes(main, v));
    }
    let t4 = chain(chain_all(sprites, fs), pam_main_sprite_bytes(pam));
    let t3 = chain(u16_len_bytes(pam.sprite.len(), "pam.sprite"), t4);
    let t2 = chain(chain_all(images, fi), t3);
    lemma_chain_ok(chain_all(sprites, fs), pam_main_sprite_bytes(pam));
    lemma_chain_ok(u16_len_bytes(pam.sprite.len(), "pam.sprite"), t4);
    lemma_chain_ok(chain_all(images, fi), t3);
    lemma_chain_ok(u16_len_bytes(pam.image.len(), "pam.image"), t2);
    assert(pam_body_bytes(pam) == chain(u16_len_bytes(pam.image.len(), "pam.image"), t2));
}

} // verus!
