//! Writing the PAM model out as bytes.
use crate::emission::{
    chain, chain_all, emit, lemma_chain_all_failed, lemma_chain_all_step, lemma_chain_all_whole,
    lemma_wrote_chain, lemma_wrote_failed, wrote,
};
use crate::error::Error;
use crate::format::{
    frame_writer, image_bytes, image_size_bytes, image_transform_bytes, image_writer, pam_bytes,
    pam_body_bytes, pam_header_bytes, pam_main_sprite_bytes, sprite_bytes, sprite_head_bytes, sprite_work_area_bytes,
    sprite_writer,
    adds_writer, command_bytes, command_writer, frame_adds_bytes, frame_bytes, frame_commands_bytes,
    frame_flags, frame_label_bytes, frame_moves_bytes, frame_removes_bytes, moves_writer, removes_writer,
    adds_bytes, adds_head, adds_index_bytes, adds_tail_bytes, move_extra_bytes, move_flags,
    move_index_bytes, move_transform_bytes, moves_bytes, removes_bytes, resource_bytes, string_bytes,
    u16_len_bytes, u8_count_bytes, variant_count_bytes,
};
use crate::types::{
    ImageInfo, PamInfo, SpriteInfo, PAM_MAGIC, AddsInfo, FrameInfo, FRAME_ADDS, FRAME_COMMANDS, FRAME_MOVES, FRAME_NAME, FRAME_REMOVES, FRAME_STOP, MovesInfo, RemovesInfo, MOVE_ANIM_FRAME_NUM, MOVE_COLOR, MOVE_LONG_COORDS, MOVE_MATRIX,
    MOVE_ROTATE, MOVE_SRC_RECT,
};
use crate::wire::{le_u16, put_bytes, put_i16, put_i32, put_u16, put_u32, put_u8};
use vstd::prelude::*;

verus! {

/// Writes a count that must fit in one byte.
pub fn write_u8_count(count: usize, field: &'static str, writer: &mut Vec<u8>) -> (r: Result<(), Error>)
    ensures
        wrote(old(writer)@, final(writer)@, r, u8_count_bytes(count, field)),
{
    if count > 255 {
        return Err(Error::ValueOutOfRange { field, value: count as i64 });
    }
    put_u8(writer, count as u8);
    Ok(())
}

/// Writes a count that must fit in two bytes.
pub fn write_u16_len(count: usize, field: &'static str, writer: &mut Vec<u8>) -> (r: Result<(), Error>)
    ensures
        wrote(old(writer)@, final(writer)@, r, u16_len_bytes(count, field)),
{
    if count > 65535 {
        return Err(Error::ValueOutOfRange { field, value: count as i64 });
    }
    put_u16(writer, count as u16);
    Ok(())
}

/// Writes a count in one byte, or as the byte 255 and two more bytes when it
/// is 255 or more.
pub fn write_variant_count(count: usize, field: &'static str, writer: &mut Vec<u8>) -> (r: Result<(), Error>)
    ensures
        wrote(old(writer)@, final(writer)@, r, variant_count_bytes(count, field)),
{
    if count < 255 {
        put_u8(writer, count as u8);
        Ok(())
    } else {
        put_u8(writer, 255);
        let r = write_u16_len(count, field, writer);
        assert(old(writer)@ + seq![255u8] + u16_len_bytes(count, field).0
            =~= old(writer)@ + variant_count_bytes(count, field).0);
        r
    }
}

/// Writes a string as its UTF-8 length in two bytes followed by its bytes.
pub fn write_string_by_u16(s: &str, writer: &mut Vec<u8>) -> (r: Result<(), Error>)
    ensures
        wrote(old(writer)@, final(writer)@, r, string_bytes(s@)),
{
    let bytes = s.as_bytes();
    if bytes.len() > 65535 {
        return Err(Error::ValueOutOfRange { field: "string.length", value: bytes.len() as i64 });
    }
    put_u16(writer, bytes.len() as u16);
    put_bytes(writer, bytes);
    assert(old(writer)@ + le_u16(bytes.len() as u16) + bytes@
        =~= old(writer)@ + string_bytes(s@).0);
    Ok(())
}

/// Writes a removal.
pub fn write_removes_info(info: &RemovesInfo, writer: &mut Vec<u8>) -> (r: Result<(), Error>)
    ensures
        wrote(old(writer)@, final(writer)@, r, removes_bytes(*info)),
{
    if info.index >= 2047 {
        put_u16(writer, 2047);
        put_i32(writer, info.index);
    } else {
        put_u16(writer, info.index as u16);
    }
    assert(writer@ =~= old(writer)@ + removes_bytes(*info).0);
    Ok(())
}

/// Writes the resource index of an addition.
fn write_resource(resource: u32, version: i32, writer: &mut Vec<u8>) -> (r: Result<(), Error>)
    ensures
        wrote(old(writer)@, final(writer)@, r, resource_bytes(resource, version)),
{
    if version >= 6 && resource >= 255 {
        if resource > 65535 {
            return Err(Error::ValueOutOfRange { field: "append.resource", value: resource as i64 });
        }
        put_u8(writer, 255);
        put_u16(writer, resource as u16);
    } else {
        if resource > 255 {
            return Err(Error::ValueOutOfRange { field: "append.resource", value: resource as i64 });
        }
        put_u8(writer, resource as u8);
    }
    assert(writer@ =~= old(writer)@ + resource_bytes(resource, version).0);
    Ok(())
}

/// Writes the head and index of an addition and returns the head.
fn write_adds_index(info: &AddsInfo, writer: &mut Vec<u8>) -> (num: u16)
    ensures
        num == adds_head(*info),
        final(writer)@ == old(writer)@ + adds_index_bytes(*info),
{
    let large_index = info.index >= 2047;
    let num: u16 = (if large_index { 2047u16 } else { info.index as u16 })
        | (if info.sprite { 32768u16 } else { 0u16 })
        | (if info.additive { 16384u16 } else { 0u16 })
        | (if info.preload_frame != 0 { 8192u16 } else { 0u16 })
        | (if info.name.is_some() { 4096u16 } else { 0u16 })
        | (if info.time_scale_set { 2048u16 } else { 0u16 });
    put_u16(writer, num);
    if large_index {
        put_i32(writer, info.index);
    }
    assert(writer@ =~= old(writer)@ + adds_index_bytes(*info));
    num
}

/// Writes the fields of an addition that its head `num` marks present.
fn write_adds_tail(info: &AddsInfo, num: u16, writer: &mut Vec<u8>) -> (r: Result<(), Error>)
    requires
        num == adds_head(*info),
    ensures
        wrote(old(writer)@, final(writer)@, r, adds_tail_bytes(*info)),
{
    if (num & 8192) != 0 {
        put_i16(writer, info.preload_frame as i16);
    }
    match &info.name {
        Some(name) => {
            let rn = write_string_by_u16(name.as_str(), writer);
            if rn.is_err() {
                assert(writer@ =~= old(writer)@ + adds_tail_bytes(*info).0);
                return rn;
            }
        },
        None => {},
    }
    if (num & 2048) != 0 {
        put_i32(writer, info.time_scale);
    }
    assert(writer@ =~= old(writer)@ + adds_tail_bytes(*info).0);
    Ok(())
}

/// Writes an addition.
pub fn write_adds_info(info: &AddsInfo, writer: &mut Vec<u8>, version: i32) -> (r: Result<(), Error>)
    ensures
        wrote(old(writer)@, final(writer)@, r, adds_bytes(*info, version)),
{
    let num = write_adds_index(info, writer);
    let rr = write_resource(info.resource, version, writer);
    if rr.is_err() {
        assert(writer@ =~= old(writer)@ + adds_bytes(*info, version).0);
        return rr;
    }
    let rt = write_adds_tail(info, num, writer);
    assert(writer@ =~= old(writer)@ + adds_bytes(*info, version).0);
    rt
}

/// Writes the matrix or rotation of a move, then its translation.
fn write_move_transform(info: &MovesInfo, writer: &mut Vec<u8>)
    ensures
        final(writer)@ == old(writer)@ + move_transform_bytes(*info),
{
    let len = info.transform.len();
    let tx: i32 = if len >= 2 { info.transform[len - 2].offset } else { 0 };
    let ty: i32 = if len >= 2 { info.transform[len - 1].offset } else { 0 };
    if len >= 6 {
        put_i32(writer, info.transform[0].matrix);
        put_i32(writer, info.transform[2].matrix);
        put_i32(writer, info.transform[1].matrix);
        put_i32(writer, info.transform[3].matrix);
    } else if len >= 3 && info.transform[0].rotates {
        put_i16(writer, info.transform[0].angle);
    }
    put_i32(writer, tx);
    put_i32(writer, ty);
    assert(writer@ =~= old(writer)@ + move_transform_bytes(*info));
}

/// Writes the source rectangle, colour and sprite frame number of a move,
/// those that are present.
fn write_move_extras(info: &MovesInfo, writer: &mut Vec<u8>)
    ensures
        final(writer)@ == old(writer)@ + move_extra_bytes(*info),
{
    match &info.source_rectangle {
        Some(sr) => {
            put_i16(writer, sr.position[0]);
            put_i16(writer, sr.position[1]);
            put_i16(writer, sr.size[0]);
            put_i16(writer, sr.size[1]);
        },
        None => {},
    }
    match &info.color {
        Some(c) => {
            put_u8(writer, c[0]);
            put_u8(writer, c[1]);
            put_u8(writer, c[2]);
            put_u8(writer, c[3]);
        },
        None => {},
    }
    match info.sprite_frame_number {
        Some(n) => put_i16(writer, n as i16),
        None => {},
    }
    assert(writer@ =~= old(writer)@ + move_extra_bytes(*info));
}

/// Writes a move.
pub fn write_moves_info(info: &MovesInfo, writer: &mut Vec<u8>, _version: i32) -> (r: Result<(), Error>)
    ensures
        wrote(old(writer)@, final(writer)@, r, moves_bytes(*info)),
{
    let large_index = info.index >= 1023;
    let len = info.transform.len();
    let flags: u16 = (if len >= 6 {
        MOVE_MATRIX
    } else if len >= 3 && info.transform[0].rotates {
        MOVE_ROTATE
    } else {
        0u16
    }) | (if info.source_rectangle.is_some() { MOVE_SRC_RECT } else { 0u16 }) | (if info.color.is_some() {
        MOVE_COLOR
    } else {
        0u16
    }) | (if info.sprite_frame_number.is_some() { MOVE_ANIM_FRAME_NUM } else { 0u16 })
        | MOVE_LONG_COORDS;
    assert(flags == move_flags(*info));
    let num: u16 = (if large_index { 1023u16 } else { info.index as u16 }) | flags;
    put_u16(writer, num);
    if large_index {
        put_i32(writer, info.index);
    }
    assert(writer@ =~= old(writer)@ + move_index_bytes(*info));
    write_move_transform(info, writer);
    write_move_extras(info, writer);
    assert(writer@ =~= old(writer)@ + moves_bytes(*info).0);
    Ok(())
}

/// Writes each removal in turn, stopping at the first failure.
fn write_removes_list(items: &Vec<RemovesInfo>, writer: &mut Vec<u8>) -> (r: Result<(), Error>)
    ensures
        wrote(old(writer)@, final(writer)@, r, chain_all(items@, removes_writer())),
{
    let ghost f = removes_writer();
    let mut i: usize = 0;
    while i < items.len()
        invariant
            i <= items@.len(),
            f == removes_writer(),
            wrote(old(writer)@, writer@, Ok(()), chain_all(items@.take(i as int), f)),
        decreases items@.len() - i,
    {
        let ghost mid = writer@;
        let r = write_removes_info(&items[i], writer);
        proof {
            lemma_chain_all_step(items@, f, i as int);
            lemma_wrote_chain(old(writer)@, mid, writer@, r, chain_all(items@.take(i as int), f), f(items@[i as int]));
        }
        if r.is_err() {
            proof {
                lemma_chain_all_failed(items@, f, i + 1);
            }
            return r;
        }
        i = i + 1;
    }
    proof {
        lemma_chain_all_whole(items@, f);
    }
    Ok(())
}

/// Writes each addition in turn, stopping at the first failure.
fn write_adds_list(items: &Vec<AddsInfo>, writer: &mut Vec<u8>, version: i32) -> (r: Result<(), Error>)
    ensures
        wrote(old(writer)@, final(writer)@, r, chain_all(items@, adds_writer(version))),
{
    let ghost f = adds_writer(version);
    let mut i: usize = 0;
    while i < items.len()
        invariant
            i <= items@.len(),
            f == adds_writer(version),
            wrote(old(writer)@, writer@, Ok(()), chain_all(items@.take(i as int), f)),
        decreases items@.len() - i,
    {
        let ghost mid = writer@;
        let r = write_adds_info(&items[i], writer, version);
        proof {
            lemma_chain_all_step(items@, f, i as int);
            lemma_wrote_chain(old(writer)@, mid, writer@, r, chain_all(items@.take(i as int), f), f(items@[i as int]));
        }
        if r.is_err() {
            proof {
                lemma_chain_all_failed(items@, f, i + 1);
            }
            return r;
        }
        i = i + 1;
    }
    proof {
        lemma_chain_all_whole(items@, f);
    }
    Ok(())
}

/// Writes each move in turn, stopping at the first failure.
fn write_moves_list(items: &Vec<MovesInfo>, writer: &mut Vec<u8>) -> (r: Result<(), Error>)
    ensures
        wrote(old(writer)@, final(writer)@, r, chain_all(items@, moves_writer())),
{
    let ghost f = moves_writer();
    let mut i: usize = 0;
    while i < items.len()
        invariant
            i <= items@.len(),
            f == moves_writer(),
            wrote(old(writer)@, writer@, Ok(()), chain_all(items@.take(i as int), f)),
        decreases items@.len() - i,
    {
        let ghost mid = writer@;
        let r = write_moves_info(&items[i], writer, 0);
        proof {
            lemma_chain_all_step(items@, f, i as int);
            lemma_wrote_chain(old(writer)@, mid, writer@, r, chain_all(items@.take(i as int), f), f(items@[i as int]));
        }
        if r.is_err() {
            proof {
                lemma_chain_all_failed(items@, f, i + 1);
            }
            return r;
        }
        i = i + 1;
    }
    proof {
        lemma_chain_all_whole(items@, f);
    }
    Ok(())
}

/// Writes each command in turn, stopping at the first failure.
fn write_command_list(items: &Vec<[String; 2]>, writer: &mut Vec<u8>) -> (r: Result<(), Error>)
    ensures
        wrote(old(writer)@, final(writer)@, r, chain_all(items@, command_writer())),
{
    let ghost f = command_writer();
    let mut i: usize = 0;
    while i < items.len()
        invariant
            i <= items@.len(),
            f == command_writer(),
            wrote(old(writer)@, writer@, Ok(()), chain_all(items@.take(i as int), f)),
        decreases items@.len() - i,
    {
        let ghost mid = writer@;
        let r = write_command(&items[i], writer);
        proof {
            lemma_chain_all_step(items@, f, i as int);
            lemma_wrote_chain(old(writer)@, mid, writer@, r, chain_all(items@.take(i as int), f), f(items@[i as int]));
        }
        if r.is_err() {
            proof {
                lemma_chain_all_failed(items@, f, i + 1);
            }
            return r;
        }
        i = i + 1;
    }
    proof {
        lemma_chain_all_whole(items@, f);
    }
    Ok(())
}

/// Writes a command: its two strings.
fn write_command(cmd: &[String; 2], writer: &mut Vec<u8>) -> (r: Result<(), Error>)
    ensures
        wrote(old(writer)@, final(writer)@, r, command_bytes(*cmd)),
{
    let r = write_string_by_u16(cmd[0].as_str(), writer);
    if r.is_err() {
        return r;
    }
    let ghost mid = writer@;
    let r2 = write_string_by_u16(cmd[1].as_str(), writer);
    proof {
        lemma_wrote_chain(old(writer)@, mid, writer@, r2, string_bytes(cmd[0]@), string_bytes(cmd[1]@));
    }
    r2
}

/// Writes the removals of a frame, when it has any.
fn write_frame_removes(frame: &FrameInfo, writer: &mut Vec<u8>) -> (r: Result<(), Error>)
    ensures
        wrote(old(writer)@, final(writer)@, r, frame_removes_bytes(*frame)),
{
    if !frame.remove.is_empty() {
        let r = write_variant_count(frame.remove.len(), "frame.remove", writer);
        if r.is_err() {
            return r;
        }
        let ghost mid = writer@;
        let r2 = write_removes_list(&frame.remove, writer);
        proof {
            lemma_wrote_chain(old(writer)@, mid, writer@, r2, variant_count_bytes(frame.remove.len(), "frame.remove"), chain_all(frame.remove@, removes_writer()));
        }
        r2
    } else {
        assert(writer@ =~= old(writer)@ + Seq::<u8>::empty());
        Ok(())
    }
}

/// Writes the additions of a frame, when it has any.
fn write_frame_adds(frame: &FrameInfo, writer: &mut Vec<u8>, version: i32) -> (r: Result<(), Error>)
    ensures
        wrote(old(writer)@, final(writer)@, r, frame_adds_bytes(*frame, version)),
{
    if !frame.append.is_empty() {
        let r = write_variant_count(frame.append.len(), "frame.append", writer);
        if r.is_err() {
            return r;
        }
        let ghost mid = writer@;
        let r2 = write_adds_list(&frame.append, writer, version);
        proof {
            lemma_wrote_chain(old(writer)@, mid, writer@, r2, variant_count_bytes(frame.append.len(), "frame.append"), chain_all(frame.append@, adds_writer(version)));
        }
        r2
    } else {
        assert(writer@ =~= old(writer)@ + Seq::<u8>::empty());
        Ok(())
    }
}

/// Writes the moves of a frame, when it has any.
fn write_frame_moves(frame: &FrameInfo, writer: &mut Vec<u8>) -> (r: Result<(), Error>)
    ensures
        wrote(old(writer)@, final(writer)@, r, frame_moves_bytes(*frame)),
{
    if !frame.change.is_empty() {
        let r = write_variant_count(frame.change.len(), "frame.change", writer);
        if r.is_err() {
            return r;
        }
        let ghost mid = writer@;
        let r2 = write_moves_list(&frame.change, writer);
        proof {
            lemma_wrote_chain(old(writer)@, mid, writer@, r2, variant_count_bytes(frame.change.len(), "frame.change"), chain_all(frame.change@, moves_writer()));
        }
        r2
    } else {
        assert(writer@ =~= old(writer)@ + Seq::<u8>::empty());
        Ok(())
    }
}

/// Writes the label of a frame, when it has one.
fn write_frame_label(frame: &FrameInfo, writer: &mut Vec<u8>) -> (r: Result<(), Error>)
    ensures
        wrote(old(writer)@, final(writer)@, r, frame_label_bytes(*frame)),
{
    match &frame.label {
        Some(label) => write_string_by_u16(label.as_str(), writer),
        None => {
            assert(writer@ =~= old(writer)@ + Seq::<u8>::empty());
            Ok(())
        },
    }
}

/// Writes the commands of a frame, when it has any.
fn write_frame_commands(frame: &FrameInfo, writer: &mut Vec<u8>) -> (r: Result<(), Error>)
    ensures
        wrote(old(writer)@, final(writer)@, r, frame_commands_bytes(*frame)),
{
    if !frame.command.is_empty() {
        let r = write_u8_count(frame.command.len(), "frame.command", writer);
        if r.is_err() {
            return r;
        }
        let ghost mid = writer@;
        let r2 = write_command_list(&frame.command, writer);
        proof {
            lemma_wrote_chain(old(writer)@, mid, writer@, r2, u8_count_bytes(frame.command.len(), "frame.command"), chain_all(frame.command@, command_writer()));
        }
        r2
    } else {
        assert(writer@ =~= old(writer)@ + Seq::<u8>::empty());
        Ok(())
    }
}

/// Writes a frame.
pub fn write_frame_info(frame: &FrameInfo, writer: &mut Vec<u8>, version: i32) -> (r: Result<(), Error>)
    ensures
        wrote(old(writer)@, final(writer)@, r, frame_bytes(*frame, version)),
{
    let flags: u8 = (if !frame.remove.is_empty() { FRAME_REMOVES } else { 0u8 }) | (if !frame.append.is_empty() {
        FRAME_ADDS
    } else {
        0u8
    }) | (if !frame.change.is_empty() { FRAME_MOVES } else { 0u8 }) | (if frame.label.is_some() {
        FRAME_NAME
    } else {
        0u8
    }) | (if frame.stop { FRAME_STOP } else { 0u8 }) | (if !frame.command.is_empty() {
        FRAME_COMMANDS
    } else {
        0u8
    });
    assert(flags == frame_flags(*frame));
    let ghost f = *frame;
    let ghost t5 = frame_commands_bytes(f);
    let ghost t4 = chain(frame_label_bytes(f), t5);
    let ghost t3 = chain(frame_moves_bytes(f), t4);
    let ghost t2 = chain(frame_adds_bytes(f, version), t3);
    let ghost t1 = chain(frame_removes_bytes(f), t2);
    let ghost s0 = writer@;
    put_u8(writer, flags);
    let ghost s1 = writer@;
    assert(wrote(s0, s1, Ok(()), emit(seq![flags])));
    let r = write_frame_removes(frame, writer);
    let ghost s2 = writer@;
    if r.is_err() {
        proof {
            lemma_wrote_failed(s1, s2, r, frame_removes_bytes(f), t2);
            lemma_wrote_chain(s0, s1, s2, r, emit(seq![flags]), t1);
        }
        return r;
    }
    let r = write_frame_adds(frame, writer, version);
    let ghost s3 = writer@;
    if r.is_err() {
        proof {
            lemma_wrote_failed(s2, s3, r, frame_adds_bytes(f, version), t3);
            lemma_wrote_chain(s1, s2, s3, r, frame_removes_bytes(f), t2);
            lemma_wrote_chain(s0, s1, s3, r, emit(seq![flags]), t1);
        }
        return r;
    }
    let r = write_frame_moves(frame, writer);
    let ghost s4 = writer@;
    if r.is_err() {
        proof {
            lemma_wrote_failed(s3, s4, r, frame_moves_bytes(f), t4);
            lemma_wrote_chain(s2, s3, s4, r, frame_adds_bytes(f, version), t3);
            lemma_wrote_chain(s1, s2, s4, r, frame_removes_bytes(f), t2);
            lemma_wrote_chain(s0, s1, s4, r, emit(seq![flags]), t1);
        }
        return r;
    }
    let r = write_frame_label(frame, writer);
    let ghost s5 = writer@;
    if r.is_err() {
        proof {
            lemma_wrote_failed(s4, s5, r, frame_label_bytes(f), t5);
            lemma_wrote_chain(s3, s4, s5, r, frame_moves_bytes(f), t4);
            lemma_wrote_chain(s2, s3, s5, r, frame_adds_bytes(f, version), t3);
            lemma_wrote_chain(s1, s2, s5, r, frame_removes_bytes(f), t2);
            lemma_wrote_chain(s0, s1, s5, r, emit(seq![flags]), t1);
        }
        return r;
    }
    let r = write_frame_commands(frame, writer);
    let ghost s6 = writer@;
    proof {
        lemma_wrote_chain(s4, s5, s6, r, frame_label_bytes(f), t5);
        lemma_wrote_chain(s3, s4, s6, r, frame_moves_bytes(f), t4);
        lemma_wrote_chain(s2, s3, s6, r, frame_adds_bytes(f, version), t3);
        lemma_wrote_chain(s1, s2, s6, r, frame_removes_bytes(f), t2);
        lemma_wrote_chain(s0, s1, s6, r, emit(seq![flags]), t1);
    }
    r
}

/// Writes each frame in turn, stopping at the first failure.
fn write_frame_list(items: &Vec<FrameInfo>, writer: &mut Vec<u8>, version: i32) -> (r: Result<(), Error>)
    ensures
        wrote(old(writer)@, final(writer)@, r, chain_all(items@, frame_writer(version))),
{
    let ghost f = frame_writer(version);
    let mut i: usize = 0;
    while i < items.len()
        invariant
            i <= items@.len(),
            f == frame_writer(version),
            wrote(old(writer)@, writer@, Ok(()), chain_all(items@.take(i as int), f)),
        decreases items@.len() - i,
    {
        let ghost mid = writer@;
        let r = write_frame_info(&items[i], writer, version);
        proof {
            lemma_chain_all_step(items@, f, i as int);
            lemma_wrote_chain(old(writer)@, mid, writer@, r, chain_all(items@.take(i as int), f), f(items@[i as int]));
        }
        if r.is_err() {
            proof {
                lemma_chain_all_failed(items@, f, i + 1);
            }
            return r;
        }
        i = i + 1;
    }
    proof {
        lemma_chain_all_whole(items@, f);
    }
    Ok(())
}

/// Writes each image in turn, stopping at the first failure.
fn write_image_list(items: &Vec<ImageInfo>, writer: &mut Vec<u8>, version: i32) -> (r: Result<(), Error>)
    ensures
        wrote(old(writer)@, final(writer)@, r, chain_all(items@, image_writer(version))),
{
    let ghost f = image_writer(version);
    let mut i: usize = 0;
    while i < items.len()
        invariant
            i <= items@.len(),
            f == image_writer(version),
            wrote(old(writer)@, writer@, Ok(()), chain_all(items@.take(i as int), f)),
        decreases items@.len() - i,
    {
        let ghost mid = writer@;
        let r = write_image_info(&items[i], writer, version);
        proof {
            lemma_chain_all_step(items@, f, i as int);
            lemma_wrote_chain(old(writer)@, mid, writer@, r, chain_all(items@.take(i as int), f), f(items@[i as int]));
        }
        if r.is_err() {
            proof {
                lemma_chain_all_failed(items@, f, i + 1);
            }
            return r;
        }
        i = i + 1;
    }
    proof {
        lemma_chain_all_whole(items@, f);
    }
    Ok(())
}

/// Writes each sprite in turn, stopping at the first failure.
fn write_sprite_list(items: &Vec<SpriteInfo>, writer: &mut Vec<u8>, version: i32) -> (r: Result<(), Error>)
    ensures
        wrote(old(writer)@, final(writer)@, r, chain_all(items@, sprite_writer(version))),
{
    let ghost f = sprite_writer(version);
    let mut i: usize = 0;
    while i < items.len()
        invariant
            i <= items@.len(),
            f == sprite_writer(version),
            wrote(old(writer)@, writer@, Ok(()), chain_all(items@.take(i as int), f)),
        decreases items@.len() - i,
    {
        let ghost mid = writer@;
        let r = write_sprite_info(&items[i], writer, version);
        proof {
            lemma_chain_all_step(items@, f, i as int);
            lemma_wrote_chain(old(writer)@, mid, writer@, r, chain_all(items@.take(i as int), f), f(items@[i as int]));
        }
        if r.is_err() {
            proof {
                lemma_chain_all_failed(items@, f, i + 1);
            }
            return r;
        }
        i = i + 1;
    }
    proof {
        lemma_chain_all_whole(items@, f);
    }
    Ok(())
}

/// Writes what precedes the frame count of a sprite.
fn write_sprite_head(sprite: &SpriteInfo, writer: &mut Vec<u8>, version: i32) -> (r: Result<(), Error>)
    ensures
        wrote(old(writer)@, final(writer)@, r, sprite_head_bytes(*sprite, version)),
{
    if version >= 4 {
        let name = match &sprite.name {
            Some(name) => name,
            None => {
                return Err(Error::MissingRequiredField { field: "sprite.name" });
            },
        };
        let r = write_string_by_u16(name.as_str(), writer);
        if r.is_err() {
            return r;
        }
        let ghost s1 = writer@;
        if version >= 6 {
            let empty = "";
            proof {
                reveal_strlit("");
            }
            let r0 = write_string_by_u16(empty, writer);
            assert(r0.is_ok());
        }
        let ghost s2 = writer@;
        assert(s2 =~= s1 + (if version >= 6 { seq![0u8, 0u8] } else { Seq::<u8>::empty() }));
        let frame_rate = match sprite.frame_rate {
            Some(rate) => rate,
            None => {
                assert(writer@ =~= old(writer)@ + sprite_head_bytes(*sprite, version).0);
                return Err(Error::MissingRequiredField { field: "sprite.frame_rate" });
            },
        };
        put_i32(writer, frame_rate);
        assert(writer@ =~= old(writer)@ + sprite_head_bytes(*sprite, version).0);
        Ok(())
    } else {
        assert(writer@ =~= old(writer)@ + Seq::<u8>::empty());
        Ok(())
    }
}

/// Writes the work area of a sprite, from version 5 on.
fn write_sprite_work_area(sprite: &SpriteInfo, writer: &mut Vec<u8>, version: i32) -> (r: Result<(), Error>)
    ensures
        wrote(old(writer)@, final(writer)@, r, sprite_work_area_bytes(*sprite, version)),
{
    if version >= 5 {
        let work_area = match sprite.work_area {
            Some(w) => w,
            None => {
                return Err(Error::MissingRequiredField { field: "sprite.work_area" });
            },
        };
        put_i16(writer, work_area[0] as i16);
        put_i16(writer, work_area[1] as i16);
        assert(writer@ =~= old(writer)@ + sprite_work_area_bytes(*sprite, version).0);
    } else {
        assert(writer@ =~= old(writer)@ + Seq::<u8>::empty());
    }
    Ok(())
}

/// Writes a sprite.
pub fn write_sprite_info(sprite: &SpriteInfo, writer: &mut Vec<u8>, version: i32) -> (r: Result<(), Error>)
    ensures
        wrote(old(writer)@, final(writer)@, r, sprite_bytes(*sprite, version)),
{
    let ghost sp = *sprite;
    let ghost t3 = chain_all(sp.frame@, frame_writer(version));
    let ghost t2 = chain(sprite_work_area_bytes(sp, version), t3);
    let ghost t1 = chain(u16_len_bytes(sp.frame.len(), "sprite.frame"), t2);
    let ghost s0 = writer@;
    let r = write_sprite_head(sprite, writer, version);
    let ghost s1 = writer@;
    if r.is_err() {
        proof {
            lemma_wrote_failed(s0, s1, r, sprite_head_bytes(sp, version), t1);
        }
        return r;
    }
    let r = write_u16_len(sprite.frame.len(), "sprite.frame", writer);
    let ghost s2 = writer@;
    if r.is_err() {
        proof {
            lemma_wrote_failed(s1, s2, r, u16_len_bytes(sp.frame.len(), "sprite.frame"), t2);
            lemma_wrote_chain(s0, s1, s2, r, sprite_head_bytes(sp, version), t1);
        }
        return r;
    }
    let r = write_sprite_work_area(sprite, writer, version);
    let ghost s3 = writer@;
    if r.is_err() {
        proof {
            lemma_wrote_failed(s2, s3, r, sprite_work_area_bytes(sp, version), t3);
            lemma_wrote_chain(s1, s2, s3, r, u16_len_bytes(sp.frame.len(), "sprite.frame"), t2);
            lemma_wrote_chain(s0, s1, s3, r, sprite_head_bytes(sp, version), t1);
        }
        return r;
    }
    let r = write_frame_list(&sprite.frame, writer, version);
    let ghost s4 = writer@;
    proof {
        lemma_wrote_chain(s2, s3, s4, r, sprite_work_area_bytes(sp, version), t3);
        lemma_wrote_chain(s1, s2, s4, r, u16_len_bytes(sp.frame.len(), "sprite.frame"), t2);
        lemma_wrote_chain(s0, s1, s4, r, sprite_head_bytes(sp, version), t1);
    }
    r
}

/// Writes the size of an image, from version 4 on.
fn write_image_size(img: &ImageInfo, writer: &mut Vec<u8>, version: i32) -> (r: Result<(), Error>)
    ensures
        wrote(old(writer)@, final(writer)@, r, image_size_bytes(*img, version)),
{
    if version >= 4 {
        let size = match img.size {
            Some(size) => size,
            None => {
                return Err(Error::MissingRequiredField { field: "image.size" });
            },
        };
        put_i16(writer, size[0] as i16);
        put_i16(writer, size[1] as i16);
        assert(writer@ =~= old(writer)@ + image_size_bytes(*img, version).0);
    } else {
        assert(writer@ =~= old(writer)@ + Seq::<u8>::empty());
    }
    Ok(())
}

/// Writes the transform of an image.
fn write_image_transform(img: &ImageInfo, writer: &mut Vec<u8>, version: i32) -> (r: Result<(), Error>)
    ensures
        wrote(old(writer)@, final(writer)@, r, image_transform_bytes(*img, version)),
{
    let t = &img.transform;
    if version == 1 {
        if t.len() != 3 {
            return Err(
                Error::InvalidTransform {
                    field: "image.transform",
                    expected: "3 values for PAM v1",
                    actual: t.len(),
                },
            );
        }
        put_i16(writer, t[0].angle);
        put_i16(writer, t[1].offset);
        put_i16(writer, t[2].offset);
    } else {
        if t.len() != 6 {
            return Err(
                Error::InvalidTransform {
                    field: "image.transform",
                    expected: "6 values for PAM v2+",
                    actual: t.len(),
                },
            );
        }
        put_i32(writer, t[0].matrix);
        put_i32(writer, t[2].matrix);
        put_i32(writer, t[1].matrix);
        put_i32(writer, t[3].matrix);
        put_i16(writer, t[4].offset);
        put_i16(writer, t[5].offset);
    }
    assert(writer@ =~= old(writer)@ + image_transform_bytes(*img, version).0);
    Ok(())
}

/// Writes an image.
pub fn write_image_info(img: &ImageInfo, writer: &mut Vec<u8>, version: i32) -> (r: Result<(), Error>)
    ensures
        wrote(old(writer)@, final(writer)@, r, image_bytes(*img, version)),
{
    let ghost im = *img;
    let ghost t1 = chain(image_size_bytes(im, version), image_transform_bytes(im, version));
    let ghost s0 = writer@;
    let r = write_string_by_u16(img.name.as_str(), writer);
    let ghost s1 = writer@;
    if r.is_err() {
        proof {
            lemma_wrote_failed(s0, s1, r, string_bytes(im.name@), t1);
        }
        return r;
    }
    let r = write_image_size(img, writer, version);
    let ghost s2 = writer@;
    if r.is_err() {
        proof {
            lemma_wrote_failed(s1, s2, r, image_size_bytes(im, version), image_transform_bytes(im, version));
            lemma_wrote_chain(s0, s1, s2, r, string_bytes(im.name@), t1);
        }
        return r;
    }
    let r = write_image_transform(img, writer, version);
    let ghost s3 = writer@;
    proof {
        lemma_wrote_chain(s1, s2, s3, r, image_size_bytes(im, version), image_transform_bytes(im, version));
        lemma_wrote_chain(s0, s1, s3, r, string_bytes(im.name@), t1);
    }
    r
}

/// Writes the main sprite of a file.
fn write_main_sprite(pam: &PamInfo, writer: &mut Vec<u8>) -> (r: Result<(), Error>)
    ensures
        wrote(old(writer)@, final(writer)@, r, pam_main_sprite_bytes(*pam)),
{
    if pam.version > 3 {
        let has_main = pam.main_sprite.is_some();
        put_u8(writer, if has_main { 1 } else { 0 });
        let ghost s1 = writer@;
        match &pam.main_sprite {
            Some(main_sprite) => {
                let r = write_sprite_info(main_sprite, writer, pam.version);
                proof {
                    lemma_wrote_chain(old(writer)@, s1, writer@, r, emit(seq![1u8]), sprite_bytes(*main_sprite, pam.version));
                }
                r
            },
            None => Ok(()),
        }
    } else {
        match &pam.main_sprite {
            Some(main_sprite) => write_sprite_info(main_sprite, writer, pam.version),
            None => Err(Error::MissingRequiredField { field: "main_sprite" }),
        }
    }
}

/// Writes the fixed-size head of a file.
fn write_pam_header(pam: &PamInfo, writer: &mut Vec<u8>)
    requires
        1 <= pam.version <= 6,
    ensures
        final(writer)@ == old(writer)@ + pam_header_bytes(*pam),
{
    put_u32(writer, PAM_MAGIC);
    put_u32(writer, pam.version as u32);
    put_u8(writer, pam.frame_rate as u8);
    put_i16(writer, pam.position[0]);
    put_i16(writer, pam.position[1]);
    put_u16(writer, pam.size[0]);
    put_u16(writer, pam.size[1]);
    assert(writer@ =~= old(writer)@ + pam_header_bytes(*pam));
}

/// Encodes `pam` as a PAM file, appending its bytes to `writer`.
///
/// A version outside 1..=6 is refused before anything is written. Any other
/// error stops the writing where it is found; what was written up to there
/// stays in `writer`.
pub fn encode_pam(pam: &PamInfo, writer: &mut Vec<u8>) -> (r: Result<(), Error>)
    ensures
        wrote(old(writer)@, final(writer)@, r, pam_bytes(*pam)),
{
    if !(1 <= pam.version && pam.version <= 6) {
        return Err(Error::VersionOutOfRange(pam.version));
    }
    let ghost p = *pam;
    let ghost v = pam.version;
    let ghost t5 = pam_main_sprite_bytes(p);
    let ghost t4 = chain(chain_all(p.sprite@, sprite_writer(v)), t5);
    let ghost t3 = chain(u16_len_bytes(p.sprite.len(), "pam.sprite"), t4);
    let ghost t2 = chain(chain_all(p.image@, image_writer(v)), t3);
    let ghost t1 = chain(u16_len_bytes(p.image.len(), "pam.image"), t2);
    assert(t1 == pam_body_bytes(p));
    let ghost s0 = writer@;
    write_pam_header(pam, writer);
    let ghost s1 = writer@;
    assert(wrote(s0, s1, Ok(()), emit(pam_header_bytes(p))));
    let r = write_u16_len(pam.image.len(), "pam.image", writer);
    let ghost s2 = writer@;
    if r.is_err() {
        proof {
            lemma_wrote_failed(s1, s2, r, u16_len_bytes(p.image.len(), "pam.image"), t2);
            lemma_wrote_chain(s0, s1, s2, r, emit(pam_header_bytes(p)), t1);
        }
        return r;
    }
    let r = write_image_list(&pam.image, writer, pam.version);
    let ghost s3 = writer@;
    if r.is_err() {
        proof {
            lemma_wrote_failed(s2, s3, r, chain_all(p.image@, image_writer(v)), t3);
            lemma_wrote_chain(s1, s2, s3, r, u16_len_bytes(p.image.len(), "pam.image"), t2);
            lemma_wrote_chain(s0, s1, s3, r, emit(pam_header_bytes(p)), t1);
        }
        return r;
    }
    let r = write_u16_len(pam.sprite.len(), "pam.sprite", writer);
    let ghost s4 = writer@;
    if r.is_err() {
        proof {
            lemma_wrote_failed(s3, s4, r, u16_len_bytes(p.sprite.len(), "pam.sprite"), t4);
            lemma_wrote_chain(s2, s3, s4, r, chain_all(p.image@, image_writer(v)), t3);
            lemma_wrote_chain(s1, s2, s4, r, u16_len_bytes(p.image.len(), "pam.image"), t2);
            lemma_wrote_chain(s0, s1, s4, r, emit(pam_header_bytes(p)), t1);
        }
        return r;
    }
    let r = write_sprite_list(&pam.sprite, writer, pam.version);
    let ghost s5 = writer@;
    if r.is_err() {
        proof {
            lemma_wrote_failed(s4, s5, r, chain_all(p.sprite@, sprite_writer(v)), t5);
            lemma_wrote_chain(s3, s4, s5, r, u16_len_bytes(p.sprite.len(), "pam.sprite"), t4);
            lemma_wrote_chain(s2, s3, s5, r, chain_all(p.image@, image_writer(v)), t3);
            lemma_wrote_chain(s1, s2, s5, r, u16_len_bytes(p.image.len(), "pam.image"), t2);
            lemma_wrote_chain(s0, s1, s5, r, emit(pam_header_bytes(p)), t1);
        }
        return r;
    }
    let r = write_main_sprite(pam, writer);
    let ghost s6 = writer@;
    proof {
        lemma_wrote_chain(s4, s5, s6, r, chain_all(p.sprite@, sprite_writer(v)), t5);
        lemma_wrote_chain(s3, s4, s6, r, u16_len_bytes(p.sprite.len(), "pam.sprite"), t4);
        lemma_wrote_chain(s2, s3, s6, r, chain_all(p.image@, image_writer(v)), t3);
        lemma_wrote_chain(s1, s2, s6, r, u16_len_bytes(p.image.len(), "pam.image"), t2);
        lemma_wrote_chain(s0, s1, s6, r, emit(pam_header_bytes(p)), t1);
    }
    r
}

} // verus!
