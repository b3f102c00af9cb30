//! The PAM data model.
//!
//! Every quantity that the file stores as a fixed-point number is held here
//! already in its stored form: positions and sizes in twentieths of a pixel,
//! angles in thousandths, matrix coefficients and rates in the fixed-point
//! scale of the field that stores them. Turning real numbers into these
//! integers (rounding) is left to the caller.
use vstd::prelude::*;

verus! {

/// The magic number that opens every PAM file.
pub const PAM_MAGIC: u32 = 0xBAF01954;

/// Frame flag: the frame removes elements.
pub const FRAME_REMOVES: u8 = 1;
/// Frame flag: the frame adds elements.
pub const FRAME_ADDS: u8 = 2;
/// Frame flag: the frame moves elements.
pub const FRAME_MOVES: u8 = 4;
/// Frame flag: the frame has a label.
pub const FRAME_NAME: u8 = 8;
/// Frame flag: playback stops at the frame.
pub const FRAME_STOP: u8 = 16;
/// Frame flag: the frame carries commands.
pub const FRAME_COMMANDS: u8 = 32;

/// Move flag: a source rectangle follows.
pub const MOVE_SRC_RECT: u16 = 32768;
/// Move flag: a rotation follows.
pub const MOVE_ROTATE: u16 = 16384;
/// Move flag: a colour follows.
pub const MOVE_COLOR: u16 = 8192;
/// Move flag: a 2x2 matrix follows.
pub const MOVE_MATRIX: u16 = 4096;
/// Move flag: the translation is stored in 32 bits.
pub const MOVE_LONG_COORDS: u16 = 2048;
/// Move flag: a sprite frame number follows.
pub const MOVE_ANIM_FRAME_NUM: u16 = 1024;

/// Top-level file.
pub struct PamInfo {
    pub version: i32,
    pub frame_rate: i32,
    /// Origin, in twentieths of a pixel.
    pub position: [i16; 2],
    /// Extent, in twentieths of a pixel.
    pub size: [u16; 2],
    pub image: Vec<ImageInfo>,
    pub sprite: Vec<SpriteInfo>,
    pub main_sprite: Option<SpriteInfo>,
}

/// One component of an image transform, in each of the fixed-point forms in
/// which a PAM file may store it.
#[derive(Clone, Copy, Debug)]
pub struct ImageTransformValue {
    /// The component in thousandths (how version 1 stores its angle).
    pub angle: i16,
    /// The component times 1310720 (how version 2 and later store a matrix).
    pub matrix: i32,
    /// The component in twentieths (how a translation is stored).
    pub offset: i16,
}

/// A referenced image.
pub struct ImageInfo {
    pub name: String,
    pub size: Option<[i32; 2]>,
    /// Version 1: angle and translation; version 2 and later: a, b, c, d and
    /// translation.
    pub transform: Vec<ImageTransformValue>,
}

/// An animation layer.
pub struct SpriteInfo {
    pub name: Option<String>,
    /// Frames per second, times 65536.
    pub frame_rate: Option<i32>,
    pub work_area: Option<[i32; 2]>,
    pub frame: Vec<FrameInfo>,
}

/// A single frame.
pub struct FrameInfo {
    pub label: Option<String>,
    pub stop: bool,
    pub command: Vec<[String; 2]>,
    pub remove: Vec<RemovesInfo>,
    pub append: Vec<AddsInfo>,
    pub change: Vec<MovesInfo>,
}

/// Removes an image or sprite from the display list.
#[derive(Clone, Copy, Debug, PartialEq, Eq, Structural)]
pub struct RemovesInfo {
    pub index: i32,
}

/// Adds an image or sprite to the display list.
pub struct AddsInfo {
    pub index: i32,
    pub name: Option<String>,
    /// Image or sprite resource index (wire format: u8, extended to u16 in v6+).
    pub resource: u32,
    pub sprite: bool,
    pub additive: bool,
    /// Preload frame number (wire format: signed i16 when present).
    pub preload_frame: i32,
    /// The time scale times 65536.
    pub time_scale: i32,
    /// Whether the time scale differs from 1 (and so is stored).
    pub time_scale_set: bool,
}

/// A source rectangle, in twentieths of a pixel.
#[derive(Clone, Copy, Debug)]
pub struct Rectangle {
    pub position: [i16; 2],
    pub size: [i16; 2],
}

/// One component of a move transform, in each of the fixed-point forms in
/// which a PAM file may store it.
#[derive(Clone, Copy, Debug)]
pub struct MoveTransformValue {
    /// The component times 65536 (how a matrix coefficient is stored).
    pub matrix: i32,
    /// The component in thousandths (how a rotation is stored).
    pub angle: i16,
    /// The component in twentieths (how a translation is stored).
    pub offset: i32,
    /// Whether the component is distinguishable from zero (a rotation by it
    /// is stored).
    pub rotates: bool,
}

/// Modifies an existing element: matrix or rotation, colour, source rectangle.
pub struct MovesInfo {
    pub index: i32,
    pub transform: Vec<MoveTransformValue>,
    /// Red, green, blue, alpha, each out of 255.
    pub color: Option<[u8; 4]>,
    pub source_rectangle: Option<Rectangle>,
    /// Sprite frame number (wire format: signed i16 when present).
    pub sprite_frame_number: Option<i32>,
}

impl Default for SpriteInfo {
    fn default() -> (s: Self)
        ensures
            s.name is None,
            s.frame_rate is None,
            s.work_area is None,
            s.frame@.len() == 0,
    {
        SpriteInfo { name: None, frame_rate: None, work_area: None, frame: Vec::new() }
    }
}

impl Default for FrameInfo {
    fn default() -> (f: Self)
        ensures
            f.label is None,
            !f.stop,
            f.command@.len() == 0,
            f.remove@.len() == 0,
            f.append@.len() == 0,
            f.change@.len() == 0,
    {
        FrameInfo {
            label: None,
            stop: false,
            command: Vec::new(),
            remove: Vec::new(),
            append: Vec::new(),
            change: Vec::new(),
        }
    }
}

} // verus!
