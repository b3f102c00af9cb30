//! Encoder for PopCap PAM animation files (the binary animation format of
//! Plants vs. Zombies 2), with every byte it writes specified and proved.
//!
//! - `types`: the data model, with fixed-point quantities held as the
//!   integers that the file stores;
//! - `format`: the byte layout, as spec functions;
//! - `encoder`: the writers, each proved to append exactly its layout;
//! - `laws`: properties of the format as a whole;
//! - `readback`, `record_laws`: readers of stored numbers, and what each
//!   written record holds at each position, stated with those readers;
//! - `wire`, `emission`: little-endian integers and the algebra of writers
//!   that may fail.

pub mod emission;
pub mod encoder;
pub mod error;
pub mod format;
pub mod laws;
pub mod readback;
pub mod record_laws;
pub mod types;
pub mod wire;

pub use encoder::{encode_pam, write_u8_count, write_variant_count};
pub use error::Error;
pub use types::{
    AddsInfo, FrameInfo, ImageInfo, ImageTransformValue, MoveTransformValue, MovesInfo, PamInfo,
    Rectangle, RemovesInfo, SpriteInfo, PAM_MAGIC,
};
