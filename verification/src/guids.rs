//! The type registry: the fixed 16-byte identifiers of the recognized
//! object kinds, plus the stream-type ids known for audio and video streams.
//!
//! Identity is exact byte comparison; the byte order below is the
//! little-endian field layout the container format stores on disk.

use vstd::prelude::*;

verus! {

// 75B22630-668E-11CF-A6D9-00AA0062CE6C
pub const HEADER_OBJECT_GUID: [u8; 16] = [0x30, 0x26, 0xB2, 0x75, 0x8E, 0x66, 0xCF, 0x11, 0xA6,
    0xD9, 0x00, 0xAA, 0x00, 0x62, 0xCE, 0x6C];

// 8CABDCA1-A947-11CF-8EE4-00C00C205365
pub const FILE_PROPERTIES_OBJECT_GUID: [u8; 16] = [0xA1, 0xDC, 0xAB, 0x8C, 0x47, 0xA9, 0xCF, 0x11,
    0x8E, 0xE4, 0x00, 0xC0, 0x0C, 0x20, 0x53, 0x65];

// B7DC0791-A9B7-11CF-8EE6-00C00C205365
pub const STREAM_PROPERTIES_OBJECT_GUID: [u8; 16] = [0x91, 0x07, 0xDC, 0xB7, 0xB7, 0xA9, 0xCF,
    0x11, 0x8E, 0xE6, 0x00, 0xC0, 0x0C, 0x20, 0x53, 0x65];

// 7BF875CE-468D-11D1-8D82-006097C9A2B2
pub const STREAM_BITRATE_PROPERTIES_OBJECT_GUID: [u8; 16] = [0xCE, 0x75, 0xF8, 0x7B, 0x8D, 0x46,
    0xD1, 0x11, 0x8D, 0x82, 0x00, 0x60, 0x97, 0xC9, 0xA2, 0xB2];

// 75B22636-668E-11CF-A6D9-00AA0062CE6C
pub const DATA_OBJECT_GUID: [u8; 16] = [0x36, 0x26, 0xB2, 0x75, 0x8E, 0x66, 0xCF, 0x11, 0xA6,
    0xD9, 0x00, 0xAA, 0x00, 0x62, 0xCE, 0x6C];

// F8699E40-5B4D-11CF-A8FD-00805F5C442B
pub const STREAM_PROPERTIES_OBJECT_STREAM_TYPE_AUDIO_GUID: [u8; 16] = [0x40, 0x9E, 0x69, 0xF8,
    0x4D, 0x5B, 0xCF, 0x11, 0xA8, 0xFD, 0x00, 0x80, 0x5F, 0x5C, 0x44, 0x2B];

// BC19EFC0-5B4D-11CF-A8FD-00805F5C442B
pub const STREAM_PROPERTIES_OBJECT_STREAM_TYPE_VIDEO_GUID: [u8; 16] = [0xC0, 0xEF, 0x19, 0xBC,
    0x4D, 0x5B, 0xCF, 0x11, 0xA8, 0xFD, 0x00, 0x80, 0x5F, 0x5C, 0x44, 0x2B];

} // verus!
