//! Plain layouts of the structures shared with the server through mapped
//! memory.

use vstd::prelude::*;

verus! {

/// A fraction, such as a frame rate.
#[derive(Debug, Clone, Copy, PartialEq, Eq, Structural)]
pub struct Fraction {
    pub num: u32,
    pub denom: u32,
}

/// The size of a rectangle.
#[derive(Debug, Clone, Copy, PartialEq, Eq, Structural)]
pub struct Rectangle {
    pub width: u32,
    pub height: u32,
}

/// The size of the video in the current cycle.
#[derive(Debug, Clone, Copy, PartialEq, Eq)]
pub struct IoVideoSize {
    /// Optional flags.
    pub flags: u32,
    /// Video stride in bytes.
    pub stride: u32,
    /// The video size.
    pub size: Rectangle,
    /// The minimum frame rate.
    pub framerate: Fraction,
    /// Reserved, zero.
    pub pad: [u32; 4],
}

/// A video frame segment.
#[derive(Debug, Clone, Copy, PartialEq, Eq)]
pub struct IoSegmentVideo {
    /// Flags.
    pub flags: u32,
    /// Offset in the segment.
    pub offset: u32,
    pub framerate: Fraction,
    pub hours: u32,
    pub minutes: u32,
    pub seconds: u32,
    pub frames: u32,
    /// 0 for progressive, 1 and 2 for interlaced.
    pub field_count: u32,
    /// Reserved, zero.
    pub pad: [u32; 11],
}

/// The area through which a port and its peer exchange buffers.
#[derive(Debug, Clone, Copy, PartialEq, Eq, Structural)]
pub struct IoBuffers {
    /// The status flags of the exchange.
    pub status: i32,
    /// The buffer being exchanged, negative if none.
    pub buffer_id: i32,
}

/// The part of a data region that holds valid data.
#[derive(Debug, Clone, Copy, PartialEq, Eq, Structural)]
pub struct Chunk {
    /// Offset of the valid data in the region.
    pub offset: u32,
    /// Size of the valid data.
    pub size: u32,
    /// Stride of the data.
    pub stride: i32,
    /// Flags of the chunk.
    pub flags: i32,
}

/// The exchange is fine.
pub const STATUS_OK: i32 = 0;
/// The consumer needs data.
pub const STATUS_NEED_DATA: i32 = 1;
/// The producer has data.
pub const STATUS_HAVE_DATA: i32 = 2;

impl IoVideoSize {
    /// A video size with the given fields and zero padding.
    pub fn new(flags: u32, stride: u32, size: Rectangle, framerate: Fraction) -> (r: Self)
        ensures
            r.flags == flags,
            r.stride == stride,
            r.size == size,
            r.framerate == framerate,
    {
        IoVideoSize { flags, stride, size, framerate, pad: [0, 0, 0, 0] }
    }
}

impl IoSegmentVideo {
    /// A video segment with the given fields and zero padding.
    pub fn new(
        flags: u32,
        offset: u32,
        framerate: Fraction,
        time: (u32, u32, u32, u32),
        field_count: u32,
    ) -> (r: Self)
        ensures
            r.flags == flags,
            r.offset == offset,
            r.framerate == framerate,
            r.hours == time.0,
            r.minutes == time.1,
            r.seconds == time.2,
            r.frames == time.3,
            r.field_count == field_count,
    {
        IoSegmentVideo {
            flags,
            offset,
            framerate,
            hours: time.0,
            minutes: time.1,
            seconds: time.2,
            frames: time.3,
            field_count,
            pad: [0, 0, 0, 0, 0, 0, 0, 0, 0, 0, 0],
        }
    }
}

} // verus!
