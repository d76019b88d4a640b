//! The integer side of the editor state: schema version, zoom modes, trims
//! and captions, and the range and depth repairs that normalisation applies.
//! Fractional settings (focus points, speeds, appearance) are handled by the
//! host.
use vstd::prelude::*;

verus! {

pub const EDITOR_SCHEMA_VERSION: u32 = 2;

#[derive(Debug, Clone, Copy, PartialEq, Eq, Structural)]
pub enum ZoomMode {
    Auto,
    Manual,
}

impl Default for ZoomMode {
    fn default() -> (m: Self)
        ensures
            m == ZoomMode::Manual,
    {
        ZoomMode::Manual
    }
}

#[derive(Debug, Clone)]
pub struct TrimRegion {
    pub id: String,
    pub start_ms: i64,
    pub end_ms: i64,
}

#[derive(Debug, Clone)]
pub struct CaptionWord {
    pub text: String,
    pub start_ms: i64,
    pub end_ms: i64,
}

#[derive(Debug, Clone)]
pub struct CaptionCue {
    pub id: String,
    pub start_ms: i64,
    pub end_ms: i64,
    pub text: String,
    pub words: Vec<CaptionWord>,
}

/// A time range with an inverted start and end repaired by swapping them.
pub fn ordered_range(start_ms: i64, end_ms: i64) -> (r: (i64, i64))
    ensures
        r.0 <= r.1,
        end_ms < start_ms ==> r == (end_ms, start_ms),
        end_ms >= start_ms ==> r == (start_ms, end_ms),
{
    if end_ms < start_ms {
        (end_ms, start_ms)
    } else {
        (start_ms, end_ms)
    }
}

/// Zoom depths run from 1 to 6.
pub open spec fn clamped_depth(depth: u32) -> u32 {
    if depth < 1 {
        1
    } else if depth > 6 {
        6
    } else {
        depth
    }
}

pub fn clamp_zoom_depth(depth: u32) -> (d: u32)
    ensures
        d == clamped_depth(depth),
{
    if depth < 1 {
        1
    } else if depth > 6 {
        6
    } else {
        depth
    }
}

/// The default zoom depth of a region saved without one.
pub fn default_zoom_depth() -> (d: u32)
    ensures
        d == 2,
{
    2
}

/// Repairing a range or a depth twice gives what repairing it once gives.
pub proof fn lemma_repairs_are_idempotent(start_ms: i64, end_ms: i64, depth: u32)
    ensures
        clamped_depth(clamped_depth(depth)) == clamped_depth(depth),
        1 <= clamped_depth(depth) <= 6,
        ({
            let (a, b) = if end_ms < start_ms { (end_ms, start_ms) } else { (start_ms, end_ms) };
            !(b < a)
        }),
{
}

} // verus!
