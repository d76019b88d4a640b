//! Camera capture decisions: device availability, the formats a camera
//! offers, the format a capture asks for, and turning camera frames into
//! the bottom-up BGRA rows the encoder takes. Talking to the camera is left
//! to the host.
use vstd::prelude::*;
use crate::project::{is_blank, is_blank_text};
use crate::text::{concat, owned, parse_unsigned, parse_unsigned_spec, same_text, UnsignedParse};

verus! {

#[derive(Debug, Clone)]
pub enum CameraError {
    Unsupported,
    Unavailable(String),
    StartTimeout(String),
    Device(String),
}

pub open spec fn camera_error_text(e: CameraError) -> Seq<char> {
    match e {
        CameraError::Unsupported => "camera capture is only available on Windows"@,
        CameraError::Unavailable(d) => "camera unavailable: "@ + d@,
        CameraError::StartTimeout(d) => "timed out waiting for camera to start: "@ + d@,
        CameraError::Device(d) => "camera device failed: "@ + d@,
    }
}

impl CameraError {
    /// The message shown to the user.
    pub fn message(&self) -> (m: String)
        ensures
            m@ == camera_error_text(*self),
    {
        match self {
            CameraError::Unsupported => owned("camera capture is only available on Windows"),
            CameraError::Unavailable(d) => concat("camera unavailable: ", d.as_str()),
            CameraError::StartTimeout(d) => concat(
                "timed out waiting for camera to start: ",
                d.as_str(),
            ),
            CameraError::Device(d) => concat("camera device failed: ", d.as_str()),
        }
    }
}

/// How long a camera may take to deliver its first frame, in seconds.
pub const CAMERA_START_TIMEOUT_SECS: u64 = 12;

#[derive(Clone, Debug)]
pub struct CameraDevice {
    pub id: String,
    pub name: String,
    pub formats: Vec<CameraFormat>,
}

#[derive(Clone, Copy, Debug, PartialEq, Eq, Structural)]
pub struct CameraFormat {
    pub width: u32,
    pub height: u32,
    pub fps: u32,
}

/// How the camera is shown and stored: mirrored in the preview only.
#[derive(Clone, Copy, Debug, PartialEq, Eq, Structural)]
pub struct CameraMetadata {
    pub mirrored_in_preview: bool,
    pub mirror_baked_into_source: bool,
}

impl Default for CameraMetadata {
    fn default() -> (m: Self)
        ensures
            m.mirrored_in_preview,
            !m.mirror_baked_into_source,
    {
        CameraMetadata { mirrored_in_preview: true, mirror_baked_into_source: false }
    }
}

/// Whether the camera `device_id` is among the enumerated `devices`.
pub fn check_device_available(device_id: &str, devices: &Vec<CameraDevice>) -> (r: Result<(), CameraError>)
    ensures
        (exists|k: int| 0 <= k < devices@.len() && (#[trigger] devices@[k]).id@ == device_id@)
            ==> r is Ok,
        !(exists|k: int| 0 <= k < devices@.len() && (#[trigger] devices@[k]).id@ == device_id@)
            ==> (r matches Err(CameraError::Unavailable(m)) && m@ == "camera '"@ + device_id@
            + "' was unplugged or is in use by another app; reconnect it or pick another camera"@),
{
    let mut i: usize = 0;
    while i < devices.len()
        invariant
            0 <= i <= devices.len(),
            forall|k: int| 0 <= k < i ==> (#[trigger] devices@[k]).id@ != device_id@,
        decreases devices.len() - i,
    {
        if same_text(devices[i].id.as_str(), device_id) {
            return Ok(());
        }
        i += 1;
    }
    let mut m = concat("camera '", device_id);
    m.append("' was unplugged or is in use by another app; reconnect it or pick another camera");
    Err(CameraError::Unavailable(m))
}

/// A camera recording needs a camera to be chosen.
pub fn check_camera_selected(device_id: &str) -> (r: Result<(), CameraError>)
    ensures
        !is_blank(device_id@) ==> r is Ok,
        is_blank(device_id@) ==> (r matches Err(CameraError::Unavailable(m))
            && m@ == "no camera selected; pick a camera or turn it off"@),
{
    if is_blank_text(device_id) {
        return Err(CameraError::Unavailable(owned("no camera selected; pick a camera or turn it off")));
    }
    Ok(())
}

// ---------------------------------------------------------------------------
// Formats
// ---------------------------------------------------------------------------

/// `a` comes before `b` by width, then height, then frame rate.
pub open spec fn format_before(a: CameraFormat, b: CameraFormat) -> bool {
    ||| a.width < b.width
    ||| a.width == b.width && a.height < b.height
    ||| a.width == b.width && a.height == b.height && a.fps < b.fps
}

/// Every format of `s` comes before the next one: strictly ascending, so no
/// format appears twice.
pub open spec fn strictly_ascending(s: Seq<CameraFormat>) -> bool {
    forall|i: int, j: int| 0 <= i < j < s.len() ==> format_before(#[trigger] s[i], #[trigger] s[j])
}

fn before(a: CameraFormat, b: CameraFormat) -> (r: bool)
    ensures
        r == format_before(a, b),
{
    a.width < b.width || (a.width == b.width && a.height < b.height) || (a.width == b.width
        && a.height == b.height && a.fps < b.fps)
}

/// The formats a camera offers, in ascending order and each once: exactly
/// the formats of `formats`.
pub fn distinct_sorted_formats(formats: &Vec<CameraFormat>) -> (out: Vec<CameraFormat>)
    ensures
        strictly_ascending(out@),
        forall|f: CameraFormat| out@.contains(f) <==> formats@.contains(f),
{
    let mut out: Vec<CameraFormat> = Vec::new();
    let mut i: usize = 0;
    while i < formats.len()
        invariant
            0 <= i <= formats.len(),
            strictly_ascending(out@),
            out@.len() <= i,
            forall|f: CameraFormat| out@.contains(f) <==> formats@.take(i as int).contains(f),
        decreases formats.len() - i,
    {
        let f = formats[i];
        let mut p: usize = 0;
        while p < out.len() && before(out[p], f)
            invariant
                0 <= p <= out.len(),
                forall|k: int| 0 <= k < p ==> format_before(#[trigger] out@[k], f),
            decreases out.len() - p,
        {
            p += 1;
        }
        let ghost old_out = out@;
        proof {
            assert(formats@.take(i + 1) =~= formats@.take(i as int).push(f));
            assert forall|g: CameraFormat| formats@.take(i + 1).contains(g) <==> (
                formats@.take(i as int).contains(g) || g == f) by {
                if formats@.take(i + 1).contains(g) && g != f {
                    let w = choose|w: int| 0 <= w < i + 1 && #[trigger] formats@.take(i + 1)[w] == g;
                    assert(formats@.take(i as int)[w] == g);
                }
                if formats@.take(i as int).contains(g) {
                    let w = choose|w: int| 0 <= w < i && #[trigger] formats@.take(i as int)[w] == g;
                    assert(formats@.take(i + 1)[w] == g);
                }
                if g == f {
                    assert(formats@.take(i + 1)[i as int] == f);
                }
            }
        }
        if p < out.len() && out[p] == f {
            proof {
                assert(out@[p as int] == f);
                assert forall|g: CameraFormat| out@.contains(g) <==> formats@.take(i + 1).contains(
                    g,
                ) by {
                    if g == f {
                        assert(out@[p as int] == f);
                    }
                }
            }
        } else {
            out.insert(p, f);
            proof {
                assert forall|a: int, b: int| 0 <= a < b < out@.len() implies format_before(
                    #[trigger] out@[a],
                    #[trigger] out@[b],
                ) by {
                    if b < p {
                        assert(out@[a] == old_out[a] && out@[b] == old_out[b]);
                    } else if b == p {
                        assert(out@[a] == old_out[a]);
                    } else if a < p {
                        assert(out@[a] == old_out[a] && out@[b] == old_out[b - 1]);
                    } else if a == p {
                        assert(out@[b] == old_out[b - 1]);
                        assert(!format_before(old_out[p as int], f));
                        assert(old_out[p as int] != f);
                        if b - 1 > p {
                            assert(format_before(old_out[p as int], old_out[b - 1]));
                        }
                    } else {
                        assert(out@[a] == old_out[a - 1] && out@[b] == old_out[b - 1]);
                    }
                }
                old_out.insert_ensures(p as int, f);
                assert forall|g: CameraFormat| out@.contains(g) <==> (old_out.contains(g) || g == f) by {
                    if out@.contains(g) {
                        let w = choose|w: int| 0 <= w < out@.len() && #[trigger] out@[w] == g;
                        if w < p {
                            assert(old_out[w] == g);
                        } else if w > p {
                            assert(old_out[w - 1] == g);
                        }
                    }
                    if old_out.contains(g) {
                        let w = choose|w: int| 0 <= w < old_out.len() && #[trigger] old_out[w] == g;
                        if w < p {
                            assert(out@[w] == g);
                        } else {
                            assert(out@[w + 1] == g);
                        }
                    }
                    if g == f {
                        assert(out@[p as int] == f);
                    }
                }
                assert forall|g: CameraFormat| out@.contains(g) <==> formats@.take(i + 1).contains(
                    g,
                ) by {
                    assert(old_out.contains(g) <==> formats@.take(i as int).contains(g));
                }
            }
        }
        i += 1;
    }
    assert(formats@.take(formats@.len() as int) =~= formats@);
    out
}

/// How far a format is from the 1280x720 at 30 fps a capture prefers; the
/// frame rate weighs twenty times as much as a pixel.
pub open spec fn format_distance(f: CameraFormat) -> int {
    let dw = if f.width >= 1280 { f.width - 1280 } else { 1280 - f.width };
    let dh = if f.height >= 720 { f.height - 720 } else { 720 - f.height };
    let df = if f.fps >= 30 { f.fps - 30 } else { 30 - f.fps };
    dw + dh + df * 20
}

fn distance(f: CameraFormat) -> (d: u64)
    ensures
        d == format_distance(f),
{
    let dw: u64 = if f.width >= 1280 { (f.width - 1280) as u64 } else { (1280 - f.width) as u64 };
    let dh: u64 = if f.height >= 720 { (f.height - 720) as u64 } else { (720 - f.height) as u64 };
    let df: u64 = if f.fps >= 30 { (f.fps - 30) as u64 } else { (30 - f.fps) as u64 };
    dw + dh + df * 20
}

/// The format a capture asks the camera for: the first of the closest ones
/// to 1280x720 at 30 fps, if the camera offers any.
pub fn preferred_format(formats: &Vec<CameraFormat>) -> (r: Option<usize>)
    ensures
        formats@.len() == 0 ==> r is None,
        r matches Some(b) ==> b < formats@.len()
            && (forall|k: int| 0 <= k < formats@.len() ==> format_distance(formats@[b as int])
                <= format_distance(#[trigger] formats@[k]))
            && (forall|k: int| 0 <= k < b ==> format_distance(formats@[b as int])
                < format_distance(#[trigger] formats@[k])),
        formats@.len() > 0 ==> r is Some,
{
    if formats.len() == 0 {
        return None;
    }
    let mut best: usize = 0;
    let mut best_d = distance(formats[0]);
    let mut i: usize = 1;
    while i < formats.len()
        invariant
            1 <= i <= formats.len(),
            best < i,
            best_d == format_distance(formats@[best as int]),
            forall|k: int| 0 <= k < i ==> best_d <= format_distance(#[trigger] formats@[k]),
            forall|k: int| 0 <= k < best ==> best_d < format_distance(#[trigger] formats@[k]),
        decreases formats.len() - i,
    {
        let d = distance(formats[i]);
        if d < best_d {
            best = i;
            best_d = d;
        }
        i += 1;
    }
    Some(best)
}

// ---------------------------------------------------------------------------
// Frames
// ---------------------------------------------------------------------------

/// Byte `k` of the bottom-up BGRA image made from the top-down RGBA image
/// `rgba` of `width` x `height` pixels: rows are flipped and red and blue
/// swap places.
pub open spec fn bgra_byte(rgba: Seq<u8>, width: int, height: int, k: int) -> u8 {
    let row = width * 4;
    let y = k / row;
    let x = k % row;
    let source_row = height - 1 - y;
    let channel = x % 4;
    let pixel = x - channel;
    let source_channel = if channel == 0 { 2 } else if channel == 2 { 0 } else { channel };
    rgba[source_row * row + pixel + source_channel]
}

/// The bottom-up BGRA rows the encoder takes for a top-down RGBA frame.
pub fn rgba_to_bgra_bottom_up(rgba: &Vec<u8>, width: u32, height: u32) -> (out: Vec<u8>)
    requires
        rgba@.len() >= width as int * height as int * 4,
        width as int * 4 <= usize::MAX,
    ensures
        out@.len() == rgba@.len(),
        forall|k: int| 0 <= k < width as int * height as int * 4 ==> #[trigger] out@[k] == bgra_byte(
            rgba@,
            width as int,
            height as int,
            k,
        ),
        forall|k: int| width as int * height as int * 4 <= k < out@.len() ==> #[trigger] out@[k] == 0,
{
    let row: usize = width as usize * 4;
    let h: usize = height as usize;
    assert(rgba@.len() >= row * h) by (nonlinear_arith)
        requires
            rgba@.len() >= width as int * height as int * 4,
            row == width as int * 4,
            h == height,
    ;
    let mut out: Vec<u8> = Vec::new();
    let mut y: usize = 0;
    while y < h
        invariant
            row == width as int * 4,
            row % 4 == 0,
            h == height,
            rgba@.len() >= row * h,
            0 <= y <= h,
            out@.len() == y * row,
            forall|k: int| 0 <= k < out@.len() ==> #[trigger] out@[k] == bgra_byte(
                rgba@,
                width as int,
                height as int,
                k,
            ),
        decreases h - y,
    {
        let source_row = h - 1 - y;
        assert(source_row * row + row <= row * h) by (nonlinear_arith)
            requires
                source_row < h,
                row >= 0,
        ;
        assert(rgba@.len() == rgba.len());
        let base = source_row * row;
        let mut x: usize = 0;
        while x < row
            invariant
                row == width as int * 4,
                row % 4 == 0,
                h == height,
                rgba@.len() >= row * h,
                y < h,
                source_row == h - 1 - y,
                base == source_row * row,
                base + row <= rgba@.len(),
                rgba@.len() <= usize::MAX,
                x % 4 == 0,
                0 <= x <= row,
                out@.len() == y * row + x,
                forall|k: int| 0 <= k < out@.len() ==> #[trigger] out@[k] == bgra_byte(
                    rgba@,
                    width as int,
                    height as int,
                    k,
                ),
            decreases row - x,
        {
            assert(x + 4 <= row);
            let p = base + x;
            let ghost before = out@;
            out.push(rgba[p + 2]);
            out.push(rgba[p + 1]);
            out.push(rgba[p]);
            out.push(rgba[p + 3]);
            proof {
                let n0 = before.len();
                assert(n0 == y * row + x);
                assert forall|c: int| 0 <= c < 4 implies #[trigger] out@[n0 + c] == bgra_byte(
                    rgba@,
                    width as int,
                    height as int,
                    n0 + c,
                ) by {
                    let k = n0 + c;
                    assert(k / (row as int) == y && k % (row as int) == x + c) by (nonlinear_arith)
                        requires
                            k == y * row + x + c,
                            0 <= x + c < row,
                            0 <= y,
                    ;
                    assert((x + c) % 4 == c) by (nonlinear_arith)
                        requires
                            x % 4 == 0,
                            0 <= c < 4,
                    ;
                    assert(height - 1 - y == source_row);
                    assert(source_row * (width as int * 4) == base);
                }
                assert forall|k: int| 0 <= k < out@.len() implies #[trigger] out@[k] == bgra_byte(
                    rgba@,
                    width as int,
                    height as int,
                    k,
                ) by {
                    if k < n0 {
                        assert(out@[k] == before[k]);
                    } else {
                        assert(out@[n0 + (k - n0)] == out@[k]);
                    }
                }
            }
            x += 4;
        }
        assert(out@.len() == (y + 1) * row) by (nonlinear_arith)
            requires
                out@.len() == y * row + row,
        ;
        y += 1;
    }
    assert(out@.len() == row * h) by (nonlinear_arith)
        requires
            out@.len() == y * row,
            y == h,
    ;
    assert(row * h == width as int * height as int * 4) by (nonlinear_arith)
        requires
            row == width as int * 4,
            h == height,
    ;
    let image_len = out.len();
    while out.len() < rgba.len()
        invariant
            image_len == width as int * height as int * 4,
            image_len <= out@.len() <= rgba@.len(),
            forall|k: int| 0 <= k < image_len ==> #[trigger] out@[k] == bgra_byte(
                rgba@,
                width as int,
                height as int,
                k,
            ),
            forall|k: int| image_len <= k < out@.len() ==> #[trigger] out@[k] == 0,
        decreases rgba.len() - out.len(),
    {
        out.push(0);
    }
    out
}

/// The encoder timestamp of a frame, in 100-nanosecond units, from the
/// nanoseconds since the capture started (saturated at `i64::MAX`).
pub fn frame_timestamp_hns(elapsed_nanos: u128) -> (t: i64)
    ensures
        t == (if elapsed_nanos / 100 > i64::MAX { i64::MAX as int } else { (elapsed_nanos / 100) as int }),
{
    let t = elapsed_nanos / 100;
    if t > i64::MAX as u128 { i64::MAX } else { t as i64 }
}

/// How a camera id is handed to the camera API.
#[derive(Clone, Debug, PartialEq, Eq)]
pub enum CameraIndex {
    Index(u32),
    Name(String),
}

/// A numeric id is a device index; any other id is a device name.
pub fn camera_index(device_id: &str) -> (c: CameraIndex)
    ensures
        match parse_unsigned_spec(device_id@, u32::MAX as nat) {
            UnsignedParse::Value(v) => c == CameraIndex::Index(v as u32),
            _ => c matches CameraIndex::Name(n) && n@ == device_id@,
        },
{
    match parse_unsigned(device_id, u32::MAX as u64) {
        UnsignedParse::Value(v) => CameraIndex::Index(v as u32),
        _ => CameraIndex::Name(owned(device_id)),
    }
}

} // verus!
