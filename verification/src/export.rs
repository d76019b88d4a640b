//! Export presets, request validation, and the deterministic ffmpeg argument
//! list of an MP4 export.
use vstd::prelude::*;
use crate::layout::{extension_is, has_extension_ci};
use crate::paths::{forward_slashes, to_forward_slashes};
use crate::text::{concat, decimal, decimal_string, owned};

verus! {

#[derive(Debug, Clone)]
pub enum ExportError {
    Invalid(String),
    Io(String),
    Cancelled,
}

/// Cooperative cancellation of a running export, shared by its clones.
pub type ExportCancelToken = crate::cancel::CancellationToken;

impl ExportError {
    /// The message shown to the user.
    pub fn message(&self) -> (m: String)
        ensures
            m@ == export_error_text(*self),
    {
        match self {
            ExportError::Invalid(d) => concat("invalid export plan: ", d.as_str()),
            ExportError::Io(d) => concat("export I/O failed: ", d.as_str()),
            ExportError::Cancelled => owned("export cancelled"),
        }
    }
}

pub open spec fn export_error_text(e: ExportError) -> Seq<char> {
    match e {
        ExportError::Invalid(d) => "invalid export plan: "@ + d@,
        ExportError::Io(d) => "export I/O failed: "@ + d@,
        ExportError::Cancelled => "export cancelled"@,
    }
}

#[derive(Debug, Clone, Copy, PartialEq, Eq, Structural)]
pub enum ExportPreset {
    FullHd,
    Hd,
}

impl Default for ExportPreset {
    fn default() -> (p: Self)
        ensures
            p == ExportPreset::FullHd,
    {
        ExportPreset::FullHd
    }
}

impl ExportPreset {
    /// The output frame size.
    pub fn dimensions(self) -> (d: (u32, u32))
        ensures
            d == (match self {
                ExportPreset::FullHd => (1920u32, 1080u32),
                ExportPreset::Hd => (1280u32, 720u32),
            }),
    {
        match self {
            ExportPreset::FullHd => (1920, 1080),
            ExportPreset::Hd => (1280, 720),
        }
    }

    /// The video bitrate, in ffmpeg's notation.
    pub fn video_bitrate(self) -> (b: &'static str)
        ensures
            b@ == (match self {
                ExportPreset::FullHd => "12M"@,
                ExportPreset::Hd => "8M"@,
            }),
    {
        match self {
            ExportPreset::FullHd => "12M",
            ExportPreset::Hd => "8M",
        }
    }
}

/// What to export, and where.
#[derive(Debug, Clone)]
pub struct ExportRequest {
    pub project_id: u128,
    pub preset: ExportPreset,
    pub fps: u32,
    pub video_input: String,
    pub audio_inputs: Vec<String>,
    pub output: String,
}

/// The most audio tracks an export mixes in.
pub const MAX_EXPORT_AUDIO_INPUTS: usize = 8;

/// The frame rates an MP4 export is written at: 24, 30 or 60.
pub open spec fn mp4_frame_rate(fps: u32) -> bool {
    fps == 24 || fps == 30 || fps == 60
}

/// Whether `fps` is a frame rate an MP4 export supports.
pub fn is_valid_mp4_frame_rate(fps: u32) -> (b: bool)
    ensures
        b == mp4_frame_rate(fps),
{
    fps == 24 || fps == 30 || fps == 60
}

/// Why a request cannot be exported, if it cannot: an unsupported frame
/// rate first, then a missing video input, a missing output, an output that
/// is not an `.mp4` file (in any ASCII case), and more audio inputs than
/// `MAX_EXPORT_AUDIO_INPUTS`.
pub open spec fn request_fault(r: ExportRequest) -> Option<Seq<char>> {
    if !mp4_frame_rate(r.fps) {
        Some("unsupported export fps "@ + decimal(r.fps as nat))
    } else if r.video_input@.len() == 0 {
        Some("video input is required"@)
    } else if r.output@.len() == 0 {
        Some("export output is required"@)
    } else if !has_extension_ci(r.output@, "mp4"@) {
        Some("export output must be an .mp4 file"@)
    } else if r.audio_inputs@.len() > MAX_EXPORT_AUDIO_INPUTS {
        Some("at most 8 audio inputs can be exported"@)
    } else {
        None
    }
}

/// An export request is accepted exactly when its frame rate is 24, 30 or
/// 60, it names a video input and an output, the output is an `.mp4` file,
/// and it has at most eight audio inputs. A refused frame rate is the first
/// fault reported.
pub proof fn lemma_export_request_rules(r: ExportRequest)
    ensures
        request_fault(r) is None <==> ((r.fps == 24 || r.fps == 30 || r.fps == 60)
            && r.video_input@.len() > 0 && r.output@.len() > 0 && has_extension_ci(r.output@, "mp4"@)
            && r.audio_inputs@.len() <= 8),
        !(r.fps == 24 || r.fps == 30 || r.fps == 60) ==> request_fault(r) == Some(
            "unsupported export fps "@ + decimal(r.fps as nat),
        ),
{
}

impl ExportRequest {
    pub fn validate(&self) -> (r: Result<(), ExportError>)
        ensures
            match request_fault(*self) {
                None => r is Ok,
                Some(m) => r matches Err(ExportError::Invalid(e)) && e@ == m,
            },
    {
        if !is_valid_mp4_frame_rate(self.fps) {
            let d = decimal_string(self.fps as u64);
            return Err(ExportError::Invalid(concat("unsupported export fps ", d.as_str())));
        }
        if self.video_input.as_str().is_empty() {
            return Err(ExportError::Invalid(owned("video input is required")));
        }
        if self.output.as_str().is_empty() {
            return Err(ExportError::Invalid(owned("export output is required")));
        }
        if !extension_is(self.output.as_str(), "mp4") {
            return Err(ExportError::Invalid(owned("export output must be an .mp4 file")));
        }
        if self.audio_inputs.len() > MAX_EXPORT_AUDIO_INPUTS {
            return Err(ExportError::Invalid(owned("at most 8 audio inputs can be exported")));
        }
        Ok(())
    }
}

/// A planned export.
#[derive(Debug, Clone)]
pub struct ExportPlan {
    pub preset: ExportPreset,
    pub width: u32,
    pub height: u32,
    pub fps: u32,
    pub output: String,
    pub ffmpeg_args: Vec<String>,
}

/// Progress of a running export job.
#[derive(Debug, Clone)]
pub struct ExportProgress {
    pub job_id: u128,
    pub completed_frames: u64,
    pub total_frames: Option<u64>,
    pub message: String,
}

/// The texts of a list of strings.
pub open spec fn texts(v: Seq<String>) -> Seq<Seq<char>> {
    v.map_values(|s: String| s@)
}

/// One `-i` input flag per audio file, in order.
pub open spec fn audio_args(inputs: Seq<String>) -> Seq<Seq<char>>
    decreases inputs.len(),
{
    if inputs.len() == 0 {
        seq![]
    } else {
        audio_args(inputs.drop_last()) + seq!["-i"@, forward_slashes(inputs.last()@)]
    }
}

/// The ffmpeg arguments of an export: overwrite, the video then the audio
/// inputs, H.264 video at the requested rate and AAC audio in an MP4 that
/// starts playing before it is fully downloaded, then the output.
#[verifier::opaque]
pub open spec fn export_args(r: ExportRequest) -> Seq<Seq<char>> {
    seq!["-y"@, "-i"@, forward_slashes(r.video_input@)] + audio_args(r.audio_inputs@) + seq![
        "-map"@,
        "0:v:0"@,
        "-map"@,
        "1:a:0?"@,
        "-c:v"@,
        "libx264"@,
        "-preset"@,
        "medium"@,
        "-crf"@,
        "18"@,
        "-pix_fmt"@,
        "yuv420p"@,
        "-r"@,
        decimal(r.fps as nat),
        "-c:a"@,
        "aac"@,
        "-b:a"@,
        "192k"@,
        "-ar"@,
        "48000"@,
        "-movflags"@,
        "+faststart"@,
        forward_slashes(r.output@),
    ]
}

/// Argument `j` of the audio inputs' arguments: `-i` at even places, the
/// input's path (with forward slashes) after it.
pub open spec fn audio_arg(inputs: Seq<String>, j: int) -> Seq<char> {
    if j % 2 == 0 {
        "-i"@
    } else {
        forward_slashes(inputs[j / 2]@)
    }
}

proof fn lemma_audio_args(inputs: Seq<String>)
    ensures
        audio_args(inputs).len() == 2 * inputs.len(),
        forall|j: int|
            0 <= j < 2 * inputs.len() ==> #[trigger] audio_args(inputs)[j] == audio_arg(inputs, j),
    decreases inputs.len(),
{
    if inputs.len() > 0 {
        let rest = inputs.drop_last();
        lemma_audio_args(rest);
        let a = audio_args(rest);
        let tail = seq!["-i"@, forward_slashes(inputs.last()@)];
        let full = a + tail;
        assert(audio_args(inputs) == full);
        assert forall|j: int| 0 <= j < 2 * inputs.len() implies #[trigger] audio_args(inputs)[j]
            == audio_arg(inputs, j) by {
            if j < 2 * rest.len() {
                assert(full[j] == a[j]);
                assert(a[j] == audio_arg(rest, j));
                assert(rest[j / 2] == inputs[j / 2]);
            } else if j == 2 * rest.len() {
                assert(full[j] == tail[0]);
            } else {
                assert(j / 2 == rest.len());
                assert(full[j] == tail[1]);
            }
        }
    }
}

/// The arguments of an export after its inputs.
#[verifier::opaque]
spec fn export_tail(r: ExportRequest) -> Seq<Seq<char>> {
    let rest = seq![
        "-map"@,
        "0:v:0"@,
        "-map"@,
        "1:a:0?"@,
        "-c:v"@,
        "libx264"@,
        "-preset"@,
        "medium"@,
        "-crf"@,
        "18"@,
        "-pix_fmt"@,
        "yuv420p"@,
        "-r"@,
        decimal(r.fps as nat),
        "-c:a"@,
        "aac"@,
        "-b:a"@,
        "192k"@,
        "-ar"@,
        "48000"@,
        "-movflags"@,
        "+faststart"@,
        forward_slashes(r.output@),
    ];
    rest
}

proof fn lemma_export_args_split(r: ExportRequest)
    ensures
        export_args(r) == seq!["-y"@, "-i"@, forward_slashes(r.video_input@)] + audio_args(
            r.audio_inputs@,
        ) + export_tail(r),
{
    reveal(export_args);
    reveal(export_tail);
}

proof fn lemma_export_tail(r: ExportRequest)
    ensures
        ({
            let t = export_tail(r);
            &&& t.len() == 23
            &&& t[0] == "-map"@ && t[1] == "0:v:0"@ && t[2] == "-map"@ && t[3] == "1:a:0?"@
            &&& t[4] == "-c:v"@ && t[5] == "libx264"@ && t[6] == "-preset"@ && t[7] == "medium"@
            &&& t[8] == "-crf"@ && t[9] == "18"@ && t[12] == "-r"@ && t[13] == decimal(r.fps as nat)
            &&& t[14] == "-c:a"@ && t[15] == "aac"@ && t[20] == "-movflags"@ && t[21]
                == "+faststart"@
            &&& t[22] == forward_slashes(r.output@)
        }),
{
    reveal(export_tail);
}

/// Every export is planned the same way: one `-i` before the video and
/// before each audio input, each path written with forward slashes, the
/// video of the first input and the audio of the first audio input (input
/// 1, whatever the number of audio inputs) mapped to the output, H.264
/// video at the `medium` preset and CRF 18, AAC audio, a fast-start MP4, and
/// the output last.
#[verifier::spinoff_prover]
pub proof fn lemma_export_args_shape(r: ExportRequest)
    ensures
        ({
            let args = export_args(r);
            let n = r.audio_inputs@.len();
            let b: int = 3 + 2 * (n as int);
            &&& args.len() == b + 23
            &&& args[0] == "-y"@ && args[1] == "-i"@ && args[2] == forward_slashes(r.video_input@)
            &&& forall|k: int|
                0 <= k < n ==> args.subrange(3 + 2 * k, 5 + 2 * k) == seq![
                    "-i"@,
                    forward_slashes((#[trigger] r.audio_inputs@[k])@),
                ]
            &&& args[b] == "-map"@ && args[b + 1] == "0:v:0"@
            &&& args[b + 2] == "-map"@ && args[b + 3] == "1:a:0?"@
            &&& args[b + 4] == "-c:v"@ && args[b + 5] == "libx264"@
            &&& args[b + 6] == "-preset"@ && args[b + 7] == "medium"@
            &&& args[b + 8] == "-crf"@ && args[b + 9] == "18"@
            &&& args[b + 12] == "-r"@ && args[b + 13] == decimal(r.fps as nat)
            &&& args[b + 14] == "-c:a"@ && args[b + 15] == "aac"@
            &&& args[b + 20] == "-movflags"@ && args[b + 21] == "+faststart"@
            &&& args[b + 22] == forward_slashes(r.output@)
        }),
{
    let inputs = r.audio_inputs@;
    lemma_audio_args_len(inputs);
    lemma_export_args_split(r);
    lemma_export_tail(r);
    let head = seq!["-y"@, "-i"@, forward_slashes(r.video_input@)];
    let a = audio_args(inputs);
    let t = export_tail(r);
    let b: int = 3 + 2 * (inputs.len() as int);
    assert((head + a).len() == b);
    assert(export_args(r) == head + a + t);
    assert(export_args(r).len() == b + 23);
    assert((head + a + t)[0] == head[0] && (head + a + t)[1] == head[1] && (head + a + t)[2]
        == head[2]);
    assert((head + a + t)[b] == t[0] && (head + a + t)[b + 1] == t[1]);
    assert((head + a + t)[b + 2] == t[2] && (head + a + t)[b + 3] == t[3]);
    assert((head + a + t)[b + 4] == t[4] && (head + a + t)[b + 5] == t[5]);
    assert((head + a + t)[b + 6] == t[6] && (head + a + t)[b + 7] == t[7]);
    assert((head + a + t)[b + 8] == t[8] && (head + a + t)[b + 9] == t[9]);
    assert((head + a + t)[b + 12] == t[12] && (head + a + t)[b + 13] == t[13]);
    assert((head + a + t)[b + 14] == t[14] && (head + a + t)[b + 15] == t[15]);
    assert((head + a + t)[b + 20] == t[20] && (head + a + t)[b + 21] == t[21]);
    assert((head + a + t)[b + 22] == t[22]);
    let args = export_args(r);
    let n = r.audio_inputs@.len();
    assert forall|k: int| 0 <= k < n implies args.subrange(3 + 2 * k, 5 + 2 * k) == seq![
        "-i"@,
        forward_slashes((#[trigger] r.audio_inputs@[k])@),
    ] by {
        lemma_export_audio_input(r, k);
        assert(args.subrange(3 + 2 * k, 5 + 2 * k) =~= seq![
            "-i"@,
            forward_slashes(r.audio_inputs@[k]@),
        ]);
    }
}

proof fn lemma_audio_args_len(inputs: Seq<String>)
    ensures
        audio_args(inputs).len() == 2 * inputs.len(),
{
    lemma_audio_args(inputs);
}

/// Audio input `k` stands in the audio inputs' arguments as `-i` and its
/// path.
proof fn lemma_audio_args_at(inputs: Seq<String>, k: int)
    requires
        0 <= k < inputs.len(),
    ensures
        audio_args(inputs)[2 * k] == "-i"@,
        audio_args(inputs)[2 * k + 1] == forward_slashes(inputs[k]@),
{
    lemma_audio_args(inputs);
    assert((2 * k) % 2 == 0 && (2 * k + 1) % 2 == 1 && (2 * k + 1) / 2 == k) by (nonlinear_arith);
    assert(audio_args(inputs)[2 * k] == audio_arg(inputs, 2 * k));
    assert(audio_args(inputs)[2 * k + 1] == audio_arg(inputs, 2 * k + 1));
}

/// Audio input `k` stands in the arguments as `-i` and its path.
proof fn lemma_export_audio_input(r: ExportRequest, k: int)
    requires
        0 <= k < r.audio_inputs@.len(),
    ensures
        export_args(r)[3 + 2 * k] == "-i"@,
        export_args(r)[4 + 2 * k] == forward_slashes(r.audio_inputs@[k]@),
{
    let inputs = r.audio_inputs@;
    lemma_audio_args_len(inputs);
    lemma_audio_args_at(inputs, k);
    lemma_export_args_split(r);
    let head = seq!["-y"@, "-i"@, forward_slashes(r.video_input@)];
    let a = audio_args(inputs);
    let t = export_tail(r);
    assert((head + a)[3 + 2 * k] == a[2 * k]);
    assert((head + a)[3 + (2 * k + 1)] == a[2 * k + 1]);
    assert((head + a + t)[3 + 2 * k] == (head + a)[3 + 2 * k]);
    assert((head + a + t)[4 + 2 * k] == (head + a)[3 + (2 * k + 1)]);
}

fn push_text(v: &mut Vec<String>, s: String)
    ensures
        texts(final(v)@) == texts(old(v)@).push(s@),
{
    v.push(s);
    assert(texts(final(v)@) =~= texts(old(v)@).push(s@));
}

fn push_all(v: &mut Vec<String>, items: &[&str])
    ensures
        texts(final(v)@) == texts(old(v)@) + items@.map_values(|s: &str| s@),
{
    let mut i: usize = 0;
    while i < items.len()
        invariant
            0 <= i <= items@.len(),
            texts(v@) == texts(old(v)@) + items@.take(i as int).map_values(|s: &str| s@),
        decreases items.len() - i,
    {
        push_text(v, owned(items[i]));
        assert(items@.take(i + 1).map_values(|s: &str| s@) =~= items@.take(i as int).map_values(
            |s: &str| s@,
        ).push(items@[i as int]@));
        i += 1;
    }
    assert(items@.take(items@.len() as int) =~= items@);
}

/// Plans an export of a valid request; an invalid one is refused with the
/// reason `validate` gives.
pub fn plan_export(request: &ExportRequest) -> (r: Result<ExportPlan, ExportError>)
    ensures
        match request_fault(*request) {
            Some(m) => r matches Err(ExportError::Invalid(e)) && e@ == m,
            None => r matches Ok(plan) && {
                &&& plan.preset == request.preset
                &&& (plan.width, plan.height) == (match request.preset {
                    ExportPreset::FullHd => (1920u32, 1080u32),
                    ExportPreset::Hd => (1280u32, 720u32),
                })
                &&& plan.fps == request.fps
                &&& plan.output@ == request.output@
                &&& texts(plan.ffmpeg_args@) == export_args(*request)
            },
        },
{
    request.validate()?;
    let (width, height) = request.preset.dimensions();
    let mut args: Vec<String> = Vec::new();
    push_text(&mut args, owned("-y"));
    push_text(&mut args, owned("-i"));
    push_text(&mut args, to_forward_slashes(request.video_input.as_str()));
    let ghost head = texts(args@);
    let mut i: usize = 0;
    while i < request.audio_inputs.len()
        invariant
            0 <= i <= request.audio_inputs@.len(),
            texts(args@) == head + audio_args(request.audio_inputs@.take(i as int)),
        decreases request.audio_inputs.len() - i,
    {
        push_text(&mut args, owned("-i"));
        push_text(&mut args, to_forward_slashes(request.audio_inputs[i].as_str()));
        assert(request.audio_inputs@.take(i + 1).drop_last() =~= request.audio_inputs@.take(
            i as int,
        ));
        i += 1;
    }
    assert(request.audio_inputs@.take(request.audio_inputs@.len() as int)
        =~= request.audio_inputs@);
    push_all(
        &mut args,
        &[
            "-map",
            "0:v:0",
            "-map",
            "1:a:0?",
            "-c:v",
            "libx264",
            "-preset",
            "medium",
            "-crf",
            "18",
            "-pix_fmt",
            "yuv420p",
            "-r",
        ],
    );
    push_text(&mut args, decimal_string(request.fps as u64));
    push_all(&mut args, &["-c:a", "aac", "-b:a", "192k", "-ar", "48000", "-movflags", "+faststart"]);
    push_text(&mut args, to_forward_slashes(request.output.as_str()));
    proof {
        reveal(export_args);
    }
    assert(texts(args@) =~= export_args(*request));
    Ok(ExportPlan {
        preset: request.preset,
        width,
        height,
        fps: request.fps,
        output: request.output.clone(),
        ffmpeg_args: args,
    })
}

} // verus!
