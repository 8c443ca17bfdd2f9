use vstd::prelude::*;
use vstd::string::*;

use crate::error::Error;
use crate::media::{MediaKind, ProbeInfo};
use crate::paths::{
    answered, dotted, ext_text, lemma_plain_name_with_extension, file_ext, file_stem, join, join_path, parent, parent_of, replace_extension,
    stem_text, unique_path, unique_path_result, with_extension,
};
use crate::pipeline::{normalize_ext, normalized_ext, Pipeline, Step, StepView};
use crate::text::{decimal, lemma_decimal_digits, lemma_decimal_len, opt_view, push_arg, push_decimal, same_text, texts};
use crate::validate::error_view;

verus! {

/// A program to run and the arguments to give it.
#[derive(Debug, Clone)]
pub struct ToolCommand {
    pub program: String,
    pub args: Vec<String>,
}

/// A command, with its texts as character sequences.
pub struct CommandView {
    pub program: Seq<char>,
    pub args: Seq<Seq<char>>,
}

impl View for ToolCommand {
    type V = CommandView;

    open spec fn view(&self) -> CommandView {
        CommandView { program: self.program@, args: texts(self.args@) }
    }
}

pub open spec fn command(program: Seq<char>, args: Seq<Seq<char>>) -> CommandView {
    CommandView { program, args }
}

/// The options every ffmpeg call starts with.
pub open spec fn ffmpeg_base_args() -> Seq<Seq<char>> {
    seq!["-hide_banner"@, "-nostdin"@, "-y"@, "-loglevel"@, "error"@]
}

/// The encoder options ffmpeg gets for a still image in format `ext`.
pub open spec fn image_codec_args(ext: Seq<char>, quality: u8) -> Seq<Seq<char>> {
    if ext == "jpg"@ || ext == "jpeg"@ {
        seq!["-c:v"@, "mjpeg"@]
    } else if ext == "webp"@ {
        seq!["-c:v"@, "libwebp"@, "-quality"@, decimal(quality as nat)]
    } else if ext == "avif"@ {
        seq!["-c:v"@, "libaom-av1"@, "-still-picture"@, "1"@]
    } else {
        seq!["-c:v"@, "png"@]
    }
}

/// The command that converts an image: ImageMagick's `convert` when it is
/// installed, else ffmpeg.
pub open spec fn image_command(
    src: Seq<char>,
    dest: Seq<char>,
    max_width: Option<u32>,
    quality: u8,
    ext: Seq<char>,
    convert_installed: bool,
) -> CommandView {
    if convert_installed {
        command(
            "convert"@,
            seq![src, "-auto-orient"@] + (match max_width {
                Some(w) => seq!["-resize"@, decimal(w as nat) + "x"@ + decimal(w as nat) + ">"@],
                None => Seq::empty(),
            }) + seq!["-quality"@, decimal(quality as nat), dest],
        )
    } else {
        command(
            "ffmpeg"@,
            ffmpeg_base_args() + seq!["-i"@, src, "-frames:v"@, "1"@] + (match max_width {
                Some(w) => seq![
                    "-vf"@,
                    "scale='min("@ + decimal(w as nat) + ",iw)':-1:flags=lanczos"@,
                ],
                None => Seq::empty(),
            }) + image_codec_args(ext, quality) + seq![dest],
        )
    }
}

/// A video can be copied as it is: nothing to scale or compress, H.264 video
/// and AAC audio or none.
pub open spec fn can_copy_video(height: Option<u32>, compress: bool, probe: ProbeInfo) -> bool {
    &&& height is None
    &&& !compress
    &&& opt_view(probe.video_codec) == Some("h264"@)
    &&& (opt_view(probe.audio_codec) == Some("aac"@) || probe.audio_codec is None)
}

/// The scaling options for a target height: only when the video is taller.
pub open spec fn scale_args(height: Option<u32>, probe: ProbeInfo) -> Seq<Seq<char>> {
    match height {
        Some(h) => if (match probe.height {
            Some(x) => x,
            None => h,
        }) > h {
            seq!["-vf"@, "scale=-2:"@ + decimal(h as nat) + ":flags=lanczos"@]
        } else {
            Seq::empty()
        },
        None => Seq::empty(),
    }
}

/// The ffmpeg command that converts a video to H.264 (or copies it).
pub open spec fn video_command(
    src: Seq<char>,
    dest: Seq<char>,
    height: Option<u32>,
    compress: bool,
    probe: ProbeInfo,
) -> CommandView {
    command(
        "ffmpeg"@,
        ffmpeg_base_args() + seq!["-i"@, src] + (if can_copy_video(height, compress, probe) {
            seq!["-c"@, "copy"@]
        } else {
            encode_args(height, compress, probe)
        }) + seq!["-movflags"@, "+faststart"@, dest],
    )
}

/// The audio encoder options for a format, or `None` when it is not supported.
pub open spec fn audio_codec_args(ext: Seq<char>) -> Option<Seq<Seq<char>>> {
    if ext == "mp3"@ {
        Some(seq!["-c:a"@, "libmp3lame"@, "-b:a"@, "192k"@])
    } else if ext == "wav"@ {
        Some(seq!["-c:a"@, "pcm_s16le"@])
    } else if ext == "flac"@ {
        Some(seq!["-c:a"@, "flac"@])
    } else if ext == "m4a"@ || ext == "aac"@ {
        Some(seq!["-c:a"@, "aac"@, "-b:a"@, "192k"@])
    } else if ext == "opus"@ {
        Some(seq!["-c:a"@, "libopus"@, "-b:a"@, "128k"@])
    } else {
        None
    }
}

/// The message for an audio format that cannot be written.
pub open spec fn unsupported_audio_message(ext: Seq<char>) -> Seq<char> {
    "Unsupported audio format "@ + ext + "."@
}

/// The ffmpeg command that converts (or extracts) audio, or the message
/// when the format is not supported.
pub open spec fn audio_command(
    src: Seq<char>,
    dest: Seq<char>,
    ext: Seq<char>,
    normalize: bool,
    extract: bool,
) -> Result<CommandView, Seq<char>> {
    match audio_codec_args(ext) {
        Some(codec) => Ok(
            command(
                "ffmpeg"@,
                ffmpeg_base_args() + seq!["-i"@, src] + (if extract {
                    seq!["-vn"@]
                } else {
                    Seq::empty()
                }) + (if normalize {
                    seq!["-af"@, "loudnorm=I=-16:TP=-1.5:LRA=11"@]
                } else {
                    Seq::empty()
                }) + codec + seq![dest],
            ),
        ),
        None => Err(unsupported_audio_message(ext)),
    }
}

/// The command that removes metadata: ImageMagick for images when it is
/// installed, else an ffmpeg stream copy without metadata.
pub open spec fn strip_command(
    src: Seq<char>,
    dest: Seq<char>,
    kind: Option<MediaKind>,
    convert_installed: bool,
) -> CommandView {
    if kind == Some(MediaKind::Image) && convert_installed {
        command("convert"@, seq![src, "-strip"@, dest])
    } else {
        command(
            "ffmpeg"@,
            ffmpeg_base_args() + seq![
                "-i"@,
                src,
                "-map_metadata"@,
                "-1"@,
                "-c"@,
                "copy"@,
                dest,
            ],
        )
    }
}

/// The options every ffmpeg call starts with.
pub fn ffmpeg_base() -> (r: Vec<String>)
    ensures
        texts(r@) == ffmpeg_base_args(),
{
    let mut args: Vec<String> = Vec::new();
    push_arg(&mut args, "-hide_banner");
    push_arg(&mut args, "-nostdin");
    push_arg(&mut args, "-y");
    push_arg(&mut args, "-loglevel");
    push_arg(&mut args, "error");
    assert(texts(args@) =~= ffmpeg_base_args());
    args
}

/// The command that converts the image `src` to `dest`.
pub fn convert_image(
    src: &str,
    dest: &str,
    max_width: Option<u32>,
    quality: u8,
    ext: &str,
    convert_installed: bool,
) -> (r: ToolCommand)
    ensures
        r@ == image_command(src@, dest@, max_width, quality, ext@, convert_installed),
{
    if convert_installed {
        let mut args: Vec<String> = Vec::new();
        push_arg(&mut args, src);
        push_arg(&mut args, "-auto-orient");
        let ghost a0 = texts(args@);
        assert(a0 =~= seq![src@, "-auto-orient"@]);
        if let Some(w) = max_width {
            push_arg(&mut args, "-resize");
            let mut size = String::new();
            push_decimal(&mut size, w as u64);
            size.append("x");
            push_decimal(&mut size, w as u64);
            size.append(">");
            push_arg(&mut args, size.as_str());
        }
        let ghost a1 = texts(args@);
        assert(a1 =~= a0 + (match max_width {
            Some(w) => seq!["-resize"@, decimal(w as nat) + "x"@ + decimal(w as nat) + ">"@],
            None => Seq::empty(),
        }));
        push_arg(&mut args, "-quality");
        let q = crate::text::decimal_string(quality as u64);
        push_arg(&mut args, q.as_str());
        push_arg(&mut args, dest);
        assert(texts(args@) =~= a1 + seq!["-quality"@, decimal(quality as nat), dest@]);
        return ToolCommand { program: String::from_str("convert"), args };
    }
    let mut args = ffmpeg_base();
    push_arg(&mut args, "-i");
    push_arg(&mut args, src);
    push_arg(&mut args, "-frames:v");
    push_arg(&mut args, "1");
    let ghost a0 = texts(args@);
    assert(a0 =~= ffmpeg_base_args() + seq!["-i"@, src@, "-frames:v"@, "1"@]);
    if let Some(w) = max_width {
        push_arg(&mut args, "-vf");
        let mut filter = String::from_str("scale='min(");
        push_decimal(&mut filter, w as u64);
        filter.append(",iw)':-1:flags=lanczos");
        push_arg(&mut args, filter.as_str());
    }
    let ghost a1 = texts(args@);
    assert(a1 =~= a0 + (match max_width {
        Some(w) => seq!["-vf"@, "scale='min("@ + decimal(w as nat) + ",iw)':-1:flags=lanczos"@],
        None => Seq::empty(),
    }));
    if same_text(ext, "jpg") || same_text(ext, "jpeg") {
        push_arg(&mut args, "-c:v");
        push_arg(&mut args, "mjpeg");
    } else if same_text(ext, "webp") {
        push_arg(&mut args, "-c:v");
        push_arg(&mut args, "libwebp");
        push_arg(&mut args, "-quality");
        let q = crate::text::decimal_string(quality as u64);
        push_arg(&mut args, q.as_str());
    } else if same_text(ext, "avif") {
        push_arg(&mut args, "-c:v");
        push_arg(&mut args, "libaom-av1");
        push_arg(&mut args, "-still-picture");
        push_arg(&mut args, "1");
    } else {
        push_arg(&mut args, "-c:v");
        push_arg(&mut args, "png");
    }
    let ghost a2 = texts(args@);
    assert(a2 =~= a1 + image_codec_args(ext@, quality));
    push_arg(&mut args, dest);
    assert(texts(args@) =~= a2 + seq![dest@]);
    ToolCommand { program: String::from_str("ffmpeg"), args }
}

/// Whether an optional string holds exactly `lit`.
fn is_text(o: &Option<String>, lit: &str) -> (r: bool)
    ensures
        r == (opt_view(*o) == Some(lit@)),
{
    match o {
        Some(s) => same_text(s.as_str(), lit),
        None => false,
    }
}

/// The H.264 encoding options for a video: scaling, codec, quality and audio.
pub open spec fn encode_args(height: Option<u32>, compress: bool, probe: ProbeInfo) -> Seq<Seq<char>> {
    scale_args(height, probe) + seq![
        "-c:v"@,
        "libx264"@,
        "-preset"@,
        "medium"@,
        "-crf"@,
        if compress {
            "28"@
        } else {
            "23"@
        },
        "-pix_fmt"@,
        "yuv420p"@,
    ] + (if probe.has_audio {
        seq!["-c:a"@, "aac"@, "-b:a"@, "192k"@]
    } else {
        seq!["-an"@]
    })
}

/// Appends the scaling option for a target height, when the video is taller.
fn push_scale(args: &mut Vec<String>, height: Option<u32>, probe: &ProbeInfo)
    ensures
        texts(final(args)@) == texts(old(args)@) + scale_args(height, *probe),
{
    let ghost a0 = texts(args@);
    if let Some(h) = height {
        let current = match probe.height {
            Some(x) => x,
            None => h,
        };
        if current > h {
            push_arg(args, "-vf");
            let mut filter = String::from_str("scale=-2:");
            push_decimal(&mut filter, h as u64);
            filter.append(":flags=lanczos");
            push_arg(args, filter.as_str());
        }
    }
    assert(texts(args@) =~= a0 + scale_args(height, *probe));
}

/// Appends the H.264 encoding options.
fn push_encode(args: &mut Vec<String>, height: Option<u32>, compress: bool, probe: &ProbeInfo)
    ensures
        texts(final(args)@) == texts(old(args)@) + encode_args(height, compress, *probe),
{
    let ghost a0 = texts(args@);
    push_scale(args, height, probe);
    let ghost s0 = texts(args@);
    push_arg(args, "-c:v");
    push_arg(args, "libx264");
    push_arg(args, "-preset");
    push_arg(args, "medium");
    push_arg(args, "-crf");
    push_arg(
        args,
        if compress {
            "28"
        } else {
            "23"
        },
    );
    push_arg(args, "-pix_fmt");
    push_arg(args, "yuv420p");
    let ghost s1 = texts(args@);
    if probe.has_audio {
        push_arg(args, "-c:a");
        push_arg(args, "aac");
        push_arg(args, "-b:a");
        push_arg(args, "192k");
    } else {
        push_arg(args, "-an");
    }
    assert(texts(args@) =~= a0 + encode_args(height, compress, *probe));
}

/// The ffmpeg command that converts the video `src` (as `probe` describes it) to `dest`.
pub fn convert_video(
    src: &str,
    dest: &str,
    height: Option<u32>,
    compress: bool,
    probe: &ProbeInfo,
) -> (r: ToolCommand)
    ensures
        r@ == video_command(src@, dest@, height, compress, *probe),
{
    let mut args = ffmpeg_base();
    push_arg(&mut args, "-i");
    push_arg(&mut args, src);
    let ghost a0 = texts(args@);
    let can_copy = height.is_none() && !compress && is_text(&probe.video_codec, "h264") && (
    is_text(&probe.audio_codec, "aac") || probe.audio_codec.is_none());
    if can_copy {
        push_arg(&mut args, "-c");
        push_arg(&mut args, "copy");
    } else {
        push_encode(&mut args, height, compress, probe);
    }
    let ghost a1 = texts(args@);
    push_arg(&mut args, "-movflags");
    push_arg(&mut args, "+faststart");
    push_arg(&mut args, dest);
    assert(texts(args@) =~= a1 + seq!["-movflags"@, "+faststart"@, dest@]);
    assert(texts(args@) =~= video_command(src@, dest@, height, compress, *probe).args);
    ToolCommand { program: String::from_str("ffmpeg"), args }
}

/// The ffmpeg command that converts the audio of `src` to `dest` in format
/// `ext` (dropping the video when `extract`), or an error for a format that is
/// not supported.
pub fn convert_audio(src: &str, dest: &str, ext: &str, normalize: bool, extract: bool) -> (r: Result<
    ToolCommand,
    Error,
>)
    ensures
        match (r, audio_command(src@, dest@, ext@, normalize, extract)) {
            (Ok(c), Ok(v)) => c@ == v,
            (Err(e), Err(m)) => e.human@ == m && e.technical is None,
            _ => false,
        },
{
    let mut args = ffmpeg_base();
    push_arg(&mut args, "-i");
    push_arg(&mut args, src);
    if extract {
        push_arg(&mut args, "-vn");
    }
    if normalize {
        push_arg(&mut args, "-af");
        push_arg(&mut args, "loudnorm=I=-16:TP=-1.5:LRA=11");
    }
    let ghost a0 = texts(args@);
    assert(a0 =~= ffmpeg_base_args() + seq!["-i"@, src@] + (if extract {
        seq!["-vn"@]
    } else {
        Seq::empty()
    }) + (if normalize {
        seq!["-af"@, "loudnorm=I=-16:TP=-1.5:LRA=11"@]
    } else {
        Seq::empty()
    }));
    if same_text(ext, "mp3") {
        push_arg(&mut args, "-c:a");
        push_arg(&mut args, "libmp3lame");
        push_arg(&mut args, "-b:a");
        push_arg(&mut args, "192k");
    } else if same_text(ext, "wav") {
        push_arg(&mut args, "-c:a");
        push_arg(&mut args, "pcm_s16le");
    } else if same_text(ext, "flac") {
        push_arg(&mut args, "-c:a");
        push_arg(&mut args, "flac");
    } else if same_text(ext, "m4a") || same_text(ext, "aac") {
        push_arg(&mut args, "-c:a");
        push_arg(&mut args, "aac");
        push_arg(&mut args, "-b:a");
        push_arg(&mut args, "192k");
    } else if same_text(ext, "opus") {
        push_arg(&mut args, "-c:a");
        push_arg(&mut args, "libopus");
        push_arg(&mut args, "-b:a");
        push_arg(&mut args, "128k");
    } else {
        let mut message = String::from_str("Unsupported audio format ");
        message.append(ext);
        message.append(".");
        return Err(Error::user(message));
    }
    let ghost a1 = texts(args@);
    assert(a1 =~= a0 + audio_codec_args(ext@).unwrap());
    push_arg(&mut args, dest);
    assert(texts(args@) =~= a1 + seq![dest@]);
    Ok(ToolCommand { program: String::from_str("ffmpeg"), args })
}

/// The command that copies `src` to `dest` without its metadata.
pub fn strip_metadata(src: &str, dest: &str, kind: Option<MediaKind>, convert_installed: bool) -> (r:
    ToolCommand)
    ensures
        r@ == strip_command(src@, dest@, kind, convert_installed),
{
    let is_image = match kind {
        Some(MediaKind::Image) => true,
        _ => false,
    };
    if is_image && convert_installed {
        let mut args: Vec<String> = Vec::new();
        push_arg(&mut args, src);
        push_arg(&mut args, "-strip");
        push_arg(&mut args, dest);
        assert(texts(args@) =~= seq![src@, "-strip"@, dest@]);
        return ToolCommand { program: String::from_str("convert"), args };
    }
    let mut args = ffmpeg_base();
    push_arg(&mut args, "-i");
    push_arg(&mut args, src);
    push_arg(&mut args, "-map_metadata");
    push_arg(&mut args, "-1");
    push_arg(&mut args, "-c");
    push_arg(&mut args, "copy");
    push_arg(&mut args, dest);
    assert(texts(args@) =~= ffmpeg_base_args() + seq![
        "-i"@,
        src@,
        "-map_metadata"@,
        "-1"@,
        "-c"@,
        "copy"@,
        dest@,
    ]);
    ToolCommand { program: String::from_str("ffmpeg"), args }
}

} // verus!

verus! {

// ---------------------------------------------------------------------------
// Planning the steps for one file.
// ---------------------------------------------------------------------------

/// What a step does to the current file.
#[derive(Debug, Clone)]
pub enum StepPlan {
    /// The step leaves the file as it is.
    Unchanged,
    /// Run `command`, which writes `output`, a file of kind `kind`.
    Run { command: ToolCommand, output: String, kind: Option<MediaKind> },
}

pub enum PlanView {
    Unchanged,
    Run { command: CommandView, output: Seq<char>, kind: Option<MediaKind> },
}

impl View for StepPlan {
    type V = PlanView;

    open spec fn view(&self) -> PlanView {
        match self {
            StepPlan::Unchanged => PlanView::Unchanged,
            StepPlan::Run { command, output, kind } => PlanView::Run {
                command: command@,
                output: output@,
                kind: *kind,
            },
        }
    }
}

/// The step converts video and the file is not known to be an image or audio:
/// it needs the probe of the current file.
pub open spec fn step_needs_probe(s: StepView, kind: Option<MediaKind>) -> bool {
    &&& s is ConvertVideo
    &&& kind != Some(MediaKind::Image)
    &&& kind != Some(MediaKind::Audio)
}

/// The step may pick ImageMagick, so whether it is installed matters.
pub open spec fn step_asks_for_convert(s: StepView, kind: Option<MediaKind>) -> bool {
    ||| (s is ConvertImage && kind != Some(MediaKind::Video) && kind != Some(MediaKind::Audio))
    ||| (s is RemoveMetadata && kind == Some(MediaKind::Image))
}

/// The plan for one step, given the current file, the path (without
/// extension) for its output, the kind known so far, whether ImageMagick is
/// installed, and the probe of the current file when the step needs one.
pub open spec fn step_plan(
    current: Seq<char>,
    dest_hint: Seq<char>,
    s: StepView,
    kind: Option<MediaKind>,
    convert_installed: bool,
    probe: Option<Result<ProbeInfo, Error>>,
) -> Result<PlanView, (Seq<char>, Option<Seq<char>>)> {
    match s {
        StepView::Rename { .. } => Ok(PlanView::Unchanged),
        StepView::ConvertImage { format, max_width, quality } => if kind == Some(MediaKind::Video)
            || kind == Some(MediaKind::Audio) {
            Ok(PlanView::Unchanged)
        } else {
            let ext = normalized_ext(format);
            let out = with_extension(dest_hint, ext);
            Ok(
                PlanView::Run {
                    command: image_command(current, out, max_width, quality, ext, convert_installed),
                    output: out,
                    kind: Some(MediaKind::Image),
                },
            )
        },
        StepView::ConvertVideo { container, height, compress } => if kind == Some(MediaKind::Image)
            || kind == Some(MediaKind::Audio) {
            Ok(PlanView::Unchanged)
        } else {
            let ext = normalized_ext(container);
            let out = with_extension(dest_hint, ext);
            match probe {
                Some(Ok(p)) => Ok(
                    PlanView::Run {
                        command: video_command(current, out, height, compress, p),
                        output: out,
                        kind: Some(MediaKind::Video),
                    },
                ),
                Some(Err(e)) => Err(error_view(e)),
                None => Err(error_view(arbitrary())),
            }
        },
        StepView::ConvertAudio { format, normalize } => if kind == Some(MediaKind::Image) {
            Ok(PlanView::Unchanged)
        } else {
            let ext = normalized_ext(format);
            let out = with_extension(dest_hint, ext);
            match audio_command(current, out, ext, normalize, false) {
                Ok(c) => Ok(PlanView::Run { command: c, output: out, kind: Some(MediaKind::Audio) }),
                Err(m) => Err((m, None)),
            }
        },
        StepView::ExtractAudio { format } => if kind == Some(MediaKind::Image) {
            Ok(PlanView::Unchanged)
        } else {
            let ext = normalized_ext(format);
            let out = with_extension(dest_hint, ext);
            match audio_command(current, out, ext, false, true) {
                Ok(c) => Ok(PlanView::Run { command: c, output: out, kind: Some(MediaKind::Audio) }),
                Err(m) => Err((m, None)),
            }
        },
        StepView::RemoveMetadata => {
            let out = with_extension(dest_hint, ext_text(current));
            Ok(
                PlanView::Run {
                    command: strip_command(current, out, kind, convert_installed),
                    output: out,
                    kind: kind,
                },
            )
        },
    }
}

/// `r` is the plan `v` (or the error it describes).
pub open spec fn plan_is(r: Result<StepPlan, Error>, v: Result<PlanView, (Seq<char>, Option<Seq<char>>)>) -> bool {
    match (r, v) {
        (Ok(p), Ok(w)) => p@ == w,
        (Err(e), Err(w)) => error_view(e) == w,
        _ => false,
    }
}

/// Whether the step needs the probe of the current file.
pub fn needs_probe(step: &Step, kind: Option<MediaKind>) -> (r: bool)
    ensures
        r == step_needs_probe(step@, kind),
{
    match step {
        Step::ConvertVideo { .. } => kind != Some(MediaKind::Image) && kind != Some(MediaKind::Audio),
        _ => false,
    }
}

/// Whether the step may pick ImageMagick.
fn asks_for_convert(step: &Step, kind: Option<MediaKind>) -> (r: bool)
    ensures
        r == step_asks_for_convert(step@, kind),
{
    match step {
        Step::ConvertImage { .. } => kind != Some(MediaKind::Video) && kind != Some(
            MediaKind::Audio,
        ),
        Step::RemoveMetadata => kind == Some(MediaKind::Image),
        _ => false,
    }
}

/// Plans one step: the command to run and the file it writes, or nothing for
/// a step that does not apply to this kind of file.
pub fn apply_step(
    current: &str,
    dest_hint: &str,
    step: &Step,
    kind: Option<MediaKind>,
    convert_installed: bool,
    probe: Option<Result<ProbeInfo, Error>>,
) -> (r: Result<StepPlan, Error>)
    requires
        step_needs_probe(step@, kind) ==> probe is Some,
    ensures
        plan_is(r, step_plan(current@, dest_hint@, step@, kind, convert_installed, probe)),
{
    match step {
        Step::Rename { .. } => Ok(StepPlan::Unchanged),
        Step::ConvertImage { format, max_width, quality } => {
            if kind == Some(MediaKind::Video) || kind == Some(MediaKind::Audio) {
                return Ok(StepPlan::Unchanged);
            }
            let ext = normalize_ext(format.as_str());
            let out = replace_extension(dest_hint, ext.as_str());
            let command = convert_image(
                current,
                out.as_str(),
                *max_width,
                *quality,
                ext.as_str(),
                convert_installed,
            );
            Ok(StepPlan::Run { command, output: out, kind: Some(MediaKind::Image) })
        },
        Step::ConvertVideo { container, height, compress } => {
            if kind == Some(MediaKind::Image) || kind == Some(MediaKind::Audio) {
                return Ok(StepPlan::Unchanged);
            }
            let ext = normalize_ext(container.as_str());
            let out = replace_extension(dest_hint, ext.as_str());
            match probe {
                Some(Ok(p)) => {
                    let command = convert_video(current, out.as_str(), *height, *compress, &p);
                    Ok(StepPlan::Run { command, output: out, kind: Some(MediaKind::Video) })
                },
                Some(Err(e)) => Err(e),
                None => {
                    assert(false);
                    Err(Error::user(String::new()))
                },
            }
        },
        Step::ConvertAudio { format, normalize } => {
            if kind == Some(MediaKind::Image) {
                return Ok(StepPlan::Unchanged);
            }
            let ext = normalize_ext(format.as_str());
            let out = replace_extension(dest_hint, ext.as_str());
            let command = convert_audio(current, out.as_str(), ext.as_str(), *normalize, false)?;
            Ok(StepPlan::Run { command, output: out, kind: Some(MediaKind::Audio) })
        },
        Step::ExtractAudio { format } => {
            if kind == Some(MediaKind::Image) {
                return Ok(StepPlan::Unchanged);
            }
            let ext = normalize_ext(format.as_str());
            let out = replace_extension(dest_hint, ext.as_str());
            let command = convert_audio(current, out.as_str(), ext.as_str(), false, true)?;
            Ok(StepPlan::Run { command, output: out, kind: Some(MediaKind::Audio) })
        },
        Step::RemoveMetadata => {
            let ext = file_ext(current);
            let out = replace_extension(dest_hint, ext.as_str());
            let command = strip_metadata(current, out.as_str(), kind, convert_installed);
            Ok(StepPlan::Run { command, output: out, kind })
        },
    }
}

} // verus!

verus! {

// ---------------------------------------------------------------------------
// Running the pipeline on one file.
// ---------------------------------------------------------------------------

/// Whether `name` is found as an executable on the search path.
/// Wraps `which::which`, whose answer depends on $PATH and on the files on
/// disk; nothing is claimed about it.
#[verifier::external_body]
fn program_installed(name: &str) -> bool {
    which::which(name).is_ok()
}

/// Where step `i` of a job writes, before its extension is chosen.
pub open spec fn step_hint(temp_dir: Seq<char>, i: nat) -> Seq<char> {
    join(temp_dir, "step-"@ + decimal(i))
}

/// The path (without extension) that step `i` writes in `temp_dir`.
pub fn step_path(temp_dir: &str, i: usize) -> (r: String)
    ensures
        r@ == step_hint(temp_dir@, i as nat),
{
    let mut name = String::from_str("step-");
    push_decimal(&mut name, i as u64);
    join_path(temp_dir, name.as_str())
}

/// The state of one file going through the pipeline: the file the next step
/// reads, what kind of media it is known to be, and the next step.
#[derive(Debug, Clone)]
pub struct FileJob {
    pub source: String,
    pub dest: String,
    pub current: String,
    pub kind: Option<MediaKind>,
    pub next_step: usize,
}

/// What the caller does next for a job.
#[derive(Debug, Clone)]
pub enum JobAction {
    /// Run the command; on success, report the written file with `record_output`.
    Run { command: ToolCommand, output: String, kind: Option<MediaKind> },
    /// The step did not apply; ask again.
    Skipped,
    /// All steps are done.
    Finished,
}

pub open spec fn cancelled_message() -> Seq<char> {
    "Cancelled"@
}

/// The error for work stopped because the user cancelled.
pub fn cancelled_error() -> (e: Error)
    ensures
        error_view(e) == (cancelled_message(), None::<Seq<char>>),
{
    Error::user(String::from_str("Cancelled"))
}

/// `a` is the action for the plan `p`.
pub open spec fn action_for(a: JobAction, p: PlanView) -> bool {
    match (a, p) {
        (JobAction::Skipped, PlanView::Unchanged) => true,
        (JobAction::Run { command, output, kind }, PlanView::Run { command: c, output: o, kind: k }) => {
            command@ == c && output@ == o && kind == k
        },
        _ => false,
    }
}

/// `r` is what the plan (or its error) `v` calls for.
pub open spec fn action_follows(
    r: Result<JobAction, Error>,
    v: Result<PlanView, (Seq<char>, Option<Seq<char>>)>,
) -> bool {
    match (r, v) {
        (Ok(a), Ok(p)) => action_for(a, p),
        (Err(e), Err(w)) => error_view(e) == w,
        _ => false,
    }
}

impl FileJob {
    /// A job that starts from `source`, of kind `kind` when probing it told.
    pub fn new(source: String, dest: String, kind: Option<MediaKind>) -> (r: FileJob)
        ensures
            r.source@ == source@,
            r.dest@ == dest@,
            r.current@ == source@,
            r.kind == kind,
            r.next_step == 0,
    {
        let current = source.clone();
        FileJob { source, dest, current, kind, next_step: 0 }
    }

    /// Whether the next step needs the probe of the current file.
    pub fn needs_probe(&self, pipeline: &Pipeline) -> (r: bool)
        ensures
            r == (self.next_step < pipeline.steps@.len() && step_needs_probe(
                pipeline.steps@[self.next_step as int]@,
                self.kind,
            )),
    {
        if self.next_step < pipeline.steps.len() {
            needs_probe(&pipeline.steps[self.next_step], self.kind)
        } else {
            false
        }
    }

    /// Decides the next step: stop when cancelled, finish after the last step,
    /// else plan the step (outputs go to `temp_dir`).
    pub fn next_action(
        &mut self,
        pipeline: &Pipeline,
        cancelled: bool,
        temp_dir: &str,
        probe: Option<Result<ProbeInfo, Error>>,
    ) -> (r: Result<JobAction, Error>)
        requires
            old(self).next_step <= pipeline.steps@.len(),
            old(self).next_step < pipeline.steps@.len() && step_needs_probe(
                pipeline.steps@[old(self).next_step as int]@,
                old(self).kind,
            ) ==> probe is Some,
        ensures
            final(self).source == old(self).source,
            final(self).dest == old(self).dest,
            final(self).current == old(self).current,
            final(self).kind == old(self).kind,
            final(self).next_step <= pipeline.steps@.len(),
            old(self).next_step == pipeline.steps@.len() ==> (r matches Ok(JobAction::Finished)
                && final(self).next_step == old(self).next_step),
            old(self).next_step < pipeline.steps@.len() && cancelled ==> (r matches Err(e)
                && error_view(e) == (cancelled_message(), None::<Seq<char>>)),
            old(self).next_step < pipeline.steps@.len() && !cancelled ==> exists|c: bool|
                #[trigger] action_follows(
                    r,
                    step_plan(
                        old(self).current@,
                        step_hint(temp_dir@, old(self).next_step as nat),
                        pipeline.steps@[old(self).next_step as int]@,
                        old(self).kind,
                        c,
                        probe,
                    ),
                ) && (r is Ok ==> final(self).next_step == old(self).next_step + 1),
    {
        let n = pipeline.steps.len();
        if self.next_step >= n {
            return Ok(JobAction::Finished);
        }
        if cancelled {
            return Err(cancelled_error());
        }
        let i = self.next_step;
        let step = &pipeline.steps[i];
        let hint = step_path(temp_dir, i);
        let convert = if asks_for_convert(step, self.kind) {
            program_installed("convert")
        } else {
            false
        };
        let ghost v = step_plan(self.current@, hint@, step@, self.kind, convert, probe);
        let plan = apply_step(self.current.as_str(), hint.as_str(), step, self.kind, convert, probe);
        let r = match plan {
            Ok(StepPlan::Unchanged) => {
                self.next_step = i + 1;
                Ok(JobAction::Skipped)
            },
            Ok(StepPlan::Run { command, output, kind }) => {
                self.next_step = i + 1;
                Ok(JobAction::Run { command, output, kind })
            },
            Err(e) => Err(e),
        };
        assert(action_follows(r, v));
        r
    }

    /// Records that the last planned command wrote `output`, of kind `kind`
    /// (the kind known so far is kept when it is `None`).
    pub fn record_output(&mut self, output: String, kind: Option<MediaKind>)
        ensures
            final(self).source == old(self).source,
            final(self).dest == old(self).dest,
            final(self).next_step == old(self).next_step,
            final(self).current@ == output@,
            final(self).kind == (match kind {
                Some(k) => Some(k),
                None => old(self).kind,
            }),
    {
        self.current = output;
        self.kind = match kind {
            Some(k) => Some(k),
            None => self.kind,
        };
    }

    /// No step wrote a file: the result is a plain copy of the source.
    pub fn output_is_source(&self) -> (r: bool)
        ensures
            r == (self.current@ == self.source@),
    {
        same_text(self.current.as_str(), self.source.as_str())
    }

    /// Where the result goes. With copies, the planned destination when
    /// `is_taken` reports it free, else a free name beside it. In a confirmed
    /// run without copies, the selected file itself, which the result replaces.
    pub fn final_destination<F: Fn(String) -> bool>(&self, copies: bool, is_taken: &F, tag: u32) -> (r: String)
        requires
            forall|s: String| #[trigger] is_taken.requires((s,)),
        ensures
            !copies ==> r@ == self.source@,
            copies ==> (answered(*is_taken, self.dest@, false) && r@ == self.dest@) || (answered(
                *is_taken,
                self.dest@,
                true,
            ) && unique_path_result(
                *is_taken,
                match parent_of(self.dest@) {
                    Some(d) => d,
                    None => "."@,
                },
                stem_text(self.dest@),
                ext_text(self.dest@),
                tag as nat,
                r@,
            )),
    {
        if !copies {
            return self.source.clone();
        }
        let d = self.dest.clone();
        let taken = is_taken(d);
        assert(call_ensures(*is_taken, (d,), taken) && d@ == self.dest@);
        if !taken {
            return self.dest.clone();
        }
        let dir = match parent(self.dest.as_str()) {
            Some(p) => p,
            None => String::from_str("."),
        };
        let stem = file_stem(self.dest.as_str());
        let ext = file_ext(self.dest.as_str());
        unique_path(dir.as_str(), stem.as_str(), ext.as_str(), is_taken, tag)
    }

    /// How the result reaches `final_dest`: nothing to do when no step wrote a
    /// file and the result replaces the source itself; a copy of the source
    /// when no step wrote a file; else a move of the last file written.
    pub fn delivery(&self, final_dest: &str) -> (r: Delivery)
        ensures
            self.current@ == self.source@ && final_dest@ == self.source@ ==> r is InPlace,
            self.current@ == self.source@ && final_dest@ != self.source@ ==> (r matches Delivery::Copy {
                from,
                to,
            } && from@ == self.source@ && to@ == final_dest@),
            self.current@ != self.source@ ==> (r matches Delivery::Move { from, to } && from@
                == self.current@ && to@ == final_dest@),
    {
        if same_text(self.current.as_str(), self.source.as_str()) {
            if same_text(final_dest, self.source.as_str()) {
                Delivery::InPlace
            } else {
                Delivery::Copy { from: self.source.clone(), to: final_dest.to_owned() }
            }
        } else {
            Delivery::Move { from: self.current.clone(), to: final_dest.to_owned() }
        }
    }
}

/// How a job's result is put in place.
#[derive(Debug, Clone)]
pub enum Delivery {
    /// The result is already where it belongs.
    InPlace,
    /// Copy `from` to `to`.
    Copy { from: String, to: String },
    /// Move `from` to `to` (a copy where a move is not possible).
    Move { from: String, to: String },
}

// ---------------------------------------------------------------------------
// Reporting on one file.
// ---------------------------------------------------------------------------

/// What happened to one file.
#[derive(Debug, Clone)]
pub struct FileReport {
    pub source: String,
    pub dest: Option<String>,
    pub ok: bool,
    pub message: String,
    pub technical: Option<String>,
}

/// The report for a file that was cancelled before it started.
pub fn cancelled_report(source: &str) -> (r: FileReport)
    ensures
        r.source@ == source@,
        r.dest is None,
        !r.ok,
        r.message@ == cancelled_message(),
        r.technical is None,
{
    FileReport {
        source: source.to_owned(),
        dest: None,
        ok: false,
        message: String::from_str("Cancelled"),
        technical: None,
    }
}

/// The report for one file: cancelled when it never ran (`outcome` is
/// `None`), done with its destination, or failed with the error's message and
/// details.
pub fn process_file(source: &str, outcome: Option<Result<String, Error>>) -> (r: FileReport)
    ensures
        r.source@ == source@,
        match outcome {
            None => !r.ok && r.dest is None && r.message@ == cancelled_message()
                && r.technical is None,
            Some(Ok(p)) => r.ok && opt_view(r.dest) == Some(p@) && r.message@ == "Done"@
                && r.technical is None,
            Some(Err(e)) => !r.ok && r.dest is None && r.message@ == e.human@ && opt_view(
                r.technical,
            ) == opt_view(e.technical),
        },
{
    match outcome {
        None => cancelled_report(source),
        Some(Ok(path)) => FileReport {
            source: source.to_owned(),
            dest: Some(path),
            ok: true,
            message: String::from_str("Done"),
            technical: None,
        },
        Some(Err(err)) => {
            let message = err.human_message();
            let technical = err.technical_details();
            FileReport { source: source.to_owned(), dest: None, ok: false, message, technical }
        },
    }
}

} // verus!

verus! {

// ---------------------------------------------------------------------------
// Running one tool.
// ---------------------------------------------------------------------------

/// What the caller saw of a tool it was asked to run.
#[derive(Debug, Clone)]
pub enum ToolEvent {
    /// The program is not on the search path.
    NotFound,
    /// The program could not be started, for the given reason.
    SpawnFailed(String),
    /// The program is still running.
    StillRunning,
    /// The program ended, successfully or not, having written `stderr`.
    Exited { success: bool, stderr: String },
    /// Waiting for the program failed, for the given reason.
    WaitFailed(String),
}

/// What the caller does next with a running tool.
#[derive(Debug)]
pub enum ToolStep {
    /// Wait a little and look again.
    Wait,
    /// Kill the program's whole process group, wait for it, and report the
    /// work cancelled.
    StopCancelled,
    /// The tool is done, with this outcome.
    Finish(Result<(), Error>),
}

pub open spec fn not_installed_message(program: Seq<char>) -> Seq<char> {
    program + " is not installed. Install it to run this pipeline step."@
}

pub open spec fn start_failed_message(program: Seq<char>) -> Seq<char> {
    "Could not start "@ + program + "."@
}

pub open spec fn unfinished_message(program: Seq<char>) -> Seq<char> {
    program + " could not finish this file."@
}

pub open spec fn stopped_message(program: Seq<char>) -> Seq<char> {
    program + " stopped unexpectedly."@
}

/// `r` finishes with an error whose message is `m` and whose details are `t`.
pub open spec fn fails_with(r: ToolStep, m: Seq<char>, t: Option<Seq<char>>) -> bool {
    r matches ToolStep::Finish(Err(e)) && error_view(e) == (m, t)
}

/// Decides what to do about `program` after `event`: a program that is missing
/// or cannot start fails the step; once the user cancelled, the program is
/// stopped whatever else happened; otherwise keep waiting while it runs, and
/// finish when it ends or waiting fails.
pub fn tool_step(program: &str, cancelled: bool, event: ToolEvent) -> (r: ToolStep)
    ensures
        event is NotFound ==> fails_with(r, not_installed_message(program@), None),
        event matches ToolEvent::SpawnFailed(why) ==> fails_with(
            r,
            start_failed_message(program@),
            Some(why@),
        ),
        cancelled && !(event is NotFound) && !(event is SpawnFailed) ==> r is StopCancelled,
        cancelled ==> !(r matches ToolStep::Finish(Ok(_))),
        !cancelled && event is StillRunning ==> r is Wait,
        !cancelled ==> (event matches ToolEvent::Exited { success, stderr } ==> (if success {
            r matches ToolStep::Finish(Ok(_))
        } else {
            fails_with(r, unfinished_message(program@), Some(stderr@))
        })),
        !cancelled ==> (event matches ToolEvent::WaitFailed(why) ==> fails_with(
            r,
            stopped_message(program@),
            Some(why@),
        )),
{
    match event {
        ToolEvent::NotFound => {
            let mut m = program.to_owned();
            m.append(" is not installed. Install it to run this pipeline step.");
            ToolStep::Finish(Err(Error::user(m)))
        },
        ToolEvent::SpawnFailed(why) => {
            let mut m = String::from_str("Could not start ");
            m.append(program);
            m.append(".");
            ToolStep::Finish(Err(Error::detailed(m, why)))
        },
        _ => {
            if cancelled {
                return ToolStep::StopCancelled;
            }
            match event {
                ToolEvent::Exited { success, stderr } => {
                    if success {
                        ToolStep::Finish(Ok(()))
                    } else {
                        let mut m = program.to_owned();
                        m.append(" could not finish this file.");
                        ToolStep::Finish(Err(Error::detailed(m, stderr)))
                    }
                },
                ToolEvent::WaitFailed(why) => {
                    let mut m = program.to_owned();
                    m.append(" stopped unexpectedly.");
                    ToolStep::Finish(Err(Error::detailed(m, why)))
                },
                _ => ToolStep::Wait,
            }
        },
    }
}

} // verus!

verus! {

/// The name of a step's file has no separator and no dot, and does not end with a dot.
proof fn lemma_step_name(i: nat)
    ensures
        ("step-"@ + decimal(i)).len() > 0,
        ("step-"@ + decimal(i))[0] != '/',
        ("step-"@ + decimal(i)).last() != '.',
        forall|k: int|
            0 <= k < ("step-"@ + decimal(i)).len() ==> #[trigger] ("step-"@ + decimal(i))[k] != '/'
                && ("step-"@ + decimal(i))[k] != '.',
{
    reveal_strlit("step-");
    lemma_decimal_digits(i);
    lemma_decimal_len(i);
    let name = "step-"@ + decimal(i);
    assert(name.last() == decimal(i).last());
    assert forall|k: int| 0 <= k < name.len() implies #[trigger] name[k] != '/' && name[k] != '.' by {
        if k >= 5 {
            assert(name[k] == decimal(i)[k - 5]);
        }
    }
}

/// A step writes nothing but its own file in the job's temporary folder:
/// whatever a planned step runs, its output is the step's file there, with
/// the step's extension.
pub proof fn step_writes_only_its_temp_file(
    current: Seq<char>,
    temp_dir: Seq<char>,
    i: nat,
    s: StepView,
    kind: Option<MediaKind>,
    convert_installed: bool,
    probe: Option<Result<ProbeInfo, Error>>,
)
    ensures
        match step_plan(current, step_hint(temp_dir, i), s, kind, convert_installed, probe) {
            Ok(PlanView::Run { output, .. }) => exists|e: Seq<char>|
                output == #[trigger] (step_hint(temp_dir, i) + dotted(e)),
            _ => true,
        },
{
    lemma_step_name(i);
    let name = "step-"@ + decimal(i);
    let e = match s {
        StepView::ConvertImage { format, .. } => normalized_ext(format),
        StepView::ConvertVideo { container, .. } => normalized_ext(container),
        StepView::ConvertAudio { format, .. } => normalized_ext(format),
        StepView::ExtractAudio { format } => normalized_ext(format),
        _ => ext_text(current),
    };
    lemma_plain_name_with_extension(temp_dir, name, e);
    assert(step_hint(temp_dir, i) == join(temp_dir, name));
    let _ = step_hint(temp_dir, i) + dotted(e);
}

} // verus!

verus! {

// ---------------------------------------------------------------------------
// What the commands are for.
// ---------------------------------------------------------------------------

/// `args` has `a` immediately followed by `b`.
pub open spec fn has_pair(args: Seq<Seq<char>>, a: Seq<char>, b: Seq<char>) -> bool {
    exists|i: int| 0 <= i && i + 1 < args.len() && #[trigger] args[i] == a && args[i + 1] == b
}

/// A compressed video is always re-encoded with H.264 at quality 28, and a
/// video scaled to a height or not in H.264 is re-encoded too; only an H.264
/// video with AAC or no audio, neither scaled nor compressed, is copied
/// stream for stream.
pub proof fn video_encoding_follows_the_request(
    src: Seq<char>,
    dest: Seq<char>,
    height: Option<u32>,
    compress: bool,
    probe: ProbeInfo,
)
    ensures
        video_command(src, dest, height, compress, probe).program == "ffmpeg"@,
        compress ==> has_pair(video_command(src, dest, height, compress, probe).args, "-c:v"@, "libx264"@)
            && has_pair(video_command(src, dest, height, compress, probe).args, "-crf"@, "28"@),
        height is Some || opt_view(probe.video_codec) != Some("h264"@) ==> has_pair(
            video_command(src, dest, height, compress, probe).args,
            "-c:v"@,
            "libx264"@,
        ),
        height is None && !compress && opt_view(probe.video_codec) == Some("h264"@) && (opt_view(
            probe.audio_codec,
        ) == Some("aac"@) || probe.audio_codec is None) ==> has_pair(
            video_command(src, dest, height, compress, probe).args,
            "-c"@,
            "copy"@,
        ),
{
    let args = video_command(src, dest, height, compress, probe).args;
    let s = scale_args(height, probe).len() as int;
    assert(s == 0 || s == 2);
    if can_copy_video(height, compress, probe) {
        assert(args[7] == "-c"@ && args[8] == "copy"@);
    } else {
        assert(args[7 + s] == "-c:v"@ && args[8 + s] == "libx264"@);
        if compress {
            assert(args[11 + s] == "-crf"@ && args[12 + s] == "28"@);
        }
    }
}

/// When ffmpeg converts an image to JPEG ("jpg" or "jpeg"), the encoder is
/// mjpeg, named just before the output file; for a format other than JPEG,
/// WebP and AVIF it is png.
pub proof fn jpeg_images_use_the_jpeg_encoder(
    src: Seq<char>,
    dest: Seq<char>,
    max_width: Option<u32>,
    quality: u8,
    ext: Seq<char>,
)
    ensures
        ({
            let c = image_command(src, dest, max_width, quality, ext, false);
            &&& c.program == "ffmpeg"@
            &&& c.args.last() == dest
            &&& (ext == "jpg"@ || ext == "jpeg"@) ==> c.args[c.args.len() - 3] == "-c:v"@ && c.args[c.args.len() - 2] == "mjpeg"@
            &&& (ext != "jpg"@ && ext != "jpeg"@ && ext != "webp"@ && ext != "avif"@) ==> c.args[c.args.len() - 3] == "-c:v"@ && c.args[c.args.len() - 2] == "png"@
        }),
{
}

/// The audio encoder matches the target format: AAC for m4a and aac, MP3 for
/// mp3, Opus for opus, FLAC for flac and 16-bit PCM for wav.
pub proof fn audio_encoder_matches_format(
    src: Seq<char>,
    dest: Seq<char>,
    ext: Seq<char>,
    normalize: bool,
    extract: bool,
)
    ensures
        (ext == "m4a"@ || ext == "aac"@) ==> (audio_command(src, dest, ext, normalize, extract) matches Ok(c)
            && c.program == "ffmpeg"@ && c.args.last() == dest && has_pair(c.args, "-c:a"@, "aac"@) && has_pair(c.args, "-b:a"@, "192k"@)),
        ext == "mp3"@ ==> (audio_command(src, dest, ext, normalize, extract) matches Ok(c) && has_pair(
            c.args,
            "-c:a"@,
            "libmp3lame"@,
        )),
        ext == "opus"@ ==> (audio_command(src, dest, ext, normalize, extract) matches Ok(c) && has_pair(
            c.args,
            "-c:a"@,
            "libopus"@,
        )),
        ext == "flac"@ ==> (audio_command(src, dest, ext, normalize, extract) matches Ok(c) && has_pair(
            c.args,
            "-c:a"@,
            "flac"@,
        )),
        ext == "wav"@ ==> (audio_command(src, dest, ext, normalize, extract) matches Ok(c) && has_pair(
            c.args,
            "-c:a"@,
            "pcm_s16le"@,
        )),
{
    let pre = ffmpeg_base_args() + seq!["-i"@, src] + (if extract {
        seq!["-vn"@]
    } else {
        Seq::empty()
    }) + (if normalize {
        seq!["-af"@, "loudnorm=I=-16:TP=-1.5:LRA=11"@]
    } else {
        Seq::empty()
    });
    let k = pre.len() as int;
    reveal_strlit("mp3");
    reveal_strlit("wav");
    reveal_strlit("flac");
    reveal_strlit("m4a");
    reveal_strlit("aac");
    reveal_strlit("opus");
    assert("opus"@[0] != "mp3"@[0] && "opus"@[0] != "wav"@[0] && "opus"@[0] != "flac"@[0]
        && "opus"@[0] != "m4a"@[0] && "opus"@[0] != "aac"@[0]);
    assert("aac"@[0] != "mp3"@[0] && "aac"@[0] != "wav"@[0] && "aac"@[0] != "flac"@[0]);
    assert("m4a"@[1] != "mp3"@[1] && "m4a"@[0] != "wav"@[0] && "m4a"@[0] != "flac"@[0]);
    assert("flac"@[0] != "mp3"@[0] && "flac"@[0] != "wav"@[0]);
    if ext == "opus"@ {
        assert(ext != "mp3"@ && ext != "wav"@ && ext != "flac"@ && ext != "m4a"@ && ext != "aac"@);
        assert(audio_codec_args(ext) is Some);
    }
    if ext == "m4a"@ || ext == "aac"@ {
        assert(ext != "mp3"@ && ext != "wav"@ && ext != "flac"@);
        assert(audio_codec_args(ext) is Some);
    }
    if let Some(codec) = audio_codec_args(ext) {
        let args = pre + codec + seq![dest];
        assert(args.last() == dest);
        assert(args[k] == codec[0] && args[k + 1] == codec[1]);
        if codec.len() == 4 {
            assert(args[k + 2] == codec[2] && args[k + 3] == codec[3]);
        }
    }
}

/// A step leaves alone a file of a kind it does not handle: an image step
/// skips audio and video, a video step skips images and audio, an audio step
/// skips images, and renaming never runs a tool. A step that runs writes a
/// file of its own kind.
pub proof fn steps_touch_only_their_media(
    current: Seq<char>,
    dest_hint: Seq<char>,
    s: StepView,
    kind: Option<MediaKind>,
    convert_installed: bool,
    probe: Option<Result<ProbeInfo, Error>>,
)
    ensures
        ({
            let plan = step_plan(current, dest_hint, s, kind, convert_installed, probe);
            &&& s is Rename ==> plan == Ok::<PlanView, (Seq<char>, Option<Seq<char>>)>(PlanView::Unchanged)
            &&& s is ConvertImage && (kind == Some(MediaKind::Audio) || kind == Some(MediaKind::Video))
                ==> plan == Ok::<PlanView, (Seq<char>, Option<Seq<char>>)>(PlanView::Unchanged)
            &&& s is ConvertVideo && (kind == Some(MediaKind::Image) || kind == Some(MediaKind::Audio))
                ==> plan == Ok::<PlanView, (Seq<char>, Option<Seq<char>>)>(PlanView::Unchanged)
            &&& (s is ConvertAudio || s is ExtractAudio) && kind == Some(MediaKind::Image)
                ==> plan == Ok::<PlanView, (Seq<char>, Option<Seq<char>>)>(PlanView::Unchanged)
            &&& s is ConvertImage ==> (plan matches Ok(PlanView::Run { kind: k, .. }) ==> k == Some(MediaKind::Image))
            &&& s is ConvertVideo ==> (plan matches Ok(PlanView::Run { kind: k, .. }) ==> k == Some(MediaKind::Video))
            &&& (s is ConvertAudio || s is ExtractAudio) ==> (plan matches Ok(PlanView::Run { kind: k, .. }) ==> k == Some(MediaKind::Audio))
        }),
{
}

/// Every video command reads `src` and writes `dest` last, with fast start.
/// A re-encode (scaled, compressed, not H.264, or with audio other than AAC)
/// uses quality 23 unless compressing, encodes audio as AAC at 192k when
/// there is audio and drops it otherwise, and scales to the target height
/// only when the video is known to be taller.
pub proof fn video_command_details(
    src: Seq<char>,
    dest: Seq<char>,
    height: Option<u32>,
    compress: bool,
    probe: ProbeInfo,
)
    ensures
        ({
            let a = video_command(src, dest, height, compress, probe).args;
            let reencode = height is Some || compress || opt_view(probe.video_codec) != Some("h264"@)
                || (probe.audio_codec is Some && opt_view(probe.audio_codec) != Some("aac"@));
            &&& a.len() >= 10
            &&& a[5] == "-i"@ && a[6] == src
            &&& a[a.len() - 3] == "-movflags"@ && a[a.len() - 2] == "+faststart"@ && a.last() == dest
            &&& reencode && !compress ==> has_pair(a, "-crf"@, "23"@)
            &&& reencode && probe.has_audio ==> has_pair(a, "-c:a"@, "aac"@) && has_pair(a, "-b:a"@, "192k"@)
            &&& reencode && !probe.has_audio ==> a[a.len() - 4] == "-an"@
            &&& reencode && (height matches Some(h) && probe.height matches Some(x) && x > h) ==> a[7] == "-vf"@
                && a[8] == "scale=-2:"@ + decimal(height->0 as nat) + ":flags=lanczos"@
            &&& reencode && !(height matches Some(h) && probe.height matches Some(x) && x > h) ==> a[7] == "-c:v"@
        }),
{
    let a = video_command(src, dest, height, compress, probe).args;
    let s = scale_args(height, probe).len() as int;
    assert(s == 0 || s == 2);
    if !can_copy_video(height, compress, probe) {
        let e = encode_args(height, compress, probe);
        assert(a[7 + s] == "-c:v"@);
        assert(a[11 + s] == "-crf"@ && a[12 + s] == e[5 + s]);
        if probe.has_audio {
            assert(a[15 + s] == "-c:a"@ && a[16 + s] == "aac"@ && a[17 + s] == "-b:a"@ && a[18 + s] == "192k"@);
        }
    }
}

/// An ffmpeg image command reads `src` (one frame), scales to the maximum
/// width when one is given, and ends with the encoder of the target format
/// and then `dest`: WebP at the requested quality, AVIF as a still picture.
/// ImageMagick's command reads `src`, turns it upright, fits it in a
/// width-by-width box when a maximum width is given, and ends with the
/// quality and `dest`.
pub proof fn image_command_details(
    src: Seq<char>,
    dest: Seq<char>,
    max_width: Option<u32>,
    quality: u8,
    ext: Seq<char>,
)
    ensures
        ({
            let a = image_command(src, dest, max_width, quality, ext, false).args;
            &&& a.len() >= 12
            &&& a[5] == "-i"@ && a[6] == src && a[7] == "-frames:v"@ && a[8] == "1"@
            &&& max_width matches Some(w) ==> a[9] == "-vf"@ && a[10] == "scale='min("@ + decimal(w as nat)
                + ",iw)':-1:flags=lanczos"@
            &&& max_width is None ==> a[9] == "-c:v"@
            &&& ext == "webp"@ ==> a[a.len() - 5] == "-c:v"@ && a[a.len() - 4] == "libwebp"@ && a[a.len() - 3]
                == "-quality"@ && a[a.len() - 2] == decimal(quality as nat)
            &&& ext == "avif"@ ==> a[a.len() - 5] == "-c:v"@ && a[a.len() - 4] == "libaom-av1"@ && a[a.len()
                - 3] == "-still-picture"@ && a[a.len() - 2] == "1"@
        }),
        ({
            let c = image_command(src, dest, max_width, quality, ext, true);
            &&& c.program == "convert"@
            &&& c.args.len() >= 5
            &&& c.args[0] == src && c.args[1] == "-auto-orient"@
            &&& max_width matches Some(w) ==> c.args[2] == "-resize"@ && c.args[3] == decimal(w as nat) + "x"@
                + decimal(w as nat) + ">"@
            &&& max_width is None ==> c.args[2] == "-quality"@
            &&& c.args[c.args.len() - 3] == "-quality"@ && c.args[c.args.len() - 2] == decimal(quality as nat)
            &&& c.args.last() == dest
        }),
{
    reveal_strlit("webp");
    reveal_strlit("avif");
    reveal_strlit("jpg");
    reveal_strlit("jpeg");
    assert("webp"@[0] != "jpg"@[0] && "webp"@[0] != "jpeg"@[0]);
    assert("avif"@[0] != "jpg"@[0] && "avif"@[0] != "jpeg"@[0] && "avif"@[0] != "webp"@[0]);
}

/// Every audio command reads `src`, drops the video first when extracting,
/// normalizes loudness when asked, and writes `dest` last; a format without an
/// encoder is refused with a message that names it.
pub proof fn audio_command_details(
    src: Seq<char>,
    dest: Seq<char>,
    ext: Seq<char>,
    normalize: bool,
    extract: bool,
)
    ensures
        match audio_command(src, dest, ext, normalize, extract) {
            Ok(c) => {
                &&& c.program == "ffmpeg"@
                &&& c.args.len() >= 10
                &&& c.args[5] == "-i"@ && c.args[6] == src && c.args.last() == dest
                &&& extract ==> c.args[7] == "-vn"@
                &&& normalize ==> has_pair(c.args, "-af"@, "loudnorm=I=-16:TP=-1.5:LRA=11"@)
                &&& !extract && !normalize ==> c.args[7] == "-c:a"@
            },
            Err(m) => m == "Unsupported audio format "@ + ext + "."@,
        },
        (ext != "mp3"@ && ext != "wav"@ && ext != "flac"@ && ext != "m4a"@ && ext != "aac"@ && ext
            != "opus"@) ==> audio_command(src, dest, ext, normalize, extract) is Err,
{
    let pre = ffmpeg_base_args() + seq!["-i"@, src] + (if extract {
        seq!["-vn"@]
    } else {
        Seq::empty()
    }) + (if normalize {
        seq!["-af"@, "loudnorm=I=-16:TP=-1.5:LRA=11"@]
    } else {
        Seq::empty()
    });
    if let Some(codec) = audio_codec_args(ext) {
        let a = pre + codec + seq![dest];
        assert(codec.len() >= 2 && codec[0] == "-c:a"@);
        if normalize {
            let i = if extract { 8int } else { 7int };
            assert(a[i] == "-af"@ && a[i + 1] == "loudnorm=I=-16:TP=-1.5:LRA=11"@);
        }
        if !extract && !normalize {
            assert(a[7] == codec[0]);
        }
    }
}

/// Removing metadata of an image with ImageMagick runs exactly
/// `convert src -strip dest`; otherwise ffmpeg copies the streams of `src` to
/// `dest` without the metadata.
pub proof fn strip_command_details(
    src: Seq<char>,
    dest: Seq<char>,
    kind: Option<MediaKind>,
    convert_installed: bool,
)
    ensures
        kind == Some(MediaKind::Image) && convert_installed ==> strip_command(src, dest, kind, convert_installed)
            == command("convert"@, seq![src, "-strip"@, dest]),
        !(kind == Some(MediaKind::Image) && convert_installed) ==> ({
            let c = strip_command(src, dest, kind, convert_installed);
            &&& c.program == "ffmpeg"@
            &&& c.args.len() == 12
            &&& c.args[5] == "-i"@ && c.args[6] == src
            &&& c.args[7] == "-map_metadata"@ && c.args[8] == "-1"@
            &&& c.args[9] == "-c"@ && c.args[10] == "copy"@
            &&& c.args[11] == dest
        }),
{
}

} // verus!
