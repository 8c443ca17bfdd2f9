use vstd::prelude::*;
use vstd::string::*;

use crate::paths::{
    answers_consistently, ext_text, stem_text, unique_path, unique_path_result,
    unique_path_result_is_determined,
};
use crate::paths;
use crate::text::{
    decimal, lemma_decimal_injective, lemma_decimal_leading, lemma_decimal_len,
    lemma_zero_pad_injective, lower, lower_string, opt_view, padded_decimal, push_decimal, same_text, skip_leading,
    strip_leading, texts, zero_pad,
};

verus! {

/// How a rename step numbers the files of a batch.
#[derive(Debug, Clone, Copy, PartialEq, Eq, Structural)]
pub enum NumberStyle {
    NoNumbers,
    OneBased,
    ZeroPad3,
}

/// The stem that numbering `style` gives the file at position `index` (from 0).
pub open spec fn numbered_stem(style: NumberStyle, stem: Seq<char>, index: nat) -> Seq<char> {
    match style {
        NumberStyle::NoNumbers => stem,
        NumberStyle::OneBased => stem + seq!['-'] + decimal(index + 1),
        NumberStyle::ZeroPad3 => stem + seq!['-'] + zero_pad(decimal(index + 1), 3),
    }
}

/// The label of a numbering style.
pub open spec fn number_label(style: NumberStyle) -> Seq<char> {
    match style {
        NumberStyle::NoNumbers => "No numbers"@,
        NumberStyle::OneBased => "1, 2, 3…"@,
        NumberStyle::ZeroPad3 => "001, 002, 003…"@,
    }
}

impl NumberStyle {
    /// `stem` numbered for the file at position `index` of the batch.
    pub fn apply(self, stem: &str, index: usize) -> (r: String)
        requires
            self != NumberStyle::NoNumbers ==> index < usize::MAX,
        ensures
            r@ == numbered_stem(self, stem@, index as nat),
    {
        match self {
            NumberStyle::NoNumbers => stem.to_owned(),
            NumberStyle::OneBased => {
                let mut out = stem.to_owned();
                out.append("-");
                push_decimal(&mut out, (index + 1) as u64);
                proof {
                    reveal_strlit("-");
                }
                assert(out@ =~= numbered_stem(self, stem@, index as nat));
                out
            },
            NumberStyle::ZeroPad3 => {
                let mut out = stem.to_owned();
                out.append("-");
                let digits = padded_decimal((index + 1) as u64, 3);
                out.append(digits.as_str());
                proof {
                    reveal_strlit("-");
                }
                assert(out@ =~= numbered_stem(self, stem@, index as nat));
                out
            },
        }
    }

    /// A short description of the style.
    pub fn label(self) -> (r: &'static str)
        ensures
            r@ == number_label(self),
    {
        match self {
            NumberStyle::NoNumbers => "No numbers",
            NumberStyle::OneBased => "1, 2, 3…",
            NumberStyle::ZeroPad3 => "001, 002, 003…",
        }
    }
}

/// One step of a pipeline.
#[derive(Debug, Clone, PartialEq, Eq)]
pub enum Step {
    Rename { prefix: String, suffix: String, numbering: NumberStyle, extension: Option<String> },
    ConvertImage { format: String, max_width: Option<u32>, quality: u8 },
    ConvertVideo { container: String, height: Option<u32>, compress: bool },
    ConvertAudio { format: String, normalize: bool },
    ExtractAudio { format: String },
    RemoveMetadata,
}

/// A step, with its texts as character sequences.
pub enum StepView {
    Rename {
        prefix: Seq<char>,
        suffix: Seq<char>,
        numbering: NumberStyle,
        extension: Option<Seq<char>>,
    },
    ConvertImage { format: Seq<char>, max_width: Option<u32>, quality: u8 },
    ConvertVideo { container: Seq<char>, height: Option<u32>, compress: bool },
    ConvertAudio { format: Seq<char>, normalize: bool },
    ExtractAudio { format: Seq<char> },
    RemoveMetadata,
}

impl View for Step {
    type V = StepView;

    open spec fn view(&self) -> StepView {
        match self {
            Step::Rename { prefix, suffix, numbering, extension } => StepView::Rename {
                prefix: prefix@,
                suffix: suffix@,
                numbering: *numbering,
                extension: opt_view(*extension),
            },
            Step::ConvertImage { format, max_width, quality } => StepView::ConvertImage {
                format: format@,
                max_width: *max_width,
                quality: *quality,
            },
            Step::ConvertVideo { container, height, compress } => StepView::ConvertVideo {
                container: container@,
                height: *height,
                compress: *compress,
            },
            Step::ConvertAudio { format, normalize } => StepView::ConvertAudio {
                format: format@,
                normalize: *normalize,
            },
            Step::ExtractAudio { format } => StepView::ExtractAudio { format: format@ },
            Step::RemoveMetadata => StepView::RemoveMetadata,
        }
    }
}

/// The label of a step, as shown in the step list.
pub open spec fn step_label(s: StepView) -> Seq<char> {
    match s {
        StepView::Rename { prefix, suffix, numbering, extension } => {
            "Rename"@ + (if prefix.len() > 0 {
                " · prefix "@ + prefix
            } else {
                Seq::empty()
            }) + (if suffix.len() > 0 {
                " · suffix "@ + suffix
            } else {
                Seq::empty()
            }) + (if numbering != NumberStyle::NoNumbers {
                " · "@ + number_label(numbering)
            } else {
                Seq::empty()
            }) + (match extension {
                Some(e) => " · ."@ + e,
                None => Seq::empty(),
            })
        },
        StepView::ConvertImage { format, max_width, quality } => match max_width {
            Some(w) => "Images → "@ + format + " (max "@ + decimal(w as nat) + "px, q"@ + decimal(
                quality as nat,
            ) + ")"@,
            None => "Images → "@ + format + " (q"@ + decimal(quality as nat) + ")"@,
        },
        StepView::ConvertVideo { container, height, compress } => "Video → "@ + container + " "@
            + (match height {
            Some(h) => decimal(h as nat) + "p"@,
            None => "original"@,
        }) + (if compress {
            " compressed"@
        } else {
            Seq::empty()
        }),
        StepView::ConvertAudio { format, normalize } => "Audio → "@ + format + (if normalize {
            " normalized"@
        } else {
            Seq::empty()
        }),
        StepView::ExtractAudio { format } => "Extract audio → "@ + format,
        StepView::RemoveMetadata => "Remove metadata"@,
    }
}

impl Step {
    /// A one-line description of the step.
    pub fn label(&self) -> (r: String)
        ensures
            r@ == step_label(self@),
    {
        match self {
            Step::Rename { prefix, suffix, numbering, extension } => {
                let mut out = String::from_str("Rename");
                let ghost o0 = out@;
                if !prefix.as_str().is_empty() {
                    out.append(" · prefix ");
                    out.append(prefix.as_str());
                }
                let ghost o1 = out@;
                assert(o1 =~= o0 + (if prefix@.len() > 0 {
                    " · prefix "@ + prefix@
                } else {
                    Seq::empty()
                }));
                if !suffix.as_str().is_empty() {
                    out.append(" · suffix ");
                    out.append(suffix.as_str());
                }
                let ghost o2 = out@;
                assert(o2 =~= o1 + (if suffix@.len() > 0 {
                    " · suffix "@ + suffix@
                } else {
                    Seq::empty()
                }));
                if *numbering != NumberStyle::NoNumbers {
                    out.append(" · ");
                    out.append(numbering.label());
                }
                let ghost o3 = out@;
                assert(o3 =~= o2 + (if *numbering != NumberStyle::NoNumbers {
                    " · "@ + number_label(*numbering)
                } else {
                    Seq::empty()
                }));
                if let Some(ext) = extension {
                    out.append(" · .");
                    out.append(ext.as_str());
                }
                assert(out@ =~= o3 + (match opt_view(*extension) {
                    Some(e) => " · ."@ + e,
                    None => Seq::empty(),
                }));
                out
            },
            Step::ConvertImage { format, max_width, quality } => {
                let mut out = String::from_str("Images → ");
                out.append(format.as_str());
                match max_width {
                    Some(w) => {
                        out.append(" (max ");
                        push_decimal(&mut out, *w as u64);
                        out.append("px, q");
                        push_decimal(&mut out, *quality as u64);
                        out.append(")");
                    },
                    None => {
                        out.append(" (q");
                        push_decimal(&mut out, *quality as u64);
                        out.append(")");
                    },
                }
                assert(out@ =~= step_label(self@));
                out
            },
            Step::ConvertVideo { container, height, compress } => {
                let mut out = String::from_str("Video → ");
                out.append(container.as_str());
                out.append(" ");
                match height {
                    Some(h) => {
                        push_decimal(&mut out, *h as u64);
                        out.append("p");
                    },
                    None => {
                        out.append("original");
                    },
                }
                if *compress {
                    out.append(" compressed");
                }
                assert(out@ =~= step_label(self@));
                out
            },
            Step::ConvertAudio { format, normalize } => {
                let mut out = String::from_str("Audio → ");
                out.append(format.as_str());
                if *normalize {
                    out.append(" normalized");
                }
                assert(out@ =~= step_label(self@));
                out
            },
            Step::ExtractAudio { format } => {
                let mut out = String::from_str("Extract audio → ");
                out.append(format.as_str());
                out
            },
            Step::RemoveMetadata => String::from_str("Remove metadata"),
        }
    }
}

/// A named, ordered list of steps.
#[derive(Debug, Clone, PartialEq, Eq)]
pub struct Pipeline {
    pub name: String,
    pub steps: Vec<Step>,
}

/// A pipeline, with its texts as character sequences.
pub struct PipelineView {
    pub name: Seq<char>,
    pub steps: Seq<StepView>,
}

impl View for Pipeline {
    type V = PipelineView;

    open spec fn view(&self) -> PipelineView {
        PipelineView { name: self.name@, steps: self.steps@.map_values(|s: Step| s@) }
    }
}

impl Pipeline {
    /// The empty pipeline: no name, no steps.
    pub fn empty() -> (r: Pipeline)
        ensures
            r@.name.len() == 0,
            r@.steps.len() == 0,
    {
        Pipeline { name: String::new(), steps: Vec::new() }
    }
}

/// Where one source file goes.
#[derive(Debug, Clone)]
pub struct Mapping {
    pub source: String,
    pub dest: String,
    pub skipped_reason: Option<String>,
}

// ---------------------------------------------------------------------------
// Naming outputs.
// ---------------------------------------------------------------------------

/// The extension a target format is written with: lower case, "jpeg" as
/// "jpg" and "aac" as "m4a".
pub open spec fn normalized_ext(format: Seq<char>) -> Seq<char> {
    let l = lower(format);
    if l == "jpeg"@ {
        "jpg"@
    } else if l == "aac"@ {
        "m4a"@
    } else {
        l
    }
}

/// The extension names an image format.
pub open spec fn is_image_ext(ext: Seq<char>) -> bool {
    let l = lower(ext);
    ||| l == "png"@
    ||| l == "jpg"@
    ||| l == "jpeg"@
    ||| l == "webp"@
    ||| l == "avif"@
    ||| l == "tif"@
    ||| l == "tiff"@
    ||| l == "gif"@
    ||| l == "bmp"@
}

/// The extension names a video container.
pub open spec fn is_video_ext(ext: Seq<char>) -> bool {
    let l = lower(ext);
    ||| l == "mp4"@
    ||| l == "mkv"@
    ||| l == "webm"@
    ||| l == "mov"@
    ||| l == "avi"@
    ||| l == "m4v"@
}

/// The extension names an audio format.
pub open spec fn is_audio_ext(ext: Seq<char>) -> bool {
    let l = lower(ext);
    ||| l == "mp3"@
    ||| l == "wav"@
    ||| l == "flac"@
    ||| l == "aac"@
    ||| l == "m4a"@
    ||| l == "opus"@
    ||| l == "ogg"@
}

/// What one step does to the (stem, extension) of an output name.
pub open spec fn step_name(
    stem: Seq<char>,
    ext: Seq<char>,
    index: nat,
    s: StepView,
) -> (Seq<char>, Seq<char>) {
    match s {
        StepView::Rename { prefix, suffix, numbering, extension } => (
            prefix + numbered_stem(numbering, stem, index) + suffix,
            match extension {
                Some(e) => if e.len() > 0 {
                    skip_leading(e, '.')
                } else {
                    ext
                },
                None => ext,
            },
        ),
        StepView::ConvertImage { format, .. } => (
            stem,
            if is_image_ext(ext) {
                normalized_ext(format)
            } else {
                ext
            },
        ),
        StepView::ConvertVideo { container, .. } => (
            stem,
            if is_video_ext(ext) {
                normalized_ext(container)
            } else {
                ext
            },
        ),
        StepView::ConvertAudio { format, .. } => (
            stem,
            if is_audio_ext(ext) || is_video_ext(ext) {
                normalized_ext(format)
            } else {
                ext
            },
        ),
        StepView::ExtractAudio { format } => (
            stem,
            if is_audio_ext(ext) || is_video_ext(ext) {
                normalized_ext(format)
            } else {
                ext
            },
        ),
        StepView::RemoveMetadata => (stem, ext),
    }
}

/// The step numbers the files of a batch.
pub open spec fn step_numbers(s: StepView) -> bool {
    s matches StepView::Rename { numbering, .. } && numbering != NumberStyle::NoNumbers
}

/// Some step of the pipeline numbers the files of a batch.
pub open spec fn pipeline_numbers(p: PipelineView) -> bool {
    exists|i: int| 0 <= i < p.steps.len() && #[trigger] step_numbers(p.steps[i])
}

/// The (stem, extension) after the steps `steps`, in order.
pub open spec fn names_after(
    stem: Seq<char>,
    ext: Seq<char>,
    index: nat,
    steps: Seq<StepView>,
) -> (Seq<char>, Seq<char>)
    decreases steps.len(),
{
    if steps.len() == 0 {
        (stem, ext)
    } else {
        let (s, e) = names_after(stem, ext, index, steps.drop_last());
        step_name(s, e, index, steps.last())
    }
}

/// The (stem, extension) the pipeline gives the source at position `index`.
pub open spec fn output_name(source: Seq<char>, index: nat, p: PipelineView) -> (
    Seq<char>,
    Seq<char>,
) {
    names_after(stem_text(source), ext_text(source), index, p.steps)
}

/// The extension to write for a target format.
pub fn normalize_ext(format: &str) -> (r: String)
    ensures
        r@ == normalized_ext(format@),
{
    let l = lower_string(format);
    if same_text(l.as_str(), "jpeg") {
        String::from_str("jpg")
    } else if same_text(l.as_str(), "aac") {
        String::from_str("m4a")
    } else {
        l
    }
}

/// Whether an extension names an image format.
pub fn looks_image(ext: &str) -> (r: bool)
    ensures
        r == is_image_ext(ext@),
{
    let l = lower_string(ext);
    let l = l.as_str();
    same_text(l, "png") || same_text(l, "jpg") || same_text(l, "jpeg") || same_text(l, "webp")
        || same_text(l, "avif") || same_text(l, "tif") || same_text(l, "tiff") || same_text(
        l,
        "gif",
    ) || same_text(l, "bmp")
}

/// Whether an extension names a video container.
pub fn looks_video(ext: &str) -> (r: bool)
    ensures
        r == is_video_ext(ext@),
{
    let l = lower_string(ext);
    let l = l.as_str();
    same_text(l, "mp4") || same_text(l, "mkv") || same_text(l, "webm") || same_text(l, "mov")
        || same_text(l, "avi") || same_text(l, "m4v")
}

/// Whether an extension names an audio format.
pub fn looks_audio(ext: &str) -> (r: bool)
    ensures
        r == is_audio_ext(ext@),
{
    let l = lower_string(ext);
    let l = l.as_str();
    same_text(l, "mp3") || same_text(l, "wav") || same_text(l, "flac") || same_text(l, "aac")
        || same_text(l, "m4a") || same_text(l, "opus") || same_text(l, "ogg")
}

/// What `step` does to the output name (stem, extension).
pub fn apply_to_name(stem: String, ext: String, index: usize, step: &Step) -> (r: (String, String))
    requires
        step_numbers(step@) ==> index < usize::MAX,
    ensures
        (r.0@, r.1@) == step_name(stem@, ext@, index as nat, step@),
{
    match step {
        Step::Rename { prefix, suffix, numbering, extension } => {
            let mut s = prefix.clone();
            let numbered = numbering.apply(stem.as_str(), index);
            s.append(numbered.as_str());
            s.append(suffix.as_str());
            let e = match extension {
                Some(x) => if !x.as_str().is_empty() {
                    strip_leading(x.as_str(), '.')
                } else {
                    ext
                },
                None => ext,
            };
            (s, e)
        },
        Step::ConvertImage { format, .. } => {
            if looks_image(ext.as_str()) {
                (stem, normalize_ext(format.as_str()))
            } else {
                (stem, ext)
            }
        },
        Step::ConvertVideo { container, .. } => {
            if looks_video(ext.as_str()) {
                (stem, normalize_ext(container.as_str()))
            } else {
                (stem, ext)
            }
        },
        Step::ConvertAudio { format, .. } => {
            if looks_audio(ext.as_str()) || looks_video(ext.as_str()) {
                (stem, normalize_ext(format.as_str()))
            } else {
                (stem, ext)
            }
        },
        Step::ExtractAudio { format } => {
            if looks_audio(ext.as_str()) || looks_video(ext.as_str()) {
                (stem, normalize_ext(format.as_str()))
            } else {
                (stem, ext)
            }
        },
        Step::RemoveMetadata => (stem, ext),
    }
}

/// The output (stem, extension) of the source at position `index`.
pub fn name_output(source: &str, index: usize, pipeline: &Pipeline) -> (r: (String, String))
    requires
        pipeline_numbers(pipeline@) ==> index < usize::MAX,
    ensures
        (r.0@, r.1@) == output_name(source@, index as nat, pipeline@),
{
    let mut stem = paths::file_stem(source);
    let mut ext = paths::file_ext(source);
    let n = pipeline.steps.len();
    let ghost steps = pipeline@.steps;
    let mut i: usize = 0;
    while i < n
        invariant
            n == pipeline.steps@.len(),
            steps == pipeline@.steps,
            pipeline_numbers(pipeline@) ==> index < usize::MAX,
            i <= n,
            (stem@, ext@) == names_after(
                stem_text(source@),
                ext_text(source@),
                index as nat,
                steps.take(i as int),
            ),
        decreases n - i,
    {
        assert(step_numbers(steps[i as int]) ==> pipeline_numbers(pipeline@));
        let (s, e) = apply_to_name(stem, ext, index, &pipeline.steps[i]);
        assert(steps.take(i + 1).drop_last() == steps.take(i as int));
        assert(steps.take(i + 1).last() == pipeline.steps@[i as int]@);
        stem = s;
        ext = e;
        i = i + 1;
    }
    assert(steps.take(n as int) == steps);
    (stem, ext)
}

/// Where the source at position `index` goes: a name from the pipeline, in
/// `output_dir`, made unique with `is_taken`.
pub fn map_one<F: Fn(String) -> bool>(
    source: &str,
    index: usize,
    pipeline: &Pipeline,
    output_dir: &str,
    is_taken: &F,
    tag: u32,
) -> (r: Mapping)
    requires
        pipeline_numbers(pipeline@) ==> index < usize::MAX,
        forall|s: String| #[trigger] is_taken.requires((s,)),
    ensures
        r.source@ == source@,
        r.skipped_reason is None,
        unique_path_result(
            *is_taken,
            output_dir@,
            output_name(source@, index as nat, pipeline@).0,
            output_name(source@, index as nat, pipeline@).1,
            tag as nat,
            r.dest@,
        ),
{
    let (stem, ext) = name_output(source, index, pipeline);
    let dest = unique_path(output_dir, stem.as_str(), ext.as_str(), is_taken, tag);
    Mapping { source: source.to_owned(), dest, skipped_reason: None }
}

/// `r` is what a preview of the sources `srcs` may give: one mapping per
/// source, in order, named by the pipeline in `out` and made unique with
/// `is_taken`.
pub open spec fn previews<F: Fn(String) -> bool>(
    is_taken: F,
    srcs: Seq<Seq<char>>,
    p: PipelineView,
    out: Seq<char>,
    tag: nat,
    r: Seq<Mapping>,
) -> bool {
    &&& r.len() == srcs.len()
    &&& forall|i: int|
        0 <= i < r.len() ==> {
            &&& (#[trigger] r[i]).source@ == srcs[i]
            &&& r[i].skipped_reason is None
            &&& unique_path_result(
                is_taken,
                out,
                output_name(srcs[i], i as nat, p).0,
                output_name(srcs[i], i as nat, p).1,
                tag,
                r[i].dest@,
            )
        }
}

/// The destination of each source file, in order, as the pipeline names them.
pub fn preview<F: Fn(String) -> bool>(
    sources: &[String],
    pipeline: &Pipeline,
    output_dir: &str,
    is_taken: &F,
    tag: u32,
) -> (r: Vec<Mapping>)
    requires
        sources@.len() < usize::MAX,
        forall|s: String| #[trigger] is_taken.requires((s,)),
    ensures
        r@.len() == sources@.len(),
        forall|i: int|
            0 <= i < r@.len() ==> {
                &&& (#[trigger] r@[i]).source@ == sources@[i]@
                &&& r@[i].skipped_reason is None
                &&& unique_path_result(
                    *is_taken,
                    output_dir@,
                    output_name(sources@[i]@, i as nat, pipeline@).0,
                    output_name(sources@[i]@, i as nat, pipeline@).1,
                    tag as nat,
                    r@[i].dest@,
                )
            },
        previews(*is_taken, texts(sources@), pipeline@, output_dir@, tag as nat, r@),
{
    let mut out: Vec<Mapping> = Vec::new();
    let n = sources.len();
    let mut i: usize = 0;
    while i < n
        invariant
            n == sources@.len(),
            n < usize::MAX,
            i <= n,
            forall|s: String| #[trigger] is_taken.requires((s,)),
            out@.len() == i,
            forall|k: int|
                0 <= k < i ==> {
                    &&& (#[trigger] out@[k]).source@ == sources@[k]@
                    &&& out@[k].skipped_reason is None
                    &&& unique_path_result(
                        *is_taken,
                        output_dir@,
                        output_name(sources@[k]@, k as nat, pipeline@).0,
                        output_name(sources@[k]@, k as nat, pipeline@).1,
                        tag as nat,
                        out@[k].dest@,
                    )
                },
        decreases n - i,
    {
        let m = map_one(sources[i].as_str(), i, pipeline, output_dir, is_taken, tag);
        out.push(m);
        i = i + 1;
    }
    assert forall|k: int| 0 <= k < n implies #[trigger] texts(sources@)[k] == sources@[k]@ by {}
    out
}

} // verus!

verus! {

/// Previewing the first `k` sources gives the first `k` mappings of a preview
/// of all of them, as long as `is_taken` answers the same about a path each
/// time it is asked (no file comes or goes between the two previews).
pub proof fn preview_prefix<F: Fn(String) -> bool>(
    is_taken: F,
    srcs: Seq<Seq<char>>,
    p: PipelineView,
    out: Seq<char>,
    tag: nat,
    k: nat,
    a: Seq<Mapping>,
    b: Seq<Mapping>,
)
    requires
        k <= srcs.len(),
        answers_consistently(is_taken),
        previews(is_taken, srcs.take(k as int), p, out, tag, a),
        previews(is_taken, srcs, p, out, tag, b),
    ensures
        a.len() == k,
        forall|i: int|
            0 <= i < k ==> (#[trigger] a[i]).source@ == b[i].source@ && a[i].dest@ == b[i].dest@,
{
    assert forall|i: int| 0 <= i < k implies (#[trigger] a[i]).source@ == b[i].source@ && a[i].dest@
        == b[i].dest@ by {
        assert(srcs.take(k as int)[i] == srcs[i]);
        assert(b[i].source@ == srcs[i]);
        unique_path_result_is_determined(
            is_taken,
            out,
            output_name(srcs[i], i as nat, p).0,
            output_name(srcs[i], i as nat, p).1,
            tag,
            a[i].dest@,
            b[i].dest@,
        );
    }
}

/// Numbering tells the files of a batch apart: with any numbering style but
/// `NoNumbers`, two positions never give the same stem the same name.
pub proof fn numbering_distinguishes(style: NumberStyle, stem: Seq<char>, i: nat, j: nat)
    requires
        style != NumberStyle::NoNumbers,
        i != j,
    ensures
        numbered_stem(style, stem, i) != numbered_stem(style, stem, j),
{
    let k = stem.len() + 1;
    let head = stem + seq!['-'];
    if numbered_stem(style, stem, i) == numbered_stem(style, stem, j) {
        match style {
            NumberStyle::OneBased => {
                assert((head + decimal(i + 1)).skip(k as int) =~= decimal(i + 1));
                assert((head + decimal(j + 1)).skip(k as int) =~= decimal(j + 1));
                lemma_decimal_injective(i + 1, j + 1);
            },
            NumberStyle::ZeroPad3 => {
                assert((head + zero_pad(decimal(i + 1), 3)).skip(k as int) =~= zero_pad(
                    decimal(i + 1),
                    3,
                ));
                assert((head + zero_pad(decimal(j + 1), 3)).skip(k as int) =~= zero_pad(
                    decimal(j + 1),
                    3,
                ));
                lemma_decimal_len(i + 1);
                lemma_decimal_len(j + 1);
                lemma_decimal_leading(i + 1);
                lemma_decimal_leading(j + 1);
                lemma_zero_pad_injective(decimal(i + 1), decimal(j + 1), 3);
                lemma_decimal_injective(i + 1, j + 1);
            },
            NumberStyle::NoNumbers => {},
        }
    }
}

} // verus!

verus! {

/// An audio conversion names its output exactly as an audio extraction does,
/// and keeps the stem: a file named as a video (mp4, mkv, webm, mov, avi, m4v)
/// or as audio gets the target format's extension, any other file keeps its
/// own.
pub proof fn audio_steps_name_alike(
    stem: Seq<char>,
    ext: Seq<char>,
    index: nat,
    format: Seq<char>,
    normalize: bool,
)
    ensures
        step_name(stem, ext, index, StepView::ConvertAudio { format, normalize }) == step_name(
            stem,
            ext,
            index,
            StepView::ExtractAudio { format },
        ),
        step_name(stem, ext, index, StepView::ConvertAudio { format, normalize }).0 == stem,
        (ext == "mp4"@ || ext == "mkv"@ || ext == "webm"@ || ext == "mov"@ || ext == "avi"@ || ext
            == "m4v"@) ==> step_name(stem, ext, index, StepView::ConvertAudio { format, normalize }).1
            == normalized_ext(format),
        is_audio_ext(ext) || is_video_ext(ext) ==> step_name(
            stem,
            ext,
            index,
            StepView::ConvertAudio { format, normalize },
        ).1 == normalized_ext(format),
        !is_audio_ext(ext) && !is_video_ext(ext) ==> step_name(
            stem,
            ext,
            index,
            StepView::ConvertAudio { format, normalize },
        ).1 == ext,
{
    reveal_strlit("mp4");
    reveal_strlit("mkv");
    reveal_strlit("webm");
    reveal_strlit("mov");
    reveal_strlit("avi");
    reveal_strlit("m4v");
    assert(lower("mp4"@) =~= "mp4"@);
    assert(lower("mkv"@) =~= "mkv"@);
    assert(lower("webm"@) =~= "webm"@);
    assert(lower("mov"@) =~= "mov"@);
    assert(lower("avi"@) =~= "avi"@);
    assert(lower("m4v"@) =~= "m4v"@);
}

/// A conversion keeps the stem and changes the extension only of the files
/// it converts: an image conversion gives a file named as an image (png, jpg,
/// webp, ...) the target format's extension, a video conversion does so for a
/// file named as a video, and removing metadata changes nothing in the name.
pub proof fn conversions_rename_only_their_media(
    stem: Seq<char>,
    ext: Seq<char>,
    index: nat,
    s: StepView,
)
    ensures
        !(s is Rename) ==> step_name(stem, ext, index, s).0 == stem,
        s matches StepView::ConvertImage { format, .. } ==> step_name(stem, ext, index, s).1 == (
        if is_image_ext(ext) {
            normalized_ext(format)
        } else {
            ext
        }),
        s matches StepView::ConvertVideo { container, .. } ==> step_name(stem, ext, index, s).1 == (
        if is_video_ext(ext) {
            normalized_ext(container)
        } else {
            ext
        }),
        s is RemoveMetadata ==> step_name(stem, ext, index, s) == (stem, ext),
{
}

} // verus!
