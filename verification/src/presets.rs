use vstd::prelude::*;
use vstd::string::*;

use crate::pipeline::{NumberStyle, Pipeline, PipelineView, Step, StepView};
use crate::text::{is_alnum, is_ascii_alnum, lower_char, push_char, to_lower};

verus! {

pub open spec fn preset(name: Seq<char>, steps: Seq<StepView>) -> PipelineView {
    PipelineView { name, steps }
}

/// The presets that ship with the program.
pub open spec fn builtin_presets() -> Seq<PipelineView> {
    seq![
        preset(
            "YouTube Images"@,
            seq![
                StepView::ConvertImage { format: "jpeg"@, max_width: Some(1920), quality: 85 },
                StepView::RemoveMetadata,
            ],
        ),
        preset(
            "Website Images"@,
            seq![StepView::ConvertImage { format: "webp"@, max_width: Some(1600), quality: 80 }],
        ),
        preset(
            "Archive Photos"@,
            seq![
                StepView::Rename {
                    prefix: Seq::empty(),
                    suffix: Seq::empty(),
                    numbering: NumberStyle::ZeroPad3,
                    extension: None,
                },
                StepView::ConvertImage { format: "jpeg"@, max_width: Some(4096), quality: 92 },
            ],
        ),
        preset(
            "1080p Video"@,
            seq![StepView::ConvertVideo { container: "mp4"@, height: Some(1080), compress: false }],
        ),
        preset(
            "MP3 Conversion"@,
            seq![StepView::ConvertAudio { format: "mp3"@, normalize: true }],
        ),
        preset(
            "App Assets"@,
            seq![
                StepView::ConvertImage { format: "png"@, max_width: Some(1024), quality: 95 },
                StepView::RemoveMetadata,
            ],
        ),
    ]
}

pub open spec fn views(v: Seq<Pipeline>) -> Seq<PipelineView> {
    v.map_values(|p: Pipeline| p@)
}

fn image_step(format: &str, max_width: u32, quality: u8) -> (r: Step)
    ensures
        r@ == (StepView::ConvertImage { format: format@, max_width: Some(max_width), quality }),
{
    Step::ConvertImage { format: format.to_owned(), max_width: Some(max_width), quality }
}

fn make_preset(name: &str, steps: Vec<Step>) -> (r: Pipeline)
    ensures
        r@ == preset(name@, steps@.map_values(|s: Step| s@)),
{
    Pipeline { name: name.to_owned(), steps }
}

fn preset_of(k: usize) -> (r: Pipeline)
    requires
        k < 6,
    ensures
        r@ == builtin_presets()[k as int],
{
    let mut steps: Vec<Step> = Vec::new();
    if k == 0 {
        steps.push(image_step("jpeg", 1920, 85));
        steps.push(Step::RemoveMetadata);
        let r = make_preset("YouTube Images", steps);
        assert(r@.steps =~= builtin_presets()[0].steps);
        r
    } else if k == 1 {
        steps.push(image_step("webp", 1600, 80));
        let r = make_preset("Website Images", steps);
        assert(r@.steps =~= builtin_presets()[1].steps);
        r
    } else if k == 2 {
        steps.push(
            Step::Rename {
                prefix: String::new(),
                suffix: String::new(),
                numbering: NumberStyle::ZeroPad3,
                extension: None,
            },
        );
        steps.push(image_step("jpeg", 4096, 92));
        let r = make_preset("Archive Photos", steps);
        assert(r@.steps =~= builtin_presets()[2].steps);
        r
    } else if k == 3 {
        steps.push(
            Step::ConvertVideo {
                container: String::from_str("mp4"),
                height: Some(1080),
                compress: false,
            },
        );
        let r = make_preset("1080p Video", steps);
        assert(r@.steps =~= builtin_presets()[3].steps);
        r
    } else if k == 4 {
        steps.push(Step::ConvertAudio { format: String::from_str("mp3"), normalize: true });
        let r = make_preset("MP3 Conversion", steps);
        assert(r@.steps =~= builtin_presets()[4].steps);
        r
    } else {
        steps.push(image_step("png", 1024, 95));
        steps.push(Step::RemoveMetadata);
        let r = make_preset("App Assets", steps);
        assert(r@.steps =~= builtin_presets()[5].steps);
        r
    }
}

/// The presets that ship with the program, in menu order.
pub fn builtins() -> (r: Vec<Pipeline>)
    ensures
        views(r@) == builtin_presets(),
{
    let mut out: Vec<Pipeline> = Vec::new();
    let mut k: usize = 0;
    while k < 6
        invariant
            k <= 6,
            builtin_presets().len() == 6,
            views(out@) == builtin_presets().take(k as int),
        decreases 6 - k,
    {
        let p = preset_of(k);
        let ghost before = out@;
        out.push(p);
        assert(views(out@) =~= views(before).push(p@));
        assert(builtin_presets().take(k + 1) =~= builtin_presets().take(k as int).push(builtin_presets()[k as int]));
        k = k + 1;
        assert(views(out@) =~= builtin_presets().take(k as int));
    }
    assert(builtin_presets().take(6) =~= builtin_presets());
    out
}

/// The built-in presets followed by the user's own.
pub fn all_presets(user: Vec<Pipeline>) -> (r: Vec<Pipeline>)
    ensures
        views(r@) == builtin_presets() + views(user@),
{
    let mut v = builtins();
    let mut rest = user;
    let ghost u = rest@;
    v.append(&mut rest);
    assert(views(v@) =~= builtin_presets() + views(u));
    v
}

/// The character a preset name contributes to its file name: ASCII letters
/// and digits in lower case, anything else as '-'.
pub open spec fn slug_char(c: char) -> char {
    if is_ascii_alnum(c) {
        lower_char(c)
    } else {
        '-'
    }
}

/// The file a user preset is saved to.
pub open spec fn preset_file(name: Seq<char>) -> Seq<char> {
    name.map_values(|c: char| slug_char(c)) + ".json"@
}

/// The file name a user preset is saved under.
pub fn preset_file_name(name: &str) -> (r: String)
    ensures
        r@ == preset_file(name@),
{
    let n = name.unicode_len();
    let mut out = String::new();
    let mut i: usize = 0;
    while i < n
        invariant
            n == name@.len(),
            i <= n,
            out@ == name@.take(i as int).map_values(|c: char| slug_char(c)),
        decreases n - i,
    {
        let c = name.get_char(i);
        let d = if is_alnum(c) {
            to_lower(c)
        } else {
            '-'
        };
        push_char(&mut out, d);
        assert(name@.take(i + 1) == name@.take(i as int).push(c));
        i = i + 1;
        assert(out@ =~= name@.take(i as int).map_values(|c: char| slug_char(c)));
    }
    assert(name@.take(n as int) == name@);
    out.append(".json");
    out
}

} // verus!
