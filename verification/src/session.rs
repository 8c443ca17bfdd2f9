use vstd::prelude::*;
use vstd::string::*;

use crate::error::Error;
use crate::ops::FileReport;
use crate::pipeline::{NumberStyle, Pipeline, Step, StepView};
use crate::presets::{builtin_presets, builtins, views};
use crate::runner::BatchReport;
use crate::text::{decimal, push_decimal, same_text};
use crate::validate::error_view;

verus! {

/// The step that the "add step" menu offers at position `i` (position 0 is
/// the menu's title).
pub open spec fn step_menu(i: u32) -> Option<StepView> {
    if i == 1 {
        Some(
            StepView::Rename {
                prefix: Seq::empty(),
                suffix: Seq::empty(),
                numbering: NumberStyle::ZeroPad3,
                extension: None,
            },
        )
    } else if i == 2 {
        Some(StepView::ConvertImage { format: "jpeg"@, max_width: Some(1920), quality: 85 })
    } else if i == 3 {
        Some(StepView::ConvertVideo { container: "mp4"@, height: Some(1080), compress: false })
    } else if i == 4 {
        Some(StepView::ConvertAudio { format: "mp3"@, normalize: false })
    } else if i == 5 {
        Some(StepView::ExtractAudio { format: "mp3"@ })
    } else if i == 6 {
        Some(StepView::RemoveMetadata)
    } else {
        None
    }
}

/// The step offered at position `i` of the "add step" menu.
pub fn step_from_index(i: u32) -> (r: Option<Step>)
    ensures
        match (r, step_menu(i)) {
            (Some(s), Some(v)) => s@ == v,
            (None, None) => true,
            _ => false,
        },
{
    match i {
        1 => Some(
            Step::Rename {
                prefix: String::new(),
                suffix: String::new(),
                numbering: NumberStyle::ZeroPad3,
                extension: None,
            },
        ),
        2 => Some(
            Step::ConvertImage { format: String::from_str("jpeg"), max_width: Some(1920), quality: 85 },
        ),
        3 => Some(
            Step::ConvertVideo {
                container: String::from_str("mp4"),
                height: Some(1080),
                compress: false,
            },
        ),
        4 => Some(Step::ConvertAudio { format: String::from_str("mp3"), normalize: false }),
        5 => Some(Step::ExtractAudio { format: String::from_str("mp3") }),
        6 => Some(Step::RemoveMetadata),
        _ => None,
    }
}

pub open spec fn no_files_message() -> Seq<char> {
    "Add at least one file before running the pipeline."@
}

pub open spec fn no_steps_message() -> Seq<char> {
    "Add at least one pipeline step, or pick a preset."@
}

/// A run needs at least one file and at least one step.
pub fn check_ready(file_count: usize, step_count: usize) -> (r: Result<(), Error>)
    ensures
        r is Ok <==> file_count > 0 && step_count > 0,
        file_count == 0 ==> (r matches Err(e) && error_view(e) == (
            no_files_message(),
            None::<Seq<char>>,
        )),
        file_count > 0 && step_count == 0 ==> (r matches Err(e) && error_view(e) == (
            no_steps_message(),
            None::<Seq<char>>,
        )),
{
    if file_count == 0 {
        return Err(
            Error::user(String::from_str("Add at least one file before running the pipeline.")),
        );
    }
    if step_count == 0 {
        return Err(
            Error::user(String::from_str("Add at least one pipeline step, or pick a preset.")),
        );
    }
    Ok(())
}

/// How many reports say the file went well.
pub open spec fn ok_count(rs: Seq<FileReport>) -> nat
    decreases rs.len(),
{
    if rs.len() == 0 {
        0
    } else {
        ok_count(rs.drop_last()) + if rs.last().ok {
            1nat
        } else {
            0nat
        }
    }
}

proof fn lemma_ok_count_bound(rs: Seq<FileReport>)
    ensures
        ok_count(rs) <= rs.len(),
    decreases rs.len(),
{
    if rs.len() > 0 {
        lemma_ok_count_bound(rs.drop_last());
    }
}

/// The number of files that went well and the number that failed.
pub fn count_results(report: &BatchReport) -> (r: (usize, usize))
    ensures
        r.0 == ok_count(report.results@),
        r.0 + r.1 == report.results@.len(),
{
    let n = report.results.len();
    let mut ok: usize = 0;
    let mut i: usize = 0;
    while i < n
        invariant
            n == report.results@.len(),
            i <= n,
            ok == ok_count(report.results@.take(i as int)),
            ok <= i,
        decreases n - i,
    {
        assert(report.results@.take(i + 1).drop_last() == report.results@.take(i as int));
        if report.results[i].ok {
            ok = ok + 1;
        }
        i = i + 1;
    }
    assert(report.results@.take(n as int) == report.results@);
    (ok, n - ok)
}

/// The status line after a run: "N finished, M failed", marked when cancelled.
pub open spec fn status_line(ok: nat, failed: nat, cancelled: bool) -> Seq<char> {
    decimal(ok) + " finished, "@ + decimal(failed) + " failed"@ + (if cancelled {
        " (cancelled)"@
    } else {
        Seq::empty()
    })
}

/// The status line shown when a batch is over.
pub fn finish_status(report: &BatchReport) -> (r: String)
    ensures
        r@ == status_line(
            ok_count(report.results@),
            (report.results@.len() - ok_count(report.results@)) as nat,
            report.cancelled,
        ),
{
    let (ok, failed) = count_results(report);
    let mut s = String::new();
    push_decimal(&mut s, ok as u64);
    s.append(" finished, ");
    push_decimal(&mut s, failed as u64);
    s.append(" failed");
    if report.cancelled {
        s.append(" (cancelled)");
    }
    assert(s@ =~= status_line(ok as nat, failed as nat, report.cancelled));
    s
}

/// `e` is the error for the run whose reports are `rs`, and the report at `i`
/// is the first that failed.
pub open spec fn explains_failure(rs: Seq<FileReport>, i: int, e: Error) -> bool {
    &&& 0 <= i < rs.len()
    &&& !rs[i].ok
    &&& forall|j: int| 0 <= j < i ==> (#[trigger] rs[j]).ok
    &&& match rs[i].technical {
        Some(t) => error_view(e) == (rs[i].message@, Some(t@)),
        None => error_view(e) == (
            decimal((rs.len() - ok_count(rs)) as nat) + " file(s) failed. See the report."@,
            None::<Seq<char>>,
        ),
    }
}

/// The error to show after a run with failures: the first failed file's
/// message and details, or, when it has no details, how many files failed.
pub fn failure_error(report: &BatchReport) -> (r: Option<Error>)
    ensures
        r is None <==> forall|i: int| 0 <= i < report.results@.len() ==> (#[trigger] report.results@[i]).ok,
        r matches Some(e) ==> exists|i: int| #[trigger] explains_failure(report.results@, i, e),
{
    let counts = count_results(report);
    let failed = counts.1;
    assert(failed as int == report.results@.len() - ok_count(report.results@));
    let n = report.results.len();
    let mut i: usize = 0;
    while i < n
        invariant
            n == report.results@.len(),
            i <= n,
            failed as int == report.results@.len() - ok_count(report.results@),
            forall|j: int| 0 <= j < i ==> (#[trigger] report.results@[j]).ok,
        decreases n - i,
    {
        if !report.results[i].ok {
            let first = &report.results[i];
            let e = match &first.technical {
                Some(t) => Error::detailed(first.message.clone(), t.clone()),
                None => {
                    let mut m = String::new();
                    push_decimal(&mut m, failed as u64);
                    m.append(" file(s) failed. See the report.");
                    assert(m@ =~= decimal(failed as nat) + " file(s) failed. See the report."@);
                    Error::user(m)
                },
            };
            assert(report.results@[i as int] == *first);
            assert(explains_failure(report.results@, i as int, e));
            return Some(e);
        }
        i = i + 1;
    }
    None
}

} // verus!

verus! {

// ---------------------------------------------------------------------------
// Editing the pipeline in the window.
// ---------------------------------------------------------------------------

/// The pipeline a window starts with: the last one used, or the first
/// built-in preset when the last one has no steps.
pub fn starting_pipeline(last: Pipeline) -> (r: Pipeline)
    ensures
        last@.steps.len() > 0 ==> r@ == last@,
        last@.steps.len() == 0 ==> r@ == builtin_presets()[0],
{
    if last.steps.len() > 0 {
        return last;
    }
    let mut all = builtins();
    assert(builtin_presets().len() == 6);
    assert(views(all@).len() == all@.len());
    assert(all@.len() == 6);
    assert(views(all@)[0] == all@[0]@);
    all.swap_remove(0)
}

/// Moves the last step one place up (nothing happens with fewer than two steps).
pub fn move_last_step_up(p: &mut Pipeline)
    ensures
        final(p)@.name == old(p)@.name,
        old(p)@.steps.len() < 2 ==> final(p)@.steps == old(p)@.steps,
        old(p)@.steps.len() >= 2 ==> {
            let s = old(p)@.steps;
            let n = s.len();
            final(p)@.steps == s.take(n - 2).push(s[n - 1]).push(s[n - 2])
        },
{
    let n = p.steps.len();
    if n >= 2 {
        let last = p.steps.pop().unwrap();
        let before = p.steps.pop().unwrap();
        p.steps.push(last);
        p.steps.push(before);
        proof {
            let s = old(p)@.steps;
            assert(p@.steps =~= s.take(n - 2).push(s[n - 1]).push(s[n - 2]));
        }
    }
}

/// Removes the last step, if there is one.
pub fn remove_last_step(p: &mut Pipeline)
    ensures
        final(p)@.name == old(p)@.name,
        old(p)@.steps.len() == 0 ==> final(p)@.steps == old(p)@.steps,
        old(p)@.steps.len() > 0 ==> final(p)@.steps == old(p)@.steps.drop_last(),
{
    if p.steps.len() > 0 {
        p.steps.pop();
        assert(p@.steps =~= old(p)@.steps.drop_last());
    }
}

/// Position of the first preset called `name`, if any.
pub fn preset_position(presets: &Vec<Pipeline>, name: &str) -> (r: Option<usize>)
    ensures
        match r {
            Some(i) => i < presets@.len() && presets@[i as int].name@ == name@ && forall|j: int|
                0 <= j < i ==> (#[trigger] presets@[j]).name@ != name@,
            None => forall|j: int| 0 <= j < presets@.len() ==> (#[trigger] presets@[j]).name@ != name@,
        },
{
    let mut i: usize = 0;
    while i < presets.len()
        invariant
            i <= presets@.len(),
            forall|j: int| 0 <= j < i ==> (#[trigger] presets@[j]).name@ != name@,
        decreases presets@.len() - i,
    {
        if same_text(presets[i].name.as_str(), name) {
            return Some(i);
        }
        i = i + 1;
    }
    None
}

} // verus!
