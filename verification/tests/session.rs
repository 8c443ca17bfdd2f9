use shadow_batch::ops::{process_file, FileReport};
use shadow_batch::pipeline::{NumberStyle, Pipeline, Step};
use shadow_batch::presets::builtins;
use shadow_batch::runner::BatchReport;
use shadow_batch::session::{
    check_ready, count_results, failure_error, finish_status, move_last_step_up, preset_position,
    remove_last_step, starting_pipeline, step_from_index,
};
use shadow_batch::Error;

fn report(outcomes: Vec<Result<&str, Error>>, cancelled: bool) -> BatchReport {
    let results: Vec<FileReport> = outcomes
        .into_iter()
        .enumerate()
        .map(|(i, o)| process_file(&format!("/in/{i}"), Some(o.map(|s| s.to_string()))))
        .collect();
    BatchReport { results, cancelled }
}

#[test]
fn step_menu_entries() {
    assert!(step_from_index(0).is_none());
    assert!(step_from_index(7).is_none());
    assert_eq!(
        step_from_index(1),
        Some(Step::Rename {
            prefix: String::new(),
            suffix: String::new(),
            numbering: NumberStyle::ZeroPad3,
            extension: None
        })
    );
    assert_eq!(
        step_from_index(2),
        Some(Step::ConvertImage {
            format: "jpeg".into(),
            max_width: Some(1920),
            quality: 85
        })
    );
    assert_eq!(
        step_from_index(4),
        Some(Step::ConvertAudio {
            format: "mp3".into(),
            normalize: false
        })
    );
    assert_eq!(step_from_index(6), Some(Step::RemoveMetadata));
}

#[test]
fn ready_to_run() {
    assert_eq!(
        check_ready(0, 3).unwrap_err().human_message(),
        "Add at least one file before running the pipeline."
    );
    assert_eq!(
        check_ready(2, 0).unwrap_err().human_message(),
        "Add at least one pipeline step, or pick a preset."
    );
    assert!(check_ready(1, 1).is_ok());
}

#[test]
fn finish_summary_and_error() {
    let all_ok = report(vec![Ok("a"), Ok("b")], false);
    assert_eq!(count_results(&all_ok), (2, 0));
    assert_eq!(finish_status(&all_ok), "2 finished, 0 failed");
    assert!(failure_error(&all_ok).is_none());

    let mixed = report(
        vec![
            Ok("a"),
            Err(Error::user("plain".into())),
            Err(Error::detailed("first".into(), "why".into())),
        ],
        true,
    );
    assert_eq!(finish_status(&mixed), "1 finished, 2 failed (cancelled)");
    let e = failure_error(&mixed).unwrap();
    assert_eq!(e.human_message(), "2 file(s) failed. See the report.");
    assert!(e.technical_details().is_none());

    let detailed = report(vec![Err(Error::detailed("bad".into(), "trace".into()))], false);
    let e = failure_error(&detailed).unwrap();
    assert_eq!(e.human_message(), "bad");
    assert_eq!(e.technical_details().as_deref(), Some("trace"));
}

#[test]
fn pipeline_editing() {
    let empty = Pipeline {
        name: String::new(),
        steps: vec![],
    };
    assert_eq!(starting_pipeline(empty), builtins()[0]);
    let mut p = Pipeline {
        name: "p".into(),
        steps: vec![
            Step::RemoveMetadata,
            Step::ExtractAudio {
                format: "mp3".into(),
            },
            Step::ConvertAudio {
                format: "wav".into(),
                normalize: true,
            },
        ],
    };
    assert_eq!(starting_pipeline(p.clone()), p);
    move_last_step_up(&mut p);
    assert_eq!(
        p.steps,
        vec![
            Step::RemoveMetadata,
            Step::ConvertAudio {
                format: "wav".into(),
                normalize: true
            },
            Step::ExtractAudio {
                format: "mp3".into()
            },
        ]
    );
    remove_last_step(&mut p);
    remove_last_step(&mut p);
    assert_eq!(p.steps, vec![Step::RemoveMetadata]);
    move_last_step_up(&mut p);
    assert_eq!(p.steps, vec![Step::RemoveMetadata]);
    remove_last_step(&mut p);
    remove_last_step(&mut p);
    assert!(p.steps.is_empty());
}

#[test]
fn presets_found_by_name() {
    let all = builtins();
    assert_eq!(preset_position(&all, "1080p Video"), Some(3));
    assert_eq!(preset_position(&all, "Nope"), None);
}
