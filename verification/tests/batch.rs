use shadow_batch::files::{classify_add, collect_paths, explain_skips, AddResult, PathFacts};
use shadow_batch::media::{classify_media, names_image_format, probe_info, MediaKind, ProbeInfo, StreamFacts};
use shadow_batch::ops::{
    apply_step, cancelled_error, cancelled_report, convert_audio, convert_image, convert_video,
    ffmpeg_base, needs_probe, process_file, step_path, strip_metadata, FileJob, JobAction,
    StepPlan, tool_step, Delivery, ToolEvent, ToolStep,
};
use shadow_batch::pipeline::{Mapping, NumberStyle, Pipeline, Step};
use shadow_batch::presets::{all_presets, builtins, preset_file_name};
use shadow_batch::runner::{BatchAction, BatchRun};
use shadow_batch::settings::{Settings, Theme};
use shadow_batch::validate::{check_output_file, validate_media};
use shadow_batch::Error;

fn facts(path: &str, is_dir: bool, size: Option<u64>) -> PathFacts {
    PathFacts {
        path: path.into(),
        resolved: format!("/abs{path}"),
        is_dir,
        size,
    }
}

fn probe(kind: MediaKind) -> ProbeInfo {
    ProbeInfo {
        kind,
        width: Some(160),
        height: Some(120),
        video_codec: Some("h264".into()),
        audio_codec: Some("aac".into()),
        has_audio: true,
    }
}

#[test]
fn classify_reasons() {
    assert_eq!(
        classify_add(&facts("/d", true, Some(4096))),
        Err("Folders are skipped. Add the files inside them.".to_string())
    );
    assert_eq!(
        classify_add(&facts("/x", false, None)),
        Err("Could not read this file.".to_string())
    );
    assert_eq!(
        classify_add(&facts("/e", false, Some(0))),
        Err("Empty (0-byte) files are skipped.".to_string())
    );
    assert_eq!(classify_add(&facts("/f", false, Some(3))), Ok("/abs/f".to_string()));
}

#[test]
fn skips_dirs_and_empty() {
    let result = collect_paths(vec![facts("/dir", true, Some(0)), facts("/dir/empty.bin", false, Some(0))]);
    assert!(result.added.is_empty());
    assert_eq!(result.skipped.len(), 2);
}

#[test]
fn collect_keeps_order_and_drops_repeats() {
    let result = collect_paths(vec![
        facts("/a", false, Some(1)),
        facts("/b", true, None),
        facts("/a", false, Some(1)),
        facts("/c", false, Some(9)),
    ]);
    assert_eq!(result.added, vec!["/abs/a".to_string(), "/abs/c".to_string()]);
    assert_eq!(
        result.skipped,
        vec![(
            "/b".to_string(),
            "Folders are skipped. Add the files inside them.".to_string()
        )]
    );
}

#[test]
fn explain_nothing_skipped() {
    let r = AddResult {
        added: vec!["/x".into()],
        skipped: vec![],
    };
    assert!(explain_skips(&r).is_none());
}

#[test]
fn explain_lists_first_eight() {
    let skipped: Vec<(String, String)> = (0..9).map(|i| (format!("/p{i}"), "why".to_string())).collect();
    let r = AddResult {
        added: vec![],
        skipped,
    };
    let e = explain_skips(&r).unwrap();
    let mut human = String::from("Some items were not added:\n");
    let mut tech = String::new();
    for i in 0..8 {
        human.push_str(&format!("• /p{i} — why\n"));
        tech.push_str(&format!("/p{i}: why\n"));
    }
    human.push_str("…and 1 more.\n");
    assert_eq!(e.human_message(), human);
    assert_eq!(e.technical_details(), Some(tech));
}

#[test]
fn ffmpeg_and_image_commands() {
    assert_eq!(ffmpeg_base(), vec!["-hide_banner", "-nostdin", "-y", "-loglevel", "error"]);
    let c = convert_image("in.png", "out.jpg", Some(40), 80, "jpg", true);
    assert_eq!(c.program, "convert");
    assert_eq!(
        c.args,
        vec!["in.png", "-auto-orient", "-resize", "40x40>", "-quality", "80", "out.jpg"]
    );
    let f = convert_image("in.png", "out.webp", Some(40), 80, "webp", false);
    assert_eq!(f.program, "ffmpeg");
    assert_eq!(
        f.args,
        vec![
            "-hide_banner", "-nostdin", "-y", "-loglevel", "error", "-i", "in.png", "-frames:v",
            "1", "-vf", "scale='min(40,iw)':-1:flags=lanczos", "-c:v", "libwebp", "-quality",
            "80", "out.webp"
        ]
    );
    let p = convert_image("a", "b", None, 1, "gif", false);
    assert_eq!(&p.args[8..], &["1", "-c:v", "png", "b"]);
    let a = convert_image("a", "b", None, 1, "avif", false);
    assert_eq!(&a.args[9..], &["-c:v", "libaom-av1", "-still-picture", "1", "b"]);
}

#[test]
fn video_commands() {
    let copy = convert_video("a.mp4", "b.mp4", None, false, &probe(MediaKind::Video));
    assert_eq!(&copy.args[5..], &["-i", "a.mp4", "-c", "copy", "-movflags", "+faststart", "b.mp4"]);
    let mut tall = probe(MediaKind::Video);
    tall.height = Some(2160);
    tall.has_audio = false;
    let enc = convert_video("a.mov", "b.mp4", Some(1080), true, &tall);
    assert_eq!(
        &enc.args[5..],
        &[
            "-i", "a.mov", "-vf", "scale=-2:1080:flags=lanczos", "-c:v", "libx264", "-preset",
            "medium", "-crf", "28", "-pix_fmt", "yuv420p", "-an", "-movflags", "+faststart",
            "b.mp4"
        ]
    );
    let short = convert_video("a", "b", Some(1080), false, &probe(MediaKind::Video));
    assert_eq!(
        &short.args[7..],
        &[
            "-c:v", "libx264", "-preset", "medium", "-crf", "23", "-pix_fmt", "yuv420p", "-c:a",
            "aac", "-b:a", "192k", "-movflags", "+faststart", "b"
        ]
    );
}

#[test]
fn audio_commands() {
    let mp3 = convert_audio("a.mp4", "b.mp3", "mp3", true, true).unwrap();
    assert_eq!(
        &mp3.args[5..],
        &[
            "-i", "a.mp4", "-vn", "-af", "loudnorm=I=-16:TP=-1.5:LRA=11", "-c:a", "libmp3lame",
            "-b:a", "192k", "b.mp3"
        ]
    );
    let opus = convert_audio("a", "b", "opus", false, false).unwrap();
    assert_eq!(&opus.args[7..], &["-c:a", "libopus", "-b:a", "128k", "b"]);
    let err = convert_audio("a", "b", "xyz", false, false).unwrap_err();
    assert_eq!(err.human_message(), "Unsupported audio format xyz.");
    assert!(err.technical_details().is_none());
}

#[test]
fn strip_commands() {
    let im = strip_metadata("a.png", "b.png", Some(MediaKind::Image), true);
    assert_eq!(im.program, "convert");
    assert_eq!(im.args, vec!["a.png", "-strip", "b.png"]);
    let ff = strip_metadata("a.png", "b.png", Some(MediaKind::Image), false);
    assert_eq!(ff.program, "ffmpeg");
    assert_eq!(&ff.args[5..], &["-i", "a.png", "-map_metadata", "-1", "-c", "copy", "b.png"]);
}

#[test]
fn steps_skip_other_media() {
    let img = Step::ConvertImage {
        format: "jpeg".into(),
        max_width: None,
        quality: 90,
    };
    assert!(matches!(
        apply_step("a.mp4", "/t/step-0", &img, Some(MediaKind::Video), false, None),
        Ok(StepPlan::Unchanged)
    ));
    match apply_step("a.png", "/t/step-0", &img, None, false, None) {
        Ok(StepPlan::Run { command, output, kind }) => {
            assert_eq!(output, "/t/step-0.jpg");
            assert_eq!(kind, Some(MediaKind::Image));
            assert_eq!(command.program, "ffmpeg");
            assert_eq!(command.args.last().unwrap(), "/t/step-0.jpg");
        }
        _ => panic!("expected a command"),
    }
    let vid = Step::ConvertVideo {
        container: "mp4".into(),
        height: None,
        compress: false,
    };
    assert!(needs_probe(&vid, None));
    assert!(!needs_probe(&vid, Some(MediaKind::Audio)));
    let failed = apply_step(
        "a",
        "/t/step-1",
        &vid,
        None,
        false,
        Some(Err(Error::user("probe failed".into()))),
    );
    assert_eq!(failed.unwrap_err().human_message(), "probe failed");
    let strip = apply_step("/in/a.flac", "/t/step-2", &Step::RemoveMetadata, None, false, None);
    match strip {
        Ok(StepPlan::Run { output, kind, .. }) => {
            assert_eq!(output, "/t/step-2.flac");
            assert_eq!(kind, None);
        }
        _ => panic!("expected a command"),
    }
    assert!(matches!(
        apply_step("a", "h", &Step::ExtractAudio { format: "xyz".into() }, None, false, None),
        Err(_)
    ));
}

#[test]
fn job_runs_steps_in_order() {
    let pipe = Pipeline {
        name: "p".into(),
        steps: vec![
            Step::Rename {
                prefix: "x".into(),
                suffix: String::new(),
                numbering: NumberStyle::NoNumbers,
                extension: None,
            },
            Step::ConvertAudio {
                format: "wav".into(),
                normalize: false,
            },
        ],
    };
    assert_eq!(step_path("/tmp/job", 3), "/tmp/job/step-3");
    let mut job = FileJob::new("/in/a.mp3".into(), "/out/xa.wav".into(), Some(MediaKind::Audio));
    assert!(matches!(job.next_action(&pipe, false, "/tmp/job", None), Ok(JobAction::Skipped)));
    match job.next_action(&pipe, false, "/tmp/job", None) {
        Ok(JobAction::Run { output, kind, command }) => {
            assert_eq!(output, "/tmp/job/step-1.wav");
            assert_eq!(command.args[6], "/in/a.mp3");
            job.record_output(output, kind);
        }
        _ => panic!("expected a command"),
    }
    assert!(!job.output_is_source());
    assert!(matches!(job.next_action(&pipe, false, "/tmp/job", None), Ok(JobAction::Finished)));
    assert_eq!(job.current, "/tmp/job/step-1.wav");
    assert_eq!(job.final_destination(true, &|_p: String| false, 0), "/out/xa.wav");
    let taken = |p: String| p == "/out/xa.wav";
    assert_eq!(job.final_destination(true, &taken, 0), "/out/xa (2).wav");
    assert!(matches!(
        job.delivery("/out/xa.wav"),
        Delivery::Move { from, to } if from == "/tmp/job/step-1.wav" && to == "/out/xa.wav"
    ));
}

#[test]
fn job_stops_when_cancelled() {
    let pipe = Pipeline {
        name: "p".into(),
        steps: vec![Step::RemoveMetadata],
    };
    let mut job = FileJob::new("a".into(), "b".into(), None);
    let err = job.next_action(&pipe, true, "/t", None).unwrap_err();
    assert_eq!(err.human_message(), "Cancelled");
    assert!(job.output_is_source());
}

#[test]
fn replace_mode_writes_over_the_source() {
    let mut job = FileJob::new("/in/a.png".into(), "/out/a.jpg".into(), Some(MediaKind::Image));
    let every_name_taken = |_p: String| true;
    assert_eq!(job.final_destination(false, &every_name_taken, 0), "/in/a.png");
    assert!(matches!(job.delivery("/in/a.png"), Delivery::InPlace));
    assert!(matches!(
        job.delivery("/out/a.jpg"),
        Delivery::Copy { from, to } if from == "/in/a.png" && to == "/out/a.jpg"
    ));
    job.record_output("/tmp/step-0.jpg".into(), None);
    assert_eq!(job.final_destination(false, &every_name_taken, 0), "/in/a.png");
    assert!(matches!(
        job.delivery("/in/a.png"),
        Delivery::Move { from, to } if from == "/tmp/step-0.jpg" && to == "/in/a.png"
    ));
}

fn failure(step: ToolStep) -> (String, Option<String>) {
    match step {
        ToolStep::Finish(Err(e)) => (e.human_message(), e.technical_details()),
        other => panic!("expected a failure, got {other:?}"),
    }
}

#[test]
fn tool_outcomes() {
    assert_eq!(
        failure(tool_step("ffmpeg", false, ToolEvent::NotFound)),
        ("ffmpeg is not installed. Install it to run this pipeline step.".to_string(), None)
    );
    assert_eq!(
        failure(tool_step("convert", true, ToolEvent::SpawnFailed("denied".into()))),
        ("Could not start convert.".to_string(), Some("denied".to_string()))
    );
    assert!(matches!(tool_step("ffmpeg", false, ToolEvent::StillRunning), ToolStep::Wait));
    assert!(matches!(
        tool_step("ffmpeg", false, ToolEvent::Exited { success: true, stderr: String::new() }),
        ToolStep::Finish(Ok(()))
    ));
    assert_eq!(
        failure(tool_step("ffmpeg", false, ToolEvent::Exited { success: false, stderr: "bad input".into() })),
        ("ffmpeg could not finish this file.".to_string(), Some("bad input".to_string()))
    );
    assert_eq!(
        failure(tool_step("ffmpeg", false, ToolEvent::WaitFailed("lost".into()))),
        ("ffmpeg stopped unexpectedly.".to_string(), Some("lost".to_string()))
    );
}

#[test]
fn cancel_wins_over_a_running_tool() {
    for event in [
        ToolEvent::StillRunning,
        ToolEvent::Exited { success: true, stderr: String::new() },
        ToolEvent::Exited { success: false, stderr: "x".into() },
        ToolEvent::WaitFailed("y".into()),
    ] {
        assert!(matches!(tool_step("ffmpeg", true, event), ToolStep::StopCancelled));
    }
    assert_eq!(cancelled_error().human_message(), "Cancelled");
}

#[test]
fn media_kinds_from_streams() {
    assert!(names_image_format("image2"));
    assert!(names_image_format("mov,mp4,m4a,3gp,3g2,mj2,png_pipe"));
    assert!(!names_image_format("mov,mp4,m4a,3gp,3g2,mj2"));
    assert!(!names_image_format("image"));
    assert!(!names_image_format("image2x"));
    assert!(!names_image_format(""));
    assert_eq!(classify_media(true, false, "png_pipe").ok(), Some(MediaKind::Image));
    assert_eq!(classify_media(true, true, "matroska,webm").ok(), Some(MediaKind::Video));
    assert_eq!(classify_media(false, true, "mp3").ok(), Some(MediaKind::Audio));
    assert_eq!(classify_media(false, false, "mp3").unwrap_err().human_message(), "This file has no audio or video.");
}

#[test]
fn reports() {
    let c = cancelled_report("a");
    assert!(!c.ok);
    assert_eq!(c.message, "Cancelled");
    let done = process_file("a", Some(Ok("b".into())));
    assert!(done.ok);
    assert_eq!(done.dest.as_deref(), Some("b"));
    assert_eq!(done.message, "Done");
    let failed = process_file("a", Some(Err(Error::detailed("bad".into(), "trace".into()))));
    assert!(!failed.ok);
    assert_eq!(failed.message, "bad");
    assert_eq!(failed.technical.as_deref(), Some("trace"));
    let cancelled = process_file("a", None);
    assert_eq!(cancelled.message, "Cancelled");
}

fn maps(n: usize) -> Vec<Mapping> {
    (0..n)
        .map(|i| Mapping {
            source: format!("/in/{i}"),
            dest: format!("/out/{i}"),
            skipped_reason: None,
        })
        .collect()
}

#[test]
fn batch_keeps_going_after_a_failure() {
    let mut run = BatchRun::new(maps(3));
    let mut seen = Vec::new();
    loop {
        match run.next(false, false) {
            BatchAction::Process { index, source, .. } => {
                seen.push(index);
                let outcome = if index == 1 {
                    Err(Error::user("broken".into()))
                } else {
                    Ok(format!("/out/{index}"))
                };
                run.record(process_file(&source, Some(outcome)));
            }
            BatchAction::Wait => panic!("not paused"),
            BatchAction::Done => break,
        }
    }
    assert_eq!(seen, vec![0, 1, 2]);
    let report = run.finish();
    assert!(!report.cancelled);
    assert_eq!(report.results.len(), 3);
    assert!(report.results[0].ok);
    assert!(!report.results[1].ok);
    assert!(report.results[2].ok);
}

#[test]
fn batch_cancel_stops() {
    let mut run = BatchRun::new(maps(3));
    match run.next(false, false) {
        BatchAction::Process { source, .. } => run.record(process_file(&source, Some(Ok("x".into())))),
        _ => panic!("expected work"),
    }
    assert_eq!(run.progress(), (1, 3));
    assert!(matches!(run.next(true, false), BatchAction::Done));
    assert!(matches!(run.next(false, false), BatchAction::Done));
    let report = run.finish();
    assert!(report.cancelled);
    assert_eq!(report.results.len(), 2);
    assert_eq!(report.results[1].source, "/in/1");
    assert_eq!(report.results[1].message, "Cancelled");
}

#[test]
fn pause_holds_the_next_file() {
    let mut run = BatchRun::new(maps(2));
    assert!(matches!(run.next(false, true), BatchAction::Wait));
    assert_eq!(run.progress(), (0, 2));
    assert!(matches!(run.next(false, false), BatchAction::Process { index: 0, .. }));
    run.record(process_file("/in/0", Some(Ok("/out/0".into()))));
    assert!(matches!(run.next(true, true), BatchAction::Done));
    let report = run.finish();
    assert!(report.cancelled);
    assert_eq!(report.results.len(), 2);
}

#[test]
fn cancel_stops_batch() {
    let mut run = BatchRun::new(maps(1));
    assert!(matches!(run.next(true, false), BatchAction::Done));
    let report = run.finish();
    assert!(report.cancelled || report.results.iter().any(|r| !r.ok));
    assert_eq!(report.results.len(), 1);
}

#[test]
fn output_checks() {
    assert_eq!(
        check_output_file(false, 10).unwrap_err().human_message(),
        "The output file was not created."
    );
    assert_eq!(
        check_output_file(true, 0).unwrap_err().human_message(),
        "The output file is empty."
    );
    assert!(check_output_file(true, 1).is_ok());
    let e = validate_media(Some(MediaKind::Audio), &probe(MediaKind::Video)).unwrap_err();
    assert_eq!(e.human_message(), "The output file is not the expected media type.");
    assert_eq!(e.technical_details().as_deref(), Some("expected Audio got Video"));
    assert!(validate_media(Some(MediaKind::Image), &probe(MediaKind::Video)).is_ok());
    let mut narrow = probe(MediaKind::Video);
    narrow.width = Some(1);
    assert_eq!(
        validate_media(None, &narrow).unwrap_err().human_message(),
        "The output video has an invalid size."
    );
    let mut silent = probe(MediaKind::Audio);
    silent.has_audio = false;
    assert_eq!(
        validate_media(Some(MediaKind::Audio), &silent).unwrap_err().human_message(),
        "The output audio file has no audio track."
    );
    let mut blank = probe(MediaKind::Image);
    blank.width = None;
    assert_eq!(
        validate_media(Some(MediaKind::Image), &blank).unwrap_err().human_message(),
        "The output image has an invalid size."
    );
}

#[test]
fn presets_in_order() {
    let b = builtins();
    let names: Vec<&str> = b.iter().map(|p| p.name.as_str()).collect();
    assert_eq!(
        names,
        vec![
            "YouTube Images",
            "Website Images",
            "Archive Photos",
            "1080p Video",
            "MP3 Conversion",
            "App Assets"
        ]
    );
    assert_eq!(
        b[0].steps,
        vec![
            Step::ConvertImage {
                format: "jpeg".into(),
                max_width: Some(1920),
                quality: 85
            },
            Step::RemoveMetadata
        ]
    );
    let user = Pipeline {
        name: "Mine".into(),
        steps: vec![],
    };
    let all = all_presets(vec![user.clone()]);
    assert_eq!(all.len(), 7);
    assert_eq!(all[6], user);
    assert_eq!(preset_file_name("My Preset #1"), "my-preset--1.json");
}

#[test]
fn theme_positions_round_trip() {
    for t in [Theme::System, Theme::Light, Theme::Dark] {
        assert_eq!(Theme::from_index(t.index()), t);
    }
    assert_eq!(Theme::from_index(7), Theme::System);
    assert_eq!(Theme::Dark.index(), 2);
    let s = Settings::with_output_dir("/home/u/Downloads/Shadow Batch".into());
    assert!(s.process_copies);
    assert!(s.prefer_hardware);
    assert!(s.preserve_metadata);
    assert_eq!(s.theme, Theme::System);
    assert!(s.last_pipeline.steps.is_empty());
    assert_eq!(s.output_dir, "/home/u/Downloads/Shadow Batch");
}

#[test]
fn explanation_only_when_something_skipped() {
    let all_good = collect_paths(vec![facts("/a", false, Some(1)), facts("/b", false, Some(2))]);
    assert!(explain_skips(&all_good).is_none());
    let one_bad = collect_paths(vec![facts("/a", false, Some(1)), facts("/e", false, Some(0))]);
    let e = explain_skips(&one_bad).unwrap();
    assert_eq!(
        e.human_message(),
        "Some items were not added:\n• /e — Empty (0-byte) files are skipped.\n"
    );
    assert_eq!(
        e.technical_details().as_deref(),
        Some("/e: Empty (0-byte) files are skipped.\n")
    );
}

fn stream(kind: &str, pic: bool, codec: &str, w: Option<u64>, h: Option<u64>) -> StreamFacts {
    StreamFacts {
        codec_type: kind.into(),
        attached_pic: pic,
        codec_name: Some(codec.into()),
        width: w,
        height: h,
    }
}

#[test]
fn probe_info_from_streams() {
    let streams = vec![
        stream("video", true, "mjpeg", Some(600), Some(600)),
        stream("audio", false, "aac", None, None),
        stream("video", false, "h264", Some(1920), Some(5_000_000_000)),
        stream("audio", false, "mp3", None, None),
    ];
    let p = probe_info(&streams, "mov,mp4,m4a").unwrap();
    assert_eq!(p.kind, MediaKind::Video);
    assert_eq!(p.width, Some(1920));
    assert_eq!(p.height, None);
    assert_eq!(p.video_codec.as_deref(), Some("h264"));
    assert_eq!(p.audio_codec.as_deref(), Some("aac"));
    assert!(p.has_audio);
    let cover_only = vec![stream("video", true, "png", Some(10), Some(10))];
    assert_eq!(
        probe_info(&cover_only, "mp3").unwrap_err().human_message(),
        "This file has no audio or video."
    );
    let still = vec![stream("video", false, "png", Some(16), Some(9))];
    let p = probe_info(&still, "png_pipe").unwrap();
    assert_eq!(p.kind, MediaKind::Image);
    assert!(!p.has_audio);
}
