use std::path::Path;

use shadow_batch::pipeline::{
    looks_audio, looks_image, looks_video, map_one, name_output, normalize_ext, preview,
    NumberStyle, Pipeline, Step,
};

fn on_disk(p: String) -> bool {
    Path::new(&p).exists()
}

fn dest_name(dest: &str) -> String {
    Path::new(dest)
        .file_name()
        .unwrap()
        .to_string_lossy()
        .into_owned()
}

#[test]
fn numbering_and_prefix() {
    let dir = "/tmp/out";
    let pipeline = Pipeline {
        name: "t".into(),
        steps: vec![Step::Rename {
            prefix: "img-".into(),
            suffix: String::new(),
            numbering: NumberStyle::ZeroPad3,
            extension: Some("jpg".into()),
        }],
    };
    let maps = preview(
        &[String::from("/in/Holiday Photo.png")],
        &pipeline,
        dir,
        &on_disk,
        0,
    );
    assert!(dest_name(&maps[0].dest).starts_with("img-Holiday Photo-001.jpg"));
}

#[test]
fn preview_rename_number() {
    let out = "/tmp/shadow-batch-preview";
    let pipe = Pipeline {
        name: "n".into(),
        steps: vec![Step::Rename {
            prefix: "web-".into(),
            suffix: String::new(),
            numbering: NumberStyle::OneBased,
            extension: Some("jpg".into()),
        }],
    };
    let maps = preview(
        &[String::from("/a/Photo One.png")],
        &pipe,
        out,
        &on_disk,
        0,
    );
    assert!(dest_name(&maps[0].dest).contains("web-Photo One-1.jpg"));
}

#[test]
fn number_styles_apply() {
    assert_eq!(NumberStyle::NoNumbers.apply("a", 4), "a");
    assert_eq!(NumberStyle::OneBased.apply("a", 4), "a-5");
    assert_eq!(NumberStyle::ZeroPad3.apply("a", 4), "a-005");
    assert_eq!(NumberStyle::ZeroPad3.apply("a", 999), "a-1000");
    assert_eq!(NumberStyle::ZeroPad3.apply("a", 41), "a-042");
    assert_eq!(NumberStyle::NoNumbers.apply("a", usize::MAX), "a");
    assert_eq!(NumberStyle::NoNumbers.label(), "No numbers");
    assert_eq!(NumberStyle::OneBased.label(), "1, 2, 3…");
    assert_eq!(NumberStyle::ZeroPad3.label(), "001, 002, 003…");
}

#[test]
fn step_labels() {
    let rename = Step::Rename {
        prefix: "p".into(),
        suffix: "s".into(),
        numbering: NumberStyle::ZeroPad3,
        extension: Some("jpg".into()),
    };
    assert_eq!(
        rename.label(),
        "Rename · prefix p · suffix s · 001, 002, 003… · .jpg"
    );
    let plain = Step::Rename {
        prefix: String::new(),
        suffix: String::new(),
        numbering: NumberStyle::NoNumbers,
        extension: None,
    };
    assert_eq!(plain.label(), "Rename");
    let img = Step::ConvertImage {
        format: "webp".into(),
        max_width: Some(1600),
        quality: 80,
    };
    assert_eq!(img.label(), "Images → webp (max 1600px, q80)");
    let img2 = Step::ConvertImage {
        format: "png".into(),
        max_width: None,
        quality: 95,
    };
    assert_eq!(img2.label(), "Images → png (q95)");
    let vid = Step::ConvertVideo {
        container: "mp4".into(),
        height: Some(1080),
        compress: true,
    };
    assert_eq!(vid.label(), "Video → mp4 1080p compressed");
    let vid2 = Step::ConvertVideo {
        container: "mkv".into(),
        height: None,
        compress: false,
    };
    assert_eq!(vid2.label(), "Video → mkv original");
    let aud = Step::ConvertAudio {
        format: "mp3".into(),
        normalize: true,
    };
    assert_eq!(aud.label(), "Audio → mp3 normalized");
    let ext = Step::ExtractAudio {
        format: "flac".into(),
    };
    assert_eq!(ext.label(), "Extract audio → flac");
    assert_eq!(Step::RemoveMetadata.label(), "Remove metadata");
}

#[test]
fn extension_rules() {
    assert_eq!(normalize_ext("JPEG"), "jpg");
    assert_eq!(normalize_ext("aac"), "m4a");
    assert_eq!(normalize_ext("WebP"), "webp");
    assert!(looks_image("PNG"));
    assert!(looks_image("tiff"));
    assert!(!looks_image("mp4"));
    assert!(looks_video("MOV"));
    assert!(!looks_video("mp3"));
    assert!(looks_audio("ogg"));
    assert!(!looks_audio("png"));
}

#[test]
fn convert_steps_only_touch_matching_files() {
    let pipe = Pipeline {
        name: "x".into(),
        steps: vec![
            Step::ConvertImage {
                format: "jpeg".into(),
                max_width: None,
                quality: 80,
            },
            Step::ExtractAudio {
                format: "aac".into(),
            },
        ],
    };
    assert_eq!(
        name_output("/x/pic.PNG", 0, &pipe),
        ("pic".to_string(), "jpg".to_string())
    );
    assert_eq!(
        name_output("/x/clip.mkv", 0, &pipe),
        ("clip".to_string(), "m4a".to_string())
    );
    assert_eq!(
        name_output("/x/notes.txt", 0, &pipe),
        ("notes".to_string(), "txt".to_string())
    );
    assert_eq!(
        name_output("/x/noext", 0, &pipe),
        ("noext".to_string(), "".to_string())
    );
}

#[test]
fn rename_extension_loses_leading_dots() {
    let pipe = Pipeline {
        name: "x".into(),
        steps: vec![Step::Rename {
            prefix: String::new(),
            suffix: "-s".into(),
            numbering: NumberStyle::NoNumbers,
            extension: Some("..webp".into()),
        }],
    };
    assert_eq!(
        name_output("a.png", 3, &pipe),
        ("a-s".to_string(), "webp".to_string())
    );
    let keep = Pipeline {
        name: "x".into(),
        steps: vec![Step::Rename {
            prefix: String::new(),
            suffix: String::new(),
            numbering: NumberStyle::NoNumbers,
            extension: Some(String::new()),
        }],
    };
    assert_eq!(
        name_output("a.png", 3, &keep),
        ("a".to_string(), "png".to_string())
    );
}

#[test]
fn preview_avoids_taken_names() {
    let pipe = Pipeline {
        name: "n".into(),
        steps: vec![],
    };
    let taken = |p: String| p == "/out/a.png" || p == "/out/a (2).png";
    let maps = preview(
        &[String::from("/in/a.png"), String::from("/in/b.png")],
        &pipe,
        "/out",
        &taken,
        7,
    );
    assert_eq!(maps.len(), 2);
    assert_eq!(maps[0].source, "/in/a.png");
    assert_eq!(maps[0].dest, "/out/a (3).png");
    assert_eq!(maps[1].dest, "/out/b.png");
    assert!(maps[0].skipped_reason.is_none());
}

#[test]
fn map_one_fallback_after_all_candidates() {
    let pipe = Pipeline {
        name: "n".into(),
        steps: vec![],
    };
    let all_taken = |_p: String| true;
    let m = map_one("/in/a.png", 0, &pipe, "/out/", &all_taken, 42);
    assert_eq!(m.dest, "/out/a-42.png");
}

#[test]
fn numbering_gives_distinct_names() {
    let mut seen = std::collections::HashSet::new();
    for i in 0..1500 {
        assert!(seen.insert(NumberStyle::ZeroPad3.apply("x", i)));
    }
    let mut seen = std::collections::HashSet::new();
    for i in 0..1500 {
        assert!(seen.insert(NumberStyle::OneBased.apply("x", i)));
    }
}

#[test]
fn preview_of_a_prefix_matches_the_full_preview() {
    let pipe = Pipeline {
        name: "n".into(),
        steps: vec![Step::Rename {
            prefix: "p-".into(),
            suffix: String::new(),
            numbering: NumberStyle::OneBased,
            extension: None,
        }],
    };
    let sources: Vec<String> = vec!["/a/x.png".into(), "/a/y.png".into(), "/b/x.png".into()];
    let taken = |p: String| p == "/out/p-x-1.png" || p == "/out/p-y-2.png";
    let full = preview(&sources, &pipe, "/out", &taken, 0);
    let first = preview(&sources[..2], &pipe, "/out", &taken, 0);
    assert_eq!(first.len(), 2);
    for i in 0..2 {
        assert_eq!(first[i].source, full[i].source);
        assert_eq!(first[i].dest, full[i].dest);
    }
    assert_eq!(full[0].dest, "/out/p-x-1 (2).png");
    assert_eq!(full[2].dest, "/out/p-x-3.png");
}
