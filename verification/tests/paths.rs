use std::path::Path;

use shadow_batch::paths::{
    config_dir_in, default_output_dir_in, file_ext, file_name, file_stem, join_path, parent,
    replace_extension, unique_path,
};

const SAMPLES: &[&str] = &[
    "",
    "/",
    ".",
    "..",
    "./",
    "/.",
    "a",
    "a/",
    "a/.",
    "a/./",
    "a/..",
    "./a",
    "/a",
    "//a",
    "a//b",
    "a/./b",
    "/in/Holiday Photo.png",
    "photo.tar.gz",
    ".bashrc",
    "..x",
    "x.",
    "dir.d/file",
    "dir.d/.hidden.txt",
    "/tmp/out/a (2).png/",
    "name with space.MP4",
];

#[test]
fn file_parts_agree_with_std_path() {
    for s in SAMPLES {
        let p = Path::new(s);
        let want_name = p.file_name().map(|n| n.to_string_lossy().into_owned());
        assert_eq!(file_name(s), want_name, "file_name of {s:?}");
        let want_stem = p
            .file_stem()
            .map(|n| n.to_string_lossy().into_owned())
            .unwrap_or_else(|| "file".into());
        assert_eq!(file_stem(s), want_stem, "file_stem of {s:?}");
        let want_ext = p
            .extension()
            .map(|n| n.to_string_lossy().into_owned())
            .unwrap_or_default();
        assert_eq!(file_ext(s), want_ext, "file_ext of {s:?}");
    }
}

#[test]
fn parent_agrees_with_std_path() {
    for s in SAMPLES {
        let want = Path::new(s)
            .parent()
            .map(|n| n.to_string_lossy().into_owned());
        assert_eq!(parent(s), want, "parent of {s:?}");
    }
}

#[test]
fn join_and_extension_agree_with_std_path() {
    for dir in ["", "/", "/tmp", "/tmp/", "rel"] {
        for name in ["a.png", "/abs", "b"] {
            let want = Path::new(dir).join(name).to_string_lossy().into_owned();
            assert_eq!(join_path(dir, name), want, "join {dir:?} {name:?}");
        }
    }
    for s in SAMPLES {
        for ext in ["jpg", ""] {
            let mut buf = std::path::PathBuf::from(s);
            buf.set_extension(ext);
            let want = buf.to_string_lossy().into_owned();
            assert_eq!(replace_extension(s, ext), want, "set_extension {s:?} {ext:?}");
        }
    }
}

#[test]
fn unique_path_numbers_taken_names() {
    let free = |_p: String| false;
    assert_eq!(unique_path("/o", "a", ".png", &free, 1), "/o/a.png");
    assert_eq!(unique_path("/o", "a", "", &free, 1), "/o/a");
    let taken = |p: String| p == "/o/a" || p == "/o/a (2)";
    assert_eq!(unique_path("/o", "a", "", &taken, 1), "/o/a (3)");
    let all = |_p: String| true;
    assert_eq!(unique_path("/o", "a", "", &all, 9), "/o/a-9.");
    assert_eq!(unique_path("/o", "a", "..mp3", &all, 9), "/o/a-9.mp3");
}

#[test]
fn unique_path_asks_in_order() {
    let asked = std::cell::RefCell::new(Vec::new());
    let taken = |p: String| {
        asked.borrow_mut().push(p.clone());
        asked.borrow().len() < 4
    };
    assert_eq!(unique_path("d", "s", "e", &taken, 0), "d/s (4).e");
    assert_eq!(
        *asked.borrow(),
        vec!["d/s.e", "d/s (2).e", "d/s (3).e", "d/s (4).e"]
    );
}

#[test]
fn app_directories() {
    assert_eq!(
        config_dir_in(Some("/home/u/.config".into())).unwrap(),
        "/home/u/.config/shadow-batch-processor"
    );
    let err = config_dir_in(None).unwrap_err();
    assert_eq!(
        err.human_message(),
        "Could not find the user configuration directory (XDG_CONFIG_HOME)."
    );
    assert!(err.technical_details().is_none());
    assert_eq!(
        default_output_dir_in(Some("/home/u/Downloads".into()), None),
        "/home/u/Downloads/Shadow Batch"
    );
    assert_eq!(
        default_output_dir_in(None, Some("/home/u".into())),
        "/home/u/Shadow Batch"
    );
    assert_eq!(default_output_dir_in(None, None), "./Shadow Batch");
}
