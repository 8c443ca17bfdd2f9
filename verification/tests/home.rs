use std::path::Path;

use shadow_batch::home::display_home_path_in;

fn std_display(path: &str, home: &str) -> String {
    match Path::new(path).strip_prefix(home) {
        Ok(rest) => format!("~/{}", rest.display()),
        Err(_) => path.to_string(),
    }
}

#[test]
fn home_display_agrees_with_std_path() {
    let homes = ["/home/u", "/home/u/", "/", "", "rel", "./rel", "/home/./u", "/home//u"];
    let paths = [
        "/home/u",
        "/home/u/",
        "/home/u/a",
        "/home/u/a/b.png",
        "/home/u//a/./b/",
        "/home/u/./a",
        "/home/u/a/.",
        "/home/user2/a",
        "/home",
        "/etc/passwd",
        "rel/x",
        "./rel/x",
        "rel",
        "",
        ".",
        "./",
        "/",
        "//home/u/a",
        "/home/u/../x",
    ];
    for h in homes {
        for p in paths {
            assert_eq!(
                display_home_path_in(p, Some(h.to_string())),
                std_display(p, h),
                "path {p:?} home {h:?}"
            );
        }
    }
    assert_eq!(display_home_path_in("/home/u/a", None), "/home/u/a");
    assert_eq!(
        display_home_path_in("/home/u/Shadow Batch", Some("/home/u".into())),
        "~/Shadow Batch"
    );
}
