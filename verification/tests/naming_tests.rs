use local_upload_agent::naming::{
    build_gcloud_object_name, gcloud_config_dir, gcloud_tracker_dir, gs_uri_of, guess_mime_type,
    lower_case_of, mime_or_default, object_name_of, sanitize_base_url, sanitize_filename, sanitize_name,
    setting_of, split_name,
};
use local_upload_agent::paths::file_name;

#[test]
fn base_url_loses_slashes_at_its_end() {
    assert_eq!(sanitize_base_url("https://a.b/c///"), "https://a.b/c");
    assert_eq!(sanitize_base_url("https://a.b"), "https://a.b");
    assert_eq!(sanitize_base_url("///"), "");
    assert_eq!(sanitize_base_url(" https://a.b/ "), " https://a.b/ ");
}

#[test]
fn file_names_become_object_names() {
    assert_eq!(sanitize_filename(false, "My Video (1).MP4"), "my-video-1.mp4");
    assert_eq!(sanitize_filename(false, "a__b--c.mov"), "a__b--c.mov");
    assert_eq!(sanitize_filename(false, "中文.mp4"), "video.mp4");
    assert_eq!(sanitize_filename(false, "---.webm"), "video.webm");
    assert_eq!(sanitize_filename(false, "noextension"), "noextension.mp4");
    assert_eq!(sanitize_filename(false, ".hidden"), "hidden.mp4");
    assert_eq!(sanitize_filename(false, "dir/sub/Name.Ext.Avi"), "name-ext.avi");
    assert_eq!(sanitize_filename(false, ".."), "video.mp4");
    assert_eq!(sanitize_filename(false, ""), "video.mp4");
    assert_eq!(sanitize_filename(false, "ÀB.mp4"), "b.mp4");
    assert_eq!(sanitize_filename(false, "x.ÀÉ"), "x.àé");
    assert_eq!(sanitize_filename(false, "\u{212a}elvin.mp4"), "kelvin.mp4");
}

const ODD_PATHS: [&str; 28] = [
    "a/.", "a/./", "./.", ".", "/", "", "a//", "/..", "a/..", "a/./b.mov", "x.", "...", "a/...", "C:",
    "C:.", "C:a.mov", "C:.\\x", "1:a.mov", "1:.", "a\\b.mov", "a\\.mov", "a/.mov",
    "C:\\Users\\u\\A b.MOV", "C:/Users/u\\a.mov", "\\a.mov", "a.b\\c", "C:\\", "a\\.",
];

const NETWORK_PATHS: [&str; 10] = [
    "//a.mov", "//server/share/A b.MOV", "\\\\server\\share\\d\\a.mov", "\\\\server\\share",
    "\\\\.\\pipe\\a.mov", "\\\\?\\C:\\a.mov", "//server//a.mov", "///a.mov", "\\/server/share/..", "//",
];

#[test]
fn odd_paths_have_the_file_names_that_std_gives_them() {
    let windows = std::path::MAIN_SEPARATOR == '\\';
    for path in ODD_PATHS.iter().chain(NETWORK_PATHS.iter()) {
        let name = std::path::Path::new(path).file_name().and_then(|name| name.to_str());
        assert_eq!(file_name(path, windows).as_deref(), name, "{path}");
        assert_eq!(sanitize_filename(windows, path), sanitize_name(name), "{path}");
    }
}

#[test]
fn file_names_on_windows() {
    for (path, name) in [
        ("C:\\Users\\u\\A b.MOV", Some("A b.MOV")),
        ("C:/Users/u\\a.mov", Some("a.mov")),
        ("C:a.mov", Some("a.mov")),
        ("1:a.mov", Some("1:a.mov")),
        ("C:", None),
        ("C:.", None),
        ("C:\\", None),
        ("a\\.", Some("a")),
        ("a\\..", None),
        ("\\a.mov", Some("a.mov")),
        ("\\\\server\\share\\a.mov", Some("a.mov")),
        ("\\\\server\\share\\d\\a.mov\\", Some("a.mov")),
        ("//server/share/d/./a.mov/.", Some("a.mov")),
        ("/\\s\\t/u", Some("u")),
    ] {
        assert_eq!(file_name(path, true).as_deref(), name, "{path}");
    }
}

#[test]
fn drive_and_network_paths() {
    for (windows, clean) in [(true, "my-clip.mov"), (false, "c-users-u-my-clip.mov")] {
        assert_eq!(sanitize_filename(windows, "C:\\Users\\u\\My Clip.mov"), clean);
        assert_eq!(
            build_gcloud_object_name(windows, "p", "t", "C:\\Users\\u\\My Clip.mov"),
            format!("p/t/{clean}")
        );
        assert_eq!(guess_mime_type(windows, "C:\\Users\\u\\a.mov"), "video/quicktime");
        assert_eq!(guess_mime_type(windows, "C:\\Users\\u.x\\a.PNG"), "image/png");
        assert_eq!(guess_mime_type(windows, "\\\\server\\share\\u.x\\a.PNG"), "image/png");
        assert_eq!(sanitize_filename(windows, "//server/share/My Clip.mov"), "my-clip.mov");
    }
    assert_eq!(sanitize_filename(true, "\\\\server\\share\\My Clip.mov"), "my-clip.mov");
    assert_eq!(sanitize_filename(false, "//My Clip.mov"), "my-clip.mov");
    assert_eq!(guess_mime_type(true, "\\\\server\\share.png\\a"), "video/mp4");
    assert_eq!(guess_mime_type(false, "\\\\server\\share.png\\a"), "video/mp4");
}

#[test]
fn cleaning_twice_letter_case_and_directories() {
    for windows in [false, true] {
        for name in [
            "My Video (1).MP4", "a__b--c.mov", "中文.mp4", "---.webm", "x", "x.ÀÉ", "ΑΣ.ΑΣ", "x.İ",
            "a.\u{212a}", "..a", "a.",
        ] {
            let clean = sanitize_filename(windows, name);
            assert_eq!(sanitize_filename(windows, &clean), clean);
            assert_eq!(sanitize_filename(windows, &name.to_ascii_uppercase()), clean);
            assert_eq!(sanitize_filename(windows, &name.to_ascii_lowercase()), clean);
            for directory in ["d", "/x/y", "", "C:", "a b/.", "//server/share", "c:/d\\e"] {
                assert_eq!(sanitize_filename(windows, &format!("{directory}/{name}")), clean);
            }
            let object = build_gcloud_object_name(windows, "p", "t", name);
            assert_eq!(build_gcloud_object_name(windows, "p/", "t", name), object);
            assert_eq!(build_gcloud_object_name(windows, "p", "t", &clean), object);
            assert!(object.ends_with(&format!("/t/{clean}")));
            assert_ne!(build_gcloud_object_name(windows, "p", "u", name), object);
        }
    }
}

#[test]
fn clean_names_have_one_dot_and_a_safe_stem() {
    for windows in [false, true] {
        for path in ODD_PATHS.iter().chain(["x.À/É", "a b.İ.ΑΣ", "C:\\É.É\\É.É", "a.-_:"].iter()) {
            let clean = sanitize_filename(windows, path);
            assert_eq!(clean.matches('.').count(), 1, "{path}");
            assert!(!clean.contains('/') && !(windows && clean.contains('\\')), "{path}");
            let (stem, extension) = split_name(&clean);
            assert_eq!(clean, format!("{stem}.{}", extension.unwrap()), "{path}");
            assert!(!stem.is_empty() && !stem.starts_with('-') && !stem.ends_with('-'), "{path}");
            for c in stem.chars() {
                assert!(c.is_ascii_lowercase() || c.is_ascii_digit() || c == '-' || c == '_', "{path}");
            }
        }
    }
}

#[test]
fn lower_case_of_every_character() {
    for code in 0..=0x10FFFFu32 {
        if let Some(c) = char::from_u32(code) {
            for text in [format!("{c}"), format!("aB.{c}"), format!("{c}Zz/")] {
                let lower = lower_case_of(&text);
                assert_eq!(lower, text.to_lowercase());
                assert_eq!(lower_case_of(&lower), lower, "{code:x}");
                assert_eq!(lower_case_of(&text.to_ascii_uppercase()), lower, "{code:x}");
                assert_eq!(lower_case_of(&text.to_ascii_lowercase()), lower, "{code:x}");
                for l in lower.chars() {
                    assert!(!l.is_ascii_uppercase(), "{code:x}");
                    assert!(!l.is_ascii() || l.is_ascii_lowercase() || text.contains(l), "{code:x}");
                }
            }
            for l in c.to_lowercase() {
                assert!(!l.is_ascii_uppercase(), "{code:x}");
            }
        }
    }
}

#[test]
fn clean_stem_is_safe_and_never_empty() {
    for name in ["a b", "-a-", "*", "_", "日本 x 語", "A.B.C", "- - -"] {
        let clean = sanitize_name(Some(name));
        let (stem, _) = split_name(&clean);
        assert!(!stem.is_empty());
        assert!(!stem.starts_with('-') && !stem.ends_with('-'));
        for c in stem.chars() {
            assert!(c.is_ascii_lowercase() || c.is_ascii_digit() || c == '-' || c == '_');
        }
    }
    assert_eq!(sanitize_name(None), "video.mp4");
}

#[test]
fn names_are_split_at_the_last_dot() {
    assert_eq!(split_name("a.b.c"), ("a.b".to_string(), Some("c".to_string())));
    assert_eq!(split_name(".a"), (".a".to_string(), None));
    assert_eq!(split_name(".."), ("..".to_string(), None));
    assert_eq!(split_name("a."), ("a".to_string(), Some(String::new())));
}

#[test]
fn object_names_hold_prefix_task_and_file() {
    assert_eq!(
        build_gcloud_object_name(false, "uploads/x//", "id-1", "A B.mp4"),
        "uploads/x/id-1/a-b.mp4"
    );
    assert_eq!(object_name_of("p", "t", "f.mp4"), "p/t/f.mp4");
    assert_eq!(gs_uri_of("bucket", "p/t/f.mp4"), "gs://bucket/p/t/f.mp4");
}

#[test]
fn media_types_follow_the_extension() {
    assert_eq!(guess_mime_type(false, "/tmp/a.mp4"), "video/mp4");
    assert_eq!(guess_mime_type(false, "/tmp/a.PNG"), "image/png");
    assert_eq!(guess_mime_type(false, "/tmp/a.json"), "application/json");
    assert_eq!(guess_mime_type(false, "/tmp/a"), "video/mp4");
    assert_eq!(guess_mime_type(false, "/tmp/a.nosuchextension"), "video/mp4");
    assert_eq!(mime_or_default(None), "video/mp4");
    assert_eq!(mime_or_default(Some("x/y".to_string())), "x/y");
}

#[test]
fn blank_settings_do_not_count() {
    assert_eq!(setting_of(Some("  a ")), Some("a"));
    assert_eq!(setting_of(Some("  ")), None);
    assert_eq!(setting_of(None), None);
}

#[test]
fn config_directory_follows_the_settings() {
    assert_eq!(gcloud_config_dir(false, Some(" /cfg "), None, Some("/home/u")), "/cfg");
    assert_eq!(gcloud_config_dir(false, None, None, Some("/home/u")), "/home/u/.config/gcloud");
    assert_eq!(
        gcloud_config_dir(false, Some("  "), None, Some(" /home/u/ ")),
        "/home/u/.config/gcloud"
    );
    assert_eq!(
        gcloud_tracker_dir(false, Some(" /tmp/gc "), None, None),
        "/tmp/gc/surface_data/storage/tracker_files"
    );
    assert_eq!(gcloud_config_dir(false, Some(" "), None, None), ".");
    assert_eq!(gcloud_config_dir(true, None, Some(" /ad "), Some("/h")), "/ad/gcloud");
    assert_eq!(gcloud_config_dir(true, None, None, Some("/h")), "/h/AppData/Roaming/gcloud");
    assert_eq!(gcloud_config_dir(false, None, Some("/ad"), None), ".");
    assert_eq!(
        gcloud_tracker_dir(false, Some("/cfg"), None, None),
        "/cfg/surface_data/storage/tracker_files"
    );
}
