use appimagetool::dwarfs::{
    build_appimage_args, choose_mkdwarfs_source, first_existing, is_fuse_mount, mkdwarfs_url,
    path_candidates, profile_image_args, MkdwarfsSource,
};
use appimagetool::error::{Error, IoKind};
use appimagetool::text::{join_path, replace_str, split_char, split_lines, split_whitespace};
use appimagetool::uruntime::{
    choose_runtime_source, runtime_cache_paths, runtime_url, RuntimeSource,
};

#[test]
fn appimage_arguments() {
    let args = build_appimage_args("AppDir", "rt", "out.AppImage", "zstd:level=22 -S26 -B6", None);
    assert_eq!(
        args,
        vec![
            "--force", "--order=path", "--set-owner", "0", "--set-group", "0", "--no-history",
            "--no-create-timestamp", "--header", "rt", "--input", "AppDir", "-C", "zstd:level=22",
            "-S26", "-B6", "--output", "out.AppImage"
        ]
    );
    let args = build_appimage_args("A", "r", "o", "  ", Some("/p/prof"));
    assert_eq!(
        args,
        vec![
            "--force", "--order=path", "--set-owner", "0", "--set-group", "0", "--no-history",
            "--no-create-timestamp", "--header", "r", "--input", "A", "--categorize=hotness",
            "--hotness-list=/p/prof", "--output", "o"
        ]
    );
}

#[test]
fn profile_arguments() {
    let args = profile_image_args("A", "r", "/tmp/.analyze");
    assert_eq!(&args[12..], &["-C", "zstd:level=5", "-S19", "--output", "/tmp/.analyze"]);
    assert_eq!(args.len(), 17);
}

#[test]
fn download_urls() {
    assert_eq!(
        runtime_url(None, "x86_64"),
        "https://github.com/VHSgunzo/uruntime/releases/latest/download/uruntime-appimage-dwarfs-lite-x86_64"
    );
    assert_eq!(runtime_url(Some("http://h/{arch}/{arch}"), "arm"), "http://h/arm/arm");
    assert_eq!(
        mkdwarfs_url(None, "aarch64"),
        "https://github.com/mhx/dwarfs/releases/download/v0.15.1/dwarfs-universal-0.15.1-Linux-aarch64"
    );
    assert_eq!(mkdwarfs_url(Some("plain"), "aarch64"), "plain");
}

#[test]
fn cache_paths() {
    let (cached, work) = runtime_cache_paths("/tmp", "x86_64");
    assert_eq!(cached, "/tmp/uruntime-x86_64");
    assert_eq!(work, "/tmp/uruntime-x86_64.work");
    let (cached, _) = runtime_cache_paths("/tmp/", "a");
    assert_eq!(cached, "/tmp/uruntime-a");
}

#[test]
fn which_candidates() {
    assert_eq!(
        path_candidates("/usr/bin:/bin:", "mkdwarfs"),
        vec!["/usr/bin/mkdwarfs", "/bin/mkdwarfs", "mkdwarfs"]
    );
    assert_eq!(path_candidates("", "x"), vec!["x"]);
}

#[test]
fn fuse_mounts() {
    assert!(is_fuse_mount(".mount_abc"));
    assert!(!is_fuse_mount("mount_abc"));
    assert!(!is_fuse_mount(".mount"));
}

#[test]
fn text_helpers_match_std() {
    for s in ["", "a", "a\n", "a\r\nb", "\n\n", "x\ry", "a\nb\r", "\r\n"] {
        let ours = split_lines(s);
        let std: Vec<String> = s.lines().map(|l| l.to_string()).collect();
        assert_eq!(ours, std, "{:?}", s);
    }
    for s in ["", " a  b ", "\u{3000}x\ty\n", "one"] {
        let ours = split_whitespace(s);
        let std: Vec<String> = s.split_whitespace().map(|l| l.to_string()).collect();
        assert_eq!(ours, std, "{:?}", s);
    }
    for s in ["", "/", "a/b", "/a/", "a//b"] {
        let ours = split_char(s, '/');
        let std: Vec<String> = s.split('/').map(|l| l.to_string()).collect();
        assert_eq!(ours, std, "{:?}", s);
    }
    for (s, p, r) in [("aaa", "aa", "b"), ("{arch}{arch}", "{arch}", "x"), ("abc", "z", "y")] {
        assert_eq!(replace_str(s, p, r), s.replace(p, r));
    }
    assert_eq!(join_path("a", "b"), "a/b");
    assert_eq!(join_path("a/", "b"), "a/b");
    assert_eq!(join_path("", "b"), "b");
    assert_eq!(join_path("a", "/b"), "/b");
}

#[test]
fn runtime_source_choice() {
    match choose_runtime_source(Some("/opt/rt"), true, true, "/tmp", "x86_64", None) {
        RuntimeSource::Given(p) => assert_eq!(p, "/opt/rt"),
        other => panic!("unexpected {:?}", other),
    }
    // A given runtime that is missing falls back to the cache.
    match choose_runtime_source(Some("/opt/rt"), false, true, "/tmp", "x86_64", None) {
        RuntimeSource::Cached { cached, work } => {
            assert_eq!(cached, "/tmp/uruntime-x86_64");
            assert_eq!(work, "/tmp/uruntime-x86_64.work");
        }
        other => panic!("unexpected {:?}", other),
    }
    match choose_runtime_source(None, false, false, "/tmp", "aarch64", Some("https://e.x/rt-{arch}")) {
        RuntimeSource::Download { url, cached, work } => {
            assert_eq!(url, "https://e.x/rt-aarch64");
            assert_eq!(cached, "/tmp/uruntime-aarch64");
            assert_eq!(work, "/tmp/uruntime-aarch64.work");
        }
        other => panic!("unexpected {:?}", other),
    }
    match choose_runtime_source(None, false, false, "/tmp", "x86_64", None) {
        RuntimeSource::Download { url, .. } => assert_eq!(
            url,
            "https://github.com/VHSgunzo/uruntime/releases/latest/download/uruntime-appimage-dwarfs-lite-x86_64"
        ),
        other => panic!("unexpected {:?}", other),
    }
}

#[test]
fn mkdwarfs_source_choice() {
    match choose_mkdwarfs_source(Some("/usr/bin/mkdwarfs"), true, None, false, "/tmp", "x86_64", None) {
        Ok(MkdwarfsSource::Given(p)) => assert_eq!(p, "/usr/bin/mkdwarfs"),
        other => panic!("unexpected {:?}", other),
    }
    match choose_mkdwarfs_source(Some("/nope"), false, Some("/bin/mkdwarfs".to_string()), true, "/tmp", "x86_64", None) {
        Err(Error::Io { kind, message }) => {
            assert_eq!(kind, IoKind::NotFound);
            assert_eq!(message, "mkdwarfs not found at /nope");
        }
        other => panic!("unexpected {:?}", other),
    }
    match choose_mkdwarfs_source(None, false, Some("/bin/mkdwarfs".to_string()), true, "/tmp", "x86_64", None) {
        Ok(MkdwarfsSource::OnPath(p)) => assert_eq!(p, "/bin/mkdwarfs"),
        other => panic!("unexpected {:?}", other),
    }
    match choose_mkdwarfs_source(None, false, None, true, "/tmp", "x86_64", None) {
        Ok(MkdwarfsSource::Cached(p)) => assert_eq!(p, "/tmp/mkdwarfs"),
        other => panic!("unexpected {:?}", other),
    }
    match choose_mkdwarfs_source(None, false, None, false, "/var/tmp", "aarch64", None) {
        Ok(MkdwarfsSource::Download { url, cached }) => {
            assert_eq!(
                url,
                "https://github.com/mhx/dwarfs/releases/download/v0.15.1/dwarfs-universal-0.15.1-Linux-aarch64"
            );
            assert_eq!(cached, "/var/tmp/mkdwarfs");
        }
        other => panic!("unexpected {:?}", other),
    }
}

#[test]
fn first_existing_candidate() {
    let c = vec!["/a/x".to_string(), "/b/x".to_string(), "/c/x".to_string()];
    assert_eq!(first_existing(c.clone(), &[false, true, true]).as_deref(), Some("/b/x"));
    assert_eq!(first_existing(c.clone(), &[false, false, false]), None);
    assert_eq!(first_existing(c.clone(), &[false]), None);
    assert_eq!(first_existing(Vec::new(), &[true]), None);
}
