use appimagetool::error::Error;
use appimagetool::text::{char_is_control, char_is_whitespace};
use appimagetool::util::{check_download, download_step, is_elf, sanitize_filename, DownloadStep};

#[test]
fn test_sanitize_filename_whitespace() {
    assert_eq!(sanitize_filename("hello world"), "hello_world");
}

#[test]
fn test_sanitize_filename_colon() {
    assert_eq!(sanitize_filename("app:name"), "app_name");
}

#[test]
fn test_sanitize_filename_dots_and_dashes() {
    assert_eq!(sanitize_filename("my-app-1.0"), "my-app-1.0");
}

#[test]
fn test_sanitize_filename_trailing_underscores() {
    assert_eq!(sanitize_filename("app***"), "app");
}

#[test]
fn test_sanitize_filename_all_special() {
    assert_eq!(sanitize_filename("<>:\"|?*"), "");
}

#[test]
fn test_sanitize_filename_mixed() {
    assert_eq!(
        sanitize_filename("My App v2.0 (beta)"),
        "My_App_v2.0_(beta)"
    );
}

#[test]
fn test_sanitize_filename_newlines() {
    assert_eq!(sanitize_filename("line1\nline2"), "line1_line2");
}

#[test]
fn test_sanitize_filename_empty() {
    assert_eq!(sanitize_filename(""), "");
}

#[test]
fn test_sanitize_filename_path_separators() {
    // Path traversal must be neutralised on both unix and windows separators.
    assert_eq!(sanitize_filename("../etc/passwd"), ".._etc_passwd");
    assert_eq!(sanitize_filename(r"foo\bar"), "foo_bar");
    assert_eq!(sanitize_filename("a/b/c"), "a_b_c");
}

#[test]
fn test_sanitize_filename_nul_and_control() {
    assert_eq!(sanitize_filename("foo\0bar"), "foo_bar");
    assert_eq!(sanitize_filename("foo\x07bar"), "foo_bar");
}

#[test]
fn sanitize_keeps_leading_and_inner_underscores() {
    assert_eq!(sanitize_filename("__a__b__"), "__a__b");
    assert_eq!(sanitize_filename("a\u{3000}b\u{85}c\u{9f}"), "a_b_c");
    assert_eq!(sanitize_filename("Ärger ünd Öl"), "Ärger_ünd_Öl");
}

#[test]
fn sanitize_is_idempotent_on_examples() {
    for s in ["a b", "x:y/z\\", "__", "ok", "tab\there_", "../../x"] {
        let once = sanitize_filename(s);
        assert_eq!(sanitize_filename(&once), once);
        assert!(!once.contains('/') && !once.contains('\\') && !once.contains('\0'));
        assert!(!once.ends_with('_'));
    }
}

#[test]
fn character_classes_agree_with_std() {
    for code in 0u32..=0x10ffff {
        if let Some(c) = char::from_u32(code) {
            assert_eq!(char_is_whitespace(c), c.is_whitespace(), "whitespace {:x}", code);
            assert_eq!(char_is_control(c), c.is_control(), "control {:x}", code);
        }
    }
}

#[test]
fn elf_magic() {
    assert!(is_elf(b"\x7fELF\x02\x01"));
    assert!(is_elf(b"\x7fELF"));
    assert!(!is_elf(b"\x7fEL"));
    assert!(!is_elf(b"#!/bin/sh"));
    assert!(!is_elf(b""));
}

#[test]
fn download_retries_five_times() {
    assert!(matches!(download_step("u", 0, Ok(())), DownloadStep::Done));
    assert!(matches!(download_step("u", 4, Ok(())), DownloadStep::Done));
    for attempt in 0..4 {
        match download_step("u", attempt, Err("boom".to_string())) {
            DownloadStep::Retry { next_attempt } => assert_eq!(next_attempt, attempt + 1),
            other => panic!("unexpected {:?}", other),
        }
    }
    match download_step("https://x/y", 4, Err("last".to_string())) {
        DownloadStep::GiveUp(Error::DownloadFailed { url, reason }) => {
            assert_eq!(url, "https://x/y");
            assert_eq!(reason, "last");
        }
        other => panic!("unexpected {:?}", other),
    }
}

#[test]
fn downloads_must_be_elf() {
    assert!(check_download("https://e.x/f", true).is_ok());
    match check_download("https://e.x/f", false) {
        Err(Error::DownloadFailed { url, reason }) => {
            assert_eq!(url, "https://e.x/f");
            assert_eq!(reason, "downloaded file is not a valid ELF binary");
        }
        other => panic!("unexpected {:?}", other),
    }
}
