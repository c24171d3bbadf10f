use novelnote::path::{FsPath, Platform};

#[test]
fn paths_are_joined_by_the_separator_of_the_platform() {
    for (base, platform, joined) in [
        ("/a", Platform::Linux, "/a/b"),
        ("/a/", Platform::Linux, "/a/b"),
        ("", Platform::Linux, "b"),
        ("a\\", Platform::Linux, "a\\/b"),
        ("C:\\a", Platform::Windows, "C:\\a\\b"),
        ("C:\\a\\", Platform::Windows, "C:\\a\\b"),
        ("C:/a/", Platform::Windows, "C:/a/b"),
        ("C:", Platform::Windows, "C:b"),
        ("C:", Platform::Linux, "C:/b"),
        ("1:", Platform::Windows, "1:\\b"),
        ("", Platform::Windows, "b"),
        ("\\\\?\\C:\\a", Platform::Windows, "\\\\?\\C:\\a\\b"),
        ("\\\\?\\C:\\a\\", Platform::Windows, "\\\\?\\C:\\a\\b"),
        ("\\\\?\\C:\\a/", Platform::Windows, "\\\\?\\C:\\a/\\b"),
        ("\\\\?\\C:", Platform::Windows, "\\\\?\\C:\\b"),
        ("\\\\?\\C:\\\\a\\\\c\\\\", Platform::Windows, "\\\\?\\C:\\a\\c\\b"),
        ("\\\\?\\C:/a", Platform::Windows, "\\\\?\\C:\\a\\b"),
        ("\\\\?\\C:a\\\\c", Platform::Windows, "\\\\?\\C:a\\c\\b"),
        ("\\\\?\\C:\\.\\a", Platform::Windows, "\\\\?\\C:\\.\\a\\b"),
        ("\\\\?\\pics", Platform::Windows, "\\\\?\\pics\\b"),
        ("\\\\?\\pics\\\\", Platform::Windows, "\\\\?\\pics\\b"),
        ("\\\\?\\UNC\\s\\t\\\\a", Platform::Windows, "\\\\?\\UNC\\s\\t\\a\\b"),
        ("\\\\?\\UNC\\s\\", Platform::Windows, "\\\\?\\UNC\\s\\b"),
        ("\\\\?\\UNC\\s", Platform::Windows, "\\\\?\\UNC\\s\\b"),
        ("C:\\\\a\\\\", Platform::Windows, "C:\\\\a\\\\b"),
        ("//?/C:\\\\a", Platform::Windows, "//?/C:\\\\a\\b"),
        ("\\\\?\\a\\\\b", Platform::Linux, "\\\\?\\a\\\\b/b"),
    ] {
        assert_eq!(FsPath::new(base).join("b", platform).display(platform), joined);
    }
}

#[test]
fn joining_agrees_with_the_standard_library() {
    for base in ["/a", "/a/", "", "a", "/", "a//"] {
        assert_eq!(
            FsPath::new(base).join("b.c", Platform::Linux).display(Platform::Linux),
            std::path::Path::new(base).join("b.c").display().to_string()
        );
    }
}

#[test]
fn prefixes_are_recognized() {
    let path = FsPath::new("abc");
    assert!(path.has_prefix(""));
    assert!(path.has_prefix("ab"));
    assert!(path.has_prefix("abc"));
    assert!(!path.has_prefix("abcd"));
    assert!(!path.has_prefix("b"));
}

#[test]
fn paths_that_are_text_can_be_read() {
    let path = FsPath::new("/büch");
    assert_eq!(path.duplicate().into_text().expect("text"), "/büch");
    assert_eq!(path.display(Platform::Linux), "/büch");
    let path = FsPath { bytes: vec![b'a', 0xff, b'b'] };
    assert_eq!(path.display(Platform::Linux), "a\u{fffd}b");
    assert_eq!(path.into_text().expect_err("no text").bytes, [b'a', 0xff, b'b']);
}

#[test]
fn surrogates_are_shown_as_one_character_on_windows() {
    let path = FsPath { bytes: vec![b'a', 0xed, 0xa0, 0x80, 0xed, 0xbf, 0xbf, b'b'] };
    assert_eq!(path.display(Platform::Windows), "a\u{fffd}\u{fffd}b");
    assert_eq!(
        path.display(Platform::Linux),
        "a\u{fffd}\u{fffd}\u{fffd}\u{fffd}\u{fffd}\u{fffd}b"
    );
    assert!(path.into_text().is_err());
    let path = FsPath::new("\u{d7ff}\u{e000}ü");
    assert_eq!(path.display(Platform::Windows), "\u{d7ff}\u{e000}ü");
}

#[test]
fn windows_is_not_unix() {
    for platform in [
        Platform::Linux,
        Platform::FreeBsd,
        Platform::OpenBsd,
        Platform::MacOs,
        Platform::OtherUnix,
    ] {
        assert!(platform.is_unix());
    }
    assert!(!Platform::Windows.is_unix());
}
