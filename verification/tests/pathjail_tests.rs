use kiri::project::validate_relative_path;

#[test]
fn accepts_ordinary_collected_assets() {
    for ok in [
        "media/screen-001.mp4",
        "telemetry/cursor.jsonl",
        "transcript/original.json",
        "assets/logo.png",
        "cache/proxies/p1.mp4",
        "exports/final.mp4",
        "media\\screen-0001.mp4",
        "a/b/c/d.wav",
    ] {
        assert!(validate_relative_path(ok).is_ok(), "should accept {ok}");
    }
}

#[test]
fn rejects_dotdot_escapes_in_all_forms() {
    for evil in [
        "../secret.txt",
        "..\\secret.txt",
        "a/../../b.mp4",
        "a\\..\\..\\b.mp4",
        "media/../secret.mp4",
        "media/..\\secret.mp4",
        "..",
        "../..",
        "a/b/../../../etc/passwd",
    ] {
        assert!(validate_relative_path(evil).is_err(), "should reject {evil}");
    }
}

#[test]
fn rejects_absolute_and_prefixed_paths() {
    for evil in [
        "/absolute/path.mp4",
        "\\absolute\\path.mp4",
        "C:/evil.mp4",
        "C:\\evil.mp4",
        "C:evil.mp4",
        "\\\\server\\share\\evil.mp4",
        "//server/share/evil.mp4",
        "\\\\?\\C:\\evil.mp4",
        "file:///etc/passwd",
    ] {
        assert!(validate_relative_path(evil).is_err(), "should reject {evil}");
    }
}

#[test]
fn rejects_ads_colons_nul_and_shell_characters() {
    for evil in [
        "media/evil:stream",
        "media/evil.mp4:secret",
        "media/\0evil.mp4",
        "media/a*b.mp4",
        "media/a?b.mp4",
        "media/a<b.mp4",
        "media/a>b.mp4",
        "media/a|b.mp4",
        "media/a\"b.mp4",
    ] {
        assert!(validate_relative_path(evil).is_err(), "should reject {evil:?}");
    }
}

#[test]
fn rejects_dot_segments_device_names_and_trailing_dots() {
    for evil in [
        ".",
        "./evil.mp4",
        "media/./evil.mp4",
        "media/CON",
        "media/con.mp4",
        "media/PRN.txt",
        "media/AUX",
        "media/NUL.mp4",
        "media/COM1",
        "media/com9.txt",
        "media/LPT1.mp4",
        "media/evil.",
        "media/evil ",
        "",
    ] {
        assert!(validate_relative_path(evil).is_err(), "should reject {evil:?}");
    }
}

#[test]
fn backslash_normalization_cannot_smuggle_escapes() {
    assert!(validate_relative_path("media\\..\\..\\secret").is_err());
    assert!(validate_relative_path("..\\..\\secret").is_err());
    let ok = validate_relative_path("media\\sub\\file.mp4").unwrap();
    assert!(ok.contains("media"));
}

#[test]
fn accepted_paths_come_back_with_forward_slashes() {
    assert_eq!(
        validate_relative_path("media\\sub\\file.mp4").unwrap(),
        "media/sub/file.mp4"
    );
    assert_eq!(kiri::pathjail::jailed_path("a/b.wav").unwrap(), "a/b.wav");
    assert!(kiri::pathjail::jailed_path("a/COM1.wav").is_none());
}
