use chrono::{DateTime, Utc};
use share_to_ytdlp::version::{build_time, parse_i64, version, version_text};

#[test]
fn version_names_every_part() {
    assert_eq!(
        version_text("1.2.3", "https://example.com/repo", "main", "abc123", "clean", Some("2024-01-02 03:04:05 UTC")),
        "1.2.3 (repo https://example.com/repo, branch main, rev abc123, worktree clean, built 2024-01-02 03:04:05 UTC)"
    );
}

#[test]
fn version_without_build_time() {
    assert_eq!(
        version_text("0.1.0", "r", "b", "v", "dirty", None),
        "0.1.0 (repo r, branch b, rev v, worktree dirty, built unknown build time)"
    );
}

#[test]
fn decimal_parse_matches_std() {
    for text in [
        "0", "-0", "+0", "42", "-42", "+42", "", "-", "+", " 1", "1 ", "1_000", "0x10", "--1",
        "9223372036854775807", "9223372036854775808", "-9223372036854775808",
        "-9223372036854775809", "00000000000000000000000000012", "123456789012345678901234",
        "\u{0661}", "12a",
    ] {
        assert_eq!(parse_i64(text), text.parse::<i64>().ok(), "{text:?}");
    }
}

#[test]
fn build_time_is_known_only_for_a_representable_timestamp() {
    assert!(build_time(Some("0")).is_some());
    assert!(build_time(Some("1725029869")).is_some());
    assert_eq!(build_time(Some("not a number")), None);
    assert_eq!(build_time(Some("9223372036854775807")), None);
    assert_eq!(build_time(None), None);
}

#[test]
fn version_reads_unknown_build_time() {
    assert_eq!(
        version("1.0.0", "r", "b", "v", "clean", Some("soon")),
        "1.0.0 (repo r, branch b, rev v, worktree clean, built unknown build time)"
    );
    assert_eq!(
        version("1.0.0", "r", "b", "v", "clean", None),
        "1.0.0 (repo r, branch b, rev v, worktree clean, built unknown build time)"
    );
    let known = version("1.0.0", "r", "b", "v", "clean", Some("0"));
    assert!(known.starts_with("1.0.0 (repo r, branch b, rev v, worktree clean, built "));
    assert!(!known.contains("unknown build time"));
    assert!(known.ends_with(')'));
}

#[test]
fn chrono_range_matches_the_stated_bounds() {
    for secs in [
        -8_334_601_228_800_i64,
        -8_334_601_228_799,
        0,
        8_210_266_876_798,
        8_210_266_876_799,
    ] {
        assert!(DateTime::<Utc>::from_timestamp(secs, 0).is_some(), "{secs}");
        assert!(build_time(Some(&secs.to_string())).is_some(), "{secs}");
    }
    for secs in [-8_334_601_228_801_i64, 8_210_266_876_800, i64::MIN, i64::MAX] {
        assert!(DateTime::<Utc>::from_timestamp(secs, 0).is_none(), "{secs}");
        assert!(build_time(Some(&secs.to_string())).is_none(), "{secs}");
    }
}

#[test]
fn rendered_build_time_starts_with_the_year() {
    for secs in ["0", "1725029869", "-8334601228800", "8210266876799", "-62135596800"] {
        let text = build_time(Some(secs)).expect("representable");
        let first = text.chars().next().expect("non-empty");
        assert!(first.is_ascii_digit() || first == '+' || first == '-', "{text}");
    }
}
