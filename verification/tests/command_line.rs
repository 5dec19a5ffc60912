use share_to_ytdlp::command_line::{build_command_line, quote_windows_argument, wide_null};
use share_to_ytdlp::downloader::{launch_downloader, LaunchHost};

fn quoted(argument: &str) -> String {
    let units: Vec<u16> = argument.encode_utf16().collect();
    String::from_utf16(&quote_windows_argument(&units))
        .expect("quoted argument should remain valid UTF-16")
}

#[test]
fn quotes_spaces_quotes_and_trailing_backslashes() {
    assert_eq!(quoted("plain"), "\"plain\"");
    assert_eq!(quoted("hello world"), "\"hello world\"");
    assert_eq!(quoted("a\"b"), "\"a\\\"b\"");
    assert_eq!(quoted("C:\\path\\"), "\"C:\\path\\\\\"");
}

#[test]
fn quotes_backslash_runs_before_quotes() {
    assert_eq!(quoted(""), "\"\"");
    assert_eq!(quoted("a\\\\\"b"), "\"a\\\\\\\\\\\"b\"");
    assert_eq!(quoted("\\\\server\\share"), "\"\\\\server\\share\"");
    assert_eq!(quoted("\""), "\"\\\"\"");
    assert_eq!(quoted("\\"), "\"\\\\\"");
}

/// Splits a command line by the documented Windows rules for arguments.
fn split(line: &[u16]) -> Vec<Vec<u16>> {
    let mut args = Vec::new();
    let mut current = Vec::new();
    let mut started = false;
    let mut in_quotes = false;
    let mut i = 0;
    while i < line.len() {
        let mut backslashes = 0;
        while i < line.len() && line[i] == u16::from(b'\\') {
            backslashes += 1;
            i += 1;
        }
        if i < line.len() && line[i] == u16::from(b'"') {
            current.extend(std::iter::repeat_n(u16::from(b'\\'), backslashes / 2));
            if backslashes % 2 == 1 {
                current.push(u16::from(b'"'));
            } else {
                in_quotes = !in_quotes;
            }
            started = true;
            i += 1;
            continue;
        }
        current.extend(std::iter::repeat_n(u16::from(b'\\'), backslashes));
        if backslashes > 0 {
            started = true;
        }
        if i == line.len() {
            break;
        }
        let unit = line[i];
        if (unit == u16::from(b' ') || unit == u16::from(b'\t')) && !in_quotes {
            if started {
                args.push(std::mem::take(&mut current));
                started = false;
            }
        } else {
            current.push(unit);
            started = true;
        }
        i += 1;
    }
    if started {
        args.push(current);
    }
    args
}

#[test]
fn command_line_splits_back_into_its_arguments() {
    let cases: Vec<Vec<&str>> = vec![
        vec!["C:\\Program Files\\PowerShell\\7\\pwsh.exe", "-File", "C:\\a b\\download.ps1"],
        vec!["a\"b", "", "tab\there", "ends\\", "\\\\\"x\\\""],
        vec!["https://example.com/watch?v=1&list=2"],
        vec!["\u{00e9}\u{1f600}", " leading", "trailing "],
    ];
    for case in cases {
        let args: Vec<Vec<u16>> = case.iter().map(|a| a.encode_utf16().collect()).collect();
        let line = build_command_line(&args);
        assert_eq!(line.last(), Some(&0));
        assert_eq!(split(&line[..line.len() - 1]), args);
    }
}

#[test]
fn command_line_joins_with_single_spaces() {
    let args: Vec<Vec<u16>> = ["a", "b c"].iter().map(|a| a.encode_utf16().collect()).collect();
    let line = build_command_line(&args);
    let text = String::from_utf16(&line[..line.len() - 1]).unwrap();
    assert_eq!(text, "\"a\" \"b c\"");
    assert_eq!(build_command_line(&Vec::new()), vec![0]);
}

#[test]
fn wide_null_appends_a_terminator() {
    assert_eq!(wide_null(&[65, 66]), vec![65, 66, 0]);
    assert_eq!(wide_null(&[]), vec![0]);
}

#[test]
fn launch_command_line_splits_into_the_downloader_arguments() {
    let wide = |text: &str| text.encode_utf16().collect::<Vec<u16>>();
    let host = LaunchHost::Windows {
        download_script: Some(wide("C:\\My \"Apps\"\\download.ps1")),
        powershell: Some(wide("C:\\Program Files\\PowerShell\\7\\pwsh.exe")),
    };
    let command = launch_downloader("\u{feff} https://x.com/a?b=\"c\\\" \n", &host)
        .expect("all parts were found");
    let line = &command.command_line[..command.command_line.len() - 1];
    let expected: Vec<Vec<u16>> = [
        "C:\\Program Files\\PowerShell\\7\\pwsh.exe",
        "-NoLogo",
        "-NoProfile",
        "-ExecutionPolicy",
        "Bypass",
        "-File",
        "C:\\My \"Apps\"\\download.ps1",
        "-Url",
        "https://x.com/a?b=\"c\\\"",
    ]
    .iter()
    .map(|a| wide(a))
    .collect();
    assert_eq!(split(line), expected);
}
