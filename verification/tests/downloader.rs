use share_to_ytdlp::cli::{Command, CommandError, DownloadArgs};
use share_to_ytdlp::downloader::{
    check_download_url, choose_download_script, choose_powershell, downloader_command,
    launch_downloader, DownloadError, LaunchHost, Platform, PowerShellChoice, ScriptLocation,
};
use share_to_ytdlp::url::UrlError;

fn wide(text: &str) -> Vec<u16> {
    text.encode_utf16().collect()
}

fn windows_host() -> LaunchHost {
    LaunchHost::Windows {
        download_script: Some(wide("C:\\Apps\\download.ps1")),
        powershell: Some(wide("C:\\Program Files\\PowerShell\\7\\pwsh.exe")),
    }
}

#[test]
fn launch_is_unsupported_outside_windows() {
    assert_eq!(
        launch_downloader("https://x.com/a", &LaunchHost::Unsupported).err(),
        Some(DownloadError::UnsupportedPlatform)
    );
    assert_eq!(
        launch_downloader("not a url", &LaunchHost::Unsupported).err(),
        Some(DownloadError::UnsupportedPlatform)
    );
}

#[test]
fn launch_builds_the_powershell_command_line() {
    let command = launch_downloader("  https://x.com/example/status/123 ", &windows_host())
        .expect("all parts were found");
    let mut application = wide("C:\\Program Files\\PowerShell\\7\\pwsh.exe");
    application.push(0);
    assert_eq!(command.application_name, application);
    let line = String::from_utf16(&command.command_line[..command.command_line.len() - 1]).unwrap();
    assert_eq!(
        line,
        "\"C:\\Program Files\\PowerShell\\7\\pwsh.exe\" \"-NoLogo\" \"-NoProfile\" \
         \"-ExecutionPolicy\" \"Bypass\" \"-File\" \"C:\\Apps\\download.ps1\" \"-Url\" \
         \"https://x.com/example/status/123\""
    );
    assert_eq!(command.command_line.last(), Some(&0));
}

#[test]
fn launch_reports_each_missing_part_in_order() {
    assert_eq!(
        launch_downloader("file:///C:/video.mp4", &LaunchHost::Windows {
            download_script: None,
            powershell: None,
        })
        .err(),
        Some(DownloadError::InvalidUrl(UrlError::NotHttpUrl))
    );
    assert_eq!(
        launch_downloader("https://x.com", &LaunchHost::Windows {
            download_script: None,
            powershell: None,
        })
        .err(),
        Some(DownloadError::MissingDownloadScript)
    );
    assert_eq!(
        launch_downloader("https://x.com", &LaunchHost::Windows {
            download_script: Some(wide("s.ps1")),
            powershell: None,
        })
        .err(),
        Some(DownloadError::MissingPowerShell)
    );
}

#[test]
fn download_error_messages() {
    assert_eq!(
        DownloadError::UnsupportedPlatform.message(),
        "share-to-ytdlp is supported only on Windows"
    );
    assert_eq!(
        DownloadError::InvalidUrl(UrlError::NotHttpUrl).message(),
        "expected one HTTP or HTTPS URL"
    );
    assert_eq!(
        DownloadError::MissingDownloadScript.message(),
        "download.ps1 is missing beside the executable and from the package directory"
    );
    assert_eq!(
        DownloadError::MissingPowerShell.message(),
        "neither PowerShell 7 nor Windows PowerShell could be found"
    );
}

#[test]
fn download_command_runs_unless_cancelled() {
    let command = Command::Download(DownloadArgs {
        url: "https://x.com/a".to_string(),
    });
    assert_eq!(
        command.invoke(true, &windows_host()).err(),
        Some(CommandError::Cancelled)
    );
    assert!(command.invoke(false, &windows_host()).is_ok());
    assert_eq!(
        command.invoke(false, &LaunchHost::Unsupported).err(),
        Some(CommandError::Download(DownloadError::UnsupportedPlatform))
    );
    let args = DownloadArgs {
        url: "no link".to_string(),
    };
    assert_eq!(
        args.invoke(&windows_host()).err(),
        Some(DownloadError::InvalidUrl(UrlError::NotHttpUrl))
    );
}

#[test]
fn powershell_search_order() {
    assert_eq!(
        choose_powershell(&vec![false, true, true], Some(true), Some(true)),
        Ok(PowerShellChoice::OnPath(1))
    );
    assert_eq!(
        choose_powershell(&vec![false], Some(true), Some(true)),
        Ok(PowerShellChoice::ProgramFiles)
    );
    assert_eq!(
        choose_powershell(&vec![], Some(false), Some(true)),
        Ok(PowerShellChoice::WindowsPowerShell)
    );
    assert_eq!(
        choose_powershell(&vec![], None, Some(true)),
        Ok(PowerShellChoice::WindowsPowerShell)
    );
    assert_eq!(
        choose_powershell(&vec![false, false], None, Some(false)),
        Err(DownloadError::MissingPowerShell)
    );
}

#[test]
fn script_search_order() {
    assert_eq!(
        choose_download_script(true, Some(true), true),
        Ok(ScriptLocation::BesideExecutable)
    );
    assert_eq!(
        choose_download_script(true, Some(false), true),
        Ok(ScriptLocation::PackageDirectory)
    );
    assert_eq!(
        choose_download_script(true, None, true),
        Ok(ScriptLocation::PackageDirectory)
    );
    assert_eq!(
        choose_download_script(true, Some(false), false),
        Err(DownloadError::MissingDownloadScript)
    );
    assert_eq!(
        choose_download_script(false, Some(true), true),
        Err(DownloadError::ExecutableNotFound)
    );
    assert_eq!(
        DownloadError::ExecutableNotFound.message(),
        "failed to locate the running executable"
    );
}

#[test]
fn url_is_checked_before_anything_is_looked_up() {
    assert_eq!(
        check_download_url(" https://x.com/a ", Platform::Windows),
        Ok("https://x.com/a".to_string())
    );
    assert_eq!(
        check_download_url("x", Platform::Windows),
        Err(DownloadError::InvalidUrl(UrlError::NotHttpUrl))
    );
    assert_eq!(
        check_download_url("https://x.com/a", Platform::Other),
        Err(DownloadError::UnsupportedPlatform)
    );
    let command = Command::Download(DownloadArgs {
        url: " https://x.com/a".to_string(),
    });
    assert_eq!(
        command.download_url(false, Platform::Windows),
        Ok("https://x.com/a".to_string())
    );
    assert_eq!(
        command.download_url(true, Platform::Windows),
        Err(CommandError::Cancelled)
    );
    assert_eq!(
        command.download_url(false, Platform::Other),
        Err(CommandError::Download(DownloadError::UnsupportedPlatform))
    );
}

#[test]
fn step_command_matches_the_whole_launch() {
    let url = "https://x.com/example/status/123";
    let script = wide("C:\\Apps\\download.ps1");
    let powershell = wide("C:\\Program Files\\PowerShell\\7\\pwsh.exe");
    let steps = downloader_command(url, &script, &powershell);
    let whole = launch_downloader(url, &windows_host()).expect("all parts were found");
    assert_eq!(steps.application_name, whole.application_name);
    assert_eq!(steps.command_line, whole.command_line);
}
