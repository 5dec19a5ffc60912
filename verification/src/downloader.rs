//! Deciding how the packaged PowerShell downloader is started for a URL: the
//! program to run and its full command line.
//!
//! Finding the script and PowerShell on disk and creating the process are the
//! caller's part; what was found is handed in as a [`LaunchHost`].

use vstd::prelude::*;

use crate::chars::{encode_utf16, utf16_encode};
use crate::command_line::{
    argument_units, build_command_line, joined_arguments, lemma_command_line_round_trip,
    split_arguments, wide_null,
};
use crate::chars::is_unicode_whitespace;
use crate::url::{
    has_whitespace, is_single_http_url, require_http_url,
    starts_with_ignore_ascii_case, trim, UrlError,
};

verus! {

/// Where the downloader would run, with the parts of it that were found.
pub enum LaunchHost {
    /// A platform without the Windows Share integration.
    Unsupported,
    /// Windows, with the path of `download.ps1` and of a PowerShell
    /// executable in UTF-16 units, each where it was found.
    Windows { download_script: Option<Vec<u16>>, powershell: Option<Vec<u16>> },
}

/// The process to create: the executable and the whole command line, each a
/// NUL-terminated UTF-16 string.
pub struct LaunchCommand {
    pub application_name: Vec<u16>,
    pub command_line: Vec<u16>,
}

/// Why the downloader was not started.
#[derive(Debug, Clone, Copy, PartialEq, Eq, Structural)]
pub enum DownloadError {
    /// The Share integration exists only on Windows.
    UnsupportedPlatform,
    /// The URL was refused.
    InvalidUrl(UrlError),
    /// `download.ps1` was found neither beside the executable nor in the
    /// package directory.
    MissingDownloadScript,
    /// Neither PowerShell 7 nor Windows PowerShell was found.
    MissingPowerShell,
    /// The path of the running executable could not be read.
    ExecutableNotFound,
}

impl DownloadError {
    /// The message that reports this error.
    pub fn message(&self) -> (r: &'static str)
        ensures
            *self == DownloadError::UnsupportedPlatform ==> r@
                == "share-to-ytdlp is supported only on Windows"@,
            *self == DownloadError::InvalidUrl(UrlError::NotHttpUrl) ==> r@
                == "expected one HTTP or HTTPS URL"@,
            *self == DownloadError::MissingDownloadScript ==> r@
                == "download.ps1 is missing beside the executable and from the package directory"@,
            *self == DownloadError::MissingPowerShell ==> r@
                == "neither PowerShell 7 nor Windows PowerShell could be found"@,
            *self == DownloadError::ExecutableNotFound ==> r@
                == "failed to locate the running executable"@,
    {
        match self {
            DownloadError::UnsupportedPlatform => "share-to-ytdlp is supported only on Windows",
            DownloadError::InvalidUrl(e) => e.message(),
            DownloadError::MissingDownloadScript => {
                "download.ps1 is missing beside the executable and from the package directory"
            },
            DownloadError::MissingPowerShell => {
                "neither PowerShell 7 nor Windows PowerShell could be found"
            },
            DownloadError::ExecutableNotFound => "failed to locate the running executable",
        }
    }
}

/// The arguments of the downloader process: PowerShell, its options, the
/// script, and the URL.
pub open spec fn downloader_arguments(
    powershell: Seq<u16>,
    script: Seq<u16>,
    url: Seq<char>,
) -> Seq<Seq<u16>> {
    seq![
        powershell,
        utf16_encode("-NoLogo"@),
        utf16_encode("-NoProfile"@),
        utf16_encode("-ExecutionPolicy"@),
        utf16_encode("Bypass"@),
        utf16_encode("-File"@),
        script,
        utf16_encode("-Url"@),
        utf16_encode(url),
    ]
}

/// A copy of `v`.
fn copy_units(v: &[u16]) -> (r: Vec<u16>)
    ensures
        r@ == v@,
{
    let mut r: Vec<u16> = Vec::new();
    let mut i: usize = 0;
    while i < v.len()
        invariant
            i <= v@.len(),
            r@ == v@.take(i as int),
        decreases v.len() - i,
    {
        r.push(v[i]);
        i = i + 1;
        assert(r@ =~= v@.take(i as int));
    }
    assert(v@.take(i as int) =~= v@);
    r
}

impl View for LaunchCommand {
    type V = (Seq<u16>, Seq<u16>);

    /// The application name and the command line.
    open spec fn view(&self) -> (Seq<u16>, Seq<u16>) {
        (self.application_name@, self.command_line@)
    }
}

/// The outcome of starting the downloader for `url` on `host`: the
/// application name and command line of the process, or why there is none.
pub open spec fn launch_plan(url: Seq<char>, host: LaunchHost) -> Result<
    (Seq<u16>, Seq<u16>),
    DownloadError,
> {
    match host {
        LaunchHost::Unsupported => Err(DownloadError::UnsupportedPlatform),
        LaunchHost::Windows { download_script, powershell } => {
            if !is_single_http_url(trim(url)) {
                Err(DownloadError::InvalidUrl(UrlError::NotHttpUrl))
            } else {
                match (download_script, powershell) {
                    (None, _) => Err(DownloadError::MissingDownloadScript),
                    (Some(_), None) => Err(DownloadError::MissingPowerShell),
                    (Some(script), Some(powershell)) => Ok(
                        (
                            powershell@.push(0u16),
                            joined_arguments(downloader_arguments(powershell@, script@, trim(url)))
                                + seq![0u16],
                        ),
                    ),
                }
            }
        },
    }
}

/// Whether the host can run the downloader at all.
#[derive(Debug, Clone, Copy, PartialEq, Eq, Structural)]
pub enum Platform {
    /// Windows, where the Share integration exists.
    Windows,
    /// Any other platform.
    Other,
}

/// The first step of starting the downloader: on Windows, the URL to
/// download, which is `url` trimmed and accepted as `require_http_url` does;
/// elsewhere [`DownloadError::UnsupportedPlatform`].
pub fn check_download_url(url: &str, platform: Platform) -> (r: Result<String, DownloadError>)
    ensures
        platform == Platform::Other ==> r == Err::<String, DownloadError>(
            DownloadError::UnsupportedPlatform,
        ),
        platform == Platform::Windows ==> {
            &&& r is Ok <==> is_single_http_url(trim(url@))
            &&& r matches Ok(checked) ==> checked@ == trim(url@)
            &&& r matches Err(e) ==> e == DownloadError::InvalidUrl(UrlError::NotHttpUrl)
        },
{
    match platform {
        Platform::Other => Err(DownloadError::UnsupportedPlatform),
        Platform::Windows => match require_http_url(url) {
            Ok(u) => Ok(u),
            Err(e) => Err(DownloadError::InvalidUrl(e)),
        },
    }
}

/// Where `download.ps1` was found.
#[derive(Debug, Clone, Copy, PartialEq, Eq, Structural)]
pub enum ScriptLocation {
    /// In the directory of the running executable.
    BesideExecutable,
    /// In the `package` directory of the source tree.
    PackageDirectory,
}

/// Where the script is taken from: beside the running executable when it is
/// there, else from the package directory.
///
/// `executable_located` is whether the path of the running executable could
/// be read; `beside_executable` whether `download.ps1` is a file in that
/// executable's directory (`None` when the path has no parent); `in_package`
/// whether the package directory's copy is a file.
pub fn choose_download_script(
    executable_located: bool,
    beside_executable: Option<bool>,
    in_package: bool,
) -> (r: Result<ScriptLocation, DownloadError>)
    ensures
        r == if !executable_located {
            Err::<ScriptLocation, DownloadError>(DownloadError::ExecutableNotFound)
        } else if beside_executable == Some(true) {
            Ok(ScriptLocation::BesideExecutable)
        } else if in_package {
            Ok(ScriptLocation::PackageDirectory)
        } else {
            Err(DownloadError::MissingDownloadScript)
        },
{
    if !executable_located {
        return Err(DownloadError::ExecutableNotFound);
    }
    match beside_executable {
        Some(true) => Ok(ScriptLocation::BesideExecutable),
        _ => if in_package {
            Ok(ScriptLocation::PackageDirectory)
        } else {
            Err(DownloadError::MissingDownloadScript)
        },
    }
}

/// Which PowerShell runs the script.
#[derive(Debug, Clone, Copy, PartialEq, Eq, Structural)]
pub enum PowerShellChoice {
    /// `pwsh.exe` in the `PATH` directory of this index.
    OnPath(usize),
    /// `%ProgramFiles%\PowerShell\7\pwsh.exe`.
    ProgramFiles,
    /// `%SystemRoot%\System32\WindowsPowerShell\v1.0\powershell.exe`.
    WindowsPowerShell,
}

/// The PowerShell to use: the first `pwsh.exe` on `PATH`, then PowerShell 7
/// under Program Files, then Windows PowerShell.
///
/// `on_path[i]` is whether `pwsh.exe` is a file in the `i`-th `PATH`
/// directory; `program_files` and `system_root` are whether the candidate
/// under that directory is a file, or `None` when the variable is not set.
pub fn choose_powershell(
    on_path: &Vec<bool>,
    program_files: Option<bool>,
    system_root: Option<bool>,
) -> (r: Result<PowerShellChoice, DownloadError>)
    ensures
        match r {
            Ok(PowerShellChoice::OnPath(i)) => i < on_path.len() && on_path@[i as int] && forall|
                j: int,
            |
                0 <= j < i ==> !on_path@[j],
            Ok(PowerShellChoice::ProgramFiles) => (forall|j: int|
                0 <= j < on_path.len() ==> !on_path@[j]) && program_files == Some(true),
            Ok(PowerShellChoice::WindowsPowerShell) => (forall|j: int|
                0 <= j < on_path.len() ==> !on_path@[j]) && program_files != Some(true)
                && system_root == Some(true),
            Err(e) => e == DownloadError::MissingPowerShell && (forall|j: int|
                0 <= j < on_path.len() ==> !on_path@[j]) && program_files != Some(true)
                && system_root != Some(true),
        },
{
    let mut i: usize = 0;
    while i < on_path.len()
        invariant
            i <= on_path.len(),
            forall|j: int| 0 <= j < i ==> !on_path@[j],
        decreases on_path.len() - i,
    {
        if on_path[i] {
            return Ok(PowerShellChoice::OnPath(i));
        }
        i = i + 1;
    }
    if program_files == Some(true) {
        Ok(PowerShellChoice::ProgramFiles)
    } else if system_root == Some(true) {
        Ok(PowerShellChoice::WindowsPowerShell)
    } else {
        Err(DownloadError::MissingPowerShell)
    }
}

/// The process that runs `powershell` on the downloader script `script` for
/// the (already checked) `url`: PowerShell with `-NoLogo -NoProfile
/// -ExecutionPolicy Bypass -File <script> -Url <url>`, every argument quoted.
pub fn downloader_command(url: &str, script: &[u16], powershell: &[u16]) -> (r: LaunchCommand)
    ensures
        r@ == (
            powershell@.push(0u16),
            joined_arguments(downloader_arguments(powershell@, script@, url@)) + seq![0u16],
        ),
{
    let mut arguments: Vec<Vec<u16>> = Vec::new();
    arguments.push(copy_units(powershell));
    arguments.push(encode_utf16("-NoLogo"));
    arguments.push(encode_utf16("-NoProfile"));
    arguments.push(encode_utf16("-ExecutionPolicy"));
    arguments.push(encode_utf16("Bypass"));
    arguments.push(encode_utf16("-File"));
    arguments.push(copy_units(script));
    arguments.push(encode_utf16("-Url"));
    arguments.push(encode_utf16(url));
    assert(argument_units(arguments@) =~= downloader_arguments(powershell@, script@, url@));
    let application_name = wide_null(powershell);
    let command_line = build_command_line(&arguments);
    LaunchCommand { application_name, command_line }
}

/// The command that starts the packaged PowerShell downloader in a new
/// console window for `url`.
///
/// Outside Windows the answer is always [`DownloadError::UnsupportedPlatform`].
/// On Windows the URL is checked first (as `require_http_url` does), then the
/// script and then PowerShell must have been found; the command runs
/// PowerShell with `-NoLogo -NoProfile -ExecutionPolicy Bypass -File <script>
/// -Url <url>`, every argument quoted, with the trimmed URL.
pub fn launch_downloader(url: &str, host: &LaunchHost) -> (r: Result<LaunchCommand, DownloadError>)
    ensures
        match r {
            Ok(command) => launch_plan(url@, *host) == Ok::<_, DownloadError>(command@),
            Err(e) => launch_plan(url@, *host) == Err::<(Seq<u16>, Seq<u16>), _>(e),
        },
{
    match host {
        LaunchHost::Unsupported => Err(DownloadError::UnsupportedPlatform),
        LaunchHost::Windows { download_script, powershell } => {
            let url = match check_download_url(url, Platform::Windows) {
                Ok(u) => u,
                Err(e) => return Err(e),
            };
            let script = match download_script {
                Some(s) => s,
                None => return Err(DownloadError::MissingDownloadScript),
            };
            let powershell = match powershell {
                Some(p) => p,
                None => return Err(DownloadError::MissingPowerShell),
            };
            Ok(downloader_command(url.as_str(), script.as_slice(), powershell.as_slice()))
        },
    }
}

/// The downloader's command line splits, by the Windows rules, back into
/// PowerShell, its options, the script and the URL, and the URL argument is
/// the trimmed URL that was checked, in UTF-16.
pub proof fn lemma_launch_command_arguments(url: Seq<char>, host: LaunchHost)
    ensures
        launch_plan(url, host) matches Ok((application_name, command_line)) ==> {
            &&& split_arguments(command_line.drop_last()) == downloader_arguments(
                application_name.drop_last(),
                host->download_script.unwrap()@,
                trim(url),
            )
            &&& is_single_http_url(trim(url))
            &&& split_arguments(command_line.drop_last()).last() == utf16_encode(trim(url))
        },
{
    if let Ok((application_name, command_line)) = launch_plan(url, host) {
        let script = host->download_script.unwrap()@;
        let powershell = host->powershell.unwrap()@;
        let args = downloader_arguments(powershell, script, trim(url));
        assert(command_line.drop_last() =~= joined_arguments(args));
        assert(application_name.drop_last() =~= powershell);
        lemma_command_line_round_trip(args);
    }
}

/// On Windows, with the script and PowerShell found, the downloader starts
/// exactly for URLs that, once trimmed, begin with `http://` or `https://`
/// (ASCII letters in any case) and hold no white space; plain HTTP is started
/// as well as HTTPS, and the URL handed to PowerShell is the trimmed one.
pub proof fn lemma_launch_accepts_http_and_https(
    url: Seq<char>,
    script: Vec<u16>,
    powershell: Vec<u16>,
)
    ensures
        ({
            let t = trim(url);
            let host = LaunchHost::Windows {
                download_script: Some(script),
                powershell: Some(powershell),
            };
            &&& launch_plan(url, host) is Ok <==> ((starts_with_ignore_ascii_case(
                t,
                seq!['h', 't', 't', 'p', ':', '/', '/'],
            ) || starts_with_ignore_ascii_case(t, seq!['h', 't', 't', 'p', 's', ':', '/', '/']))
                && forall|i: int| 0 <= i < t.len() ==> !is_unicode_whitespace(#[trigger] t[i]))
            &&& launch_plan(url, host) is Ok ==> launch_plan(url, host) == Ok::<_, DownloadError>(
                (
                    powershell@.push(0u16),
                    joined_arguments(downloader_arguments(powershell@, script@, t)) + seq![0u16],
                ),
            )
        }),
{
    let t = trim(url);
    crate::url::lemma_trim_idempotent(url);
    crate::url::lemma_trim_ends(url);
    assert(crate::url::http_scheme() =~= seq!['h', 't', 't', 'p', ':', '/', '/']);
    assert(crate::url::https_scheme() =~= seq!['h', 't', 't', 'p', 's', ':', '/', '/']);
    if forall|i: int| 0 <= i < t.len() ==> !is_unicode_whitespace(#[trigger] t[i]) {
        assert(!has_whitespace(t));
    }
    if has_whitespace(t) {
        let i = choose|i: int| 0 <= i < t.len() && is_unicode_whitespace(#[trigger] t[i]);
        assert(is_unicode_whitespace(t[i]));
    }
}

} // verus!
