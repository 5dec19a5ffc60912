//! The console commands.

use vstd::prelude::*;

use crate::downloader::{
    check_download_url, launch_downloader, launch_plan, DownloadError, LaunchCommand, LaunchHost,
    Platform,
};
use crate::url::{is_single_http_url, trim, UrlError};

verus! {

/// Open the yt-dlp downloader for a web URL.
pub struct DownloadArgs {
    /// HTTP or HTTPS URL to download.
    pub url: String,
}

/// Available console commands.
pub enum Command {
    /// Open a downloader window for an HTTP or HTTPS URL.
    Download(DownloadArgs),
}

/// Why a console command did not run.
#[derive(Debug, Clone, Copy, PartialEq, Eq, Structural)]
pub enum CommandError {
    /// Cancellation was requested before the command ran.
    Cancelled,
    /// The downloader could not be started.
    Download(DownloadError),
}

impl DownloadArgs {
    /// The process that opens the downloader for this URL on `host`.
    pub fn invoke(&self, host: &LaunchHost) -> (r: Result<LaunchCommand, DownloadError>)
        ensures
            match r {
                Ok(command) => launch_plan(self.url@, *host) == Ok::<_, DownloadError>(command@),
                Err(e) => launch_plan(self.url@, *host) == Err::<(Seq<u16>, Seq<u16>), _>(e),
            },
    {
        launch_downloader(self.url.as_str(), host)
    }
}

impl Command {
    /// Runs the command unless cancellation was requested: `cancelled` is
    /// whether the cancellation token had fired when the command began.
    pub fn invoke(&self, cancelled: bool, host: &LaunchHost) -> (r: Result<
        LaunchCommand,
        CommandError,
    >)
        ensures
            cancelled ==> r == Err::<LaunchCommand, CommandError>(CommandError::Cancelled),
            !cancelled ==> match self {
                Command::Download(args) => match r {
                    Ok(command) => launch_plan(args.url@, *host) == Ok::<_, DownloadError>(
                        command@,
                    ),
                    Err(e) => e matches CommandError::Download(d) && launch_plan(args.url@, *host)
                        == Err::<(Seq<u16>, Seq<u16>), _>(d),
                },
            },
    {
        if cancelled {
            return Err(CommandError::Cancelled);
        }
        match self {
            Command::Download(args) => match args.invoke(host) {
                Ok(command) => Ok(command),
                Err(e) => Err(CommandError::Download(e)),
            },
        }
    }
}

impl Command {
    /// The first step of running the command, before anything is looked up on
    /// disk: unless cancellation was requested, the URL to download on
    /// `platform` (as `check_download_url` gives it).
    pub fn download_url(&self, cancelled: bool, platform: Platform) -> (r: Result<
        String,
        CommandError,
    >)
        ensures
            cancelled ==> r == Err::<String, CommandError>(CommandError::Cancelled),
            !cancelled && platform == Platform::Other ==> r == Err::<String, CommandError>(
                CommandError::Download(DownloadError::UnsupportedPlatform),
            ),
            !cancelled && platform == Platform::Windows ==> match self {
                Command::Download(args) => {
                    &&& r is Ok <==> is_single_http_url(trim(args.url@))
                    &&& r matches Ok(url) ==> url@ == trim(args.url@)
                    &&& r matches Err(e) ==> e == CommandError::Download(
                        DownloadError::InvalidUrl(UrlError::NotHttpUrl),
                    )
                },
            },
    {
        if cancelled {
            return Err(CommandError::Cancelled);
        }
        match self {
            Command::Download(args) => match check_download_url(args.url.as_str(), platform) {
                Ok(url) => Ok(url),
                Err(e) => Err(CommandError::Download(e)),
            },
        }
    }
}

} // verus!
