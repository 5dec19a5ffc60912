//! Link handling for a yt-dlp share target: recognising HTTP(S) links in shared
//! text and building the Windows command line that starts the downloader.

pub mod chars;
pub mod cli;
pub mod command_line;
pub mod downloader;
pub mod share_target;
pub mod url;
pub mod version;
