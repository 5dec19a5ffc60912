# share_to_ytdlp

A verified library behind a Windows Share target and console tool that hand web
links to a PowerShell/yt-dlp downloader.

- `src/url.rs`: recognising HTTP(S) URLs — `starts_with_http`, `require_http_url`
  (one URL after trimming white space and U+FEFF) and `extract_url` (the first URL
  inside shared text), with laws relating the two.
- `src/command_line.rs`: quoting arguments for Windows command lines, with a model of
  the documented splitting rules and a proof that splitting gives the arguments back.
- `src/downloader.rs`: the downloader's application name and command line for a URL, in
  steps (URL check, script and PowerShell search order, command) and as one decision.
- `src/share_target.rs`: the Share target's decisions (package identity, activation
  steps, the order in which shared formats are asked for, the steps of a Share operation,
  web-address check).
- `src/cli.rs`: the console commands.
- `src/version.rs`: the `--version` text, the build timestamp read as a decimal `i64`, and
  the build time rendered by chrono (the one call into an outside crate).
- `src/chars.rs`: Unicode white space, ASCII lower case, characters and UTF-16 of strings.

`app/` holds the program around the library: argument parsing, finding PowerShell and
the script, creating the process, and the Windows Runtime calls of the Share target.
