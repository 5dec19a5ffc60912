//! The decisions of the Windows Share target: whether the process runs with a
//! package identity, what a packaged activation leads to, which shared format
//! carries the link, and whether a parsed link is a web address.
//!
//! The Windows Runtime and Win32 calls that observe these facts are the
//! caller's part; their results are handed in as plain values.

use vstd::prelude::*;

use crate::chars::{ascii_lower, chars_of};
use crate::url::{extract_url, extracted_url, starts_with_ignore_ascii_case, starts_with_scheme_in};

verus! {

broadcast use vstd::string::group_string_axioms;

/// Win32 `ERROR_SUCCESS`.
pub const ERROR_SUCCESS: u32 = 0;

/// Win32 `ERROR_INSUFFICIENT_BUFFER`.
pub const ERROR_INSUFFICIENT_BUFFER: u32 = 122;

/// Win32 `APPMODEL_ERROR_NO_PACKAGE`: the process has no package identity.
pub const APPMODEL_ERROR_NO_PACKAGE: u32 = 15700;

/// Why the Share target could not do its work.
#[derive(Debug, Clone, Copy, PartialEq, Eq, Structural)]
pub enum ShareError {
    /// `GetCurrentPackageFullName` failed with this Win32 error.
    PackageQueryFailed(u32),
    /// The shared item held neither a web link nor text.
    NothingShared,
    /// The shared text held no HTTP or HTTPS URL.
    NoUrlInText,
    /// The shared link could not be parsed as a URI.
    InvalidLink,
    /// The shared link's scheme is neither HTTP nor HTTPS.
    NotWebScheme,
    /// The shared link has no host name.
    MissingHost,
}

impl ShareError {
    /// The message that reports this error; for
    /// [`ShareError::PackageQueryFailed`] the Win32 error number follows it.
    pub fn message(&self) -> (r: &'static str)
        ensures
            *self is PackageQueryFailed ==> r@ == "GetCurrentPackageFullName failed with Win32 error"@,
            *self == ShareError::NothingShared ==> r@
                == "the shared item did not contain a web link or text"@,
            *self == ShareError::NoUrlInText ==> r@
                == "the shared text did not contain an HTTP or HTTPS URL"@,
            *self == ShareError::InvalidLink ==> r@ == "the shared link was invalid"@,
            *self == ShareError::NotWebScheme ==> r@ == "the shared link did not use HTTP or HTTPS"@,
            *self == ShareError::MissingHost ==> r@
                == "the shared link did not contain a host name"@,
    {
        match self {
            ShareError::PackageQueryFailed(_) => "GetCurrentPackageFullName failed with Win32 error",
            ShareError::NothingShared => "the shared item did not contain a web link or text",
            ShareError::NoUrlInText => "the shared text did not contain an HTTP or HTTPS URL",
            ShareError::InvalidLink => "the shared link was invalid",
            ShareError::NotWebScheme => "the shared link did not use HTTP or HTTPS",
            ShareError::MissingHost => "the shared link did not contain a host name",
        }
    }
}

/// Whether the process has a package identity, from the status that the
/// sizing call of `GetCurrentPackageFullName` (a null buffer) returned: no
/// package means none; a too-small buffer or success means one; any other
/// status is an error.
pub fn has_package_identity(status: u32) -> (r: Result<bool, ShareError>)
    ensures
        status == APPMODEL_ERROR_NO_PACKAGE ==> r == Ok::<bool, ShareError>(false),
        status == ERROR_INSUFFICIENT_BUFFER || status == ERROR_SUCCESS ==> r == Ok::<
            bool,
            ShareError,
        >(true),
        status != APPMODEL_ERROR_NO_PACKAGE && status != ERROR_INSUFFICIENT_BUFFER && status
            != ERROR_SUCCESS ==> r == Err::<bool, ShareError>(ShareError::PackageQueryFailed(status)),
{
    if status == APPMODEL_ERROR_NO_PACKAGE {
        Ok(false)
    } else if status == ERROR_INSUFFICIENT_BUFFER || status == ERROR_SUCCESS {
        Ok(true)
    } else {
        Err(ShareError::PackageQueryFailed(status))
    }
}

/// What a launch without arguments has learnt so far.
#[derive(Debug, Clone, Copy, PartialEq, Eq, Structural)]
pub enum ActivationEvent {
    /// Whether the process has a package identity.
    IdentityChecked(bool),
    /// The packaged activation's kind was read: a Share activation or another.
    KindRead(bool),
}

/// What a launch without arguments does next.
#[derive(Debug, Clone, Copy, PartialEq, Eq, Structural)]
pub enum ActivationStep {
    /// Not a packaged activation: run the console command line.
    RunCli,
    /// Detach from the console, start the Windows Runtime and read the
    /// activation's kind.
    ReadActivationKind,
    /// A packaged launch that is not a Share: show how to use the target.
    ShowInstructions,
    /// A Share activation: handle the shared item.
    HandleShare,
}

/// The next step of a launch without arguments after `event`.
pub fn next_activation_step(event: ActivationEvent) -> (r: ActivationStep)
    ensures
        r == match event {
            ActivationEvent::IdentityChecked(false) => ActivationStep::RunCli,
            ActivationEvent::IdentityChecked(true) => ActivationStep::ReadActivationKind,
            ActivationEvent::KindRead(true) => ActivationStep::HandleShare,
            ActivationEvent::KindRead(false) => ActivationStep::ShowInstructions,
        },
{
    match event {
        ActivationEvent::IdentityChecked(packaged) => {
            if packaged {
                ActivationStep::ReadActivationKind
            } else {
                ActivationStep::RunCli
            }
        },
        ActivationEvent::KindRead(share_target) => {
            if share_target {
                ActivationStep::HandleShare
            } else {
                ActivationStep::ShowInstructions
            }
        },
    }
}

/// A data format in which a shared item can carry a link.
#[derive(Debug, Clone, Copy, PartialEq, Eq, Structural)]
pub enum SharedFormat {
    /// A web link, preferred by newer Share sources.
    WebLink,
    /// The legacy URI format of older Share sources.
    Uri,
    /// Plain text, which may hold a link among other words.
    Text,
}

/// The formats in the order in which they are looked for: a web link, then a
/// URI, then text.
pub open spec fn format_in_order(i: int) -> SharedFormat {
    if i == 0 {
        SharedFormat::WebLink
    } else if i == 1 {
        SharedFormat::Uri
    } else {
        SharedFormat::Text
    }
}

/// What to do next while looking for the format that carries the link.
#[derive(Debug, Clone, Copy, PartialEq, Eq, Structural)]
pub enum FormatStep {
    /// Ask whether the shared item holds this format.
    Query(SharedFormat),
    /// Read the link in this format.
    Read(SharedFormat),
}

/// The next step of finding the shared link's format. `present[i]` is the
/// answer, already asked, whether the shared item holds `format_in_order(i)`;
/// formats are asked in order and only until one is present.
///
/// The first format found present is read; while none is and some format is
/// left, the next one is asked for; when none of the three is present, the
/// item holds nothing to download.
pub fn next_format_step(present: &Vec<bool>) -> (r: Result<FormatStep, ShareError>)
    ensures
        match r {
            Ok(FormatStep::Read(format)) => exists|i: int|
                0 <= i < present.len() && i < 3 && present@[i] && (forall|j: int|
                    0 <= j < i ==> !present@[j]) && format == format_in_order(i),
            Ok(FormatStep::Query(format)) => present.len() < 3 && (forall|j: int|
                0 <= j < present.len() ==> !present@[j]) && format == format_in_order(
                present.len() as int,
            ),
            Err(e) => e == ShareError::NothingShared && present.len() >= 3 && (forall|j: int|
                0 <= j < 3 ==> !present@[j]),
        },
{
    let mut i: usize = 0;
    while i < present.len() && i < 3
        invariant
            i <= present.len(),
            i <= 3,
            forall|j: int| 0 <= j < i ==> !present@[j],
        decreases present.len() - i,
    {
        if present[i] {
            let format = if i == 0 {
                SharedFormat::WebLink
            } else if i == 1 {
                SharedFormat::Uri
            } else {
                SharedFormat::Text
            };
            assert(present@[i as int] && format == format_in_order(i as int));
            return Ok(FormatStep::Read(format));
        }
        i = i + 1;
    }
    if i < 3 {
        let format = if i == 0 {
            SharedFormat::WebLink
        } else if i == 1 {
            SharedFormat::Uri
        } else {
            SharedFormat::Text
        };
        Ok(FormatStep::Query(format))
    } else {
        Err(ShareError::NothingShared)
    }
}

/// A step of handling a Share operation.
#[derive(Debug, Clone, Copy, PartialEq, Eq, Structural)]
pub enum ShareStep {
    /// Tell Windows that the operation started.
    ReportStarted,
    /// Read the shared item, find its link and check it as a web address.
    ReadSharedLink,
    /// Tell Windows that the data was read.
    ReportDataRetrieved,
    /// Start the downloader for the link.
    StartDownloader,
    /// Tell Windows that the operation completed.
    ReportCompleted,
    /// Report the failure of the last step to Windows, with its message.
    ReportError,
    /// Handling is over and succeeded.
    Finished,
    /// Handling is over; the error of the last step is returned.
    Failed,
}

/// The step after `done`, which `succeeded` or failed. A failure to report
/// the start ends handling with that error; a failure of any later step is
/// reported to Windows once, and handling then succeeds unless that report
/// itself fails.
pub open spec fn share_step_after(done: ShareStep, succeeded: bool) -> ShareStep {
    match done {
        ShareStep::ReportStarted => if succeeded {
            ShareStep::ReadSharedLink
        } else {
            ShareStep::Failed
        },
        ShareStep::ReadSharedLink => if succeeded {
            ShareStep::ReportDataRetrieved
        } else {
            ShareStep::ReportError
        },
        ShareStep::ReportDataRetrieved => if succeeded {
            ShareStep::StartDownloader
        } else {
            ShareStep::ReportError
        },
        ShareStep::StartDownloader => if succeeded {
            ShareStep::ReportCompleted
        } else {
            ShareStep::ReportError
        },
        ShareStep::ReportCompleted => if succeeded {
            ShareStep::Finished
        } else {
            ShareStep::ReportError
        },
        ShareStep::ReportError => if succeeded {
            ShareStep::Finished
        } else {
            ShareStep::Failed
        },
        ShareStep::Finished => ShareStep::Finished,
        ShareStep::Failed => ShareStep::Failed,
    }
}

/// The step of handling a Share operation after `done`, which `succeeded`
/// or failed.
pub fn next_share_step(done: ShareStep, succeeded: bool) -> (r: ShareStep)
    ensures
        r == share_step_after(done, succeeded),
{
    match done {
        ShareStep::ReportStarted => if succeeded {
            ShareStep::ReadSharedLink
        } else {
            ShareStep::Failed
        },
        ShareStep::ReadSharedLink => if succeeded {
            ShareStep::ReportDataRetrieved
        } else {
            ShareStep::ReportError
        },
        ShareStep::ReportDataRetrieved => if succeeded {
            ShareStep::StartDownloader
        } else {
            ShareStep::ReportError
        },
        ShareStep::StartDownloader => if succeeded {
            ShareStep::ReportCompleted
        } else {
            ShareStep::ReportError
        },
        ShareStep::ReportCompleted => if succeeded {
            ShareStep::Finished
        } else {
            ShareStep::ReportError
        },
        ShareStep::ReportError => if succeeded {
            ShareStep::Finished
        } else {
            ShareStep::Failed
        },
        ShareStep::Finished => ShareStep::Finished,
        ShareStep::Failed => ShareStep::Failed,
    }
}

/// Once the start was reported, a failing step is reported to Windows rather
/// than returned: it leads to [`ShareStep::ReportError`], and a successful
/// report finishes the handling with success.
pub proof fn lemma_share_failures_are_reported(done: ShareStep)
    requires
        done == ShareStep::ReadSharedLink || done == ShareStep::ReportDataRetrieved || done
            == ShareStep::StartDownloader || done == ShareStep::ReportCompleted,
    ensures
        share_step_after(done, false) == ShareStep::ReportError,
        share_step_after(ShareStep::ReportError, true) == ShareStep::Finished,
{
}

/// The link that a shared item holds, from the content read in `format`: a
/// web link or URI (as its absolute URI) is the link; text holds the link that
/// `extract_url` finds in it.
pub fn shared_url(format: SharedFormat, content: &str) -> (r: Result<String, ShareError>)
    ensures
        format != SharedFormat::Text ==> (r matches Ok(url) && url@ == content@),
        format == SharedFormat::Text ==> match extracted_url(content@) {
            Some(url) => r matches Ok(found) && found@ == url,
            None => r == Err::<String, ShareError>(ShareError::NoUrlInText),
        },
{
    match format {
        SharedFormat::Text => match extract_url(content) {
            Some(url) => Ok(url),
            None => Err(ShareError::NoUrlInText),
        },
        _ => Ok(String::from_str(content)),
    }
}

/// `s` equals `t`, ASCII letters compared without regard to case.
pub open spec fn eq_ignore_ascii_case(s: Seq<char>, t: Seq<char>) -> bool {
    s.len() == t.len() && starts_with_ignore_ascii_case(s, t)
}

/// `http` or `https`, in any ASCII case.
pub open spec fn is_web_scheme(scheme: Seq<char>) -> bool {
    eq_ignore_ascii_case(scheme, seq!['h', 't', 't', 'p']) || eq_ignore_ascii_case(
        scheme,
        seq!['h', 't', 't', 'p', 's'],
    )
}

/// Whether a scheme name is `http` or `https`, in any ASCII case.
fn is_web_scheme_name(scheme: &str) -> (r: bool)
    ensures
        r == is_web_scheme(scheme@),
{
    let chars = chars_of(scheme);
    let http = vec!['h', 't', 't', 'p'];
    let https = vec!['h', 't', 't', 'p', 's'];
    assert(chars@.subrange(0, chars@.len() as int) == chars@);
    (chars.len() == 4 && starts_with_scheme_in(&chars, 0, chars.len(), &http)) || (chars.len() == 5
        && starts_with_scheme_in(&chars, 0, chars.len(), &https))
}

/// The first check of a parsed shared link: its scheme must be HTTP or HTTPS.
pub fn check_web_scheme(scheme: &str) -> (r: Result<(), ShareError>)
    ensures
        r is Ok <==> is_web_scheme(scheme@),
        r matches Err(e) ==> e == ShareError::NotWebScheme,
{
    if is_web_scheme_name(scheme) {
        Ok(())
    } else {
        Err(ShareError::NotWebScheme)
    }
}

/// The second check of a parsed shared link: its host must not be empty.
pub fn check_host(host: &str) -> (r: Result<(), ShareError>)
    ensures
        r is Ok <==> host@.len() > 0,
        r matches Err(e) ==> e == ShareError::MissingHost,
{
    if host.is_empty() {
        Err(ShareError::MissingHost)
    } else {
        Ok(())
    }
}

/// Checks a shared link that the Windows Runtime parsed into its scheme name,
/// host and absolute URI: the scheme must be HTTP or HTTPS and the host must
/// not be empty; the absolute URI is then the link to download.
pub fn check_web_address(scheme: &str, host: &str, absolute_uri: &str) -> (r: Result<
    String,
    ShareError,
>)
    ensures
        !is_web_scheme(scheme@) ==> r == Err::<String, ShareError>(ShareError::NotWebScheme),
        is_web_scheme(scheme@) && host@.len() == 0 ==> r == Err::<String, ShareError>(
            ShareError::MissingHost,
        ),
        is_web_scheme(scheme@) && host@.len() > 0 ==> (r matches Ok(url) && url@ == absolute_uri@),
{
    match check_web_scheme(scheme) {
        Ok(()) => {},
        Err(e) => return Err(e),
    }
    match check_host(host) {
        Ok(()) => {},
        Err(e) => return Err(e),
    }
    Ok(String::from_str(absolute_uri))
}

/// A shared link passes the scheme check exactly when its scheme, with ASCII
/// letters lower-cased, is `http` or `https`; every other scheme (`ws`, `wss`,
/// `ftp`, `file`, ...) is refused with [`ShareError::NotWebScheme`].
pub proof fn lemma_web_schemes_are_http_and_https(scheme: Seq<char>)
    ensures
        is_web_scheme(scheme) <==> (scheme.map_values(|c: char| ascii_lower(c)) == seq![
            'h',
            't',
            't',
            'p',
        ] || scheme.map_values(|c: char| ascii_lower(c)) == seq!['h', 't', 't', 'p', 's']),
{
    let lower = scheme.map_values(|c: char| ascii_lower(c));
    let http = seq!['h', 't', 't', 'p'];
    let https = seq!['h', 't', 't', 'p', 's'];
    assert forall|i: int| 0 <= i < http.len() implies ascii_lower(#[trigger] http[i]) == http[i] by {}
    assert forall|i: int| 0 <= i < https.len() implies ascii_lower(#[trigger] https[i])
        == https[i] by {}
    if eq_ignore_ascii_case(scheme, http) {
        assert(lower =~= http);
    }
    if eq_ignore_ascii_case(scheme, https) {
        assert(lower =~= https);
    }
    if lower == http {
        assert forall|i: int| 0 <= i < http.len() implies ascii_lower(#[trigger] scheme[i])
            == ascii_lower(http[i]) by {
            assert(lower[i] == ascii_lower(scheme[i]));
        }
    }
    if lower == https {
        assert forall|i: int| 0 <= i < https.len() implies ascii_lower(#[trigger] scheme[i])
            == ascii_lower(https[i]) by {
            assert(lower[i] == ascii_lower(scheme[i]));
        }
    }
}

} // verus!
