use share_to_ytdlp::share_target::{
    check_host, check_web_address, check_web_scheme, has_package_identity, next_activation_step, next_format_step,
    next_share_step, shared_url, ActivationEvent, ActivationStep, FormatStep, ShareError,
    ShareStep, SharedFormat,
    APPMODEL_ERROR_NO_PACKAGE, ERROR_INSUFFICIENT_BUFFER, ERROR_SUCCESS,
};

#[test]
fn validates_an_x_link_with_winrt() {
    // The Windows Runtime is not available off Windows, so this test hands the
    // check the parts that its Uri gives for "https://x.com/example/status/123".
    let url = check_web_address("https", "x.com", "https://x.com/example/status/123")
        .expect("X URL should be valid");
    assert_eq!(url, "https://x.com/example/status/123");
}

#[test]
fn rejects_non_web_schemes() {
    // The Windows Runtime is not available off Windows, so this test hands the
    // check the parts that its Uri gives for "file:///C:/video.mp4".
    assert!(check_web_address("file", "", "file:///C:/video.mp4").is_err());
}

#[test]
fn test_process_has_no_package_identity() {
    // A test process has no package: GetCurrentPackageFullName (a Win32 call,
    // not available off Windows) answers it with APPMODEL_ERROR_NO_PACKAGE.
    assert!(!has_package_identity(APPMODEL_ERROR_NO_PACKAGE)
        .expect("package identity check should succeed"));
}

#[test]
fn package_identity_statuses() {
    assert_eq!(has_package_identity(ERROR_INSUFFICIENT_BUFFER), Ok(true));
    assert_eq!(has_package_identity(ERROR_SUCCESS), Ok(true));
    assert_eq!(
        has_package_identity(87),
        Err(ShareError::PackageQueryFailed(87))
    );
}

#[test]
fn web_address_checks() {
    assert_eq!(
        check_web_address("HTTP", "example.com", "http://example.com/"),
        Ok("http://example.com/".to_string())
    );
    assert_eq!(
        check_web_address("ftp", "example.com", "ftp://example.com/"),
        Err(ShareError::NotWebScheme)
    );
    assert_eq!(
        check_web_address("https", "", "https:///x"),
        Err(ShareError::MissingHost)
    );
    assert_eq!(
        check_web_address("httpss", "a", "httpss://a"),
        Err(ShareError::NotWebScheme)
    );
}

#[test]
fn shared_formats_in_order_of_preference() {
    assert_eq!(next_format_step(&vec![]), Ok(FormatStep::Query(SharedFormat::WebLink)));
    assert_eq!(next_format_step(&vec![true]), Ok(FormatStep::Read(SharedFormat::WebLink)));
    assert_eq!(next_format_step(&vec![false]), Ok(FormatStep::Query(SharedFormat::Uri)));
    assert_eq!(next_format_step(&vec![false, true]), Ok(FormatStep::Read(SharedFormat::Uri)));
    assert_eq!(
        next_format_step(&vec![false, false]),
        Ok(FormatStep::Query(SharedFormat::Text))
    );
    assert_eq!(
        next_format_step(&vec![false, false, true]),
        Ok(FormatStep::Read(SharedFormat::Text))
    );
    assert_eq!(
        next_format_step(&vec![false, false, false]),
        Err(ShareError::NothingShared)
    );
}

#[test]
fn share_steps_report_failures_once() {
    let run = |failing: Option<ShareStep>, report_fails: bool| {
        let mut step = ShareStep::ReportStarted;
        let mut seen = vec![];
        while step != ShareStep::Finished && step != ShareStep::Failed {
            seen.push(step);
            let succeeded = if step == ShareStep::ReportError { !report_fails } else { Some(step) != failing };
            step = next_share_step(step, succeeded);
        }
        (seen, step)
    };
    assert_eq!(
        run(None, false),
        (vec![ShareStep::ReportStarted, ShareStep::ReadSharedLink, ShareStep::ReportDataRetrieved, ShareStep::StartDownloader, ShareStep::ReportCompleted], ShareStep::Finished)
    );
    assert_eq!(
        run(Some(ShareStep::ReadSharedLink), false),
        (vec![ShareStep::ReportStarted, ShareStep::ReadSharedLink, ShareStep::ReportError], ShareStep::Finished)
    );
    assert_eq!(
        run(Some(ShareStep::StartDownloader), true),
        (vec![ShareStep::ReportStarted, ShareStep::ReadSharedLink, ShareStep::ReportDataRetrieved, ShareStep::StartDownloader, ShareStep::ReportError], ShareStep::Failed)
    );
    assert_eq!(run(Some(ShareStep::ReportStarted), false), (vec![ShareStep::ReportStarted], ShareStep::Failed));
    assert_eq!(next_share_step(ShareStep::Finished, false), ShareStep::Finished);
    assert_eq!(next_share_step(ShareStep::Failed, true), ShareStep::Failed);
}

#[test]
fn shared_url_by_format() {
    assert_eq!(
        shared_url(SharedFormat::WebLink, "https://x.com/a"),
        Ok("https://x.com/a".to_string())
    );
    assert_eq!(
        shared_url(SharedFormat::Text, "Watch this: https://x.com/a!"),
        Ok("https://x.com/a".to_string())
    );
    assert_eq!(
        shared_url(SharedFormat::Text, "nothing here"),
        Err(ShareError::NoUrlInText)
    );
}

#[test]
fn activation_steps() {
    assert_eq!(
        next_activation_step(ActivationEvent::IdentityChecked(false)),
        ActivationStep::RunCli
    );
    assert_eq!(
        next_activation_step(ActivationEvent::IdentityChecked(true)),
        ActivationStep::ReadActivationKind
    );
    assert_eq!(
        next_activation_step(ActivationEvent::KindRead(true)),
        ActivationStep::HandleShare
    );
    assert_eq!(
        next_activation_step(ActivationEvent::KindRead(false)),
        ActivationStep::ShowInstructions
    );
}

#[test]
fn share_error_messages() {
    assert_eq!(
        ShareError::PackageQueryFailed(5).message(),
        "GetCurrentPackageFullName failed with Win32 error"
    );
    assert_eq!(
        ShareError::NothingShared.message(),
        "the shared item did not contain a web link or text"
    );
    assert_eq!(
        ShareError::NoUrlInText.message(),
        "the shared text did not contain an HTTP or HTTPS URL"
    );
    assert_eq!(ShareError::InvalidLink.message(), "the shared link was invalid");
    assert_eq!(
        ShareError::NotWebScheme.message(),
        "the shared link did not use HTTP or HTTPS"
    );
    assert_eq!(
        ShareError::MissingHost.message(),
        "the shared link did not contain a host name"
    );
}

#[test]
fn scheme_is_checked_before_host() {
    assert_eq!(check_web_scheme("HtTpS"), Ok(()));
    assert_eq!(check_web_scheme("http"), Ok(()));
    assert_eq!(check_web_scheme("file"), Err(ShareError::NotWebScheme));
    assert_eq!(check_web_scheme(""), Err(ShareError::NotWebScheme));
    assert_eq!(check_host("x.com"), Ok(()));
    assert_eq!(check_host(""), Err(ShareError::MissingHost));
    assert_eq!(check_web_address("file", "", "file:///x"), Err(ShareError::NotWebScheme));
}
