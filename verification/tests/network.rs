use pyapp::network::{check_status, is_success, DownloadError, DownloadProgress, ReadStep};

#[test]
fn unknown_length_counts_as_zero() {
    let progress = DownloadProgress::new(None);
    assert_eq!(progress.total, 0);
    assert_eq!(progress.downloaded, 0);
    assert!(!progress.reports_progress(true));
}

#[test]
fn progress_is_reported_only_with_splash_and_known_size() {
    let progress = DownloadProgress::new(Some(1024));
    assert_eq!(progress.total, 1024);
    assert!(progress.reports_progress(true));
    assert!(!progress.reports_progress(false));
}

#[test]
fn reads_are_counted_until_an_empty_read() {
    let mut progress = DownloadProgress::new(Some(20));
    assert_eq!(progress.on_read(8), ReadStep::Write);
    assert_eq!(progress.on_read(8), ReadStep::Write);
    assert_eq!(progress.on_read(4), ReadStep::Write);
    assert_eq!(progress.downloaded, 20);
    assert_eq!(progress.on_read(0), ReadStep::Finished);
    assert_eq!(progress.downloaded, 20);
    assert_eq!(progress.total, 20);
}

#[test]
fn success_is_the_2xx_range() {
    assert!(!is_success(199));
    assert!(is_success(200));
    assert!(is_success(204));
    assert!(is_success(299));
    assert!(!is_success(300));
    assert!(!is_success(404));
}

#[test]
fn unsuccessful_status_is_an_error() {
    assert_eq!(check_status(200), Ok(()));
    assert_eq!(check_status(404), Err(DownloadError::Status(404)));
    assert_eq!(check_status(500), Err(DownloadError::Status(500)));
    assert_eq!(check_status(301), Err(DownloadError::Status(301)));
}
