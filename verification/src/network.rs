//! The bookkeeping of a download: whether it reports its progress, how many
//! bytes have arrived, and whether the server's answer counts as success.

use vstd::prelude::*;

verus! {

/// The size that a download announces and the bytes received so far.
pub struct DownloadProgress {
    pub total: u64,
    pub downloaded: u64,
}

/// What to do with the result of one read from the response.
#[derive(Debug, Clone, Copy, PartialEq, Eq, Structural)]
pub enum ReadStep {
    /// The response is exhausted.
    Finished,
    /// The bytes read are to be written out.
    Write,
}

/// Why a download failed once the response was received.
#[derive(Debug, Clone, Copy, PartialEq, Eq, Structural)]
pub enum DownloadError {
    /// The server answered with this status code, which is not a success.
    Status(u16),
}

impl DownloadProgress {
    /// Starts counting a download whose response announced `content_length`
    /// bytes; an unknown length counts as 0.
    pub fn new(content_length: Option<u64>) -> (progress: DownloadProgress)
        ensures
            progress.total == match content_length {
                Some(n) => n,
                None => 0,
            },
            progress.downloaded == 0,
    {
        let total = match content_length {
            Some(n) => n,
            None => 0,
        };
        DownloadProgress { total, downloaded: 0 }
    }

    /// Whether the download reads in chunks and reports each one to the
    /// splash screen: only when the splash screen is on and the size is known.
    pub fn reports_progress(&self, splash_enabled: bool) -> (reports: bool)
        ensures
            reports == (splash_enabled && self.total > 0),
    {
        splash_enabled && self.total > 0
    }

    /// Takes the result of one read of `n` bytes: no bytes ends the download,
    /// otherwise the bytes are written out and counted.
    pub fn on_read(&mut self, n: usize) -> (step: ReadStep)
        requires
            n == 0 || old(self).downloaded + n <= u64::MAX,
        ensures
            n == 0 ==> step == ReadStep::Finished && *final(self) == *old(self),
            n > 0 ==> step == ReadStep::Write && final(self).total == old(self).total
                && final(self).downloaded == old(self).downloaded + n,
    {
        if n == 0 {
            ReadStep::Finished
        } else {
            self.downloaded = self.downloaded + n as u64;
            ReadStep::Write
        }
    }
}

/// Whether an HTTP status code means success: it lies in `200..=299`.
pub fn is_success(status: u16) -> (success: bool)
    ensures
        success == (200 <= status <= 299),
{
    200 <= status && status <= 299
}

/// The outcome of a download once the whole response was copied: success
/// exactly when the status code is a success.
pub fn check_status(status: u16) -> (outcome: Result<(), DownloadError>)
    ensures
        outcome is Ok <==> (200 <= status <= 299),
        outcome is Err ==> outcome == Err::<(), DownloadError>(DownloadError::Status(status)),
{
    if is_success(status) {
        Ok(())
    } else {
        Err(DownloadError::Status(status))
    }
}

} // verus!
