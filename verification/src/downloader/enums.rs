use vstd::prelude::*;

verus! {

#[derive(Debug)]
/// The result when try create a new downloader interface
pub enum DownloaderResult<T> {
    /// Created successfully
    Created(T),
    /// The target file already downloaded and overwrite is disabled.
    Canceled,
}

#[derive(Clone, Copy, Debug, PartialEq, Eq, Structural, PartialOrd)]
/// The status of the downloader
pub enum DownloaderStatus {
    /// The downloader is just created
    Created,
    /// The downloader is downloading now
    Downloading,
    /// The downloader is downloaded complete
    Downloaded,
    /// The downloader stopped on an error
    Panic,
}

impl<T> DownloaderResult<T> {
    /// Whether the download was canceled.
    pub fn is_canceled(&self) -> (r: bool)
        ensures
            r == (*self is Canceled),
    {
        match self {
            DownloaderResult::Canceled => true,
            _ => false,
        }
    }
}

} // verus!
