use super::enums::DownloaderStatus;
use super::pd_file::enums::{PdFileStatus, PdFileType};
use super::pd_file::file::{PdFile, PdFileModel};
use super::plan::{task_finish, task_finish_of, TaskFinish};
use vstd::prelude::*;

verus! {

/// The settings and status of a downloader, apart from its file, its web
/// client and its tasks.
pub struct DownloaderStateView {
    pub status: DownloaderStatus,
    pub multi: bool,
    pub progress_bar: bool,
    pub max_retry_count: i64,
    pub retry_intervals: Seq<u64>,
    pub retry_count: i64,
    pub max_part_retry_count: i64,
    pub max_threads: u64,
    pub part_size: u32,
    pub dropped: bool,
    pub progress_has_length: bool,
}

/// The interval at an index of a list of intervals: the last one past the
/// end.
pub open spec fn interval_at(l: Seq<u64>, i: int) -> u64 {
    if i < l.len() {
        l[i]
    } else {
        l.last()
    }
}

/// What a retry gives: `None` when the retries are used up (a negative
/// maximum never runs out), else the interval to wait, in milliseconds,
/// taken at the index of the maximum count.
pub open spec fn retry_outcome(s: DownloaderStateView) -> Option<u64> {
    if s.max_retry_count >= 0 && s.retry_count >= s.max_retry_count {
        None
    } else if s.max_retry_count < 0 {
        Some(s.retry_intervals.last())
    } else {
        Some(interval_at(s.retry_intervals, s.max_retry_count as int))
    }
}

/// Whether a download uses multiple streams: as the download under way
/// does, or as set.
pub open spec fn multi_threads(s: DownloaderStateView, pd: PdFileModel) -> bool {
    if pd.status == PdFileStatus::Downloading {
        pd.ftype == PdFileType::MultiThread
    } else {
        s.multi
    }
}

/// The downloader after a finished task, and the wait before starting
/// again that it gives: a single stream download that went well is done; a
/// task that asks for a retry gets the next wait (the retry count goes up),
/// or, with no retry left, stops the download on its error.
pub open spec fn after_finished_task(
    s: DownloaderStateView,
    pd: PdFileModel,
    ok: bool,
) -> (DownloaderStateView, Option<u64>) {
    match task_finish_of(multi_threads(s, pd), pd.status == PdFileStatus::Started, ok) {
        TaskFinish::Downloaded => (DownloaderStateView { status: DownloaderStatus::Downloaded, ..s }, None),
        TaskFinish::Nothing => (s, None),
        TaskFinish::AskRetry => match retry_outcome(s) {
            Some(d) => (DownloaderStateView { retry_count: (s.retry_count + 1) as i64, ..s }, Some(d)),
            None => (DownloaderStateView { status: DownloaderStatus::Panic, ..s }, None),
        },
    }
}

/// A retry is refused exactly when a maximum count is set and reached.
/// Otherwise the wait is the interval at the index of the maximum count,
/// or the last interval when that index is past the end or no maximum is
/// set.
pub proof fn lemma_retry_outcome(s: DownloaderStateView)
    requires
        s.retry_intervals.len() > 0,
    ensures
        retry_outcome(s) is None <==> (s.max_retry_count >= 0 && s.retry_count >= s.max_retry_count),
        retry_outcome(s) is Some && 0 <= s.max_retry_count < s.retry_intervals.len() ==> retry_outcome(s)
            == Some(s.retry_intervals[s.max_retry_count as int]),
        retry_outcome(s) is Some && !(0 <= s.max_retry_count < s.retry_intervals.len())
            ==> retry_outcome(s) == Some(s.retry_intervals[s.retry_intervals.len() - 1]),
{
}

/// The settings and status of a downloader.
pub struct DownloaderState {
    status: DownloaderStatus,
    /// Whether to enable mulitple thread mode
    multi: bool,
    /// Whether to enable the progess bar.
    progress_bar: bool,
    /// The maximum retry count. -1 means always retry.
    max_retry_count: i64,
    /// Retry intervals, in milliseconds.
    retry_intervals: Vec<u64>,
    /// Current retry count
    retry_count: i64,
    /// The maximum retry count for each part.
    max_part_retry_count: i64,
    /// The maximun threads to download file.
    max_threads: u64,
    /// The size of the each part when downloading file.
    part_size: u32,
    /// Is outter downloader dropped
    dropped: bool,
    /// true if the progress bar has length
    progress_has_length: bool,
}

impl View for DownloaderState {
    type V = DownloaderStateView;

    closed spec fn view(&self) -> DownloaderStateView {
        DownloaderStateView {
            status: self.status,
            multi: self.multi,
            progress_bar: self.progress_bar,
            max_retry_count: self.max_retry_count,
            retry_intervals: self.retry_intervals@,
            retry_count: self.retry_count,
            max_part_retry_count: self.max_part_retry_count,
            max_threads: self.max_threads,
            part_size: self.part_size,
            dropped: self.dropped,
            progress_has_length: self.progress_has_length,
        }
    }
}

impl DownloaderState {
    /// There is always a retry interval.
    #[verifier::type_invariant]
    spec fn has_interval(self) -> bool {
        self.retry_intervals@.len() > 0
    }

    /// A new downloader: created, single stream, no progress bar, 3 retries
    /// 3 seconds apart, 3 retries of each part, 8 threads, parts of 64 KiB.
    pub fn new() -> (r: Self)
        ensures
            r@ == (DownloaderStateView {
                status: DownloaderStatus::Created,
                multi: false,
                progress_bar: false,
                max_retry_count: 3,
                retry_intervals: seq![3000u64],
                retry_count: 0,
                max_part_retry_count: 3,
                max_threads: 8,
                part_size: 0x10000,
                dropped: false,
                progress_has_length: false,
            }),
    {
        let v = vec![3000u64];
        assert(v@ =~= seq![3000u64]);
        DownloaderState {
            status: DownloaderStatus::Created,
            multi: false,
            progress_bar: false,
            max_retry_count: 3,
            retry_intervals: v,
            retry_count: 0,
            max_part_retry_count: 3,
            max_threads: 8,
            part_size: 0x10000,
            dropped: false,
            progress_has_length: false,
        }
    }

    /// Return the status of the downloader.
    pub fn get_status(&self) -> (r: DownloaderStatus)
        ensures
            r == self@.status,
    {
        self.status
    }

    /// Returns true if the downloader is created just now.
    pub fn is_created(&self) -> (r: bool)
        ensures
            r == (self@.status == DownloaderStatus::Created),
    {
        self.status == DownloaderStatus::Created
    }

    /// Returns true if the downloader is downloading now.
    pub fn is_downloading(&self) -> (r: bool)
        ensures
            r == (self@.status == DownloaderStatus::Downloading),
    {
        self.status == DownloaderStatus::Downloading
    }

    /// Returns true if the downloader is downloaded complete.
    pub fn is_downloaded(&self) -> (r: bool)
        ensures
            r == (self@.status == DownloaderStatus::Downloaded),
    {
        self.status == DownloaderStatus::Downloaded
    }

    /// Returns true if the downloader stopped on an error.
    pub fn is_panic(&self) -> (r: bool)
        ensures
            r == (self@.status == DownloaderStatus::Panic),
    {
        self.status == DownloaderStatus::Panic
    }

    /// Return true if the outer downloader was dropped.
    pub fn is_dropped(&self) -> (r: bool)
        ensures
            r == self@.dropped,
    {
        self.dropped
    }

    /// Returns true if the progress bar is enabled.
    pub fn enabled_progress_bar(&self) -> (r: bool)
        ensures
            r == self@.progress_bar,
    {
        self.progress_bar
    }

    /// Whether the progress bar has a length.
    pub fn progress_has_length(&self) -> (r: bool)
        ensures
            r == self@.progress_has_length,
    {
        self.progress_has_length
    }

    /// The maximun threads to download file.
    pub fn max_threads(&self) -> (r: u64)
        ensures
            r == self@.max_threads,
    {
        self.max_threads
    }

    /// The maximum retry count of each part.
    pub fn max_part_retry_count(&self) -> (r: i64)
        ensures
            r == self@.max_part_retry_count,
    {
        self.max_part_retry_count
    }

    /// Sets the status and returns the one before.
    fn replace_status(&mut self, status: DownloaderStatus) -> (r: DownloaderStatus)
        ensures
            r == old(self)@.status,
            final(self)@ == (DownloaderStateView { status, ..old(self)@ }),
    {
        proof {
            use_type_invariant(&*self);
        }
        let r = self.status;
        self.status = status;
        r
    }

    /// Set the status to downloading and returns the current value
    pub fn set_downloading(&mut self) -> (r: DownloaderStatus)
        ensures
            r == old(self)@.status,
            final(self)@ == (DownloaderStateView {
                status: DownloaderStatus::Downloading,
                ..old(self)@
            }),
    {
        proof {
            use_type_invariant(&*self);
        }
        self.replace_status(DownloaderStatus::Downloading)
    }

    /// Set the status to downloaded and returns the current value
    pub fn set_downloaded(&mut self) -> (r: DownloaderStatus)
        ensures
            r == old(self)@.status,
            final(self)@ == (DownloaderStateView {
                status: DownloaderStatus::Downloaded,
                ..old(self)@
            }),
    {
        proof {
            use_type_invariant(&*self);
        }
        self.replace_status(DownloaderStatus::Downloaded)
    }

    /// Set the downloader stopped on an error.
    pub fn set_panic(&mut self)
        ensures
            final(self)@ == (DownloaderStateView { status: DownloaderStatus::Panic, ..old(self)@ }),
    {
        proof {
            use_type_invariant(&*self);
        }
        self.replace_status(DownloaderStatus::Panic);
    }

    /// Set outter downloader dropped
    pub fn set_dropped(&mut self)
        ensures
            final(self)@ == (DownloaderStateView { dropped: true, ..old(self)@ }),
    {
        proof {
            use_type_invariant(&*self);
        }
        self.dropped = true;
    }

    /// Enable or disable the progress bar.
    pub fn set_progress_bar(&mut self, enabled: bool)
        ensures
            final(self)@ == (DownloaderStateView { progress_bar: enabled, ..old(self)@ }),
    {
        proof {
            use_type_invariant(&*self);
        }
        self.progress_bar = enabled;
    }

    /// The progress bar was given a length.
    pub fn set_progress_has_length(&mut self)
        ensures
            final(self)@ == (DownloaderStateView { progress_has_length: true, ..old(self)@ }),
    {
        proof {
            use_type_invariant(&*self);
        }
        self.progress_has_length = true;
    }

    /// Set the size of the each part when downloading file
    pub fn set_part_size(&mut self, part_size: u32)
        ensures
            final(self)@ == (DownloaderStateView { part_size, ..old(self)@ }),
    {
        proof {
            use_type_invariant(&*self);
        }
        self.part_size = part_size;
    }

    /// Set the maximum retry count. -1 means always.
    pub fn set_max_retry_count(&mut self, max_retry_count: i64)
        ensures
            final(self)@ == (DownloaderStateView { max_retry_count, ..old(self)@ }),
    {
        proof {
            use_type_invariant(&*self);
        }
        self.max_retry_count = max_retry_count;
    }

    /// Set the maximun threads to download file.
    pub fn set_max_threads(&mut self, max_threads: u64)
        ensures
            final(self)@ == (DownloaderStateView { max_threads, ..old(self)@ }),
    {
        proof {
            use_type_invariant(&*self);
        }
        self.max_threads = max_threads;
    }

    /// Set the retry intervals, in milliseconds. There must be one.
    pub fn set_retry_interval(&mut self, retry_interval: Vec<u64>)
        requires
            retry_interval@.len() > 0,
        ensures
            final(self)@ == (DownloaderStateView {
                retry_intervals: retry_interval@,
                ..old(self)@
            }),
    {
        proof {
            use_type_invariant(&*self);
        }
        self.retry_intervals = retry_interval;
    }

    /// Enable multiple download. Returns whether the download goes on in a
    /// single stream all the same, as one under way in a single stream does.
    pub fn enable_multiple_download(&mut self, pd: &PdFile) -> (r: bool)
        ensures
            final(self)@ == (DownloaderStateView { multi: true, ..old(self)@ }),
            r == (pd@.status == PdFileStatus::Downloading && pd@.ftype != PdFileType::MultiThread),
    {
        proof {
            use_type_invariant(&*self);
        }
        self.multi = true;
        !self.is_multi_threads(pd)
    }

    /// Fallback to simple thread mode.
    pub fn fallback_to_simp(&mut self)
        ensures
            final(self)@ == (DownloaderStateView { multi: false, ..old(self)@ }),
    {
        proof {
            use_type_invariant(&*self);
        }
        self.multi = false;
    }

    /// The size of each part: the download's own once under way.
    pub fn get_part_size(&self, pd: &PdFile) -> (r: u32)
        ensures
            r == (if pd@.status == PdFileStatus::Downloading {
                pd@.part_size
            } else {
                self@.part_size
            }),
    {
        if pd.is_downloading() {
            pd.get_part_size()
        } else {
            self.part_size
        }
    }

    /// Returns true if is multiple thread mode: as the download under way
    /// is, or as set.
    pub fn is_multi_threads(&self, pd: &PdFile) -> (r: bool)
        ensures
            r == (if pd@.status == PdFileStatus::Downloading {
                pd@.ftype == PdFileType::MultiThread
            } else {
                self@.multi
            }),
    {
        if pd.is_downloading() {
            pd.is_multi_threads()
        } else {
            self.multi
        }
    }

    /// Increase the retry count and return the duration should waited, in
    /// milliseconds. If [None] is returned, should stop retry.
    pub fn get_retry_duration(&mut self) -> (r: Option<u64>)
        requires
            old(self)@.retry_count < i64::MAX,
        ensures
            r == retry_outcome(old(self)@),
            old(self)@.max_retry_count >= 0 && old(self)@.retry_count >= old(self)@.max_retry_count
                ==> r is None,
            0 <= old(self)@.retry_count < old(self)@.max_retry_count < old(self)@.retry_intervals.len()
                ==> r == Some(old(self)@.retry_intervals[old(self)@.max_retry_count as int]),
            old(self)@.max_retry_count >= old(self)@.retry_intervals.len() && old(self)@.retry_count
                < old(self)@.max_retry_count ==> r == Some(old(self)@.retry_intervals.last()),
            old(self)@.max_retry_count < 0 ==> r == Some(old(self)@.retry_intervals.last()),
            final(self)@ == (if r is None {
                old(self)@
            } else {
                DownloaderStateView { retry_count: (old(self)@.retry_count + 1) as i64, ..old(self)@ }
            }),
    {
        proof {
            use_type_invariant(&*self);
        }
        let rc = self.retry_count;
        let mc = self.max_retry_count;
        if mc >= 0 && rc >= mc {
            return None;
        }
        let n = self.retry_intervals.len();
        let dur = if mc >= 0 && (mc as u64) < (n as u64) {
            self.retry_intervals[mc as usize]
        } else {
            self.retry_intervals[n - 1]
        };
        self.retry_count = rc + 1;
        Some(dur)
    }

    /// What a task that finished (`ok`: without error) does to the
    /// downloader, and the wait before starting again, if it gives one.
    pub fn finish_task(&mut self, pd: &PdFile, ok: bool) -> (r: Option<u64>)
        requires
            old(self)@.retry_count < i64::MAX,
        ensures
            (final(self)@, r) == after_finished_task(old(self)@, pd@, ok),
    {
        let multi = self.is_multi_threads(pd);
        match task_finish(multi, pd.is_started(), ok) {
            TaskFinish::Downloaded => {
                self.set_downloaded();
                None
            },
            TaskFinish::Nothing => None,
            TaskFinish::AskRetry => match self.get_retry_duration() {
                Some(d) => Some(d),
                None => {
                    self.set_panic();
                    None
                },
            },
        }
    }

    /// Once all the parts are downloaded, the file is completed: its pd file
    /// is marked downloaded, and the download is done when the pd file is
    /// kept in memory only or removing it from disk went well (`removed`).
    /// Returns whether the download is done.
    pub fn complete_file(&mut self, pd: &mut PdFile, removed: bool) -> (r: bool)
        ensures
            final(pd)@ == (PdFileModel { status: PdFileStatus::Downloaded, ..old(pd)@ }),
            r == (old(pd)@.mem_only || removed),
            final(self)@ == (if r {
                DownloaderStateView { status: DownloaderStatus::Downloaded, ..old(self)@ }
            } else {
                old(self)@
            }),
    {
        let keep_on_disk = pd.complete();
        if !keep_on_disk || removed {
            self.set_downloaded();
            true
        } else {
            false
        }
    }
}

} // verus!
