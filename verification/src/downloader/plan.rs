use super::enums::DownloaderStatus;
use super::pd_file::enums::PdFileStatus;
use super::pd_file::file::{PdFileModel, PdFileResult};
use super::state::{after_finished_task, multi_threads, retry_outcome, DownloaderState, DownloaderStateView};
use crate::text::{decimal, push_decimal};
use vstd::prelude::*;

verus! {

/// A `Content-Range` header, as `http_content_range::ContentRange` reads it.
#[derive(Clone, Copy, Debug, PartialEq, Eq, Structural)]
pub enum ContentRangeInfo {
    /// `bytes first-last/complete`
    Bytes { first_byte: u64, last_byte: u64, complete_length: u64 },
    /// `bytes first-last/*`
    UnboundBytes { first_byte: u64, last_byte: u64 },
    /// `bytes */complete`
    Unsatisfied { complete_length: u64 },
    /// A header that does not parse.
    Unknown,
}

/// What `http_content_range::ContentRange::parse_bytes` reads from a header.
pub uninterp spec fn content_range_of(header: Seq<u8>) -> ContentRangeInfo;

/// `http_content_range::ContentRange::parse_bytes`. A byte range it reads
/// has its first byte no later than its last, and its last byte before the
/// complete length.
#[verifier::external_body]
fn parse_content_range(header: &[u8]) -> (r: ContentRangeInfo)
    ensures
        r == content_range_of(header@),
        r matches ContentRangeInfo::Bytes { first_byte, last_byte, complete_length } ==> first_byte
            <= last_byte < complete_length,
        r matches ContentRangeInfo::UnboundBytes { first_byte, last_byte } ==> first_byte
            <= last_byte,
{
    match http_content_range::ContentRange::parse_bytes(header) {
        http_content_range::ContentRange::Bytes(b) => ContentRangeInfo::Bytes {
            first_byte: b.first_byte,
            last_byte: b.last_byte,
            complete_length: b.complete_length,
        },
        http_content_range::ContentRange::UnboundBytes(b) => ContentRangeInfo::UnboundBytes {
            first_byte: b.first_byte,
            last_byte: b.last_byte,
        },
        http_content_range::ContentRange::Unsatisfied(b) => ContentRangeInfo::Unsatisfied {
            complete_length: b.complete_length,
        },
        http_content_range::ContentRange::Unknown => ContentRangeInfo::Unknown,
    }
}

/// Whether a partial response (206) to a request for the bytes from
/// `start` on must be dropped and the whole file requested again: when it
/// has no `Content-Range`, one that does not parse, one that starts
/// elsewhere, or one whose complete length differs from the known size.
pub open spec fn need_reget_spec(range: Option<ContentRangeInfo>, file_size: u64, start: u64) -> bool {
    match range {
        None => true,
        Some(ContentRangeInfo::Bytes { first_byte, complete_length, .. }) => (file_size != 0
            && complete_length != file_size) || start != first_byte,
        Some(ContentRangeInfo::UnboundBytes { first_byte, .. }) => start != first_byte,
        Some(ContentRangeInfo::Unknown) => true,
        Some(ContentRangeInfo::Unsatisfied { .. }) => false,
    }
}

/// Whether a partial response must be dropped, given what its
/// `Content-Range` header was read as.
pub fn need_reget_with(range: Option<ContentRangeInfo>, file_size: u64, start: u64) -> (r: bool)
    ensures
        r == need_reget_spec(range, file_size, start),
        range is None ==> r,
        range matches Some(ContentRangeInfo::UnboundBytes { first_byte, .. }) ==> (r <==> start
            != first_byte),
        range matches Some(ContentRangeInfo::Bytes { first_byte, complete_length, .. }) ==> (r
            <==> (start != first_byte || (file_size != 0 && complete_length != file_size))),
        range == Some(ContentRangeInfo::Unknown) ==> r,
        range matches Some(ContentRangeInfo::Unsatisfied { .. }) ==> !r,
{
    match range {
        None => true,
        Some(ContentRangeInfo::Bytes { first_byte, complete_length, .. }) => {
            if file_size != 0 && complete_length != file_size {
                true
            } else {
                start != first_byte
            }
        },
        Some(ContentRangeInfo::UnboundBytes { first_byte, .. }) => start != first_byte,
        Some(ContentRangeInfo::Unknown) => true,
        Some(ContentRangeInfo::Unsatisfied { .. }) => false,
    }
}

/// A partial response is kept only when its `Content-Range` names a byte
/// range that starts where the request asked (and, for one with a complete
/// length, that length is the known size, when it is known), or says the
/// range is not satisfiable; a range `first-last/*` is dropped exactly when
/// `first` differs from the start asked for.
pub proof fn lemma_need_reget_start(range: Option<ContentRangeInfo>, file_size: u64, start: u64)
    ensures
        !need_reget_spec(range, file_size, start) ==> match range {
            Some(ContentRangeInfo::Bytes { first_byte, complete_length, .. }) => first_byte == start
                && (file_size == 0 || complete_length == file_size),
            Some(ContentRangeInfo::UnboundBytes { first_byte, .. }) => first_byte == start,
            Some(ContentRangeInfo::Unsatisfied { .. }) => true,
            _ => false,
        },
        range matches Some(ContentRangeInfo::UnboundBytes { first_byte, .. }) ==> (
        need_reget_spec(range, file_size, start) <==> start != first_byte),
{
}

/// Whether a partial response must be dropped, given its `Content-Range`
/// header, if it has one.
pub fn need_reget(content_range: Option<&[u8]>, file_size: u64, start: u64) -> (r: bool)
    ensures
        r == need_reget_spec(
            match content_range {
                Some(h) => Some(content_range_of(h@)),
                None => None,
            },
            file_size,
            start,
        ),
        content_range is None ==> r,
        content_range matches Some(h) ==> (content_range_of(h@) matches ContentRangeInfo::UnboundBytes {
            first_byte,
            ..
        } ==> (r <==> start != first_byte)),
{
    let range = match content_range {
        Some(h) => Some(parse_content_range(h)),
        None => None,
    };
    need_reget_with(range, file_size, start)
}

/// What to do with the first response of a single stream download.
#[derive(Clone, Copy, Debug, PartialEq, Eq, Structural)]
pub enum FirstResponseAction {
    /// The range cannot be satisfied (416): request the whole file again.
    RequestAgain,
    /// The partial response does not fit: clear what was downloaded and the
    /// file, then request the whole file again.
    ClearAndRequestAgain,
    /// Go on with this response.
    Proceed,
}

pub open spec fn first_response_spec(
    status: u16,
    range: Option<ContentRangeInfo>,
    file_size: u64,
    start: u64,
) -> FirstResponseAction {
    if status == 416 {
        FirstResponseAction::RequestAgain
    } else if status == 206 && need_reget_spec(range, file_size, start) {
        FirstResponseAction::ClearAndRequestAgain
    } else {
        FirstResponseAction::Proceed
    }
}

/// What to do with the first response of a single stream download that
/// asked for the bytes from `start` on.
pub fn first_response_action(
    status: u16,
    content_range: Option<&[u8]>,
    file_size: u64,
    start: u64,
) -> (r: FirstResponseAction)
    ensures
        r == first_response_spec(
            status,
            match content_range {
                Some(h) => Some(content_range_of(h@)),
                None => None,
            },
            file_size,
            start,
        ),
{
    if status == 416 {
        FirstResponseAction::RequestAgain
    } else if status == 206 && need_reget(content_range, file_size, start) {
        FirstResponseAction::ClearAndRequestAgain
    } else {
        FirstResponseAction::Proceed
    }
}

/// Where a single stream download starts: after what was downloaded when a
/// download was under way, else at 0.
pub fn resume_start(downloading: bool, downloaded: u64) -> (r: u64)
    ensures
        r == (if downloading {
            downloaded
        } else {
            0
        }),
{
    if downloading {
        downloaded
    } else {
        0
    }
}

/// Where the download starts once the file was sought to `start`: there if
/// the seek reached it, else at 0, and then what was downloaded is cleared.
/// `seek` is the position the seek reached, `None` when it failed. Returns
/// the start and whether to clear.
pub fn start_after_seek(start: u64, seek: Option<u64>) -> (r: (u64, bool))
    ensures
        r == (if start != 0 && seek == Some(start) {
            (start, false)
        } else if start != 0 {
            (0u64, true)
        } else {
            (0u64, false)
        }),
{
    if start == 0 {
        return (0, false);
    }
    match seek {
        Some(p) => if p == start {
            (start, false)
        } else {
            (0, true)
        },
        None => (0, true),
    }
}

/// The `Range` header that asks for the bytes from `start` on.
pub fn range_from(start: u64) -> (r: String)
    ensures
        r@ == "bytes="@ + decimal(start as nat) + "-"@,
{
    let mut s = String::from_str("bytes=");
    push_decimal(&mut s, start);
    s.append("-");
    s
}

/// The `Range` header that asks for the bytes from `start` to `end`.
pub fn range_between(start: u64, end: u64) -> (r: String)
    ensures
        r@ == "bytes="@ + decimal(start as nat) + "-"@ + decimal(end as nat),
{
    let mut s = range_from(start);
    push_decimal(&mut s, end);
    s
}

/// Whether the size of the file is taken from the response's length: when
/// it is not known yet and the response is not partial.
pub fn takes_file_size(file_size: u64, status: u16) -> (r: bool)
    ensures
        r == (file_size == 0 && status != 206),
{
    file_size == 0 && status != 206
}

/// Whether a response status is an error.
pub fn is_error_status(status: u16) -> (r: bool)
    ensures
        r == (status >= 400),
{
    status >= 400
}

/// The bytes of the part `index`: from `part_size * index` to one byte
/// before the next part, or to the file size for the last part.
pub fn part_range(part_size: u32, index: u64, file_size: u64) -> (r: (u64, u64))
    requires
        part_size > 0,
        part_size * index + part_size <= u64::MAX,
    ensures
        r.0 == part_size * index,
        r.1 == (if part_size * index + part_size - 1 < file_size {
            part_size * index + part_size - 1
        } else {
            file_size as int
        }),
{
    let ps = part_size as u64;
    assert(ps * index + ps <= u64::MAX);
    let start = ps * index;
    let last = start + ps - 1;
    let end = if last < file_size {
        last
    } else {
        file_size
    };
    (start, end)
}

/// What a part download does with a response.
#[derive(Clone, Copy, Debug, PartialEq, Eq, Structural)]
pub enum PartResponse {
    /// The server ignored the range (200) or refused it (416).
    NoRangeSupport,
    /// Any other status than 206.
    Failed(u16),
    /// A partial response: download it.
    Proceed,
}

/// What a part download does with the status of its response.
pub fn part_response(status: u16) -> (r: PartResponse)
    ensures
        r == (if status == 200 || status == 416 {
            PartResponse::NoRangeSupport
        } else if status != 206 {
            PartResponse::Failed(status)
        } else {
            PartResponse::Proceed
        }),
{
    if status == 200 || status == 416 {
        PartResponse::NoRangeSupport
    } else if status != 206 {
        PartResponse::Failed(status)
    } else {
        PartResponse::Proceed
    }
}

/// Where data of a part is written: the part's start plus what was
/// downloaded of it.
pub fn part_write_offset(part_size: u32, index: u64, downloaded: u32) -> (r: u64)
    requires
        part_size * index + downloaded <= u64::MAX,
    ensures
        r == part_size * index + downloaded,
{
    let ps = part_size as u64;
    assert(ps * index + downloaded <= u64::MAX);
    ps * index + downloaded as u64
}

/// What the stream of a response gave.
#[derive(Clone, Copy, Debug, PartialEq, Eq, Structural)]
pub enum StreamEvent {
    /// A chunk of data of this length.
    Data(u64),
    /// The stream failed.
    Failed,
    /// Nothing came for too long.
    TimedOut,
    /// The stream ended.
    End,
}

/// What a download does with an event of its stream.
#[derive(Clone, Copy, Debug, PartialEq, Eq, Structural)]
pub enum StreamAction {
    /// Count the data as downloaded and append it to the file.
    Append(u64),
    /// Write the data into its part, and count it for the part and the file.
    WritePart(u64),
    /// Clear what was downloaded and fail.
    ClearAndFail,
    /// Fail.
    Fail,
    /// The download switched to a single stream: stop quietly.
    Stop,
    /// Mark the file complete.
    Complete,
    /// Mark the part downloaded.
    PartDone,
}

pub open spec fn stream_action_spec(multi: bool, still_multi: bool, ev: StreamEvent) -> StreamAction {
    if !multi {
        match ev {
            StreamEvent::Data(n) => StreamAction::Append(n),
            StreamEvent::End => StreamAction::Complete,
            _ => StreamAction::ClearAndFail,
        }
    } else if !still_multi {
        StreamAction::Stop
    } else {
        match ev {
            StreamEvent::Data(n) => StreamAction::WritePart(n),
            StreamEvent::End => StreamAction::PartDone,
            _ => StreamAction::Fail,
        }
    }
}

/// What a download does with an event of its stream. `multi` is whether it
/// started as a part of a multiple stream download, `still_multi` whether
/// the download still is one.
pub fn stream_action(multi: bool, still_multi: bool, ev: StreamEvent) -> (r: StreamAction)
    ensures
        r == stream_action_spec(multi, still_multi, ev),
{
    if !multi {
        match ev {
            StreamEvent::Data(n) => StreamAction::Append(n),
            StreamEvent::End => StreamAction::Complete,
            _ => StreamAction::ClearAndFail,
        }
    } else if !still_multi {
        StreamAction::Stop
    } else {
        match ev {
            StreamEvent::Data(n) => StreamAction::WritePart(n),
            StreamEvent::End => StreamAction::PartDone,
            _ => StreamAction::Fail,
        }
    }
}

/// What the watcher of the download tasks does with a finished task.
#[derive(Clone, Copy, Debug, PartialEq, Eq, Structural)]
pub enum TaskFinish {
    /// The single stream download is done.
    Downloaded,
    /// It failed: ask for a retry, and stop on error when there is none.
    AskRetry,
    /// Nothing to do.
    Nothing,
}

/// What the watcher does with a finished task: a single stream download
/// that went well is done; one that failed, or a failed first request of a
/// multiple stream download, asks for a retry; anything else does nothing.
pub open spec fn task_finish_of(multi: bool, first_phase: bool, ok: bool) -> TaskFinish {
    if ok {
        if multi {
            TaskFinish::Nothing
        } else {
            TaskFinish::Downloaded
        }
    } else if !multi || first_phase {
        TaskFinish::AskRetry
    } else {
        TaskFinish::Nothing
    }
}

/// What the watcher does with a finished task: `multi` is whether the
/// download uses multiple streams, `first_phase` whether its first request
/// (that learns the file size) is still under way.
pub fn task_finish(multi: bool, first_phase: bool, ok: bool) -> (r: TaskFinish)
    ensures
        r == task_finish_of(multi, first_phase, ok),
{
    if ok {
        if multi {
            TaskFinish::Nothing
        } else {
            TaskFinish::Downloaded
        }
    } else if !multi || first_phase {
        TaskFinish::AskRetry
    } else {
        TaskFinish::Nothing
    }
}

/// What the watcher does once it handled the finished tasks of a round.
#[derive(Clone, Copy, Debug, PartialEq, Eq, Structural)]
pub enum RoundAction {
    /// Wait this many milliseconds, then start the single stream again.
    RestartSimple(u64),
    /// Wait this many milliseconds, then start the first request again.
    RestartFirst(u64),
    /// Update the progress, start part tasks if `add_tasks`, and complete
    /// the file if `complete`.
    Parts { add_tasks: bool, complete: bool },
    /// Nothing to do.
    Wait,
}

pub open spec fn round_action_spec(
    multi: bool,
    first_phase: bool,
    running: nat,
    max_threads: nat,
    retry: Option<u64>,
    all_parts_done: bool,
) -> RoundAction {
    if !multi {
        match retry {
            Some(d) => RoundAction::RestartSimple(d),
            None => RoundAction::Wait,
        }
    } else if first_phase {
        match retry {
            Some(d) => if running == 0 {
                RoundAction::RestartFirst(d)
            } else {
                RoundAction::Wait
            },
            None => RoundAction::Wait,
        }
    } else {
        RoundAction::Parts { add_tasks: running < max_threads, complete: all_parts_done }
    }
}

/// What the watcher does after a round: `running` tasks are left,
/// `retry` is the wait a failure of the round asked for, if any.
pub fn round_action(
    multi: bool,
    first_phase: bool,
    running: usize,
    max_threads: u64,
    retry: Option<u64>,
    all_parts_done: bool,
) -> (r: RoundAction)
    ensures
        r == round_action_spec(
            multi,
            first_phase,
            running as nat,
            max_threads as nat,
            retry,
            all_parts_done,
        ),
{
    if !multi {
        match retry {
            Some(d) => RoundAction::RestartSimple(d),
            None => RoundAction::Wait,
        }
    } else if first_phase {
        match retry {
            Some(d) => if running == 0 {
                RoundAction::RestartFirst(d)
            } else {
                RoundAction::Wait
            },
            None => RoundAction::Wait,
        }
    } else {
        RoundAction::Parts {
            add_tasks: (running as u64) < max_threads,
            complete: all_parts_done,
        }
    }
}

/// How many part tasks to start: as many as there are free threads.
pub fn tasks_to_start(max_threads: u64, running: usize) -> (r: u64)
    requires
        running <= max_threads,
    ensures
        r == max_threads - running,
{
    max_threads - running as u64
}

/// What a new downloader does with what opening the pd file of its target
/// gave.
#[derive(Clone, Copy, Debug, PartialEq, Eq, Structural)]
pub enum OpenAction {
    /// The target is there and is not to be overwritten: cancel.
    Cancel,
    /// Remove the target and open its pd file again.
    RemoveAndReopen,
    /// Ask the user whether to overwrite the target.
    Ask,
    /// A new download: create the target.
    Start,
    /// A download under way: open the target and go on.
    Resume,
}

/// What a new downloader does with what opening the pd file gave, given
/// whether to overwrite (`None`: ask).
pub fn open_action(opened: &PdFileResult, overwrite: Option<bool>) -> (r: OpenAction)
    ensures
        r == match *opened {
            PdFileResult::Created(_) => OpenAction::Start,
            PdFileResult::ExistedOk(_) => OpenAction::Resume,
            PdFileResult::TargetExisted => match overwrite {
                Some(false) => OpenAction::Cancel,
                Some(true) => OpenAction::RemoveAndReopen,
                None => OpenAction::Ask,
            },
        },
{
    match opened {
        PdFileResult::Created(_) => OpenAction::Start,
        PdFileResult::ExistedOk(_) => OpenAction::Resume,
        PdFileResult::TargetExisted => match overwrite {
            Some(false) => OpenAction::Cancel,
            Some(true) => OpenAction::RemoveAndReopen,
            None => OpenAction::Ask,
        },
    }
}

/// How the watcher of the download tasks ends.
#[derive(Clone, Copy, Debug, PartialEq, Eq, Structural)]
pub enum WatchEnd {
    /// The downloader was dropped: stop at once, leaving the tasks.
    Dropped,
    /// Stop, aborting the tasks still running when the download stopped on
    /// an error.
    Finished { abort_tasks: bool },
}

/// Whether the watcher stops, and how, checked after each round: at once
/// when the downloader was dropped; when the download is done or stopped
/// on an error (aborting the tasks left in that case); otherwise it goes on
/// (`None`).
pub open spec fn watch_end_of(s: DownloaderStateView) -> Option<WatchEnd> {
    if s.dropped {
        Some(WatchEnd::Dropped)
    } else if s.status == DownloaderStatus::Downloaded || s.status == DownloaderStatus::Panic {
        Some(WatchEnd::Finished { abort_tasks: s.status == DownloaderStatus::Panic })
    } else {
        None
    }
}

/// Whether the watcher stops, and how, checked after each round.
pub fn watch_end(s: &DownloaderState) -> (r: Option<WatchEnd>)
    ensures
        r == watch_end_of(s@),
{
    if s.is_dropped() {
        Some(WatchEnd::Dropped)
    } else if s.is_downloaded() {
        Some(WatchEnd::Finished { abort_tasks: false })
    } else if s.is_panic() {
        Some(WatchEnd::Finished { abort_tasks: true })
    } else {
        None
    }
}

/// During a download, a finished task stops the watcher exactly when it
/// ends the download: a single stream download that went well stops it
/// without aborting anything; a task that asks for a retry when none is
/// left stops it, aborting the other tasks; any other task leaves it
/// running.
pub proof fn lemma_finished_task_watch(s: DownloaderStateView, pd: PdFileModel, ok: bool)
    requires
        s.status == DownloaderStatus::Downloading,
        !s.dropped,
    ensures
        ({
            let t = after_finished_task(s, pd, ok).0;
            let f = task_finish_of(multi_threads(s, pd), pd.status == PdFileStatus::Started, ok);
            &&& f == TaskFinish::Downloaded ==> watch_end_of(t) == Some(
                WatchEnd::Finished { abort_tasks: false },
            )
            &&& (f == TaskFinish::AskRetry && retry_outcome(s) is None) ==> watch_end_of(t) == Some(
                WatchEnd::Finished { abort_tasks: true },
            )
            &&& (f == TaskFinish::Nothing || (f == TaskFinish::AskRetry && retry_outcome(s) is Some))
                ==> watch_end_of(t) is None
        }),
{
}

/// Completing the file of a download under way stops the watcher, without
/// aborting anything, exactly when the download is then done.
pub proof fn lemma_completed_file_watch(s: DownloaderStateView, mem_only: bool, removed: bool)
    requires
        s.status == DownloaderStatus::Downloading,
        !s.dropped,
    ensures
        watch_end_of(
            if mem_only || removed {
                DownloaderStateView { status: DownloaderStatus::Downloaded, ..s }
            } else {
                s
            },
        ) == (if mem_only || removed {
            Some(WatchEnd::Finished { abort_tasks: false })
        } else {
            None
        }),
{
}

} // verus!
