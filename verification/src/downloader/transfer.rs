//! The bookkeeping of a download between the chunks that arrive: the progress reports it
//! sends, what it records once done, and what to do after a failed try. Receiving and
//! writing the bytes happens outside.
use vstd::prelude::*;

use super::progress::{DownloadProgress, DownloadProgressEvent};
use super::range::{
    build_download_parts, build_part_paths, part_count_spec, part_path_spec, part_spec,
    range_header_spec, range_header_value, DownloadPart,
};
use super::request::{insert_header_spec, valid_header_value, FetchRequest, HttpMethod, RequestOptions};
use crate::text::{decimal, digit_char, lower_seq};
use super::request::{is_success_status, HeaderList, SavedDownload};
use super::retry::{retry_delay_nanos, retryable_status, AttemptOutcome, RetryPolicy, RetryStep};
use crate::text::owned;
use crate::time::duration_nanos;

verus! {

/// `a + b` capped at the largest `u64`.
pub open spec fn add_capped(a: u64, b: nat) -> u64 {
    if a + b > u64::MAX {
        u64::MAX
    } else {
        (a + b) as u64
    }
}

/// A byte count as a `usize`, capped at the largest one.
pub open spec fn count_as_usize(n: u64) -> usize {
    if n > usize::MAX {
        usize::MAX
    } else {
        n as usize
    }
}

fn capped_add(a: u64, b: usize) -> (r: u64)
    ensures
        r == add_capped(a, b as nat),
{
    let c: u64 = if b as u128 > u64::MAX as u128 {
        u64::MAX
    } else {
        b as u64
    };
    a.saturating_add(c)
}

fn to_usize_capped(n: u64) -> (r: usize)
    ensures
        r == count_as_usize(n),
{
    if n as u128 > usize::MAX as u128 {
        usize::MAX
    } else {
        n as usize
    }
}

/// The progress report `p` says `event` of the download of `url` to `path`, with `done` bytes
/// of `total` received.
pub open spec fn reports(
    p: DownloadProgress,
    url: Seq<char>,
    path: Seq<char>,
    done: u64,
    total: Option<u64>,
    event: DownloadProgressEvent,
) -> bool {
    &&& p.url@ == url
    &&& p.path@ == path
    &&& p.downloaded_bytes == done
    &&& p.total_bytes == total
    &&& p.event == event
}

/// A download received in one response and written to one file.
pub struct SingleDownload {
    url: String,
    path: String,
    total: Option<u64>,
    downloaded: u64,
}

impl SingleDownload {
    /// The URL downloaded.
    pub closed spec fn url_view(&self) -> Seq<char> {
        self.url@
    }

    /// The file written.
    pub closed spec fn path_view(&self) -> Seq<char> {
        self.path@
    }

    /// The announced size, if any.
    pub closed spec fn total_view(&self) -> Option<u64> {
        self.total
    }

    /// The bytes received so far.
    pub closed spec fn downloaded_view(&self) -> u64 {
        self.downloaded
    }

    /// Starts from the response's status: a status that is not 2xx ends the download with
    /// nothing written; otherwise the download starts at zero bytes and reports so.
    pub fn begin(url: &str, path: &str, status: u16, headers: HeaderList, total: Option<u64>) -> (r: Result<
        (Self, DownloadProgress),
        SavedDownload,
    >)
        ensures
            !is_success_status(status) ==> (r matches Err(s) && s.url@ == url@ && s.status == status
                && s.headers@ == headers@ && s.path@ == path@ && s.bytes_written == 0),
            is_success_status(status) ==> (r matches Ok((d, p)) && d.url_view() == url@
                && d.path_view() == path@ && d.total_view() == total && d.downloaded_view() == 0
                && reports(p, url@, path@, 0, total, DownloadProgressEvent::Started)),
    {
        if !(200 <= status && status <= 299) {
            return Err(
                SavedDownload {
                    url: owned(url),
                    status,
                    headers,
                    path: owned(path),
                    bytes_written: 0,
                },
            );
        }
        let d = SingleDownload { url: owned(url), path: owned(path), total, downloaded: 0 };
        let p = DownloadProgress::new(url, path, 0, total, DownloadProgressEvent::Started);
        Ok((d, p))
    }

    /// Counts a received chunk (the count stops at the largest `u64`) and reports it.
    pub fn advance(&mut self, chunk_len: usize) -> (p: DownloadProgress)
        ensures
            final(self).downloaded_view() == add_capped(old(self).downloaded_view(), chunk_len as nat),
            final(self).url_view() == old(self).url_view(),
            final(self).path_view() == old(self).path_view(),
            final(self).total_view() == old(self).total_view(),
            reports(
                p,
                old(self).url_view(),
                old(self).path_view(),
                final(self).downloaded_view(),
                old(self).total_view(),
                DownloadProgressEvent::Advanced,
            ),
    {
        self.downloaded = capped_add(self.downloaded, chunk_len);
        DownloadProgress::new(
            self.url.as_str(),
            self.path.as_str(),
            self.downloaded,
            self.total,
            DownloadProgressEvent::Advanced,
        )
    }

    /// Ends the download: reports it finished and records the status, the headers and the
    /// bytes received.
    pub fn finish(self, status: u16, headers: HeaderList) -> (r: (DownloadProgress, SavedDownload))
        ensures
            reports(
                r.0,
                self.url_view(),
                self.path_view(),
                self.downloaded_view(),
                self.total_view(),
                DownloadProgressEvent::Finished,
            ),
            r.1.url@ == self.url_view(),
            r.1.status == status,
            r.1.headers@ == headers@,
            r.1.path@ == self.path_view(),
            r.1.bytes_written == count_as_usize(self.downloaded_view()),
    {
        let p = DownloadProgress::new(
            self.url.as_str(),
            self.path.as_str(),
            self.downloaded,
            self.total,
            DownloadProgressEvent::Finished,
        );
        let bytes_written = to_usize_capped(self.downloaded);
        (p, SavedDownload { url: self.url, status, headers, path: self.path, bytes_written })
    }
}

impl RetryPolicy {
    /// The decision after try number `attempt` of a download to a file: a 2xx answer is
    /// kept; any other answer or a failure is tried again after `delay_for_attempt(attempt)`
    /// while retries are left and, for an answer, its status is worth retrying; otherwise the
    /// download is given up.
    pub fn after_download_attempt(&self, attempt: usize, outcome: AttemptOutcome) -> (step: RetryStep)
        requires
            attempt <= self.max_retries,
        ensures
            outcome matches AttemptOutcome::Response(s) && is_success_status(s) ==> step
                == RetryStep::Accept,
            outcome matches AttemptOutcome::Response(s) && !is_success_status(s) && (
            !retryable_status(s) || attempt == self.max_retries) ==> step == RetryStep::GiveUp,
            outcome is Failed && attempt == self.max_retries ==> step == RetryStep::GiveUp,
            (outcome is Failed || (outcome matches AttemptOutcome::Response(s) && !is_success_status(
                s,
            ) && retryable_status(s))) && attempt < self.max_retries ==> (step matches RetryStep::Wait(
                d,
            ) && duration_nanos(d) == retry_delay_nanos(
                duration_nanos(self.base_delay),
                duration_nanos(self.max_delay),
                self.jitter,
                attempt as nat,
            )),
    {
        match outcome {
            AttemptOutcome::Response(status) => {
                if 200 <= status && status <= 299 {
                    RetryStep::Accept
                } else if !self.should_retry_status(status) || attempt == self.max_retries {
                    RetryStep::GiveUp
                } else {
                    RetryStep::Wait(self.delay_for_attempt(attempt))
                }
            },
            AttemptOutcome::Failed => {
                if attempt == self.max_retries {
                    RetryStep::GiveUp
                } else {
                    RetryStep::Wait(self.delay_for_attempt(attempt))
                }
            },
        }
    }
}

/// Every character of a number written in decimal is a digit, fit for a header value.
proof fn lemma_decimal_header(n: nat)
    ensures
        valid_header_value(decimal(n)),
    decreases n,
{
    if n >= 10 {
        lemma_decimal_header(n / 10);
        lemma_digit_header((n % 10) as nat);
        assert forall|i: int| 0 <= i < decimal(n).len() implies super::request::is_header_value_char(
            #[trigger] decimal(n)[i],
        ) by {
            if i < decimal(n / 10).len() {
                assert(decimal(n)[i] == decimal(n / 10)[i]);
            }
        }
    } else {
        lemma_digit_header(n);
    }
}

proof fn lemma_digit_header(d: nat)
    requires
        d < 10,
    ensures
        super::request::is_header_value_char(digit_char(d)),
{
    let c = digit_char(d);
    assert((c as u32) as int == 48 + d);
}

/// Joining two header values keeps the result fit for a header.
proof fn lemma_concat_header(a: Seq<char>, b: Seq<char>)
    requires
        valid_header_value(a),
        valid_header_value(b),
    ensures
        valid_header_value(a + b),
{
    assert forall|i: int| 0 <= i < (a + b).len() implies super::request::is_header_value_char(
        #[trigger] (a + b)[i],
    ) by {
        if i < a.len() {
            assert((a + b)[i] == a[i]);
        } else {
            assert((a + b)[i] == b[i - a.len()]);
        }
    }
}

/// The `Range` value of any part is fit for a header.
proof fn lemma_range_header(part: DownloadPart)
    ensures
        valid_header_value(range_header_spec(part)),
{
    reveal_strlit("bytes=");
    lemma_decimal_header(part.start_byte as nat);
    lemma_decimal_header(part.end_byte as nat);
    let b = "bytes="@;
    assert(valid_header_value(b));
    assert(valid_header_value(seq!['-']));
    lemma_concat_header(b, decimal(part.start_byte as nat));
    lemma_concat_header(b + decimal(part.start_byte as nat), seq!['-']);
    lemma_concat_header(b + decimal(part.start_byte as nat) + seq!['-'], decimal(part.end_byte as nat));
}

/// What to do after a part failed.
pub enum PartStep {
    /// Wait this long, then fetch the part again.
    Retry(std::time::Duration),
    /// Stop the download and remove these part files.
    Abort(Vec<String>),
}

/// A download fetched in byte ranges, each written to its own part file, then merged.
pub struct RangedDownload {
    url: String,
    path: String,
    total: u64,
    parts: Vec<DownloadPart>,
    part_paths: Vec<String>,
    downloaded: u64,
}

/// The part files as texts.
pub open spec fn paths_view(v: Seq<String>) -> Seq<Seq<char>> {
    v.map_values(|s: String| s@)
}

impl RangedDownload {
    /// The URL downloaded.
    pub closed spec fn url_view(&self) -> Seq<char> {
        self.url@
    }

    /// The file written at the end.
    pub closed spec fn path_view(&self) -> Seq<char> {
        self.path@
    }

    /// The size of the file.
    pub closed spec fn total_view(&self) -> u64 {
        self.total
    }

    /// The byte ranges.
    pub closed spec fn parts_view(&self) -> Seq<DownloadPart> {
        self.parts@
    }

    /// The part files, one per range.
    pub closed spec fn part_paths_view(&self) -> Seq<Seq<char>> {
        paths_view(self.part_paths@)
    }

    /// The bytes received so far over all parts.
    pub closed spec fn downloaded_view(&self) -> u64 {
        self.downloaded
    }

    /// Every range has its part file.
    #[verifier::type_invariant]
    spec fn one_file_per_range(&self) -> bool {
        self.parts@.len() == self.part_paths@.len()
    }

    /// Plans a ranged download of `total` bytes with at most `max_concurrent` requests at
    /// once, and reports it started.
    pub fn start(url: &str, path: &str, total: u64, max_concurrent: usize) -> (r: (Self, DownloadProgress))
        ensures
            r.0.url_view() == url@,
            r.0.path_view() == path@,
            r.0.total_view() == total,
            r.0.downloaded_view() == 0,
            r.0.parts_view().len() == part_count_spec(total as nat, max_concurrent as nat),
            forall|i: int|
                0 <= i < r.0.parts_view().len() ==> (#[trigger] r.0.parts_view()[i]).index == i && (
                r.0.parts_view()[i].start_byte as nat, r.0.parts_view()[i].end_byte as nat) == part_spec(
                    total as nat,
                    r.0.parts_view().len() as nat,
                    i as nat,
                ),
            r.0.part_paths_view().len() == r.0.parts_view().len(),
            forall|i: int|
                0 <= i < r.0.part_paths_view().len() ==> #[trigger] r.0.part_paths_view()[i] == part_path_spec(
                    path@,
                    i as nat,
                ),
            reports(r.1, url@, path@, 0, Some(total), DownloadProgressEvent::Started),
    {
        let parts = build_download_parts(total, max_concurrent);
        let part_paths = build_part_paths(path, parts.len());
        let d = RangedDownload { url: owned(url), path: owned(path), total, parts, part_paths, downloaded: 0 };
        assert forall|i: int| 0 <= i < d.part_paths_view().len() implies #[trigger] d.part_paths_view()[i]
            == part_path_spec(path@, i as nat) by {
            assert(d.part_paths_view()[i] == d.part_paths@[i]@);
        }
        let p = DownloadProgress::new(url, path, 0, Some(total), DownloadProgressEvent::Started);
        (d, p)
    }

    /// The number of ranges.
    pub fn part_count(&self) -> (n: usize)
        ensures
            n == self.parts_view().len(),
    {
        self.parts.len()
    }

    /// The part file of range `i`.
    pub fn part_path(&self, i: usize) -> (p: String)
        requires
            i < self.parts_view().len(),
        ensures
            p@ == self.part_paths_view()[i as int],
    {
        proof {
            use_type_invariant(self);
        }
        owned(self.part_paths[i].as_str())
    }

    /// Every part file, for removal once merged.
    pub fn part_paths(&self) -> (v: Vec<String>)
        ensures
            paths_view(v@) == self.part_paths_view(),
    {
        let mut v: Vec<String> = Vec::new();
        let mut k: usize = 0;
        while k < self.part_paths.len()
            invariant
                k <= self.part_paths@.len(),
                paths_view(v@) == paths_view(self.part_paths@).take(k as int),
            decreases self.part_paths@.len() - k,
        {
            let ghost before = paths_view(v@);
            v.push(owned(self.part_paths[k].as_str()));
            assert(paths_view(v@) =~= before.push(self.part_paths@[k as int]@));
            k = k + 1;
            assert(paths_view(v@) =~= paths_view(self.part_paths@).take(k as int));
        }
        assert(paths_view(self.part_paths@).take(k as int) =~= paths_view(self.part_paths@));
        v
    }

    /// The request for range `i`: a GET of the same URL with the request's headers, its
    /// `Range`, and `Accept-Encoding: identity` so that the bytes arrive as stored.
    pub fn part_request(&self, request: &FetchRequest, i: usize) -> (r: FetchRequest)
        requires
            i < self.parts_view().len(),
        ensures
            r.method == HttpMethod::Get,
            r.url@ == request.url@,
            r.body is None,
            r.options.timeout == request.options.timeout,
            r.options.follow_redirects == request.options.follow_redirects,
            r.options.headers@ == insert_header_spec(
                insert_header_spec(request.options.headers@, "range"@, range_header_spec(self.parts_view()[i as int])),
                "accept-encoding"@,
                "identity"@,
            ),
    {
        let part = self.parts[i];
        proof {
            lemma_range_header(part);
            reveal_strlit("range");
            reveal_strlit("accept-encoding");
            reveal_strlit("identity");
            assert(lower_seq("range"@) =~= "range"@);
            assert(lower_seq("accept-encoding"@) =~= "accept-encoding"@);
        }
        let mut headers = request.options.headers.copy();
        let value = range_header_value(&part);
        let r1 = headers.insert("range", value.as_str());
        assert(r1 is Ok);
        let r2 = headers.insert("accept-encoding", "identity");
        assert(r2 is Ok);
        FetchRequest {
            method: HttpMethod::Get,
            url: owned(request.url.as_str()),
            body: None,
            options: RequestOptions {
                timeout: request.options.timeout,
                headers,
                follow_redirects: request.options.follow_redirects,
            },
        }
    }

    /// Whether the answer to a range request can be written as the part: only `206 Partial
    /// Content`; a whole body would corrupt the merged file.
    pub fn part_answer_ok(status: u16) -> (b: bool)
        ensures
            b == (status == 206),
    {
        status == 206
    }

    /// Reports that range `i` starts.
    pub fn part_started(&self, i: usize) -> (p: DownloadProgress)
        requires
            i < self.parts_view().len(),
        ensures
            reports(
                p,
                self.url_view(),
                self.path_view(),
                self.downloaded_view(),
                Some(self.total_view()),
                DownloadProgressEvent::PartStarted {
                    part_index: self.parts_view()[i as int].index,
                    start_byte: self.parts_view()[i as int].start_byte,
                    end_byte: self.parts_view()[i as int].end_byte,
                },
            ),
    {
        let part = self.parts[i];
        DownloadProgress::new(
            self.url.as_str(),
            self.path.as_str(),
            self.downloaded,
            Some(self.total),
            DownloadProgressEvent::PartStarted {
                part_index: part.index,
                start_byte: part.start_byte,
                end_byte: part.end_byte,
            },
        )
    }

    /// Counts a chunk received for any range (the count stops at the largest `u64`) and
    /// reports it.
    pub fn advance(&mut self, chunk_len: usize) -> (p: DownloadProgress)
        ensures
            final(self).downloaded_view() == add_capped(old(self).downloaded_view(), chunk_len as nat),
            final(self).url_view() == old(self).url_view(),
            final(self).path_view() == old(self).path_view(),
            final(self).total_view() == old(self).total_view(),
            final(self).parts_view() == old(self).parts_view(),
            final(self).part_paths_view() == old(self).part_paths_view(),
            reports(
                p,
                old(self).url_view(),
                old(self).path_view(),
                final(self).downloaded_view(),
                Some(old(self).total_view()),
                DownloadProgressEvent::Advanced,
            ),
    {
        proof {
            use_type_invariant(&*self);
        }
        self.downloaded = capped_add(self.downloaded, chunk_len);
        DownloadProgress::new(
            self.url.as_str(),
            self.path.as_str(),
            self.downloaded,
            Some(self.total),
            DownloadProgressEvent::Advanced,
        )
    }

    /// Reports that range `i` is written.
    pub fn part_finished(&self, i: usize) -> (p: DownloadProgress)
        requires
            i < self.parts_view().len(),
        ensures
            reports(
                p,
                self.url_view(),
                self.path_view(),
                self.downloaded_view(),
                Some(self.total_view()),
                DownloadProgressEvent::PartFinished {
                    part_index: self.parts_view()[i as int].index,
                    start_byte: self.parts_view()[i as int].start_byte,
                    end_byte: self.parts_view()[i as int].end_byte,
                },
            ),
    {
        let part = self.parts[i];
        DownloadProgress::new(
            self.url.as_str(),
            self.path.as_str(),
            self.downloaded,
            Some(self.total),
            DownloadProgressEvent::PartFinished {
                part_index: part.index,
                start_byte: part.start_byte,
                end_byte: part.end_byte,
            },
        )
    }

    /// The decision after try number `attempt` of a range failed: fetch it again after
    /// `delay_for_attempt(attempt)` while retries are left, else stop and remove every part
    /// file.
    pub fn on_part_failure(&self, policy: &RetryPolicy, attempt: usize) -> (step: PartStep)
        requires
            attempt <= policy.max_retries,
        ensures
            attempt < policy.max_retries ==> (step matches PartStep::Retry(d) && duration_nanos(d)
                == retry_delay_nanos(
                duration_nanos(policy.base_delay),
                duration_nanos(policy.max_delay),
                policy.jitter,
                attempt as nat,
            )),
            attempt == policy.max_retries ==> (step matches PartStep::Abort(v) && paths_view(v@)
                == self.part_paths_view()),
    {
        if attempt < policy.max_retries {
            PartStep::Retry(policy.delay_for_attempt(attempt))
        } else {
            PartStep::Abort(self.part_paths())
        }
    }

    /// Ends the download once the parts are merged: reports it finished with every byte and
    /// records status 200, the headers of the probe and the size.
    pub fn finish(self, probe_headers: HeaderList) -> (r: (DownloadProgress, SavedDownload))
        ensures
            reports(
                r.0,
                self.url_view(),
                self.path_view(),
                self.total_view(),
                Some(self.total_view()),
                DownloadProgressEvent::Finished,
            ),
            r.1.url@ == self.url_view(),
            r.1.status == 200,
            r.1.headers@ == probe_headers@,
            r.1.path@ == self.path_view(),
            r.1.bytes_written == count_as_usize(self.total_view()),
    {
        let p = DownloadProgress::new(
            self.url.as_str(),
            self.path.as_str(),
            self.total,
            Some(self.total),
            DownloadProgressEvent::Finished,
        );
        let bytes_written = to_usize_capped(self.total);
        (p, SavedDownload { url: self.url, status: 200, headers: probe_headers, path: self.path, bytes_written })
    }
}

} // verus!
