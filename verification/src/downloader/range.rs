//! Planning of ranged, parallel downloads.
use vstd::prelude::*;

use super::request::{FetchRequest, HttpMethod};
use crate::path::{file_name_of, join_path, parent_of, path_file_name, path_join, path_parent};
use crate::analysis::json::{digits_value, lemma_digits_monotone};
use crate::text::{chars_eq_ignore_case, chars_of, decimal, eq_ignore_case, push_chars, push_decimal, push_str, string_of};

verus! {

/// The size above which a file is downloaded in parts (10 MiB).
pub const DEFAULT_PARALLEL_DOWNLOAD_THRESHOLD: u64 = 10485760;

/// The size of one part (5 MiB).
pub const DEFAULT_DOWNLOAD_PART_SIZE: u64 = 5242880;

/// The largest number of parts of one file.
pub const DEFAULT_MAX_DOWNLOAD_PARTS: usize = 8;

/// One byte range of a ranged download.
#[derive(Clone, Copy, Debug, PartialEq, Eq, Structural)]
pub struct DownloadPart {
    pub index: usize,
    pub start_byte: u64,
    pub end_byte: u64,
}

/// What the server told about a download before it starts.
#[derive(Clone, Copy, Debug, PartialEq, Eq, Structural)]
pub struct DownloadProbe {
    pub content_length: Option<u64>,
    pub accepts_ranges: bool,
}

/// `ceil(a / b)` for a positive divisor.
pub open spec fn div_ceil(a: nat, b: nat) -> nat
    recommends
        b > 0,
{
    if a % b == 0 {
        a / b
    } else {
        a / b + 1
    }
}

/// The number of parts: one per 5 MiB, between 1 and 8, and no more than the request limit
/// (itself at least 1).
pub open spec fn part_count_spec(total: nat, max_concurrent: nat) -> nat {
    let by_size = div_ceil(total, DEFAULT_DOWNLOAD_PART_SIZE as nat);
    let clamped = if by_size < 1 {
        1
    } else if by_size > 8 {
        8
    } else {
        by_size
    };
    let limit = if max_concurrent < 1 {
        1
    } else {
        max_concurrent
    };
    if clamped <= limit {
        clamped
    } else {
        limit
    }
}

/// Part `i` of a plan with `count` parts: `[i * size, min((i + 1) * size - 1, total - 1)]`
/// with `size = ceil(total / count)`, subtractions saturating at zero.
pub open spec fn part_spec(total: nat, count: nat, i: nat) -> (nat, nat) {
    let size = div_ceil(total, count);
    let upper = if (i + 1) * size == 0 {
        0
    } else {
        ((i + 1) * size - 1) as nat
    };
    let last = if total == 0 {
        0
    } else {
        (total - 1) as nat
    };
    (i * size, if upper <= last {
        upper
    } else {
        last
    })
}

/// Splits a download of `total_bytes` into byte ranges.
pub fn build_download_parts(total_bytes: u64, max_concurrent_requests: usize) -> (parts: Vec<
    DownloadPart,
>)
    ensures
        parts@.len() == part_count_spec(total_bytes as nat, max_concurrent_requests as nat),
        forall|i: int|
            0 <= i < parts@.len() ==> (#[trigger] parts@[i]).index == i && (
            parts@[i].start_byte as nat, parts@[i].end_byte as nat) == part_spec(
                total_bytes as nat,
                parts@.len() as nat,
                i as nat,
            ),
{
    let by_size: u64 = if total_bytes % DEFAULT_DOWNLOAD_PART_SIZE == 0 {
        total_bytes / DEFAULT_DOWNLOAD_PART_SIZE
    } else {
        total_bytes / DEFAULT_DOWNLOAD_PART_SIZE + 1
    };
    let clamped: u64 = if by_size < 1 {
        1
    } else if by_size > 8 {
        8
    } else {
        by_size
    };
    let limit: u64 = if max_concurrent_requests < 1 {
        1
    } else if max_concurrent_requests as u128 > 8 {
        8
    } else {
        max_concurrent_requests as u64
    };
    let count: u64 = if clamped <= limit {
        clamped
    } else {
        limit
    };
    assert(count == part_count_spec(total_bytes as nat, max_concurrent_requests as nat));
    let q: u64 = total_bytes / count;
    let rem: u64 = total_bytes % count;
    assert(q * count + rem == total_bytes && rem < count) by (nonlinear_arith)
        requires
            q == total_bytes / count,
            rem == total_bytes % count,
            count >= 1,
    ;
    assert(rem != 0 ==> q < u64::MAX) by (nonlinear_arith)
        requires
            q * count + rem == total_bytes,
            rem < count,
            count >= 1,
            total_bytes <= u64::MAX,
    ;
    let size: u64 = if rem == 0 {
        q
    } else {
        q + 1
    };
    assert(size as nat == div_ceil(total_bytes as nat, count as nat));
    // Several parts only happen above 5 MiB, and then every part starts inside the file.
    assert(count >= 2 ==> total_bytes > (count - 1) * 5242880);
    assert(count >= 2 ==> (count - 1) * size < total_bytes) by (nonlinear_arith)
        requires
            count >= 2 ==> total_bytes > (count - 1) * 5242880,
            q * count + rem == total_bytes,
            rem < count,
            count <= 8,
            rem == 0 ==> size == q,
            rem != 0 ==> size == q + 1,
    ;
    let last: u64 = if total_bytes == 0 {
        0
    } else {
        total_bytes - 1
    };
    let mut parts: Vec<DownloadPart> = Vec::new();
    let mut i: u64 = 0;
    while i < count
        invariant
            1 <= count <= 8,
            i <= count,
            size as nat == div_ceil(total_bytes as nat, count as nat),
            count >= 2 ==> (count - 1) * size < total_bytes,
            last as nat == if total_bytes == 0 {
                0
            } else {
                (total_bytes - 1) as nat
            },
            parts@.len() == i,
            forall|j: int|
                0 <= j < i ==> (#[trigger] parts@[j]).index == j && (
                parts@[j].start_byte as nat, parts@[j].end_byte as nat) == part_spec(
                    total_bytes as nat,
                    count as nat,
                    j as nat,
                ),
        decreases count - i,
    {
        assert(i * size <= u64::MAX) by (nonlinear_arith)
            requires
                i < count,
                count >= 2 ==> (count - 1) * size < total_bytes,
                count == 1 ==> i == 0,
                total_bytes <= u64::MAX,
        ;
        assert((i + 1) * size <= 8 * 18446744073709551615) by (nonlinear_arith)
            requires
                i < count,
                count <= 8,
                size <= u64::MAX,
        ;
        let start: u64 = i * size;
        let next: u128 = ((i + 1) as u128) * (size as u128);
        let upper: u128 = if next == 0 {
            0
        } else {
            next - 1
        };
        let end: u64 = if upper <= last as u128 {
            upper as u64
        } else {
            last
        };
        parts.push(DownloadPart { index: i as usize, start_byte: start, end_byte: end });
        i = i + 1;
    }
    parts
}

/// The parts of a plan tile the file: for a file of at least one byte, the first part starts
/// at byte 0, no part is empty, each part starts right after the one before it ends, and the
/// last part ends at the file's last byte.
pub proof fn law_parts_tile_file(total: nat, max_concurrent: nat)
    requires
        total > 0,
    ensures
        ({
            let n = part_count_spec(total, max_concurrent);
            &&& 1 <= n <= 8
            &&& part_spec(total, n, 0).0 == 0
            &&& forall|i: nat| i < n ==> (#[trigger] part_spec(total, n, i)).0 <= part_spec(total, n, i).1
            &&& forall|i: nat| i + 1 < n ==> part_spec(total, n, (i + 1) as nat).0 == (#[trigger] part_spec(
                total,
                n,
                i,
            )).1 + 1
            &&& part_spec(total, n, (n - 1) as nat).1 == total - 1
        }),
{
    let n = part_count_spec(total, max_concurrent);
    let size = div_ceil(total, n);
    assert(1 <= n <= 8);
    assert(n >= 2 ==> total > (n - 1) * 5242880);
    let q = total / n;
    let rem = total % n;
    assert(q * n + rem == total && rem < n) by (nonlinear_arith)
        requires
            q == total / n,
            rem == total % n,
            n >= 1,
    ;
    assert(size * n >= total && size >= 1) by (nonlinear_arith)
        requires
            q * n + rem == total,
            rem < n,
            n >= 1,
            total > 0,
            rem == 0 ==> size == q,
            rem != 0 ==> size == q + 1,
    ;
    assert((n - 1) * size < total) by (nonlinear_arith)
        requires
            n >= 2 ==> total > (n - 1) * 5242880,
            q * n + rem == total,
            rem < n,
            1 <= n <= 8,
            total > 0,
            rem == 0 ==> size == q,
            rem != 0 ==> size == q + 1,
    ;
    assert forall|i: nat| i < n implies (#[trigger] part_spec(total, n, i)).0 <= part_spec(total, n, i).1 by {
        assert(i * size <= (n - 1) * size) by (nonlinear_arith)
            requires
                i < n,
        ;
        assert(i * size + size == (i + 1) * size) by (nonlinear_arith);
    }
    assert forall|i: nat| i + 1 < n implies part_spec(total, n, (i + 1) as nat).0 == (#[trigger] part_spec(
        total,
        n,
        i,
    )).1 + 1 by {
        assert((i + 1) * size <= (n - 1) * size) by (nonlinear_arith)
            requires
                i + 1 < n,
        ;
        assert((i + 1) * size >= 1) by (nonlinear_arith)
            requires
                size >= 1,
        ;
        assert(part_spec(total, n, i).1 == (i + 1) * size - 1);
        assert(part_spec(total, n, (i + 1) as nat).0 == (i + 1) * size);
    }
    let m = (n - 1) as nat;
    assert(m * size + size == n * size) by (nonlinear_arith)
        requires
            n >= 1,
            m == n - 1,
    ;
    assert((m + 1) * size == n * size) by (nonlinear_arith)
        requires
            m == n - 1,
    ;
    assert(n * size >= total) by (nonlinear_arith)
        requires
            size * n >= total,
    ;
    assert(part_spec(total, n, m).1 == total - 1);
    assert(part_spec(total, n, 0).0 == 0) by (nonlinear_arith);
}

/// Whether a download is worth splitting: a GET whose server accepts ranges and whose length
/// exceeds 10 MiB.
pub fn should_use_parallel_download(request: &FetchRequest, probe: &DownloadProbe) -> (r: bool)
    ensures
        r == (request.method == HttpMethod::Get && probe.accepts_ranges && (probe.content_length
            matches Some(n) && n > DEFAULT_PARALLEL_DOWNLOAD_THRESHOLD)),
{
    let long_enough = match probe.content_length {
        Some(n) => n > DEFAULT_PARALLEL_DOWNLOAD_THRESHOLD,
        None => false,
    };
    request.method == HttpMethod::Get && probe.accepts_ranges && long_enough
}

/// The temporary file of part `index`: `.{file name}.part-{index}` beside the target, with
/// `download` standing for a missing file name.
pub open spec fn part_path_spec(path: Seq<char>, index: nat) -> Seq<char> {
    let name = match path_file_name(path) {
        Some(n) => n,
        None => "download"@,
    };
    path_join(path_parent(path), seq!['.'] + name + ".part-"@ + decimal(index))
}

/// The temporary files of the parts of a download.
pub fn build_part_paths(path: &str, part_count: usize) -> (r: Vec<String>)
    ensures
        r@.len() == part_count,
        forall|i: int| 0 <= i < part_count ==> (#[trigger] r@[i])@ == part_path_spec(path@, i as nat),
{
    let p = chars_of(path);
    let name = match file_name_of(&p) {
        Some(n) => n,
        None => chars_of("download"),
    };
    let parent = parent_of(&p);
    let mut r: Vec<String> = Vec::new();
    let mut i: usize = 0;
    while i < part_count
        invariant
            i <= part_count,
            p@ == path@,
            parent@ == path_parent(path@),
            name@ == match path_file_name(path@) {
                Some(n) => n,
                None => "download"@,
            },
            r@.len() == i,
            forall|j: int| 0 <= j < i ==> (#[trigger] r@[j])@ == part_path_spec(path@, j as nat),
        decreases part_count - i,
    {
        let mut leaf: Vec<char> = Vec::new();
        leaf.push('.');
        push_chars(&mut leaf, &name);
        push_str(&mut leaf, ".part-");
        push_decimal(&mut leaf, i);
        assert(leaf@ =~= seq!['.'] + name@ + ".part-"@ + decimal(i as nat));
        let full = join_path(&parent, &leaf);
        r.push(string_of(&full));
        i = i + 1;
    }
    r
}

/// The `Range` header value of a part: `bytes={start}-{end}`.
pub open spec fn range_header_spec(part: DownloadPart) -> Seq<char> {
    "bytes="@ + decimal(part.start_byte as nat) + seq!['-'] + decimal(part.end_byte as nat)
}

/// Writes `n` in decimal, for any `u64`.
fn push_decimal_u64(out: &mut Vec<char>, n: u64)
    ensures
        final(out)@ == old(out)@ + decimal(n as nat),
    decreases n,
{
    if n >= 10 {
        push_decimal_u64(out, n / 10);
    }
    let d: u8 = (n % 10) as u8;
    let c: char = (48u8 + d) as char;
    out.push(c);
}

/// The `Range` header value that requests one part.
pub fn range_header_value(part: &DownloadPart) -> (r: String)
    ensures
        r@ == range_header_spec(*part),
{
    let mut out = chars_of("bytes=");
    push_decimal_u64(&mut out, part.start_byte);
    out.push('-');
    push_decimal_u64(&mut out, part.end_byte);
    string_of(&out)
}


/// Every character is an ASCII digit.
pub open spec fn all_digits(d: Seq<char>) -> bool {
    forall|i: int| 0 <= i < d.len() ==> '0' <= #[trigger] d[i] <= '9'
}

/// A text that `str::parse::<u64>` accepts: an optional `+`, then one or more ASCII digits
/// whose value fits in a `u64`; its value.
pub open spec fn u64_text(t: Seq<char>) -> Option<u64> {
    let d = if t.len() > 0 && t[0] == '+' {
        t.drop_first()
    } else {
        t
    };
    if d.len() > 0 && all_digits(d) && digits_value(d) <= u64::MAX {
        Some(digits_value(d) as u64)
    } else {
        None
    }
}

/// Reads a decimal `u64` as `str::parse::<u64>` does.
pub fn parse_u64_text(text: &str) -> (r: Option<u64>)
    ensures
        r == u64_text(text@),
{
    let t = chars_of(text);
    let start: usize = if t.len() > 0 && t[0] == '+' { 1 } else { 0 };
    let ghost d = t@.skip(start as int);
    assert(d =~= if t@.len() > 0 && t@[0] == '+' { t@.drop_first() } else { t@ });
    let n = t.len();
    if start == n {
        return None;
    }
    let mut v: u64 = 0;
    let mut i: usize = start;
    while i < n
        invariant
            start <= i <= n,
            n == t@.len(),
            t@ == text@,
            d == t@.skip(start as int),
            d == (if t@.len() > 0 && t@[0] == '+' { t@.drop_first() } else { t@ }),
            forall|j: int| 0 <= j < i - start ==> '0' <= #[trigger] d[j] <= '9',
            v == digits_value(d.take(i - start)),
        decreases n - i,
    {
        let c = t[i];
        if !('0' <= c && c <= '9') {
            assert(d[i - start] == c);
            assert(!all_digits(d));
            return None;
        }
        let dv: u64 = (c as u32 - '0' as u32) as u64;
        assert(d.take(i - start + 1).drop_last() =~= d.take(i - start));
        assert(d.take(i - start + 1).last() == c);
        assert(digits_value(d.take(i - start + 1)) == v * 10 + dv);
        if v > (u64::MAX - dv) / 10 {
            proof {
                if all_digits(d) {
                    lemma_digits_monotone(d, (i - start + 1) as nat);
                }
                assert(digits_value(d.take(i - start + 1)) > u64::MAX) by (nonlinear_arith)
                    requires
                        v > (u64::MAX - dv) / 10,
                        digits_value(d.take(i - start + 1)) == v * 10 + dv,
                        dv <= 9,
                ;
                if all_digits(d) {
                    assert(digits_value(d) > u64::MAX);
                }
            }
            return None;
        }
        v = v * 10 + dv;
        i = i + 1;
    }
    assert(d.take(n - start) =~= d);
    Some(v)
}

/// What a `HEAD` answer tells about a download: for a GET request, its `Content-Length` read
/// as a number and whether `Accept-Ranges` is `bytes` (ignoring case); other requests are
/// never probed, so nothing is known of them.
pub fn download_probe(request: &FetchRequest, content_length: Option<&str>, accept_ranges: Option<&str>) -> (p: DownloadProbe)
    ensures
        request.method != HttpMethod::Get ==> p.content_length is None && !p.accepts_ranges,
        request.method == HttpMethod::Get ==> {
            &&& p.content_length == match content_length {
                Some(t) => u64_text(t@),
                None => None,
            }
            &&& p.accepts_ranges == match accept_ranges {
                Some(t) => eq_ignore_case(t@, "bytes"@),
                None => false,
            }
        },
{
    if request.method != HttpMethod::Get {
        return DownloadProbe { content_length: None, accepts_ranges: false };
    }
    let content_length = match content_length {
        Some(t) => parse_u64_text(t),
        None => None,
    };
    let accepts_ranges = match accept_ranges {
        Some(t) => chars_eq_ignore_case(&chars_of(t), &chars_of("bytes")),
        None => false,
    };
    DownloadProbe { content_length, accepts_ranges }
}

} // verus!
