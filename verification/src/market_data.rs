//! Market-data request planning: the on-disk cache's file names and expiry, the
//! aggregates URL and cache key of a request, and how a long intraday range is
//! split into segments.

use vstd::prelude::*;
use vstd::string::*;
use std::path::PathBuf;
use crate::types::Timeframe;
use crate::text::{push_char, decimal_text, spec_decimal, bool_text, spec_bool_text};
use crate::requests::{date_days, parse_date_days};

verus! {

#[verifier::external_type_specification]
#[verifier::external_body]
pub struct ExPathBuf(PathBuf);

/// `PathBuf::clone`: std documents the copy as the same path.
pub assume_specification[ <PathBuf as Clone>::clone ](p: &PathBuf) -> (copy: PathBuf)
    ensures
        copy == *p,
;

/// The components of a path, in order, each as its text: what `Path::components`
/// yields, each component taken by `Component::as_os_str`.
pub uninterp spec fn path_components(p: PathBuf) -> Seq<Seq<char>>;

/// Whether `part` is one normal path component on every platform: not empty, not
/// `.` or `..`, and without a separator (`/`, `\`) or a drive prefix (`:`).
pub open spec fn single_component(part: Seq<char>) -> bool {
    &&& part.len() > 0
    &&& forall|k: int| 0 <= k < part.len() ==> {
        let c = #[trigger] part[k];
        c != '/' && c != '\\' && c != ':'
    }
    &&& part != "."@
    &&& part != ".."@
}

/// `base` with `part` appended as a further path component.
///
/// Calls `Path::join`, which pushes `part` onto a copy of `base`. `PathBuf::push`
/// documents that a relative path without root or prefix is adjoined after a
/// separator; so when `part` is a single normal component, the components of the
/// result are those of `base` followed by `part`. Of any other `part` (an absolute
/// path, or one holding separators, `.` or `..`) the contract says nothing: what
/// `push` makes of it depends on the platform.
#[verifier::external_body]
pub(crate) fn join_path(base: &PathBuf, part: &str) -> (joined: PathBuf)
    ensures
        single_component(part@) ==> path_components(joined) == path_components(*base).push(part@),
{
    base.join(part)
}

// ---------------------------------------------------------------------------
// File cache
// ---------------------------------------------------------------------------

/// Cache of raw provider responses, one JSON file per request, expiring after a
/// number of days.
#[derive(Clone)]
pub struct FileCache {
    base: PathBuf,
    ttl_days: u64,
}

/// The character that stands for `c` in a cache file name: `:`, `/`, `\`, `?`,
/// `&` and `=` become `_`.
pub open spec fn safe_char(c: char) -> char {
    if c == ':' || c == '/' || c == '\\' || c == '?' || c == '&' || c == '=' { '_' } else { c }
}

/// The file name of a cache key: the key with unsafe characters replaced, and `.json`.
pub open spec fn spec_cache_file_name(key: Seq<char>) -> Seq<char> {
    key.map_values(|c: char| safe_char(c)) + ".json"@
}

/// Whether an entry of age `age_secs` seconds plus `age_nanos` nanoseconds is older
/// than `ttl_secs` seconds.
pub open spec fn spec_older_than(age_secs: u64, age_nanos: u32, ttl_secs: int) -> bool {
    age_secs > ttl_secs || (age_secs == ttl_secs && age_nanos > 0)
}

/// The file name under which the cache stores `key`.
///
/// Each of `:`, `/`, `\`, `?`, `&` and `=` becomes `_`, and `.json` is appended.
pub fn cache_file_name(key: &str) -> (name: String)
    ensures
        name@ == spec_cache_file_name(key@),
{
    let n = key.unicode_len();
    let mut out = String::new();
    let mut i: usize = 0;
    while i < n
        invariant
            i <= n,
            n == key@.len(),
            out@ == key@.subrange(0, i as int).map_values(|c: char| safe_char(c)),
        decreases n - i,
    {
        let c = key.get_char(i);
        let s = if c == ':' || c == '/' || c == '\\' || c == '?' || c == '&' || c == '=' { '_' } else { c };
        push_char(&mut out, s);
        assert(key@.subrange(0, i as int + 1).map_values(|c: char| safe_char(c))
            =~= key@.subrange(0, i as int).map_values(|c: char| safe_char(c)).push(safe_char(c)));
        i = i + 1;
    }
    assert(key@.subrange(0, n as int) =~= key@);
    out.concat(".json")
}

/// A cache file name is a single flat name: it holds none of `:`, `/`, `\`, `?`,
/// `&`, `=`, so no key can reach outside the cache directory, and it ends in `.json`.
pub proof fn lemma_cache_file_name_flat(key: Seq<char>)
    ensures
        forall|k: int| 0 <= k < spec_cache_file_name(key).len() ==> {
            let c = #[trigger] spec_cache_file_name(key)[k];
            c != ':' && c != '/' && c != '\\' && c != '?' && c != '&' && c != '='
        },
        spec_cache_file_name(key).len() == key.len() + 5,
        spec_cache_file_name(key).subrange(key.len() as int, key.len() as int + 5) == ".json"@,
{
    reveal_strlit(".json");
    let name = spec_cache_file_name(key);
    let mapped = key.map_values(|c: char| safe_char(c));
    assert(name == mapped + ".json"@);
    assert forall|k: int| 0 <= k < name.len() implies {
        let c = #[trigger] name[k];
        c != ':' && c != '/' && c != '\\' && c != '?' && c != '&' && c != '='
    } by {
        if k < key.len() {
            assert(name[k] == mapped[k]);
        } else {
            assert(name[k] == ".json"@[k - key.len()]);
        }
    }
    assert(name.subrange(key.len() as int, key.len() as int + 5) =~= ".json"@);
}

impl FileCache {
    /// The cache directory.
    pub closed spec fn base(&self) -> PathBuf {
        self.base
    }

    /// How many days an entry stays fresh.
    pub closed spec fn ttl_days(&self) -> u64 {
        self.ttl_days
    }

    pub fn new(base: PathBuf, ttl_days: u64) -> (cache: FileCache)
        ensures
            cache.base() == base,
            cache.ttl_days() == ttl_days,
    {
        FileCache { base, ttl_days }
    }

    /// The path of the file that holds `key`: [`cache_file_name`] of the key, in the
    /// cache directory.
    pub fn key_path(&self, key: &str) -> (p: PathBuf)
        ensures
            path_components(p) == path_components(self.base()).push(spec_cache_file_name(key@)),
    {
        let name = cache_file_name(key);
        proof {
            lemma_cache_file_name_flat(key@);
            reveal_strlit(".");
            reveal_strlit("..");
            assert(name@.len() != "."@.len());
            assert(name@.len() != ".."@.len());
        }
        join_path(&self.base, name.as_str())
    }

    /// The cache directory under a data directory: its `cache` subdirectory.
    pub fn dir_under(data_dir: &PathBuf) -> (dir: PathBuf)
        ensures
            path_components(dir) == path_components(*data_dir).push("cache"@),
    {
        proof {
            reveal_strlit("cache");
            reveal_strlit(".");
            reveal_strlit("..");
        }
        join_path(data_dir, "cache")
    }

    /// How many days an entry stays fresh.
    pub fn lifetime_days(&self) -> (d: u64)
        ensures
            d == self.ttl_days(),
    {
        self.ttl_days
    }

    /// The cache directory.
    pub fn base_dir(&self) -> (dir: &PathBuf)
        ensures
            *dir == self.base(),
    {
        &self.base
    }

    /// Whether an entry of the given age (seconds, plus nanoseconds) is older than the
    /// cache's lifetime of `ttl_days` days, and is to be dropped.
    pub fn is_expired(&self, age_secs: u64, age_nanos: u32) -> (expired: bool)
        requires
            self.ttl_days() * 86400 <= u64::MAX,
        ensures
            expired == spec_older_than(age_secs, age_nanos, self.ttl_days() * 86400),
    {
        let ttl: u64 = self.ttl_days * 24 * 3600;
        age_secs > ttl || (age_secs == ttl && age_nanos > 0)
    }
}

// ---------------------------------------------------------------------------
// Aggregates requests
// ---------------------------------------------------------------------------

/// A byte that a URL keeps as it is: ASCII letters and digits, `-`, `.`, `_`, `~`.
pub open spec fn url_safe_byte(b: u8) -> bool {
    (48 <= b <= 57) || (65 <= b <= 90) || (97 <= b <= 122) || b == 45 || b == 46 || b == 95 || b == 126
}

/// Upper-case hexadecimal digit of `d` (0 to 15).
pub open spec fn hex_digit(d: u8) -> char {
    if d < 10 { (48 + d) as char } else { (55 + d) as char }
}

/// The percent-encoding of a byte string: safe bytes kept, every other byte as
/// `%` and two upper-case hex digits.
pub open spec fn spec_url_encoded(bytes: Seq<u8>) -> Seq<char>
    decreases bytes.len(),
{
    if bytes.len() == 0 {
        Seq::empty()
    } else {
        let b = bytes.last();
        let tail: Seq<char> = if url_safe_byte(b) {
            seq![b as char]
        } else {
            seq!['%', hex_digit(b / 16), hex_digit(b % 16)]
        };
        spec_url_encoded(bytes.drop_last()) + tail
    }
}

/// Percent-encodes `text` for a URL path.
///
/// Calls `urlencoding::encode`, which encodes the UTF-8 bytes of its argument:
/// ASCII letters and digits and `-`, `.`, `_`, `~` are kept, every other byte
/// becomes `%` followed by two upper-case hexadecimal digits. The contract states
/// that encoding.
#[verifier::external_body]
fn url_encode(text: &str) -> (encoded: String)
    ensures
        encoded@ == spec_url_encoded(text.spec_bytes()),
{
    urlencoding::encode(text).into_owned()
}

/// The cache key of an aggregates request.
pub open spec fn spec_cache_key(ticker: Seq<char>, multiplier: u32, timespan: Seq<char>, start: Seq<char>, end: Seq<char>, adjusted: bool) -> Seq<char> {
    "aggs__ticker="@ + ticker + "__m="@ + spec_decimal(multiplier as nat) + "__span="@ + timespan
        + "__from="@ + start + "__to="@ + end + "__adj="@ + spec_bool_text(adjusted)
}

/// The key under which an aggregates request is cached:
/// `aggs__ticker=<ticker>__m=<multiplier>__span=<timespan>__from=<start>__to=<end>__adj=<adjusted>`.
pub fn cache_key(ticker: &str, tf: &Timeframe, start: &str, end: &str, adjusted: bool) -> (key: String)
    ensures
        key@ == spec_cache_key(ticker@, tf.multiplier, tf.timespan@, start@, end@, adjusted),
{
    let m = decimal_text(tf.multiplier as u64);
    let adj = bool_text(adjusted);
    String::from_str("aggs__ticker=").concat(ticker).concat("__m=").concat(m.as_str()).concat("__span=")
        .concat(tf.timespan.as_str()).concat("__from=").concat(start).concat("__to=").concat(end)
        .concat("__adj=").concat(adj.as_str())
}

/// `s` without its trailing `/` characters.
pub open spec fn spec_trim_slashes(s: Seq<char>) -> Seq<char>
    decreases s.len(),
{
    if s.len() > 0 && s.last() == '/' { spec_trim_slashes(s.drop_last()) } else { s }
}

/// `s` without its trailing `/` characters.
pub fn trim_trailing_slashes(s: &str) -> (t: String)
    ensures
        t@ == spec_trim_slashes(s@),
{
    let mut k = s.unicode_len();
    assert(s@.subrange(0, k as int) =~= s@);
    while k > 0 && s.get_char(k - 1) == '/'
        invariant
            k <= s@.len(),
            spec_trim_slashes(s@.subrange(0, k as int)) == spec_trim_slashes(s@),
        decreases k,
    {
        assert(s@.subrange(0, k as int).drop_last() =~= s@.subrange(0, k as int - 1));
        k = k - 1;
    }
    assert(spec_trim_slashes(s@.subrange(0, k as int)) == s@.subrange(0, k as int));
    String::from_str(s.substring_char(0, k))
}

/// The aggregates URL of a request.
pub open spec fn spec_aggregates_url(base_url: Seq<char>, ticker: Seq<char>, ticker_bytes: Seq<u8>, multiplier: u32, timespan: Seq<char>, start: Seq<char>, end: Seq<char>) -> Seq<char> {
    spec_trim_slashes(base_url) + "/v2/aggs/ticker/"@ + spec_url_encoded(ticker_bytes) + "/range/"@
        + spec_decimal(multiplier as nat) + "/"@ + timespan + "/"@ + start + "/"@ + end
}

/// The aggregates endpoint for a ticker, bar size and date range:
/// `<base>/v2/aggs/ticker/<ticker>/range/<multiplier>/<timespan>/<start>/<end>`, with
/// trailing slashes dropped from the base and the ticker percent-encoded.
pub fn aggregates_url(base_url: &str, ticker: &str, tf: &Timeframe, start: &str, end: &str) -> (url: String)
    ensures
        url@ == spec_aggregates_url(base_url@, ticker@, ticker.spec_bytes(), tf.multiplier, tf.timespan@, start@, end@),
{
    let base = trim_trailing_slashes(base_url);
    let enc = url_encode(ticker);
    let m = decimal_text(tf.multiplier as u64);
    base.concat("/v2/aggs/ticker/").concat(enc.as_str()).concat("/range/").concat(m.as_str()).concat("/")
        .concat(tf.timespan.as_str()).concat("/").concat(start).concat("/").concat(end)
}

// ---------------------------------------------------------------------------
// Segmenting a date range
// ---------------------------------------------------------------------------

/// Whether a timeframe's bars are fetched in chunks of days: minute bars of at
/// most 5 minutes.
pub open spec fn spec_is_chunked(multiplier: u32, timespan: Seq<char>) -> bool {
    timespan == "minute"@ && multiplier <= 5
}

/// Days per chunk: 30 for 1-minute bars, 120 otherwise.
pub open spec fn spec_chunk_days(multiplier: u32) -> int {
    if multiplier == 1 { 30 } else { 120 }
}

/// The segments of days `[cur, end]`, each spanning `chunk + 1` days but the last.
pub open spec fn spec_segments(cur: int, end: int, chunk: int) -> Seq<(int, int)>
    decreases end - cur + 1,
{
    if cur > end || chunk < 0 {
        Seq::empty()
    } else {
        let seg_end = if cur + chunk < end { cur + chunk } else { end };
        seq![(cur, seg_end)] + spec_segments(seg_end + 1, end, chunk)
    }
}

/// Splits the days `start..=end` into consecutive segments: each starts the day
/// after the previous one ends, and ends `chunk` days after it starts or at `end`.
pub fn segment_days(start: i64, end: i64, chunk: i64) -> (segs: Vec<(i64, i64)>)
    requires
        0 <= chunk <= i32::MAX,
        i32::MIN <= start <= i32::MAX,
        end <= i32::MAX,
    ensures
        segs@.len() == spec_segments(start as int, end as int, chunk as int).len(),
        forall|k: int| 0 <= k < segs@.len() ==> (#[trigger] segs@[k]).0 == spec_segments(start as int, end as int, chunk as int)[k].0
            && segs@[k].1 == spec_segments(start as int, end as int, chunk as int)[k].1,
{
    let mut segs: Vec<(i64, i64)> = Vec::new();
    let mut cur = start;
    while cur <= end
        invariant
            0 <= chunk <= i32::MAX,
            i32::MIN <= start <= cur,
            end <= i32::MAX,
            cur <= i32::MAX + 1,
            segs@.len() + spec_segments(cur as int, end as int, chunk as int).len()
                == spec_segments(start as int, end as int, chunk as int).len(),
            forall|k: int| 0 <= k < segs@.len() ==> (#[trigger] segs@[k]).0 == spec_segments(start as int, end as int, chunk as int)[k].0
                && segs@[k].1 == spec_segments(start as int, end as int, chunk as int)[k].1,
            forall|k: int| 0 <= k < spec_segments(cur as int, end as int, chunk as int).len() ==>
                #[trigger] spec_segments(cur as int, end as int, chunk as int)[k]
                == spec_segments(start as int, end as int, chunk as int)[segs@.len() + k],
        decreases end - cur + 1,
    {
        let seg_end: i64 = if cur + chunk < end { cur + chunk } else { end };
        let ghost rest = spec_segments(seg_end as int + 1, end as int, chunk as int);
        assert(spec_segments(cur as int, end as int, chunk as int) == seq![(cur as int, seg_end as int)] + rest);
        assert(spec_segments(cur as int, end as int, chunk as int)[0] == (cur as int, seg_end as int));
        assert forall|k: int| 0 <= k < rest.len() implies #[trigger] rest[k]
            == spec_segments(start as int, end as int, chunk as int)[segs@.len() + 1 + k] by {
            assert(rest[k] == spec_segments(cur as int, end as int, chunk as int)[k + 1]);
        }
        segs.push((cur, seg_end));
        cur = seg_end + 1;
    }
    segs
}

/// The segments of a day range cover it exactly: the first starts at `start`, each
/// next one starts the day after the previous one ends, the last ends at `end`,
/// and none spans more than `chunk + 1` days.
pub proof fn lemma_segments_cover(start: int, end: int, chunk: int)
    requires
        0 <= chunk,
        start <= end,
    ensures
        spec_segments(start, end, chunk).len() > 0,
        spec_segments(start, end, chunk)[0].0 == start,
        spec_segments(start, end, chunk).last().1 == end,
        forall|k: int| 0 <= k < spec_segments(start, end, chunk).len() ==>
            (#[trigger] spec_segments(start, end, chunk)[k]).0 <= spec_segments(start, end, chunk)[k].1
            && spec_segments(start, end, chunk)[k].1 - spec_segments(start, end, chunk)[k].0 <= chunk,
        forall|k: int| 0 <= k < spec_segments(start, end, chunk).len() - 1 ==>
            #[trigger] spec_segments(start, end, chunk)[k + 1].0 == spec_segments(start, end, chunk)[k].1 + 1,
    decreases end - start,
{
    let seg_end = if start + chunk < end { start + chunk } else { end };
    let rest = spec_segments(seg_end + 1, end, chunk);
    let all = spec_segments(start, end, chunk);
    assert(all == seq![(start, seg_end)] + rest);
    if seg_end < end {
        lemma_segments_cover(seg_end + 1, end, chunk);
        assert(all.last() == rest.last());
        assert forall|k: int| 0 <= k < all.len() implies
            (#[trigger] all[k]).0 <= all[k].1 && all[k].1 - all[k].0 <= chunk by {
            if k > 0 {
                assert(all[k] == rest[k - 1]);
            }
        }
        assert forall|k: int| 0 <= k < all.len() - 1 implies #[trigger] all[k + 1].0 == all[k].1 + 1 by {
            assert(all[k + 1] == rest[k]);
            if k > 0 {
                assert(all[k] == rest[k - 1]);
                assert(rest[(k - 1) + 1].0 == rest[k - 1].1 + 1);
            }
        }
    } else {
        assert(rest.len() == 0);
        assert(all =~= seq![(start, seg_end)]);
    }
}

proof fn lemma_segments_within(cur: int, end: int, chunk: int)
    requires
        0 <= chunk,
    ensures
        forall|k: int| 0 <= k < spec_segments(cur, end, chunk).len() ==>
            cur <= (#[trigger] spec_segments(cur, end, chunk)[k]).0 && spec_segments(cur, end, chunk)[k].1 <= end
            && spec_segments(cur, end, chunk)[k].0 <= spec_segments(cur, end, chunk)[k].1,
    decreases end - cur + 1,
{
    if cur <= end {
        let seg_end = if cur + chunk < end { cur + chunk } else { end };
        lemma_segments_within(seg_end + 1, end, chunk);
        let rest = spec_segments(seg_end + 1, end, chunk);
        let all = spec_segments(cur, end, chunk);
        assert(all == seq![(cur, seg_end)] + rest);
        assert forall|k: int| 0 <= k < all.len() implies cur <= (#[trigger] all[k]).0 && all[k].1 <= end && all[k].0 <= all[k].1 by {
            if k > 0 {
                assert(all[k] == rest[k - 1]);
            }
        }
    }
}

/// The date that `days` (days from the common era) is, written in `format`;
/// `None` when chrono has no such date.
pub uninterp spec fn date_text(days: int, format: Seq<char>) -> Option<Seq<char>>;

/// Writes the date numbered `days` (from the common era) in `YYYY-MM-DD` form.
///
/// Calls `NaiveDate::from_num_days_from_ce_opt` and `NaiveDate::format`; the contract
/// claims only that the result is the one named by `date_text`.
#[verifier::external_body]
fn format_date_days(days: i32, format: &str) -> (text: Option<String>)
    requires
        format@ == "%Y-%m-%d"@,
    ensures
        match text {
            Some(t) => date_text(days as int, format@) == Some(t@),
            None => date_text(days as int, format@) is None,
        },
{
    match chrono::NaiveDate::from_num_days_from_ce_opt(days) {
        Some(d) => Some(d.format(format).to_string()),
        None => None,
    }
}

/// `texts` writes the day segments `days` as `YYYY-MM-DD` dates.
pub open spec fn segments_written(texts: Seq<(String, String)>, days: Seq<(int, int)>) -> bool {
    &&& texts.len() == days.len()
    &&& forall|k: int| 0 <= k < texts.len() ==> date_text((#[trigger] days[k]).0, "%Y-%m-%d"@) == Some(texts[k].0@)
        && date_text(days[k].1, "%Y-%m-%d"@) == Some(texts[k].1@)
}

/// Some day bounding one of the segments has no calendar date.
pub open spec fn some_day_undated(days: Seq<(int, int)>) -> bool {
    exists|k: int| 0 <= k < days.len() && (date_text((#[trigger] days[k]).0, "%Y-%m-%d"@) is None
        || date_text(days[k].1, "%Y-%m-%d"@) is None)
}

/// Why a date range could not be split.
#[derive(Debug, Clone, Copy, PartialEq, Eq, Structural)]
pub enum RangeError {
    /// The start date does not parse as `YYYY-MM-DD`.
    BadStart,
    /// The end date does not parse as `YYYY-MM-DD`.
    BadEnd,
    /// A day of the range has no calendar date.
    OutOfRange,
}

/// The requests that fetch a timeframe's bars over a date range.
#[derive(Debug)]
pub struct FetchPlan {
    /// `(from, to)` dates of each request, in order.
    pub segments: Vec<(String, String)>,
    /// The bars of the segments are merged: sorted by time, one bar per timestamp.
    pub merge: bool,
}

/// Plans the requests for a timeframe's bars from `start` to `end` (`YYYY-MM-DD`).
///
/// Minute bars of up to 5 minutes are fetched in segments of 30 days for 1-minute
/// bars and of 120 days otherwise (see [`segment_days`]), with dates written
/// `YYYY-MM-DD`, and are merged afterwards. Any other timeframe is one request
/// over the dates as given.
#[verifier::loop_isolation(false)]
pub fn plan_fetch(tf: &Timeframe, start: &str, end: &str) -> (plan: Result<FetchPlan, RangeError>)
    ensures
        !spec_is_chunked(tf.multiplier, tf.timespan@) ==> (plan matches Ok(p) && !p.merge && p.segments@.len() == 1
            && p.segments@[0].0@ == start@ && p.segments@[0].1@ == end@),
        spec_is_chunked(tf.multiplier, tf.timespan@) ==> match plan {
            Ok(p) => p.merge && match (date_days(start@, "%Y-%m-%d"@), date_days(end@, "%Y-%m-%d"@)) {
                (Some(s), Some(e)) => segments_written(p.segments@, spec_segments(s, e, spec_chunk_days(tf.multiplier))),
                _ => false,
            },
            Err(RangeError::BadStart) => date_days(start@, "%Y-%m-%d"@) is None,
            Err(RangeError::BadEnd) => date_days(start@, "%Y-%m-%d"@) is Some && date_days(end@, "%Y-%m-%d"@) is None,
            Err(RangeError::OutOfRange) => match (date_days(start@, "%Y-%m-%d"@), date_days(end@, "%Y-%m-%d"@)) {
                (Some(s), Some(e)) => some_day_undated(spec_segments(s, e, spec_chunk_days(tf.multiplier))),
                _ => false,
            },
        },
{
    proof {
        reveal_strlit("minute");
    }
    let chunked = tf.multiplier <= 5 && tf.timespan.as_str().to_owned() == String::from_str("minute");
    if !chunked {
        let mut segments: Vec<(String, String)> = Vec::new();
        segments.push((String::from_str(start), String::from_str(end)));
        return Ok(FetchPlan { segments, merge: false });
    }
    let s = match parse_date_days(start, "%Y-%m-%d") {
        Some(d) => d,
        None => {
            return Err(RangeError::BadStart);
        },
    };
    let e = match parse_date_days(end, "%Y-%m-%d") {
        Some(d) => d,
        None => {
            return Err(RangeError::BadEnd);
        },
    };
    let chunk: i64 = if tf.multiplier == 1 { 30 } else { 120 };
    let days = segment_days(s as i64, e as i64, chunk);
    proof {
        lemma_segments_within(s as int, e as int, chunk as int);
    }
    let mut segments: Vec<(String, String)> = Vec::new();
    let mut k: usize = 0;
    while k < days.len()
        invariant
            k <= days@.len(),
            segments@.len() == k,
            forall|j: int| 0 <= j < days@.len() ==> s <= (#[trigger] days@[j]).0 && days@[j].1 <= e,
            forall|j: int| 0 <= j < k ==> date_text((#[trigger] days@[j]).0 as int, "%Y-%m-%d"@) == Some(segments@[j].0@)
                && date_text(days@[j].1 as int, "%Y-%m-%d"@) == Some(segments@[j].1@),
        decreases days@.len() - k,

    {
        let (a, b) = days[k];
        assert(days@[k as int].0 == spec_segments(s as int, e as int, chunk as int)[k as int].0);
        assert(days@[k as int].1 == spec_segments(s as int, e as int, chunk as int)[k as int].1);
        assert(s <= a && a <= b && b <= e);
        let ghost before = segments@;
        let ta = format_date_days(a as i32, "%Y-%m-%d");
        let tb = format_date_days(b as i32, "%Y-%m-%d");
        match (ta, tb) {
            (Some(x), Some(y)) => {
                assert(a as i32 == a) by (bit_vector)
                    requires
                        -2147483648 <= a <= 2147483647;
                assert(b as i32 == b) by (bit_vector)
                    requires
                        -2147483648 <= b <= 2147483647;
                segments.push((x, y));
                assert(segments@[k as int].0@ == x@);
                assert forall|j: int| 0 <= j < k implies #[trigger] segments@[j] == before[j] by {}
            },
            _ => {
                proof {
                    let sp = spec_segments(s as int, e as int, chunk as int);
                    assert(sp[k as int].0 == a && sp[k as int].1 == b);
                    assert(date_text(sp[k as int].0, "%Y-%m-%d"@) is None || date_text(sp[k as int].1, "%Y-%m-%d"@) is None);
                }
                return Err(RangeError::OutOfRange);
            },
        }
        k = k + 1;
    }
    proof {
        let sp = spec_segments(s as int, e as int, chunk as int);
        assert forall|j: int| 0 <= j < segments@.len() implies date_text((#[trigger] sp[j]).0, "%Y-%m-%d"@) == Some(segments@[j].0@)
            && date_text(sp[j].1, "%Y-%m-%d"@) == Some(segments@[j].1@) by {
            assert(days@[j].0 == sp[j].0);
        }
    }
    Ok(FetchPlan { segments, merge: true })
}

} // verus!
