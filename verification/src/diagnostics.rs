//! Diagnostic logs and the shareable support report: bounded lines, log
//! rotation, and redaction of private paths and identifiers.
use vstd::prelude::*;
use crate::text::{
    chars_of, decimal, lemma_encode_utf8_push, char_utf8_width, push_char, push_chars, push_str,
    string_from_chars, u64_to_decimal,
};
use vstd::utf8::encode_utf8;

verus! {

pub const APP_LOG_FILE_NAME: &'static str = "lanbridge.log";

pub const STARTUP_CRASH_FILE_NAME: &'static str = "startup-crash.log";

pub const CRASH_DIAGNOSTICS_FILE_NAME: &'static str = "crash-diagnostics.log";

pub const CRASH_DIAGNOSTICS_MAX_BYTES: u64 = 8388608;

pub const STARTUP_CRASH_MAX_BYTES: u64 = 1048576;

pub const MAX_DIAGNOSTIC_LINE_CHARS: usize = 65536;

pub const REPORT_DIAGNOSTIC_LINES: usize = 200;

pub const REPORT_STARTUP_LINES: usize = 100;

pub const REPORT_LOG_ENTRIES: usize = 50;

pub const REPORT_LINE_MAX_CHARS: usize = 2048;

pub const REPORT_MAX_BYTES: usize = 262144;

/// The marker ending a report that was cut to size.
pub const TRUNCATION_SUFFIX: &'static str = "\n[报告内容已截断]\n";

/// A line break becomes a space.
pub open spec fn flatten_char(c: char) -> char {
    if c == '\n' || c == '\r' {
        ' '
    } else {
        c
    }
}

/// `value` on one line and at most `MAX_DIAGNOSTIC_LINE_CHARS` characters long.
pub open spec fn single_line_spec(value: Seq<char>) -> Seq<char> {
    let n = if value.len() <= MAX_DIAGNOSTIC_LINE_CHARS {
        value.len() as int
    } else {
        MAX_DIAGNOSTIC_LINE_CHARS as int
    };
    value.take(n).map_values(|c: char| flatten_char(c))
}

/// Law: a diagnostic log line holds no line break and at most
/// `MAX_DIAGNOSTIC_LINE_CHARS` characters of its details.
pub proof fn law_diagnostic_lines_are_single_and_capped(value: Seq<char>)
    ensures
        single_line_spec(value).len() <= MAX_DIAGNOSTIC_LINE_CHARS,
        forall|i: int| 0 <= i < single_line_spec(value).len() ==>
            #[trigger] single_line_spec(value)[i] != '\n' && single_line_spec(value)[i] != '\r',
{
}

/// `value` with line breaks turned into spaces, cut to the line limit.
pub fn single_line(value: &str) -> (r: String)
    ensures
        r@ == single_line_spec(value@),
{
    let chars = chars_of(value);
    let n = if chars.len() <= MAX_DIAGNOSTIC_LINE_CHARS {
        chars.len()
    } else {
        MAX_DIAGNOSTIC_LINE_CHARS
    };
    let mut out: Vec<char> = Vec::new();
    let mut i: usize = 0;
    while i < n
        invariant
            i <= n <= chars@.len(),
            out@ == chars@.take(i as int).map_values(|c: char| flatten_char(c)),
        decreases n - i,
    {
        let c = chars[i];
        out.push(if c == '\n' || c == '\r' { ' ' } else { c });
        assert(chars@.take(i + 1).map_values(|c: char| flatten_char(c)) =~= chars@.take(i as int).map_values(
            |c: char| flatten_char(c),
        ).push(flatten_char(c)));
        i = i + 1;
    }
    assert(chars@.take(n as int) =~= value@.take(n as int));
    string_from_chars(&out)
}

/// What a report line adds: the flattened line, cut to the report's line
/// limit with `…` when cut, and a line break.
pub open spec fn report_line(line: Seq<char>) -> Seq<char> {
    let flat = single_line_spec(line);
    if flat.len() > REPORT_LINE_MAX_CHARS {
        flat.take(REPORT_LINE_MAX_CHARS as int) + "…"@ + seq!['\n']
    } else {
        flat + seq!['\n']
    }
}

/// Appends one line to a report.
pub fn append_report_line(report: &mut String, line: &str)
    ensures
        final(report)@ == old(report)@ + report_line(line@),
{
    let flat = single_line(line);
    let chars = chars_of(flat.as_str());
    let ghost start = report@;
    let n = if chars.len() <= REPORT_LINE_MAX_CHARS {
        chars.len()
    } else {
        REPORT_LINE_MAX_CHARS
    };
    let mut i: usize = 0;
    while i < n
        invariant
            i <= n <= chars@.len(),
            report@ == start + chars@.take(i as int),
        decreases n - i,
    {
        push_char(report, chars[i]);
        assert(chars@.take(i + 1) =~= chars@.take(i as int).push(chars@[i as int]));
        i = i + 1;
    }
    if chars.len() > REPORT_LINE_MAX_CHARS {
        push_str(report, "…");
    } else {
        assert(chars@.take(n as int) =~= chars@);
    }
    push_char(report, '\n');
    assert(report@ =~= start + report_line(line@));
}

/// Bytes of the UTF-8 encoding.
pub open spec fn utf8_len(s: Seq<char>) -> int {
    encode_utf8(s).len() as int
}

/// The longest prefix, in characters, whose encoding fits in `limit` bytes.
pub open spec fn fitting_prefix(s: Seq<char>, limit: int) -> int
    decreases s.len(),
{
    if s.len() == 0 || utf8_len(s) <= limit {
        s.len() as int
    } else {
        fitting_prefix(s.drop_last(), limit)
    }
}

/// The characters of the truncation marker.
pub open spec fn truncation_marker() -> Seq<char> {
    seq!['\n', '[', '报', '告', '内', '容', '已', '截', '断', ']', '\n']
}

fn truncation_marker_chars() -> (r: Vec<char>)
    ensures
        r@ == truncation_marker(),
{
    let mut v: Vec<char> = Vec::new();
    v.push('\n');
    v.push('[');
    v.push('报');
    v.push('告');
    v.push('内');
    v.push('容');
    v.push('已');
    v.push('截');
    v.push('断');
    v.push(']');
    v.push('\n');
    assert(v@ =~= truncation_marker());
    v
}

/// The report cut to `REPORT_MAX_BYTES`: unchanged when it fits, otherwise
/// its longest prefix that leaves room for the truncation marker, then the marker.
pub open spec fn truncated_report(report: Seq<char>) -> Seq<char> {
    if utf8_len(report) <= REPORT_MAX_BYTES {
        report
    } else {
        report.take(fitting_prefix(report, REPORT_MAX_BYTES - utf8_len(truncation_marker()))) + truncation_marker()
    }
}

proof fn lemma_fitting_prefix(s: Seq<char>, limit: int, k: int)
    requires
        0 <= k <= s.len(),
        utf8_len(s.take(k)) <= limit,
        forall|j: int| k < j <= s.len() ==> utf8_len(#[trigger] s.take(j)) > limit,
    ensures
        fitting_prefix(s, limit) == k,
    decreases s.len(),
{
    assert(s.take(s.len() as int) =~= s);
    if s.len() > k {
        assert(s.drop_last().take(s.len() - 1) =~= s.drop_last());
        assert forall|j: int| k < j <= s.drop_last().len() implies utf8_len(#[trigger] s.drop_last().take(j)) > limit by {
            assert(s.drop_last().take(j) =~= s.take(j));
        }
        assert(s.drop_last().take(k) =~= s.take(k));
        lemma_fitting_prefix(s.drop_last(), limit, k);
    }
}

proof fn lemma_take_len_grows(s: Seq<char>, a: int, b: int)
    requires
        0 <= a <= b <= s.len(),
    ensures
        utf8_len(s.take(a)) <= utf8_len(s.take(b)),
    decreases b - a,
{
    if a < b {
        lemma_take_len_grows(s, a, b - 1);
        assert(s.take(b) =~= s.take(b - 1).push(s[b - 1]));
        lemma_encode_utf8_push(s.take(b - 1), s[b - 1]);
    }
}

/// Bytes in the UTF-8 encoding of a short text.
fn short_utf8_len(s: &Vec<char>) -> (r: usize)
    requires
        s@.len() <= 1024,
    ensures
        r == utf8_len(s@),
        r <= 4096,
{
    let mut acc: usize = 0;
    let mut i: usize = 0;
    while i < s.len()
        invariant
            i <= s@.len() <= 1024,
            acc == utf8_len(s@.take(i as int)),
            acc <= 4 * i,
        decreases s.len() - i,
    {
        let c = s[i];
        let v = c as u32;
        let w: usize = if v <= 0x7F {
            1
        } else if v <= 0x7FF {
            2
        } else if v <= 0xFFFF {
            3
        } else {
            4
        };
        proof {
            lemma_encode_utf8_push(s@.take(i as int), c);
            assert(s@.take(i as int).push(c) =~= s@.take(i + 1));
        }
        acc = acc + w;
        i = i + 1;
    }
    assert(s@.take(s@.len() as int) =~= s@);
    acc
}

/// The longest fitting prefix does fit.
proof fn lemma_fitting_prefix_fits(s: Seq<char>, limit: int)
    requires
        limit >= 0,
    ensures
        0 <= fitting_prefix(s, limit) <= s.len(),
        utf8_len(s.take(fitting_prefix(s, limit))) <= limit,
    decreases s.len(),
{
    if s.len() == 0 {
        assert(s.take(0) =~= Seq::<char>::empty());
        assert(encode_utf8(Seq::<char>::empty()) =~= Seq::<u8>::empty());
    } else if utf8_len(s) <= limit {
        assert(s.take(s.len() as int) =~= s);
    } else {
        lemma_fitting_prefix_fits(s.drop_last(), limit);
        let k = fitting_prefix(s.drop_last(), limit);
        assert(s.drop_last().take(k) =~= s.take(k));
    }
}

proof fn lemma_take_step(m: Seq<char>, k: int)
    requires
        0 <= k < m.len(),
    ensures
        utf8_len(m.take(k + 1)) == utf8_len(m.take(k)) + char_utf8_width(m[k]),
{
    assert(m.take(k + 1) =~= m.take(k).push(m[k]));
    lemma_encode_utf8_push(m.take(k), m[k]);
}

/// The truncation marker takes 25 bytes.
proof fn lemma_marker_len()
    ensures
        utf8_len(truncation_marker()) == 25,
{
    let m = truncation_marker();
    assert(m.take(0) =~= Seq::<char>::empty());
    assert(encode_utf8(Seq::<char>::empty()) =~= Seq::<u8>::empty());
    lemma_take_step(m, 0);
    lemma_take_step(m, 1);
    lemma_take_step(m, 2);
    lemma_take_step(m, 3);
    lemma_take_step(m, 4);
    lemma_take_step(m, 5);
    lemma_take_step(m, 6);
    lemma_take_step(m, 7);
    lemma_take_step(m, 8);
    lemma_take_step(m, 9);
    lemma_take_step(m, 10);
    assert(m.take(11) =~= m);
}

/// Law: a support report never exceeds `REPORT_MAX_BYTES` bytes of UTF-8,
/// whatever went into it.
pub proof fn law_report_is_bounded(report: Seq<char>)
    ensures
        utf8_len(truncated_report(report)) <= REPORT_MAX_BYTES,
{
    if utf8_len(report) > REPORT_MAX_BYTES {
        lemma_marker_len();
        let limit = REPORT_MAX_BYTES - utf8_len(truncation_marker());
        lemma_fitting_prefix_fits(report, limit);
        let head = report.take(fitting_prefix(report, limit));
        crate::text::lemma_encode_utf8_concat(head, truncation_marker());
    }
}

/// Cuts a report to the size a support report may have.
pub fn truncate_report(report: &str) -> (r: String)
    ensures
        r@ == truncated_report(report@),
{
    let chars = chars_of(report);
    if !crate::text::utf8_len_exceeds(&chars, REPORT_MAX_BYTES) {
        return crate::text::to_owned_string(report);
    }
    let suffix = truncation_marker_chars();
    let suffix_len = short_utf8_len(&suffix);
    let limit: usize = REPORT_MAX_BYTES - suffix_len;
    let mut used: usize = 0;
    let mut k: usize = 0;
    while k < chars.len()
        invariant
            k <= chars@.len(),
            chars@ == report@,
            used == utf8_len(chars@.take(k as int)),
            used <= limit,
            limit <= REPORT_MAX_BYTES,
        ensures
            k <= chars@.len(),
            chars@ == report@,
            used == utf8_len(chars@.take(k as int)),
            used <= limit,
            k == chars@.len() || utf8_len(chars@.take(k + 1)) > limit,
        decreases chars.len() - k,
    {
        let c = chars[k];
        let v = c as u32;
        let w: usize = if v <= 0x7F {
            1
        } else if v <= 0x7FF {
            2
        } else if v <= 0xFFFF {
            3
        } else {
            4
        };
        proof {
            lemma_encode_utf8_push(chars@.take(k as int), c);
            assert(chars@.take(k as int).push(c) =~= chars@.take(k + 1));
        }
        if used + w > limit {
            break;
        }
        used = used + w;
        k = k + 1;
    }
    proof {
        assert forall|j: int| k < j <= chars@.len() implies utf8_len(#[trigger] chars@.take(j)) > limit by {
            if k < chars@.len() {
                lemma_take_len_grows(chars@, k + 1, j);
            }
        }
        lemma_fitting_prefix(report@, limit as int, k as int);
    }
    let mut out: Vec<char> = Vec::new();
    let mut i: usize = 0;
    while i < k
        invariant
            i <= k <= chars@.len(),
            out@ == chars@.take(i as int),
        decreases k - i,
    {
        out.push(chars[i]);
        assert(chars@.take(i + 1) =~= chars@.take(i as int).push(chars@[i as int]));
        i = i + 1;
    }
    let mut s = string_from_chars(&out);
    push_chars(&mut s, &suffix);
    s
}

/// A diagnostic log line: `[<time>] <event> <details on one line>`.
pub open spec fn log_line_spec(now_ms: u64, event: Seq<char>, details: Seq<char>) -> Seq<char> {
    seq!['['] + decimal(now_ms as nat) + "] "@ + event + seq![' '] + single_line_spec(details)
}

/// The text of one diagnostic log line (without its line break).
pub fn diagnostic_line(now_ms: u64, event: &str, details: &str) -> (r: String)
    ensures
        r@ == log_line_spec(now_ms, event@, details@),
{
    let mut s = String::new();
    push_char(&mut s, '[');
    let digits = u64_to_decimal(now_ms);
    push_chars(&mut s, &digits);
    push_str(&mut s, "] ");
    push_str(&mut s, event);
    push_char(&mut s, ' ');
    let flat = single_line(details);
    push_str(&mut s, flat.as_str());
    assert(s@ =~= log_line_spec(now_ms, event@, details@));
    s
}

/// One line to append to a diagnostic file.
#[derive(Clone, Debug)]
pub struct DiagnosticRecord {
    pub file_name: String,
    pub event: String,
    pub details: String,
}

/// Records as plain text: file name, event, details.
pub open spec fn records_view(v: Seq<DiagnosticRecord>) -> Seq<(Seq<char>, Seq<char>, Seq<char>)> {
    v.map_values(|r: DiagnosticRecord| (r.file_name@, r.event@, r.details@))
}

fn record(file_name: &str, event: &str, details: &str) -> (r: DiagnosticRecord)
    ensures
        r.file_name@ == file_name@,
        r.event@ == event@,
        r.details@ == details@,
{
    DiagnosticRecord {
        file_name: String::from_str(file_name),
        event: String::from_str(event),
        details: String::from_str(details),
    }
}

/// An operation event is logged to the crash-diagnostics file only.
pub fn record_operation(event: &str, details: &str) -> (r: Vec<DiagnosticRecord>)
    ensures
        records_view(r@) == seq![(CRASH_DIAGNOSTICS_FILE_NAME@, event@, details@)],
{
    let v = vec![record(CRASH_DIAGNOSTICS_FILE_NAME, event, details)];
    assert(records_view(v@) =~= seq![(CRASH_DIAGNOSTICS_FILE_NAME@, event@, details@)]);
    v
}

/// A panic is logged to the startup file and the crash-diagnostics file,
/// followed in the latter by its backtrace.
pub fn record_panic(message: &str, backtrace: &str) -> (r: Vec<DiagnosticRecord>)
    ensures
        records_view(r@) == seq![
            (STARTUP_CRASH_FILE_NAME@, "panic"@, message@),
            (CRASH_DIAGNOSTICS_FILE_NAME@, "panic"@, message@),
            (CRASH_DIAGNOSTICS_FILE_NAME@, "panic_backtrace"@, backtrace@),
        ],
{
    let v = vec![
        record(STARTUP_CRASH_FILE_NAME, "panic", message),
        record(CRASH_DIAGNOSTICS_FILE_NAME, "panic", message),
        record(CRASH_DIAGNOSTICS_FILE_NAME, "panic_backtrace", backtrace),
    ];
    assert(records_view(v@) =~= seq![
        (STARTUP_CRASH_FILE_NAME@, "panic"@, message@),
        (CRASH_DIAGNOSTICS_FILE_NAME@, "panic"@, message@),
        (CRASH_DIAGNOSTICS_FILE_NAME@, "panic_backtrace"@, backtrace@),
    ]);
    v
}

/// A startup error is logged to the startup file and the crash-diagnostics file.
pub fn record_startup_error(message: &str) -> (r: Vec<DiagnosticRecord>)
    ensures
        records_view(r@) == seq![
            (STARTUP_CRASH_FILE_NAME@, "startup_error"@, message@),
            (CRASH_DIAGNOSTICS_FILE_NAME@, "startup_error"@, message@),
        ],
{
    let v = vec![
        record(STARTUP_CRASH_FILE_NAME, "startup_error", message),
        record(CRASH_DIAGNOSTICS_FILE_NAME, "startup_error", message),
    ];
    assert(records_view(v@) =~= seq![
        (STARTUP_CRASH_FILE_NAME@, "startup_error"@, message@),
        (CRASH_DIAGNOSTICS_FILE_NAME@, "startup_error"@, message@),
    ]);
    v
}

/// How large a diagnostic file may grow before it is rotated.
pub fn max_log_bytes(file_name: &str) -> (r: u64)
    ensures
        r == (if file_name@ == STARTUP_CRASH_FILE_NAME@ {
            STARTUP_CRASH_MAX_BYTES
        } else {
            CRASH_DIAGNOSTICS_MAX_BYTES
        }),
{
    if crate::text::str_eq(file_name, STARTUP_CRASH_FILE_NAME) {
        STARTUP_CRASH_MAX_BYTES
    } else {
        CRASH_DIAGNOSTICS_MAX_BYTES
    }
}

/// What happens to a log file before a line is appended.
#[derive(Debug, Clone, Copy, PartialEq, Eq, Structural)]
pub enum Rotation {
    /// Below the limit (or absent): append to it.
    Keep,
    /// At the limit: it becomes the `.1` archive and a new file starts.
    Archive,
    /// Grossly over the limit: it is discarded and a new file starts.
    Discard,
}

/// The rotation for a log file of `len` bytes (`None` when it does not exist).
pub fn rotation_for(len: Option<u64>, max_bytes: u64) -> (r: Rotation)
    ensures
        r == match len {
            None => Rotation::Keep,
            Some(l) => if l < max_bytes {
                Rotation::Keep
            } else if l > (if 2 * max_bytes > u64::MAX { u64::MAX as int } else { 2 * max_bytes }) {
                Rotation::Discard
            } else {
                Rotation::Archive
            },
        },
{
    match len {
        None => Rotation::Keep,
        Some(l) => if l < max_bytes {
            Rotation::Keep
        } else if l > (if max_bytes > u64::MAX / 2 { u64::MAX } else { max_bytes * 2 }) {
            Rotation::Discard
        } else {
            Rotation::Archive
        },
    }
}

/// Where a rotated log is archived: the path with `.1` appended.
pub fn rotated_log_path(path: &str) -> (r: String)
    ensures
        r@ == path@ + ".1"@,
{
    crate::text::concat_str(path, ".1")
}

/// The lines of a text as `str::lines` splits them: at `\n`, dropping a
/// `\r` before it; a final line break ends the last line.
pub open spec fn text_lines(s: Seq<char>) -> Seq<Seq<char>> {
    let pieces = crate::text::split_spec(s, '\n', '\n');
    let all = if s.len() > 0 && s.last() == '\n' {
        pieces.drop_last()
    } else if s.len() == 0 {
        Seq::empty()
    } else {
        pieces
    };
    all.map_values(|p: Seq<char>| if p.len() > 0 && p.last() == '\r' { p.drop_last() } else { p })
}

/// The last `limit` lines of a text, in order.
pub open spec fn recent_lines_spec(s: Seq<char>, limit: nat) -> Seq<Seq<char>> {
    let ls = text_lines(s);
    if ls.len() <= limit {
        ls
    } else {
        ls.skip(ls.len() - limit)
    }
}

/// The last `limit` lines of a text.
pub fn recent_lines(content: &str, limit: usize) -> (r: Vec<String>)
    ensures
        r@.map_values(|l: String| l@) == recent_lines_spec(content@, limit as nat),
{
    let chars = chars_of(content);
    let parts = crate::text::split_chars(&chars, '\n', '\n');
    let ghost ps = crate::text::pieces(parts@);
    let n = parts.len();
    let count = if chars.len() == 0 {
        0
    } else if chars[chars.len() - 1] == '\n' {
        n - 1
    } else {
        n
    };
    let ghost all = if content@.len() > 0 && content@.last() == '\n' {
        ps.drop_last()
    } else if content@.len() == 0 {
        Seq::<Seq<char>>::empty()
    } else {
        ps
    };
    assert(all.len() == count);
    let first = if count <= limit { 0 } else { count - limit };
    let mut out: Vec<String> = Vec::new();
    let mut i: usize = first;
    while i < count
        invariant
            first <= i <= count <= n,
            n == parts@.len(),
            ps == crate::text::pieces(parts@),
            all.len() == count,
            forall|j: int| 0 <= j < count ==> all[j] == ps[j],
            out@.map_values(|l: String| l@) == all.map_values(
                |p: Seq<char>| if p.len() > 0 && p.last() == '\r' { p.drop_last() } else { p },
            ).subrange(first as int, i as int),
        decreases count - i,
    {
        let part = &parts[i];
        let keep = if part.len() > 0 && part[part.len() - 1] == '\r' {
            part.len() - 1
        } else {
            part.len()
        };
        let mut line: Vec<char> = Vec::new();
        let mut j: usize = 0;
        while j < keep
            invariant
                j <= keep <= part@.len(),
                line@ == part@.take(j as int),
            decreases keep - j,
        {
            line.push(part[j]);
            assert(part@.take(j + 1) =~= part@.take(j as int).push(part@[j as int]));
            j = j + 1;
        }
        let ghost before = out@.map_values(|l: String| l@);
        out.push(string_from_chars(&line));
        proof {
            assert(ps[i as int] == part@);
            if part@.len() > 0 && part@.last() == '\r' {
                assert(part@.take(keep as int) =~= part@.drop_last());
            } else {
                assert(part@.take(keep as int) =~= part@);
            }
            assert(out@.map_values(|l: String| l@) =~= before.push(line@));
        }
        i = i + 1;
    }
    let ghost mapped = all.map_values(|p: Seq<char>| if p.len() > 0 && p.last() == '\r' { p.drop_last() } else { p });
    assert(mapped.subrange(first as int, count as int) =~= recent_lines_spec(content@, limit as nat));
    out
}

/// All characters are ASCII.
pub open spec fn all_ascii(s: Seq<char>) -> bool {
    forall|i: int| 0 <= i < s.len() ==> (#[trigger] s[i] as u32) < 128
}

/// `s` from position `i` on, with every identifier that parses as a UUID
/// replaced by `<ID>`. A UUID text is 36 ASCII characters; a window holding
/// anything else is never one, so only ASCII windows are tried.
pub open spec fn redact_ids_from(s: Seq<char>, i: int) -> Seq<char>
    decreases s.len() - i,
{
    if i < 0 || i >= s.len() {
        Seq::empty()
    } else if i + 36 <= s.len() && all_ascii(s.subrange(i, i + 36)) && crate::ids::uuid_parse_value(s.subrange(i, i + 36)) is Some {
        "<ID>"@ + redact_ids_from(s, i + 36)
    } else {
        seq![s[i]] + redact_ids_from(s, i + 1)
    }
}

/// Replaces UUID-like identifiers with `<ID>`.
pub fn redact_uuid_like_identifiers(value: &str) -> (r: String)
    ensures
        r@ == redact_ids_from(value@, 0),
{
    let chars = chars_of(value);
    let n = chars.len();
    let mut out = String::new();
    let mut i: usize = 0;
    while i < n
        invariant
            i <= n,
            n == chars@.len(),
            chars@ == value@,
            out@ + redact_ids_from(value@, i as int) == redact_ids_from(value@, 0),
        decreases n - i,
    {
        let mut matched = false;
        if n - i >= 36 {
            let mut ascii = true;
            let mut window: Vec<char> = Vec::new();
            let mut k: usize = 0;
            while k < 36
                invariant
                    k <= 36,
                    i + 36 <= n,
                    n == chars@.len(),
                    window@ == chars@.subrange(i as int, i + k),
                    ascii == all_ascii(window@),
                decreases 36 - k,
            {
                let c = chars[i + k];
                let ghost wb = window@;
                if (c as u32) >= 128 {
                    ascii = false;
                }
                window.push(c);
                proof {
                    if all_ascii(wb) && (c as u32) < 128 {
                        assert forall|j: int| 0 <= j < window@.len() implies (#[trigger] window@[j] as u32) < 128 by {
                            if j < wb.len() {
                                assert(window@[j] == wb[j]);
                            }
                        }
                    }
                    if !all_ascii(wb) {
                        let j = choose|j: int| 0 <= j < wb.len() && !((#[trigger] wb[j] as u32) < 128);
                        assert(window@[j] == wb[j]);
                    }
                    if (c as u32) >= 128 {
                        assert(window@[wb.len() as int] == c);
                    }
                }
                assert(chars@.subrange(i as int, i + k + 1) =~= chars@.subrange(i as int, i + k).push(c));
                k = k + 1;
            }
            if ascii {
                let candidate = string_from_chars(&window);
                if crate::ids::parse_uuid(candidate.as_str()).is_some() {
                    matched = true;
                }
            }
        }
        if matched {
            let ghost before = out@;
            push_str(&mut out, "<ID>");
            assert(before + redact_ids_from(value@, i as int) =~= out@ + redact_ids_from(value@, i + 36));
            i = i + 36;
        } else {
            let ghost before = out@;
            push_char(&mut out, chars[i]);
            assert(before + redact_ids_from(value@, i as int) =~= out@ + redact_ids_from(value@, i + 1));
            i = i + 1;
        }
    }
    assert(out@ =~= redact_ids_from(value@, 0));
    out
}

/// A character that ends the user name after a home prefix.
pub open spec fn ends_user(c: char) -> bool {
    c == '/' || c == '\\' || crate::entries::is_white(c) || c == '"'
}

/// The first position at or after `k` holding a user-name terminator, or the end.
pub open spec fn user_end(r: Seq<char>, k: int) -> int
    decreases r.len() - k,
{
    if k < 0 || k >= r.len() {
        r.len() as int
    } else if ends_user(r[k]) {
        k
    } else {
        user_end(r, k + 1)
    }
}

pub proof fn lemma_user_end_bounds(r: Seq<char>, k: int)
    requires
        0 <= k <= r.len(),
    ensures
        k <= user_end(r, k) <= r.len(),
    decreases r.len() - k,
{
    if k < r.len() && !ends_user(r[k]) {
        lemma_user_end_bounds(r, k + 1);
    }
}

/// The text that replaces a user's home folder.
pub open spec fn home_marker() -> Seq<char> {
    seq!['<', 'H', 'O', 'M', 'E', '>']
}

/// `r` with each `<prefix><user>` from position `from` on replaced by
/// `<HOME>`; a prefix followed directly by a terminator is left alone.
pub open spec fn home_scan(r: Seq<char>, prefix: Seq<char>, from: int) -> Seq<char>
    decreases r.len() - from,
{
    if prefix.len() == 0 || from < 0 || from > r.len() {
        r
    } else {
        match crate::text::first_from(r, prefix, from) {
            None => r,
            Some(start) => {
                proof {
                    crate::text::lemma_first_from_occurs(r, prefix, from);
                    lemma_user_end_bounds(r, start + prefix.len());
                }
                let ustart = start + prefix.len();
                let uend = user_end(r, ustart);
                if uend == ustart {
                    home_scan(r, prefix, ustart)
                } else {
                    home_scan(r.take(start) + home_marker() + r.skip(uend), prefix, start + 6)
                }
            },
        }
    }
}

fn find_user_end(r: &Vec<char>, k: usize) -> (e: usize)
    requires
        k <= r@.len(),
    ensures
        e == user_end(r@, k as int),
{
    let mut j = k;
    while j < r.len()
        invariant
            k <= j <= r@.len(),
            user_end(r@, k as int) == user_end(r@, j as int),
        decreases r.len() - j,
    {
        let c = r[j];
        let white = {
            let u = c as u32;
            (0x09 <= u && u <= 0x0D) || u == 0x20 || u == 0x85 || u == 0xA0 || u == 0x1680 || (0x2000 <= u
                && u <= 0x200A) || u == 0x2028 || u == 0x2029 || u == 0x202F || u == 0x205F || u == 0x3000
        };
        if c == '/' || c == '\\' || white || c == '"' {
            return j;
        }
        j = j + 1;
    }
    j
}

/// Replaces `<prefix><user>` with `<HOME>` throughout.
pub fn redact_home_prefix(value: &str, prefix: &str) -> (r: String)
    ensures
        r@ == home_scan(value@, prefix@, 0),
{
    let mut result = chars_of(value);
    let p = chars_of(prefix);
    if p.len() == 0 {
        return string_from_chars(&result);
    }
    let mut search: usize = 0;
    while search <= result.len()
        invariant
            p@ == prefix@,
            p@.len() > 0,
            search <= result@.len() + 1,
            search <= result@.len() ==> home_scan(result@, prefix@, search as int) == home_scan(value@, prefix@, 0),
            search > result@.len() ==> result@ == home_scan(value@, prefix@, 0),
        decreases result@.len() + 1 - search,
    {
        match crate::text::find_first_from(&result, &p, search) {
            None => {
                return string_from_chars(&result);
            },
            Some(start) => {
                proof {
                    crate::text::lemma_first_from_occurs(result@, p@, search as int);
                }
                let ustart = start + p.len();
                let uend = find_user_end(&result, ustart);
                proof {
                    lemma_user_end_bounds(result@, ustart as int);
                }
                if uend == ustart {
                    search = ustart;
                } else {
                    let mut next: Vec<char> = Vec::new();
                    let mut i: usize = 0;
                    while i < start
                        invariant
                            i <= start <= result@.len(),
                            next@ == result@.take(i as int),
                        decreases start - i,
                    {
                        next.push(result[i]);
                        assert(result@.take(i + 1) =~= result@.take(i as int).push(result@[i as int]));
                        i = i + 1;
                    }
                    next.push('<');
                    next.push('H');
                    next.push('O');
                    next.push('M');
                    next.push('E');
                    next.push('>');
                    let mut j: usize = uend;
                    let ghost head = next@;
                    while j < result.len()
                        invariant
                            uend <= j <= result@.len(),
                            next@ == head + result@.subrange(uend as int, j as int),
                        decreases result.len() - j,
                    {
                        next.push(result[j]);
                        assert(result@.subrange(uend as int, j + 1) =~= result@.subrange(uend as int, j as int).push(result@[j as int]));
                        j = j + 1;
                    }
                    assert(next@ =~= result@.take(start as int) + home_marker() + result@.skip(uend as int));
                    assert(start + 6 <= next.len());
                    result = next;
                    search = start + 6;
                }
            },
        }
    }
    string_from_chars(&result)
}

/// The home-folder prefixes redacted: macOS and Linux homes, then Windows
/// user folders on every drive letter, with either separator.
pub open spec fn home_prefixes() -> Seq<Seq<char>> {
    seq!["/Users/"@, "/home/"@] + Seq::new(52, |i: int| {
        let drive = (('A' as u32) + (i / 2) as u32) as char;
        if i % 2 == 0 {
            seq![drive, ':', '\\', 'U', 's', 'e', 'r', 's', '\\']
        } else {
            seq![drive, ':', '/', 'U', 's', 'e', 'r', 's', '/']
        }
    })
}

/// `value` with each listed prefix's user names redacted in turn.
pub open spec fn redact_homes(value: Seq<char>, prefixes: Seq<Seq<char>>) -> Seq<char>
    decreases prefixes.len(),
{
    if prefixes.len() == 0 {
        value
    } else {
        home_scan(redact_homes(value, prefixes.drop_last()), prefixes.last(), 0)
    }
}

fn home_prefix_list() -> (r: Vec<String>)
    ensures
        r@.map_values(|p: String| p@) == home_prefixes(),
{
    let mut v: Vec<String> = Vec::new();
    v.push(crate::text::to_owned_string("/Users/"));
    v.push(crate::text::to_owned_string("/home/"));
    let mut d: u32 = 0;
    while d < 26
        invariant
            d <= 26,
            v@.len() == 2 + 2 * d,
            v@.map_values(|p: String| p@) == home_prefixes().take(2 + 2 * d),
        decreases 26 - d,
    {
        let drive = char_from_code(('A' as u32) + d);
        let mut a: Vec<char> = Vec::new();
        a.push(drive);
        a.push(':');
        a.push('\\');
        a.push('U');
        a.push('s');
        a.push('e');
        a.push('r');
        a.push('s');
        a.push('\\');
        let mut b: Vec<char> = Vec::new();
        b.push(drive);
        b.push(':');
        b.push('/');
        b.push('U');
        b.push('s');
        b.push('e');
        b.push('r');
        b.push('s');
        b.push('/');
        let ghost before = v@.map_values(|p: String| p@);
        v.push(string_from_chars(&a));
        v.push(string_from_chars(&b));
        proof {
            let hp = home_prefixes();
            let i0 = 2 + 2 * d as int;
            assert(hp[i0] =~= a@);
            assert(hp[i0 + 1] =~= b@);
            assert(hp.take(i0 + 2) =~= hp.take(i0).push(hp[i0]).push(hp[i0 + 1]));
            assert(v@.map_values(|p: String| p@) =~= before.push(a@).push(b@));
        }
        d = d + 1;
    }
    v
}

/// The character with code `c`, for codes of ASCII capital letters.
fn char_from_code(c: u32) -> (r: char)
    requires
        65 <= c <= 90,
    ensures
        r == c as char,
{
    let v: Vec<char> = vec!['A', 'B', 'C', 'D', 'E', 'F', 'G', 'H', 'I', 'J', 'K', 'L', 'M', 'N', 'O', 'P', 'Q', 'R', 'S', 'T', 'U', 'V', 'W', 'X', 'Y', 'Z'];
    assert(forall|k: int| 0 <= k < 26 ==> v@[k] as u32 == 65 + k);
    v[(c - 65) as usize]
}

/// Replaces user names after home-folder prefixes with `<HOME>`.
pub fn redact_user_home_prefixes(value: &str) -> (r: String)
    ensures
        r@ == redact_homes(value@, home_prefixes()),
{
    let prefixes = home_prefix_list();
    let ghost ps = prefixes@.map_values(|p: String| p@);
    let mut current = crate::text::to_owned_string(value);
    let mut i: usize = 0;
    assert(ps.take(0) =~= Seq::<Seq<char>>::empty());
    while i < prefixes.len()
        invariant
            i <= prefixes@.len(),
            ps == prefixes@.map_values(|p: String| p@),
            ps == home_prefixes(),
            current@ == redact_homes(value@, ps.take(i as int)),
        decreases prefixes.len() - i,
    {
        assert(ps.take(i + 1).drop_last() =~= ps.take(i as int));
        current = redact_home_prefix(current.as_str(), prefixes[i].as_str());
        i = i + 1;
    }
    assert(ps.take(prefixes@.len() as int) =~= ps);
    current
}

/// `s` from position `k` on with every occurrence of `from` (left to right,
/// not overlapping) replaced by `to`, as `str::replace` does; an empty
/// pattern changes nothing here (such patterns never reach it).
pub open spec fn replace_from(s: Seq<char>, from: Seq<char>, to: Seq<char>, k: int) -> Seq<char>
    decreases s.len() - k,
{
    if from.len() == 0 || k < 0 || k > s.len() {
        s.skip(k)
    } else {
        match crate::text::first_from(s, from, k) {
            None => s.skip(k),
            Some(i) => {
                proof {
                    crate::text::lemma_first_from_occurs(s, from, k);
                }
                s.subrange(k, i) + to + replace_from(s, from, to, i + from.len())
            },
        }
    }
}

/// `s` with every occurrence of the non-empty `from` replaced by `to`.
pub fn replace_all(s: &str, from: &str, to: &str) -> (r: String)
    requires
        from@.len() > 0,
    ensures
        r@ == replace_from(s@, from@, to@, 0),
{
    let chars = chars_of(s);
    let pat = chars_of(from);
    let mut out = String::new();
    let mut k: usize = 0;
    assert(s@.skip(0) =~= s@);
    while k <= chars.len()
        invariant
            chars@ == s@,
            pat@ == from@,
            pat@.len() > 0,
            k <= chars@.len(),
            out@ + replace_from(s@, from@, to@, k as int) == replace_from(s@, from@, to@, 0),
        decreases chars@.len() + 1 - k,
    {
        match crate::text::find_first_from(&chars, &pat, k) {
            None => {
                let mut j = k;
                let ghost head = out@;
                while j < chars.len()
                    invariant
                        k <= j <= chars@.len(),
                        out@ == head + chars@.subrange(k as int, j as int),
                    decreases chars.len() - j,
                {
                    push_char(&mut out, chars[j]);
                    assert(chars@.subrange(k as int, j + 1) =~= chars@.subrange(k as int, j as int).push(chars@[j as int]));
                    j = j + 1;
                }
                assert(chars@.subrange(k as int, chars@.len() as int) =~= chars@.skip(k as int));
                return out;
            },
            Some(i) => {
                proof {
                    crate::text::lemma_first_from_occurs(chars@, pat@, k as int);
                }
                let ghost head = out@;
                let mut j = k;
                while j < i
                    invariant
                        k <= j <= i <= chars@.len(),
                        out@ == head + chars@.subrange(k as int, j as int),
                    decreases i - j,
                {
                    push_char(&mut out, chars[j]);
                    assert(chars@.subrange(k as int, j + 1) =~= chars@.subrange(k as int, j as int).push(chars@[j as int]));
                    j = j + 1;
                }
                push_str(&mut out, to);
                assert(out@ + replace_from(s@, from@, to@, i + from@.len()) =~= head + replace_from(s@, from@, to@, k as int));
                k = i + pat.len();
            },
        }
    }
    out
}

/// A path with every `/` turned into `\`.
pub open spec fn back_slashes(s: Seq<char>) -> Seq<char> {
    s.map_values(|c: char| if c == '/' { '\\' } else { c })
}

fn to_back_slashes(path: &str) -> (r: String)
    ensures
        r@ == back_slashes(path@),
{
    let chars = chars_of(path);
    let mut out: Vec<char> = Vec::new();
    let mut i: usize = 0;
    while i < chars.len()
        invariant
            i <= chars@.len(),
            out@ == back_slashes(chars@.take(i as int)),
        decreases chars.len() - i,
    {
        let c = chars[i];
        out.push(if c == '/' { '\\' } else { c });
        assert(back_slashes(chars@.take(i + 1)) =~= back_slashes(chars@.take(i as int)).push(
            if c == '/' { '\\' } else { c },
        ));
        i = i + 1;
    }
    assert(chars@.take(chars@.len() as int) =~= chars@);
    string_from_chars(&out)
}

/// Replacement pairs as plain text.
pub open spec fn pairs_view(v: Seq<(String, String)>) -> Seq<(Seq<char>, Seq<char>)> {
    v.map_values(|p: (String, String)| (p.0@, p.1@))
}

/// `reps` with `(v, rep)` added unless `v` is empty or already listed.
pub open spec fn add_one(reps: Seq<(Seq<char>, Seq<char>)>, v: Seq<char>, rep: Seq<char>) -> Seq<(Seq<char>, Seq<char>)> {
    if v.len() > 0 && !(exists|k: int| 0 <= k < reps.len() && (#[trigger] reps[k]).0 == v) {
        reps.push((v, rep))
    } else {
        reps
    }
}

/// `reps` with the path in its own, forward-slash and back-slash spellings.
pub open spec fn add_variants(reps: Seq<(Seq<char>, Seq<char>)>, path: Seq<char>, rep: Seq<char>) -> Seq<(Seq<char>, Seq<char>)> {
    if path.len() == 0 {
        reps
    } else {
        add_one(add_one(add_one(reps, path, rep), crate::platform::forward_slashes(path), rep), back_slashes(path), rep)
    }
}

fn add_one_exec(reps: &mut Vec<(String, String)>, v: String, rep: &str)
    ensures
        pairs_view(final(reps)@) == add_one(pairs_view(old(reps)@), v@, rep@),
{
    if v.unicode_len() == 0 {
        return;
    }
    let ghost pv = pairs_view(reps@);
    let mut k: usize = 0;
    while k < reps.len()
        invariant
            k <= reps@.len(),
            pv == pairs_view(reps@),
            forall|j: int| 0 <= j < k ==> (#[trigger] pv[j]).0 != v@,
        decreases reps.len() - k,
    {
        if crate::text::str_eq(reps[k].0.as_str(), v.as_str()) {
            assert(pv[k as int].0 == v@);
            return;
        }
        k = k + 1;
    }
    reps.push((v, crate::text::to_owned_string(rep)));
    assert(pairs_view(reps@) =~= pv.push((v@, rep@)));
}

/// Adds the spellings of `path` mapped to `replacement`.
pub fn add_path_variants(replacements: &mut Vec<(String, String)>, path: &str, replacement: &str)
    ensures
        pairs_view(final(replacements)@) == add_variants(pairs_view(old(replacements)@), path@, replacement@),
{
    if path.unicode_len() == 0 {
        return;
    }
    add_one_exec(replacements, crate::text::to_owned_string(path), replacement);
    add_one_exec(replacements, crate::platform::to_forward_slashes(path), replacement);
    add_one_exec(replacements, to_back_slashes(path), replacement);
}

/// The folders of the tasks, local then remote for each task.
pub open spec fn task_roots(tasks: Seq<crate::model::SyncTask>) -> Seq<Seq<char>> {
    Seq::new(2 * tasks.len(), |i: int| if i % 2 == 0 {
        tasks[i / 2].local_path@
    } else {
        tasks[i / 2].remote_path@
    })
}

/// The marker of the `n`-th distinct task root.
pub open spec fn root_marker(n: nat) -> Seq<char> {
    "<TASK_ROOT_"@ + decimal(n) + ">"@
}

/// Replacement pairs for the application data folder and each distinct
/// (trimmed, non-empty) task root, numbered in order; with the roots seen
/// and their count.
pub open spec fn collect_roots(app_data: Seq<char>, roots: Seq<Seq<char>>) -> (Seq<(Seq<char>, Seq<char>)>, Seq<Seq<char>>, nat)
    decreases roots.len(),
{
    if roots.len() == 0 {
        (add_variants(Seq::empty(), app_data, "<APP_DATA>"@), Seq::empty(), 0)
    } else {
        let (reps, seen, n) = collect_roots(app_data, roots.drop_last());
        let r = crate::entries::trimmed(roots.last());
        if r.len() == 0 || seen.contains(r) {
            (reps, seen, n)
        } else {
            (add_variants(reps, r, root_marker(n + 1)), seen.push(r), n + 1)
        }
    }
}

/// Longer patterns go first, so a path is replaced before its parent.
pub open spec fn longer_first(a: (String, String), b: (String, String)) -> bool {
    utf8_len(a.0@) > utf8_len(b.0@)
}

/// Rewrites a report so it does not reveal local folders or identifiers.
pub struct DiagnosticRedactor {
    replacements: Vec<(String, String)>,
}

/// Every pattern is non-empty.
pub open spec fn patterns_nonempty(reps: Seq<(Seq<char>, Seq<char>)>) -> bool {
    forall|k: int| 0 <= k < reps.len() ==> (#[trigger] reps[k]).0.len() > 0
}

proof fn lemma_add_one_nonempty(reps: Seq<(Seq<char>, Seq<char>)>, v: Seq<char>, rep: Seq<char>)
    requires
        patterns_nonempty(reps),
    ensures
        patterns_nonempty(add_one(reps, v, rep)),
{
    let r = add_one(reps, v, rep);
    assert forall|k: int| 0 <= k < r.len() implies (#[trigger] r[k]).0.len() > 0 by {
        if k < reps.len() {
            assert(r[k] == reps[k]);
        }
    }
}

proof fn lemma_add_variants_nonempty(reps: Seq<(Seq<char>, Seq<char>)>, path: Seq<char>, rep: Seq<char>)
    requires
        patterns_nonempty(reps),
    ensures
        patterns_nonempty(add_variants(reps, path, rep)),
{
    if path.len() > 0 {
        lemma_add_one_nonempty(reps, path, rep);
        lemma_add_one_nonempty(add_one(reps, path, rep), crate::platform::forward_slashes(path), rep);
        lemma_add_one_nonempty(
            add_one(add_one(reps, path, rep), crate::platform::forward_slashes(path), rep),
            back_slashes(path),
            rep,
        );
    }
}

proof fn lemma_collect_nonempty(app_data: Seq<char>, roots: Seq<Seq<char>>)
    ensures
        patterns_nonempty(collect_roots(app_data, roots).0),
    decreases roots.len(),
{
    if roots.len() == 0 {
        lemma_add_variants_nonempty(Seq::empty(), app_data, "<APP_DATA>"@);
    } else {
        lemma_collect_nonempty(app_data, roots.drop_last());
        let (reps, seen, n) = collect_roots(app_data, roots.drop_last());
        let r = crate::entries::trimmed(roots.last());
        lemma_add_variants_nonempty(reps, r, root_marker(n + 1));
    }
}

/// Every element of the sorted sequence comes from the original.
pub proof fn lemma_sorted_elements<T>(s: Seq<T>, before: spec_fn(T, T) -> bool)
    ensures
        forall|k: int| 0 <= k < crate::order::sorted_by(s, before).len() ==> s.contains(
            #[trigger] crate::order::sorted_by(s, before)[k],
        ),
    decreases s.len(),
{
    crate::order::lemma_sorted_len(s, before);
    if s.len() > 0 {
        lemma_sorted_elements(s.drop_last(), before);
        let t = crate::order::sorted_by(s.drop_last(), before);
        crate::order::lemma_insert_point_bounds(t, s.last(), before, 0);
        let p = crate::order::insert_point(t, s.last(), before, 0);
        let u = crate::order::sorted_by(s, before);
        assert forall|k: int| 0 <= k < u.len() implies s.contains(#[trigger] u[k]) by {
            if k < p {
                assert(u[k] == t[k]);
                assert(s.drop_last().contains(t[k]));
                let j = choose|j: int| 0 <= j < s.drop_last().len() && s.drop_last()[j] == t[k];
                assert(s[j] == t[k]);
            } else if k == p {
                assert(s[s.len() - 1] == u[k]);
            } else {
                assert(u[k] == t[k - 1]);
                assert(s.drop_last().contains(t[k - 1]));
                let j = choose|j: int| 0 <= j < s.drop_last().len() && s.drop_last()[j] == t[k - 1];
                assert(s[j] == t[k - 1]);
            }
        }
    }
}

fn utf8_byte_len(s: &str) -> (r: u128)
    ensures
        r == utf8_len(s@),
{
    let chars = chars_of(s);
    let mut acc: u128 = 0;
    let mut i: usize = 0;
    while i < chars.len()
        invariant
            i <= chars@.len(),
            chars@ == s@,
            acc == utf8_len(chars@.take(i as int)),
            acc <= 4 * i,
        decreases chars.len() - i,
    {
        let c = chars[i];
        let v = c as u32;
        let w: u128 = if v <= 0x7F {
            1
        } else if v <= 0x7FF {
            2
        } else if v <= 0xFFFF {
            3
        } else {
            4
        };
        proof {
            lemma_encode_utf8_push(chars@.take(i as int), c);
            assert(chars@.take(i as int).push(c) =~= chars@.take(i + 1));
        }
        acc = acc + w;
        i = i + 1;
    }
    assert(chars@.take(chars@.len() as int) =~= chars@);
    acc
}

/// `value` with each pattern replaced in turn.
pub open spec fn apply_replacements(value: Seq<char>, reps: Seq<(Seq<char>, Seq<char>)>) -> Seq<char>
    decreases reps.len(),
{
    if reps.len() == 0 {
        value
    } else {
        replace_from(apply_replacements(value, reps.drop_last()), reps.last().0, reps.last().1, 0)
    }
}

/// The whole redaction: listed folders, then identifiers, then home folders.
pub open spec fn redacted(value: Seq<char>, reps: Seq<(Seq<char>, Seq<char>)>) -> Seq<char> {
    redact_homes(redact_ids_from(apply_replacements(value, reps), 0), home_prefixes())
}

impl DiagnosticRedactor {
    /// The replacement pairs, in the order they are applied.
    pub closed spec fn view(&self) -> Seq<(Seq<char>, Seq<char>)> {
        pairs_view(self.replacements@)
    }

    /// The redactor for an application data folder and the tasks' folders.
    pub fn new(app_data_dir: &str, tasks: &[crate::model::SyncTask]) -> (r: Self)
        ensures
            r@ == crate::order::sorted_by(
                collect_roots(app_data_dir@, task_roots(tasks@)).0,
                |a: (Seq<char>, Seq<char>), b: (Seq<char>, Seq<char>)| utf8_len(a.0) > utf8_len(b.0),
            ),
            patterns_nonempty(r@),
    {
        let ghost roots = task_roots(tasks@);
        let mut reps: Vec<(String, String)> = Vec::new();
        add_path_variants(&mut reps, app_data_dir, "<APP_DATA>");
        let mut seen: Vec<String> = Vec::new();
        let mut count: u64 = 0;
        let mut t: usize = 0;
        assert(pairs_view(Seq::<(String, String)>::empty()) =~= Seq::<(Seq<char>, Seq<char>)>::empty());
        while t < tasks.len()
            invariant
                t <= tasks@.len(),
                roots == task_roots(tasks@),
                (pairs_view(reps@), seen@.map_values(|x: String| x@), count as nat) == collect_roots(app_data_dir@, roots.take(2 * t)),
                count == seen@.len(),
            decreases tasks.len() - t,
        {
            let mut side: usize = 0;
            while side < 2
                invariant
                    side <= 2,
                    t < tasks@.len(),
                    roots == task_roots(tasks@),
                    (pairs_view(reps@), seen@.map_values(|x: String| x@), count as nat) == collect_roots(app_data_dir@, roots.take(2 * t + side)),
                    count == seen@.len(),
                decreases 2 - side,
            {
                let root_text = if side == 0 {
                    tasks[t].local_path.as_str()
                } else {
                    tasks[t].remote_path.as_str()
                };
                let ghost k = 2 * t + side;
                assert(roots[k as int] == root_text@);
                assert(roots.take(k + 1).drop_last() =~= roots.take(k as int));
                assert(roots.take(k + 1).last() == root_text@);
                let trimmed = crate::entries::trim(root_text);
                let ghost seen_view = seen@.map_values(|x: String| x@);
                let mut already = false;
                let mut j: usize = 0;
                while j < seen.len()
                    invariant
                        j <= seen@.len(),
                        seen_view == seen@.map_values(|x: String| x@),
                        already == exists|m: int| 0 <= m < j && seen_view[m] == trimmed@,
                    decreases seen.len() - j,
                {
                    if crate::text::str_eq(seen[j].as_str(), trimmed.as_str()) {
                        assert(seen_view[j as int] == trimmed@);
                        already = true;
                    }
                    j = j + 1;
                }
                assert(already == seen_view.contains(trimmed@));
                if trimmed.unicode_len() > 0 && !already {
                    let ghost sv = seen@.map_values(|x: String| x@);
                    seen.push(crate::text::to_owned_string(trimmed.as_str()));
                    assert(seen@.map_values(|x: String| x@) =~= sv.push(trimmed@));
                    count = seen.len() as u64;
                    let digits = u64_to_decimal(count);
                    let mut marker = crate::text::to_owned_string("<TASK_ROOT_");
                    push_chars(&mut marker, &digits);
                    push_str(&mut marker, ">");
                    assert(marker@ =~= root_marker(count as nat));
                    add_path_variants(&mut reps, trimmed.as_str(), marker.as_str());
                }
                side = side + 1;
            }
            assert(2 * t + 2 == 2 * (t + 1));
            t = t + 1;
        }
        assert(roots.take(2 * tasks@.len() as int) =~= roots);
        proof {
            lemma_collect_nonempty(app_data_dir@, roots);
        }
        let ghost unsorted = reps@;
        let less = |a: &(String, String), b: &(String, String)| -> (r: bool)
            ensures
                r == longer_first(*a, *b),
            { utf8_byte_len(a.0.as_str()) > utf8_byte_len(b.0.as_str()) };
        let sorted = crate::order::sort_by_before(
            reps,
            less,
            Ghost(|a: (String, String), b: (String, String)| longer_first(a, b)),
        );
        proof {
            let f = |a: (String, String), b: (String, String)| longer_first(a, b);
            let m = |p: (String, String)| (p.0@, p.1@);
            let g = |a: (Seq<char>, Seq<char>), b: (Seq<char>, Seq<char>)| utf8_len(a.0) > utf8_len(b.0);
            assert forall|a: (String, String), b: (String, String)| #[trigger] f(a, b) == g(m(a), m(b)) by {}
            crate::order::lemma_sorted_map(unsorted, f, m, g);
            lemma_sorted_elements(unsorted, f);
            assert forall|k: int| 0 <= k < pairs_view(sorted@).len() implies (#[trigger] pairs_view(sorted@)[k]).0.len() > 0 by {
                assert(unsorted.contains(sorted@[k]));
                let j = choose|j: int| 0 <= j < unsorted.len() && unsorted[j] == sorted@[k];
                assert(pairs_view(unsorted)[j].0.len() > 0);
            }
        }
        DiagnosticRedactor { replacements: sorted }
    }

    /// Redacts folders, identifiers and home folders from `value`.
    pub fn redact(&self, value: &str) -> (r: String)
        requires
            patterns_nonempty(self@),
        ensures
            r@ == redacted(value@, self@),
    {
        let ghost reps = self@;
        let mut current = crate::text::to_owned_string(value);
        let mut i: usize = 0;
        assert(reps.take(0) =~= Seq::<(Seq<char>, Seq<char>)>::empty());
        while i < self.replacements.len()
            invariant
                i <= self.replacements@.len(),
                reps == pairs_view(self.replacements@),
                patterns_nonempty(reps),
                current@ == apply_replacements(value@, reps.take(i as int)),
            decreases self.replacements.len() - i,
        {
            assert(reps.take(i + 1).drop_last() =~= reps.take(i as int));
            assert(reps[i as int].0.len() > 0);
            current = replace_all(current.as_str(), self.replacements[i].0.as_str(), self.replacements[i].1.as_str());
            i = i + 1;
        }
        assert(reps.take(self.replacements@.len() as int) =~= reps);
        let ids = redact_uuid_like_identifiers(current.as_str());
        redact_user_home_prefixes(ids.as_str())
    }
}

/// Each line as a report line, one after the other.
pub open spec fn report_lines(ls: Seq<Seq<char>>) -> Seq<char>
    decreases ls.len(),
{
    if ls.len() == 0 {
        Seq::empty()
    } else {
        report_lines(ls.drop_last()) + report_line(ls.last())
    }
}

/// A report section from a diagnostic file's content (`None` when it could
/// not be read): its title, then its last `limit` lines, or a placeholder.
pub open spec fn file_section(title: Seq<char>, content: Option<Seq<char>>, limit: nat) -> Seq<char> {
    "\n["@ + title + "]\n"@ + match content {
        None => "暂无记录\n"@,
        Some(c) => if recent_lines_spec(c, limit).len() == 0 {
            "暂无记录\n"@
        } else {
            report_lines(recent_lines_spec(c, limit))
        },
    }
}

/// The name a log level is printed with.
pub open spec fn level_name(level: crate::model::LogLevel) -> Seq<char> {
    match level {
        crate::model::LogLevel::Info => "Info"@,
        crate::model::LogLevel::Warn => "Warn"@,
        crate::model::LogLevel::Error => "Error"@,
    }
}

/// A sync-log entry as a report line (before it is clipped).
pub open spec fn log_entry_text(e: crate::model::LogEntry) -> Seq<char> {
    seq!['['] + crate::history::signed_decimal(e.created_unix_ms as int) + "] "@ + level_name(e.level) + " path="@
        + match e.relative_path {
        Some(p) => p@,
        None => "-"@,
    } + " message="@ + e.message@
}

/// The sync-log section's lines: the first `REPORT_LOG_ENTRIES` entries.
pub open spec fn log_lines(logs: Seq<crate::model::LogEntry>) -> Seq<char>
    decreases logs.len(),
{
    if logs.len() == 0 {
        Seq::empty()
    } else {
        log_lines(logs.drop_last()) + report_line(log_entry_text(logs.last()))
    }
}

/// The report before redaction and truncation.
pub open spec fn raw_report(
    version: Seq<char>,
    os: Seq<char>,
    arch: Seq<char>,
    now_ms: u64,
    diagnostics: Option<Seq<char>>,
    startup: Option<Seq<char>>,
    logs: Seq<crate::model::LogEntry>,
) -> Seq<char> {
    "LanBridge 诊断摘要\n"@ + "应用版本: "@ + version + "\n"@ + "系统: "@ + os + " ("@ + arch + ")\n生成时间: "@
        + decimal(now_ms as nat) + "\n"@ + "已自动隐藏本机目录、任务根目录与完整设备标识。\n"@
        + file_section("运行诊断（最近 200 条）"@, diagnostics, REPORT_DIAGNOSTIC_LINES as nat)
        + file_section("启动/崩溃记录（最近 100 条）"@, startup, REPORT_STARTUP_LINES as nat)
        + "\n[同步记录（最近 50 条）]\n"@ + if logs.len() == 0 {
        "暂无记录\n"@
    } else {
        log_lines(logs.take(if logs.len() <= REPORT_LOG_ENTRIES { logs.len() as int } else { REPORT_LOG_ENTRIES as int }))
    }
}

fn append_file_section(report: &mut String, title: &str, content: Option<&str>, limit: usize)
    ensures
        final(report)@ == old(report)@ + file_section(title@, match content {
            Some(c) => Some(c@),
            None => None,
        }, limit as nat),
{
    let ghost start = report@;
    push_str(report, "\n[");
    push_str(report, title);
    push_str(report, "]\n");
    let ghost head = report@;
    match content {
        None => {
            push_str(report, "暂无记录\n");
        },
        Some(c) => {
            let lines = recent_lines(c, limit);
            let ghost ls = lines@.map_values(|l: String| l@);
            if lines.len() == 0 {
                push_str(report, "暂无记录\n");
            } else {
                let mut i: usize = 0;
                assert(ls.take(0) =~= Seq::<Seq<char>>::empty());
                while i < lines.len()
                    invariant
                        i <= lines@.len(),
                        ls == lines@.map_values(|l: String| l@),
                        report@ == head + report_lines(ls.take(i as int)),
                    decreases lines.len() - i,
                {
                    assert(ls.take(i + 1).drop_last() =~= ls.take(i as int));
                    append_report_line(report, lines[i].as_str());
                    i = i + 1;
                }
                assert(ls.take(lines@.len() as int) =~= ls);
            }
        },
    }
    assert(report@ =~= start + file_section(title@, match content {
        Some(c) => Some(c@),
        None => None,
    }, limit as nat));
}

fn level_text(level: crate::model::LogLevel) -> (r: &'static str)
    ensures
        r@ == level_name(level),
{
    match level {
        crate::model::LogLevel::Info => "Info",
        crate::model::LogLevel::Warn => "Warn",
        crate::model::LogLevel::Error => "Error",
    }
}

fn log_entry_line(e: &crate::model::LogEntry) -> (r: String)
    ensures
        r@ == log_entry_text(*e),
{
    let mut s = String::new();
    push_char(&mut s, '[');
    let t = crate::history::signed_text(e.created_unix_ms);
    push_str(&mut s, t.as_str());
    push_str(&mut s, "] ");
    push_str(&mut s, level_text(e.level));
    push_str(&mut s, " path=");
    match &e.relative_path {
        Some(p) => push_str(&mut s, p.as_str()),
        None => push_str(&mut s, "-"),
    }
    push_str(&mut s, " message=");
    push_str(&mut s, e.message.as_str());
    assert(s@ =~= log_entry_text(*e));
    s
}

/// Builds the shareable support report from the diagnostic files' contents
/// (`None` where a file could not be read), the tasks and the recent sync
/// log: redacted, then cut to the size limit.
pub fn build_diagnostic_report(
    app_data_dir: &str,
    tasks: &[crate::model::SyncTask],
    logs: &[crate::model::LogEntry],
    app_version: &str,
    os: &str,
    arch: &str,
    now_ms: u64,
    diagnostics: Option<&str>,
    startup: Option<&str>,
) -> (r: String)
    ensures
        r@ == truncated_report(
            redacted(
                raw_report(
                    app_version@,
                    os@,
                    arch@,
                    now_ms,
                    match diagnostics { Some(c) => Some(c@), None => None },
                    match startup { Some(c) => Some(c@), None => None },
                    logs@,
                ),
                crate::order::sorted_by(
                    collect_roots(app_data_dir@, task_roots(tasks@)).0,
                    |a: (Seq<char>, Seq<char>), b: (Seq<char>, Seq<char>)| utf8_len(a.0) > utf8_len(b.0),
                ),
            ),
        ),
{
    let redactor = DiagnosticRedactor::new(app_data_dir, tasks);
    let mut report = String::new();
    push_str(&mut report, "LanBridge 诊断摘要\n");
    push_str(&mut report, "应用版本: ");
    push_str(&mut report, app_version);
    push_str(&mut report, "\n");
    push_str(&mut report, "系统: ");
    push_str(&mut report, os);
    push_str(&mut report, " (");
    push_str(&mut report, arch);
    push_str(&mut report, ")\n生成时间: ");
    let digits = u64_to_decimal(now_ms);
    push_chars(&mut report, &digits);
    push_str(&mut report, "\n");
    push_str(&mut report, "已自动隐藏本机目录、任务根目录与完整设备标识。\n");
    append_file_section(&mut report, "运行诊断（最近 200 条）", diagnostics, REPORT_DIAGNOSTIC_LINES);
    append_file_section(&mut report, "启动/崩溃记录（最近 100 条）", startup, REPORT_STARTUP_LINES);
    push_str(&mut report, "\n[同步记录（最近 50 条）]\n");
    let ghost head = report@;
    if logs.len() == 0 {
        push_str(&mut report, "暂无记录\n");
    } else {
        let n = if logs.len() <= REPORT_LOG_ENTRIES { logs.len() } else { REPORT_LOG_ENTRIES };
        let ghost taken = logs@.take(n as int);
        let mut i: usize = 0;
        assert(taken.take(0) =~= Seq::<crate::model::LogEntry>::empty());
        while i < n
            invariant
                i <= n <= logs@.len(),
                taken == logs@.take(n as int),
                report@ == head + log_lines(taken.take(i as int)),
            decreases n - i,
        {
            assert(taken.take(i + 1).drop_last() =~= taken.take(i as int));
            assert(taken.take(i + 1).last() == logs@[i as int]);
            let line = log_entry_line(&logs[i]);
            append_report_line(&mut report, line.as_str());
            i = i + 1;
        }
        assert(taken.take(n as int) =~= taken);
    }
    let redacted_text = redactor.redact(report.as_str());
    truncate_report(redacted_text.as_str())
}

/// Law: a report that fits is left as it is; one that does not is cut to a
/// prefix of itself, on a character boundary, followed by the truncation
/// marker, and still fits.
pub proof fn law_truncation_keeps_a_prefix_and_marks_it(report: Seq<char>)
    ensures
        utf8_len(report) <= REPORT_MAX_BYTES ==> truncated_report(report) == report,
        utf8_len(report) > REPORT_MAX_BYTES ==> {
            let t = truncated_report(report);
            let head = t.len() - truncation_marker().len();
            &&& 0 <= head <= report.len()
            &&& t.take(head) == report.take(head)
            &&& t.skip(head) == truncation_marker()
        },
        utf8_len(truncated_report(report)) <= REPORT_MAX_BYTES,
{
    law_report_is_bounded(report);
    if utf8_len(report) > REPORT_MAX_BYTES {
        lemma_marker_len();
        let limit = REPORT_MAX_BYTES - utf8_len(truncation_marker());
        lemma_fitting_prefix_fits(report, limit);
        let k = fitting_prefix(report, limit);
        let t = truncated_report(report);
        assert(t == report.take(k) + truncation_marker());
        assert(t.take(k) =~= report.take(k));
        assert(t.skip(k) =~= truncation_marker());
    }
}

/// Law: a file's section in the report shows its last `limit` lines in
/// order (all of them when there are fewer), and reads `暂无记录` when the
/// file is missing or holds no line.
pub proof fn law_section_shows_the_last_lines(title: Seq<char>, content: Option<Seq<char>>, limit: nat)
    ensures
        ({
            let header = "\n["@ + title + "]\n"@;
            match content {
                None => file_section(title, content, limit) == header + "暂无记录\n"@,
                Some(c) => {
                    let ls = text_lines(c);
                    let n = if ls.len() <= limit { ls.len() } else { limit };
                    &&& recent_lines_spec(c, limit) == ls.subrange(ls.len() - n, ls.len() as int)
                    &&& (n == 0 ==> file_section(title, content, limit) == header + "暂无记录\n"@)
                    &&& (n > 0 ==> file_section(title, content, limit) == header + report_lines(recent_lines_spec(c, limit)))
                },
            }
        }),
{
    match content {
        None => {},
        Some(c) => {
            let ls = text_lines(c);
            if ls.len() <= limit {
                assert(ls.subrange(0, ls.len() as int) =~= ls);
            } else {
                assert(ls.skip(ls.len() - limit) =~= ls.subrange(ls.len() - limit, ls.len() as int));
            }
        },
    }
}

} // verus!
