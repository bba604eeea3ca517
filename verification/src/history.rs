//! The `.lanbridge-history/` folder inside a sync root: where deleted and
//! overwritten files are kept, how much it may hold, and how entries found on
//! disk are named and identified.
use vstd::prelude::*;
use crate::conflict::{ext_split_point, name_timestamp, split_stem_ext, utc_time_text};
use crate::digest::{blake3_digest, ContentHasher};
use crate::model::{HistoryEntry, HistoryReason};
use crate::path_rules::{path_push, push_component};
use crate::text::{chars_of, decimal, push_chars, push_str, string_from_chars, u64_to_decimal};
use vstd::utf8::encode_utf8;
use crate::actions::{descends, is_descendant_path};
use crate::coordinator::{has_base, path_starts_with};
use crate::order::{lex_less, sort_by_before, sorted_by, str_less};
use crate::planner::{path_depth, path_depth_spec};

verus! {

/// How long history entries are kept: thirty days, in milliseconds.
pub const DEFAULT_RETENTION_DAYS_MS: i64 = 2592000000;

/// How much history may hold: one gigabyte.
pub const DEFAULT_SIZE_LIMIT_BYTES: i64 = 1073741824;

/// The history folder's name inside a sync root.
pub const HISTORY_DIR_NAME: &'static str = ".lanbridge-history";

/// The history folder of a sync root and its trash and overwritten parts.
pub struct HistoryStore {
    pub history_dir: String,
}

/// The digits of an unsigned number, as text.
pub fn number_text(n: u64) -> (r: String)
    ensures
        r@ == decimal(n as nat),
{
    let digits = u64_to_decimal(n);
    string_from_chars(&digits)
}

/// Decimal text of a signed number, with `-` when negative.
pub open spec fn signed_decimal(n: int) -> Seq<char> {
    if n < 0 {
        seq!['-'] + decimal((-n) as nat)
    } else {
        decimal(n as nat)
    }
}

/// The text of a signed number (as `i64::to_string` writes it).
pub fn signed_text(n: i64) -> (r: String)
    ensures
        r@ == signed_decimal(n as int),
{
    if n < 0 {
        let magnitude: u64 = if n == i64::MIN {
            9223372036854775808u64
        } else {
            (-n) as u64
        };
        let digits = u64_to_decimal(magnitude);
        let mut s = String::new();
        crate::text::push_char(&mut s, '-');
        push_chars(&mut s, &digits);
        assert(s@ =~= seq!['-'] + decimal((-n) as nat));
        s
    } else {
        number_text(n as u64)
    }
}

fn text_chars(s: &str) -> (r: Vec<char>)
    ensures
        r@ == s@,
{
    chars_of(s)
}

impl HistoryStore {
    /// The history store of the sync root `sync_root`.
    pub fn new(sync_root: &str) -> (r: Self)
        ensures
            r.history_dir@ == path_push(sync_root@, HISTORY_DIR_NAME@),
    {
        let mut dir = crate::text::to_owned_string(sync_root);
        push_component(&mut dir, &text_chars(HISTORY_DIR_NAME));
        HistoryStore { history_dir: dir }
    }

    /// Where deleted files are kept.
    pub fn trash_dir(&self) -> (r: String)
        ensures
            r@ == path_push(self.history_dir@, "trash"@),
    {
        let mut dir = self.history_dir.clone();
        push_component(&mut dir, &text_chars("trash"));
        dir
    }

    /// Where overwritten files are kept.
    pub fn overwritten_dir(&self) -> (r: String)
        ensures
            r@ == path_push(self.history_dir@, "overwritten"@),
    {
        let mut dir = self.history_dir.clone();
        push_component(&mut dir, &text_chars("overwritten"));
        dir
    }

    /// Where a file deleted at `now` is stored: `trash/<now>/<relative path>`.
    pub fn trash_destination(&self, relative_path: &str, now_unix_ms: i64) -> (r: String)
        ensures
            r@ == path_push(
                path_push(path_push(self.history_dir@, "trash"@), signed_decimal(now_unix_ms as int)),
                relative_path@,
            ),
    {
        let mut dir = self.trash_dir();
        let ts = signed_text(now_unix_ms);
        push_component(&mut dir, &chars_of(ts.as_str()));
        push_component(&mut dir, &chars_of(relative_path));
        dir
    }

    /// Where a file overwritten at `now` is stored: `overwritten/<now>/<relative path>`.
    pub fn overwritten_destination(&self, relative_path: &str, now_unix_ms: i64) -> (r: String)
        ensures
            r@ == path_push(
                path_push(path_push(self.history_dir@, "overwritten"@), signed_decimal(now_unix_ms as int)),
                relative_path@,
            ),
    {
        let mut dir = self.overwritten_dir();
        let ts = signed_text(now_unix_ms);
        push_component(&mut dir, &chars_of(ts.as_str()));
        push_component(&mut dir, &chars_of(relative_path));
        dir
    }

    /// Whether history is too full for operations that move files into it:
    /// only the size limit blocks; old entries are cleaned up instead.
    pub fn is_storage_full(&self, total_size_bytes: i64, oldest_entry_unix_ms: i64, now_unix_ms: i64) -> (r: bool)
        ensures
            r == (total_size_bytes >= DEFAULT_SIZE_LIMIT_BYTES),
    {
        total_size_bytes >= DEFAULT_SIZE_LIMIT_BYTES
    }
}

/// The entry recorded for a file moved into history.
pub open spec fn moved_entry_spec(
    id: u128,
    relative_path: Seq<char>,
    stored_path: Seq<char>,
    reason: HistoryReason,
    now: i64,
    size: i64,
    e: HistoryEntry,
) -> bool {
    &&& e.id == id
    &&& e.task_id == 0
    &&& e.original_relative_path@ == relative_path
    &&& e.stored_path@ == stored_path
    &&& e.reason == reason
    &&& e.created_unix_ms == now
    &&& e.size == size
}

/// The record of a file moved into history; the caller fills in the task.
pub fn moved_entry(id: u128, relative_path: &str, stored_path: &str, reason: HistoryReason, now: i64, size: i64) -> (r: HistoryEntry)
    ensures
        moved_entry_spec(id, relative_path@, stored_path@, reason, now, size, r),
{
    HistoryEntry {
        id,
        task_id: 0,
        original_relative_path: crate::text::to_owned_string(relative_path),
        stored_path: crate::text::to_owned_string(stored_path),
        reason,
        created_unix_ms: now,
        size,
    }
}

/// What history holds, as far as its limits go.
#[derive(Debug, Clone, Copy, PartialEq, Eq, Structural)]
pub struct StorageUsage {
    pub total_size: i64,
    pub oldest_ms: i64,
}

impl StorageUsage {
    /// Nothing counted yet.
    pub fn new() -> (r: Self)
        ensures
            r == (StorageUsage { total_size: 0, oldest_ms: i64::MAX }),
    {
        StorageUsage { total_size: 0, oldest_ms: i64::MAX }
    }

    /// Counts one stored file of `len` bytes, modified at `modified_ms` when known.
    pub fn add_file(&mut self, len: i64, modified_ms: Option<i64>)
        requires
            old(self).total_size + len <= i64::MAX,
            old(self).total_size + len >= i64::MIN,
        ensures
            final(self).total_size == old(self).total_size + len,
            final(self).oldest_ms == match modified_ms {
                Some(ms) => if ms > 0 && ms < old(self).oldest_ms {
                    ms
                } else {
                    old(self).oldest_ms
                },
                None => old(self).oldest_ms,
            },
    {
        self.total_size = self.total_size + len;
        if let Some(ms) = modified_ms {
            if ms > 0 && ms < self.oldest_ms {
                self.oldest_ms = ms;
            }
        }
    }

    /// The oldest modification time counted, or `now` when none was.
    pub fn oldest_or(&self, now: i64) -> (r: i64)
        ensures
            r == (if self.oldest_ms == i64::MAX { now } else { self.oldest_ms }),
    {
        if self.oldest_ms == i64::MAX {
            now
        } else {
            self.oldest_ms
        }
    }
}

/// `n / 2^20` rounded to one decimal place (half to even), in tenths.
pub open spec fn mebibyte_tenths(n: nat) -> nat {
    let q = (n * 10) / 1048576;
    let r = (n * 10) % 1048576;
    if 2 * r > 1048576 || (2 * r == 1048576 && q % 2 == 1) {
        q + 1
    } else {
        q
    }
}

/// `bytes` in mebibytes with one decimal, as `{:.1}` prints the quotient.
pub open spec fn mebibytes_text(n: nat) -> Seq<char> {
    let t = mebibyte_tenths(n);
    decimal(t / 10) + seq!['.'] + decimal(t % 10)
}

/// Mebibytes with one decimal place.
pub fn format_mebibytes(bytes: u64) -> (r: String)
    ensures
        r@ == mebibytes_text(bytes as nat),
{
    let whole = bytes / 1048576;
    let part = bytes % 1048576;
    let q = 10 * whole + (10 * part) / 1048576;
    let rem = (10 * part) % 1048576;
    proof {
        let n = bytes as int;
        let x = (10 * part) as int;
        assert(n == whole * 1048576 + part) by (nonlinear_arith)
            requires
                whole == n / 1048576,
                part == n % 1048576,
        ;
        assert(x == (x / 1048576) * 1048576 + x % 1048576) by (nonlinear_arith)
            requires
                x >= 0,
        ;
        assert(n * 10 == q * 1048576 + rem) by (nonlinear_arith)
            requires
                n == whole * 1048576 + part,
                x == 10 * part,
                x == (x / 1048576) * 1048576 + x % 1048576,
                q == 10 * whole + x / 1048576,
                rem == x % 1048576,
        ;
        vstd::arithmetic::div_mod::lemma_fundamental_div_mod_converse(n * 10, 1048576, q as int, rem as int);
    }
    let t = if 2 * rem > 1048576 || (2 * rem == 1048576 && q % 2 == 1) {
        q + 1
    } else {
        q
    };
    let mut s = number_text(t / 10);
    crate::text::push_char(&mut s, '.');
    let d = u64_to_decimal(t % 10);
    push_chars(&mut s, &d);
    s
}

/// Why history refuses more files, if it does.
pub open spec fn storage_blocked(u: StorageUsage, now: i64) -> Option<Seq<char>> {
    if u.total_size >= DEFAULT_SIZE_LIMIT_BYTES {
        Some("history storage full ("@ + mebibytes_text(u.total_size as nat)
            + " MB used); clean up old entries before destructive sync operations"@)
    } else {
        None
    }
}

/// Refuses operations that move files into history once it is full.
pub fn check_storage_blocked(store: &HistoryStore, usage: &StorageUsage, now: i64) -> (r: Result<(), String>)
    ensures
        match storage_blocked(*usage, now) {
            None => r is Ok,
            Some(m) => r matches Err(e) && e@ == m,
        },
{
    let oldest = usage.oldest_or(now);
    if store.is_storage_full(usage.total_size, oldest, now) {
        let mut msg = crate::text::to_owned_string("history storage full (");
        let mb = format_mebibytes(usage.total_size as u64);
        push_str(&mut msg, mb.as_str());
        push_str(&mut msg, " MB used); clean up old entries before destructive sync operations");
        return Err(msg);
    }
    Ok(())
}

/// The value of a string of decimal digits.
pub open spec fn digits_value(s: Seq<char>) -> int
    decreases s.len(),
{
    if s.len() == 0 {
        0
    } else {
        10 * digits_value(s.drop_last()) + (s.last() as int - '0' as int)
    }
}

/// Every character is a decimal digit, and there is one at least.
pub open spec fn all_digits(s: Seq<char>) -> bool {
    s.len() > 0 && forall|i: int| 0 <= i < s.len() ==> '0' <= #[trigger] s[i] <= '9'
}

/// What `i64::from_str` accepts: an optional sign, then digits, in range.
pub open spec fn parse_i64_spec(s: Seq<char>) -> Option<i64> {
    let neg = s.len() > 0 && s[0] == '-';
    let signed = s.len() > 0 && (s[0] == '-' || s[0] == '+');
    let body = if signed { s.drop_first() } else { s };
    if !all_digits(body) {
        None
    } else {
        let v = if neg { -digits_value(body) } else { digits_value(body) };
        if i64::MIN <= v <= i64::MAX {
            Some(v as i64)
        } else {
            None
        }
    }
}

proof fn lemma_digits_grow(s: Seq<char>, k: int)
    requires
        0 <= k <= s.len(),
        forall|i: int| 0 <= i < s.len() ==> '0' <= #[trigger] s[i] <= '9',
    ensures
        digits_value(s.take(k)) <= digits_value(s),
        0 <= digits_value(s.take(k)),
    decreases s.len() - k,
{
    if k < s.len() {
        lemma_digits_grow(s, k + 1);
        assert(s.take(k + 1).drop_last() =~= s.take(k));
        assert(s.take(k + 1).last() == s[k]);
    } else {
        assert(s.take(k) =~= s);
        lemma_digits_nonneg(s);
    }
}

proof fn lemma_digits_nonneg(s: Seq<char>)
    requires
        forall|i: int| 0 <= i < s.len() ==> '0' <= #[trigger] s[i] <= '9',
    ensures
        0 <= digits_value(s),
    decreases s.len(),
{
    if s.len() > 0 {
        assert forall|i: int| 0 <= i < s.drop_last().len() implies '0' <= #[trigger] s.drop_last()[i] <= '9' by {
            assert(s.drop_last()[i] == s[i]);
        }
        lemma_digits_nonneg(s.drop_last());
    }
}

/// Parses a signed decimal number the way `str::parse::<i64>` does.
pub fn parse_i64(text: &str) -> (r: Option<i64>)
    ensures
        r == parse_i64_spec(text@),
{
    let s = chars_of(text);
    let n = s.len();
    let neg = n > 0 && s[0] == '-';
    let signed = n > 0 && (s[0] == '-' || s[0] == '+');
    let start: usize = if signed { 1 } else { 0 };
    let ghost body = if signed { s@.drop_first() } else { s@ };
    assert(body =~= s@.skip(start as int));
    if start >= n {
        return None;
    }
    let mut acc: u128 = 0;
    let mut i: usize = start;
    while i < n
        invariant
            start <= i <= n,
            n == s@.len(),
            s@ == text@,
            signed == (n > 0 && (s@[0] == '-' || s@[0] == '+')),
            neg == (n > 0 && s@[0] == '-'),
            start == (if signed { 1usize } else { 0usize }),
            body == (if signed { s@.drop_first() } else { s@ }),
            body == s@.skip(start as int),
            forall|j: int| start <= j < i ==> '0' <= #[trigger] s@[j] <= '9',
            acc as int == digits_value(body.take(i - start)),
            acc <= 9223372036854775808u128,
        decreases n - i,
    {
        let c = s[i];
        if c < '0' || c > '9' {
            proof {
                assert(body[i - start] == c);
            }
            return None;
        }
        let d = (c as u32 - '0' as u32) as u128;
        assert(body.take(i - start + 1).drop_last() =~= body.take(i - start));
        assert(body.take(i - start + 1).last() == c);
        let next = acc * 10 + d;
        if next > 9223372036854775808u128 {
            proof {
                assert forall|j: int| 0 <= j < body.take(i - start + 1).len() implies '0' <= #[trigger] body.take(i - start + 1)[j] <= '9' by {
                    assert(body.take(i - start + 1)[j] == s@[start + j]);
                }
                if all_digits(body) {
                    lemma_digits_grow(body, i - start + 1);
                }
            }
            return None;
        }
        acc = next;
        i = i + 1;
    }
    assert(body.take(n - start) =~= body);
    assert(all_digits(body)) by {
        assert forall|j: int| 0 <= j < body.len() implies '0' <= #[trigger] body[j] <= '9' by {
            assert(body[j] == s@[start + j]);
        }
    }
    if neg {
        Some(if acc == 9223372036854775808u128 {
            i64::MIN
        } else {
            -(acc as i64)
        })
    } else if acc <= 9223372036854775807u128 {
        Some(acc as i64)
    } else {
        None
    }
}

/// Whether a history folder named `name` (a timestamp) is older than `cutoff`.
pub fn expired_timestamp_dir(name: &str, cutoff_unix_ms: i64) -> (r: bool)
    ensures
        r == (parse_i64_spec(name@) matches Some(ts) && ts < cutoff_unix_ms),
{
    match parse_i64(name) {
        Some(ts) => ts < cutoff_unix_ms,
        None => false,
    }
}

/// Components joined with `/`.
pub open spec fn join_components(cs: Seq<Seq<char>>) -> Seq<char>
    decreases cs.len(),
{
    if cs.len() == 0 {
        Seq::empty()
    } else if cs.len() == 1 {
        cs[0]
    } else {
        join_components(cs.drop_last()) + seq!['/'] + cs.last()
    }
}

/// The components from `start` on, joined with `/`.
pub fn join_with_slash(parts: &[String], start: usize) -> (r: String)
    requires
        start <= parts@.len(),
    ensures
        r@ == join_components(parts@.skip(start as int).map_values(|p: String| p@)),
{
    let ghost cs = parts@.skip(start as int).map_values(|p: String| p@);
    let mut out = String::new();
    let mut i: usize = start;
    while i < parts.len()
        invariant
            start <= i <= parts@.len(),
            cs == parts@.skip(start as int).map_values(|p: String| p@),
            out@ == join_components(cs.take(i - start)),
        decreases parts.len() - i,
    {
        let ghost before = out@;
        let ghost k = i - start;
        if i > start {
            crate::text::push_char(&mut out, '/');
        }
        push_str(&mut out, parts[i].as_str());
        proof {
            assert(cs.take(k + 1).drop_last() =~= cs.take(k));
            assert(cs[k] == parts@[i as int]@);
            assert(cs.take(k + 1).last() == parts@[i as int]@);
            if k == 0 {
                assert(cs.take(1).len() == 1);
                assert(out@ =~= cs.take(1)[0]);
            } else {
                assert(out@ =~= before + seq!['/'] + parts@[i as int]@);
            }
        }
        i = i + 1;
    }
    assert(cs.take(parts@.len() - start) =~= cs);
    out
}

/// Where a file found in history came from: `<timestamp>/<original path>`
/// gives that time and path; a bare timestamp is skipped; otherwise the
/// whole path is the original one, timed by the file's modification.
pub open spec fn discovered_origin_spec(components: Seq<Seq<char>>, modified_ms: i64) -> Option<(i64, Seq<char>)> {
    if components.len() == 0 {
        None
    } else {
        match parse_i64_spec(components[0]) {
            Some(ts) => if components.len() > 1 {
                Some((ts, join_components(components.drop_first())))
            } else {
                None
            },
            None => Some((modified_ms, join_components(components))),
        }
    }
}

/// The creation time and original relative path of a file found under a
/// history folder, from its path components below that folder.
pub fn discovered_origin(components: &Vec<String>, modified_ms: i64) -> (r: Option<(i64, String)>)
    ensures
        match r {
            Some((t, p)) => discovered_origin_spec(components@.map_values(|c: String| c@), modified_ms) == Some((t, p@)),
            None => discovered_origin_spec(components@.map_values(|c: String| c@), modified_ms) is None,
        },
{
    let ghost cs = components@.map_values(|c: String| c@);
    if components.len() == 0 {
        return None;
    }
    match parse_i64(components[0].as_str()) {
        Some(ts) => {
            if components.len() > 1 {
                assert(components@.skip(1).map_values(|c: String| c@) =~= cs.drop_first());
                Some((ts, join_with_slash(components.as_slice(), 1)))
            } else {
                None
            }
        },
        None => {
            assert(components@.skip(0) =~= components@);
            Some((modified_ms, join_with_slash(components.as_slice(), 0)))
        },
    }
}

/// The big-endian bytes of a 128-bit identifier.
pub open spec fn id_bytes(id: u128) -> Seq<u8> {
    Seq::new(16, |i: int| ((id >> (8 * (15 - i)) as u128) & 0xff) as u8)
}

/// The identifier read from the first sixteen bytes, big-endian.
pub open spec fn id_from_bytes(b: Seq<u8>) -> int
    decreases b.len(),
{
    if b.len() == 0 {
        0
    } else {
        id_from_bytes(b.drop_last()) * 256 + b.last() as int
    }
}

fn u128_be_bytes(id: u128) -> (r: Vec<u8>)
    ensures
        r@ == id_bytes(id),
{
    let mut out: Vec<u8> = Vec::new();
    let mut i: usize = 0;
    while i < 16
        invariant
            i <= 16,
            out@.len() == i,
            forall|j: int| 0 <= j < i ==> out@[j] == ((id >> (8 * (15 - j)) as u128) & 0xff) as u8,
        decreases 16 - i,
    {
        let shift: u128 = (8 * (15 - i)) as u128;
        out.push(((id >> shift) & 0xff) as u8);
        i = i + 1;
    }
    assert(out@ =~= id_bytes(id));
    out
}

/// The identifier of a history file found on disk: the first sixteen bytes
/// of the BLAKE3 hash of the task id's bytes followed by the stored path.
pub open spec fn stable_id_spec(task_id: u128, stored_path: Seq<char>) -> int {
    id_from_bytes(blake3_digest(id_bytes(task_id) + encode_utf8(stored_path)).take(16))
}

/// A history id that stays the same for the same task and stored path.
pub fn stable_history_id(task_id: u128, stored_path: &str) -> (r: u128)
    ensures
        r as int == stable_id_spec(task_id, stored_path@),
{
    let mut h = ContentHasher::new();
    let idb = u128_be_bytes(task_id);
    h.update(idb.as_slice());
    let bytes = stored_path.as_bytes();
    h.update(bytes);
    let digest = h.finish();
    assert(Seq::<u8>::empty() + id_bytes(task_id) + encode_utf8(stored_path@) =~= id_bytes(task_id) + encode_utf8(stored_path@));
    let mut acc: u128 = 0;
    let mut i: usize = 0;
    while i < 16
        invariant
            i <= 16,
            digest@.len() == 32,
            acc as int == id_from_bytes(digest@.take(i as int)),
            acc as int <= id_from_bytes_bound(i as nat),
        decreases 16 - i,
    {
        assert(digest@.take(i + 1).drop_last() =~= digest@.take(i as int));
        proof {
            lemma_bound_step(i as nat);
        }
        acc = acc * 256 + digest[i] as u128;
        i = i + 1;
    }
    acc
}

/// A bound on `id_from_bytes` of `k` bytes: `256^k - 1`.
pub open spec fn id_from_bytes_bound(k: nat) -> int
    decreases k,
{
    if k == 0 {
        0
    } else {
        id_from_bytes_bound((k - 1) as nat) * 256 + 255
    }
}

proof fn lemma_bound_step(k: nat)
    requires
        k < 16,
    ensures
        id_from_bytes_bound(k + 1) <= u128::MAX,
{
    reveal_with_fuel(id_from_bytes_bound, 17);
    assert(id_from_bytes_bound(16) == 0xffff_ffff_ffff_ffff_ffff_ffff_ffff_ffffint);
    lemma_bound_monotone(k + 1, 16);
}

proof fn lemma_bound_monotone(a: nat, b: nat)
    requires
        a <= b,
    ensures
        id_from_bytes_bound(a) <= id_from_bytes_bound(b),
    decreases b - a,
{
    if a < b {
        lemma_bound_monotone(a, (b - 1) as nat);
        lemma_bound_nonneg((b - 1) as nat);
    }
}

proof fn lemma_bound_nonneg(a: nat)
    ensures
        id_from_bytes_bound(a) >= 0,
    decreases a,
{
    if a > 0 {
        lemma_bound_nonneg((a - 1) as nat);
    }
}

/// Where a history entry is restored when its original path is taken:
/// `<stem> (restored <timestamp>)<extension>` beside the original.
pub open spec fn restored_path_spec(original: Seq<char>, ts: Seq<char>) -> Seq<char> {
    let p = ext_split_point(original);
    original.take(p) + " (restored "@ + ts + ")"@ + original.skip(p)
}

/// The relative path a history entry is restored to when its original path
/// is occupied, stamped with the UTC time `now`.
pub fn restored_relative_path(original_relative_path: &str, now_unix_ms: i64) -> (r: String)
    ensures
        r@ == restored_path_spec(original_relative_path@, utc_time_text(now_unix_ms, "%Y-%m-%d %H%M%S"@)),
{
    let (stem, ext) = split_stem_ext(original_relative_path);
    let ts = name_timestamp(now_unix_ms);
    let mut out = String::new();
    push_str(&mut out, stem);
    push_str(&mut out, " (restored ");
    push_str(&mut out, ts.as_str());
    push_str(&mut out, ")");
    push_str(&mut out, ext);
    out
}

/// The order "newer first", as a comparator.
pub open spec fn newer_order() -> spec_fn(HistoryEntry, HistoryEntry) -> bool {
    |a: HistoryEntry, b: HistoryEntry| newer(a, b)
}

/// Entries sorted newest first, entries of one time in their order.
pub open spec fn newest_first(entries: Seq<HistoryEntry>) -> Seq<HistoryEntry> {
    sorted_by(entries, newer_order())
}

/// `a` was stored after `b`.
pub open spec fn newer(a: HistoryEntry, b: HistoryEntry) -> bool {
    a.created_unix_ms > b.created_unix_ms
}

/// Sorts history entries newest first (stable).
pub fn sort_newest_first(entries: Vec<HistoryEntry>) -> (r: Vec<HistoryEntry>)
    ensures
        r@ == newest_first(entries@),
{
    let less = |a: &HistoryEntry, b: &HistoryEntry| -> (r: bool)
        ensures
            r == newer(*a, *b),
        { a.created_unix_ms > b.created_unix_ms };
    sort_by_before(entries, less, Ghost(newer_order()))
}

/// Shallow entries first, then by original path.
pub open spec fn shallower_first(a: HistoryEntry, b: HistoryEntry) -> bool {
    let ka = path_depth_spec(a.original_relative_path@);
    let kb = path_depth_spec(b.original_relative_path@);
    ka < kb || (ka == kb && lex_less(a.original_relative_path@, b.original_relative_path@))
}

/// A child entry was stored together with its parent folder: same time, or
/// stored inside the parent's stored folder.
pub open spec fn grouped(parent: HistoryEntry, child: HistoryEntry) -> bool {
    parent.created_unix_ms == child.created_unix_ms || has_base(child.stored_path@, parent.stored_path@)
}

/// Whether `child` was moved to history along with `parent`.
pub fn history_entries_look_grouped(parent: &HistoryEntry, child: &HistoryEntry) -> (r: bool)
    ensures
        r == grouped(*parent, *child),
{
    if parent.created_unix_ms == child.created_unix_ms {
        return true;
    }
    path_starts_with(child.stored_path.as_str(), parent.stored_path.as_str())
}

/// A deleted entry is hidden when a kept deleted folder holds it and both went
/// to history together.
pub open spec fn hidden_by(e: HistoryEntry, kept: Seq<HistoryEntry>) -> bool {
    e.reason == HistoryReason::Trash && exists|k: int|
        0 <= k < kept.len() && (#[trigger] kept[k]).reason == HistoryReason::Trash && descends(
            e.original_relative_path@,
            kept[k].original_relative_path@,
        ) && grouped(kept[k], e)
}

/// The entries kept, going through `s` in order.
pub open spec fn kept_entries(s: Seq<HistoryEntry>) -> Seq<HistoryEntry>
    decreases s.len(),
{
    if s.len() == 0 {
        Seq::empty()
    } else {
        let k = kept_entries(s.drop_last());
        if hidden_by(s.last(), k) {
            k
        } else {
            k.push(s.last())
        }
    }
}

/// The history list with the contents of deleted folders folded into the folder.
pub open spec fn collapsed(entries: Seq<HistoryEntry>) -> Seq<HistoryEntry> {
    kept_entries(sorted_by(entries, |a: HistoryEntry, b: HistoryEntry| shallower_first(a, b)))
}

/// Hides entries that were deleted as part of a deleted folder shown in the list.
pub fn collapse_history_folder_entries(entries: Vec<HistoryEntry>) -> (r: Vec<HistoryEntry>)
    ensures
        r@ == collapsed(entries@),
{
    let less = |a: &HistoryEntry, b: &HistoryEntry| -> (r: bool)
        ensures
            r == shallower_first(*a, *b),
        {
            let ka = path_depth(a.original_relative_path.as_str());
            let kb = path_depth(b.original_relative_path.as_str());
            ka < kb || (ka == kb && str_less(a.original_relative_path.as_str(), b.original_relative_path.as_str()))
        };
    let sorted = sort_by_before(entries, less, Ghost(|a: HistoryEntry, b: HistoryEntry| shallower_first(a, b)));
    let ghost all = sorted@;
    let n = sorted.len();
    let mut rest = crate::actions::reversed(sorted);
    let mut kept: Vec<HistoryEntry> = Vec::new();
    while rest.len() > 0
        invariant
            rest@.len() <= n,
            n == all.len(),
            rest@ == all.subrange(n - rest@.len(), n as int).reverse(),
            kept@ == kept_entries(all.take(n - rest@.len())),
        decreases rest.len(),
    {
        let ghost m = n - rest@.len();
        let ghost before = rest@;
        let e = rest.pop().unwrap();
        assert(before =~= rest@.push(e));
        assert(e == all[m]) by {
            assert(before.last() == all.subrange(m, n as int).reverse().last());
        }
        assert(rest@ =~= all.subrange(m + 1, n as int).reverse());
        assert(all.take(m + 1).drop_last() =~= all.take(m));
        assert(all.take(m + 1).last() == e);
        let mut hidden = false;
        if e.reason == HistoryReason::Trash {
            let mut k: usize = 0;
            while k < kept.len()
                invariant
                    k <= kept@.len(),
                    e.reason == HistoryReason::Trash,
                    forall|j: int|
                        0 <= j < k ==> !((#[trigger] kept@[j]).reason == HistoryReason::Trash && descends(
                            e.original_relative_path@,
                            kept@[j].original_relative_path@,
                        ) && grouped(kept@[j], e)),
                ensures
                    k <= kept@.len(),
                    (k < kept@.len()) == hidden_by(e, kept@),
                decreases kept.len() - k,
            {
                let p = &kept[k];
                if p.reason == HistoryReason::Trash && is_descendant_path(
                    e.original_relative_path.as_str(),
                    p.original_relative_path.as_str(),
                ) && history_entries_look_grouped(p, &e) {
                    break;
                }
                k = k + 1;
            }
            hidden = k < kept.len();
        }
        if !hidden {
            kept.push(e);
        }
    }
    assert(all.take(n as int) =~= all);
    kept
}

/// Law: history lists newest entries first, and keeps every entry.
pub proof fn law_history_newest_first(entries: Seq<HistoryEntry>)
    ensures
        forall|i: int, j: int| 0 <= i < j < newest_first(entries).len() ==>
            (#[trigger] newest_first(entries)[i]).created_unix_ms >= (#[trigger] newest_first(entries)[j]).created_unix_ms,
        newest_first(entries).to_multiset() == entries.to_multiset(),
{
    let key = |e: HistoryEntry| e.created_unix_ms as int;
    crate::order::law_sorted_by_key_descending(entries, newer_order(), key);
    crate::order::law_sorted_by_permutes(entries, newer_order());
}

proof fn lemma_decimal_reads_back(n: nat)
    ensures
        all_digits(decimal(n)),
        digits_value(decimal(n)) == n,
        decimal(n)[0] != '-' && decimal(n)[0] != '+',
    decreases n,
{
    let d = decimal(n);
    if n < 10 {
        assert(d.drop_last() =~= Seq::<char>::empty());
        assert(d.last() as int == '0' as int + n);
        assert(digits_value(d) == 10 * digits_value(d.drop_last()) + (d.last() as int - '0' as int));
    } else {
        lemma_decimal_reads_back(n / 10);
        assert(d.last() as int == '0' as int + n % 10);
        let prefix = decimal(n / 10);
        assert(d == prefix.push(crate::text::digit_char(n % 10)));
        assert(d.drop_last() =~= prefix);
        assert forall|i: int| 0 <= i < d.len() implies '0' <= #[trigger] d[i] <= '9' by {
            if i < prefix.len() {
                assert(d[i] == prefix[i]);
            }
        }
        assert(d[0] == prefix[0]);
        assert(n == 10 * (n / 10) + n % 10);
        assert(digits_value(d) == 10 * digits_value(d.drop_last()) + (d.last() as int - '0' as int));
    }
}

/// Law: the decimal text of a time reads back as that time.
pub proof fn law_signed_decimal_reads_back(t: i64)
    ensures
        parse_i64_spec(signed_decimal(t as int)) == Some(t),
{
    if t < 0 {
        let mag = (-(t as int)) as nat;
        lemma_decimal_reads_back(mag);
        let s = signed_decimal(t as int);
        assert(s.drop_first() =~= decimal(mag));
    } else {
        lemma_decimal_reads_back(t as nat);
    }
}

/// Law: a file moved into history at time `t` is stored as `<t>/<path>`
/// below the trash or overwritten folder; found there again, it is read back
/// with that time and that path.
pub proof fn law_stored_file_is_rediscovered(t: i64, path_components: Seq<Seq<char>>, modified_ms: i64)
    requires
        path_components.len() > 0,
    ensures
        discovered_origin_spec(seq![signed_decimal(t as int)] + path_components, modified_ms)
            == Some((t, join_components(path_components))),
{
    law_signed_decimal_reads_back(t);
    let cs = seq![signed_decimal(t as int)] + path_components;
    assert(cs[0] == signed_decimal(t as int));
    assert(cs.drop_first() =~= path_components);
}

proof fn lemma_kept_entries_cover(s: Seq<HistoryEntry>, e: HistoryEntry)
    requires
        s.contains(e),
    ensures
        kept_entries(s).contains(e) || (e.reason == HistoryReason::Trash && exists|p: HistoryEntry|
            #[trigger] kept_entries(s).contains(p) && p.reason == HistoryReason::Trash
                && descends(e.original_relative_path@, p.original_relative_path@)
                && (p.created_unix_ms == e.created_unix_ms || has_base(e.stored_path@, p.stored_path@))),
    decreases s.len(),
{
    let t = s.drop_last();
    let k = kept_entries(t);
    let kk = kept_entries(s);
    assert(forall|x: HistoryEntry| k.contains(x) ==> #[trigger] kk.contains(x)) by {
        assert forall|x: HistoryEntry| k.contains(x) implies #[trigger] kk.contains(x) by {
            let j = choose|j: int| 0 <= j < k.len() && k[j] == x;
            if !hidden_by(s.last(), k) {
                assert(kk == k.push(s.last()));
                assert(kk[j] == x);
            }
        }
    }
    if e == s.last() {
        if hidden_by(e, k) {
            let q = choose|q: int| 0 <= q < k.len() && (#[trigger] k[q]).reason == HistoryReason::Trash && descends(
                e.original_relative_path@,
                k[q].original_relative_path@,
            ) && grouped(k[q], e);
            assert(k.contains(k[q]));
            assert(kk.contains(k[q]));
        } else {
            assert(kk == k.push(e));
            assert(kk[k.len() as int] == e);
        }
    } else {
        let i = choose|i: int| 0 <= i < s.len() && s[i] == e;
        assert(i < t.len());
        assert(t[i] == e);
        lemma_kept_entries_cover(t, e);
        if !k.contains(e) {
            let p = choose|p: HistoryEntry|
                #[trigger] k.contains(p) && p.reason == HistoryReason::Trash
                    && descends(e.original_relative_path@, p.original_relative_path@)
                    && (p.created_unix_ms == e.created_unix_ms || has_base(e.stored_path@, p.stored_path@));
            assert(kk.contains(p));
        }
    }
}

/// Law: folding deleted folders' contents into the folder hides only what
/// was deleted with the folder. Every entry is still listed, unless it is a
/// deleted entry below a deleted folder that is listed and that went to
/// history at the same moment or holds the entry's stored file inside its
/// own stored folder. So a file deleted later than its folder stays visible.
pub proof fn law_collapse_hides_only_contents_deleted_with_their_folder(entries: Seq<HistoryEntry>, e: HistoryEntry)
    requires
        entries.contains(e),
    ensures
        collapsed(entries).contains(e) || (e.reason == HistoryReason::Trash && exists|p: HistoryEntry|
            #[trigger] collapsed(entries).contains(p) && p.reason == HistoryReason::Trash
                && descends(e.original_relative_path@, p.original_relative_path@)
                && (p.created_unix_ms == e.created_unix_ms || has_base(e.stored_path@, p.stored_path@))),
{
    broadcast use vstd::multiset::group_multiset_axioms, vstd::seq_lib::group_to_multiset_ensures;

    let order = |a: HistoryEntry, b: HistoryEntry| shallower_first(a, b);
    let sorted = sorted_by(entries, order);
    crate::order::law_sorted_by_permutes(entries, order);
    assert(entries.to_multiset().count(e) > 0);
    assert(sorted.to_multiset().count(e) > 0);
    assert(sorted.contains(e));
    lemma_kept_entries_cover(sorted, e);
}

} // verus!
