//! Which failures are worth retrying, and how long to wait before a retry.
use vstd::prelude::*;
use crate::text::{chars_of, chars_contains, has_infix, str_views, to_lowercase, unicode_lower};

verus! {

/// How many times a network operation is attempted.
pub const MAX_NETWORK_ATTEMPTS: usize = 3;

/// Some listed text occurs in `s`.
pub open spec fn mentions_any(s: Seq<char>, needles: Seq<Seq<char>>) -> bool {
    exists|k: int| 0 <= k < needles.len() && has_infix(s, #[trigger] needles[k])
}

fn mentions_any_exec(s: &Vec<char>, needles: &Vec<&str>) -> (r: bool)
    ensures
        r == mentions_any(s@, str_views(needles@)),
{
    let mut k: usize = 0;
    while k < needles.len()
        invariant
            k <= needles@.len(),
            forall|j: int| 0 <= j < k ==> !has_infix(s@, #[trigger] str_views(needles@)[j]),
        decreases needles.len() - k,
    {
        let nv = chars_of(needles[k]);
        if chars_contains(s, &nv) {
            assert(has_infix(s@, str_views(needles@)[k as int]));
            return true;
        }
        k = k + 1;
    }
    false
}

/// Failures that retrying cannot fix: trust, conflicts, bad paths, the user's choice.
pub open spec fn permanent_network_failures() -> Seq<Seq<char>> {
    seq![
        "authentication rejected"@,
        "not trusted"@,
        "conflict"@,
        "hash mismatch"@,
        "invalid path"@,
        "permission denied"@,
        "transfer cancelled"@,
        "transfer deferred"@,
        "already exists"@,
        "changed since last sync"@,
        "remote file changed"@,
    ]
}

/// Failures of the connection or of a file still being written.
pub open spec fn transient_network_failures() -> Seq<Seq<char>> {
    seq![
        "timed out"@,
        "timeout"@,
        "connection refused"@,
        "connection reset"@,
        "connection aborted"@,
        "broken pipe"@,
        "unexpected eof"@,
        "peer disconnected"@,
        "failed to connect"@,
        "network"@,
        "temporarily"@,
        "still changing"@,
        "source file changed while preparing transfer"@,
    ]
}

fn permanent_list() -> (r: Vec<&'static str>)
    ensures
        str_views(r@) == permanent_network_failures(),
{
    let mut v: Vec<&'static str> = Vec::new();
    v.push("authentication rejected");
    v.push("not trusted");
    v.push("conflict");
    v.push("hash mismatch");
    v.push("invalid path");
    v.push("permission denied");
    v.push("transfer cancelled");
    v.push("transfer deferred");
    v.push("already exists");
    v.push("changed since last sync");
    v.push("remote file changed");
    assert(str_views(v@) =~= permanent_network_failures());
    v
}

fn transient_list() -> (r: Vec<&'static str>)
    ensures
        str_views(r@) == transient_network_failures(),
{
    let mut v: Vec<&'static str> = Vec::new();
    v.push("timed out");
    v.push("timeout");
    v.push("connection refused");
    v.push("connection reset");
    v.push("connection aborted");
    v.push("broken pipe");
    v.push("unexpected eof");
    v.push("peer disconnected");
    v.push("failed to connect");
    v.push("network");
    v.push("temporarily");
    v.push("still changing");
    v.push("source file changed while preparing transfer");
    assert(str_views(v@) =~= transient_network_failures());
    v
}

/// A network failure, judged by its lower-cased message, is worth retrying.
pub open spec fn retryable_network(message: Seq<char>) -> bool {
    let m = unicode_lower(message);
    !mentions_any(m, permanent_network_failures()) && mentions_any(m, transient_network_failures())
}

/// Whether a network failure with this message should be retried.
pub fn is_retryable_network_error(message: &str) -> (r: bool)
    ensures
        r == retryable_network(message@),
{
    let lower = to_lowercase(message);
    let chars = chars_of(lower.as_str());
    if mentions_any_exec(&chars, &permanent_list()) {
        return false;
    }
    mentions_any_exec(&chars, &transient_list())
}

/// Local file-operation failures worth retrying.
pub open spec fn transient_io_failures() -> Seq<Seq<char>> {
    seq!["network"@, "timeout"@, "io error"@, "locked"@, "temporarily"@]
}

/// A local failure, judged by its lower-cased message, is worth retrying.
pub open spec fn retryable_io(message: Seq<char>) -> bool {
    mentions_any(unicode_lower(message), transient_io_failures())
}

/// Whether a local file-operation failure should be retried: network, I/O,
/// lock and timeout troubles yes; permissions and invalid paths no.
pub fn is_retryable_error(message: &str) -> (r: bool)
    ensures
        r == retryable_io(message@),
{
    let lower = to_lowercase(message);
    let chars = chars_of(lower.as_str());
    let mut v: Vec<&'static str> = Vec::new();
    v.push("network");
    v.push("timeout");
    v.push("io error");
    v.push("locked");
    v.push("temporarily");
    assert(str_views(v@) =~= transient_io_failures());
    mentions_any_exec(&chars, &v)
}

/// Base wait before retry number `attempt` (counted from 0), in milliseconds.
pub open spec fn retry_base_ms(attempt: nat) -> int
    decreases attempt,
{
    if attempt == 0 {
        700
    } else {
        2 * retry_base_ms((attempt - 1) as nat)
    }
}

/// The wait before a retry: the base doubled per attempt, plus a jitter of
/// up to half the base taken from `entropy` (the caller's clock reading).
pub open spec fn retry_delay(attempt: nat, entropy: u64) -> int {
    let base = retry_base_ms(attempt);
    base + (entropy as int) % (base / 2 + 1)
}

/// The base wait grows with the attempt number.
proof fn lemma_retry_base_grows(a: nat, b: nat)
    requires
        a <= b,
    ensures
        700 <= retry_base_ms(a) <= retry_base_ms(b),
    decreases b,
{
    if b > 0 {
        if a < b {
            lemma_retry_base_grows(a, (b - 1) as nat);
        } else {
            lemma_retry_base_grows((b - 1) as nat, (b - 1) as nat);
        }
    }
}

/// The largest attempt whose wait fits in 64 bits with any jitter.
pub const MAX_RETRY_DELAY_ATTEMPT: usize = 53;

/// How long to sleep before retry `attempt` (from 0): the doubled base and
/// a jitter from `entropy`. Beyond attempt 53 the wait no longer fits in
/// 64 bits of milliseconds.
pub fn retry_delay_ms(attempt: usize, entropy: u64) -> (r: u64)
    requires
        attempt <= MAX_RETRY_DELAY_ATTEMPT,
    ensures
        r == retry_delay(attempt as nat, entropy),
{
    proof {
        assert(retry_base_ms(53) == 6305039478318694400) by {
            reveal_with_fuel(retry_base_ms, 54);
        }
        lemma_retry_base_grows(attempt as nat, 53);
    }
    let mut base: u64 = 700;
    let mut k: usize = 0;
    while k < attempt
        invariant
            k <= attempt <= 53,
            base == retry_base_ms(k as nat),
            retry_base_ms(attempt as nat) <= 6305039478318694400,
        decreases attempt - k,
    {
        proof {
            lemma_retry_base_grows((k + 1) as nat, attempt as nat);
        }
        base = base * 2;
        k = k + 1;
    }
    let jitter = base / 2;
    base + entropy % (jitter + 1)
}

/// Whether another attempt follows a failure of attempt `attempt` (from 0).
pub fn should_retry(retryable: bool, attempt: usize) -> (r: bool)
    ensures
        r == (retryable && attempt + 1 < MAX_NETWORK_ATTEMPTS),
{
    retryable && attempt < MAX_NETWORK_ATTEMPTS - 1
}

} // verus!
