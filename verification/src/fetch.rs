//! Fetch-with-retry bookkeeping: the retry/backoff state machine, the
//! byte-accounting of one chunk's response stream, and the acceptance rules
//! for ranged responses. The HTTP transport itself lives outside this
//! crate; it hands in statuses, buffer lengths and header values as plain
//! values.

use vstd::prelude::*;
use vstd::arithmetic::power2::pow2;
use crate::error::HydraError;
use crate::HEADER_SIZE;

verus! {

/// Retry attempts per chunk before the fetch is abandoned.
pub const DEFAULT_MAX_RETRIES: u64 = 3;

/// Base backoff delay; doubles with each failed attempt.
pub const RETRY_BACKOFF_MS: u64 = 500;

/// The delay before retry number `attempt` (1-based):
/// `base * 2^(attempt - 1)` milliseconds.
pub fn backoff_delay_ms(base: u64, attempt: u64) -> (r: u64)
    requires
        base >= 1,
        attempt >= 1,
        base * pow2((attempt - 1) as nat) <= u64::MAX,
    ensures
        r == base * pow2((attempt - 1) as nat),
{
    let e = attempt - 1;
    let mut p: u64 = 1;
    let mut i: u64 = 0;
    proof {
        vstd::arithmetic::power2::lemma2_to64();
    }
    while i < e
        invariant
            i <= e,
            p == pow2(i as nat),
            base >= 1,
            base * pow2(e as nat) <= u64::MAX,
        decreases e - i,
    {
        proof {
            if i + 1 < e {
                vstd::arithmetic::power2::lemma_pow2_strictly_increases(
                    (i + 1) as nat,
                    e as nat,
                );
            }
            vstd::arithmetic::power2::lemma_pow2_unfold((i + 1) as nat);
            vstd::arithmetic::mul::lemma_mul_inequality(
                1,
                base as int,
                pow2(e as nat) as int,
            );
            assert(pow2((i + 1) as nat) <= pow2(e as nat));
            assert(pow2(e as nat) <= base * pow2(e as nat));
        }
        p = p * 2;
        i += 1;
    }
    base * p
}

/// What to do after a failed fetch attempt.
#[derive(Clone, Copy, Debug, PartialEq, Eq, Structural)]
pub enum RetryDecision {
    /// Wait this many milliseconds, then try again.
    RetryAfterMs(u64),
    /// The retry budget is exhausted; surface the last error.
    GiveUp,
}

/// The retry state of one chunk's fetch: how many attempts have failed so
/// far, against a fixed budget of attempts.
pub struct RetryState {
    /// Failed attempts so far.
    pub failures: u64,
    /// Total attempts allowed.
    pub max_attempts: u64,
    /// Base backoff delay in milliseconds.
    pub base_delay_ms: u64,
}

impl RetryState {
    /// The backoff state is within its budget and can still compute its
    /// next delay without overflow.
    pub open spec fn wf(self) -> bool {
        &&& self.failures <= self.max_attempts
        &&& self.base_delay_ms >= 1
        &&& self.max_attempts >= 1
        &&& self.max_attempts <= 32
        &&& self.base_delay_ms <= 0x1_0000_0000
    }

    /// A fresh retry budget.
    pub fn new(max_attempts: u64, base_delay_ms: u64) -> (r: Self)
        requires
            1 <= max_attempts <= 32,
            1 <= base_delay_ms <= 0x1_0000_0000,
        ensures
            r.wf(),
            r.failures == 0,
            r.max_attempts == max_attempts,
            r.base_delay_ms == base_delay_ms,
    {
        RetryState { failures: 0, max_attempts, base_delay_ms }
    }

    /// Records one failed attempt. Gives up exactly when the budget is
    /// exhausted; otherwise the caller waits `base * 2^(failures - 1)`
    /// milliseconds (counting the failure just recorded) and retries.
    pub fn on_failure(&mut self) -> (d: RetryDecision)
        requires
            old(self).wf(),
            old(self).failures < old(self).max_attempts,
        ensures
            final(self).wf(),
            final(self).failures == old(self).failures + 1,
            final(self).max_attempts == old(self).max_attempts,
            final(self).base_delay_ms == old(self).base_delay_ms,
            final(self).failures == final(self).max_attempts ==> d == RetryDecision::GiveUp,
            final(self).failures < final(self).max_attempts ==> d == RetryDecision::RetryAfterMs(
                (old(self).base_delay_ms * pow2(old(self).failures as nat)) as u64,
            ),
    {
        self.failures = self.failures + 1;
        if self.failures >= self.max_attempts {
            RetryDecision::GiveUp
        } else {
            proof {
                lemma_small_pow2_fits(self.base_delay_ms, (self.failures - 1) as nat);
            }
            let delay = backoff_delay_ms(self.base_delay_ms, self.failures);
            RetryDecision::RetryAfterMs(delay)
        }
    }

    /// Whether another attempt is allowed.
    pub fn can_retry(&self) -> (r: bool)
        ensures
            r == (self.failures < self.max_attempts),
    {
        self.failures < self.max_attempts
    }
}

/// A backoff of at most 2^32 ms doubled at most 31 times stays below
/// `u64::MAX`.
proof fn lemma_small_pow2_fits(base: u64, e: nat)
    requires
        base <= 0x1_0000_0000,
        e <= 31,
    ensures
        base * pow2(e) <= u64::MAX,
{
    if e < 31 {
        vstd::arithmetic::power2::lemma_pow2_strictly_increases(e, 31);
    }
    vstd::arithmetic::power2::lemma2_to64();
    assert(pow2(31) == 0x8000_0000);
    vstd::arithmetic::mul::lemma_mul_upper_bound(
        base as int,
        0x1_0000_0000,
        pow2(e) as int,
        0x8000_0000,
    );
}

/// Byte accounting for one chunk's response stream. Buffers are written at
/// `HEADER_SIZE + start + received`; a buffer that would push the total
/// past the expected length is cut short, enforcing the range even when the
/// server ignored it.
pub struct ChunkStream {
    /// First byte of the chunk range (inclusive).
    pub start: u64,
    /// Last byte of the chunk range (inclusive).
    pub end: u64,
    /// Bytes accepted so far.
    pub received: u64,
}

impl ChunkStream {
    /// Expected payload length of the range `[start, end]`.
    pub open spec fn expected(self) -> int {
        self.end - self.start + 1
    }

    /// The range is ordered, never overflows the file-offset arithmetic,
    /// and the accepted total never exceeds the expectation.
    pub open spec fn wf(self) -> bool {
        &&& self.start <= self.end
        &&& self.end <= u64::MAX - HEADER_SIZE - 1
        &&& self.received <= self.expected()
    }

    /// Fresh accounting for the range `[start, end]`.
    pub fn new(start: u64, end: u64) -> (r: Self)
        requires
            start <= end,
            end <= u64::MAX - HEADER_SIZE - 1,
        ensures
            r.wf(),
            r.start == start,
            r.end == end,
            r.received == 0,
    {
        ChunkStream { start, end, received: 0 }
    }

    /// The file offset at which the next accepted byte lands: the header
    /// budget plus the range start plus what was already written.
    pub fn write_offset(&self) -> (r: u64)
        requires
            self.wf(),
        ensures
            r == HEADER_SIZE + self.start + self.received,
    {
        HEADER_SIZE as u64 + self.start + self.received
    }

    /// Accounts for one received buffer of `buf_len` bytes and returns how
    /// many of them to write: all of them, unless that would pass the
    /// expected length, in which case only the remaining need is written
    /// and the rest of the response is to be discarded.
    pub fn accept(&mut self, buf_len: u64) -> (w: u64)
        requires
            old(self).wf(),
        ensures
            final(self).wf(),
            final(self).start == old(self).start,
            final(self).end == old(self).end,
            w == if buf_len <= old(self).expected() - old(self).received {
                buf_len as int
            } else {
                old(self).expected() - old(self).received
            },
            final(self).received == old(self).received + w,
            final(self).received <= final(self).expected(),
            w < buf_len ==> final(self).received == final(self).expected(),
            // The write of these `w` bytes at the pre-call write offset
            // never passes the chunk's last byte in the file.
            w > 0 ==> HEADER_SIZE + old(self).start + old(self).received + w - 1 <= HEADER_SIZE
                + old(self).end,
    {
        let remaining = (self.end - self.start + 1) - self.received;
        let w = if buf_len <= remaining {
            buf_len
        } else {
            remaining
        };
        self.received = self.received + w;
        w
    }

    /// Whether the whole expected range has been accepted.
    pub fn is_satisfied(&self) -> (r: bool)
        requires
            self.wf(),
        ensures
            r == (self.received == self.expected()),
    {
        self.received == (self.end - self.start + 1)
    }
}

/// Whether `b` is an ASCII decimal digit.
pub open spec fn is_ascii_digit(b: u8) -> bool {
    48 <= b && b <= 57
}

/// Whether every byte of `s` is an ASCII decimal digit.
pub open spec fn all_ascii_digits(s: Seq<u8>) -> bool {
    forall|i: int| 0 <= i < s.len() ==> is_ascii_digit(s[i])
}

/// The number a string of ASCII digits denotes, most significant first.
pub open spec fn decimal_value(s: Seq<u8>) -> int
    decreases s.len(),
{
    if s.len() == 0 {
        0
    } else {
        decimal_value(s.drop_last()) * 10 + (s.last() - 48)
    }
}

/// A digit string denotes a non-negative number.
proof fn lemma_decimal_nonneg(s: Seq<u8>)
    requires
        all_ascii_digits(s),
    ensures
        decimal_value(s) >= 0,
    decreases s.len(),
{
    if s.len() > 0 {
        assert(all_ascii_digits(s.drop_last()));
        lemma_decimal_nonneg(s.drop_last());
    }
}

/// Every prefix of a digit string denotes at most what the whole string
/// denotes.
proof fn lemma_decimal_prefix_le(s: Seq<u8>, i: int)
    requires
        0 <= i <= s.len(),
        all_ascii_digits(s),
    ensures
        decimal_value(s.subrange(0, i)) <= decimal_value(s),
    decreases s.len() - i,
{
    if i == s.len() {
        assert(s.subrange(0, i) =~= s);
    } else {
        let longer = s.subrange(0, i + 1);
        assert(longer.drop_last() =~= s.subrange(0, i));
        assert(all_ascii_digits(longer));
        assert(all_ascii_digits(longer.drop_last()));
        lemma_decimal_nonneg(longer.drop_last());
        assert(decimal_value(longer) >= decimal_value(longer.drop_last()));
        lemma_decimal_prefix_le(s, i + 1);
    }
}

/// The canonical ASCII decimal form of a number: no sign, no leading zero
/// except for zero itself.
pub open spec fn decimal_repr(v: u64) -> Seq<u8>
    decreases v,
{
    if v < 10 {
        seq![(v + 48) as u8]
    } else {
        decimal_repr(v / 10) + seq![((v % 10) + 48) as u8]
    }
}

/// The decimal form reads back as the number it was formatted from.
pub proof fn lemma_decimal_repr_roundtrip(v: u64)
    ensures
        all_ascii_digits(decimal_repr(v)),
        decimal_value(decimal_repr(v)) == v,
    decreases v,
{
    if v < 10 {
        let s = decimal_repr(v);
        assert(s.drop_last() =~= Seq::<u8>::empty());
        assert(decimal_value(s) == decimal_value(s.drop_last()) * 10 + (s.last() - 48));
    } else {
        lemma_decimal_repr_roundtrip(v / 10);
        let whole = decimal_repr(v);
        assert(whole.drop_last() =~= decimal_repr(v / 10));
        assert(whole.last() == ((v % 10) + 48) as u8);
        vstd::arithmetic::div_mod::lemma_fundamental_div_mod(v as int, 10);
        assert(decimal_value(whole) == decimal_value(decimal_repr(v / 10)) * 10 + (v % 10));
    }
}

/// Formats a number in ASCII decimal.
pub fn format_u64_decimal(v: u64) -> (r: Vec<u8>)
    ensures
        r@ == decimal_repr(v),
    decreases v,
{
    if v < 10 {
        let mut r: Vec<u8> = Vec::new();
        r.push((v as u8) + 48);
        assert(r@ =~= decimal_repr(v));
        r
    } else {
        let mut r = format_u64_decimal(v / 10);
        r.push(((v % 10) as u8) + 48);
        assert(r@ =~= decimal_repr(v));
        r
    }
}

/// The ASCII prefix "no-etag-" of the sentinel identity used when the
/// server supplies no ETag.
pub open spec fn no_etag_prefix() -> Seq<u8> {
    seq![110u8, 111u8, 45u8, 101u8, 116u8, 97u8, 103u8, 45u8]
}

/// The timestamp-derived sentinel that stands in for a missing ETag:
/// "no-etag-" followed by the supplied epoch seconds in decimal. The clock
/// reading itself comes from the caller.
pub fn fallback_etag(epoch_secs: u64) -> (r: Vec<u8>)
    ensures
        r@ == no_etag_prefix() + decimal_repr(epoch_secs),
{
    let mut r: Vec<u8> = Vec::new();
    r.push(110u8);
    r.push(111u8);
    r.push(45u8);
    r.push(101u8);
    r.push(116u8);
    r.push(97u8);
    r.push(103u8);
    r.push(45u8);
    assert(r@ =~= no_etag_prefix());
    let digits = format_u64_decimal(epoch_secs);
    let ghost prefix = r@;
    let n = digits.len();
    let mut i: usize = 0;
    while i < n
        invariant
            n == digits@.len(),
            i <= n,
            r@ == prefix + digits@.subrange(0, i as int),
        decreases n - i,
    {
        r.push(digits[i]);
        assert(r@ =~= prefix + digits@.subrange(0, i + 1));
        i += 1;
    }
    assert(r@ =~= no_etag_prefix() + decimal_repr(epoch_secs));
    r
}

/// Parses an ASCII decimal number, as a `Content-Length` value is parsed.
/// Succeeds exactly on a non-empty all-digit string whose value fits in 64
/// bits.
pub fn parse_u64_decimal(s: &[u8]) -> (r: Option<u64>)
    ensures
        r is Some <==> (s@.len() >= 1 && all_ascii_digits(s@) && decimal_value(s@) <= u64::MAX),
        r matches Some(v) ==> v == decimal_value(s@),
{
    let n = s.len();
    if n == 0 {
        return None;
    }
    let mut acc: u64 = 0;
    let mut i: usize = 0;
    while i < n
        invariant
            n == s@.len(),
            i <= n,
            all_ascii_digits(s@.subrange(0, i as int)),
            acc == decimal_value(s@.subrange(0, i as int)),
        decreases n - i,
    {
        let c = s[i];
        if c < 48 || c > 57 {
            assert(!all_ascii_digits(s@)) by {
                assert(!is_ascii_digit(s@[i as int]));
            }
            return None;
        }
        let d = (c - 48) as u64;
        proof {
            assert(s@.subrange(0, i + 1).drop_last() =~= s@.subrange(0, i as int));
            assert(all_ascii_digits(s@.subrange(0, i + 1)));
        }
        if acc > u64::MAX / 10 {
            proof {
                assert(decimal_value(s@.subrange(0, i + 1)) > u64::MAX);
                if all_ascii_digits(s@) {
                    lemma_decimal_prefix_le(s@, i + 1);
                }
            }
            return None;
        }
        let acc10 = acc * 10;
        if d > u64::MAX - acc10 {
            proof {
                assert(decimal_value(s@.subrange(0, i + 1)) > u64::MAX);
                if all_ascii_digits(s@) {
                    lemma_decimal_prefix_le(s@, i + 1);
                }
            }
            return None;
        }
        acc = acc10 + d;
        i += 1;
    }
    assert(s@.subrange(0, n as int) =~= s@);
    Some(acc)
}

/// Whether a ranged GET's status allows the transfer to proceed: HTTP 200
/// and 206 are accepted, anything else is `RangeUnsupported` unless the
/// force-download override is set.
pub fn ranged_status_acceptable(status: u16, force_download: bool) -> (r: Result<(), HydraError>)
    ensures
        r is Ok <==> (status == 200 || status == 206 || force_download),
        r is Err ==> r == Err::<(), HydraError>(HydraError::RangeUnsupported),
{
    if status == 200 || status == 206 || force_download {
        Ok(())
    } else {
        Err(HydraError::RangeUnsupported)
    }
}

/// Whether the server can serve partial content, from the range probe that
/// follows a HEAD without a usable `Accept-Ranges`. `probe_status` is the
/// status of a `bytes=0-0` GET, made only when the HEAD was not conclusive.
/// Fatal unless the force-download override is set.
pub fn evaluate_range_support(
    accept_ranges_bytes: bool,
    probe_status: Option<u16>,
    force_download: bool,
) -> (r: Result<(), HydraError>)
    requires
        accept_ranges_bytes || probe_status is Some,
    ensures
        r is Ok <==> (accept_ranges_bytes || probe_status == Some(206u16) || force_download),
        r is Err ==> r == Err::<(), HydraError>(HydraError::RangeUnsupported),
{
    if accept_ranges_bytes {
        return Ok(());
    }
    match probe_status {
        Some(status) => {
            if status == 206 || force_download {
                Ok(())
            } else {
                Err(HydraError::RangeUnsupported)
            }
        },
        None => Err(HydraError::RangeUnsupported),
    }
}

} // verus!
