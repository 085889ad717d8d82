//! The diagnostic log: line format, compaction of an oversized log, the
//! visible tail, and the environment summary written into exports.
use vstd::prelude::*;
use crate::chars::{chars_of, digits_of, spec_digits, string_of};

verus! {

/// Characters shown when the log is read.
pub const MAX_LOG_CHARS: usize = 12000;
/// A log larger than this many bytes is compacted before appending.
pub const MAX_LOG_BYTES: u64 = 524288;
/// Bytes kept when compacting.
pub const RETAIN_LOG_BYTES: usize = 393216;

fn push_all(out: &mut Vec<char>, s: &[char])
    ensures
        final(out)@ == old(out)@ + s@,
{
    let mut i: usize = 0;
    while i < s.len()
        invariant
            i <= s@.len(),
            out@ == old(out)@ + s@.take(i as int),
        decreases s.len() - i,
    {
        out.push(s[i]);
        assert(old(out)@ + s@.take(i + 1) =~= (old(out)@ + s@.take(i as int)).push(s@[i as int]));
        i = i + 1;
    }
    assert(s@.take(s@.len() as int) =~= s@);
}

fn push_str(out: &mut Vec<char>, s: &str)
    ensures
        final(out)@ == old(out)@ + s@,
{
    let cs = chars_of(s);
    push_all(out, cs.as_slice());
}

/// A message on one line: carriage returns and line feeds become spaces.
pub open spec fn spec_single_line(s: Seq<char>) -> Seq<char> {
    Seq::new(s.len(), |i: int| if s[i] == '\r' || s[i] == '\n' {
        ' '
    } else {
        s[i]
    })
}

pub fn single_line(message: &str) -> (r: String)
    ensures
        r@ == spec_single_line(message@),
{
    let cs = chars_of(message);
    let mut out: Vec<char> = Vec::new();
    let mut i: usize = 0;
    while i < cs.len()
        invariant
            cs@ == message@,
            i <= cs@.len(),
            out@ == spec_single_line(message@).take(i as int),
        decreases cs.len() - i,
    {
        let c = cs[i];
        out.push(if c == '\r' || c == '\n' {
            ' '
        } else {
            c
        });
        assert(out@ =~= spec_single_line(message@).take(i + 1));
        i = i + 1;
    }
    assert(spec_single_line(message@).take(cs@.len() as int) =~= spec_single_line(message@));
    string_of(out.as_slice())
}

/// One log line: `[timestamp][stage] message` and a line feed.
pub open spec fn spec_log_line(timestamp_ms: u64, stage: Seq<char>, message: Seq<char>) -> Seq<char> {
    "["@ + spec_digits(timestamp_ms as nat, 10) + "]["@ + stage + "] "@ + message + "\n"@
}

pub fn log_line(timestamp_ms: u64, stage: &str, message: &str) -> (r: String)
    ensures
        r@ == spec_log_line(timestamp_ms, stage@, message@),
{
    let mut out: Vec<char> = Vec::new();
    push_str(&mut out, "[");
    let d = digits_of(timestamp_ms, 10);
    push_all(&mut out, d.as_slice());
    push_str(&mut out, "][");
    push_str(&mut out, stage);
    push_str(&mut out, "] ");
    push_str(&mut out, message);
    push_str(&mut out, "\n");
    assert(out@ =~= spec_log_line(timestamp_ms, stage@, message@));
    string_of(out.as_slice())
}

/// A log of `length` bytes is compacted before the next line is appended.
pub fn needs_compaction(length: u64) -> (r: bool)
    ensures
        r == (length > MAX_LOG_BYTES),
{
    length > MAX_LOG_BYTES
}

/// A UTF-8 continuation byte (`10xxxxxx`), which never starts a character.
pub open spec fn is_continuation(b: u8) -> bool {
    0x80 <= b < 0xC0
}

/// The first character boundary at or after `i`.
pub open spec fn boundary_from(bytes: Seq<u8>, i: int) -> int
    decreases bytes.len() - i,
{
    if i < 0 || i >= bytes.len() || !is_continuation(bytes[i]) {
        i
    } else {
        boundary_from(bytes, i + 1)
    }
}

/// Where the kept tail of an oversized log starts: about the last
/// `RETAIN_LOG_BYTES` bytes, moved forward to a character boundary.
pub open spec fn tail_start(bytes: Seq<u8>) -> int {
    boundary_from(bytes, if bytes.len() > RETAIN_LOG_BYTES {
        bytes.len() - RETAIN_LOG_BYTES
    } else {
        0
    })
}

proof fn lemma_boundary_from(bytes: Seq<u8>, i: int)
    requires
        0 <= i <= bytes.len(),
    ensures
        i <= boundary_from(bytes, i) <= bytes.len(),
    decreases bytes.len() - i,
{
    if i < bytes.len() && is_continuation(bytes[i]) {
        lemma_boundary_from(bytes, i + 1);
    }
}

proof fn lemma_boundary_from_stops(bytes: Seq<u8>, i: int)
    requires
        0 <= i <= bytes.len(),
    ensures
        boundary_from(bytes, i) < bytes.len() ==> !is_continuation(bytes[boundary_from(bytes, i)]),
        forall|k: int| i <= k < boundary_from(bytes, i) ==> is_continuation(#[trigger] bytes[k]),
    decreases bytes.len() - i,
{
    if i < bytes.len() && is_continuation(bytes[i]) {
        lemma_boundary_from_stops(bytes, i + 1);
    }
}

/// Compaction keeps at most `RETAIN_LOG_BYTES` bytes, all of a short log,
/// and never starts inside a character: the kept tail begins with a byte
/// that starts a character, and only continuation bytes are dropped past
/// the cut.
pub proof fn lemma_retained_tail_is_whole_characters(bytes: Seq<u8>)
    ensures
        bytes.len() <= RETAIN_LOG_BYTES ==> tail_start(bytes) == boundary_from(bytes, 0),
        0 <= tail_start(bytes) <= bytes.len(),
        bytes.len() - tail_start(bytes) <= RETAIN_LOG_BYTES,
        tail_start(bytes) < bytes.len() ==> !is_continuation(bytes[tail_start(bytes)]),
        bytes.len() > RETAIN_LOG_BYTES ==> forall|k: int| bytes.len() - RETAIN_LOG_BYTES <= k < tail_start(bytes)
            ==> is_continuation(#[trigger] bytes[k]),
{
    let cut = if bytes.len() > RETAIN_LOG_BYTES {
        bytes.len() - RETAIN_LOG_BYTES
    } else {
        0
    };
    lemma_boundary_from(bytes, cut);
    lemma_boundary_from_stops(bytes, cut);
}

/// The tail of an oversized log that compaction keeps.
pub fn retained_log_tail(content: &[u8]) -> (r: Vec<u8>)
    ensures
        r@ == content@.subrange(tail_start(content@), content@.len() as int),
{
    let n = content.len();
    let mut start: usize = if n > RETAIN_LOG_BYTES {
        n - RETAIN_LOG_BYTES
    } else {
        0
    };
    proof {
        lemma_boundary_from(content@, start as int);
    }
    while start < n && 0x80 <= content[start] && content[start] < 0xC0
        invariant
            n == content@.len(),
            start <= n,
            tail_start(content@) == boundary_from(content@, start as int),
        decreases n - start,
    {
        start = start + 1;
    }
    proof {
        lemma_boundary_from(content@, start as int);
    }
    let mut out: Vec<u8> = Vec::new();
    let mut i = start;
    while i < n
        invariant
            n == content@.len(),
            start <= i <= n,
            out@ == content@.subrange(start as int, i as int),
        decreases n - i,
    {
        out.push(content[i]);
        assert(out@ =~= content@.subrange(start as int, i + 1));
        i = i + 1;
    }
    out
}

/// The part of the log shown to the user: its last `MAX_LOG_CHARS` characters.
pub open spec fn spec_visible_log_tail(content: Seq<char>) -> Seq<char> {
    if content.len() <= MAX_LOG_CHARS {
        content
    } else {
        content.skip(content.len() - MAX_LOG_CHARS)
    }
}

pub fn visible_log_tail(content: &str) -> (r: String)
    ensures
        r@ == spec_visible_log_tail(content@),
{
    let cs = chars_of(content);
    if cs.len() <= MAX_LOG_CHARS {
        return string_of(cs.as_slice());
    }
    let part = crate::chars::copy_range(cs.as_slice(), cs.len() - MAX_LOG_CHARS, cs.len());
    assert(part@ =~= content@.skip(content@.len() - MAX_LOG_CHARS));
    string_of(part.as_slice())
}

// ---------------------------------------------------------------------------
// Environment summary

/// A Windows version as `major.minor.build`.
pub open spec fn spec_os_version_text(major: u32, minor: u32, build: u32) -> Seq<char> {
    spec_digits(major as nat, 10) + "."@ + spec_digits(minor as nat, 10) + "."@ + spec_digits(build as nat, 10)
}

pub fn os_version_text(major: u32, minor: u32, build: u32) -> (r: String)
    ensures
        r@ == spec_os_version_text(major, minor, build),
{
    let mut out: Vec<char> = Vec::new();
    push_all(&mut out, digits_of(major as u64, 10).as_slice());
    push_str(&mut out, ".");
    push_all(&mut out, digits_of(minor as u64, 10).as_slice());
    push_str(&mut out, ".");
    push_all(&mut out, digits_of(build as u64, 10).as_slice());
    assert(out@ =~= spec_os_version_text(major, minor, build));
    string_of(out.as_slice())
}

/// Keyboard layout handles as `0x` and upper-case hex, comma-separated,
/// for `layouts[..k]`.
pub open spec fn layout_list_text(layouts: Seq<usize>, k: int) -> Seq<char>
    decreases k,
{
    if k <= 0 || k > layouts.len() {
        Seq::empty()
    } else if k == 1 {
        "0x"@ + spec_digits(layouts[0] as nat, 16)
    } else {
        layout_list_text(layouts, k - 1) + ","@ + "0x"@ + spec_digits(layouts[k - 1] as nat, 16)
    }
}

/// The one-line environment summary of a diagnostic export.
pub open spec fn spec_environment_summary(os: Seq<char>, layouts: Seq<usize>, integrity: Seq<char>) -> Seq<char> {
    "windows="@ + os + " layouts=["@ + layout_list_text(layouts, layouts.len() as int) + "] integrity="@ + integrity
}

pub fn environment_summary(os: &str, layouts: &[usize], integrity: &str) -> (r: String)
    ensures
        r@ == spec_environment_summary(os@, layouts@, integrity@),
{
    let mut out: Vec<char> = Vec::new();
    push_str(&mut out, "windows=");
    push_str(&mut out, os);
    push_str(&mut out, " layouts=[");
    let ghost head = out@;
    let mut k: usize = 0;
    while k < layouts.len()
        invariant
            k <= layouts@.len(),
            out@ == head + layout_list_text(layouts@, k as int),
        decreases layouts.len() - k,
    {
        if k > 0 {
            push_str(&mut out, ",");
        }
        push_str(&mut out, "0x");
        push_all(&mut out, digits_of(layouts[k] as u64, 16).as_slice());
        assert(out@ =~= head + layout_list_text(layouts@, k + 1));
        k = k + 1;
    }
    push_str(&mut out, "] integrity=");
    push_str(&mut out, integrity);
    assert(out@ =~= spec_environment_summary(os@, layouts@, integrity@));
    string_of(out.as_slice())
}

/// The environment summary where the Windows probes are not available.
pub fn diagnostic_environment_summary() -> (r: String)
    ensures
        r@ == "unsupported_platform"@,
{
    string_of(chars_of("unsupported_platform").as_slice())
}

} // verus!
