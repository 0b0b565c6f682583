//! Bookkeeping of an FFmpeg child process's diagnostics.
//!
//! The process's standard error is read continuously while frames are written,
//! so that the pipe never fills; only the most recent bytes are kept for the
//! error report.

use vstd::prelude::*;
use crate::text::push_str;

verus! {

/// How many bytes of FFmpeg's standard error are kept (64 KiB).
pub const MAX_CAPTURED_STDERR: usize = 65536;

/// The last `limit` elements of `s` (all of `s` when it is shorter).
pub open spec fn keep_last(s: Seq<u8>, limit: nat) -> Seq<u8> {
    if s.len() > limit {
        s.subrange(s.len() - limit, s.len() as int)
    } else {
        s
    }
}

/// Appends `incoming` to `captured` and keeps only the newest `limit` bytes.
pub fn push_stderr_with_limit(captured: &mut Vec<u8>, incoming: &[u8], limit: usize)
    requires
        old(captured)@.len() + incoming@.len() <= usize::MAX,
    ensures
        final(captured)@ == keep_last(old(captured)@ + incoming@, limit as nat),
{
    let ghost all = captured@ + incoming@;
    if incoming.len() >= limit {
        captured.clear();
        let start: usize = incoming.len() - limit;
        let mut i: usize = start;
        while i < incoming.len()
            invariant
                start <= i <= incoming@.len(),
                start == incoming@.len() - limit,
                captured@ == incoming@.subrange(start as int, i as int),
            decreases incoming.len() - i,
        {
            captured.push(incoming[i]);
            i += 1;
            assert(captured@ =~= incoming@.subrange(start as int, i as int));
        }
        assert(captured@ =~= keep_last(all, limit as nat));
        return;
    }
    captured.extend_from_slice(incoming);
    assert(captured@ =~= all);
    if captured.len() > limit {
        let overflow = captured.len() - limit;
        let kept = captured.split_off(overflow);
        *captured = kept;
        assert(captured@ =~= keep_last(all, limit as nat));
    }
}

/// The sentence that carries FFmpeg's diagnostics into an error message.
pub open spec fn stderr_suffix_text(stderr: Seq<char>) -> Seq<char> {
    if stderr.len() == 0 {
        Seq::empty()
    } else {
        " FFmpeg stderr: "@ + stderr
    }
}

/// Formats FFmpeg's (trimmed) standard error for an error message; empty when
/// FFmpeg printed nothing.
pub fn stderr_suffix(stderr: &str) -> (s: String)
    ensures
        s@ == stderr_suffix_text(stderr@),
{
    if stderr.is_empty() {
        String::new()
    } else {
        let mut s = " FFmpeg stderr: ".to_string();
        push_str(&mut s, stderr);
        s
    }
}

/// What is kept of FFmpeg's diagnostics never exceeds the limit, is the most
/// recent output (a suffix of everything written so far), and is all of it
/// while the output fits.
pub proof fn lemma_kept_stderr(written: Seq<u8>, limit: nat)
    ensures
        keep_last(written, limit).len() <= limit || keep_last(written, limit) == written,
        keep_last(written, limit).len() <= written.len(),
        keep_last(written, limit) =~= written.subrange(
            written.len() - keep_last(written, limit).len(),
            written.len() as int,
        ),
        written.len() <= limit ==> keep_last(written, limit) == written,
        written.len() >= limit ==> keep_last(written, limit).len() == limit,
{
}

} // verus!
