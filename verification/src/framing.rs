//! What it means to find a command in a stream of bytes.
//!
//! Every position of the stream is rejected, incomplete or complete,
//! according to the bytes from it on. The search drops everything before
//! the first position that is not rejected. A complete frame there is the
//! command that was found; an incomplete one waits for more bytes.
use vstd::prelude::*;

use crate::checksum::differ_only_at;
use crate::command::{be16, lemma_corrupted_command_fails, CommandView, SerialCommand,
    FRAME_OVERHEAD, FRAME_PREFIX, HEADER, MAX_PAYLOAD};

verus! {

/// What the bytes from some position on can be.
pub enum Candidate {
    /// Not a frame, whatever follows.
    Rejected,
    /// The beginning of what may be a frame; its end has not arrived.
    Incomplete,
    /// A whole frame with a known action, a payload long enough for it and
    /// the right checksum.
    Complete,
}

/// The payload length that the bytes from position `p` on state.
pub open spec fn declared_length(s: Seq<u8>, p: int) -> int {
    be16(s[p + 2], s[p + 3]) as int
}

/// The length of the frame that the bytes from position `p` on state.
pub open spec fn declared_frame_len(s: Seq<u8>, p: int) -> int {
    declared_length(s, p) + FRAME_OVERHEAD
}

/// The command that the bytes from position `p` on spell.
pub open spec fn command_at(s: Seq<u8>, p: int) -> CommandView {
    let n = declared_length(s, p);
    CommandView {
        action: s[p + 1],
        length: be16(s[p + 2], s[p + 3]),
        payload: s.subrange(p + FRAME_PREFIX, p + FRAME_PREFIX + n),
        checksum: be16(s[p + FRAME_PREFIX + n], s[p + FRAME_PREFIX + n + 1]),
    }
}

/// What the bytes of `s` from position `p` on can be.
pub open spec fn classify(s: Seq<u8>, p: int) -> Candidate {
    if !(0 <= p < s.len()) || s[p] != HEADER {
        Candidate::Rejected
    } else if s.len() - p < FRAME_PREFIX {
        Candidate::Incomplete
    } else if declared_length(s, p) > MAX_PAYLOAD {
        Candidate::Rejected
    } else if s.len() - p < declared_frame_len(s, p) {
        Candidate::Incomplete
    } else if !command_at(s, p).long_enough() || !command_at(s, p).intact() {
        Candidate::Rejected
    } else {
        Candidate::Complete
    }
}

/// The first position from `from` on that is not rejected, or the length
/// of `s` where every one is.
pub open spec fn first_live(s: Seq<u8>, from: int) -> int
    decreases s.len() - from,
{
    if from >= s.len() {
        s.len() as int
    } else if classify(s, from) != Candidate::Rejected {
        from
    } else {
        first_live(s, from + 1)
    }
}

/// The first position from `from` on that holds a header byte, or the
/// length of `s` where none does.
pub open spec fn next_header(s: Seq<u8>, from: int) -> int
    decreases s.len() - from,
{
    if from >= s.len() {
        s.len() as int
    } else if s[from] == HEADER {
        from
    } else {
        next_header(s, from + 1)
    }
}

/// The outcome of a search: the command that was found, if any, and the
/// bytes that stay buffered.
pub struct Scan {
    pub command: Option<CommandView>,
    pub rest: Seq<u8>,
}

/// The search for a command in `s`. Everything before the first position
/// that is not rejected is dropped. A whole frame there is taken out and
/// what follows it stays; the beginning of a frame stays as it is; where
/// every position is rejected nothing stays.
pub open spec fn scan(s: Seq<u8>) -> Scan {
    let p = first_live(s, 0);
    if p >= s.len() {
        Scan { command: None, rest: Seq::empty() }
    } else if classify(s, p) == Candidate::Incomplete {
        Scan { command: None, rest: s.skip(p) }
    } else {
        Scan { command: Some(command_at(s, p)), rest: s.skip(p + declared_frame_len(s, p)) }
    }
}

/// The view of a command that may not be there.
pub open spec fn view_of(command: Option<SerialCommand>) -> Option<CommandView> {
    match command {
        Some(c) => Some(c@),
        None => None,
    }
}

/// Whether a command can travel: its payload has the stated length, is long
/// enough for its action, and the checksum is that of its contents.
pub open spec fn sendable(command: CommandView) -> bool {
    command.well_formed() && command.long_enough() && command.intact()
}

/// `first_live` is the least position from `from` on that is not rejected.
pub proof fn lemma_first_live(s: Seq<u8>, from: int)
    requires
        0 <= from,
    ensures
        from <= first_live(s, from) || first_live(s, from) == s.len(),
        first_live(s, from) <= s.len() || from > s.len(),
        first_live(s, from) < s.len() ==> classify(s, first_live(s, from)) != Candidate::Rejected,
        forall|i: int| from <= i < first_live(s, from) ==> classify(s, i) == Candidate::Rejected,
    decreases s.len() - from,
{
    if from < s.len() && classify(s, from) == Candidate::Rejected {
        lemma_first_live(s, from + 1);
    }
}

/// Where every position before `k` is rejected, the search may start at
/// `k`.
pub proof fn lemma_first_live_skips(s: Seq<u8>, from: int, k: int)
    requires
        0 <= from <= k <= s.len(),
        forall|i: int| from <= i < k ==> classify(s, i) == Candidate::Rejected,
    ensures
        first_live(s, from) == first_live(s, k),
    decreases k - from,
{
    if from < k {
        lemma_first_live_skips(s, from + 1, k);
    }
}

/// `next_header` is the least position from `from` on with a header byte.
pub proof fn lemma_next_header(s: Seq<u8>, from: int)
    requires
        0 <= from,
    ensures
        from <= next_header(s, from) || next_header(s, from) == s.len(),
        next_header(s, from) <= s.len() || from > s.len(),
        next_header(s, from) < s.len() ==> s[next_header(s, from)] == HEADER,
        forall|i: int| from <= i < next_header(s, from) ==> s[i] != HEADER,
    decreases s.len() - from,
{
    if from < s.len() && s[from] != HEADER {
        lemma_next_header(s, from + 1);
    }
}

/// What a position can be depends on the bytes from it on only.
pub proof fn lemma_classify_shift(s: Seq<u8>, k: int, p: int)
    requires
        0 <= k <= s.len(),
        0 <= p,
    ensures
        classify(s.skip(k), p) == classify(s, k + p),
        classify(s, k + p) == Candidate::Complete ==> command_at(s.skip(k), p) == command_at(
            s,
            k + p,
        ) && declared_frame_len(s.skip(k), p) == declared_frame_len(s, k + p),
{
    let t = s.skip(k);
    if p < t.len() && t[p] == HEADER && t.len() - p >= FRAME_PREFIX {
        let n = declared_length(s, k + p);
        if n <= MAX_PAYLOAD && t.len() - p >= n + FRAME_OVERHEAD {
            assert(t.subrange(p + FRAME_PREFIX, p + FRAME_PREFIX + n) =~= s.subrange(
                k + p + FRAME_PREFIX,
                k + p + FRAME_PREFIX + n,
            ));
        }
    }
}

/// The search gives the same on `s` and on `s` without its first `k`
/// bytes, where every position before `k` is rejected.
pub proof fn lemma_scan_skips_rejected(s: Seq<u8>, k: int)
    requires
        0 <= k <= s.len(),
        forall|i: int| 0 <= i < k ==> classify(s, i) == Candidate::Rejected,
    ensures
        scan(s) == scan(s.skip(k)),
{
    let t = s.skip(k);
    lemma_first_live_skips(s, 0, k);
    lemma_first_live_shift(s, k, 0);
    let q = first_live(t, 0);
    lemma_first_live(t, 0);
    if q < t.len() {
        lemma_classify_shift(s, k, q);
        assert(t.skip(q) =~= s.skip(k + q));
        if classify(t, q) == Candidate::Complete {
            assert(t.skip(q + declared_frame_len(t, q)) =~= s.skip(
                k + q + declared_frame_len(s, k + q),
            ));
        }
    }
}

/// Searching `s` from `k + from` on is searching `s.skip(k)` from `from`
/// on.
pub proof fn lemma_first_live_shift(s: Seq<u8>, k: int, from: int)
    requires
        0 <= k <= s.len(),
        0 <= from,
    ensures
        first_live(s, k + from) == k + first_live(s.skip(k), from) || (from > s.len() - k
            && first_live(s, k + from) == s.len() && first_live(s.skip(k), from) == s.len() - k),
    decreases s.len() - k - from,
{
    let t = s.skip(k);
    if from < t.len() {
        lemma_classify_shift(s, k, from);
        if classify(t, from) == Candidate::Rejected {
            lemma_first_live_shift(s, k, from + 1);
        }
    }
}

/// A rejected position stays rejected when more bytes arrive.
pub proof fn lemma_rejected_is_stable(s: Seq<u8>, more: Seq<u8>, p: int)
    requires
        0 <= p < s.len(),
        classify(s, p) == Candidate::Rejected,
    ensures
        classify(s + more, p) == Candidate::Rejected,
{
    let t = s + more;
    if s[p] == HEADER {
        let n = declared_length(s, p);
        if n <= MAX_PAYLOAD {
            assert(t.subrange(p + FRAME_PREFIX, p + FRAME_PREFIX + n) =~= s.subrange(
                p + FRAME_PREFIX,
                p + FRAME_PREFIX + n,
            ));
        }
    }
}

/// What a look at the front of `s` leads to, in terms of the search: where
/// the front is rejected the search goes on behind the cut, and otherwise
/// it ends there.
pub proof fn lemma_step_outcome(s: Seq<u8>)
    ensures
        classify(s, 0) == Candidate::Rejected ==> scan(s) == scan(s.skip(next_header(s, 1))),
        classify(s, 0) == Candidate::Rejected && next_header(s, 1) >= s.len() ==> scan(s) == (Scan {
            command: None,
            rest: Seq::empty(),
        }),
        classify(s, 0) == Candidate::Incomplete ==> scan(s) == (Scan { command: None, rest: s }),
        classify(s, 0) == Candidate::Complete ==> scan(s) == (Scan {
            command: Some(command_at(s, 0)),
            rest: s.skip(declared_frame_len(s, 0)),
        }),
{
    lemma_next_header(s, 1);
    if classify(s, 0) == Candidate::Rejected {
        let k = next_header(s, 1);
        if s.len() > 0 {
            lemma_scan_skips_rejected(s, k);
        }
    } else {
        assert(s.skip(0) =~= s);
    }
}

/// Cutting a rejected front away changes nothing for the search, whatever
/// bytes arrive later.
pub proof fn lemma_resync_under_extension(s: Seq<u8>)
    requires
        classify(s, 0) == Candidate::Rejected,
    ensures
        forall|more: Seq<u8>| #[trigger]
            scan(s + more) == scan(s.skip(next_header(s, 1)) + more),
{
    let k = next_header(s, 1);
    lemma_next_header(s, 1);
    assert forall|more: Seq<u8>| #[trigger] scan(s + more) == scan(s.skip(k) + more) by {
        let t = s + more;
        if s.len() > 0 {
            lemma_rejected_is_stable(s, more, 0);
            lemma_scan_skips_rejected(t, k);
            assert(t.skip(k) =~= s.skip(k) + more);
        }
    }
}

/// The frame of a sendable command, alone or followed by anything, is
/// complete, and spells that command.
pub proof fn lemma_frame_is_complete(command: CommandView, more: Seq<u8>)
    requires
        sendable(command),
    ensures
        command.frame().len() == command.length + FRAME_OVERHEAD,
        classify(command.frame() + more, 0) == Candidate::Complete,
        command_at(command.frame() + more, 0) == command,
        declared_frame_len(command.frame() + more, 0) == command.frame().len(),
{
    let frame = command.frame();
    let s = frame + more;
    let n = command.length as int;
    assert(s.subrange(FRAME_PREFIX as int, FRAME_PREFIX + n) =~= command.payload);
}

/// A frame that was cut short waits, and is found once the rest has
/// arrived: the search on any proper beginning of a sendable command's
/// frame finds nothing and keeps all of it, and the search on the whole
/// frame finds the command and keeps nothing.
pub proof fn lemma_truncated_frame_waits(command: CommandView, cut: int)
    requires
        sendable(command),
        0 <= cut < command.frame().len(),
    ensures
        scan(command.frame().take(cut)) == (Scan {
            command: None,
            rest: command.frame().take(cut),
        }),
        scan(command.frame().take(cut) + command.frame().skip(cut)) == (Scan {
            command: Some(command),
            rest: Seq::empty(),
        }),
{
    let frame = command.frame();
    let head = frame.take(cut);
    lemma_frame_is_complete(command, Seq::empty());
    assert(head + frame.skip(cut) =~= frame);
    assert(frame.skip(frame.len() as int) =~= Seq::<u8>::empty());
    lemma_step_outcome(head);
    if cut == 0 {
        assert(head =~= Seq::<u8>::empty());
    }
}

/// Bytes without a header byte are rejected at every position, whatever
/// follows them.
pub proof fn lemma_headerless_is_rejected(garbage: Seq<u8>, more: Seq<u8>)
    requires
        forall|i: int| 0 <= i < garbage.len() ==> garbage[i] != HEADER,
    ensures
        forall|i: int|
            0 <= i < garbage.len() ==> classify(garbage + more, i) == Candidate::Rejected,
{
}

/// Garbage in front of a frame is dropped and the frame is found: where
/// every position of `garbage` is rejected (as it is where `garbage` holds
/// no header byte), the search on `garbage` followed by the frame of a
/// sendable command finds that command and keeps nothing, so that the next
/// search finds nothing.
pub proof fn lemma_garbage_then_frame(garbage: Seq<u8>, command: CommandView)
    requires
        sendable(command),
        forall|i: int|
            0 <= i < garbage.len() ==> classify(garbage + command.frame(), i)
                == Candidate::Rejected,
    ensures
        scan(garbage + command.frame()) == (Scan { command: Some(command), rest: Seq::empty() }),
        scan(scan(garbage + command.frame()).rest).command.is_none(),
{
    let frame = command.frame();
    let s = garbage + frame;
    lemma_scan_skips_rejected(s, garbage.len() as int);
    assert(s.skip(garbage.len() as int) =~= frame);
    lemma_frame_is_complete(command, Seq::empty());
    assert(frame.skip(frame.len() as int) =~= Seq::<u8>::empty());
}

/// Whatever the search finds is a sendable command: bytes that do not
/// carry the checksum of their contents never become a command.
pub proof fn lemma_found_is_sendable(s: Seq<u8>)
    ensures
        scan(s).command matches Some(command) ==> sendable(command),
{
    lemma_first_live(s, 0);
}

/// A frame with one corrupted byte is no command: where `bad` differs from
/// the frame of a sendable command in the byte at `at` only, whichever of
/// its bits flipped, `bad` is not a complete frame. The one case left out
/// is a length field that states less than before, where a shorter frame
/// would have to pass the checksum by chance.
pub proof fn lemma_corrupted_frame_is_no_command(command: CommandView, bad: Seq<u8>, at: int)
    requires
        sendable(command),
        differ_only_at(command.frame(), bad, at),
        declared_length(bad, 0) >= command.length,
    ensures
        classify(bad, 0) != Candidate::Complete,
{
    let n = command.length as int;
    if at != 0 && declared_length(bad, 0) == n {
        let spelled = command_at(bad, 0);
        if at < FRAME_PREFIX + n {
            lemma_corrupted_command_fails(command, spelled, at - 1);
        } else {
            assert(spelled.covered() =~= command.covered());
        }
    }
}

} // verus!
