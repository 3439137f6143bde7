//! Finding the messages in a capture that may hold several of them, along
//! with stray bytes between them.
//!
//! The scan keeps one piece of state: where the message that is currently
//! open began. An initiator opens a message, abandoning one that was still
//! open; a terminator closes the open message, if there is one. Bytes outside
//! a message are ignored, and a message still open at the end of the capture
//! is dropped.

use vstd::prelude::*;
use crate::wire::{copy_range, SysexError, INITIATOR, TERMINATOR};

verus! {

/// Where the message that is still open after scanning all of `b` began, or
/// `None` when no message is open there.
pub open spec fn open_start(b: Seq<u8>) -> Option<int>
    decreases b.len(),
{
    if b.len() == 0 {
        None
    } else if b.last() == INITIATOR {
        Some(b.len() - 1)
    } else if b.last() == TERMINATOR {
        None
    } else {
        open_start(b.drop_last())
    }
}

/// Whether the last byte of `b` completes a message.
pub open spec fn closes_message(b: Seq<u8>) -> bool {
    b.len() > 0 && b.last() == TERMINATOR && open_start(b.drop_last()) is Some
}

/// The number of complete messages in `b`.
pub open spec fn complete_count(b: Seq<u8>) -> nat
    decreases b.len(),
{
    if b.len() == 0 {
        0
    } else if closes_message(b) {
        complete_count(b.drop_last()) + 1
    } else {
        complete_count(b.drop_last())
    }
}

/// The complete messages in `b`, framing bytes included, in the order in
/// which they occur.
pub open spec fn messages_in(b: Seq<u8>) -> Seq<Seq<u8>>
    decreases b.len(),
{
    if b.len() == 0 {
        Seq::empty()
    } else if closes_message(b) {
        messages_in(b.drop_last()).push(
            b.subrange(open_start(b.drop_last()).unwrap(), b.len() as int),
        )
    } else {
        messages_in(b.drop_last())
    }
}

/// A single message with nothing around it: an initiator, bytes that are no
/// framing bytes, a terminator.
pub open spec fn is_frame(f: Seq<u8>) -> bool {
    &&& f.len() >= 2
    &&& f[0] == INITIATOR
    &&& f.last() == TERMINATOR
    &&& forall|j: int| 0 < j < f.len() - 1 ==> f[j] != INITIATOR && f[j] != TERMINATOR
}

/// The frames of `frames` written one after the other.
pub open spec fn concat_frames(frames: Seq<Seq<u8>>) -> Seq<u8>
    decreases frames.len(),
{
    if frames.len() == 0 {
        Seq::empty()
    } else {
        concat_frames(frames.drop_last()) + frames.last()
    }
}

/// Whether a message is still open at the end of `b`; such a message is
/// dropped by the splitter.
pub open spec fn has_dangling(b: Seq<u8>) -> bool {
    open_start(b) is Some
}

/// An open message begins at an initiator inside the buffer, and no framing
/// byte follows that initiator.
pub proof fn lemma_open_start(b: Seq<u8>)
    ensures
        open_start(b) matches Some(s) ==> {
            &&& 0 <= s < b.len()
            &&& b[s] == INITIATOR
            &&& forall|j: int| s < j < b.len() ==> b[j] != INITIATOR && b[j] != TERMINATOR
        },
    decreases b.len(),
{
    if b.len() > 0 && b.last() != INITIATOR && b.last() != TERMINATOR {
        let prefix = b.drop_last();
        lemma_open_start(prefix);
        if let Some(s) = open_start(prefix) {
            assert forall|j: int| s < j < b.len() implies b[j] != INITIATOR && b[j]
                != TERMINATOR by {
                if j < prefix.len() {
                    assert(b[j] == prefix[j]);
                }
            }
        }
    }
}

/// Counting and splitting agree: the number of complete messages is the
/// number of pieces that splitting yields, for every buffer.
pub proof fn lemma_count_matches_split(b: Seq<u8>)
    ensures
        complete_count(b) == messages_in(b).len(),
    decreases b.len(),
{
    if b.len() > 0 {
        lemma_count_matches_split(b.drop_last());
    }
}

/// Every piece that splitting yields is a frame: it starts with the
/// initiator, ends with the terminator and holds no framing byte in between.
pub proof fn lemma_messages_are_frames(b: Seq<u8>)
    ensures
        forall|k: int| 0 <= k < messages_in(b).len() ==> is_frame(#[trigger] messages_in(b)[k]),
    decreases b.len(),
{
    if b.len() > 0 {
        let prefix = b.drop_last();
        lemma_messages_are_frames(prefix);
        if closes_message(b) {
            lemma_open_start(prefix);
            let s = open_start(prefix).unwrap();
            let f = b.subrange(s, b.len() as int);
            assert(is_frame(f)) by {
                assert forall|j: int| 0 < j < f.len() - 1 implies f[j] != INITIATOR && f[j]
                    != TERMINATOR by {
                    assert(f[j] == prefix[s + j]);
                }
            }
            assert forall|k: int| 0 <= k < messages_in(b).len() implies is_frame(
                #[trigger] messages_in(b)[k],
            ) by {
                if k < messages_in(prefix).len() {
                    assert(messages_in(b)[k] == messages_in(prefix)[k]);
                } else {
                    assert(messages_in(b)[k] == f);
                }
            }
        }
    }
}

/// Whether a frame occupies the bytes of `b` from index `s` to index `e`,
/// both included.
pub open spec fn frame_at(b: Seq<u8>, s: int, e: int) -> bool {
    0 <= s < e < b.len() && is_frame(b.subrange(s, e + 1))
}

/// Every piece that splitting yields is a frame that occurs in the buffer;
/// the lemma returns where.
pub proof fn lemma_piece_occurs(b: Seq<u8>, k: int) -> (at: (int, int))
    requires
        0 <= k < messages_in(b).len(),
    ensures
        frame_at(b, at.0, at.1),
        messages_in(b)[k] == b.subrange(at.0, at.1 + 1),
    decreases b.len(),
{
    let prefix = b.drop_last();
    if closes_message(b) && k == messages_in(prefix).len() {
        lemma_open_start(prefix);
        lemma_messages_are_frames(b);
        let s = open_start(prefix).unwrap();
        assert(messages_in(b)[k] == b.subrange(s, b.len() as int));
        assert(is_frame(messages_in(b)[k]));
        (s, b.len() - 1)
    } else {
        assert(messages_in(b)[k] == messages_in(prefix)[k]);
        let at = lemma_piece_occurs(prefix, k);
        assert(prefix.subrange(at.0, at.1 + 1) =~= b.subrange(at.0, at.1 + 1));
        at
    }
}

/// An initiator that no framing byte follows is where the open message
/// starts.
proof fn lemma_open_start_at(b: Seq<u8>, s: int)
    requires
        0 <= s < b.len(),
        b[s] == INITIATOR,
        forall|j: int| s < j < b.len() ==> b[j] != INITIATOR && b[j] != TERMINATOR,
    ensures
        open_start(b) == Some(s),
    decreases b.len(),
{
    if s < b.len() - 1 {
        lemma_open_start_at(b.drop_last(), s);
    }
}

/// Every frame that occurs in the buffer is among the pieces that splitting
/// yields.
pub proof fn lemma_frame_is_found(b: Seq<u8>, s: int, e: int)
    requires
        frame_at(b, s, e),
    ensures
        messages_in(b).contains(b.subrange(s, e + 1)),
    decreases b.len(),
{
    let prefix = b.drop_last();
    let f = b.subrange(s, e + 1);
    if e == b.len() - 1 {
        assert(prefix[s] == f[0]);
        assert forall|j: int| s < j < prefix.len() implies prefix[j] != INITIATOR && prefix[j]
            != TERMINATOR by {
            assert(prefix[j] == f[j - s]);
        }
        lemma_open_start_at(prefix, s);
        assert(b.last() == f.last());
        assert(messages_in(b)[messages_in(b).len() - 1] == f);
    } else {
        assert(prefix.subrange(s, e + 1) =~= f);
        lemma_frame_is_found(prefix, s, e);
        let k = choose|k: int| 0 <= k < messages_in(prefix).len() && messages_in(prefix)[k] == f;
        assert(messages_in(b)[k] == f);
    }
}

/// A buffer without framing bytes changes nothing when it is appended: what
/// was open stays open.
proof fn lemma_open_after_plain(a: Seq<u8>, p: Seq<u8>)
    requires
        forall|j: int| 0 <= j < p.len() ==> p[j] != INITIATOR && p[j] != TERMINATOR,
    ensures
        open_start(a + p) == open_start(a),
        messages_in(a + p) == messages_in(a),
    decreases p.len(),
{
    if p.len() == 0 {
        assert(a + p =~= a);
    } else {
        assert((a + p).drop_last() =~= a + p.drop_last());
        lemma_open_after_plain(a, p.drop_last());
    }
}

/// Appending a frame to any buffer appends that frame to the messages found.
pub proof fn lemma_split_appended_frame(a: Seq<u8>, f: Seq<u8>)
    requires
        is_frame(f),
    ensures
        messages_in(a + f) == messages_in(a).push(f),
        open_start(a + f) is None,
{
    let opened = a + seq![INITIATOR];
    let inner = f.subrange(1, f.len() - 1);
    let b = a + f;
    assert(opened.drop_last() =~= a);
    assert(open_start(opened) == Some(a.len() as int));
    assert(messages_in(opened) == messages_in(a));
    lemma_open_after_plain(opened, inner);
    assert(b.drop_last() =~= opened + inner);
    assert(b.subrange(a.len() as int, b.len() as int) =~= f);
}

/// Splitting undoes concatenation: a buffer made of frames written one after
/// the other splits into exactly those frames.
pub proof fn lemma_split_inverts_concat(frames: Seq<Seq<u8>>)
    requires
        forall|k: int| 0 <= k < frames.len() ==> is_frame(#[trigger] frames[k]),
    ensures
        messages_in(concat_frames(frames)) == frames,
        complete_count(concat_frames(frames)) == frames.len(),
        !has_dangling(concat_frames(frames)),
    decreases frames.len(),
{
    if frames.len() > 0 {
        lemma_split_inverts_concat(frames.drop_last());
        lemma_split_appended_frame(concat_frames(frames.drop_last()), frames.last());
        assert(frames.drop_last().push(frames.last()) =~= frames);
    }
    lemma_count_matches_split(concat_frames(frames));
}

/// The byte sequences held by a list of buffers.
pub open spec fn contents(parts: Seq<Vec<u8>>) -> Seq<Seq<u8>> {
    parts.map_values(|part: Vec<u8>| part@)
}

/// Counts the complete messages in `buffer`.
pub fn message_count(buffer: &[u8]) -> (n: usize)
    ensures
        n == complete_count(buffer@),
{
    let mut count: usize = 0;
    let mut open: bool = false;
    let mut i: usize = 0;
    while i < buffer.len()
        invariant
            i <= buffer@.len(),
            count <= i,
            count == complete_count(buffer@.take(i as int)),
            open == (open_start(buffer@.take(i as int)) is Some),
        decreases buffer@.len() - i,
    {
        let byte = buffer[i];
        assert(buffer@.take(i + 1).drop_last() =~= buffer@.take(i as int));
        if byte == INITIATOR {
            open = true;
        } else if byte == TERMINATOR {
            if open {
                count = count + 1;
            }
            open = false;
        }
        i = i + 1;
    }
    assert(buffer@.take(i as int) =~= buffer@);
    count
}

/// Where the message that is still open at the end of `buffer` began, if one
/// is. That message is left out by `split_messages` and `message_count`.
pub fn dangling_start(buffer: &[u8]) -> (r: Option<usize>)
    ensures
        match open_start(buffer@) {
            Some(s) => r == Some(s as usize) && s < buffer@.len(),
            None => r is None,
        },
{
    let mut open: Option<usize> = None;
    let mut i: usize = 0;
    while i < buffer.len()
        invariant
            i <= buffer@.len(),
            match open_start(buffer@.take(i as int)) {
                Some(s) => open == Some(s as usize) && 0 <= s < i,
                None => open is None,
            },
        decreases buffer@.len() - i,
    {
        let byte = buffer[i];
        assert(buffer@.take(i + 1).drop_last() =~= buffer@.take(i as int));
        if byte == INITIATOR {
            open = Some(i);
        } else if byte == TERMINATOR {
            open = None;
        }
        i = i + 1;
    }
    assert(buffer@.take(i as int) =~= buffer@);
    open
}

/// What to do with a message that is still open where the buffer ends.
#[derive(Clone, Copy, Debug, PartialEq, Eq, Structural)]
pub enum DanglingPolicy {
    /// Leave the unfinished message out.
    Drop,
    /// Refuse the whole buffer.
    Reject,
}

/// Extracts the complete messages of `buffer` under the given policy for a
/// message left unfinished at its end: such a buffer is refused as
/// malformed under `Reject`, and split like any other under `Drop`.
pub fn split_with_policy(buffer: &[u8], policy: DanglingPolicy) -> (r: Result<
    Vec<Vec<u8>>,
    SysexError,
>)
    ensures
        r is Err == (policy == DanglingPolicy::Reject && has_dangling(buffer@)),
        r matches Ok(parts) ==> contents(parts@) == messages_in(buffer@),
        r matches Err(e) ==> e == SysexError::MalformedFraming,
{
    match policy {
        DanglingPolicy::Reject => {
            if dangling_start(buffer).is_some() {
                return Err(SysexError::MalformedFraming);
            }
        },
        DanglingPolicy::Drop => {},
    }
    Ok(split_messages(buffer))
}

/// Extracts the complete messages of `buffer`, framing bytes included, in the
/// order in which they occur.
pub fn split_messages(buffer: &[u8]) -> (parts: Vec<Vec<u8>>)
    ensures
        contents(parts@) == messages_in(buffer@),
        parts@.len() == complete_count(buffer@),
{
    let mut parts: Vec<Vec<u8>> = Vec::new();
    let mut open: Option<usize> = None;
    let mut i: usize = 0;
    assert(contents(parts@) =~= messages_in(buffer@.take(0)));
    while i < buffer.len()
        invariant
            i <= buffer@.len(),
            contents(parts@) == messages_in(buffer@.take(i as int)),
            match open_start(buffer@.take(i as int)) {
                Some(s) => open == Some(s as usize) && 0 <= s < i,
                None => open is None,
            },
        decreases buffer@.len() - i,
    {
        let byte = buffer[i];
        let ghost before = buffer@.take(i as int);
        let ghost after = buffer@.take(i + 1);
        assert(after.drop_last() =~= before);
        if byte == INITIATOR {
            open = Some(i);
        } else if byte == TERMINATOR {
            match open {
                Some(start) => {
                    let ghost found = contents(parts@);
                    let piece = copy_range(buffer, start, i + 1);
                    assert(piece@ =~= after.subrange(start as int, after.len() as int));
                    parts.push(piece);
                    assert(contents(parts@) =~= found.push(piece@));
                },
                None => {},
            }
            open = None;
        }
        i = i + 1;
    }
    assert(buffer@.take(i as int) =~= buffer@);
    proof {
        lemma_count_matches_split(buffer@);
    }
    parts
}

} // verus!
