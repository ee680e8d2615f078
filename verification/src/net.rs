//! Replication: the messages that carry a character's place between peers,
//! and what the simulation does with them.
//!
//! Sending and receiving is the host's business. The simulation decides what
//! is worth queueing, takes over the places that arrive, and cuts a received
//! buffer into the lines that hold one message each.
use crate::vector::{Quat, Transform, Vec3};
use vstd::prelude::*;

verus! {

/// One message between peers.
#[derive(Clone, Debug)]
pub enum NetworkingAction {
    /// A text to show in the log.
    Print(String),
    /// Where the sender is: its rotation and its translation.
    Location(Quat, Vec3),
    /// The sender is still there.
    Heartbeat,
}

/// How many messages may wait in the outgoing queue before new places are
/// dropped rather than queued.
pub const OUTGOING_LIMIT: usize = 3;

/// The byte that ends a message in a received buffer.
pub const LINE_END: u8 = 10;

/// The transform that is left when the messages `actions` have arrived at an
/// entity at `start`, in order: the last place among them, or `start` if
/// they hold no place.
pub open spec fn after_incoming(start: Transform, actions: Seq<NetworkingAction>) -> Transform
    decreases actions.len(),
{
    if actions.len() == 0 {
        start
    } else {
        let before = after_incoming(start, actions.drop_last());
        match actions.last() {
            NetworkingAction::Location(rotation, translation) => Transform {
                translation,
                rotation,
            },
            _ => before,
        }
    }
}

/// Queues the place `transform` for sending, unless the queue holds
/// `OUTGOING_LIMIT` messages or more: then the place is dropped, so that a
/// slow connection is not flooded. Says whether the place was queued.
pub fn queue_location(out: &mut Vec<NetworkingAction>, transform: &Transform) -> (queued: bool)
    ensures
        queued == (old(out)@.len() < OUTGOING_LIMIT),
        queued ==> final(out)@ == old(out)@.push(
            NetworkingAction::Location(transform.rotation, transform.translation),
        ),
        !queued ==> final(out)@ == old(out)@,
{
    if out.len() < OUTGOING_LIMIT {
        out.push(NetworkingAction::Location(transform.rotation, transform.translation));
        true
    } else {
        false
    }
}

/// Takes over the places that arrived. Each place overwrites the transform as
/// a whole, so the last one stays; texts and heartbeats leave it alone.
pub fn apply_incoming(transform: &mut Transform, actions: &Vec<NetworkingAction>)
    ensures
        *final(transform) == after_incoming(*old(transform), actions@),
{
    let mut i: usize = 0;
    while i < actions.len()
        invariant
            i <= actions.len(),
            *transform == after_incoming(*old(transform), actions@.take(i as int)),
        decreases actions.len() - i,
    {
        proof {
            assert(actions@.take(i + 1).drop_last() == actions@.take(i as int));
        }
        match &actions[i] {
            NetworkingAction::Location(rotation, translation) => {
                transform.rotation = *rotation;
                transform.translation = *translation;
            },
            _ => {},
        }
        i = i + 1;
    }
    proof {
        assert(actions@.take(i as int) == actions@);
    }
}

/// The end of the line that starts at `start`: the place of the first line
/// end at or after `start`, or the length of the buffer if there is none.
pub open spec fn line_stop(buf: Seq<u8>, start: int) -> int
    decreases buf.len() - start,
{
    if start >= buf.len() {
        buf.len() as int
    } else if buf[start] == LINE_END {
        start
    } else {
        line_stop(buf, start + 1)
    }
}

/// The lines of a buffer from `start` on, each as the places of its first
/// byte and of the byte behind its last. The lines are what stands between
/// line ends. Reading stops at the first empty line, so a buffer that ends
/// with a line end has no line after it, and what follows two line ends in a
/// row is not read.
pub open spec fn lines_from(buf: Seq<u8>, start: int) -> Seq<(int, int)>
    decreases buf.len() - start,
{
    let stop = line_stop(buf, start);
    if start < 0 || stop <= start {
        Seq::empty()
    } else if stop >= buf.len() {
        seq![(start, stop)]
    } else {
        seq![(start, stop)] + lines_from(buf, stop + 1)
    }
}

proof fn lemma_line_stop_bounds(buf: Seq<u8>, start: int)
    requires
        0 <= start <= buf.len(),
    ensures
        start <= line_stop(buf, start) <= buf.len(),
        line_stop(buf, start) < buf.len() ==> buf[line_stop(buf, start)] == LINE_END,
        forall|k: int| start <= k < line_stop(buf, start) ==> buf[k] != LINE_END,
    decreases buf.len() - start,
{
    if start < buf.len() && buf[start] != LINE_END {
        lemma_line_stop_bounds(buf, start + 1);
    }
}

proof fn lemma_line_stop_found(buf: Seq<u8>, start: int, stop: int)
    requires
        0 <= start <= stop <= buf.len(),
        forall|k: int| start <= k < stop ==> buf[k] != LINE_END,
        stop < buf.len() ==> buf[stop] == LINE_END,
    ensures
        line_stop(buf, start) == stop,
    decreases stop - start,
{
    if start < stop {
        lemma_line_stop_found(buf, start + 1, stop);
    }
}

proof fn lemma_lines_are_whole(buf: Seq<u8>, start: int)
    requires
        0 <= start <= buf.len(),
    ensures
        forall|i: int|
            0 <= i < lines_from(buf, start).len() ==> {
                let (a, b) = #[trigger] lines_from(buf, start)[i];
                &&& start <= a < b <= buf.len()
                &&& forall|k: int| a <= k < b ==> buf[k] != LINE_END
            },
    decreases buf.len() - start,
{
    let stop = line_stop(buf, start);
    lemma_line_stop_bounds(buf, start);
    if stop > start && stop < buf.len() {
        lemma_lines_are_whole(buf, stop + 1);
        let rest = lines_from(buf, stop + 1);
        assert forall|i: int| 0 <= i < lines_from(buf, start).len() implies {
            let (a, b) = #[trigger] lines_from(buf, start)[i];
            &&& start <= a < b <= buf.len()
            &&& forall|k: int| a <= k < b ==> buf[k] != LINE_END
        } by {
            if i > 0 {
                assert(lines_from(buf, start)[i] == rest[i - 1]);
            }
        }
    }
}

/// Cuts a received buffer into its lines: one message each, in order, up to
/// the first empty line. Each line is given by the place of its first byte
/// and the place behind its last; it lies within the buffer, holds at least
/// one byte and no line end.
pub fn frames(buf: &[u8]) -> (lines: Vec<(usize, usize)>)
    ensures
        lines@.len() == lines_from(buf@, 0).len(),
        forall|i: int|
            0 <= i < lines@.len() ==> (#[trigger] lines@[i]).0 == lines_from(buf@, 0)[i].0
                && lines@[i].1 == lines_from(buf@, 0)[i].1,
        forall|i: int|
            0 <= i < lines@.len() ==> {
                &&& (#[trigger] lines@[i]).0 < lines@[i].1 <= buf@.len()
                &&& forall|k: int| lines@[i].0 <= k < lines@[i].1 ==> buf@[k] != LINE_END
            },
{
    proof {
        lemma_lines_are_whole(buf@, 0);
    }
    let mut lines: Vec<(usize, usize)> = Vec::new();
    let mut start: usize = 0;
    loop
        invariant_except_break
            lines_from(buf@, 0).len() == lines@.len() + lines_from(buf@, start as int).len(),
            forall|i: int|
                0 <= i < lines@.len() ==> (#[trigger] lines@[i]).0 == lines_from(buf@, 0)[i].0
                    && lines@[i].1 == lines_from(buf@, 0)[i].1,
            forall|i: int|
                0 <= i < lines_from(buf@, start as int).len() ==> lines_from(buf@, 0)[lines@.len()
                    + i] == #[trigger] lines_from(buf@, start as int)[i],
        invariant
            0 <= start <= buf@.len(),
        ensures
            lines@.len() == lines_from(buf@, 0).len(),
            forall|i: int|
                0 <= i < lines@.len() ==> (#[trigger] lines@[i]).0 == lines_from(buf@, 0)[i].0
                    && lines@[i].1 == lines_from(buf@, 0)[i].1,
        decreases buf@.len() - start,
    {
        let mut stop: usize = start;
        while stop < buf.len() && buf[stop] != LINE_END
            invariant
                start <= stop <= buf@.len(),
                forall|k: int| start <= k < stop ==> buf@[k] != LINE_END,
            decreases buf@.len() - stop,
        {
            stop = stop + 1;
        }
        proof {
            lemma_line_stop_found(buf@, start as int, stop as int);
        }
        if stop == start {
            break ;
        }
        proof {
            let from_start = lines_from(buf@, start as int);
            assert(from_start[0] == (start as int, stop as int));
            if stop < buf@.len() {
                let rest = lines_from(buf@, stop + 1);
                assert(from_start == seq![(start as int, stop as int)] + rest);
                assert forall|i: int| 0 <= i < rest.len() implies lines_from(buf@, 0)[lines@.len()
                    + 1 + i] == #[trigger] rest[i] by {
                    assert(from_start[i + 1] == rest[i]);
                }
            }
        }
        lines.push((start, stop));
        if stop == buf.len() {
            break ;
        }
        start = stop + 1;
    }
    lines
}

} // verus!
