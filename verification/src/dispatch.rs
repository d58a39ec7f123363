//! Consuming events subtree by subtree.
//!
//! The tag dispatch loop must fully consume the subtree of every child
//! element it does not recognize — anything less would desynchronize it,
//! and a nested element could be mistaken for content of its parent.

use vstd::prelude::*;

use crate::error::{Error, ErrorV};
use crate::events::{Event, EventStream, EventV};

verus! {

/// The position just past the event that closes `depth` still-open
/// elements, reading `events` from `pos` on; nothing if the events run out
/// first.
pub open spec fn skip_to(events: Seq<EventV>, pos: int, depth: int) -> Option<int>
    decreases events.len() - pos,
{
    if depth <= 0 || pos < 0 || pos >= events.len() {
        None
    } else {
        match events[pos] {
            EventV::Start { .. } => skip_to(events, pos + 1, depth + 1),
            EventV::End { .. } => if depth == 1 {
                Some(pos + 1)
            } else {
                skip_to(events, pos + 1, depth - 1)
            },
            EventV::Other => skip_to(events, pos + 1, depth),
        }
    }
}

/// Skipping a subtree moves strictly forward and never past the end of the
/// events.
pub proof fn lemma_skip_to_bounds(events: Seq<EventV>, pos: int, depth: int)
    ensures
        skip_to(events, pos, depth) matches Some(np) ==> pos < np <= events.len(),
    decreases events.len() - pos,
{
    if depth > 0 && 0 <= pos < events.len() {
        lemma_skip_to_bounds(events, pos + 1, depth + 1);
        lemma_skip_to_bounds(events, pos + 1, depth - 1);
        lemma_skip_to_bounds(events, pos + 1, depth);
    }
}

/// Consumes the rest of the subtree of an element whose start tag has just
/// been consumed: everything up to and including its matching end tag.
pub fn skip_subtree(src: &mut EventStream) -> (r: Result<(), Error>)
    ensures
        final(src).events() == old(src).events(),
        match r {
            Ok(()) => skip_to(old(src).events(), old(src).pos(), 1) == Some(final(src).pos()),
            Err(e) => skip_to(old(src).events(), old(src).pos(), 1) is None && e@
                == ErrorV::StructuralError,
        },
{
    proof {
        src.lemma_pos_bound();
    }
    let mut depth: u128 = 1;
    loop
        invariant
            src.events() == old(src).events(),
            0 <= old(src).pos(),
            1 <= depth <= 1 + src.pos() - old(src).pos(),
            skip_to(old(src).events(), old(src).pos(), 1) == skip_to(
                old(src).events(),
                src.pos(),
                depth as int,
            ),
        decreases src.events().len() - src.pos(),
    {
        proof {
            src.lemma_pos_bound();
        }
        match src.next() {
            None => {
                return Err(Error::StructuralError);
            },
            Some(e) => match e {
                Event::Start { .. } => {
                    depth = depth + 1;
                },
                Event::End { .. } => {
                    if depth == 1 {
                        return Ok(());
                    }
                    depth = depth - 1;
                },
                Event::Other => {},
            },
        }
    }
}

} // verus!
