//! The events learned from the operating system, for the time after the compiled-in
//! table has expired.

use crate::table::{LeapEvent, EXPIRES_AT_UTC};
use vstd::prelude::*;

verus! {

/// Whether a supplementary table keeps `event`: it does so from the expiration instant of
/// the compiled-in table on, before which that table is complete.
pub open spec fn is_retained(event: LeapEvent) -> bool {
    event.0 >= EXPIRES_AT_UTC
}

/// The largest difference between TAI and UTC, in seconds, that a supplementary table
/// holds, in either direction.
pub const OFFSET_LIMIT: i64 = 0x4000_0000_0000_0000;

/// Whether a supplementary table can hold `events`: each lies at or after the expiration
/// instant, with a difference of at most [`OFFSET_LIMIT`].
pub open spec fn all_retained(events: Seq<LeapEvent>) -> bool {
    forall|i: int|
        0 <= i < events.len() ==> is_retained(#[trigger] events[i]) && -OFFSET_LIMIT
            <= events[i].1 <= OFFSET_LIMIT
}

/// Leap-second events at or after the expiration instant of the compiled-in table, in
/// the order in which the live source listed them.
pub struct SupplementaryTable {
    events: Vec<LeapEvent>,
}

impl View for SupplementaryTable {
    type V = Seq<LeapEvent>;

    closed spec fn view(&self) -> Seq<LeapEvent> {
        self.events@
    }
}

impl SupplementaryTable {
    #[verifier::type_invariant]
    closed spec fn holds_retained_only(self) -> bool {
        all_retained(self.events@)
    }

    /// A table without events.
    pub fn new() -> (table: Self)
        ensures
            table@ == Seq::<LeapEvent>::empty(),
    {
        SupplementaryTable { events: Vec::new() }
    }

    /// The table with `event` appended, if `event` lies at or after the expiration instant
    /// of the compiled-in table; the table as it is otherwise.
    pub fn with_event(self, event: LeapEvent) -> (table: Self)
        requires
            -OFFSET_LIMIT <= event.1 <= OFFSET_LIMIT,
        ensures
            table@ == if is_retained(event) {
                self@.push(event)
            } else {
                self@
            },
    {
        proof {
            use_type_invariant(&self);
        }
        if event.0 >= EXPIRES_AT_UTC {
            let mut events = self.events;
            events.push(event);
            SupplementaryTable { events }
        } else {
            self
        }
    }

    /// The events of the table, oldest first.
    pub fn as_slice(&self) -> (events: &[LeapEvent])
        ensures
            events@ == self@,
            all_retained(events@),
    {
        proof {
            use_type_invariant(self);
        }
        self.events.as_slice()
    }
}

} // verus!
