//! The state of a generator between two attempts, the step from one state to
//! the next, and the order in which identifiers are issued.

use crate::layout::compose;
use crate::layout::lemma_compose_ordered;
use crate::layout::lemma_pack_in_range;
use crate::layout::lemma_pack_round_trip;
use crate::layout::node_field;
use crate::layout::sequence_field;
use crate::layout::timestamp_field;
use crate::layout::BitConfig;
use vstd::prelude::*;

verus! {

/// One more than the largest tick that a state can hold: `2^42`.
pub const TICK_SPAN: u64 = 0x400_0000_0000;

/// One more than the largest sequence number that a state can hold: `2^21`.
pub const SEQUENCE_SPAN: u64 = 0x20_0000;

/// What a generator remembers between two attempts.
#[derive(Debug, Clone, Copy, PartialEq, Eq, Structural)]
pub enum TickState {
    /// No identifier has been issued yet.
    Fresh,
    /// The tick and the sequence number of the identifier issued last.
    Issued { tick: u64, sequence: u32 },
}

impl TickState {
    /// The state fits into one 64-bit word.
    pub open spec fn encodable(&self) -> bool {
        match *self {
            TickState::Fresh => true,
            TickState::Issued { tick, sequence } => tick < TICK_SPAN && sequence < SEQUENCE_SPAN,
        }
    }

    /// The word that stands for the state: 0 for `Fresh`, else one more
    /// than the tick and the sequence number side by side.
    pub open spec fn spec_to_word(&self) -> nat {
        match *self {
            TickState::Fresh => 0,
            TickState::Issued { tick, sequence } => (1 + tick * SEQUENCE_SPAN + sequence) as nat,
        }
    }

    /// The state that `word` stands for. Every word stands for an encodable
    /// state.
    pub open spec fn spec_from_word(word: u64) -> TickState {
        if word == 0 {
            TickState::Fresh
        } else {
            let rest = (word - 1) % 0x8000_0000_0000_0000;
            TickState::Issued {
                tick: (rest / SEQUENCE_SPAN as int) as u64,
                sequence: (rest % SEQUENCE_SPAN as int) as u32,
            }
        }
    }

    /// Encodes the state; decoding the word gives the state back.
    pub fn to_word(&self) -> (word: u64)
        requires
            self.encodable(),
        ensures
            word == self.spec_to_word(),
            TickState::spec_from_word(word) == *self,
    {
        match *self {
            TickState::Fresh => 0,
            TickState::Issued { tick, sequence } => 1 + tick * SEQUENCE_SPAN + (sequence as u64),
        }
    }

    /// Decodes a word.
    pub fn from_word(word: u64) -> (state: TickState)
        ensures
            state == TickState::spec_from_word(word),
            state.encodable(),
    {
        if word == 0 {
            TickState::Fresh
        } else {
            let rest: u64 = (word - 1) % 0x8000_0000_0000_0000;
            TickState::Issued { tick: rest / SEQUENCE_SPAN, sequence: (rest % SEQUENCE_SPAN) as u32 }
        }
    }
}

/// The next identifier of the tick `tick` after sequence number `sequence`,
/// or nothing once the tick's sequence space is used up.
pub open spec fn in_tick_id(layout: BitConfig, node: u32, tick: u64, sequence: u32) -> Option<nat> {
    if sequence < layout.max_sequence {
        Some(layout.pack(tick, node, (sequence + 1) as u32))
    } else {
        None
    }
}

/// One attempt with the clock at `now`: the state after it, and the
/// identifier it issues, if any.
///
/// A reading that does not fit the timestamp field issues nothing. The
/// first attempt issues sequence 0 of the tick `now`, and so does one whose
/// reading is past the last tick. Otherwise the last tick stays current,
/// also when the clock has moved back: the attempt issues the next sequence
/// number of that tick, or nothing once the tick is exhausted. An attempt
/// that issues nothing leaves the state as it was.
pub open spec fn attempt(layout: BitConfig, node: u32, state: TickState, now: u64) -> (
    TickState,
    Option<nat>,
) {
    if now > layout.timestamp_mask {
        (state, None)
    } else {
        match state {
            TickState::Fresh => (
                TickState::Issued { tick: now, sequence: 0 },
                Some(layout.pack(now, node, 0)),
            ),
            TickState::Issued { tick, sequence } => if now > tick {
                (TickState::Issued { tick: now, sequence: 0 }, Some(layout.pack(now, node, 0)))
            } else {
                match in_tick_id(layout, node, tick, sequence) {
                    Some(id) => (
                        TickState::Issued { tick, sequence: (sequence + 1) as u32 },
                        Some(id),
                    ),
                    None => (state, None),
                }
            },
        }
    }
}

/// The identifiers issued, in order, by attempts that read the clock values
/// `clock` one after another, starting from `state`.
pub open spec fn issued(layout: BitConfig, node: u32, state: TickState, clock: Seq<u64>) -> Seq<nat>
    decreases clock.len(),
{
    if clock.len() == 0 {
        Seq::empty()
    } else {
        let (next, id) = attempt(layout, node, state, clock[0]);
        let rest = issued(layout, node, next, clock.drop_first());
        match id {
            Some(id) => seq![id] + rest,
            None => rest,
        }
    }
}

/// The state is one that attempts under `layout` can reach.
pub open spec fn reachable(layout: BitConfig, state: TickState) -> bool {
    match state {
        TickState::Fresh => true,
        TickState::Issued { tick, sequence } => tick <= layout.timestamp_mask && sequence
            <= layout.max_sequence,
    }
}

/// The identifier issued last, if any.
pub open spec fn last_issued(layout: BitConfig, node: u32, state: TickState) -> Option<nat> {
    match state {
        TickState::Fresh => None,
        TickState::Issued { tick, sequence } => Some(
            compose(layout.sequence_bits(), tick as nat, node as nat, sequence as nat),
        ),
    }
}

/// What one attempt does, field by field.
pub proof fn lemma_attempt_fields(layout: BitConfig, node: u32, state: TickState, now: u64)
    requires
        layout.wf(),
        node <= layout.max_node,
        reachable(layout, state),
    ensures
        reachable(layout, attempt(layout, node, state, now).0),
        attempt(layout, node, state, now).1 is None ==> attempt(layout, node, state, now).0 == state,
        attempt(layout, node, state, now).1 is None <==> now > layout.timestamp_mask || (state matches TickState::Issued {
            tick,
            sequence,
        } && now <= tick && sequence >= layout.max_sequence),
        attempt(layout, node, state, now).1 matches Some(id) ==> {
            &&& id <= u64::MAX
            &&& last_issued(layout, node, attempt(layout, node, state, now).0) == Some(id)
            &&& last_issued(layout, node, state) matches Some(before) ==> before < id
            &&& node_field(layout.sequence_bits(), id) == node
            &&& attempt(layout, node, state, now).0 matches TickState::Issued { tick, sequence } && {
                &&& timestamp_field(id) == tick
                &&& sequence_field(layout.sequence_bits(), id) == sequence
                &&& state is Fresh ==> tick == now && sequence == 0
                &&& state matches TickState::Issued { tick: old_tick, sequence: old_sequence } ==> {
                    ||| now > old_tick && tick == now && sequence == 0
                    ||| now <= old_tick && tick == old_tick && sequence == old_sequence + 1
                }
            }
        },
{
    let bits = layout.sequence_bits();
    if now <= layout.timestamp_mask {
        match state {
            TickState::Fresh => {
                lemma_pack_round_trip(layout, now, node, 0);
                lemma_pack_in_range(layout, now, node, 0);
            },
            TickState::Issued { tick, sequence } => {
                lemma_pack_in_range(layout, tick, node, sequence);
                if now > tick {
                    lemma_pack_round_trip(layout, now, node, 0);
                    lemma_pack_in_range(layout, now, node, 0);
                    lemma_compose_ordered(bits, node as nat, tick as nat, sequence as nat, now as nat, 0);
                } else if sequence < layout.max_sequence {
                    let next: u32 = (sequence + 1) as u32;
                    lemma_pack_round_trip(layout, tick, node, next);
                    lemma_pack_in_range(layout, tick, node, next);
                    lemma_compose_ordered(
                        bits,
                        node as nat,
                        tick as nat,
                        sequence as nat,
                        tick as nat,
                        next as nat,
                    );
                }
            },
        }
    }
}

/// Every identifier issued from `state` on is greater than the one issued
/// last before, and they come out in strictly increasing order.
pub proof fn lemma_issued_increasing(layout: BitConfig, node: u32, state: TickState, clock: Seq<u64>)
    requires
        layout.wf(),
        node <= layout.max_node,
        reachable(layout, state),
    ensures
        forall|i: int|
            0 <= i < issued(layout, node, state, clock).len() ==> (last_issued(
                layout,
                node,
                state,
            ) matches Some(before) ==> before < #[trigger] issued(layout, node, state, clock)[i]),
        forall|i: int, j: int|
            0 <= i < j < issued(layout, node, state, clock).len() ==> #[trigger] issued(
                layout,
                node,
                state,
                clock,
            )[i] < #[trigger] issued(layout, node, state, clock)[j],
    decreases clock.len(),
{
    if clock.len() > 0 {
        let (next, id) = attempt(layout, node, state, clock[0]);
        let rest = issued(layout, node, next, clock.drop_first());
        let all = issued(layout, node, state, clock);
        lemma_attempt_fields(layout, node, state, clock[0]);
        lemma_issued_increasing(layout, node, next, clock.drop_first());
        match id {
            Some(first) => {
                assert(all == seq![first] + rest);
                assert(all[0] == first);
                assert forall|i: int| 1 <= i < all.len() implies all[i] == rest[i - 1] by {}
            },
            None => {
                assert(all == rest);
            },
        }
    }
}

/// Monotonicity: of two identifiers that one generator issues to callers
/// that come one after another, the later is the greater, whatever the
/// clock reads.
pub proof fn lemma_issued_strictly_increasing(
    layout: BitConfig,
    node: u32,
    state: TickState,
    clock: Seq<u64>,
    earlier: int,
    later: int,
)
    requires
        layout.wf(),
        node <= layout.max_node,
        reachable(layout, state),
        0 <= earlier < later < issued(layout, node, state, clock).len(),
    ensures
        issued(layout, node, state, clock)[earlier] < issued(layout, node, state, clock)[later],
{
    lemma_issued_increasing(layout, node, state, clock);
}

/// Uniqueness: no two identifiers that one generator issues to callers that
/// come one after another are equal, whatever the clock reads.
pub proof fn lemma_issued_distinct(
    layout: BitConfig,
    node: u32,
    state: TickState,
    clock: Seq<u64>,
    i: int,
    j: int,
)
    requires
        layout.wf(),
        node <= layout.max_node,
        reachable(layout, state),
        0 <= i < issued(layout, node, state, clock).len(),
        0 <= j < issued(layout, node, state, clock).len(),
        i != j,
    ensures
        issued(layout, node, state, clock)[i] != issued(layout, node, state, clock)[j],
{
    lemma_issued_increasing(layout, node, state, clock);
}

/// `id` is what comes next after `state`: sequence 0 where nothing was
/// issued before; else sequence 0 of a later tick, or the next sequence
/// number of the same tick.
pub open spec fn comes_next(layout: BitConfig, state: TickState, id: nat) -> bool {
    match state {
        TickState::Fresh => sequence_field(layout.sequence_bits(), id) == 0,
        TickState::Issued { tick, sequence } => {
            ||| timestamp_field(id) > tick && sequence_field(layout.sequence_bits(), id) == 0
            ||| timestamp_field(id) == tick && sequence_field(layout.sequence_bits(), id) == sequence
                + 1
        },
    }
}

/// The first identifier issued from `state` on comes next after `state`. So
/// the first identifier of a fresh generator has sequence 0.
pub proof fn lemma_first_issued_comes_next(
    layout: BitConfig,
    node: u32,
    state: TickState,
    clock: Seq<u64>,
)
    requires
        layout.wf(),
        node <= layout.max_node,
        reachable(layout, state),
        issued(layout, node, state, clock).len() > 0,
    ensures
        comes_next(layout, state, issued(layout, node, state, clock)[0]),
    decreases clock.len(),
{
    let (next, id) = attempt(layout, node, state, clock[0]);
    let rest = issued(layout, node, next, clock.drop_first());
    lemma_attempt_fields(layout, node, state, clock[0]);
    match id {
        Some(first) => {
            assert(issued(layout, node, state, clock) == seq![first] + rest);
        },
        None => {
            assert(issued(layout, node, state, clock) == rest);
            lemma_first_issued_comes_next(layout, node, next, clock.drop_first());
        },
    }
}

/// Each identifier comes next after the one issued before it.
pub proof fn lemma_consecutive_issued(
    layout: BitConfig,
    node: u32,
    state: TickState,
    clock: Seq<u64>,
    k: int,
)
    requires
        layout.wf(),
        node <= layout.max_node,
        reachable(layout, state),
        0 <= k,
        k + 1 < issued(layout, node, state, clock).len(),
    ensures
        timestamp_field(issued(layout, node, state, clock)[k + 1]) > timestamp_field(
            issued(layout, node, state, clock)[k],
        ) && sequence_field(layout.sequence_bits(), issued(layout, node, state, clock)[k + 1]) == 0
            || timestamp_field(issued(layout, node, state, clock)[k + 1]) == timestamp_field(
            issued(layout, node, state, clock)[k],
        ) && sequence_field(layout.sequence_bits(), issued(layout, node, state, clock)[k + 1])
            == sequence_field(layout.sequence_bits(), issued(layout, node, state, clock)[k]) + 1,
    decreases clock.len(),
{
    let (next, id) = attempt(layout, node, state, clock[0]);
    let rest = issued(layout, node, next, clock.drop_first());
    let all = issued(layout, node, state, clock);
    lemma_attempt_fields(layout, node, state, clock[0]);
    match id {
        Some(first) => {
            assert(all == seq![first] + rest);
            assert(all[k + 1] == rest[k]);
            if k == 0 {
                assert(all[0] == first);
                lemma_first_issued_comes_next(layout, node, next, clock.drop_first());
            } else {
                assert(all[k] == rest[k - 1]);
                lemma_consecutive_issued(layout, node, next, clock.drop_first(), k - 1);
            }
        },
        None => {
            assert(all == rest);
            lemma_consecutive_issued(layout, node, next, clock.drop_first(), k);
        },
    }
}

/// When an identifier is issued in another tick than the one issued before
/// it, its tick is the later one and its sequence field is 0.
pub proof fn lemma_sequence_resets_on_new_tick(
    layout: BitConfig,
    node: u32,
    state: TickState,
    clock: Seq<u64>,
    k: int,
)
    requires
        layout.wf(),
        node <= layout.max_node,
        reachable(layout, state),
        0 <= k,
        k + 1 < issued(layout, node, state, clock).len(),
        timestamp_field(issued(layout, node, state, clock)[k + 1]) != timestamp_field(
            issued(layout, node, state, clock)[k],
        ),
    ensures
        sequence_field(layout.sequence_bits(), issued(layout, node, state, clock)[k + 1]) == 0,
        timestamp_field(issued(layout, node, state, clock)[k + 1]) > timestamp_field(
            issued(layout, node, state, clock)[k],
        ),
{
    lemma_consecutive_issued(layout, node, state, clock, k);
}

/// When an identifier is issued in the same tick as the one issued before
/// it, its sequence field is greater by exactly one.
pub proof fn lemma_sequence_increments_within_tick(
    layout: BitConfig,
    node: u32,
    state: TickState,
    clock: Seq<u64>,
    k: int,
)
    requires
        layout.wf(),
        node <= layout.max_node,
        reachable(layout, state),
        0 <= k,
        k + 1 < issued(layout, node, state, clock).len(),
        timestamp_field(issued(layout, node, state, clock)[k + 1]) == timestamp_field(
            issued(layout, node, state, clock)[k],
        ),
    ensures
        sequence_field(layout.sequence_bits(), issued(layout, node, state, clock)[k + 1])
            == sequence_field(layout.sequence_bits(), issued(layout, node, state, clock)[k]) + 1,
{
    lemma_consecutive_issued(layout, node, state, clock, k);
}

} // verus!
