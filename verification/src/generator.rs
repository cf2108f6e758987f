//! The generator: a node identifier and, in one shared word, the tick and
//! the sequence number of the identifier issued last.

use crate::clock::relative_time;
use crate::clock::spec_checked_reading;
use crate::clock::spec_relative_time;
use crate::clock::since_unix_epoch;
use crate::clock::wall_clock_now;
use crate::clock::whole_millis;
use crate::clock::GenerateError;
use crate::config::TsidConfig;
use crate::config::DEFAULT_CUSTOM_EPOCH;
use crate::config::DEFAULT_NODE_BITS;
use crate::layout::lemma_fields_round_trip;
use crate::layout::lemma_layout_limits;
use crate::layout::lemma_mask_keeps_low_bits;
use crate::layout::lemma_pack_bits;
use crate::layout::lemma_unpack_bits;
use crate::layout::node_field;
use crate::layout::sequence_field;
use crate::layout::timestamp_field;
use crate::layout::BitConfig;
use crate::sequence::attempt;
use crate::sequence::comes_next;
use crate::sequence::in_tick_id;
use crate::sequence::last_issued;
use crate::sequence::lemma_attempt_fields;
use crate::sequence::reachable;
use crate::sequence::TickState;
use std::sync::atomic::AtomicU64;
use std::sync::atomic::Ordering;
use vstd::arithmetic::div_mod::lemma_mod_bound;
use vstd::arithmetic::div_mod::lemma_small_mod;
use vstd::arithmetic::power2::lemma2_to64;
use vstd::arithmetic::power2::lemma_pow2_pos;
use vstd::arithmetic::power2::pow2;
use vstd::prelude::*;

verus! {

/// Issues identifiers for one node. The state is shared by all callers of
/// one instance; a clone gets a state of its own.
pub struct TsidGenerator {
    node_id: u32,
    state: AtomicU64,
    config: TsidConfig,
    bit_config: BitConfig,
}

impl TsidGenerator {
    pub closed spec fn spec_node_id(&self) -> u32 {
        self.node_id
    }

    pub closed spec fn spec_config(&self) -> TsidConfig {
        self.config
    }

    pub closed spec fn spec_bit_config(&self) -> BitConfig {
        self.bit_config
    }

    /// The layout is the one the configuration asks for, and the node
    /// identifier fits its field.
    pub open spec fn wf(&self) -> bool {
        &&& self.spec_config().wf()
        &&& self.spec_bit_config().derived_from(self.spec_config())
        &&& self.spec_node_id() <= self.spec_bit_config().max_node
    }

    /// There is a state that a word can hold from which an attempt that
    /// reads the clock as `timestamp` issues `id`. Which state an attempt
    /// finds, the shared word decides.
    pub open spec fn some_state_issues(&self, timestamp: u64, id: u64) -> bool {
        exists|state: TickState|
            state.encodable() && #[trigger] attempt(
                self.spec_bit_config(),
                self.spec_node_id(),
                state,
                timestamp,
            ).1 == Some(id as nat)
    }

    /// `r` is what reading the clock can give at this generator's epoch:
    /// the timestamp of some reading, or an error where the reading lies
    /// before the Unix epoch or before the epoch.
    pub open spec fn clock_gives(&self, r: Result<u64, GenerateError>) -> bool {
        ||| r == Err::<u64, GenerateError>(GenerateError::ClockBeforeUnixEpoch)
        ||| exists|unix_millis: u128|
            r == #[trigger] spec_relative_time(unix_millis, self.spec_config().spec_custom_epoch())
    }

    /// There are a timestamp that the clock can give and that fits the
    /// timestamp field, and a state from which an attempt at that timestamp
    /// issues `id`.
    pub open spec fn some_reading_issues(&self, id: u64) -> bool {
        exists|timestamp: u64|
            self.checked_clock_gives(Ok::<u64, GenerateError>(timestamp))
                && #[trigger] self.some_state_issues(timestamp, id)
    }

    /// `r` is what checking some reading that the clock can give leaves.
    pub open spec fn checked_clock_gives(&self, r: Result<u64, GenerateError>) -> bool {
        exists|reading: Result<u64, GenerateError>|
            self.clock_gives(reading) && r == #[trigger] spec_checked_reading(
                self.spec_bit_config(),
                reading,
            )
    }

    /// An identifier that an attempt issues from any state has the
    /// generator's node identifier in its node field, a sequence field within
    /// the limit and a tick that is not before the clock reading.
    pub proof fn lemma_issued_fields(&self, timestamp: u64, id: u64)
        requires
            self.wf(),
            self.some_state_issues(timestamp, id),
        ensures
            node_field(self.spec_bit_config().sequence_bits(), id as nat) == self.spec_node_id(),
            sequence_field(self.spec_bit_config().sequence_bits(), id as nat)
                <= self.spec_bit_config().max_sequence,
            timestamp <= self.spec_bit_config().timestamp_mask,
    {
        let layout = self.spec_bit_config();
        let state: TickState = choose|state: TickState|
            state.encodable() && #[trigger] attempt(layout, self.spec_node_id(), state, timestamp).1
                == Some(id as nat);
        let (tick, sequence): (u64, u32) = match state {
            TickState::Fresh => (timestamp, 0u32),
            TickState::Issued { tick, sequence } => if timestamp > tick {
                (timestamp, 0u32)
            } else {
                (tick, (sequence + 1) as u32)
            },
        };
        assert(id == layout.pack(tick, self.spec_node_id(), sequence));
        lemma_pow2_pos(42);
        lemma_small_mod(self.spec_node_id() as nat, pow2(layout.node_bits()));
        lemma_small_mod(sequence as nat, pow2(layout.sequence_bits()));
        lemma_mod_bound(tick as int, pow2(42) as int);
        lemma_fields_round_trip(
            layout.sequence_bits(),
            tick as nat % pow2(42),
            self.spec_node_id() as nat,
            sequence as nat,
        );
    }

    /// What an attempt issues from `state` is issued from some state.
    pub proof fn lemma_attempt_issues(&self, state: TickState, timestamp: u64, id: u64)
        requires
            state.encodable(),
            attempt(self.spec_bit_config(), self.spec_node_id(), state, timestamp).1 == Some(id as nat),
        ensures
            self.some_state_issues(timestamp, id),
    {
    }

    /// Generators for different nodes that share a layout never issue the
    /// same identifier.
    pub proof fn lemma_nodes_do_not_collide(&self, other: &TsidGenerator, id: u64)
        requires
            self.wf(),
            other.wf(),
            self.spec_bit_config() == other.spec_bit_config(),
            self.spec_node_id() != other.spec_node_id(),
            exists|timestamp: u64| self.some_state_issues(timestamp, id),
        ensures
            forall|timestamp: u64| !other.some_state_issues(timestamp, id),
    {
        let mine: u64 = choose|timestamp: u64| self.some_state_issues(timestamp, id);
        self.lemma_issued_fields(mine, id);
        assert forall|timestamp: u64| !other.some_state_issues(timestamp, id) by {
            if other.some_state_issues(timestamp, id) {
                other.lemma_issued_fields(timestamp, id);
            }
        }
    }

    /// A generator for node `node_id` with the default configuration.
    pub fn new(node_id: u32) -> (generator: Self)
        requires
            node_id <= 1023,
        ensures
            generator.wf(),
            generator.spec_node_id() == node_id,
            generator.spec_config().spec_node_bits() == DEFAULT_NODE_BITS,
            generator.spec_config().spec_custom_epoch() == DEFAULT_CUSTOM_EPOCH,
    {
        proof {
            lemma2_to64();
        }
        Self::with_config(node_id, TsidConfig::default())
    }

    /// A generator for node `node_id` with the layout and epoch of `config`.
    /// No identifier has been issued yet: the state starts as `Fresh`.
    pub fn with_config(node_id: u32, config: TsidConfig) -> (generator: Self)
        requires
            config.wf(),
            node_id < pow2(config.spec_node_bits() as nat),
        ensures
            generator.wf(),
            generator.spec_node_id() == node_id,
            generator.spec_config() == config,
    {
        let bit_config = config.create_bit_config();
        Self {
            node_id,
            state: AtomicU64::new(0),
            config,
            bit_config,
        }
    }

    /// Packs `timestamp`, this generator's node identifier and `sequence`
    /// into an identifier. A timestamp or sequence wider than its field
    /// loses its high bits.
    pub fn create_tsid(&self, timestamp: u64, sequence: u32) -> (id: u64)
        requires
            self.wf(),
        ensures
            id == self.spec_bit_config().pack(timestamp, self.spec_node_id(), sequence),
    {
        let layout = self.bit_config;
        let timestamp_part: u64 = timestamp & layout.timestamp_mask;
        let node_part: u64 = (self.node_id as u64) & (layout.node_mask as u64);
        let sequence_part: u64 = (sequence as u64) & (layout.sequence_mask as u64);
        proof {
            lemma_mask_keeps_low_bits(timestamp, 42, layout.timestamp_mask);
            lemma_mask_keeps_low_bits(self.node_id as u64, layout.node_bits(), layout.node_mask as u64);
            lemma_mask_keeps_low_bits(
                sequence as u64,
                layout.sequence_bits(),
                layout.sequence_mask as u64,
            );
            lemma_pack_bits(layout, timestamp_part, node_part, sequence_part);
        }
        (timestamp_part << (layout.timestamp_shift as u64)) | ((node_part << (layout.node_shift as u64))
            | sequence_part)
    }

    /// The next identifier of the tick `tick` after sequence number
    /// `sequence`, or nothing once the tick's sequence space is used up.
    pub fn next_in_tick(&self, tick: u64, sequence: u32) -> (r: Option<u64>)
        requires
            self.wf(),
        ensures
            r matches Some(id) ==> Some(id as nat) == in_tick_id(
                self.spec_bit_config(),
                self.spec_node_id(),
                tick,
                sequence,
            ),
            r is None <==> sequence >= self.spec_bit_config().max_sequence,
    {
        if sequence < self.bit_config.max_sequence {
            Some(self.create_tsid(tick, sequence + 1))
        } else {
            None
        }
    }

    /// The wall clock as a timestamp: the milliseconds elapsed since the
    /// configured epoch. Fails when the clock is before the Unix epoch or
    /// before the configured epoch, or when its milliseconds do not fit 64
    /// bits.
    ///
    /// The result is what some reading of the clock gives at this
    /// generator's epoch; which reading, the clock decides.
    pub fn current_time(&self) -> (r: Result<u64, GenerateError>)
        ensures
            self.clock_gives(r),
            r matches Err(e) ==> e != GenerateError::ClockStalled,
    {
        let now = wall_clock_now();
        match since_unix_epoch(&now) {
            Ok(elapsed) => relative_time(whole_millis(&elapsed), self.config.custom_epoch()),
            Err(_) => Err(GenerateError::ClockBeforeUnixEpoch),
        }
    }

    /// Holds a reading of the clock against the timestamp field: a timestamp
    /// that does not fit it becomes `ClockBeyondRange`; any other reading,
    /// a timestamp or an error, stays what it is.
    pub fn checked_reading(&self, reading: Result<u64, GenerateError>) -> (r: Result<
        u64,
        GenerateError,
    >)
        requires
            self.wf(),
        ensures
            r == spec_checked_reading(self.spec_bit_config(), reading),
    {
        match reading {
            Ok(timestamp) => {
                if timestamp > self.bit_config.timestamp_mask {
                    Err(GenerateError::ClockBeyondRange)
                } else {
                    Ok(timestamp)
                }
            },
            Err(e) => Err(e),
        }
    }

    /// The step from one state to the next with the clock read as
    /// `timestamp`: the state after the attempt and the identifier it
    /// issues, if any. A reading that does not fit the timestamp field
    /// issues nothing; the first attempt and one whose reading is past the
    /// last tick issue sequence 0 of the new tick; otherwise the last tick
    /// stays current, also when the clock has moved back, and the attempt
    /// issues its next sequence number, or nothing once it is exhausted.
    ///
    /// A step that issues nothing leaves the state as it was. From a state
    /// that steps can reach, the identifier issued is greater than the one
    /// issued last before, has sequence 0 in a later tick or the next
    /// sequence number in the same tick, and is the last issued of the state
    /// that the step leaves.
    pub fn step(&self, state: TickState, timestamp: u64) -> (r: (TickState, Option<u64>))
        requires
            self.wf(),
        ensures
            r.0 == attempt(self.spec_bit_config(), self.spec_node_id(), state, timestamp).0,
            (match r.1 {
                Some(id) => Some(id as nat),
                None => None,
            }) == attempt(self.spec_bit_config(), self.spec_node_id(), state, timestamp).1,
            state.encodable() ==> r.0.encodable(),
            r.1 is None ==> r.0 == state,
            reachable(self.spec_bit_config(), state) ==> reachable(self.spec_bit_config(), r.0),
            reachable(self.spec_bit_config(), state) ==> (r.1 matches Some(id) ==> {
                &&& last_issued(self.spec_bit_config(), self.spec_node_id(), r.0) == Some(id as nat)
                &&& comes_next(self.spec_bit_config(), state, id as nat)
                &&& last_issued(self.spec_bit_config(), self.spec_node_id(), state) matches Some(
                    before,
                ) ==> before < id
            }),
    {
        proof {
            lemma_layout_limits(self.bit_config);
            if reachable(self.spec_bit_config(), state) {
                lemma_attempt_fields(self.spec_bit_config(), self.spec_node_id(), state, timestamp);
            }
        }
        if timestamp > self.bit_config.timestamp_mask {
            return (state, None);
        }
        match state {
            TickState::Fresh => (
                TickState::Issued { tick: timestamp, sequence: 0 },
                Some(self.create_tsid(timestamp, 0)),
            ),
            TickState::Issued { tick, sequence } => {
                if timestamp > tick {
                    (
                        TickState::Issued { tick: timestamp, sequence: 0 },
                        Some(self.create_tsid(timestamp, 0)),
                    )
                } else {
                    match self.next_in_tick(tick, sequence) {
                        Some(id) => (TickState::Issued { tick, sequence: sequence + 1 }, Some(id)),
                        None => (state, None),
                    }
                }
            },
        }
    }

    /// One attempt to issue an identifier, with the clock read as
    /// `timestamp`: reads the shared state, takes the step from it, and
    /// publishes the next state in place of the one read. Issues the step's
    /// identifier where that succeeds, and nothing where the step issues
    /// nothing or another caller changed the state in between.
    ///
    /// A timestamp that does not fit the timestamp field issues nothing.
    /// For the rest, which state is found the shared word decides, so the
    /// contract says what holds of any identifier that comes out: `step`
    /// issues it from some state at this timestamp. With callers that come
    /// one after another the state found is the state that the last step
    /// left.
    pub fn generate_at(&self, timestamp: u64) -> (r: Option<u64>)
        requires
            self.wf(),
        ensures
            r matches Some(id) ==> self.some_state_issues(timestamp, id),
            timestamp > self.spec_bit_config().timestamp_mask ==> r is None,
    {
        let word: u64 = self.state.load(Ordering::Acquire);
        let found = TickState::from_word(word);
        let (next, issued) = self.step(found, timestamp);
        match issued {
            Some(id) => {
                proof {
                    self.lemma_attempt_issues(found, timestamp, id);
                }
                match self.state.compare_exchange(
                    word,
                    next.to_word(),
                    Ordering::AcqRel,
                    Ordering::Acquire,
                ) {
                    Ok(_) => Some(id),
                    Err(_) => None,
                }
            },
            None => None,
        }
    }

    /// Issues an identifier: reads the clock and attempts, again and again
    /// until an identifier comes out, spinning while the current tick is
    /// exhausted and the clock has not moved on. Fails when the clock does
    /// or when its reading no longer fits the timestamp field; gives up with
    /// `ClockStalled` after `u64::MAX` attempts.
    ///
    /// Every identifier issued comes out of a step at a timestamp that the
    /// clock gave, and carries this generator's node identifier and a
    /// sequence number within the limit. Every error but `ClockStalled` is
    /// what `checked_reading` leaves of a reading; with the epoch at 0 none
    /// is `ClockBeforeCustomEpoch`.
    pub fn generate(&self) -> (r: Result<u64, GenerateError>)
        requires
            self.wf(),
        ensures
            r matches Err(e) ==> e == GenerateError::ClockStalled || self.checked_clock_gives(
                Err::<u64, GenerateError>(e),
            ),
            r == Err::<u64, GenerateError>(GenerateError::ClockBeforeCustomEpoch)
                ==> self.spec_config().spec_custom_epoch() > 0,
            r matches Ok(id) ==> {
                &&& self.some_reading_issues(id)
                &&& node_field(self.spec_bit_config().sequence_bits(), id as nat) == self.spec_node_id()
                &&& sequence_field(self.spec_bit_config().sequence_bits(), id as nat)
                    <= self.spec_bit_config().max_sequence
            },
    {
        let mut attempts_left: u64 = u64::MAX;
        while attempts_left > 0
            invariant
                self.wf(),
            decreases attempts_left,
        {
            attempts_left = attempts_left - 1;
            let reading = self.current_time();
            let timestamp: u64 = match self.checked_reading(reading) {
                Ok(timestamp) => timestamp,
                Err(e) => {
                    proof {
                        assert(self.checked_clock_gives(Err::<u64, GenerateError>(e)));
                    }
                    return Err(e);
                },
            };
            match self.generate_at(timestamp) {
                Some(id) => {
                    proof {
                        assert(self.checked_clock_gives(Ok::<u64, GenerateError>(timestamp)));
                        assert(self.some_state_issues(timestamp, id));
                        self.lemma_issued_fields(timestamp, id);
                    }
                    return Ok(id);
                },
                None => {},
            }
        }
        Err(GenerateError::ClockStalled)
    }

    /// Takes an identifier apart into timestamp, node and sequence. Every
    /// 64-bit value has the three fields.
    pub fn extract_from_tsid(&self, tsid: u64) -> (fields: (u64, u32, u32))
        requires
            self.wf(),
        ensures
            fields.0 == timestamp_field(tsid as nat),
            fields.1 == node_field(self.spec_bit_config().sequence_bits(), tsid as nat),
            fields.2 == sequence_field(self.spec_bit_config().sequence_bits(), tsid as nat),
            fields.1 <= self.spec_bit_config().max_node,
            fields.2 <= self.spec_bit_config().max_sequence,
    {
        (self.extract_timestamp(tsid), self.extract_node(tsid), self.extract_sequence(tsid))
    }

    /// The timestamp field of `tsid`.
    pub fn extract_timestamp(&self, tsid: u64) -> (timestamp: u64)
        requires
            self.wf(),
        ensures
            timestamp == timestamp_field(tsid as nat),
            timestamp < pow2(42),
    {
        proof {
            lemma_unpack_bits(self.bit_config, tsid);
        }
        (tsid >> (self.bit_config.timestamp_shift as u64)) & self.bit_config.timestamp_mask
    }

    /// The node field of `tsid`.
    pub fn extract_node(&self, tsid: u64) -> (node: u32)
        requires
            self.wf(),
        ensures
            node == node_field(self.spec_bit_config().sequence_bits(), tsid as nat),
            node <= self.spec_bit_config().max_node,
    {
        proof {
            lemma_unpack_bits(self.bit_config, tsid);
        }
        ((tsid >> (self.bit_config.node_shift as u64)) & (self.bit_config.node_mask as u64)) as u32
    }

    /// The sequence field of `tsid`.
    pub fn extract_sequence(&self, tsid: u64) -> (sequence: u32)
        requires
            self.wf(),
        ensures
            sequence == sequence_field(self.spec_bit_config().sequence_bits(), tsid as nat),
            sequence <= self.spec_bit_config().max_sequence,
    {
        proof {
            lemma_unpack_bits(self.bit_config, tsid);
        }
        (tsid & (self.bit_config.sequence_mask as u64)) as u32
    }

    /// The largest node identifier that the layout can hold.
    pub fn max_node_id(&self) -> (max: u32)
        ensures
            max == self.spec_bit_config().max_node,
    {
        self.bit_config.max_node
    }

    /// The largest sequence number that the layout can hold.
    pub fn max_sequence(&self) -> (max: u32)
        ensures
            max == self.spec_bit_config().max_sequence,
    {
        self.bit_config.max_sequence
    }

    #[verifier::when_used_as_spec(spec_config)]
    pub fn config(&self) -> (config: TsidConfig)
        ensures
            config == self.spec_config(),
    {
        self.config
    }

    #[verifier::when_used_as_spec(spec_bit_config)]
    pub fn bit_config(&self) -> (layout: BitConfig)
        ensures
            layout == self.spec_bit_config(),
    {
        self.bit_config
    }

    #[verifier::when_used_as_spec(spec_node_id)]
    pub fn node_id(&self) -> (node: u32)
        ensures
            node == self.spec_node_id(),
    {
        self.node_id
    }
}

impl Clone for TsidGenerator {
    /// A generator with the same node and configuration, and a state of its
    /// own that starts as the current state of this one: the two no longer
    /// see each other's identifiers.
    fn clone(&self) -> (copy: Self)
        ensures
            copy.spec_node_id() == self.spec_node_id(),
            copy.spec_config() == self.spec_config(),
            copy.spec_bit_config() == self.spec_bit_config(),
    {
        Self {
            node_id: self.node_id,
            state: AtomicU64::new(self.state.load(Ordering::Relaxed)),
            config: self.config,
            bit_config: self.bit_config,
        }
    }
}

} // verus!
