//! Time-ordered 64-bit identifiers.
//!
//! A key packs, from the most significant bit down: one zero bit, 41 bits of
//! milliseconds elapsed since [`EPOCH`], 5 bits of datacenter id, 5 bits of
//! worker id and a 12-bit counter that tells apart the keys of one
//! millisecond. A generator hands out strictly increasing keys, so the keys
//! of one generator never repeat.

use std::time::{Duration, SystemTime, SystemTimeError, UNIX_EPOCH};
use crate::external_id::{
    external_id, is_alphanumeric_text, prefixed_id, random_suffix, ID_SUFFIX_LEN,
};
use vstd::prelude::*;
use vstd::rwlock::{RwLock, RwLockPredicate};

verus! {

/// Milliseconds between the Unix epoch and the instant that key timestamps count from.
pub const EPOCH: u64 = 1640995200000;

pub const WORKER_ID_BITS: u64 = 5;

pub const DATACENTER_ID_BITS: u64 = 5;

pub const SEQUENCE_BITS: u64 = 12;

pub const MAX_WORKER_ID: u64 = 31;

pub const MAX_DATACENTER_ID: u64 = 31;

pub const MAX_SEQUENCE: u64 = 4095;

pub const WORKER_ID_SHIFT: u64 = 12;

pub const DATACENTER_ID_SHIFT: u64 = 17;

pub const TIMESTAMP_SHIFT: u64 = 22;

/// The largest number of elapsed milliseconds that fits the 41-bit timestamp field.
pub const MAX_ELAPSED: u64 = 0x1ff_ffff_ffff;

/// Whether a wall-clock reading, in milliseconds since the Unix epoch, fits the timestamp field.
pub open spec fn timestamp_in_range(timestamp: nat) -> bool {
    EPOCH <= timestamp <= EPOCH + MAX_ELAPSED
}

/// The key made of the four fields, as a number.
pub open spec fn snowflake_key(
    timestamp: nat,
    datacenter_id: nat,
    worker_id: nat,
    sequence: nat,
) -> int {
    (timestamp - EPOCH) * 0x40_0000 + datacenter_id * 0x2_0000 + worker_id * 0x1000 + sequence
}

/// The counter field of a key.
pub open spec fn key_sequence(key: int) -> int {
    key % 0x1000
}

/// The worker field of a key.
pub open spec fn key_worker_id(key: int) -> int {
    (key / 0x1000) % 32
}

/// The datacenter field of a key.
pub open spec fn key_datacenter_id(key: int) -> int {
    (key / 0x2_0000) % 32
}

/// The wall-clock millisecond that a key was made in.
pub open spec fn key_timestamp(key: int) -> int {
    key / 0x40_0000 + EPOCH
}

/// Whether four numbers fit the four fields of a key.
pub open spec fn fields_in_range(
    timestamp: nat,
    datacenter_id: nat,
    worker_id: nat,
    sequence: nat,
) -> bool {
    &&& timestamp_in_range(timestamp)
    &&& datacenter_id <= MAX_DATACENTER_ID
    &&& worker_id <= MAX_WORKER_ID
    &&& sequence <= MAX_SEQUENCE
}

/// A key is never negative and fits 63 bits.
pub proof fn key_is_non_negative(timestamp: nat, datacenter_id: nat, worker_id: nat, sequence: nat)
    requires
        fields_in_range(timestamp, datacenter_id, worker_id, sequence),
    ensures
        0 <= snowflake_key(timestamp, datacenter_id, worker_id, sequence) <= i64::MAX,
        snowflake_key(timestamp, datacenter_id, worker_id, sequence) == 0 <==> timestamp == EPOCH
            && datacenter_id == 0 && worker_id == 0 && sequence == 0,
{
}

/// Taking a key apart gives back the four fields it was made of.
pub proof fn key_fields_round_trip(
    timestamp: nat,
    datacenter_id: nat,
    worker_id: nat,
    sequence: nat,
)
    requires
        fields_in_range(timestamp, datacenter_id, worker_id, sequence),
    ensures
        key_timestamp(snowflake_key(timestamp, datacenter_id, worker_id, sequence)) == timestamp,
        key_datacenter_id(snowflake_key(timestamp, datacenter_id, worker_id, sequence))
            == datacenter_id,
        key_worker_id(snowflake_key(timestamp, datacenter_id, worker_id, sequence)) == worker_id,
        key_sequence(snowflake_key(timestamp, datacenter_id, worker_id, sequence)) == sequence,
{
}

/// The fields of a key are what shifting and masking its bits reads:
/// the low 12 bits hold the counter, the next 5 the worker id, the next 5
/// the datacenter id, and the bits above them the elapsed milliseconds.
pub proof fn key_fields_are_bit_fields(
    key: i64,
    timestamp: nat,
    datacenter_id: nat,
    worker_id: nat,
    sequence: nat,
)
    requires
        fields_in_range(timestamp, datacenter_id, worker_id, sequence),
        key == snowflake_key(timestamp, datacenter_id, worker_id, sequence),
    ensures
        key & 0xfff == sequence,
        (key >> 12) & 0x1f == worker_id,
        (key >> 17) & 0x1f == datacenter_id,
        key >> 22 == timestamp - EPOCH,
{
    let e: u64 = (timestamp - EPOCH) as u64;
    let d: u64 = datacenter_id as u64;
    let w: u64 = worker_id as u64;
    let s: u64 = sequence as u64;
    let k: u64 = key as u64;
    assert(k == e * 0x40_0000 + d * 0x2_0000 + w * 0x1000 + s);
    assert(k & 0xfff == s && (k >> 12) & 0x1f == w && (k >> 17) & 0x1f == d && k >> 22 == e)
        by (bit_vector)
        requires
            e <= 0x1ff_ffff_ffff,
            d <= 31,
            w <= 31,
            s <= 4095,
            k == e * 0x40_0000 + d * 0x2_0000 + w * 0x1000 + s,
    ;
    assert(key & 0xfff == k & 0xfff && (key >> 12) & 0x1f == (k >> 12) & 0x1f && (key >> 17) & 0x1f
        == (k >> 17) & 0x1f && key >> 22 == k >> 22) by (bit_vector)
        requires
            key >= 0,
            k == key as u64,
    ;
}

/// Of two keys of one worker, the one with the later millisecond is the
/// greater, and within one millisecond the one with the greater counter.
pub proof fn key_order(
    datacenter_id: nat,
    worker_id: nat,
    timestamp1: nat,
    sequence1: nat,
    timestamp2: nat,
    sequence2: nat,
)
    requires
        fields_in_range(timestamp1, datacenter_id, worker_id, sequence1),
        fields_in_range(timestamp2, datacenter_id, worker_id, sequence2),
        timestamp1 < timestamp2 || (timestamp1 == timestamp2 && sequence1 < sequence2),
    ensures
        snowflake_key(timestamp1, datacenter_id, worker_id, sequence1) < snowflake_key(
            timestamp2,
            datacenter_id,
            worker_id,
            sequence2,
        ),
{
}

/// Why a generator could not be made.
#[derive(Debug, Clone, Copy, PartialEq, Eq, Structural)]
pub enum ConfigError {
    /// The worker id does not fit its 5 bits.
    WorkerIdOutOfRange,
    /// The datacenter id does not fit its 5 bits.
    DatacenterIdOutOfRange,
}

impl ConfigError {
    /// What [`ConfigError::message`] returns, as a sequence of characters.
    pub open spec fn spec_message(self) -> Seq<char> {
        match self {
            ConfigError::WorkerIdOutOfRange => "Worker ID must be between 0 and 31"@,
            ConfigError::DatacenterIdOutOfRange => "Datacenter ID must be between 0 and 31"@,
        }
    }

    /// The error in words.
    pub fn message(&self) -> (text: String)
        ensures
            text@ == self.spec_message(),
    {
        match self {
            ConfigError::WorkerIdOutOfRange => "Worker ID must be between 0 and 31".to_string(),
            ConfigError::DatacenterIdOutOfRange => "Datacenter ID must be between 0 and 31".to_string(),
        }
    }
}

/// Why no key was issued. The generator is left as it was.
#[derive(Debug, Clone, Copy, PartialEq, Eq, Structural)]
pub enum ClockError {
    /// The clock reads earlier than the millisecond of the last key.
    Regression,
    /// The clock reads a time before the Unix epoch.
    Unavailable,
    /// The clock reads a millisecond that the 41-bit timestamp field cannot hold.
    OutOfRange,
    /// The counter of the current millisecond was used up and the clock did
    /// not move on within [`MAX_CLOCK_READS`] readings.
    Stalled,
}

impl ClockError {
    /// What [`ClockError::message`] returns, as a sequence of characters.
    pub open spec fn spec_message(self) -> Seq<char> {
        match self {
            ClockError::Regression => "Clock moved backwards"@,
            ClockError::Unavailable => "Failed to get system time"@,
            ClockError::OutOfRange => "System time is outside the range of the timestamp field"@,
            ClockError::Stalled => "Clock did not advance"@,
        }
    }

    /// The error in words.
    pub fn message(&self) -> (text: String)
        ensures
            text@ == self.spec_message(),
    {
        match self {
            ClockError::Regression => "Clock moved backwards".to_string(),
            ClockError::Unavailable => "Failed to get system time".to_string(),
            ClockError::OutOfRange => "System time is outside the range of the timestamp field".to_string(),
            ClockError::Stalled => "Clock did not advance".to_string(),
        }
    }
}

/// How often [`SnowflakeGenerator::generate`] reads the clock again, once
/// the counter of a millisecond is used up, before it gives up.
pub const MAX_CLOCK_READS: u64 = 0xffff_ffff_ffff_ffff;

/// What a generator is, to its callers.
pub ghost struct GeneratorState {
    pub worker_id: nat,
    pub datacenter_id: nat,
    /// The counter of the last key.
    pub sequence: nat,
    /// The millisecond of the last key; 0 while no key was issued.
    pub last_timestamp: nat,
    /// Every key issued so far, oldest first.
    pub issued: Seq<i64>,
}

impl GeneratorState {
    /// The state of a generator before its first key.
    pub open spec fn fresh(worker_id: nat, datacenter_id: nat) -> GeneratorState {
        GeneratorState {
            worker_id,
            datacenter_id,
            sequence: 0,
            last_timestamp: 0,
            issued: Seq::empty(),
        }
    }

    /// What every generator satisfies: the ids fit their fields, the last
    /// key is the one made of the recorded millisecond and counter, and the
    /// issued keys strictly increase.
    pub open spec fn valid(self) -> bool {
        &&& self.worker_id <= MAX_WORKER_ID
        &&& self.datacenter_id <= MAX_DATACENTER_ID
        &&& self.sequence <= MAX_SEQUENCE
        &&& if self.issued.len() == 0 {
            self.last_timestamp == 0 && self.sequence == 0
        } else {
            &&& timestamp_in_range(self.last_timestamp)
            &&& self.issued.last() == snowflake_key(
                self.last_timestamp,
                self.datacenter_id,
                self.worker_id,
                self.sequence,
            )
        }
        &&& forall|i: int, j: int|
            0 <= i < j < self.issued.len() ==> self.issued[i] < self.issued[j]
    }

    /// Whether the counter of the millisecond `now` is used up.
    pub open spec fn exhausted_at(self, now: nat) -> bool {
        now == self.last_timestamp && self.sequence == MAX_SEQUENCE
    }

    /// The counter of a key issued in the millisecond `now`.
    pub open spec fn sequence_at(self, now: nat) -> nat {
        if now == self.last_timestamp {
            self.sequence + 1
        } else {
            0
        }
    }

    /// The key issued in the millisecond `now`.
    pub open spec fn key_at(self, now: nat) -> int {
        snowflake_key(now, self.datacenter_id, self.worker_id, self.sequence_at(now))
    }

    /// Whether a key can be issued in the millisecond `now`.
    pub open spec fn can_issue_at(self, now: nat) -> bool {
        &&& self.last_timestamp <= now
        &&& timestamp_in_range(now)
        &&& !self.exhausted_at(now)
    }

    /// The state after the key of the millisecond `now` was issued.
    pub open spec fn issue_at(self, now: nat) -> GeneratorState {
        GeneratorState {
            worker_id: self.worker_id,
            datacenter_id: self.datacenter_id,
            sequence: self.sequence_at(now),
            last_timestamp: now,
            issued: self.issued.push(self.key_at(now) as i64),
        }
    }
}

/// Issuing a key keeps a generator valid, and the key is greater than
/// every key issued before it.
pub proof fn issue_keeps_order(state: GeneratorState, now: nat)
    requires
        state.valid(),
        state.can_issue_at(now),
    ensures
        state.issue_at(now).valid(),
        0 <= state.key_at(now) <= i64::MAX,
        forall|i: int| 0 <= i < state.issued.len() ==> state.issued[i] < state.key_at(now),
{
    let next = state.issue_at(now);
    key_is_non_negative(now, state.datacenter_id, state.worker_id, state.sequence_at(now));
    if state.issued.len() > 0 {
        key_order(
            state.datacenter_id,
            state.worker_id,
            state.last_timestamp,
            state.sequence,
            now,
            state.sequence_at(now),
        );
    }
    assert(next.issued.last() == state.key_at(now));
    assert forall|i: int, j: int| 0 <= i < j < next.issued.len() implies next.issued[i]
        < next.issued[j] by {
        if j == state.issued.len() && i < state.issued.len() {
            assert(state.issued[i] <= state.issued.last());
        }
    }
}

/// No key is issued twice: the keys that a generator has issued are
/// pairwise distinct, and each is greater than the one before it.
pub proof fn issued_keys_are_distinct(state: GeneratorState)
    requires
        state.valid(),
    ensures
        forall|i: int, j: int|
            0 <= i < state.issued.len() && 0 <= j < state.issued.len() && i != j
                ==> state.issued[i] != state.issued[j],
        forall|i: int|
            0 <= i && i + 1 < state.issued.len() ==> state.issued[i] < #[trigger] state.issued[i + 1],
{
    assert forall|i: int, j: int|
        0 <= i < state.issued.len() && 0 <= j < state.issued.len() && i != j implies state.issued[i]
        != state.issued[j] by {
        if i < j {
            assert(state.issued[i] < state.issued[j]);
        } else {
            assert(state.issued[j] < state.issued[i]);
        }
    }
}

/// Every key that a generator has issued carries the generator's worker
/// and datacenter ids.
pub proof fn issued_key_carries_ids(state: GeneratorState, now: nat)
    requires
        state.valid(),
        state.can_issue_at(now),
    ensures
        key_worker_id(state.key_at(now)) == state.worker_id,
        key_datacenter_id(state.key_at(now)) == state.datacenter_id,
        key_timestamp(state.key_at(now)) == now,
        key_sequence(state.key_at(now)) == state.sequence_at(now),
{
    key_fields_round_trip(now, state.datacenter_id, state.worker_id, state.sequence_at(now));
}

/// `std::time::SystemTime`, a reading of the wall clock. Nothing is
/// known of what a value holds.
#[verifier::external_type_specification]
#[verifier::external_body]
pub struct ExSystemTime(SystemTime);

/// `std::time::SystemTimeError`, what `SystemTime::duration_since` fails
/// with. Nothing is known of what a value holds.
#[verifier::external_type_specification]
#[verifier::external_body]
pub struct ExSystemTimeError(SystemTimeError);

/// `SystemTime::now` reads the wall clock. Nothing is claimed of the
/// reading.
pub assume_specification[ SystemTime::now ]() -> SystemTime;

/// `Duration::as_millis` gives the whole milliseconds of a duration.
/// Nothing is claimed of the number.
pub assume_specification[ Duration::as_millis ](duration: &Duration) -> u128;

/// `SystemTime::duration_since`, with the Unix epoch as the earlier
/// instant: the time between the two, or an error where `time` lies before
/// the epoch. Nothing is claimed of which of the two comes back.
#[verifier::external_body]
fn since_unix_epoch(time: &SystemTime) -> Result<Duration, SystemTimeError> {
    time.duration_since(UNIX_EPOCH)
}

/// The source of keys for one worker of one datacenter.
pub struct SnowflakeGenerator {
    worker_id: u64,
    datacenter_id: u64,
    sequence: u64,
    last_timestamp: u64,
    issued: Ghost<Seq<i64>>,
}

impl View for SnowflakeGenerator {
    type V = GeneratorState;

    closed spec fn view(&self) -> GeneratorState {
        GeneratorState {
            worker_id: self.worker_id as nat,
            datacenter_id: self.datacenter_id as nat,
            sequence: self.sequence as nat,
            last_timestamp: self.last_timestamp as nat,
            issued: self.issued@,
        }
    }
}

impl SnowflakeGenerator {
    #[verifier::type_invariant]
    spec fn well_formed(&self) -> bool {
        self@.valid()
    }

    /// A generator that has issued no key yet. The ids must fit 5 bits
    /// each; the worker id is looked at first.
    pub fn new(worker_id: u64, datacenter_id: u64) -> (made: Result<Self, ConfigError>)
        ensures
            match made {
                Ok(generator) => {
                    &&& worker_id <= MAX_WORKER_ID
                    &&& datacenter_id <= MAX_DATACENTER_ID
                    &&& generator@ == GeneratorState::fresh(worker_id as nat, datacenter_id as nat)
                    &&& generator@.valid()
                },
                Err(ConfigError::WorkerIdOutOfRange) => worker_id > MAX_WORKER_ID,
                Err(ConfigError::DatacenterIdOutOfRange) => worker_id <= MAX_WORKER_ID
                    && datacenter_id > MAX_DATACENTER_ID,
            },
    {
        if worker_id > MAX_WORKER_ID {
            return Err(ConfigError::WorkerIdOutOfRange);
        }
        if datacenter_id > MAX_DATACENTER_ID {
            return Err(ConfigError::DatacenterIdOutOfRange);
        }
        Ok(
            SnowflakeGenerator {
                worker_id,
                datacenter_id,
                sequence: 0,
                last_timestamp: 0,
                issued: Ghost(Seq::empty()),
            },
        )
    }

    /// The next key, where the clock reads `now` milliseconds since the
    /// Unix epoch. `Ok(None)` says that the counter of this millisecond is
    /// used up: the caller is to come back with a later reading.
    pub fn generate_at(&mut self, now: u64) -> (outcome: Result<Option<i64>, ClockError>)
        ensures
            final(self)@.valid(),
            match outcome {
                Ok(Some(key)) => {
                    &&& old(self)@.can_issue_at(now as nat)
                    &&& key == old(self)@.key_at(now as nat)
                    &&& final(self)@ == old(self)@.issue_at(now as nat)
                },
                Ok(None) => {
                    &&& timestamp_in_range(now as nat)
                    &&& old(self)@.exhausted_at(now as nat)
                    &&& final(self)@ == old(self)@
                },
                Err(ClockError::Regression) => {
                    &&& now < old(self)@.last_timestamp
                    &&& final(self)@ == old(self)@
                },
                Err(ClockError::OutOfRange) => {
                    &&& old(self)@.last_timestamp <= now
                    &&& !timestamp_in_range(now as nat)
                    &&& final(self)@ == old(self)@
                },
                Err(_) => false,
            },
    {
        proof {
            use_type_invariant(&*self);
        }
        if now == self.last_timestamp && self.sequence == MAX_SEQUENCE {
            return Ok(None);
        }
        match self.issue(now) {
            Ok(key) => Ok(Some(key)),
            Err(error) => Err(error),
        }
    }

    /// The next key, by the wall clock. Where the counter of the current
    /// millisecond is used up, waits for the next millisecond. The key is
    /// greater than every key that this generator issued before, and it
    /// carries the ids of the generator.
    pub fn generate(&mut self) -> (outcome: Result<i64, ClockError>)
        ensures
            final(self)@.valid(),
            match outcome {
                Ok(key) => {
                    &&& old(self)@.can_issue_at(final(self)@.last_timestamp)
                    &&& key == old(self)@.key_at(final(self)@.last_timestamp)
                    &&& final(self)@ == old(self)@.issue_at(final(self)@.last_timestamp)
                    &&& forall|i: int|
                        0 <= i < old(self)@.issued.len() ==> old(self)@.issued[i] < key
                    &&& key >= 0
                    &&& key_worker_id(key as int) == old(self)@.worker_id
                    &&& key_datacenter_id(key as int) == old(self)@.datacenter_id
                },
                Err(error) => {
                    &&& final(self)@ == old(self)@
                    &&& error == ClockError::Stalled ==> old(self)@.sequence == MAX_SEQUENCE
                    &&& error == ClockError::Regression ==> old(self)@.issued.len() > 0
                },
            },
    {
        proof {
            use_type_invariant(&*self);
        }
        let mut timestamp = match self.current_timestamp() {
            Ok(timestamp) => timestamp,
            Err(error) => {
                return Err(error);
            },
        };
        if timestamp == self.last_timestamp && self.sequence == MAX_SEQUENCE {
            timestamp = match self.wait_next_millis(self.last_timestamp) {
                Ok(timestamp) => timestamp,
                Err(error) => {
                    return Err(error);
                },
            };
        }
        let outcome = self.issue(timestamp);
        proof {
            if outcome is Ok {
                issue_keeps_order(old(self)@, timestamp as nat);
                issued_key_carries_ids(old(self)@, timestamp as nat);
            }
        }
        outcome
    }

    /// The key of the millisecond `now`, whose counter is not used up.
    fn issue(&mut self, now: u64) -> (outcome: Result<i64, ClockError>)
        requires
            !old(self)@.exhausted_at(now as nat),
        ensures
            final(self)@.valid(),
            match outcome {
                Ok(key) => {
                    &&& old(self)@.can_issue_at(now as nat)
                    &&& key == old(self)@.key_at(now as nat)
                    &&& final(self)@ == old(self)@.issue_at(now as nat)
                },
                Err(ClockError::Regression) => {
                    &&& now < old(self)@.last_timestamp
                    &&& final(self)@ == old(self)@
                },
                Err(ClockError::OutOfRange) => {
                    &&& old(self)@.last_timestamp <= now
                    &&& !timestamp_in_range(now as nat)
                    &&& final(self)@ == old(self)@
                },
                Err(_) => false,
            },
    {
        proof {
            use_type_invariant(&*self);
        }
        if now < self.last_timestamp {
            return Err(ClockError::Regression);
        }
        if now < EPOCH || now - EPOCH > MAX_ELAPSED {
            return Err(ClockError::OutOfRange);
        }
        let sequence: u64 = if now == self.last_timestamp {
            self.sequence + 1
        } else {
            0
        };
        proof {
            issue_keeps_order(self@, now as nat);
        }
        let key = compose(now, self.datacenter_id, self.worker_id, sequence);
        *self = SnowflakeGenerator {
            worker_id: self.worker_id,
            datacenter_id: self.datacenter_id,
            sequence,
            last_timestamp: now,
            issued: Ghost(self.issued@.push(key)),
        };
        Ok(key)
    }

    /// The wall clock, in milliseconds since the Unix epoch.
    fn current_timestamp(&self) -> (reading: Result<u64, ClockError>)
        ensures
            reading matches Err(error) ==> error == ClockError::Unavailable,
    {
        let now = SystemTime::now();
        match since_unix_epoch(&now) {
            Ok(elapsed) => Ok(elapsed.as_millis() as u64),
            Err(_) => Err(ClockError::Unavailable),
        }
    }

    /// Reads the clock until it is past `last_timestamp`, at most
    /// [`MAX_CLOCK_READS`] times after the first reading.
    fn wait_next_millis(&self, last_timestamp: u64) -> (reading: Result<u64, ClockError>)
        ensures
            match reading {
                Ok(timestamp) => timestamp > last_timestamp,
                Err(error) => error == ClockError::Unavailable || error == ClockError::Stalled,
            },
    {
        let mut timestamp = match self.current_timestamp() {
            Ok(timestamp) => timestamp,
            Err(error) => {
                return Err(error);
            },
        };
        let mut reads_left: u64 = MAX_CLOCK_READS;
        while timestamp <= last_timestamp
            decreases reads_left,
        {
            if reads_left == 0 {
                return Err(ClockError::Stalled);
            }
            reads_left = reads_left - 1;
            timestamp = match self.current_timestamp() {
                Ok(timestamp) => timestamp,
                Err(error) => {
                    return Err(error);
                },
            };
        }
        Ok(timestamp)
    }
}

/// Packs the four fields into a key.
fn compose(timestamp: u64, datacenter_id: u64, worker_id: u64, sequence: u64) -> (key: i64)
    requires
        fields_in_range(timestamp as nat, datacenter_id as nat, worker_id as nat, sequence as nat),
    ensures
        key == snowflake_key(timestamp as nat, datacenter_id as nat, worker_id as nat, sequence as nat),
{
    let elapsed: u64 = timestamp - EPOCH;
    let id: u64 = (elapsed << TIMESTAMP_SHIFT) | (datacenter_id << DATACENTER_ID_SHIFT) | (worker_id
        << WORKER_ID_SHIFT) | sequence;
    assert(id == elapsed * 0x40_0000 + datacenter_id * 0x2_0000 + worker_id * 0x1000 + sequence
        && id <= 0x7fff_ffff_ffff_ffff) by (bit_vector)
        requires
            elapsed <= 0x1ff_ffff_ffff,
            datacenter_id <= 31,
            worker_id <= 31,
            sequence <= 4095,
            id == (elapsed << 22) | (datacenter_id << 17) | (worker_id << 12) | sequence,
    ;
    id as i64
}

/// What a shared generator keeps fixed while its callers take turns: the
/// two ids that it was made with.
pub struct Configured {
    pub worker_id: u64,
    pub datacenter_id: u64,
}

impl RwLockPredicate<SnowflakeGenerator> for Configured {
    open spec fn inv(self, generator: SnowflakeGenerator) -> bool {
        &&& generator@.valid()
        &&& generator@.worker_id == self.worker_id
        &&& generator@.datacenter_id == self.datacenter_id
    }
}

/// A generator that many callers share. One call of `generate` runs from
/// its clock reading to its key before the next one starts.
pub struct SnowflakeGeneratorWrapper(RwLock<SnowflakeGenerator, Configured>);

impl SnowflakeGeneratorWrapper {
    /// The worker id that every key of this generator carries.
    pub closed spec fn worker_id(&self) -> nat {
        self.0.pred().worker_id as nat
    }

    /// The datacenter id that every key of this generator carries.
    pub closed spec fn datacenter_id(&self) -> nat {
        self.0.pred().datacenter_id as nat
    }

    /// A shared generator that has issued no key yet; fails where
    /// [`SnowflakeGenerator::new`] fails.
    pub fn new(worker_id: u64, datacenter_id: u64) -> (made: Result<Self, ConfigError>)
        ensures
            match made {
                Ok(shared) => {
                    &&& worker_id <= MAX_WORKER_ID
                    &&& datacenter_id <= MAX_DATACENTER_ID
                    &&& shared.worker_id() == worker_id
                    &&& shared.datacenter_id() == datacenter_id
                },
                Err(ConfigError::WorkerIdOutOfRange) => worker_id > MAX_WORKER_ID,
                Err(ConfigError::DatacenterIdOutOfRange) => worker_id <= MAX_WORKER_ID
                    && datacenter_id > MAX_DATACENTER_ID,
            },
    {
        match SnowflakeGenerator::new(worker_id, datacenter_id) {
            Ok(generator) => Ok(
                SnowflakeGeneratorWrapper(
                    RwLock::new(generator, Ghost(Configured { worker_id, datacenter_id })),
                ),
            ),
            Err(error) => Err(error),
        }
    }

    /// The next key of the shared generator. The caller waits until it
    /// holds the generator alone, takes one key as
    /// [`SnowflakeGenerator::generate`] does, and lets go.
    pub fn generate(&self) -> (outcome: Result<i64, ClockError>)
        ensures
            outcome matches Ok(key) ==> {
                &&& key >= 0
                &&& key_worker_id(key as int) == self.worker_id()
                &&& key_datacenter_id(key as int) == self.datacenter_id()
            },
    {
        let (mut generator, handle) = self.0.acquire_write();
        let outcome = generator.generate();
        handle.release_write(generator);
        outcome
    }
}

/// A fresh external id for the entity with the key `oid`: the prefix, an
/// underscore, the key in lowercase hexadecimal and 20 random letters and
/// digits.
pub fn generate_prefixed_id(prefix: &str, oid: i64) -> (id: String)
    ensures
        exists|suffix: Seq<char>|
            is_alphanumeric_text(suffix, ID_SUFFIX_LEN as nat) && id@ == #[trigger] external_id(
                prefix@,
                oid,
                suffix,
            ),
{
    let suffix = random_suffix();
    prefixed_id(prefix, oid, suffix.as_str())
}

} // verus!
