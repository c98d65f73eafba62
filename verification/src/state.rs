//! Storage for the device's latest known input and measurement states.
//!
//! Each store is a fixed array of slots. A slot is empty or holds the latest
//! record for one key, and no two slots hold the same key, so repeated
//! updates of one key are coalesced into one slot. A slot whose record
//! changed is dirty until the change has been taken.

use crate::events::{BinaryInputId, BinaryState, Measurement};
use vstd::prelude::*;

verus! {

/// A sensor measurement paired with the device tick when it was captured.
#[derive(Clone, Copy, Debug, PartialEq, Eq, Structural)]
pub struct TimestampedMeasurement {
    /// The device tick when the measurement was captured.
    pub ticks: u32,
    /// The captured sensor measurement.
    pub measurement: Measurement,
}

/// The latest known state of a binary input.
#[derive(Clone, Copy, Debug, PartialEq, Eq, Structural)]
pub struct BinaryInputState {
    /// Identifies the binary input.
    pub input: BinaryInputId,
    /// The input's latest stable state.
    pub state: BinaryState,
}

/// Two binary-input records are kept in one slot when they name the same input.
pub open spec fn input_key() -> spec_fn(BinaryInputState, BinaryInputState) -> bool {
    |a: BinaryInputState, b: BinaryInputState| a.input == b.input
}

/// A binary-input update is a change when the state differs.
pub open spec fn input_value() -> spec_fn(BinaryInputState, BinaryInputState) -> bool {
    |a: BinaryInputState, b: BinaryInputState| a.state == b.state
}

/// Two measurements are kept in one slot when they name the same sensor and field.
pub open spec fn measurement_key() -> spec_fn(TimestampedMeasurement, TimestampedMeasurement) -> bool {
    |a: TimestampedMeasurement, b: TimestampedMeasurement|
        a.measurement.sensor == b.measurement.sensor && a.measurement.field
            == b.measurement.field
}

/// A measurement update is a change when the measured value differs; the
/// tick at which it was captured does not count.
pub open spec fn measurement_value() -> spec_fn(TimestampedMeasurement, TimestampedMeasurement) -> bool {
    |a: TimestampedMeasurement, b: TimestampedMeasurement| a.measurement.value == b.measurement.value
}

/// `slot` holds a record with the key of `new`.
pub open spec fn holds_key<A>(slot: Option<A>, new: A, same_key: spec_fn(A, A) -> bool) -> bool {
    slot matches Some(current) && same_key(current, new)
}

/// Some slot holds a record with the key of `new`.
pub open spec fn has_key<A>(slots: Seq<Option<A>>, new: A, same_key: spec_fn(A, A) -> bool) -> bool {
    exists|i: int| 0 <= i < slots.len() && holds_key(#[trigger] slots[i], new, same_key)
}

/// The slot that holds a record with the key of `new`, where one does.
pub open spec fn key_slot<A>(slots: Seq<Option<A>>, new: A, same_key: spec_fn(A, A) -> bool) -> int {
    choose|i: int| 0 <= i < slots.len() && holds_key(#[trigger] slots[i], new, same_key)
}

/// `j` is the lowest empty slot.
pub open spec fn is_first_free<A>(slots: Seq<Option<A>>, j: int) -> bool {
    &&& 0 <= j < slots.len()
    &&& slots[j] is None
    &&& forall|k: int| 0 <= k < j ==> (#[trigger] slots[k]) is Some
}

/// Some slot is empty.
pub open spec fn has_free<A>(slots: Seq<Option<A>>) -> bool {
    exists|j: int| 0 <= j < slots.len() && (#[trigger] slots[j]) is None
}

/// The lowest empty slot, where one exists.
pub open spec fn first_free<A>(slots: Seq<Option<A>>) -> int {
    choose|j: int| is_first_free(slots, j)
}

/// No two slots hold records with the same key.
pub open spec fn keys_unique<A>(slots: Seq<Option<A>>, same_key: spec_fn(A, A) -> bool) -> bool {
    forall|i: int, j: int|
        #![trigger slots[i], slots[j]]
        0 <= i < slots.len() && 0 <= j < slots.len() && i != j && slots[i] is Some && slots[j] is Some
            ==> !same_key(slots[i].unwrap(), slots[j].unwrap())
}

/// Every dirty slot holds a record.
pub open spec fn dirty_slots_hold_records<A>(slots: Seq<Option<A>>, dirty: Seq<bool>) -> bool {
    &&& dirty.len() == slots.len()
    &&& forall|i: int| 0 <= i < dirty.len() && #[trigger] dirty[i] ==> slots[i] is Some
}

/// The slots, dirty flags and result after storing `new`.
///
/// A record with the key of `new` is replaced, and its slot marked dirty,
/// when its value differs; when the value is the same nothing changes and
/// the result is `Ok(false)`. A new key takes the lowest empty slot, which
/// becomes dirty. With no slot for the key and no empty slot, nothing changes
/// and `new` is handed back in `Err`.
pub open spec fn coalesced_update<A>(
    slots: Seq<Option<A>>,
    dirty: Seq<bool>,
    new: A,
    same_key: spec_fn(A, A) -> bool,
    same_value: spec_fn(A, A) -> bool,
) -> (Seq<Option<A>>, Seq<bool>, Result<bool, A>) {
    if has_key(slots, new, same_key) {
        let i = key_slot(slots, new, same_key);
        if same_value(slots[i].unwrap(), new) {
            (slots, dirty, Ok(false))
        } else {
            (slots.update(i, Some(new)), dirty.update(i, true), Ok(true))
        }
    } else if has_free(slots) {
        let j = first_free(slots);
        (slots.update(j, Some(new)), dirty.update(j, true), Ok(true))
    } else {
        (slots, dirty, Err(new))
    }
}

/// `i` is the lowest dirty slot.
pub open spec fn is_first_dirty(dirty: Seq<bool>, i: int) -> bool {
    &&& 0 <= i < dirty.len()
    &&& dirty[i]
    &&& forall|k: int| 0 <= k < i ==> !(#[trigger] dirty[k])
}

/// Some slot is dirty.
pub open spec fn has_dirty(dirty: Seq<bool>) -> bool {
    exists|i: int| 0 <= i < dirty.len() && #[trigger] dirty[i]
}

/// The lowest dirty slot, where one exists.
pub open spec fn first_dirty(dirty: Seq<bool>) -> int {
    choose|i: int| is_first_dirty(dirty, i)
}

/// Sharing a key is an equivalence between records.
pub open spec fn key_is_equivalence<A>(same_key: spec_fn(A, A) -> bool) -> bool {
    &&& forall|a: A| #[trigger] same_key(a, a)
    &&& forall|a: A, b: A| #[trigger] same_key(a, b) ==> same_key(b, a)
    &&& forall|a: A, b: A, c: A|
        #[trigger] same_key(a, c) && #[trigger] same_key(b, c) ==> same_key(a, b)
}

/// With one slot per key, the slot found for a key is the one that holds it.
pub proof fn lemma_key_slot_is<A>(slots: Seq<Option<A>>, new: A, same_key: spec_fn(A, A) -> bool, i: int)
    requires
        keys_unique(slots, same_key),
        key_is_equivalence(same_key),
        0 <= i < slots.len(),
        holds_key(slots[i], new, same_key),
    ensures
        has_key(slots, new, same_key),
        key_slot(slots, new, same_key) == i,
{
    let k = key_slot(slots, new, same_key);
    assert(holds_key(slots[k], new, same_key));
    if k != i {
        assert(same_key(slots[k].unwrap(), slots[i].unwrap()));
    }
}

/// The lowest empty slot is the one found by a scan from the front.
pub proof fn lemma_first_free_is<A>(slots: Seq<Option<A>>, j: int)
    requires
        is_first_free(slots, j),
    ensures
        has_free(slots),
        first_free(slots) == j,
{
    assert(slots[j] is None);
    let k = first_free(slots);
    assert(is_first_free(slots, k));
    if k < j {
        assert(slots[k] is Some);
    } else if j < k {
        assert(slots[j] is Some);
    }
}

/// The lowest dirty slot is the one found by a scan from the front.
pub proof fn lemma_first_dirty_is(dirty: Seq<bool>, i: int)
    requires
        is_first_dirty(dirty, i),
    ensures
        has_dirty(dirty),
        first_dirty(dirty) == i,
{
    assert(dirty[i]);
    let k = first_dirty(dirty);
    assert(is_first_dirty(dirty, k));
    if k < i {
        assert(!dirty[k]);
    } else if i < k {
        assert(!dirty[i]);
    }
}

/// Every record has the same value as itself.
pub open spec fn value_is_reflexive<A>(same_value: spec_fn(A, A) -> bool) -> bool {
    forall|a: A| #[trigger] same_value(a, a)
}

/// What a store looks like after an update: it stays consistent, the update
/// fails exactly when the key has no slot and no slot is empty, and then
/// nothing changes; after a successful update the key has one slot, whose
/// value is the new one, and a reported change is the new record itself,
/// left dirty. An update never cleans a dirty slot: a change stays pending
/// until it is taken. An update touches no slot but the one that ends up
/// holding the key: every other slot keeps its record and its dirty flag,
/// and an update that reports no change changes nothing at all.
pub proof fn lemma_update_then_lookup<A>(
    slots: Seq<Option<A>>,
    dirty: Seq<bool>,
    new: A,
    same_key: spec_fn(A, A) -> bool,
    same_value: spec_fn(A, A) -> bool,
)
    requires
        keys_unique(slots, same_key),
        dirty_slots_hold_records(slots, dirty),
        key_is_equivalence(same_key),
        value_is_reflexive(same_value),
    ensures
        ({
            let (after, after_dirty, result) = coalesced_update(
                slots,
                dirty,
                new,
                same_key,
                same_value,
            );
            &&& after.len() == slots.len()
            &&& after_dirty.len() == dirty.len()
            &&& forall|k: int| 0 <= k < dirty.len() && #[trigger] dirty[k] ==> after_dirty[k]
            &&& keys_unique(after, same_key)
            &&& dirty_slots_hold_records(after, after_dirty)
            &&& result is Ok <==> has_key(slots, new, same_key) || has_free(slots)
            &&& result is Err ==> result == Err::<bool, A>(new) && after == slots && after_dirty
                == dirty
            &&& result is Ok ==> {
                let i = key_slot(after, new, same_key);
                &&& has_key(after, new, same_key)
                &&& same_value(after[i].unwrap(), new)
                &&& result == Ok::<bool, A>(true) ==> after[i] == Some(new) && after_dirty[i]
                &&& result == Ok::<bool, A>(false) ==> after == slots && after_dirty == dirty
                &&& forall|k: int|
                    0 <= k < slots.len() && k != i ==> #[trigger] after[k] == slots[k]
                        && after_dirty[k] == dirty[k]
            }
        }),
{
    let (after, after_dirty, result) = coalesced_update(slots, dirty, new, same_key, same_value);
    let ghost i: int;
    if has_key(slots, new, same_key) {
        i = key_slot(slots, new, same_key);
        assert(holds_key(slots[i], new, same_key));
    } else if has_free(slots) {
        i = first_free(slots);
        assert(is_first_free(slots, i)) by {
            lemma_first_free_exists(slots);
        }
    } else {
        return;
    }
    assert(holds_key(after[i], new, same_key));
    assert forall|a: int, b: int|
        #![trigger after[a], after[b]]
        0 <= a < after.len() && 0 <= b < after.len() && a != b && after[a] is Some
            && after[b] is Some implies !same_key(after[a].unwrap(), after[b].unwrap()) by {
        if a != i && b != i {
            assert(slots[a] == after[a] && slots[b] == after[b]);
        } else if a == i {
            assert(slots[b] == after[b]);
            if same_key(after[a].unwrap(), after[b].unwrap()) {
                assert(holds_key(slots[b], new, same_key));
            }
        } else {
            assert(slots[a] == after[a]);
            if same_key(after[a].unwrap(), after[b].unwrap()) {
                assert(same_key(after[b].unwrap(), after[a].unwrap()));
                assert(holds_key(slots[a], new, same_key));
            }
        }
    }
    lemma_key_slot_is(after, new, same_key, i);
}

/// Storing the same record twice: once the first update has succeeded, the
/// second reports no change and leaves the store as it was.
pub proof fn lemma_update_idempotent<A>(
    slots: Seq<Option<A>>,
    dirty: Seq<bool>,
    new: A,
    same_key: spec_fn(A, A) -> bool,
    same_value: spec_fn(A, A) -> bool,
)
    requires
        keys_unique(slots, same_key),
        dirty_slots_hold_records(slots, dirty),
        key_is_equivalence(same_key),
        value_is_reflexive(same_value),
        coalesced_update(slots, dirty, new, same_key, same_value).2 is Ok,
    ensures
        ({
            let (after, after_dirty, result) = coalesced_update(
                slots,
                dirty,
                new,
                same_key,
                same_value,
            );
            coalesced_update(after, after_dirty, new, same_key, same_value) == (
                after,
                after_dirty,
                Ok::<bool, A>(false),
            )
        }),
{
    lemma_update_then_lookup(slots, dirty, new, same_key, same_value);
}

/// A scan from the front finds the lowest empty slot wherever a slot is empty.
pub proof fn lemma_first_free_exists<A>(slots: Seq<Option<A>>)
    requires
        has_free(slots),
    ensures
        is_first_free(slots, first_free(slots)),
{
    let j = choose|j: int| 0 <= j < slots.len() && (#[trigger] slots[j]) is None;
    lemma_lowest_free_below(slots, j);
}

proof fn lemma_lowest_free_below<A>(slots: Seq<Option<A>>, j: int)
    requires
        0 <= j < slots.len(),
        slots[j] is None,
    ensures
        exists|m: int| is_first_free(slots, m),
    decreases j,
{
    if exists|k: int| 0 <= k < j && (#[trigger] slots[k]) is None {
        let k = choose|k: int| 0 <= k < j && (#[trigger] slots[k]) is None;
        lemma_lowest_free_below(slots, k);
    } else {
        assert(is_first_free(slots, j));
    }
}

/// A scan from the front finds the lowest dirty slot wherever a slot is dirty.
pub proof fn lemma_first_dirty_exists(dirty: Seq<bool>)
    requires
        has_dirty(dirty),
    ensures
        is_first_dirty(dirty, first_dirty(dirty)),
{
    let i = choose|i: int| 0 <= i < dirty.len() && #[trigger] dirty[i];
    lemma_lowest_dirty_below(dirty, i);
}

proof fn lemma_lowest_dirty_below(dirty: Seq<bool>, i: int)
    requires
        0 <= i < dirty.len(),
        dirty[i],
    ensures
        exists|m: int| is_first_dirty(dirty, m),
    decreases i,
{
    if exists|k: int| 0 <= k < i && #[trigger] dirty[k] {
        let k = choose|k: int| 0 <= k < i && #[trigger] dirty[k];
        lemma_lowest_dirty_below(dirty, k);
    } else {
        assert(is_first_dirty(dirty, i));
    }
}

/// The binary-input and measurement stores key and compare their records as
/// the laws above require, so the laws hold of both stores.
pub proof fn lemma_store_relations()
    ensures
        key_is_equivalence(input_key()),
        value_is_reflexive(input_value()),
        key_is_equivalence(measurement_key()),
        value_is_reflexive(measurement_value()),
{
}

/// No two slots hold records for the same binary input.
pub open spec fn inputs_distinct(slots: Seq<Option<BinaryInputState>>) -> bool {
    forall|a: int, b: int|
        #![trigger slots[a], slots[b]]
        0 <= a < slots.len() && 0 <= b < slots.len() && a != b && slots[a] is Some
            && slots[b] is Some ==> slots[a].unwrap().input != slots[b].unwrap().input
}

/// No two slots hold measurements of the same sensor and field.
pub open spec fn measurements_distinct(slots: Seq<Option<TimestampedMeasurement>>) -> bool {
    forall|a: int, b: int|
        #![trigger slots[a], slots[b]]
        0 <= a < slots.len() && 0 <= b < slots.len() && a != b && slots[a] is Some
            && slots[b] is Some ==> !(slots[a].unwrap().measurement.sensor
                == slots[b].unwrap().measurement.sensor && slots[a].unwrap().measurement.field
                == slots[b].unwrap().measurement.field)
}

/// One slot per key, for the two stores, means no two slots name the same
/// input, or the same sensor and field.
pub proof fn lemma_distinct_keys(
    inputs: Seq<Option<BinaryInputState>>,
    measurements: Seq<Option<TimestampedMeasurement>>,
)
    ensures
        keys_unique(inputs, input_key()) <==> inputs_distinct(inputs),
        keys_unique(measurements, measurement_key()) <==> measurements_distinct(measurements),
{
}

/// Recording a binary input's state: when slot `i` holds that input, a
/// different state replaces the record, marks only that slot dirty and
/// reports `Ok(true)`, while the same state reports `Ok(false)` and changes
/// nothing. An input with no slot takes the lowest empty slot, or is handed
/// back in `Err` when every slot is taken.
pub proof fn lemma_binary_input_update(
    slots: Seq<Option<BinaryInputState>>,
    dirty: Seq<bool>,
    new: BinaryInputState,
    i: int,
)
    requires
        inputs_distinct(slots),
        dirty.len() == slots.len(),
        -1 <= i < slots.len(),
        0 <= i ==> slots[i] is Some && slots[i].unwrap().input == new.input,
        i == -1 ==> forall|k: int|
            0 <= k < slots.len() && (#[trigger] slots[k]) is Some ==> slots[k].unwrap().input
                != new.input,
    ensures
        ({
            let (after, after_dirty, result) = coalesced_update(
                slots,
                dirty,
                new,
                input_key(),
                input_value(),
            );
            &&& 0 <= i && slots[i].unwrap().state == new.state ==> result == Ok::<
                bool,
                BinaryInputState,
            >(false) && after == slots && after_dirty == dirty
            &&& 0 <= i && slots[i].unwrap().state != new.state ==> result == Ok::<
                bool,
                BinaryInputState,
            >(true) && after == slots.update(i, Some(new)) && after_dirty == dirty.update(i, true)
            &&& i == -1 && has_free(slots) ==> result == Ok::<bool, BinaryInputState>(true)
                && after == slots.update(first_free(slots), Some(new)) && after_dirty
                == dirty.update(first_free(slots), true) && is_first_free(slots, first_free(slots))
            &&& i == -1 && !has_free(slots) ==> result == Err::<bool, BinaryInputState>(new)
                && after == slots && after_dirty == dirty
        }),
{
    lemma_store_relations();
    assert(keys_unique(slots, input_key()));
    if 0 <= i {
        lemma_key_slot_is(slots, new, input_key(), i);
    } else {
        if has_key(slots, new, input_key()) {
            let k = key_slot(slots, new, input_key());
            assert(holds_key(slots[k], new, input_key()));
        }
        if has_free(slots) {
            lemma_first_free_exists(slots);
        }
    }
}

/// Recording a measurement: when slot `i` holds the same sensor and field,
/// a different value replaces the record, marks only that slot dirty and
/// reports `Ok(true)`, while the same value reports `Ok(false)` and changes
/// nothing, whatever tick it carries. A sensor and field with no slot take
/// the lowest empty slot, or are handed back in `Err` when every slot is
/// taken.
pub proof fn lemma_measurement_update(
    slots: Seq<Option<TimestampedMeasurement>>,
    dirty: Seq<bool>,
    new: TimestampedMeasurement,
    i: int,
)
    requires
        measurements_distinct(slots),
        dirty.len() == slots.len(),
        -1 <= i < slots.len(),
        0 <= i ==> slots[i] is Some && slots[i].unwrap().measurement.sensor
            == new.measurement.sensor && slots[i].unwrap().measurement.field
            == new.measurement.field,
        i == -1 ==> forall|k: int|
            0 <= k < slots.len() && (#[trigger] slots[k]) is Some ==> !(
            slots[k].unwrap().measurement.sensor == new.measurement.sensor
                && slots[k].unwrap().measurement.field == new.measurement.field),
    ensures
        ({
            let (after, after_dirty, result) = coalesced_update(
                slots,
                dirty,
                new,
                measurement_key(),
                measurement_value(),
            );
            &&& 0 <= i && slots[i].unwrap().measurement.value == new.measurement.value ==> result
                == Ok::<bool, TimestampedMeasurement>(false) && after == slots && after_dirty
                == dirty
            &&& 0 <= i && slots[i].unwrap().measurement.value != new.measurement.value ==> result
                == Ok::<bool, TimestampedMeasurement>(true) && after == slots.update(i, Some(new))
                && after_dirty == dirty.update(i, true)
            &&& i == -1 && has_free(slots) ==> result == Ok::<bool, TimestampedMeasurement>(true)
                && after == slots.update(first_free(slots), Some(new)) && after_dirty
                == dirty.update(first_free(slots), true) && is_first_free(slots, first_free(slots))
            &&& i == -1 && !has_free(slots) ==> result == Err::<bool, TimestampedMeasurement>(new)
                && after == slots && after_dirty == dirty
        }),
{
    lemma_store_relations();
    assert(keys_unique(slots, measurement_key()));
    if 0 <= i {
        lemma_key_slot_is(slots, new, measurement_key(), i);
    } else {
        if has_key(slots, new, measurement_key()) {
            let k = key_slot(slots, new, measurement_key());
            assert(holds_key(slots[k], new, measurement_key()));
        }
        if has_free(slots) {
            lemma_first_free_exists(slots);
        }
    }
}

/// Stores the latest known binary-input and measurement values.
///
/// Measurements are coalesced by sensor and field. Changed measurements remain
/// dirty until retrieved with [`Self::take_dirty_measurement`].
pub struct DeviceState<const INPUTS: usize, const MEASUREMENTS: usize> {
    binary_inputs: [Option<BinaryInputState>; INPUTS],
    measurements: [Option<TimestampedMeasurement>; MEASUREMENTS],
    dirty_inputs: [bool; INPUTS],
    dirty_measurements: [bool; MEASUREMENTS],
}

impl<const INPUTS: usize, const MEASUREMENTS: usize> Default for DeviceState<INPUTS, MEASUREMENTS> {
    /// Creates an empty device state, as [`Self::new`] does.
    fn default() -> (state: Self)
        ensures
            state.wf(),
            state.input_slots() == Seq::new(INPUTS as nat, |i: int| None::<BinaryInputState>),
            state.dirty_inputs() == Seq::new(INPUTS as nat, |i: int| false),
            state.measurement_slots() == Seq::new(
                MEASUREMENTS as nat,
                |i: int| None::<TimestampedMeasurement>,
            ),
            state.dirty_measurements() == Seq::new(MEASUREMENTS as nat, |i: int| false),
    {
        Self::new()
    }
}

impl<const INPUTS: usize, const MEASUREMENTS: usize> DeviceState<INPUTS, MEASUREMENTS> {
    /// The binary-input slots, in storage order.
    pub closed spec fn input_slots(&self) -> Seq<Option<BinaryInputState>> {
        self.binary_inputs@
    }

    /// Which binary-input slots hold a change not yet taken.
    pub closed spec fn dirty_inputs(&self) -> Seq<bool> {
        self.dirty_inputs@
    }

    /// The measurement slots, in storage order.
    pub closed spec fn measurement_slots(&self) -> Seq<Option<TimestampedMeasurement>> {
        self.measurements@
    }

    /// Which measurement slots hold a change not yet taken.
    pub closed spec fn dirty_measurements(&self) -> Seq<bool> {
        self.dirty_measurements@
    }

    /// The store's consistency: one slot per key, and a record in every dirty slot.
    pub open spec fn wf(&self) -> bool {
        &&& self.input_slots().len() == INPUTS
        &&& self.measurement_slots().len() == MEASUREMENTS
        &&& keys_unique(self.input_slots(), input_key())
        &&& keys_unique(self.measurement_slots(), measurement_key())
        &&& dirty_slots_hold_records(self.input_slots(), self.dirty_inputs())
        &&& dirty_slots_hold_records(self.measurement_slots(), self.dirty_measurements())
    }

    /// Creates an empty device state: every slot empty and clean.
    pub fn new() -> (state: Self)
        ensures
            state.wf(),
            state.input_slots() == Seq::new(INPUTS as nat, |i: int| None::<BinaryInputState>),
            state.dirty_inputs() == Seq::new(INPUTS as nat, |i: int| false),
            state.measurement_slots() == Seq::new(
                MEASUREMENTS as nat,
                |i: int| None::<TimestampedMeasurement>,
            ),
            state.dirty_measurements() == Seq::new(MEASUREMENTS as nat, |i: int| false),
    {
        let state = Self {
            binary_inputs: [None; INPUTS],
            measurements: [None; MEASUREMENTS],
            dirty_inputs: [false; INPUTS],
            dirty_measurements: [false; MEASUREMENTS],
        };
        assert(state.input_slots() =~= Seq::new(INPUTS as nat, |i: int| None::<BinaryInputState>));
        assert(state.dirty_inputs() =~= Seq::new(INPUTS as nat, |i: int| false));
        assert(state.measurement_slots() =~= Seq::new(
            MEASUREMENTS as nat,
            |i: int| None::<TimestampedMeasurement>,
        ));
        assert(state.dirty_measurements() =~= Seq::new(MEASUREMENTS as nat, |i: int| false));
        state
    }

    /// Inserts or updates a timestamped measurement.
    ///
    /// Returns `Ok(true)` if the value changed, `Ok(false)` if it was unchanged,
    /// or `Err(measurement)` if no storage slot is available.
    pub fn update_measurement(&mut self, new_measurement: TimestampedMeasurement) -> (result: Result<
        bool,
        TimestampedMeasurement,
    >)
        requires
            old(self).wf(),
        ensures
            final(self).wf(),
            (final(self).measurement_slots(), final(self).dirty_measurements(), result)
                == coalesced_update(
                old(self).measurement_slots(),
                old(self).dirty_measurements(),
                new_measurement,
                measurement_key(),
                measurement_value(),
            ),
            final(self).input_slots() == old(self).input_slots(),
            final(self).dirty_inputs() == old(self).dirty_inputs(),
    {
        let ghost slots = self.measurement_slots();
        let ghost same_key = measurement_key();
        let mut empty_slot: Option<usize> = None;
        for index in 0..MEASUREMENTS
            invariant
                self.wf(),
                *self == *old(self),
                slots == self.measurement_slots(),
                same_key == measurement_key(),
                forall|k: int| 0 <= k < index ==> !holds_key(#[trigger] slots[k], new_measurement, same_key),
                empty_slot is None ==> forall|k: int| 0 <= k < index ==> (#[trigger] slots[k]) is Some,
                empty_slot matches Some(j) ==> j < index && is_first_free(slots, j as int),
        {
            if let Some(current) = self.measurements[index] {
                if current.measurement.sensor == new_measurement.measurement.sensor
                    && current.measurement.field == new_measurement.measurement.field {
                    proof {
                        lemma_key_slot_is(slots, new_measurement, same_key, index as int);
                    }
                    if current.measurement.value == new_measurement.measurement.value {
                        return Ok(false);
                    }
                    self.measurements[index] = Some(new_measurement);
                    self.dirty_measurements[index] = true;
                    proof {
                        assert(self.measurement_slots() =~= slots.update(
                            index as int,
                            Some(new_measurement),
                        ));
                        assert(self.dirty_measurements() =~= old(self).dirty_measurements().update(
                            index as int,
                            true,
                        ));
                    }
                    return Ok(true);
                }
            } else if empty_slot.is_none() {
                empty_slot = Some(index);
            }
        }
        assert(!has_key(slots, new_measurement, same_key));
        let index = match empty_slot {
            Some(index) => index,
            None => {
                return Err(new_measurement);
            },
        };
        proof {
            lemma_first_free_is(slots, index as int);
        }
        self.measurements[index] = Some(new_measurement);
        self.dirty_measurements[index] = true;
        proof {
            assert(self.measurement_slots() =~= slots.update(index as int, Some(new_measurement)));
            assert(self.dirty_measurements() =~= old(self).dirty_measurements().update(index as int, true));
        }
        Ok(true)
    }

    /// Inserts or updates a binary input state.
    ///
    /// Returns `Ok(true)` if the state changed, `Ok(false)` if it was unchanged,
    /// or `Err(state)` if no storage slot is available.
    pub fn update_binary_input(&mut self, new_state: BinaryInputState) -> (result: Result<
        bool,
        BinaryInputState,
    >)
        requires
            old(self).wf(),
        ensures
            final(self).wf(),
            (final(self).input_slots(), final(self).dirty_inputs(), result) == coalesced_update(
                old(self).input_slots(),
                old(self).dirty_inputs(),
                new_state,
                input_key(),
                input_value(),
            ),
            final(self).measurement_slots() == old(self).measurement_slots(),
            final(self).dirty_measurements() == old(self).dirty_measurements(),
    {
        let ghost slots = self.input_slots();
        let ghost same_key = input_key();
        let mut empty_slot: Option<usize> = None;
        for index in 0..INPUTS
            invariant
                self.wf(),
                *self == *old(self),
                slots == self.input_slots(),
                same_key == input_key(),
                forall|k: int| 0 <= k < index ==> !holds_key(#[trigger] slots[k], new_state, same_key),
                empty_slot is None ==> forall|k: int| 0 <= k < index ==> (#[trigger] slots[k]) is Some,
                empty_slot matches Some(j) ==> j < index && is_first_free(slots, j as int),
        {
            if let Some(current) = self.binary_inputs[index] {
                if current.input == new_state.input {
                    proof {
                        lemma_key_slot_is(slots, new_state, same_key, index as int);
                    }
                    if current.state == new_state.state {
                        return Ok(false);
                    }
                    self.binary_inputs[index] = Some(new_state);
                    self.dirty_inputs[index] = true;
                    proof {
                        assert(self.input_slots() =~= slots.update(index as int, Some(new_state)));
                        assert(self.dirty_inputs() =~= old(self).dirty_inputs().update(
                            index as int,
                            true,
                        ));
                    }
                    return Ok(true);
                }
            } else if empty_slot.is_none() {
                empty_slot = Some(index);
            }
        }
        assert(!has_key(slots, new_state, same_key));
        let index = match empty_slot {
            Some(index) => index,
            None => {
                return Err(new_state);
            },
        };
        proof {
            lemma_first_free_is(slots, index as int);
        }
        self.binary_inputs[index] = Some(new_state);
        self.dirty_inputs[index] = true;
        proof {
            assert(self.input_slots() =~= slots.update(index as int, Some(new_state)));
            assert(self.dirty_inputs() =~= old(self).dirty_inputs().update(index as int, true));
        }
        Ok(true)
    }

    /// Returns one changed measurement and marks it as clean.
    ///
    /// The measurement taken is the one in the lowest dirty slot. Returns
    /// `None`, changing nothing, when no measurements are dirty.
    pub fn take_dirty_measurement(&mut self) -> (result: Option<TimestampedMeasurement>)
        requires
            old(self).wf(),
        ensures
            final(self).wf(),
            final(self).measurement_slots() == old(self).measurement_slots(),
            final(self).input_slots() == old(self).input_slots(),
            final(self).dirty_inputs() == old(self).dirty_inputs(),
            has_dirty(old(self).dirty_measurements()) ==> {
                let i = first_dirty(old(self).dirty_measurements());
                &&& result == old(self).measurement_slots()[i]
                &&& result is Some
                &&& final(self).dirty_measurements() == old(self).dirty_measurements().update(
                    i,
                    false,
                )
            },
            !has_dirty(old(self).dirty_measurements()) ==> result is None
                && final(self).dirty_measurements() == old(self).dirty_measurements(),
    {
        let ghost dirty = self.dirty_measurements();
        for index in 0..MEASUREMENTS
            invariant
                self.wf(),
                *self == *old(self),
                dirty == self.dirty_measurements(),
                forall|k: int| 0 <= k < index ==> !(#[trigger] dirty[k]),
        {
            if self.dirty_measurements[index] {
                proof {
                    lemma_first_dirty_is(dirty, index as int);
                }
                self.dirty_measurements[index] = false;
                proof {
                    assert(self.dirty_measurements() =~= dirty.update(index as int, false));
                }
                return self.measurements[index];
            }
        }
        None
    }
}

} // verus!
