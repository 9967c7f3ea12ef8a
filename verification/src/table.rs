//! The breakpoint table that controller and target share.
//!
//! The table is a fixed run of slots. A slot whose address is zero is free; an
//! occupied slot is armed, and becomes triggered when the target faults on its
//! address. The controller drains triggered slots and the target resumes once
//! its slot is armed again.

use vstd::prelude::*;
use vstd::bytes::lemma_auto_spec_u64_to_from_le_bytes;
use vstd::bytes::spec_u64_from_le_bytes;
use vstd::bytes::spec_u64_to_le_bytes;
use vstd::bytes::u64_from_le_bytes;
use vstd::bytes::u64_to_le_bytes;
use vstd::slice::slice_subrange;

verus! {

/// Number of slots in the table.
pub const TABLE_CAPACITY: usize = 256;

/// Name of the memory mapping that holds the table.
pub const TABLE_NAME: &'static str = "BreakpointList";

/// Bytes one slot takes in the mapping: the address, the flag and its padding.
pub const ENTRY_SIZE: usize = 16;

/// Bytes the whole record takes in the mapping, for event handles of
/// `handle_size` bytes each.
pub open spec fn spec_record_size(handle_size: int) -> int {
    2 * handle_size + TABLE_CAPACITY * ENTRY_SIZE
}

/// One slot of the table.
#[derive(Copy, Clone, Debug, PartialEq, Eq, Structural)]
pub struct BreakpointEntry {
    pub address: u64,
    pub triggered: bool,
}

/// Where a slot stands in its life cycle.
#[derive(Copy, Clone, Debug, PartialEq, Eq, Structural)]
pub enum SlotState {
    Empty,
    Armed,
    Triggered,
}

/// Why the engine refused a request.
#[derive(Copy, Clone, Debug, PartialEq, Eq, Structural)]
pub enum EngineError {
    /// Every slot of the table is occupied.
    TableFull,
    /// The target's memory could not be read, written or re-protected.
    MemoryAccessFault,
}

/// Handle of an armed breakpoint: the slot it occupies.
#[derive(Copy, Clone, Debug, PartialEq, Eq, Structural)]
pub struct BreakpointId {
    pub slot: usize,
}

/// What the fault handler does with a fault.
#[derive(Copy, Clone, Debug, PartialEq, Eq, Structural)]
pub enum FaultAction {
    /// No armed slot matches: the fault belongs to someone else.
    Forward,
    /// The slot matched and is now triggered: signal the controller and wait
    /// until the slot is released.
    Stall { slot: usize },
}

impl BreakpointEntry {
    /// Whether the slot is free.
    pub open spec fn is_free(self) -> bool {
        self.address == 0
    }

    /// Where the slot stands in its life cycle.

    pub open spec fn state(self) -> SlotState {
        if self.address == 0 {
            SlotState::Empty
        } else if self.triggered {
            SlotState::Triggered
        } else {
            SlotState::Armed
        }
    }

    /// The state of this slot.
    pub fn slot_state(&self) -> (r: SlotState)
        ensures
            r == self.state(),
    {
        if self.address == 0 {
            SlotState::Empty
        } else if self.triggered {
            SlotState::Triggered
        } else {
            SlotState::Armed
        }
    }
}

/// The bytes of a slot in the mapping: the address as a little-endian
/// number, one byte for the flag, and seven bytes of padding.
pub open spec fn encoded(entry: BreakpointEntry) -> Seq<u8> {
    spec_u64_to_le_bytes(entry.address) + seq![if entry.triggered { 1u8 } else { 0u8 }] + Seq::new(7, |i: int| 0u8)
}

/// The slot that the first `ENTRY_SIZE` bytes of `bytes` hold. Any byte but
/// zero sets the flag.
pub open spec fn decoded(bytes: Seq<u8>) -> Option<BreakpointEntry> {
    if bytes.len() < ENTRY_SIZE {
        None
    } else {
        Some(BreakpointEntry { address: spec_u64_from_le_bytes(bytes.subrange(0, 8)), triggered: bytes[8] != 0 })
    }
}

impl BreakpointEntry {
    /// The bytes of the slot as they stand in the mapping.
    pub fn encode(&self) -> (r: Vec<u8>)
        ensures
            r@ == encoded(*self),
            r@.len() == ENTRY_SIZE,
    {
        let mut bytes = u64_to_le_bytes(self.address);
        bytes.push(if self.triggered { 1 } else { 0 });
        let mut i: usize = 0;
        while i < 7
            invariant
                i <= 7,
                bytes@ == spec_u64_to_le_bytes(self.address) + seq![if self.triggered { 1u8 } else { 0u8 }] + Seq::new(
                    i as nat,
                    |k: int| 0u8,
                ),
                spec_u64_to_le_bytes(self.address).len() == 8,
            decreases 7 - i,
        {
            bytes.push(0);
            i += 1;
        }
        bytes
    }

    /// The slot that the first `ENTRY_SIZE` bytes of `bytes` hold, or
    /// nothing where there are fewer.
    pub fn decode(bytes: &[u8]) -> (r: Option<Self>)
        ensures
            r == decoded(bytes@),
    {
        if bytes.len() < ENTRY_SIZE {
            return None;
        }
        let address = u64_from_le_bytes(slice_subrange(bytes, 0, 8));
        Some(BreakpointEntry { address, triggered: bytes[8] != 0 })
    }
}

/// A slot that is written to the mapping and read back is the same slot.
pub proof fn lemma_entry_round_trip(entry: BreakpointEntry)
    ensures
        encoded(entry).len() == ENTRY_SIZE,
        decoded(encoded(entry)) == Some(entry),
{
    lemma_auto_spec_u64_to_from_le_bytes();
    assert(encoded(entry).subrange(0, 8) =~= spec_u64_to_le_bytes(entry.address));
}

impl Default for BreakpointEntry {
    fn default() -> (r: Self)
        ensures
            r == (BreakpointEntry { address: 0, triggered: false }),
    {
        BreakpointEntry { address: 0, triggered: false }
    }
}

/// A table is well formed when it has exactly `TABLE_CAPACITY` slots and no
/// free slot is marked triggered.
pub open spec fn well_formed(entries: Seq<BreakpointEntry>) -> bool {
    &&& entries.len() == TABLE_CAPACITY
    &&& forall|i: int| 0 <= i < entries.len() ==> !((#[trigger] entries[i]).address == 0 && entries[i].triggered)
}

/// Index of the first slot of `entries` below `limit` with the given address,
/// or `limit` if there is none.
pub open spec fn first_slot_with(entries: Seq<BreakpointEntry>, address: u64, limit: int) -> int
    decreases limit,
{
    if limit <= 0 {
        0
    } else {
        let before = first_slot_with(entries, address, limit - 1);
        if before < limit - 1 {
            before
        } else if entries[limit - 1].address == address {
            limit - 1
        } else {
            limit
        }
    }
}

/// The addresses of the triggered slots of `entries`, in slot order.
pub open spec fn triggered_addresses(entries: Seq<BreakpointEntry>) -> Seq<u64>
    decreases entries.len(),
{
    if entries.len() == 0 {
        Seq::empty()
    } else {
        let rest = triggered_addresses(entries.drop_last());
        if entries.last().triggered {
            rest.push(entries.last().address)
        } else {
            rest
        }
    }
}

/// `entries` with every triggered flag cleared.
pub open spec fn all_released(entries: Seq<BreakpointEntry>) -> Seq<BreakpointEntry> {
    Seq::new(entries.len(), |i: int| BreakpointEntry { address: entries[i].address, triggered: false })
}

/// Number of occupied slots in `entries`.
pub open spec fn occupied_count(entries: Seq<BreakpointEntry>) -> nat
    decreases entries.len(),
{
    if entries.len() == 0 {
        0
    } else {
        occupied_count(entries.drop_last()) + if entries.last().address != 0 { 1nat } else { 0nat }
    }
}

/// `first_slot_with` is the least index that holds the address, and stays
/// within the limit.
pub proof fn lemma_first_slot_with(entries: Seq<BreakpointEntry>, address: u64, limit: int)
    requires
        0 <= limit <= entries.len(),
    ensures
        0 <= first_slot_with(entries, address, limit) <= limit,
        first_slot_with(entries, address, limit) < limit ==> entries[first_slot_with(entries, address, limit)].address == address,
        forall|j: int| 0 <= j < first_slot_with(entries, address, limit) ==> (#[trigger] entries[j]).address != address,
    decreases limit,
{
    if limit > 0 {
        lemma_first_slot_with(entries, address, limit - 1);
    }
}

/// A table with `n` slots has at most `n` occupied ones, and exactly `n`
/// only when none is free.
pub proof fn lemma_occupied_count(entries: Seq<BreakpointEntry>)
    ensures
        occupied_count(entries) <= entries.len(),
        occupied_count(entries) == entries.len() <==> forall|i: int| 0 <= i < entries.len() ==> (#[trigger] entries[i]).address != 0,
    decreases entries.len(),
{
    if entries.len() > 0 {
        let head = entries.drop_last();
        lemma_occupied_count(head);
        assert forall|i: int| 0 <= i < head.len() implies (#[trigger] head[i]) == entries[i] by {}
        if occupied_count(entries) == entries.len() {
            assert forall|i: int| 0 <= i < entries.len() implies (#[trigger] entries[i]).address != 0 by {
                if i < head.len() {
                    assert(head[i] == entries[i]);
                }
            }
        }
        if forall|i: int| 0 <= i < entries.len() ==> (#[trigger] entries[i]).address != 0 {
            assert forall|i: int| 0 <= i < head.len() implies (#[trigger] head[i]).address != 0 by {
                assert(head[i] == entries[i]);
            }
            assert(entries.last() == entries[entries.len() - 1]);
        }
    }
}

/// The table that controller and target share: the two event handles, by
/// value, and the slots.
pub struct BreakpointList {
    trigger_event: u64,
    resolve_event: u64,
    entries: Vec<BreakpointEntry>,
}

impl View for BreakpointList {
    type V = Seq<BreakpointEntry>;

    closed spec fn view(&self) -> Seq<BreakpointEntry> {
        self.entries@
    }
}

impl BreakpointList {
    /// The table has its full run of slots and no free slot is triggered.
    pub open spec fn wf(&self) -> bool {
        well_formed(self@)
    }

    /// The handle the target signals, as this value stands in the record.
    pub closed spec fn spec_trigger_event(&self) -> u64 {
        self.trigger_event
    }

    /// The handle the controller signals, as this value stands in the record.
    pub closed spec fn spec_resolve_event(&self) -> u64 {
        self.resolve_event
    }

    /// A table with every slot free, carrying the two event handles.
    pub fn new(trigger_event: u64, resolve_event: u64) -> (r: Self)
        ensures
            r.wf(),
            r@ == Seq::new(TABLE_CAPACITY as nat, |i: int| BreakpointEntry { address: 0, triggered: false }),
            r.spec_trigger_event() == trigger_event,
            r.spec_resolve_event() == resolve_event,
    {
        let mut entries: Vec<BreakpointEntry> = Vec::new();
        let mut i: usize = 0;
        while i < TABLE_CAPACITY
            invariant
                i <= TABLE_CAPACITY,
                entries@ == Seq::new(i as nat, |k: int| BreakpointEntry { address: 0, triggered: false }),
            decreases TABLE_CAPACITY - i,
        {
            entries.push(BreakpointEntry { address: 0, triggered: false });
            i += 1;
        }
        BreakpointList { trigger_event, resolve_event, entries }
    }

    /// The table with these slots, as they were read from the mapping.
    /// `None` where there are not exactly `TABLE_CAPACITY` slots or a free
    /// slot is marked triggered.
    pub fn from_entries(trigger_event: u64, resolve_event: u64, entries: Vec<BreakpointEntry>) -> (r: Option<Self>)
        ensures
            r is Some <==> well_formed(entries@),
            r matches Some(table) ==> {
                &&& table.wf()
                &&& table@ == entries@
                &&& table.spec_trigger_event() == trigger_event
                &&& table.spec_resolve_event() == resolve_event
            },
    {
        if entries.len() != TABLE_CAPACITY {
            return None;
        }
        let mut i: usize = 0;
        while i < TABLE_CAPACITY
            invariant
                i <= TABLE_CAPACITY,
                entries@.len() == TABLE_CAPACITY,
                forall|j: int| 0 <= j < i ==> !((#[trigger] entries@[j]).address == 0 && entries@[j].triggered),
            decreases TABLE_CAPACITY - i,
        {
            if entries[i].address == 0 && entries[i].triggered {
                return None;
            }
            i += 1;
        }
        Some(BreakpointList { trigger_event, resolve_event, entries })
    }

    /// The slots, in order, to be written to the mapping.
    pub fn entries(&self) -> (r: &[BreakpointEntry])
        ensures
            r@ == self@,
    {
        self.entries.as_slice()
    }

    /// The handle the target signals after a hit.
    pub fn trigger_event(&self) -> (r: u64)
        ensures
            r == self.spec_trigger_event(),
    {
        self.trigger_event
    }

    /// The handle the controller signals to release the target.
    pub fn resolve_event(&self) -> (r: u64)
        ensures
            r == self.spec_resolve_event(),
    {
        self.resolve_event
    }

    /// Bytes the record takes in the mapping, or `None` if that does not fit.
    pub fn record_size(handle_size: usize) -> (r: Option<usize>)
        ensures
            match r {
                Some(n) => n == spec_record_size(handle_size as int),
                None => spec_record_size(handle_size as int) > usize::MAX,
            },
    {
        match handle_size.checked_mul(2) {
            Some(handles) => handles.checked_add(TABLE_CAPACITY * ENTRY_SIZE),
            None => None,
        }
    }

    /// The slot at `slot`.
    pub fn entry(&self, slot: usize) -> (r: Option<BreakpointEntry>)
        requires
            self.wf(),
        ensures
            slot < TABLE_CAPACITY ==> r == Some(self@[slot as int]),
            slot >= TABLE_CAPACITY ==> r is None,
    {
        if slot < TABLE_CAPACITY {
            Some(self.entries[slot])
        } else {
            None
        }
    }

    /// Number of occupied slots.
    pub fn occupied(&self) -> (r: usize)
        requires
            self.wf(),
        ensures
            r == occupied_count(self@),
            r <= TABLE_CAPACITY,
    {
        let mut count: usize = 0;
        let mut i: usize = 0;
        while i < TABLE_CAPACITY
            invariant
                i <= TABLE_CAPACITY,
                self.entries@.len() == TABLE_CAPACITY,
                count == occupied_count(self.entries@.take(i as int)),
                count <= i,
            decreases TABLE_CAPACITY - i,
        {
            proof {
                assert(self.entries@.take(i + 1).drop_last() == self.entries@.take(i as int));
            }
            if self.entries[i].address != 0 {
                count += 1;
            }
            i += 1;
        }
        proof {
            assert(self.entries@.take(TABLE_CAPACITY as int) == self.entries@);
        }
        count
    }

    /// Puts `address` into the first free slot, armed and not triggered.
    /// Fails with `TableFull` exactly when no slot is free.
    pub fn insert(&mut self, address: u64) -> (r: Result<BreakpointId, EngineError>)
        requires
            old(self).wf(),
            address != 0,
        ensures
            final(self).wf(),
            r is Ok <==> occupied_count(old(self)@) < TABLE_CAPACITY,
            match r {
                Ok(id) => {
                    &&& id.slot == first_slot_with(old(self)@, 0, TABLE_CAPACITY as int)
                    &&& id.slot < TABLE_CAPACITY
                    &&& old(self)@[id.slot as int].address == 0
                    &&& final(self)@ == old(self)@.update(id.slot as int, BreakpointEntry { address, triggered: false })
                },
                Err(e) => {
                    &&& e == EngineError::TableFull
                    &&& forall|i: int| 0 <= i < TABLE_CAPACITY ==> (#[trigger] old(self)@[i]).address != 0
                    &&& final(self)@ == old(self)@
                },
            },
            final(self).spec_trigger_event() == old(self).spec_trigger_event(),
            final(self).spec_resolve_event() == old(self).spec_resolve_event(),
    {
        let mut i: usize = 0;
        while i < TABLE_CAPACITY
            invariant
                i <= TABLE_CAPACITY,
                self.entries@.len() == TABLE_CAPACITY,
                *self == *old(self),
                address != 0,
                well_formed(self.entries@),
                first_slot_with(self.entries@, 0, i as int) == i,
                forall|j: int| 0 <= j < i ==> (#[trigger] self.entries@[j]).address != 0,
            decreases TABLE_CAPACITY - i,
        {
            if self.entries[i].address == 0 {
                proof {
                    lemma_first_slot_stable(self.entries@, 0, i as int + 1, TABLE_CAPACITY as int);
                    lemma_occupied_count(self.entries@);
                }
                self.entries.set(i, BreakpointEntry { address, triggered: false });
                return Ok(BreakpointId { slot: i });
            }
            i += 1;
        }
        proof {
            lemma_occupied_count(self.entries@);
        }
        Err(EngineError::TableFull)
    }

    /// Frees the slot of `id`. Returns whether the slot was occupied; a slot
    /// out of range or already free leaves the table as it is.
    pub fn remove(&mut self, id: BreakpointId) -> (r: bool)
        requires
            old(self).wf(),
        ensures
            final(self).wf(),
            r == (id.slot < TABLE_CAPACITY && old(self)@[id.slot as int].address != 0),
            r ==> final(self)@ == old(self)@.update(id.slot as int, BreakpointEntry { address: 0, triggered: false }),
            !r ==> final(self)@ == old(self)@,
            final(self).spec_trigger_event() == old(self).spec_trigger_event(),
            final(self).spec_resolve_event() == old(self).spec_resolve_event(),
    {
        if id.slot < TABLE_CAPACITY && self.entries[id.slot].address != 0 {
            self.entries.set(id.slot, BreakpointEntry { address: 0, triggered: false });
            true
        } else {
            false
        }
    }

    /// Reports the address of every triggered slot, in slot order, and clears
    /// the flag of each.
    pub fn poll_hits(&mut self) -> (r: Vec<u64>)
        requires
            old(self).wf(),
        ensures
            final(self).wf(),
            r@ == triggered_addresses(old(self)@),
            final(self)@ == all_released(old(self)@),
            final(self).spec_trigger_event() == old(self).spec_trigger_event(),
            final(self).spec_resolve_event() == old(self).spec_resolve_event(),
    {
        let mut hits: Vec<u64> = Vec::new();
        let mut i: usize = 0;
        while i < TABLE_CAPACITY
            invariant
                i <= TABLE_CAPACITY,
                self.entries@.len() == TABLE_CAPACITY,
                old(self).entries@.len() == TABLE_CAPACITY,
                self.trigger_event == old(self).trigger_event,
                self.resolve_event == old(self).resolve_event,
                well_formed(self.entries@),
                hits@ == triggered_addresses(old(self).entries@.take(i as int)),
                forall|j: int| 0 <= j < i ==> (#[trigger] self.entries@[j]) == (BreakpointEntry { address: old(self).entries@[j].address, triggered: false }),
                forall|j: int| i <= j < TABLE_CAPACITY ==> (#[trigger] self.entries@[j]) == old(self).entries@[j],
            decreases TABLE_CAPACITY - i,
        {
            proof {
                assert(old(self).entries@.take(i + 1).drop_last() == old(self).entries@.take(i as int));
            }
            let entry = self.entries[i];
            if entry.triggered {
                hits.push(entry.address);
            }
            self.entries.set(i, BreakpointEntry { address: entry.address, triggered: false });
            i += 1;
        }
        proof {
            assert(old(self).entries@.take(TABLE_CAPACITY as int) == old(self).entries@);
            assert(self.entries@ =~= all_released(old(self).entries@));
        }
        hits
    }

    /// Decides what a fault at `address` means. The first armed or triggered
    /// slot with that address claims it and becomes triggered; without one the
    /// table is left alone and the fault is forwarded.
    pub fn on_fault(&mut self, address: u64) -> (r: FaultAction)
        requires
            old(self).wf(),
        ensures
            final(self).wf(),
            ({
                let slot = first_slot_with(old(self)@, address, TABLE_CAPACITY as int);
                if address != 0 && slot < TABLE_CAPACITY {
                    &&& r == (FaultAction::Stall { slot: slot as usize })
                    &&& final(self)@ == old(self)@.update(slot, BreakpointEntry { address, triggered: true })
                } else {
                    &&& r == FaultAction::Forward
                    &&& final(self)@ == old(self)@
                }
            }),
            final(self).spec_trigger_event() == old(self).spec_trigger_event(),
            final(self).spec_resolve_event() == old(self).spec_resolve_event(),
    {
        if address == 0 {
            return FaultAction::Forward;
        }
        let mut i: usize = 0;
        while i < TABLE_CAPACITY
            invariant
                i <= TABLE_CAPACITY,
                self.entries@.len() == TABLE_CAPACITY,
                *self == *old(self),
                address != 0,
                well_formed(self.entries@),
                first_slot_with(self.entries@, address, i as int) == i,
            decreases TABLE_CAPACITY - i,
        {
            if self.entries[i].address == address {
                proof {
                    lemma_first_slot_stable(self.entries@, address, i as int + 1, TABLE_CAPACITY as int);
                }
                self.entries.set(i, BreakpointEntry { address, triggered: true });
                return FaultAction::Stall { slot: i };
            }
            i += 1;
        }
        FaultAction::Forward
    }

    /// Whether the thread stalled on `slot` may resume: the controller has
    /// cleared the flag, or the slot is gone.
    pub fn is_released(&self, slot: usize) -> (r: bool)
        requires
            self.wf(),
        ensures
            r == (slot >= TABLE_CAPACITY || !self@[slot as int].triggered),
    {
        slot >= TABLE_CAPACITY || !self.entries[slot].triggered
    }
}

/// Once a slot below `limit` matches, widening the limit does not change the
/// first match.
pub proof fn lemma_first_slot_stable(entries: Seq<BreakpointEntry>, address: u64, limit: int, wider: int)
    requires
        0 <= limit <= wider <= entries.len(),
        first_slot_with(entries, address, limit) < limit,
    ensures
        first_slot_with(entries, address, wider) == first_slot_with(entries, address, limit),
    decreases wider - limit,
{
    if limit < wider {
        lemma_first_slot_stable(entries, address, limit, wider - 1);
    }
}

/// Freeing an occupied slot takes one from the number of occupied slots.
pub proof fn lemma_occupied_after_free(entries: Seq<BreakpointEntry>, slot: int)
    requires
        0 <= slot < entries.len(),
        entries[slot].address != 0,
    ensures
        occupied_count(entries.update(slot, BreakpointEntry { address: 0, triggered: false })) == occupied_count(entries)
            - 1,
    decreases entries.len(),
{
    let free = BreakpointEntry { address: 0, triggered: false };
    if slot == entries.len() - 1 {
        assert(entries.update(slot, free).drop_last() =~= entries.drop_last());
    } else {
        lemma_occupied_after_free(entries.drop_last(), slot);
        assert(entries.update(slot, free).drop_last() =~= entries.drop_last().update(slot, free));
    }
}

/// A table whose slots are all occupied refuses another breakpoint, and
/// takes one again as soon as one slot is freed: the new breakpoint goes into
/// the slot that was freed.
pub proof fn lemma_capacity(entries: Seq<BreakpointEntry>, slot: int)
    requires
        well_formed(entries),
        occupied_count(entries) == TABLE_CAPACITY,
        0 <= slot < TABLE_CAPACITY,
    ensures
        first_slot_with(entries, 0, TABLE_CAPACITY as int) == TABLE_CAPACITY,
        well_formed(entries.update(slot, BreakpointEntry { address: 0, triggered: false })),
        occupied_count(entries.update(slot, BreakpointEntry { address: 0, triggered: false })) < TABLE_CAPACITY,
        first_slot_with(entries.update(slot, BreakpointEntry { address: 0, triggered: false }), 0, TABLE_CAPACITY as int)
            == slot,
{
    let freed = entries.update(slot, BreakpointEntry { address: 0, triggered: false });
    lemma_occupied_count(entries);
    lemma_first_slot_with(entries, 0, TABLE_CAPACITY as int);
    lemma_occupied_after_free(entries, slot);
    lemma_first_slot_with(freed, 0, TABLE_CAPACITY as int);
    lemma_first_slot_with(freed, 0, slot + 1);
    lemma_first_slot_stable(freed, 0, slot + 1, TABLE_CAPACITY as int);
    let found = first_slot_with(freed, 0, slot + 1);
    if found < slot {
        assert(freed[found] == entries[found]);
    }
}

/// A slot goes from empty to armed when a breakpoint is entered, from armed
/// to triggered when the target faults on it, back to armed when the
/// controller releases it, and to empty when the breakpoint is removed.
pub proof fn lemma_life_cycle(entries: Seq<BreakpointEntry>, slot: int, address: u64)
    requires
        well_formed(entries),
        0 <= slot < TABLE_CAPACITY,
        address != 0,
        entries[slot].state() == SlotState::Empty,
    ensures
        ({
            let armed = entries.update(slot, BreakpointEntry { address, triggered: false });
            let triggered = armed.update(slot, BreakpointEntry { address, triggered: true });
            let released = all_released(triggered);
            let removed = released.update(slot, BreakpointEntry { address: 0, triggered: false });
            &&& well_formed(armed) && armed[slot].state() == SlotState::Armed
            &&& well_formed(triggered) && triggered[slot].state() == SlotState::Triggered
            &&& well_formed(released) && released[slot].state() == SlotState::Armed
            &&& well_formed(removed) && removed[slot].state() == SlotState::Empty
        }),
{
}

/// After the hits were polled no slot is triggered, and a second poll
/// reports nothing.
pub proof fn lemma_polled_is_quiet(entries: Seq<BreakpointEntry>)
    ensures
        triggered_addresses(all_released(entries)) == Seq::<u64>::empty(),
    decreases entries.len(),
{
    if entries.len() > 0 {
        lemma_polled_is_quiet(entries.drop_last());
        assert(all_released(entries).drop_last() =~= all_released(entries.drop_last()));
    }
}

} // verus!
