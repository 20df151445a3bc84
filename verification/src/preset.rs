//! The preset collection: slot assignment, lookup and removal, with the
//! slot-injectivity invariant every operation preserves.

use vstd::prelude::*;
use crate::types::{string_eq, PresetState, WledPreset};

verus! {

/// Why a preset operation was refused.
#[derive(Debug, Clone, Copy, PartialEq, Eq, Structural)]
pub enum PresetError {
    /// The requested slot lies outside 1..=250.
    BadRequest,
    /// The requested slot is already taken.
    Conflict,
    /// All 250 slots are taken.
    SlotsExhausted,
    /// No preset matches the given identity.
    NotFound,
}

/// The identities of a preset collection, in order.
pub open spec fn preset_ids(presets: Seq<WledPreset>) -> Seq<Seq<char>> {
    presets.map_values(|p: WledPreset| p.id@)
}

/// The slots of a preset collection, in order.
pub open spec fn preset_slots(presets: Seq<WledPreset>) -> Seq<u8> {
    presets.map_values(|p: WledPreset| p.wled_slot)
}

/// Whether some preset occupies `slot`.
pub open spec fn spec_slot_used(presets: Seq<WledPreset>, slot: u8) -> bool {
    exists|i: int| 0 <= i < presets.len() && presets[i].wled_slot == slot
}

/// Slot injectivity: no two presets share a `wled_slot`, and every slot
/// lies in 1..=250.
pub open spec fn slots_unique(presets: Seq<WledPreset>) -> bool {
    &&& forall|i: int, j: int|
        0 <= i < presets.len() && 0 <= j < presets.len() && i != j
            ==> presets[i].wled_slot != presets[j].wled_slot
    &&& forall|i: int| 0 <= i < presets.len()
            ==> 1 <= #[trigger] presets[i].wled_slot <= 250
}

/// Law: over a collection with unique slots, `wled_slot` is injective —
/// equal slots can only belong to the same preset entry.
pub proof fn lemma_wled_slot_injective(presets: Seq<WledPreset>, i: int, j: int)
    requires
        slots_unique(presets),
        0 <= i < presets.len(),
        0 <= j < presets.len(),
        presets[i].wled_slot == presets[j].wled_slot,
    ensures
        i == j,
{
}

/// Whether some preset occupies `slot`.
pub fn slot_used(presets: &Vec<WledPreset>, slot: u8) -> (r: bool)
    ensures
        r == spec_slot_used(presets@, slot),
{
    let mut i: usize = 0;
    while i < presets.len()
        invariant
            i <= presets@.len(),
            forall|j: int| 0 <= j < i ==> #[trigger] presets@[j].wled_slot != slot,
        decreases presets@.len() - i,
    {
        if presets[i].wled_slot == slot {
            return true;
        }
        i = i + 1;
    }
    false
}

/// The render state a preset gets when the request carries none.
pub fn default_preset_state() -> (s: PresetState)
    ensures
        s.on == true,
        s.brightness == 255,
        s.color == [255u8, 255u8, 255u8],
        s.effect == 0,
        s.speed == 128,
        s.intensity == 128,
        s.transition is None,
{
    PresetState {
        on: true,
        brightness: 255,
        color: [255, 255, 255],
        effect: 0,
        speed: 128,
        intensity: 128,
        transition: None,
    }
}

/// Add a preset to the collection.
///
/// A requested slot above 250 is refused; a requested slot already in use
/// is a conflict; slot zero asks for the smallest free slot, and only a
/// full table refuses that.  On success the new preset carries the given
/// fields and is appended; slot injectivity is preserved.
pub fn add_preset(
    presets: &mut Vec<WledPreset>,
    name: String,
    requested_slot: u8,
    description: Option<String>,
    state: Option<PresetState>,
    id: String,
    created_at: String,
) -> (r: Result<WledPreset, PresetError>)
    requires
        slots_unique(old(presets)@),
    ensures
        slots_unique(final(presets)@),
        requested_slot > 250 ==> r == Err::<WledPreset, PresetError>(PresetError::BadRequest)
            && final(presets)@ == old(presets)@,
        1 <= requested_slot <= 250 && spec_slot_used(old(presets)@, requested_slot)
            ==> r == Err::<WledPreset, PresetError>(PresetError::Conflict)
                && final(presets)@ == old(presets)@,
        requested_slot == 0 && (forall|s: u8| 1 <= s <= 250
            ==> spec_slot_used(old(presets)@, s))
            ==> r == Err::<WledPreset, PresetError>(PresetError::SlotsExhausted)
                && final(presets)@ == old(presets)@,
        requested_slot == 0 && (exists|s: u8| 1 <= s <= 250
            && !spec_slot_used(old(presets)@, s)) ==> r is Ok,
        1 <= requested_slot <= 250 && !spec_slot_used(old(presets)@, requested_slot)
            ==> r is Ok,
        r is Ok ==> {
            let p = r->Ok_0;
            &&& final(presets)@ == old(presets)@.push(p)
            &&& p.name == name
            &&& p.id == id
            &&& p.created_at == created_at
            &&& p.description == description
            &&& (state is Some ==> p.state == state->0)
            &&& 1 <= p.wled_slot <= 250
            &&& !spec_slot_used(old(presets)@, p.wled_slot)
            &&& (requested_slot > 0 ==> p.wled_slot == requested_slot)
            &&& (requested_slot == 0 ==> forall|s: u8| 1 <= s < p.wled_slot
                    ==> spec_slot_used(old(presets)@, s))
        },
        r is Err ==> final(presets)@ == old(presets)@,
{
    let wled_slot: u8 = if requested_slot > 0 {
        if requested_slot > 250 {
            return Err(PresetError::BadRequest);
        }
        if slot_used(presets, requested_slot) {
            return Err(PresetError::Conflict);
        }
        requested_slot
    } else {
        let mut next_slot: u8 = 1;
        while next_slot <= 250 && slot_used(presets, next_slot)
            invariant
                1 <= next_slot <= 251,
                forall|s: u8| 1 <= s < next_slot ==> spec_slot_used(presets@, s),
            decreases 251 - next_slot,
        {
            next_slot = next_slot + 1;
        }
        if next_slot > 250 {
            return Err(PresetError::SlotsExhausted);
        }
        next_slot
    };

    let preset_state = match state {
        Some(s) => s,
        None => default_preset_state(),
    };
    let preset = WledPreset {
        id,
        name,
        wled_slot,
        description,
        state: preset_state,
        created_at,
    };
    let copy = preset.clone_preset();
    presets.push(preset);
    Ok(copy)
}

/// Find a preset by identity.
pub fn find_by_id(presets: &Vec<WledPreset>, id: &String) -> (r: Option<WledPreset>)
    ensures
        match preset_ids(presets@).index_of_first(id@) {
            Some(k) => r == Some(presets@[k]),
            None => r is None,
        },
        (r is Some) == (exists|i: int| 0 <= i < presets@.len()
            && #[trigger] presets@[i].id@ == id@),
{
    let mut i: usize = 0;
    while i < presets.len()
        invariant
            i <= presets@.len(),
            forall|j: int| 0 <= j < i ==> #[trigger] presets@[j].id@ != id@,
        decreases presets@.len() - i,
    {
        let entry = &presets[i];
        if string_eq(&entry.id, id) {
            proof {
                lemma_id_scan_hit(presets@, id@, i as int);
            }
            return Some(entry.clone_preset());
        }
        i = i + 1;
    }
    proof {
        lemma_id_scan_miss(presets@, id@);
    }
    None
}

/// An identity found at `i` with nothing equal before it is the first
/// occurrence in the identity sequence.
proof fn lemma_id_scan_hit(presets: Seq<WledPreset>, id: Seq<char>, i: int)
    requires
        0 <= i < presets.len(),
        presets[i].id@ == id,
        forall|j: int| 0 <= j < i ==> #[trigger] presets[j].id@ != id,
    ensures
        preset_ids(presets).index_of_first(id) == Some(i),
{
    let ids = preset_ids(presets);
    ids.index_of_first_ensures(id);
    assert(ids[i] == id);
    assert(ids.contains(id));
    let k = ids.index_of_first(id)->0;
    if k < i {
        assert(presets[k].id@ != id);
        assert(ids[k] == id);
    }
    if k > i {
        assert(forall|j: int| 0 <= j < k ==> ids[j] != id);
        assert(ids[i] == id);
    }
}

/// When no preset carries the identity, the identity sequence has no
/// first occurrence of it.
proof fn lemma_id_scan_miss(presets: Seq<WledPreset>, id: Seq<char>)
    requires
        forall|j: int| 0 <= j < presets.len() ==> #[trigger] presets[j].id@ != id,
    ensures
        preset_ids(presets).index_of_first(id) is None,
{
    let ids = preset_ids(presets);
    ids.index_of_first_ensures(id);
    assert forall|j: int| 0 <= j < ids.len() implies ids[j] != id by {
        assert(presets[j].id@ != id);
    }
    if ids.contains(id) {
        let j = choose|j: int| 0 <= j < ids.len() && ids[j] == id;
        assert(false);
    }
}

/// A slot found at `i` with nothing equal before it is the first
/// occurrence in the slot sequence.
proof fn lemma_slot_scan_hit(presets: Seq<WledPreset>, slot: u8, i: int)
    requires
        0 <= i < presets.len(),
        presets[i].wled_slot == slot,
        forall|j: int| 0 <= j < i ==> #[trigger] presets[j].wled_slot != slot,
    ensures
        preset_slots(presets).index_of_first(slot) == Some(i),
{
    let slots = preset_slots(presets);
    slots.index_of_first_ensures(slot);
    assert(slots[i] == slot);
    assert(slots.contains(slot));
    let k = slots.index_of_first(slot)->0;
    if k < i {
        assert(presets[k].wled_slot != slot);
        assert(slots[k] == slot);
    }
    if k > i {
        assert(forall|j: int| 0 <= j < k ==> slots[j] != slot);
        assert(slots[i] == slot);
    }
}

/// Find a preset by slot.
pub fn find_by_slot(presets: &Vec<WledPreset>, slot: u8) -> (r: Option<WledPreset>)
    ensures
        match preset_slots(presets@).index_of_first(slot) {
            Some(k) => r == Some(presets@[k]),
            None => r is None,
        },
        (r is Some) == spec_slot_used(presets@, slot),
{
    let mut i: usize = 0;
    while i < presets.len()
        invariant
            i <= presets@.len(),
            forall|j: int| 0 <= j < i ==> #[trigger] presets@[j].wled_slot != slot,
        decreases presets@.len() - i,
    {
        let entry = &presets[i];
        if entry.wled_slot == slot {
            proof {
                lemma_slot_scan_hit(presets@, slot, i as int);
            }
            return Some(entry.clone_preset());
        }
        i = i + 1;
    }
    proof {
        let slots = preset_slots(presets@);
        slots.index_of_first_ensures(slot);
        if slots.contains(slot) {
            let j = choose|j: int| 0 <= j < slots.len() && slots[j] == slot;
            assert(presets@[j].wled_slot != slot);
            assert(false);
        }
    }
    None
}

/// Update the preset at a slot: replace name and description, and the
/// render state when one is given.  The slot itself never changes, so
/// injectivity is preserved.
pub fn update_preset(
    presets: &mut Vec<WledPreset>,
    wled_slot: u8,
    name: String,
    description: Option<String>,
    state: Option<PresetState>,
) -> (r: Result<WledPreset, PresetError>)
    requires
        slots_unique(old(presets)@),
    ensures
        slots_unique(final(presets)@),
        !spec_slot_used(old(presets)@, wled_slot)
            ==> r == Err::<WledPreset, PresetError>(PresetError::NotFound)
                && final(presets)@ == old(presets)@,
        spec_slot_used(old(presets)@, wled_slot) ==> r is Ok,
        r is Ok ==> {
            let k = preset_slots(old(presets)@).index_of_first(wled_slot)->0;
            let p = r->Ok_0;
            &&& 0 <= k < old(presets)@.len()
            &&& final(presets)@ == old(presets)@.update(k, p)
            &&& p.name == name
            &&& p.description == description
            &&& p.wled_slot == wled_slot
            &&& p.id == old(presets)@[k].id
            &&& p.created_at == old(presets)@[k].created_at
            &&& p.state == (if state is Some { state->0 } else { old(presets)@[k].state })
        },
        r is Err ==> final(presets)@ == old(presets)@,
{
    let mut i: usize = 0;
    while i < presets.len()
        invariant
            i <= presets@.len(),
            presets@ == old(presets)@,
            slots_unique(presets@),
            forall|j: int| 0 <= j < i ==> #[trigger] presets@[j].wled_slot != wled_slot,
        decreases presets@.len() - i,
    {
        if presets[i].wled_slot == wled_slot {
            proof {
                lemma_slot_scan_hit(presets@, wled_slot, i as int);
            }
            let prev = presets[i].clone_preset();
            let new_state = match state {
                Some(s) => s,
                None => prev.state,
            };
            let updated = WledPreset {
                id: prev.id,
                name,
                wled_slot,
                description,
                state: new_state,
                created_at: prev.created_at,
            };
            let copy = updated.clone_preset();
            presets.set(i, updated);
            return Ok(copy);
        }
        i = i + 1;
    }
    Err(PresetError::NotFound)
}

/// Remove the preset occupying a slot.  The rest keep their order.
pub fn delete_by_slot(presets: &mut Vec<WledPreset>, wled_slot: u8)
    -> (r: Result<(), PresetError>)
    requires
        slots_unique(old(presets)@),
    ensures
        slots_unique(final(presets)@),
        !spec_slot_used(old(presets)@, wled_slot)
            ==> r == Err::<(), PresetError>(PresetError::NotFound)
                && final(presets)@ == old(presets)@,
        spec_slot_used(old(presets)@, wled_slot) ==> r is Ok,
        r is Ok ==> {
            let k = preset_slots(old(presets)@).index_of_first(wled_slot)->0;
            &&& 0 <= k < old(presets)@.len()
            &&& final(presets)@ == old(presets)@.remove(k)
        },
        r is Err ==> final(presets)@ == old(presets)@,
{
    let mut i: usize = 0;
    while i < presets.len()
        invariant
            i <= presets@.len(),
            presets@ == old(presets)@,
            slots_unique(presets@),
            forall|j: int| 0 <= j < i ==> #[trigger] presets@[j].wled_slot != wled_slot,
        decreases presets@.len() - i,
    {
        if presets[i].wled_slot == wled_slot {
            proof {
                lemma_slot_scan_hit(presets@, wled_slot, i as int);
            }
            presets.remove(i);
            return Ok(());
        }
        i = i + 1;
    }
    Err(PresetError::NotFound)
}

/// Remove the preset with an identity.  The rest keep their order.
pub fn delete_by_id(presets: &mut Vec<WledPreset>, id: &String) -> (r: Result<(), PresetError>)
    requires
        slots_unique(old(presets)@),
    ensures
        slots_unique(final(presets)@),
        r is Ok ==> {
            let k = preset_ids(old(presets)@).index_of_first(id@)->0;
            &&& 0 <= k < old(presets)@.len()
            &&& old(presets)@[k].id@ == id@
            &&& final(presets)@ == old(presets)@.remove(k)
        },
        r is Err ==> final(presets)@ == old(presets)@
            && (forall|i: int| 0 <= i < old(presets)@.len()
                ==> #[trigger] old(presets)@[i].id@ != id@),
{
    let mut i: usize = 0;
    while i < presets.len()
        invariant
            i <= presets@.len(),
            presets@ == old(presets)@,
            slots_unique(presets@),
            forall|j: int| 0 <= j < i ==> #[trigger] presets@[j].id@ != id@,
        decreases presets@.len() - i,
    {
        let entry = &presets[i];
        if string_eq(&entry.id, id) {
            proof {
                lemma_id_scan_hit(presets@, id@, i as int);
                let ids = preset_ids(presets@);
                ids.index_of_first_ensures(id@);
            }
            presets.remove(i);
            return Ok(());
        }
        i = i + 1;
    }
    Err(PresetError::NotFound)
}

/// Relies on uuid::Uuid::new_v4 and its Display form: a fresh random
/// identifier, rendered in the hyphenated form of thirty-six characters.
#[verifier::external_body]
fn new_uuid_string() -> (r: String)
    ensures
        r@.len() == 36,
{
    uuid::Uuid::new_v4().to_string()
}

/// Create a preset from a save request: mint a fresh identifier and add
/// it under the requested or the smallest free slot.
pub fn create_preset(
    presets: &mut Vec<WledPreset>,
    name: String,
    requested_slot: u8,
    description: Option<String>,
    state: Option<PresetState>,
    created_at: String,
) -> (r: Result<WledPreset, PresetError>)
    requires
        slots_unique(old(presets)@),
    ensures
        slots_unique(final(presets)@),
        requested_slot > 250 ==> r == Err::<WledPreset, PresetError>(PresetError::BadRequest),
        1 <= requested_slot <= 250 && spec_slot_used(old(presets)@, requested_slot)
            ==> r == Err::<WledPreset, PresetError>(PresetError::Conflict),
        requested_slot == 0 && (forall|s: u8| 1 <= s <= 250
            ==> spec_slot_used(old(presets)@, s))
            ==> r == Err::<WledPreset, PresetError>(PresetError::SlotsExhausted),
        requested_slot == 0 && (exists|s: u8| 1 <= s <= 250
            && !spec_slot_used(old(presets)@, s)) ==> r is Ok,
        1 <= requested_slot <= 250 && !spec_slot_used(old(presets)@, requested_slot)
            ==> r is Ok,
        r is Ok ==> {
            let p = r->Ok_0;
            &&& final(presets)@ == old(presets)@.push(p)
            &&& p.name == name
            &&& p.created_at == created_at
            &&& p.description == description
            &&& (state is Some ==> p.state == state->0)
            &&& p.id@.len() == 36
            &&& 1 <= p.wled_slot <= 250
            &&& !spec_slot_used(old(presets)@, p.wled_slot)
            &&& (requested_slot > 0 ==> p.wled_slot == requested_slot)
            &&& (requested_slot == 0 ==> forall|s: u8| 1 <= s < p.wled_slot
                    ==> spec_slot_used(old(presets)@, s))
        },
        r is Err ==> final(presets)@ == old(presets)@,
{
    let id = new_uuid_string();
    add_preset(presets, name, requested_slot, description, state, id, created_at)
}

} // verus!
