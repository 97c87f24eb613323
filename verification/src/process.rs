use vstd::prelude::*;

use crate::resource::GenericResource;

verus! {

/// How eagerly a process participates in a tick: the label fixes the
/// probability (on a per-mille scale) that the process acts at all, and
/// the fraction of its base demand it then asks for.
#[derive(Clone, Copy, PartialEq, Eq, Structural, Debug)]
pub enum GenericProcessResourceIntensity {
    Idle,
    Low,
    Medium,
    High,
    Extreme,
}

/// The per-mille threshold under which a roll triggers an action:
/// rolls are uniform in `0..1000`, so `Idle` never acts and `Extreme`
/// always does.
pub open spec fn intensity_threshold(intensity: GenericProcessResourceIntensity) -> u64 {
    match intensity {
        GenericProcessResourceIntensity::Idle => 0,
        GenericProcessResourceIntensity::Low => 200,
        GenericProcessResourceIntensity::Medium => 500,
        GenericProcessResourceIntensity::High => 800,
        GenericProcessResourceIntensity::Extreme => 1000,
    }
}

/// Executable counterpart of `intensity_threshold`.
pub fn threshold_of(intensity: GenericProcessResourceIntensity) -> (r: u64)
    ensures
        r == intensity_threshold(intensity),
{
    match intensity {
        GenericProcessResourceIntensity::Idle => 0,
        GenericProcessResourceIntensity::Low => 200,
        GenericProcessResourceIntensity::Medium => 500,
        GenericProcessResourceIntensity::High => 800,
        GenericProcessResourceIntensity::Extreme => 1000,
    }
}

/// Decides, from a roll already drawn, whether a process of the given
/// intensity acts on this tick.
pub fn decide_action(roll: u64, intensity: GenericProcessResourceIntensity) -> (r: bool)
    ensures
        r == (roll < intensity_threshold(intensity)),
{
    roll < threshold_of(intensity)
}

/// A demand record attached to a process: up to `base_amount` units of the
/// resource named by `resource_id` may be requested per activation, and
/// `current_amount` is what the next activation will ask for.
pub struct ResourceSlot {
    pub resource_id: String,
    pub id: String,
    pub current_amount: u64,
    pub base_amount: u64,
}

impl ResourceSlot {
    /// Amount bounds: the current demand never exceeds the declared base.
    pub open spec fn wf(self) -> bool {
        self.current_amount <= self.base_amount
    }

    /// Builds a slot from an already-drawn slot id; the current demand
    /// starts at the base.
    pub fn with_id(resource_id: String, id: String, base_amount: u64) -> (s: Self)
        ensures
            s.resource_id == resource_id,
            s.id == id,
            s.base_amount == base_amount,
            s.current_amount == base_amount,
            s.wf(),
    {
        ResourceSlot { resource_id, id, current_amount: base_amount, base_amount }
    }

    /// Builds a slot for the given resource under a fresh random slot id.
    pub fn new(resource: &GenericResource, base_amount: u64) -> (s: Self)
        ensures
            s.resource_id == resource.id,
            s.base_amount == base_amount,
            s.current_amount == base_amount,
            s.id@.len() == 7,
            s.wf(),
    {
        let id = crate::ids::fresh_id();
        Self::with_id(resource.id(), id, base_amount)
    }
}

impl Clone for ResourceSlot {
    fn clone(&self) -> (r: Self)
        ensures
            r == *self,
    {
        ResourceSlot {
            resource_id: self.resource_id.clone(),
            id: self.id.clone(),
            current_amount: self.current_amount,
            base_amount: self.base_amount,
        }
    }
}

/// Index of the first slot that refers to the resource `rid`, or -1 when
/// no slot does.
pub open spec fn first_match(slots: Seq<ResourceSlot>, rid: Seq<char>) -> int
    decreases slots.len(),
{
    if slots.len() == 0 {
        -1
    } else if slots[0].resource_id@ == rid {
        0
    } else if first_match(slots.drop_first(), rid) < 0 {
        -1
    } else {
        1 + first_match(slots.drop_first(), rid)
    }
}

pub open spec fn has_slot_for(slots: Seq<ResourceSlot>, rid: Seq<char>) -> bool {
    first_match(slots, rid) >= 0
}

/// The demand that the first slot for `rid` currently makes; zero when no
/// slot refers to that resource.
pub open spec fn first_demand(slots: Seq<ResourceSlot>, rid: Seq<char>) -> u64 {
    if first_match(slots, rid) >= 0 {
        slots[first_match(slots, rid)].current_amount
    } else {
        0
    }
}

pub open spec fn has_slot_with_id(slots: Seq<ResourceSlot>, sid: Seq<char>) -> bool {
    exists|i: int| 0 <= i < slots.len() && slots[i].id@ == sid
}

/// Whether any slot's id has exactly `n` characters. A freshly drawn slot
/// id has seven, so where no existing slot id does, no draw can collide.
pub open spec fn has_slot_id_of_len(slots: Seq<ResourceSlot>, n: nat) -> bool {
    exists|i: int| 0 <= i < slots.len() && slots[i].id@.len() == n
}

/// What the first match means pointwise: when it is -1 no slot refers to
/// `rid`, and otherwise it is the least index that does.
pub proof fn lemma_first_match(slots: Seq<ResourceSlot>, rid: Seq<char>)
    ensures
        first_match(slots, rid) == -1 ==> forall|i: int|
            0 <= i < slots.len() ==> (#[trigger] slots[i]).resource_id@ != rid,
        first_match(slots, rid) >= 0 ==> {
            &&& first_match(slots, rid) < slots.len()
            &&& slots[first_match(slots, rid)].resource_id@ == rid
            &&& forall|j: int|
                0 <= j < first_match(slots, rid) ==> (#[trigger] slots[j]).resource_id@ != rid
        },
    decreases slots.len(),
{
    if slots.len() > 0 && slots[0].resource_id@ != rid {
        let rest = slots.drop_first();
        lemma_first_match(rest, rid);
        let fm_rest = first_match(rest, rid);
        if fm_rest == -1 {
            assert forall|i: int|
                0 <= i < slots.len() implies (#[trigger] slots[i]).resource_id@ != rid by {
                if i > 0 {
                    assert(rest[i - 1] == slots[i]);
                }
            }
        } else {
            assert(slots[1 + fm_rest] == rest[fm_rest]);
            assert forall|j: int|
                0 <= j < 1 + fm_rest implies (#[trigger] slots[j]).resource_id@ != rid by {
                if j > 0 {
                    assert(rest[j - 1] == slots[j]);
                }
            }
        }
    }
}

/// Well-formedness of a slot list: every slot keeps its amount bounds, and
/// both the slot ids and the referenced resource ids are pairwise distinct.
pub open spec fn slots_wf(slots: Seq<ResourceSlot>) -> bool {
    &&& forall|i: int| 0 <= i < slots.len() ==> (#[trigger] slots[i]).wf()
    &&& forall|i: int, j: int|
        0 <= i < j < slots.len() ==> (#[trigger] slots[i]).id@ != (#[trigger] slots[j]).id@
    &&& forall|i: int, j: int|
        0 <= i < j < slots.len() ==> (#[trigger] slots[i]).resource_id@
            != (#[trigger] slots[j]).resource_id@
}

/// Removes the first slot referring to `resource_id`, reporting whether one
/// was there.
fn remove_slot_vec(slots: &mut Vec<ResourceSlot>, resource_id: &String) -> (r: Option<()>)
    ensures
        match r {
            Some(_) => has_slot_for(old(slots)@, resource_id@) && final(slots)@ == old(slots)@.remove(first_match(old(slots)@, resource_id@)),
            None => !has_slot_for(old(slots)@, resource_id@) && final(slots)@ == old(slots)@,
        },
{
    let n = slots.len();
    let mut i: usize = 0;
    while i < n
        invariant
            i <= n,
            n == slots@.len(),
            slots@ == old(slots)@,
            forall|j: int| 0 <= j < i ==> (#[trigger] slots@[j]).resource_id@ != resource_id@,
        decreases n - i,
    {
        if slots[i].resource_id.eq(resource_id) {
            proof {
                lemma_first_match(slots@, resource_id@);
                assert(first_match(slots@, resource_id@) == i);
            }
            slots.remove(i);
            return Some(());
        }
        i += 1;
    }
    proof {
        lemma_first_match(slots@, resource_id@);
        assert(first_match(slots@, resource_id@) == -1) by {
            if first_match(slots@, resource_id@) >= 0 {
                assert(slots@[first_match(slots@, resource_id@)].resource_id@ == resource_id@);
            }
        }
    }
    None
}

/// Appends `slot` unless its slot id or its resource is already present.
fn push_slot_vec(slots: &mut Vec<ResourceSlot>, slot: ResourceSlot) -> (added: bool)
    ensures
        added == (!has_slot_with_id(old(slots)@, slot.id@) && !has_slot_for(
            old(slots)@,
            slot.resource_id@,
        )),
        added ==> final(slots)@ == old(slots)@.push(slot),
        !added ==> final(slots)@ == old(slots)@,
        slots_wf(old(slots)@) && slot.wf() ==> slots_wf(final(slots)@),
{
    let n = slots.len();
    let mut i: usize = 0;
    while i < n
        invariant
            i <= n,
            n == slots@.len(),
            slots@ == old(slots)@,
            forall|j: int|
                0 <= j < i ==> (#[trigger] slots@[j]).id@ != slot.id@ && slots@[j].resource_id@
                    != slot.resource_id@,
        decreases n - i,
    {
        if slots[i].id.eq(&slot.id) || slots[i].resource_id.eq(&slot.resource_id) {
            proof {
                lemma_first_match(slots@, slot.resource_id@);
                if slots@[i as int].id@ == slot.id@ {
                    assert(has_slot_with_id(slots@, slot.id@));
                } else {
                    assert(first_match(slots@, slot.resource_id@) != -1);
                }
            }
            return false;
        }
        i += 1;
    }
    proof {
        assert(!has_slot_with_id(slots@, slot.id@));
        lemma_first_match(slots@, slot.resource_id@);
        assert(first_match(slots@, slot.resource_id@) == -1) by {
            if first_match(slots@, slot.resource_id@) >= 0 {
                assert(slots@[first_match(slots@, slot.resource_id@)].resource_id@
                    == slot.resource_id@);
            }
        }
        if slots_wf(slots@) && slot.wf() {
            assert(slots_wf(slots@.push(slot))) by {
                let s1 = slots@.push(slot);
                assert(forall|j: int| 0 <= j < s1.len() ==> (#[trigger] s1[j]).wf());
                assert(forall|a: int, b: int|
                    0 <= a < b < s1.len() ==> (#[trigger] s1[a]).id@ != (#[trigger] s1[b]).id@);
                assert(forall|a: int, b: int|
                    0 <= a < b < s1.len() ==> (#[trigger] s1[a]).resource_id@ != (
                    #[trigger] s1[b]).resource_id@);
            }
        }
    }
    slots.push(slot);
    true
}

/// The operations shared by the three lifecycle states of a process.
pub trait AllProcessTraits: Sized {
    spec fn spec_id(&self) -> Seq<char>;

    spec fn spec_name(&self) -> Seq<char>;

    spec fn spec_intensity(&self) -> GenericProcessResourceIntensity;

    spec fn spec_slots(&self) -> Seq<ResourceSlot>;

    fn id(&self) -> (r: String)
        ensures
            r@ == self.spec_id(),
    ;

    fn name(&self) -> (r: String)
        ensures
            r@ == self.spec_name(),
    ;

    fn resource_intensity(&self) -> (r: &GenericProcessResourceIntensity)
        ensures
            *r == self.spec_intensity(),
    ;

    fn set_name(&mut self, name: String)
        ensures
            final(self).spec_name() == name@,
            final(self).spec_id() == old(self).spec_id(),
            final(self).spec_intensity() == old(self).spec_intensity(),
            final(self).spec_slots() == old(self).spec_slots(),
    ;

    fn set_resource_intensity(&mut self, resource_intensity: GenericProcessResourceIntensity)
        ensures
            final(self).spec_intensity() == resource_intensity,
            final(self).spec_id() == old(self).spec_id(),
            final(self).spec_name() == old(self).spec_name(),
            final(self).spec_slots() == old(self).spec_slots(),
    ;

    fn resource_slot(&self) -> (r: &Vec<ResourceSlot>)
        ensures
            r@ == self.spec_slots(),
    ;

    fn resource_slot_mut(&mut self) -> (r: &mut Vec<ResourceSlot>)
        ensures
            (*r)@ == old(self).spec_slots(),
            final(self).spec_slots() == (*final(r))@,
            final(self).spec_id() == old(self).spec_id(),
            final(self).spec_name() == old(self).spec_name(),
            final(self).spec_intensity() == old(self).spec_intensity(),
    ;

    /// Removes the first slot that refers to `resource_id`; `None` when the
    /// process holds no slot for that resource.
    fn remove_resource(&mut self, resource_id: String) -> (r: Option<()>)
        ensures
            final(self).spec_id() == old(self).spec_id(),
            final(self).spec_name() == old(self).spec_name(),
            final(self).spec_intensity() == old(self).spec_intensity(),
            match r {
                Some(_) => has_slot_for(old(self).spec_slots(), resource_id@) && final(self).spec_slots() == old(self).spec_slots().remove(
                    first_match(old(self).spec_slots(), resource_id@),
                ),
                None => !has_slot_for(old(self).spec_slots(), resource_id@) && final(self).spec_slots() == old(self).spec_slots(),
            },
    ;

    /// Appends `slot` as it stands, unless its slot id or its resource is
    /// already taken within this process; reports whether it was added.
    fn add_resource_slot(&mut self, slot: ResourceSlot) -> (added: bool)
        ensures
            final(self).spec_id() == old(self).spec_id(),
            final(self).spec_name() == old(self).spec_name(),
            final(self).spec_intensity() == old(self).spec_intensity(),
            added == (!has_slot_with_id(old(self).spec_slots(), slot.id@) && !has_slot_for(
                old(self).spec_slots(),
                slot.resource_id@,
            )),
            added ==> final(self).spec_slots() == old(self).spec_slots().push(slot),
            !added ==> final(self).spec_slots() == old(self).spec_slots(),
            slots_wf(old(self).spec_slots()) && slot.wf() ==> slots_wf(final(self).spec_slots()),
    ;

    /// Appends a new slot for `resource` under a fresh random slot id; the
    /// demand starts at `amount`. `None` when the process already holds a
    /// slot for that resource, or when the drawn slot id happens to collide.
    fn add_resource(&mut self, resource: &GenericResource, amount: u64) -> (r: Option<()>)
        ensures
            final(self).spec_id() == old(self).spec_id(),
            final(self).spec_name() == old(self).spec_name(),
            final(self).spec_intensity() == old(self).spec_intensity(),
            has_slot_for(old(self).spec_slots(), resource.id@) ==> r is None,
            !has_slot_for(old(self).spec_slots(), resource.id@) && !has_slot_id_of_len(
                old(self).spec_slots(),
                7,
            ) ==> r is Some,
            r is None ==> final(self).spec_slots() == old(self).spec_slots(),
            r is Some ==> !has_slot_for(old(self).spec_slots(), resource.id@) && final(self).spec_slots().len() == old(self).spec_slots().len() + 1 && final(self).spec_slots().subrange(0, old(self).spec_slots().len() as int) == old(self).spec_slots() && final(self).spec_slots().last().resource_id@ == resource.id@ && final(self).spec_slots().last().base_amount == amount && final(self).spec_slots().last().current_amount == amount,
            r is Some && slots_wf(old(self).spec_slots()) ==> slots_wf(final(self).spec_slots()),
    ;

    /// Rolls once and decides whether this process acts on the current tick;
    /// an `Idle` process never acts and an `Extreme` one always does.
    fn should_perform_action(&self) -> (r: bool)
        ensures
            self.spec_intensity() is Idle ==> !r,
            self.spec_intensity() is Extreme ==> r,
            r ==> !(self.spec_intensity() is Idle),
    ;
}

/// A process that is eligible to run on the next tick.
pub struct ReadyProcess {
    pub name: String,
    pub id: String,
    pub resource_intensity: GenericProcessResourceIntensity,
    pub resource_slot: Vec<ResourceSlot>,
}

/// A process whose last activation failed to acquire some resource; it
/// waits to be unblocked.
pub struct BlockedProcess {
    pub name: String,
    pub id: String,
    pub resource_intensity: GenericProcessResourceIntensity,
    pub resource_slot: Vec<ResourceSlot>,
}

/// A process that is currently consuming its slot amounts.
pub struct WorkingProcess {
    pub name: String,
    pub id: String,
    pub resource_intensity: GenericProcessResourceIntensity,
    pub resource_slot: Vec<ResourceSlot>,
}

/// Namespace for building new processes.
pub struct Process {}

impl Process {
    /// Creates a process under a fresh random id; it starts Ready with an
    /// empty slot list.
    pub fn new(name: String, resource_intensity: GenericProcessResourceIntensity) -> (r:
        ReadyProcess)
        ensures
            r.name == name,
            r.resource_intensity == resource_intensity,
            r.resource_slot@.len() == 0,
            r.id@.len() == 7,
    {
        let resource_list = Vec::new();
        ReadyProcess {
            name,
            resource_intensity,
            resource_slot: resource_list,
            id: crate::ids::fresh_id(),
        }
    }

    /// Builds a Ready process from an already-drawn id.
    pub fn with_id(
        name: String,
        resource_intensity: GenericProcessResourceIntensity,
        id: String,
    ) -> (r: ReadyProcess)
        ensures
            r.name == name,
            r.resource_intensity == resource_intensity,
            r.resource_slot@.len() == 0,
            r.id == id,
    {
        ReadyProcess { name, resource_intensity, resource_slot: Vec::new(), id }
    }
}

impl AllProcessTraits for ReadyProcess {
    open spec fn spec_id(&self) -> Seq<char> {
        self.id@
    }

    open spec fn spec_name(&self) -> Seq<char> {
        self.name@
    }

    open spec fn spec_intensity(&self) -> GenericProcessResourceIntensity {
        self.resource_intensity
    }

    open spec fn spec_slots(&self) -> Seq<ResourceSlot> {
        self.resource_slot@
    }

    fn id(&self) -> (r: String) {
        self.id.clone()
    }

    fn name(&self) -> (r: String) {
        self.name.clone()
    }

    fn resource_intensity(&self) -> (r: &GenericProcessResourceIntensity) {
        &self.resource_intensity
    }

    fn set_name(&mut self, name: String) {
        self.name = name;
    }

    fn set_resource_intensity(&mut self, resource_intensity: GenericProcessResourceIntensity) {
        self.resource_intensity = resource_intensity;
    }

    fn resource_slot(&self) -> (r: &Vec<ResourceSlot>) {
        &self.resource_slot
    }

    fn resource_slot_mut(&mut self) -> (r: &mut Vec<ResourceSlot>) {
        &mut self.resource_slot
    }

    fn remove_resource(&mut self, resource_id: String) -> (r: Option<()>) {
        remove_slot_vec(&mut self.resource_slot, &resource_id)
    }

    fn add_resource_slot(&mut self, slot: ResourceSlot) -> (added: bool) {
        push_slot_vec(&mut self.resource_slot, slot)
    }

    fn add_resource(&mut self, resource: &GenericResource, amount: u64) -> (r: Option<()>) {
        let slot = ResourceSlot::new(resource, amount);
        let ghost s0 = self.resource_slot@;
        proof {
            if !has_slot_id_of_len(s0, 7) && has_slot_with_id(s0, slot.id@) {
                let w = choose|i: int| 0 <= i < s0.len() && s0[i].id@ == slot.id@;
                assert(s0[w].id@.len() == 7);
            }
        }
        if self.add_resource_slot(slot) {
            proof {
                assert(s0.push(slot).subrange(0, s0.len() as int) =~= s0);
            }
            Some(())
        } else {
            None
        }
    }

    fn should_perform_action(&self) -> (r: bool) {
        let roll = crate::roll::roll_permille();
        decide_action(roll, self.resource_intensity)
    }
}

impl AllProcessTraits for BlockedProcess {
    open spec fn spec_id(&self) -> Seq<char> {
        self.id@
    }

    open spec fn spec_name(&self) -> Seq<char> {
        self.name@
    }

    open spec fn spec_intensity(&self) -> GenericProcessResourceIntensity {
        self.resource_intensity
    }

    open spec fn spec_slots(&self) -> Seq<ResourceSlot> {
        self.resource_slot@
    }

    fn id(&self) -> (r: String) {
        self.id.clone()
    }

    fn name(&self) -> (r: String) {
        self.name.clone()
    }

    fn resource_intensity(&self) -> (r: &GenericProcessResourceIntensity) {
        &self.resource_intensity
    }

    fn set_name(&mut self, name: String) {
        self.name = name;
    }

    fn set_resource_intensity(&mut self, resource_intensity: GenericProcessResourceIntensity) {
        self.resource_intensity = resource_intensity;
    }

    fn resource_slot(&self) -> (r: &Vec<ResourceSlot>) {
        &self.resource_slot
    }

    fn resource_slot_mut(&mut self) -> (r: &mut Vec<ResourceSlot>) {
        &mut self.resource_slot
    }

    fn remove_resource(&mut self, resource_id: String) -> (r: Option<()>) {
        remove_slot_vec(&mut self.resource_slot, &resource_id)
    }

    fn add_resource_slot(&mut self, slot: ResourceSlot) -> (added: bool) {
        push_slot_vec(&mut self.resource_slot, slot)
    }

    fn add_resource(&mut self, resource: &GenericResource, amount: u64) -> (r: Option<()>) {
        let slot = ResourceSlot::new(resource, amount);
        let ghost s0 = self.resource_slot@;
        proof {
            if !has_slot_id_of_len(s0, 7) && has_slot_with_id(s0, slot.id@) {
                let w = choose|i: int| 0 <= i < s0.len() && s0[i].id@ == slot.id@;
                assert(s0[w].id@.len() == 7);
            }
        }
        if self.add_resource_slot(slot) {
            proof {
                assert(s0.push(slot).subrange(0, s0.len() as int) =~= s0);
            }
            Some(())
        } else {
            None
        }
    }

    fn should_perform_action(&self) -> (r: bool) {
        let roll = crate::roll::roll_permille();
        decide_action(roll, self.resource_intensity)
    }
}

impl AllProcessTraits for WorkingProcess {
    open spec fn spec_id(&self) -> Seq<char> {
        self.id@
    }

    open spec fn spec_name(&self) -> Seq<char> {
        self.name@
    }

    open spec fn spec_intensity(&self) -> GenericProcessResourceIntensity {
        self.resource_intensity
    }

    open spec fn spec_slots(&self) -> Seq<ResourceSlot> {
        self.resource_slot@
    }

    fn id(&self) -> (r: String) {
        self.id.clone()
    }

    fn name(&self) -> (r: String) {
        self.name.clone()
    }

    fn resource_intensity(&self) -> (r: &GenericProcessResourceIntensity) {
        &self.resource_intensity
    }

    fn set_name(&mut self, name: String) {
        self.name = name;
    }

    fn set_resource_intensity(&mut self, resource_intensity: GenericProcessResourceIntensity) {
        self.resource_intensity = resource_intensity;
    }

    fn resource_slot(&self) -> (r: &Vec<ResourceSlot>) {
        &self.resource_slot
    }

    fn resource_slot_mut(&mut self) -> (r: &mut Vec<ResourceSlot>) {
        &mut self.resource_slot
    }

    fn remove_resource(&mut self, resource_id: String) -> (r: Option<()>) {
        remove_slot_vec(&mut self.resource_slot, &resource_id)
    }

    fn add_resource_slot(&mut self, slot: ResourceSlot) -> (added: bool) {
        push_slot_vec(&mut self.resource_slot, slot)
    }

    fn add_resource(&mut self, resource: &GenericResource, amount: u64) -> (r: Option<()>) {
        let slot = ResourceSlot::new(resource, amount);
        let ghost s0 = self.resource_slot@;
        proof {
            if !has_slot_id_of_len(s0, 7) && has_slot_with_id(s0, slot.id@) {
                let w = choose|i: int| 0 <= i < s0.len() && s0[i].id@ == slot.id@;
                assert(s0[w].id@.len() == 7);
            }
        }
        if self.add_resource_slot(slot) {
            proof {
                assert(s0.push(slot).subrange(0, s0.len() as int) =~= s0);
            }
            Some(())
        } else {
            None
        }
    }

    fn should_perform_action(&self) -> (r: bool) {
        let roll = crate::roll::roll_permille();
        decide_action(roll, self.resource_intensity)
    }
}

impl ReadyProcess {
    /// Ready → Working: the process starts consuming its slot amounts.
    /// The transition preserves id, name, intensity and the slot list.
    pub fn run(self) -> (w: WorkingProcess)
        ensures
            w.name == self.name,
            w.id == self.id,
            w.resource_intensity == self.resource_intensity,
            w.resource_slot == self.resource_slot,
    {
        WorkingProcess {
            name: self.name,
            resource_intensity: self.resource_intensity,
            resource_slot: self.resource_slot,
            id: self.id,
        }
    }

    /// Ready → Blocked: an activation failed to acquire some resource.
    /// The transition preserves id, name, intensity and the slot list.
    pub fn block(self) -> (b: BlockedProcess)
        ensures
            b.name == self.name,
            b.id == self.id,
            b.resource_intensity == self.resource_intensity,
            b.resource_slot == self.resource_slot,
    {
        BlockedProcess {
            name: self.name,
            resource_intensity: self.resource_intensity,
            resource_slot: self.resource_slot,
            id: self.id,
        }
    }
}

impl BlockedProcess {
    /// Blocked → Ready: the process becomes eligible again.
    /// The transition preserves id, name, intensity and the slot list.
    pub fn unblock(self) -> (r: ReadyProcess)
        ensures
            r.name == self.name,
            r.id == self.id,
            r.resource_intensity == self.resource_intensity,
            r.resource_slot == self.resource_slot,
    {
        ReadyProcess {
            name: self.name,
            resource_intensity: self.resource_intensity,
            resource_slot: self.resource_slot,
            id: self.id,
        }
    }
}

impl WorkingProcess {
    /// Working → Ready: the activation is over.
    /// The transition preserves id, name, intensity and the slot list.
    pub fn finish(self) -> (r: ReadyProcess)
        ensures
            r.name == self.name,
            r.id == self.id,
            r.resource_intensity == self.resource_intensity,
            r.resource_slot == self.resource_slot,
    {
        ReadyProcess {
            name: self.name,
            resource_intensity: self.resource_intensity,
            resource_slot: self.resource_slot,
            id: self.id,
        }
    }
}

impl Clone for ReadyProcess {
    fn clone(&self) -> (r: Self)
        ensures
            r.name == self.name,
            r.id == self.id,
            r.resource_intensity == self.resource_intensity,
            r.resource_slot@ == self.resource_slot@,
    {
        let r = ReadyProcess {
            name: self.name.clone(),
            id: self.id.clone(),
            resource_intensity: self.resource_intensity,
            resource_slot: self.resource_slot.clone(),
        };
        proof {
            assert(r.resource_slot@ =~= self.resource_slot@);
        }
        r
    }
}

impl Clone for BlockedProcess {
    fn clone(&self) -> (r: Self)
        ensures
            r.name == self.name,
            r.id == self.id,
            r.resource_intensity == self.resource_intensity,
            r.resource_slot@ == self.resource_slot@,
    {
        let r = BlockedProcess {
            name: self.name.clone(),
            id: self.id.clone(),
            resource_intensity: self.resource_intensity,
            resource_slot: self.resource_slot.clone(),
        };
        proof {
            assert(r.resource_slot@ =~= self.resource_slot@);
        }
        r
    }
}

impl Clone for WorkingProcess {
    fn clone(&self) -> (r: Self)
        ensures
            r.name == self.name,
            r.id == self.id,
            r.resource_intensity == self.resource_intensity,
            r.resource_slot@ == self.resource_slot@,
    {
        let r = WorkingProcess {
            name: self.name.clone(),
            id: self.id.clone(),
            resource_intensity: self.resource_intensity,
            resource_slot: self.resource_slot.clone(),
        };
        proof {
            assert(r.resource_slot@ =~= self.resource_slot@);
        }
        r
    }
}

/// A process in whichever of the three lifecycle states it currently holds.
pub enum ProcessStates {
    Ready(ReadyProcess),
    Blocked(BlockedProcess),
    Working(WorkingProcess),
}

pub open spec fn proc_id(p: ProcessStates) -> Seq<char> {
    match p {
        ProcessStates::Ready(q) => q.id@,
        ProcessStates::Blocked(q) => q.id@,
        ProcessStates::Working(q) => q.id@,
    }
}

pub open spec fn proc_name(p: ProcessStates) -> Seq<char> {
    match p {
        ProcessStates::Ready(q) => q.name@,
        ProcessStates::Blocked(q) => q.name@,
        ProcessStates::Working(q) => q.name@,
    }
}

pub open spec fn proc_intensity(p: ProcessStates) -> GenericProcessResourceIntensity {
    match p {
        ProcessStates::Ready(q) => q.resource_intensity,
        ProcessStates::Blocked(q) => q.resource_intensity,
        ProcessStates::Working(q) => q.resource_intensity,
    }
}

pub open spec fn proc_slots(p: ProcessStates) -> Seq<ResourceSlot> {
    match p {
        ProcessStates::Ready(q) => q.resource_slot@,
        ProcessStates::Blocked(q) => q.resource_slot@,
        ProcessStates::Working(q) => q.resource_slot@,
    }
}

pub open spec fn proc_wf(p: ProcessStates) -> bool {
    slots_wf(proc_slots(p))
}

impl ProcessStates {
    /// The id of the process, in whichever state it is.
    pub fn state_id(&self) -> (r: String)
        ensures
            r@ == proc_id(*self),
    {
        match self {
            ProcessStates::Ready(q) => q.id.clone(),
            ProcessStates::Blocked(q) => q.id.clone(),
            ProcessStates::Working(q) => q.id.clone(),
        }
    }
}

impl Clone for ProcessStates {
    fn clone(&self) -> (r: Self)
        ensures
            r is Ready <==> *self is Ready,
            r is Blocked <==> *self is Blocked,
            r is Working <==> *self is Working,
            proc_id(r) == proc_id(*self),
            proc_name(r) == proc_name(*self),
            proc_intensity(r) == proc_intensity(*self),
            proc_slots(r) == proc_slots(*self),
    {
        match self {
            ProcessStates::Ready(q) => ProcessStates::Ready(q.clone()),
            ProcessStates::Blocked(q) => ProcessStates::Blocked(q.clone()),
            ProcessStates::Working(q) => ProcessStates::Working(q.clone()),
        }
    }
}

/// What a slot's demand becomes when the given roll is applied to a
/// process of the given intensity: under the threshold the demand is the
/// rolled per-mille fraction of the base; otherwise it is unchanged.
pub open spec fn prepared_slot(
    slot: ResourceSlot,
    intensity: GenericProcessResourceIntensity,
    roll: u64,
) -> ResourceSlot {
    if roll < intensity_threshold(intensity) {
        ResourceSlot { current_amount: ((slot.base_amount as int) * (roll as int) / 1000) as u64, ..slot }
    } else {
        slot
    }
}

/// The rolled fraction of the base never exceeds the base itself.
proof fn lemma_scaled_demand_bound(b: int, r: int)
    requires
        0 <= b,
        0 <= r < 1000,
    ensures
        0 <= b * r / 1000 <= b,
{
    assert(0 <= b * r && b * r <= b * 1000) by (nonlinear_arith)
        requires
            0 <= b,
            0 <= r < 1000,
    ;
    vstd::arithmetic::div_mod::lemma_div_is_ordered(b * r, b * 1000, 1000);
    vstd::arithmetic::div_mod::lemma_div_multiples_vanish(b, 1000);
    assert(1000 * b == b * 1000);
    assert(0 <= b * r / 1000) by {
        vstd::arithmetic::div_mod::lemma_div_is_ordered(0, b * r, 1000);
    }
}

/// Computes the rolled per-mille fraction of `base`, in wide arithmetic so
/// that no intermediate overflows.
pub fn scaled_demand(base: u64, roll: u64) -> (r: u64)
    requires
        roll < 1000,
    ensures
        r == (base as int) * (roll as int) / 1000,
        r <= base,
{
    proof {
        lemma_scaled_demand_bound(base as int, roll as int);
        assert((base as int) * (roll as int) <= 0xffff_ffff_ffff_ffff * 1000) by (nonlinear_arith)
            requires
                base <= 0xffff_ffff_ffff_ffff,
                roll < 1000,
        ;
    }
    (((base as u128) * (roll as u128)) / 1000) as u64
}

impl ReadyProcess {
    /// Reworks every slot's current demand from the given rolls: slot `i`
    /// becomes `prepared_slot` of itself under roll `i`.
    pub fn prepare_with_rolls(&mut self, rolls: &Vec<u64>)
        requires
            rolls@.len() == old(self).resource_slot@.len(),
            forall|i: int| 0 <= i < rolls@.len() ==> rolls@[i] < 1000,
        ensures
            final(self).name == old(self).name,
            final(self).id == old(self).id,
            final(self).resource_intensity == old(self).resource_intensity,
            final(self).resource_slot@.len() == old(self).resource_slot@.len(),
            forall|i: int|
                0 <= i < old(self).resource_slot@.len() ==> final(self).resource_slot@[i]
                    == prepared_slot(
                    old(self).resource_slot@[i],
                    old(self).resource_intensity,
                    rolls@[i],
                ),
            slots_wf(old(self).resource_slot@) ==> slots_wf(final(self).resource_slot@),
    {
        let intensity = self.resource_intensity;
        let n = self.resource_slot.len();
        let mut i: usize = 0;
        while i < n
            invariant
                i <= n,
                n == self.resource_slot@.len(),
                n == rolls@.len(),
                forall|k: int| 0 <= k < rolls@.len() ==> rolls@[k] < 1000,
                intensity == old(self).resource_intensity,
                self.name == old(self).name,
                self.id == old(self).id,
                self.resource_intensity == old(self).resource_intensity,
                old(self).resource_slot@.len() == n,
                forall|j: int|
                    0 <= j < i ==> self.resource_slot@[j] == prepared_slot(
                        old(self).resource_slot@[j],
                        intensity,
                        rolls@[j],
                    ),
                forall|j: int| i <= j < n ==> self.resource_slot@[j] == old(self).resource_slot@[j],
            decreases n - i,
        {
            let roll = rolls[i];
            if decide_action(roll, intensity) {
                let base = self.resource_slot[i].base_amount;
                let v = scaled_demand(base, roll);
                let updated = ResourceSlot {
                    resource_id: self.resource_slot[i].resource_id.clone(),
                    id: self.resource_slot[i].id.clone(),
                    current_amount: v,
                    base_amount: base,
                };
                self.resource_slot.set(i, updated);
            }
            i += 1;
        }
        proof {
            if slots_wf(old(self).resource_slot@) {
                assert forall|k: int|
                    0 <= k < self.resource_slot@.len() implies (
                #[trigger] self.resource_slot@[k]).wf() by {
                    lemma_scaled_demand_bound(
                        old(self).resource_slot@[k].base_amount as int,
                        rolls@[k] as int,
                    );
                }
                assert(slots_wf(self.resource_slot@));
            }
        }
    }

    /// Reworks every slot's current demand from one fresh roll per slot;
    /// an `Idle` process is left untouched.
    pub fn prepare(&mut self)
        ensures
            final(self).name == old(self).name,
            final(self).id == old(self).id,
            final(self).resource_intensity == old(self).resource_intensity,
            final(self).resource_slot@.len() == old(self).resource_slot@.len(),
            forall|i: int|
                0 <= i < old(self).resource_slot@.len() ==> {
                    &&& (#[trigger] final(self).resource_slot@[i]).id == old(
                        self,
                    ).resource_slot@[i].id
                    &&& final(self).resource_slot@[i].resource_id == old(
                        self,
                    ).resource_slot@[i].resource_id
                    &&& final(self).resource_slot@[i].base_amount == old(
                        self,
                    ).resource_slot@[i].base_amount
                    &&& (final(self).resource_slot@[i].current_amount == old(
                        self,
                    ).resource_slot@[i].current_amount || final(self).resource_slot@[i].current_amount
                        <= final(self).resource_slot@[i].base_amount)
                },
            old(self).resource_intensity is Idle ==> final(self).resource_slot@ == old(
                self,
            ).resource_slot@,
            exists|rolls: Seq<u64>|
                #![trigger rolls.len()]
                rolls.len() == old(self).resource_slot@.len() && (forall|i: int|
                    0 <= i < rolls.len() ==> rolls[i] < 1000) && (forall|i: int|
                    0 <= i < old(self).resource_slot@.len() ==> final(self).resource_slot@[i]
                        == prepared_slot(
                        old(self).resource_slot@[i],
                        old(self).resource_intensity,
                        rolls[i],
                    )),
            slots_wf(old(self).resource_slot@) ==> slots_wf(final(self).resource_slot@),
    {
        if threshold_of(self.resource_intensity) == 0 {
            proof {
                let rolls = Seq::<u64>::new(self.resource_slot@.len(), |i: int| 0u64);
                assert(rolls.len() == self.resource_slot@.len() && (forall|i: int|
                    0 <= i < rolls.len() ==> rolls[i] < 1000) && (forall|i: int|
                    0 <= i < self.resource_slot@.len() ==> self.resource_slot@[i] == prepared_slot(
                        self.resource_slot@[i],
                        self.resource_intensity,
                        rolls[i],
                    )));
            }
            return ;
        }
        let n = self.resource_slot.len();
        let mut rolls: Vec<u64> = Vec::new();
        let mut i: usize = 0;
        while i < n
            invariant
                i <= n,
                rolls@.len() == i,
                forall|k: int| 0 <= k < i ==> rolls@[k] < 1000,
            decreases n - i,
        {
            rolls.push(crate::roll::roll_permille());
            i += 1;
        }
        let ghost pre = self.resource_slot@;
        self.prepare_with_rolls(&rolls);
        proof {
            assert forall|k: int| 0 <= k < pre.len() implies (
            #[trigger] self.resource_slot@[k]).current_amount == pre[k].current_amount || self
                .resource_slot@[k].current_amount <= self.resource_slot@[k].base_amount by {
                lemma_scaled_demand_bound(pre[k].base_amount as int, rolls@[k] as int);
            }
            assert(rolls@.len() == pre.len() && (forall|i: int|
                0 <= i < rolls@.len() ==> rolls@[i] < 1000) && (forall|i: int|
                0 <= i < pre.len() ==> self.resource_slot@[i] == prepared_slot(
                    pre[i],
                    old(self).resource_intensity,
                    rolls@[i],
                )));
        }
    }
}

/// Every process is in exactly one of the three lifecycle states.
pub proof fn lemma_state_exclusive(p: ProcessStates)
    ensures
        p is Ready || p is Blocked || p is Working,
        !(p is Ready && p is Blocked),
        !(p is Ready && p is Working),
        !(p is Blocked && p is Working),
{
}

} // verus!

