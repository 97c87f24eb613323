use vstd::prelude::*;

use crate::process::{
    first_match, has_slot_for, has_slot_id_of_len, has_slot_with_id, proc_id, proc_intensity,
    proc_name, proc_slots, proc_wf, slots_wf, AllProcessTraits, GenericProcessResourceIntensity,
    Process, ProcessStates, ReadyProcess, ResourceSlot,
};
use crate::resource::GenericResource;
use crate::simulation::{
    first_proc_index, first_res_index, found_process, has_proc_id_of_len, has_process,
    has_resource, procs_wf, registry_wf, stopped_state, vec_find_process, vec_find_resource,
    AllSimulationTrait, RunningSimulation,
};

verus! {

/// The tagged errors the command surface reports to the host.
#[derive(Clone, Copy, PartialEq, Eq, Structural, Debug)]
pub enum CommandError {
    /// A referenced id does not exist.
    NotFound,
    /// A malformed argument, such as a duplicate slot for one resource.
    Invalid,
}

/// Two process values that agree on state, id, name and intensity.
pub open spec fn same_process_identity(a: ProcessStates, b: ProcessStates) -> bool {
    &&& (a is Ready <==> b is Ready)
    &&& (a is Blocked <==> b is Blocked)
    &&& (a is Working <==> b is Working)
    &&& proc_id(a) == proc_id(b)
    &&& proc_name(a) == proc_name(b)
    &&& proc_intensity(a) == proc_intensity(b)
}

/// `s1` is `s0` with at most the entry at `i` rewritten.
pub open spec fn updated_at(s0: Seq<ProcessStates>, s1: Seq<ProcessStates>, i: int) -> bool {
    s1.len() == s0.len() && forall|j: int| 0 <= j < s0.len() && j != i ==> s1[j] == s0[j]
}

/// Rewriting one process without touching its id or breaking its slot
/// list keeps the registry well-formed.
proof fn lemma_procs_wf_update(s0: Seq<ProcessStates>, s1: Seq<ProcessStates>, i: int)
    requires
        procs_wf(s0),
        0 <= i < s0.len(),
        updated_at(s0, s1, i),
        proc_id(s1[i]) == proc_id(s0[i]),
        proc_wf(s1[i]),
    ensures
        procs_wf(s1),
{
    assert forall|a: int, b: int| 0 <= a < b < s1.len() implies proc_id(#[trigger] s1[a])
        != proc_id(#[trigger] s1[b]) by {
        assert(proc_id(s1[a]) == proc_id(s0[a]));
        assert(proc_id(s1[b]) == proc_id(s0[b]));
    }
    assert forall|a: int| 0 <= a < s1.len() implies proc_wf(#[trigger] s1[a]) by {
        if a != i {
            assert(s1[a] == s0[a]);
        }
    }
}

/// Removing a slot keeps a slot list well-formed.
proof fn lemma_slots_wf_remove(s: Seq<ResourceSlot>, i: int)
    requires
        slots_wf(s),
        0 <= i < s.len(),
    ensures
        slots_wf(s.remove(i)),
{
    let s1 = s.remove(i);
    assert forall|a: int, b: int| 0 <= a < b < s1.len() implies (#[trigger] s1[a]).id@ != (
    #[trigger] s1[b]).id@ && s1[a].resource_id@ != s1[b].resource_id@ by {
        let a0: int = if a < i {
            a
        } else {
            a + 1
        };
        let b0: int = if b < i {
            b
        } else {
            b + 1
        };
        assert(s1[a] == s[a0] && s1[b] == s[b0]);
    }
    assert forall|a: int| 0 <= a < s1.len() implies (#[trigger] s1[a]).wf() by {
        let a0: int = if a < i {
            a
        } else {
            a + 1
        };
        assert(s1[a] == s[a0]);
    }
}

/// The process's name, in whichever state it is.
fn state_name(p: &ProcessStates) -> (r: String)
    ensures
        r@ == proc_name(*p),
{
    match p {
        ProcessStates::Ready(q) => q.name.clone(),
        ProcessStates::Blocked(q) => q.name.clone(),
        ProcessStates::Working(q) => q.name.clone(),
    }
}

/// The process's intensity, in whichever state it is.
fn state_intensity(p: &ProcessStates) -> (r: GenericProcessResourceIntensity)
    ensures
        r == proc_intensity(*p),
{
    match p {
        ProcessStates::Ready(q) => q.resource_intensity,
        ProcessStates::Blocked(q) => q.resource_intensity,
        ProcessStates::Working(q) => q.resource_intensity,
    }
}

/// The same process with its name replaced.
fn state_with_name(p: &ProcessStates, name: String) -> (r: ProcessStates)
    ensures
        r is Ready <==> *p is Ready,
        r is Blocked <==> *p is Blocked,
        r is Working <==> *p is Working,
        proc_id(r) == proc_id(*p),
        proc_name(r) == name@,
        proc_intensity(r) == proc_intensity(*p),
        proc_slots(r) == proc_slots(*p),
{
    match p {
        ProcessStates::Ready(q) => {
            let mut q2 = q.clone();
            q2.set_name(name);
            ProcessStates::Ready(q2)
        },
        ProcessStates::Blocked(q) => {
            let mut q2 = q.clone();
            q2.set_name(name);
            ProcessStates::Blocked(q2)
        },
        ProcessStates::Working(q) => {
            let mut q2 = q.clone();
            q2.set_name(name);
            ProcessStates::Working(q2)
        },
    }
}

/// The same process with its intensity replaced.
fn state_with_intensity(p: &ProcessStates, intensity: GenericProcessResourceIntensity) -> (r:
    ProcessStates)
    ensures
        r is Ready <==> *p is Ready,
        r is Blocked <==> *p is Blocked,
        r is Working <==> *p is Working,
        proc_id(r) == proc_id(*p),
        proc_name(r) == proc_name(*p),
        proc_intensity(r) == intensity,
        proc_slots(r) == proc_slots(*p),
{
    match p {
        ProcessStates::Ready(q) => {
            let mut q2 = q.clone();
            q2.set_resource_intensity(intensity);
            ProcessStates::Ready(q2)
        },
        ProcessStates::Blocked(q) => {
            let mut q2 = q.clone();
            q2.set_resource_intensity(intensity);
            ProcessStates::Blocked(q2)
        },
        ProcessStates::Working(q) => {
            let mut q2 = q.clone();
            q2.set_resource_intensity(intensity);
            ProcessStates::Working(q2)
        },
    }
}

/// The same process with `slot` appended, unless the slot's id or its
/// resource is already taken; the flag reports whether it was appended.
fn state_add_slot(p: &ProcessStates, slot: ResourceSlot) -> (r: (ProcessStates, bool))
    ensures
        same_process_identity(*p, r.0),
        r.1 == (!has_slot_with_id(proc_slots(*p), slot.id@) && !has_slot_for(
            proc_slots(*p),
            slot.resource_id@,
        )),
        r.1 ==> proc_slots(r.0) == proc_slots(*p).push(slot),
        !r.1 ==> proc_slots(r.0) == proc_slots(*p),
        slots_wf(proc_slots(*p)) && slot.wf() ==> slots_wf(proc_slots(r.0)),
{
    match p {
        ProcessStates::Ready(q) => {
            let mut q2 = q.clone();
            let added = q2.add_resource_slot(slot);
            (ProcessStates::Ready(q2), added)
        },
        ProcessStates::Blocked(q) => {
            let mut q2 = q.clone();
            let added = q2.add_resource_slot(slot);
            (ProcessStates::Blocked(q2), added)
        },
        ProcessStates::Working(q) => {
            let mut q2 = q.clone();
            let added = q2.add_resource_slot(slot);
            (ProcessStates::Working(q2), added)
        },
    }
}

/// The same process with the first slot for `resource_id` removed, when
/// one is there.
fn state_remove_slot(p: &ProcessStates, resource_id: &String) -> (r: ProcessStates)
    ensures
        same_process_identity(*p, r),
        proc_slots(r) == (if has_slot_for(proc_slots(*p), resource_id@) {
            proc_slots(*p).remove(first_match(proc_slots(*p), resource_id@))
        } else {
            proc_slots(*p)
        }),
        slots_wf(proc_slots(*p)) ==> slots_wf(proc_slots(r)),
{
    let ghost s0 = proc_slots(*p);
    let r = match p {
        ProcessStates::Ready(q) => {
            let mut q2 = q.clone();
            q2.remove_resource(resource_id.clone());
            ProcessStates::Ready(q2)
        },
        ProcessStates::Blocked(q) => {
            let mut q2 = q.clone();
            q2.remove_resource(resource_id.clone());
            ProcessStates::Blocked(q2)
        },
        ProcessStates::Working(q) => {
            let mut q2 = q.clone();
            q2.remove_resource(resource_id.clone());
            ProcessStates::Working(q2)
        },
    };
    proof {
        if slots_wf(s0) && has_slot_for(s0, resource_id@) {
            crate::process::lemma_first_match(s0, resource_id@);
            lemma_slots_wf_remove(s0, first_match(s0, resource_id@));
        }
    }
    r
}

/// Creates a process under a fresh id, inserts it Ready into the
/// registry, and returns it. In the (vanishingly rare) event that the
/// drawn id is already taken, the registry is left unchanged.
pub fn create_process<S: AllSimulationTrait>(
    sim: &mut S,
    name: String,
    resource_intensity: GenericProcessResourceIntensity,
) -> (r: ReadyProcess)
    ensures
        r.name == name,
        r.resource_intensity == resource_intensity,
        r.resource_slot@.len() == 0,
        r.id@.len() == 7,
        final(sim).spec_resources() == old(sim).spec_resources(),
        final(sim).spec_speed() == old(sim).spec_speed(),
        final(sim).spec_last_speed() == old(sim).spec_last_speed(),
        has_process(old(sim).spec_processes(), r.id@) ==> final(sim).spec_processes() == old(sim).spec_processes(),
        !has_proc_id_of_len(old(sim).spec_processes(), 7) ==> !has_process(
            old(sim).spec_processes(),
            r.id@,
        ),
        !has_process(old(sim).spec_processes(), r.id@) ==> {
            &&& final(sim).spec_processes().len() == old(sim).spec_processes().len() + 1
            &&& final(sim).spec_processes().subrange(
                0,
                old(sim).spec_processes().len() as int,
            ) == old(sim).spec_processes()
            &&& final(sim).spec_processes().last() is Ready
            &&& proc_id(final(sim).spec_processes().last()) == r.id@
            &&& proc_name(final(sim).spec_processes().last()) == name@
            &&& proc_intensity(final(sim).spec_processes().last()) == resource_intensity
            &&& proc_slots(final(sim).spec_processes().last()).len() == 0
        },
        registry_wf(old(sim).spec_processes(), old(sim).spec_resources()) ==> registry_wf(
            final(sim).spec_processes(),
            final(sim).spec_resources(),
        ),
{
    let new_process = Process::new(name, resource_intensity);
    let wrapped = ProcessStates::Ready(new_process.clone());
    let ghost procs0 = sim.spec_processes();
    proof {
        if !has_proc_id_of_len(procs0, 7) && has_process(procs0, new_process.id@) {
            crate::simulation::lemma_first_proc_index(procs0, new_process.id@);
            let w = first_proc_index(procs0, new_process.id@);
            assert(proc_id(procs0[w]).len() == 7);
        }
    }
    sim.add_process(wrapped);
    proof {
        if !has_process(procs0, new_process.id@) {
            assert(procs0.push(wrapped).subrange(0, procs0.len() as int) =~= procs0);
        }
    }
    new_process
}

/// Convenience command: creates a process and inserts it Ready, without
/// returning a snapshot.
pub fn simulation_add_process<S: AllSimulationTrait>(
    sim: &mut S,
    name: String,
    resource_intensity: GenericProcessResourceIntensity,
)
    ensures
        final(sim).spec_resources() == old(sim).spec_resources(),
        final(sim).spec_speed() == old(sim).spec_speed(),
        final(sim).spec_last_speed() == old(sim).spec_last_speed(),
        final(sim).spec_processes().len() == old(sim).spec_processes().len() || final(sim).spec_processes().len() == old(sim).spec_processes().len() + 1,
        final(sim).spec_processes().subrange(0, old(sim).spec_processes().len() as int) == old(sim).spec_processes(),
        !has_proc_id_of_len(old(sim).spec_processes(), 7) ==> final(sim).spec_processes().len()
            == old(sim).spec_processes().len() + 1,
        final(sim).spec_processes().len() == old(sim).spec_processes().len() + 1 ==> {
            &&& final(sim).spec_processes().last() is Ready
            &&& proc_name(final(sim).spec_processes().last()) == name@
            &&& proc_intensity(final(sim).spec_processes().last()) == resource_intensity
            &&& proc_slots(final(sim).spec_processes().last()).len() == 0
        },
        registry_wf(old(sim).spec_processes(), old(sim).spec_resources()) ==> registry_wf(
            final(sim).spec_processes(),
            final(sim).spec_resources(),
        ),
{
    let ghost procs0 = sim.spec_processes();
    let created = create_process(sim, name, resource_intensity);
    proof {
        if has_process(procs0, created.id@) {
            assert(sim.spec_processes().subrange(0, procs0.len() as int) =~= procs0);
        }
    }
}

/// Appends the given, fully formed slot to the identified process.
/// `NotFound` exactly when the process id is unknown; `Invalid` exactly
/// when the process already holds a slot with that slot id or for that
/// resource.
pub fn process_add_resource_slot<S: AllSimulationTrait>(
    sim: &mut S,
    process_id: &String,
    slot: ResourceSlot,
) -> (r: Result<(), CommandError>)
    requires
        slot.wf(),
    ensures
        final(sim).spec_resources() == old(sim).spec_resources(),
        final(sim).spec_speed() == old(sim).spec_speed(),
        final(sim).spec_last_speed() == old(sim).spec_last_speed(),
        (r == Err::<(), CommandError>(CommandError::NotFound)) <==> !has_process(
            old(sim).spec_processes(),
            process_id@,
        ),
        (r == Err::<(), CommandError>(CommandError::Invalid)) <==> (has_process(
            old(sim).spec_processes(),
            process_id@,
        ) && (has_slot_with_id(
            proc_slots(found_process(old(sim).spec_processes(), process_id@)),
            slot.id@,
        ) || has_slot_for(
            proc_slots(found_process(old(sim).spec_processes(), process_id@)),
            slot.resource_id@,
        ))),
        r is Err ==> final(sim).spec_processes() == old(sim).spec_processes(),
        r is Ok ==> {
            &&& updated_at(
                old(sim).spec_processes(),
                final(sim).spec_processes(),
                first_proc_index(old(sim).spec_processes(), process_id@),
            )
            &&& same_process_identity(
                found_process(old(sim).spec_processes(), process_id@),
                final(sim).spec_processes()[first_proc_index(
                    old(sim).spec_processes(),
                    process_id@,
                )],
            )
            &&& proc_slots(
                final(sim).spec_processes()[first_proc_index(
                    old(sim).spec_processes(),
                    process_id@,
                )],
            ) == proc_slots(found_process(old(sim).spec_processes(), process_id@)).push(slot)
        },
        registry_wf(old(sim).spec_processes(), old(sim).spec_resources()) ==> registry_wf(
            final(sim).spec_processes(),
            final(sim).spec_resources(),
        ),
{
    let ghost procs0 = sim.spec_processes();
    let ghost ress0 = sim.spec_resources();
    let procs = sim.processes_mut();
    match vec_find_process(procs, process_id) {
        None => Err(CommandError::NotFound),
        Some(i) => {
            let (updated, added) = state_add_slot(&procs[i], slot);
            if added {
                proof {
                    if registry_wf(procs0, ress0) {
                        lemma_procs_wf_update(procs0, procs@.update(i as int, updated), i as int);
                    }
                }
                procs.set(i, updated);
                Ok(())
            } else {
                Err(CommandError::Invalid)
            }
        },
    }
}

/// Appends a new slot on the identified resource to the identified
/// process, with both the base and the current demand set to `amount`.
/// `NotFound` exactly when either id is unknown; `Invalid` when the
/// process already has a slot for that resource (or, rarely, when the
/// freshly drawn slot id collides).
pub fn process_add_resource<S: AllSimulationTrait>(
    sim: &mut S,
    process_id: &String,
    resource_id: &String,
    amount: u64,
) -> (r: Result<(), CommandError>)
    ensures
        final(sim).spec_resources() == old(sim).spec_resources(),
        final(sim).spec_speed() == old(sim).spec_speed(),
        final(sim).spec_last_speed() == old(sim).spec_last_speed(),
        (r == Err::<(), CommandError>(CommandError::NotFound)) <==> (!has_process(
            old(sim).spec_processes(),
            process_id@,
        ) || !has_resource(old(sim).spec_resources(), resource_id@)),
        has_process(old(sim).spec_processes(), process_id@) && has_resource(
            old(sim).spec_resources(),
            resource_id@,
        ) && has_slot_for(
            proc_slots(found_process(old(sim).spec_processes(), process_id@)),
            resource_id@,
        ) ==> r == Err::<(), CommandError>(CommandError::Invalid),
        has_process(old(sim).spec_processes(), process_id@) && has_resource(
            old(sim).spec_resources(),
            resource_id@,
        ) && !has_slot_for(
            proc_slots(found_process(old(sim).spec_processes(), process_id@)),
            resource_id@,
        ) && !has_slot_id_of_len(
            proc_slots(found_process(old(sim).spec_processes(), process_id@)),
            7,
        ) ==> r is Ok,
        r is Err ==> final(sim).spec_processes() == old(sim).spec_processes(),
        r is Ok ==> {
            &&& updated_at(
                old(sim).spec_processes(),
                final(sim).spec_processes(),
                first_proc_index(old(sim).spec_processes(), process_id@),
            )
            &&& same_process_identity(
                found_process(old(sim).spec_processes(), process_id@),
                final(sim).spec_processes()[first_proc_index(
                    old(sim).spec_processes(),
                    process_id@,
                )],
            )
            &&& proc_slots(
                final(sim).spec_processes()[first_proc_index(
                    old(sim).spec_processes(),
                    process_id@,
                )],
            ).len() == proc_slots(found_process(old(sim).spec_processes(), process_id@)).len() + 1
            &&& proc_slots(
                final(sim).spec_processes()[first_proc_index(
                    old(sim).spec_processes(),
                    process_id@,
                )],
            ).last().resource_id@ == resource_id@
            &&& proc_slots(
                final(sim).spec_processes()[first_proc_index(
                    old(sim).spec_processes(),
                    process_id@,
                )],
            ).last().base_amount == amount
            &&& proc_slots(
                final(sim).spec_processes()[first_proc_index(
                    old(sim).spec_processes(),
                    process_id@,
                )],
            ).last().current_amount == amount
            &&& proc_slots(
                final(sim).spec_processes()[first_proc_index(
                    old(sim).spec_processes(),
                    process_id@,
                )],
            ).subrange(
                0,
                proc_slots(found_process(old(sim).spec_processes(), process_id@)).len() as int,
            ) == proc_slots(found_process(old(sim).spec_processes(), process_id@))
        },
        registry_wf(old(sim).spec_processes(), old(sim).spec_resources()) ==> registry_wf(
            final(sim).spec_processes(),
            final(sim).spec_resources(),
        ),
{
    let has_proc = match vec_find_process(sim.processes(), process_id) {
        Some(_) => true,
        None => false,
    };
    let resource = match vec_find_resource(sim.resources(), resource_id) {
        Some(ri) => {
            if !has_proc {
                return Err(CommandError::NotFound);
            }
            sim.resources()[ri].clone()
        },
        None => {
            return Err(CommandError::NotFound);
        },
    };
    let slot = ResourceSlot::new(&resource, amount);
    let ghost procs0 = sim.spec_processes();
    let r = process_add_resource_slot(sim, process_id, slot);
    proof {
        let fslots = proc_slots(found_process(procs0, process_id@));
        if has_process(procs0, process_id@) && !has_slot_for(fslots, resource_id@)
            && !has_slot_id_of_len(fslots, 7) {
            assert(slot.resource_id@ == resource_id@);
            assert(!has_slot_with_id(fslots, slot.id@)) by {
                if has_slot_with_id(fslots, slot.id@) {
                    let w = choose|i: int| 0 <= i < fslots.len() && fslots[i].id@ == slot.id@;
                    assert(fslots[w].id@.len() == 7);
                    assert(has_slot_id_of_len(fslots, 7));
                }
            }
            assert(r != Err::<(), CommandError>(CommandError::NotFound));
            assert(r != Err::<(), CommandError>(CommandError::Invalid));
            if r is Err {
                let e = r->Err_0;
                assert(e is NotFound || e is Invalid);
                assert(r == Err::<(), CommandError>(e));
                assert(false);
            }
        }
    }
    proof {
        if r is Ok {
            let fpi = first_proc_index(procs0, process_id@);
            let s0 = proc_slots(found_process(procs0, process_id@));
            let s1 = proc_slots(final(sim).spec_processes()[fpi]);
            assert(s1 == s0.push(slot));
            assert(s1.subrange(0, s0.len() as int) =~= s0);
        }
    }
    r
}

/// Removes the first slot on the identified resource from the identified
/// process; it is a no-op when the process holds no such slot.
/// `NotFound` exactly when the process id is unknown.
pub fn process_remove_resource<S: AllSimulationTrait>(
    sim: &mut S,
    process_id: &String,
    resource_id: &String,
) -> (r: Result<(), CommandError>)
    ensures
        final(sim).spec_resources() == old(sim).spec_resources(),
        final(sim).spec_speed() == old(sim).spec_speed(),
        final(sim).spec_last_speed() == old(sim).spec_last_speed(),
        (r == Err::<(), CommandError>(CommandError::NotFound)) <==> !has_process(
            old(sim).spec_processes(),
            process_id@,
        ),
        (r is Ok) <==> has_process(old(sim).spec_processes(), process_id@),
        r is Err ==> final(sim).spec_processes() == old(sim).spec_processes(),
        r is Ok ==> {
            &&& updated_at(
                old(sim).spec_processes(),
                final(sim).spec_processes(),
                first_proc_index(old(sim).spec_processes(), process_id@),
            )
            &&& same_process_identity(
                found_process(old(sim).spec_processes(), process_id@),
                final(sim).spec_processes()[first_proc_index(
                    old(sim).spec_processes(),
                    process_id@,
                )],
            )
            &&& proc_slots(
                final(sim).spec_processes()[first_proc_index(
                    old(sim).spec_processes(),
                    process_id@,
                )],
            ) == (if has_slot_for(
                proc_slots(found_process(old(sim).spec_processes(), process_id@)),
                resource_id@,
            ) {
                proc_slots(found_process(old(sim).spec_processes(), process_id@)).remove(
                    first_match(
                        proc_slots(found_process(old(sim).spec_processes(), process_id@)),
                        resource_id@,
                    ),
                )
            } else {
                proc_slots(found_process(old(sim).spec_processes(), process_id@))
            })
        },
        registry_wf(old(sim).spec_processes(), old(sim).spec_resources()) ==> registry_wf(
            final(sim).spec_processes(),
            final(sim).spec_resources(),
        ),
{
    let ghost procs0 = sim.spec_processes();
    let ghost ress0 = sim.spec_resources();
    let procs = sim.processes_mut();
    match vec_find_process(procs, process_id) {
        None => Err(CommandError::NotFound),
        Some(i) => {
            let updated = state_remove_slot(&procs[i], resource_id);
            proof {
                if registry_wf(procs0, ress0) {
                    lemma_procs_wf_update(procs0, procs@.update(i as int, updated), i as int);
                }
            }
            procs.set(i, updated);
            Ok(())
        },
    }
}

/// The name of the identified process; `NotFound` exactly when the id is
/// unknown.
pub fn process_get_name<S: AllSimulationTrait>(sim: &S, process_id: &String) -> (r: Result<
    String,
    CommandError,
>)
    ensures
        match r {
            Ok(name) => has_process(sim.spec_processes(), process_id@) && name@ == proc_name(
                found_process(sim.spec_processes(), process_id@),
            ),
            Err(e) => e == CommandError::NotFound && !has_process(
                sim.spec_processes(),
                process_id@,
            ),
        },
{
    match vec_find_process(sim.processes(), process_id) {
        Some(i) => Ok(state_name(&sim.processes()[i])),
        None => Err(CommandError::NotFound),
    }
}

/// The intensity of the identified process; `NotFound` exactly when the
/// id is unknown.
pub fn process_get_resource_intensity<S: AllSimulationTrait>(
    sim: &S,
    process_id: &String,
) -> (r: Result<GenericProcessResourceIntensity, CommandError>)
    ensures
        match r {
            Ok(intensity) => has_process(sim.spec_processes(), process_id@) && intensity
                == proc_intensity(found_process(sim.spec_processes(), process_id@)),
            Err(e) => e == CommandError::NotFound && !has_process(
                sim.spec_processes(),
                process_id@,
            ),
        },
{
    match vec_find_process(sim.processes(), process_id) {
        Some(i) => Ok(state_intensity(&sim.processes()[i])),
        None => Err(CommandError::NotFound),
    }
}

/// Renames the identified process; `NotFound` exactly when the id is
/// unknown.
pub fn process_set_name<S: AllSimulationTrait>(
    sim: &mut S,
    process_id: &String,
    name: String,
) -> (r: Result<(), CommandError>)
    ensures
        final(sim).spec_resources() == old(sim).spec_resources(),
        final(sim).spec_speed() == old(sim).spec_speed(),
        final(sim).spec_last_speed() == old(sim).spec_last_speed(),
        (r == Err::<(), CommandError>(CommandError::NotFound)) <==> !has_process(
            old(sim).spec_processes(),
            process_id@,
        ),
        (r is Ok) <==> has_process(old(sim).spec_processes(), process_id@),
        r is Err ==> final(sim).spec_processes() == old(sim).spec_processes(),
        r is Ok ==> {
            &&& updated_at(
                old(sim).spec_processes(),
                final(sim).spec_processes(),
                first_proc_index(old(sim).spec_processes(), process_id@),
            )
            &&& proc_name(
                final(sim).spec_processes()[first_proc_index(
                    old(sim).spec_processes(),
                    process_id@,
                )],
            ) == name@
            &&& proc_id(
                final(sim).spec_processes()[first_proc_index(
                    old(sim).spec_processes(),
                    process_id@,
                )],
            ) == process_id@
            &&& proc_intensity(
                final(sim).spec_processes()[first_proc_index(
                    old(sim).spec_processes(),
                    process_id@,
                )],
            ) == proc_intensity(found_process(old(sim).spec_processes(), process_id@))
            &&& proc_slots(
                final(sim).spec_processes()[first_proc_index(
                    old(sim).spec_processes(),
                    process_id@,
                )],
            ) == proc_slots(found_process(old(sim).spec_processes(), process_id@))
        },
        registry_wf(old(sim).spec_processes(), old(sim).spec_resources()) ==> registry_wf(
            final(sim).spec_processes(),
            final(sim).spec_resources(),
        ),
{
    let ghost procs0 = sim.spec_processes();
    let ghost ress0 = sim.spec_resources();
    let procs = sim.processes_mut();
    match vec_find_process(procs, process_id) {
        None => Err(CommandError::NotFound),
        Some(i) => {
            let updated = state_with_name(&procs[i], name);
            proof {
                if registry_wf(procs0, ress0) {
                    lemma_procs_wf_update(procs0, procs@.update(i as int, updated), i as int);
                }
            }
            procs.set(i, updated);
            Ok(())
        },
    }
}

/// Changes the intensity of the identified process; `NotFound` exactly
/// when the id is unknown.
pub fn process_set_resource_intensity<S: AllSimulationTrait>(
    sim: &mut S,
    process_id: &String,
    resource_intensity: GenericProcessResourceIntensity,
) -> (r: Result<(), CommandError>)
    ensures
        final(sim).spec_resources() == old(sim).spec_resources(),
        final(sim).spec_speed() == old(sim).spec_speed(),
        final(sim).spec_last_speed() == old(sim).spec_last_speed(),
        (r == Err::<(), CommandError>(CommandError::NotFound)) <==> !has_process(
            old(sim).spec_processes(),
            process_id@,
        ),
        (r is Ok) <==> has_process(old(sim).spec_processes(), process_id@),
        r is Err ==> final(sim).spec_processes() == old(sim).spec_processes(),
        r is Ok ==> {
            &&& updated_at(
                old(sim).spec_processes(),
                final(sim).spec_processes(),
                first_proc_index(old(sim).spec_processes(), process_id@),
            )
            &&& proc_intensity(
                final(sim).spec_processes()[first_proc_index(
                    old(sim).spec_processes(),
                    process_id@,
                )],
            ) == resource_intensity
            &&& proc_id(
                final(sim).spec_processes()[first_proc_index(
                    old(sim).spec_processes(),
                    process_id@,
                )],
            ) == process_id@
            &&& proc_name(
                final(sim).spec_processes()[first_proc_index(
                    old(sim).spec_processes(),
                    process_id@,
                )],
            ) == proc_name(found_process(old(sim).spec_processes(), process_id@))
            &&& proc_slots(
                final(sim).spec_processes()[first_proc_index(
                    old(sim).spec_processes(),
                    process_id@,
                )],
            ) == proc_slots(found_process(old(sim).spec_processes(), process_id@))
        },
        registry_wf(old(sim).spec_processes(), old(sim).spec_resources()) ==> registry_wf(
            final(sim).spec_processes(),
            final(sim).spec_resources(),
        ),
{
    let ghost procs0 = sim.spec_processes();
    let ghost ress0 = sim.spec_resources();
    let procs = sim.processes_mut();
    match vec_find_process(procs, process_id) {
        None => Err(CommandError::NotFound),
        Some(i) => {
            let updated = state_with_intensity(&procs[i], resource_intensity);
            proof {
                if registry_wf(procs0, ress0) {
                    lemma_procs_wf_update(procs0, procs@.update(i as int, updated), i as int);
                }
            }
            procs.set(i, updated);
            Ok(())
        },
    }
}

/// A snapshot of the process registry, as value copies in registry order.
pub fn simulation_processes<S: AllSimulationTrait>(sim: &S) -> (r: Vec<ProcessStates>)
    ensures
        r@.len() == sim.spec_processes().len(),
        forall|i: int|
            0 <= i < r@.len() ==> same_process_identity(
                sim.spec_processes()[i],
                #[trigger] r@[i],
            ) && proc_slots(r@[i]) == proc_slots(sim.spec_processes()[i]),
{
    let r = sim.processes().clone();
    proof {
        assert forall|i: int|
            0 <= i < r@.len() implies same_process_identity(sim.spec_processes()[i], #[trigger] r@[i])
            && proc_slots(r@[i]) == proc_slots(sim.spec_processes()[i]) by {
            assert(vstd::pervasive::cloned::<ProcessStates>(sim.spec_processes()[i], r@[i]));
        }
    }
    r
}

/// A snapshot of the resource registry, as value copies in registry order.
pub fn simulation_resources<S: AllSimulationTrait>(sim: &S) -> (r: Vec<GenericResource>)
    ensures
        r@ == sim.spec_resources(),
{
    let r = sim.resources().clone();
    proof {
        assert forall|i: int| 0 <= i < r@.len() implies #[trigger] r@[i]
            == sim.spec_resources()[i] by {
            assert(vstd::pervasive::cloned::<GenericResource>(sim.spec_resources()[i], r@[i]));
        }
        assert(r@ =~= sim.spec_resources());
    }
    r
}

/// Inserts an already built resource into the registry; a duplicate id is
/// refused silently.
pub fn simulation_add_resource<S: AllSimulationTrait>(sim: &mut S, resource: GenericResource)
    ensures
        final(sim).spec_resources() == (if has_resource(old(sim).spec_resources(), resource.id@) {
            old(sim).spec_resources()
        } else {
            old(sim).spec_resources().push(resource)
        }),
        final(sim).spec_processes() == old(sim).spec_processes(),
        final(sim).spec_speed() == old(sim).spec_speed(),
        final(sim).spec_last_speed() == old(sim).spec_last_speed(),
        registry_wf(old(sim).spec_processes(), old(sim).spec_resources()) && resource.wf()
            ==> registry_wf(final(sim).spec_processes(), final(sim).spec_resources()),
{
    sim.add_resource(resource);
}

/// Removes the process with the given id; a no-op when the id is unknown.
pub fn simulation_remove_process<S: AllSimulationTrait>(sim: &mut S, process_id: &String)
    ensures
        final(sim).spec_processes() == (if has_process(old(sim).spec_processes(), process_id@) {
            old(sim).spec_processes().remove(
                first_proc_index(old(sim).spec_processes(), process_id@),
            )
        } else {
            old(sim).spec_processes()
        }),
        final(sim).spec_resources() == old(sim).spec_resources(),
        final(sim).spec_speed() == old(sim).spec_speed(),
        final(sim).spec_last_speed() == old(sim).spec_last_speed(),
        registry_wf(old(sim).spec_processes(), old(sim).spec_resources()) ==> registry_wf(
            final(sim).spec_processes(),
            final(sim).spec_resources(),
        ),
{
    match sim.get_process_by_id(process_id.clone()) {
        Some(p) => {
            sim.remove_process(&p);
        },
        None => {},
    }
}

/// Removes the resource with the given id; a no-op when the id is
/// unknown.
pub fn simulation_remove_resource<S: AllSimulationTrait>(sim: &mut S, resource_id: &String)
    ensures
        final(sim).spec_resources() == (if has_resource(old(sim).spec_resources(), resource_id@) {
            old(sim).spec_resources().remove(
                first_res_index(old(sim).spec_resources(), resource_id@),
            )
        } else {
            old(sim).spec_resources()
        }),
        final(sim).spec_processes().len() == old(sim).spec_processes().len(),
        forall|i: int|
            0 <= i < old(sim).spec_processes().len() ==> {
                &&& same_process_identity(
                    old(sim).spec_processes()[i],
                    #[trigger] final(sim).spec_processes()[i],
                )
                &&& proc_slots(final(sim).spec_processes()[i]) == (if has_slot_for(
                    proc_slots(old(sim).spec_processes()[i]),
                    resource_id@,
                ) {
                    proc_slots(old(sim).spec_processes()[i]).remove(
                        first_match(proc_slots(old(sim).spec_processes()[i]), resource_id@),
                    )
                } else {
                    proc_slots(old(sim).spec_processes()[i])
                })
            },
        final(sim).spec_speed() == old(sim).spec_speed(),
        final(sim).spec_last_speed() == old(sim).spec_last_speed(),
        registry_wf(old(sim).spec_processes(), old(sim).spec_resources()) ==> registry_wf(
            final(sim).spec_processes(),
            final(sim).spec_resources(),
        ),
{
    match sim.get_resource_by_id(resource_id.clone()) {
        Some(res) => {
            proof {
                crate::simulation::lemma_first_res_index(sim.spec_resources(), resource_id@);
            }
            sim.remove_resource(&res);
        },
        None => {},
    }
    let ghost procs0 = sim.spec_processes();
    let ghost ress1 = sim.spec_resources();
    // Also drop the slot any process still holds on that resource, so
    // that no slot dangles once its resource is gone.
    let procs = sim.processes_mut();
    let n = procs.len();
    let mut i: usize = 0;
    while i < n
        invariant
            i <= n,
            n == procs@.len(),
            n == procs0.len(),
            forall|t: int| i <= t < n ==> #[trigger] procs@[t] == procs0[t],
            forall|t: int|
                0 <= t < i ==> {
                    &&& same_process_identity(procs0[t], #[trigger] procs@[t])
                    &&& proc_slots(procs@[t]) == (if has_slot_for(
                        proc_slots(procs0[t]),
                        resource_id@,
                    ) {
                        proc_slots(procs0[t]).remove(
                            first_match(proc_slots(procs0[t]), resource_id@),
                        )
                    } else {
                        proc_slots(procs0[t])
                    })
                    &&& (slots_wf(proc_slots(procs0[t])) ==> slots_wf(proc_slots(procs@[t])))
                },
        decreases n - i,
    {
        let updated = state_remove_slot(&procs[i], resource_id);
        procs.set(i, updated);
        i += 1;
    }
    proof {
        if registry_wf(procs0, ress1) {
            assert forall|a: int, b: int| 0 <= a < b < procs@.len() implies proc_id(
                #[trigger] procs@[a],
            ) != proc_id(#[trigger] procs@[b]) by {
                assert(proc_id(procs@[a]) == proc_id(procs0[a]));
                assert(proc_id(procs@[b]) == proc_id(procs0[b]));
            }
            assert(procs_wf(procs@));
        }
    }
}

/// Sets the tick rate; zero pauses the simulation.
pub fn simulation_set_simulation_speed<S: AllSimulationTrait>(sim: &mut S, speed: u64)
    ensures
        final(sim).spec_speed() == speed,
        final(sim).spec_processes() == old(sim).spec_processes(),
        final(sim).spec_resources() == old(sim).spec_resources(),
        final(sim).spec_last_speed() == old(sim).spec_last_speed(),
{
    sim.set_simulation_speed(speed);
}

/// The current tick rate.
pub fn simulation_speed<S: AllSimulationTrait>(sim: &S) -> (r: u64)
    ensures
        r == sim.spec_speed(),
{
    sim.simulation_speed()
}

/// Pauses the simulation, saving the current speed for a later resume.
pub fn stop_simulation(sim: &mut RunningSimulation)
    ensures
        *final(sim) == stopped_state(*old(sim)),
{
    sim.stop();
}

} // verus!
