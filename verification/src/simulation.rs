use vstd::prelude::*;

use crate::oracle::{eviction_ids, eviction_set, safe_to_continue, snapshot_safe};
use crate::process::{
    proc_id, proc_intensity, proc_name, proc_slots, proc_wf, AllProcessTraits, ProcessStates,
};
use crate::resource::GenericResource;

verus! {

/// Index in the registry of the first process with id `pid`, or -1.
pub open spec fn first_proc_index(procs: Seq<ProcessStates>, pid: Seq<char>) -> int
    decreases procs.len(),
{
    if procs.len() == 0 {
        -1
    } else if proc_id(procs[0]) == pid {
        0
    } else if first_proc_index(procs.drop_first(), pid) < 0 {
        -1
    } else {
        1 + first_proc_index(procs.drop_first(), pid)
    }
}

pub open spec fn has_process(procs: Seq<ProcessStates>, pid: Seq<char>) -> bool {
    first_proc_index(procs, pid) >= 0
}

/// Whether any process id in the registry has exactly `n` characters. A
/// freshly drawn process id has seven, so where no existing id does, no
/// draw can collide.
pub open spec fn has_proc_id_of_len(procs: Seq<ProcessStates>, n: nat) -> bool {
    exists|i: int| 0 <= i < procs.len() && proc_id(#[trigger] procs[i]).len() == n
}

/// The first process with id `pid`.
pub open spec fn found_process(procs: Seq<ProcessStates>, pid: Seq<char>) -> ProcessStates {
    procs[first_proc_index(procs, pid)]
}

/// Index in the registry of the first resource with id `rid`, or -1.
pub open spec fn first_res_index(ress: Seq<GenericResource>, rid: Seq<char>) -> int
    decreases ress.len(),
{
    if ress.len() == 0 {
        -1
    } else if ress[0].id@ == rid {
        0
    } else if first_res_index(ress.drop_first(), rid) < 0 {
        -1
    } else {
        1 + first_res_index(ress.drop_first(), rid)
    }
}

pub open spec fn has_resource(ress: Seq<GenericResource>, rid: Seq<char>) -> bool {
    first_res_index(ress, rid) >= 0
}

/// The first resource with id `rid`.
pub open spec fn found_resource(ress: Seq<GenericResource>, rid: Seq<char>) -> GenericResource {
    ress[first_res_index(ress, rid)]
}

/// What the first process index means pointwise: when it is -1 no process
/// carries `pid`, and otherwise it is the least index that does.
pub proof fn lemma_first_proc_index(procs: Seq<ProcessStates>, pid: Seq<char>)
    ensures
        first_proc_index(procs, pid) == -1 ==> forall|i: int|
            0 <= i < procs.len() ==> proc_id(#[trigger] procs[i]) != pid,
        first_proc_index(procs, pid) >= 0 ==> {
            &&& first_proc_index(procs, pid) < procs.len()
            &&& proc_id(procs[first_proc_index(procs, pid)]) == pid
            &&& forall|j: int|
                0 <= j < first_proc_index(procs, pid) ==> proc_id(#[trigger] procs[j]) != pid
        },
    decreases procs.len(),
{
    if procs.len() > 0 && proc_id(procs[0]) != pid {
        let rest = procs.drop_first();
        lemma_first_proc_index(rest, pid);
        let fm_rest = first_proc_index(rest, pid);
        if fm_rest == -1 {
            assert forall|i: int|
                0 <= i < procs.len() implies proc_id(#[trigger] procs[i]) != pid by {
                if i > 0 {
                    assert(rest[i - 1] == procs[i]);
                }
            }
        } else {
            assert(procs[1 + fm_rest] == rest[fm_rest]);
            assert forall|j: int|
                0 <= j < 1 + fm_rest implies proc_id(#[trigger] procs[j]) != pid by {
                if j > 0 {
                    assert(rest[j - 1] == procs[j]);
                }
            }
        }
    }
}

/// What the first resource index means pointwise.
pub proof fn lemma_first_res_index(ress: Seq<GenericResource>, rid: Seq<char>)
    ensures
        first_res_index(ress, rid) == -1 ==> forall|i: int|
            0 <= i < ress.len() ==> (#[trigger] ress[i]).id@ != rid,
        first_res_index(ress, rid) >= 0 ==> {
            &&& first_res_index(ress, rid) < ress.len()
            &&& ress[first_res_index(ress, rid)].id@ == rid
            &&& forall|j: int|
                0 <= j < first_res_index(ress, rid) ==> (#[trigger] ress[j]).id@ != rid
        },
    decreases ress.len(),
{
    if ress.len() > 0 && ress[0].id@ != rid {
        let rest = ress.drop_first();
        lemma_first_res_index(rest, rid);
        let fm_rest = first_res_index(rest, rid);
        if fm_rest == -1 {
            assert forall|i: int| 0 <= i < ress.len() implies (#[trigger] ress[i]).id@ != rid by {
                if i > 0 {
                    assert(rest[i - 1] == ress[i]);
                }
            }
        } else {
            assert(ress[1 + fm_rest] == rest[fm_rest]);
            assert forall|j: int| 0 <= j < 1 + fm_rest implies (#[trigger] ress[j]).id@ != rid by {
                if j > 0 {
                    assert(rest[j - 1] == ress[j]);
                }
            }
        }
    }
}

/// Well-formedness of the process registry: pairwise distinct process ids,
/// and every process's slot list well-formed.
pub open spec fn procs_wf(procs: Seq<ProcessStates>) -> bool {
    &&& forall|i: int, j: int|
        0 <= i < j < procs.len() ==> proc_id(#[trigger] procs[i]) != proc_id(#[trigger] procs[j])
    &&& forall|i: int| 0 <= i < procs.len() ==> proc_wf(#[trigger] procs[i])
}

/// Well-formedness of the resource registry: pairwise distinct resource
/// ids, and every resource within its amount bounds.
pub open spec fn ress_wf(ress: Seq<GenericResource>) -> bool {
    &&& forall|i: int, j: int|
        0 <= i < j < ress.len() ==> (#[trigger] ress[i]).id@ != (#[trigger] ress[j]).id@
    &&& forall|i: int| 0 <= i < ress.len() ==> (#[trigger] ress[i]).wf()
}

/// Well-formedness of the whole simulation state.
pub open spec fn registry_wf(procs: Seq<ProcessStates>, ress: Seq<GenericResource>) -> bool {
    procs_wf(procs) && ress_wf(ress)
}

/// Position of the first process with the given id, if any.
pub(crate) fn vec_find_process(procs: &Vec<ProcessStates>, id: &String) -> (r: Option<usize>)
    ensures
        match r {
            Some(i) => i == first_proc_index(procs@, id@) && i < procs@.len() && proc_id(
                procs@[i as int],
            ) == id@,
            None => !has_process(procs@, id@),
        },
{
    let n = procs.len();
    let mut i: usize = 0;
    while i < n
        invariant
            i <= n,
            n == procs@.len(),
            forall|j: int| 0 <= j < i ==> proc_id(#[trigger] procs@[j]) != id@,
        decreases n - i,
    {
        let pid = procs[i].state_id();
        if pid.eq(id) {
            proof {
                lemma_first_proc_index(procs@, id@);
                assert(first_proc_index(procs@, id@) == i);
            }
            return Some(i);
        }
        i += 1;
    }
    proof {
        lemma_first_proc_index(procs@, id@);
        if first_proc_index(procs@, id@) >= 0 {
            assert(proc_id(procs@[first_proc_index(procs@, id@)]) == id@);
        }
    }
    None
}

/// Appends `process` to the registry unless its id is already taken.
fn vec_add_process(procs: &mut Vec<ProcessStates>, process: ProcessStates)
    ensures
        final(procs)@ == if has_process(old(procs)@, proc_id(process)) {
            old(procs)@
        } else {
            old(procs)@.push(process)
        },
        procs_wf(old(procs)@) && proc_wf(process) ==> procs_wf(final(procs)@),
{
    let pid = process.state_id();
    match vec_find_process(procs, &pid) {
        Some(_) => {},
        None => {
            proof {
                lemma_first_proc_index(procs@, pid@);
                if procs_wf(procs@) && proc_wf(process) {
                    let s1 = procs@.push(process);
                    assert forall|i: int, j: int| 0 <= i < j < s1.len() implies proc_id(
                        #[trigger] s1[i],
                    ) != proc_id(#[trigger] s1[j]) by {
                        if j < procs@.len() {
                            assert(s1[i] == procs@[i] && s1[j] == procs@[j]);
                        } else {
                            assert(s1[j] == process && s1[i] == procs@[i]);
                        }
                    }
                    assert forall|i: int| 0 <= i < s1.len() implies proc_wf(#[trigger] s1[i]) by {
                        if i < procs@.len() {
                            assert(s1[i] == procs@[i]);
                        } else {
                            assert(s1[i] == process);
                        }
                    }
                }
            }
            procs.push(process);
        },
    }
}

/// Removes the first process with the given id, when one is there.
fn vec_remove_process(procs: &mut Vec<ProcessStates>, id: &String)
    ensures
        final(procs)@ == if has_process(old(procs)@, id@) {
            old(procs)@.remove(first_proc_index(old(procs)@, id@))
        } else {
            old(procs)@
        },
        procs_wf(old(procs)@) ==> procs_wf(final(procs)@),
{
    match vec_find_process(procs, id) {
        Some(i) => {
            let ghost s0 = procs@;
            let ghost fpi = i as int;
            procs.remove(i);
            proof {
                if procs_wf(s0) {
                    let s1 = s0.remove(fpi);
                    assert forall|a: int, b: int| 0 <= a < b < s1.len() implies proc_id(
                        #[trigger] s1[a],
                    ) != proc_id(#[trigger] s1[b]) by {
                        let a0: int = if a < fpi {
                            a
                        } else {
                            a + 1
                        };
                        let b0: int = if b < fpi {
                            b
                        } else {
                            b + 1
                        };
                        assert(s1[a] == s0[a0] && s1[b] == s0[b0]);
                    }
                    assert forall|a: int| 0 <= a < s1.len() implies proc_wf(#[trigger] s1[a]) by {
                        let a0: int = if a < fpi {
                            a
                        } else {
                            a + 1
                        };
                        assert(s1[a] == s0[a0]);
                    }
                }
            }
        },
        None => {},
    }
}

/// Appends `resource` to the registry unless its id is already taken.
fn vec_add_resource(ress: &mut Vec<GenericResource>, resource: GenericResource)
    ensures
        final(ress)@ == if has_resource(old(ress)@, resource.id@) {
            old(ress)@
        } else {
            old(ress)@.push(resource)
        },
        ress_wf(old(ress)@) && resource.wf() ==> ress_wf(final(ress)@),
{
    let rid = resource.id();
    match vec_find_resource(ress, &rid) {
        Some(_) => {},
        None => {
            proof {
                lemma_first_res_index(ress@, rid@);
                if ress_wf(ress@) && resource.wf() {
                    let s1 = ress@.push(resource);
                    assert forall|i: int, j: int| 0 <= i < j < s1.len() implies (
                    #[trigger] s1[i]).id@ != (#[trigger] s1[j]).id@ by {
                        if j < ress@.len() {
                            assert(s1[i] == ress@[i] && s1[j] == ress@[j]);
                        } else {
                            assert(s1[j] == resource && s1[i] == ress@[i]);
                        }
                    }
                    assert forall|i: int| 0 <= i < s1.len() implies (#[trigger] s1[i]).wf() by {
                        if i < ress@.len() {
                            assert(s1[i] == ress@[i]);
                        } else {
                            assert(s1[i] == resource);
                        }
                    }
                }
            }
            ress.push(resource);
        },
    }
}

/// Removes the first resource with the given id, when one is there.
fn vec_remove_resource(ress: &mut Vec<GenericResource>, id: &String)
    ensures
        final(ress)@ == if has_resource(old(ress)@, id@) {
            old(ress)@.remove(first_res_index(old(ress)@, id@))
        } else {
            old(ress)@
        },
        ress_wf(old(ress)@) ==> ress_wf(final(ress)@),
{
    match vec_find_resource(ress, id) {
        Some(i) => {
            let ghost s0 = ress@;
            let ghost fri = i as int;
            ress.remove(i);
            proof {
                if ress_wf(s0) {
                    let s1 = s0.remove(fri);
                    assert forall|a: int, b: int| 0 <= a < b < s1.len() implies (
                    #[trigger] s1[a]).id@ != (#[trigger] s1[b]).id@ by {
                        let a0: int = if a < fri {
                            a
                        } else {
                            a + 1
                        };
                        let b0: int = if b < fri {
                            b
                        } else {
                            b + 1
                        };
                        assert(s1[a] == s0[a0] && s1[b] == s0[b0]);
                    }
                    assert forall|a: int| 0 <= a < s1.len() implies (#[trigger] s1[a]).wf() by {
                        let a0: int = if a < fri {
                            a
                        } else {
                            a + 1
                        };
                        assert(s1[a] == s0[a0]);
                    }
                }
            }
        },
        None => {},
    }
}

/// Position of the first resource with the given id, if any.
pub(crate) fn vec_find_resource(ress: &Vec<GenericResource>, id: &String) -> (r: Option<usize>)
    ensures
        match r {
            Some(i) => i == first_res_index(ress@, id@) && i < ress@.len() && ress@[i as int].id@
                == id@,
            None => !has_resource(ress@, id@),
        },
{
    let n = ress.len();
    let mut i: usize = 0;
    while i < n
        invariant
            i <= n,
            n == ress@.len(),
            forall|j: int| 0 <= j < i ==> (#[trigger] ress@[j]).id@ != id@,
        decreases n - i,
    {
        if ress[i].id.eq(id) {
            proof {
                lemma_first_res_index(ress@, id@);
                assert(first_res_index(ress@, id@) == i);
            }
            return Some(i);
        }
        i += 1;
    }
    proof {
        lemma_first_res_index(ress@, id@);
        if first_res_index(ress@, id@) >= 0 {
            assert(ress@[first_res_index(ress@, id@)].id@ == id@);
        }
    }
    None
}

/// The simulation state while its tick loop exists: the current tick
/// rate, the rate to resume at after an automatic pause, and the two
/// registries.
pub struct RunningSimulation {
    pub simulation_speed: u64,
    pub last_simulation_speed: u64,
    pub processes: Vec<ProcessStates>,
    pub resources: Vec<GenericResource>,
}

/// The simulation state before any tick loop is started.
pub struct StoppedSimulation {
    pub simulation_speed: u64,
    pub last_simulation_speed: u64,
    pub processes: Vec<ProcessStates>,
    pub resources: Vec<GenericResource>,
}

/// A simulation in either phase.
pub enum Simulation {
    Running(RunningSimulation),
    Stopped(StoppedSimulation),
}

impl RunningSimulation {
    pub open spec fn wf(self) -> bool {
        registry_wf(self.processes@, self.resources@)
    }

    /// A fresh simulation: 60 ticks per second, nothing saved for resume,
    /// empty registries.
    pub fn new() -> (r: Self)
        ensures
            r.simulation_speed == 60,
            r.last_simulation_speed == 0,
            r.processes@.len() == 0,
            r.resources@.len() == 0,
            r.wf(),
    {
        RunningSimulation {
            simulation_speed: 60,
            last_simulation_speed: 0,
            processes: Vec::new(),
            resources: Vec::new(),
        }
    }
}

impl StoppedSimulation {
    pub open spec fn wf(self) -> bool {
        registry_wf(self.processes@, self.resources@)
    }
}

impl Simulation {
    pub open spec fn wf(self) -> bool {
        match self {
            Simulation::Running(s) => s.wf(),
            Simulation::Stopped(s) => s.wf(),
        }
    }

    /// A fresh, not yet started simulation: 60 ticks per second, nothing
    /// saved for resume, empty registries.
    pub fn new() -> (r: StoppedSimulation)
        ensures
            r.simulation_speed == 60,
            r.last_simulation_speed == 0,
            r.processes@.len() == 0,
            r.resources@.len() == 0,
            r.wf(),
    {
        StoppedSimulation {
            simulation_speed: 60,
            last_simulation_speed: 0,
            processes: Vec::new(),
            resources: Vec::new(),
        }
    }
}

/// The operations a simulation offers in either phase.
pub trait AllSimulationTrait: Sized {
    spec fn spec_processes(&self) -> Seq<ProcessStates>;

    spec fn spec_resources(&self) -> Seq<GenericResource>;

    spec fn spec_speed(&self) -> u64;

    spec fn spec_last_speed(&self) -> u64;

    /// Inserts `process`; a process whose id is already taken is refused,
    /// which keeps the ids of the registry distinct.
    fn add_process(&mut self, process: ProcessStates)
        ensures
            final(self).spec_processes() == (if has_process(
                old(self).spec_processes(),
                proc_id(process),
            ) {
                old(self).spec_processes()
            } else {
                old(self).spec_processes().push(process)
            }),
            final(self).spec_resources() == old(self).spec_resources(),
            final(self).spec_speed() == old(self).spec_speed(),
            final(self).spec_last_speed() == old(self).spec_last_speed(),
            registry_wf(old(self).spec_processes(), old(self).spec_resources()) && proc_wf(process)
                ==> registry_wf(final(self).spec_processes(), final(self).spec_resources()),
    ;

    /// Removes the process with the same id as `process`, when one is there.
    fn remove_process(&mut self, process: &ProcessStates)
        ensures
            final(self).spec_processes() == (if has_process(
                old(self).spec_processes(),
                proc_id(*process),
            ) {
                old(self).spec_processes().remove(
                    first_proc_index(old(self).spec_processes(), proc_id(*process)),
                )
            } else {
                old(self).spec_processes()
            }),
            final(self).spec_resources() == old(self).spec_resources(),
            final(self).spec_speed() == old(self).spec_speed(),
            final(self).spec_last_speed() == old(self).spec_last_speed(),
            registry_wf(old(self).spec_processes(), old(self).spec_resources()) ==> registry_wf(
                final(self).spec_processes(),
                final(self).spec_resources(),
            ),
    ;

    fn processes(&self) -> (r: &Vec<ProcessStates>)
        ensures
            r@ == self.spec_processes(),
    ;

    fn processes_mut(&mut self) -> (r: &mut Vec<ProcessStates>)
        ensures
            (*r)@ == old(self).spec_processes(),
            final(self).spec_processes() == (*final(r))@,
            final(self).spec_resources() == old(self).spec_resources(),
            final(self).spec_speed() == old(self).spec_speed(),
            final(self).spec_last_speed() == old(self).spec_last_speed(),
    ;

    /// A copy of the first process with the given id, if any.
    fn get_process_by_id(&self, id: String) -> (r: Option<ProcessStates>)
        ensures
            match r {
                Some(p) => has_process(self.spec_processes(), id@) && proc_id(p) == id@ && (p
                    is Ready <==> found_process(self.spec_processes(), id@) is Ready) && (p
                    is Blocked <==> found_process(self.spec_processes(), id@) is Blocked) && (p
                    is Working <==> found_process(self.spec_processes(), id@) is Working)
                    && proc_name(p) == proc_name(found_process(self.spec_processes(), id@))
                    && proc_intensity(p) == proc_intensity(
                    found_process(self.spec_processes(), id@),
                ) && proc_slots(p) == proc_slots(found_process(self.spec_processes(), id@)),
                None => !has_process(self.spec_processes(), id@),
            },
    ;

    /// Inserts `resource`; a resource whose id is already taken is refused,
    /// which keeps the ids of the registry distinct.
    fn add_resource(&mut self, resource: GenericResource)
        ensures
            final(self).spec_resources() == (if has_resource(
                old(self).spec_resources(),
                resource.id@,
            ) {
                old(self).spec_resources()
            } else {
                old(self).spec_resources().push(resource)
            }),
            final(self).spec_processes() == old(self).spec_processes(),
            final(self).spec_speed() == old(self).spec_speed(),
            final(self).spec_last_speed() == old(self).spec_last_speed(),
            registry_wf(old(self).spec_processes(), old(self).spec_resources()) && resource.wf()
                ==> registry_wf(final(self).spec_processes(), final(self).spec_resources()),
    ;

    /// Removes the resource with the same id as `resource`, when one is
    /// there.
    fn remove_resource(&mut self, resource: &GenericResource)
        ensures
            final(self).spec_resources() == (if has_resource(
                old(self).spec_resources(),
                resource.id@,
            ) {
                old(self).spec_resources().remove(
                    first_res_index(old(self).spec_resources(), resource.id@),
                )
            } else {
                old(self).spec_resources()
            }),
            final(self).spec_processes() == old(self).spec_processes(),
            final(self).spec_speed() == old(self).spec_speed(),
            final(self).spec_last_speed() == old(self).spec_last_speed(),
            registry_wf(old(self).spec_processes(), old(self).spec_resources()) ==> registry_wf(
                final(self).spec_processes(),
                final(self).spec_resources(),
            ),
    ;

    fn resources(&self) -> (r: &Vec<GenericResource>)
        ensures
            r@ == self.spec_resources(),
    ;

    fn resources_mut(&mut self) -> (r: &mut Vec<GenericResource>)
        ensures
            (*r)@ == old(self).spec_resources(),
            final(self).spec_resources() == (*final(r))@,
            final(self).spec_processes() == old(self).spec_processes(),
            final(self).spec_speed() == old(self).spec_speed(),
            final(self).spec_last_speed() == old(self).spec_last_speed(),
    ;

    /// A copy of the first resource with the given id, if any.
    fn get_resource_by_id(&self, id: String) -> (r: Option<GenericResource>)
        ensures
            match r {
                Some(res) => has_resource(self.spec_resources(), id@) && res == found_resource(
                    self.spec_resources(),
                    id@,
                ),
                None => !has_resource(self.spec_resources(), id@),
            },
    ;

    fn set_simulation_speed(&mut self, speed: u64)
        ensures
            final(self).spec_speed() == speed,
            final(self).spec_processes() == old(self).spec_processes(),
            final(self).spec_resources() == old(self).spec_resources(),
            final(self).spec_last_speed() == old(self).spec_last_speed(),
    ;

    fn simulation_speed(&self) -> (r: u64)
        ensures
            r == self.spec_speed(),
    ;
}

impl AllSimulationTrait for RunningSimulation {
    open spec fn spec_processes(&self) -> Seq<ProcessStates> {
        self.processes@
    }

    open spec fn spec_resources(&self) -> Seq<GenericResource> {
        self.resources@
    }

    open spec fn spec_speed(&self) -> u64 {
        self.simulation_speed
    }

    open spec fn spec_last_speed(&self) -> u64 {
        self.last_simulation_speed
    }

    fn add_process(&mut self, process: ProcessStates) {
        vec_add_process(&mut self.processes, process);
    }

    fn remove_process(&mut self, process: &ProcessStates) {
        let pid = process.state_id();
        vec_remove_process(&mut self.processes, &pid);
    }

    fn processes(&self) -> (r: &Vec<ProcessStates>) {
        &self.processes
    }

    fn processes_mut(&mut self) -> (r: &mut Vec<ProcessStates>) {
        &mut self.processes
    }

    fn get_process_by_id(&self, id: String) -> (r: Option<ProcessStates>) {
        match vec_find_process(&self.processes, &id) {
            Some(i) => Some(self.processes[i].clone()),
            None => None,
        }
    }

    fn add_resource(&mut self, resource: GenericResource) {
        vec_add_resource(&mut self.resources, resource);
    }

    fn remove_resource(&mut self, resource: &GenericResource) {
        let rid = resource.id();
        vec_remove_resource(&mut self.resources, &rid);
    }

    fn resources(&self) -> (r: &Vec<GenericResource>) {
        &self.resources
    }

    fn resources_mut(&mut self) -> (r: &mut Vec<GenericResource>) {
        &mut self.resources
    }

    fn get_resource_by_id(&self, id: String) -> (r: Option<GenericResource>) {
        match vec_find_resource(&self.resources, &id) {
            Some(i) => Some(self.resources[i].clone()),
            None => None,
        }
    }

    fn set_simulation_speed(&mut self, speed: u64) {
        self.simulation_speed = speed;
    }

    fn simulation_speed(&self) -> (r: u64) {
        self.simulation_speed
    }
}

impl AllSimulationTrait for StoppedSimulation {
    open spec fn spec_processes(&self) -> Seq<ProcessStates> {
        self.processes@
    }

    open spec fn spec_resources(&self) -> Seq<GenericResource> {
        self.resources@
    }

    open spec fn spec_speed(&self) -> u64 {
        self.simulation_speed
    }

    open spec fn spec_last_speed(&self) -> u64 {
        self.last_simulation_speed
    }

    fn add_process(&mut self, process: ProcessStates) {
        vec_add_process(&mut self.processes, process);
    }

    fn remove_process(&mut self, process: &ProcessStates) {
        let pid = process.state_id();
        vec_remove_process(&mut self.processes, &pid);
    }

    fn processes(&self) -> (r: &Vec<ProcessStates>) {
        &self.processes
    }

    fn processes_mut(&mut self) -> (r: &mut Vec<ProcessStates>) {
        &mut self.processes
    }

    fn get_process_by_id(&self, id: String) -> (r: Option<ProcessStates>) {
        match vec_find_process(&self.processes, &id) {
            Some(i) => Some(self.processes[i].clone()),
            None => None,
        }
    }

    fn add_resource(&mut self, resource: GenericResource) {
        vec_add_resource(&mut self.resources, resource);
    }

    fn remove_resource(&mut self, resource: &GenericResource) {
        let rid = resource.id();
        vec_remove_resource(&mut self.resources, &rid);
    }

    fn resources(&self) -> (r: &Vec<GenericResource>) {
        &self.resources
    }

    fn resources_mut(&mut self) -> (r: &mut Vec<GenericResource>) {
        &mut self.resources
    }

    fn get_resource_by_id(&self, id: String) -> (r: Option<GenericResource>) {
        match vec_find_resource(&self.resources, &id) {
            Some(i) => Some(self.resources[i].clone()),
            None => None,
        }
    }

    fn set_simulation_speed(&mut self, speed: u64) {
        self.simulation_speed = speed;
    }

    fn simulation_speed(&self) -> (r: u64) {
        self.simulation_speed
    }
}

impl AllSimulationTrait for Simulation {
    open spec fn spec_processes(&self) -> Seq<ProcessStates> {
        match self {
            Simulation::Running(s) => s.processes@,
            Simulation::Stopped(s) => s.processes@,
        }
    }

    open spec fn spec_resources(&self) -> Seq<GenericResource> {
        match self {
            Simulation::Running(s) => s.resources@,
            Simulation::Stopped(s) => s.resources@,
        }
    }

    open spec fn spec_speed(&self) -> u64 {
        match self {
            Simulation::Running(s) => s.simulation_speed,
            Simulation::Stopped(s) => s.simulation_speed,
        }
    }

    open spec fn spec_last_speed(&self) -> u64 {
        match self {
            Simulation::Running(s) => s.last_simulation_speed,
            Simulation::Stopped(s) => s.last_simulation_speed,
        }
    }

    fn add_process(&mut self, process: ProcessStates) {
        match self {
            Simulation::Running(sim) => sim.add_process(process),
            Simulation::Stopped(sim) => sim.add_process(process),
        }
    }

    fn remove_process(&mut self, process: &ProcessStates) {
        match self {
            Simulation::Running(sim) => sim.remove_process(process),
            Simulation::Stopped(sim) => sim.remove_process(process),
        }
    }

    fn processes(&self) -> (r: &Vec<ProcessStates>) {
        match self {
            Simulation::Running(sim) => sim.processes(),
            Simulation::Stopped(sim) => sim.processes(),
        }
    }

    fn processes_mut(&mut self) -> (r: &mut Vec<ProcessStates>) {
        match self {
            Simulation::Running(sim) => sim.processes_mut(),
            Simulation::Stopped(sim) => sim.processes_mut(),
        }
    }

    fn get_process_by_id(&self, id: String) -> (r: Option<ProcessStates>) {
        match self {
            Simulation::Running(sim) => sim.get_process_by_id(id),
            Simulation::Stopped(sim) => sim.get_process_by_id(id),
        }
    }

    fn add_resource(&mut self, resource: GenericResource) {
        match self {
            Simulation::Running(sim) => sim.add_resource(resource),
            Simulation::Stopped(sim) => sim.add_resource(resource),
        }
    }

    fn remove_resource(&mut self, resource: &GenericResource) {
        match self {
            Simulation::Running(sim) => sim.remove_resource(resource),
            Simulation::Stopped(sim) => sim.remove_resource(resource),
        }
    }

    fn resources(&self) -> (r: &Vec<GenericResource>) {
        match self {
            Simulation::Running(sim) => sim.resources(),
            Simulation::Stopped(sim) => sim.resources(),
        }
    }

    fn resources_mut(&mut self) -> (r: &mut Vec<GenericResource>) {
        match self {
            Simulation::Running(sim) => sim.resources_mut(),
            Simulation::Stopped(sim) => sim.resources_mut(),
        }
    }

    fn get_resource_by_id(&self, id: String) -> (r: Option<GenericResource>) {
        match self {
            Simulation::Running(sim) => sim.get_resource_by_id(id),
            Simulation::Stopped(sim) => sim.get_resource_by_id(id),
        }
    }

    fn set_simulation_speed(&mut self, speed: u64) {
        match self {
            Simulation::Running(sim) => sim.set_simulation_speed(speed),
            Simulation::Stopped(sim) => sim.set_simulation_speed(speed),
        }
    }

    fn simulation_speed(&self) -> (r: u64) {
        match self {
            Simulation::Running(sim) => sim.simulation_speed(),
            Simulation::Stopped(sim) => sim.simulation_speed(),
        }
    }
}

/// The state a pause leaves behind: the speed is zero, and the speed
/// that was current is saved for a later resume — unless the simulation
/// was already paused, in which case nothing is overwritten.
pub open spec fn stopped_state(s: RunningSimulation) -> RunningSimulation {
    RunningSimulation {
        simulation_speed: 0,
        last_simulation_speed: if s.simulation_speed != 0 {
            s.simulation_speed
        } else {
            s.last_simulation_speed
        },
        ..s
    }
}

impl RunningSimulation {
    /// Pauses the simulation: saves the current speed for a later resume
    /// and sets the speed to zero. Pausing twice changes nothing further.
    pub fn stop(&mut self)
        ensures
            *final(self) == stopped_state(*old(self)),
    {
        if self.simulation_speed != 0 {
            self.last_simulation_speed = self.simulation_speed;
            self.simulation_speed = 0;
        }
    }

    /// One safety tick: checks the snapshot with the oracle. On a safe
    /// state nothing changes and nothing is reported. On an unsafe state
    /// the eviction set is computed and returned for the host to publish,
    /// and the simulation pauses itself.
    pub fn tick(&mut self) -> (r: Option<Vec<String>>)
        ensures
            match r {
                Option::None => *final(self) == *old(self) && snapshot_safe(
                    old(self).processes@,
                    old(self).resources@,
                ),
                Option::Some(ids) => !snapshot_safe(old(self).processes@, old(self).resources@)
                    && ids.deep_view() == eviction_ids(old(self).processes@, old(self).resources@)
                    && *final(self) == stopped_state(*old(self)),
            },
    {
        if safe_to_continue(&self.processes, &self.resources) {
            None
        } else {
            let evict = eviction_set(&self.processes, &self.resources);
            self.stop();
            Some(evict)
        }
    }
}

/// Whether, at the given speed, a tick is due once `elapsed_micros`
/// microseconds have passed since the last one: never while paused, and
/// otherwise exactly when more than `1/speed` seconds have elapsed.
pub fn tick_due(speed: u64, elapsed_micros: u64) -> (r: bool)
    ensures
        r == (speed != 0 && (elapsed_micros as int) * (speed as int) > 1000000),
        speed == 0 ==> !r,
{
    if speed == 0 {
        false
    } else {
        proof {
            assert((elapsed_micros as int) * (speed as int) <= 0xffff_ffff_ffff_ffff
                * 0xffff_ffff_ffff_ffff) by (nonlinear_arith)
                requires
                    elapsed_micros <= 0xffff_ffff_ffff_ffff,
                    speed <= 0xffff_ffff_ffff_ffff,
            ;
        }
        (elapsed_micros as u128) * (speed as u128) > 1000000u128
    }
}

/// Pausing is idempotent: a second pause changes nothing, so after two
/// consecutive pauses the speed is zero and the saved resume speed is
/// still the speed that was current before the first pause.
pub proof fn lemma_stop_simulation_idempotent(s: RunningSimulation)
    requires
        s.simulation_speed != 0,
    ensures
        stopped_state(stopped_state(s)) == stopped_state(s),
        stopped_state(stopped_state(s)).simulation_speed == 0,
        stopped_state(stopped_state(s)).last_simulation_speed == s.simulation_speed,
{
}

/// `s1` is `s0` after some consumption: the same resources, in the same
/// order, with the same names and capacities, where only free amounts may
/// have shrunk.
pub open spec fn resources_only_consumed(
    s0: Seq<GenericResource>,
    s1: Seq<GenericResource>,
) -> bool {
    &&& s1.len() == s0.len()
    &&& forall|k: int|
        0 <= k < s0.len() ==> (#[trigger] s1[k]).id == s0[k].id && s1[k].name == s0[k].name
            && s1[k].total_amount == s0[k].total_amount && s1[k].blocking == s0[k].blocking
            && s1[k].free_amount <= s0[k].free_amount
}

/// Sequential acquisition: walk the slots in order and take each current
/// demand out of the matching resource's free pool. The first demand that
/// cannot be met — or whose resource is missing — stops the walk; what
/// was already consumed stays consumed, since nothing ever returns to the
/// pool. The flag reports whether every demand was met.
pub open spec fn consume_result(
    slots: Seq<crate::process::ResourceSlot>,
    ress: Seq<GenericResource>,
) -> (bool, Seq<GenericResource>)
    decreases slots.len(),
{
    if slots.len() == 0 {
        (true, ress)
    } else {
        let slot = slots[0];
        let idx = first_res_index(ress, slot.resource_id@);
        if idx < 0 {
            (false, ress)
        } else if ress[idx].free_amount < slot.current_amount {
            (false, ress)
        } else {
            consume_result(
                slots.drop_first(),
                ress.update(
                    idx,
                    GenericResource {
                        free_amount: (ress[idx].free_amount - slot.current_amount) as u64,
                        ..ress[idx]
                    },
                ),
            )
        }
    }
}

/// Acquires every slot's current demand in order, as `consume_result`
/// describes.
fn consume_slots(
    slots: &Vec<crate::process::ResourceSlot>,
    resources: &mut Vec<GenericResource>,
) -> (success: bool)
    ensures
        success == consume_result(slots@, old(resources)@).0,
        final(resources)@ == consume_result(slots@, old(resources)@).1,
        resources_only_consumed(old(resources)@, final(resources)@),
{
    let n = slots.len();
    proof {
        assert(slots@.subrange(0, n as int) =~= slots@);
    }
    let mut i: usize = 0;
    while i < n
        invariant
            i <= n,
            n == slots@.len(),
            consume_result(slots@, old(resources)@) == consume_result(
                slots@.subrange(i as int, n as int),
                resources@,
            ),
            resources_only_consumed(old(resources)@, resources@),
        decreases n - i,
    {
        let ghost cur = resources@;
        let ghost rest = slots@.subrange(i as int, n as int);
        proof {
            assert(rest[0] == slots@[i as int]);
            assert(rest.drop_first() =~= slots@.subrange(i + 1, n as int));
        }
        let slot = &slots[i];
        match vec_find_resource(resources, &slot.resource_id) {
            None => {
                return false;
            },
            Some(ri) => {
                let mut res = resources[ri].clone();
                match res.use_resource(slot.current_amount) {
                    Ok(_) => {
                        resources.set(ri, res);
                        proof {
                            assert(resources@ =~= cur.update(
                                ri as int,
                                GenericResource {
                                    free_amount: (cur[ri as int].free_amount
                                        - slots@[i as int].current_amount) as u64,
                                    ..cur[ri as int]
                                },
                            ));
                        }
                    },
                    Err(_) => {
                        return false;
                    },
                }
            },
        }
        i += 1;
    }
    proof {
        assert(slots@.subrange(n as int, n as int) =~= Seq::<
            crate::process::ResourceSlot,
        >::empty());
    }
    true
}

/// One lifecycle step for one process. A Working process finishes back to
/// Ready; a Blocked process waits; a Ready process that acts tries to
/// acquire all its current demands in slot order and moves to Working
/// when every one was met, or to Blocked at the first that was not. The
/// step preserves the process's id, name, intensity and slot list.
pub fn step_process(
    p: ProcessStates,
    act: bool,
    resources: &mut Vec<GenericResource>,
) -> (r: ProcessStates)
    ensures
        proc_id(r) == proc_id(p),
        proc_name(r) == proc_name(p),
        proc_intensity(r) == proc_intensity(p),
        proc_slots(r) == proc_slots(p),
        resources_only_consumed(old(resources)@, final(resources)@),
        p is Working ==> r is Ready && final(resources)@ == old(resources)@,
        p is Blocked ==> r is Blocked && final(resources)@ == old(resources)@,
        p is Ready && !act ==> r is Ready && final(resources)@ == old(resources)@,
        p is Ready && act ==> {
            &&& final(resources)@ == consume_result(proc_slots(p), old(resources)@).1
            &&& (consume_result(proc_slots(p), old(resources)@).0 <==> r is Working)
            &&& (!consume_result(proc_slots(p), old(resources)@).0 <==> r is Blocked)
        },
{
    match p {
        ProcessStates::Working(w) => ProcessStates::Ready(w.finish()),
        ProcessStates::Blocked(b) => ProcessStates::Blocked(b),
        ProcessStates::Ready(r) => {
            if act {
                if consume_slots(&r.resource_slot, resources) {
                    ProcessStates::Working(r.run())
                } else {
                    ProcessStates::Blocked(r.block())
                }
            } else {
                ProcessStates::Ready(r)
            }
        },
    }
}

impl RunningSimulation {
    /// One lifecycle step over the whole registry, in registry order:
    /// every Working process finishes, every Blocked process keeps
    /// waiting, and every Ready process rolls for participation and, when
    /// it acts, consumes its current demands or blocks. Resources are
    /// only ever consumed, never returned.
    pub fn advance_processes(&mut self)
        ensures
            final(self).simulation_speed == old(self).simulation_speed,
            final(self).last_simulation_speed == old(self).last_simulation_speed,
            final(self).processes@.len() == old(self).processes@.len(),
            forall|i: int|
                0 <= i < old(self).processes@.len() ==> {
                    &&& proc_id(#[trigger] final(self).processes@[i]) == proc_id(
                        old(self).processes@[i],
                    )
                    &&& proc_name(final(self).processes@[i]) == proc_name(old(self).processes@[i])
                    &&& proc_intensity(final(self).processes@[i]) == proc_intensity(
                        old(self).processes@[i],
                    )
                    &&& proc_slots(final(self).processes@[i]) == proc_slots(
                        old(self).processes@[i],
                    )
                    &&& (old(self).processes@[i] is Working ==> final(self).processes@[i]
                        is Ready)
                    &&& (old(self).processes@[i] is Blocked ==> final(self).processes@[i]
                        is Blocked)
                    &&& (old(self).processes@[i] is Ready && proc_intensity(
                        old(self).processes@[i],
                    ) is Extreme ==> !(final(self).processes@[i] is Ready))
                    &&& (old(self).processes@[i] is Ready && proc_intensity(
                        old(self).processes@[i],
                    ) is Idle ==> final(self).processes@[i] is Ready)
                },
            resources_only_consumed(old(self).resources@, final(self).resources@),
            old(self).wf() ==> final(self).wf(),
    {
        let ghost procs0 = self.processes@;
        let ghost ress0 = self.resources@;
        let n = self.processes.len();
        let mut i: usize = 0;
        while i < n
            invariant
                i <= n,
                n == self.processes@.len(),
                n == procs0.len(),
                self.simulation_speed == old(self).simulation_speed,
                self.last_simulation_speed == old(self).last_simulation_speed,
                procs0 == old(self).processes@,
                ress0 == old(self).resources@,
                resources_only_consumed(ress0, self.resources@),
                forall|t: int| i <= t < n ==> #[trigger] self.processes@[t] == procs0[t],
                forall|t: int|
                    0 <= t < i ==> {
                        &&& proc_id(#[trigger] self.processes@[t]) == proc_id(procs0[t])
                        &&& proc_name(self.processes@[t]) == proc_name(procs0[t])
                        &&& proc_intensity(self.processes@[t]) == proc_intensity(procs0[t])
                        &&& proc_slots(self.processes@[t]) == proc_slots(procs0[t])
                        &&& (procs0[t] is Working ==> self.processes@[t] is Ready)
                        &&& (procs0[t] is Blocked ==> self.processes@[t] is Blocked)
                        &&& (procs0[t] is Ready && proc_intensity(procs0[t]) is Extreme ==> !(
                        self.processes@[t] is Ready))
                        &&& (procs0[t] is Ready && proc_intensity(procs0[t]) is Idle
                            ==> self.processes@[t] is Ready)
                    },
            decreases n - i,
        {
            let act = match &self.processes[i] {
                ProcessStates::Ready(r) => r.should_perform_action(),
                _ => false,
            };
            let current = self.processes[i].clone();
            let stepped = step_process(current, act, &mut self.resources);
            self.processes.set(i, stepped);
            i += 1;
        }
        proof {
            if old(self).wf() {
                assert forall|a: int, b: int|
                    0 <= a < b < self.processes@.len() implies proc_id(
                    #[trigger] self.processes@[a],
                ) != proc_id(#[trigger] self.processes@[b]) by {
                    assert(proc_id(self.processes@[a]) == proc_id(procs0[a]));
                    assert(proc_id(self.processes@[b]) == proc_id(procs0[b]));
                }
                assert forall|a: int| 0 <= a < self.processes@.len() implies proc_wf(
                    #[trigger] self.processes@[a],
                ) by {
                    assert(proc_slots(self.processes@[a]) == proc_slots(procs0[a]));
                }
                assert forall|a: int, b: int|
                    0 <= a < b < self.resources@.len() implies (#[trigger] self.resources@[a]).id@
                    != (#[trigger] self.resources@[b]).id@ by {
                    assert(self.resources@[a].id == ress0[a].id);
                    assert(self.resources@[b].id == ress0[b].id);
                }
                assert forall|a: int| 0 <= a < self.resources@.len() implies (
                #[trigger] self.resources@[a]).wf() by {
                    assert(self.resources@[a].free_amount <= ress0[a].free_amount);
                    assert(self.resources@[a].total_amount == ress0[a].total_amount);
                }
            }
        }
    }
}

} // verus!
