//! A table of simulated processes. It shares no state with the paging engine.

use crate::clock::unix_time_secs;
use rand::Rng;
use std::collections::HashMap;
use vstd::prelude::*;
use vstd::std_specs::iter::IteratorSpec;

verus! {

/// What a simulated process is doing.
#[derive(Debug, Clone, Copy, PartialEq, Eq, Structural)]
pub enum ProcessStatus {
    Active,
    SwappedOut,
    Waiting,
    Blocked,
}

/// A simulated process, as plain mathematical values.
pub struct ProcessView {
    pub pid: u32,
    pub name: Seq<char>,
    pub status: ProcessStatus,
    pub memory_usage: u64,
    pub swap_usage: u64,
    pub priority: u8,
    pub last_activity: u64,
    pub created_at: u64,
}

/// A simulated process. Memory and swap usage are in mebibytes, the times in
/// seconds since the Unix epoch.
#[derive(Debug)]
pub struct Process {
    pub pid: u32,
    pub name: String,
    pub status: ProcessStatus,
    pub memory_usage: u64,
    pub swap_usage: u64,
    pub priority: u8,
    pub last_activity: u64,
    pub created_at: u64,
}

impl View for Process {
    type V = ProcessView;

    open spec fn view(&self) -> ProcessView {
        ProcessView {
            pid: self.pid,
            name: self.name@,
            status: self.status,
            memory_usage: self.memory_usage,
            swap_usage: self.swap_usage,
            priority: self.priority,
            last_activity: self.last_activity,
            created_at: self.created_at,
        }
    }
}

impl Clone for Process {
    fn clone(&self) -> (copy: Self)
        ensures
            copy@ == self@,
    {
        Process {
            pid: self.pid,
            name: self.name.clone(),
            status: self.status,
            memory_usage: self.memory_usage,
            swap_usage: self.swap_usage,
            priority: self.priority,
            last_activity: self.last_activity,
            created_at: self.created_at,
        }
    }
}

/// The pid of the first process of a new table.
pub const FIRST_PID: u32 = 1000;

/// The state of the process table, as plain mathematical values.
#[verifier::ext_equal]
pub struct ProcessTable {
    /// The processes by pid.
    pub processes: Map<u32, ProcessView>,
    /// The pid that the next process gets.
    pub next_pid: u32,
}

impl ProcessTable {
    /// The table without processes.
    pub open spec fn empty() -> ProcessTable {
        ProcessTable { processes: Map::empty(), next_pid: FIRST_PID }
    }

    /// What holds of the table at every moment: every process is filed under
    /// its own pid, which is below the next one to be given out.
    pub open spec fn wf(self) -> bool {
        &&& self.processes.dom().finite()
        &&& forall|pid: u32| #[trigger]
            self.processes.contains_key(pid) ==> self.processes[pid].pid == pid && pid
                < self.next_pid
    }

    /// The table with one more process, created at time `now`: it is active,
    /// uses no swap space and gets the next pid.
    pub open spec fn created(self, name: Seq<char>, memory_usage: u64, priority: u8, now: u64)
        -> ProcessTable {
        ProcessTable {
            processes: self.processes.insert(
                self.next_pid,
                ProcessView {
                    pid: self.next_pid,
                    name,
                    status: ProcessStatus::Active,
                    memory_usage,
                    swap_usage: 0,
                    priority,
                    last_activity: now,
                    created_at: now,
                },
            ),
            next_pid: (self.next_pid + 1) as u32,
        }
    }

    /// The table after the process `pid`, if there is one, was changed by
    /// `change`.
    pub open spec fn updated(self, pid: u32, change: spec_fn(ProcessView) -> ProcessView)
        -> ProcessTable {
        if self.processes.contains_key(pid) {
            ProcessTable {
                processes: self.processes.insert(pid, change(self.processes[pid])),
                ..self
            }
        } else {
            self
        }
    }

    /// The table after the process `pid` took on `status` at time `now`.
    pub open spec fn with_status(self, pid: u32, status: ProcessStatus, now: u64) -> ProcessTable {
        self.updated(pid, |p: ProcessView| ProcessView { status, last_activity: now, ..p })
    }

    /// The table after the process `pid` was swapped out at time `now`, using
    /// `swap_size` of swap space.
    pub open spec fn swapped_out(self, pid: u32, swap_size: u64, now: u64) -> ProcessTable {
        self.updated(
            pid,
            |p: ProcessView|
                ProcessView {
                    status: ProcessStatus::SwappedOut,
                    swap_usage: swap_size,
                    last_activity: now,
                    ..p
                },
        )
    }

    /// The table after the process `pid` was swapped in at time `now`.
    pub open spec fn swapped_in(self, pid: u32, now: u64) -> ProcessTable {
        self.updated(
            pid,
            |p: ProcessView|
                ProcessView {
                    status: ProcessStatus::Active,
                    swap_usage: 0,
                    last_activity: now,
                    ..p
                },
        )
    }

    /// The table after the process `pid` was seen active at time `now`.
    pub open spec fn touched(self, pid: u32, now: u64) -> ProcessTable {
        self.updated(pid, |p: ProcessView| ProcessView { last_activity: now, ..p })
    }

    /// The table without the process `pid`.
    pub open spec fn removed(self, pid: u32) -> ProcessTable {
        ProcessTable { processes: self.processes.remove(pid), ..self }
    }

    /// The table of a new manager, set up at time `now`: five processes, two of
    /// them swapped out and one waiting.
    pub open spec fn demo(now: u64) -> ProcessTable {
        ProcessTable::empty().created("web_browser"@, 512, 5, now).created(
            "text_editor"@,
            64,
            3,
            now,
        ).created("media_player"@, 256, 4, now).created("file_manager"@, 32, 2, now).created(
            "system_monitor"@,
            48,
            1,
            now,
        ).swapped_out(1002, 64, now).swapped_out(1003, 256, now).with_status(
            1004,
            ProcessStatus::Waiting,
            now,
        )
    }

    /// Whether this table is `before` after a round of activity at time `now`:
    /// the same processes, each as it was or with `now` as its last activity.
    pub open spec fn after_activity(self, before: ProcessTable, now: u64) -> bool {
        &&& self.next_pid == before.next_pid
        &&& self.processes.dom() == before.processes.dom()
        &&& forall|pid: u32| #[trigger]
            self.processes.contains_key(pid) ==> self.processes[pid] == before.processes[pid]
                || self.processes[pid] == (ProcessView {
                last_activity: now,
                ..before.processes[pid]
            })
    }
}

/// The views of the processes of a map.
pub open spec fn process_views(processes: Map<u32, Process>) -> Map<u32, ProcessView> {
    processes.map_values(|p: Process| p@)
}

/// Whether `listed` holds exactly the processes of `table` that `wanted`
/// accepts: each of them once, in some order, and nothing else.
pub open spec fn lists_processes(
    listed: Seq<Process>,
    table: Map<u32, ProcessView>,
    wanted: spec_fn(ProcessView) -> bool,
) -> bool {
    &&& forall|i: int|
        0 <= i < listed.len() ==> table.contains_key(#[trigger] listed[i].pid) && listed[i]@
            == table[listed[i].pid] && wanted(listed[i]@)
    &&& forall|i: int, j: int|
        0 <= i < j < listed.len() ==> (#[trigger] listed[i]).pid != (#[trigger] listed[j]).pid
    &&& forall|pid: u32| #[trigger]
        table.contains_key(pid) && wanted(table[pid]) ==> exists|i: int|
            0 <= i < listed.len() && listed[i].pid == pid
}

/// What a listing asks of a process: the given status, or nothing.
pub open spec fn has_status(wanted: Option<ProcessStatus>) -> spec_fn(ProcessView) -> bool {
    |p: ProcessView|
        match wanted {
            Some(status) => p.status == status,
            None => true,
        }
}

/// The table of simulated processes.
pub struct ProcessManager {
    processes: HashMap<u32, Process>,
    next_pid: u32,
}

impl View for ProcessManager {
    type V = ProcessTable;

    closed spec fn view(&self) -> ProcessTable {
        ProcessTable { processes: process_views(self.processes@), next_pid: self.next_pid }
    }
}

/// In a round of simulated activity each process is seen active with a chance
/// of `ACTIVITY_CHANCES` in `ACTIVITY_OUT_OF`.
pub const ACTIVITY_CHANCES: u32 = 3;

/// See `ACTIVITY_CHANCES`.
pub const ACTIVITY_OUT_OF: u32 = 10;

/// Draws a boolean from the thread's random number generator
/// (`rand::thread_rng`) with `Rng::gen_ratio`, which is true with a chance of
/// `numerator` in `denominator`. `gen_ratio` panics on a zero denominator and
/// on a numerator above the denominator, which the precondition rules out;
/// the generator itself gives up where the operating system has no seed for
/// it, which no argument can rule out. Nothing is claimed of the outcome.
#[verifier::external_body]
fn random_ratio(numerator: u32, denominator: u32) -> (outcome: bool)
    requires
        denominator > 0,
        numerator <= denominator,
{
    rand::thread_rng().gen_ratio(numerator, denominator)
}

/// Taking the views commutes with inserting a process.
proof fn lemma_process_views_insert(processes: Map<u32, Process>, pid: u32, process: Process)
    ensures
        process_views(processes.insert(pid, process)) == process_views(processes).insert(
            pid,
            process@,
        ),
{
}

/// Taking the views keeps the pids and commutes with removing a process;
/// removing a process that is not there changes nothing.
proof fn lemma_process_views_remove(processes: Map<u32, Process>, pid: u32)
    ensures
        process_views(processes.remove(pid)) == process_views(processes).remove(pid),
        process_views(processes).dom() == processes.dom(),
        !processes.contains_key(pid) ==> processes.remove(pid) == processes,
{
}

/// The table of a new manager holds the pids 1000 to 1004 and gives out 1005
/// next; the processes 1002 and 1003 are swapped out, 1004 waits, the others
/// are active.
pub proof fn lemma_demo_table(now: u64)
    ensures
        ProcessTable::demo(now).wf(),
        ProcessTable::demo(now).next_pid == 1005,
        forall|pid: u32|
            ProcessTable::demo(now).processes.contains_key(pid) <==> 1000 <= pid <= 1004,
        ProcessTable::demo(now).processes[1000].status == ProcessStatus::Active,
        ProcessTable::demo(now).processes[1001].status == ProcessStatus::Active,
        ProcessTable::demo(now).processes[1002].status == ProcessStatus::SwappedOut,
        ProcessTable::demo(now).processes[1002].swap_usage == 64,
        ProcessTable::demo(now).processes[1003].status == ProcessStatus::SwappedOut,
        ProcessTable::demo(now).processes[1003].swap_usage == 256,
        ProcessTable::demo(now).processes[1004].status == ProcessStatus::Waiting,
{
}

impl ProcessManager {
    /// The manager's invariant: its table is well formed.
    pub open spec fn wf(&self) -> bool {
        self@.wf()
    }

    /// A manager with the five demonstration processes, set up at time `now`.
    pub fn new_at(now: u64) -> (m: Self)
        ensures
            m@ == ProcessTable::demo(now),
            m.wf(),
    {
        let mut manager = Self { processes: HashMap::new(), next_pid: FIRST_PID };
        proof {
            lemma_process_views_remove(manager.processes@, 0);
            assert(manager@.processes =~= Map::<u32, ProcessView>::empty());
        }
        manager.create_demo_processes(now);
        manager
    }

    /// A manager with the five demonstration processes, set up now, by the
    /// system clock.
    pub fn new() -> (m: Self)
        ensures
            exists|now: u64| m@ == #[trigger] ProcessTable::demo(now),
            m.wf(),
    {
        let now = unix_time_secs();
        Self::new_at(now)
    }

    /// Whether there is a pid left for one more process.
    pub fn has_free_pid(&self) -> (free: bool)
        ensures
            free == (self@.next_pid < u32::MAX),
    {
        self.next_pid < u32::MAX
    }

    /// Adds an active process at time `now` and returns its pid, the next one
    /// in line.
    pub fn create_process_at(&mut self, name: String, memory_usage: u64, priority: u8, now: u64)
        -> (pid: u32)
        requires
            old(self).wf(),
            old(self)@.next_pid < u32::MAX,
        ensures
            final(self).wf(),
            pid == old(self)@.next_pid,
            final(self)@ == old(self)@.created(name@, memory_usage, priority, now),
    {
        let pid = self.next_pid;
        self.next_pid += 1;
        let process = Process {
            pid,
            name,
            status: ProcessStatus::Active,
            memory_usage,
            swap_usage: 0,
            priority,
            last_activity: now,
            created_at: now,
        };
        proof {
            lemma_process_views_insert(self.processes@, pid, process);
        }
        self.processes.insert(pid, process);
        pid
    }

    /// Adds an active process now, by the system clock, and returns its pid.
    pub fn create_process(&mut self, name: String, memory_usage: u64, priority: u8) -> (pid: u32)
        requires
            old(self).wf(),
            old(self)@.next_pid < u32::MAX,
        ensures
            final(self).wf(),
            pid == old(self)@.next_pid,
            exists|now: u64|
                final(self)@ == #[trigger] old(self)@.created(name@, memory_usage, priority, now),
    {
        let now = unix_time_secs();
        self.create_process_at(name, memory_usage, priority, now)
    }

    /// Gives the process `pid` the status `status` at time `now`. Nothing
    /// happens if there is no such process.
    pub fn update_process_status_at(&mut self, pid: u32, status: ProcessStatus, now: u64)
        requires
            old(self).wf(),
        ensures
            final(self).wf(),
            final(self)@ == old(self)@.with_status(pid, status, now),
    {
        proof {
            lemma_process_views_remove(self.processes@, pid);
        }
        if let Some(mut process) = self.processes.remove(&pid) {
            process.status = status;
            process.last_activity = now;
            proof {
                lemma_process_views_insert(self.processes@, pid, process);
            }
            self.processes.insert(pid, process);
        }
    }

    /// Gives the process `pid` the status `status` now, by the system clock.
    pub fn update_process_status(&mut self, pid: u32, status: ProcessStatus)
        requires
            old(self).wf(),
        ensures
            final(self).wf(),
            exists|now: u64| final(self)@ == #[trigger] old(self)@.with_status(pid, status, now),
    {
        let now = unix_time_secs();
        self.update_process_status_at(pid, status, now);
    }

    /// Swaps the process `pid` out at time `now`: it uses `swap_size` of swap
    /// space from then on. Nothing happens if there is no such process.
    pub fn swap_out_process_at(&mut self, pid: u32, swap_size: u64, now: u64)
        requires
            old(self).wf(),
        ensures
            final(self).wf(),
            final(self)@ == old(self)@.swapped_out(pid, swap_size, now),
    {
        proof {
            lemma_process_views_remove(self.processes@, pid);
        }
        if let Some(mut process) = self.processes.remove(&pid) {
            process.status = ProcessStatus::SwappedOut;
            process.swap_usage = swap_size;
            process.last_activity = now;
            proof {
                lemma_process_views_insert(self.processes@, pid, process);
            }
            self.processes.insert(pid, process);
        }
    }

    /// Swaps the process `pid` out now, by the system clock.
    pub fn swap_out_process(&mut self, pid: u32, swap_size: u64)
        requires
            old(self).wf(),
        ensures
            final(self).wf(),
            exists|now: u64| final(self)@ == #[trigger] old(self)@.swapped_out(pid, swap_size, now),
    {
        let now = unix_time_secs();
        self.swap_out_process_at(pid, swap_size, now);
    }

    /// Swaps the process `pid` in at time `now`: it is active again and uses
    /// no swap space. Nothing happens if there is no such process.
    pub fn swap_in_process_at(&mut self, pid: u32, now: u64)
        requires
            old(self).wf(),
        ensures
            final(self).wf(),
            final(self)@ == old(self)@.swapped_in(pid, now),
    {
        proof {
            lemma_process_views_remove(self.processes@, pid);
        }
        if let Some(mut process) = self.processes.remove(&pid) {
            process.status = ProcessStatus::Active;
            process.swap_usage = 0;
            process.last_activity = now;
            proof {
                lemma_process_views_insert(self.processes@, pid, process);
            }
            self.processes.insert(pid, process);
        }
    }

    /// Swaps the process `pid` in now, by the system clock.
    pub fn swap_in_process(&mut self, pid: u32)
        requires
            old(self).wf(),
        ensures
            final(self).wf(),
            exists|now: u64| final(self)@ == #[trigger] old(self)@.swapped_in(pid, now),
    {
        let now = unix_time_secs();
        self.swap_in_process_at(pid, now);
    }

    /// Takes the process `pid` out of the table and returns it, or returns
    /// `None` and changes nothing if there is no such process.
    pub fn remove_process(&mut self, pid: u32) -> (removed: Option<Process>)
        requires
            old(self).wf(),
        ensures
            final(self).wf(),
            final(self)@ == old(self)@.removed(pid),
            removed is Some <==> old(self)@.processes.contains_key(pid),
            removed matches Some(process) ==> process@ == old(self)@.processes[pid],
    {
        proof {
            lemma_process_views_remove(self.processes@, pid);
        }
        self.processes.remove(&pid)
    }

    /// Sets up the five demonstration processes at time `now`.
    fn create_demo_processes(&mut self, now: u64)
        requires
            old(self)@ == ProcessTable::empty(),
        ensures
            final(self)@ == ProcessTable::demo(now),
            final(self).wf(),
    {
        self.create_process_at("web_browser".to_owned(), 512, 5, now);
        self.create_process_at("text_editor".to_owned(), 64, 3, now);
        self.create_process_at("media_player".to_owned(), 256, 4, now);
        self.create_process_at("file_manager".to_owned(), 32, 2, now);
        self.create_process_at("system_monitor".to_owned(), 48, 1, now);
        self.swap_out_process_at(1002, 64, now);
        self.swap_out_process_at(1003, 256, now);
        self.update_process_status_at(1004, ProcessStatus::Waiting, now);
    }

    /// Copies of the processes that have the status `wanted`, or of all
    /// processes where none is asked for, in the order in which the map hands
    /// its entries out.
    fn list_processes(&self, wanted: Option<ProcessStatus>) -> (listed: Vec<Process>)
        requires
            self.wf(),
        ensures
            lists_processes(listed@, self@.processes, has_status(wanted)),
            wanted is None ==> listed@.len() == self@.processes.dom().len(),
    {
        let mut listed: Vec<Process> = Vec::new();
        let ghost entries = self.processes.iter().remaining();
        let ghost mut origin: Seq<int> = Seq::empty();
        proof {
            lemma_process_views_remove(self.processes@, 0);
        }
        for entry in it: self.processes.iter()
            invariant
                it.seq() == entries,
                origin.len() == listed@.len(),
                wanted is None ==> listed@.len() == it.index(),
                forall|j: int|
                    0 <= j < listed@.len() ==> 0 <= #[trigger] origin[j] < it.index()
                        && listed@[j]@ == (*entries[origin[j]].1)@ && has_status(wanted)(
                        listed@[j]@,
                    ),
                forall|j: int, k: int|
                    0 <= j < k < listed@.len() ==> #[trigger] origin[j] < #[trigger] origin[k],
                forall|e: int|
                    0 <= e < it.index() && has_status(wanted)((*entries[e].1)@) ==> exists|j: int|
                        0 <= j < listed@.len() && #[trigger] origin[j] == e,
        {
            let keep = match wanted {
                Some(status) => entry.1.status == status,
                None => true,
            };
            if keep {
                let ghost index = it.index();
                let ghost before = origin;
                listed.push(entry.1.clone());
                proof {
                    origin = origin.push(index);
                    assert forall|e: int|
                        0 <= e < index + 1 && has_status(wanted)((*entries[e].1)@) implies exists|
                        j: int,
                    | 0 <= j < listed@.len() && #[trigger] origin[j] == e by {
                        if e < index {
                            let j = choose|j: int| 0 <= j < before.len() && before[j] == e;
                            assert(origin[j] == e);
                        } else {
                            assert(origin[before.len() as int] == e);
                        }
                    }
                }
            }
        }
        proof {
            let table = self@.processes;
            assert forall|i: int| 0 <= i < listed@.len() implies table.contains_key(
                #[trigger] listed@[i].pid,
            ) && listed@[i]@ == table[listed@[i].pid] && has_status(wanted)(listed@[i]@) by {
                assert(self.processes@.contains_key(*entries[origin[i]].0));
            }
            assert forall|i: int, j: int| 0 <= i < j < listed@.len() implies (
            #[trigger] listed@[i]).pid != (#[trigger] listed@[j]).pid by {
                assert(self.processes@.contains_key(*entries[origin[i]].0));
                assert(self.processes@.contains_key(*entries[origin[j]].0));
            }
            assert forall|pid: u32| #[trigger]
                table.contains_key(pid) && has_status(wanted)(table[pid]) implies exists|i: int|
                0 <= i < listed@.len() && listed@[i].pid == pid by {
                assert(entries.contains((&pid, &self.processes@[pid])));
                let e = choose|e: int|
                    0 <= e < entries.len() && entries[e] == (&pid, &self.processes@[pid]);
                let i = choose|i: int| 0 <= i < listed@.len() && origin[i] == e;
                assert(listed@[i].pid == pid);
            }
        }
        listed
    }

    /// Copies of all processes, in no particular order.
    pub fn get_all_processes(&self) -> (listed: Vec<Process>)
        requires
            self.wf(),
        ensures
            lists_processes(listed@, self@.processes, has_status(None)),
            listed@.len() == self@.processes.dom().len(),
    {
        self.list_processes(None)
    }

    /// Copies of the active processes, in no particular order.
    pub fn get_active_processes(&self) -> (listed: Vec<Process>)
        requires
            self.wf(),
        ensures
            lists_processes(listed@, self@.processes, has_status(Some(ProcessStatus::Active))),
    {
        self.list_processes(Some(ProcessStatus::Active))
    }

    /// Copies of the processes that are swapped out, in no particular order.
    pub fn get_swapped_processes(&self) -> (listed: Vec<Process>)
        requires
            self.wf(),
        ensures
            lists_processes(listed@, self@.processes, has_status(Some(ProcessStatus::SwappedOut))),
    {
        self.list_processes(Some(ProcessStatus::SwappedOut))
    }

    /// Notes at time `now` whether the process `pid` was seen active: if it
    /// was, and there is such a process, its last activity is `now`.
    pub fn apply_activity(&mut self, pid: u32, seen_active: bool, now: u64)
        requires
            old(self).wf(),
        ensures
            final(self).wf(),
            final(self)@ == (if seen_active {
                old(self)@.touched(pid, now)
            } else {
                old(self)@
            }),
    {
        if seen_active {
            proof {
                lemma_process_views_remove(self.processes@, pid);
            }
            if let Some(mut process) = self.processes.remove(&pid) {
                process.last_activity = now;
                proof {
                    lemma_process_views_insert(self.processes@, pid, process);
                }
                self.processes.insert(pid, process);
            }
        }
    }

    /// The pids of the table, in the order in which the map hands them out.
    fn pids(&self) -> (pids: Vec<u32>)
        ensures
            pids@.len() == self@.processes.dom().len(),
            pids@.no_duplicates(),
            forall|i: int|
                0 <= i < pids@.len() ==> self@.processes.contains_key(#[trigger] pids@[i]),
    {
        let mut pids: Vec<u32> = Vec::new();
        let ghost keys = self.processes.keys().remaining();
        proof {
            lemma_process_views_remove(self.processes@, 0);
        }
        for pid in it: self.processes.keys()
            invariant
                it.seq() == keys,
                pids@.len() == it.index(),
                forall|j: int| 0 <= j < pids@.len() ==> #[trigger] pids@[j] == *keys[j],
        {
            pids.push(*pid);
        }
        proof {
            assert forall|i: int| 0 <= i < pids@.len() implies self@.processes.contains_key(
                #[trigger] pids@[i],
            ) by {
                assert(keys.unref().to_set().contains(keys.unref()[i]));
            }
        }
        pids
    }

    /// One round of simulated activity: each process is, by chance, seen
    /// active or not; the last activity of those seen active is the time of
    /// the round. Nothing else changes.
    pub fn simulate_activity(&mut self)
        requires
            old(self).wf(),
        ensures
            final(self).wf(),
            exists|now: u64| #[trigger] final(self)@.after_activity(old(self)@, now),
    {
        let now = unix_time_secs();
        let pids = self.pids();
        let n = pids.len();
        let mut i: usize = 0;
        while i < n
            invariant
                n == pids@.len(),
                i <= n,
                self.wf(),
                self@.after_activity(old(self)@, now),
            decreases n - i,
        {
            let ghost before = self@;
            let seen_active = random_ratio(ACTIVITY_CHANCES, ACTIVITY_OUT_OF);
            self.apply_activity(pids[i], seen_active, now);
            proof {
                assert(self@.processes.dom() =~= before.processes.dom());
            }
            i += 1;
        }
    }
}

} // verus!
