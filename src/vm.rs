//! The VM container: the global file and channel tables, the per-core shards of
//! processes and events, identifier counters, and the spawner that starts a process
//! with its capabilities.
use crate::edi::{Chd, Ed, Edi, Evd, Fd, Pid, PAYLOAD_LIMIT, TAG_CHD, TAG_EVD, TAG_FD, TAG_PID};
use crate::err::Error;
use crate::evt::Event;
use crate::io::File;
use crate::ipc::Channel;
use crate::process::{Process, Stage};
use crate::val::Function;
use std::collections::HashMap;
use vstd::prelude::*;

verus! {

broadcast use vstd::std_specs::hash::group_hash_axioms;

/// One worker core's share: the processes and events whose identifiers route to it.
#[derive(Debug)]
pub struct ProcPool {
    pub(crate) procs: HashMap<u64, Ed<Process>>,
    pub(crate) evts: HashMap<u64, Ed<Event>>,
}

/// Options for building a VM.
#[derive(Debug)]
pub struct VmOpts {
    stdin: Option<File>,
    stdout: Option<File>,
    stderr: Option<File>,
    cores: Option<usize>,
}

/// Number of shards for a configured count `cores`, or else the host's CPU count `cpus`:
/// the configured count if any, else the CPU count when it is at least the minimum,
/// else the minimum.
pub open spec fn core_count(cores: Option<usize>, cpus: Option<usize>) -> usize {
    match cores {
        Some(c) => if c >= VmOpts::MIN_CORE_NUM {
            c
        } else {
            VmOpts::MIN_CORE_NUM
        },
        None => match cpus {
            Some(x) => if x >= VmOpts::MIN_CORE_NUM {
                x
            } else {
                VmOpts::MIN_CORE_NUM
            },
            None => VmOpts::MIN_CORE_NUM,
        },
    }
}

impl VmOpts {
    /// The fewest worker cores a VM runs on.
    pub const MIN_CORE_NUM: usize = 2;

    pub closed spec fn spec_stdin(&self) -> Option<File> {
        self.stdin
    }

    pub closed spec fn spec_stdout(&self) -> Option<File> {
        self.stdout
    }

    pub closed spec fn spec_stderr(&self) -> Option<File> {
        self.stderr
    }

    pub closed spec fn spec_cores(&self) -> Option<usize> {
        self.cores
    }

    /// Nothing configured.
    pub fn new() -> (r: Self)
        ensures
            r.spec_stdin() is None,
            r.spec_stdout() is None,
            r.spec_stderr() is None,
            r.spec_cores() is None,
    {
        Self { stdin: None, stdout: None, stderr: None, cores: None }
    }

    /// Uses `file` as standard input.
    pub fn stdin(&mut self, file: File) -> (r: &mut Self)
        ensures
            r.spec_stdin() == Some(file),
            r.spec_stdout() == old(self).spec_stdout(),
            r.spec_stderr() == old(self).spec_stderr(),
            r.spec_cores() == old(self).spec_cores(),
            *final(self) == *final(r),
    {
        self.stdin = Some(file);
        self
    }

    /// Uses `file` as standard output.
    pub fn stdout(&mut self, file: File) -> (r: &mut Self)
        ensures
            r.spec_stdin() == old(self).spec_stdin(),
            r.spec_stdout() == Some(file),
            r.spec_stderr() == old(self).spec_stderr(),
            r.spec_cores() == old(self).spec_cores(),
            *final(self) == *final(r),
    {
        self.stdout = Some(file);
        self
    }

    /// Uses `file` as standard error.
    pub fn stderr(&mut self, file: File) -> (r: &mut Self)
        ensures
            r.spec_stdin() == old(self).spec_stdin(),
            r.spec_stdout() == old(self).spec_stdout(),
            r.spec_stderr() == Some(file),
            r.spec_cores() == old(self).spec_cores(),
            *final(self) == *final(r),
    {
        self.stderr = Some(file);
        self
    }

    /// Runs on `cores` worker cores; a count below the minimum is ignored.
    pub fn cores(&mut self, cores: usize) -> (r: &mut Self)
        ensures
            r.spec_stdin() == old(self).spec_stdin(),
            r.spec_stdout() == old(self).spec_stdout(),
            r.spec_stderr() == old(self).spec_stderr(),
            r.spec_cores() == if cores >= VmOpts::MIN_CORE_NUM {
                Some(cores)
            } else {
                old(self).spec_cores()
            },
            *final(self) == *final(r),
    {
        if cores >= Self::MIN_CORE_NUM {
            self.cores = Some(cores);
        }
        self
    }

    /// Builds the VM. The standard files configured here are used, and `stdin`,
    /// `stdout`, `stderr` where none was; the shard count is `core_count` of the
    /// configured count and the host's CPU count `cpus`. Only the kernel may reach
    /// the standard files at first; no channel, process or event exists yet.
    pub fn build(self, stdin: File, stdout: File, stderr: File, cpus: Option<usize>) -> (r: VmAlloc)
        ensures
            r.wf(),
            r.shards() == core_count(self.spec_cores(), cpus),
            r.file_map().dom() == set![Fd::STDIN_ID, Fd::STDOUT_ID, Fd::STDERR_ID],
            r.file_map()[Fd::STDIN_ID].device() == match self.spec_stdin() { Some(f) => f, None => stdin },
            r.file_map()[Fd::STDOUT_ID].device() == match self.spec_stdout() { Some(f) => f, None => stdout },
            r.file_map()[Fd::STDERR_ID].device() == match self.spec_stderr() { Some(f) => f, None => stderr },
            r.file_map()[Fd::STDIN_ID].perm_set() == Set::<u64>::empty(),
            r.file_map()[Fd::STDOUT_ID].perm_set() == Set::<u64>::empty(),
            r.file_map()[Fd::STDERR_ID].perm_set() == Set::<u64>::empty(),
            r.chan_map() == Map::<u64, Ed<Channel>>::empty(),
            forall|i: int| 0 <= i < r.shards() ==> #[trigger] r.proc_map(i) == Map::<u64, Ed<Process>>::empty(),
            forall|i: int| 0 <= i < r.shards() ==> #[trigger] r.evt_map(i) == Map::<u64, Ed<Event>>::empty(),
            r.next_pid() == 1,
    {
        let cpus = match self.cores {
            Some(c) => if c >= Self::MIN_CORE_NUM {
                c
            } else {
                Self::MIN_CORE_NUM
            },
            None => match cpus {
                Some(x) => if x >= Self::MIN_CORE_NUM {
                    x
                } else {
                    Self::MIN_CORE_NUM
                },
                None => Self::MIN_CORE_NUM,
            },
        };
        let mut pool: Vec<ProcPool> = Vec::new();
        let mut i: usize = 0;
        while i < cpus
            invariant
                i <= cpus,
                pool.len() == i,
                forall|j: int| 0 <= j < i ==> (#[trigger] pool@[j]).procs@ == Map::<u64, Ed<Process>>::empty()
                    && pool@[j].evts@ == Map::<u64, Ed<Event>>::empty(),
            decreases cpus - i,
        {
            pool.push(ProcPool { procs: HashMap::new(), evts: HashMap::new() });
            i = i + 1;
        }
        let stdin = match self.stdin {
            Some(f) => f,
            None => stdin,
        };
        let stdout = match self.stdout {
            Some(f) => f,
            None => stdout,
        };
        let stderr = match self.stderr {
            Some(f) => f,
            None => stderr,
        };
        let mut files: HashMap<u64, Ed<File>> = HashMap::new();
        files.insert(Fd::STDIN_ID, Ed::new(stdin));
        files.insert(Fd::STDOUT_ID, Ed::new(stdout));
        files.insert(Fd::STDERR_ID, Ed::new(stderr));
        proof {
            assert(files@.dom() =~= set![Fd::STDIN_ID, Fd::STDOUT_ID, Fd::STDERR_ID]);
        }
        VmAlloc {
            files,
            chs: HashMap::new(),
            pool,
            fd_inc: 3,
            chd_inc: 0,
            pid_inc: 1,
            bytecode: HashMap::new(),
        }
    }
}

/// The VM: every device, each wrapped with its permission set.
#[derive(Debug)]
pub struct VmAlloc {
    pub(crate) files: HashMap<u64, Ed<File>>,
    pub(crate) chs: HashMap<u64, Ed<Channel>>,
    pub(crate) pool: Vec<ProcPool>,
    pub(crate) fd_inc: u64,
    pub(crate) chd_inc: u64,
    pub(crate) pid_inc: u64,
    pub(crate) bytecode: HashMap<String, Vec<u8>>,
}

impl VmAlloc {
    /// Number of shards.
    pub open(crate) spec fn shards(&self) -> nat {
        self.pool@.len()
    }

    /// The files, by identifier payload.
    pub open(crate) spec fn file_map(&self) -> Map<u64, Ed<File>> {
        self.files@
    }

    /// The channels, by identifier payload.
    pub open(crate) spec fn chan_map(&self) -> Map<u64, Ed<Channel>> {
        self.chs@
    }

    /// The processes of shard `i`.
    pub open(crate) spec fn proc_map(&self, i: int) -> Map<u64, Ed<Process>> {
        self.pool@[i].procs@
    }

    /// The events of shard `i`.
    pub open(crate) spec fn evt_map(&self, i: int) -> Map<u64, Ed<Event>> {
        self.pool@[i].evts@
    }

    /// The shard that owns identifier `id`.
    pub open(crate) spec fn route(&self, id: u64) -> int {
        (id as int) % (self.shards() as int)
    }

    /// The process with payload `id`, looked up in its shard.
    pub open(crate) spec fn proc_at(&self, id: u64) -> Option<Ed<Process>> {
        let m = self.proc_map(self.route(id));
        if m.contains_key(id) {
            Some(m[id])
        } else {
            None
        }
    }

    /// The event with payload `id`, looked up in its shard.
    pub open(crate) spec fn evt_at(&self, id: u64) -> Option<Ed<Event>> {
        let m = self.evt_map(self.route(id));
        if m.contains_key(id) {
            Some(m[id])
        } else {
            None
        }
    }

    /// The payload the next process identifier is tried from.
    pub open(crate) spec fn next_pid(&self) -> u64 {
        self.pid_inc
    }

    /// At least the minimum number of shards, every process and event in the shard its
    /// identifier routes to, every identifier a valid payload, and the process counter
    /// a valid identifier other than the kernel's.
    pub open(crate) spec fn wf(&self) -> bool {
        &&& self.shards() >= VmOpts::MIN_CORE_NUM
        &&& 1 <= self.pid_inc < PAYLOAD_LIMIT
        &&& forall|i: int, k: u64|
            0 <= i < self.shards() && #[trigger] self.proc_map(i).contains_key(k) ==> self.route(k) == i
                && k < PAYLOAD_LIMIT
        &&& forall|i: int, k: u64|
            0 <= i < self.shards() && #[trigger] self.evt_map(i).contains_key(k) ==> self.route(k) == i
                && k < PAYLOAD_LIMIT
    }

    /// Why a grant on process `t`, asked by `accessor`, fails; `None` if it succeeds.
    pub open(crate) spec fn pid_refusal(&self, accessor: Pid, t: Pid) -> Option<Error> {
        match self.proc_at(t.id()) {
            None => Some(Error::NoSuchPid(t)),
            Some(ed) => if ed.permits(accessor) {
                None
            } else {
                Some(Error::AccessDenied(Edi::from_parts(TAG_PID, t.id())))
            },
        }
    }

    /// Why a grant on file `t`, asked by `accessor`, fails; `None` if it succeeds.
    pub open(crate) spec fn fd_refusal(&self, accessor: Pid, t: Fd) -> Option<Error> {
        if !self.file_map().contains_key(t.id()) {
            Some(Error::NoSuchFd(t))
        } else if self.file_map()[t.id()].permits(accessor) {
            None
        } else {
            Some(Error::AccessDenied(Edi::from_parts(TAG_FD, t.id())))
        }
    }

    /// Why a grant on channel `t`, asked by `accessor`, fails; `None` if it succeeds.
    pub open(crate) spec fn chd_refusal(&self, accessor: Pid, t: Chd) -> Option<Error> {
        if !self.chan_map().contains_key(t.id()) {
            Some(Error::NoSuchChd(t))
        } else if self.chan_map()[t.id()].permits(accessor) {
            None
        } else {
            Some(Error::AccessDenied(Edi::from_parts(TAG_CHD, t.id())))
        }
    }

    /// Why a grant on event `t`, asked by `accessor`, fails; `None` if it succeeds.
    pub open(crate) spec fn evd_refusal(&self, accessor: Pid, t: Evd) -> Option<Error> {
        match self.evt_at(t.id()) {
            None => Some(Error::NoSuchEvd(t)),
            Some(ed) => if ed.permits(accessor) {
                None
            } else {
                Some(Error::AccessDenied(Edi::from_parts(TAG_EVD, t.id())))
            },
        }
    }

    /// The shard that owns identifier `id`.
    pub fn pool_idx(&self, id: u64) -> (r: usize)
        requires
            self.wf(),
        ensures
            r == self.route(id),
            r < self.shards(),
    {
        (id % (self.pool.len() as u64)) as usize
    }

    /// Calls `fun` on process `target` if `accessor` may reach it.
    pub fn with_pid<F, T>(&self, accessor: Pid, target: Pid, fun: F) -> (r: Result<T, Error>) where
        F: FnOnce(&Process) -> T,

        requires
            self.wf(),
            forall|p: &Process| fun.requires((p,)),
        ensures
            match self.pid_refusal(accessor, target) {
                Some(e) => r == Err::<T, Error>(e),
                None => r matches Ok(t) && fun.ensures((&self.proc_at(target.id()).unwrap().device(),), t),
            },
    {
        let idx = self.pool_idx(target.raw());
        let procs = &self.pool[idx].procs;
        let ed = match procs.get(&target.raw()) {
            Some(e) => e,
            None => return Err(Error::NoSuchPid(target)),
        };
        match ed.access(accessor) {
            Some(p) => Ok(fun(p)),
            None => Err(Error::AccessDenied(Edi::from(target))),
        }
    }

    /// Every table of `self` equals the one of `other`, shard by shard.
    pub open(crate) spec fn same_tables(&self, other: &VmAlloc) -> bool {
        &&& self.shards() == other.shards()
        &&& self.file_map() == other.file_map()
        &&& self.chan_map() == other.chan_map()
        &&& forall|i: int| 0 <= i < self.shards() ==> #[trigger] self.proc_map(i) == other.proc_map(i)
        &&& forall|i: int| 0 <= i < self.shards() ==> #[trigger] self.evt_map(i) == other.evt_map(i)
    }

    /// Every table of `self` equals the one of `other`, except the process table of shard `s`.
    pub open(crate) spec fn same_but_procs(&self, other: &VmAlloc, s: int) -> bool {
        &&& self.shards() == other.shards()
        &&& self.next_pid() == other.next_pid()
        &&& self.file_map() == other.file_map()
        &&& self.chan_map() == other.chan_map()
        &&& forall|i: int| 0 <= i < self.shards() && i != s ==> #[trigger] self.proc_map(i) == other.proc_map(i)
        &&& forall|i: int| 0 <= i < self.shards() ==> #[trigger] self.evt_map(i) == other.evt_map(i)
    }

    /// Every table of `self` equals the one of `other`, except the event table of shard `s`.
    pub open(crate) spec fn same_but_evts(&self, other: &VmAlloc, s: int) -> bool {
        &&& self.shards() == other.shards()
        &&& self.next_pid() == other.next_pid()
        &&& self.file_map() == other.file_map()
        &&& self.chan_map() == other.chan_map()
        &&& forall|i: int| 0 <= i < self.shards() ==> #[trigger] self.proc_map(i) == other.proc_map(i)
        &&& forall|i: int| 0 <= i < self.shards() && i != s ==> #[trigger] self.evt_map(i) == other.evt_map(i)
    }

    /// Lets `new_acc` reach process `target`, on behalf of `accessor`: refused when
    /// the process does not exist or `accessor` may not reach it.
    pub fn allow_on_pid(&mut self, accessor: Pid, target: Pid, new_acc: Pid) -> (r: Result<(), Error>)
        requires
            old(self).wf(),
        ensures
            final(self).wf(),
            r == match old(self).pid_refusal(accessor, target) {
                Some(e) => Err::<(), Error>(e),
                None => Ok(()),
            },
            final(self).same_but_procs(&*old(self), old(self).route(target.id())),
            r is Err ==> final(self).same_tables(&*old(self)),
            r is Ok ==> granted(
                old(self).proc_map(old(self).route(target.id())),
                final(self).proc_map(old(self).route(target.id())),
                target.id(),
                new_acc,
            ),
    {
        let idx = self.pool_idx(target.raw());
        let out = grant_in(&mut self.pool[idx].procs, accessor, target.raw(), new_acc);
        proof {
            assert forall|i: int| 0 <= i < old(self).shards() implies (#[trigger] self.proc_map(i)).dom()
                == old(self).proc_map(i).dom() by {
                assert(self.proc_map(i).dom() =~= old(self).proc_map(i).dom());
            }
            lemma_wf_kept(*old(self), *self);
        }
        match out {
            None => Err(Error::NoSuchPid(target)),
            Some(false) => Err(Error::AccessDenied(Edi::from(target))),
            Some(true) => Ok(()),
        }
    }

    /// Lets `new_acc` reach file `target`, on behalf of `accessor`: refused when
    /// the file does not exist or `accessor` may not reach it.
    pub fn allow_on_fd(&mut self, accessor: Pid, target: Fd, new_acc: Pid) -> (r: Result<(), Error>)
        requires
            old(self).wf(),
        ensures
            final(self).wf(),
            r == match old(self).fd_refusal(accessor, target) {
                Some(e) => Err::<(), Error>(e),
                None => Ok(()),
            },
            final(self).shards() == old(self).shards(),
            final(self).next_pid() == old(self).next_pid(),
            final(self).chan_map() == old(self).chan_map(),
            forall|i: int| 0 <= i < old(self).shards() ==> #[trigger] final(self).proc_map(i) == old(self).proc_map(i),
            forall|i: int| 0 <= i < old(self).shards() ==> #[trigger] final(self).evt_map(i) == old(self).evt_map(i),
            r is Err ==> final(self).same_tables(&*old(self)),
            r is Ok ==> granted(old(self).file_map(), final(self).file_map(), target.id(), new_acc),
    {
        let out = grant_in(&mut self.files, accessor, target.raw(), new_acc);
        proof {
            lemma_wf_kept(*old(self), *self);
        }
        match out {
            None => Err(Error::NoSuchFd(target)),
            Some(false) => Err(Error::AccessDenied(Edi::from(target))),
            Some(true) => Ok(()),
        }
    }

    /// Lets `new_acc` reach channel `target`, on behalf of `accessor`: refused when
    /// the channel does not exist or `accessor` may not reach it.
    pub fn allow_on_chd(&mut self, accessor: Pid, target: Chd, new_acc: Pid) -> (r: Result<(), Error>)
        requires
            old(self).wf(),
        ensures
            final(self).wf(),
            r == match old(self).chd_refusal(accessor, target) {
                Some(e) => Err::<(), Error>(e),
                None => Ok(()),
            },
            final(self).shards() == old(self).shards(),
            final(self).next_pid() == old(self).next_pid(),
            final(self).file_map() == old(self).file_map(),
            forall|i: int| 0 <= i < old(self).shards() ==> #[trigger] final(self).proc_map(i) == old(self).proc_map(i),
            forall|i: int| 0 <= i < old(self).shards() ==> #[trigger] final(self).evt_map(i) == old(self).evt_map(i),
            r is Err ==> final(self).same_tables(&*old(self)),
            r is Ok ==> granted(old(self).chan_map(), final(self).chan_map(), target.id(), new_acc),
    {
        let out = grant_in(&mut self.chs, accessor, target.raw(), new_acc);
        proof {
            lemma_wf_kept(*old(self), *self);
        }
        match out {
            None => Err(Error::NoSuchChd(target)),
            Some(false) => Err(Error::AccessDenied(Edi::from(target))),
            Some(true) => Ok(()),
        }
    }

    /// Lets `new_acc` reach event `target`, on behalf of `accessor`: refused when
    /// the event does not exist or `accessor` may not reach it.
    pub fn allow_on_evd(&mut self, accessor: Pid, target: Evd, new_acc: Pid) -> (r: Result<(), Error>)
        requires
            old(self).wf(),
        ensures
            final(self).wf(),
            r == match old(self).evd_refusal(accessor, target) {
                Some(e) => Err::<(), Error>(e),
                None => Ok(()),
            },
            final(self).same_but_evts(&*old(self), old(self).route(target.id())),
            r is Err ==> final(self).same_tables(&*old(self)),
            r is Ok ==> granted(
                old(self).evt_map(old(self).route(target.id())),
                final(self).evt_map(old(self).route(target.id())),
                target.id(),
                new_acc,
            ),
    {
        let idx = self.pool_idx(target.raw());
        let out = grant_in(&mut self.pool[idx].evts, accessor, target.raw(), new_acc);
        proof {
            assert forall|i: int| 0 <= i < old(self).shards() implies (#[trigger] self.evt_map(i)).dom()
                == old(self).evt_map(i).dom() by {
                assert(self.evt_map(i).dom() =~= old(self).evt_map(i).dom());
            }
            lemma_wf_kept(*old(self), *self);
        }
        match out {
            None => Err(Error::NoSuchEvd(target)),
            Some(false) => Err(Error::AccessDenied(Edi::from(target))),
            Some(true) => Ok(()),
        }
    }
}

proof fn lemma_wf_kept(a: VmAlloc, b: VmAlloc)
    requires
        a.wf(),
        b.shards() == a.shards(),
        1 <= b.pid_inc < PAYLOAD_LIMIT,
        forall|i: int| 0 <= i < a.shards() ==> (#[trigger] b.proc_map(i)).dom() == a.proc_map(i).dom(),
        forall|i: int| 0 <= i < a.shards() ==> (#[trigger] b.evt_map(i)).dom() == a.evt_map(i).dom(),
    ensures
        b.wf(),
{
    assert forall|i: int, k: u64| 0 <= i < b.shards() && #[trigger] b.proc_map(i).contains_key(k) implies b.route(k) == i
        && k < PAYLOAD_LIMIT by {
        assert(a.proc_map(i).dom().contains(k));
    }
    assert forall|i: int, k: u64| 0 <= i < b.shards() && #[trigger] b.evt_map(i).contains_key(k) implies b.route(k) == i
        && k < PAYLOAD_LIMIT by {
        assert(b.evt_map(i).dom().contains(k));
        assert(a.evt_map(i).dom().contains(k));
    }
}

/// `after` is `before` with `new_acc` let in on entry `k`, nothing else changed.
pub open(crate) spec fn granted<T>(before: Map<u64, Ed<T>>, after: Map<u64, Ed<T>>, k: u64, new_acc: Pid) -> bool {
    &&& before.contains_key(k)
    &&& after == before.insert(k, after[k])
    &&& after[k].device() == before[k].device()
    &&& after[k].perm_set() == before[k].perm_set().insert(new_acc.id())
}

/// Lets `new_acc` reach entry `k` of `m` on behalf of `accessor`: `None` when there is
/// no such entry, else whether `accessor` was permitted (and so the grant made).
fn grant_in<T>(m: &mut HashMap<u64, Ed<T>>, accessor: Pid, k: u64, new_acc: Pid) -> (r: Option<bool>)
    ensures
        !old(m)@.contains_key(k) ==> r is None && final(m)@ == old(m)@,
        old(m)@.contains_key(k) ==> r == Some(old(m)@[k].permits(accessor)),
        old(m)@.contains_key(k) && !old(m)@[k].permits(accessor) ==> final(m)@ == old(m)@,
        old(m)@.contains_key(k) && old(m)@[k].permits(accessor) ==> granted(old(m)@, final(m)@, k, new_acc),
{
    match m.get(&k) {
        None => return None,
        Some(ed) => {
            if !ed.is_allowed(accessor) {
                return Some(false);
            }
        },
    }
    let mut ed = m.remove(&k).unwrap();
    ed.allow(accessor, new_acc);
    m.insert(k, ed);
    proof {
        assert(final(m)@ =~= old(m)@.insert(k, final(m)@[k]));
    }
    Some(true)
}


/// The first refusal among `errs`, in order; `None` if there is none.
pub open spec fn first_refusal(errs: Seq<Option<Error>>) -> Option<Error>
    decreases errs.len(),
{
    if errs.len() == 0 {
        None
    } else if first_refusal(errs.drop_last()) is Some {
        first_refusal(errs.drop_last())
    } else {
        errs.last()
    }
}

proof fn lemma_first_refusal_concat(a: Seq<Option<Error>>, b: Seq<Option<Error>>)
    ensures
        first_refusal(a + b) == if first_refusal(a) is Some {
            first_refusal(a)
        } else {
            first_refusal(b)
        },
    decreases b.len(),
{
    if b.len() == 0 {
        assert(a + b =~= a);
    } else {
        assert((a + b).drop_last() =~= a + b.drop_last());
        lemma_first_refusal_concat(a, b.drop_last());
    }
}

/// `q` with `p` added when `grant` holds.
pub open spec fn with_grant(q: Set<u64>, grant: bool, p: u64) -> Set<u64> {
    if grant {
        q.insert(p)
    } else {
        q
    }
}

/// The payloads of the identifiers.
pub open spec fn pid_ids(s: Seq<Pid>) -> Seq<u64> {
    s.map_values(|t: Pid| t.id())
}

/// The payloads of the identifiers.
pub open spec fn fd_ids(s: Seq<Fd>) -> Seq<u64> {
    s.map_values(|t: Fd| t.id())
}

/// The payloads of the identifiers.
pub open spec fn chd_ids(s: Seq<Chd>) -> Seq<u64> {
    s.map_values(|t: Chd| t.id())
}

/// The payloads of the identifiers.
pub open spec fn evd_ids(s: Seq<Evd>) -> Seq<u64> {
    s.map_values(|t: Evd| t.id())
}

/// `after`'s files are `before`'s, each with `p` let in when `targets` names it.
pub open spec fn files_granted(before: &VmAlloc, after: &VmAlloc, targets: Seq<u64>, p: u64) -> bool {
    &&& after.file_map().dom() == before.file_map().dom()
    &&& forall|k: u64| #[trigger] before.file_map().contains_key(k) ==> after.file_map()[k].device()
        == before.file_map()[k].device() && after.file_map()[k].perm_set() == with_grant(
        before.file_map()[k].perm_set(),
        targets.contains(k),
        p,
    )
}

/// `after`'s channels are `before`'s, each with `p` let in when `targets` names it.
pub open spec fn chans_granted(before: &VmAlloc, after: &VmAlloc, targets: Seq<u64>, p: u64) -> bool {
    &&& after.chan_map().dom() == before.chan_map().dom()
    &&& forall|k: u64| #[trigger] before.chan_map().contains_key(k) ==> after.chan_map()[k].device()
        == before.chan_map()[k].device() && after.chan_map()[k].perm_set() == with_grant(
        before.chan_map()[k].perm_set(),
        targets.contains(k),
        p,
    )
}

/// `after`'s processes other than `skip` are `before`'s, each with `p` let in when
/// `targets` names it.
pub open spec fn procs_granted(before: &VmAlloc, after: &VmAlloc, targets: Seq<u64>, p: u64, skip: u64) -> bool {
    forall|k: u64| k != skip ==> {
        &&& (#[trigger] after.proc_at(k) is Some <==> before.proc_at(k) is Some)
        &&& before.proc_at(k) is Some ==> after.proc_at(k).unwrap().device() == before.proc_at(k).unwrap().device()
            && after.proc_at(k).unwrap().perm_set() == with_grant(
            before.proc_at(k).unwrap().perm_set(),
            targets.contains(k),
            p,
        )
    }
}

/// `after`'s events are `before`'s, each with `p` let in when `targets` names it.
pub open spec fn evts_granted(before: &VmAlloc, after: &VmAlloc, targets: Seq<u64>, p: u64) -> bool {
    forall|k: u64| {
        &&& (#[trigger] after.evt_at(k) is Some <==> before.evt_at(k) is Some)
        &&& before.evt_at(k) is Some ==> after.evt_at(k).unwrap().device() == before.evt_at(k).unwrap().device()
            && after.evt_at(k).unwrap().perm_set() == with_grant(
            before.evt_at(k).unwrap().perm_set(),
            targets.contains(k),
            p,
        )
    }
}

/// The payload tried after `cur`: the next one, skipping the kernel's and wrapping
/// before the kind bits.
pub open spec fn pid_after(cur: u64) -> u64 {
    if cur + 1 >= PAYLOAD_LIMIT {
        1
    } else {
        (cur + 1) as u64
    }
}

/// The process identifier counter never yields the kernel's payload nor one that sets a
/// kind bit: from any valid payload the next one is again valid and not the kernel's.
pub proof fn law_pid_allocation(cur: u64)
    requires
        cur < PAYLOAD_LIMIT,
    ensures
        pid_after(cur) != Pid::KERNEL_ID,
        pid_after(cur) < PAYLOAD_LIMIT,
{
}

/// A failed spawn grants nothing: when every table after it equals the one before
/// (as `Spawner::spawn` promises on failure), every process is permitted on every
/// device exactly as before.
pub proof fn law_failed_spawn_grants_nothing(before: VmAlloc, after: VmAlloc, q: Pid, k: u64)
    requires
        before.wf(),
        after.same_tables(&before),
    ensures
        after.file_map().contains_key(k) == before.file_map().contains_key(k),
        after.file_map().contains_key(k) ==> (after.file_map()[k].permits(q) <==> before.file_map()[k].permits(q)),
        after.chan_map().contains_key(k) == before.chan_map().contains_key(k),
        after.chan_map().contains_key(k) ==> (after.chan_map()[k].permits(q) <==> before.chan_map()[k].permits(q)),
        after.proc_at(k) == before.proc_at(k),
        after.evt_at(k) == before.evt_at(k),
{
    let s = before.route(k);
    assert(0 <= s < before.shards()) by (nonlinear_arith)
        requires
            s == (k as int) % (before.shards() as int),
            before.shards() >= 2,
    ;
    assert(after.proc_map(s) == before.proc_map(s));
    assert(after.evt_map(s) == before.evt_map(s));
}

fn pid_refusal_of(vm: &VmAlloc, accessor: Pid, t: Pid) -> (r: Option<Error>)
    requires
        vm.wf(),
    ensures
        r == vm.pid_refusal(accessor, t),
{
    let idx = vm.pool_idx(t.raw());
    match vm.pool[idx].procs.get(&t.raw()) {
        None => Some(Error::NoSuchPid(t)),
        Some(ed) => if ed.is_allowed(accessor) {
            None
        } else {
            Some(Error::AccessDenied(Edi::from(t)))
        },
    }
}

fn fd_refusal_of(vm: &VmAlloc, accessor: Pid, t: Fd) -> (r: Option<Error>)
    ensures
        r == vm.fd_refusal(accessor, t),
{
    match vm.files.get(&t.raw()) {
        None => Some(Error::NoSuchFd(t)),
        Some(ed) => if ed.is_allowed(accessor) {
            None
        } else {
            Some(Error::AccessDenied(Edi::from(t)))
        },
    }
}

fn chd_refusal_of(vm: &VmAlloc, accessor: Pid, t: Chd) -> (r: Option<Error>)
    ensures
        r == vm.chd_refusal(accessor, t),
{
    match vm.chs.get(&t.raw()) {
        None => Some(Error::NoSuchChd(t)),
        Some(ed) => if ed.is_allowed(accessor) {
            None
        } else {
            Some(Error::AccessDenied(Edi::from(t)))
        },
    }
}

fn evd_refusal_of(vm: &VmAlloc, accessor: Pid, t: Evd) -> (r: Option<Error>)
    requires
        vm.wf(),
    ensures
        r == vm.evd_refusal(accessor, t),
{
    let idx = vm.pool_idx(t.raw());
    match vm.pool[idx].evts.get(&t.raw()) {
        None => Some(Error::NoSuchEvd(t)),
        Some(ed) => if ed.is_allowed(accessor) {
            None
        } else {
            Some(Error::AccessDenied(Edi::from(t)))
        },
    }
}

fn first_pid_refusal(vm: &VmAlloc, accessor: Pid, ts: &Vec<Pid>) -> (r: Option<Error>)
    requires
        vm.wf(),
    ensures
        r == first_refusal(ts@.map_values(|t: Pid| vm.pid_refusal(accessor, t))),
{
    let mut i: usize = 0;
    while i < ts.len()
        invariant
            i <= ts.len(),
            vm.wf(),
            first_refusal(ts@.subrange(0, i as int).map_values(|t: Pid| vm.pid_refusal(accessor, t))) is None,
        decreases ts.len() - i,
    {
        let e = pid_refusal_of(vm, accessor, ts[i]);
        proof {
            let pre = ts@.subrange(0, i as int).map_values(|t: Pid| vm.pid_refusal(accessor, t));
            let post = ts@.subrange(0, i + 1).map_values(|t: Pid| vm.pid_refusal(accessor, t));
            assert(post.drop_last() =~= pre);
            if e is Some {
                lemma_first_refusal_concat(post, ts@.subrange(i + 1, ts.len() as int).map_values(|t: Pid| vm.pid_refusal(accessor, t)));
                assert(post + ts@.subrange(i + 1, ts.len() as int).map_values(|t: Pid| vm.pid_refusal(accessor, t))
                    =~= ts@.map_values(|t: Pid| vm.pid_refusal(accessor, t)));
            }
        }
        if e.is_some() {
            return e;
        }
        i = i + 1;
    }
    proof {
        assert(ts@.subrange(0, ts.len() as int) =~= ts@);
    }
    None
}

fn first_fd_refusal(vm: &VmAlloc, accessor: Pid, ts: &Vec<Fd>) -> (r: Option<Error>)
    ensures
        r == first_refusal(ts@.map_values(|t: Fd| vm.fd_refusal(accessor, t))),
{
    let mut i: usize = 0;
    while i < ts.len()
        invariant
            i <= ts.len(),
            
            first_refusal(ts@.subrange(0, i as int).map_values(|t: Fd| vm.fd_refusal(accessor, t))) is None,
        decreases ts.len() - i,
    {
        let e = fd_refusal_of(vm, accessor, ts[i]);
        proof {
            let pre = ts@.subrange(0, i as int).map_values(|t: Fd| vm.fd_refusal(accessor, t));
            let post = ts@.subrange(0, i + 1).map_values(|t: Fd| vm.fd_refusal(accessor, t));
            assert(post.drop_last() =~= pre);
            if e is Some {
                lemma_first_refusal_concat(post, ts@.subrange(i + 1, ts.len() as int).map_values(|t: Fd| vm.fd_refusal(accessor, t)));
                assert(post + ts@.subrange(i + 1, ts.len() as int).map_values(|t: Fd| vm.fd_refusal(accessor, t))
                    =~= ts@.map_values(|t: Fd| vm.fd_refusal(accessor, t)));
            }
        }
        if e.is_some() {
            return e;
        }
        i = i + 1;
    }
    proof {
        assert(ts@.subrange(0, ts.len() as int) =~= ts@);
    }
    None
}

fn first_chd_refusal(vm: &VmAlloc, accessor: Pid, ts: &Vec<Chd>) -> (r: Option<Error>)
    ensures
        r == first_refusal(ts@.map_values(|t: Chd| vm.chd_refusal(accessor, t))),
{
    let mut i: usize = 0;
    while i < ts.len()
        invariant
            i <= ts.len(),
            
            first_refusal(ts@.subrange(0, i as int).map_values(|t: Chd| vm.chd_refusal(accessor, t))) is None,
        decreases ts.len() - i,
    {
        let e = chd_refusal_of(vm, accessor, ts[i]);
        proof {
            let pre = ts@.subrange(0, i as int).map_values(|t: Chd| vm.chd_refusal(accessor, t));
            let post = ts@.subrange(0, i + 1).map_values(|t: Chd| vm.chd_refusal(accessor, t));
            assert(post.drop_last() =~= pre);
            if e is Some {
                lemma_first_refusal_concat(post, ts@.subrange(i + 1, ts.len() as int).map_values(|t: Chd| vm.chd_refusal(accessor, t)));
                assert(post + ts@.subrange(i + 1, ts.len() as int).map_values(|t: Chd| vm.chd_refusal(accessor, t))
                    =~= ts@.map_values(|t: Chd| vm.chd_refusal(accessor, t)));
            }
        }
        if e.is_some() {
            return e;
        }
        i = i + 1;
    }
    proof {
        assert(ts@.subrange(0, ts.len() as int) =~= ts@);
    }
    None
}

fn first_evd_refusal(vm: &VmAlloc, accessor: Pid, ts: &Vec<Evd>) -> (r: Option<Error>)
    requires
        vm.wf(),
    ensures
        r == first_refusal(ts@.map_values(|t: Evd| vm.evd_refusal(accessor, t))),
{
    let mut i: usize = 0;
    while i < ts.len()
        invariant
            i <= ts.len(),
            vm.wf(),
            first_refusal(ts@.subrange(0, i as int).map_values(|t: Evd| vm.evd_refusal(accessor, t))) is None,
        decreases ts.len() - i,
    {
        let e = evd_refusal_of(vm, accessor, ts[i]);
        proof {
            let pre = ts@.subrange(0, i as int).map_values(|t: Evd| vm.evd_refusal(accessor, t));
            let post = ts@.subrange(0, i + 1).map_values(|t: Evd| vm.evd_refusal(accessor, t));
            assert(post.drop_last() =~= pre);
            if e is Some {
                lemma_first_refusal_concat(post, ts@.subrange(i + 1, ts.len() as int).map_values(|t: Evd| vm.evd_refusal(accessor, t)));
                assert(post + ts@.subrange(i + 1, ts.len() as int).map_values(|t: Evd| vm.evd_refusal(accessor, t))
                    =~= ts@.map_values(|t: Evd| vm.evd_refusal(accessor, t)));
            }
        }
        if e.is_some() {
            return e;
        }
        i = i + 1;
    }
    proof {
        assert(ts@.subrange(0, ts.len() as int) =~= ts@);
    }
    None
}


proof fn lemma_route_bound(vm: &VmAlloc, k: u64)
    requires
        vm.wf(),
    ensures
        0 <= vm.route(k) < vm.shards(),
{
    let n = vm.shards() as int;
    assert(0 <= (k as int) % n < n) by (nonlinear_arith)
        requires
            n >= 2,
    ;
}

fn grant_fds(vm: &mut VmAlloc, accessor: Pid, ts: &Vec<Fd>, new_acc: Pid)
    requires
        old(vm).wf(),
        forall|i: int| 0 <= i < ts.len() ==> old(vm).fd_refusal(accessor, #[trigger] ts@[i]) is None,
    ensures
        final(vm).wf(),
        final(vm).shards() == old(vm).shards(),
        final(vm).next_pid() == old(vm).next_pid(),
        final(vm).chan_map() == old(vm).chan_map(),
        forall|i: int| 0 <= i < old(vm).shards() ==> #[trigger] final(vm).proc_map(i) == old(vm).proc_map(i),
        forall|i: int| 0 <= i < old(vm).shards() ==> #[trigger] final(vm).evt_map(i) == old(vm).evt_map(i),
        files_granted(&*old(vm), &*final(vm), fd_ids(ts@), new_acc.id()),
{
    let mut i: usize = 0;
    while i < ts.len()
        invariant
            i <= ts.len(),
            old(vm).wf(),
            vm.wf(),
            vm.shards() == old(vm).shards(),
            vm.next_pid() == old(vm).next_pid(),
            vm.chan_map() == old(vm).chan_map(),
            forall|j: int| 0 <= j < old(vm).shards() ==> #[trigger] vm.proc_map(j) == old(vm).proc_map(j),
            forall|j: int| 0 <= j < old(vm).shards() ==> #[trigger] vm.evt_map(j) == old(vm).evt_map(j),
            forall|j: int| 0 <= j < ts.len() ==> old(vm).fd_refusal(accessor, #[trigger] ts@[j]) is None,
            files_granted(&*old(vm), &*vm, fd_ids(ts@.subrange(0, i as int)), new_acc.id()),
        decreases ts.len() - i,
    {
        let t = ts[i];
        let ghost before = *vm;
        proof {
            assert(old(vm).fd_refusal(accessor, ts@[i as int]) is None);
            assert(old(vm).file_map().contains_key(t.id()));
        }
        let _ = vm.allow_on_fd(accessor, t, new_acc);
        proof {
            let pre = fd_ids(ts@.subrange(0, i as int));
            let post = fd_ids(ts@.subrange(0, i + 1));
            assert(post =~= pre.push(t.id()));
            assert forall|k: u64| #[trigger] old(vm).file_map().contains_key(k) implies vm.file_map()[k].device()
                == old(vm).file_map()[k].device() && vm.file_map()[k].perm_set() == with_grant(
                old(vm).file_map()[k].perm_set(),
                post.contains(k),
                new_acc.id(),
            ) by {
                assert(before.file_map().contains_key(k));
                if k == t.id() {
                    assert(post.contains(k)) by {
                        assert(post[i as int] == k);
                    }
                    assert(vm.file_map()[k].perm_set() =~= with_grant(
                        old(vm).file_map()[k].perm_set(),
                        true,
                        new_acc.id(),
                    ));
                } else {
                    assert(post.contains(k) == pre.contains(k)) by {
                        if post.contains(k) {
                            let j = choose|j: int| 0 <= j < post.len() && post[j] == k;
                            assert(j < pre.len());
                            assert(pre[j] == k);
                        }
                        if pre.contains(k) {
                            let j = choose|j: int| 0 <= j < pre.len() && pre[j] == k;
                            assert(post[j] == k);
                        }
                    }
                }
            }
            assert(vm.file_map().dom() =~= old(vm).file_map().dom());
        }
        i = i + 1;
    }
    proof {
        assert(ts@.subrange(0, ts.len() as int) =~= ts@);
    }
}

fn grant_chds(vm: &mut VmAlloc, accessor: Pid, ts: &Vec<Chd>, new_acc: Pid)
    requires
        old(vm).wf(),
        forall|i: int| 0 <= i < ts.len() ==> old(vm).chd_refusal(accessor, #[trigger] ts@[i]) is None,
    ensures
        final(vm).wf(),
        final(vm).shards() == old(vm).shards(),
        final(vm).next_pid() == old(vm).next_pid(),
        final(vm).file_map() == old(vm).file_map(),
        forall|i: int| 0 <= i < old(vm).shards() ==> #[trigger] final(vm).proc_map(i) == old(vm).proc_map(i),
        forall|i: int| 0 <= i < old(vm).shards() ==> #[trigger] final(vm).evt_map(i) == old(vm).evt_map(i),
        chans_granted(&*old(vm), &*final(vm), chd_ids(ts@), new_acc.id()),
{
    let mut i: usize = 0;
    while i < ts.len()
        invariant
            i <= ts.len(),
            old(vm).wf(),
            vm.wf(),
            vm.shards() == old(vm).shards(),
            vm.next_pid() == old(vm).next_pid(),
            vm.file_map() == old(vm).file_map(),
            forall|j: int| 0 <= j < old(vm).shards() ==> #[trigger] vm.proc_map(j) == old(vm).proc_map(j),
            forall|j: int| 0 <= j < old(vm).shards() ==> #[trigger] vm.evt_map(j) == old(vm).evt_map(j),
            forall|j: int| 0 <= j < ts.len() ==> old(vm).chd_refusal(accessor, #[trigger] ts@[j]) is None,
            chans_granted(&*old(vm), &*vm, chd_ids(ts@.subrange(0, i as int)), new_acc.id()),
        decreases ts.len() - i,
    {
        let t = ts[i];
        let ghost before = *vm;
        proof {
            assert(old(vm).chd_refusal(accessor, ts@[i as int]) is None);
            assert(old(vm).chan_map().contains_key(t.id()));
        }
        let _ = vm.allow_on_chd(accessor, t, new_acc);
        proof {
            let pre = chd_ids(ts@.subrange(0, i as int));
            let post = chd_ids(ts@.subrange(0, i + 1));
            assert(post =~= pre.push(t.id()));
            assert forall|k: u64| #[trigger] old(vm).chan_map().contains_key(k) implies vm.chan_map()[k].device()
                == old(vm).chan_map()[k].device() && vm.chan_map()[k].perm_set() == with_grant(
                old(vm).chan_map()[k].perm_set(),
                post.contains(k),
                new_acc.id(),
            ) by {
                assert(before.chan_map().contains_key(k));
                if k == t.id() {
                    assert(post.contains(k)) by {
                        assert(post[i as int] == k);
                    }
                    assert(vm.chan_map()[k].perm_set() =~= with_grant(
                        old(vm).chan_map()[k].perm_set(),
                        true,
                        new_acc.id(),
                    ));
                } else {
                    assert(post.contains(k) == pre.contains(k)) by {
                        if post.contains(k) {
                            let j = choose|j: int| 0 <= j < post.len() && post[j] == k;
                            assert(j < pre.len());
                            assert(pre[j] == k);
                        }
                        if pre.contains(k) {
                            let j = choose|j: int| 0 <= j < pre.len() && pre[j] == k;
                            assert(post[j] == k);
                        }
                    }
                }
            }
            assert(vm.chan_map().dom() =~= old(vm).chan_map().dom());
        }
        i = i + 1;
    }
    proof {
        assert(ts@.subrange(0, ts.len() as int) =~= ts@);
    }
}


fn grant_pids(vm: &mut VmAlloc, accessor: Pid, ts: &Vec<Pid>, new_acc: Pid)
    requires
        old(vm).wf(),
        forall|i: int| 0 <= i < ts.len() ==> old(vm).pid_refusal(accessor, #[trigger] ts@[i]) is None,
    ensures
        final(vm).wf(),
        final(vm).shards() == old(vm).shards(),
        final(vm).next_pid() == old(vm).next_pid(),
        final(vm).file_map() == old(vm).file_map(),
        final(vm).chan_map() == old(vm).chan_map(),
        forall|i: int| 0 <= i < old(vm).shards() ==> #[trigger] final(vm).evt_map(i) == old(vm).evt_map(i),
        forall|i: int| 0 <= i < old(vm).shards() ==> (#[trigger] final(vm).proc_map(i)).dom() == old(vm).proc_map(i).dom(),
        procs_granted(&*old(vm), &*final(vm), pid_ids(ts@), new_acc.id(), PAYLOAD_LIMIT),
{
    let mut i: usize = 0;
    while i < ts.len()
        invariant
            i <= ts.len(),
            old(vm).wf(),
            vm.wf(),
            vm.shards() == old(vm).shards(),
            vm.next_pid() == old(vm).next_pid(),
            vm.file_map() == old(vm).file_map(),
            vm.chan_map() == old(vm).chan_map(),
            forall|j: int| 0 <= j < old(vm).shards() ==> #[trigger] vm.evt_map(j) == old(vm).evt_map(j),
            forall|j: int| 0 <= j < old(vm).shards() ==> (#[trigger] vm.proc_map(j)).dom() == old(vm).proc_map(j).dom(),
            forall|j: int| 0 <= j < ts.len() ==> old(vm).pid_refusal(accessor, #[trigger] ts@[j]) is None,
            procs_granted(&*old(vm), &*vm, pid_ids(ts@.subrange(0, i as int)), new_acc.id(), PAYLOAD_LIMIT),
        decreases ts.len() - i,
    {
        let t = ts[i];
        let ghost before = *vm;
        proof {
            assert(old(vm).pid_refusal(accessor, ts@[i as int]) is None);
            assert(old(vm).proc_at(t.id()) is Some);
        }
        let _ = vm.allow_on_pid(accessor, t, new_acc);
        proof {
            lemma_route_bound(&before, t.id());
            let pre = pid_ids(ts@.subrange(0, i as int));
            let post = pid_ids(ts@.subrange(0, i + 1));
            assert(post =~= pre.push(t.id()));
            assert forall|j: int| 0 <= j < old(vm).shards() implies (#[trigger] vm.proc_map(j)).dom()
                == old(vm).proc_map(j).dom() by {
                assert(vm.proc_map(j).dom() =~= before.proc_map(j).dom());
            }
            assert forall|k: u64| k != PAYLOAD_LIMIT implies {
                &&& (#[trigger] vm.proc_at(k) is Some <==> old(vm).proc_at(k) is Some)
                &&& old(vm).proc_at(k) is Some ==> vm.proc_at(k).unwrap().device() == old(vm).proc_at(k).unwrap().device()
                    && vm.proc_at(k).unwrap().perm_set() == with_grant(
                    old(vm).proc_at(k).unwrap().perm_set(),
                    post.contains(k),
                    new_acc.id(),
                )
            } by {
                lemma_route_bound(&before, k);
                assert(before.proc_at(k) is Some <==> old(vm).proc_at(k) is Some);
                if k == t.id() {
                    assert(post.contains(k)) by {
                        assert(post[i as int] == k);
                    }
                    assert(vm.proc_at(k).unwrap().perm_set() =~= with_grant(
                        old(vm).proc_at(k).unwrap().perm_set(),
                        true,
                        new_acc.id(),
                    ));
                } else {
                    assert(vm.proc_at(k) == before.proc_at(k));
                    assert(post.contains(k) == pre.contains(k)) by {
                        if post.contains(k) {
                            let j = choose|j: int| 0 <= j < post.len() && post[j] == k;
                            assert(j < pre.len());
                            assert(pre[j] == k);
                        }
                        if pre.contains(k) {
                            let j = choose|j: int| 0 <= j < pre.len() && pre[j] == k;
                            assert(post[j] == k);
                        }
                    }
                }
            }
        }
        i = i + 1;
    }
    proof {
        assert(ts@.subrange(0, ts.len() as int) =~= ts@);
    }
}

fn grant_evds(vm: &mut VmAlloc, accessor: Pid, ts: &Vec<Evd>, new_acc: Pid)
    requires
        old(vm).wf(),
        forall|i: int| 0 <= i < ts.len() ==> old(vm).evd_refusal(accessor, #[trigger] ts@[i]) is None,
    ensures
        final(vm).wf(),
        final(vm).shards() == old(vm).shards(),
        final(vm).next_pid() == old(vm).next_pid(),
        final(vm).file_map() == old(vm).file_map(),
        final(vm).chan_map() == old(vm).chan_map(),
        forall|i: int| 0 <= i < old(vm).shards() ==> #[trigger] final(vm).proc_map(i) == old(vm).proc_map(i),
        forall|i: int| 0 <= i < old(vm).shards() ==> (#[trigger] final(vm).evt_map(i)).dom() == old(vm).evt_map(i).dom(),
        evts_granted(&*old(vm), &*final(vm), evd_ids(ts@), new_acc.id()),
{
    let mut i: usize = 0;
    while i < ts.len()
        invariant
            i <= ts.len(),
            old(vm).wf(),
            vm.wf(),
            vm.shards() == old(vm).shards(),
            vm.next_pid() == old(vm).next_pid(),
            vm.file_map() == old(vm).file_map(),
            vm.chan_map() == old(vm).chan_map(),
            forall|j: int| 0 <= j < old(vm).shards() ==> #[trigger] vm.proc_map(j) == old(vm).proc_map(j),
            forall|j: int| 0 <= j < old(vm).shards() ==> (#[trigger] vm.evt_map(j)).dom() == old(vm).evt_map(j).dom(),
            forall|j: int| 0 <= j < ts.len() ==> old(vm).evd_refusal(accessor, #[trigger] ts@[j]) is None,
            evts_granted(&*old(vm), &*vm, evd_ids(ts@.subrange(0, i as int)), new_acc.id()),
        decreases ts.len() - i,
    {
        let t = ts[i];
        let ghost before = *vm;
        proof {
            assert(old(vm).evd_refusal(accessor, ts@[i as int]) is None);
            assert(old(vm).evt_at(t.id()) is Some);
        }
        let _ = vm.allow_on_evd(accessor, t, new_acc);
        proof {
            lemma_route_bound(&before, t.id());
            let pre = evd_ids(ts@.subrange(0, i as int));
            let post = evd_ids(ts@.subrange(0, i + 1));
            assert(post =~= pre.push(t.id()));
            assert forall|j: int| 0 <= j < old(vm).shards() implies (#[trigger] vm.evt_map(j)).dom()
                == old(vm).evt_map(j).dom() by {
                assert(vm.evt_map(j).dom() =~= before.evt_map(j).dom());
            }
            assert forall|k: u64| true implies {
                &&& (#[trigger] vm.evt_at(k) is Some <==> old(vm).evt_at(k) is Some)
                &&& old(vm).evt_at(k) is Some ==> vm.evt_at(k).unwrap().device() == old(vm).evt_at(k).unwrap().device()
                    && vm.evt_at(k).unwrap().perm_set() == with_grant(
                    old(vm).evt_at(k).unwrap().perm_set(),
                    post.contains(k),
                    new_acc.id(),
                )
            } by {
                lemma_route_bound(&before, k);
                assert(before.evt_at(k) is Some <==> old(vm).evt_at(k) is Some);
                if k == t.id() {
                    assert(post.contains(k)) by {
                        assert(post[i as int] == k);
                    }
                    assert(vm.evt_at(k).unwrap().perm_set() =~= with_grant(
                        old(vm).evt_at(k).unwrap().perm_set(),
                        true,
                        new_acc.id(),
                    ));
                } else {
                    assert(vm.evt_at(k) == before.evt_at(k));
                    assert(post.contains(k) == pre.contains(k)) by {
                        if post.contains(k) {
                            let j = choose|j: int| 0 <= j < post.len() && post[j] == k;
                            assert(j < pre.len());
                            assert(pre[j] == k);
                        }
                        if pre.contains(k) {
                            let j = choose|j: int| 0 <= j < pre.len() && pre[j] == k;
                            assert(post[j] == k);
                        }
                    }
                }
            }
        }
        i = i + 1;
    }
    proof {
        assert(ts@.subrange(0, ts.len() as int) =~= ts@);
    }
}

/// Builds a process and hands it capabilities, on behalf of the process `accessor`.
/// Each list of targets is a set: it holds no repeats, and keeps the order in which its
/// targets were first named, which is the order their grants are checked and made in.
#[derive(Debug, Clone)]
pub struct Spawner {
    accessor: Pid,
    pids: Vec<Pid>,
    fds: Vec<Fd>,
    chds: Vec<Chd>,
    evds: Vec<Evd>,
    perms: Vec<Pid>,
}

impl Spawner {
    /// The process whose authority grants the capabilities.
    pub closed spec fn spec_accessor(&self) -> Pid {
        self.accessor
    }

    /// Processes the new process is to reach.
    pub closed spec fn pids_targets(&self) -> Seq<Pid> {
        self.pids@
    }

    /// Files the new process is to use.
    pub closed spec fn fds_targets(&self) -> Seq<Fd> {
        self.fds@
    }

    /// Channels the new process is to use.
    pub closed spec fn chds_targets(&self) -> Seq<Chd> {
        self.chds@
    }

    /// Events the new process is to use.
    pub closed spec fn evds_targets(&self) -> Seq<Evd> {
        self.evds@
    }

    /// Processes that are to reach the new process.
    pub closed spec fn perms_targets(&self) -> Seq<Pid> {
        self.perms@
    }

    /// Everything but the `pids` list is as in `other`.
    pub open(crate) spec fn keeps_others_than_pids(&self, other: &Spawner) -> bool {
        &&& self.spec_accessor() == other.spec_accessor()
        &&& self.fds_targets() == other.fds_targets()
        &&& self.chds_targets() == other.chds_targets()
        &&& self.evds_targets() == other.evds_targets()
        &&& self.perms_targets() == other.perms_targets()
    }

    /// Everything but the `fds` list is as in `other`.
    pub open(crate) spec fn keeps_others_than_fds(&self, other: &Spawner) -> bool {
        &&& self.spec_accessor() == other.spec_accessor()
        &&& self.pids_targets() == other.pids_targets()
        &&& self.chds_targets() == other.chds_targets()
        &&& self.evds_targets() == other.evds_targets()
        &&& self.perms_targets() == other.perms_targets()
    }

    /// Everything but the `chds` list is as in `other`.
    pub open(crate) spec fn keeps_others_than_chds(&self, other: &Spawner) -> bool {
        &&& self.spec_accessor() == other.spec_accessor()
        &&& self.pids_targets() == other.pids_targets()
        &&& self.fds_targets() == other.fds_targets()
        &&& self.evds_targets() == other.evds_targets()
        &&& self.perms_targets() == other.perms_targets()
    }

    /// Everything but the `evds` list is as in `other`.
    pub open(crate) spec fn keeps_others_than_evds(&self, other: &Spawner) -> bool {
        &&& self.spec_accessor() == other.spec_accessor()
        &&& self.pids_targets() == other.pids_targets()
        &&& self.fds_targets() == other.fds_targets()
        &&& self.chds_targets() == other.chds_targets()
        &&& self.perms_targets() == other.perms_targets()
    }

    /// Everything but the `perms` list is as in `other`.
    pub open(crate) spec fn keeps_others_than_perms(&self, other: &Spawner) -> bool {
        &&& self.spec_accessor() == other.spec_accessor()
        &&& self.pids_targets() == other.pids_targets()
        &&& self.fds_targets() == other.fds_targets()
        &&& self.chds_targets() == other.chds_targets()
        &&& self.evds_targets() == other.evds_targets()
    }

    /// Why spawning in `vm` is refused: the first grant that would fail, taking the
    /// processes, then the files, the channels and the events, each in the order given.
    pub open(crate) spec fn refusal(&self, vm: &VmAlloc) -> Option<Error> {
        first_refusal(
            self.pids_targets().map_values(|t: Pid| vm.pid_refusal(self.spec_accessor(), t))
            + self.fds_targets().map_values(|t: Fd| vm.fd_refusal(self.spec_accessor(), t))
            + self.chds_targets().map_values(|t: Chd| vm.chd_refusal(self.spec_accessor(), t))
            + self.evds_targets().map_values(|t: Evd| vm.evd_refusal(self.spec_accessor(), t)),
        )
    }

    /// A spawner acting for `accessor`, with nothing to grant.
    pub fn new(accessor: Pid) -> (r: Self)
        ensures
            r.spec_accessor() == accessor,
            r.pids_targets() == Seq::<Pid>::empty(),
            r.fds_targets() == Seq::<Fd>::empty(),
            r.chds_targets() == Seq::<Chd>::empty(),
            r.evds_targets() == Seq::<Evd>::empty(),
            r.perms_targets() == Seq::<Pid>::empty(),
    {
        Self {
            accessor,
            pids: Vec::new(),
            fds: Vec::new(),
            chds: Vec::new(),
            evds: Vec::new(),
            perms: Vec::new(),
        }
    }

    /// The new process is to reach process `t`.
    pub fn allow_pid(&mut self, t: Pid) -> (r: &mut Self)
        ensures
            r.pids_targets() == with_target(old(self).pids_targets(), t),
            r.keeps_others_than_pids(&*old(self)),
            *final(self) == *final(r),
    {
        add_pid(&mut self.pids, t);
        self
    }

    /// The new process is to use file `t`.
    pub fn allow_fd(&mut self, t: Fd) -> (r: &mut Self)
        ensures
            r.fds_targets() == with_target(old(self).fds_targets(), t),
            r.keeps_others_than_fds(&*old(self)),
            *final(self) == *final(r),
    {
        add_fd(&mut self.fds, t);
        self
    }

    /// The new process is to use channel `t`.
    pub fn allow_chd(&mut self, t: Chd) -> (r: &mut Self)
        ensures
            r.chds_targets() == with_target(old(self).chds_targets(), t),
            r.keeps_others_than_chds(&*old(self)),
            *final(self) == *final(r),
    {
        add_chd(&mut self.chds, t);
        self
    }

    /// The new process is to use event `t`.
    pub fn allow_evd(&mut self, t: Evd) -> (r: &mut Self)
        ensures
            r.evds_targets() == with_target(old(self).evds_targets(), t),
            r.keeps_others_than_evds(&*old(self)),
            *final(self) == *final(r),
    {
        add_evd(&mut self.evds, t);
        self
    }

    /// The new process is to reach exactly the processes `ts`.
    pub fn allow_pids(&mut self, ts: Vec<Pid>) -> (r: &mut Self)
        ensures
            r.pids_targets() == without_repeats(ts@),
            r.keeps_others_than_pids(&*old(self)),
            *final(self) == *final(r),
    {
        self.pids = dedup_pids(&ts);
        self
    }

    /// The new process is to use exactly the files `ts`.
    pub fn allow_fds(&mut self, ts: Vec<Fd>) -> (r: &mut Self)
        ensures
            r.fds_targets() == without_repeats(ts@),
            r.keeps_others_than_fds(&*old(self)),
            *final(self) == *final(r),
    {
        self.fds = dedup_fds(&ts);
        self
    }

    /// The new process is to use exactly the channels `ts`.
    pub fn allow_chds(&mut self, ts: Vec<Chd>) -> (r: &mut Self)
        ensures
            r.chds_targets() == without_repeats(ts@),
            r.keeps_others_than_chds(&*old(self)),
            *final(self) == *final(r),
    {
        self.chds = dedup_chds(&ts);
        self
    }

    /// The new process is to use exactly the events `ts`.
    pub fn allow_evds(&mut self, ts: Vec<Evd>) -> (r: &mut Self)
        ensures
            r.evds_targets() == without_repeats(ts@),
            r.keeps_others_than_evds(&*old(self)),
            *final(self) == *final(r),
    {
        self.evds = dedup_evds(&ts);
        self
    }

    /// Process `t` is to reach the new process.
    pub fn perm_on_self(&mut self, t: Pid) -> (r: &mut Self)
        ensures
            r.perms_targets() == with_target(old(self).perms_targets(), t),
            r.keeps_others_than_perms(&*old(self)),
            *final(self) == *final(r),
    {
        add_pid(&mut self.perms, t);
        self
    }

    /// Exactly the processes `ts` are to reach the new process.
    pub fn perms_on_self(&mut self, ts: Vec<Pid>) -> (r: &mut Self)
        ensures
            r.perms_targets() == without_repeats(ts@),
            r.keeps_others_than_perms(&*old(self)),
            *final(self) == *final(r),
    {
        self.perms = dedup_pids(&ts);
        self
    }

    /// Spawns a process running `starter`. When a grant would be refused, the first such
    /// refusal comes back and nothing changes. Otherwise the new process takes the first
    /// free identifier at or after the counter (the kernel's and those in use are
    /// skipped) and the counter moves past it; the listed processes come to reach the
    /// new process, it comes to reach every listed device, and it is launched. Only when
    /// every identifier is in use does `NoSuchPid` of the kernel come back, with nothing
    /// changed.
    pub fn spawn(&self, vm: &mut VmAlloc, starter: Function) -> (r: Result<Pid, Error>)
        requires
            old(vm).wf(),
        ensures
            final(vm).wf(),
            r is Err ==> final(vm).same_tables(&*old(vm)),
            self.refusal(&*old(vm)) is Some ==> r == Err::<Pid, Error>(self.refusal(&*old(vm)).unwrap())
                && final(vm).next_pid() == old(vm).next_pid(),
            self.refusal(&*old(vm)) is None && (exists|k: u64| 1 <= k < PAYLOAD_LIMIT && old(vm).proc_at(k) is None)
                ==> r is Ok,
            self.refusal(&*old(vm)) is None ==> match r {
                Err(e) => e == Error::NoSuchPid(Pid::of(Pid::KERNEL_ID)) && all_pids_taken(&*old(vm))
                    && final(vm).next_pid() == old(vm).next_pid(),
                Ok(p) => {
                    &&& exists|j: int| first_free(&*old(vm), j) && p.id() == nth_pid(old(vm).next_pid(), j)
                    &&& final(vm).next_pid() == pid_after(p.id())
                    &&& p.id() != Pid::KERNEL_ID
                    &&& p.id() < PAYLOAD_LIMIT
                    &&& old(vm).proc_at(p.id()) is None
                    &&& final(vm).proc_at(p.id()) matches Some(ed) && {
                        &&& ed.device().spec_pid() == p
                        &&& ed.device().spec_stage() == Stage::Running
                        &&& ed.device().spec_regs().spec_rfn() == starter
                        &&& ed.device().spec_regs().spec_ip() == 0
                        &&& ed.device().spec_regs().zeroed()
                        &&& ed.device().files() == Set::<u64>::empty()
                        &&& ed.perm_set() == pid_ids(self.perms_targets()).to_set()
                    }
                    &&& procs_granted(&*old(vm), &*final(vm), pid_ids(self.pids_targets()), p.id(), p.id())
                    &&& files_granted(&*old(vm), &*final(vm), fd_ids(self.fds_targets()), p.id())
                    &&& chans_granted(&*old(vm), &*final(vm), chd_ids(self.chds_targets()), p.id())
                    &&& evts_granted(&*old(vm), &*final(vm), evd_ids(self.evds_targets()), p.id())
                },
            },
    {
        let e1 = first_pid_refusal(vm, self.accessor, &self.pids);
        let e2 = first_fd_refusal(vm, self.accessor, &self.fds);
        let e3 = first_chd_refusal(vm, self.accessor, &self.chds);
        let e4 = first_evd_refusal(vm, self.accessor, &self.evds);
        proof {
            let acc = self.accessor;
            let a = self.pids@.map_values(|t: Pid| vm.pid_refusal(acc, t));
            let b = self.fds@.map_values(|t: Fd| vm.fd_refusal(acc, t));
            let c = self.chds@.map_values(|t: Chd| vm.chd_refusal(acc, t));
            let d = self.evds@.map_values(|t: Evd| vm.evd_refusal(acc, t));
            lemma_first_refusal_concat(a, b);
            lemma_first_refusal_concat(a + b, c);
            lemma_first_refusal_concat(a + b + c, d);
        }
        if e1.is_some() {
            return Err(e1.unwrap());
        }
        if e2.is_some() {
            return Err(e2.unwrap());
        }
        if e3.is_some() {
            return Err(e3.unwrap());
        }
        if e4.is_some() {
            return Err(e4.unwrap());
        }
        proof {
            let acc = self.accessor;
            assert forall|i: int| 0 <= i < self.pids.len() implies vm.pid_refusal(acc, #[trigger] self.pids@[i]) is None by {
                lemma_none_before_first(self.pids@.map_values(|t: Pid| vm.pid_refusal(acc, t)), i);
            }
            assert forall|i: int| 0 <= i < self.fds.len() implies vm.fd_refusal(acc, #[trigger] self.fds@[i]) is None by {
                lemma_none_before_first(self.fds@.map_values(|t: Fd| vm.fd_refusal(acc, t)), i);
            }
            assert forall|i: int| 0 <= i < self.chds.len() implies vm.chd_refusal(acc, #[trigger] self.chds@[i]) is None by {
                lemma_none_before_first(self.chds@.map_values(|t: Chd| vm.chd_refusal(acc, t)), i);
            }
            assert forall|i: int| 0 <= i < self.evds.len() implies vm.evd_refusal(acc, #[trigger] self.evds@[i]) is None by {
                lemma_none_before_first(self.evds@.map_values(|t: Evd| vm.evd_refusal(acc, t)), i);
            }
        }
        let pid = match take_pid(vm) {
            Some(p) => p,
            None => return Err(Error::NoSuchPid(Pid::kernel())),
        };
        let ghost start = *vm;
        grant_pids(vm, self.accessor, &self.pids, pid);
        let ghost g1 = *vm;
        grant_fds(vm, self.accessor, &self.fds, pid);
        let ghost g2 = *vm;
        grant_chds(vm, self.accessor, &self.chds, pid);
        let ghost g3 = *vm;
        grant_evds(vm, self.accessor, &self.evds, pid);
        let ghost g4 = *vm;
        let mut process = Process::new(pid, starter);
        process.launch();
        let ed = Ed::from_perms(process, copy_pids(&self.perms));
        let idx = vm.pool_idx(pid.raw());
        vm.pool[idx].procs.insert(pid.raw(), ed);
        proof {
            let p = pid.id();
            let s = idx as int;
            lemma_route_bound(&g4, p);
            assert(vm.shards() == g4.shards());
            assert(vm.proc_map(s) == g4.proc_map(s).insert(p, ed));
            assert forall|i: int| 0 <= i < g4.shards() && i != s implies #[trigger] vm.proc_map(i) == g4.proc_map(i) by {}
            assert forall|i: int| 0 <= i < g4.shards() implies #[trigger] vm.evt_map(i) == g4.evt_map(i) by {}
            assert forall|i: int, k: u64| 0 <= i < vm.shards() && #[trigger] vm.proc_map(i).contains_key(k) implies vm.route(k) == i
                && k < PAYLOAD_LIMIT by {
                if i == s && k != p {
                    assert(g4.proc_map(i).contains_key(k));
                }
                if i != s {
                    assert(g4.proc_map(i).contains_key(k));
                }
            }
            assert forall|i: int, k: u64| 0 <= i < vm.shards() && #[trigger] vm.evt_map(i).contains_key(k) implies vm.route(k) == i
                && k < PAYLOAD_LIMIT by {
                assert(g4.evt_map(i).contains_key(k));
            }
            assert(vm.wf());
            lemma_same_lookups(&start, &*old(vm));
            lemma_same_lookups(&g1, &g2);
            lemma_same_lookups(&g2, &g3);
            lemma_same_lookups(&g3, &start);
            lemma_same_lookups(&g4, &g1);
            assert forall|k: u64| k != p implies #[trigger] vm.proc_at(k) == g4.proc_at(k) by {
                lemma_route_bound(&g4, k);
            }
            assert(vm.proc_at(p) == Some(ed));
            assert forall|k: u64| k != p implies {
                &&& (#[trigger] vm.proc_at(k) is Some <==> old(vm).proc_at(k) is Some)
                &&& old(vm).proc_at(k) is Some ==> vm.proc_at(k).unwrap().device() == old(vm).proc_at(k).unwrap().device()
                    && vm.proc_at(k).unwrap().perm_set() == with_grant(
                    old(vm).proc_at(k).unwrap().perm_set(),
                    pid_ids(self.pids@).contains(k),
                    p,
                )
            } by {
                if k == PAYLOAD_LIMIT {
                    lemma_route_bound(&*old(vm), k);
                    lemma_route_bound(&*vm, k);
                } else {
                    assert(g1.proc_at(k) == g4.proc_at(k));
                }
            }
            lemma_same_lookups(&*vm, &g4);
        }
        Ok(pid)
    }
}

/// Tables with the same shards look up every process and event alike.
proof fn lemma_same_lookups(a: &VmAlloc, b: &VmAlloc)
    requires
        a.wf(),
        a.shards() == b.shards(),
    ensures
        (forall|i: int| 0 <= i < a.shards() ==> #[trigger] a.proc_map(i) == b.proc_map(i)) ==> forall|k: u64|
            #[trigger] a.proc_at(k) == b.proc_at(k),
        (forall|i: int| 0 <= i < a.shards() ==> #[trigger] a.evt_map(i) == b.evt_map(i)) ==> forall|k: u64|
            #[trigger] a.evt_at(k) == b.evt_at(k),
{
    assert forall|k: u64| 0 <= #[trigger] a.route(k) < a.shards() by {
        lemma_route_bound(a, k);
    }
}

/// `s` with `t` added at the end, unless it holds it already.
pub open spec fn with_target<T>(s: Seq<T>, t: T) -> Seq<T> {
    if s.contains(t) {
        s
    } else {
        s.push(t)
    }
}

/// `s` without repeats: each element where it first occurs, in order.
pub open spec fn without_repeats<T>(s: Seq<T>) -> Seq<T>
    decreases s.len(),
{
    if s.len() == 0 {
        s
    } else {
        with_target(without_repeats(s.drop_last()), s.last())
    }
}

fn add_pid(v: &mut Vec<Pid>, t: Pid)
    ensures
        final(v)@ == with_target(old(v)@, t),
{
    let mut i: usize = 0;
    while i < v.len()
        invariant
            i <= v.len(),
            forall|j: int| 0 <= j < i ==> v@[j] != t,
        decreases v.len() - i,
    {
        if v[i].raw() == t.raw() {
            proof {
                assert(v@[i as int] == t);
            }
            return;
        }
        i = i + 1;
    }
    v.push(t);
}

fn dedup_pids(ts: &Vec<Pid>) -> (r: Vec<Pid>)
    ensures
        r@ == without_repeats(ts@),
{
    let mut out: Vec<Pid> = Vec::new();
    let mut i: usize = 0;
    while i < ts.len()
        invariant
            i <= ts.len(),
            out@ == without_repeats(ts@.subrange(0, i as int)),
        decreases ts.len() - i,
    {
        add_pid(&mut out, ts[i]);
        proof {
            assert(ts@.subrange(0, i + 1).drop_last() =~= ts@.subrange(0, i as int));
        }
        i = i + 1;
    }
    proof {
        assert(ts@.subrange(0, ts.len() as int) =~= ts@);
    }
    out
}

fn add_fd(v: &mut Vec<Fd>, t: Fd)
    ensures
        final(v)@ == with_target(old(v)@, t),
{
    let mut i: usize = 0;
    while i < v.len()
        invariant
            i <= v.len(),
            forall|j: int| 0 <= j < i ==> v@[j] != t,
        decreases v.len() - i,
    {
        if v[i].raw() == t.raw() {
            proof {
                assert(v@[i as int] == t);
            }
            return;
        }
        i = i + 1;
    }
    v.push(t);
}

fn dedup_fds(ts: &Vec<Fd>) -> (r: Vec<Fd>)
    ensures
        r@ == without_repeats(ts@),
{
    let mut out: Vec<Fd> = Vec::new();
    let mut i: usize = 0;
    while i < ts.len()
        invariant
            i <= ts.len(),
            out@ == without_repeats(ts@.subrange(0, i as int)),
        decreases ts.len() - i,
    {
        add_fd(&mut out, ts[i]);
        proof {
            assert(ts@.subrange(0, i + 1).drop_last() =~= ts@.subrange(0, i as int));
        }
        i = i + 1;
    }
    proof {
        assert(ts@.subrange(0, ts.len() as int) =~= ts@);
    }
    out
}

fn add_chd(v: &mut Vec<Chd>, t: Chd)
    ensures
        final(v)@ == with_target(old(v)@, t),
{
    let mut i: usize = 0;
    while i < v.len()
        invariant
            i <= v.len(),
            forall|j: int| 0 <= j < i ==> v@[j] != t,
        decreases v.len() - i,
    {
        if v[i].raw() == t.raw() {
            proof {
                assert(v@[i as int] == t);
            }
            return;
        }
        i = i + 1;
    }
    v.push(t);
}

fn dedup_chds(ts: &Vec<Chd>) -> (r: Vec<Chd>)
    ensures
        r@ == without_repeats(ts@),
{
    let mut out: Vec<Chd> = Vec::new();
    let mut i: usize = 0;
    while i < ts.len()
        invariant
            i <= ts.len(),
            out@ == without_repeats(ts@.subrange(0, i as int)),
        decreases ts.len() - i,
    {
        add_chd(&mut out, ts[i]);
        proof {
            assert(ts@.subrange(0, i + 1).drop_last() =~= ts@.subrange(0, i as int));
        }
        i = i + 1;
    }
    proof {
        assert(ts@.subrange(0, ts.len() as int) =~= ts@);
    }
    out
}

fn add_evd(v: &mut Vec<Evd>, t: Evd)
    ensures
        final(v)@ == with_target(old(v)@, t),
{
    let mut i: usize = 0;
    while i < v.len()
        invariant
            i <= v.len(),
            forall|j: int| 0 <= j < i ==> v@[j] != t,
        decreases v.len() - i,
    {
        if v[i].raw() == t.raw() {
            proof {
                assert(v@[i as int] == t);
            }
            return;
        }
        i = i + 1;
    }
    v.push(t);
}

fn dedup_evds(ts: &Vec<Evd>) -> (r: Vec<Evd>)
    ensures
        r@ == without_repeats(ts@),
{
    let mut out: Vec<Evd> = Vec::new();
    let mut i: usize = 0;
    while i < ts.len()
        invariant
            i <= ts.len(),
            out@ == without_repeats(ts@.subrange(0, i as int)),
        decreases ts.len() - i,
    {
        add_evd(&mut out, ts[i]);
        proof {
            assert(ts@.subrange(0, i + 1).drop_last() =~= ts@.subrange(0, i as int));
        }
        i = i + 1;
    }
    proof {
        assert(ts@.subrange(0, ts.len() as int) =~= ts@);
    }
    out
}

proof fn lemma_none_before_first(errs: Seq<Option<Error>>, i: int)
    requires
        first_refusal(errs) is None,
        0 <= i < errs.len(),
    ensures
        errs[i] is None,
    decreases errs.len(),
{
    if i < errs.len() - 1 {
        lemma_none_before_first(errs.drop_last(), i);
    }
}

fn copy_pids(v: &Vec<Pid>) -> (r: Vec<Pid>)
    ensures
        r@ == v@,
{
    let mut out: Vec<Pid> = Vec::new();
    let mut i: usize = 0;
    while i < v.len()
        invariant
            i <= v.len(),
            out@ == v@.subrange(0, i as int),
        decreases v.len() - i,
    {
        out.push(v[i]);
        proof {
            assert(v@.subrange(0, i + 1) =~= v@.subrange(0, i as int).push(v[i as int]));
        }
        i = i + 1;
    }
    proof {
        assert(v@.subrange(0, v.len() as int) =~= v@);
    }
    out
}

/// The payload tried after `cur`.
fn advance_pid(cur: u64) -> (r: u64)
    requires
        cur < PAYLOAD_LIMIT,
    ensures
        r == pid_after(cur),
{
    if cur + 1 >= PAYLOAD_LIMIT {
        1
    } else {
        cur + 1
    }
}

/// The payload tried `j` steps after `start`: the payloads `1 .. PAYLOAD_LIMIT` taken
/// in a ring, from `start` on.
pub open spec fn nth_pid(start: u64, j: int) -> int {
    if start + j < PAYLOAD_LIMIT {
        start + j
    } else {
        start + j - (PAYLOAD_LIMIT - 1)
    }
}

/// Payload `nth_pid(vm.next_pid(), j)` is free in `vm`, and each one tried before it is
/// in use: it is the first free payload at or after the counter.
pub open spec fn first_free(vm: &VmAlloc, j: int) -> bool {
    &&& 0 <= j < PAYLOAD_LIMIT - 1
    &&& vm.proc_at(nth_pid(vm.next_pid(), j) as u64) is None
    &&& forall|i: int| 0 <= i < j ==> #[trigger] vm.proc_at(nth_pid(vm.next_pid(), i) as u64) is Some
}

/// Every valid payload other than the kernel's is in use in `vm`.
pub open spec fn all_pids_taken(vm: &VmAlloc) -> bool {
    forall|k: u64| 1 <= k < PAYLOAD_LIMIT ==> #[trigger] vm.proc_at(k) is Some
}

/// Takes the first free process identifier at or after the counter, trying each valid
/// payload once in a ring, and moves the counter past it; `None`, with nothing changed,
/// exactly when every payload is in use.
fn take_pid(vm: &mut VmAlloc) -> (r: Option<Pid>)
    requires
        old(vm).wf(),
    ensures
        final(vm).wf(),
        final(vm).same_tables(&*old(vm)),
        match r {
            Some(p) => {
                &&& exists|j: int| first_free(&*old(vm), j) && p.id() == nth_pid(old(vm).next_pid(), j)
                &&& p.id() != Pid::KERNEL_ID
                &&& p.id() < PAYLOAD_LIMIT
                &&& old(vm).proc_at(p.id()) is None
                &&& final(vm).next_pid() == pid_after(p.id())
            },
            None => all_pids_taken(&*old(vm)) && final(vm).next_pid() == old(vm).next_pid(),
        },
{
    let start: u64 = vm.pid_inc;
    let mut cur: u64 = start;
    let mut j: u64 = 0;
    let mut found: Option<Pid> = None;
    while j < PAYLOAD_LIMIT - 1 && found.is_none()
        invariant
            vm.wf(),
            *vm == *old(vm),
            start == old(vm).next_pid(),
            1 <= start < PAYLOAD_LIMIT,
            j <= PAYLOAD_LIMIT - 1,
            found is None ==> cur == nth_pid(start, j as int),
            found is None ==> forall|i: int| 0 <= i < j ==> #[trigger] old(vm).proc_at(nth_pid(start, i) as u64) is Some,
            1 <= cur < PAYLOAD_LIMIT,
            found matches Some(p) ==> {
                &&& first_free(&*old(vm), j - 1)
                &&& p.id() == nth_pid(start, j - 1)
                &&& p.id() != Pid::KERNEL_ID
                &&& p.id() < PAYLOAD_LIMIT
                &&& old(vm).proc_at(p.id()) is None
                &&& cur == pid_after(p.id())
            },
        decreases PAYLOAD_LIMIT - 1 - j,
    {
        let idx = vm.pool_idx(cur);
        if !vm.pool[idx].procs.contains_key(&cur) {
            found = Some(Pid::new(cur));
        }
        cur = advance_pid(cur);
        j = j + 1;
    }
    match found {
        Some(p) => {
            vm.pid_inc = cur;
        },
        None => {
            proof {
                assert forall|k: u64| 1 <= k < PAYLOAD_LIMIT implies #[trigger] old(vm).proc_at(k) is Some by {
                    let i: int = if k >= start {
                        k - start
                    } else {
                        k + PAYLOAD_LIMIT - 1 - start
                    };
                    assert(nth_pid(start, i) == k);
                    assert(old(vm).proc_at(nth_pid(start, i) as u64) is Some);
                }
            }
        },
    }
    proof {
        lemma_wf_kept(*old(vm), *vm);
    }
    found
}

} // verus!
