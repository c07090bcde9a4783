//! Processes: a register file, the function being run, the files a process may use,
//! its identifier, and where it stands in its life.
use crate::edi::Pid;
use crate::val::{Array, ArrayType, Function, Tuple, Value};
use std::collections::HashSet;
use std::sync::Arc;
use vstd::prelude::*;

verus! {

/// Registers of a process: four of each class. The `f` registers hold the bit patterns
/// of 64-bit floats.
#[derive(Clone, Debug)]
pub struct RegSet {
    pub va: Value,
    pub vb: Value,
    pub vc: Value,
    pub vd: Value,
    pub ba: u8,
    pub bb: u8,
    pub bc: u8,
    pub bd: u8,
    pub iwa: isize,
    pub iwb: isize,
    pub iwc: isize,
    pub iwd: isize,
    pub uwa: usize,
    pub uwb: usize,
    pub uwc: usize,
    pub uwd: usize,
    pub ia: i64,
    pub ib: i64,
    pub ic: i64,
    pub id: i64,
    pub ua: u64,
    pub ub: u64,
    pub uc: u64,
    pub ud: u64,
    pub fa: u64,
    pub fb: u64,
    pub fc: u64,
    pub fd: u64,
    pub aa: Array,
    pub ab: Array,
    pub ac: Array,
    pub ad: Array,
    pub ta: Tuple,
    pub tb: Tuple,
    pub tc: Tuple,
    pub td: Tuple,
    pub fna: Function,
    pub fnb: Function,
    pub fnc: Function,
    pub fnd: Function,
    pub sa: Arc<Vec<u8>>,
    pub sb: Arc<Vec<u8>>,
    pub sc: Arc<Vec<u8>>,
    pub sd: Arc<Vec<u8>>,
    pub(crate) rfn: Function,
    pub(crate) ip: usize,
}

impl RegSet {
    /// The function being run.
    pub closed spec fn spec_rfn(&self) -> Function {
        self.rfn
    }

    /// Every register zero, nil or empty, each function register a placeholder with a
    /// nil environment, no bytecode and the name `@<no op>`.
    pub open(crate) spec fn zeroed(&self) -> bool {
        &&& self.va is Nil
        &&& self.vb is Nil
        &&& self.vc is Nil
        &&& self.vd is Nil
        &&& self.ba == 0
        &&& self.bb == 0
        &&& self.bc == 0
        &&& self.bd == 0
        &&& self.iwa == 0
        &&& self.iwb == 0
        &&& self.iwc == 0
        &&& self.iwd == 0
        &&& self.uwa == 0
        &&& self.uwb == 0
        &&& self.uwc == 0
        &&& self.uwd == 0
        &&& self.ia == 0
        &&& self.ib == 0
        &&& self.ic == 0
        &&& self.id == 0
        &&& self.ua == 0
        &&& self.ub == 0
        &&& self.uc == 0
        &&& self.ud == 0
        &&& self.fa == 0
        &&& self.fb == 0
        &&& self.fc == 0
        &&& self.fd == 0
        &&& self.aa.elements() == ArrayType::Nil(0)
        &&& self.ab.elements() == ArrayType::Nil(0)
        &&& self.ac.elements() == ArrayType::Nil(0)
        &&& self.ad.elements() == ArrayType::Nil(0)
        &&& self.ta.items().len() == 0
        &&& self.tb.items().len() == 0
        &&& self.tc.items().len() == 0
        &&& self.td.items().len() == 0
        &&& self.fna.spec_env() is Nil && self.fna.spec_bc().len() == 0 && self.fna.spec_name() == no_op()
        &&& self.fnb.spec_env() is Nil && self.fnb.spec_bc().len() == 0 && self.fnb.spec_name() == no_op()
        &&& self.fnc.spec_env() is Nil && self.fnc.spec_bc().len() == 0 && self.fnc.spec_name() == no_op()
        &&& self.fnd.spec_env() is Nil && self.fnd.spec_bc().len() == 0 && self.fnd.spec_name() == no_op()
        &&& self.sa@.len() == 0
        &&& self.sb@.len() == 0
        &&& self.sc@.len() == 0
        &&& self.sd@.len() == 0
    }

    /// The instruction pointer.
    pub closed spec fn spec_ip(&self) -> usize {
        self.ip
    }
}

/// Where a process stands in its life.
#[derive(Clone, Copy, Debug, PartialEq, Eq, Structural)]
pub enum Stage {
    /// Built, its capabilities being set up; not running yet.
    Constructed,
    /// Handed to a worker.
    Running,
    /// Dropped before it ever ran.
    Destroyed,
}

/// The name every placeholder function register carries.
pub open spec fn no_op() -> Seq<u8> {
    seq![64u8, 60, 110, 111, 32, 111, 112, 62]
}

fn no_op_name() -> (r: Vec<u8>)
    ensures
        r@ == no_op(),
{
    let r = vec![64u8, 60, 110, 111, 32, 111, 112, 62];
    proof {
        assert(r@ =~= no_op());
    }
    r
}

/// A process.
#[derive(Debug)]
pub struct Process {
    regs: RegSet,
    fd_wl: HashSet<u64>,
    pid: Pid,
    stage: Stage,
}

impl Process {
    pub closed spec fn spec_regs(&self) -> RegSet {
        self.regs
    }

    /// Payloads of the files this process may use.
    pub closed spec fn files(&self) -> Set<u64> {
        self.fd_wl@
    }

    pub closed spec fn spec_pid(&self) -> Pid {
        self.pid
    }

    pub closed spec fn spec_stage(&self) -> Stage {
        self.stage
    }

    /// A process `pid` about to run `start` from its first instruction: registers
    /// zeroed, nil or empty, no file allowed yet, not launched.
    pub fn new(pid: Pid, start: Function) -> (r: Self)
        ensures
            r.spec_pid() == pid,
            r.spec_stage() == Stage::Constructed,
            r.files() == Set::<u64>::empty(),
            r.spec_regs().spec_rfn() == start,
            r.spec_regs().spec_ip() == 0,
            r.spec_regs().zeroed(),
    {
        Self {
            fd_wl: HashSet::new(),
            pid,
            stage: Stage::Constructed,
            regs: RegSet {
                va: Value::Nil(),
                vb: Value::Nil(),
                vc: Value::Nil(),
                vd: Value::Nil(),
                ba: 0,
                bb: 0,
                bc: 0,
                bd: 0,
                iwa: 0,
                iwb: 0,
                iwc: 0,
                iwd: 0,
                uwa: 0,
                uwb: 0,
                uwc: 0,
                uwd: 0,
                ia: 0,
                ib: 0,
                ic: 0,
                id: 0,
                ua: 0,
                ub: 0,
                uc: 0,
                ud: 0,
                fa: 0,
                fb: 0,
                fc: 0,
                fd: 0,
                aa: Array::new(Arc::new(ArrayType::Nil(0))),
                ab: Array::new(Arc::new(ArrayType::Nil(0))),
                ac: Array::new(Arc::new(ArrayType::Nil(0))),
                ad: Array::new(Arc::new(ArrayType::Nil(0))),
                ta: Tuple::new(Arc::new(Vec::new())),
                tb: Tuple::new(Arc::new(Vec::new())),
                tc: Tuple::new(Arc::new(Vec::new())),
                td: Tuple::new(Arc::new(Vec::new())),
                fna: Function::new(Value::Nil(), Arc::new(Vec::new()), Arc::new(no_op_name())),
                fnb: Function::new(Value::Nil(), Arc::new(Vec::new()), Arc::new(no_op_name())),
                fnc: Function::new(Value::Nil(), Arc::new(Vec::new()), Arc::new(no_op_name())),
                fnd: Function::new(Value::Nil(), Arc::new(Vec::new()), Arc::new(no_op_name())),
                sa: Arc::new(Vec::new()),
                sb: Arc::new(Vec::new()),
                sc: Arc::new(Vec::new()),
                sd: Arc::new(Vec::new()),
                rfn: start,
                ip: 0,
            },
        }
    }

    pub fn pid(&self) -> (r: Pid)
        ensures
            r == self.spec_pid(),
    {
        self.pid
    }

    pub fn stage(&self) -> (r: Stage)
        ensures
            r == self.spec_stage(),
    {
        self.stage
    }

    /// The registers.
    pub fn regs(&self) -> (r: &RegSet)
        ensures
            *r == self.spec_regs(),
    {
        &self.regs
    }

    /// Hands a constructed process to a worker.
    pub fn launch(&mut self)
        requires
            old(self).spec_stage() == Stage::Constructed,
        ensures
            final(self).spec_stage() == Stage::Running,
            final(self).spec_pid() == old(self).spec_pid(),
            final(self).spec_regs() == old(self).spec_regs(),
            final(self).files() == old(self).files(),
    {
        self.stage = Stage::Running;
    }

    /// Drops a constructed process that never ran.
    pub fn cancel(&mut self)
        requires
            old(self).spec_stage() == Stage::Constructed,
        ensures
            final(self).spec_stage() == Stage::Destroyed,
            final(self).spec_pid() == old(self).spec_pid(),
            final(self).spec_regs() == old(self).spec_regs(),
            final(self).files() == old(self).files(),
    {
        self.stage = Stage::Destroyed;
    }
}

} // verus!
