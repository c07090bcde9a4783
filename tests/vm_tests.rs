use alm::edi::{Chd, Edi, Evd, Fd, Pid};
use alm::err::Error;
use alm::io::File;
use alm::ipc::Channel;
use alm::process::{Process, Stage};
use alm::val::{Array, ArrayType, Function, MultiTyped, Tuple, Type, Value};
use alm::vm::{VmAlloc, VmOpts, Spawner};
use std::sync::Arc;

fn vm(cores: usize) -> VmAlloc {
    let mut opts = VmOpts::new();
    opts.cores(cores);
    opts.build(File::from_raw(0, 0, 0), File::from_raw(1, 0, 0x800), File::from_raw(2, 0, 0x800), None)
}

fn starter() -> Function {
    Function::new(Value::Nil(), Arc::new(vec![1, 2, 3]), Arc::new(b"main".to_vec()))
}

fn stage_of(vm: &VmAlloc, pid: Pid) -> Result<Stage, Error> {
    vm.with_pid(Pid::kernel(), pid, |p: &Process| p.stage())
}

#[test]
fn core_count_choice() {
    let mut opts = VmOpts::new();
    opts.cores(1);
    let vm = opts.build(File::from_raw(0, 0, 0), File::from_raw(1, 0, 0), File::from_raw(2, 0, 0), Some(8));
    assert_eq!(vm.pool_idx(9), 1);
    let mut opts = VmOpts::new();
    opts.cores(3);
    let vm = opts.build(File::from_raw(0, 0, 0), File::from_raw(1, 0, 0), File::from_raw(2, 0, 0), Some(8));
    assert_eq!(vm.pool_idx(9), 0);
    let vm = VmOpts::new().build(File::from_raw(0, 0, 0), File::from_raw(1, 0, 0), File::from_raw(2, 0, 0), Some(1));
    assert_eq!(vm.pool_idx(9), 1);
    assert_eq!(vm.pool_idx(10), 0);
}

#[test]
fn grants_on_standard_files() {
    let mut vm = vm(2);
    assert_eq!(vm.allow_on_fd(Pid::new(5), Fd::new(1), Pid::new(6)), Err(Error::AccessDenied(Edi::from(Fd::new(1)))));
    assert_eq!(vm.allow_on_fd(Pid::kernel(), Fd::new(1), Pid::new(5)), Ok(()));
    assert_eq!(vm.allow_on_fd(Pid::new(5), Fd::new(1), Pid::new(6)), Ok(()));
    assert_eq!(vm.allow_on_fd(Pid::kernel(), Fd::new(3), Pid::new(5)), Err(Error::NoSuchFd(Fd::new(3))));
}

#[test]
fn lookups_that_miss() {
    let mut vm = vm(2);
    assert_eq!(vm.allow_on_chd(Pid::kernel(), Chd::new(0), Pid::new(1)), Err(Error::NoSuchChd(Chd::new(0))));
    assert_eq!(vm.allow_on_evd(Pid::kernel(), Evd::new(4), Pid::new(1)), Err(Error::NoSuchEvd(Evd::new(4))));
    assert_eq!(vm.allow_on_pid(Pid::kernel(), Pid::new(4), Pid::new(1)), Err(Error::NoSuchPid(Pid::new(4))));
    assert_eq!(stage_of(&vm, Pid::new(4)), Err(Error::NoSuchPid(Pid::new(4))));
}

#[test]
fn spawn_allocates_fresh_pids() {
    let mut vm = vm(3);
    let sp = Spawner::new(Pid::kernel());
    let a = sp.spawn(&mut vm, starter()).unwrap();
    let b = sp.spawn(&mut vm, starter()).unwrap();
    assert_eq!(a, Pid::new(1));
    assert_eq!(b, Pid::new(2));
    assert_eq!(stage_of(&vm, a), Ok(Stage::Running));
    assert_eq!(vm.with_pid(Pid::kernel(), b, |p: &Process| p.pid()), Ok(b));
    assert_eq!(vm.with_pid(a, b, |p: &Process| p.pid()), Err(Error::AccessDenied(Edi::from(b))));
}

#[test]
fn spawn_grants_capabilities() {
    let mut vm = vm(2);
    let sp = Spawner::new(Pid::kernel());
    let a = sp.spawn(&mut vm, starter()).unwrap();
    let mut sp2 = Spawner::new(Pid::kernel());
    sp2.allow_pid(a).allow_fd(Fd::new(1)).perm_on_self(a);
    let b = sp2.spawn(&mut vm, starter()).unwrap();
    // `b` reaches `a`, and `a` reaches `b`.
    assert_eq!(vm.with_pid(b, a, |p: &Process| p.pid()), Ok(a));
    assert_eq!(vm.with_pid(a, b, |p: &Process| p.pid()), Ok(b));
    // `b` may use standard output, so it may pass it on.
    assert_eq!(vm.allow_on_fd(b, Fd::new(1), Pid::new(77)), Ok(()));
    assert_eq!(vm.allow_on_fd(a, Fd::new(1), Pid::new(77)), Err(Error::AccessDenied(Edi::from(Fd::new(1)))));
}

#[test]
fn failed_spawn_changes_nothing() {
    let mut vm = vm(2);
    let sp = Spawner::new(Pid::kernel());
    let a = sp.spawn(&mut vm, starter()).unwrap();
    let mut bad = Spawner::new(a);
    bad.allow_fds(vec![Fd::new(0), Fd::new(9)]).allow_chd(Chd::new(1));
    assert_eq!(bad.spawn(&mut vm, starter()), Err(Error::AccessDenied(Edi::from(Fd::new(0)))));
    let mut bad2 = Spawner::new(Pid::kernel());
    bad2.allow_fds(vec![Fd::new(0), Fd::new(9)]).allow_evds(vec![Evd::new(2)]);
    assert_eq!(bad2.spawn(&mut vm, starter()), Err(Error::NoSuchFd(Fd::new(9))));
    // The grant on file 0 that came before the refusal was not made.
    assert_eq!(vm.allow_on_fd(Pid::new(2), Fd::new(0), Pid::new(3)), Err(Error::AccessDenied(Edi::from(Fd::new(0)))));
    let mut bad3 = Spawner::new(Pid::kernel());
    bad3.allow_pids(vec![a, Pid::new(50)]).perms_on_self(vec![a]);
    assert_eq!(bad3.spawn(&mut vm, starter()), Err(Error::NoSuchPid(Pid::new(50))));
    assert_eq!(vm.allow_on_pid(Pid::new(2), a, Pid::new(3)), Err(Error::AccessDenied(Edi::from(a))));
    // The next spawn gets the next identifier, and nothing of the failed attempts.
    let c = sp.spawn(&mut vm, starter()).unwrap();
    assert_eq!(c, Pid::new(2));
    assert_eq!(vm.with_pid(c, a, |p: &Process| p.pid()), Err(Error::AccessDenied(Edi::from(a))));
}

#[test]
fn process_starts_clean() {
    let mut p = Process::new(Pid::new(4), starter());
    assert_eq!(p.stage(), Stage::Constructed);
    assert_eq!(p.pid(), Pid::new(4));
    let r = p.regs();
    assert_eq!(r.ba, 0);
    assert_eq!(r.ud, 0);
    assert!(matches!(r.vc, Value::Nil()));
    assert_eq!(r.fna.name().as_slice(), b"@<no op>");
    assert_eq!(r.sa.len(), 0);
    p.cancel();
    assert_eq!(p.stage(), Stage::Destroyed);
}

#[test]
fn channel_is_fifo() {
    let mut ch = Channel::new();
    assert!(ch.recv().is_none());
    ch.send(Value::Byte(1));
    ch.send(Value::U64(2));
    assert!(matches!(ch.recv(), Some(Value::Byte(1))));
    assert!(matches!(ch.recv(), Some(Value::U64(2))));
    assert!(ch.recv().is_none());
}

#[test]
fn value_type_codes() {
    assert_eq!(Value::Nil().type_code(), Type::Nil);
    assert_eq!(Value::F64(1.5f64.to_bits()).type_code(), Type::F64);
    assert_eq!(Value::Edi(Edi::from(Pid::new(1))).type_code(), Type::Edi);
    let arr = Array::new(Arc::new(ArrayType::Byte(Arc::new(vec![1, 2]))));
    assert_eq!(arr.type_enum().type_code(), Type::Byte);
    assert_eq!(Value::Array(arr).type_code(), Type::Array);
    let t = Tuple::new(Arc::new(vec![Value::Byte(3)]));
    assert_eq!(t.elements().len(), 1);
    assert_eq!(Value::Tuple(t).type_code(), Type::Tuple);
    let f = starter();
    assert_eq!(f.bc().as_slice(), &[1, 2, 3]);
    assert!(matches!(f.env(), Value::Nil()));
    assert_eq!(Value::Function(f).type_code(), Type::Function);
}

#[test]
fn spawner_lists_are_sets() {
    let mut vm = vm(2);
    let sp = Spawner::new(Pid::kernel());
    let a = sp.spawn(&mut vm, starter()).unwrap();
    let mut s2 = Spawner::new(Pid::kernel());
    s2.allow_pid(a).allow_pid(a).allow_fds(vec![Fd::new(2), Fd::new(2), Fd::new(1)]);
    let b = s2.spawn(&mut vm, starter()).unwrap();
    assert_eq!(b, Pid::new(2));
    assert_eq!(vm.with_pid(b, a, |p: &Process| p.pid()), Ok(a));
    assert_eq!(vm.allow_on_fd(b, Fd::new(2), Pid::new(9)), Ok(()));
}
