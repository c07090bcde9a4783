use alm::evt::{FetchStep, FlushStatus, ForwardStep, InputStatus, OutputStatus, SeekStatus, SeekStep};
use alm::io::File;
use alm::raw::{
    open_plan, read, seek_steps, seek_verdict, Access, CreateOpts, Creation, EndOpts,
    ReadOutcome, SeekFrom, SeekVerdict, Whence, WriteOutcome,
};

fn fill_input(f: &mut File, bytes: Vec<u8>, keep_from: usize) {
    // Reads one byte through an event, so that the rest of `bytes` stays buffered.
    let mut inp = f.read(keep_from);
    match inp.try_fetch(f) {
        FetchStep::Read { .. } => {}
        other => panic!("expected a read, got {:?}", other),
    }
    let st = inp.resume(f, ReadOutcome::Got(bytes)).unwrap();
    assert!(matches!(st, InputStatus::Done(_)));
}

#[test]
fn buffered_output_below_threshold() {
    let mut f = File::from_raw(9, 0, 16);
    let mut out = f.write(vec![1, 2, 3, 4, 5, 6, 7, 8]);
    match out.try_forward(&mut f) {
        ForwardStep::Ready(s) => assert_eq!(s, OutputStatus::Done()),
        other => panic!("no host write expected, got {:?}", other),
    }
    assert!(out.is_done());
    assert!(!f.is_latched());
    assert_eq!(f.output_buffer(), &[1, 2, 3, 4, 5, 6, 7, 8]);
    let mut fl = f.flush();
    match fl.try_flush(&mut f) {
        ForwardStep::Write { fd, data } => {
            assert_eq!(fd, 9);
            assert_eq!(data, vec![1, 2, 3, 4, 5, 6, 7, 8]);
        }
        other => panic!("expected a write, got {:?}", other),
    }
    assert_eq!(f.output_buffer(), &[] as &[u8]);
    let st = fl.resume(&mut f, WriteOutcome::Wrote(8)).unwrap();
    assert_eq!(st, FlushStatus::DoneAll(vec![]));
    assert!(!f.is_latched());
}

#[test]
fn output_reaching_threshold_writes_everything() {
    let mut f = File::from_raw(4, 0, 4);
    let mut a = f.write(vec![1, 2]);
    assert!(matches!(a.try_forward(&mut f), ForwardStep::Ready(OutputStatus::Done())));
    let mut b = f.write(vec![3, 4, 5]);
    match b.try_forward(&mut f) {
        ForwardStep::Write { fd, data } => {
            assert_eq!(fd, 4);
            assert_eq!(data, vec![1, 2, 3, 4, 5]);
        }
        other => panic!("expected a write, got {:?}", other),
    }
    assert!(f.is_latched());
    assert_eq!(b.resume(&mut f, WriteOutcome::Wrote(2)).unwrap(), OutputStatus::Pending(vec![3, 4, 5]));
    match b.try_forward(&mut f) {
        ForwardStep::Write { data, .. } => assert_eq!(data, vec![3, 4, 5]),
        other => panic!("expected the rest, got {:?}", other),
    }
    assert_eq!(b.resume(&mut f, WriteOutcome::WouldBlock).unwrap(), OutputStatus::Pending(vec![3, 4, 5]));
    assert_eq!(b.resume(&mut f, WriteOutcome::Wrote(3)).unwrap(), OutputStatus::Done());
    assert!(!f.is_latched());
}

#[test]
fn flush_collects_both_buffers() {
    let mut f = File::from_raw(3, 3, 16);
    fill_input(&mut f, vec![0x09, 0x01, 0x02], 1);
    assert_eq!(f.input_buffer(), &[0x01, 0x02]);
    let mut out = f.write(vec![0xFF]);
    assert!(matches!(out.try_forward(&mut f), ForwardStep::Ready(OutputStatus::Done())));
    let mut fl = f.flush();
    match fl.try_flush(&mut f) {
        ForwardStep::Write { fd, data } => {
            assert_eq!(fd, 3);
            assert_eq!(data, vec![0xFF]);
        }
        other => panic!("expected a write, got {:?}", other),
    }
    assert_eq!(f.input_buffer(), &[] as &[u8]);
    let st = fl.resume(&mut f, WriteOutcome::Wrote(1)).unwrap();
    assert_eq!(st, FlushStatus::DoneAll(vec![0x01, 0x02]));
    assert!(fl.is_done());
    assert!(matches!(fl.try_flush(&mut f), ForwardStep::Ready(FlushStatus::DoneAll(_))));
}

#[test]
fn read_served_from_buffer() {
    let mut f = File::from_raw(3, 4, 0);
    fill_input(&mut f, vec![1, 2, 3, 4], 1);
    let mut inp = f.read(2);
    match inp.try_fetch(&mut f) {
        FetchStep::Ready(s) => assert_eq!(s, InputStatus::Done(vec![2, 3])),
        other => panic!("expected bytes from the buffer, got {:?}", other),
    }
    assert_eq!(f.input_buffer(), &[4]);
    assert!(!f.is_latched());
    assert!(inp.is_done());
}

#[test]
fn reads_partition_the_stream() {
    let mut f = File::from_raw(7, 0, 0);
    let mut a = f.read(3);
    let mut b = f.read(2);
    match a.try_fetch(&mut f) {
        FetchStep::Read { fd, count } => {
            assert_eq!(fd, 7);
            assert_eq!(count, 3);
        }
        other => panic!("expected a read, got {:?}", other),
    }
    // The latch is taken: the second read must wait.
    assert!(matches!(b.try_fetch(&mut f), FetchStep::Ready(InputStatus::Pending(2))));
    assert_eq!(a.resume(&mut f, ReadOutcome::Got(vec![10, 11])).unwrap(), InputStatus::Pending(3));
    assert_eq!(a.resume(&mut f, ReadOutcome::WouldBlock).unwrap(), InputStatus::Pending(3));
    assert_eq!(a.resume(&mut f, ReadOutcome::Got(vec![12, 13, 14])).unwrap(), InputStatus::Done(vec![10, 11, 12]));
    assert_eq!(b.try_fetch(&mut f), FetchStep::Ready(InputStatus::Done(vec![13, 14])));
    assert_eq!(f.input_buffer(), &[] as &[u8]);
}

#[test]
fn read_error_keeps_the_read_in_flight() {
    let mut f = File::from_raw(7, 0, 0);
    let mut a = f.read(1);
    assert!(matches!(a.try_fetch(&mut f), FetchStep::Read { count: 1, .. }));
    let err = std::io::Error::new(std::io::ErrorKind::Other, "boom");
    assert!(a.resume(&mut f, ReadOutcome::Failed(err)).is_err());
    assert!(f.is_latched());
    assert!(matches!(a.try_fetch(&mut f), FetchStep::Read { fd: 7, count: 1 }));
    assert_eq!(a.resume(&mut f, ReadOutcome::Got(vec![5])).unwrap(), InputStatus::Done(vec![5]));
    assert!(!f.is_latched());
}

#[test]
fn single_flight_latch() {
    let mut f = File::from_raw(2, 0, 1);
    let mut a = f.read(4);
    assert!(matches!(a.try_fetch(&mut f), FetchStep::Read { .. }));
    let mut w = f.write(vec![1]);
    assert!(matches!(w.try_forward(&mut f), ForwardStep::Ready(OutputStatus::Pending(_))));
    let mut fl = f.flush();
    assert!(matches!(fl.try_flush(&mut f), ForwardStep::Ready(FlushStatus::Pending())));
    let mut s = f.seek(SeekFrom::Start(3));
    assert!(matches!(s.try_seek(&mut f), SeekStep::Ready(SeekStatus::Pending(SeekFrom::Start(3)))));
    assert_eq!(a.resume(&mut f, ReadOutcome::Got(vec![1, 2, 3, 4])).unwrap(), InputStatus::Done(vec![1, 2, 3, 4]));
    assert!(matches!(w.try_forward(&mut f), ForwardStep::Write { .. }));
}

#[test]
fn seek_event() {
    let mut f = File::from_raw(2, 0, 0);
    let mut s = f.seek(SeekFrom::End(-4));
    match s.try_seek(&mut f) {
        SeekStep::Seek { fd, from } => {
            assert_eq!(fd, 2);
            assert_eq!(from, SeekFrom::End(-4));
        }
        other => panic!("expected a seek, got {:?}", other),
    }
    assert!(f.is_latched());
    let err = std::io::Error::new(std::io::ErrorKind::Other, "bad");
    assert!(s.resume(&mut f, Err(err)).is_err());
    assert!(!f.is_latched());
    assert!(!s.is_done());
    assert!(matches!(s.try_seek(&mut f), SeekStep::Seek { .. }));
    assert_eq!(s.resume(&mut f, Ok(96)).unwrap(), SeekStatus::Done(96));
    assert!(s.is_done());
    assert!(!f.is_latched());
    assert_eq!(s.try_seek(&mut f), SeekStep::Ready(SeekStatus::Done(96)));
}

#[test]
fn seek_cut_into_host_steps() {
    let plan = seek_steps(SeekFrom::Start(u64::MAX), i64::MAX, i64::MIN);
    assert_eq!(plan.whence, Whence::Begin);
    assert_eq!(plan.steps, vec![i64::MAX, i64::MAX, 1]);
    let plan = seek_steps(SeekFrom::Current(-10), 4, -4);
    assert_eq!(plan.whence, Whence::Cur);
    assert_eq!(plan.steps, vec![-4, -4, -2]);
    let plan = seek_steps(SeekFrom::End(9), 4, -4);
    assert_eq!(plan.whence, Whence::End);
    assert_eq!(plan.steps, vec![4, 4, 1]);
    let plan = seek_steps(SeekFrom::Start(12), i64::MAX, i64::MIN);
    assert_eq!(plan.steps, vec![12]);
}

#[test]
fn seek_verdicts() {
    assert_eq!(seek_verdict(100, false, true), SeekVerdict::Offset(100));
    assert_eq!(seek_verdict(-1, true, true), SeekVerdict::Offset(u64::MAX));
    assert_eq!(seek_verdict(-1, false, true), SeekVerdict::Fail);
    assert_eq!(seek_verdict(-1, true, false), SeekVerdict::Continue);
    assert_eq!(seek_verdict(5, false, false), SeekVerdict::Continue);
    assert_eq!(seek_verdict(-1, false, false), SeekVerdict::Fail);
}

#[test]
fn open_plans() {
    let p = open_plan("a/b", EndOpts::O(true), CreateOpts::Create(true));
    assert_eq!(p.path, b"a/b\0".to_vec());
    assert_eq!(p.access, Access::WriteOnly);
    assert!(p.append);
    assert!(p.truncate);
    assert_eq!(p.creation, Creation::CreateIfMissing);
    let p = open_plan("x", EndOpts::I(), CreateOpts::CreateNew());
    assert_eq!(p.access, Access::ReadOnly);
    assert!(!p.append);
    assert!(!p.truncate);
    assert_eq!(p.creation, Creation::MakeThenOpen);
    let p = open_plan("", EndOpts::IO(false), CreateOpts::DoNotCreate(false));
    assert_eq!(p.path, vec![0u8]);
    assert_eq!(p.access, Access::ReadWrite);
    assert_eq!(p.creation, Creation::MustExist);
}

#[test]
fn opener_builder() {
    let mut o = File::open("f.txt");
    assert_eq!(o.input_size(), File::DFL_BUF_SZ);
    assert_eq!(o.output_size(), 0);
    o.read_append().create_or_trunc();
    let p = o.plan();
    assert_eq!(p.access, Access::ReadWrite);
    assert!(p.append);
    assert!(p.truncate);
    assert_eq!(p.creation, Creation::CreateIfMissing);
    assert_eq!(o.input_size(), 0x800);
    assert_eq!(o.output_size(), 0x800);
    o.append().create_new().input_buf_sz(5).output_buf_sz(6);
    let p = o.plan();
    assert_eq!(p.access, Access::WriteOnly);
    assert_eq!(p.creation, Creation::MakeThenOpen);
    assert_eq!((o.input_size(), o.output_size()), (5, 6));
    o.write().trunc();
    let p = o.plan();
    assert!(!p.append);
    assert!(p.truncate);
    assert_eq!(p.creation, Creation::MustExist);
    assert_eq!((o.input_size(), o.output_size()), (0, 0x800));
    o.read().do_not_create();
    assert_eq!((o.input_size(), o.output_size()), (0x800, 0));
    o.read_write().create();
    let p = o.plan();
    assert_eq!(p.access, Access::ReadWrite);
    assert!(!p.truncate);
}

#[test]
fn raw_operations() {
    let mut r = read(3, 4);
    assert_eq!(r.remaining(), 4);
    assert_eq!(r.record(ReadOutcome::Got(vec![1, 2])).unwrap(), false);
    assert_eq!(r.remaining(), 2);
    assert_eq!(r.record(ReadOutcome::WouldBlock).unwrap(), false);
    assert_eq!(r.record(ReadOutcome::Got(vec![3, 4])).unwrap(), true);
    assert!(r.is_done());
    assert_eq!(r.buf(), &[1, 2, 3, 4]);
    assert_eq!(r.take(), vec![1, 2, 3, 4]);
    let mut w = alm::raw::write(3, vec![1, 2, 3]);
    assert_eq!(w.pending(), vec![1, 2, 3]);
    assert_eq!(w.record(WriteOutcome::Wrote(1)).unwrap(), false);
    assert_eq!(w.pending(), vec![2, 3]);
    let e = std::io::Error::new(std::io::ErrorKind::Other, "x");
    assert!(w.record(WriteOutcome::Failed(e)).is_err());
    assert_eq!(w.record(WriteOutcome::Wrote(5)).unwrap(), true);
    assert_eq!(w.pending(), Vec::<u8>::new());
}

#[test]
fn unbuffered_output_goes_straight_out() {
    let mut f = File::from_raw(1, 0, 0);
    let mut w = f.write(vec![7]);
    match w.try_forward(&mut f) {
        ForwardStep::Write { fd, data } => {
            assert_eq!(fd, 1);
            assert_eq!(data, vec![7]);
        }
        other => panic!("expected a write, got {:?}", other),
    }
    assert_eq!(w.resume(&mut f, WriteOutcome::Wrote(1)).unwrap(), OutputStatus::Done());
    assert!(w.is_done());
    assert!(!f.is_latched());
}

#[test]
fn empty_read_is_done_at_once() {
    let mut f = File::from_raw(0, 0, 0);
    let mut r = f.read(0);
    assert_eq!(r.try_fetch(&mut f), FetchStep::Ready(InputStatus::Done(vec![])));
    assert!(r.is_done());
    assert!(!f.is_latched());
    assert_eq!(r.try_fetch(&mut f), FetchStep::Ready(InputStatus::Done(vec![])));
}

#[test]
fn host_error_comes_back_unchanged() {
    let mut r = read(3, 2);
    let e = std::io::Error::new(std::io::ErrorKind::PermissionDenied, "denied");
    let got = r.record(ReadOutcome::Failed(e)).unwrap_err();
    assert_eq!(got.kind(), std::io::ErrorKind::PermissionDenied);
    assert_eq!(got.to_string(), "denied");
    let mut f = File::from_raw(3, 0, 0);
    let mut w = f.write(vec![1, 2]);
    assert!(matches!(w.try_forward(&mut f), ForwardStep::Write { .. }));
    let e = std::io::Error::new(std::io::ErrorKind::BrokenPipe, "pipe");
    let got = w.resume(&mut f, WriteOutcome::Failed(e)).unwrap_err();
    assert_eq!(got.kind(), std::io::ErrorKind::BrokenPipe);
    assert_eq!(w.resume(&mut f, WriteOutcome::Wrote(1)).unwrap(), OutputStatus::Pending(vec![1, 2]));
    match w.try_forward(&mut f) {
        ForwardStep::Write { data, .. } => assert_eq!(data, vec![2]),
        other => panic!("expected the rest, got {:?}", other),
    }
}
