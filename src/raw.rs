//! Raw operations on OS descriptors: what is left to transfer, how an attempt's outcome
//! advances them, how a seek is cut into steps the host can take, and how an open is set up.
use vstd::prelude::*;
use vstd::string::StringSliceAdditionalSpecFns;

verus! {

/// std's I/O error, carried as an opaque value from the host call to the caller.
#[verifier::external_type_specification]
#[verifier::external_body]
pub struct ExIoError(std::io::Error);

/// An OS file descriptor.
pub type OsFd = i32;

/// Which ends of a file to open: read only, write only, or both; with `true`, writes append.
#[derive(Clone, Copy, Debug, PartialEq, Eq, Structural)]
pub enum EndOpts {
    I(),
    O(bool),
    IO(bool),
}

/// How to treat a missing or existing file: create a new one (failing if it exists),
/// create it if missing, or require it to exist; with `true`, truncate it.
#[derive(Clone, Copy, Debug, PartialEq, Eq, Structural)]
pub enum CreateOpts {
    CreateNew(),
    Create(bool),
    DoNotCreate(bool),
}

/// The access mode an open asks for.
#[derive(Clone, Copy, Debug, PartialEq, Eq, Structural)]
pub enum Access {
    ReadOnly,
    WriteOnly,
    ReadWrite,
}

/// How an open deals with the file's existence.
#[derive(Clone, Copy, Debug, PartialEq, Eq, Structural)]
pub enum Creation {
    /// First create a regular file (owner read-write, others read), failing if the path
    /// exists, then open it.
    MakeThenOpen,
    /// Open, creating the file (owner read-write, others read) when it is missing.
    CreateIfMissing,
    /// Open an existing file only.
    MustExist,
}

/// Everything the host call needs to open a file; the descriptor is always non-blocking.
#[derive(Clone, Debug)]
pub struct OpenPlan {
    /// The path's bytes followed by a zero byte.
    pub path: Vec<u8>,
    pub access: Access,
    pub append: bool,
    pub truncate: bool,
    pub creation: Creation,
}

/// Access mode selected by `end`.
pub open spec fn access_of(end: EndOpts) -> Access {
    match end {
        EndOpts::I() => Access::ReadOnly,
        EndOpts::O(_) => Access::WriteOnly,
        EndOpts::IO(_) => Access::ReadWrite,
    }
}

/// Whether writes append, under `end`.
pub open spec fn append_of(end: EndOpts) -> bool {
    match end {
        EndOpts::I() => false,
        EndOpts::O(a) => a,
        EndOpts::IO(a) => a,
    }
}

/// Whether `create` truncates.
pub open spec fn truncate_of(create: CreateOpts) -> bool {
    match create {
        CreateOpts::CreateNew() => false,
        CreateOpts::Create(t) => t,
        CreateOpts::DoNotCreate(t) => t,
    }
}

/// Creation behaviour selected by `create`.
pub open spec fn creation_of(create: CreateOpts) -> Creation {
    match create {
        CreateOpts::CreateNew() => Creation::MakeThenOpen,
        CreateOpts::Create(_) => Creation::CreateIfMissing,
        CreateOpts::DoNotCreate(_) => Creation::MustExist,
    }
}

/// Sets up the open of `path` with the given options.
pub fn open_plan(path: &str, end: EndOpts, create: CreateOpts) -> (r: OpenPlan)
    requires
        path@.len() < usize::MAX,
    ensures
        r.path@ == path.spec_bytes().push(0u8),
        r.access == access_of(end),
        r.append == append_of(end),
        r.truncate == truncate_of(create),
        r.creation == creation_of(create),
{
    let bytes = path.as_bytes();
    let mut p: Vec<u8> = Vec::new();
    let mut i: usize = 0;
    while i < bytes.len()
        invariant
            i <= bytes.len(),
            bytes@ == path.spec_bytes(),
            p@ == bytes@.subrange(0, i as int),
        decreases bytes.len() - i,
    {
        p.push(bytes[i]);
        proof {
            assert(bytes@.subrange(0, i + 1) =~= bytes@.subrange(0, i as int).push(bytes[i as int]));
        }
        i = i + 1;
    }
    p.push(0u8);
    proof {
        assert(bytes@.subrange(0, bytes.len() as int) =~= bytes@);
    }
    let (access, append) = match end {
        EndOpts::I() => (Access::ReadOnly, false),
        EndOpts::O(a) => (Access::WriteOnly, a),
        EndOpts::IO(a) => (Access::ReadWrite, a),
    };
    let (creation, truncate) = match create {
        CreateOpts::CreateNew() => (Creation::MakeThenOpen, false),
        CreateOpts::Create(t) => (Creation::CreateIfMissing, t),
        CreateOpts::DoNotCreate(t) => (Creation::MustExist, t),
    };
    OpenPlan { path: p, access, append, truncate, creation }
}

/// What one non-blocking read attempt gave.
#[derive(Debug)]
pub enum ReadOutcome {
    /// These bytes were read (none at end of file).
    Got(Vec<u8>),
    /// The descriptor had nothing ready: not an error, the read is tried again later.
    WouldBlock,
    /// The host reported this error.
    Failed(std::io::Error),
}

/// What one non-blocking write attempt gave.
#[derive(Debug)]
pub enum WriteOutcome {
    /// This many bytes were written.
    Wrote(usize),
    /// The descriptor could take nothing now: not an error.
    WouldBlock,
    /// The host reported this error.
    Failed(std::io::Error),
}

/// A read in flight: `count` bytes wanted from `fd`, of which `buf` holds those received.
#[derive(Debug)]
pub struct RawInput {
    fd: OsFd,
    count: usize,
    buf: Vec<u8>,
}

/// A read of `count` bytes from `fd`, nothing received yet.
pub fn read(fd: OsFd, count: usize) -> (r: RawInput)
    ensures
        r.fd() == fd,
        r.wanted() == count,
        r.received() == Seq::<u8>::empty(),
{
    RawInput { fd, count, buf: Vec::new() }
}

impl RawInput {
    pub closed spec fn fd(&self) -> OsFd {
        self.fd
    }

    /// How many bytes the read asks for.
    pub closed spec fn wanted(&self) -> nat {
        self.count as nat
    }

    /// The bytes received so far.
    pub closed spec fn received(&self) -> Seq<u8> {
        self.buf@
    }

    pub open spec fn done(&self) -> bool {
        self.received().len() >= self.wanted()
    }

    /// How many bytes are still to come.
    pub open spec fn left(&self) -> nat {
        if self.done() {
            0
        } else {
            (self.wanted() - self.received().len()) as nat
        }
    }

    pub fn descriptor(&self) -> (r: OsFd)
        ensures
            r == self.fd(),
    {
        self.fd
    }

    /// Whether every wanted byte has arrived.
    pub fn is_done(&self) -> (r: bool)
        ensures
            r == self.done(),
    {
        self.buf.len() >= self.count
    }

    /// How many bytes the next attempt should ask for.
    pub fn remaining(&self) -> (r: usize)
        ensures
            r == self.left(),
    {
        if self.buf.len() >= self.count {
            0
        } else {
            self.count - self.buf.len()
        }
    }

    /// The bytes received so far.
    pub fn buf(&self) -> (r: &[u8])
        ensures
            r@ == self.received(),
    {
        self.buf.as_slice()
    }

    /// The bytes received.
    pub fn take(self) -> (r: Vec<u8>)
        ensures
            r@ == self.received(),
    {
        self.buf
    }

    /// Takes in the outcome of one attempt: received bytes are kept, a would-block is
    /// no error, and a host error comes back. `Ok` says whether the read is complete.
    pub fn record(&mut self, outcome: ReadOutcome) -> (r: Result<bool, std::io::Error>)
        ensures
            final(self).fd() == old(self).fd(),
            final(self).wanted() == old(self).wanted(),
            match outcome {
                ReadOutcome::Got(b) => final(self).received() == old(self).received() + b@,
                _ => final(self).received() == old(self).received(),
            },
            match r {
                Ok(d) => !(outcome is Failed) && d == final(self).done(),
                Err(e) => outcome == ReadOutcome::Failed(e),
            },
    {
        match outcome {
            ReadOutcome::Got(mut b) => {
                self.buf.append(&mut b);
                Ok(self.buf.len() >= self.count)
            },
            ReadOutcome::WouldBlock => Ok(self.buf.len() >= self.count),
            ReadOutcome::Failed(e) => Err(e),
        }
    }
}

/// A write in flight: `buf` to go to `fd`, of which the first `count` bytes went.
#[derive(Debug)]
pub struct RawOutput {
    fd: OsFd,
    count: usize,
    buf: Vec<u8>,
}

/// A write of `buf` to `fd`, nothing written yet.
pub fn write(fd: OsFd, buf: Vec<u8>) -> (r: RawOutput)
    ensures
        r.fd() == fd,
        r.data() == buf@,
        r.written() == 0,
{
    RawOutput { fd, count: 0, buf }
}

impl RawOutput {
    pub closed spec fn fd(&self) -> OsFd {
        self.fd
    }

    /// Everything the write is to transfer.
    pub closed spec fn data(&self) -> Seq<u8> {
        self.buf@
    }

    /// How many bytes went so far.
    pub closed spec fn written(&self) -> nat {
        self.count as nat
    }

    pub open spec fn done(&self) -> bool {
        self.written() >= self.data().len()
    }

    /// The bytes still to go.
    pub open spec fn rest(&self) -> Seq<u8> {
        if self.done() {
            Seq::empty()
        } else {
            self.data().subrange(self.written() as int, self.data().len() as int)
        }
    }

    pub fn descriptor(&self) -> (r: OsFd)
        ensures
            r == self.fd(),
    {
        self.fd
    }

    /// Whether every byte went.
    pub fn is_done(&self) -> (r: bool)
        ensures
            r == self.done(),
    {
        self.count >= self.buf.len()
    }

    /// A copy of the bytes still to go.
    pub fn pending(&self) -> (r: Vec<u8>)
        ensures
            r@ == self.rest(),
    {
        let mut out: Vec<u8> = Vec::new();
        if self.count >= self.buf.len() {
            return out;
        }
        let mut i: usize = self.count;
        while i < self.buf.len()
            invariant
                self.count <= i <= self.buf.len(),
                out@ == self.buf@.subrange(self.count as int, i as int),
            decreases self.buf.len() - i,
        {
            out.push(self.buf[i]);
            proof {
                assert(self.buf@.subrange(self.count as int, i + 1) =~= self.buf@.subrange(
                    self.count as int,
                    i as int,
                ).push(self.buf[i as int]));
            }
            i = i + 1;
        }
        out
    }

    /// Takes in the outcome of one attempt: written bytes count, a would-block is no
    /// error, and a host error comes back. `Ok` says whether the write is complete.
    pub fn record(&mut self, outcome: WriteOutcome) -> (r: Result<bool, std::io::Error>)
        ensures
            final(self).fd() == old(self).fd(),
            final(self).data() == old(self).data(),
            final(self).written() == match outcome {
                WriteOutcome::Wrote(n) => if old(self).done() {
                    old(self).written()
                } else if old(self).written() + n >= old(self).data().len() {
                    old(self).data().len()
                } else {
                    (old(self).written() + n) as nat
                },
                _ => old(self).written(),
            },
            match r {
                Ok(d) => !(outcome is Failed) && d == final(self).done(),
                Err(e) => outcome == WriteOutcome::Failed(e),
            },
    {
        match outcome {
            WriteOutcome::Wrote(n) => {
                if self.count < self.buf.len() {
                    if n >= self.buf.len() - self.count {
                        self.count = self.buf.len();
                    } else {
                        self.count = self.count + n;
                    }
                }
                Ok(self.count >= self.buf.len())
            },
            WriteOutcome::WouldBlock => Ok(self.count >= self.buf.len()),
            WriteOutcome::Failed(e) => Err(e),
        }
    }
}

/// Where a seek counts from, and by how much.
#[derive(Clone, Copy, Debug, PartialEq, Eq, Structural)]
pub enum SeekFrom {
    Start(u64),
    End(i64),
    Current(i64),
}

/// The host's origin for one seek step.
#[derive(Clone, Copy, Debug, PartialEq, Eq, Structural)]
pub enum Whence {
    Begin,
    Cur,
    End,
}

/// A seek cut into steps that each fit the host's offset type: the first step counts
/// from `whence`, every later one from the position the previous step reached.
#[derive(Clone, Debug)]
pub struct SeekPlan {
    pub whence: Whence,
    pub steps: Vec<i64>,
}

/// What a seek step's result means.
#[derive(Clone, Copy, Debug, PartialEq, Eq, Structural)]
pub enum SeekVerdict {
    /// Go on with the next step.
    Continue,
    /// The seek is over, at this absolute offset.
    Offset(u64),
    /// The host reported an error, which the seek returns.
    Fail,
}

/// The host origin of `from`.
pub open spec fn whence_of(from: SeekFrom) -> Whence {
    match from {
        SeekFrom::Start(_) => Whence::Begin,
        SeekFrom::End(_) => Whence::End,
        SeekFrom::Current(_) => Whence::Cur,
    }
}

/// The signed distance `from` asks for.
pub open spec fn distance_of(from: SeekFrom) -> int {
    match from {
        SeekFrom::Start(o) => o as int,
        SeekFrom::End(o) => o as int,
        SeekFrom::Current(o) => o as int,
    }
}

/// `target` cut into steps: whole steps of `max` (or of `min`, going back) while the
/// rest does not fit, then the rest.
pub open spec fn chunks(target: int, max: i64, min: i64) -> Seq<i64>
    decreases (if target > 0 { target } else { -target }),
{
    if max <= 0 || min >= 0 {
        seq![0i64]
    } else if target > max {
        seq![max] + chunks(target - max, max, min)
    } else if target < min {
        seq![min] + chunks(target - min, max, min)
    } else {
        seq![target as i64]
    }
}

/// Cuts the seek `from` into steps within `[min, max]`, the bounds of the host's offset type.
pub fn seek_steps(from: SeekFrom, max: i64, min: i64) -> (r: SeekPlan)
    requires
        max > 0,
        min < 0,
    ensures
        r.whence == whence_of(from),
        r.steps@ == chunks(distance_of(from), max, min),
{
    let mut steps: Vec<i64> = Vec::new();
    match from {
        SeekFrom::Start(o) => {
            let mut rest: u64 = o;
            while rest > max as u64
                invariant
                    max > 0,
                    min < 0,
                    steps@ + chunks(rest as int, max, min) == chunks(o as int, max, min),
                decreases rest,
            {
                proof {
                    assert(chunks(rest as int, max, min) == seq![max] + chunks(
                        rest - max,
                        max,
                        min,
                    ));
                }
                steps.push(max);
                proof {
                    assert(steps@ + chunks((rest - max as u64) as int, max, min) =~= chunks(
                        o as int,
                        max,
                        min,
                    ));
                }
                rest = rest - max as u64;
            }
            steps.push(rest as i64);
            proof {
                assert(steps@ =~= chunks(o as int, max, min));
            }
            SeekPlan { whence: Whence::Begin, steps }
        },
        SeekFrom::End(o) | SeekFrom::Current(o) => {
            let mut rest: i64 = o;
            while rest > max || rest < min
                invariant
                    max > 0,
                    min < 0,
                    steps@ + chunks(rest as int, max, min) == chunks(o as int, max, min),
                decreases (if rest > 0 { rest as int } else { -rest }),
            {
                if rest > max {
                    proof {
                        assert(chunks(rest as int, max, min) == seq![max] + chunks(
                            rest - max,
                            max,
                            min,
                        ));
                    }
                    steps.push(max);
                    proof {
                        assert(steps@ + chunks((rest - max) as int, max, min) =~= chunks(
                            o as int,
                            max,
                            min,
                        ));
                    }
                    rest = rest - max;
                } else {
                    proof {
                        assert(chunks(rest as int, max, min) == seq![min] + chunks(
                            rest - min,
                            max,
                            min,
                        ));
                    }
                    steps.push(min);
                    proof {
                        assert(steps@ + chunks((rest - min) as int, max, min) =~= chunks(
                            o as int,
                            max,
                            min,
                        ));
                    }
                    rest = rest - min;
                }
            }
            steps.push(rest);
            proof {
                assert(steps@ =~= chunks(o as int, max, min));
            }
            let whence = match from {
                SeekFrom::End(_) => Whence::End,
                _ => Whence::Cur,
            };
            SeekPlan { whence, steps }
        },
    }
}

/// What the host's answer `res` to a seek step means: a step that is not the last
/// fails only on an error other than overflow; the last gives the offset reached, or
/// the largest offset on overflow.
pub fn seek_verdict(res: i64, overflowed: bool, last: bool) -> (r: SeekVerdict)
    ensures
        r == if res < 0 && !overflowed {
            SeekVerdict::Fail
        } else if !last {
            SeekVerdict::Continue
        } else if res >= 0 {
            SeekVerdict::Offset(res as u64)
        } else {
            SeekVerdict::Offset(u64::MAX)
        },
{
    if res < 0 && !overflowed {
        SeekVerdict::Fail
    } else if !last {
        SeekVerdict::Continue
    } else if res >= 0 {
        SeekVerdict::Offset(res as u64)
    } else {
        SeekVerdict::Offset(u64::MAX)
    }
}

} // verus!
