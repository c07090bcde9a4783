//! The four I/O events (read, write, flush, seek) as state machines over a file.
//!
//! A poll either answers at once or names one host call for the caller to make on the
//! file's descriptor; the caller hands the call's outcome back through `resume`. An
//! event takes the file's latch before it touches the buffers for a host call, and lets
//! it go when that call is complete, so one file never has two calls in flight.
use crate::io::File;
use crate::raw::{self, OsFd, RawInput, RawOutput, ReadOutcome, SeekFrom, WriteOutcome};
use vstd::prelude::*;

verus! {

/// How a step may move the latch: an event that does not hold it leaves a taken latch
/// alone and does not come to hold it; otherwise the latch is taken exactly when the
/// event holds it afterwards.
pub open spec fn latch_step(before: bool, held: bool, after: bool, holds: bool) -> bool {
    if !held && before {
        after && !holds
    } else {
        after == holds
    }
}

/// The descriptor and declared sizes of the file stay as they were.
pub open spec fn same_file(a: File, b: File) -> bool {
    &&& a.spec_fd() == b.spec_fd()
    &&& a.input_size() == b.input_size()
    &&& a.output_size() == b.output_size()
}

/// How many bytes a fresh read asks for, with `have` bytes buffered and `n` wanted.
pub open spec fn refill(n: nat, ibuf_size: nat, have: nat) -> nat {
    if n >= ibuf_size {
        (n - have) as nat
    } else {
        (ibuf_size - have) as nat
    }
}

fn take_front(v: &mut Vec<u8>, n: usize) -> (r: Vec<u8>)
    requires
        n <= old(v)@.len(),
    ensures
        r@ == old(v)@.take(n as int),
        final(v)@ == old(v)@.skip(n as int),
{
    let mut rest = v.split_off(n);
    std::mem::swap(v, &mut rest);
    proof {
        assert(rest@ =~= old(v)@.take(n as int));
    }
    rest
}

fn take_all(v: &mut Vec<u8>) -> (r: Vec<u8>)
    ensures
        r@ == old(v)@,
        final(v)@ == Seq::<u8>::empty(),
{
    let mut rest: Vec<u8> = Vec::new();
    std::mem::swap(v, &mut rest);
    rest
}

fn copy_bytes(v: &Vec<u8>) -> (r: Vec<u8>)
    ensures
        r@ == v@,
{
    let mut out: Vec<u8> = Vec::new();
    let mut i: usize = 0;
    while i < v.len()
        invariant
            i <= v.len(),
            out@ == v@.subrange(0, i as int),
        decreases v.len() - i,
    {
        out.push(v[i]);
        proof {
            assert(v@.subrange(0, i + 1) =~= v@.subrange(0, i as int).push(v[i as int]));
        }
        i = i + 1;
    }
    proof {
        assert(v@.subrange(0, v.len() as int) =~= v@);
    }
    out
}

/// Where a read stands: waiting for a number of bytes, or done with the bytes read.
#[derive(Debug, Clone, PartialEq, Eq)]
pub enum InputStatus {
    Pending(usize),
    Done(Vec<u8>),
}

impl InputStatus {
    /// The number of bytes still awaited, or `None` once done.
    pub open(crate) spec fn awaited(&self) -> Option<nat> {
        match self {
            InputStatus::Pending(n) => Some(*n as nat),
            InputStatus::Done(_) => None,
        }
    }

    /// The bytes delivered, once done.
    pub open(crate) spec fn delivered(&self) -> Option<Seq<u8>> {
        match self {
            InputStatus::Pending(_) => None,
            InputStatus::Done(b) => Some(b@),
        }
    }

    fn duplicate(&self) -> (r: InputStatus)
        ensures
            r.awaited() == self.awaited(),
            r.delivered() == self.delivered(),
    {
        match self {
            InputStatus::Pending(n) => InputStatus::Pending(*n),
            InputStatus::Done(b) => InputStatus::Done(copy_bytes(b)),
        }
    }
}

/// The bytes a step of a read hands out: its result, when the step made it done.
pub open spec fn fetched(before: Input, after: Input) -> Seq<u8> {
    if before.waiting_for() is Some && after.result() is Some {
        after.result().unwrap()
    } else {
        Seq::empty()
    }
}

/// The bytes a step of a read moves from the host read in flight `q` to the end of the
/// input buffer, given the attempt's `outcome`: all that `q` received, once complete.
pub open spec fn moved_in(q: RawInput, outcome: ReadOutcome) -> Seq<u8> {
    let got = match outcome {
        ReadOutcome::Got(b) => q.received() + b@,
        _ => q.received(),
    };
    if !(outcome is Failed) && got.len() >= q.wanted() {
        got
    } else {
        Seq::empty()
    }
}

/// What a read poll asks of the caller.
#[derive(Debug, PartialEq, Eq)]
pub enum FetchStep {
    /// Nothing to do on the host: this is where the read stands.
    Ready(InputStatus),
    /// Read up to `count` bytes from `fd`, then hand the outcome to `Input::resume`.
    Read { fd: OsFd, count: usize },
}

/// An event that reads a fixed number of bytes from a file.
#[derive(Debug)]
pub struct Input {
    pub(crate) raw: Option<RawInput>,
    pub(crate) status: InputStatus,
}

/// An event that reads `amount` bytes.
pub fn read(amount: usize) -> (r: Input)
    ensures
        r.waiting_for() == Some(amount as nat),
        !r.holds_latch(),
{
    Input { raw: None, status: InputStatus::Pending(amount) }
}

impl Input {
    /// The number of bytes awaited, or `None` once done.
    pub open(crate) spec fn waiting_for(&self) -> Option<nat> {
        self.status.awaited()
    }

    /// The bytes delivered, once done.
    pub open(crate) spec fn result(&self) -> Option<Seq<u8>> {
        self.status.delivered()
    }

    /// The host read in flight, if any.
    pub open(crate) spec fn in_flight(&self) -> Option<RawInput> {
        self.raw
    }

    /// Whether this event holds its file's latch.
    pub open(crate) spec fn holds_latch(&self) -> bool {
        self.raw is Some
    }

    /// Fills `file`'s input buffer towards `n` bytes: hands them out from its front when
    /// it holds enough, else starts a host read for the shortfall (up to the declared
    /// input size). The latch is held exactly while the read is in flight.
    fn serve(&mut self, file: &mut File, n: usize) -> (r: FetchStep)
        requires
            old(file).latched(),
            old(self).in_flight() is None,
            old(self).waiting_for() == Some(n as nat),
        ensures
            same_file(*old(file), *final(file)),
            final(file).output() == old(file).output(),
            if old(file).input().len() >= n {
                &&& final(self).in_flight() is None
                &&& final(self).result() == Some(old(file).input().take(n as int))
                &&& final(file).input() == old(file).input().skip(n as int)
                &&& !final(file).latched()
                &&& r matches FetchStep::Ready(s) && s.delivered() == final(self).result()
                    && s.awaited() is None
            } else {
                &&& final(self).in_flight() matches Some(q) && q.fd() == old(file).spec_fd()
                    && q.wanted() == refill(n as nat, old(file).input_size() as nat, old(file).input().len())
                    && q.received() == Seq::<u8>::empty()
                &&& final(self).waiting_for() == Some(n as nat)
                &&& final(file).input() == old(file).input()
                &&& final(file).latched()
                &&& r == FetchStep::Read { fd: old(file).spec_fd(), count: refill(n as nat, old(file).input_size() as nat, old(file).input().len()) as usize }
            },
    {
        if file.ibuf.len() >= n {
            let got = take_front(&mut file.ibuf, n);
            self.status = InputStatus::Done(got);
            file.swap_use_lock(false);
            FetchStep::Ready(self.status.duplicate())
        } else {
            let want = if n >= file.ibuf_size {
                n
            } else {
                file.ibuf_size
            };
            let count = want - file.ibuf.len();
            self.raw = Some(raw::read(file.fd, count));
            FetchStep::Read { fd: file.fd, count }
        }
    }

    /// Polls the read. Done: answers with the bytes. A host read in flight: asks the
    /// caller to go on with it. Latch taken by another event: answers pending. Otherwise
    /// takes the latch and serves from the buffer, or starts a host read.
    pub fn try_fetch(&mut self, file: &mut File) -> (r: FetchStep)
        requires
            old(self).in_flight() matches Some(q) ==> q.fd() == old(file).spec_fd(),
            old(self).holds_latch() ==> old(file).latched(),
        ensures
            same_file(*old(file), *final(file)),
            final(file).output() == old(file).output(),
            latch_step(old(file).latched(), old(self).holds_latch(), final(file).latched(), final(self).holds_latch()),
            fetched(*old(self), *final(self)) + final(file).input() == old(file).input(),
            match old(self).waiting_for() {
                None => {
                    &&& *final(self) == *old(self)
                    &&& *final(file) == *old(file)
                    &&& r matches FetchStep::Ready(s) && s.delivered() == old(self).result() && s.awaited() is None
                },
                Some(n) => match old(self).in_flight() {
                    Some(q) => {
                        &&& *final(self) == *old(self)
                        &&& *final(file) == *old(file)
                        &&& r == FetchStep::Read { fd: q.fd(), count: q.left() as usize }
                    },
                    None => if old(file).latched() {
                        &&& *final(self) == *old(self)
                        &&& *final(file) == *old(file)
                        &&& r matches FetchStep::Ready(s) && s.awaited() == Some(n)
                    } else if old(file).input().len() >= n {
                        &&& final(self).in_flight() is None
                        &&& final(self).result() == Some(old(file).input().take(n as int))
                        &&& final(file).input() == old(file).input().skip(n as int)
                        &&& !final(file).latched()
                        &&& r matches FetchStep::Ready(s) && s.delivered() == final(self).result()
                            && s.awaited() is None
                    } else {
                        &&& final(self).in_flight() matches Some(q) && q.fd() == old(file).spec_fd()
                            && q.wanted() == refill(n, old(file).input_size() as nat, old(file).input().len())
                            && q.received() == Seq::<u8>::empty()
                        &&& final(self).waiting_for() == Some(n)
                        &&& final(file).input() == old(file).input()
                        &&& final(file).latched()
                        &&& r == FetchStep::Read { fd: old(file).spec_fd(), count: refill(n, old(file).input_size() as nat, old(file).input().len()) as usize }
                    },
                },
            },
    {
        let amount = match &self.status {
            InputStatus::Pending(x) => *x,
            InputStatus::Done(_) => return FetchStep::Ready(self.status.duplicate()),
        };
        if let Some(q) = &self.raw {
            return FetchStep::Read { fd: q.descriptor(), count: q.remaining() };
        }
        if file.swap_use_lock(true) {
            return FetchStep::Ready(InputStatus::Pending(amount));
        }
        self.serve(file, amount)
    }

    /// Takes in the outcome of the host read in flight. An error comes back and leaves
    /// the read in flight, to be tried again. A complete read moves its bytes to the end
    /// of the input buffer, which is then served as by `try_fetch`.
    pub fn resume(&mut self, file: &mut File, outcome: ReadOutcome) -> (r: Result<InputStatus, std::io::Error>)
        requires
            old(self).in_flight() matches Some(q) ==> q.fd() == old(file).spec_fd(),
            old(self).in_flight() is Some,
            old(self).waiting_for() is Some,
            old(file).latched(),
        ensures
            r matches Err(e) ==> outcome == ReadOutcome::Failed(e),
            same_file(*old(file), *final(file)),
            final(file).output() == old(file).output(),
            latch_step(old(file).latched(), old(self).holds_latch(), final(file).latched(), final(self).holds_latch()),
            fetched(*old(self), *final(self)) + final(file).input() == old(file).input() + moved_in(
                old(self).in_flight().unwrap(),
                outcome,
            ),
            ({
                let q = old(self).in_flight().unwrap();
                let n = old(self).waiting_for().unwrap();
                let got = match outcome {
                    ReadOutcome::Got(b) => q.received() + b@,
                    _ => q.received(),
                };
                let buf = old(file).input() + got;
                if outcome is Failed {
                    &&& r is Err
                    &&& final(self).in_flight() matches Some(q2) && q2.fd() == q.fd() && q2.wanted() == q.wanted()
                        && q2.received() == q.received()
                    &&& final(self).waiting_for() == Some(n)
                    &&& *final(file) == *old(file)
                } else if got.len() < q.wanted() {
                    &&& r matches Ok(s) && s.awaited() == Some(n)
                    &&& final(self).in_flight() matches Some(q2) && q2.fd() == q.fd() && q2.wanted() == q.wanted()
                        && q2.received() == got
                    &&& final(self).waiting_for() == Some(n)
                    &&& *final(file) == *old(file)
                } else if buf.len() >= n {
                    &&& final(self).in_flight() is None
                    &&& final(self).result() == Some(buf.take(n as int))
                    &&& final(file).input() == buf.skip(n as int)
                    &&& !final(file).latched()
                    &&& r matches Ok(s) && s.delivered() == final(self).result()
                } else {
                    &&& final(self).in_flight() matches Some(q2) && q2.fd() == old(file).spec_fd()
                        && q2.wanted() == refill(n, old(file).input_size() as nat, buf.len())
                        && q2.received() == Seq::<u8>::empty()
                    &&& final(self).waiting_for() == Some(n)
                    &&& final(file).input() == buf
                    &&& final(file).latched()
                    &&& r matches Ok(s) && s.awaited() == Some(n)
                }
            }),
    {
        let amount = match &self.status {
            InputStatus::Pending(x) => *x,
            InputStatus::Done(_) => 0,
        };
        let mut q = self.raw.take().unwrap();
        let done = match q.record(outcome) {
            Ok(d) => d,
            Err(e) => {
                self.raw = Some(q);
                return Err(e);
            },
        };
        if !done {
            self.raw = Some(q);
            return Ok(InputStatus::Pending(amount));
        }
        let mut got = q.take();
        file.ibuf.append(&mut got);
        match self.serve(file, amount) {
            FetchStep::Ready(s) => Ok(s),
            FetchStep::Read { .. } => Ok(InputStatus::Pending(amount)),
        }
    }

    pub fn is_done(&self) -> (r: bool)
        ensures
            r == (self.waiting_for() is None),
    {
        match self.status {
            InputStatus::Pending(_) => false,
            _ => true,
        }
    }
}

/// Where a write stands: bytes still to go, or done.
#[derive(Debug, Clone, PartialEq, Eq)]
pub enum OutputStatus {
    Pending(Vec<u8>),
    Done(),
}

impl OutputStatus {
    /// The bytes still to go, or `None` once done.
    pub open(crate) spec fn unsent(&self) -> Option<Seq<u8>> {
        match self {
            OutputStatus::Pending(d) => Some(d@),
            OutputStatus::Done() => None,
        }
    }

    fn duplicate(&self) -> (r: OutputStatus)
        ensures
            r.unsent() == self.unsent(),
    {
        match self {
            OutputStatus::Pending(d) => OutputStatus::Pending(copy_bytes(d)),
            OutputStatus::Done() => OutputStatus::Done(),
        }
    }
}

/// What a write or flush poll asks of the caller.
#[derive(Debug, PartialEq, Eq)]
pub enum ForwardStep<S> {
    /// Nothing to do on the host: this is where the event stands.
    Ready(S),
    /// Write `data` to `fd`, then hand the outcome to the event's `resume`.
    Write { fd: OsFd, data: Vec<u8> },
}

/// An event that writes bytes to a file through its output buffer.
#[derive(Debug)]
pub struct Output {
    pub(crate) raw: Option<RawOutput>,
    pub(crate) status: OutputStatus,
}

/// An event that writes `data`.
pub fn write(data: Vec<u8>) -> (r: Output)
    ensures
        r.to_send() == Some(data@),
        !r.holds_latch(),
{
    Output { raw: None, status: OutputStatus::Pending(data) }
}

impl Output {
    /// The bytes this event writes, or `None` once done.
    pub open(crate) spec fn to_send(&self) -> Option<Seq<u8>> {
        self.status.unsent()
    }

    /// The host write in flight, if any.
    pub open(crate) spec fn in_flight(&self) -> Option<RawOutput> {
        self.raw
    }

    /// Whether this event holds its file's latch.
    pub open(crate) spec fn holds_latch(&self) -> bool {
        self.raw is Some
    }

    /// Polls the write. A host write in flight: asks the caller to go on with it. Done:
    /// answers done. Latch taken by another event: answers pending. Otherwise appends the
    /// bytes to the output buffer; once the buffer reaches its declared size, all of it
    /// goes out in one host write under the latch, else the write is done at once.
    pub fn try_forward(&mut self, file: &mut File) -> (r: ForwardStep<OutputStatus>)
        requires
            old(self).in_flight() matches Some(q) ==> q.fd() == old(file).spec_fd(),
            old(self).holds_latch() ==> old(file).latched(),
        ensures
            same_file(*old(file), *final(file)),
            final(file).input() == old(file).input(),
            latch_step(old(file).latched(), old(self).holds_latch(), final(file).latched(), final(self).holds_latch()),
            match old(self).in_flight() {
                Some(q) => {
                    &&& *final(self) == *old(self)
                    &&& *final(file) == *old(file)
                    &&& r matches ForwardStep::Write { fd, data } && fd == q.fd() && data@ == q.rest()
                },
                None => match old(self).to_send() {
                    None => {
                        &&& *final(self) == *old(self)
                        &&& *final(file) == *old(file)
                        &&& r matches ForwardStep::Ready(s) && s.unsent() is None
                    },
                    Some(d) => if old(file).latched() {
                        &&& *final(self) == *old(self)
                        &&& *final(file) == *old(file)
                        &&& r matches ForwardStep::Ready(s) && s.unsent() == Some(d)
                    } else if old(file).output().len() + d.len() >= old(file).output_size() {
                        &&& final(self).in_flight() matches Some(q) && q.fd() == old(file).spec_fd()
                            && q.data() == old(file).output() + d && q.written() == 0
                        &&& final(self).to_send() == Some(d)
                        &&& final(file).output() == Seq::<u8>::empty()
                        &&& final(file).latched()
                        &&& r matches ForwardStep::Write { fd, data } && fd == old(file).spec_fd()
                            && data@ == old(file).output() + d
                    } else {
                        &&& final(self).in_flight() is None
                        &&& final(self).to_send() is None
                        &&& final(file).output() == old(file).output() + d
                        &&& !final(file).latched()
                        &&& r matches ForwardStep::Ready(s) && s.unsent() is None
                    },
                },
            },
    {
        if let Some(q) = &self.raw {
            return ForwardStep::Write { fd: q.descriptor(), data: q.pending() };
        }
        let data = match &self.status {
            OutputStatus::Pending(x) => x,
            OutputStatus::Done() => return ForwardStep::Ready(OutputStatus::Done()),
        };
        if file.swap_use_lock(true) {
            return ForwardStep::Ready(self.status.duplicate());
        }
        let mut more = copy_bytes(data);
        file.obuf.append(&mut more);
        if file.obuf_size <= file.obuf.len() {
            let buf = take_all(&mut file.obuf);
            let copy = copy_bytes(&buf);
            self.raw = Some(raw::write(file.fd, buf));
            ForwardStep::Write { fd: file.fd, data: copy }
        } else {
            self.status = OutputStatus::Done();
            file.swap_use_lock(false);
            ForwardStep::Ready(OutputStatus::Done())
        }
    }

    /// Takes in the outcome of the host write in flight. An error comes back and leaves
    /// the write in flight. A complete write ends the event and lets the latch go.
    pub fn resume(&mut self, file: &mut File, outcome: WriteOutcome) -> (r: Result<OutputStatus, std::io::Error>)
        requires
            old(self).in_flight() matches Some(q) ==> q.fd() == old(file).spec_fd(),
            old(self).in_flight() is Some,
            old(self).to_send() is Some,
            old(file).latched(),
        ensures
            r matches Err(e) ==> outcome == WriteOutcome::Failed(e),
            outcome matches WriteOutcome::Wrote(n) ==> (final(self).in_flight() is Some ==> final(self).in_flight().unwrap().written()
                == old(self).in_flight().unwrap().written() + n),
            outcome is WouldBlock && final(self).in_flight() is Some ==> final(self).in_flight().unwrap().written()
                == old(self).in_flight().unwrap().written(),
            same_file(*old(file), *final(file)),
            final(file).input() == old(file).input(),
            final(file).output() == old(file).output(),
            latch_step(old(file).latched(), old(self).holds_latch(), final(file).latched(), final(self).holds_latch()),
            r is Err <==> outcome is Failed,
            final(self).in_flight() is Some ==> final(self).in_flight().unwrap().fd() == old(self).in_flight().unwrap().fd(),
            final(self).in_flight() is Some ==> final(self).in_flight().unwrap().data() == old(self).in_flight().unwrap().data(),
            r is Err ==> final(self).in_flight() is Some && final(self).in_flight().unwrap().written() == old(self).in_flight().unwrap().written(),
            r is Ok && final(self).in_flight() is Some ==> !final(self).in_flight().unwrap().done(),
            final(self).in_flight() is None <==> final(self).to_send() is None,
            final(self).in_flight() is Some ==> final(self).to_send() == old(self).to_send(),
            r matches Ok(s) ==> s.unsent() == final(self).to_send(),
            final(file).latched() == final(self).in_flight() is Some,
            match outcome {
                WriteOutcome::Wrote(n) => final(self).in_flight() is None <==> q_done_after(old(self).in_flight().unwrap(), n as nat),
                WriteOutcome::WouldBlock => final(self).in_flight() is None <==> old(self).in_flight().unwrap().done(),
                WriteOutcome::Failed(_) => final(self).in_flight() is Some,
            },
    {
        let mut q = self.raw.take().unwrap();
        let done = match q.record(outcome) {
            Ok(d) => d,
            Err(e) => {
                self.raw = Some(q);
                return Err(e);
            },
        };
        if done {
            self.status = OutputStatus::Done();
            file.swap_use_lock(false);
        } else {
            self.raw = Some(q);
        }
        Ok(self.status.duplicate())
    }

    pub fn is_done(&self) -> (r: bool)
        ensures
            r == (self.to_send() is None),
    {
        match self.status {
            OutputStatus::Pending(_) => false,
            _ => true,
        }
    }
}

/// Whether a write in flight is complete once `n` more bytes went.
pub open spec fn q_done_after(q: RawOutput, n: nat) -> bool {
    q.done() || q.written() + n >= q.data().len()
}

/// Where a flush stands: nothing taken yet; the input buffer taken and the output
/// buffer on its way; or everything done, with the input bytes it took.
#[derive(Debug, Clone, PartialEq, Eq)]
pub enum FlushStatus {
    Pending(),
    DoneRead(Vec<u8>),
    DoneAll(Vec<u8>),
}

impl FlushStatus {
    /// The input bytes taken, once taken.
    pub open(crate) spec fn taken(&self) -> Option<Seq<u8>> {
        match self {
            FlushStatus::Pending() => None,
            FlushStatus::DoneRead(b) => Some(b@),
            FlushStatus::DoneAll(b) => Some(b@),
        }
    }

    pub open(crate) spec fn complete(&self) -> bool {
        self is DoneAll
    }

    fn duplicate(&self) -> (r: FlushStatus)
        ensures
            r.taken() == self.taken(),
            r.complete() == self.complete(),
            (r is Pending) == (self is Pending),
    {
        match self {
            FlushStatus::Pending() => FlushStatus::Pending(),
            FlushStatus::DoneRead(b) => FlushStatus::DoneRead(copy_bytes(b)),
            FlushStatus::DoneAll(b) => FlushStatus::DoneAll(copy_bytes(b)),
        }
    }
}

/// An event that empties both buffers of a file: it takes the input bytes and sends the
/// output bytes to the host.
#[derive(Debug)]
pub struct Flush {
    pub(crate) raw: Option<RawOutput>,
    pub(crate) status: FlushStatus,
}

/// An event that flushes a file.
pub fn flush() -> (r: Flush)
    ensures
        r.drained() is None,
        !r.finished(),
        !r.holds_latch(),
{
    Flush { raw: None, status: FlushStatus::Pending() }
}

impl Flush {
    /// The input bytes taken, once taken.
    pub open(crate) spec fn drained(&self) -> Option<Seq<u8>> {
        self.status.taken()
    }

    /// Whether everything is done.
    pub open(crate) spec fn finished(&self) -> bool {
        self.status.complete()
    }

    /// The host write in flight, if any.
    pub open(crate) spec fn in_flight(&self) -> Option<RawOutput> {
        self.raw
    }

    /// Whether this event holds its file's latch.
    pub open(crate) spec fn holds_latch(&self) -> bool {
        self.raw is Some
    }

    /// Polls the flush. Done: answers with the input bytes taken. A host write in
    /// flight: asks the caller to go on with it. Latch taken by another event: answers
    /// where the flush stands. Otherwise takes the latch and the input buffer (if not
    /// taken yet) and sends the whole output buffer in one host write.
    pub fn try_flush(&mut self, file: &mut File) -> (r: ForwardStep<FlushStatus>)
        requires
            old(self).in_flight() matches Some(q) ==> q.fd() == old(file).spec_fd(),
            old(self).holds_latch() ==> old(file).latched(),
        ensures
            same_file(*old(file), *final(file)),
            latch_step(old(file).latched(), old(self).holds_latch(), final(file).latched(), final(self).holds_latch()),
            if old(self).finished() {
                &&& *final(self) == *old(self)
                &&& *final(file) == *old(file)
                &&& r matches ForwardStep::Ready(s) && s.complete() && s.taken() == old(self).drained()
            } else if old(self).in_flight() is Some {
                let q = old(self).in_flight().unwrap();
                &&& *final(self) == *old(self)
                &&& *final(file) == *old(file)
                &&& r matches ForwardStep::Write { fd, data } && fd == q.fd() && data@ == q.rest()
            } else if old(file).latched() {
                &&& *final(self) == *old(self)
                &&& *final(file) == *old(file)
                &&& r matches ForwardStep::Ready(s) && !s.complete() && s.taken() == old(self).drained()
            } else {
                &&& final(self).drained() == Some(
                    match old(self).drained() {
                        Some(b) => b,
                        None => old(file).input(),
                    },
                )
                &&& !final(self).finished()
                &&& final(file).input() == match old(self).drained() {
                    Some(_) => old(file).input(),
                    None => Seq::<u8>::empty(),
                }
                &&& final(self).in_flight() matches Some(q) && q.fd() == old(file).spec_fd()
                    && q.data() == old(file).output() && q.written() == 0
                &&& final(file).output() == Seq::<u8>::empty()
                &&& final(file).latched()
                &&& r matches ForwardStep::Write { fd, data } && fd == old(file).spec_fd()
                    && data@ == old(file).output()
            },
    {
        if let FlushStatus::DoneAll(_) = &self.status {
            return ForwardStep::Ready(self.status.duplicate());
        }
        if let Some(q) = &self.raw {
            return ForwardStep::Write { fd: q.descriptor(), data: q.pending() };
        }
        if file.swap_use_lock(true) {
            return ForwardStep::Ready(self.status.duplicate());
        }
        if let FlushStatus::Pending() = &self.status {
            self.status = FlushStatus::DoneRead(take_all(&mut file.ibuf));
        }
        let buf = take_all(&mut file.obuf);
        let copy = copy_bytes(&buf);
        self.raw = Some(raw::write(file.fd, buf));
        ForwardStep::Write { fd: file.fd, data: copy }
    }

    /// Takes in the outcome of the host write in flight. An error comes back and leaves
    /// the write in flight. A complete write ends the flush, which keeps the input bytes
    /// it took, and lets the latch go.
    pub fn resume(&mut self, file: &mut File, outcome: WriteOutcome) -> (r: Result<FlushStatus, std::io::Error>)
        requires
            old(self).in_flight() matches Some(q) ==> q.fd() == old(file).spec_fd(),
            old(self).in_flight() is Some,
            old(self).drained() is Some,
            !old(self).finished(),
            old(file).latched(),
        ensures
            r matches Err(e) ==> outcome == WriteOutcome::Failed(e),
            outcome matches WriteOutcome::Wrote(n) ==> (final(self).in_flight() is Some ==> final(self).in_flight().unwrap().written()
                == old(self).in_flight().unwrap().written() + n),
            outcome is WouldBlock && final(self).in_flight() is Some ==> final(self).in_flight().unwrap().written()
                == old(self).in_flight().unwrap().written(),
            same_file(*old(file), *final(file)),
            final(file).input() == old(file).input(),
            final(file).output() == old(file).output(),
            latch_step(old(file).latched(), old(self).holds_latch(), final(file).latched(), final(self).holds_latch()),
            final(self).drained() == old(self).drained(),
            r is Err <==> outcome is Failed,
            final(self).in_flight() is Some ==> final(self).in_flight().unwrap().fd() == old(self).in_flight().unwrap().fd(),
            final(self).in_flight() is Some ==> final(self).in_flight().unwrap().data() == old(self).in_flight().unwrap().data(),
            r is Err ==> final(self).in_flight() is Some && final(self).in_flight().unwrap().written() == old(self).in_flight().unwrap().written(),
            r is Ok && final(self).in_flight() is Some ==> !final(self).in_flight().unwrap().done(),
            final(self).in_flight() is None <==> final(self).finished(),
            r matches Ok(s) ==> s.complete() == final(self).finished() && s.taken() == final(self).drained(),
            final(file).latched() == final(self).in_flight() is Some,
            match outcome {
                WriteOutcome::Wrote(n) => final(self).in_flight() is None <==> q_done_after(old(self).in_flight().unwrap(), n as nat),
                WriteOutcome::WouldBlock => final(self).in_flight() is None <==> old(self).in_flight().unwrap().done(),
                WriteOutcome::Failed(_) => final(self).in_flight() is Some,
            },
    {
        let mut q = self.raw.take().unwrap();
        let done = match q.record(outcome) {
            Ok(d) => d,
            Err(e) => {
                self.raw = Some(q);
                return Err(e);
            },
        };
        if done {
            let mut taken = FlushStatus::Pending();
            std::mem::swap(&mut taken, &mut self.status);
            self.status = match taken {
                FlushStatus::DoneRead(b) => FlushStatus::DoneAll(b),
                FlushStatus::DoneAll(b) => FlushStatus::DoneAll(b),
                FlushStatus::Pending() => FlushStatus::DoneAll(Vec::new()),
            };
            file.swap_use_lock(false);
        } else {
            self.raw = Some(q);
        }
        Ok(self.status.duplicate())
    }

    pub fn is_done(&self) -> (r: bool)
        ensures
            r == self.finished(),
    {
        match self.status {
            FlushStatus::DoneAll(_) => true,
            _ => false,
        }
    }
}

/// Where a seek stands: asked for, or done at an absolute offset.
#[derive(Debug, Clone, Copy, PartialEq, Eq, Structural)]
pub enum SeekStatus {
    Pending(SeekFrom),
    Done(u64),
}

/// What a seek poll asks of the caller.
#[derive(Debug, PartialEq, Eq)]
pub enum SeekStep {
    /// Nothing to do on the host: this is where the seek stands.
    Ready(SeekStatus),
    /// Seek `fd` as `from` says, then hand the outcome to `Seek::resume`.
    Seek { fd: OsFd, from: SeekFrom },
}

/// An event that moves a file's position.
#[derive(Debug)]
pub struct Seek {
    pub(crate) in_flight: Option<OsFd>,
    pub(crate) status: SeekStatus,
}

/// An event that seeks as `from` says.
pub fn seek(from: SeekFrom) -> (r: Seek)
    ensures
        r.spec_status() == SeekStatus::Pending(from),
        !r.holds_latch(),
{
    Seek { in_flight: None, status: SeekStatus::Pending(from) }
}

impl Seek {
    pub open(crate) spec fn spec_status(&self) -> SeekStatus {
        self.status
    }

    /// Whether this event holds its file's latch: from taking it until the host seek's
    /// outcome comes back.
    pub open(crate) spec fn holds_latch(&self) -> bool {
        self.in_flight is Some
    }

    /// The descriptor of the file whose latch this event holds, if it holds one.
    pub open(crate) spec fn flight_fd(&self) -> Option<OsFd> {
        self.in_flight
    }

    /// Polls the seek. Done: answers with the offset. A host seek in flight, or the
    /// latch free to take: asks the caller to seek. Latch taken by another event:
    /// answers pending.
    pub fn try_seek(&mut self, file: &mut File) -> (r: SeekStep)
        requires
            old(self).flight_fd() matches Some(d) ==> d == old(file).spec_fd(),
            old(self).holds_latch() ==> old(file).latched(),
        ensures
            same_file(*old(file), *final(file)),
            final(file).input() == old(file).input(),
            final(file).output() == old(file).output(),
            final(self).spec_status() == old(self).spec_status(),
            latch_step(old(file).latched(), old(self).holds_latch(), final(file).latched(), final(self).holds_latch()),
            match old(self).spec_status() {
                SeekStatus::Done(o) => {
                    &&& final(self).holds_latch() == old(self).holds_latch()
                    &&& final(file).latched() == old(file).latched()
                    &&& r == SeekStep::Ready(SeekStatus::Done(o))
                },
                SeekStatus::Pending(from) => if old(self).holds_latch() || !old(file).latched() {
                    &&& final(self).flight_fd() == Some(old(file).spec_fd())
                    &&& final(file).latched()
                    &&& r == SeekStep::Seek { fd: old(file).spec_fd(), from }
                } else {
                    &&& !final(self).holds_latch()
                    &&& final(file).latched()
                    &&& r == SeekStep::Ready(SeekStatus::Pending(from))
                },
            },
    {
        let from = match self.status {
            SeekStatus::Pending(f) => f,
            SeekStatus::Done(o) => return SeekStep::Ready(SeekStatus::Done(o)),
        };
        if self.in_flight.is_none() {
            if file.swap_use_lock(true) {
                return SeekStep::Ready(SeekStatus::Pending(from));
            }
            self.in_flight = Some(file.fd);
        }
        SeekStep::Seek { fd: file.fd, from }
    }

    /// Takes in the outcome of the host seek, which ends the seek's hold on the latch:
    /// an offset makes the seek done, an error comes back with the seek still pending.
    pub fn resume(&mut self, file: &mut File, outcome: Result<u64, std::io::Error>) -> (r: Result<SeekStatus, std::io::Error>)
        requires
            old(self).flight_fd() matches Some(d) ==> d == old(file).spec_fd(),
            old(self).holds_latch(),
            old(file).latched(),
        ensures
            r matches Err(e) ==> outcome == Err::<u64, std::io::Error>(e),
            same_file(*old(file), *final(file)),
            final(file).input() == old(file).input(),
            final(file).output() == old(file).output(),
            !final(self).holds_latch(),
            !final(file).latched(),
            match outcome {
                Ok(o) => final(self).spec_status() == SeekStatus::Done(o) && r == Ok::<SeekStatus, std::io::Error>(SeekStatus::Done(o)),
                Err(_) => final(self).spec_status() == old(self).spec_status() && r is Err,
            },
    {
        self.in_flight = None;
        file.swap_use_lock(false);
        match outcome {
            Ok(o) => {
                self.status = SeekStatus::Done(o);
                Ok(self.status)
            },
            Err(e) => Err(e),
        }
    }

    pub fn is_done(&self) -> (r: bool)
        ensures
            r == (self.spec_status() is Done),
    {
        match self.status {
            SeekStatus::Pending(_) => false,
            _ => true,
        }
    }
}

/// Any of the four events, as the event tables hold them.
#[derive(Debug)]
pub enum Event {
    In(Input),
    Out(Output),
    Flush(Flush),
    Seek(Seek),
}

impl Event {
    /// Whether the event holds its file's latch.
    pub open(crate) spec fn holds_latch(&self) -> bool {
        match self {
            Event::In(e) => e.holds_latch(),
            Event::Out(e) => e.holds_latch(),
            Event::Flush(e) => e.holds_latch(),
            Event::Seek(e) => e.holds_latch(),
        }
    }

    /// Whether the event reached its final state.
    pub open(crate) spec fn done(&self) -> bool {
        match self {
            Event::In(e) => e.waiting_for() is None,
            Event::Out(e) => e.to_send() is None,
            Event::Flush(e) => e.finished(),
            Event::Seek(e) => e.spec_status() is Done,
        }
    }

    pub fn is_done(&self) -> (r: bool)
        ensures
            r == self.done(),
    {
        match self {
            Event::In(e) => e.is_done(),
            Event::Out(e) => e.is_done(),
            Event::Flush(e) => e.is_done(),
            Event::Seek(e) => e.is_done(),
        }
    }
}

/// How many of the flags are set.
pub open spec fn holders(flags: Seq<bool>) -> nat
    decreases flags.len(),
{
    if flags.len() == 0 {
        0
    } else {
        holders(flags.drop_last()) + if flags.last() {
            1nat
        } else {
            0nat
        }
    }
}

/// No two events of a file hold its latch, and the latch is taken exactly when one does.
pub open spec fn single_flight(latched: bool, flags: Seq<bool>) -> bool {
    holders(flags) <= 1 && (latched <==> holders(flags) == 1)
}

proof fn lemma_holders_update(flags: Seq<bool>, i: int, h: bool)
    requires
        0 <= i < flags.len(),
    ensures
        holders(flags.update(i, h)) + (if flags[i] {
            1int
        } else {
            0int
        }) == holders(flags) + (if h {
            1int
        } else {
            0int
        }),
    decreases flags.len(),
{
    let u = flags.update(i, h);
    if i == flags.len() - 1 {
        assert(u.drop_last() =~= flags.drop_last());
    } else {
        assert(u.drop_last() =~= flags.drop_last().update(i, h));
        lemma_holders_update(flags.drop_last(), i, h);
    }
}

/// One step of one event keeps a file single-flight: if, among the events of a file
/// (`flags[k]` telling whether event `k` holds the latch), at most one holds it and the
/// latch is taken exactly then, any step of event `i` that moves the latch as every
/// poll and resume of this module does keeps it so. Hence at most one host call is in
/// flight on a file at any time.
pub proof fn law_single_flight(latched: bool, flags: Seq<bool>, i: int, after: bool, holds: bool)
    requires
        single_flight(latched, flags),
        0 <= i < flags.len(),
        latch_step(latched, flags[i], after, holds),
    ensures
        single_flight(after, flags.update(i, holds)),
{
    lemma_holders_update(flags, i, holds);
    lemma_holders_update(flags, i, false);
}

/// Concatenation of the chunks, in order.
pub open spec fn concat(chunks: Seq<Seq<u8>>) -> Seq<u8>
    decreases chunks.len(),
{
    if chunks.len() == 0 {
        Seq::empty()
    } else {
        concat(chunks.drop_last()) + chunks.last()
    }
}

/// Reads on one file partition its byte stream. Take any run of polls and resumes of
/// any number of reads on one file, interleaved in any way, as steps `i = 0, 1, ...`:
/// step `i` finds the input buffer `bufs[i]`, hands out `delivered[i]` (its `fetched`
/// bytes) and moves `arrived[i]` from the host (its `moved_in` bytes), as the contracts of
/// `Input::try_fetch` and `Input::resume` state. Since one host read at a time is in
/// flight (`law_single_flight`), the arrived chunks, in order, are the descriptor's
/// stream as far as it was read. Then the chunks handed out, in the order the reads
/// took the latch, followed by what is still buffered, are the bytes first buffered
/// followed by that stream: no gap, no byte twice, file order kept.
pub proof fn law_reads_partition_stream(
    bufs: Seq<Seq<u8>>,
    arrived: Seq<Seq<u8>>,
    delivered: Seq<Seq<u8>>,
)
    requires
        bufs.len() == arrived.len() + 1,
        delivered.len() == arrived.len(),
        forall|i: int|
            0 <= i < arrived.len() ==> #[trigger] delivered[i] + bufs[i + 1] == bufs[i] + arrived[i],
    ensures
        concat(delivered) + bufs.last() == bufs[0] + concat(arrived),
    decreases arrived.len(),
{
    let k = arrived.len() as int;
    if k == 0 {
        assert(concat(delivered) =~= Seq::<u8>::empty());
        assert(concat(arrived) =~= Seq::<u8>::empty());
        assert(concat(delivered) + bufs.last() =~= bufs[0] + concat(arrived));
    } else {
        let b2 = bufs.drop_last();
        let a2 = arrived.drop_last();
        let d2 = delivered.drop_last();
        assert forall|i: int| 0 <= i < a2.len() implies #[trigger] d2[i] + b2[i + 1] == b2[i] + a2[i] by {
            assert(delivered[i] + bufs[i + 1] == bufs[i] + arrived[i]);
        }
        law_reads_partition_stream(b2, a2, d2);
        assert(delivered[k - 1] + bufs[k] == bufs[k - 1] + arrived[k - 1]);
        assert(concat(delivered) + bufs.last() =~= concat(d2) + (delivered[k - 1] + bufs[k]));
        assert(bufs[0] + concat(arrived) =~= (bufs[0] + concat(a2)) + arrived[k - 1]);
        assert(b2.last() == bufs[k - 1]);
        assert(concat(d2) + bufs[k - 1] + arrived[k - 1] =~= concat(d2) + (bufs[k - 1] + arrived[k - 1]));
    }
}

} // verus!
