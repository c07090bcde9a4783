//! Buffered files: a descriptor, an input and an output buffer with their declared
//! sizes, and the single-user latch that the I/O events of the file take in turn.
use crate::evt::{Flush, Input, Output, Seek};
use crate::raw::{open_plan, CreateOpts, EndOpts, OpenPlan, OsFd, SeekFrom};
use vstd::prelude::*;
use vstd::string::StringSliceAdditionalSpecFns;

verus! {

/// Options for opening a file, built up before the open itself.
#[derive(Clone, Debug)]
pub struct FdOpener<'a> {
    path: &'a str,
    end_opts: EndOpts,
    create_opts: CreateOpts,
    ibuf: usize,
    obuf: usize,
}

impl<'a> FdOpener<'a> {
    pub closed spec fn spec_path(&self) -> &'a str {
        self.path
    }

    pub closed spec fn spec_end(&self) -> EndOpts {
        self.end_opts
    }

    pub closed spec fn spec_create(&self) -> CreateOpts {
        self.create_opts
    }

    /// Declared input-buffer size of the file to open.
    pub closed spec fn spec_ibuf(&self) -> usize {
        self.ibuf
    }

    /// Declared output-buffer size of the file to open.
    pub closed spec fn spec_obuf(&self) -> usize {
        self.obuf
    }

    /// Read only, an existing file, not truncated, default input buffer, no output buffer.
    pub fn new(path: &'a str) -> (r: Self)
        ensures
            r.spec_path() == path,
            r.spec_end() == EndOpts::I(),
            r.spec_create() == CreateOpts::DoNotCreate(false),
            r.spec_ibuf() == File::DFL_BUF_SZ,
            r.spec_obuf() == 0,
    {
        Self {
            path,
            end_opts: EndOpts::I(),
            create_opts: CreateOpts::DoNotCreate(false),
            ibuf: File::DFL_BUF_SZ,
            obuf: 0,
        }
    }

    /// Everything the host needs to carry out the open.
    pub fn plan(&self) -> (r: OpenPlan)
        requires
            self.spec_path()@.len() < usize::MAX,
        ensures
            r.path@ == self.spec_path().spec_bytes().push(0u8),
            r.access == crate::raw::access_of(self.spec_end()),
            r.append == crate::raw::append_of(self.spec_end()),
            r.truncate == crate::raw::truncate_of(self.spec_create()),
            r.creation == crate::raw::creation_of(self.spec_create()),
    {
        open_plan(self.path, self.end_opts, self.create_opts)
    }

    /// Declared input-buffer size.
    pub fn input_size(&self) -> (r: usize)
        ensures
            r == self.spec_ibuf(),
    {
        self.ibuf
    }

    /// Declared output-buffer size.
    pub fn output_size(&self) -> (r: usize)
        ensures
            r == self.spec_obuf(),
    {
        self.obuf
    }

    /// Open an existing file and truncate it.
    pub fn trunc(&mut self) -> (r: &mut Self)
        ensures
            r.spec_path() == old(self).spec_path(),
            r.spec_end() == old(self).spec_end(),
            r.spec_create() == CreateOpts::DoNotCreate(true),
            r.spec_ibuf() == old(self).spec_ibuf(),
            r.spec_obuf() == old(self).spec_obuf(),
            *final(self) == *final(r),
    {
        self.create_opts = CreateOpts::DoNotCreate(true);
        self
    }

    /// Create the file if it is missing, and truncate it.
    pub fn create_or_trunc(&mut self) -> (r: &mut Self)
        ensures
            r.spec_path() == old(self).spec_path(),
            r.spec_end() == old(self).spec_end(),
            r.spec_create() == CreateOpts::Create(true),
            r.spec_ibuf() == old(self).spec_ibuf(),
            r.spec_obuf() == old(self).spec_obuf(),
            *final(self) == *final(r),
    {
        self.create_opts = CreateOpts::Create(true);
        self
    }

    /// Open an existing file, without truncating it.
    pub fn do_not_create(&mut self) -> (r: &mut Self)
        ensures
            r.spec_path() == old(self).spec_path(),
            r.spec_end() == old(self).spec_end(),
            r.spec_create() == CreateOpts::DoNotCreate(false),
            r.spec_ibuf() == old(self).spec_ibuf(),
            r.spec_obuf() == old(self).spec_obuf(),
            *final(self) == *final(r),
    {
        self.create_opts = CreateOpts::DoNotCreate(false);
        self
    }

    /// Create the file if it is missing, without truncating it.
    pub fn create(&mut self) -> (r: &mut Self)
        ensures
            r.spec_path() == old(self).spec_path(),
            r.spec_end() == old(self).spec_end(),
            r.spec_create() == CreateOpts::Create(false),
            r.spec_ibuf() == old(self).spec_ibuf(),
            r.spec_obuf() == old(self).spec_obuf(),
            *final(self) == *final(r),
    {
        self.create_opts = CreateOpts::Create(false);
        self
    }

    /// Create a new file; the open fails if the path exists.
    pub fn create_new(&mut self) -> (r: &mut Self)
        ensures
            r.spec_path() == old(self).spec_path(),
            r.spec_end() == old(self).spec_end(),
            r.spec_create() == CreateOpts::CreateNew(),
            r.spec_ibuf() == old(self).spec_ibuf(),
            r.spec_obuf() == old(self).spec_obuf(),
            *final(self) == *final(r),
    {
        self.create_opts = CreateOpts::CreateNew();
        self
    }

    /// Read and write, writes appending; default sizes for both buffers.
    pub fn read_append(&mut self) -> (r: &mut Self)
        ensures
            r.spec_path() == old(self).spec_path(),
            r.spec_end() == EndOpts::IO(true),
            r.spec_create() == old(self).spec_create(),
            r.spec_ibuf() == File::DFL_BUF_SZ,
            r.spec_obuf() == File::DFL_BUF_SZ,
            *final(self) == *final(r),
    {
        self.end_opts = EndOpts::IO(true);
        self.ibuf = File::DFL_BUF_SZ;
        self.obuf = File::DFL_BUF_SZ;
        self
    }

    /// Read and write; default sizes for both buffers.
    pub fn read_write(&mut self) -> (r: &mut Self)
        ensures
            r.spec_path() == old(self).spec_path(),
            r.spec_end() == EndOpts::IO(false),
            r.spec_create() == old(self).spec_create(),
            r.spec_ibuf() == File::DFL_BUF_SZ,
            r.spec_obuf() == File::DFL_BUF_SZ,
            *final(self) == *final(r),
    {
        self.end_opts = EndOpts::IO(false);
        self.ibuf = File::DFL_BUF_SZ;
        self.obuf = File::DFL_BUF_SZ;
        self
    }

    /// Write only, appending; no input buffer, default output buffer.
    pub fn append(&mut self) -> (r: &mut Self)
        ensures
            r.spec_path() == old(self).spec_path(),
            r.spec_end() == EndOpts::O(true),
            r.spec_create() == old(self).spec_create(),
            r.spec_ibuf() == 0,
            r.spec_obuf() == File::DFL_BUF_SZ,
            *final(self) == *final(r),
    {
        self.end_opts = EndOpts::O(true);
        self.ibuf = 0;
        self.obuf = File::DFL_BUF_SZ;
        self
    }

    /// Write only; no input buffer, default output buffer.
    pub fn write(&mut self) -> (r: &mut Self)
        ensures
            r.spec_path() == old(self).spec_path(),
            r.spec_end() == EndOpts::O(false),
            r.spec_create() == old(self).spec_create(),
            r.spec_ibuf() == 0,
            r.spec_obuf() == File::DFL_BUF_SZ,
            *final(self) == *final(r),
    {
        self.end_opts = EndOpts::O(false);
        self.ibuf = 0;
        self.obuf = File::DFL_BUF_SZ;
        self
    }

    /// Read only; default input buffer, no output buffer.
    pub fn read(&mut self) -> (r: &mut Self)
        ensures
            r.spec_path() == old(self).spec_path(),
            r.spec_end() == EndOpts::I(),
            r.spec_create() == old(self).spec_create(),
            r.spec_ibuf() == File::DFL_BUF_SZ,
            r.spec_obuf() == 0,
            *final(self) == *final(r),
    {
        self.end_opts = EndOpts::I();
        self.ibuf = File::DFL_BUF_SZ;
        self.obuf = 0;
        self
    }

    /// Sets the declared output-buffer size.
    pub fn output_buf_sz(&mut self, size: usize) -> (r: &mut Self)
        ensures
            r.spec_path() == old(self).spec_path(),
            r.spec_end() == old(self).spec_end(),
            r.spec_create() == old(self).spec_create(),
            r.spec_ibuf() == old(self).spec_ibuf(),
            r.spec_obuf() == size,
            *final(self) == *final(r),
    {
        self.obuf = size;
        self
    }

    /// Sets the declared input-buffer size.
    pub fn input_buf_sz(&mut self, size: usize) -> (r: &mut Self)
        ensures
            r.spec_path() == old(self).spec_path(),
            r.spec_end() == old(self).spec_end(),
            r.spec_create() == old(self).spec_create(),
            r.spec_ibuf() == size,
            r.spec_obuf() == old(self).spec_obuf(),
            *final(self) == *final(r),
    {
        self.ibuf = size;
        self
    }
}

/// A file: its descriptor, input and output buffers with their declared sizes, and the
/// single-user latch. The event that holds the latch is the only one that may have a
/// host call in flight on the file.
#[derive(Debug)]
pub struct File {
    pub(crate) fd: OsFd,
    pub(crate) in_use: bool,
    pub(crate) ibuf: Vec<u8>,
    pub(crate) ibuf_size: usize,
    pub(crate) obuf: Vec<u8>,
    pub(crate) obuf_size: usize,
}

impl File {
    /// Default buffer size, in bytes.
    pub const DFL_BUF_SZ: usize = 0x800;

    pub open(crate) spec fn spec_fd(&self) -> OsFd {
        self.fd
    }

    /// Whether the latch is taken.
    pub open(crate) spec fn latched(&self) -> bool {
        self.in_use
    }

    /// This file with the latch set to `val`.
    pub open(crate) spec fn with_latch(self, val: bool) -> File {
        File { in_use: val, ..self }
    }

    /// Bytes read from the host and not yet handed out.
    pub open(crate) spec fn input(&self) -> Seq<u8> {
        self.ibuf@
    }

    /// Bytes written by events and not yet sent to the host.
    pub open(crate) spec fn output(&self) -> Seq<u8> {
        self.obuf@
    }

    pub open(crate) spec fn input_size(&self) -> usize {
        self.ibuf_size
    }

    /// The output buffer is sent once it holds at least this many bytes.
    pub open(crate) spec fn output_size(&self) -> usize {
        self.obuf_size
    }

    /// A file over descriptor `fd`, with empty buffers of the declared sizes and a free latch.
    pub fn from_raw(fd: OsFd, ibuf_size: usize, obuf_size: usize) -> (r: Self)
        ensures
            r.spec_fd() == fd,
            !r.latched(),
            r.input() == Seq::<u8>::empty(),
            r.output() == Seq::<u8>::empty(),
            r.input_size() == ibuf_size,
            r.output_size() == obuf_size,
    {
        Self {
            fd,
            in_use: false,
            ibuf: Vec::new(),
            ibuf_size,
            obuf: Vec::new(),
            obuf_size,
        }
    }

    /// Sets the latch to `val` and returns what it was.
    pub fn swap_use_lock(&mut self, val: bool) -> (r: bool)
        ensures
            r == old(self).latched(),
            *final(self) == old(self).with_latch(val),
    {
        let prev = self.in_use;
        self.in_use = val;
        prev
    }

    pub fn descriptor(&self) -> (r: OsFd)
        ensures
            r == self.spec_fd(),
    {
        self.fd
    }

    pub fn is_latched(&self) -> (r: bool)
        ensures
            r == self.latched(),
    {
        self.in_use
    }

    /// The input buffer.
    pub fn input_buffer(&self) -> (r: &[u8])
        ensures
            r@ == self.input(),
    {
        self.ibuf.as_slice()
    }

    /// The output buffer.
    pub fn output_buffer(&self) -> (r: &[u8])
        ensures
            r@ == self.output(),
    {
        self.obuf.as_slice()
    }

    /// An event that reads `count` bytes.
    pub fn read(&self, count: usize) -> (r: Input)
        ensures
            r.waiting_for() == Some(count as nat),
            !r.holds_latch(),
    {
        crate::evt::read(count)
    }

    /// An event that writes `data`.
    pub fn write(&self, data: Vec<u8>) -> (r: Output)
        ensures
            r.to_send() == Some(data@),
            !r.holds_latch(),
    {
        crate::evt::write(data)
    }

    /// An event that empties both buffers.
    pub fn flush(&self) -> (r: Flush)
        ensures
            r.drained() is None,
            !r.finished(),
            !r.holds_latch(),
    {
        crate::evt::flush()
    }

    /// An event that moves the file position.
    pub fn seek(&self, mode: SeekFrom) -> (r: Seek)
        ensures
            r.spec_status() == crate::evt::SeekStatus::Pending(mode),
            !r.holds_latch(),
    {
        crate::evt::seek(mode)
    }

    /// Options for opening `path`.
    pub fn open<'a>(path: &'a str) -> (r: FdOpener<'a>)
        ensures
            r.spec_path() == path,
            r.spec_end() == EndOpts::I(),
            r.spec_create() == CreateOpts::DoNotCreate(false),
            r.spec_ibuf() == File::DFL_BUF_SZ,
            r.spec_obuf() == 0,
    {
        FdOpener::new(path)
    }
}

} // verus!
