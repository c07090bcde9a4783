//! A capability-secured runtime core: effect device identifiers and their access
//! control, buffered non-blocking I/O state machines, the process pool with its
//! spawner, and a small register-language compiler.
use dynasmrt::ExecutableBuffer;
use vstd::prelude::*;

pub mod ast;
pub mod edi;
pub mod err;
pub mod evt;
pub mod io;
pub mod ipc;
pub mod process;
pub mod raw;
pub mod val;
pub mod vm;

verus! {

/// dynasmrt's executable buffer, carried as an opaque value.
#[verifier::external_type_specification]
#[verifier::external_body]
pub struct ExExecutableBuffer(ExecutableBuffer);

/// The register block the compiled code works on: four host words, in this order.
#[derive(Debug, Clone, Copy, PartialEq, Eq, Structural)]
pub struct RegSet {
    pub wa: usize,
    pub wb: usize,
    pub wc: usize,
    pub wd: usize,
}

impl RegSet {
    /// The value of register `w`.
    pub fn get(&self, w: ast::WordReg) -> (r: usize)
        ensures
            r == ast::reg(*self, w),
    {
        match w {
            ast::WordReg::Wa => self.wa,
            ast::WordReg::Wb => self.wb,
            ast::WordReg::Wc => self.wc,
            ast::WordReg::Wd => self.wd,
        }
    }

    /// Sets register `w` to `v`.
    pub fn set(&mut self, w: ast::WordReg, v: usize)
        ensures
            *final(self) == ast::with_reg(*old(self), w, v),
    {
        match w {
            ast::WordReg::Wa => self.wa = v,
            ast::WordReg::Wb => self.wb = v,
            ast::WordReg::Wc => self.wc = v,
            ast::WordReg::Wd => self.wd = v,
        }
    }
}

/// A register block together with the compiled code that runs on it.
#[derive(Debug)]
pub struct Vm {
    regs: RegSet,
    code: ExecutableBuffer,
}

impl Vm {
    /// The registers.
    pub closed spec fn spec_regs(&self) -> RegSet {
        self.regs
    }

    /// The compiled code.
    pub closed spec fn spec_code(&self) -> ExecutableBuffer {
        self.code
    }

    pub fn new(regs: RegSet, code: ExecutableBuffer) -> (r: Self)
        ensures
            r.spec_regs() == regs,
            r.spec_code() == code,
    {
        Self { regs, code }
    }

    pub fn regs(&self) -> (r: &RegSet)
        ensures
            *r == self.spec_regs(),
    {
        &self.regs
    }

    pub fn regs_mut(&mut self) -> (r: &mut RegSet)
        ensures
            *r == old(self).spec_regs(),
            final(self).spec_regs() == *final(r),
            final(self).spec_code() == old(self).spec_code(),
    {
        &mut self.regs
    }

    /// The compiled code.
    pub fn code(&self) -> (r: &ExecutableBuffer)
        ensures
            *r == self.spec_code(),
    {
        &self.code
    }
}

} // verus!
