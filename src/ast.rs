//! The register instruction language, its reference semantics, and its x86-64 encoding.
use crate::RegSet;
use dynasmrt::ExecutableBuffer;
use vstd::prelude::*;

verus! {

/// One of the four word registers.
#[derive(Debug, Copy, Clone, PartialEq, Eq, Hash, Structural)]
pub enum WordReg {
    Wa,
    Wb,
    Wc,
    Wd,
}

/// One instruction.
#[derive(Debug, Clone, PartialEq, Eq, Hash, Structural)]
pub enum Op {
    /// `dst <- dst + src`, wrapping.
    Add(WordReg, WordReg),
    /// `dst <- -dst`, two's complement.
    Neg(WordReg),
    /// `dst <- src`.
    Mov(WordReg, WordReg),
    /// `dst <- imm`.
    ImmMov(WordReg, usize),
}

impl WordReg {
    /// Number of the host register that holds this register: rax, rcx, rdx, rsi.
    pub open spec fn host(self) -> u8 {
        match self {
            WordReg::Wa => 0,
            WordReg::Wb => 1,
            WordReg::Wc => 2,
            WordReg::Wd => 6,
        }
    }

    /// Number of the host register that holds this register.
    pub fn to_dynreg(self) -> (r: u8)
        ensures
            r == self.host(),
    {
        match self {
            WordReg::Wa => 0,
            WordReg::Wb => 1,
            WordReg::Wc => 2,
            WordReg::Wd => 6,
        }
    }
}

/// `a + b`, wrapped to the word size.
pub open spec fn wrap_add(a: usize, b: usize) -> usize {
    if a + b > usize::MAX {
        (a + b - usize::MAX - 1) as usize
    } else {
        (a + b) as usize
    }
}

/// `-a` in two's complement on the word size.
pub open spec fn wrap_neg(a: usize) -> usize {
    if a == 0 {
        0
    } else {
        (usize::MAX - a + 1) as usize
    }
}

/// The value register `w` holds in `r`.
pub open spec fn reg(r: RegSet, w: WordReg) -> usize {
    match w {
        WordReg::Wa => r.wa,
        WordReg::Wb => r.wb,
        WordReg::Wc => r.wc,
        WordReg::Wd => r.wd,
    }
}

/// `r` with register `w` set to `v`.
pub open spec fn with_reg(r: RegSet, w: WordReg, v: usize) -> RegSet {
    match w {
        WordReg::Wa => RegSet { wa: v, ..r },
        WordReg::Wb => RegSet { wb: v, ..r },
        WordReg::Wc => RegSet { wc: v, ..r },
        WordReg::Wd => RegSet { wd: v, ..r },
    }
}

/// The registers after one instruction.
pub open spec fn step(r: RegSet, op: Op) -> RegSet {
    match op {
        Op::Add(d, s) => with_reg(r, d, wrap_add(reg(r, d), reg(r, s))),
        Op::Neg(d) => with_reg(r, d, wrap_neg(reg(r, d))),
        Op::Mov(d, s) => with_reg(r, d, reg(r, s)),
        Op::ImmMov(d, imm) => with_reg(r, d, imm),
    }
}

/// The registers after the instructions, applied in order.
pub open spec fn run_ops(r: RegSet, ops: Seq<Op>) -> RegSet
    decreases ops.len(),
{
    if ops.len() == 0 {
        r
    } else {
        step(run_ops(r, ops.drop_last()), ops.last())
    }
}

/// The `n` low bytes of `v`, least significant first.
pub open spec fn le_bytes(v: nat, n: nat) -> Seq<u8>
    decreases n,
{
    if n == 0 {
        Seq::empty()
    } else {
        seq![(v % 256) as u8] + le_bytes(v / 256, (n - 1) as nat)
    }
}

/// Loads the four fields of the block that rdi points to into rax, rcx, rdx, rsi.
pub open spec fn prelude() -> Seq<u8> {
    seq![
        0x48u8, 0x8B, 0x07,
        0x48, 0x8B, 0x4F, 0x08,
        0x48, 0x8B, 0x57, 0x10,
        0x48, 0x8B, 0x77, 0x18,
    ]
}

/// Stores rax, rcx, rdx, rsi back into the four fields of the block, and returns.
pub open spec fn postlude() -> Seq<u8> {
    seq![
        0x48u8, 0x89, 0x07,
        0x48, 0x89, 0x4F, 0x08,
        0x48, 0x89, 0x57, 0x10,
        0x48, 0x89, 0x77, 0x18,
        0xC3,
    ]
}

/// Machine code of one instruction on the host registers.
pub open spec fn op_code(op: Op) -> Seq<u8> {
    match op {
        Op::Add(d, s) => seq![0x48u8, 0x01, (0xC0 + s.host() * 8 + d.host()) as u8],
        Op::Neg(d) => seq![0x48u8, 0xF7, (0xD8 + d.host()) as u8],
        Op::Mov(d, s) => seq![0x48u8, 0x89, (0xC0 + s.host() * 8 + d.host()) as u8],
        Op::ImmMov(d, imm) => seq![0x48u8, (0xB8 + d.host()) as u8] + le_bytes(imm as nat, 8),
    }
}

/// Machine code of the instructions, in order.
pub open spec fn ops_code(ops: Seq<Op>) -> Seq<u8>
    decreases ops.len(),
{
    if ops.len() == 0 {
        Seq::empty()
    } else {
        ops_code(ops.drop_last()) + op_code(ops.last())
    }
}

/// The whole function emitted for `ops`.
pub open spec fn program(ops: Seq<Op>) -> Seq<u8> {
    prelude() + ops_code(ops) + postlude()
}

/// A machine instruction of the subset the compiler emits, over host registers
/// (numbered as in x86-64: 0 rax, 1 rcx, 2 rdx, 6 rsi) and the four words of the
/// register block that rdi points to.
#[derive(Debug, Clone, Copy, PartialEq, Eq, Structural)]
pub enum Insn {
    /// `mov r, [rdi + 8 * slot]`.
    Load(u8, u8),
    /// `mov [rdi + 8 * slot], r`.
    Store(u8, u8),
    /// `add dst, src`.
    AddRR(u8, u8),
    /// `neg dst`.
    NegR(u8),
    /// `mov dst, src`.
    MovRR(u8, u8),
    /// `mov dst, imm64`.
    MovImm(u8, usize),
    /// `ret`.
    Ret,
}

/// x86-64 encoding of an instruction (REX.W forms; `slot` and registers below 8).
pub open spec fn insn_bytes(i: Insn) -> Seq<u8> {
    match i {
        Insn::Load(r, k) => if k == 0 {
            seq![0x48u8, 0x8B, (r * 8 + 7) as u8]
        } else {
            seq![0x48u8, 0x8B, (0x40 + r * 8 + 7) as u8, (k * 8) as u8]
        },
        Insn::Store(k, r) => if k == 0 {
            seq![0x48u8, 0x89, (r * 8 + 7) as u8]
        } else {
            seq![0x48u8, 0x89, (0x40 + r * 8 + 7) as u8, (k * 8) as u8]
        },
        Insn::AddRR(d, s) => seq![0x48u8, 0x01, (0xC0 + s * 8 + d) as u8],
        Insn::NegR(d) => seq![0x48u8, 0xF7, (0xD8 + d) as u8],
        Insn::MovRR(d, s) => seq![0x48u8, 0x89, (0xC0 + s * 8 + d) as u8],
        Insn::MovImm(d, v) => seq![0x48u8, (0xB8 + d) as u8] + le_bytes(v as nat, 8),
        Insn::Ret => seq![0xC3u8],
    }
}

/// Encoding of the instructions, in order.
pub open spec fn insns_bytes(is: Seq<Insn>) -> Seq<u8>
    decreases is.len(),
{
    if is.len() == 0 {
        Seq::empty()
    } else {
        insns_bytes(is.drop_last()) + insn_bytes(is.last())
    }
}

/// Machine state: host registers 0 to 7 and the four words of the register block.
pub open spec fn insn_exec(i: Insn, regs: Seq<usize>, mem: Seq<usize>) -> (Seq<usize>, Seq<usize>) {
    match i {
        Insn::Load(r, k) => (regs.update(r as int, mem[k as int]), mem),
        Insn::Store(k, r) => (regs, mem.update(k as int, regs[r as int])),
        Insn::AddRR(d, s) => (regs.update(d as int, wrap_add(regs[d as int], regs[s as int])), mem),
        Insn::NegR(d) => (regs.update(d as int, wrap_neg(regs[d as int])), mem),
        Insn::MovRR(d, s) => (regs.update(d as int, regs[s as int]), mem),
        Insn::MovImm(d, v) => (regs.update(d as int, v), mem),
        Insn::Ret => (regs, mem),
    }
}

/// The machine state after the instructions, run in order.
pub open spec fn insns_exec(is: Seq<Insn>, regs: Seq<usize>, mem: Seq<usize>) -> (Seq<usize>, Seq<usize>)
    decreases is.len(),
{
    if is.len() == 0 {
        (regs, mem)
    } else {
        let (r, m) = insns_exec(is.drop_last(), regs, mem);
        insn_exec(is.last(), r, m)
    }
}

/// The machine instruction an instruction of the language becomes.
pub open spec fn lower(op: Op) -> Insn {
    match op {
        Op::Add(d, s) => Insn::AddRR(d.host(), s.host()),
        Op::Neg(d) => Insn::NegR(d.host()),
        Op::Mov(d, s) => Insn::MovRR(d.host(), s.host()),
        Op::ImmMov(d, imm) => Insn::MovImm(d.host(), imm),
    }
}

/// The machine instructions emitted for `ops`: load the block, run, store it back, return.
pub open spec fn emitted(ops: Seq<Op>) -> Seq<Insn> {
    prologue() + ops.map_values(|op: Op| lower(op)) + epilogue()
}

/// The four words of a register block, in order.
pub open spec fn block(r: RegSet) -> Seq<usize> {
    seq![r.wa, r.wb, r.wc, r.wd]
}

/// The host registers hold the block's registers where the compiled code keeps them.
pub open spec fn mirrors(regs: Seq<usize>, r: RegSet) -> bool {
    &&& regs.len() == 8
    &&& regs[0] == r.wa
    &&& regs[1] == r.wb
    &&& regs[2] == r.wc
    &&& regs[6] == r.wd
}

proof fn lemma_insns_bytes_concat(a: Seq<Insn>, b: Seq<Insn>)
    ensures
        insns_bytes(a + b) == insns_bytes(a) + insns_bytes(b),
    decreases b.len(),
{
    if b.len() == 0 {
        assert(a + b =~= a);
        assert(insns_bytes(a) + insns_bytes(b) =~= insns_bytes(a));
    } else {
        assert((a + b).drop_last() =~= a + b.drop_last());
        lemma_insns_bytes_concat(a, b.drop_last());
        assert(insns_bytes(a + b) =~= insns_bytes(a) + insns_bytes(b));
    }
}

proof fn lemma_insns_exec_concat(a: Seq<Insn>, b: Seq<Insn>, regs: Seq<usize>, mem: Seq<usize>)
    ensures
        insns_exec(a + b, regs, mem) == insns_exec(b, insns_exec(a, regs, mem).0, insns_exec(a, regs, mem).1),
    decreases b.len(),
{
    if b.len() == 0 {
        assert(a + b =~= a);
    } else {
        assert((a + b).drop_last() =~= a + b.drop_last());
        lemma_insns_exec_concat(a, b.drop_last(), regs, mem);
    }
}

proof fn lemma_ops_bytes(ops: Seq<Op>)
    ensures
        ops_code(ops) == insns_bytes(ops.map_values(|op: Op| lower(op))),
    decreases ops.len(),
{
    let l = ops.map_values(|op: Op| lower(op));
    if ops.len() > 0 {
        lemma_ops_bytes(ops.drop_last());
        assert(l.drop_last() =~= ops.drop_last().map_values(|op: Op| lower(op)));
        let op = ops.last();
        assert(op_code(op) =~= insn_bytes(lower(op)));
    } else {
        assert(l.len() == 0);
    }
}

proof fn lemma_step_mirrors(op: Op, regs: Seq<usize>, mem: Seq<usize>, r: RegSet)
    requires
        mirrors(regs, r),
    ensures
        mirrors(insn_exec(lower(op), regs, mem).0, step(r, op)),
        insn_exec(lower(op), regs, mem).1 == mem,
{
}

proof fn lemma_ops_exec(ops: Seq<Op>, regs: Seq<usize>, mem: Seq<usize>, r: RegSet)
    requires
        mirrors(regs, r),
    ensures
        mirrors(insns_exec(ops.map_values(|op: Op| lower(op)), regs, mem).0, run_ops(r, ops)),
        insns_exec(ops.map_values(|op: Op| lower(op)), regs, mem).1 == mem,
    decreases ops.len(),
{
    let l = ops.map_values(|op: Op| lower(op));
    if ops.len() > 0 {
        let prev = ops.drop_last();
        lemma_ops_exec(prev, regs, mem, r);
        assert(l.drop_last() =~= prev.map_values(|op: Op| lower(op)));
        assert(l.last() == lower(ops.last()));
        let st = insns_exec(l.drop_last(), regs, mem);
        assert(insns_exec(l, regs, mem) == insn_exec(lower(ops.last()), st.0, st.1));
        lemma_step_mirrors(ops.last(), st.0, st.1, run_ops(r, prev));
    }
}

/// Loads of the four block words into the host registers that hold them.
pub open spec fn prologue() -> Seq<Insn> {
    seq![Insn::Load(0, 0), Insn::Load(1, 1), Insn::Load(2, 2), Insn::Load(6, 3)]
}

/// Stores of the four host registers back into the block, then the return.
pub open spec fn epilogue() -> Seq<Insn> {
    seq![Insn::Store(0, 0), Insn::Store(1, 1), Insn::Store(2, 2), Insn::Store(3, 6), Insn::Ret]
}

proof fn lemma_prologue(regs: Seq<usize>, r: RegSet)
    requires
        regs.len() == 8,
    ensures
        insns_exec(prologue(), regs, block(r)).1 == block(r),
        mirrors(insns_exec(prologue(), regs, block(r)).0, r),
{
    let w4 = prologue();
    let w3 = w4.drop_last();
    let w2 = w3.drop_last();
    let w1 = w2.drop_last();
    let w0 = w1.drop_last();
    let b = block(r);
    assert(w0.len() == 0);
    let s0 = insns_exec(w0, regs, b);
    assert(s0 == (regs, b));
    let s1 = insns_exec(w1, regs, b);
    assert(s1 == insn_exec(Insn::Load(0, 0), s0.0, s0.1));
    let s2 = insns_exec(w2, regs, b);
    assert(s2 == insn_exec(Insn::Load(1, 1), s1.0, s1.1));
    let s3 = insns_exec(w3, regs, b);
    assert(s3 == insn_exec(Insn::Load(2, 2), s2.0, s2.1));
    let s4 = insns_exec(w4, regs, b);
    assert(s4 == insn_exec(Insn::Load(6, 3), s3.0, s3.1));
}

proof fn lemma_epilogue(regs: Seq<usize>, mem: Seq<usize>, r: RegSet)
    requires
        mirrors(regs, r),
        mem.len() == 4,
    ensures
        insns_exec(epilogue(), regs, mem).1 == block(r),
{
    let w5 = epilogue();
    let w4 = w5.drop_last();
    let w3 = w4.drop_last();
    let w2 = w3.drop_last();
    let w1 = w2.drop_last();
    let w0 = w1.drop_last();
    assert(w0.len() == 0);
    let s0 = insns_exec(w0, regs, mem);
    assert(s0 == (regs, mem));
    let s1 = insns_exec(w1, regs, mem);
    assert(s1 == insn_exec(Insn::Store(0, 0), s0.0, s0.1));
    let s2 = insns_exec(w2, regs, mem);
    assert(s2 == insn_exec(Insn::Store(1, 1), s1.0, s1.1));
    let s3 = insns_exec(w3, regs, mem);
    assert(s3 == insn_exec(Insn::Store(2, 2), s2.0, s2.1));
    let s4 = insns_exec(w4, regs, mem);
    assert(s4 == insn_exec(Insn::Store(3, 6), s3.0, s3.1));
    let s5 = insns_exec(w5, regs, mem);
    assert(s5 == insn_exec(Insn::Ret, s4.0, s4.1));
    assert(s5.1 =~= block(r));
}

proof fn lemma_prologue_bytes()
    ensures
        insns_bytes(prologue()) == prelude(),
{
    let w4 = prologue();
    let w3 = w4.drop_last();
    let w2 = w3.drop_last();
    let w1 = w2.drop_last();
    let w0 = w1.drop_last();
    assert(w0.len() == 0);
    assert(insns_bytes(w0) == Seq::<u8>::empty());
    assert(insns_bytes(w1) == insns_bytes(w0) + insn_bytes(Insn::Load(0, 0)));
    assert(insns_bytes(w2) == insns_bytes(w1) + insn_bytes(Insn::Load(1, 1)));
    assert(insns_bytes(w3) == insns_bytes(w2) + insn_bytes(Insn::Load(2, 2)));
    assert(insns_bytes(w4) == insns_bytes(w3) + insn_bytes(Insn::Load(6, 3)));
    assert(insns_bytes(w4) =~= prelude());
}

proof fn lemma_epilogue_bytes()
    ensures
        insns_bytes(epilogue()) == postlude(),
{
    let w5 = epilogue();
    let w4 = w5.drop_last();
    let w3 = w4.drop_last();
    let w2 = w3.drop_last();
    let w1 = w2.drop_last();
    let w0 = w1.drop_last();
    assert(w0.len() == 0);
    assert(insns_bytes(w0) == Seq::<u8>::empty());
    assert(insns_bytes(w1) == insns_bytes(w0) + insn_bytes(Insn::Store(0, 0)));
    assert(insns_bytes(w2) == insns_bytes(w1) + insn_bytes(Insn::Store(1, 1)));
    assert(insns_bytes(w3) == insns_bytes(w2) + insn_bytes(Insn::Store(2, 2)));
    assert(insns_bytes(w4) == insns_bytes(w3) + insn_bytes(Insn::Store(3, 6)));
    assert(insns_bytes(w5) == insns_bytes(w4) + insn_bytes(Insn::Ret));
    assert(insns_bytes(w5) =~= postlude());
}

/// The compiled function does what the reference interpreter does: the bytes `encode`
/// emits are the x86-64 encodings of the instructions `emitted(ops)`, and those, run
/// on any host registers and the register block `r`, leave in the block exactly
/// `run_ops(r, ops)`.
pub proof fn law_compiled_matches_interpreter(ops: Seq<Op>, r: RegSet, regs: Seq<usize>)
    requires
        regs.len() == 8,
    ensures
        program(ops) == insns_bytes(emitted(ops)),
        insns_exec(emitted(ops), regs, block(r)).1 == block(run_ops(r, ops)),
{
    let body = ops.map_values(|op: Op| lower(op));
    assert(emitted(ops) == prologue() + body + epilogue());
    lemma_insns_bytes_concat(prologue() + body, epilogue());
    lemma_insns_bytes_concat(prologue(), body);
    lemma_ops_bytes(ops);
    lemma_prologue_bytes();
    lemma_epilogue_bytes();
    assert(program(ops) =~= insns_bytes(emitted(ops)));
    lemma_insns_exec_concat(prologue() + body, epilogue(), regs, block(r));
    lemma_insns_exec_concat(prologue(), body, regs, block(r));
    lemma_prologue(regs, r);
    let s1 = insns_exec(prologue(), regs, block(r));
    lemma_ops_exec(ops, s1.0, s1.1, r);
    let s2 = insns_exec(body, s1.0, s1.1);
    lemma_epilogue(s2.0, s2.1, run_ops(r, ops));
}

fn push_all(out: &mut Vec<u8>, bytes: &[u8])
    ensures
        final(out)@ == old(out)@ + bytes@,
{
    let mut i: usize = 0;
    while i < bytes.len()
        invariant
            i <= bytes.len(),
            out@ == old(out)@ + bytes@.subrange(0, i as int),
        decreases bytes.len() - i,
    {
        out.push(bytes[i]);
        proof {
            assert(bytes@.subrange(0, i + 1) =~= bytes@.subrange(0, i as int).push(bytes[i as int]));
        }
        i = i + 1;
    }
    proof {
        assert(bytes@.subrange(0, bytes.len() as int) =~= bytes@);
    }
}

fn push_le_bytes(out: &mut Vec<u8>, v: u64)
    ensures
        final(out)@ == old(out)@ + le_bytes(v as nat, 8),
{
    let mut rest: u64 = v;
    let mut k: u64 = 0;
    while k < 8
        invariant
            k <= 8,
            old(out)@ + le_bytes(v as nat, 8) == out@ + le_bytes(rest as nat, (8 - k) as nat),
        decreases 8 - k,
    {
        proof {
            let n = (8 - k) as nat;
            assert(le_bytes(rest as nat, n) == seq![(rest as nat % 256) as u8] + le_bytes(
                rest as nat / 256,
                (n - 1) as nat,
            ));
        }
        out.push((rest % 256) as u8);
        proof {
            assert(out@ + le_bytes((rest / 256) as nat, (8 - (k + 1)) as nat) =~= old(out)@
                + le_bytes(v as nat, 8));
        }
        rest = rest / 256;
        k = k + 1;
    }
    proof {
        assert(out@ + le_bytes(rest as nat, 0) =~= out@);
    }
}

/// Appends the machine code of one instruction.
fn encode_op(out: &mut Vec<u8>, op: &Op)
    ensures
        final(out)@ == old(out)@ + op_code(*op),
{
    match op {
        Op::Add(d, s) => {
            let m = 0xC0u8 + s.to_dynreg() * 8 + d.to_dynreg();
            push_all(out, &[0x48u8, 0x01, m]);
            proof {
                assert(seq![0x48u8, 0x01, m] =~= op_code(*op));
            }
        },
        Op::Neg(d) => {
            let m = 0xD8u8 + d.to_dynreg();
            push_all(out, &[0x48u8, 0xF7, m]);
            proof {
                assert(seq![0x48u8, 0xF7, m] =~= op_code(*op));
            }
        },
        Op::Mov(d, s) => {
            let m = 0xC0u8 + s.to_dynreg() * 8 + d.to_dynreg();
            push_all(out, &[0x48u8, 0x89, m]);
            proof {
                assert(seq![0x48u8, 0x89, m] =~= op_code(*op));
            }
        },
        Op::ImmMov(d, imm) => {
            let b = 0xB8u8 + d.to_dynreg();
            push_all(out, &[0x48u8, b]);
            push_le_bytes(out, *imm as u64);
            proof {
                assert(seq![0x48u8, b] + le_bytes(*imm as u64 as nat, 8) =~= op_code(*op));
            }
        },
    }
}

/// The machine code of a function that takes a pointer to a register block, runs `ast`
/// on the four registers, and stores them back.
pub fn encode(ast: &[Op]) -> (r: Vec<u8>)
    ensures
        r@ == program(ast@),
{
    let mut out: Vec<u8> = Vec::new();
    push_all(
        &mut out,
        &[0x48u8, 0x8B, 0x07, 0x48, 0x8B, 0x4F, 0x08, 0x48, 0x8B, 0x57, 0x10, 0x48, 0x8B, 0x77, 0x18],
    );
    proof {
        assert(out@ =~= prelude());
    }
    let mut i: usize = 0;
    while i < ast.len()
        invariant
            i <= ast.len(),
            out@ == prelude() + ops_code(ast@.subrange(0, i as int)),
        decreases ast.len() - i,
    {
        encode_op(&mut out, &ast[i]);
        proof {
            let s = ast@.subrange(0, i + 1);
            assert(s.drop_last() =~= ast@.subrange(0, i as int));
            assert(out@ =~= prelude() + ops_code(s));
        }
        i = i + 1;
    }
    push_all(
        &mut out,
        &[0x48u8, 0x89, 0x07, 0x48, 0x89, 0x4F, 0x08, 0x48, 0x89, 0x57, 0x10, 0x48, 0x89, 0x77, 0x18, 0xC3],
    );
    proof {
        assert(ast@.subrange(0, ast.len() as int) =~= ast@);
        assert(out@ =~= program(ast@));
    }
    out
}

/// Runs `ast` on `regs` the way the emitted function does, in place.
pub fn interpret(ast: &[Op], regs: &mut RegSet)
    ensures
        *final(regs) == run_ops(*old(regs), ast@),
{
    let mut i: usize = 0;
    while i < ast.len()
        invariant
            i <= ast.len(),
            *regs == run_ops(*old(regs), ast@.subrange(0, i as int)),
        decreases ast.len() - i,
    {
        proof {
            assert(ast@.subrange(0, i + 1).drop_last() =~= ast@.subrange(0, i as int));
        }
        match &ast[i] {
            Op::Add(d, s) => {
                let a = regs.get(*d);
                let b = regs.get(*s);
                let v = if a <= usize::MAX - b {
                    a + b
                } else {
                    a - (usize::MAX - b) - 1
                };
                regs.set(*d, v);
            },
            Op::Neg(d) => {
                let a = regs.get(*d);
                let v = if a == 0 {
                    0
                } else {
                    usize::MAX - a + 1
                };
                regs.set(*d, v);
            },
            Op::Mov(d, s) => {
                let b = regs.get(*s);
                regs.set(*d, b);
            },
            Op::ImmMov(d, imm) => {
                regs.set(*d, *imm);
            },
        }
        i = i + 1;
    }
    proof {
        assert(ast@.subrange(0, ast.len() as int) =~= ast@);
    }
}

/// The bytes an executable buffer holds (what it dereferences to).
pub uninterp spec fn image(b: ExecutableBuffer) -> Seq<u8>;

/// An x86-64 assembler of dynasmrt, whose type Verus cannot declare (its parameter is
/// bound by an outside trait); only the wrappers below touch it.
#[verifier::external_body]
pub struct Staging {
    inner: dynasmrt::x64::Assembler,
}

/// Everything an assembler holds so far, committed or not.
pub uninterp spec fn staged(a: Staging) -> Seq<u8>;

/// Relies on dynasmrt's `Assembler::new`: a new assembler holds nothing; a failure to
/// map its first page (an `io::Error`) comes back as `None`.
#[verifier::external_body]
fn new_assembler() -> (r: Option<Staging>)
    ensures
        r matches Some(a) ==> staged(a) == Seq::<u8>::empty(),
{
    dynasmrt::x64::Assembler::new().ok().map(|inner| Staging { inner })
}

/// Relies on dynasmrt's `Extend<&u8>` for `Assembler`: the bytes are appended to what
/// the assembler holds.
#[verifier::external_body]
fn stage(a: &mut Staging, code: &Vec<u8>)
    ensures
        staged(*final(a)) == staged(*old(a)) + code@,
{
    a.inner.extend(code.iter());
}

/// Relies on dynasmrt's `Assembler::finalize`: it commits what the assembler holds (no
/// labels or relocations are ever used here, so no relocation error arises) and hands
/// back the buffer, which dereferences to exactly those bytes. It hands back `None`
/// only while another reader of the buffer is alive, which none is here; should the
/// host refuse to grow or protect the mapping, dynasmrt's commit panics.
#[verifier::external_body]
fn finish(a: Staging) -> (r: Option<ExecutableBuffer>)
    ensures
        r matches Some(b) ==> image(b) == staged(a),
{
    a.inner.finalize().ok()
}

/// The bytes of `code` in executable memory; `None` when the host refuses it.
fn assemble(code: &Vec<u8>) -> (r: Option<ExecutableBuffer>)
    ensures
        r matches Some(b) ==> image(b) == code@,
{
    let mut a = match new_assembler() {
        Some(a) => a,
        None => return None,
    };
    stage(&mut a, code);
    proof {
        assert(staged(a) =~= code@);
    }
    finish(a)
}

/// Compiles `ast` into an executable function over a register block (see `encode` and
/// `law_compiled_matches_interpreter`); `None` when the host refuses executable memory.
pub fn compile(ast: &[Op]) -> (r: Option<ExecutableBuffer>)
    ensures
        r matches Some(b) ==> image(b) == program(ast@),
{
    let code = encode(ast);
    assemble(&code)
}

} // verus!
