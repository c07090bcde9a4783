//! Effect device identifiers and the capability wrapper that gates access to a device.
use std::collections::HashSet;
use vstd::prelude::*;
use vstd::std_specs::convert::FromSpec;
use vstd::string::*;

verus! {

broadcast use vstd::std_specs::hash::group_hash_axioms;

/// Payloads are strictly below this bound: the two top bits of a token hold its kind.
pub const PAYLOAD_LIMIT: u64 = 0x4000_0000_0000_0000;

/// The low 62 bits of a token.
pub const PAYLOAD_MASK: u64 = 0x3FFF_FFFF_FFFF_FFFF;

/// Kind tag (the value of the two top bits) of a process identifier.
pub const TAG_PID: u64 = 0;

/// Kind tag of a file identifier.
pub const TAG_FD: u64 = 1;

/// Kind tag of a channel identifier.
pub const TAG_CHD: u64 = 2;

/// Kind tag of an event identifier.
pub const TAG_EVD: u64 = 3;

/// One handler per kind of device; `Edi::kind` calls exactly one of them.
#[derive(Debug, Clone)]
pub struct Match<P, F, C, E> {
    pub pid: P,
    pub fd: F,
    pub chd: C,
    pub evd: E,
}

/// An effect device identifier: a 2-bit kind tag over a 62-bit payload.
#[derive(Debug, Clone, Copy, PartialEq, Eq, Hash, PartialOrd, Ord)]
pub struct Edi(pub(crate) u64);

/// A process identifier.
#[derive(Debug, Clone, Copy, PartialEq, Eq, Hash, PartialOrd, Ord)]
pub struct Pid(pub(crate) u64);

/// A file identifier.
#[derive(Debug, Clone, Copy, PartialEq, Eq, Hash, PartialOrd, Ord)]
pub struct Fd(pub(crate) u64);

/// A channel identifier.
#[derive(Debug, Clone, Copy, PartialEq, Eq, Hash, PartialOrd, Ord)]
pub struct Chd(pub(crate) u64);

/// An event identifier.
#[derive(Debug, Clone, Copy, PartialEq, Eq, Hash, PartialOrd, Ord)]
pub struct Evd(pub(crate) u64);

/// The ten decimal digits, in order.
pub open spec fn digit_chars() -> Seq<char> {
    seq!['0', '1', '2', '3', '4', '5', '6', '7', '8', '9']
}

/// Decimal notation of `n`: most significant digit first, no sign and no padding.
pub open spec fn decimal(n: nat) -> Seq<char>
    decreases n,
{
    if n < 10 {
        seq![digit_chars()[n as int]]
    } else {
        decimal(n / 10).push(digit_chars()[(n % 10) as int])
    }
}

/// The decimal digit `d`, as text.
fn digit_str(d: u64) -> (r: &'static str)
    requires
        d < 10,
    ensures
        r@ == seq![digit_chars()[d as int]],
{
    if d == 0 {
        proof {
            reveal_strlit("0");
        }
        "0"
    } else if d == 1 {
        proof {
            reveal_strlit("1");
        }
        "1"
    } else if d == 2 {
        proof {
            reveal_strlit("2");
        }
        "2"
    } else if d == 3 {
        proof {
            reveal_strlit("3");
        }
        "3"
    } else if d == 4 {
        proof {
            reveal_strlit("4");
        }
        "4"
    } else if d == 5 {
        proof {
            reveal_strlit("5");
        }
        "5"
    } else if d == 6 {
        proof {
            reveal_strlit("6");
        }
        "6"
    } else if d == 7 {
        proof {
            reveal_strlit("7");
        }
        "7"
    } else if d == 8 {
        proof {
            reveal_strlit("8");
        }
        "8"
    } else {
        proof {
            reveal_strlit("9");
        }
        "9"
    }
}

/// Appends the decimal notation of `n` to `s`.
fn push_decimal(s: &mut String, n: u64)
    ensures
        final(s)@ == old(s)@ + decimal(n as nat),
    decreases n,
{
    if n >= 10 {
        push_decimal(s, n / 10);
    }
    s.append(digit_str(n % 10));
    proof {
        if n >= 10 {
            assert(decimal(n as nat) == decimal((n / 10) as nat).push(digit_chars()[(n % 10) as int]));
        }
        assert(final(s)@ =~= old(s)@ + decimal(n as nat));
    }
}

/// The decimal notation of `n`.
fn decimal_string(n: u64) -> (r: String)
    ensures
        r@ == decimal(n as nat),
{
    let mut s = String::new();
    push_decimal(&mut s, n);
    proof {
        assert(s@ =~= decimal(n as nat));
    }
    s
}

impl Pid {
    /// Payload of the kernel process, which every device permits.
    pub const KERNEL_ID: u64 = 0;

    /// The kernel process.
    pub fn kernel() -> (r: Pid)
        ensures
            r.id() == Pid::KERNEL_ID,
    {
        Pid(Pid::KERNEL_ID)
    }

    #[verifier::type_invariant]
    spec fn fits(self) -> bool {
        self.0 < PAYLOAD_LIMIT
    }

    /// The payload this identifier carries.
    pub open(crate) spec fn id(self) -> u64 {
        self.0
    }

    /// Whether the payload leaves the two top bits clear, as every value of the type does.
    pub open(crate) spec fn wf(self) -> bool {
        self.0 < PAYLOAD_LIMIT
    }

    /// The identifier carrying payload `v`.
    pub open(crate) spec fn of(v: u64) -> Pid {
        Pid(v)
    }

    /// Text of this identifier: `"pid@"` followed by the payload in decimal.
    pub open(crate) spec fn text(self) -> Seq<char> {
        seq!['p', 'i', 'd', '@'] + decimal(self.0 as nat)
    }

    /// The process identifier with payload `v`.
    pub fn new(v: u64) -> (r: Pid)
        requires
            v < PAYLOAD_LIMIT,
        ensures
            r.id() == v,
    {
        Pid(v)
    }

    /// The payload of this identifier.
    pub fn raw(self) -> (r: u64)
        ensures
            r == self.id(),
            r < PAYLOAD_LIMIT,
    {
        proof {
            use_type_invariant(&self);
        }
        self.0
    }

    /// Formats this identifier as `pid@N`.
    pub fn describe(&self) -> (r: String)
        ensures
            r@ == self.text(),
    {
        let mut s = String::from_str("pid@");
        let n = decimal_string(self.0);
        s.append(n.as_str());
        proof {
            reveal_strlit("pid@");
            assert(s@ =~= self.text());
        }
        s
    }
}

impl Fd {
    /// Payload of the standard input file.
    pub const STDIN_ID: u64 = 0;

    /// Payload of the standard output file.
    pub const STDOUT_ID: u64 = 1;

    /// Payload of the standard error file.
    pub const STDERR_ID: u64 = 2;

    #[verifier::type_invariant]
    spec fn fits(self) -> bool {
        self.0 < PAYLOAD_LIMIT
    }

    /// The payload this identifier carries.
    pub open(crate) spec fn id(self) -> u64 {
        self.0
    }

    /// Whether the payload leaves the two top bits clear, as every value of the type does.
    pub open(crate) spec fn wf(self) -> bool {
        self.0 < PAYLOAD_LIMIT
    }

    /// The identifier carrying payload `v`.
    pub open(crate) spec fn of(v: u64) -> Fd {
        Fd(v)
    }

    /// Text of this identifier: `"file@"` followed by the payload in decimal.
    pub open(crate) spec fn text(self) -> Seq<char> {
        seq!['f', 'i', 'l', 'e', '@'] + decimal(self.0 as nat)
    }

    /// The file identifier with payload `v`.
    pub fn new(v: u64) -> (r: Fd)
        requires
            v < PAYLOAD_LIMIT,
        ensures
            r.id() == v,
    {
        Fd(v)
    }

    /// The payload of this identifier.
    pub fn raw(self) -> (r: u64)
        ensures
            r == self.id(),
            r < PAYLOAD_LIMIT,
    {
        proof {
            use_type_invariant(&self);
        }
        self.0
    }

    /// Formats this identifier as `file@N`.
    pub fn describe(&self) -> (r: String)
        ensures
            r@ == self.text(),
    {
        let mut s = String::from_str("file@");
        let n = decimal_string(self.0);
        s.append(n.as_str());
        proof {
            reveal_strlit("file@");
            assert(s@ =~= self.text());
        }
        s
    }
}

impl Chd {
    #[verifier::type_invariant]
    spec fn fits(self) -> bool {
        self.0 < PAYLOAD_LIMIT
    }

    /// The payload this identifier carries.
    pub open(crate) spec fn id(self) -> u64 {
        self.0
    }

    /// Whether the payload leaves the two top bits clear, as every value of the type does.
    pub open(crate) spec fn wf(self) -> bool {
        self.0 < PAYLOAD_LIMIT
    }

    /// The identifier carrying payload `v`.
    pub open(crate) spec fn of(v: u64) -> Chd {
        Chd(v)
    }

    /// Text of this identifier: `"channel@"` followed by the payload in decimal.
    pub open(crate) spec fn text(self) -> Seq<char> {
        seq!['c', 'h', 'a', 'n', 'n', 'e', 'l', '@'] + decimal(self.0 as nat)
    }

    /// The channel identifier with payload `v`.
    pub fn new(v: u64) -> (r: Chd)
        requires
            v < PAYLOAD_LIMIT,
        ensures
            r.id() == v,
    {
        Chd(v)
    }

    /// The payload of this identifier.
    pub fn raw(self) -> (r: u64)
        ensures
            r == self.id(),
            r < PAYLOAD_LIMIT,
    {
        proof {
            use_type_invariant(&self);
        }
        self.0
    }

    /// Formats this identifier as `channel@N`.
    pub fn describe(&self) -> (r: String)
        ensures
            r@ == self.text(),
    {
        let mut s = String::from_str("channel@");
        let n = decimal_string(self.0);
        s.append(n.as_str());
        proof {
            reveal_strlit("channel@");
            assert(s@ =~= self.text());
        }
        s
    }
}

impl Evd {
    #[verifier::type_invariant]
    spec fn fits(self) -> bool {
        self.0 < PAYLOAD_LIMIT
    }

    /// The payload this identifier carries.
    pub open(crate) spec fn id(self) -> u64 {
        self.0
    }

    /// Whether the payload leaves the two top bits clear, as every value of the type does.
    pub open(crate) spec fn wf(self) -> bool {
        self.0 < PAYLOAD_LIMIT
    }

    /// The identifier carrying payload `v`.
    pub open(crate) spec fn of(v: u64) -> Evd {
        Evd(v)
    }

    /// Text of this identifier: `"event@"` followed by the payload in decimal.
    pub open(crate) spec fn text(self) -> Seq<char> {
        seq!['e', 'v', 'e', 'n', 't', '@'] + decimal(self.0 as nat)
    }

    /// The event identifier with payload `v`.
    pub fn new(v: u64) -> (r: Evd)
        requires
            v < PAYLOAD_LIMIT,
        ensures
            r.id() == v,
    {
        Evd(v)
    }

    /// The payload of this identifier.
    pub fn raw(self) -> (r: u64)
        ensures
            r == self.id(),
            r < PAYLOAD_LIMIT,
    {
        proof {
            use_type_invariant(&self);
        }
        self.0
    }

    /// Formats this identifier as `event@N`.
    pub fn describe(&self) -> (r: String)
        ensures
            r@ == self.text(),
    {
        let mut s = String::from_str("event@");
        let n = decimal_string(self.0);
        s.append(n.as_str());
        proof {
            reveal_strlit("event@");
            assert(s@ =~= self.text());
        }
        s
    }
}

/// The token whose two top bits are `tag` and whose other bits are `payload`.
pub open spec fn pack(tag: u64, payload: u64) -> u64 {
    (tag << 62u64) | payload
}

proof fn lemma_pack(tag: u64, payload: u64)
    requires
        tag < 4,
        payload < 0x4000_0000_0000_0000,
    ensures
        pack(tag, payload) >> 62u64 == tag,
        pack(tag, payload) & 0x3FFF_FFFF_FFFF_FFFFu64 == payload,
{
    assert(((tag << 62u64) | payload) >> 62u64 == tag) by (bit_vector)
        requires
            tag < 4,
            payload < 0x4000_0000_0000_0000,
    ;
    assert(((tag << 62u64) | payload) & 0x3FFF_FFFF_FFFF_FFFFu64 == payload) by (bit_vector)
        requires
            tag < 4,
            payload < 0x4000_0000_0000_0000,
    ;
}

proof fn lemma_unpack(raw: u64)
    ensures
        raw >> 62u64 < 4,
        raw & 0x3FFF_FFFF_FFFF_FFFFu64 < 0x4000_0000_0000_0000,
        pack(raw >> 62u64, raw & 0x3FFF_FFFF_FFFF_FFFFu64) == raw,
{
    assert(raw >> 62u64 < 4) by (bit_vector);
    assert(raw & 0x3FFF_FFFF_FFFF_FFFFu64 < 0x4000_0000_0000_0000) by (bit_vector);
    assert((((raw >> 62u64) << 62u64) | (raw & 0x3FFF_FFFF_FFFF_FFFFu64)) == raw) by (bit_vector);
}

fn pack_exec(tag: u64, payload: u64) -> (r: u64)
    requires
        tag < 4,
        payload < PAYLOAD_LIMIT,
    ensures
        r == pack(tag, payload),
        r >> 62u64 == tag,
        r & PAYLOAD_MASK == payload,
{
    proof {
        lemma_pack(tag, payload);
    }
    (tag << 62u64) | payload
}

impl Edi {
    /// The two top bits set: the kind part of a token.
    pub const MASK: u64 = 0xC000_0000_0000_0000;

    /// Kind part of a process identifier.
    pub const PID: u64 = 0x0000_0000_0000_0000;

    /// Kind part of a file identifier.
    pub const FD: u64 = 0x4000_0000_0000_0000;

    /// Kind part of a channel identifier.
    pub const CHD: u64 = 0x8000_0000_0000_0000;

    /// Kind part of an event identifier.
    pub const EVD: u64 = 0xC000_0000_0000_0000;

    /// The raw 64-bit token.
    pub open(crate) spec fn token(self) -> u64 {
        self.0
    }

    /// The kind tag: 0 process, 1 file, 2 channel, 3 event.
    pub open(crate) spec fn tag(self) -> u64 {
        self.0 >> 62u64
    }

    /// The payload: the token without its kind tag.
    pub open(crate) spec fn payload(self) -> u64 {
        self.0 & PAYLOAD_MASK
    }

    /// The identifier with kind tag `tag` and payload `payload`.
    pub open(crate) spec fn from_parts(tag: u64, payload: u64) -> Edi {
        Edi(pack(tag, payload))
    }

    /// Text of this identifier: `"effect "` followed by the text of the typed identifier.
    pub open(crate) spec fn text(self) -> Seq<char> {
        seq!['e', 'f', 'f', 'e', 'c', 't', ' '] + if self.tag() == TAG_PID {
            Pid::of(self.payload()).text()
        } else if self.tag() == TAG_FD {
            Fd::of(self.payload()).text()
        } else if self.tag() == TAG_CHD {
            Chd::of(self.payload()).text()
        } else {
            Evd::of(self.payload()).text()
        }
    }

    /// Calls the handler of this identifier's kind on its payload, and no other.
    pub fn kind<P, F, C, E, T>(self, mat: Match<P, F, C, E>) -> (r: T) where
        P: FnOnce(Pid) -> T,
        F: FnOnce(Fd) -> T,
        C: FnOnce(Chd) -> T,
        E: FnOnce(Evd) -> T,

        requires
            self.tag() == TAG_PID ==> mat.pid.requires((Pid::of(self.payload()),)),
            self.tag() == TAG_FD ==> mat.fd.requires((Fd::of(self.payload()),)),
            self.tag() == TAG_CHD ==> mat.chd.requires((Chd::of(self.payload()),)),
            self.tag() == TAG_EVD ==> mat.evd.requires((Evd::of(self.payload()),)),
        ensures
            self.tag() == TAG_PID ==> mat.pid.ensures((Pid::of(self.payload()),), r),
            self.tag() == TAG_FD ==> mat.fd.ensures((Fd::of(self.payload()),), r),
            self.tag() == TAG_CHD ==> mat.chd.ensures((Chd::of(self.payload()),), r),
            self.tag() == TAG_EVD ==> mat.evd.ensures((Evd::of(self.payload()),), r),
    {
        proof {
            lemma_unpack(self.0);
        }
        let tag = self.0 >> 62u64;
        let payload = self.0 & PAYLOAD_MASK;
        if tag == TAG_PID {
            (mat.pid)(Pid(payload))
        } else if tag == TAG_FD {
            (mat.fd)(Fd(payload))
        } else if tag == TAG_CHD {
            (mat.chd)(Chd(payload))
        } else {
            (mat.evd)(Evd(payload))
        }
    }

    /// Formats this identifier as `effect ` followed by its typed form (`file@65`).
    pub fn describe(&self) -> (r: String)
        ensures
            r@ == self.text(),
    {
        proof {
            lemma_unpack(self.0);
        }
        let tag = self.0 >> 62u64;
        let payload = self.0 & PAYLOAD_MASK;
        let inner = if tag == TAG_PID {
            Pid(payload).describe()
        } else if tag == TAG_FD {
            Fd(payload).describe()
        } else if tag == TAG_CHD {
            Chd(payload).describe()
        } else {
            Evd(payload).describe()
        };
        let mut s = String::from_str("effect ");
        s.append(inner.as_str());
        proof {
            reveal_strlit("effect ");
        }
        s
    }
}

impl From<Pid> for Edi {
    fn from(id: Pid) -> (r: Edi) {
        proof {
            use_type_invariant(&id);
        }
        Edi(pack_exec(TAG_PID, id.0))
    }
}

impl vstd::std_specs::convert::FromSpecImpl<Pid> for Edi {
    open spec fn obeys_from_spec() -> bool {
        true
    }

    open spec fn from_spec(v: Pid) -> Edi {
        Edi::from_parts(TAG_PID, v.id())
    }
}

impl From<Edi> for Option<Pid> {
    fn from(e: Edi) -> (r: Option<Pid>) {
        proof {
            lemma_unpack(e.0);
        }
        if e.0 >> 62u64 == TAG_PID {
            Some(Pid(e.0 & PAYLOAD_MASK))
        } else {
            None
        }
    }
}

impl vstd::std_specs::convert::FromSpecImpl<Edi> for Option<Pid> {
    open spec fn obeys_from_spec() -> bool {
        true
    }

    open spec fn from_spec(e: Edi) -> Option<Pid> {
        if e.tag() == TAG_PID {
            Some(Pid::of(e.payload()))
        } else {
            None
        }
    }
}

impl From<Fd> for Edi {
    fn from(id: Fd) -> (r: Edi) {
        proof {
            use_type_invariant(&id);
        }
        Edi(pack_exec(TAG_FD, id.0))
    }
}

impl vstd::std_specs::convert::FromSpecImpl<Fd> for Edi {
    open spec fn obeys_from_spec() -> bool {
        true
    }

    open spec fn from_spec(v: Fd) -> Edi {
        Edi::from_parts(TAG_FD, v.id())
    }
}

impl From<Edi> for Option<Fd> {
    fn from(e: Edi) -> (r: Option<Fd>) {
        proof {
            lemma_unpack(e.0);
        }
        if e.0 >> 62u64 == TAG_FD {
            Some(Fd(e.0 & PAYLOAD_MASK))
        } else {
            None
        }
    }
}

impl vstd::std_specs::convert::FromSpecImpl<Edi> for Option<Fd> {
    open spec fn obeys_from_spec() -> bool {
        true
    }

    open spec fn from_spec(e: Edi) -> Option<Fd> {
        if e.tag() == TAG_FD {
            Some(Fd::of(e.payload()))
        } else {
            None
        }
    }
}

impl From<Chd> for Edi {
    fn from(id: Chd) -> (r: Edi) {
        proof {
            use_type_invariant(&id);
        }
        Edi(pack_exec(TAG_CHD, id.0))
    }
}

impl vstd::std_specs::convert::FromSpecImpl<Chd> for Edi {
    open spec fn obeys_from_spec() -> bool {
        true
    }

    open spec fn from_spec(v: Chd) -> Edi {
        Edi::from_parts(TAG_CHD, v.id())
    }
}

impl From<Edi> for Option<Chd> {
    fn from(e: Edi) -> (r: Option<Chd>) {
        proof {
            lemma_unpack(e.0);
        }
        if e.0 >> 62u64 == TAG_CHD {
            Some(Chd(e.0 & PAYLOAD_MASK))
        } else {
            None
        }
    }
}

impl vstd::std_specs::convert::FromSpecImpl<Edi> for Option<Chd> {
    open spec fn obeys_from_spec() -> bool {
        true
    }

    open spec fn from_spec(e: Edi) -> Option<Chd> {
        if e.tag() == TAG_CHD {
            Some(Chd::of(e.payload()))
        } else {
            None
        }
    }
}

impl From<Evd> for Edi {
    fn from(id: Evd) -> (r: Edi) {
        proof {
            use_type_invariant(&id);
        }
        Edi(pack_exec(TAG_EVD, id.0))
    }
}

impl vstd::std_specs::convert::FromSpecImpl<Evd> for Edi {
    open spec fn obeys_from_spec() -> bool {
        true
    }

    open spec fn from_spec(v: Evd) -> Edi {
        Edi::from_parts(TAG_EVD, v.id())
    }
}

impl From<Edi> for Option<Evd> {
    fn from(e: Edi) -> (r: Option<Evd>) {
        proof {
            lemma_unpack(e.0);
        }
        if e.0 >> 62u64 == TAG_EVD {
            Some(Evd(e.0 & PAYLOAD_MASK))
        } else {
            None
        }
    }
}

impl vstd::std_specs::convert::FromSpecImpl<Edi> for Option<Evd> {
    open spec fn obeys_from_spec() -> bool {
        true
    }

    open spec fn from_spec(e: Edi) -> Option<Evd> {
        if e.tag() == TAG_EVD {
            Some(Evd::of(e.payload()))
        } else {
            None
        }
    }
}

/// A device together with the set of processes permitted to reach it.
/// The kernel process is permitted whatever the set holds, and the set only grows.
#[derive(Debug)]
pub struct Ed<T> {
    pub(crate) dev: T,
    pub(crate) perms: HashSet<u64>,
}

impl<T> Ed<T> {
    /// The wrapped device.
    pub open(crate) spec fn device(&self) -> T {
        self.dev
    }

    /// Payloads of the processes granted access (the kernel is not listed).
    pub open(crate) spec fn perm_set(&self) -> Set<u64> {
        self.perms@
    }

    /// Whether process `p` may reach the device.
    pub open(crate) spec fn permits(&self, p: Pid) -> bool {
        permitted_by(self.perm_set(), p)
    }

    /// The device, if `accessor` is permitted.
    pub fn access(&self, accessor: Pid) -> (r: Option<&T>)
        ensures
            match r {
                Some(d) => self.permits(accessor) && *d == self.device(),
                None => !self.permits(accessor),
            },
    {
        if self.is_allowed(accessor) {
            Some(&self.dev)
        } else {
            None
        }
    }

    /// Grants `new_acc` access, on behalf of `accessor`; the grant happens, and `true`
    /// comes back, exactly when `accessor` is itself permitted.
    pub fn allow(&mut self, accessor: Pid, new_acc: Pid) -> (r: bool)
        ensures
            r == old(self).permits(accessor),
            final(self).device() == old(self).device(),
            final(self).perm_set() == grant_step(old(self).perm_set(), accessor, new_acc),
    {
        let allowed = self.is_allowed(accessor);
        if allowed {
            self.perms.insert(new_acc.raw());
        }
        allowed
    }

    /// Whether `accessor` is permitted.
    pub fn is_allowed(&self, accessor: Pid) -> (r: bool)
        ensures
            r == self.permits(accessor),
    {
        let id = accessor.raw();
        id == Pid::KERNEL_ID || self.perms.contains(&id)
    }

    /// Wraps `dev`, permitting the processes of `perms`.
    pub fn from_perms(dev: T, perms: Vec<Pid>) -> (r: Self)
        ensures
            r.device() == dev,
            r.perm_set() == perms@.map_values(|p: Pid| p.id()).to_set(),
    {
        let mut set: HashSet<u64> = HashSet::new();
        let mut i: usize = 0;
        while i < perms.len()
            invariant
                i <= perms.len(),
                set@ == perms@.subrange(0, i as int).map_values(|p: Pid| p.id()).to_set(),
            decreases perms.len() - i,
        {
            let id = perms[i].raw();
            set.insert(id);
            proof {
                let pre = perms@.subrange(0, i as int).map_values(|p: Pid| p.id());
                let post = perms@.subrange(0, i + 1).map_values(|p: Pid| p.id());
                assert(post =~= pre.push(id));
                pre.lemma_push_to_set_commute(id);
            }
            i = i + 1;
        }
        proof {
            assert(perms@.subrange(0, perms.len() as int) =~= perms@);
        }
        Ed { dev, perms: set }
    }

    /// Wraps `dev`, permitting the kernel alone.
    pub fn new(dev: T) -> (r: Self)
        ensures
            r.device() == dev,
            r.perm_set() == Set::<u64>::empty(),
    {
        Ed { dev, perms: HashSet::new() }
    }
}

/// Every token splits into a kind tag and a payload that rebuild it, and every typed
/// identifier comes back unchanged, under its own kind only, from the token it makes.
pub proof fn law_edi_round_trip(e: Edi, p: Pid, f: Fd, c: Chd, v: Evd)
    requires
        p.wf(),
        f.wf(),
        c.wf(),
        v.wf(),
    ensures
        e.tag() < 4,
        e.payload() < PAYLOAD_LIMIT,
        Edi::from_parts(e.tag(), e.payload()) == e,
        Option::<Pid>::from_spec(Edi::from_spec(p)) == Some(p),
        Option::<Fd>::from_spec(Edi::from_spec(f)) == Some(f),
        Option::<Chd>::from_spec(Edi::from_spec(c)) == Some(c),
        Option::<Evd>::from_spec(Edi::from_spec(v)) == Some(v),
        Option::<Fd>::from_spec(Edi::from_spec(p)) is None,
        Option::<Pid>::from_spec(Edi::from_spec(f)) is None,
        Option::<Evd>::from_spec(Edi::from_spec(c)) is None,
        Option::<Chd>::from_spec(Edi::from_spec(v)) is None,
{
    lemma_unpack(e.0);
    lemma_pack(TAG_PID, p.0);
    lemma_pack(TAG_FD, f.0);
    lemma_pack(TAG_CHD, c.0);
    lemma_pack(TAG_EVD, v.0);
}

/// Whether `p` is permitted by the permission set `perms`.
pub open spec fn permitted_by(perms: Set<u64>, p: Pid) -> bool {
    p.id() == Pid::KERNEL_ID || perms.contains(p.id())
}

/// The permission set after `accessor` asks to let `new_acc` in: `new_acc` is added
/// exactly when `accessor` is permitted.
pub open spec fn grant_step(perms: Set<u64>, accessor: Pid, new_acc: Pid) -> Set<u64> {
    if permitted_by(perms, accessor) {
        perms.insert(new_acc.id())
    } else {
        perms
    }
}

/// The permission set after the grants `(accessor, new_acc)`, asked in order.
pub open spec fn grants_applied(perms: Set<u64>, grants: Seq<(Pid, Pid)>) -> Set<u64>
    decreases grants.len(),
{
    if grants.len() == 0 {
        perms
    } else {
        grant_step(grants_applied(perms, grants.drop_last()), grants.last().0, grants.last().1)
    }
}

/// Grant `i` of `grants` let `q` in: it named `q`, and its accessor was permitted then.
pub open spec fn granted_by(initial: Set<u64>, grants: Seq<(Pid, Pid)>, i: int, q: Pid) -> bool {
    &&& 0 <= i < grants.len()
    &&& grants[i].1.id() == q.id()
    &&& permitted_by(grants_applied(initial, grants.subrange(0, i)), grants[i].0)
}

/// A process other than the kernel reaches a device exactly when it was placed in the
/// device's permission set: when the device was wrapped with `initial` (`Ed::new`,
/// `Ed::from_perms`) and then asked the grants `grants` in order (`Ed::allow`, one
/// `grant_step` each), `q` is permitted exactly when it was in `initial` or some grant
/// that succeeded when asked let it in.
pub proof fn law_access_iff_granted(initial: Set<u64>, grants: Seq<(Pid, Pid)>, q: Pid)
    requires
        q.id() != Pid::KERNEL_ID,
    ensures
        permitted_by(grants_applied(initial, grants), q) <==> (initial.contains(q.id()) || exists|i: int|
            granted_by(initial, grants, i, q)),
    decreases grants.len(),
{
    if grants.len() > 0 {
        let prev = grants.drop_last();
        let k = grants.len() - 1;
        law_access_iff_granted(initial, prev, q);
        assert(grants.subrange(0, k) =~= prev);
        assert forall|i: int| 0 <= i < k implies (#[trigger] granted_by(initial, grants, i, q) <==> granted_by(
            initial,
            prev,
            i,
            q,
        )) by {
            assert(grants.subrange(0, i) =~= prev.subrange(0, i));
        }
        if exists|j: int| granted_by(initial, prev, j, q) {
            let j = choose|j: int| granted_by(initial, prev, j, q);
            assert(granted_by(initial, grants, j, q));
        }
        if permitted_by(grants_applied(initial, grants), q) {
            if !permitted_by(grants_applied(initial, prev), q) {
                assert(granted_by(initial, grants, k, q));
            }
        }
        if exists|i: int| granted_by(initial, grants, i, q) {
            let i = choose|i: int| granted_by(initial, grants, i, q);
            if i < k {
                assert(granted_by(initial, prev, i, q));
            } else {
                assert(i == k);
            }
        }
    } else {
        assert(!exists|i: int| granted_by(initial, grants, i, q));
    }
}

/// Granting never withdraws: after a grant, everyone permitted before still is.
pub proof fn law_grants_only_add(perms: Set<u64>, accessor: Pid, new_acc: Pid, q: Pid)
    requires
        permitted_by(perms, q),
    ensures
        permitted_by(grant_step(perms, accessor, new_acc), q),
        permitted_by(perms, accessor) ==> permitted_by(grant_step(perms, accessor, new_acc), new_acc),
{
}

/// The kernel process reaches every device.
pub proof fn law_kernel_always_permitted<T>(ed: Ed<T>)
    ensures
        ed.permits(Pid::of(Pid::KERNEL_ID)),
{
}

} // verus!
