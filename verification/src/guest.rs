//! The guest as the walkers see it: its registers, and the reads of its memory made so far.
//!
//! A query is a function of a [`Guest`]. Where it needs a read that nobody has made yet it stops
//! and returns that [`Request`]; the caller performs the read, hands the outcome to
//! [`Guest::record`], and runs the query again. A request is never repeated, and what a query has
//! answered once it answers the same way on every larger record.

use std::collections::HashMap;
use vstd::prelude::*;

verus! {

broadcast use vstd::std_specs::hash::group_hash_axioms;

/// One read of guest memory: `len` bytes at a virtual address under the current page tables, or
/// at a physical address.
#[derive(Clone, Copy, Debug, PartialEq, Eq, Structural)]
pub enum Request {
    Virtual { addr: u64, len: usize },
    Physical { addr: u64, len: usize },
}

/// The registers that the walkers look at. `gpr` is in encoding order: RAX, RCX, RDX, RBX, RSP,
/// RBP, RSI, RDI, R8 to R15.
#[derive(Clone, Copy, Debug)]
pub struct Registers {
    pub gpr: [u64; 16],
    /// IA32_LSTAR: the syscall entry point.
    pub lstar: u64,
    pub kernel_gs_base: u64,
    pub gs_base: u64,
}

/// Registers and recorded reads. `None` is a read that the guest refused.
pub struct Guest {
    regs: Registers,
    virtual_reads: HashMap<u128, Option<Vec<u8>>>,
    physical_reads: HashMap<u128, Option<Vec<u8>>>,
}

/// What a [`Guest`] knows.
pub struct GuestView {
    pub regs: Registers,
    pub answers: Map<Request, Option<Seq<u8>>>,
}

impl Request {
    pub open spec fn size(self) -> nat {
        match self {
            Request::Virtual { addr, len } => len as nat,
            Request::Physical { addr, len } => len as nat,
        }
    }
}

impl GuestView {
    /// The outcome of a read: the request itself while it is open, `None` where the guest refused
    /// it. A read delivers exactly the bytes asked for; an answer of any other length counts as
    /// refused.
    pub open spec fn ask(self, q: Request) -> Result<Option<Seq<u8>>, Request> {
        if !self.answers.contains_key(q) {
            Err(q)
        } else {
            match self.answers[q] {
                Some(bytes) if bytes.len() == q.size() => Ok(Some(bytes)),
                _ => Ok(None),
            }
        }
    }

    /// `later` has the same registers and every answer that `self` has.
    pub open spec fn extended_by(self, later: GuestView) -> bool {
        &&& self.regs == later.regs
        &&& self.answers.submap_of(later.answers)
    }
}

/// How one query, asked of `g` and of a later `h`, may come out: an answer stays what it was, and
/// an open request stays the same request until it is answered.
pub open spec fn steady<T>(
    g: GuestView,
    h: GuestView,
    at_g: Result<T, Request>,
    at_h: Result<T, Request>,
) -> bool {
    match at_g {
        Ok(v) => at_h == Ok::<T, Request>(v),
        Err(q) => {
            &&& !g.answers.contains_key(q)
            &&& !h.answers.contains_key(q) ==> at_h == Err::<T, Request>(q)
        },
    }
}

pub broadcast proof fn ask_steady(g: GuestView, h: GuestView, q: Request)
    requires
        #[trigger] g.extended_by(h),
    ensures
        steady(g, h, #[trigger] g.ask(q), h.ask(q)),
{
}

/// Recording the outcome of an open request only ever adds to the record.
pub proof fn recording_extends(g: GuestView, q: Request, reply: Option<Seq<u8>>)
    requires
        !g.answers.contains_key(q),
    ensures
        g.extended_by((GuestView { answers: g.answers.insert(q, reply), ..g })),
{
}

spec fn slot(addr: u64, len: usize) -> u128 {
    (addr * 0x1_0000_0000_0000_0000 + len) as u128
}

fn slot_of(addr: u64, len: usize) -> (r: u128)
    ensures
        r == slot(addr, len),
        r == addr * 0x1_0000_0000_0000_0000 + len,
{
    addr as u128 * 0x1_0000_0000_0000_0000u128 + len as u128
}

proof fn lemma_slots_differ(a1: u64, l1: usize, a2: u64, l2: usize)
    ensures
        slot(a1, l1) == slot(a2, l2) <==> (a1 == a2 && l1 == l2),
{
    assert(0 <= a1 * 0x1_0000_0000_0000_0000 + l1 <= u128::MAX);
    assert(0 <= a2 * 0x1_0000_0000_0000_0000 + l2 <= u128::MAX);
}

spec fn bytes_view(reply: Option<Vec<u8>>) -> Option<Seq<u8>> {
    match reply {
        Some(bytes) => Some(bytes@),
        None => None,
    }
}

impl Guest {
    spec fn knows(&self, q: Request) -> bool {
        match q {
            Request::Virtual { addr, len } => self.virtual_reads@.contains_key(slot(addr, len)),
            Request::Physical { addr, len } => self.physical_reads@.contains_key(slot(addr, len)),
        }
    }

    spec fn stored(&self, q: Request) -> Option<Seq<u8>> {
        match q {
            Request::Virtual { addr, len } => bytes_view(self.virtual_reads@[slot(addr, len)]),
            Request::Physical { addr, len } => bytes_view(self.physical_reads@[slot(addr, len)]),
        }
    }
}

impl View for Guest {
    type V = GuestView;

    closed spec fn view(&self) -> GuestView {
        GuestView {
            regs: self.regs,
            answers: Map::new(|q: Request| self.knows(q), |q: Request| self.stored(q)),
        }
    }
}

impl Guest {
    /// A guest of which only the registers are known.
    pub fn new(regs: Registers) -> (r: Guest)
        ensures
            r@.regs == regs,
            r@.answers == Map::<Request, Option<Seq<u8>>>::empty(),
    {
        let r = Guest { regs, virtual_reads: HashMap::new(), physical_reads: HashMap::new() };
        assert(r@.answers =~= Map::<Request, Option<Seq<u8>>>::empty());
        r
    }

    pub fn regs(&self) -> (r: &Registers)
        ensures
            *r == self@.regs,
    {
        &self.regs
    }

    /// Adds the outcome of a read, in place of an earlier one of the same request.
    pub fn record(&mut self, q: Request, reply: Option<Vec<u8>>)
        ensures
            final(self)@.regs == old(self)@.regs,
            final(self)@.answers == old(self)@.answers.insert(
                q,
                match reply {
                    Some(bytes) => Some(bytes@),
                    None => None,
                },
            ),
    {
        let ghost before = *self;
        match q {
            Request::Virtual { addr, len } => {
                self.virtual_reads.insert(slot_of(addr, len), reply);
            },
            Request::Physical { addr, len } => {
                self.physical_reads.insert(slot_of(addr, len), reply);
            },
        }
        proof {
            let want = before@.answers.insert(q, bytes_view(reply));
            assert forall|o: Request| #![auto]
                self@.answers.contains_key(o) == want.contains_key(o) && (want.contains_key(o)
                    ==> self@.answers[o] == want[o]) by {
                match (q, o) {
                    (
                        Request::Virtual { addr: a1, len: l1 },
                        Request::Virtual { addr: a2, len: l2 },
                    ) => lemma_slots_differ(a1, l1, a2, l2),
                    (
                        Request::Physical { addr: a1, len: l1 },
                        Request::Physical { addr: a2, len: l2 },
                    ) => lemma_slots_differ(a1, l1, a2, l2),
                    _ => {},
                }
            }
            assert(self@.answers =~= want);
        }
    }

    /// The outcome of a read.
    pub fn read(&self, q: Request) -> (r: Result<Option<&Vec<u8>>, Request>)
        ensures
            match r {
                Err(open) => self@.ask(q) == Err::<Option<Seq<u8>>, Request>(open),
                Ok(None) => self@.ask(q) == Ok::<Option<Seq<u8>>, Request>(None),
                Ok(Some(bytes)) => self@.ask(q) == Ok::<Option<Seq<u8>>, Request>(Some(bytes@)),
            },
    {
        let (found, len) = match q {
            Request::Virtual { addr, len } => (self.virtual_reads.get(&slot_of(addr, len)), len),
            Request::Physical { addr, len } => (self.physical_reads.get(&slot_of(addr, len)), len),
        };
        match found {
            None => Err(q),
            Some(None) => Ok(None),
            Some(Some(bytes)) => if bytes.len() == len {
                Ok(Some(bytes))
            } else {
                Ok(None)
            },
        }
    }
}

} // verus!
