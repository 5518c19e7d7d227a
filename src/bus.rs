//! The register bus: the one place where the bring-up logic touches hardware.
//!
//! Every access goes through [`RegisterBus`], whose specification records it in
//! a ghost trace of [`BusOp`] events. A read may return any value (hardware
//! status bits change on their own); the trace remembers which value it was, so
//! contracts of the drivers can say exactly what they did with it.
use vstd::prelude::*;

verus! {

/// One access to the bus.
#[derive(Clone, Copy, Debug, PartialEq, Eq)]
pub enum BusOp {
    Read { addr: u32, value: u32 },
    Write { addr: u32, value: u32 },
}

impl BusOp {
    pub open spec fn is_write_to(self, a: u32) -> bool {
        self matches BusOp::Write { addr, .. } && addr == a
    }

    pub open spec fn is_write(self) -> bool {
        self is Write
    }

    pub open spec fn is_read_of(self, a: u32) -> bool {
        self matches BusOp::Read { addr, .. } && addr == a
    }

    /// The word read or written.
    pub open spec fn value(self) -> u32 {
        match self {
            BusOp::Read { value, .. } => value,
            BusOp::Write { value, .. } => value,
        }
    }
}

/// Raw access to a 32-bit memory-mapped register and memory space: the chip
/// itself, or a model of it.
pub trait RegisterBus {
    /// Reads the 32-bit word at `addr`.
    fn read32(&mut self, addr: u32) -> u32;

    /// Writes the 32-bit word `value` at `addr`.
    fn write32(&mut self, addr: u32, value: u32);
}

/// A register space together with the record of every access made through it.
pub struct Bus<H> {
    hw: H,
    log: Ghost<Seq<BusOp>>,
}

impl<H: RegisterBus> Bus<H> {
    /// Every access made through this bus so far, oldest first.
    pub closed spec fn trace(&self) -> Seq<BusOp> {
        self.log@
    }

    pub fn new(hw: H) -> (r: Bus<H>)
        ensures
            r.trace() == Seq::<BusOp>::empty(),
    {
        Bus { hw, log: Ghost(Seq::empty()) }
    }

    /// The register space behind the bus.
    pub fn hw(&self) -> &H {
        &self.hw
    }

    /// Gives the register space back.
    pub fn into_inner(self) -> H {
        self.hw
    }

    /// Reads the 32-bit word at `addr`.
    pub fn read32(&mut self, addr: u32) -> (r: u32)
        ensures
            final(self).trace() == old(self).trace().push(BusOp::Read { addr, value: r }),
    {
        let r = self.hw.read32(addr);
        self.log = Ghost(self.log@.push(BusOp::Read { addr, value: r }));
        r
    }

    /// Writes the 32-bit word `value` at `addr`.
    pub fn write32(&mut self, addr: u32, value: u32)
        ensures
            final(self).trace() == old(self).trace().push(BusOp::Write { addr, value }),
    {
        self.hw.write32(addr, value);
        self.log = Ghost(self.log@.push(BusOp::Write { addr, value }));
    }
}

/// `t1` continues `t0`: it keeps `t0` as its beginning.
pub open spec fn extends(t0: Seq<BusOp>, t1: Seq<BusOp>) -> bool {
    &&& t0.len() <= t1.len()
    &&& forall|i: int| 0 <= i < t0.len() ==> #[trigger] t1[i] == t0[i]
}

/// `t1` continues `t0` without writing to `a` in the accesses it adds.
pub open spec fn extends_sparing(t0: Seq<BusOp>, t1: Seq<BusOp>, a: u32) -> bool {
    &&& extends(t0, t1)
    &&& forall|i: int| t0.len() <= i < t1.len() ==> !(#[trigger] t1[i]).is_write_to(a)
}

/// `t1` continues `t0` with reads only.
pub open spec fn extends_reading(t0: Seq<BusOp>, t1: Seq<BusOp>) -> bool {
    &&& extends(t0, t1)
    &&& forall|i: int| t0.len() <= i < t1.len() ==> !(#[trigger] t1[i]).is_write()
}

pub broadcast proof fn lemma_sparing_trans(t0: Seq<BusOp>, t1: Seq<BusOp>, t2: Seq<BusOp>, a: u32)
    requires
        #[trigger] extends_sparing(t0, t1, a),
        #[trigger] extends_sparing(t1, t2, a),
    ensures
        extends_sparing(t0, t2, a),
{
    assert forall|i: int| t0.len() <= i < t2.len() implies !(#[trigger] t2[i]).is_write_to(a) by {
        if i < t1.len() {
            assert(t2[i] == t1[i]);
        }
    }
}

/// A plain memory: every address holds the last word written to it, or zero.
///
/// It reflects writes faithfully and has no self-clearing or status bits, which
/// makes it a model of RAM and of simple configuration registers.
pub struct MemoryBus {
    cells: Vec<(u32, u32)>,
}

impl MemoryBus {
    /// The word a read of `addr` returns: the last one written there, or zero.
    pub closed spec fn word(self, addr: u32) -> u32 {
        if exists|i: int| Self::first_at(self.cells@, addr, i) {
            let i = choose|i: int| Self::first_at(self.cells@, addr, i);
            self.cells@[i].1
        } else {
            0
        }
    }

    spec fn first_at(cells: Seq<(u32, u32)>, addr: u32, i: int) -> bool {
        &&& 0 <= i < cells.len()
        &&& cells[i].0 == addr
        &&& forall|j: int| 0 <= j < i ==> (#[trigger] cells[j]).0 != addr
    }

    pub fn new() -> (r: MemoryBus)
        ensures
            forall|a: u32| r.word(a) == 0,
    {
        MemoryBus { cells: Vec::new() }
    }

    fn find(&self, addr: u32) -> (r: Option<usize>)
        ensures
            match r {
                Some(i) => Self::first_at(self.cells@, addr, i as int),
                None => forall|i: int| 0 <= i < self.cells@.len() ==> (#[trigger] self.cells@[i]).0 != addr,
            },
    {
        let mut i: usize = 0;
        while i < self.cells.len()
            invariant
                i <= self.cells@.len(),
                forall|j: int| 0 <= j < i ==> (#[trigger] self.cells@[j]).0 != addr,
            decreases self.cells@.len() - i,
        {
            if self.cells[i].0 == addr {
                return Some(i);
            }
            i = i + 1;
        }
        None
    }

    /// Reads `addr` without recording an access.
    pub fn peek(&self, addr: u32) -> (r: u32)
        ensures
            r == self.word(addr),
    {
        match self.find(addr) {
            Some(i) => {
                proof {
                    let k = choose|k: int| Self::first_at(self.cells@, addr, k);
                    if k < i {
                        assert(self.cells@[k].0 != addr);
                    } else if k > i {
                        assert(self.cells@[i as int].0 != addr);
                    }
                }
                self.cells[i].1
            },
            None => {
                assert(!exists|k: int| Self::first_at(self.cells@, addr, k));
                0
            },
        }
    }
}

impl MemoryBus {
    /// Stores `value` at `addr`.
    pub fn store(&mut self, addr: u32, value: u32)
        ensures
            final(self).word(addr) == value,
            forall|a: u32| a != addr ==> final(self).word(a) == old(self).word(a),
    {
        let ghost before = self.cells@;
        match self.find(addr) {
            Some(i) => {
                self.cells.set(i, (addr, value));
                proof {
                    assert(Self::first_at(self.cells@, addr, i as int));
                    Self::lemma_first_unique(self.cells@, addr, i as int);
                    assert forall|a: u32| a != addr implies self.word(a) == old(self).word(a) by {
                        Self::lemma_same_firsts(before, self.cells@, a);
                    }
                }
            },
            None => {
                self.cells.push((addr, value));
                proof {
                    let n = before.len() as int;
                    assert(self.cells@[n].0 == addr);
                    assert(Self::first_at(self.cells@, addr, n));
                    Self::lemma_first_unique(self.cells@, addr, n);
                    assert forall|a: u32| a != addr implies self.word(a) == old(self).word(a) by {
                        Self::lemma_same_firsts(before, self.cells@, a);
                    }
                }
            },
        }
    }

    proof fn lemma_first_unique(cells: Seq<(u32, u32)>, addr: u32, i: int)
        requires
            Self::first_at(cells, addr, i),
        ensures
            forall|k: int| Self::first_at(cells, addr, k) ==> k == i,
    {
        assert forall|k: int| Self::first_at(cells, addr, k) implies k == i by {
            if k < i {
                assert(cells[k].0 != addr);
            } else if k > i {
                assert(cells[i].0 != addr);
            }
        }
    }

    /// Changing or appending a cell of another address keeps what `a` reads.
    proof fn lemma_same_firsts(c0: Seq<(u32, u32)>, c1: Seq<(u32, u32)>, a: u32)
        requires
            c0.len() <= c1.len(),
            forall|j: int| 0 <= j < c0.len() && c1[j] != c0[j] ==> c0[j].0 != a && c1[j].0 != a,
            forall|j: int| c0.len() <= j < c1.len() ==> c1[j].0 != a,
        ensures
            (if exists|i: int| Self::first_at(c0, a, i) {
                c0[choose|i: int| Self::first_at(c0, a, i)].1
            } else {
                0
            }) == (if exists|i: int| Self::first_at(c1, a, i) {
                c1[choose|i: int| Self::first_at(c1, a, i)].1
            } else {
                0
            }),
    {
        assert forall|i: int| Self::first_at(c0, a, i) <==> Self::first_at(c1, a, i) by {
            if Self::first_at(c0, a, i) {
                assert(c1[i] == c0[i]);
                assert forall|j: int| 0 <= j < i implies (#[trigger] c1[j]).0 != a by {
                    if c1[j] == c0[j] {
                        assert(c0[j].0 != a);
                    }
                }
            }
            if Self::first_at(c1, a, i) {
                assert(i < c0.len());
                assert(c1[i] == c0[i]);
                assert forall|j: int| 0 <= j < i implies (#[trigger] c0[j]).0 != a by {
                    if c1[j] == c0[j] {
                        assert(c1[j].0 != a);
                    }
                }
            }
        }
        if exists|i: int| Self::first_at(c0, a, i) {
            let i = choose|i: int| Self::first_at(c0, a, i);
            Self::lemma_first_unique(c0, a, i);
            Self::lemma_first_unique(c1, a, i);
            assert(c1[i] == c0[i]);
        }
    }
}

impl RegisterBus for MemoryBus {
    fn read32(&mut self, addr: u32) -> u32 {
        self.peek(addr)
    }

    fn write32(&mut self, addr: u32, value: u32) {
        self.store(addr, value);
    }
}

} // verus!
