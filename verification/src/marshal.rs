//! The marshaling protocol: how a host value writes itself into guest memory through the
//! two things a memory target can do, allocate and write.

use vstd::prelude::*;
use crate::bytes::{i32_le_bytes, i64_le_bytes, le_bytes, zeros};
use crate::utf16::{utf16_bytes, utf16_le_bytes};

verus! {

/// One request that a memory target has served.
pub enum MemOp {
    /// A block of `size` bytes was asked for and `address` was handed out.
    Allocate { size: i32, address: i32 },
    /// `bytes` were stored from `address` on.
    Write { address: i32, bytes: Seq<u8> },
}

/// Addressable guest memory, reached only by asking for a block and by storing bytes.
/// What an implementation does with a request is its own affair: unless it says more, it
/// promises nothing, and nothing in this library rests on it.
pub trait Memory {
    /// What this memory says of an allocation: whether, asked for `size` bytes, it may hand
    /// out `address` and be left as `after`. Anything may happen unless it says otherwise.
    open spec fn allocation(&self, size: i32, after: &Self, address: i32) -> bool {
        true
    }

    /// What this memory says of a store: whether, asked to store `data` from `ptr` on, it
    /// may be left as `after`. Anything may happen unless it says otherwise.
    open spec fn store(&self, ptr: i32, data: Seq<u8>, after: &Self) -> bool {
        true
    }

    /// Hands out a block of `size` bytes that stays valid until it is released.
    fn allocate(&mut self, size: i32) -> (address: i32)
        ensures
            old(self).allocation(size, &*final(self), address),
    ;

    /// Stores `data` from `ptr` on.
    fn write(&mut self, ptr: i32, data: &[u8])
        ensures
            old(self).store(ptr, data@, &*final(self)),
    ;
}

/// A borrowed memory is a memory: a request goes to the memory behind the reference, as it
/// is. That memory gives the answer, and it alone changes.
impl<'a, M: Memory> Memory for &'a mut M {
    open spec fn allocation(&self, size: i32, after: &Self, address: i32) -> bool {
        (**self).allocation(size, &**after, address)
    }

    open spec fn store(&self, ptr: i32, data: Seq<u8>, after: &Self) -> bool {
        (**self).store(ptr, data, &**after)
    }

    fn allocate(&mut self, size: i32) -> (address: i32)
        ensures
            *final(*final(self)) == *final(*old(self)),
    {
        (**self).allocate(size)
    }

    fn write(&mut self, ptr: i32, data: &[u8])
        ensures
            *final(*final(self)) == *final(*old(self)),
    {
        (**self).write(ptr, data)
    }
}

/// Whether the memory `before` may serve the request `op` as recorded and be left as
/// `after`, by what the memory itself says of allocations and stores.
pub open spec fn serves<M: Memory>(before: M, op: MemOp, after: M) -> bool {
    match op {
        MemOp::Allocate { size, address } => before.allocation(size, &after, address),
        MemOp::Write { address, bytes } => before.store(address, bytes, &after),
    }
}

/// Whether `states` are the states of a memory that serves the requests `ops` one after
/// the other: the state before the first request, then the state that each request left.
pub open spec fn steps<M: Memory>(states: Seq<M>, ops: Seq<MemOp>) -> bool {
    &&& states.len() == ops.len() + 1
    &&& forall|i: int| 0 <= i < ops.len() ==> serves(states[i], #[trigger] ops[i], states[i + 1])
}

/// Whether the memory `before` may serve the requests `ops` one after the other, each from
/// the state that the one before it left, and be left as `after`.
pub open spec fn served<M: Memory>(before: M, ops: Seq<MemOp>, after: M) -> bool {
    exists|states: Seq<M>| #[trigger]
        steps(states, ops) && states[0] == before && states[ops.len() as int] == after
}

/// No request leaves the memory as it is.
pub proof fn lemma_served_none<M: Memory>(memory: M)
    ensures
        served(memory, Seq::<MemOp>::empty(), memory),
{
    assert(steps(seq![memory], Seq::<MemOp>::empty()));
}

/// One request served is a row of one.
pub proof fn lemma_served_one<M: Memory>(before: M, op: MemOp, after: M)
    requires
        serves(before, op, after),
    ensures
        served(before, seq![op], after),
{
    assert(steps(seq![before, after], seq![op]));
}

/// Requests served in a row, and more served from where they left the memory, are all
/// served in one row.
pub proof fn lemma_served_then<M: Memory>(
    before: M,
    first: Seq<MemOp>,
    mid: M,
    second: Seq<MemOp>,
    after: M,
)
    requires
        served(before, first, mid),
        served(mid, second, after),
    ensures
        served(before, first + second, after),
{
    let one = choose|states: Seq<M>| #[trigger]
        steps(states, first) && states[0] == before && states[first.len() as int] == mid;
    let two = choose|states: Seq<M>| #[trigger]
        steps(states, second) && states[0] == mid && states[second.len() as int] == after;
    let all = one + two.skip(1);
    let ops = first + second;
    assert forall|i: int| 0 <= i < ops.len() implies serves(all[i], #[trigger] ops[i], all[i + 1]) by {
        if i < first.len() {
            assert(ops[i] == first[i]);
            if i + 1 == first.len() {
                assert(all[i + 1] == two[0]);
            }
        } else {
            let j = i - first.len();
            assert(ops[i] == second[j]);
            assert(all[i + 1] == two[j + 1]);
            assert(all[i] == two[j]);
        }
    }
    assert(steps(all, ops));
}

/// The addresses handed out by the allocations among `ops`, oldest first.
pub open spec fn allocated(ops: Seq<MemOp>) -> Seq<i32>
    decreases ops.len(),
{
    if ops.len() == 0 {
        Seq::empty()
    } else {
        match ops.last() {
            MemOp::Allocate { size, address } => allocated(ops.drop_last()).push(address),
            MemOp::Write { address, bytes } => allocated(ops.drop_last()),
        }
    }
}

/// The record of one call: every request, and the address of every block handed out.
struct Ledger {
    pins: Vec<i32>,
    ops: Ghost<Seq<MemOp>>,
}

impl Ledger {
    #[verifier::type_invariant]
    spec fn keeps_every_pin(&self) -> bool {
        self.pins@ == allocated(self.ops@)
    }

    fn new() -> (ledger: Ledger)
        ensures
            ledger.ops@ == Seq::<MemOp>::empty(),
            ledger.pins@ == Seq::<i32>::empty(),
    {
        Ledger { pins: Vec::new(), ops: Ghost(Seq::empty()) }
    }

    fn with_allocation(self, size: i32, address: i32) -> (ledger: Ledger)
        ensures
            ledger.ops@ == self.ops@.push(MemOp::Allocate { size, address }),
            ledger.pins@ == self.pins@.push(address),
    {
        proof {
            use_type_invariant(&self);
        }
        let ghost next = self.ops@.push(MemOp::Allocate { size, address });
        assert(next.drop_last() =~= self.ops@);
        let mut pins = self.pins;
        pins.push(address);
        Ledger { pins, ops: Ghost(next) }
    }

    fn with_write(self, ptr: i32, Ghost(bytes): Ghost<Seq<u8>>) -> (ledger: Ledger)
        ensures
            ledger.ops@ == self.ops@.push(MemOp::Write { address: ptr, bytes }),
            ledger.pins@ == self.pins@,
    {
        proof {
            use_type_invariant(&self);
        }
        let ghost next = self.ops@.push(MemOp::Write { address: ptr, bytes });
        assert(next.drop_last() =~= self.ops@);
        Ledger { pins: self.pins, ops: Ghost(next) }
    }

    fn into_pins(self) -> (pins: Vec<i32>)
        ensures
            pins@ == self.pins@,
            pins@ == allocated(self.ops@),
    {
        proof {
            use_type_invariant(&self);
        }
        self.pins
    }
}

/// The memory target of one guest call: a memory, together with the record of everything
/// asked of it and the address of every block it handed out.
pub struct Target<M: Memory> {
    memory: M,
    ledger: Ledger,
}

impl<M: Memory> Target<M> {
    /// Every request made through this target so far, oldest first.
    pub closed spec fn ops(&self) -> Seq<MemOp> {
        self.ledger.ops@
    }

    /// The memory behind this target.
    pub closed spec fn memory(&self) -> M {
        self.memory
    }

    /// A target over `memory` of which nothing has been asked yet.
    pub fn new(memory: M) -> (target: Target<M>)
        ensures
            target.ops() == Seq::<MemOp>::empty(),
            target.memory() == memory,
    {
        Target { memory, ledger: Ledger::new() }
    }

    /// Asks the memory for a block of `size` bytes and keeps its address for the release.
    /// The address returned is the one that the memory handed out.
    pub fn allocate(&mut self, size: i32) -> (address: i32)
        ensures
            final(self).ops() == old(self).ops().push(MemOp::Allocate { size, address }),
            old(self).memory().allocation(size, &final(self).memory(), address),
    {
        let address = self.memory.allocate(size);
        let mut ledger = Ledger::new();
        core::mem::swap(&mut self.ledger, &mut ledger);
        self.ledger = ledger.with_allocation(size, address);
        address
    }

    /// Stores `data` from `ptr` on: the memory is asked to, with these bytes and this
    /// address.
    pub fn write(&mut self, ptr: i32, data: &[u8])
        ensures
            final(self).ops() == old(self).ops().push(MemOp::Write { address: ptr, bytes: data@ }),
            old(self).memory().store(ptr, data@, &final(self).memory()),
    {
        self.memory.write(ptr, data);
        let mut ledger = Ledger::new();
        core::mem::swap(&mut self.ledger, &mut ledger);
        self.ledger = ledger.with_write(ptr, Ghost(data@));
    }

    /// Ends the call: gives the memory back, with the address of every block that was
    /// handed out through this target, oldest first. These are the blocks to release.
    pub fn release(self) -> (r: (M, Vec<i32>))
        ensures
            r.0 == self.memory(),
            r.1@ == allocated(self.ops()),
    {
        let pins = self.ledger.into_pins();
        (self.memory, pins)
    }
}

/// A host value that can be written into a slot of guest memory.
pub trait WhatToWrite {
    /// Whether every block the value asks for has a size that fits the 32-bit address type.
    open spec fn fits(&self) -> bool {
        true
    }

    /// Whether `ops` is what writing the value into the slot at `ptr` asks of the memory.
    /// The addresses of the blocks allocated on the way are the memory's to choose.
    open spec fn written(&self, ptr: i32, ops: Seq<MemOp>) -> bool {
        true
    }

    /// Width in bytes of the slot that the value occupies: that of an address, unless the
    /// value is stored inline and says otherwise.
    open spec fn slot(&self) -> int {
        4
    }

    /// Writes the contents into the slot at `ptr`.
    fn write<M: Memory>(&self, target: &mut Target<M>, ptr: i32)
        requires
            self.fits(),
        ensures
            old(target).ops().is_prefix_of(final(target).ops()),
            self.written(ptr, final(target).ops().skip(old(target).ops().len() as int)),
            served(
                old(target).memory(),
                final(target).ops().skip(old(target).ops().len() as int),
                final(target).memory(),
            ),
    ;

    /// Width in bytes of the slot that the value occupies.
    fn size(&self) -> (n: i32)
        ensures
            n == self.slot(),
    ;
}

impl WhatToWrite for i32 {
    open spec fn fits(&self) -> bool {
        true
    }

    /// The four little-endian bytes go straight into the slot.
    open spec fn written(&self, ptr: i32, ops: Seq<MemOp>) -> bool {
        ops == seq![MemOp::Write { address: ptr, bytes: le_bytes(*self as int, 4) }]
    }

    open spec fn slot(&self) -> int {
        4
    }

    fn write<M: Memory>(&self, target: &mut Target<M>, ptr: i32) {
        let bytes = i32_le_bytes(*self);
        target.write(ptr, bytes.as_slice());
        proof {
            let op = MemOp::Write { address: ptr, bytes: le_bytes(*self as int, 4) };
            assert(target.ops().skip(old(target).ops().len() as int) =~= seq![op]);
            lemma_served_one(old(target).memory(), op, target.memory());
        }
    }

    fn size(&self) -> (n: i32) {
        4
    }
}

impl WhatToWrite for i64 {
    open spec fn fits(&self) -> bool {
        true
    }

    /// The eight little-endian bytes go straight into the slot.
    open spec fn written(&self, ptr: i32, ops: Seq<MemOp>) -> bool {
        ops == seq![MemOp::Write { address: ptr, bytes: le_bytes(*self as int, 8) }]
    }

    open spec fn slot(&self) -> int {
        8
    }

    fn write<M: Memory>(&self, target: &mut Target<M>, ptr: i32) {
        let bytes = i64_le_bytes(*self);
        target.write(ptr, bytes.as_slice());
        proof {
            let op = MemOp::Write { address: ptr, bytes: le_bytes(*self as int, 8) };
            assert(target.ops().skip(old(target).ops().len() as int) =~= seq![op]);
            lemma_served_one(old(target).memory(), op, target.memory());
        }
    }

    fn size(&self) -> (n: i32) {
        8
    }
}

/// What writing the string `s` into the slot at `ptr` asks of the memory: a buffer as long
/// as the string's UTF-16 bytes, those bytes stored in the buffer, and the buffer's address
/// stored in the slot.
pub open spec fn string_written(s: Seq<char>, ptr: i32, ops: Seq<MemOp>) -> bool {
    &&& ops.len() == 3
    &&& ops[0] matches MemOp::Allocate { size, address }
    &&& size == utf16_bytes(s).len()
    &&& ops[1] == MemOp::Write { address, bytes: utf16_bytes(s) }
    &&& ops[2] == MemOp::Write { address: ptr, bytes: le_bytes(address as int, 4) }
}

impl WhatToWrite for String {
    open spec fn fits(&self) -> bool {
        utf16_bytes(self@).len() <= i32::MAX
    }

    open spec fn written(&self, ptr: i32, ops: Seq<MemOp>) -> bool {
        string_written(self@, ptr, ops)
    }

    /// The slot holds an address, whatever the string's length.
    open spec fn slot(&self) -> int {
        4
    }

    fn write<M: Memory>(&self, target: &mut Target<M>, ptr: i32) {
        let bytes = utf16_le_bytes(self.as_str());
        let buffer = target.allocate(bytes.len() as i32);
        let ghost allocated = target.memory();
        target.write(buffer, bytes.as_slice());
        let ghost filled = target.memory();
        let address = i32_le_bytes(buffer);
        target.write(ptr, address.as_slice());
        proof {
            let ask = MemOp::Allocate { size: bytes.len() as i32, address: buffer };
            let fill = MemOp::Write { address: buffer, bytes: utf16_bytes(self@) };
            let point = MemOp::Write { address: ptr, bytes: le_bytes(buffer as int, 4) };
            assert(target.ops().skip(old(target).ops().len() as int) =~= seq![ask, fill, point]);
            lemma_served_one(old(target).memory(), ask, allocated);
            lemma_served_one(allocated, fill, filled);
            lemma_served_one(filled, point, target.memory());
            lemma_served_then(old(target).memory(), seq![ask], allocated, seq![fill], filled);
            lemma_served_then(
                old(target).memory(),
                seq![ask] + seq![fill],
                filled,
                seq![point],
                target.memory(),
            );
            assert(seq![ask] + seq![fill] + seq![point] =~= seq![ask, fill, point]);
        }
    }

    fn size(&self) -> (n: i32) {
        4
    }
}

/// What writing an optional value into a slot of `slot_size` bytes at `ptr` asks of the
/// memory. A present value is written as itself. An absent one is a single store of
/// `slot_size` zero bytes into the slot, and nothing else.
pub open spec fn optional_written<T: WhatToWrite>(
    value: Option<T>,
    slot_size: i32,
    ptr: i32,
    ops: Seq<MemOp>,
) -> bool {
    match value {
        Some(inner) => inner.written(ptr, ops),
        None => ops == seq![MemOp::Write { address: ptr, bytes: zeros(slot_size as int) }],
    }
}

/// Writes an optional field into its slot of `slot_size` bytes at `ptr`: the value where
/// there is one, else zeros over the whole slot. The absent case neither writes nor
/// measures a value of the inner type.
pub fn write_optional<T: WhatToWrite, M: Memory>(
    value: &Option<T>,
    slot_size: i32,
    target: &mut Target<M>,
    ptr: i32,
)
    requires
        value matches Some(inner) ==> inner.fits(),
    ensures
        old(target).ops().is_prefix_of(final(target).ops()),
        optional_written(
            *value,
            slot_size,
            ptr,
            final(target).ops().skip(old(target).ops().len() as int),
        ),
        served(
            old(target).memory(),
            final(target).ops().skip(old(target).ops().len() as int),
            final(target).memory(),
        ),
{
    match value {
        Some(inner) => {
            inner.write(target, ptr);
        },
        None => {
            let mut bytes: Vec<u8> = Vec::new();
            let mut i: i32 = 0;
            while i < slot_size
                invariant
                    0 <= i,
                    i <= slot_size || i == 0,
                    bytes@ == zeros(i as int),
                decreases slot_size - i,
            {
                bytes.push(0u8);
                i = i + 1;
                assert(bytes@ =~= zeros(i as int));
            }
            assert(bytes@ =~= zeros(slot_size as int));
            target.write(ptr, bytes.as_slice());
            proof {
                let op = MemOp::Write { address: ptr, bytes: zeros(slot_size as int) };
                assert(target.ops().skip(old(target).ops().len() as int) =~= seq![op]);
                lemma_served_one(old(target).memory(), op, target.memory());
            }
        },
    }
}

/// What encoding `value` asks of the memory when the memory hands out `address` for its
/// slot: the slot is allocated first, then the value is written into it.
pub open spec fn encoded<V: WhatToWrite>(value: V, address: i32, ops: Seq<MemOp>) -> bool {
    &&& ops.len() >= 1
    &&& ops[0] == MemOp::Allocate { size: value.slot() as i32, address }
    &&& value.written(address, ops.skip(1))
}

/// Encodes `value` into freshly allocated guest memory and returns the address of its slot.
pub fn encode<V: WhatToWrite, M: Memory>(value: &V, target: &mut Target<M>) -> (address: i32)
    requires
        value.fits(),
    ensures
        old(target).ops().is_prefix_of(final(target).ops()),
        encoded(*value, address, final(target).ops().skip(old(target).ops().len() as int)),
        served(
            old(target).memory(),
            final(target).ops().skip(old(target).ops().len() as int),
            final(target).memory(),
        ),
{
    let size = value.size();
    let address = target.allocate(size);
    let ghost mid = target.ops();
    let ghost with_slot = target.memory();
    value.write(target, address);
    proof {
        let before = old(target).ops();
        let grown = target.ops().skip(before.len() as int);
        let rest = target.ops().skip(mid.len() as int);
        let ask = MemOp::Allocate { size, address };
        assert(grown[0] == mid[before.len() as int]);
        assert(grown.skip(1) =~= rest);
        assert(grown =~= seq![ask] + rest);
        lemma_served_one(old(target).memory(), ask, with_slot);
        lemma_served_then(old(target).memory(), seq![ask], with_slot, rest, target.memory());
    }
    address
}

} // verus!
