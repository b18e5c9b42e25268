//! The guest side of a call: reading what the guest left in its linear memory, and the
//! bookkeeping of one instance that serves one call at a time.

use vstd::prelude::*;
use crate::bytes::{le_bytes, le_i32, le_value, lemma_i32_round_trip};
use crate::marshal::{
    allocated, encode, encoded, served, MemOp, Memory, Target, WhatToWrite,
};
use crate::utf16::{decode_bytes, decode_utf16_le, lemma_utf16_round_trip, utf16_bytes};

verus! {

/// Why one guest call, or one read on its behalf, failed. None of these ends the host.
#[derive(Debug, Clone, Copy, PartialEq, Eq, Structural)]
pub enum CallError {
    /// The guest aborted or the engine trapped.
    GuestTrap,
    /// An access outside the guest's linear memory.
    OutOfBounds,
    /// The engine hit one of its ceilings.
    ResourceLimitExceeded,
    /// Bytes that are not UTF-16 where a string was expected.
    Decode,
}

/// Whether `len` bytes from `start` on lie inside a memory of `size` bytes.
pub open spec fn in_bounds(size: nat, start: int, len: int) -> bool {
    0 <= start && 0 <= len && start + len <= size
}

/// The 32-bit integer stored at `ptr`, where its four bytes lie inside the memory.
pub open spec fn int_at(memory: Seq<u8>, ptr: int) -> Result<i32, CallError> {
    if in_bounds(memory.len(), ptr, 4) {
        Ok(le_i32(memory.subrange(ptr, ptr + 4)) as i32)
    } else {
        Err(CallError::OutOfBounds)
    }
}

/// The string stored at `ptr`: its length in bytes stands in the four bytes before `ptr`,
/// and that many bytes from `ptr` on spell it in UTF-16.
pub open spec fn string_at(memory: Seq<u8>, ptr: int) -> Result<Seq<char>, CallError> {
    match int_at(memory, ptr - 4) {
        Err(e) => Err(e),
        Ok(len) => if !in_bounds(memory.len(), ptr, len as int) {
            Err(CallError::OutOfBounds)
        } else {
            match decode_bytes(memory.subrange(ptr, ptr + len)) {
                Some(text) => Ok(text),
                None => Err(CallError::Decode),
            }
        },
    }
}

/// Reads the 32-bit integer at `ptr`.
pub fn read_i32(memory: &[u8], ptr: i32) -> (r: Result<i32, CallError>)
    ensures
        r == int_at(memory@, ptr as int),
{
    if ptr < 0 || memory.len() < 4 || ptr as usize > memory.len() - 4 {
        return Err(CallError::OutOfBounds);
    }
    let at = ptr as usize;
    let b0 = memory[at] as i64;
    let b1 = memory[at + 1] as i64;
    let b2 = memory[at + 2] as i64;
    let b3 = memory[at + 3] as i64;
    let unsigned: i64 = b0 + 256 * (b1 + 256 * (b2 + 256 * b3));
    proof {
        let bytes = memory@.subrange(ptr as int, ptr + 4);
        reveal_with_fuel(le_value, 5);
        assert(bytes.skip(1).skip(1) =~= bytes.skip(2));
        assert(bytes.skip(2).skip(1) =~= bytes.skip(3));
        assert(bytes.skip(3).skip(1) =~= bytes.skip(4));
        assert(le_value(bytes) == unsigned);
    }
    let value: i64 = if unsigned >= 0x8000_0000 {
        unsigned - 0x1_0000_0000
    } else {
        unsigned
    };
    Ok(value as i32)
}

/// Reads the string at `ptr`.
pub fn read_asc_string(memory: &[u8], ptr: i32) -> (r: Result<String, CallError>)
    ensures
        match string_at(memory@, ptr as int) {
            Ok(text) => r matches Ok(found) && found@ == text,
            Err(e) => r matches Err(found) && found == e,
        },
{
    if ptr < 4 {
        return Err(CallError::OutOfBounds);
    }
    let len = match read_i32(memory, ptr - 4) {
        Ok(len) => len,
        Err(e) => {
            return Err(e);
        },
    };
    if len < 0 || ptr as usize > memory.len() || len as usize > memory.len() - ptr as usize {
        return Err(CallError::OutOfBounds);
    }
    let bytes = vstd::slice::slice_subrange(memory, ptr as usize, ptr as usize + len as usize);
    match decode_utf16_le(bytes) {
        Some(text) => Ok(text),
        None => Err(CallError::Decode),
    }
}

/// An integer written into memory is read back as itself: wherever four bytes of the
/// memory are the bytes of `x`, `x` is what is read there.
pub proof fn lemma_i32_read_back(memory: Seq<u8>, ptr: int, x: i32)
    requires
        in_bounds(memory.len(), ptr, 4),
        memory.subrange(ptr, ptr + 4) == le_bytes(x as int, 4),
    ensures
        int_at(memory, ptr) == Ok::<i32, CallError>(x),
{
    lemma_i32_round_trip(x);
}

/// A string written into memory is read back as itself, whatever the string: wherever a
/// block holds the UTF-16 bytes of `s` and the four bytes before the block hold their
/// number, as the guest's allocator leaves it, `s` is what is read at the block.
pub proof fn lemma_string_read_back(memory: Seq<u8>, ptr: int, s: Seq<char>)
    requires
        utf16_bytes(s).len() <= i32::MAX,
        in_bounds(memory.len(), ptr - 4, 4 + utf16_bytes(s).len() as int),
        memory.subrange(ptr - 4, ptr) == le_bytes(utf16_bytes(s).len() as int, 4),
        memory.subrange(ptr, ptr + utf16_bytes(s).len()) == utf16_bytes(s),
    ensures
        string_at(memory, ptr) == Ok::<Seq<char>, CallError>(s),
{
    let len = utf16_bytes(s).len() as i32;
    lemma_i32_read_back(memory, ptr - 4, len);
    lemma_utf16_round_trip(s);
}

/// The memory after `bytes` have been stored from `address` on, the store lying inside it.
pub open spec fn after_write(memory: Seq<u8>, address: int, bytes: Seq<u8>) -> Seq<u8> {
    memory.take(address) + bytes + memory.skip(address + bytes.len())
}

/// A store changes the bytes it covers, and those only.
pub proof fn lemma_after_write(memory: Seq<u8>, address: int, bytes: Seq<u8>)
    requires
        in_bounds(memory.len(), address, bytes.len() as int),
    ensures
        after_write(memory, address, bytes).len() == memory.len(),
        after_write(memory, address, bytes).subrange(address, address + bytes.len()) == bytes,
        forall|from: int, to: int|
            0 <= from <= to <= memory.len() && (to <= address || address + bytes.len() <= from)
                ==> #[trigger] after_write(memory, address, bytes).subrange(from, to)
                == memory.subrange(from, to),
{
    let after = after_write(memory, address, bytes);
    assert(after.subrange(address, address + bytes.len()) =~= bytes);
    assert forall|from: int, to: int|
        0 <= from <= to <= memory.len() && (to <= address || address + bytes.len()
            <= from) implies #[trigger] after.subrange(from, to) == memory.subrange(from, to) by {
        assert(after.subrange(from, to) =~= memory.subrange(from, to));
    }
}

/// An integer encoded into a slot is what the guest reads there: after the one store that
/// writing `x` into the slot at `ptr` asks for, the slot reads as `x`.
pub proof fn lemma_i32_visible(memory: Seq<u8>, ptr: i32, x: i32, ops: Seq<MemOp>)
    requires
        x.written(ptr, ops),
        in_bounds(memory.len(), ptr as int, 4),
    ensures
        ops.len() == 1,
        ops[0] matches MemOp::Write { address, bytes } && int_at(
            after_write(memory, address as int, bytes),
            ptr as int,
        ) == Ok::<i32, CallError>(x),
{
    let bytes = le_bytes(x as int, 4);
    lemma_i32_round_trip(x);
    lemma_after_write(memory, ptr as int, bytes);
    lemma_i32_read_back(after_write(memory, ptr as int, bytes), ptr as int, x);
}

/// A string encoded into a slot is what the guest reads through the slot, whatever the
/// string. The allocator hands out a block with the block's size in the four bytes before
/// it; after the two stores that writing `s` into the slot at `ptr` asks for, the slot
/// holds the block's address and the block reads as `s`. The slot lies apart from the
/// block and its size.
pub proof fn lemma_string_visible(memory: Seq<u8>, ptr: i32, s: String, ops: Seq<MemOp>)
    requires
        s.fits(),
        s.written(ptr, ops),
        in_bounds(memory.len(), ptr as int, 4),
        ops[0] matches MemOp::Allocate { size, address } && {
            &&& in_bounds(memory.len(), address - 4, 4 + size)
            &&& memory.subrange(address - 4, address as int) == le_bytes(size as int, 4)
            &&& (ptr + 4 <= address - 4 || address + size <= ptr)
        },
    ensures
        ops.len() == 3,
        ops[0] matches MemOp::Allocate { size, address } && ops[1] matches MemOp::Write {
            address: block,
            bytes: text,
        } && ops[2] matches MemOp::Write { address: slot, bytes: pointer } && {
            let stored = after_write(
                after_write(memory, block as int, text),
                slot as int,
                pointer,
            );
            &&& int_at(stored, ptr as int) == Ok::<i32, CallError>(address)
            &&& string_at(stored, address as int) == Ok::<Seq<char>, CallError>(s@)
        },
{
    let text = utf16_bytes(s@);
    if let MemOp::Allocate { size, address } = ops[0] {
        let pointer = le_bytes(address as int, 4);
        let first = after_write(memory, address as int, text);
        let stored = after_write(first, ptr as int, pointer);
        lemma_i32_round_trip(address);
        lemma_after_write(memory, address as int, text);
        lemma_after_write(first, ptr as int, pointer);
        assert(first.subrange(address - 4, address as int) == memory.subrange(
            address - 4,
            address as int,
        ));
        assert(stored.subrange(address - 4, address as int) == first.subrange(
            address - 4,
            address as int,
        ));
        assert(stored.subrange(address as int, address + text.len()) == first.subrange(
            address as int,
            address + text.len(),
        ));
        lemma_i32_read_back(stored, ptr as int, address);
        lemma_string_read_back(stored, address as int, s@);
    }
}

/// What the guest said when it gave up: a message and the place in its source.
#[derive(Debug, PartialEq, Eq)]
pub struct GuestAbort {
    pub message: String,
    pub file: String,
    pub line: i32,
    pub column: i32,
}

/// Puts together the report of an abort from what the guest passed: the addresses of the
/// message and of the file name, and the line and column. The message is read first; the
/// first read that fails decides the error.
pub fn generate_err(memory: &[u8], message_ptr: i32, filename_ptr: i32, line: i32, col: i32) -> (r:
    Result<GuestAbort, CallError>)
    ensures
        match (string_at(memory@, message_ptr as int), string_at(memory@, filename_ptr as int)) {
            (Ok(message), Ok(file)) => r matches Ok(abort) && abort.message@ == message
                && abort.file@ == file && abort.line == line && abort.column == col,
            (Err(e), _) => r matches Err(found) && found == e,
            (Ok(_), Err(e)) => r matches Err(found) && found == e,
        },
{
    let message = match read_asc_string(memory, message_ptr) {
        Ok(message) => message,
        Err(e) => {
            return Err(e);
        },
    };
    let file = match read_asc_string(memory, filename_ptr) {
        Ok(file) => file,
        Err(e) => {
            return Err(e);
        },
    };
    Ok(GuestAbort { message, file, line, column: col })
}

/// How one call ended: the failure, if it failed, and the abort that the guest reported
/// while it ran, if it reported one. Neither is a failure of the host.
#[derive(Debug, PartialEq, Eq)]
pub struct Outcome {
    pub error: Option<CallError>,
    pub abort: Option<GuestAbort>,
}

/// The answer to a call that arrives while another is in flight.
#[derive(Debug, Clone, Copy, PartialEq, Eq, Structural)]
pub struct Busy;

/// All the addresses handed out in `calls`, call after call, oldest first.
pub open spec fn pins_of(calls: Seq<Seq<MemOp>>) -> Seq<i32>
    decreases calls.len(),
{
    if calls.len() == 0 {
        Seq::empty()
    } else {
        pins_of(calls.drop_last()) + allocated(calls.last())
    }
}

/// The bookkeeping of one guest instance. The instance serves one call at a time: a call
/// begins, its value is encoded into pinned guest memory, the entry point runs, and at the
/// end every pin of the call is handed out for release.
pub struct Orchestrator {
    in_flight: bool,
    held: Vec<i32>,
    abort: Option<GuestAbort>,
    calls: Ghost<Seq<Seq<MemOp>>>,
    released: Ghost<Seq<i32>>,
}

impl Orchestrator {
    /// Whether a call has begun and not finished.
    pub closed spec fn in_flight(&self) -> bool {
        self.in_flight
    }

    /// The pins of the call in flight, oldest first.
    pub closed spec fn held(&self) -> Seq<i32> {
        self.held@
    }

    /// The abort that the guest reported during the call in flight.
    pub closed spec fn abort(&self) -> Option<GuestAbort> {
        self.abort
    }

    /// What each call so far has asked of the guest's memory, call after call.
    pub closed spec fn calls(&self) -> Seq<Seq<MemOp>> {
        self.calls@
    }

    /// Every pin issued so far, oldest first.
    pub open spec fn pins_issued(&self) -> Seq<i32> {
        pins_of(self.calls())
    }

    /// Every pin handed out for release so far, oldest first.
    pub closed spec fn unpins_issued(&self) -> Seq<i32> {
        self.released@
    }

    /// Every pin issued is either released or held by the call in flight, and between
    /// calls nothing is held.
    #[verifier::type_invariant]
    spec fn balanced(&self) -> bool {
        &&& pins_of(self.calls@) == self.released@ + self.held@
        &&& !self.in_flight ==> self.held@.len() == 0 && self.abort is None
    }

    /// The bookkeeping of a fresh instance: no call yet, nothing pinned.
    pub fn new() -> (o: Orchestrator)
        ensures
            !o.in_flight(),
            o.abort() is None,
            o.held() == Seq::<i32>::empty(),
            o.calls() == Seq::<Seq<MemOp>>::empty(),
            o.unpins_issued() == Seq::<i32>::empty(),
    {
        Orchestrator {
            in_flight: false,
            held: Vec::new(),
            abort: None,
            calls: Ghost(Seq::empty()),
            released: Ghost(Seq::empty()),
        }
    }

    /// Whether a call is in flight. Between calls every pin that was issued has been
    /// handed out for release.
    pub fn is_in_flight(&self) -> (b: bool)
        ensures
            b == self.in_flight(),
            self.pins_issued() == self.unpins_issued() + self.held(),
            !b ==> self.pins_issued() == self.unpins_issued(),
    {
        proof {
            use_type_invariant(self);
            if !self.in_flight {
                assert(self.released@ + self.held@ =~= self.released@);
            }
        }
        self.in_flight
    }

    /// Begins a call: encodes `value` into freshly allocated guest memory and returns the
    /// memory as the requests left it, with the address to pass to the guest's entry
    /// point. While another call is in flight the answer is `Busy`, and neither the memory
    /// nor the bookkeeping is touched.
    pub fn begin<V: WhatToWrite, M: Memory>(&mut self, value: &V, memory: M) -> (r: (
        M,
        Result<i32, Busy>,
    ))
        requires
            value.fits(),
        ensures
            final(self).in_flight(),
            final(self).unpins_issued() == old(self).unpins_issued(),
            final(self).pins_issued() == final(self).unpins_issued() + final(self).held(),
            r.1 is Err <==> old(self).in_flight(),
            r.1 is Err ==> *final(self) == *old(self) && r.0 == memory,
            r.1 matches Ok(address) ==> {
                &&& final(self).calls().len() == old(self).calls().len() + 1
                &&& final(self).calls().drop_last() == old(self).calls()
                &&& encoded(*value, address, final(self).calls().last())
                &&& served(memory, final(self).calls().last(), r.0)
                &&& final(self).held() == allocated(final(self).calls().last())
                &&& final(self).abort() is None
            },
    {
        proof {
            use_type_invariant(&*self);
        }
        if self.in_flight {
            return (memory, Err(Busy));
        }
        let mut target = Target::new(memory);
        let address = encode(value, &mut target);
        let ghost ops = target.ops();
        let (memory, pins) = target.release();
        let mut before = Orchestrator::new();
        core::mem::swap(self, &mut before);
        let Orchestrator { in_flight: _, held: _, abort: _, calls, released } = before;
        proof {
            assert(calls@.push(ops).drop_last() =~= calls@);
            assert(ops.skip(0) =~= ops);
            assert(old(self).held() =~= Seq::<i32>::empty());
            assert(released@ + pins@ =~= (released@ + old(self).held()) + allocated(ops));
        }
        *self = Orchestrator {
            in_flight: true,
            held: pins,
            abort: None,
            calls: Ghost(calls@.push(ops)),
            released,
        };
        (memory, Ok(address))
    }

    /// Takes note of an abort that the guest reported. The first abort of the call in
    /// flight is kept for the call's outcome. A later one, or one that arrives while no
    /// call is in flight, is handed back.
    pub fn report_abort(&mut self, abort: GuestAbort) -> (dropped: Option<GuestAbort>)
        ensures
            final(self).in_flight() == old(self).in_flight(),
            final(self).calls() == old(self).calls(),
            final(self).held() == old(self).held(),
            final(self).unpins_issued() == old(self).unpins_issued(),
            old(self).in_flight() && old(self).abort() is None ==> dropped is None
                && final(self).abort() == Some(abort),
            !(old(self).in_flight() && old(self).abort() is None) ==> dropped == Some(abort)
                && final(self).abort() == old(self).abort(),
    {
        proof {
            use_type_invariant(&*self);
        }
        if self.in_flight && self.abort.is_none() {
            let mut before = Orchestrator::new();
            core::mem::swap(self, &mut before);
            let Orchestrator { in_flight, held, abort: _, calls, released } = before;
            *self = Orchestrator { in_flight, held, abort: Some(abort), calls, released };
            None
        } else {
            Some(abort)
        }
    }

    /// Ends the call in flight, however the entry point fared: hands out every pin of the
    /// call for release, oldest first, with the call's outcome. `None` if no call is in
    /// flight. Afterwards every pin that was ever issued has been handed out for release.
    pub fn finish(&mut self, result: Result<(), CallError>) -> (r: Option<(Vec<i32>, Outcome)>)
        ensures
            !final(self).in_flight(),
            final(self).calls() == old(self).calls(),
            final(self).pins_issued() == final(self).unpins_issued(),
            r is Some <==> old(self).in_flight(),
            r is None ==> *final(self) == *old(self),
            r matches Some((unpin, outcome)) ==> {
                &&& unpin@ == old(self).held()
                &&& final(self).unpins_issued() == old(self).unpins_issued() + unpin@
                &&& final(self).held() == Seq::<i32>::empty()
                &&& final(self).abort() is None
                &&& outcome.abort == old(self).abort()
                &&& outcome.error == match result {
                    Ok(_) => None,
                    Err(e) => Some(e),
                }
            },
    {
        proof {
            use_type_invariant(&*self);
        }
        if !self.in_flight {
            assert(self.released@ + self.held@ =~= self.released@);
            return None;
        }
        let mut before = Orchestrator::new();
        core::mem::swap(self, &mut before);
        let Orchestrator { in_flight: _, held, abort, calls, released } = before;
        proof {
            assert((released@ + held@) + Seq::<i32>::empty() =~= released@ + held@);
        }
        *self = Orchestrator {
            in_flight: false,
            held: Vec::new(),
            abort: None,
            calls,
            released: Ghost(released@ + held@),
        };
        let error = match result {
            Ok(_) => None,
            Err(e) => Some(e),
        };
        Some((held, Outcome { error, abort }))
    }
}

} // verus!
