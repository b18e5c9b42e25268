//! What the host decides while it polls for updates and serves the guest's requests to
//! send messages. Fetching, waiting and sending are the caller's part.

use vstd::prelude::*;
use crate::asc_loader::{read_asc_string, string_at, CallError};
use crate::tg_api::{SendMessage, Update};

verus! {

/// The longest wait between two attempts, in seconds.
pub const MAX_DELAY_SECS: u64 = 60;

/// Two to the power `n`.
pub open spec fn two_to(n: nat) -> nat
    decreases n,
{
    if n == 0 {
        1
    } else {
        2 * two_to((n - 1) as nat)
    }
}

/// Seconds to wait after `errors` failed attempts in a row: the wait doubles with every
/// failure and stops growing at a minute.
pub open spec fn delay_after(errors: nat) -> nat {
    if two_to(errors) < MAX_DELAY_SECS {
        two_to(errors)
    } else {
        MAX_DELAY_SECS as nat
    }
}

/// The offset to ask for next, having seen the updates `ids` in turn: one past the
/// largest id seen, and never less than before.
pub open spec fn offset_after(offset: nat, ids: Seq<u32>) -> nat
    decreases ids.len(),
{
    if ids.len() == 0 {
        offset
    } else {
        let before = offset_after(offset, ids.drop_last());
        if before < ids.last() + 1 {
            (ids.last() + 1) as nat
        } else {
            before
        }
    }
}

/// The ids of `updates`, in order.
pub open spec fn update_ids(updates: Seq<Update>) -> Seq<u32> {
    Seq::new(updates.len(), |i: int| updates[i].update_id)
}

/// Where the polling stands: the offset to ask for next, and how many attempts in a row
/// have failed.
#[derive(Debug, Clone, Copy, PartialEq, Eq, Structural)]
pub struct Polling {
    pub offset: u32,
    pub errors: u32,
}

impl Polling {
    /// The start: everything is asked for, nothing has failed.
    pub fn new() -> (p: Polling)
        ensures
            p == (Polling { offset: 0, errors: 0 }),
    {
        Polling { offset: 0, errors: 0 }
    }

    /// A batch of updates has arrived: the failures are forgotten, and the offset moves
    /// past every update of the batch.
    pub fn received(&mut self, updates: &[Update])
        requires
            forall|i: int| 0 <= i < updates@.len() ==> (#[trigger] updates@[i]).update_id < u32::MAX,
        ensures
            final(self).errors == 0,
            final(self).offset == offset_after(old(self).offset as nat, update_ids(updates@)),
    {
        self.errors = 0;
        let mut i: usize = 0;
        while i < updates.len()
            invariant
                i <= updates.len(),
                forall|i: int|
                    0 <= i < updates@.len() ==> (#[trigger] updates@[i]).update_id < u32::MAX,
                self.errors == 0,
                self.offset == offset_after(
                    old(self).offset as nat,
                    update_ids(updates@).take(i as int),
                ),
            decreases updates.len() - i,
        {
            let id = updates[i].update_id;
            proof {
                let next = update_ids(updates@).take(i as int + 1);
                assert(next.drop_last() =~= update_ids(updates@).take(i as int));
                assert(next.last() == id);
            }
            if self.offset < id + 1 {
                self.offset = id + 1;
            }
            i = i + 1;
        }
        assert(update_ids(updates@).take(updates.len() as int) =~= update_ids(updates@));
    }

    /// An attempt has failed: counts it and tells how many seconds to wait before the next.
    /// The count stops at the largest number it can hold; the wait has long stopped growing
    /// by then.
    pub fn failed(&mut self) -> (secs: u64)
        ensures
            final(self).offset == old(self).offset,
            final(self).errors == if old(self).errors < u32::MAX {
                (old(self).errors + 1) as u32
            } else {
                u32::MAX
            },
            secs == delay_after(final(self).errors as nat),
    {
        if self.errors < u32::MAX {
            self.errors = self.errors + 1;
        }
        let mut secs: u64 = 1;
        let mut i: u32 = 0;
        while i < self.errors && secs < MAX_DELAY_SECS
            invariant
                i <= self.errors,
                secs == two_to(i as nat),
                secs < 2 * MAX_DELAY_SECS,
            decreases self.errors - i,
        {
            secs = 2 * secs;
            i = i + 1;
        }
        proof {
            lemma_two_to_grows(i as nat, self.errors as nat);
        }
        if secs < MAX_DELAY_SECS {
            secs
        } else {
            MAX_DELAY_SECS
        }
    }
}

/// A larger power of two is not smaller.
pub proof fn lemma_two_to_grows(a: nat, b: nat)
    requires
        a <= b,
    ensures
        two_to(a) <= two_to(b),
    decreases b - a,
{
    if a < b {
        lemma_two_to_grows(a, (b - 1) as nat);
    }
}

/// The message that the guest asks to send: to the chat it names, with the text it left
/// at `message` in its memory.
pub fn send_message(memory: &[u8], chat_id: i64, message: i32) -> (r: Result<
    SendMessage,
    CallError,
>)
    ensures
        match string_at(memory@, message as int) {
            Ok(text) => r matches Ok(out) && out.chat_id == chat_id && out.text@ == text,
            Err(e) => r matches Err(found) && found == e,
        },
{
    match read_asc_string(memory, message) {
        Ok(text) => Ok(SendMessage { chat_id, text }),
        Err(e) => Err(e),
    }
}

} // verus!
