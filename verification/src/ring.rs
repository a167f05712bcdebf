//! The bounded message buffer: `ringbuffer::AllocRingBuffer` of log messages.
use vstd::prelude::*;

use ringbuffer::{AllocRingBuffer, RingBuffer};

use crate::models::LogMessage;

verus! {

#[verifier::external_type_specification]
#[verifier::external_body]
#[verifier::reject_recursive_types(T)]
pub struct ExAllocRingBuffer<T>(AllocRingBuffer<T>);

/// The messages a buffer holds, oldest first.
pub uninterp spec fn ring_contents(b: AllocRingBuffer<LogMessage>) -> Seq<LogMessage>;

/// The capacity a buffer was created with.
pub uninterp spec fn ring_capacity(b: AllocRingBuffer<LogMessage>) -> nat;

/// A capacity for which a buffer can be allocated without the layout computation failing:
/// positive, and small enough that the power-of-two allocation of messages stays
/// below `isize::MAX` bytes.
pub open spec fn capacity_fits(n: nat) -> bool {
    0 < n <= (isize::MAX as nat) / 512
}

/// The contents after a push: the oldest message leaves when the buffer is full.
pub open spec fn pushed(s: Seq<LogMessage>, capacity: nat, m: LogMessage) -> Seq<LogMessage> {
    if s.len() == capacity {
        s.drop_first().push(m)
    } else {
        s.push(m)
    }
}

/// The largest capacity `capacity_fits` admits.
pub fn capacity_limit() -> (r: usize)
    ensures
        r as nat == (isize::MAX as nat) / 512,
{
    (isize::MAX as usize) / 512
}

/// Calls `AllocRingBuffer::new`: an empty buffer of the given capacity.
/// `new` panics on a zero capacity and when the layout of the allocation
/// overflows; `capacity_fits` excludes both for messages of at most 256 bytes
/// (a `LogMessage` is about half that). Whether the allocator itself succeeds
/// is not stated.
#[verifier::external_body]
pub(crate) fn ring_new(capacity: usize) -> (r: AllocRingBuffer<LogMessage>)
    requires
        capacity_fits(capacity as nat),
    ensures
        ring_contents(r) == Seq::<LogMessage>::empty(),
        ring_capacity(r) == capacity as nat,
{
    AllocRingBuffer::<LogMessage>::new(capacity)
}

/// Calls `RingBuffer::push`: appends `m`, first dropping the oldest message when
/// the buffer is full. (The read and write counters are plain `usize`s; the
/// 2^64-th write is not considered.)
#[verifier::external_body]
pub(crate) fn ring_push(b: &mut AllocRingBuffer<LogMessage>, m: LogMessage)
    ensures
        ring_capacity(*final(b)) == ring_capacity(*old(b)),
        ring_contents(*final(b)) == pushed(ring_contents(*old(b)), ring_capacity(*old(b)), m),
{
    b.push(m);
}

/// Calls `RingBuffer::len`: the number of messages held.
#[verifier::external_body]
pub(crate) fn ring_len(b: &AllocRingBuffer<LogMessage>) -> (n: usize)
    ensures
        n as nat == ring_contents(*b).len(),
{
    b.len()
}

/// Calls `RingBuffer::get`: `None` on an empty buffer, else the message at
/// position `i` modulo the length, counted from the oldest.
#[verifier::external_body]
pub(crate) fn ring_get(b: &AllocRingBuffer<LogMessage>, i: usize) -> (r: Option<&LogMessage>)
    ensures
        ring_contents(*b).len() == 0 ==> r is None,
        ring_contents(*b).len() > 0 ==> r == Some(
            &ring_contents(*b)[(i as nat % ring_contents(*b).len()) as int],
        ),
{
    b.get(i)
}

} // verus!
