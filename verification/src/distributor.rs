//! Fan-out of telemetry frames to several consumers: each consumer has a
//! bounded channel of its own, and a frame that finds a consumer's channel
//! full is dropped for that consumer rather than waited for. Frames are
//! shared, not copied.

use vstd::prelude::*;
use std::sync::Arc;
use crate::dashboard::SendError;

verus! {

#[verifier::external_type_specification]
#[verifier::external_body]
#[verifier::reject_recursive_types(T)]
pub struct ExSender<T>(crossbeam_channel::Sender<T>);

#[verifier::external_type_specification]
#[verifier::external_body]
#[verifier::reject_recursive_types(T)]
pub struct ExReceiver<T>(crossbeam_channel::Receiver<T>);

/// The largest channel capacity a consumer may ask for. Each slot of a
/// channel's buffer takes 16 bytes (a stamp and a shared pointer), and a
/// buffer larger than `isize::MAX` bytes is refused with a panic; the
/// channel's lap counters overflow only at a larger capacity.
pub const MAX_CHANNEL_CAPACITY: usize = usize::MAX / 32;

/// A new bounded channel of capacity `cap`.
///
/// Calls `crossbeam_channel::bounded`, which panics only for capacities too
/// large to set up, excluded by the bound. A buffer that the allocator
/// cannot give ends the process, which depends on the machine and is not
/// stated. Nothing is stated of the two ends beyond their types: what they
/// carry is shared with other threads.
#[verifier::external_body]
fn bounded_channel<T>(cap: usize) -> (r: (crossbeam_channel::Sender<Arc<T>>, crossbeam_channel::Receiver<Arc<T>>))
    requires
        cap <= MAX_CHANNEL_CAPACITY,
{
    crossbeam_channel::bounded(cap)
}

/// Offer a message to a channel without waiting.
///
/// Calls `crossbeam_channel::Sender::try_send` and tells its two errors
/// apart: the channel is full, or every receiver is gone. Which outcome
/// comes depends on what other threads did with the channel, so the
/// contract states none.
#[verifier::external_body]
pub(crate) fn try_send<T>(sender: &crossbeam_channel::Sender<T>, msg: T) -> (r: Result<(), SendError>) {
    match sender.try_send(msg) {
        Ok(()) => Ok(()),
        Err(crossbeam_channel::TrySendError::Full(_)) => Err(SendError::ChannelFull),
        Err(crossbeam_channel::TrySendError::Disconnected(_)) => Err(SendError::Disconnected),
    }
}

/// Distributes frames to the consumers added to it.
#[verifier::reject_recursive_types(T)]
pub struct TelemetryDistributor<T> {
    senders: Vec<crossbeam_channel::Sender<Arc<T>>>,
    capacity: usize,
}

impl<T> TelemetryDistributor<T> {
    /// How many consumers were added.
    pub closed spec fn consumers(&self) -> nat {
        self.senders@.len()
    }

    /// The capacity of each consumer's channel.
    pub closed spec fn channel_capacity(&self) -> usize {
        self.capacity
    }

    /// A distributor without consumers whose channels will hold `capacity`
    /// frames each.
    pub fn new(capacity: usize) -> (r: Self)
        ensures
            r.consumers() == 0,
            r.channel_capacity() == capacity,
    {
        TelemetryDistributor { senders: Vec::new(), capacity }
    }

    /// Add a consumer and hand out the receiving end of its channel.
    pub fn add_consumer(&mut self) -> (rx: crossbeam_channel::Receiver<Arc<T>>)
        requires
            old(self).channel_capacity() <= MAX_CHANNEL_CAPACITY,
        ensures
            final(self).consumers() == old(self).consumers() + 1,
            final(self).channel_capacity() == old(self).channel_capacity(),
    {
        let (tx, rx) = bounded_channel(self.capacity);
        self.senders.push(tx);
        rx
    }

    /// Offer a frame to every consumer, in the order they were added; a
    /// consumer whose channel is full or closed does not get it. The
    /// consumers stay as they are.
    pub fn distribute(&self, frame: Arc<T>) {
        let mut k: usize = 0;
        while k < self.senders.len()
            invariant
                k <= self.senders@.len(),
            decreases self.senders@.len() - k,
        {
            let _ = try_send(&self.senders[k], Arc::clone(&frame));
            k = k + 1;
        }
    }

    /// How many consumers were added.
    pub fn consumer_count(&self) -> (n: usize)
        ensures
            n == self.consumers(),
    {
        self.senders.len()
    }
}

} // verus!
