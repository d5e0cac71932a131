//! The process-wide event surface: interconnect messages raised for
//! inbound third-party app traffic, kept on a bounded bus whose slow
//! readers miss the oldest events.

use vstd::prelude::*;

verus! {

/// The capacity of the event bus.
pub const EVENT_CHANNEL_CAPACITY: usize = 64;

/// An inbound third-party app message, named for its device and package.
pub struct InterconnectMessage {
    pub device_addr: String,
    pub pkg_name: String,
    pub payload: Vec<u8>,
}

/// An event the embedding application consumes.
pub enum CoreEvent {
    InterconnectMessage(InterconnectMessage),
}

/// The bounded event bus: emitting onto a full bus drops the oldest
/// event.
pub struct EventBus {
    pub queue: Vec<CoreEvent>,
}

impl EventBus {
    /// Never more events than the capacity.
    pub open spec fn wf(&self) -> bool {
        self.queue@.len() <= EVENT_CHANNEL_CAPACITY
    }

    /// An empty bus.
    pub fn new() -> (r: EventBus)
        ensures
            r.wf(),
            r.queue@.len() == 0,
    {
        EventBus { queue: Vec::new() }
    }

    /// Emits one event: it joins the back; where the bus is full, the
    /// oldest event leaves.
    pub fn emit(&mut self, event: CoreEvent)
        requires
            old(self).wf(),
        ensures
            final(self).wf(),
            old(self).queue@.len() < EVENT_CHANNEL_CAPACITY ==> final(self).queue@ == old(
                self,
            ).queue@.push(event),
            old(self).queue@.len() == EVENT_CHANNEL_CAPACITY ==> final(self).queue@ == old(
                self,
            ).queue@.skip(1).push(event),
    {
        if self.queue.len() == EVENT_CHANNEL_CAPACITY {
            let _ = self.queue.remove(0);
        }
        self.queue.push(event);
    }

    /// Takes the oldest event, if any.
    pub fn pop(&mut self) -> (r: Option<CoreEvent>)
        requires
            old(self).wf(),
        ensures
            final(self).wf(),
            r is Some <==> old(self).queue@.len() > 0,
            r is Some ==> final(self).queue@ == old(self).queue@.skip(1),
            r is None ==> final(self).queue@ == old(self).queue@,
    {
        if self.queue.len() == 0 {
            return None;
        }
        Some(self.queue.remove(0))
    }
}

} // verus!
