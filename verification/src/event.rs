use vstd::prelude::*;

use std::sync::Arc;

use crate::event_names::EventName;
use crate::id::Id;

verus! {

/// An event sent to a process: shared data plus who sent it.
pub struct Event {
    pub info: Arc<EventInfo>,
    pub sent_by_pid: Id,
}

/// The part of an event shared by every copy of it that is passed on.
pub struct EventInfo {
    pub data: Vec<u8>,
    pub interned_name: EventName,
}

/// `Arc::clone`: another pointer to the same allocation, so the same value.
#[verifier::external_body]
fn share(info: &Arc<EventInfo>) -> (r: Arc<EventInfo>)
    ensures
        *r == **info,
{
    Arc::clone(info)
}

impl Event {
    pub fn new(data: Vec<u8>, sent_by_pid: Id, interned_name: EventName) -> (e: Self)
        ensures
            e.info.data@ == data@,
            e.info.interned_name == interned_name,
            e.sent_by_pid == sent_by_pid,
    {
        Self { info: Arc::new(EventInfo { data, interned_name }), sent_by_pid }
    }

    /// The same event, passed on by `sender`.
    pub fn from_resent(event: &Event, sender: Id) -> (e: Self)
        ensures
            e.info == event.info,
            e.sent_by_pid == sender,
    {
        Self { info: share(&event.info), sent_by_pid: sender }
    }

    pub fn data(&self) -> (d: &[u8])
        ensures
            d@ == self.info.data@,
    {
        self.info.data.as_slice()
    }

    pub fn interned_name(&self) -> (n: EventName)
        ensures
            n == self.info.interned_name,
    {
        self.info.interned_name
    }
}

} // verus!
