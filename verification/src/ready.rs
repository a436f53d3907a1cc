//! What the server has to send before the client can be used.
use vstd::prelude::*;

verus! {

/// Which of the two lists that the client waits for have arrived.
#[derive(Clone, Copy, Debug, PartialEq, Eq, Structural)]
pub struct Ready {
    pub monitor_list: bool,
    pub notification_list: bool,
}

impl Ready {
    /// Neither list has arrived.
    pub open spec fn none() -> Ready {
        Ready { monitor_list: false, notification_list: false }
    }

    /// Both lists have arrived.
    pub open spec fn complete(self) -> bool {
        self.monitor_list && self.notification_list
    }

    /// The state before anything has arrived.
    pub fn new() -> (r: Self)
        ensures
            r == Ready::none(),
    {
        Self { monitor_list: false, notification_list: false }
    }

    /// Forgets what has arrived.
    pub fn reset(&mut self)
        ensures
            *final(self) == Ready::none(),
    {
        *self = Ready::new();
    }

    /// Whether both lists have arrived.
    pub fn is_ready(&self) -> (r: bool)
        ensures
            r == self.complete(),
    {
        self.monitor_list && self.notification_list
    }
}

/// The client can be used once the one list and the other have arrived; at first neither has.
pub proof fn law_ready_needs_both(ready: Ready)
    ensures
        ready.complete() <==> ready.monitor_list && ready.notification_list,
        !Ready::none().monitor_list,
        !Ready::none().notification_list,
{
}

} // verus!
