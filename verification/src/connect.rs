//! Making a connection, and waiting until the server has sent what the client needs.
use crate::error::Error;
use crate::error::ErrorView;
use crate::ready::Ready;
use crate::worker::Worker;
use crate::worker::WorkerView;
use vstd::prelude::*;

verus! {

/// How often the client looks whether the server is ready.
pub const ATTEMPTS: u64 = 10;

/// By how many milliseconds the pause after one look is longer than the one before.
pub const PAUSE: u64 = 200;

/// What to do while a connection is made.
#[derive(Debug)]
pub enum ConnectStep {
    /// The connection is made.
    Connected,
    /// Wait for this many milliseconds and look again.
    Wait(u64),
    /// The connection was not made in time.
    Failed(Error),
}

/// What a `ConnectStep` holds.
pub enum ConnectStepView {
    Connected,
    Wait(nat),
    Failed(ErrorView),
}

impl View for ConnectStep {
    type V = ConnectStepView;

    open spec fn view(&self) -> ConnectStepView {
        match *self {
            ConnectStep::Connected => ConnectStepView::Connected,
            ConnectStep::Wait(millis) => ConnectStepView::Wait(millis as nat),
            ConnectStep::Failed(error) => ConnectStepView::Failed(error@),
        }
    }
}

/// The state when a connection is about to be made: nothing has arrived over it, and the client is
/// not logged in. What the server sent before, and that it was reached, stays known.
pub open spec fn connecting(worker: WorkerView) -> WorkerView {
    WorkerView { is_ready: Ready::none(), is_logged_in: false, ..worker }
}

/// What the look number `attempt`, counted from 0, calls for.
pub open spec fn connect_verdict(worker: WorkerView, attempt: nat) -> ConnectStepView {
    if attempt >= 10 {
        ConnectStepView::Failed(
            if worker.is_connected {
                ErrorView::NotAuthenticated
            } else {
                ErrorView::ConnectionTimeout
            },
        )
    } else if worker.is_ready.complete() {
        ConnectStepView::Connected
    } else {
        ConnectStepView::Wait(200 * attempt)
    }
}

impl Worker {
    /// Prepares for a connection that is about to be made.
    pub fn connect(&mut self)
        ensures
            final(self)@ == connecting(old(self)@),
    {
        self.is_ready.reset();
        self.is_logged_in = false;
    }

    /// What the look number `attempt`, counted from 0, calls for.
    pub fn connect_step(&self, attempt: u64) -> (r: ConnectStep)
        ensures
            r@ == connect_verdict(self@, attempt as nat),
    {
        if attempt >= ATTEMPTS {
            if self.is_connected {
                ConnectStep::Failed(Error::NotAuthenticated)
            } else {
                ConnectStep::Failed(Error::ConnectionTimeout)
            }
        } else if self.is_ready() {
            ConnectStep::Connected
        } else {
            ConnectStep::Wait(PAUSE * attempt)
        }
    }
}

/// The milliseconds that the first looks call for in all, where the server does not get ready.
pub open spec fn total_wait(looks: nat) -> nat
    decreases looks,
{
    if looks == 0 {
        0
    } else {
        total_wait((looks - 1) as nat) + 200 * (looks - 1) as nat
    }
}

/// The look number `attempt` at a server that is not ready calls for a wait that brings the total to
/// `total_wait`, or, where the looks are used up, for giving up; by then the waits make nine seconds.
pub proof fn law_waits_then_gives_up(worker: WorkerView, attempt: nat)
    requires
        !worker.is_ready.complete(),
    ensures
        attempt < 10 ==> connect_verdict(worker, attempt) == ConnectStepView::Wait(
            (total_wait(attempt + 1) - total_wait(attempt)) as nat,
        ),
        attempt >= 10 ==> connect_verdict(worker, attempt) is Failed,
        total_wait(10) == 9000,
{
    reveal_with_fuel(total_wait, 11);
}

/// A server that is reached is never reported as out of reach, and one that is not reached is never
/// reported as refusing.
pub proof fn law_failure_tells_reach(worker: WorkerView, attempt: nat)
    ensures
        connect_verdict(worker, attempt) == ConnectStepView::Failed(ErrorView::ConnectionTimeout)
            ==> !worker.is_connected,
        connect_verdict(worker, attempt) == ConnectStepView::Failed(ErrorView::NotAuthenticated)
            ==> worker.is_connected,
        connect_verdict(worker, attempt) matches ConnectStepView::Failed(error) ==> error
            == ErrorView::ConnectionTimeout || error == ErrorView::NotAuthenticated,
{
}

/// Every look at a server that has sent both lists ends the wait, as long as the looks are not used
/// up; one that finds a list missing calls for a pause that is longer by 200 milliseconds from look to
/// look. Connecting fails only once the ten looks are used up, and then always, as not let in where
/// the server was reached and as timed out where it was not.
pub proof fn law_look_decides(worker: WorkerView, attempt: nat)
    ensures
        attempt < 10 && worker.is_ready.monitor_list && worker.is_ready.notification_list
            ==> connect_verdict(worker, attempt) is Connected,
        attempt < 10 && !(worker.is_ready.monitor_list && worker.is_ready.notification_list)
            ==> connect_verdict(worker, attempt) == ConnectStepView::Wait(200 * attempt),
        connect_verdict(worker, attempt) is Failed <==> attempt >= 10,
        attempt >= 10 && worker.is_connected ==> connect_verdict(worker, attempt)
            == ConnectStepView::Failed(ErrorView::NotAuthenticated),
        attempt >= 10 && !worker.is_connected ==> connect_verdict(worker, attempt)
            == ConnectStepView::Failed(ErrorView::ConnectionTimeout),
{
}

/// Before a connection is made the client waits for both lists again and is not logged in; what it
/// knows of the server, and how it is set up, stays.
pub proof fn law_connecting_forgets_arrival(worker: WorkerView)
    ensures
        !connecting(worker).is_ready.monitor_list,
        !connecting(worker).is_ready.notification_list,
        !connecting(worker).is_logged_in,
        connecting(worker).config == worker.config,
        connecting(worker).monitors == worker.monitors,
        connecting(worker).notifications == worker.notifications,
        connecting(worker).is_connected == worker.is_connected,
{
}

/// Two steps that count as the same are the same: that the connection is made, how long to wait, or
/// why it failed.
pub proof fn law_step_view_is_faithful(a: ConnectStep, b: ConnectStep)
    requires
        a@ == b@,
    ensures
        a is Connected <==> b is Connected,
        a matches ConnectStep::Wait(millis) ==> b == ConnectStep::Wait(millis),
        a matches ConnectStep::Failed(error) ==> b matches ConnectStep::Failed(other) && error@
            == other@,
{
}

} // verus!
