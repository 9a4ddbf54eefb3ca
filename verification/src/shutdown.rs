//! Graceful shutdown: the signal that is broadcast, and how a task waits for it.
//!
//! A controller shares one [`DrainSignal`] with any number of tokens. It is
//! fired by SIGTERM, by SIGINT or by hand, and it stays fired. A task that
//! waits is led by a [`Wait`]: it reads the signal, sleeps until the signal
//! changes, and returns once the signal was fired or nobody is left to fire it.

use vstd::prelude::*;

verus! {

/// The drain signal, as a channel carries it: fired or not.
#[derive(Debug, Clone, Copy, PartialEq, Eq, Structural)]
pub struct DrainSignal {
    fired: bool,
}

impl View for DrainSignal {
    type V = bool;

    closed spec fn view(&self) -> bool {
        self.fired
    }
}

impl DrainSignal {
    /// A signal that has not been fired.
    #[must_use]
    pub fn new() -> (r: Self)
        ensures
            !r@,
    {
        DrainSignal { fired: false }
    }

    /// Fire the signal. Idempotent: a signal that has been fired stays as it is.
    pub fn shutdown(&mut self)
        ensures
            final(self)@,
            old(self)@ ==> *final(self) == *old(self),
    {
        self.fired = true;
    }

    /// True if shutdown has been triggered.
    #[must_use]
    pub fn is_triggered(&self) -> (r: bool)
        ensures
            r == self@,
    {
        self.fired
    }
}

/// What a waiting task does next.
#[derive(Debug, Clone, Copy, PartialEq, Eq, Structural)]
pub enum WaitAction {
    /// Read the signal.
    ReadSignal,
    /// Sleep until the signal changes.
    AwaitChange,
    /// Stop waiting.
    Return,
}

/// What a waiting task observed.
#[derive(Debug, Clone, Copy, PartialEq, Eq, Structural)]
pub enum WaitEvent {
    /// The signal reads so.
    Signal(DrainSignal),
    /// The signal has changed.
    Changed,
    /// The controller was dropped: the signal will never change again.
    ControllerGone,
}

/// What to do after `e`. An event that does not answer `action` changes
/// nothing.
pub open spec fn next_action(action: WaitAction, e: WaitEvent) -> WaitAction {
    match (action, e) {
        (WaitAction::ReadSignal, WaitEvent::Signal(signal)) => if signal@ {
            WaitAction::Return
        } else {
            WaitAction::AwaitChange
        },
        (WaitAction::AwaitChange, WaitEvent::Changed) => WaitAction::ReadSignal,
        // Nobody can fire the signal any more, so waiting would have no end.
        (WaitAction::AwaitChange, WaitEvent::ControllerGone) => WaitAction::Return,
        _ => action,
    }
}

/// A task's wait for the drain signal; the view is what the task does next.
#[derive(Debug, Clone, Copy)]
pub struct Wait {
    action: WaitAction,
}

impl View for Wait {
    type V = WaitAction;

    closed spec fn view(&self) -> WaitAction {
        self.action
    }
}

impl Wait {
    /// Starts to wait.
    #[must_use]
    pub fn start() -> (r: Self)
        ensures
            r@ == WaitAction::ReadSignal,
    {
        Wait { action: WaitAction::ReadSignal }
    }

    /// What to do next.
    #[must_use]
    pub fn action(&self) -> (r: WaitAction)
        ensures
            r == self@,
    {
        self.action
    }

    /// Takes in what the task observed.
    pub fn observe(&mut self, e: WaitEvent)
        ensures
            final(self)@ == next_action(old(self)@, e),
    {
        match (self.action, e) {
            (WaitAction::ReadSignal, WaitEvent::Signal(signal)) => {
                self.action = if signal.is_triggered() {
                    WaitAction::Return
                } else {
                    WaitAction::AwaitChange
                };
            },
            (WaitAction::AwaitChange, WaitEvent::Changed) => {
                self.action = WaitAction::ReadSignal;
            },
            (WaitAction::AwaitChange, WaitEvent::ControllerGone) => {
                self.action = WaitAction::Return;
            },
            _ => {},
        }
    }
}

/// What a task does next after it has waited through `events`.
pub open spec fn after_events(action: WaitAction, events: Seq<WaitEvent>) -> WaitAction
    decreases events.len(),
{
    if events.len() == 0 {
        action
    } else {
        next_action(after_events(action, events.drop_last()), events.last())
    }
}

/// `e` is a reason to stop waiting.
pub open spec fn ends_a_wait(e: WaitEvent) -> bool {
    match e {
        WaitEvent::Signal(signal) => signal@,
        WaitEvent::ControllerGone => true,
        WaitEvent::Changed => false,
    }
}

/// A task that starts to wait after the signal was fired returns at once.
pub proof fn law_late_waiter_returns_at_once(signal: DrainSignal)
    requires
        signal@,
    ensures
        next_action(WaitAction::ReadSignal, WaitEvent::Signal(signal)) == WaitAction::Return,
{
}

/// A sleeping task returns once it is woken for a fired signal, or once the
/// controller is gone.
pub proof fn law_sleeper_is_woken(signal: DrainSignal)
    requires
        signal@,
    ensures
        after_events(WaitAction::AwaitChange, seq![WaitEvent::Changed, WaitEvent::Signal(signal)])
            == WaitAction::Return,
        next_action(WaitAction::AwaitChange, WaitEvent::ControllerGone) == WaitAction::Return,
{
    let events = seq![WaitEvent::Changed, WaitEvent::Signal(signal)];
    reveal_with_fuel(after_events, 3);
    assert(events.drop_last() =~= seq![WaitEvent::Changed]);
    assert(events.drop_last().drop_last() =~= seq![]);
}

/// A wait never ends for no reason: some event showed the signal fired, or the
/// controller gone.
pub proof fn law_wait_ends_only_for_a_reason(events: Seq<WaitEvent>)
    requires
        after_events(WaitAction::ReadSignal, events) == WaitAction::Return,
    ensures
        exists|i: int| 0 <= i < events.len() && ends_a_wait(#[trigger] events[i]),
    decreases events.len(),
{
    if events.len() > 0 {
        let before = events.drop_last();
        if after_events(WaitAction::ReadSignal, before) == WaitAction::Return {
            law_wait_ends_only_for_a_reason(before);
            let i = choose|i: int| 0 <= i < before.len() && ends_a_wait(#[trigger] before[i]);
            assert(events[i] == before[i]);
        } else {
            assert(ends_a_wait(events[events.len() - 1]));
        }
    }
}

/// A wait that has ended stays ended.
pub proof fn law_ended_wait_stays_ended(events: Seq<WaitEvent>)
    ensures
        after_events(WaitAction::Return, events) == WaitAction::Return,
    decreases events.len(),
{
    if events.len() > 0 {
        law_ended_wait_stays_ended(events.drop_last());
    }
}

/// From the `k`th value on to the next, the signal was fired or left alone.
pub open spec fn fired_or_kept(values: Seq<bool>, k: int) -> bool {
    values[k + 1] == values[k] || values[k + 1]
}

/// `values` is what one signal holds, in turn, as whoever shares it fires it.
pub open spec fn is_course(values: Seq<bool>) -> bool {
    forall|k: int| 0 <= k < values.len() - 1 ==> #[trigger] fired_or_kept(values, k)
}

/// Once a signal was fired it stays fired for all who share it, however often it
/// is fired again.
pub proof fn law_firing_is_for_good(values: Seq<bool>, i: int, j: int)
    requires
        is_course(values),
        0 <= i <= j < values.len(),
        values[i],
    ensures
        values[j],
    decreases j - i,
{
    if i < j {
        law_firing_is_for_good(values, i, j - 1);
        assert(fired_or_kept(values, j - 1));
    }
}

/// Once a signal was fired, every task that waits for it returns when it next
/// reads the signal, whether it was about to read or is woken for a change.
pub proof fn law_every_waiter_returns(values: Seq<bool>, i: int, j: int, signal: DrainSignal)
    requires
        is_course(values),
        0 <= i <= j < values.len(),
        values[i],
        signal@ == values[j],
    ensures
        next_action(WaitAction::ReadSignal, WaitEvent::Signal(signal)) == WaitAction::Return,
        after_events(WaitAction::AwaitChange, seq![WaitEvent::Changed, WaitEvent::Signal(signal)])
            == WaitAction::Return,
{
    law_firing_is_for_good(values, i, j);
    law_late_waiter_returns_at_once(signal);
    law_sleeper_is_woken(signal);
}

/// A task that waits reads, sleeps and returns in that order: it sleeps exactly
/// when it has read a signal that was not fired, reads again when it is woken,
/// returns for a fired signal or a controller that is gone while it sleeps, and
/// takes no notice of anything that it did not ask for.
pub proof fn law_steps_of_a_wait(action: WaitAction, e: WaitEvent)
    ensures
        ({
            let after = next_action(action, e);
            &&& after is AwaitChange <==> (action is ReadSignal && (e matches WaitEvent::Signal(
                signal,
            ) && !signal@)) || (action is AwaitChange && e is Signal)
            &&& after is ReadSignal <==> (action is AwaitChange && e is Changed) || (action
                is ReadSignal && !(e is Signal))
            &&& after is Return <==> action is Return || (action is ReadSignal && (
            e matches WaitEvent::Signal(signal) && signal@)) || (action is AwaitChange && e
                is ControllerGone)
        }),
{
}

/// A new signal has not been fired, and is told apart from one that was.
pub proof fn law_new_signal_is_not_fired(signal: DrainSignal, r: bool)
    requires
        call_ensures(DrainSignal::new, (), signal),
        call_ensures(DrainSignal::is_triggered, (&signal,), r),
    ensures
        !r,
{
}

} // verus!
