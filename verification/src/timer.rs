//! What a timer on the run loop is to whoever awaits it. The run loop's own timer is made, moved and
//! invalidated by the caller, as the steps here say.
use vstd::prelude::*;

verus! {

#[derive(Clone, Copy, Debug, PartialEq, Eq, Structural)]
pub enum TimerStatus {
    Pending,
    Cancelled,
    Fired,
}

/// One-shot or repeating timer; awaiting it yields when it fires, or immediately after it was
/// cancelled.
#[derive(Clone, Copy, Debug, PartialEq, Eq, Structural)]
pub struct Timer {
    /// Whether it is on a run loop.
    pub installed: bool,
    /// Whether somebody waits for it.
    pub awaited: bool,
    pub status: TimerStatus,
}

/// What somebody who asks a timer is told.
#[derive(Clone, Copy, Debug, PartialEq, Eq, Structural)]
pub enum Polled {
    /// It has fired since it was last asked.
    Fired,
    /// It will not fire any more.
    Ended,
    /// Not yet; whoever asked is woken when it fires or is cancelled.
    Waiting,
}

/// What cancelling a timer calls for.
#[derive(Clone, Copy, Debug, PartialEq, Eq, Structural)]
pub struct Cancellation {
    /// Take it off the run loop.
    pub invalidate: bool,
    /// Wake whoever waits.
    pub wake: bool,
}

impl Timer {
    /// A timer on a run loop that has not fired.
    pub fn new() -> (timer: Self)
        ensures
            timer == (Timer { installed: true, awaited: false, status: TimerStatus::Pending }),
    {
        Timer { installed: true, awaited: false, status: TimerStatus::Pending }
    }

    /// The run loop reached the fire date. Says whether somebody is to be woken; nobody waits
    /// any more.
    pub fn fire(&mut self) -> (wake: bool)
        ensures
            wake == old(self).awaited,
            *final(self) == (Timer { awaited: false, status: TimerStatus::Fired, ..*old(self) }),
            *final(self) == old(self).fired(),
    {
        self.status = TimerStatus::Fired;
        let wake = self.awaited;
        self.awaited = false;
        wake
    }

    /// Whether there is a timer on the run loop whose next fire can be set.
    pub fn set_next_fire(&self) -> (settable: bool)
        ensures
            settable == self.installed,
    {
        self.installed
    }

    /// Takes the timer off the run loop for good.
    pub fn cancel(&mut self) -> (calls_for: Cancellation)
        ensures
            calls_for == (Cancellation {
                invalidate: old(self).installed,
                wake: old(self).awaited,
            }),
            *final(self) == (Timer {
                installed: false,
                awaited: false,
                status: TimerStatus::Cancelled,
            }),
            *final(self) == old(self).cancelled(),
    {
        let calls_for = Cancellation { invalidate: self.installed, wake: self.awaited };
        self.installed = false;
        self.status = TimerStatus::Cancelled;
        self.awaited = false;
        calls_for
    }

    /// Asks the timer. A fire is told once; a timer that has not fired remembers who asked.
    pub fn poll_next(&mut self) -> (polled: Polled)
        ensures
            polled == match old(self).status {
                TimerStatus::Cancelled => Polled::Ended,
                TimerStatus::Fired => Polled::Fired,
                TimerStatus::Pending => Polled::Waiting,
            },
            polled == old(self).told(),
            *final(self) == old(self).asked(),
    {
        match self.status {
            TimerStatus::Cancelled => Polled::Ended,
            TimerStatus::Fired => {
                self.status = TimerStatus::Pending;
                Polled::Fired
            },
            TimerStatus::Pending => {
                self.awaited = true;
                Polled::Waiting
            },
        }
    }

    /// The timer after it was asked.
    pub open spec fn asked(self) -> Self {
        match self.status {
            TimerStatus::Cancelled => self,
            TimerStatus::Fired => Timer { status: TimerStatus::Pending, ..self },
            TimerStatus::Pending => Timer { awaited: true, ..self },
        }
    }

    /// The timer after the fire date.
    pub open spec fn fired(self) -> Self {
        Timer { awaited: false, status: TimerStatus::Fired, ..self }
    }

    /// The timer after it was cancelled.
    pub open spec fn cancelled(self) -> Self {
        Timer { installed: false, awaited: false, status: TimerStatus::Cancelled }
    }

    /// What asking the timer tells.
    pub open spec fn told(self) -> Polled {
        match self.status {
            TimerStatus::Cancelled => Polled::Ended,
            TimerStatus::Fired => Polled::Fired,
            TimerStatus::Pending => Polled::Waiting,
        }
    }

    /// Whether awaiting the timer completes: it has fired, or never will.
    pub fn poll(&mut self) -> (ready: bool)
        ensures
            ready == (old(self).status != TimerStatus::Pending),
            ready == (old(self).told() != Polled::Waiting),
            *final(self) == old(self).asked(),
    {
        match self.poll_next() {
            Polled::Waiting => false,
            Polled::Fired | Polled::Ended => true,
        }
    }
}

/// A fire is told once: whoever asks again right away has to wait.
pub proof fn a_fire_is_told_once(timer: Timer)
    ensures
        timer.status == TimerStatus::Fired ==> timer.asked().status == TimerStatus::Pending,
{
}

/// A cancelled timer stays cancelled however often it is asked.
pub proof fn a_cancelled_timer_stays_cancelled(timer: Timer)
    ensures
        timer.status == TimerStatus::Cancelled ==> timer.asked() == timer,
{
}

/// Nobody is forgotten: a timer that told somebody to wait wakes them when it fires or is cancelled.
pub proof fn whoever_waits_is_woken(timer: Timer)
    ensures
        timer.status == TimerStatus::Pending ==> timer.asked().awaited,
        timer.status != TimerStatus::Pending ==> timer.asked().awaited == timer.awaited,
{
}

/// A timer that fired tells so the next time it is asked, however often it fired, and then waits for
/// the next fire; it stays on its run loop.
pub proof fn a_fire_is_told_next(timer: Timer)
    ensures
        timer.fired().told() == Polled::Fired,
        timer.fired().asked().told() == Polled::Waiting,
        timer.fired().fired() == timer.fired(),
        timer.fired().installed == timer.installed,
        timer.asked().installed == timer.installed,
        !timer.fired().awaited,
        timer.asked().fired().told() == Polled::Fired,
{
}

/// A cancelled timer is off its run loop and says that it has ended, whatever had happened to it; a
/// fire not yet told is lost, and nobody waits any more.
pub proof fn a_cancelled_timer_has_ended(timer: Timer)
    ensures
        timer.cancelled().told() == Polled::Ended,
        timer.fired().cancelled().told() == Polled::Ended,
        !timer.cancelled().installed,
        !timer.cancelled().awaited,
        timer.cancelled().cancelled() == timer.cancelled(),
{
}

/// A new timer is on its run loop, has told nothing, and has whoever asks first wait.
pub proof fn a_new_timer_waits(timer: Timer)
    requires
        call_ensures(Timer::new, (), timer),
    ensures
        timer.installed,
        !timer.awaited,
        timer.told() == Polled::Waiting,
        timer.asked().awaited,
{
}

/// Firing wakes whoever waits and is told next; cancelling wakes them too and takes the timer off its
/// run loop.
pub proof fn a_fire_wakes_whoever_waits(timer: &mut Timer, wake: bool, settable: bool)
    requires
        call_ensures(Timer::fire, (timer,), wake),
        call_ensures(Timer::set_next_fire, (old(timer),), settable),
    ensures
        wake == old(timer).awaited,
        final(timer).told() == Polled::Fired,
        !final(timer).awaited,
        final(timer).installed == old(timer).installed,
        settable == old(timer).installed,
{
}

/// Cancelling calls for what was still there: a run loop's timer is taken off, and whoever waits is
/// woken.
pub proof fn a_cancellation_calls_for_what_is_left(timer: &mut Timer, calls_for: Cancellation)
    requires
        call_ensures(Timer::cancel, (timer,), calls_for),
    ensures
        calls_for.invalidate == old(timer).installed,
        calls_for.wake == old(timer).awaited,
        !final(timer).installed,
        final(timer).told() == Polled::Ended,
{
}

/// Awaiting completes when the timer fired or ended; otherwise whoever awaits is remembered.
pub proof fn awaiting_completes_when_it_fired(timer: &mut Timer, ready: bool)
    requires
        call_ensures(Timer::poll, (timer,), ready),
    ensures
        ready <==> old(timer).status != TimerStatus::Pending,
        !ready ==> final(timer).awaited && final(timer).status == TimerStatus::Pending,
        old(timer).status == TimerStatus::Fired ==> final(timer).status == TimerStatus::Pending,
        old(timer).status == TimerStatus::Cancelled ==> *final(timer) == *old(timer),
{
}

} // verus!
