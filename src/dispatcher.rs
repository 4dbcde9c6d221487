//! Reconciliation rules: the action each change signal calls for, and
//! serialisation of relaunches.

use vstd::prelude::*;

verus! {

/// The change signals the dispatcher listens to. They only say that
/// something changed; every action re-reads the current state.
#[derive(Clone, Copy, Debug, PartialEq, Eq, Structural)]
pub enum Signal {
    WidgetOpened,
    WidgetClosed,
    SettingsChanged,
    MonitorsChanged,
    WidgetConfigsChanged,
}

/// The reconciliation actions.
#[derive(Clone, Copy, Debug, PartialEq, Eq, Structural)]
pub enum Reaction {
    RefreshTray,
    RelaunchAll,
}

pub open spec fn reaction_spec(s: Signal) -> Reaction {
    match s {
        Signal::WidgetOpened | Signal::WidgetClosed | Signal::SettingsChanged => Reaction::RefreshTray,
        Signal::MonitorsChanged | Signal::WidgetConfigsChanged => Reaction::RelaunchAll,
    }
}

/// The action a signal calls for.
pub fn reaction_for(s: Signal) -> (r: Reaction)
    ensures
        r == reaction_spec(s),
{
    match s {
        Signal::WidgetOpened | Signal::WidgetClosed | Signal::SettingsChanged => Reaction::RefreshTray,
        Signal::MonitorsChanged | Signal::WidgetConfigsChanged => Reaction::RelaunchAll,
    }
}

/// Serialises relaunches: at most one runs at a time, and requests that
/// arrive meanwhile are folded into one follow-up run.
pub struct RelaunchGate {
    running: bool,
    pending: bool,
}

impl RelaunchGate {
    pub closed spec fn is_running(&self) -> bool {
        self.running
    }

    pub closed spec fn is_pending(&self) -> bool {
        self.pending
    }

    /// A follow-up is only ever queued behind a running relaunch.
    pub open spec fn wf(&self) -> bool {
        self.is_pending() ==> self.is_running()
    }

    pub fn new() -> (r: Self)
        ensures
            r.wf(),
            !r.is_running(),
            !r.is_pending(),
    {
        RelaunchGate { running: false, pending: false }
    }

    /// Asks for a relaunch; `true` means start one now.
    pub fn request(&mut self) -> (start: bool)
        requires
            old(self).wf(),
        ensures
            final(self).wf(),
            start == !old(self).is_running(),
            final(self).is_running(),
            final(self).is_pending() == old(self).is_running(),
    {
        if self.running {
            self.pending = true;
            false
        } else {
            self.running = true;
            true
        }
    }

    /// Reports that the running relaunch ended; `true` means start the
    /// follow-up now.
    pub fn finish(&mut self) -> (again: bool)
        requires
            old(self).wf(),
            old(self).is_running(),
        ensures
            final(self).wf(),
            again == old(self).is_pending(),
            final(self).is_running() == again,
            !final(self).is_pending(),
    {
        if self.pending {
            self.pending = false;
            true
        } else {
            self.running = false;
            false
        }
    }
}

/// The dispatcher's decisions: from a signal to the action to run now.
pub struct Dispatcher {
    gate: RelaunchGate,
}

impl Dispatcher {
    pub closed spec fn relaunch_running(&self) -> bool {
        self.gate.is_running()
    }

    pub closed spec fn relaunch_pending(&self) -> bool {
        self.gate.is_pending()
    }

    pub open spec fn wf(&self) -> bool {
        self.relaunch_pending() ==> self.relaunch_running()
    }

    pub fn new() -> (r: Self)
        ensures
            r.wf(),
            !r.relaunch_running(),
            !r.relaunch_pending(),
    {
        Dispatcher { gate: RelaunchGate::new() }
    }

    /// The action to run for a signal now, if any: a tray refresh always; a
    /// relaunch unless one is running, in which case it is queued behind it.
    pub fn on_signal(&mut self, s: Signal) -> (r: Option<Reaction>)
        requires
            old(self).wf(),
        ensures
            final(self).wf(),
            reaction_spec(s) == Reaction::RefreshTray ==> r == Some(Reaction::RefreshTray)
                && final(self).relaunch_running() == old(self).relaunch_running()
                && final(self).relaunch_pending() == old(self).relaunch_pending(),
            reaction_spec(s) == Reaction::RelaunchAll ==> {
                &&& r == if old(self).relaunch_running() { None } else { Some(Reaction::RelaunchAll) }
                &&& final(self).relaunch_running()
                &&& final(self).relaunch_pending() == old(self).relaunch_running()
            },
    {
        match reaction_for(s) {
            Reaction::RefreshTray => Some(Reaction::RefreshTray),
            Reaction::RelaunchAll => {
                if self.gate.request() {
                    Some(Reaction::RelaunchAll)
                } else {
                    None
                }
            },
        }
    }

    /// Reports that a relaunch ended, whether it succeeded or not; returns
    /// the queued follow-up, if any.
    pub fn on_relaunch_done(&mut self) -> (r: Option<Reaction>)
        requires
            old(self).wf(),
            old(self).relaunch_running(),
        ensures
            final(self).wf(),
            r == if old(self).relaunch_pending() { Some(Reaction::RelaunchAll) } else { None::<Reaction> },
            final(self).relaunch_running() == old(self).relaunch_pending(),
            !final(self).relaunch_pending(),
    {
        if self.gate.finish() {
            Some(Reaction::RelaunchAll)
        } else {
            None
        }
    }
}

} // verus!
