//! The state that the foreground and the presence watcher share: which port
//! is selected, and whether a session with it is open.
//!
//! Both sides change the state only through the transitions of this module,
//! each of which takes the state as a whole, so that no combination outside
//! [`SessionView::wf`] can arise.

use crate::error::PlcError;
use vstd::prelude::*;

verus! {

/// The pause between two rounds of the presence watcher, in milliseconds.
pub const WATCH_INTERVAL_MS: u64 = 500;

/// Whether a session is open.
#[derive(Copy, Clone, Debug, PartialEq, Eq, Structural)]
pub enum Mode {
    /// No session is open.
    Disconnected,
    /// A session with the selected port is open.
    Connected,
}

/// What the button that opens and closes the session asks for when pressed.
#[derive(Copy, Clone, Debug, PartialEq, Eq, Structural)]
pub enum Toggle {
    /// Open the selected port.
    Open,
    /// Close the open session.
    Close,
    /// Nothing can be opened: no port is selected.
    NothingSelected,
}

/// What one look at the list of ports did to the state.
#[derive(Copy, Clone, Debug, PartialEq, Eq, Structural)]
pub enum Presence {
    /// The selected port is gone: the selection was cleared and the session,
    /// if one was open, is over. Whoever holds the port must let go of it.
    Vanished,
    /// Nothing was selected, and the first port of the list now is.
    Selected,
    /// The list gave no reason to change anything.
    Unchanged,
    /// The ports could not be listed; nothing was changed.
    Skipped,
}

/// The state as contracts see it.
pub struct SessionView {
    pub mode: Mode,
    pub selected: Seq<char>,
}

impl SessionView {
    /// A session is open only with a port that has a name.
    pub open spec fn wf(self) -> bool {
        self.mode == Mode::Connected ==> self.selected.len() > 0
    }

    /// Whether a session can be opened: none is open, and a port is selected.
    pub open spec fn can_open(self) -> bool {
        self.mode == Mode::Disconnected && self.selected.len() > 0
    }

    /// The state after one look at the list of ports.
    pub open spec fn reconciled(self, names: Seq<Seq<char>>) -> SessionView {
        if self.selected.len() > 0 && !names.contains(self.selected) {
            SessionView { mode: Mode::Disconnected, selected: Seq::empty() }
        } else if self.selected.len() == 0 && names.len() > 0 {
            SessionView { mode: self.mode, selected: names[0] }
        } else {
            self
        }
    }

    /// What one look at the list of ports reports.
    pub open spec fn presence(self, names: Seq<Seq<char>>) -> Presence {
        if self.selected.len() > 0 && !names.contains(self.selected) {
            Presence::Vanished
        } else if self.selected.len() == 0 && names.len() > 0 {
            Presence::Selected
        } else {
            Presence::Unchanged
        }
    }
}

/// The names in a list of ports.
pub open spec fn port_names(ports: Seq<String>) -> Seq<Seq<char>> {
    Seq::new(ports.len(), |i: int| ports[i]@)
}

/// The selected port and the mode of the session. An empty name means that
/// no port is selected.
pub struct SessionState {
    mode: Mode,
    selected: String,
}

impl View for SessionState {
    type V = SessionView;

    closed spec fn view(&self) -> SessionView {
        SessionView { mode: self.mode, selected: self.selected@ }
    }
}

/// Tells whether `name` is among `ports`.
pub fn is_listed(ports: &Vec<String>, name: &String) -> (found: bool)
    ensures
        found == port_names(ports@).contains(name@),
{
    let n: usize = ports.len();
    let mut i: usize = 0;
    while i < n
        invariant
            i <= n,
            n == ports@.len(),
            forall|j: int| 0 <= j < i ==> port_names(ports@)[j] != name@,
        decreases n - i,
    {
        if ports[i] == *name {
            assert(port_names(ports@)[i as int] == name@);
            return true;
        }
        i = i + 1;
    }
    false
}

impl SessionState {
    #[verifier::type_invariant]
    spec fn valid(self) -> bool {
        self@.wf()
    }

    /// The state at start: no session, no selection.
    pub fn new() -> (state: Self)
        ensures
            state@ == (SessionView { mode: Mode::Disconnected, selected: Seq::empty() }),
            state@.wf(),
    {
        SessionState { mode: Mode::Disconnected, selected: String::new() }
    }

    /// The mode of the session.
    pub fn mode(&self) -> (mode: Mode)
        ensures
            mode == self@.mode,
            self@.wf(),
    {
        proof {
            use_type_invariant(self);
        }
        self.mode
    }

    /// Whether a session is open.
    pub fn is_connected(&self) -> (open: bool)
        ensures
            open == (self@.mode == Mode::Connected),
            self@.wf(),
    {
        proof {
            use_type_invariant(self);
        }
        self.mode == Mode::Connected
    }

    /// The name of the selected port, empty if none is.
    pub fn selected(&self) -> (name: &str)
        ensures
            name@ == self@.selected,
    {
        self.selected.as_str()
    }

    /// Selects a port, or none with an empty name. The selection is fixed
    /// while a session is open: the call then changes nothing and returns
    /// `false`.
    pub fn select(&mut self, port: &str) -> (accepted: bool)
        ensures
            accepted == (old(self)@.mode == Mode::Disconnected),
            accepted ==> final(self)@ == (SessionView {
                mode: Mode::Disconnected,
                selected: port@,
            }),
            !accepted ==> final(self)@ == old(self)@,
            final(self)@.wf(),
    {
        proof {
            use_type_invariant(&*self);
        }
        if self.mode == Mode::Disconnected {
            self.selected = port.to_owned();
            true
        } else {
            false
        }
    }

    /// What a press of the button asks for in this state.
    pub fn toggle(&self) -> (request: Toggle)
        ensures
            request == if self@.mode == Mode::Connected {
                Toggle::Close
            } else if self@.selected.len() > 0 {
                Toggle::Open
            } else {
                Toggle::NothingSelected
            },
            request == Toggle::Open <==> self@.can_open(),
    {
        if self.mode == Mode::Connected {
            Toggle::Close
        } else if !self.selected.as_str().is_empty() {
            Toggle::Open
        } else {
            Toggle::NothingSelected
        }
    }

    /// Takes in how the attempt to open the selected port ended. Success
    /// opens the session. A failure is handed on as [`PlcError::Connect`]
    /// with the driver's text, and leaves the state as it was: no session
    /// comes of it.
    pub fn complete_open(&mut self, outcome: Result<(), String>) -> (r: Result<(), PlcError>)
        requires
            old(self)@.can_open(),
        ensures
            match outcome {
                Ok(_) => r is Ok && final(self)@ == (SessionView {
                    mode: Mode::Connected,
                    selected: old(self)@.selected,
                }),
                Err(reason) => r == Err::<(), PlcError>(PlcError::Connect(reason)) && final(self)@
                    == old(self)@,
            },
            final(self)@.wf(),
    {
        proof {
            use_type_invariant(&*self);
        }
        match outcome {
            Ok(_) => {
                self.mode = Mode::Connected;
                Ok(())
            },
            Err(reason) => Err(PlcError::Connect(reason)),
        }
    }

    /// Ends the session, if one is open. The selection stays.
    pub fn disconnect(&mut self)
        ensures
            final(self)@ == (SessionView {
                mode: Mode::Disconnected,
                selected: old(self)@.selected,
            }),
            final(self)@.wf(),
    {
        self.mode = Mode::Disconnected;
    }

    /// Whether a command may be sent: a session is open and the command is
    /// not empty.
    pub fn may_send(&self, command: &str) -> (allowed: bool)
        ensures
            allowed == (self@.mode == Mode::Connected && command@.len() > 0),
    {
        self.mode == Mode::Connected && !command.is_empty()
    }

    /// Brings the state in line with the ports that are present.
    ///
    /// If the selected port is not among them, the selection is cleared and
    /// the session is over. If nothing is selected and the list is not empty,
    /// its first port is selected; no session is opened. Otherwise nothing
    /// changes.
    pub fn reconcile(&mut self, ports: &Vec<String>) -> (seen: Presence)
        ensures
            final(self)@ == old(self)@.reconciled(port_names(ports@)),
            seen == old(self)@.presence(port_names(ports@)),
            final(self)@.wf(),
    {
        proof {
            use_type_invariant(&*self);
        }
        let nothing: bool = self.selected.as_str().is_empty();
        if !nothing && !is_listed(ports, &self.selected) {
            self.mode = Mode::Disconnected;
            self.selected = String::new();
            Presence::Vanished
        } else if nothing && ports.len() > 0 {
            self.selected = ports[0].clone();
            Presence::Selected
        } else {
            Presence::Unchanged
        }
    }

    /// One round of the presence watcher. A listing that failed is passed
    /// over: the state stays as it is, and the next round looks again.
    pub fn watch(&mut self, listing: &Result<Vec<String>, PlcError>) -> (seen: Presence)
        ensures
            match listing {
                Ok(ports) => final(self)@ == old(self)@.reconciled(port_names(ports@)) && seen
                    == old(self)@.presence(port_names(ports@)),
                Err(_) => final(self)@ == old(self)@ && seen == Presence::Skipped,
            },
            final(self)@.wf(),
    {
        proof {
            use_type_invariant(&*self);
        }
        match listing {
            Ok(ports) => self.reconcile(ports),
            Err(_) => Presence::Skipped,
        }
    }
}

/// A look at the list of ports never leaves a session open without a
/// selected port.
pub proof fn lemma_reconciled_wf(state: SessionView, names: Seq<Seq<char>>)
    requires
        state.wf(),
    ensures
        state.reconciled(names).wf(),
{
}

/// With nothing selected, a look at a list of ports that is not empty
/// selects its first port and opens no session.
pub proof fn lemma_reconciled_unselected(state: SessionView, names: Seq<Seq<char>>)
    requires
        state.wf(),
        state.selected.len() == 0,
        names.len() > 0,
    ensures
        state.reconciled(names) == (SessionView { mode: Mode::Disconnected, selected: names[0] }),
        state.presence(names) == Presence::Selected,
{
}

/// While a session is open, a look at the list of ports changes the state
/// only if the selected port is missing from the list; and then it ends the
/// session and clears the selection, so that nothing more can be sent.
pub proof fn lemma_reconciled_connected(state: SessionView, names: Seq<Seq<char>>)
    requires
        state.wf(),
        state.mode == Mode::Connected,
    ensures
        names.contains(state.selected) ==> state.reconciled(names) == state && state.presence(names)
            == Presence::Unchanged,
        !names.contains(state.selected) ==> state.reconciled(names) == (SessionView {
            mode: Mode::Disconnected,
            selected: Seq::empty(),
        }) && state.presence(names) == Presence::Vanished,
{
}

} // verus!
