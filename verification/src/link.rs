//! The foreground's side of a session: the one place that holds the handle
//! of the open port, and the rules by which the results of sending and
//! receiving are judged.
//!
//! The presence watcher never sees the handle. It can only end the session
//! in the shared state; [`Link::sync`] is how the holder learns of it and
//! lets go.

use crate::error::PlcError;
use crate::session::{Mode, SessionState, SessionView};
use vstd::prelude::*;

verus! {

/// The holder of the handle of the open port, if there is one. `H` is the
/// type of the handle; the library never looks into it.
pub struct Link<H> {
    handle: Option<H>,
}

/// Whether the holder and the state agree: a handle is held exactly while a
/// session is open.
pub open spec fn agree<H>(link: Link<H>, state: SessionView) -> bool {
    link.held() is Some <==> state.mode == Mode::Connected
}

impl<H> Link<H> {
    /// The handle held, if any.
    pub closed spec fn held(self) -> Option<H> {
        self.handle
    }

    /// A holder with empty hands.
    pub fn new() -> (link: Self)
        ensures
            link.held() is None,
    {
        Link { handle: None }
    }

    /// Whether a handle is held.
    pub fn is_open(&self) -> (open: bool)
        ensures
            open == (self.held() is Some),
    {
        self.handle.is_some()
    }

    /// Takes in how the attempt to open the selected port ended. A handle
    /// that was still held from an earlier session is let go in either case.
    /// Success opens the session and keeps the new handle. A failure is
    /// handed on as [`PlcError::Connect`]; then no handle is held and the
    /// state is as it was.
    pub fn open(&mut self, state: &mut SessionState, outcome: Result<H, String>) -> (r: Result<
        (),
        PlcError,
    >)
        requires
            old(state)@.can_open(),
        ensures
            match outcome {
                Ok(handle) => r is Ok && final(self).held() == Some(handle)
                    && final(state)@ == (SessionView {
                    mode: Mode::Connected,
                    selected: old(state)@.selected,
                }),
                Err(reason) => r == Err::<(), PlcError>(PlcError::Connect(reason))
                    && final(self).held() is None && final(state)@ == old(state)@,
            },
            agree(*final(self), final(state)@),
            final(state)@.wf(),
    {
        match outcome {
            Ok(handle) => {
                self.handle = Some(handle);
                state.complete_open(Ok(()))
            },
            Err(reason) => {
                self.handle = None;
                state.complete_open(Err(reason))
            },
        }
    }

    /// Ends the session at the user's wish: lets go of the handle and marks
    /// the session as over. The selection stays.
    pub fn close(&mut self, state: &mut SessionState)
        ensures
            final(self).held() is None,
            final(state)@ == (SessionView {
                mode: Mode::Disconnected,
                selected: old(state)@.selected,
            }),
            agree(*final(self), final(state)@),
            final(state)@.wf(),
    {
        self.handle = None;
        state.disconnect();
    }

    /// Brings the holder in line with the shared state: a handle held for a
    /// session that the state no longer knows is let go. Returns whether that
    /// happened. Should the state claim a session for which no handle is
    /// held, the session is marked as over.
    pub fn sync(&mut self, state: &mut SessionState) -> (released: bool)
        ensures
            released == (old(self).held() is Some && old(state)@.mode == Mode::Disconnected),
            old(state)@.mode == Mode::Connected ==> final(self).held() == old(self).held(),
            old(state)@.mode == Mode::Disconnected ==> final(self).held() is None,
            final(state)@.selected == old(state)@.selected,
            final(state)@.mode == if old(self).held() is Some {
                old(state)@.mode
            } else {
                Mode::Disconnected
            },
            agree(*final(self), final(state)@),
            final(state)@.wf(),
    {
        if state.is_connected() {
            if self.handle.is_none() {
                state.disconnect();
            }
            false
        } else {
            let stale: bool = self.handle.is_some();
            self.handle = None;
            state.disconnect();
            stale
        }
    }

    /// Lends the handle for sending and receiving, but only while the state
    /// says that the session is open: once the watcher has ended the session,
    /// no send reaches the port, even if the handle has not been let go yet.
    pub fn port(&mut self, state: &SessionState) -> (port: Option<&mut H>)
        ensures
            port is Some <==> state@.mode == Mode::Connected && old(self).held() is Some,
            match port {
                Some(handle) => *handle == old(self).held().unwrap() && final(self).held() == Some(
                    *final(handle),
                ),
                None => final(self).held() == old(self).held(),
            },
    {
        if state.is_connected() {
            self.handle.as_mut()
        } else {
            None
        }
    }
}

/// Judges a write. A write that did not put all bytes on the wire is a
/// failure of the link, and carries the system's text.
pub fn sent(written: Result<(), String>) -> (r: Result<(), PlcError>)
    ensures
        r == match written {
            Ok(_) => Ok::<(), PlcError>(()),
            Err(reason) => Err::<(), PlcError>(PlcError::IO(reason)),
        },
{
    match written {
        Ok(_) => Ok(()),
        Err(reason) => Err(PlcError::IO(reason)),
    }
}

/// Judges a read that ran until the time was up or the peer closed the
/// stream. `buffer` holds what arrived, `failure` the system's text if the
/// read ended in an error. Bytes that arrived are the answer, however the
/// read ended; only a read that failed with nothing in hand is a failure of
/// the link.
pub fn received(buffer: Vec<u8>, failure: Option<String>) -> (r: Result<Vec<u8>, PlcError>)
    ensures
        r == match failure {
            Some(reason) if buffer@.len() == 0 => Err::<Vec<u8>, PlcError>(PlcError::IO(reason)),
            _ => Ok::<Vec<u8>, PlcError>(buffer),
        },
{
    match failure {
        Some(reason) => {
            if buffer.len() == 0 {
                Err(PlcError::IO(reason))
            } else {
                Ok(buffer)
            }
        },
        None => Ok(buffer),
    }
}

} // verus!
