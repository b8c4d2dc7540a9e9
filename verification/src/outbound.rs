//! The outbound session driver: the one state machine behind the
//! operator's prompt.  It decides, from the current state and one
//! event — an operator line, a connect outcome, a write outcome —
//! what happens next: try a connection, send a line verbatim, leave
//! the session, or quit.  The surrounding task performs the actions
//! and feeds the outcomes back.

use crate::addr::{scan_run, scan_run_from, scan_step, spec_parse_addr, Addr, ScanState};
use vstd::prelude::*;

verus! {

/// The reserved operator line that ends a loop: the whole driver at
/// the address prompt, or one session at the message prompt.
pub open spec fn spec_is_sentinel(s: Seq<char>) -> bool {
    s == seq!['q']
}

/// Whether `line` is the quit sentinel.
pub fn is_sentinel(line: &str) -> (b: bool)
    ensures
        b == spec_is_sentinel(line@),
{
    let n: usize = line.unicode_len();
    if n == 1 {
        let c = line.get_char(0);
        proof {
            if c == 'q' {
                assert(line@ =~= seq!['q']);
            }
        }
        c == 'q'
    } else {
        false
    }
}

/// Where the driver stands: awaiting an address, awaiting the outcome
/// of a connect attempt, inside a session awaiting a line, awaiting
/// the outcome of a write, or finished for good.
#[derive(Clone, Copy, Debug, PartialEq, Eq, Structural)]
pub enum DriverState {
    Prompting,
    Connecting { peer: Addr },
    InSession { peer: Addr },
    Sending { peer: Addr },
    Finished,
}

/// One event the surrounding task hands the driver: a line typed at
/// the address prompt, the outcome of the connect attempt, a line
/// typed inside the session, or the outcome of a write.
#[derive(Debug, PartialEq)]
pub enum DriverEvent {
    PromptLine { line: String },
    ConnectResult { ok: bool },
    SessionLine { line: String },
    WriteResult { ok: bool },
}

/// What the surrounding task must do next.  `Quit` ends the whole
/// driver; `Disconnect` ends one session only; the reports are the
/// human-readable notices the contract of the driver owes for each
/// failure; `Ignore` answers an event that does not belong to the
/// current state and changes nothing.
#[derive(Debug, PartialEq)]
pub enum DriverAction {
    Quit,
    ReportInvalidAddress,
    Connect { peer: Addr },
    SessionStarted { peer: Addr },
    ReportConnectFailed,
    Send { line: String },
    Disconnect,
    ReportWriteFailed,
    Proceed,
    Ignore,
}

/// The driver's whole behaviour, one transition at a time.
///
/// At the prompt, the sentinel finishes the driver; a line that is a
/// canonical endpoint text starts a connect attempt to exactly that
/// endpoint; any other line is reported invalid and the prompt stays.
/// A failed connect returns to the prompt; a successful one opens the
/// session.  In the session, the sentinel leaves only the session;
/// any other line is sent verbatim.  A failed write ends the session
/// and returns to the prompt; a successful one awaits the next line.
pub open spec fn spec_driver_step(st: DriverState, ev: DriverEvent) -> (DriverState, DriverAction) {
    match (st, ev) {
        (DriverState::Prompting, DriverEvent::PromptLine { line }) => {
            if spec_is_sentinel(line@) {
                (DriverState::Finished, DriverAction::Quit)
            } else {
                match spec_parse_addr(line@) {
                    Some(peer) => (DriverState::Connecting { peer }, DriverAction::Connect { peer }),
                    None => (DriverState::Prompting, DriverAction::ReportInvalidAddress),
                }
            }
        },
        (DriverState::Connecting { peer }, DriverEvent::ConnectResult { ok }) => {
            if ok {
                (DriverState::InSession { peer }, DriverAction::SessionStarted { peer })
            } else {
                (DriverState::Prompting, DriverAction::ReportConnectFailed)
            }
        },
        (DriverState::InSession { peer }, DriverEvent::SessionLine { line }) => {
            if spec_is_sentinel(line@) {
                (DriverState::Prompting, DriverAction::Disconnect)
            } else {
                (DriverState::Sending { peer }, DriverAction::Send { line })
            }
        },
        (DriverState::Sending { peer }, DriverEvent::WriteResult { ok }) => {
            if ok {
                (DriverState::InSession { peer }, DriverAction::Proceed)
            } else {
                (DriverState::Prompting, DriverAction::ReportWriteFailed)
            }
        },
        (st, _) => (st, DriverAction::Ignore),
    }
}

/// The sentinel is not an endpoint text: parsing it yields nothing,
/// so the one line `q` can never be taken for an address.
pub proof fn lemma_sentinel_parses_to_none(s: Seq<char>)
    requires
        spec_is_sentinel(s),
    ensures
        spec_parse_addr(s) is None,
{
    let st0 = ScanState::Start { completed: Seq::<nat>::empty() };
    assert('q' as u32 == 113);
    assert(scan_run_from(st0, Seq::<char>::empty()) == st0);
    assert(seq!['q'].drop_last() =~= Seq::<char>::empty());
    assert(seq!['q'].last() == 'q');
    assert(scan_run(seq!['q']) == scan_step(st0, 'q'));
    assert(scan_step(st0, 'q') == ScanState::Failed);
}

/// A connect attempt that fails leaves the driver able to take a new
/// address: the failure is reported, the driver stands at the prompt
/// again, and a canonical endpoint typed next starts a fresh connect
/// attempt to exactly that endpoint.
pub proof fn lemma_connect_failure_recovers(peer: Addr, next: String)
    ensures
        spec_driver_step(
            DriverState::Connecting { peer },
            DriverEvent::ConnectResult { ok: false },
        ) == (DriverState::Prompting, DriverAction::ReportConnectFailed),
        spec_parse_addr(next@) matches Some(p) ==> spec_driver_step(
            DriverState::Prompting,
            DriverEvent::PromptLine { line: next },
        ) == (DriverState::Connecting { peer: p }, DriverAction::Connect { peer: p }),
{
    if spec_parse_addr(next@) is Some {
        if spec_is_sentinel(next@) {
            lemma_sentinel_parses_to_none(next@);
        }
    }
}

/// The quit sentinel typed inside an active session ends only that
/// session: the driver returns to the address prompt — it is not
/// finished — and the action is the disconnect of this one
/// connection, never the process-level quit.
pub proof fn lemma_session_sentinel_is_local(peer: Addr, line: String)
    requires
        spec_is_sentinel(line@),
    ensures
        spec_driver_step(DriverState::InSession { peer }, DriverEvent::SessionLine { line }) == (
            DriverState::Prompting,
            DriverAction::Disconnect,
        ),
        spec_driver_step(DriverState::InSession { peer }, DriverEvent::SessionLine { line }).0
            != DriverState::Finished,
        spec_driver_step(DriverState::InSession { peer }, DriverEvent::SessionLine { line }).1
            != DriverAction::Quit,
{
}

/// The driver finishes only one way: the sentinel typed at the
/// address prompt.  No session line, no connect or write outcome —
/// nothing that happens inside or around a session — can end the
/// driver, let alone the accept loop or the display loop, which it
/// never touches at all.
pub proof fn lemma_quit_only_from_prompt_sentinel(st: DriverState, ev: DriverEvent)
    ensures
        spec_driver_step(st, ev).1 == DriverAction::Quit ==> ({
            &&& st == DriverState::Prompting
            &&& ev matches DriverEvent::PromptLine { line }
            &&& spec_is_sentinel(line@)
        }),
        st != DriverState::Finished && spec_driver_step(st, ev).0 == DriverState::Finished ==> ({
            &&& st == DriverState::Prompting
            &&& ev matches DriverEvent::PromptLine { line }
            &&& spec_is_sentinel(line@)
        }),
{
}

/// The single driver instance for the whole process.
pub struct OutboundDriver {
    state: DriverState,
}

impl OutboundDriver {
    /// Where the driver stands.
    pub closed spec fn spec_state(&self) -> DriverState {
        self.state
    }

    /// Creates the driver, at the address prompt.
    pub fn new() -> (d: OutboundDriver)
        ensures
            d.spec_state() == DriverState::Prompting,
    {
        OutboundDriver { state: DriverState::Prompting }
    }

    /// Where the driver stands, for the surrounding task.
    pub fn state(&self) -> (st: DriverState)
        ensures
            st == self.spec_state(),
    {
        self.state
    }

    /// Feeds the driver one event; the new state and the returned
    /// action are exactly those of `spec_driver_step`.
    pub fn step(&mut self, event: DriverEvent) -> (action: DriverAction)
        ensures
            final(self).spec_state() == spec_driver_step(old(self).spec_state(), event).0,
            action == spec_driver_step(old(self).spec_state(), event).1,
    {
        let st = self.state;
        match event {
            DriverEvent::PromptLine { line } => {
                match st {
                    DriverState::Prompting => {
                        if is_sentinel(line.as_str()) {
                            self.state = DriverState::Finished;
                            DriverAction::Quit
                        } else {
                            match Addr::parse(line.as_str()) {
                                Some(peer) => {
                                    self.state = DriverState::Connecting { peer };
                                    DriverAction::Connect { peer }
                                },
                                None => DriverAction::ReportInvalidAddress,
                            }
                        }
                    },
                    _ => DriverAction::Ignore,
                }
            },
            DriverEvent::ConnectResult { ok } => {
                match st {
                    DriverState::Connecting { peer } => {
                        if ok {
                            self.state = DriverState::InSession { peer };
                            DriverAction::SessionStarted { peer }
                        } else {
                            self.state = DriverState::Prompting;
                            DriverAction::ReportConnectFailed
                        }
                    },
                    _ => DriverAction::Ignore,
                }
            },
            DriverEvent::SessionLine { line } => {
                match st {
                    DriverState::InSession { peer } => {
                        if is_sentinel(line.as_str()) {
                            self.state = DriverState::Prompting;
                            DriverAction::Disconnect
                        } else {
                            self.state = DriverState::Sending { peer };
                            DriverAction::Send { line }
                        }
                    },
                    _ => DriverAction::Ignore,
                }
            },
            DriverEvent::WriteResult { ok } => {
                match st {
                    DriverState::Sending { peer } => {
                        if ok {
                            self.state = DriverState::InSession { peer };
                            DriverAction::Proceed
                        } else {
                            self.state = DriverState::Prompting;
                            DriverAction::ReportWriteFailed
                        }
                    },
                    _ => DriverAction::Ignore,
                }
            },
        }
    }
}

} // verus!
