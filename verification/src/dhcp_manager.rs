//! The manager of one interface: what each command from outside is
//! answered with and what it makes the worker do. The caller owns the
//! channels and the worker's thread; it hands every command to `handle`,
//! passes on what is to be forwarded, and sends the reply back.

use crate::dhcp_worker::DhcpState;
use crate::dhcp_worker::MozimDhcpWorkCmd;
use crate::dhcp_worker::WorkerReport;
use crate::error::DhcpError;
use crate::error::ErrorKind;
use vstd::prelude::*;
use vstd::string::StringExecFns;

verus! {

/// What can be asked of a manager.
#[derive(Debug, Clone, Copy, PartialEq, Eq, Structural)]
pub enum MozimDhcpCmd {
    StartDhcp,
    QueryDhcp,
    StopDhcp,
}

/// How far a manager has come.
#[derive(Debug, Clone, Copy, PartialEq, Eq, Structural)]
pub enum ManagerPhase {
    /// Made, not started.
    Idle,
    /// Started, not stopped.
    Running,
    /// Stopped: the session is gone.
    Stopped,
}

/// The state of the session of an interface, as it is told outside.
#[derive(Debug, Clone, PartialEq, Eq)]
pub struct DhcpStatus {
    pub iface_name: String,
    pub state: DhcpState,
}

/// The manager of one interface.
#[derive(Debug)]
pub struct MozimDhcpManager {
    pub iface_name: String,
    pub phase: ManagerPhase,
    /// The state that the worker reported last.
    pub state: DhcpState,
}

/// What the caller has to do with a command: forward this to the worker,
/// send this reply back, and leave its loop or not. Where there is no
/// reply yet, the reply is the answer of the worker: the caller waits for
/// the worker's next report and hands it to `worker_answered`.
#[derive(Debug)]
pub struct ManagerDecision {
    pub forward: Option<MozimDhcpWorkCmd>,
    pub reply: Option<Result<DhcpStatus, DhcpError>>,
    pub finished: bool,
}

/// The answer to a command: the state told, or the class of the refusal.
pub enum ReplyView {
    Status(DhcpState),
    Refused(ErrorKind),
}

/// The answer that stands for a reply.
pub open spec fn reply_view(reply: Result<DhcpStatus, DhcpError>) -> ReplyView {
    match reply {
        Ok(status) => ReplyView::Status(status.state),
        Err(e) => ReplyView::Refused(e.kind),
    }
}

/// What a command leads to, for a manager in `phase` whose worker
/// reported `state` last: the phase and state after it, what is forwarded,
/// what is answered at once, and whether the manager is done.
///
/// Start is taken once: it forwards a restart, and the worker's answer is
/// the reply. Query answers at once with the state reported last. Stop
/// forwards a stop, ends the manager, and the worker's answer is the
/// reply. A second start is refused as an invalid argument, and after stop
/// every command is refused because there is no session.
pub open spec fn handle_spec(phase: ManagerPhase, state: DhcpState, cmd: MozimDhcpCmd) -> (
    ManagerPhase,
    DhcpState,
    Option<MozimDhcpWorkCmd>,
    Option<ReplyView>,
    bool,
) {
    if phase == ManagerPhase::Stopped {
        (phase, state, None, Some(ReplyView::Refused(ErrorKind::NotFound)), false)
    } else {
        match cmd {
            MozimDhcpCmd::StartDhcp => if phase == ManagerPhase::Idle {
                (ManagerPhase::Running, state, Some(MozimDhcpWorkCmd::Restart), None, false)
            } else {
                (phase, state, None, Some(ReplyView::Refused(ErrorKind::InvalidArgument)), false)
            },
            MozimDhcpCmd::QueryDhcp => (phase, state, None, Some(ReplyView::Status(state)), false),
            MozimDhcpCmd::StopDhcp => (
                ManagerPhase::Stopped,
                DhcpState::Stopped,
                Some(MozimDhcpWorkCmd::Stop),
                None,
                true,
            ),
        }
    }
}

/// What a report of the worker leads to while the reply to a forwarded
/// command is awaited: the state kept, and the reply, if the report is the
/// answer. A running manager takes the first report as the answer to its
/// start: a state is told as it is; an error is handed on, and the session
/// has failed. A stopped manager waits for the worker to say that it has
/// stopped, and passes over what the worker reported before. No report,
/// because the worker is gone, is a fault of the program.
pub open spec fn answer_spec(phase: ManagerPhase, state: DhcpState, answer: Option<WorkerReport>) -> (
    DhcpState,
    Option<ReplyView>,
) {
    match answer {
        None => (state, Some(ReplyView::Refused(ErrorKind::Bug))),
        Some(report) => if phase == ManagerPhase::Stopped {
            if report == WorkerReport::State(DhcpState::Stopped) {
                (state, Some(ReplyView::Status(DhcpState::Stopped)))
            } else {
                (state, None)
            }
        } else {
            match report {
                WorkerReport::State(told) => (told, Some(ReplyView::Status(told))),
                WorkerReport::Error(e) => (DhcpState::Failed, Some(ReplyView::Refused(e.kind))),
            }
        },
    }
}

/// The answer that stands for a reply, where there is one.
pub open spec fn optional_reply_view(reply: Option<Result<DhcpStatus, DhcpError>>) -> Option<
    ReplyView,
> {
    match reply {
        Some(reply) => Some(reply_view(reply)),
        None => None,
    }
}

impl ManagerDecision {
    /// The reply given at once, without its texts.
    pub open spec fn reply_view(self) -> Option<ReplyView> {
        optional_reply_view(self.reply)
    }
}

/// Once a manager is stopped, every command is refused because there is
/// no session, nothing is forwarded, and the manager stays stopped.
pub proof fn law_no_session_after_stop(
    phase: ManagerPhase,
    state: DhcpState,
    cmd: MozimDhcpCmd,
    next: MozimDhcpCmd,
)
    ensures
        ({
            let stopped = handle_spec(phase, state, MozimDhcpCmd::StopDhcp);
            let after = handle_spec(stopped.0, stopped.1, next);
            &&& stopped.0 == ManagerPhase::Stopped
            &&& after.0 == ManagerPhase::Stopped
            &&& after.2 is None
            &&& after.3 == Some(ReplyView::Refused(ErrorKind::NotFound))
            &&& !after.4
        }),
        handle_spec(ManagerPhase::Stopped, state, cmd).3 == Some(
            ReplyView::Refused(ErrorKind::NotFound),
        ),
{
}

/// A manager is started once: the second start is refused and changes
/// nothing.
pub proof fn law_start_is_taken_once(state: DhcpState)
    ensures
        ({
            let first = handle_spec(ManagerPhase::Idle, state, MozimDhcpCmd::StartDhcp);
            let second = handle_spec(first.0, first.1, MozimDhcpCmd::StartDhcp);
            &&& first.2 == Some(MozimDhcpWorkCmd::Restart)
            &&& first.3 is None
            &&& second.0 == first.0
            &&& second.1 == first.1
            &&& second.2 is None
            &&& second.3 == Some(ReplyView::Refused(ErrorKind::InvalidArgument))
        }),
{
}

/// Whatever is forwarded to the worker is answered by the worker, and
/// whatever is not is answered at once.
pub proof fn law_forwarded_or_answered(phase: ManagerPhase, state: DhcpState, cmd: MozimDhcpCmd)
    ensures
        handle_spec(phase, state, cmd).2 is Some <==> handle_spec(phase, state, cmd).3 is None,
{
}

impl MozimDhcpManager {
    /// The manager of the interface `iface_name`, not started.
    pub fn new(iface_name: String) -> (m: MozimDhcpManager)
        ensures
            m.iface_name == iface_name,
            m.phase == ManagerPhase::Idle,
            m.state == DhcpState::Init,
    {
        MozimDhcpManager { iface_name, phase: ManagerPhase::Idle, state: DhcpState::Init }
    }

    /// The status of this interface in the state `state`.
    fn status(&self, state: DhcpState) -> (s: DhcpStatus)
        ensures
            s.iface_name@ == self.iface_name@,
            s.state == state,
    {
        DhcpStatus { iface_name: self.iface_name.clone(), state }
    }

    /// Takes a command: see `handle_spec`. A status in the reply names
    /// this interface.
    pub fn handle(&mut self, cmd: MozimDhcpCmd) -> (d: ManagerDecision)
        ensures
            final(self).iface_name == old(self).iface_name,
            (final(self).phase, final(self).state, d.forward, d.reply_view(), d.finished)
                == handle_spec(old(self).phase, old(self).state, cmd),
            d.reply matches Some(Ok(status)) ==> status.iface_name@ == old(self).iface_name@,
    {
        if self.phase == ManagerPhase::Stopped {
            return ManagerDecision {
                forward: None,
                reply: Some(
                    Err(
                        DhcpError::not_found(
                            String::from_str("no such session: ").concat(
                                self.iface_name.as_str(),
                            ),
                        ),
                    ),
                ),
                finished: false,
            };
        }
        match cmd {
            MozimDhcpCmd::StartDhcp => {
                if self.phase == ManagerPhase::Idle {
                    self.phase = ManagerPhase::Running;
                    ManagerDecision {
                        forward: Some(MozimDhcpWorkCmd::Restart),
                        reply: None,
                        finished: false,
                    }
                } else {
                    ManagerDecision {
                        forward: None,
                        reply: Some(
                            Err(
                                DhcpError::invalid_argument(
                                    String::from_str("already started: ").concat(
                                        self.iface_name.as_str(),
                                    ),
                                ),
                            ),
                        ),
                        finished: false,
                    }
                }
            },
            MozimDhcpCmd::QueryDhcp => ManagerDecision {
                forward: None,
                reply: Some(Ok(self.status(self.state))),
                finished: false,
            },
            MozimDhcpCmd::StopDhcp => {
                self.phase = ManagerPhase::Stopped;
                self.state = DhcpState::Stopped;
                ManagerDecision {
                    forward: Some(MozimDhcpWorkCmd::Stop),
                    reply: None,
                    finished: true,
                }
            },
        }
    }

    /// Takes a report of the worker while the reply to the command
    /// forwarded last is awaited, or that there is none because the worker
    /// is gone, and makes the reply of it, where it is the answer: see
    /// `answer_spec`. An error is handed on as it came. Where there is no
    /// reply yet, the caller waits for the next report.
    pub fn worker_answered(&mut self, answer: Option<WorkerReport>) -> (reply: Option<
        Result<DhcpStatus, DhcpError>,
    >)
        ensures
            final(self).iface_name == old(self).iface_name,
            final(self).phase == old(self).phase,
            (final(self).state, optional_reply_view(reply)) == answer_spec(
                old(self).phase,
                old(self).state,
                answer,
            ),
            reply matches Some(Ok(status)) ==> status.iface_name@ == old(self).iface_name@,
            old(self).phase != ManagerPhase::Stopped ==> (answer matches Some(
                WorkerReport::Error(e),
            ) ==> reply == Some(Err::<DhcpStatus, DhcpError>(e))),
    {
        match answer {
            None => Some(Err(self.channel_closed())),
            Some(report) => {
                if self.phase == ManagerPhase::Stopped {
                    match report {
                        WorkerReport::State(DhcpState::Stopped) => Some(
                            Ok(self.status(DhcpState::Stopped)),
                        ),
                        _ => None,
                    }
                } else {
                    match report {
                        WorkerReport::State(told) => {
                            self.state = told;
                            Some(Ok(self.status(told)))
                        },
                        WorkerReport::Error(e) => {
                            self.state = DhcpState::Failed;
                            Some(Err(e))
                        },
                    }
                }
            },
        }
    }

    /// Takes a state that the worker reports of its own accord. Only a
    /// running manager keeps it.
    pub fn worker_reported(&mut self, state: DhcpState)
        ensures
            final(self).iface_name == old(self).iface_name,
            final(self).phase == old(self).phase,
            final(self).state == (if old(self).phase == ManagerPhase::Running {
                state
            } else {
                old(self).state
            }),
    {
        if self.phase == ManagerPhase::Running {
            self.state = state;
        }
    }

    /// The error for a reply that cannot be had because the other end of
    /// a channel is gone.
    pub fn channel_closed(&self) -> (e: DhcpError)
        ensures
            e.kind == ErrorKind::Bug,
    {
        DhcpError::bug(
            String::from_str("the channel of ").concat(self.iface_name.as_str()).concat(
                " is closed",
            ),
        )
    }
}

impl DhcpState {
    /// The name of the state, as it is told outside.
    pub open spec fn name(self) -> Seq<char> {
        match self {
            DhcpState::Init => "Init"@,
            DhcpState::Requesting => "Requesting"@,
            DhcpState::Bound => "Bound"@,
            DhcpState::Renewing => "Renewing"@,
            DhcpState::Rebinding => "Rebinding"@,
            DhcpState::Stopped => "Stopped"@,
            DhcpState::Failed => "Failed"@,
        }
    }

    pub fn as_str(&self) -> (s: &'static str)
        ensures
            s@ == self.name(),
    {
        match self {
            DhcpState::Init => "Init",
            DhcpState::Requesting => "Requesting",
            DhcpState::Bound => "Bound",
            DhcpState::Renewing => "Renewing",
            DhcpState::Rebinding => "Rebinding",
            DhcpState::Stopped => "Stopped",
            DhcpState::Failed => "Failed",
        }
    }
}

} // verus!
