//! The session of one interface: which state the exchange with the server
//! is in, what each command, timer and packet changes, and what the caller
//! has to do about it. The caller owns the socket, the clock and the
//! channels; it hands every event to `step` and carries out the actions
//! that come back.

use crate::dhcp_msg::random_xid;
use crate::dhcp_msg::zeros;
use crate::dhcp_msg::DhcpMessage;
use crate::dhcp_msg::DhcpMessageView;
use crate::error::DhcpError;
use crate::error::ErrorKind;
use crate::options::find_option_bytes4;
use crate::options::find_option_u8;
use crate::options::option_bytes4;
use crate::options::option_u8;
use crate::options::plain_options;
use crate::options::plain_options_of;
use crate::options::release_options;
use crate::options::release_options_spec;
use crate::options::request_options;
use crate::options::request_options_spec;
use crate::options::u32_from_be;
use crate::time::law_sane_values_divide;
use crate::time::BootTime;
use vstd::prelude::*;
use vstd::std_specs::ops::DivSpec;
use vstd::utf8::encode_utf8;

verus! {

/// Seconds of the longest wait between two transmissions of the handshake.
pub const MAX_RETRY_SECS: i64 = 64;

/// Seconds between two transmissions of a renewal.
pub const RENEW_RETRY_SECS: u32 = 60;

/// The states of a session.
#[derive(Debug, Clone, Copy, PartialEq, Eq, Structural)]
pub enum DhcpState {
    /// No socket yet.
    Init,
    /// Socket open, handshake in progress, no lease.
    Requesting,
    /// Lease held.
    Bound,
    /// Lease held, renewal asked of the server that gave it.
    Renewing,
    /// Lease held, renewal asked of any server.
    Rebinding,
    /// Stopped for good.
    Stopped,
    /// The transport could not be opened.
    Failed,
}

/// What the manager can tell the worker.
#[derive(Debug, Clone, Copy, PartialEq, Eq, Structural)]
pub enum MozimDhcpWorkCmd {
    Restart,
    Stop,
}

/// A lease: the address, the server that gave it, how long it lasts and
/// when to renew, in seconds from the instant it was acquired.
#[derive(Debug, Clone, Copy, PartialEq, Eq)]
pub struct Lease {
    pub address: [u8; 4],
    pub server: [u8; 4],
    pub lease_secs: u32,
    pub t1_secs: u32,
    pub t2_secs: u32,
    pub acquired: BootTime,
}

/// A lease as mathematics.
#[verifier::ext_equal]
pub struct LeaseView {
    pub address: Seq<u8>,
    pub server: Seq<u8>,
    pub lease_secs: u32,
    pub t1_secs: u32,
    pub t2_secs: u32,
    pub acquired: BootTime,
}

impl View for Lease {
    type V = LeaseView;

    open spec fn view(&self) -> LeaseView {
        LeaseView {
            address: self.address@,
            server: self.server@,
            lease_secs: self.lease_secs,
            t1_secs: self.t1_secs,
            t2_secs: self.t2_secs,
            acquired: self.acquired,
        }
    }
}

/// What happened, as the caller saw it.
#[derive(Debug)]
pub enum WorkerEvent {
    /// The manager sent a command.
    Command(MozimDhcpWorkCmd),
    /// The transport was opened on the interface with this hardware address.
    TransportOpened([u8; 16]),
    /// The transport could not be opened, or failed while in use.
    TransportFailed(DhcpError),
    /// The deadline that the session asked for has come.
    TimerExpired,
    /// These bytes arrived on the socket.
    PacketArrived(Vec<u8>),
}

/// An event as mathematics.
pub enum EventView {
    Command(MozimDhcpWorkCmd),
    TransportOpened(Seq<u8>),
    TransportFailed(DhcpError),
    TimerExpired,
    PacketArrived(Seq<u8>),
}

impl View for WorkerEvent {
    type V = EventView;

    open spec fn view(&self) -> EventView {
        match self {
            WorkerEvent::Command(c) => EventView::Command(*c),
            WorkerEvent::TransportOpened(hw) => EventView::TransportOpened(hw@),
            WorkerEvent::TransportFailed(e) => EventView::TransportFailed(*e),
            WorkerEvent::TimerExpired => EventView::TimerExpired,
            WorkerEvent::PacketArrived(b) => EventView::PacketArrived(b@),
        }
    }
}

/// What the caller has to do after a step, in the order of the fields:
/// open the transport, send the bytes (to the given address, or to
/// everyone), close the transport, tell the manager the state or the
/// error, leave its loop.
#[derive(Debug)]
pub struct WorkerActions {
    pub open_transport: bool,
    pub send: Option<Vec<u8>>,
    pub send_to: Option<[u8; 4]>,
    pub close_transport: bool,
    pub report: Option<DhcpState>,
    pub error: Option<DhcpError>,
    pub exit: bool,
}

/// What a worker tells its manager: the state it has entered, or an error
/// it has met.
#[derive(Debug)]
pub enum WorkerReport {
    State(DhcpState),
    Error(DhcpError),
}

/// The actions as mathematics.
#[verifier::ext_equal]
pub struct ActionsView {
    pub open_transport: bool,
    pub send: Option<Seq<u8>>,
    pub send_to: Option<Seq<u8>>,
    pub close_transport: bool,
    pub report: Option<DhcpState>,
    pub error: Option<DhcpError>,
    pub exit: bool,
}

impl View for WorkerActions {
    type V = ActionsView;

    open spec fn view(&self) -> ActionsView {
        ActionsView {
            open_transport: self.open_transport,
            send: match self.send {
                Some(b) => Some(b@),
                None => None,
            },
            send_to: match self.send_to {
                Some(a) => Some(a@),
                None => None,
            },
            close_transport: self.close_transport,
            report: self.report,
            error: self.error,
            exit: self.exit,
        }
    }
}

/// The session of one interface.
#[derive(Debug)]
pub struct DhcpSession {
    pub iface_name: String,
    /// Hardware address of the interface, as messages carry it.
    pub hw_addr: [u8; 16],
    /// The host name, as the server-name field carries it.
    pub sname: [u8; 64],
    pub state: DhcpState,
    pub transport_open: bool,
    /// In the handshake: the offer is taken up and the answer awaited.
    pub awaiting_ack: bool,
    pub lease: Option<Lease>,
    /// Transmissions of the last message after the first.
    pub retries: u32,
    /// When the exchange in progress began.
    pub started: BootTime,
    /// When the last message is due again.
    pub next_retry: BootTime,
    pub last_sent: Option<DhcpMessage>,
    /// Transaction id of the exchange in progress.
    pub xid: u32,
}

/// A session as mathematics.
#[verifier::ext_equal]
pub struct SessionView {
    pub iface_name: Seq<char>,
    pub hw_addr: Seq<u8>,
    pub sname: Seq<u8>,
    pub state: DhcpState,
    pub transport_open: bool,
    pub awaiting_ack: bool,
    pub lease: Option<LeaseView>,
    pub retries: u32,
    pub started: BootTime,
    pub next_retry: BootTime,
    pub last_sent: Option<DhcpMessageView>,
    pub xid: u32,
}

impl View for DhcpSession {
    type V = SessionView;

    open spec fn view(&self) -> SessionView {
        SessionView {
            iface_name: self.iface_name@,
            hw_addr: self.hw_addr@,
            sname: self.sname@,
            state: self.state,
            transport_open: self.transport_open,
            awaiting_ack: self.awaiting_ack,
            lease: match self.lease {
                Some(l) => Some(l@),
                None => None,
            },
            retries: self.retries,
            started: self.started,
            next_retry: self.next_retry,
            last_sent: match self.last_sent {
                Some(m) => Some(m@),
                None => None,
            },
            xid: self.xid,
        }
    }
}

/// Nothing to do.
pub open spec fn no_actions() -> ActionsView {
    ActionsView {
        open_transport: false,
        send: None,
        send_to: None,
        close_transport: false,
        report: None,
        error: None,
        exit: false,
    }
}

/// What the actions tell the manager, in the order in which it is told:
/// the error, then the state.
pub open spec fn reports_of(actions: ActionsView) -> Seq<WorkerReport> {
    (match actions.error {
        Some(e) => seq![WorkerReport::Error(e)],
        None => Seq::empty(),
    }) + (match actions.report {
        Some(state) => seq![WorkerReport::State(state)],
        None => Seq::empty(),
    })
}

/// The instant that stands for never.
pub open spec fn end_of_time() -> BootTime {
    BootTime { sec: i64::MAX, nsec: 999_999_999 }
}

/// A span of whole seconds.
pub open spec fn seconds(n: u32) -> BootTime {
    BootTime { sec: n as i64, nsec: 0 }
}

/// The instant `span` after `t`, or never where that is not representable.
pub open spec fn later(t: BootTime, span: BootTime) -> BootTime {
    if BootTime::representable(t.as_nanos() + span.as_nanos()) {
        BootTime::from_nanos(t.as_nanos() + span.as_nanos())
    } else {
        end_of_time()
    }
}

/// `a` is `b` or comes after it, by the seconds and then the nanoseconds.
pub open spec fn not_before(a: BootTime, b: BootTime) -> bool {
    a.sec > b.sec || (a.sec == b.sec && a.nsec >= b.nsec)
}

/// The whole seconds from `started` to `now`, as the elapsed-seconds field
/// holds them: none before `started`, and no more than the field can hold.
pub open spec fn elapsed_secs(started: BootTime, now: BootTime) -> u16 {
    let span = now.as_nanos() - started.as_nanos();
    if span < 0 {
        0
    } else if span / 1_000_000_000 > 65535 {
        65535
    } else {
        (span / 1_000_000_000) as u16
    }
}

/// What the longest wait is divided by after `retries` retransmissions.
pub open spec fn backoff_divisor(retries: u32) -> u32 {
    if retries == 0 {
        16
    } else if retries == 1 {
        8
    } else if retries == 2 {
        4
    } else if retries == 3 {
        2
    } else {
        1
    }
}

/// The wait before the next transmission of the handshake: 4 seconds at
/// first, doubled with each retransmission up to 64 seconds.
pub open spec fn retry_interval(retries: u32) -> BootTime {
    (BootTime { sec: 64, nsec: 0 }).div_spec(backoff_divisor(retries))
}

/// One more retransmission, as far as the counter goes.
pub open spec fn one_more(retries: u32) -> u32 {
    if retries < u32::MAX {
        (retries + 1) as u32
    } else {
        retries
    }
}

/// A request of this session's interface with the given transaction id,
/// elapsed seconds, client address and options.
pub open spec fn message_of(
    s: SessionView,
    xid: u32,
    secs: u16,
    ciaddr: Seq<u8>,
    options: Seq<u8>,
) -> DhcpMessageView {
    DhcpMessageView {
        op: 1,
        htype: 1,
        hlen: 6,
        hops: 0,
        xid,
        secs,
        flags: 0,
        ciaddr,
        yiaddr: zeros(4),
        siaddr: zeros(4),
        giaddr: zeros(4),
        chaddr: s.hw_addr,
        sname: s.sname,
        file: zeros(128),
        options,
    }
}

/// A session that has not been started, for the interface `iface_name`
/// and the host name whose bytes are `host_name`.
pub open spec fn initial_session(iface_name: Seq<char>, host_name: Seq<u8>) -> SessionView {
    SessionView {
        iface_name,
        hw_addr: zeros(16),
        sname: host_name + zeros(64 - host_name.len()),
        state: DhcpState::Init,
        transport_open: false,
        awaiting_ack: false,
        lease: None,
        retries: 0,
        started: BootTime { sec: 0, nsec: 0 },
        next_retry: BootTime { sec: 0, nsec: 0 },
        last_sent: None,
        xid: 0,
    }
}

/// Starts the handshake from scratch: any lease is dropped and a discovery
/// with the transaction id `xid` is sent to everyone.
pub open spec fn begin_discovery_spec(s: SessionView, now: BootTime, xid: u32) -> (
    SessionView,
    ActionsView,
) {
    let m = message_of(s, xid, 0, zeros(4), plain_options(1));
    (
        SessionView {
            state: DhcpState::Requesting,
            awaiting_ack: false,
            lease: None,
            retries: 0,
            started: now,
            next_retry: later(now, retry_interval(0)),
            last_sent: Some(m),
            xid,
            ..s
        },
        ActionsView { send: Some(m.wire()), report: Some(DhcpState::Requesting), ..no_actions() },
    )
}

/// What a command changes. Stop ends the session from any state: a lease
/// is given back where the transport is open, the transport is closed, and
/// the caller leaves its loop. Restart drops any lease and starts the
/// handshake, opening the transport first where it is not open. A stopped
/// session takes no command.
pub open spec fn on_command_spec(s: SessionView, cmd: MozimDhcpWorkCmd, now: BootTime, xid: u32) -> (
    SessionView,
    ActionsView,
) {
    if s.state == DhcpState::Stopped {
        (s, no_actions())
    } else {
        match cmd {
            MozimDhcpWorkCmd::Stop => {
                let release = s.lease is Some && s.transport_open;
                (
                    SessionView {
                        state: DhcpState::Stopped,
                        transport_open: false,
                        awaiting_ack: false,
                        lease: None,
                        last_sent: None,
                        ..s
                    },
                    ActionsView {
                        open_transport: false,
                        send: if release {
                            Some(
                                message_of(
                                    s,
                                    xid,
                                    0,
                                    s.lease.unwrap().address,
                                    release_options_spec(s.lease.unwrap().server),
                                ).wire(),
                            )
                        } else {
                            None
                        },
                        send_to: if release {
                            Some(s.lease.unwrap().server)
                        } else {
                            None
                        },
                        close_transport: s.transport_open,
                        report: Some(DhcpState::Stopped),
                        error: None,
                        exit: true,
                    },
                )
            },
            MozimDhcpWorkCmd::Restart => {
                if s.transport_open {
                    begin_discovery_spec(s, now, xid)
                } else {
                    (
                        SessionView {
                            state: DhcpState::Init,
                            awaiting_ack: false,
                            lease: None,
                            last_sent: None,
                            ..s
                        },
                        ActionsView { open_transport: true, ..no_actions() },
                    )
                }
            },
        }
    }
}

/// The transport is open. A session that waits for it starts the
/// handshake; a session stopped meanwhile has it closed again.
pub open spec fn on_opened_spec(s: SessionView, hw_addr: Seq<u8>, now: BootTime, xid: u32) -> (
    SessionView,
    ActionsView,
) {
    if s.state == DhcpState::Init && !s.transport_open {
        begin_discovery_spec(SessionView { hw_addr, transport_open: true, ..s }, now, xid)
    } else if s.state == DhcpState::Stopped {
        (s, ActionsView { close_transport: true, ..no_actions() })
    } else {
        (s, no_actions())
    }
}

/// The transport failed. Where it could not be opened the session has
/// failed; a failure in the middle of a session changes nothing. Either
/// way the manager is told the error.
pub open spec fn on_failed_spec(s: SessionView, e: DhcpError) -> (SessionView, ActionsView) {
    if s.state == DhcpState::Init {
        (
            SessionView { state: DhcpState::Failed, ..s },
            ActionsView { error: Some(e), report: Some(DhcpState::Failed), ..no_actions() },
        )
    } else {
        (s, ActionsView { error: Some(e), ..no_actions() })
    }
}

/// Sends the last message again, with the seconds elapsed since the
/// exchange began, and waits `wait` for an answer.
pub open spec fn resend_spec(
    s: SessionView,
    now: BootTime,
    wait: BootTime,
    send_to: Option<Seq<u8>>,
) -> (SessionView, ActionsView) {
    let m = DhcpMessageView { secs: elapsed_secs(s.started, now), ..s.last_sent.unwrap() };
    (
        SessionView {
            retries: one_more(s.retries),
            next_retry: later(now, wait),
            last_sent: Some(m),
            ..s
        },
        ActionsView { send: Some(m.wire()), send_to, ..no_actions() },
    )
}

/// Asks for the lease to be renewed, in a new exchange with the
/// transaction id `xid`, and enters `state`.
pub open spec fn renewal_spec(
    s: SessionView,
    now: BootTime,
    xid: u32,
    state: DhcpState,
    send_to: Option<Seq<u8>>,
) -> (SessionView, ActionsView) {
    let m = message_of(s, xid, 0, s.lease.unwrap().address, plain_options(3));
    (
        SessionView {
            state,
            awaiting_ack: true,
            retries: 0,
            started: now,
            next_retry: later(now, seconds(60)),
            last_sent: Some(m),
            xid,
            ..s
        },
        ActionsView { send: Some(m.wire()), send_to, report: Some(state), ..no_actions() },
    )
}

/// What the timer changes at the instant `now`. In the handshake the last
/// message is sent again once it is due, and the wait doubles. A lease is
/// renewed from its first deadline on, at the server that gave it; from
/// its second deadline on, at any server; at its end it is dropped and the
/// handshake starts from scratch.
pub open spec fn on_timer_spec(s: SessionView, now: BootTime, xid: u32) -> (
    SessionView,
    ActionsView,
) {
    match s.state {
        DhcpState::Requesting => {
            if s.last_sent is Some && not_before(now, s.next_retry) {
                resend_spec(s, now, retry_interval(one_more(s.retries)), None)
            } else {
                (s, no_actions())
            }
        },
        DhcpState::Bound => {
            if s.lease is Some && not_before(
                now,
                later(s.lease.unwrap().acquired, seconds(s.lease.unwrap().t1_secs)),
            ) {
                renewal_spec(s, now, xid, DhcpState::Renewing, Some(s.lease.unwrap().server))
            } else {
                (s, no_actions())
            }
        },
        DhcpState::Renewing => {
            if s.lease is None {
                (s, no_actions())
            } else if not_before(
                now,
                later(s.lease.unwrap().acquired, seconds(s.lease.unwrap().t2_secs)),
            ) {
                renewal_spec(s, now, xid, DhcpState::Rebinding, None)
            } else if s.last_sent is Some && not_before(now, s.next_retry) {
                resend_spec(s, now, seconds(60), Some(s.lease.unwrap().server))
            } else {
                (s, no_actions())
            }
        },
        DhcpState::Rebinding => {
            if s.lease is None {
                (s, no_actions())
            } else if not_before(
                now,
                later(s.lease.unwrap().acquired, seconds(s.lease.unwrap().lease_secs)),
            ) {
                begin_discovery_spec(s, now, xid)
            } else if s.last_sent is Some && not_before(now, s.next_retry) {
                resend_spec(s, now, seconds(60), None)
            } else {
                (s, no_actions())
            }
        },
        _ => (s, no_actions()),
    }
}

/// The bytes are a reply to the exchange in progress: a whole message, a
/// reply, and with the transaction id of the session.
pub open spec fn is_reply_to(s: SessionView, bytes: Seq<u8>) -> bool {
    &&& bytes.len() >= 236
    &&& DhcpMessageView::from_wire(bytes).op == 2
    &&& DhcpMessageView::from_wire(bytes).xid == s.xid
}

/// The message offers a lease: it says so and names its server.
pub open spec fn is_offer(m: DhcpMessageView) -> bool {
    option_u8(m.options, 53) == Some(2u8) && option_bytes4(m.options, 54) is Some
}

/// The message grants a lease: it says so, names its server and the time
/// the lease lasts.
pub open spec fn is_ack(m: DhcpMessageView) -> bool {
    &&& option_u8(m.options, 53) == Some(5u8)
    &&& option_bytes4(m.options, 54) is Some
    &&& option_bytes4(m.options, 51) is Some
}

/// The lease that the message grants at the instant `now`. Where the
/// message names no deadlines for renewal, they are half and seven
/// eighths of the time the lease lasts.
pub open spec fn lease_of(m: DhcpMessageView, now: BootTime) -> LeaseView {
    let lease_secs = crate::dhcp_msg::from_be32(option_bytes4(m.options, 51).unwrap());
    LeaseView {
        address: m.yiaddr,
        server: option_bytes4(m.options, 54).unwrap(),
        lease_secs,
        t1_secs: match option_bytes4(m.options, 58) {
            Some(b) => crate::dhcp_msg::from_be32(b),
            None => lease_secs / 2,
        },
        t2_secs: match option_bytes4(m.options, 59) {
            Some(b) => crate::dhcp_msg::from_be32(b),
            None => (lease_secs - lease_secs / 8) as u32,
        },
        acquired: now,
    }
}

/// What a reply changes while the session waits for an offer: an offer is
/// taken up with a request for the address it holds, at the server that
/// made it; anything else is dropped.
pub open spec fn on_offer_spec(s: SessionView, m: DhcpMessageView, now: BootTime) -> (
    SessionView,
    ActionsView,
) {
    if is_offer(m) {
        let request = message_of(
            s,
            s.xid,
            elapsed_secs(s.started, now),
            zeros(4),
            request_options_spec(m.yiaddr, option_bytes4(m.options, 54).unwrap()),
        );
        (
            SessionView {
                awaiting_ack: true,
                retries: 0,
                next_retry: later(now, retry_interval(0)),
                last_sent: Some(request),
                ..s
            },
            ActionsView { send: Some(request.wire()), ..no_actions() },
        )
    } else {
        (s, no_actions())
    }
}

/// What a reply changes while the session waits for an acknowledgement:
/// an acknowledgement binds the lease it grants; anything else is dropped.
pub open spec fn on_ack_spec(s: SessionView, m: DhcpMessageView, now: BootTime) -> (
    SessionView,
    ActionsView,
) {
    if is_ack(m) {
        (
            SessionView {
                state: DhcpState::Bound,
                awaiting_ack: false,
                lease: Some(lease_of(m, now)),
                retries: 0,
                ..s
            },
            ActionsView { report: Some(DhcpState::Bound), ..no_actions() },
        )
    } else {
        (s, no_actions())
    }
}

/// What bytes from the socket change. Anything but a reply to the
/// exchange in progress is dropped and changes nothing, and so is a reply
/// that the session does not wait for.
pub open spec fn on_packet_spec(s: SessionView, bytes: Seq<u8>, now: BootTime) -> (
    SessionView,
    ActionsView,
) {
    let m = DhcpMessageView::from_wire(bytes);
    if !is_reply_to(s, bytes) {
        (s, no_actions())
    } else if s.state == DhcpState::Requesting && !s.awaiting_ack {
        on_offer_spec(s, m, now)
    } else if (s.state == DhcpState::Requesting || s.state == DhcpState::Renewing || s.state
        == DhcpState::Rebinding) && s.awaiting_ack {
        on_ack_spec(s, m, now)
    } else {
        (s, no_actions())
    }
}

/// The session after the event, and what the caller has to do. `xid` is
/// the transaction id for an exchange that the event starts.
pub open spec fn step_spec(s: SessionView, event: EventView, now: BootTime, xid: u32) -> (
    SessionView,
    ActionsView,
) {
    match event {
        EventView::Command(cmd) => on_command_spec(s, cmd, now, xid),
        EventView::TransportOpened(hw_addr) => on_opened_spec(s, hw_addr, now, xid),
        EventView::TransportFailed(e) => on_failed_spec(s, e),
        EventView::TimerExpired => on_timer_spec(s, now, xid),
        EventView::PacketArrived(bytes) => on_packet_spec(s, bytes, now),
    }
}

/// The instant at which the session wants the timer, where it wants one.
pub open spec fn deadline_spec(s: SessionView) -> Option<BootTime> {
    match s.state {
        DhcpState::Requesting => Some(s.next_retry),
        DhcpState::Bound => match s.lease {
            Some(l) => Some(later(l.acquired, seconds(l.t1_secs))),
            None => None,
        },
        DhcpState::Renewing => match s.lease {
            Some(l) => Some(earlier(s.next_retry, later(l.acquired, seconds(l.t2_secs)))),
            None => None,
        },
        DhcpState::Rebinding => match s.lease {
            Some(l) => Some(earlier(s.next_retry, later(l.acquired, seconds(l.lease_secs)))),
            None => None,
        },
        _ => None,
    }
}

/// The earlier of two instants.
pub open spec fn earlier(a: BootTime, b: BootTime) -> BootTime {
    if not_before(a, b) {
        b
    } else {
        a
    }
}

/// The message that starts the handshake is the discovery message of this
/// interface and host name, with the options that say so.
pub proof fn law_discovery_message(s: SessionView, host_name: Seq<u8>, now: BootTime, xid: u32)
    requires
        host_name.len() < 64,
        s.sname == host_name + zeros(64 - host_name.len()),
    ensures
        begin_discovery_spec(s, now, xid).0.last_sent == Some(
            DhcpMessageView {
                options: plain_options(1),
                ..DhcpMessageView::discover(s.hw_addr, host_name, xid)
            },
        ),
        begin_discovery_spec(s, now, xid).1.send == Some(
            (DhcpMessageView {
                options: plain_options(1),
                ..DhcpMessageView::discover(s.hw_addr, host_name, xid)
            }).wire(),
        ),
        begin_discovery_spec(s, now, xid).0.lease is None,
        begin_discovery_spec(s, now, xid).0.state == DhcpState::Requesting,
{
}

/// A stopped session stays as it is whatever happens, and asks for nothing
/// to be opened or sent, and for no second leave.
pub proof fn law_stopped_is_final(s: SessionView, event: EventView, now: BootTime, xid: u32)
    requires
        s.state == DhcpState::Stopped,
    ensures
        step_spec(s, event, now, xid).0 == s,
        !step_spec(s, event, now, xid).1.open_transport,
        step_spec(s, event, now, xid).1.send is None,
        !step_spec(s, event, now, xid).1.exit,
        event is Command ==> step_spec(s, event, now, xid).1 == no_actions(),
{
}

/// Stop ends every session that has not ended: the state is stopped, no
/// lease is left, the transport is closed if and only if it was open, and
/// the caller is told to report and to leave.
pub proof fn law_stop_ends_the_session(s: SessionView, now: BootTime, xid: u32)
    requires
        s.state != DhcpState::Stopped,
    ensures
        ({
            let (after, actions) = step_spec(
                s,
                EventView::Command(MozimDhcpWorkCmd::Stop),
                now,
                xid,
            );
            &&& after.state == DhcpState::Stopped
            &&& after.lease is None
            &&& !after.transport_open
            &&& actions.close_transport == s.transport_open
            &&& actions.report == Some(DhcpState::Stopped)
            &&& actions.exit
            &&& !actions.open_transport
            &&& actions.send is Some <==> s.lease is Some && s.transport_open
        }),
{
}

/// Restart leads every session that has not ended into the handshake
/// without a lease: at once where the transport is open, and through
/// opening it where it is not.
pub proof fn law_restart_drops_the_lease(s: SessionView, now: BootTime, xid: u32)
    requires
        s.state != DhcpState::Stopped,
    ensures
        ({
            let (after, actions) = step_spec(
                s,
                EventView::Command(MozimDhcpWorkCmd::Restart),
                now,
                xid,
            );
            &&& after.lease is None
            &&& s.transport_open ==> after.state == DhcpState::Requesting && actions.send is Some
            &&& !s.transport_open ==> after.state == DhcpState::Init && actions.open_transport
        }),
{
}

/// Bytes that are no reply to the exchange in progress (too short for a
/// message, no reply, or another transaction id) change nothing: not the
/// state, not the lease, not the timer.
pub proof fn law_unrelated_bytes_change_nothing(s: SessionView, bytes: Seq<u8>, now: BootTime, xid: u32)
    requires
        !is_reply_to(s, bytes),
    ensures
        step_spec(s, EventView::PacketArrived(bytes), now, xid) == (s, no_actions()),
{
}

/// The wait between two transmissions of the handshake starts at 4
/// seconds, never shrinks, and never exceeds 64 seconds.
pub proof fn law_backoff_is_bounded(retries: u32)
    ensures
        retry_interval(0).as_nanos() == 4_000_000_000,
        4_000_000_000 <= retry_interval(retries).as_nanos() <= 64_000_000_000,
        retry_interval(retries).as_nanos() <= retry_interval(one_more(retries)).as_nanos(),
        retry_interval(retries).is_sane(),
{
}

/// A retransmission in the handshake carries the seconds elapsed since the
/// exchange began, goes to everyone, counts, and sets the next one no more
/// than 64 seconds later.
pub proof fn law_retransmission(s: SessionView, now: BootTime, xid: u32)
    requires
        s.state == DhcpState::Requesting,
        s.last_sent is Some,
        not_before(now, s.next_retry),
    ensures
        ({
            let (after, actions) = step_spec(s, EventView::TimerExpired, now, xid);
            &&& after.state == DhcpState::Requesting
            &&& after.retries == one_more(s.retries)
            &&& after.last_sent is Some
            &&& after.last_sent.unwrap().secs == elapsed_secs(s.started, now)
            &&& after.last_sent.unwrap().xid == s.last_sent.unwrap().xid
            &&& actions.send == Some(after.last_sent.unwrap().wire())
            &&& actions.send_to is None
            &&& after.next_retry == later(now, retry_interval(after.retries))
            &&& retry_interval(after.retries).as_nanos() <= 64_000_000_000
        }),
{
    law_backoff_is_bounded(one_more(s.retries));
}

/// The elapsed seconds grow with the clock: a second or more later they
/// are more, until the field is full.
pub proof fn law_elapsed_secs_grow(started: BootTime, earlier: BootTime, later: BootTime)
    requires
        started.as_nanos() <= earlier.as_nanos(),
        earlier.as_nanos() + 1_000_000_000 <= later.as_nanos(),
    ensures
        elapsed_secs(started, earlier) < elapsed_secs(started, later) || elapsed_secs(
            started,
            later,
        ) == 65535,
        elapsed_secs(started, earlier) <= elapsed_secs(started, later),
{
}


impl WorkerActions {
    /// Nothing to do.
    pub fn none() -> (a: WorkerActions)
        ensures
            a@ == no_actions(),
    {
        WorkerActions {
            open_transport: false,
            send: None,
            send_to: None,
            close_transport: false,
            report: None,
            error: None,
            exit: false,
        }
    }

    /// Takes out of the actions what they tell the manager, in the order
    /// in which it is to be told. The other actions stay.
    pub fn take_reports(&mut self) -> (reports: Vec<WorkerReport>)
        ensures
            reports@ == reports_of(old(self)@),
            final(self)@ == (ActionsView { error: None, report: None, ..old(self)@ }),
    {
        let mut reports: Vec<WorkerReport> = Vec::new();
        match self.error.take() {
            Some(e) => {
                reports.push(WorkerReport::Error(e));
            },
            None => {},
        }
        match self.report.take() {
            Some(state) => {
                reports.push(WorkerReport::State(state));
            },
            None => {},
        }
        assert(reports@ =~= reports_of(old(self)@));
        assert(self@ =~~= (ActionsView { error: None, report: None, ..old(self)@ }));
        reports
    }
}

/// The instant `span` after `t`, or never.
fn later_of(t: BootTime, span: BootTime) -> (r: BootTime)
    ensures
        r == later(t, span),
{
    match t.checked_add(span) {
        Some(sum) => sum,
        None => BootTime::new(i64::MAX, 999_999_999),
    }
}

/// A span of whole seconds.
fn seconds_of(n: u32) -> (r: BootTime)
    ensures
        r == seconds(n),
{
    BootTime::new(n as i64, 0)
}

fn is_not_before(a: BootTime, b: BootTime) -> (r: bool)
    ensures
        r == not_before(a, b),
{
    a >= b
}

fn elapsed_secs_of(started: BootTime, now: BootTime) -> (r: u16)
    ensures
        r == elapsed_secs(started, now),
{
    let span: i128 = (now.sec as i128 - started.sec as i128) * 1_000_000_000 + (now.nsec as i128
        - started.nsec as i128);
    if span < 0 {
        0
    } else {
        let whole: i128 = span / 1_000_000_000;
        if whole > 65535 {
            65535
        } else {
            whole as u16
        }
    }
}

fn one_more_of(retries: u32) -> (r: u32)
    ensures
        r == one_more(retries),
{
    if retries < u32::MAX {
        retries + 1
    } else {
        retries
    }
}

fn retry_interval_of(retries: u32) -> (r: BootTime)
    ensures
        r == retry_interval(retries),
{
    let divisor: u32 = if retries == 0 {
        16
    } else if retries == 1 {
        8
    } else if retries == 2 {
        4
    } else if retries == 3 {
        2
    } else {
        1
    };
    let longest = BootTime::new(MAX_RETRY_SECS, 0);
    proof {
        law_sane_values_divide(longest, divisor);
    }
    longest / divisor
}

impl DhcpSession {
    /// A session for the interface `iface_name` that has not been started.
    /// A host name of 64 bytes or more does not fit a message and is
    /// refused.
    pub fn new(iface_name: String, host_name: &str) -> (r: Result<DhcpSession, DhcpError>)
        ensures
            r is Err <==> encode_utf8(host_name@).len() >= 64,
            r matches Err(e) ==> e.kind == ErrorKind::InvalidArgument,
            r matches Ok(s) ==> s@ == initial_session(iface_name@, encode_utf8(host_name@)),
    {
        let hw_addr: [u8; 16] = [0u8; 16];
        let m = match DhcpMessage::discover(&hw_addr, host_name, 0) {
            Ok(m) => m,
            Err(e) => {
                return Err(e);
            },
        };
        let s = DhcpSession {
            iface_name,
            hw_addr,
            sname: m.sname,
            state: DhcpState::Init,
            transport_open: false,
            awaiting_ack: false,
            lease: None,
            retries: 0,
            started: BootTime::new(0, 0),
            next_retry: BootTime::new(0, 0),
            last_sent: None,
            xid: 0,
        };
        assert(s@ =~~= initial_session(iface_name@, encode_utf8(host_name@)));
        Ok(s)
    }

    /// A request of this interface.
    fn message(&self, xid: u32, secs: u16, ciaddr: [u8; 4], options: Vec<u8>) -> (m: DhcpMessage)
        ensures
            m@ == message_of(self@, xid, secs, ciaddr@, options@),
    {
        let m = DhcpMessage {
            op: 1,
            htype: 1,
            hlen: 6,
            hops: 0,
            xid,
            secs,
            flags: 0,
            ciaddr,
            yiaddr: [0u8; 4],
            siaddr: [0u8; 4],
            giaddr: [0u8; 4],
            chaddr: self.hw_addr,
            sname: self.sname,
            file: [0u8; 128],
            options,
        };
        assert(m@ =~~= message_of(self@, xid, secs, ciaddr@, options@));
        m
    }

    fn begin_discovery(&mut self, now: BootTime, xid: u32) -> (a: WorkerActions)
        ensures
            final(self)@ == begin_discovery_spec(old(self)@, now, xid).0,
            a@ == begin_discovery_spec(old(self)@, now, xid).1,
    {
        let no_address: [u8; 4] = [0u8; 4];
        assert(no_address@ =~= zeros(4));
        let m = self.message(xid, 0, no_address, plain_options_of(1));
        let bytes = m.to_u8_vec();
        self.state = DhcpState::Requesting;
        self.awaiting_ack = false;
        self.lease = None;
        self.retries = 0;
        self.started = now;
        self.next_retry = later_of(now, retry_interval_of(0));
        self.last_sent = Some(m);
        self.xid = xid;
        let mut a = WorkerActions::none();
        a.send = Some(bytes);
        a.report = Some(DhcpState::Requesting);
        assert(self@ =~~= begin_discovery_spec(old(self)@, now, xid).0);
        assert(a@ =~~= begin_discovery_spec(old(self)@, now, xid).1);
        a
    }

    fn on_command(&mut self, cmd: MozimDhcpWorkCmd, now: BootTime, xid: u32) -> (a: WorkerActions)
        ensures
            final(self)@ == on_command_spec(old(self)@, cmd, now, xid).0,
            a@ == on_command_spec(old(self)@, cmd, now, xid).1,
    {
        if self.state == DhcpState::Stopped {
            return WorkerActions::none();
        }
        match cmd {
            MozimDhcpWorkCmd::Stop => {
                let mut a = WorkerActions::none();
                match self.lease {
                    Some(l) => {
                        if self.transport_open {
                            let m = self.message(xid, 0, l.address, release_options(&l.server));
                            a.send = Some(m.to_u8_vec());
                            a.send_to = Some(l.server);
                        }
                    },
                    None => {},
                }
                a.close_transport = self.transport_open;
                a.report = Some(DhcpState::Stopped);
                a.exit = true;
                self.state = DhcpState::Stopped;
                self.transport_open = false;
                self.awaiting_ack = false;
                self.lease = None;
                self.last_sent = None;
                assert(self@ =~~= on_command_spec(old(self)@, cmd, now, xid).0);
                assert(a@ =~~= on_command_spec(old(self)@, cmd, now, xid).1);
                a
            },
            MozimDhcpWorkCmd::Restart => {
                if self.transport_open {
                    self.begin_discovery(now, xid)
                } else {
                    self.state = DhcpState::Init;
                    self.awaiting_ack = false;
                    self.lease = None;
                    self.last_sent = None;
                    let mut a = WorkerActions::none();
                    a.open_transport = true;
                    assert(self@ =~~= on_command_spec(old(self)@, cmd, now, xid).0);
                    assert(a@ =~~= on_command_spec(old(self)@, cmd, now, xid).1);
                    a
                }
            },
        }
    }

    fn on_opened(&mut self, hw_addr: [u8; 16], now: BootTime, xid: u32) -> (a: WorkerActions)
        ensures
            final(self)@ == on_opened_spec(old(self)@, hw_addr@, now, xid).0,
            a@ == on_opened_spec(old(self)@, hw_addr@, now, xid).1,
    {
        if self.state == DhcpState::Init && !self.transport_open {
            self.hw_addr = hw_addr;
            self.transport_open = true;
            assert(self@ =~~= (SessionView {
                hw_addr: hw_addr@,
                transport_open: true,
                ..old(self)@
            }));
            self.begin_discovery(now, xid)
        } else if self.state == DhcpState::Stopped {
            let mut a = WorkerActions::none();
            a.close_transport = true;
            assert(a@ =~~= on_opened_spec(old(self)@, hw_addr@, now, xid).1);
            a
        } else {
            WorkerActions::none()
        }
    }

    fn on_failed(&mut self, e: DhcpError) -> (a: WorkerActions)
        ensures
            final(self)@ == on_failed_spec(old(self)@, e).0,
            a@ == on_failed_spec(old(self)@, e).1,
    {
        let mut a = WorkerActions::none();
        a.error = Some(e);
        if self.state == DhcpState::Init {
            self.state = DhcpState::Failed;
            a.report = Some(DhcpState::Failed);
        }
        assert(self@ =~~= on_failed_spec(old(self)@, e).0);
        assert(a@ =~~= on_failed_spec(old(self)@, e).1);
        a
    }

    fn resend(&mut self, now: BootTime, wait: BootTime, send_to: Option<[u8; 4]>) -> (a:
        WorkerActions)
        requires
            old(self).last_sent is Some,
        ensures
            final(self)@ == resend_spec(
                old(self)@,
                now,
                wait,
                match send_to {
                    Some(to) => Some(to@),
                    None => None,
                },
            ).0,
            a@ == resend_spec(
                old(self)@,
                now,
                wait,
                match send_to {
                    Some(to) => Some(to@),
                    None => None,
                },
            ).1,
    {
        let ghost to_view: Option<Seq<u8>> = match send_to {
            Some(to) => Some(to@),
            None => None,
        };
        let mut a = WorkerActions::none();
        let mut m = self.last_sent.take().unwrap();
        m.secs = elapsed_secs_of(self.started, now);
        assert(m@ =~~= (DhcpMessageView {
            secs: elapsed_secs(old(self)@.started, now),
            ..old(self)@.last_sent.unwrap()
        }));
        a.send = Some(m.to_u8_vec());
        a.send_to = send_to;
        self.retries = one_more_of(self.retries);
        self.next_retry = later_of(now, wait);
        self.last_sent = Some(m);
        assert(self@ =~~= resend_spec(old(self)@, now, wait, to_view).0);
        assert(a@ =~~= resend_spec(old(self)@, now, wait, to_view).1);
        a
    }

    fn renewal(&mut self, now: BootTime, xid: u32, state: DhcpState, send_to: Option<[u8; 4]>) -> (a:
        WorkerActions)
        requires
            old(self).lease is Some,
        ensures
            final(self)@ == renewal_spec(
                old(self)@,
                now,
                xid,
                state,
                match send_to {
                    Some(to) => Some(to@),
                    None => None,
                },
            ).0,
            a@ == renewal_spec(
                old(self)@,
                now,
                xid,
                state,
                match send_to {
                    Some(to) => Some(to@),
                    None => None,
                },
            ).1,
    {
        let ghost to_view: Option<Seq<u8>> = match send_to {
            Some(to) => Some(to@),
            None => None,
        };
        let l = self.lease.unwrap();
        let m = self.message(xid, 0, l.address, plain_options_of(3));
        let mut a = WorkerActions::none();
        a.send = Some(m.to_u8_vec());
        a.send_to = send_to;
        a.report = Some(state);
        self.state = state;
        self.awaiting_ack = true;
        self.retries = 0;
        self.started = now;
        self.next_retry = later_of(now, seconds_of(RENEW_RETRY_SECS));
        self.last_sent = Some(m);
        self.xid = xid;
        assert(self@ =~~= renewal_spec(old(self)@, now, xid, state, to_view).0);
        assert(a@ =~~= renewal_spec(old(self)@, now, xid, state, to_view).1);
        a
    }

    fn on_timer(&mut self, now: BootTime, xid: u32) -> (a: WorkerActions)
        ensures
            final(self)@ == on_timer_spec(old(self)@, now, xid).0,
            a@ == on_timer_spec(old(self)@, now, xid).1,
    {
        match self.state {
            DhcpState::Requesting => {
                if self.last_sent.is_some() && is_not_before(now, self.next_retry) {
                    let wait = retry_interval_of(one_more_of(self.retries));
                    self.resend(now, wait, None)
                } else {
                    WorkerActions::none()
                }
            },
            DhcpState::Bound => {
                match self.lease {
                    Some(l) => {
                        if is_not_before(now, later_of(l.acquired, seconds_of(l.t1_secs))) {
                            self.renewal(now, xid, DhcpState::Renewing, Some(l.server))
                        } else {
                            WorkerActions::none()
                        }
                    },
                    None => WorkerActions::none(),
                }
            },
            DhcpState::Renewing => {
                match self.lease {
                    Some(l) => {
                        if is_not_before(now, later_of(l.acquired, seconds_of(l.t2_secs))) {
                            self.renewal(now, xid, DhcpState::Rebinding, None)
                        } else if self.last_sent.is_some() && is_not_before(now, self.next_retry) {
                            self.resend(now, seconds_of(RENEW_RETRY_SECS), Some(l.server))
                        } else {
                            WorkerActions::none()
                        }
                    },
                    None => WorkerActions::none(),
                }
            },
            DhcpState::Rebinding => {
                match self.lease {
                    Some(l) => {
                        if is_not_before(now, later_of(l.acquired, seconds_of(l.lease_secs))) {
                            self.begin_discovery(now, xid)
                        } else if self.last_sent.is_some() && is_not_before(now, self.next_retry) {
                            self.resend(now, seconds_of(RENEW_RETRY_SECS), None)
                        } else {
                            WorkerActions::none()
                        }
                    },
                    None => WorkerActions::none(),
                }
            },
            _ => WorkerActions::none(),
        }
    }

    fn on_offer(&mut self, m: &DhcpMessage, now: BootTime) -> (a: WorkerActions)
        ensures
            final(self)@ == on_offer_spec(old(self)@, m@, now).0,
            a@ == on_offer_spec(old(self)@, m@, now).1,
    {
        let kind = find_option_u8(m.options.as_slice(), 53);
        let server = find_option_bytes4(m.options.as_slice(), 54);
        match (kind, server) {
            (Some(2), Some(server)) => {
                let secs = elapsed_secs_of(self.started, now);
                let no_address: [u8; 4] = [0u8; 4];
                assert(no_address@ =~= zeros(4));
                let request = self.message(
                    self.xid,
                    secs,
                    no_address,
                    request_options(&m.yiaddr, &server),
                );
                let mut a = WorkerActions::none();
                a.send = Some(request.to_u8_vec());
                self.awaiting_ack = true;
                self.retries = 0;
                self.next_retry = later_of(now, retry_interval_of(0));
                self.last_sent = Some(request);
                assert(self@ =~~= on_offer_spec(old(self)@, m@, now).0);
                assert(a@ =~~= on_offer_spec(old(self)@, m@, now).1);
                a
            },
            _ => WorkerActions::none(),
        }
    }

    fn on_ack(&mut self, m: &DhcpMessage, now: BootTime) -> (a: WorkerActions)
        ensures
            final(self)@ == on_ack_spec(old(self)@, m@, now).0,
            a@ == on_ack_spec(old(self)@, m@, now).1,
    {
        let kind = find_option_u8(m.options.as_slice(), 53);
        let server = find_option_bytes4(m.options.as_slice(), 54);
        let lease_time = find_option_bytes4(m.options.as_slice(), 51);
        match (kind, server, lease_time) {
            (Some(5), Some(server), Some(lease_time)) => {
                let lease_secs = u32_from_be(&lease_time);
                let t1_secs = match find_option_bytes4(m.options.as_slice(), 58) {
                    Some(b) => u32_from_be(&b),
                    None => lease_secs / 2,
                };
                let t2_secs = match find_option_bytes4(m.options.as_slice(), 59) {
                    Some(b) => u32_from_be(&b),
                    None => lease_secs - lease_secs / 8,
                };
                let lease = Lease {
                    address: m.yiaddr,
                    server,
                    lease_secs,
                    t1_secs,
                    t2_secs,
                    acquired: now,
                };
                assert(lease@ =~~= lease_of(m@, now));
                self.state = DhcpState::Bound;
                self.awaiting_ack = false;
                self.lease = Some(lease);
                self.retries = 0;
                let mut a = WorkerActions::none();
                a.report = Some(DhcpState::Bound);
                assert(self@ =~~= on_ack_spec(old(self)@, m@, now).0);
                assert(a@ =~~= on_ack_spec(old(self)@, m@, now).1);
                a
            },
            _ => WorkerActions::none(),
        }
    }

    fn on_packet(&mut self, bytes: &[u8], now: BootTime) -> (a: WorkerActions)
        ensures
            final(self)@ == on_packet_spec(old(self)@, bytes@, now).0,
            a@ == on_packet_spec(old(self)@, bytes@, now).1,
    {
        let m = match DhcpMessage::decode(bytes) {
            Ok(m) => m,
            Err(_) => {
                return WorkerActions::none();
            },
        };
        if m.op != 2 || m.xid != self.xid {
            return WorkerActions::none();
        }
        if self.state == DhcpState::Requesting && !self.awaiting_ack {
            self.on_offer(&m, now)
        } else if (self.state == DhcpState::Requesting || self.state == DhcpState::Renewing
            || self.state == DhcpState::Rebinding) && self.awaiting_ack {
            self.on_ack(&m, now)
        } else {
            WorkerActions::none()
        }
    }

    /// The session takes the event at the instant `now`; `xid` is the
    /// transaction id for an exchange that the event starts.
    pub fn step_with_xid(&mut self, event: WorkerEvent, now: BootTime, xid: u32) -> (actions:
        WorkerActions)
        ensures
            final(self)@ == step_spec(old(self)@, event@, now, xid).0,
            actions@ == step_spec(old(self)@, event@, now, xid).1,
    {
        match event {
            WorkerEvent::Command(cmd) => self.on_command(cmd, now, xid),
            WorkerEvent::TransportOpened(hw_addr) => self.on_opened(hw_addr, now, xid),
            WorkerEvent::TransportFailed(e) => self.on_failed(e),
            WorkerEvent::TimerExpired => self.on_timer(now, xid),
            WorkerEvent::PacketArrived(bytes) => self.on_packet(bytes.as_slice(), now),
        }
    }

    /// The session takes the event at the instant `now`. An exchange that
    /// the event starts gets a transaction id drawn at random; apart from
    /// that id the step is `step_with_xid`.
    pub fn step(&mut self, event: WorkerEvent, now: BootTime) -> (actions: WorkerActions)
        ensures
            exists|xid: u32|
                {
                    &&& final(self)@ == (#[trigger] step_spec(old(self)@, event@, now, xid)).0
                    &&& actions@ == step_spec(old(self)@, event@, now, xid).1
                },
    {
        let xid = random_xid();
        let ghost event_view = event@;
        let actions = self.step_with_xid(event, now, xid);
        assert(self@ == step_spec(old(self)@, event_view, now, xid).0);
        actions
    }

    /// The instant at which the session wants the timer, where it wants
    /// one.
    pub fn deadline(&self) -> (d: Option<BootTime>)
        ensures
            d == deadline_spec(self@),
    {
        match self.state {
            DhcpState::Requesting => Some(self.next_retry),
            DhcpState::Bound => match self.lease {
                Some(l) => Some(later_of(l.acquired, seconds_of(l.t1_secs))),
                None => None,
            },
            DhcpState::Renewing => match self.lease {
                Some(l) => {
                    let t2 = later_of(l.acquired, seconds_of(l.t2_secs));
                    if is_not_before(self.next_retry, t2) {
                        Some(t2)
                    } else {
                        Some(self.next_retry)
                    }
                },
                None => None,
            },
            DhcpState::Rebinding => match self.lease {
                Some(l) => {
                    let end = later_of(l.acquired, seconds_of(l.lease_secs));
                    if is_not_before(self.next_retry, end) {
                        Some(end)
                    } else {
                        Some(self.next_retry)
                    }
                },
                None => None,
            },
            _ => None,
        }
    }
}

} // verus!
