use mozim::dhcp_manager::MozimDhcpCmd;
use mozim::dhcp_manager::MozimDhcpManager;
use mozim::dhcp_msg::DhcpMessage;
use mozim::dhcp_worker::DhcpSession;
use mozim::dhcp_worker::DhcpState;
use mozim::dhcp_worker::Lease;
use mozim::dhcp_worker::MozimDhcpWorkCmd;
use mozim::dhcp_worker::WorkerActions;
use mozim::dhcp_worker::WorkerEvent;
use mozim::dhcp_worker::WorkerReport;
use mozim::error::DhcpError;
use mozim::error::ErrorKind;
use mozim::options::find_option_bytes4;
use mozim::options::find_option_u8;
use mozim::time::BootTime;

const HW: [u8; 16] = [2, 4, 6, 8, 10, 12, 0, 0, 0, 0, 0, 0, 0, 0, 0, 0];
const SERVER: [u8; 4] = [10, 0, 0, 1];
const ADDRESS: [u8; 4] = [10, 0, 0, 42];

fn at(sec: i64) -> BootTime {
    BootTime::new(sec, 0)
}

fn reply(xid: u32, kind: u8, extra: &[u8]) -> Vec<u8> {
    let mut options = vec![99, 130, 83, 99, 53, 1, kind, 54, 4];
    options.extend_from_slice(&SERVER);
    options.extend_from_slice(extra);
    options.push(255);
    let m = DhcpMessage {
        op: 2,
        htype: 1,
        hlen: 6,
        hops: 0,
        xid,
        secs: 0,
        flags: 0,
        ciaddr: [0; 4],
        yiaddr: ADDRESS,
        siaddr: SERVER,
        giaddr: [0; 4],
        chaddr: HW,
        sname: [0; 64],
        file: [0; 128],
        options,
    };
    m.to_u8_vec()
}

fn offer(xid: u32) -> Vec<u8> {
    reply(xid, 2, &[])
}

fn ack(xid: u32, lease_secs: u32) -> Vec<u8> {
    let mut extra = vec![51, 4];
    extra.extend_from_slice(&lease_secs.to_be_bytes());
    reply(xid, 5, &extra)
}

fn started(xid: u32, now: BootTime) -> DhcpSession {
    let mut s = DhcpSession::new("eth0".to_string(), "node1").unwrap();
    let a = s.step_with_xid(WorkerEvent::Command(MozimDhcpWorkCmd::Restart), now, xid);
    assert!(a.open_transport);
    assert!(a.send.is_none());
    assert_eq!(s.state, DhcpState::Init);
    let a = s.step_with_xid(WorkerEvent::TransportOpened(HW), now, xid);
    assert!(a.send.is_some());
    assert_eq!(s.state, DhcpState::Requesting);
    s
}

fn bound(xid: u32, now: BootTime, lease_secs: u32) -> DhcpSession {
    let mut s = started(xid, now);
    s.step_with_xid(WorkerEvent::PacketArrived(offer(xid)), now, 0);
    s.step_with_xid(WorkerEvent::PacketArrived(ack(xid, lease_secs)), now, 0);
    assert_eq!(s.state, DhcpState::Bound);
    s
}

fn sent(a: &WorkerActions) -> DhcpMessage {
    DhcpMessage::decode(a.send.as_ref().unwrap()).unwrap()
}

fn is_idle(a: &WorkerActions) -> bool {
    !a.open_transport
        && a.send.is_none()
        && a.send_to.is_none()
        && !a.close_transport
        && a.report.is_none()
        && a.error.is_none()
        && !a.exit
}

#[test]
fn new_session_is_in_init() {
    let s = DhcpSession::new("eth0".to_string(), "node1").unwrap();
    assert_eq!(s.iface_name, "eth0");
    assert_eq!(s.state, DhcpState::Init);
    assert!(!s.transport_open);
    assert!(s.lease.is_none());
    assert!(s.last_sent.is_none());
    assert_eq!(&s.sname[..5], b"node1");
    assert!(s.sname[5..].iter().all(|b| *b == 0));
    assert_eq!(s.deadline(), None);
}

#[test]
fn new_session_rejects_a_long_host_name() {
    let e = DhcpSession::new("eth0".to_string(), &"h".repeat(64)).unwrap_err();
    assert_eq!(e.kind, ErrorKind::InvalidArgument);
    assert!(DhcpSession::new("eth0".to_string(), &"h".repeat(63)).is_ok());
}

#[test]
fn start_opens_the_transport_then_discovers() {
    let mut s = DhcpSession::new("eth0".to_string(), "node1").unwrap();
    let a = s.step_with_xid(WorkerEvent::Command(MozimDhcpWorkCmd::Restart), at(100), 7);
    assert!(a.open_transport);
    assert!(a.send.is_none());
    assert!(a.report.is_none());
    let a = s.step_with_xid(WorkerEvent::TransportOpened(HW), at(100), 7);
    assert_eq!(a.report, Some(DhcpState::Requesting));
    assert_eq!(a.send_to, None);
    let m = sent(&a);
    assert_eq!(m.op, 1);
    assert_eq!(m.htype, 1);
    assert_eq!(m.hlen, 6);
    assert_eq!(m.xid, 7);
    assert_eq!(m.secs, 0);
    assert_eq!(m.chaddr, HW);
    assert_eq!(&m.sname[..5], b"node1");
    assert_eq!(m.ciaddr, [0; 4]);
    assert_eq!(find_option_u8(&m.options, 53), Some(1));
    assert_eq!(s.state, DhcpState::Requesting);
    assert!(s.transport_open);
    assert_eq!(s.xid, 7);
    assert_eq!(s.hw_addr, HW);
    assert_eq!(s.next_retry, at(104));
    assert_eq!(s.deadline(), Some(at(104)));
}

#[test]
fn failure_to_open_the_transport_is_reported() {
    let mut s = DhcpSession::new("eth9".to_string(), "").unwrap();
    s.step_with_xid(WorkerEvent::Command(MozimDhcpWorkCmd::Restart), at(1), 7);
    let e = DhcpError::not_found("Interface eth9 not found".to_string());
    let a = s.step_with_xid(WorkerEvent::TransportFailed(e.clone()), at(1), 7);
    assert_eq!(a.error, Some(e));
    assert_eq!(a.report, Some(DhcpState::Failed));
    assert!(!a.exit);
    assert_eq!(s.state, DhcpState::Failed);
    assert_eq!(s.deadline(), None);
    let a = s.step_with_xid(WorkerEvent::Command(MozimDhcpWorkCmd::Stop), at(2), 7);
    assert!(a.exit);
    assert!(!a.close_transport);
    assert_eq!(s.state, DhcpState::Stopped);
}

#[test]
fn failure_in_the_middle_of_a_session_changes_no_state() {
    let mut s = started(7, at(100));
    let e = DhcpError::bug("send failed".to_string());
    let a = s.step_with_xid(WorkerEvent::TransportFailed(e.clone()), at(101), 8);
    assert_eq!(a.error, Some(e));
    assert_eq!(a.report, None);
    assert!(!a.exit);
    assert_eq!(s.state, DhcpState::Requesting);
    assert_eq!(s.next_retry, at(104));
}

/// A worker with a transport that opens at once and never fails, and a
/// manager, wired as the daemon wires them.
struct Daemon {
    manager: MozimDhcpManager,
    session: DhcpSession,
    now: BootTime,
    sent: Vec<Vec<u8>>,
    opens: u32,
    closes: u32,
    exits: u32,
    reports: std::collections::VecDeque<WorkerReport>,
}

impl Daemon {
    fn new() -> Daemon {
        Daemon {
            manager: MozimDhcpManager::new("eth0".to_string()),
            session: DhcpSession::new("eth0".to_string(), "node1").unwrap(),
            now: at(100),
            sent: Vec::new(),
            opens: 0,
            closes: 0,
            exits: 0,
            reports: std::collections::VecDeque::new(),
        }
    }

    fn worker(&mut self, event: WorkerEvent) {
        let mut events = vec![event];
        while let Some(event) = events.pop() {
            let mut actions = self.session.step(event, self.now);
            if actions.open_transport {
                self.opens += 1;
                events.push(WorkerEvent::TransportOpened(HW));
            }
            if let Some(bytes) = actions.send.take() {
                self.sent.push(bytes);
            }
            if actions.close_transport {
                self.closes += 1;
            }
            if actions.exit {
                self.exits += 1;
            }
            self.reports.extend(actions.take_reports());
        }
    }

    fn request(&mut self, line: &str) -> Result<mozim::dhcp_manager::DhcpStatus, DhcpError> {
        let request = mozim::request::parse_request(line)?;
        let (iface, cmd) = request.command().unwrap();
        assert_eq!(iface, "eth0");
        while let Some(report) = self.reports.pop_front() {
            if let WorkerReport::State(state) = report {
                self.manager.worker_reported(state);
            }
        }
        let decision = self.manager.handle(cmd);
        if let Some(work) = decision.forward {
            self.worker(WorkerEvent::Command(work));
        }
        match decision.reply {
            Some(reply) => reply,
            None => loop {
                let report = self.reports.pop_front();
                let gone = report.is_none();
                if let Some(reply) = self.manager.worker_answered(report) {
                    break reply;
                }
                assert!(!gone);
            },
        }
    }
}

#[test]
fn offer_and_ack_lead_from_requesting_to_bound() {
    let mut d = Daemon::new();
    let status = d.request("start eth0").unwrap();
    assert_eq!(status.iface_name, "eth0");
    assert_eq!(status.state, DhcpState::Requesting);
    assert_eq!(d.opens, 1);
    assert_eq!(d.session.state, DhcpState::Requesting);
    assert_eq!(d.sent.len(), 1);
    let xid = DhcpMessage::decode(&d.sent[0]).unwrap().xid;
    assert_eq!(xid, d.session.xid);
    assert_eq!(d.request("query eth0").unwrap().state, DhcpState::Requesting);

    d.worker(WorkerEvent::PacketArrived(offer(xid)));
    assert_eq!(d.session.state, DhcpState::Requesting);
    assert!(d.session.awaiting_ack);
    assert_eq!(d.sent.len(), 2);
    let request = DhcpMessage::decode(&d.sent[1]).unwrap();
    assert_eq!(request.xid, xid);
    assert_eq!(find_option_u8(&request.options, 53), Some(3));
    assert_eq!(find_option_bytes4(&request.options, 50), Some(ADDRESS));
    assert_eq!(find_option_bytes4(&request.options, 54), Some(SERVER));

    d.now = at(101);
    d.worker(WorkerEvent::PacketArrived(ack(xid, 3600)));
    assert_eq!(d.sent.len(), 2);
    assert_eq!(d.session.state, DhcpState::Bound);
    assert_eq!(
        d.session.lease,
        Some(Lease {
            address: ADDRESS,
            server: SERVER,
            lease_secs: 3600,
            t1_secs: 1800,
            t2_secs: 3150,
            acquired: at(101),
        })
    );
    assert_eq!(d.session.deadline(), Some(at(1901)));

    let status = d.request("query eth0").unwrap();
    assert_eq!(status.iface_name, "eth0");
    assert_eq!(status.state, DhcpState::Bound);
}

#[test]
fn start_then_stop_closes_the_transport_exactly_once() {
    let mut d = Daemon::new();
    assert_eq!(d.request("start eth0").unwrap().state, DhcpState::Requesting);
    let status = d.request("stop eth0").unwrap();
    assert_eq!(status.state, DhcpState::Stopped);
    assert_eq!(d.session.state, DhcpState::Stopped);
    assert!(!d.session.transport_open);
    assert_eq!(d.exits, 1);
    assert_eq!(d.closes, 1);

    let xid = d.session.xid;
    for event in [
        WorkerEvent::Command(MozimDhcpWorkCmd::Stop),
        WorkerEvent::Command(MozimDhcpWorkCmd::Restart),
        WorkerEvent::TimerExpired,
        WorkerEvent::PacketArrived(offer(xid)),
    ] {
        d.worker(event);
        assert_eq!(d.session.state, DhcpState::Stopped);
    }
    assert_eq!(d.closes, 1);
    assert_eq!(d.opens, 1);
    assert_eq!(d.exits, 1);
    assert_eq!(d.sent.len(), 1);

    for line in ["query eth0", "start eth0", "stop eth0"] {
        let e = d.request(line).unwrap_err();
        assert_eq!(e.kind, ErrorKind::NotFound);
        assert!(e.msg.contains("no such session"));
    }
    assert_eq!(d.closes, 1);
}

#[test]
fn start_on_a_missing_interface_fails_with_its_error() {
    let mut manager = MozimDhcpManager::new("eth9".to_string());
    let mut s = DhcpSession::new("eth9".to_string(), "").unwrap();
    let d = manager.handle(MozimDhcpCmd::StartDhcp);
    let a = s.step(WorkerEvent::Command(d.forward.unwrap()), at(1));
    assert!(a.open_transport);
    let e = DhcpError::not_found("Interface eth9 not found".to_string());
    let mut a = s.step(WorkerEvent::TransportFailed(e.clone()), at(1));
    let mut reports = a.take_reports().into_iter();
    let reply = manager.worker_answered(reports.next()).unwrap();
    assert_eq!(reply.unwrap_err(), e);
    assert_ne!(s.state, DhcpState::Requesting);
    assert_eq!(s.state, DhcpState::Failed);
    match reports.next() {
        Some(WorkerReport::State(state)) => manager.worker_reported(state),
        other => panic!("{:?}", other),
    }
    assert!(reports.next().is_none());
    assert_eq!(
        manager.handle(MozimDhcpCmd::QueryDhcp).reply.unwrap().unwrap().state,
        DhcpState::Failed
    );
}

#[test]
fn reports_come_out_error_first() {
    let mut s = DhcpSession::new("eth0".to_string(), "").unwrap();
    let e = DhcpError::bug("socket".to_string());
    let mut a = s.step_with_xid(WorkerEvent::TransportFailed(e.clone()), at(1), 0);
    let reports = a.take_reports();
    assert_eq!(reports.len(), 2);
    assert!(matches!(&reports[0], WorkerReport::Error(x) if *x == e));
    assert!(matches!(&reports[1], WorkerReport::State(DhcpState::Failed)));
    assert!(a.error.is_none());
    assert!(a.report.is_none());
    assert!(a.take_reports().is_empty());
    let mut a = s.step_with_xid(WorkerEvent::TimerExpired, at(1), 0);
    assert!(a.take_reports().is_empty());
}

#[test]
fn ack_may_name_its_own_deadlines() {
    let mut s = started(7, at(0));
    s.step_with_xid(WorkerEvent::PacketArrived(offer(7)), at(0), 0);
    let mut extra = vec![51, 4, 0, 0, 0, 100, 58, 4, 0, 0, 0, 30, 59, 4, 0, 0, 0, 80];
    extra.extend_from_slice(&[0, 0]);
    s.step_with_xid(WorkerEvent::PacketArrived(reply(7, 5, &extra)), at(5), 0);
    let lease = s.lease.unwrap();
    assert_eq!(lease.lease_secs, 100);
    assert_eq!(lease.t1_secs, 30);
    assert_eq!(lease.t2_secs, 80);
}

#[test]
fn stop_before_the_transport_is_open_closes_it_when_it_opens() {
    let mut s = DhcpSession::new("eth0".to_string(), "").unwrap();
    s.step_with_xid(WorkerEvent::Command(MozimDhcpWorkCmd::Restart), at(1), 7);
    let a = s.step_with_xid(WorkerEvent::Command(MozimDhcpWorkCmd::Stop), at(1), 7);
    assert!(!a.close_transport);
    assert!(a.exit);
    let a = s.step_with_xid(WorkerEvent::TransportOpened(HW), at(1), 7);
    assert!(a.close_transport);
    assert!(a.send.is_none());
    assert_eq!(s.state, DhcpState::Stopped);
}

#[test]
fn stop_with_a_lease_releases_it() {
    let mut s = bound(7, at(100), 3600);
    let a = s.step_with_xid(WorkerEvent::Command(MozimDhcpWorkCmd::Stop), at(150), 99);
    let release = sent(&a);
    assert_eq!(release.op, 1);
    assert_eq!(release.xid, 99);
    assert_eq!(release.ciaddr, ADDRESS);
    assert_eq!(find_option_u8(&release.options, 53), Some(7));
    assert_eq!(find_option_bytes4(&release.options, 54), Some(SERVER));
    assert_eq!(a.send_to, Some(SERVER));
    assert!(a.close_transport);
    assert!(a.exit);
    assert_eq!(a.report, Some(DhcpState::Stopped));
    assert_eq!(s.state, DhcpState::Stopped);
    assert!(s.lease.is_none());
}

#[test]
fn without_replies_the_discovery_is_retransmitted_with_backoff() {
    let mut s = started(7, at(100));
    let mut now = at(100);
    let mut last_secs = 0u16;
    let mut waits = Vec::new();
    for round in 0..8 {
        let due = s.deadline().unwrap();
        let early = s.step_with_xid(WorkerEvent::TimerExpired, due - BootTime::new(0, 1), 0);
        assert!(is_idle(&early));
        let wait = due - now;
        waits.push(wait.sec);
        assert!(wait <= BootTime::new(64, 0));
        now = due;
        let a = s.step_with_xid(WorkerEvent::TimerExpired, now, 0);
        let m = sent(&a);
        assert_eq!(a.send_to, None);
        assert_eq!(m.xid, 7);
        assert_eq!(find_option_u8(&m.options, 53), Some(1));
        assert!(m.secs > last_secs, "round {}", round);
        last_secs = m.secs;
        assert_eq!(s.retries, round + 1);
        assert_eq!(s.state, DhcpState::Requesting);
    }
    assert_eq!(waits, vec![4, 8, 16, 32, 64, 64, 64, 64]);
    assert_eq!(last_secs, 4 + 8 + 16 + 32 + 64 * 4);
}

#[test]
fn elapsed_seconds_stop_at_the_top_of_the_field() {
    let mut s = started(7, at(100));
    let a = s.step_with_xid(WorkerEvent::TimerExpired, at(100 + 70_000), 0);
    assert_eq!(sent(&a).secs, 65535);
}

#[test]
fn the_request_is_retransmitted_too() {
    let mut s = started(7, at(100));
    s.step_with_xid(WorkerEvent::PacketArrived(offer(7)), at(102), 0);
    assert_eq!(s.retries, 0);
    assert_eq!(s.next_retry, at(106));
    let a = s.step_with_xid(WorkerEvent::TimerExpired, at(106), 0);
    let m = sent(&a);
    assert_eq!(find_option_u8(&m.options, 53), Some(3));
    assert_eq!(m.secs, 6);
    assert_eq!(s.next_retry, at(114));
}

#[test]
fn replies_that_do_not_match_are_discarded() {
    let mut s = started(7, at(100));
    let before_retry = s.next_retry;
    let mut request_op = offer(7);
    request_op[0] = 1;
    let mut no_cookie = offer(7);
    no_cookie[236] = 0;
    for bytes in [
        vec![1u8; 10],
        Vec::new(),
        vec![0u8; 235],
        offer(8),
        request_op,
        no_cookie,
        ack(7, 3600),
        reply(7, 6, &[]),
    ] {
        let a = s.step_with_xid(WorkerEvent::PacketArrived(bytes), at(101), 0);
        assert!(is_idle(&a));
        assert_eq!(s.state, DhcpState::Requesting);
        assert!(!s.awaiting_ack);
        assert_eq!(s.next_retry, before_retry);
        assert_eq!(s.retries, 0);
        assert!(s.lease.is_none());
    }
}

#[test]
fn an_offer_is_not_an_acknowledgement() {
    let mut s = started(7, at(100));
    s.step_with_xid(WorkerEvent::PacketArrived(offer(7)), at(100), 0);
    let a = s.step_with_xid(WorkerEvent::PacketArrived(offer(7)), at(101), 0);
    assert!(is_idle(&a));
    assert_eq!(s.state, DhcpState::Requesting);
    let a = s.step_with_xid(WorkerEvent::PacketArrived(reply(7, 5, &[])), at(101), 0);
    assert!(is_idle(&a));
    assert_eq!(s.state, DhcpState::Requesting);
}

#[test]
fn a_bound_session_ignores_packets_and_early_timers() {
    let mut s = bound(7, at(100), 3600);
    let a = s.step_with_xid(WorkerEvent::PacketArrived(ack(7, 10)), at(200), 0);
    assert!(is_idle(&a));
    assert_eq!(s.lease.unwrap().lease_secs, 3600);
    let a = s.step_with_xid(WorkerEvent::TimerExpired, at(1899), 0);
    assert!(is_idle(&a));
    assert_eq!(s.state, DhcpState::Bound);
}

#[test]
fn a_lease_is_renewed_then_rebound_then_dropped() {
    let mut s = bound(7, at(100), 3600);
    let a = s.step_with_xid(WorkerEvent::TimerExpired, at(1900), 21);
    assert_eq!(s.state, DhcpState::Renewing);
    assert_eq!(a.report, Some(DhcpState::Renewing));
    assert_eq!(a.send_to, Some(SERVER));
    let m = sent(&a);
    assert_eq!(m.xid, 21);
    assert_eq!(m.ciaddr, ADDRESS);
    assert_eq!(find_option_u8(&m.options, 53), Some(3));
    assert_eq!(s.deadline(), Some(at(1960)));

    let a = s.step_with_xid(WorkerEvent::TimerExpired, at(1960), 22);
    assert_eq!(s.state, DhcpState::Renewing);
    assert_eq!(a.send_to, Some(SERVER));
    assert_eq!(sent(&a).xid, 21);
    assert_eq!(sent(&a).secs, 60);
    assert_eq!(s.next_retry, at(2020));

    let a = s.step_with_xid(WorkerEvent::TimerExpired, at(100 + 3150), 23);
    assert_eq!(s.state, DhcpState::Rebinding);
    assert_eq!(a.report, Some(DhcpState::Rebinding));
    assert_eq!(a.send_to, None);
    assert_eq!(sent(&a).xid, 23);
    assert_eq!(sent(&a).ciaddr, ADDRESS);
    assert!(s.lease.is_some());

    let a = s.step_with_xid(WorkerEvent::TimerExpired, at(100 + 3150 + 60), 24);
    assert_eq!(s.state, DhcpState::Rebinding);
    assert_eq!(a.send_to, None);
    assert_eq!(sent(&a).xid, 23);

    let a = s.step_with_xid(WorkerEvent::TimerExpired, at(100 + 3600), 25);
    assert_eq!(s.state, DhcpState::Requesting);
    assert_eq!(a.report, Some(DhcpState::Requesting));
    assert!(s.lease.is_none());
    assert_eq!(sent(&a).xid, 25);
    assert_eq!(find_option_u8(&sent(&a).options, 53), Some(1));
    assert_eq!(sent(&a).ciaddr, [0; 4]);
}

#[test]
fn a_renewal_that_is_acknowledged_binds_again() {
    let mut s = bound(7, at(100), 3600);
    s.step_with_xid(WorkerEvent::TimerExpired, at(1900), 21);
    let a = s.step_with_xid(WorkerEvent::PacketArrived(ack(7, 3600)), at(1901), 0);
    assert!(is_idle(&a));
    assert_eq!(s.state, DhcpState::Renewing);
    let a = s.step_with_xid(WorkerEvent::PacketArrived(ack(21, 7200)), at(1902), 0);
    assert_eq!(a.report, Some(DhcpState::Bound));
    assert_eq!(s.state, DhcpState::Bound);
    let lease = s.lease.unwrap();
    assert_eq!(lease.lease_secs, 7200);
    assert_eq!(lease.acquired, at(1902));
    assert_eq!(s.deadline(), Some(at(1902 + 3600)));
}

#[test]
fn restart_discards_the_lease_and_discovers_again() {
    let mut s = bound(7, at(100), 3600);
    let a = s.step_with_xid(WorkerEvent::Command(MozimDhcpWorkCmd::Restart), at(500), 31);
    assert!(!a.open_transport);
    assert_eq!(a.report, Some(DhcpState::Requesting));
    assert_eq!(s.state, DhcpState::Requesting);
    assert!(s.lease.is_none());
    assert!(!s.awaiting_ack);
    assert_eq!(sent(&a).xid, 31);
    assert_eq!(find_option_u8(&sent(&a).options, 53), Some(1));
    assert_eq!(s.next_retry, at(504));
}

#[test]
fn step_draws_a_fresh_transaction_id() {
    let mut ids = Vec::new();
    for _ in 0..16 {
        let mut s = DhcpSession::new("eth0".to_string(), "").unwrap();
        s.step(WorkerEvent::Command(MozimDhcpWorkCmd::Restart), at(1));
        let a = s.step(WorkerEvent::TransportOpened(HW), at(1));
        assert_eq!(sent(&a).xid, s.xid);
        ids.push(s.xid);
    }
    ids.sort();
    ids.dedup();
    assert!(ids.len() > 1);
}

#[test]
fn deadlines_far_in_the_future_do_not_overflow() {
    let mut s = started(7, BootTime::new(i64::MAX - 2, 0));
    assert_eq!(s.next_retry, BootTime::new(i64::MAX, 999_999_999));
    let a = s.step_with_xid(WorkerEvent::TimerExpired, BootTime::new(i64::MAX - 1, 0), 0);
    assert!(is_idle(&a));
}
