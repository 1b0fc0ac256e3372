use mozim::dhcp_manager::ManagerPhase;
use mozim::dhcp_manager::MozimDhcpCmd;
use mozim::dhcp_manager::MozimDhcpManager;
use mozim::dhcp_worker::DhcpState;
use mozim::dhcp_worker::MozimDhcpWorkCmd;
use mozim::dhcp_worker::WorkerReport;
use mozim::error::DhcpError;
use mozim::error::ErrorKind;

fn running() -> MozimDhcpManager {
    let mut m = MozimDhcpManager::new("eth0".to_string());
    m.handle(MozimDhcpCmd::StartDhcp);
    m.worker_answered(Some(WorkerReport::State(DhcpState::Requesting)));
    m
}

#[test]
fn start_forwards_a_restart_and_the_worker_answers() {
    let mut m = MozimDhcpManager::new("eth0".to_string());
    let d = m.handle(MozimDhcpCmd::StartDhcp);
    assert_eq!(d.forward, Some(MozimDhcpWorkCmd::Restart));
    assert!(d.reply.is_none());
    assert!(!d.finished);
    assert_eq!(m.phase, ManagerPhase::Running);
    let status = m
        .worker_answered(Some(WorkerReport::State(DhcpState::Requesting)))
        .unwrap()
        .unwrap();
    assert_eq!(status.iface_name, "eth0");
    assert_eq!(status.state, DhcpState::Requesting);
    assert_eq!(m.state, DhcpState::Requesting);
}

#[test]
fn start_that_fails_hands_the_error_on() {
    let mut m = MozimDhcpManager::new("eth9".to_string());
    m.handle(MozimDhcpCmd::StartDhcp);
    let e = DhcpError::not_found("Interface eth9 not found".to_string());
    let reply = m.worker_answered(Some(WorkerReport::Error(e.clone()))).unwrap();
    assert_eq!(reply.unwrap_err(), e);
    assert_eq!(m.state, DhcpState::Failed);
    m.worker_reported(DhcpState::Failed);
    let status = m.handle(MozimDhcpCmd::QueryDhcp).reply.unwrap().unwrap();
    assert_eq!(status.state, DhcpState::Failed);
}

#[test]
fn query_answers_at_once_with_the_state_reported_last() {
    let mut m = MozimDhcpManager::new("eth0".to_string());
    let d = m.handle(MozimDhcpCmd::QueryDhcp);
    assert_eq!(d.forward, None);
    assert_eq!(d.reply.unwrap().unwrap().state, DhcpState::Init);
    let mut m = running();
    assert_eq!(
        m.handle(MozimDhcpCmd::QueryDhcp).reply.unwrap().unwrap().state,
        DhcpState::Requesting
    );
    m.worker_reported(DhcpState::Bound);
    let d = m.handle(MozimDhcpCmd::QueryDhcp);
    assert_eq!(d.forward, None);
    assert!(!d.finished);
    let status = d.reply.unwrap().unwrap();
    assert_eq!(status.state, DhcpState::Bound);
    assert_eq!(status.iface_name, "eth0");
    m.worker_reported(DhcpState::Renewing);
    assert_eq!(
        m.handle(MozimDhcpCmd::QueryDhcp).reply.unwrap().unwrap().state,
        DhcpState::Renewing
    );
}

#[test]
fn stop_forwards_a_stop_and_finishes() {
    let mut m = running();
    let d = m.handle(MozimDhcpCmd::StopDhcp);
    assert_eq!(d.forward, Some(MozimDhcpWorkCmd::Stop));
    assert!(d.reply.is_none());
    assert!(d.finished);
    assert_eq!(m.phase, ManagerPhase::Stopped);
    let status = m
        .worker_answered(Some(WorkerReport::State(DhcpState::Stopped)))
        .unwrap()
        .unwrap();
    assert_eq!(status.state, DhcpState::Stopped);
    assert_eq!(status.iface_name, "eth0");
}

#[test]
fn stop_passes_over_what_was_reported_before_the_worker_stopped() {
    let mut m = running();
    m.handle(MozimDhcpCmd::StopDhcp);
    assert!(m.worker_answered(Some(WorkerReport::State(DhcpState::Bound))).is_none());
    let e = DhcpError::bug("send failed".to_string());
    assert!(m.worker_answered(Some(WorkerReport::Error(e))).is_none());
    assert_eq!(m.state, DhcpState::Stopped);
    let reply = m.worker_answered(Some(WorkerReport::State(DhcpState::Stopped)));
    assert_eq!(reply.unwrap().unwrap().state, DhcpState::Stopped);
}

#[test]
fn a_worker_that_is_gone_is_a_bug() {
    let mut m = MozimDhcpManager::new("eth0".to_string());
    m.handle(MozimDhcpCmd::StartDhcp);
    let e = m.worker_answered(None).unwrap().unwrap_err();
    assert_eq!(e.kind, ErrorKind::Bug);
    m.handle(MozimDhcpCmd::StopDhcp);
    let e = m.worker_answered(None).unwrap().unwrap_err();
    assert_eq!(e.kind, ErrorKind::Bug);
    assert_eq!(m.channel_closed().kind, ErrorKind::Bug);
}

#[test]
fn second_start_is_rejected() {
    let mut m = running();
    m.worker_reported(DhcpState::Bound);
    let d = m.handle(MozimDhcpCmd::StartDhcp);
    assert_eq!(d.forward, None);
    assert_eq!(d.reply.unwrap().unwrap_err().kind, ErrorKind::InvalidArgument);
    assert_eq!(m.state, DhcpState::Bound);
    assert_eq!(m.phase, ManagerPhase::Running);
}

#[test]
fn every_command_after_stop_finds_no_session() {
    let mut m = running();
    m.handle(MozimDhcpCmd::StopDhcp);
    m.worker_answered(Some(WorkerReport::State(DhcpState::Stopped)));
    for cmd in [MozimDhcpCmd::QueryDhcp, MozimDhcpCmd::StartDhcp, MozimDhcpCmd::StopDhcp] {
        let d = m.handle(cmd);
        assert_eq!(d.forward, None);
        assert!(!d.finished);
        let e = d.reply.unwrap().unwrap_err();
        assert_eq!(e.kind, ErrorKind::NotFound);
        assert!(e.msg.contains("no such session"));
    }
}

#[test]
fn reports_are_kept_only_while_running() {
    let mut m = MozimDhcpManager::new("eth0".to_string());
    m.worker_reported(DhcpState::Bound);
    assert_eq!(m.state, DhcpState::Init);
    let mut m = running();
    m.handle(MozimDhcpCmd::StopDhcp);
    m.worker_reported(DhcpState::Bound);
    assert_eq!(m.state, DhcpState::Stopped);
}

#[test]
fn state_names() {
    assert_eq!(DhcpState::Requesting.as_str(), "Requesting");
    assert_eq!(DhcpState::Bound.as_str(), "Bound");
    assert_eq!(DhcpState::Stopped.as_str(), "Stopped");
    assert_eq!(DhcpState::Init.as_str(), "Init");
    assert_eq!(DhcpState::Renewing.as_str(), "Renewing");
    assert_eq!(DhcpState::Rebinding.as_str(), "Rebinding");
    assert_eq!(DhcpState::Failed.as_str(), "Failed");
}
