//! A DHCPv4 client engine: the wire format of DHCP messages, the descriptors
//! of the link-layer transport, the session state machine of one interface and
//! the boot-clock arithmetic that schedules it.

pub mod dhcp_manager;
pub mod dhcp_msg;
pub mod dhcp_worker;
pub mod error;
pub mod options;
pub mod request;
pub mod socket;
pub mod time;
