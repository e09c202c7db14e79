//! ICMP traceroute engine: the Internet checksum, Echo-Request encoding, reply
//! decoding, the socket-address forms of IPv4/IPv6 addresses and the per-hop
//! probing state machine.

pub mod checksum;
pub mod ip_address;
pub mod options;
pub mod packet;
pub mod response;
pub mod sockaddr_inx;
pub mod tracer;

pub use checksum::checksum;
pub use ip_address::IpAddress;
pub use options::Options;
pub use packet::Packet;
pub use response::Response;
pub use sockaddr_inx::{Sockaddr, SockaddrIn, SockaddrIn6, SockaddrInx};
pub use tracer::{Event, HopResult, Probe, Tracer};
