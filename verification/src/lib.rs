//! Verified configuration logic for a SOCKS5 server: defaults, command-line
//! overrides, UDP relay settings (port ranges, advertised hosts), host name
//! validation and the egress (destination) policy.

pub mod config;
pub mod dns;
pub mod egress;
pub mod text;
pub mod udp;

pub use config::{
    apply_overrides, default_handshake_ms, default_true, default_udp_max_targets, AdminConfig,
    AuthConfig, AuthMethod, Cli, Command, Config, Limits, Timeouts, User, DEFAULT_ADMIN_SOCKET,
};
pub use dns::is_valid_dns_name;
pub use egress::{Egress, IpAddress};
pub use udp::{parse_advertise_host, AdvertiseHost, PortRange, UdpConfig};
