//! Server configuration: the settings, their defaults, and the command-line
//! overrides merged on top of a parsed or default configuration.

use crate::egress::Egress;
use crate::udp::UdpConfig;
use vstd::prelude::*;

verus! {

/// Top-level server configuration.
#[derive(Debug, Clone, PartialEq, Eq)]
pub struct Config {
    /// Listen address, e.g. `"127.0.0.1:1080"`.
    pub listen: String,
    /// Authentication settings.
    pub auth: AuthConfig,
    /// Timeout settings.
    pub timeouts: Timeouts,
    /// Resource limits.
    pub limits: Limits,
    /// UDP relay transport/addressing configuration.
    pub udp: UdpConfig,
    /// Admin/attach endpoint settings.
    pub admin: AdminConfig,
    /// Egress (destination) policy guarding against SSRF / open-relay abuse.
    pub egress: Egress,
}

/// Admin/attach (local Unix socket) configuration.
#[derive(Debug, Clone, PartialEq, Eq)]
pub struct AdminConfig {
    /// Whether the admin endpoint is enabled (default true).
    pub enabled: bool,
    /// Override the admin socket path (default `/run/next-socks5/admin.sock`).
    pub socket: Option<String>,
}

impl Default for AdminConfig {
    fn default() -> (r: Self)
        ensures
            r.enabled,
            r.socket is None,
    {
        Self { enabled: true, socket: None }
    }
}

/// The default of switches that are on unless configured off.
pub fn default_true() -> (r: bool)
    ensures
        r,
{
    true
}

/// Default admin socket path when none configured.
pub const DEFAULT_ADMIN_SOCKET: &'static str = "/run/next-socks5/admin.sock";

/// Authentication configuration.
#[derive(Debug, Clone, PartialEq, Eq)]
pub struct AuthConfig {
    /// Authentication method to require from clients.
    pub method: AuthMethod,
    /// Username/password credentials (used when `method` is `Password`).
    pub users: Vec<User>,
}

impl Default for AuthConfig {
    fn default() -> (r: Self)
        ensures
            r.method == AuthMethod::NoAuth,
            r.users@.len() == 0,
    {
        AuthConfig { method: AuthMethod::NoAuth, users: Vec::new() }
    }
}

/// Supported authentication methods.
#[derive(Debug, Clone, Copy, PartialEq, Eq, Structural)]
pub enum AuthMethod {
    /// No authentication required.
    NoAuth,
    /// Username/password authentication (RFC 1929).
    Password,
}

impl Default for AuthMethod {
    fn default() -> (r: Self)
        ensures
            r == AuthMethod::NoAuth,
    {
        AuthMethod::NoAuth
    }
}

/// A username/password credential pair.
#[derive(Debug, Clone, PartialEq, Eq)]
pub struct User {
    /// Username.
    pub username: String,
    /// Password.
    pub password: String,
}

/// Timeout settings, all in milliseconds.
#[derive(Debug, Clone, Copy, PartialEq, Eq, Structural)]
pub struct Timeouts {
    /// Deadline for the whole pre-relay phase (greeting, auth, request). Bounds
    /// slow/stalled clients so a half-open handshake cannot pin a task forever.
    pub handshake_ms: u64,
    /// Timeout for establishing the upstream connection (also bounds DNS).
    pub connect_ms: u64,
    /// Idle timeout for TCP relays.
    pub tcp_idle_ms: u64,
    /// Idle timeout for UDP associations.
    pub udp_idle_ms: u64,
}

/// Default pre-relay handshake/auth/request deadline.
pub fn default_handshake_ms() -> (r: u64)
    ensures
        r == 10_000,
{
    10_000
}

impl Default for Timeouts {
    fn default() -> (r: Self)
        ensures
            r.handshake_ms == 10_000,
            r.connect_ms == 10_000,
            r.tcp_idle_ms == 300_000,
            r.udp_idle_ms == 60_000,
    {
        Self {
            handshake_ms: default_handshake_ms(),
            connect_ms: 10_000,
            tcp_idle_ms: 300_000,
            udp_idle_ms: 60_000,
        }
    }
}

/// Resource limits.
#[derive(Debug, Clone, Copy, PartialEq, Eq, Structural)]
pub struct Limits {
    /// Maximum number of concurrent connections (unbounded when `None`).
    /// Enforced at accept time, counting half-open/handshaking connections too.
    pub max_connections: Option<usize>,
    /// Maximum concurrent connections from a single source IP (unbounded when
    /// `None`). Enforced at accept time alongside `max_connections`.
    pub max_per_ip: Option<usize>,
    /// Maximum distinct targets tracked per UDP association before the oldest is
    /// evicted, bounding per-association memory.
    pub udp_max_targets: usize,
    /// Optional cap on outbound datagrams per second per UDP association,
    /// limiting reflection/flood abuse. `None` leaves it unlimited.
    pub udp_rate_pps: Option<u32>,
}

/// Default per-association distinct-target cap for UDP relays.
pub fn default_udp_max_targets() -> (r: usize)
    ensures
        r == 1024,
{
    1024
}

impl Default for Limits {
    fn default() -> (r: Self)
        ensures
            r.max_connections is None,
            r.max_per_ip is None,
            r.udp_max_targets == 1024,
            r.udp_rate_pps is None,
    {
        Self {
            max_connections: None,
            max_per_ip: None,
            udp_max_targets: default_udp_max_targets(),
            udp_rate_pps: None,
        }
    }
}

/// Command-line arguments. Paths are held as the (lossily decoded) text of the
/// path that was given.
#[derive(Debug, Clone, PartialEq, Eq)]
pub struct Cli {
    /// Subcommand. `serve` runs the server; with no subcommand, usage is shown.
    pub command: Option<Command>,
    /// Path to a TOML configuration file.
    pub config: Option<String>,
    /// Override the listen address from the config file.
    pub listen: Option<String>,
    /// Disable the terminal UI.
    pub no_tui: bool,
    /// Disable the local admin/attach endpoint.
    pub no_admin: bool,
    /// Override the admin socket path.
    pub admin_socket: Option<String>,
    /// Feed the dashboard with synthetic data (demo only; no real traffic).
    pub mock: bool,
}

/// Subcommands. With no subcommand, a bare invocation prints usage; `serve`
/// (alias `run`) starts the server.
#[derive(Debug, Clone, PartialEq, Eq)]
pub enum Command {
    /// Run the SOCKS5 server.
    Serve,
    /// Attach to a running server and show its dashboard.
    Attach {
        /// Path to the admin socket to connect to.
        socket: Option<String>,
    },
}

/// The configuration `cfg` with the overrides of `cli` applied: the listen
/// address and the admin socket path replaced where given, and the admin
/// endpoint disabled by `--no-admin`.
pub open spec fn with_overrides(cfg: Config, cli: Cli) -> Config {
    Config {
        listen: match cli.listen {
            Some(l) => l,
            None => cfg.listen,
        },
        admin: AdminConfig {
            enabled: cfg.admin.enabled && !cli.no_admin,
            socket: match cli.admin_socket {
                Some(p) => Some(p),
                None => cfg.admin.socket,
            },
        },
        ..cfg
    }
}

impl Config {
    /// Build the default config: listen on `127.0.0.1:1080` with defaults.
    pub fn default_config() -> (r: Config)
        ensures
            r.listen@ == "127.0.0.1:1080"@,
            r.auth.method == AuthMethod::NoAuth,
            r.auth.users@.len() == 0,
            r.timeouts == (Timeouts {
                handshake_ms: 10_000,
                connect_ms: 10_000,
                tcp_idle_ms: 300_000,
                udp_idle_ms: 60_000,
            }),
            r.limits == (Limits {
                max_connections: None,
                max_per_ip: None,
                udp_max_targets: 1024,
                udp_rate_pps: None,
            }),
            r.udp.port_range is None,
            r.udp.advertise is None,
            r.admin.enabled,
            r.admin.socket is None,
            r.egress == (Egress { block_loopback: true, block_link_local: true, block_private: true }),
    {
        Config {
            listen: String::from_str("127.0.0.1:1080"),
            auth: AuthConfig::default(),
            timeouts: Timeouts::default(),
            limits: Limits::default(),
            udp: UdpConfig::default(),
            admin: AdminConfig::default(),
            egress: Egress::default(),
        }
    }
}

/// Apply CLI overrides onto a parsed/default config in place.
///
/// Kept as a pure helper so the merge logic is unit-testable without touching
/// the filesystem.
pub fn apply_overrides(cfg: &mut Config, cli: &Cli)
    ensures
        *final(cfg) == with_overrides(*old(cfg), *cli),
{
    if let Some(listen) = &cli.listen {
        cfg.listen = listen.clone();
    }
    if cli.no_admin {
        cfg.admin.enabled = false;
    }
    if let Some(sock) = &cli.admin_socket {
        cfg.admin.socket = Some(sock.clone());
    }
}

/// Applying the same command-line overrides twice changes nothing more than
/// applying them once.
pub proof fn lemma_overrides_idempotent(cfg: Config, cli: Cli)
    ensures
        with_overrides(with_overrides(cfg, cli), cli) == with_overrides(cfg, cli),
{
}

/// A command line without overrides (no `--listen`, no `--no-admin`, no
/// `--admin-socket`) leaves the configuration as it is.
pub proof fn lemma_no_overrides_keep_config(cfg: Config, cli: Cli)
    requires
        cli.listen is None,
        !cli.no_admin,
        cli.admin_socket is None,
    ensures
        with_overrides(cfg, cli) == cfg,
{
}

/// Overrides touch only the listen address and the admin settings: the
/// authentication, timeouts, limits, UDP and egress settings stay as they are.
pub proof fn lemma_overrides_keep_other_settings(cfg: Config, cli: Cli)
    ensures
        with_overrides(cfg, cli).auth == cfg.auth,
        with_overrides(cfg, cli).timeouts == cfg.timeouts,
        with_overrides(cfg, cli).limits == cfg.limits,
        with_overrides(cfg, cli).udp == cfg.udp,
        with_overrides(cfg, cli).egress == cfg.egress,
{
}

/// Each command-line override wins over whatever the base configuration
/// held: `--listen l` makes the listen address `l`, `--admin-socket p` makes
/// the admin socket `Some(p)`, and `--no-admin` disables the admin endpoint.
/// Where an override is absent, the base value stays.
pub proof fn lemma_command_line_wins(cfg: Config, cli: Cli)
    ensures
        cli.listen matches Some(l) ==> with_overrides(cfg, cli).listen == l,
        cli.listen is None ==> with_overrides(cfg, cli).listen == cfg.listen,
        cli.admin_socket matches Some(p) ==> with_overrides(cfg, cli).admin.socket == Some(p),
        cli.admin_socket is None ==> with_overrides(cfg, cli).admin.socket == cfg.admin.socket,
        cli.no_admin ==> !with_overrides(cfg, cli).admin.enabled,
        !cli.no_admin ==> with_overrides(cfg, cli).admin.enabled == cfg.admin.enabled,
{
}

/// The outcome of the overrides does not depend on the base configuration's
/// listen address and admin socket when the command line gives both: two
/// configurations that differ only there end up identical.
pub proof fn lemma_given_overrides_ignore_base(c1: Config, c2: Config, cli: Cli)
    requires
        cli.listen is Some,
        cli.admin_socket is Some,
        c1.auth == c2.auth,
        c1.timeouts == c2.timeouts,
        c1.limits == c2.limits,
        c1.udp == c2.udp,
        c1.egress == c2.egress,
        c1.admin.enabled == c2.admin.enabled,
    ensures
        with_overrides(c1, cli) == with_overrides(c2, cli),
{
}

} // verus!
