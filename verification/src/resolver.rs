//! From parsed options to the operating mode and its validated target.
//!
//! The mode follows from the three flags `tcp`, `udp` and `listen`:
//!
//! | `listen` | `udp` | `tcp` | mode        |
//! |----------|-------|-------|-------------|
//! | off      | on    | off   | `UdpClient` |
//! | off      | on    | on    | `TcpClient` |
//! | off      | off   | any   | `TcpClient` |
//! | on       | on    | any   | `UdpServer` |
//! | on       | off   | any   | `TcpServer` |
//!
//! TCP is the protocol where none is named.  The two protocol flags do not
//! exclude each other: where both are set and the tool does not listen, TCP
//! wins.  A client needs a port and an address, a server a port.  No
//! combination of flags selects `PortScan`.

use vstd::prelude::*;

use crate::cli::{command_line, parsed, unnamed_flag_is_not_given, Cli, CliView};
use crate::environment::Environment;
use crate::error::{result_view, ConfigError, ConfigErrorView};
use crate::mode::NcMode;
use crate::schema::{names, CliOption};

verus! {

/// A resolved configuration: what the network layer is handed.
#[derive(Debug, Clone, PartialEq, Eq)]
pub struct ResolvedConfig {
    /// The operating mode.
    pub mode: NcMode,
    /// The port to connect to or to bind.
    pub port: Option<u16>,
    /// The address to connect to.  A server binds all interfaces: for it the
    /// address is carried as it was given and means nothing.
    pub address: Option<String>,
    /// A server goes on accepting after a client has left.  Carried as given;
    /// it means nothing to a client.
    pub keep_accept: bool,
}

/// Mathematical model of [`ResolvedConfig`].
pub struct ResolvedConfigView {
    pub mode: NcMode,
    pub port: Option<u16>,
    pub address: Option<Seq<char>>,
    pub keep_accept: bool,
}

impl View for ResolvedConfig {
    type V = ResolvedConfigView;

    open spec fn view(&self) -> ResolvedConfigView {
        ResolvedConfigView {
            mode: self.mode,
            port: self.port,
            address: match self.address {
                Some(text) => Some(text@),
                None => None,
            },
            keep_accept: self.keep_accept,
        }
    }
}

impl ResolvedConfigView {
    /// The target is complete for the mode: a port, and for a client an
    /// address; and the mode is one that the flags can select.
    pub open spec fn wf(self) -> bool {
        &&& self.mode != NcMode::PortScan
        &&& self.port is Some
        &&& self.mode.spec_is_client() ==> self.address is Some
    }
}

/// The mode that the flags select.
pub open spec fn mode_of(options: CliView) -> NcMode {
    if options.listen {
        if options.udp {
            NcMode::UdpServer
        } else {
            NcMode::TcpServer
        }
    } else if options.udp && !options.tcp {
        NcMode::UdpClient
    } else {
        NcMode::TcpClient
    }
}

/// The options hold the target that their mode needs: a port, and unless the
/// tool listens an address.
pub open spec fn target_complete(options: CliView) -> bool {
    options.port is Some && (options.listen || options.ipaddr is Some)
}

/// The configuration that the options resolve to, or `MissingTarget`.
pub open spec fn resolved(options: CliView) -> Result<ResolvedConfigView, ConfigErrorView> {
    if target_complete(options) {
        Ok(
            ResolvedConfigView {
                mode: mode_of(options),
                port: options.port,
                address: options.ipaddr,
                keep_accept: options.keep_accept,
            },
        )
    } else {
        Err(ConfigErrorView::MissingTarget)
    }
}

/// The configuration that a command line and an environment resolve to.
pub open spec fn resolved_from(args: Seq<Seq<char>>, env: Map<Seq<char>, Seq<char>>) -> Result<
    ResolvedConfigView,
    ConfigErrorView,
> {
    match parsed(args, env) {
        Ok(options) => resolved(options),
        Err(error) => Err(error),
    }
}

impl ResolvedConfig {
    /// The target is complete for the mode.
    pub open spec fn wf(&self) -> bool {
        self@.wf()
    }
}

/// The mode that the flags of `options` select.
pub fn select_mode(options: &Cli) -> (mode: NcMode)
    ensures
        mode == mode_of(options@),
{
    if options.listen {
        if options.udp {
            NcMode::UdpServer
        } else {
            NcMode::TcpServer
        }
    } else if options.udp && !options.tcp {
        NcMode::UdpClient
    } else {
        NcMode::TcpClient
    }
}

/// Resolves parsed options into the operating mode and its target.
///
/// Succeeds exactly when the options hold a port and, unless the tool
/// listens, an address.  The result then carries the mode that the flags
/// select, and port, address and `keep_accept` as they were given.  Otherwise
/// the error is `MissingTarget`: no default is ever made up.
pub fn resolve(raw: Cli) -> (r: Result<ResolvedConfig, ConfigError>)
    ensures
        result_view(r) == resolved(raw@),
        r matches Ok(config) ==> config.wf(),
{
    let mode = select_mode(&raw);
    if raw.port.is_none() {
        return Err(ConfigError::MissingTarget);
    }
    if !raw.listen && raw.ipaddr.is_none() {
        return Err(ConfigError::MissingTarget);
    }
    Ok(ResolvedConfig { mode, port: raw.port, address: raw.ipaddr, keep_accept: raw.keep_accept })
}

/// Parses the command line against the schema and resolves what it gives.
///
/// Fails with `MalformedArguments` where [`Cli::try_parse_from`] does, and
/// with `MissingTarget` where the options are well formed and [`resolve`]
/// fails.
pub fn resolve_from(args: &Vec<String>, env: &Environment) -> (r: Result<
    ResolvedConfig,
    ConfigError,
>)
    ensures
        result_view(r) == resolved_from(args.deep_view(), env@),
        r matches Ok(config) ==> config.wf(),
{
    match Cli::try_parse_from(args, env) {
        Ok(options) => resolve(options),
        Err(error) => Err(error),
    }
}

/// Where neither protocol is named, the protocol is TCP.
pub proof fn default_protocol_is_tcp(options: CliView)
    requires
        !options.tcp,
        !options.udp,
    ensures
        mode_of(options).spec_is_tcp(),
        resolved(options) matches Ok(config) ==> config.mode.spec_is_tcp(),
{
}

/// Where no argument names `tcp` or `udp` and the environment sets neither
/// `RSNC_TCP` nor `RSNC_UDP`, whatever is resolved runs over TCP.
pub proof fn unnamed_protocol_is_tcp(args: Seq<Seq<char>>, env: Map<Seq<char>, Seq<char>>)
    requires
        forall|i: int|
            1 <= i < args.len() ==> !names(#[trigger] args[i], CliOption::Tcp) && !names(
                args[i],
                CliOption::Udp,
            ),
        !env.contains_key(CliOption::Tcp.env_var()),
        !env.contains_key(CliOption::Udp.env_var()),
    ensures
        parsed(args, env) matches Ok(options) ==> !options.tcp && !options.udp,
        resolved_from(args, env) matches Ok(config) ==> config.mode.spec_is_tcp(),
{
    if command_line(args) is Ok {
        unnamed_flag_is_not_given(args, CliOption::Tcp);
        unnamed_flag_is_not_given(args, CliOption::Udp);
    }
}

/// `udp` with `listen` and a port gives a UDP server on that port, whatever
/// the address is and whether there is one.
pub proof fn udp_listen_is_udp_server(options: CliView)
    requires
        options.udp,
        options.listen,
        options.port is Some,
    ensures
        resolved(options) matches Ok(config) && config.mode == NcMode::UdpServer && config.port
            == options.port,
        forall|address: Option<Seq<char>>|
            (#[trigger] resolved(CliView { ipaddr: address, ..options })) matches Ok(config)
                && config.mode == NcMode::UdpServer && config.port == options.port,
{
}

/// `udp` alone, without `listen`, with a port and an address gives a UDP
/// client with exactly that port and that address.
pub proof fn udp_without_listen_is_udp_client(options: CliView)
    requires
        options.udp,
        !options.tcp,
        !options.listen,
        options.port is Some,
        options.ipaddr is Some,
    ensures
        resolved(options) matches Ok(config) && config.mode == NcMode::UdpClient && config.port
            == options.port && config.address == options.ipaddr,
{
}

/// A command line that names `udp` and `listen` and holds a port resolves to
/// a UDP server on that port, whatever address it holds and whatever the
/// environment sets, as long as the environment can be read.
pub proof fn udp_listen_on_command_line(args: Seq<Seq<char>>, env: Map<Seq<char>, Seq<char>>)
    requires
        command_line(args) matches Ok(given) && given.udp && given.listen && given.port is Some,
        parsed(args, env) is Ok,
    ensures
        resolved_from(args, env) matches Ok(config) && config.mode == NcMode::UdpServer
            && config.port == command_line(args)->Ok_0.port,
{
}

/// A command line that names `udp`, holds a port and an address, and names
/// neither `tcp` nor `listen`, resolves to a UDP client with exactly that port
/// and that address, where the environment switches neither of the two on.
pub proof fn udp_client_on_command_line(args: Seq<Seq<char>>, env: Map<Seq<char>, Seq<char>>)
    requires
        command_line(args) matches Ok(given) && given.udp && !given.tcp && !given.listen
            && given.port is Some && given.ipaddr is Some,
        !env.contains_key(CliOption::Tcp.env_var()),
        !env.contains_key(CliOption::Listen.env_var()),
        parsed(args, env) is Ok,
    ensures
        resolved_from(args, env) matches Ok(config) && config.mode == NcMode::UdpClient
            && config.port == command_line(args)->Ok_0.port && config.address == command_line(
            args,
        )->Ok_0.ipaddr,
{
}

/// Resolution fails exactly where the target is incomplete, and then with
/// `MissingTarget`; it never selects `PortScan`, and `keep_accept` has no part
/// in the mode or in the failure.
pub proof fn resolution_is_total(options: CliView)
    ensures
        resolved(options) is Ok <==> target_complete(options),
        resolved(options) is Err ==> resolved(options) == Err::<
            ResolvedConfigView,
            ConfigErrorView,
        >(ConfigErrorView::MissingTarget),
        resolved(options) matches Ok(config) ==> config.wf() && config.keep_accept
            == options.keep_accept,
        mode_of(CliView { keep_accept: !options.keep_accept, ..options }) == mode_of(options),
        target_complete(CliView { keep_accept: !options.keep_accept, ..options })
            == target_complete(options),
{
}

} // verus!
