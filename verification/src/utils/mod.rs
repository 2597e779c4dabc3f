//! Shaping the mesh by hand: the transport settings built from the
//! addresses given on the command line.
//!
//! Every address to connect to must be a socket address (`ip:port`); the
//! first one that is not stops the shaping with an error, before the listen
//! address is looked at. Peer-to-peer LAN stays on, with mDNS and multicast
//! discovery off; the connect addresses become the set of TCP servers, and a
//! listen address turns the TCP listener on at that interface and port.
use vstd::prelude::*;

verus! {

/// A socket address split into the textual IP and the port.
#[derive(Clone, Debug, PartialEq, Eq)]
pub struct ParsedSocketAddr {
    /// The IP address in its canonical textual form.
    pub ip: String,
    /// The port.
    pub port: u16,
}

/// An address as given on the command line, with what it parses to as a
/// socket address (`None` when it is not one).
#[derive(Clone, Debug, PartialEq, Eq)]
pub struct SocketAddrText {
    /// The address as written.
    pub text: String,
    /// The address parsed as a socket address.
    pub parsed: Option<ParsedSocketAddr>,
}

/// The transport settings that shaping the mesh sets.
#[derive(Clone, Debug, PartialEq, Eq)]
pub struct MeshConfig {
    /// Peer-to-peer LAN transport.
    pub lan_enabled: bool,
    /// mDNS discovery on the LAN.
    pub mdns_enabled: bool,
    /// Multicast discovery on the LAN.
    pub multicast_enabled: bool,
    /// TCP servers to connect to, each once.
    pub tcp_servers: Vec<String>,
    /// The TCP listener's interface and port, when it is turned on.
    pub listen_tcp: Option<ParsedSocketAddr>,
}

/// Why the mesh could not be shaped.
#[derive(Clone, Debug, PartialEq, Eq)]
pub enum MeshError {
    /// The connect address at this position is not a socket address.
    InvalidConnectAddr(usize),
    /// The listen address is not a socket address.
    InvalidListenAddr,
}

/// Whether the mesh is shaped by hand: only when some address is given.
pub fn needs_mesh_shaping(n_connect: usize, has_listen: bool) -> (r: bool)
    ensures
        r == (n_connect > 0 || has_listen),
{
    n_connect > 0 || has_listen
}

/// Every address in `addrs` before position `n` parses.
pub open spec fn parsed_before(addrs: Seq<SocketAddrText>, n: int) -> bool {
    forall|j: int| 0 <= j < n ==> (#[trigger] addrs[j]).parsed is Some
}

/// `servers` holds each of the texts of `addrs` before position `n`, and
/// nothing else, with no text twice.
pub open spec fn servers_of(servers: Seq<String>, addrs: Seq<SocketAddrText>, n: int) -> bool {
    &&& forall|i: int, k: int|
        0 <= i < k < servers.len() ==> (#[trigger] servers[i])@ != (#[trigger] servers[k])@
    &&& forall|i: int|
        0 <= i < servers.len() ==> exists|j: int| 0 <= j < n && (#[trigger] addrs[j]).text@ == (
        #[trigger] servers[i])@
    &&& forall|j: int|
        0 <= j < n ==> exists|i: int| 0 <= i < servers.len() && (#[trigger] servers[i])@ == (
        #[trigger] addrs[j]).text@
}

/// The outcome of shaping the mesh with these addresses.
pub open spec fn shape_mesh_ok(
    connect: Seq<SocketAddrText>,
    listen: Option<SocketAddrText>,
    r: Result<MeshConfig, MeshError>,
) -> bool {
    match r {
        Err(MeshError::InvalidConnectAddr(i)) => {
            &&& i < connect.len()
            &&& connect[i as int].parsed is None
            &&& parsed_before(connect, i as int)
        },
        Err(MeshError::InvalidListenAddr) => {
            &&& parsed_before(connect, connect.len() as int)
            &&& listen is Some
            &&& listen->0.parsed is None
        },
        Ok(cfg) => {
            &&& parsed_before(connect, connect.len() as int)
            &&& (listen is Some ==> listen->0.parsed is Some)
            &&& cfg.lan_enabled
            &&& !cfg.mdns_enabled
            &&& !cfg.multicast_enabled
            &&& servers_of(cfg.tcp_servers@, connect, connect.len() as int)
            &&& cfg.listen_tcp == match listen {
                Some(l) => l.parsed,
                None => None,
            }
        },
    }
}

impl ParsedSocketAddr {
    /// A copy of this address.
    pub fn duplicate(&self) -> (r: ParsedSocketAddr)
        ensures
            r == *self,
    {
        ParsedSocketAddr { ip: self.ip.clone(), port: self.port }
    }
}

/// Appending the next text, not yet held, keeps `servers_of`.
proof fn lemma_servers_extend(
    old_servers: Seq<String>,
    servers: Seq<String>,
    connect: Seq<SocketAddrText>,
    n: int,
)
    requires
        0 <= n < connect.len(),
        servers_of(old_servers, connect, n),
        servers == old_servers.push(connect[n].text),
        !exists|i: int| 0 <= i < old_servers.len() && (#[trigger] old_servers[i])@ == connect[n].text@,
    ensures
        servers_of(servers, connect, n + 1),
{
    assert forall|i: int, k: int|
        0 <= i < k < servers.len() implies (#[trigger] servers[i])@ != (#[trigger] servers[k])@ by {
        if k == old_servers.len() {
            assert(old_servers[i] == servers[i]);
        } else {
            assert(old_servers[i] == servers[i] && old_servers[k] == servers[k]);
        }
    }
    assert forall|i: int| 0 <= i < servers.len() implies exists|j: int|
        0 <= j < n + 1 && (#[trigger] connect[j]).text@ == (#[trigger] servers[i])@ by {
        if i < old_servers.len() {
            assert(servers[i] == old_servers[i]);
            let j = choose|j: int| 0 <= j < n && (#[trigger] connect[j]).text@ == (
            #[trigger] old_servers[i])@;
            assert(connect[j].text@ == servers[i]@);
        } else {
            assert(connect[n].text@ == servers[i]@);
        }
    }
    assert forall|j: int| 0 <= j < n + 1 implies exists|i: int|
        0 <= i < servers.len() && (#[trigger] servers[i])@ == (#[trigger] connect[j]).text@ by {
        if j < n {
            let i = choose|i: int| 0 <= i < old_servers.len() && (#[trigger] old_servers[i])@ == (
            #[trigger] connect[j]).text@;
            assert(servers[i] == old_servers[i]);
        } else {
            assert(servers[old_servers.len() as int]@ == connect[j].text@);
        }
    }
}

/// Skipping the next text, already held, keeps `servers_of`.
proof fn lemma_servers_repeat(servers: Seq<String>, connect: Seq<SocketAddrText>, n: int)
    requires
        0 <= n < connect.len(),
        servers_of(servers, connect, n),
        exists|i: int| 0 <= i < servers.len() && (#[trigger] servers[i])@ == connect[n].text@,
    ensures
        servers_of(servers, connect, n + 1),
{
    assert forall|j: int| 0 <= j < n + 1 implies exists|i: int|
        0 <= i < servers.len() && (#[trigger] servers[i])@ == (#[trigger] connect[j]).text@ by {
        if j < n {
            let i = choose|i: int| 0 <= i < servers.len() && (#[trigger] servers[i])@ == (
            #[trigger] connect[j]).text@;
        } else {
            let i = choose|i: int| 0 <= i < servers.len() && (#[trigger] servers[i])@ == connect[n].text@;
        }
    }
    assert forall|i: int| 0 <= i < servers.len() implies exists|j: int|
        0 <= j < n + 1 && (#[trigger] connect[j]).text@ == (#[trigger] servers[i])@ by {
        let j = choose|j: int| 0 <= j < n && (#[trigger] connect[j]).text@ == (
        #[trigger] servers[i])@;
    }
}

/// Whether `servers` already holds `text`.
fn holds_text(servers: &Vec<String>, text: &String) -> (r: bool)
    ensures
        r == exists|i: int| 0 <= i < servers@.len() && (#[trigger] servers@[i])@ == text@,
{
    let mut i: usize = 0;
    while i < servers.len()
        invariant
            i <= servers@.len(),
            forall|k: int| 0 <= k < i ==> (#[trigger] servers@[k])@ != text@,
        decreases servers@.len() - i,
    {
        if servers[i] == *text {
            return true;
        }
        i = i + 1;
    }
    false
}

/// Builds the transport settings for the given connect and listen
/// addresses, or says which address is not a socket address.
pub fn shape_mesh(connect: &Vec<SocketAddrText>, listen: &Option<SocketAddrText>) -> (r: Result<
    MeshConfig,
    MeshError,
>)
    ensures
        shape_mesh_ok(connect@, *listen, r),
{
    let mut servers: Vec<String> = Vec::new();
    let mut n: usize = 0;
    while n < connect.len()
        invariant
            n <= connect@.len(),
            parsed_before(connect@, n as int),
            servers_of(servers@, connect@, n as int),
        decreases connect@.len() - n,
    {
        let addr = &connect[n];
        if addr.parsed.is_none() {
            return Err(MeshError::InvalidConnectAddr(n));
        }
        let ghost old_servers = servers@;
        if !holds_text(&servers, &addr.text) {
            servers.push(addr.text.clone());
            proof {
                lemma_servers_extend(old_servers, servers@, connect@, n as int);
            }
        } else {
            proof {
                lemma_servers_repeat(servers@, connect@, n as int);
            }
        }
        n = n + 1;
    }
    let listen_tcp = match listen {
        Some(l) => match &l.parsed {
            Some(p) => Some(p.duplicate()),
            None => {
                return Err(MeshError::InvalidListenAddr);
            },
        },
        None => None,
    };
    Ok(
        MeshConfig {
            lan_enabled: true,
            mdns_enabled: false,
            multicast_enabled: false,
            tcp_servers: servers,
            listen_tcp,
        },
    )
}

} // verus!
