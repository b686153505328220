//! The routing of connections by server name and local port.

use crate::meta::store::detailed;
use crate::text::same_text;
use vstd::prelude::*;

verus! {

/// Where a connection goes.
#[derive(Debug, Clone, Copy, PartialEq, Eq, Structural)]
pub enum ConnectionTarget {
    /// To the router of the client requests.
    ClientH3,
    /// To the server of the peer requests.
    PeerCurp,
    /// Nowhere.
    Unknown,
}

/// The ports of a server, and its services by the numbers under which they are kept.
#[derive(Debug)]
pub struct ServerRoutingInfo {
    pub client_ports: Vec<u16>,
    pub peer_ports: Vec<u16>,
    pub h3_router: u64,
    pub grpc_server: u64,
}

/// The ports and services of a server.
#[verifier::ext_equal]
pub struct RoutingView {
    pub client_ports: Set<u16>,
    pub peer_ports: Set<u16>,
    pub h3_router: u64,
    pub grpc_server: u64,
}

impl View for ServerRoutingInfo {
    type V = RoutingView;

    open spec fn view(&self) -> RoutingView {
        RoutingView {
            client_ports: self.client_ports@.to_set(),
            peer_ports: self.peer_ports@.to_set(),
            h3_router: self.h3_router,
            grpc_server: self.grpc_server,
        }
    }
}

/// Whether a port is among ports.
fn has_port(ports: &Vec<u16>, port: u16) -> (r: bool)
    ensures
        r == ports@.to_set().contains(port),
{
    let mut i: usize = 0;
    while i < ports.len()
        invariant
            i <= ports.len(),
            forall|j: int| 0 <= j < i ==> ports@[j] != port,
        decreases ports.len() - i,
    {
        if ports[i] == port {
            assert(ports@.contains(port));
            return true;
        }
        i = i + 1;
    }
    assert(!ports@.contains(port));
    false
}

/// A copy of ports.
pub(crate) fn copied(ports: &Vec<u16>) -> (r: Vec<u16>)
    ensures
        r@ == ports@,
{
    let mut r: Vec<u16> = Vec::new();
    let mut i: usize = 0;
    while i < ports.len()
        invariant
            i <= ports.len(),
            r@ == ports@.take(i as int),
        decreases ports.len() - i,
    {
        r.push(ports[i]);
        i = i + 1;
        assert(r@ =~= ports@.take(i as int));
    }
    assert(ports@.take(i as int) =~= ports@);
    r
}

impl ServerRoutingInfo {
    /// The same ports and services.
    pub fn duplicate(&self) -> (r: ServerRoutingInfo)
        ensures
            r@ == self@,
    {
        ServerRoutingInfo {
            client_ports: copied(&self.client_ports),
            peer_ports: copied(&self.peer_ports),
            h3_router: self.h3_router,
            grpc_server: self.grpc_server,
        }
    }
}

/// The known servers. No name occurs twice.
#[derive(Debug)]
pub struct PortRouter {
    servers: Vec<(String, ServerRoutingInfo)>,
}

/// What the last entry with a name holds.
pub open spec fn routes_of(list: Seq<(String, ServerRoutingInfo)>) -> Map<Seq<char>, RoutingView>
    decreases list.len(),
{
    if list.len() == 0 {
        Map::empty()
    } else {
        routes_of(list.drop_last()).insert(list.last().0@, list.last().1@)
    }
}

impl View for PortRouter {
    type V = Map<Seq<char>, RoutingView>;

    closed spec fn view(&self) -> Map<Seq<char>, RoutingView> {
        routes_of(self.servers@)
    }
}

/// Where a connection to a server on a port goes. A port of both kinds is one of the peers.
pub open spec fn target(
    routes: Map<Seq<char>, RoutingView>,
    server_name: Seq<char>,
    port: u16,
) -> ConnectionTarget {
    if !routes.dom().contains(server_name) {
        ConnectionTarget::Unknown
    } else if routes[server_name].peer_ports.contains(port) {
        ConnectionTarget::PeerCurp
    } else if routes[server_name].client_ports.contains(port) {
        ConnectionTarget::ClientH3
    } else {
        ConnectionTarget::Unknown
    }
}

/// What is done with a connection.
#[derive(Debug, Clone, Copy, PartialEq, Eq, Structural)]
pub enum Dispatch {
    /// Nothing: it has no local port, or goes nowhere.
    Ignore,
    /// The peer server takes it.
    Peer(u64),
    /// The client router takes it, once it speaks the protocol.
    Client(u64),
}

impl PortRouter {
    /// Whether no name occurs twice.
    pub closed spec fn wf(&self) -> bool {
        forall|i: int, j: int|
            0 <= i < j < self.servers@.len() ==> #[trigger] self.servers@[i].0@
                != #[trigger] self.servers@[j].0@
    }

    /// No server is known.
    pub fn new() -> (r: PortRouter)
        ensures
            r.wf(),
            r@ == Map::<Seq<char>, RoutingView>::empty(),
    {
        PortRouter { servers: Vec::new() }
    }

    /// The place of a name.
    fn place(&self, server_name: &str) -> (r: Option<usize>)
        requires
            self.wf(),
        ensures
            match r {
                Some(i) => i < self.servers@.len() && self.servers@[i as int].0@ == server_name@
                    && self@.dom().contains(server_name@) && self@[server_name@]
                    == self.servers@[i as int].1@,
                None => !self@.dom().contains(server_name@),
            },
    {
        let mut i: usize = 0;
        while i < self.servers.len()
            invariant
                self.wf(),
                i <= self.servers.len(),
                forall|j: int| 0 <= j < i ==> (#[trigger] self.servers@[j]).0@ != server_name@,
            decreases self.servers.len() - i,
        {
            if same_text(self.servers[i].0.as_str(), server_name) {
                proof {
                    lemma_route(self.servers@, i as int);
                }
                return Some(i);
            }
            i = i + 1;
        }
        proof {
            lemma_no_route(self.servers@, server_name@);
        }
        None
    }

    /// Where a connection to a server on a local port goes.
    pub fn route(&self, server_name: &str, local_port: u16) -> (r: ConnectionTarget)
        requires
            self.wf(),
        ensures
            r == target(self@, server_name@, local_port),
            r is PeerCurp <==> self@.dom().contains(server_name@)
                && self@[server_name@].peer_ports.contains(local_port),
            r is ClientH3 <==> self@.dom().contains(server_name@)
                && self@[server_name@].client_ports.contains(local_port)
                && !self@[server_name@].peer_ports.contains(local_port),
    {
        match self.place(server_name) {
            Some(i) => {
                let routing = &self.servers[i].1;
                if has_port(&routing.peer_ports, local_port) {
                    ConnectionTarget::PeerCurp
                } else if has_port(&routing.client_ports, local_port) {
                    ConnectionTarget::ClientH3
                } else {
                    ConnectionTarget::Unknown
                }
            },
            None => ConnectionTarget::Unknown,
        }
    }

    /// The ports and services of a server.
    pub fn get_routing_info(&self, server_name: &str) -> (r: Option<&ServerRoutingInfo>)
        requires
            self.wf(),
        ensures
            match r {
                Some(info) => self@.dom().contains(server_name@) && self@[server_name@] == info@,
                None => !self@.dom().contains(server_name@),
            },
    {
        match self.place(server_name) {
            Some(i) => Some(&self.servers[i].1),
            None => None,
        }
    }

    /// The router of the client requests of a server.
    pub fn get_h3_router(&self, server_name: &str) -> (r: Option<u64>)
        requires
            self.wf(),
        ensures
            match r {
                Some(router) => self@.dom().contains(server_name@) && self@[server_name@].h3_router
                    == router,
                None => !self@.dom().contains(server_name@),
            },
    {
        match self.get_routing_info(server_name) {
            Some(info) => Some(info.h3_router),
            None => None,
        }
    }

    /// The server that takes a connection of a peer.
    pub fn peer_of(&self, server_name: &str) -> (r: Result<u64, String>)
        requires
            self.wf(),
        ensures
            match r {
                Ok(server) => self@.dom().contains(server_name@) && self@[server_name@].grpc_server
                    == server,
                Err(text) => !self@.dom().contains(server_name@) && text@ == "server "@
                    + server_name@ + " not found"@,
            },
    {
        match self.get_routing_info(server_name) {
            Some(info) => Ok(info.grpc_server),
            None => Err(about_server(server_name, " not found")),
        }
    }

    /// The router that takes a connection of a client.
    pub fn client_of(&self, server_name: &str) -> (r: Result<u64, String>)
        requires
            self.wf(),
        ensures
            match r {
                Ok(router) => self@.dom().contains(server_name@) && self@[server_name@].h3_router
                    == router,
                Err(text) => !self@.dom().contains(server_name@) && text@ == "server "@
                    + server_name@ + " not found for h3"@,
            },
    {
        match self.get_h3_router(server_name) {
            Some(router) => Ok(router),
            None => Err(about_server(server_name, " not found for h3")),
        }
    }

    /// What is done with an accepted connection to a server. Its local port is known only where
    /// its local end is a socket.
    pub fn dispatch(&self, server_name: &str, local_port: Option<u16>) -> (r: Dispatch)
        requires
            self.wf(),
        ensures
            match local_port {
                None => r == Dispatch::Ignore,
                Some(port) => match target(self@, server_name@, port) {
                    ConnectionTarget::PeerCurp => r == Dispatch::Peer(
                        self@[server_name@].grpc_server,
                    ),
                    ConnectionTarget::ClientH3 => r == Dispatch::Client(
                        self@[server_name@].h3_router,
                    ),
                    ConnectionTarget::Unknown => r == Dispatch::Ignore,
                },
            },
    {
        match local_port {
            None => Dispatch::Ignore,
            Some(port) => match self.route(server_name, port) {
                ConnectionTarget::PeerCurp => match self.peer_of(server_name) {
                    Ok(server) => Dispatch::Peer(server),
                    Err(_) => Dispatch::Ignore,
                },
                ConnectionTarget::ClientH3 => match self.client_of(server_name) {
                    Ok(router) => Dispatch::Client(router),
                    Err(_) => Dispatch::Ignore,
                },
                ConnectionTarget::Unknown => Dispatch::Ignore,
            },
        }
    }

    /// Makes a server known, in place of what was known under its name. Tells whether something
    /// was.
    pub fn insert(&mut self, server_name: &str, info: ServerRoutingInfo) -> (r: bool)
        requires
            old(self).wf(),
        ensures
            final(self).wf(),
            final(self)@ == old(self)@.insert(server_name@, info@),
            r == old(self)@.dom().contains(server_name@),
    {
        match self.place(server_name) {
            Some(i) => {
                let ghost before = self.servers@;
                let name = server_name.to_owned();
                self.servers.set(i, (name, info));
                proof {
                    assert forall|a: int, b: int| 0 <= a < b < self.servers@.len() implies (
                    #[trigger] self.servers@[a]).0@ != (#[trigger] self.servers@[b]).0@ by {
                        assert(self.servers@[a].0@ == before[a].0@);
                        assert(self.servers@[b].0@ == before[b].0@);
                        assert(before[a].0@ != before[b].0@);
                    }
                    lemma_replaced(before, self.servers@, i as int);
                }
                true
            },
            None => {
                let ghost before = self.servers@;
                let name = server_name.to_owned();
                self.servers.push((name, info));
                proof {
                    assert(self.servers@.drop_last() =~= before);
                    assert forall|a: int, b: int| 0 <= a < b < self.servers@.len() implies (
                    #[trigger] self.servers@[a]).0@ != (#[trigger] self.servers@[b]).0@ by {
                        if b == before.len() {
                            lemma_known(before, a);
                        } else {
                            assert(before[a].0@ != before[b].0@);
                        }
                    }
                }
                false
            },
        }
    }

    /// Whether a server is known.
    pub fn knows(&self, server_name: &str) -> (r: bool)
        requires
            self.wf(),
        ensures
            r == self@.dom().contains(server_name@),
    {
        self.place(server_name).is_some()
    }
}

/// A text on a server.
pub(crate) fn about_server(server_name: &str, what: &str) -> (r: String)
    ensures
        r@ == "server "@ + server_name@ + what@,
{
    let mut r = detailed("server ", server_name);
    r.append(what);
    r
}

/// An entry of a list makes its name known.
proof fn lemma_known(list: Seq<(String, ServerRoutingInfo)>, i: int)
    requires
        0 <= i < list.len(),
    ensures
        routes_of(list).dom().contains(list[i].0@),
    decreases list.len(),
{
    if i < list.len() - 1 {
        lemma_known(list.drop_last(), i);
    }
}

/// An entry of a list without repeated names is what is known under its name.
proof fn lemma_route(list: Seq<(String, ServerRoutingInfo)>, i: int)
    requires
        0 <= i < list.len(),
        forall|a: int, b: int|
            0 <= a < b < list.len() ==> (#[trigger] list[a]).0@ != (#[trigger] list[b]).0@,
    ensures
        routes_of(list).dom().contains(list[i].0@),
        routes_of(list)[list[i].0@] == list[i].1@,
    decreases list.len(),
{
    if i < list.len() - 1 {
        let init = list.drop_last();
        assert forall|a: int, b: int| 0 <= a < b < init.len() implies (#[trigger] init[a]).0@ != (
        #[trigger] init[b]).0@ by {
            assert(list[a].0@ != list[b].0@);
        }
        lemma_route(init, i);
        assert(list[i].0@ != list[list.len() - 1].0@);
    }
}

/// A name that no entry has is not known.
proof fn lemma_no_route(list: Seq<(String, ServerRoutingInfo)>, name: Seq<char>)
    requires
        forall|j: int| 0 <= j < list.len() ==> (#[trigger] list[j]).0@ != name,
    ensures
        !routes_of(list).dom().contains(name),
    decreases list.len(),
{
    if list.len() > 0 {
        let init = list.drop_last();
        assert forall|j: int| 0 <= j < init.len() implies (#[trigger] init[j]).0@ != name by {
            assert(list[j].0@ != name);
        }
        lemma_no_route(init, name);
        assert(list[list.len() - 1].0@ != name);
    }
}

/// What is known once an entry was replaced under its name.
proof fn lemma_replaced(
    before: Seq<(String, ServerRoutingInfo)>,
    after: Seq<(String, ServerRoutingInfo)>,
    i: int,
)
    requires
        0 <= i < before.len(),
        after.len() == before.len(),
        after[i].0@ == before[i].0@,
        forall|j: int| 0 <= j < before.len() && j != i ==> after[j] == #[trigger] before[j],
        forall|a: int, b: int|
            0 <= a < b < before.len() ==> (#[trigger] before[a]).0@ != (#[trigger] before[b]).0@,
    ensures
        routes_of(after) == routes_of(before).insert(after[i].0@, after[i].1@),
    decreases before.len(),
{
    let n = before.len() - 1;
    if i == n {
        assert(after.drop_last() =~= before.drop_last());
        assert(routes_of(after) =~= routes_of(before).insert(after[i].0@, after[i].1@));
    } else {
        let p = before.drop_last();
        let q = after.drop_last();
        assert forall|j: int| 0 <= j < p.len() && j != i implies q[j] == #[trigger] p[j] by {
            assert(after[j] == before[j]);
        }
        assert forall|a: int, b: int| 0 <= a < b < p.len() implies (#[trigger] p[a]).0@ != (
        #[trigger] p[b]).0@ by {
            assert(before[a].0@ != before[b].0@);
        }
        lemma_replaced(p, q, i);
        assert(after[n] == before[n]);
        assert(before[i].0@ != before[n].0@);
        assert(routes_of(after) =~= routes_of(before).insert(after[i].0@, after[i].1@));
    }
}

/// A connection goes to the peers' server exactly where the server is known and the port is one of
/// its peer ports, to the clients' router exactly where the port is another one of its client
/// ports, and nowhere else; what other servers are known, and on what ports, makes no difference.
pub proof fn law_ports_tell_where_connections_go(
    routes: Map<Seq<char>, RoutingView>,
    name: Seq<char>,
    port: u16,
    other: Seq<char>,
    info: RoutingView,
)
    ensures
        target(routes, name, port) is PeerCurp <==> routes.dom().contains(name)
            && routes[name].peer_ports.contains(port),
        target(routes, name, port) is ClientH3 <==> routes.dom().contains(name)
            && routes[name].client_ports.contains(port) && !routes[name].peer_ports.contains(port),
        other != name ==> target(routes.insert(other, info), name, port) == target(
            routes,
            name,
            port,
        ),
{
}

} // verus!
