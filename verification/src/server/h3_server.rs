//! The server of requests: what it serves, and what it does with connections and requests.

use crate::meta::store::detailed;
use crate::server::port_router::{
    copied, target, ConnectionTarget, Dispatch, PortRouter, ServerRoutingInfo,
};
use crate::text::{
    dec_nat, is_digit, law_only_digits_are_numbers, law_unsigned_reads_back,
    lemma_dec_nat_reads_back, parse_u64_in, parse_unsigned, same_text, NumberError,
};
use vstd::prelude::*;

verus! {

/// The paths of the certificate and the key of a server.
#[derive(Debug, Clone)]
pub struct TlsConfig {
    pub peer_cert_path: Option<String>,
    pub peer_key_path: Option<String>,
}

impl Default for TlsConfig {
    fn default() -> (r: TlsConfig)
        ensures
            r.peer_cert_path is None,
            r.peer_key_path is None,
    {
        TlsConfig { peer_cert_path: None, peer_key_path: None }
    }
}

/// The routers nested in the router of a server, each under its name and by the number under
/// which it is kept, and the certificate of the server.
#[derive(Debug)]
pub struct RouterBuilder {
    pub routers: Vec<(String, u64)>,
    pub tls_config: TlsConfig,
}

impl RouterBuilder {
    /// A router without nested routers.
    pub fn new() -> (r: RouterBuilder)
        ensures
            r.routers@.len() == 0,
            r.tls_config.peer_cert_path is None,
            r.tls_config.peer_key_path is None,
    {
        RouterBuilder { routers: Vec::new(), tls_config: TlsConfig::default() }
    }

    /// Nests a router under a name.
    pub fn add_subrouter(self, name: &str, router: u64) -> (r: RouterBuilder)
        ensures
            r.tls_config == self.tls_config,
            r.routers@.drop_last() == self.routers@,
            r.routers@.len() == self.routers@.len() + 1,
            r.routers@.last().0@ == name@,
            r.routers@.last().1 == router,
    {
        let mut routers = self.routers;
        routers.push((name.to_owned(), router));
        assert(routers@.drop_last() =~= self.routers@);
        RouterBuilder { routers, tls_config: self.tls_config }
    }

    /// Sets the certificate.
    pub fn set_tls_config(self, config: TlsConfig) -> (r: RouterBuilder)
        ensures
            r == (RouterBuilder { routers: self.routers, tls_config: config }),
    {
        RouterBuilder { routers: self.routers, tls_config: config }
    }

    /// The nested routers.
    pub fn into_inner(self) -> (r: Vec<(String, u64)>)
        ensures
            r == self.routers,
    {
        self.routers
    }
}

impl Default for RouterBuilder {
    fn default() -> (r: RouterBuilder)
        ensures
            r.routers@.len() == 0,
            r.tls_config.peer_cert_path is None,
            r.tls_config.peer_key_path is None,
    {
        RouterBuilder::new()
    }
}

/// A server that is to be served: its name, its router and its URLs.
#[derive(Debug)]
pub struct ServedServer {
    pub name: String,
    pub router: RouterBuilder,
    pub urls: Vec<String>,
}

/// The servers to be served, and the ports of the clients and of the peers.
#[derive(Debug)]
pub struct XlineH3Server {
    servers: Vec<ServedServer>,
    client_ports: Vec<u16>,
    peer_ports: Vec<u16>,
}

/// What serving does next.
#[derive(Debug)]
pub enum ServeAction {
    /// A server is registered.
    Register(usize),
    /// Connections are accepted.
    Accept,
    /// Serving ends.
    Finish(Result<(), String>),
}

impl XlineH3Server {
    /// The servers, in the order in which they were added.
    pub closed spec fn served(self) -> Seq<ServedServer> {
        self.servers@
    }

    /// The ports of the clients.
    pub closed spec fn for_clients(self) -> Seq<u16> {
        self.client_ports@
    }

    /// The ports of the peers.
    pub closed spec fn for_peers(self) -> Seq<u16> {
        self.peer_ports@
    }

    /// Whether a server of a name is among the servers.
    pub open spec fn serves(self, name: Seq<char>) -> bool {
        exists|i: int| 0 <= i < self.served().len() && (#[trigger] self.served()[i]).name@ == name
    }

    /// No server and no port.
    pub fn new() -> (r: XlineH3Server)
        ensures
            r.served() == Seq::<ServedServer>::empty(),
            r.for_clients() == Seq::<u16>::empty(),
            r.for_peers() == Seq::<u16>::empty(),
    {
        XlineH3Server { servers: Vec::new(), client_ports: Vec::new(), peer_ports: Vec::new() }
    }

    /// Sets the ports of the clients.
    pub fn with_client_ports(self, ports: Vec<u16>) -> (r: XlineH3Server)
        ensures
            r.served() == self.served(),
            r.for_clients() == ports@,
            r.for_peers() == self.for_peers(),
    {
        XlineH3Server { servers: self.servers, client_ports: ports, peer_ports: self.peer_ports }
    }

    /// Sets the ports of the peers.
    pub fn with_peer_ports(self, ports: Vec<u16>) -> (r: XlineH3Server)
        ensures
            r.served() == self.served(),
            r.for_clients() == self.for_clients(),
            r.for_peers() == ports@,
    {
        XlineH3Server { servers: self.servers, client_ports: self.client_ports, peer_ports: ports }
    }

    /// Whether a server of a name is among the servers.
    pub fn contains(&self, name: &str) -> (r: bool)
        ensures
            r == self.serves(name@),
    {
        let mut i: usize = 0;
        while i < self.servers.len()
            invariant
                i <= self.servers.len(),
                forall|j: int| 0 <= j < i ==> (#[trigger] self.servers@[j]).name@ != name@,
            decreases self.servers.len() - i,
        {
            if same_text(self.servers[i].name.as_str(), name) {
                assert(self.served()[i as int].name@ == name@);
                return true;
            }
            i = i + 1;
        }
        assert forall|j: int| 0 <= j < self.served().len() implies (
        #[trigger] self.served()[j]).name@ != name@ by {
            assert(self.servers@[j].name@ != name@);
        }
        false
    }

    /// Adds a server under a name that is not taken.
    pub fn add_server(self, name: &str, router: RouterBuilder, peer_urls: Vec<String>) -> (r:
        XlineH3Server)
        requires
            !self.serves(name@),
        ensures
            r.served().len() == self.served().len() + 1,
            r.served().drop_last() == self.served(),
            r.served().last().name@ == name@,
            r.served().last().router == router,
            r.served().last().urls == peer_urls,
            r.for_clients() == self.for_clients(),
            r.for_peers() == self.for_peers(),
    {
        let mut servers = self.servers;
        servers.push(ServedServer { name: name.to_owned(), router, urls: peer_urls });
        assert(servers@.drop_last() =~= self.servers@);
        XlineH3Server { servers, client_ports: self.client_ports, peer_ports: self.peer_ports }
    }

    /// The server at a place.
    pub fn server(&self, i: usize) -> (r: Option<&ServedServer>)
        ensures
            match r {
                Some(server) => i < self.served().len() && *server == self.served()[i as int],
                None => i >= self.served().len(),
            },
    {
        if i < self.servers.len() {
            Some(&self.servers[i])
        } else {
            None
        }
    }

    /// What a server is routed by: the ports of all servers, and its services.
    pub fn routing_info(&self, h3_router: u64, grpc_server: u64) -> (r:
        ServerRoutingInfo)
        ensures
            r.client_ports@ == self.for_clients(),
            r.peer_ports@ == self.for_peers(),
            r.h3_router == h3_router,
            r.grpc_server == grpc_server,
    {
        ServerRoutingInfo {
            client_ports: copied(&self.client_ports),
            peer_ports: copied(&self.peer_ports),
            h3_router,
            grpc_server,
        }
    }

    /// What serving does next, once some servers are registered and given how the last
    /// registration ended. A failure ends it. Where all servers are registered, the first to use
    /// the listeners accepts connections; for the others nothing is left to do.
    pub fn serve(&self, is_first: bool, registered: usize, last: Result<(), String>) -> (r:
        ServeAction)
        ensures
            match last {
                Err(_) => r == ServeAction::Finish(last),
                Ok(_) => if registered < self.served().len() {
                    r == ServeAction::Register(registered)
                } else if is_first {
                    r is Accept
                } else {
                    r == ServeAction::Finish(Ok::<(), String>(()))
                },
            },
    {
        match last {
            Err(e) => ServeAction::Finish(Err(e)),
            Ok(()) => if registered < self.servers.len() {
                ServeAction::Register(registered)
            } else if is_first {
                ServeAction::Accept
            } else {
                ServeAction::Finish(Ok(()))
            },
        }
    }

    /// What is done with what accepting a connection yields: the name of the server and the local
    /// port, if it has one. A failure to accept ends the accepting.
    pub fn accept_loop(router: &PortRouter, accepted: Result<(String, Option<u16>), String>) -> (r:
        Result<Dispatch, String>)
        requires
            router.wf(),
        ensures
            match accepted {
                Ok((name, Some(port))) => match target(router@, name@, port) {
                    ConnectionTarget::PeerCurp => r == Ok::<
                        Dispatch,
                        String,
                    >(Dispatch::Peer(router@[name@].grpc_server)),
                    ConnectionTarget::ClientH3 => r == Ok::<
                        Dispatch,
                        String,
                    >(Dispatch::Client(router@[name@].h3_router)),
                    ConnectionTarget::Unknown => r == Ok::<
                        Dispatch,
                        String,
                    >(Dispatch::Ignore),
                },
                Ok((name, None)) => r == Ok::<Dispatch, String>(Dispatch::Ignore),
                Err(e) => r matches Err(text) && text@ == "quic listener accept failed: "@ + e@,
            },
    {
        match accepted {
            Ok((name, port)) => Ok(router.dispatch(name.as_str(), port)),
            Err(e) => Err(detailed("quic listener accept failed: ", e.as_str())),
        }
    }

    /// The request that is to be handled, given what a connection yields. The connection is left
    /// where it has no more requests or fails.
    pub fn handle_connection<R, E>(accepted: Result<Option<R>, E>) -> (r: Option<R>)
        ensures
            match accepted {
                Ok(request) => r == request,
                Err(_) => r is None,
            },
    {
        match accepted {
            Ok(request) => request,
            Err(_) => None,
        }
    }
}

/// The status of the answer to a request for what is not there.
pub const STATUS_OK: u16 = 200;

/// The answer to a request for what is not there: a status and headers.
pub fn unimplemented() -> (r: (u16, Vec<(&'static str, &'static str)>))
    ensures
        r.0 == STATUS_OK,
        r.1@.len() == 2,
        r.1@[0].0@ == "grpc-status"@ && r.1@[0].1@ == "12"@,
        r.1@[1].0@ == "content-type"@ && r.1@[1].1@ == "application/grpc"@,
{
    let mut headers: Vec<(&'static str, &'static str)> = Vec::new();
    headers.push(("grpc-status", "12"));
    headers.push(("content-type", "application/grpc"));
    (STATUS_OK, headers)
}

/// `http::HeaderValue`, the value of a header.
#[verifier::external_type_specification]
#[verifier::external_body]
pub struct ExHeaderValue(http::HeaderValue);

/// `http::HeaderMap`, the headers of a request or a response.
#[verifier::external_type_specification]
#[verifier::external_body]
#[verifier::reject_recursive_types(T)]
pub struct ExHeaderMap<T>(http::HeaderMap<T>);

/// What the headers of a request hold: by the name in lower case, the bytes of the first value.
pub uninterp spec fn first_values(headers: http::HeaderMap<http::HeaderValue>) -> Map<
    Seq<char>,
    Seq<u8>,
>;

/// `http::HeaderMap::get` of the header `content-length`: the bytes of its first value, or nothing
/// where there is none.
#[verifier::external_body]
fn content_length_value(headers: &http::HeaderMap<http::HeaderValue>) -> (r: Option<Vec<u8>>)
    ensures
        match r {
            Some(bytes) => first_values(*headers).dom().contains("content-length"@)
                && first_values(*headers)["content-length"@] == bytes@,
            None => !first_values(*headers).dom().contains("content-length"@),
        },
{
    match headers.get(http::header::CONTENT_LENGTH) {
        Some(value) => Some(value.as_bytes().to_vec()),
        None => None,
    }
}

/// Whether a byte stands for a visible character, a space or a tab.
pub open spec fn visible(b: u8) -> bool {
    32 <= b < 127 || b == 9
}

/// The text of a header value. One with other than visible characters has none.
pub open spec fn header_text(bytes: Seq<u8>) -> Option<Seq<char>> {
    if forall|i: int| 0 <= i < bytes.len() ==> visible(#[trigger] bytes[i]) {
        Some(bytes.map_values(|b: u8| b as char))
    } else {
        None
    }
}

/// The length that a header value tells. What is not a number tells nothing.
pub open spec fn told_length(bytes: Seq<u8>) -> Option<u64> {
    match header_text(bytes) {
        Some(text) => match parse_unsigned(text, u64::MAX as nat) {
            Ok(n) => Some(n as u64),
            Err(_) => None,
        },
        None => None,
    }
}

/// The length that a header value tells. What is not a number tells nothing.
pub fn length_of(bytes: &Vec<u8>) -> (r: Option<u64>)
    ensures
        r == told_length(bytes@),
{
    let mut chars: Vec<char> = Vec::new();
    let mut i: usize = 0;
    while i < bytes.len()
        invariant
            i <= bytes.len(),
            chars@ == bytes@.take(i as int).map_values(|b: u8| b as char),
            forall|j: int| 0 <= j < i ==> visible(#[trigger] bytes@[j]),
        decreases bytes.len() - i,
    {
        let b: u8 = bytes[i];
        if !((32 <= b && b < 127) || b == 9) {
            assert(!visible(bytes@[i as int]));
            return None;
        }
        chars.push(b as char);
        i = i + 1;
        assert(chars@ =~= bytes@.take(i as int).map_values(|b: u8| b as char));
    }
    assert(bytes@.take(i as int) =~= bytes@);
    let n: usize = chars.len();
    assert(chars@.subrange(0, n as int) =~= chars@);
    match parse_u64_in(&chars, 0, n, u64::MAX) {
        Ok(len) => Some(len),
        Err(_) => None,
    }
}

/// The length of the body of a request, as its headers tell it.
pub fn content_length(headers: &http::HeaderMap<http::HeaderValue>) -> (r: Option<u64>)
    ensures
        r == (if first_values(*headers).dom().contains("content-length"@) {
            told_length(first_values(*headers)["content-length"@])
        } else {
            None
        }),
{
    match content_length_value(headers) {
        Some(bytes) => length_of(&bytes),
        None => None,
    }
}

/// A frame of a response.
#[derive(Debug)]
pub enum BodyFrame<D, T> {
    Data(D),
    Trailers(T),
    Other,
}

/// What is sent of a response.
#[derive(Debug)]
pub enum BodyAction<D, T> {
    SendData(D),
    SendTrailers(T),
    /// Nothing; the next frame is asked for.
    Skip,
    /// The stream is finished.
    Finish,
    /// Copying ends with a failure.
    Fail(String),
}

/// What is sent for what a body yields: its next frame, a failure, or nothing at its end.
pub fn copy_response_body<D, T>(frame: Option<Result<BodyFrame<D, T>, String>>) -> (r: BodyAction<
    D,
    T,
>)
    ensures
        match frame {
            Some(Ok(BodyFrame::Data(data))) => r == BodyAction::<D, T>::SendData(data),
            Some(Ok(BodyFrame::Trailers(trailers))) => r == BodyAction::<D, T>::SendTrailers(
                trailers,
            ),
            Some(Ok(BodyFrame::Other)) => r is Skip,
            Some(Err(e)) => r == BodyAction::<D, T>::Fail(e),
            None => r is Finish,
        },
{
    match frame {
        Some(Ok(BodyFrame::Data(data))) => BodyAction::SendData(data),
        Some(Ok(BodyFrame::Trailers(trailers))) => BodyAction::SendTrailers(trailers),
        Some(Ok(BodyFrame::Other)) => BodyAction::Skip,
        Some(Err(e)) => BodyAction::Fail(e),
        None => BodyAction::Finish,
    }
}

/// A header value that spells a number tells that number; one with a byte that is neither a digit
/// nor a plus sign, and an empty one, tell nothing.
pub proof fn law_header_tells_its_number(bytes: Seq<u8>, n: u64, i: int)
    ensures
        bytes.map_values(|b: u8| b as char) == dec_nat(n as nat) ==> told_length(bytes) == Some(n),
        0 <= i < bytes.len() && !(48 <= bytes[i] <= 57) && bytes[i] != 43 ==> told_length(
            bytes,
        ) is None,
        bytes.len() == 0 ==> told_length(bytes) is None,
{
    let text = bytes.map_values(|b: u8| b as char);
    law_unsigned_reads_back(n as nat, u64::MAX as nat);
    lemma_dec_nat_reads_back(n as nat, u64::MAX as nat, NumberError::TooLarge);
    if text == dec_nat(n as nat) {
        assert forall|j: int| 0 <= j < bytes.len() implies visible(#[trigger] bytes[j]) by {
            assert(is_digit(text[j]));
            assert(text[j] == bytes[j] as char);
        }
    }
    if told_length(bytes) is Some && 0 <= i < bytes.len() {
        law_only_digits_are_numbers(text, u64::MAX as nat, i);
        assert(text[i] == bytes[i] as char);
    }
}

} // verus!
