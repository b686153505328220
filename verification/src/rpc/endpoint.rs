//! Parsing and resolution of endpoints.

use crate::rpc::ip::is_ip_address;
use crate::text::{
    chars_of, dec_nat, find_char, find_last_char, first_index, is_digit, last_index, lemma_first_index,
    lemma_last_index, parse_u64_in, parse_unsigned, strip_prefix, u64_text, NumberError,
};
use vstd::prelude::*;
use vstd::string::*;

verus! {

/// What is done where a host name cannot be resolved.
#[derive(Debug, Clone, Copy, PartialEq, Eq, Structural)]
pub enum DnsFallback {
    /// It is an error.
    Disabled,
    /// The address of the local machine is taken, under the host name.
    LocalhostForTest,
}

/// Why an endpoint cannot be resolved.
#[derive(Debug, Clone)]
pub enum EndpointError {
    /// The endpoint is not of the right form.
    ParseError { endpoint: String, reason: String },
    /// The host name cannot be resolved.
    DnsError { endpoint: String, host: String, port: u16, fallback: DnsFallback, source: String },
    /// The host name has no address.
    NoAddresses { endpoint: String, host: String, port: u16 },
}

/// The name of a fallback.
pub open spec fn fallback_name(fallback: DnsFallback) -> Seq<char> {
    match fallback {
        DnsFallback::Disabled => "Disabled"@,
        DnsFallback::LocalhostForTest => "LocalhostForTest"@,
    }
}

impl EndpointError {
    /// The text of the error.
    pub open spec fn text(self) -> Seq<char> {
        match self {
            EndpointError::ParseError { endpoint, reason } => "invalid endpoint '"@ + endpoint@
                + "': "@ + reason@,
            EndpointError::DnsError { endpoint, host, port, fallback, source } =>
                "DNS lookup failed for '"@ + host@ + ":"@ + dec_nat(port as nat) + "' (endpoint='"@
                + endpoint@ + "', fallback="@ + fallback_name(fallback) + "): "@ + source@,
            EndpointError::NoAddresses { endpoint, host, port } =>
                "DNS lookup returned no addresses for '"@ + host@ + ":"@ + dec_nat(port as nat)
                + "' (endpoint='"@ + endpoint@ + "')"@,
        }
    }

    /// The message for a reader.
    pub fn message(&self) -> (r: String)
        ensures
            r@ == self.text(),
    {
        match self {
            EndpointError::ParseError { endpoint, reason } => {
                let mut r = String::from_str("invalid endpoint '");
                r.append(endpoint.as_str());
                r.append("': ");
                r.append(reason.as_str());
                r
            },
            EndpointError::DnsError { endpoint, host, port, fallback, source } => {
                let mut r = String::from_str("DNS lookup failed for '");
                r.append(host.as_str());
                r.append(":");
                r.append(u64_text(*port as u64).as_str());
                r.append("' (endpoint='");
                r.append(endpoint.as_str());
                r.append("', fallback=");
                match fallback {
                    DnsFallback::Disabled => r.append("Disabled"),
                    DnsFallback::LocalhostForTest => r.append("LocalhostForTest"),
                }
                r.append("): ");
                r.append(source.as_str());
                r
            },
            EndpointError::NoAddresses { endpoint, host, port } => {
                let mut r = String::from_str("DNS lookup returned no addresses for '");
                r.append(host.as_str());
                r.append(":");
                r.append(u64_text(*port as u64).as_str());
                r.append("' (endpoint='");
                r.append(endpoint.as_str());
                r.append("')");
                r
            },
        }
    }
}

/// An endpoint without its scheme.
pub open spec fn without_scheme(s: Seq<char>) -> Seq<char> {
    if "quic://"@.is_prefix_of(s) {
        s.skip("quic://"@.len() as int)
    } else if "https://"@.is_prefix_of(s) {
        s.skip("https://"@.len() as int)
    } else if "http://"@.is_prefix_of(s) {
        s.skip("http://"@.len() as int)
    } else {
        s
    }
}

/// An endpoint without its scheme.
pub fn strip_scheme(endpoint: &str) -> (r: &str)
    ensures
        r@ == without_scheme(endpoint@),
{
    if let Some(rest) = strip_prefix(endpoint, "quic://") {
        return rest;
    }
    if let Some(rest) = strip_prefix(endpoint, "https://") {
        return rest;
    }
    if let Some(rest) = strip_prefix(endpoint, "http://") {
        return rest;
    }
    endpoint
}

/// The host and the port of an endpoint without scheme as texts, or what is
/// wrong with it. A host in brackets ends at the first closing bracket; another
/// host ends at the last colon.
pub open spec fn host_and_port(s: Seq<char>) -> Result<(Seq<char>, Seq<char>), Seq<char>> {
    if s.len() > 0 && s[0] == '[' {
        match first_index(s, ']') {
            None => Err("missing ']' in IPv6 endpoint"@),
            Some(i) => if i + 1 < s.len() && s[i + 1] == ':' {
                Ok((s.subrange(1, i), s.skip(i + 2)))
            } else {
                Err("missing port after ']'"@)
            },
        }
    } else {
        match last_index(s, ':') {
            None => Err("missing ':' separator and port"@),
            Some(i) => Ok((s.take(i), s.skip(i + 1))),
        }
    }
}

/// The host and the port of an endpoint, or what is wrong with it.
pub open spec fn endpoint_parts(endpoint: Seq<char>) -> Result<(Seq<char>, u16), Seq<char>> {
    match host_and_port(without_scheme(endpoint)) {
        Err(reason) => Err(reason),
        Ok((host, port)) => match parse_unsigned(port, 65535) {
            Ok(n) => Ok((host, n as u16)),
            Err(e) => Err("invalid port: "@ + e.text()),
        },
    }
}

/// The host and the port of an endpoint.
pub fn parse_host_port(endpoint: &str) -> (r: Result<(String, u16), EndpointError>)
    ensures
        match endpoint_parts(endpoint@) {
            Ok((host, port)) => r matches Ok(pair) && pair.0@ == host && pair.1 == port,
            Err(reason) => r matches Err(EndpointError::ParseError { endpoint: e, reason: why })
                && e@ == endpoint@ && why@ == reason,
        },
{
    let stripped = strip_scheme(endpoint);
    let chars = chars_of(stripped);
    let n = chars.len();
    let ghost s = stripped@;
    let host: &str;
    let start: usize;
    if n > 0 && chars[0] == '[' {
        match find_char(&chars, ']', 0) {
            None => {
                proof {
                    lemma_first_index(s, ']', n as int);
                }
                return Err(
                    EndpointError::ParseError {
                        endpoint: endpoint.to_owned(),
                        reason: String::from_str("missing ']' in IPv6 endpoint"),
                    },
                );
            },
            Some(i) => {
                proof {
                    lemma_first_index(s, ']', i as int);
                }
                if !(i + 1 < n && chars[i + 1] == ':') {
                    return Err(
                        EndpointError::ParseError {
                            endpoint: endpoint.to_owned(),
                            reason: String::from_str("missing port after ']'"),
                        },
                    );
                }
                host = stripped.substring_char(1, i);
                start = i + 2;
            },
        }
    } else {
        match find_last_char(&chars, ':') {
            None => {
                proof {
                    lemma_last_index(s, ':', -1);
                }
                return Err(
                    EndpointError::ParseError {
                        endpoint: endpoint.to_owned(),
                        reason: String::from_str("missing ':' separator and port"),
                    },
                );
            },
            Some(i) => {
                proof {
                    lemma_last_index(s, ':', i as int);
                }
                host = stripped.substring_char(0, i);
                assert(host@ =~= s.take(i as int));
                start = i + 1;
            },
        }
    }
    assert(s.skip(start as int) =~= chars@.subrange(start as int, n as int));
    match parse_u64_in(&chars, start, n, 65535) {
        Ok(port) => Ok((host.to_owned(), port as u16)),
        Err(e) => {
            let mut reason = String::from_str("invalid port: ");
            reason.append(e.message().as_str());
            Err(EndpointError::ParseError { endpoint: endpoint.to_owned(), reason })
        },
    }
}

/// The address that an endpoint is reached at.
#[derive(Debug, Clone, Copy, PartialEq, Eq, Structural)]
pub enum SocketTarget<A> {
    /// The server name is itself an IP address, which is taken with the port.
    Literal,
    /// An address that the name was resolved to.
    Resolved(A),
    /// The local machine at the port.
    Localhost,
}

/// An endpoint with the name and the address for a connection.
#[derive(Debug, Clone)]
pub struct ResolvedEndpoint<A> {
    /// The name that the server is asked for.
    pub server_name: String,
    /// The port.
    pub port: u16,
    /// The address.
    pub target: SocketTarget<A>,
}

/// A host name that is to be resolved.
#[derive(Debug, Clone)]
pub struct PendingLookup {
    pub endpoint: String,
    pub host: String,
    pub port: u16,
    pub fallback: DnsFallback,
}

/// What is to be done to resolve an endpoint.
pub enum Resolution<A> {
    /// Nothing: the host is an address.
    Ready(ResolvedEndpoint<A>),
    /// The host name is to be resolved.
    Lookup(PendingLookup),
}

/// Whether a resolution is the right beginning for an endpoint.
pub open spec fn begins<A>(
    endpoint: Seq<char>,
    fallback: DnsFallback,
    r: Result<Resolution<A>, EndpointError>,
) -> bool {
    match endpoint_parts(endpoint) {
        Ok((host, port)) => if crate::rpc::ip::is_ip(host) {
            r matches Ok(Resolution::Ready(found)) && found.server_name@ == host && found.port
                == port && found.target == SocketTarget::<A>::Literal
        } else {
            r matches Ok(Resolution::Lookup(wait)) && wait.endpoint@ == endpoint && wait.host@
                == host && wait.port == port && wait.fallback == fallback
        },
        Err(reason) => r matches Err(EndpointError::ParseError { endpoint: e, reason: why }) && e@
            == endpoint && why@ == reason,
    }
}

/// Begins to resolve an endpoint; a name that cannot be resolved is an error.
pub fn resolve_endpoint<A>(endpoint: &str) -> (r: Result<Resolution<A>, EndpointError>)
    ensures
        begins(endpoint@, DnsFallback::Disabled, r),
{
    resolve_endpoint_with_fallback(endpoint, DnsFallback::Disabled)
}

/// Begins to resolve an endpoint.
pub fn resolve_endpoint_with_fallback<A>(endpoint: &str, fallback: DnsFallback) -> (r: Result<
    Resolution<A>,
    EndpointError,
>)
    ensures
        begins(endpoint@, fallback, r),
{
    match parse_host_port(endpoint) {
        Err(e) => Err(e),
        Ok((host, port)) => if is_ip_address(host.as_str()) {
            Ok(
                Resolution::Ready(
                    ResolvedEndpoint { server_name: host, port, target: SocketTarget::Literal },
                ),
            )
        } else {
            Ok(
                Resolution::Lookup(
                    PendingLookup { endpoint: endpoint.to_owned(), host, port, fallback },
                ),
            )
        },
    }
}

impl PendingLookup {
    /// Ends the resolution with what the look-up of the host gave: the first
    /// address if there is one, or the text of the failure.
    pub fn finish<A>(self, reply: Result<Option<A>, String>) -> (r: Result<
        ResolvedEndpoint<A>,
        EndpointError,
    >)
        ensures
            r == (match reply {
                Ok(Some(addr)) => Ok::<ResolvedEndpoint<A>, EndpointError>(
                    ResolvedEndpoint {
                        server_name: self.host,
                        port: self.port,
                        target: SocketTarget::Resolved(addr),
                    },
                ),
                Ok(None) => Err::<ResolvedEndpoint<A>, EndpointError>(
                    EndpointError::NoAddresses {
                        endpoint: self.endpoint,
                        host: self.host,
                        port: self.port,
                    },
                ),
                Err(source) => match self.fallback {
                    DnsFallback::Disabled => Err::<ResolvedEndpoint<A>, EndpointError>(
                        EndpointError::DnsError {
                            endpoint: self.endpoint,
                            host: self.host,
                            port: self.port,
                            fallback: self.fallback,
                            source,
                        },
                    ),
                    DnsFallback::LocalhostForTest => Ok::<ResolvedEndpoint<A>, EndpointError>(
                        ResolvedEndpoint {
                            server_name: self.host,
                            port: self.port,
                            target: SocketTarget::Localhost,
                        },
                    ),
                },
            }),
    {
        let PendingLookup { endpoint, host, port, fallback } = self;
        match reply {
            Ok(Some(addr)) => Ok(
                ResolvedEndpoint { server_name: host, port, target: SocketTarget::Resolved(addr) },
            ),
            Ok(None) => Err(EndpointError::NoAddresses { endpoint, host, port }),
            Err(source) => match fallback {
                DnsFallback::Disabled => Err(
                    EndpointError::DnsError { endpoint, host, port, fallback, source },
                ),
                DnsFallback::LocalhostForTest => Ok(
                    ResolvedEndpoint { server_name: host, port, target: SocketTarget::Localhost },
                ),
            },
        }
    }
}

/// An endpoint that is a host in brackets, a colon and the decimal form of a port is read back as
/// that host and that port.
pub proof fn law_bracketed_endpoint_reads_back(host: Seq<char>, port: u16)
    requires
        !host.contains(']'),
    ensures
        endpoint_parts(seq!['['] + host + "]:"@ + dec_nat(port as nat)) == Ok::<
            (Seq<char>, u16),
            Seq<char>,
        >((host, port)),
{
    reveal_strlit("quic://");
    reveal_strlit("https://");
    reveal_strlit("http://");
    reveal_strlit("]:");
    let d = dec_nat(port as nat);
    crate::text::lemma_dec_nat_reads_back(port as nat, 65535, NumberError::TooLarge);
    assert(is_digit(d[0]));
    let a = seq!['['] + host + "]:"@ + d;
    assert(a[0] == '[');
    assert("quic://"@[0] == 'q');
    assert("https://"@[0] == 'h');
    assert("http://"@[0] == 'h');
    assert(without_scheme(a) == a);
    let i = host.len() as int + 1;
    assert forall|j: int| 0 <= j < i implies a[j] != ']' by {
        if j > 0 {
            assert(a[j] == host[j - 1]);
            assert(host.contains(host[j - 1]));
        }
    }
    assert(a[i] == ']');
    lemma_first_index(a, ']', i);
    assert(a.subrange(1, i) =~= host);
    assert(a.skip(i + 2) =~= d);
}

/// An endpoint without scheme that is a host, a colon and the decimal form of a port is read back
/// as that host and that port.
pub proof fn law_plain_endpoint_reads_back(host: Seq<char>, port: u16)
    requires
        !(host.len() > 0 && host[0] == '['),
        without_scheme(host + ":"@ + dec_nat(port as nat)) == host + ":"@ + dec_nat(port as nat),
    ensures
        endpoint_parts(host + ":"@ + dec_nat(port as nat)) == Ok::<(Seq<char>, u16), Seq<char>>(
            (host, port),
        ),
{
    reveal_strlit(":");
    let d = dec_nat(port as nat);
    crate::text::lemma_dec_nat_reads_back(port as nat, 65535, NumberError::TooLarge);
    assert(is_digit(d[0]));
    let b = host + ":"@ + d;
    let k = host.len() as int;
    assert(b[k] == ':');
    assert forall|j: int| k < j < b.len() implies b[j] != ':' by {
        assert(b[j] == d[j - k - 1]);
        assert(is_digit(d[j - k - 1]));
    }
    lemma_last_index(b, ':', k);
    assert(b.take(k) =~= host);
    assert(b.skip(k + 1) =~= d);
    if host.len() > 0 {
        assert(b[0] == host[0]);
    }
}

/// The scheme of an endpoint makes no difference, nor does it matter which of the known ones it
/// is; another scheme is none.
pub proof fn law_scheme_makes_no_difference(rest: Seq<char>)
    ensures
        without_scheme("quic://"@ + rest) == rest,
        without_scheme("https://"@ + rest) == rest,
        without_scheme("http://"@ + rest) == rest,
        !"quic://"@.is_prefix_of(rest) && !"https://"@.is_prefix_of(rest)
            && !"http://"@.is_prefix_of(rest) ==> without_scheme(rest) == rest,
{
    reveal_strlit("quic://");
    reveal_strlit("https://");
    reveal_strlit("http://");
    let q = "quic://"@ + rest;
    let s = "https://"@ + rest;
    let h = "http://"@ + rest;
    assert(q.subrange(0, 7) =~= "quic://"@);
    assert(q.skip(7) =~= rest);
    assert(s.subrange(0, 8) =~= "https://"@);
    assert(s.skip(8) =~= rest);
    assert(s[0] == 'h' && "quic://"@[0] == 'q');
    assert(!"quic://"@.is_prefix_of(s)) by {
        assert(s.subrange(0, 7)[0] == 'h');
    }
    assert(h.subrange(0, 7) =~= "http://"@);
    assert(h.skip(7) =~= rest);
    assert(!"quic://"@.is_prefix_of(h)) by {
        assert(h.subrange(0, 7)[0] == 'h');
    }
    assert(!"https://"@.is_prefix_of(h)) by {
        assert("https://"@[4] == 's');
        assert(h[4] == ':');
        if "https://"@.is_prefix_of(h) {
            assert(h.subrange(0, 8)[4] == 's');
        }
    }
}

/// An endpoint is a host and a port only where it has a colon, and a number behind the last one
/// that is the number of a port.
pub proof fn law_endpoint_without_port_is_refused(endpoint: Seq<char>, host: Seq<char>, n: nat)
    ensures
        !without_scheme(endpoint).contains(':') ==> endpoint_parts(endpoint) is Err,
        without_scheme(endpoint) == host + ":"@ ==> endpoint_parts(endpoint) is Err,
        without_scheme(endpoint) == host + ":"@ + dec_nat(n) && n > 65535 ==> endpoint_parts(
            endpoint,
        ) is Err,
{
    reveal_strlit(":");
    let s = without_scheme(endpoint);
    if host_and_port(s) is Ok {
        if s.len() > 0 && s[0] == '[' {
            lemma_first_place(s, ']');
            let i = first_index(s, ']')->0;
            assert(s[i + 1] == ':');
            assert(s.contains(s[i + 1]));
        } else {
            lemma_last_place(s, ':');
            assert(s.contains(s[last_index(s, ':')->0]));
        }
    }
    crate::text::law_unsigned_reads_back(n, 65535);
    crate::text::lemma_dec_nat_reads_back(n, n, NumberError::TooLarge);
    if s == host + ":"@ && host_and_port(s) is Ok {
        lemma_port_is_behind_the_last_colon(s, host, Seq::empty());
    }
    if s == host + ":"@ + dec_nat(n) && n > 65535 && host_and_port(s) is Ok {
        lemma_port_is_behind_the_last_colon(s, host, dec_nat(n));
    }
}

/// The last place of a character holds it.
proof fn lemma_last_place(s: Seq<char>, c: char)
    ensures
        last_index(s, c) matches Some(i) ==> 0 <= i < s.len() && s[i] == c,
    decreases s.len(),
{
    if s.len() > 0 && s.last() != c {
        lemma_last_place(s.drop_last(), c);
    }
}

/// The first place of a character holds it.
proof fn lemma_first_place(s: Seq<char>, c: char)
    ensures
        first_index(s, c) matches Some(i) ==> 0 <= i < s.len() && s[i] == c,
    decreases s.len(),
{
    if s.len() > 0 && s[0] != c {
        lemma_first_place(s.skip(1), c);
    }
}

/// What is read as the port ends in what stands behind the last colon.
proof fn lemma_port_is_behind_the_last_colon(s: Seq<char>, host: Seq<char>, port: Seq<char>)
    requires
        s == host + ":"@ + port,
        forall|i: int| 0 <= i < port.len() ==> is_digit(#[trigger] port[i]),
        host_and_port(s) is Ok,
    ensures
        host_and_port(s)->Ok_0.1 == port || parse_unsigned(host_and_port(s)->Ok_0.1, 65535) is Err,
{
    reveal_strlit(":");
    let k = host.len() as int;
    assert(s[k] == ':');
    assert forall|j: int| k < j < s.len() implies s[j] != ':' by {
        assert(s[j] == port[j - k - 1]);
        assert(is_digit(port[j - k - 1]));
    }
    lemma_last_index(s, ':', k);
    let read = host_and_port(s)->Ok_0.1;
    if s.len() > 0 && s[0] == '[' {
        lemma_first_place(s, ']');
        let i = first_index(s, ']')->0;
        if i + 1 == k {
            assert(read =~= port);
        } else {
            assert(i + 1 < k);
            let at = k - i - 2;
            assert(read[at] == ':');
            if parse_unsigned(read, 65535) is Ok {
                crate::text::law_only_digits_are_numbers(read, 65535, at);
            }
        }
    } else {
        assert(read =~= port);
    }
}

/// An endpoint whose host is an IP address is reached at that address and its port without a
/// look-up; another host is looked up under its own name, with its port and what is done where
/// that fails; and an endpoint of the wrong form is refused and named.
pub proof fn law_only_names_are_looked_up<A>(
    endpoint: Seq<char>,
    fallback: DnsFallback,
    r: Result<Resolution<A>, EndpointError>,
)
    requires
        begins(endpoint, fallback, r),
    ensures
        r is Err <==> endpoint_parts(endpoint) is Err,
        r matches Err(e) ==> (e matches EndpointError::ParseError { endpoint: named, .. }
            && named@ == endpoint),
        endpoint_parts(endpoint) matches Ok(parts) ==> {
            &&& (r matches Ok(Resolution::Ready(_))) <==> crate::rpc::ip::is_ip(parts.0)
            &&& r matches Ok(Resolution::Ready(found)) ==> found.server_name@ == parts.0
                && found.port == parts.1 && found.target is Literal
            &&& r matches Ok(Resolution::Lookup(wait)) ==> wait.host@ == parts.0 && wait.port
                == parts.1 && wait.fallback == fallback && wait.endpoint@ == endpoint
        },
{
}

} // verus!
