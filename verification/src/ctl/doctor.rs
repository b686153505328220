//! Diagnosis of endpoints, certificates and settings.

use crate::rpc::ip::is_ip_address;
use crate::text::{
    chars_of, dec_nat, find_char, find_last_char, find_pattern, first_index, is_digit, last_index,
    law_unsigned_reads_back, lemma_dec_nat_reads_back, lemma_first_index, lemma_last_index,
    occurs_at, parse_u64_in, parse_unsigned, same_text, starts_with, strip_prefix, texts, trim_end,
    trim_range, trim_start, u64_text, NumberError,
};
use vstd::prelude::*;
use vstd::string::*;

verus! {

/// What is found of an endpoint.
#[derive(Debug, Clone, PartialEq, Eq)]
pub enum EndpointCheck {
    /// There is no scheme.
    MissingScheme,
    /// The scheme is neither `https` nor `http`.
    UnknownScheme(String),
    /// There is no port.
    MissingPort,
    /// The port is no number of a port.
    InvalidPort,
    /// The host is an IP address.
    IpEndpoint,
    /// The host is `localhost`.
    LocalhostEndpoint,
    /// The endpoint has a scheme, a host name and a port.
    Valid { scheme: String, host: String, port: u16 },
}

/// What is found of an endpoint, with its texts as sequences of characters.
pub enum CheckView {
    MissingScheme,
    UnknownScheme(Seq<char>),
    MissingPort,
    InvalidPort,
    IpEndpoint,
    LocalhostEndpoint,
    Valid { scheme: Seq<char>, host: Seq<char>, port: u16 },
}

impl View for EndpointCheck {
    type V = CheckView;

    open spec fn view(&self) -> CheckView {
        match *self {
            EndpointCheck::MissingScheme => CheckView::MissingScheme,
            EndpointCheck::UnknownScheme(scheme) => CheckView::UnknownScheme(scheme@),
            EndpointCheck::MissingPort => CheckView::MissingPort,
            EndpointCheck::InvalidPort => CheckView::InvalidPort,
            EndpointCheck::IpEndpoint => CheckView::IpEndpoint,
            EndpointCheck::LocalhostEndpoint => CheckView::LocalhostEndpoint,
            EndpointCheck::Valid { scheme, host, port } => CheckView::Valid {
                scheme: scheme@,
                host: host@,
                port,
            },
        }
    }
}

/// Whether a text begins with `https://` or `http://`.
pub open spec fn has_known_scheme(ep: Seq<char>) -> bool {
    "https://"@.is_prefix_of(ep) || "http://"@.is_prefix_of(ep)
}

/// An endpoint without `https://` or `http://`.
pub open spec fn without_http_scheme(ep: Seq<char>) -> Seq<char> {
    if "https://"@.is_prefix_of(ep) {
        ep.skip("https://"@.len() as int)
    } else if "http://"@.is_prefix_of(ep) {
        ep.skip("http://"@.len() as int)
    } else {
        ep
    }
}

/// Where the port of an endpoint without scheme is parted from the host: at the last colon. The
/// colons of a host in brackets part nothing.
pub open spec fn separator(stripped: Seq<char>) -> Option<int> {
    match (last_index(stripped, ':'), first_index(stripped, ']')) {
        (Some(i), Some(end)) => if stripped[0] == '[' && i < end {
            None
        } else {
            Some(i)
        },
        (found, _) => found,
    }
}

/// The host of an endpoint without scheme: what stands before the port, or the whole where there
/// is none, without brackets around it.
pub open spec fn host_of(stripped: Seq<char>) -> Seq<char> {
    match separator(stripped) {
        Some(i) => trim_end(trim_start(stripped.take(i), '['), ']'),
        None => if stripped.len() > 0 && stripped[0] == '[' {
            trim_end(trim_start(stripped, '['), ']')
        } else {
            stripped
        },
    }
}

/// Whether a host is an IP address or `localhost`.
pub open spec fn ip_or_localhost(host: Seq<char>) -> bool {
    crate::rpc::ip::is_ip(host) || host == "localhost"@
}

/// Whether `at` is the first place where a pattern stands in a text.
pub open spec fn first_occurs_at(s: Seq<char>, p: Seq<char>, at: int) -> bool {
    occurs_at(s, p, at) && forall|j: int| 0 <= j < at ==> !#[trigger] occurs_at(s, p, j)
}

/// Whether the check of an endpoint gives the result.
pub open spec fn is_check_of(ep: Seq<char>, r: CheckView) -> bool {
    let stripped = without_http_scheme(ep);
    if forall|at: int| !#[trigger] occurs_at(ep, "://"@, at) {
        r == CheckView::MissingScheme
    } else if !has_known_scheme(ep) {
        r matches CheckView::UnknownScheme(scheme) && exists|at: int| #[trigger]
            first_occurs_at(ep, "://"@, at) && scheme == ep.take(at)
    } else {
        match separator(stripped) {
            None => r == CheckView::MissingPort,
            Some(i) => match parse_unsigned(stripped.skip(i + 1), 65535) {
                Err(_) => r == CheckView::InvalidPort,
                Ok(port) => {
                    let host = host_of(stripped);
                    if crate::rpc::ip::is_ip(host) {
                        r == CheckView::IpEndpoint
                    } else if host == "localhost"@ {
                        r == CheckView::LocalhostEndpoint
                    } else {
                        r == CheckView::Valid {
                            scheme: if "https://"@.is_prefix_of(ep) {
                                "https"@
                            } else {
                                "http"@
                            },
                            host,
                            port: port as u16,
                        }
                    }
                },
            },
        }
    }
}

/// Where the port of an endpoint without scheme is parted from the host.
fn find_separator(chars: &Vec<char>) -> (r: Option<usize>)
    ensures
        match r {
            Some(at) => separator(chars@) == Some(at as int) && at < chars.len(),
            None => separator(chars@) is None,
        },
{
    let colon = find_last_char(chars, ':');
    let close = find_char(chars, ']', 0);
    proof {
        lemma_last_index(
            chars@,
            ':',
            match colon {
                Some(at) => at as int,
                None => -1,
            },
        );
        lemma_first_index(
            chars@,
            ']',
            match close {
                Some(at) => at as int,
                None => chars@.len() as int,
            },
        );
    }
    match (colon, close) {
        (Some(at), Some(end)) => if chars[0] == '[' && at < end {
            None
        } else {
            Some(at)
        },
        (found, _) => found,
    }
}

/// Checks the form of an endpoint.
pub fn parse_endpoint_parts(ep: &str) -> (r: EndpointCheck)
    ensures
        is_check_of(ep@, r@),
{
    let chars = chars_of(ep);
    let mark = chars_of("://");
    let at = match find_pattern(&chars, &mark) {
        None => {
            return EndpointCheck::MissingScheme;
        },
        Some(at) => at,
    };
    assert(occurs_at(ep@, "://"@, at as int));
    let is_https = starts_with(ep, "https://");
    let is_http = starts_with(ep, "http://");
    if !is_https && !is_http {
        let scheme = ep.substring_char(0, at);
        assert(scheme@ =~= ep@.take(at as int));
        assert(first_occurs_at(ep@, "://"@, at as int));
        return EndpointCheck::UnknownScheme(scheme.to_owned());
    }
    let stripped = strip_http_scheme(ep);
    let inner = chars_of(stripped);
    match find_separator(&inner) {
        None => EndpointCheck::MissingPort,
        Some(i) => {
            proof {
                assert(inner@.subrange(0, i as int) =~= stripped@.take(i as int));
                assert(inner@.subrange(i + 1, inner@.len() as int) =~= stripped@.skip(i + 1));
            }
            let port = match parse_u64_in(&inner, i + 1, inner.len(), 65535) {
                Err(_) => {
                    return EndpointCheck::InvalidPort;
                },
                Ok(port) => port,
            };
            let (from, to) = trim_range(&inner, 0, i, '[', ']');
            let host = stripped.substring_char(from, to);
            if is_ip_address(host) {
                return EndpointCheck::IpEndpoint;
            }
            if same_text(host, "localhost") {
                return EndpointCheck::LocalhostEndpoint;
            }
            let scheme = if is_https {
                String::from_str("https")
            } else {
                String::from_str("http")
            };
            EndpointCheck::Valid { scheme, host: host.to_owned(), port: port as u16 }
        },
    }
}

/// An endpoint without `https://` or `http://`.
fn strip_http_scheme(ep: &str) -> (r: &str)
    ensures
        r@ == without_http_scheme(ep@),
{
    if let Some(rest) = strip_prefix(ep, "https://") {
        return rest;
    }
    if let Some(rest) = strip_prefix(ep, "http://") {
        return rest;
    }
    ep
}

/// Whether a host is an IP address or `localhost`.
pub fn is_ip_or_localhost(host: &str) -> (r: bool)
    ensures
        r == ip_or_localhost(host@),
{
    is_ip_address(host) || same_text(host, "localhost")
}

/// Whether the host of one of the endpoints is an IP address or `localhost`.
pub fn endpoints_have_ip_or_localhost(endpoints: &[String]) -> (r: bool)
    ensures
        r == exists|i: int|
            0 <= i < endpoints@.len() && ip_or_localhost(
                host_of(without_http_scheme((#[trigger] endpoints@[i])@)),
            ),
{
    let mut i: usize = 0;
    while i < endpoints.len()
        invariant
            i <= endpoints@.len(),
            forall|j: int|
                0 <= j < i ==> !ip_or_localhost(
                    host_of(without_http_scheme((#[trigger] endpoints@[j])@)),
                ),
        decreases endpoints@.len() - i,
    {
        let stripped = strip_http_scheme(endpoints[i].as_str());
        let inner = chars_of(stripped);
        let end: usize = match find_separator(&inner) {
            Some(at) => at,
            None => inner.len(),
        };
        let whole = end == inner.len() && (end == 0 || inner[0] != '[');
        let (from, to) = if whole {
            (0, end)
        } else {
            trim_range(&inner, 0, end, '[', ']')
        };
        let host = stripped.substring_char(from, to);
        proof {
            assert(inner@.subrange(0, end as int) =~= stripped@.take(end as int));
            assert(stripped@.take(inner@.len() as int) =~= stripped@);
        }
        assert(host@ == host_of(without_http_scheme(endpoints@[i as int]@)));
        if is_ip_or_localhost(host) {
            return true;
        }
        i = i + 1;
    }
    false
}

/// Whether the value of a variable switches the connection cache on.
pub fn curp_cache_enabled_from_env_value(value: Option<&str>) -> (r: bool)
    ensures
        r == (match value {
            Some(text) => text@ == "1"@ || text@ == "true"@,
            None => false,
        }),
{
    match value {
        Some(text) => same_text(text, "1") || same_text(text, "true"),
        None => false,
    }
}

/// Where the switch of the connection cache comes from.
pub fn cache_source_label(env_enabled: bool, cli_flag: bool) -> (r: Option<&'static str>)
    ensures
        match r {
            Some(label) => (env_enabled || cli_flag) && label@ == (if env_enabled && cli_flag {
                "env + CLI flag"@
            } else if env_enabled {
                "env var"@
            } else {
                "CLI flag"@
            }),
            None => !env_enabled && !cli_flag,
        },
{
    match (env_enabled, cli_flag) {
        (true, true) => Some("env + CLI flag"),
        (true, false) => Some("env var"),
        (false, true) => Some("CLI flag"),
        (false, false) => None,
    }
}

/// Whether a log filter is set.
pub fn rust_log_enabled_from_env_value(value: Option<&str>) -> (r: bool)
    ensures
        r == value is Some,
{
    value.is_some()
}

/// What is found of a certificate file.
#[derive(Debug, Clone, PartialEq, Eq)]
pub enum CaStatus {
    /// The file has that many bytes.
    Found(u64),
    /// The file is empty.
    Empty,
    /// There is no such file.
    NotFound,
    /// The file cannot be examined.
    MetadataError(String),
}

/// What is found of a certificate file, given whether it exists and its size or
/// why the size cannot be had.
pub fn check_ca_path_status(exists: bool, size: Result<u64, String>) -> (r: CaStatus)
    ensures
        r == (if !exists {
            CaStatus::NotFound
        } else {
            match size {
                Ok(0) => CaStatus::Empty,
                Ok(n) => CaStatus::Found(n),
                Err(why) => CaStatus::MetadataError(why),
            }
        }),
{
    if !exists {
        return CaStatus::NotFound;
    }
    match size {
        Ok(n) => if n == 0 {
            CaStatus::Empty
        } else {
            CaStatus::Found(n)
        },
        Err(why) => CaStatus::MetadataError(why),
    }
}

/// What the checks have found so far: lines for a reader, and how many failures
/// and warnings there were.
#[derive(Debug, Clone)]
pub struct Report {
    pub lines: Vec<String>,
    pub critical: u32,
    pub warnings: u32,
}

/// A report with its lines as sequences of characters.
pub struct ReportView {
    pub lines: Seq<Seq<char>>,
    pub critical: int,
    pub warnings: int,
}

impl View for Report {
    type V = ReportView;

    open spec fn view(&self) -> ReportView {
        ReportView {
            lines: texts(self.lines@),
            critical: self.critical as int,
            warnings: self.warnings as int,
        }
    }
}

impl ReportView {
    /// The report with more lines, failures and warnings.
    pub open spec fn and(self, lines: Seq<Seq<char>>, critical: int, warnings: int) -> ReportView {
        ReportView {
            lines: self.lines + lines,
            critical: self.critical + critical,
            warnings: self.warnings + warnings,
        }
    }
}

impl Report {
    /// The report of no checks.
    pub fn new() -> (r: Report)
        ensures
            r@ == (ReportView { lines: Seq::empty(), critical: 0, warnings: 0 }),
    {
        let r = Report { lines: Vec::new(), critical: 0, warnings: 0 };
        assert(texts(r.lines@) =~= Seq::empty());
        r
    }

    /// Adds a line.
    pub fn say(&mut self, line: &str)
        ensures
            final(self)@ == old(self)@.and(seq![line@], 0, 0),
    {
        let ghost before = texts(self.lines@);
        self.lines.push(line.to_owned());
        assert(texts(self.lines@) =~= before + seq![line@]);
    }

    /// Adds a line made of two texts.
    fn say_two(&mut self, label: &str, detail: &str)
        ensures
            final(self)@ == old(self)@.and(seq![label@ + detail@], 0, 0),
    {
        let mut line = String::from_str(label);
        line.append(detail);
        self.say(line.as_str());
    }
}

/// The lines on an endpoint.
pub open spec fn endpoint_lines(ep: Seq<char>, check: CheckView) -> Seq<Seq<char>> {
    match check {
        CheckView::MissingScheme => seq![
            "  ❌ "@ + ep,
            "     Missing scheme (https:// or http://)"@,
        ],
        CheckView::UnknownScheme(_) => seq![
            "  ❌ "@ + ep,
            "     Unknown scheme — expected https:// or http://"@,
        ],
        CheckView::MissingPort => seq![
            "     ❌ Missing port number"@,
            "        Hint: Use 'host:port' format, e.g., 'https://server0:2379'"@,
        ],
        CheckView::InvalidPort => seq!["     ❌ Invalid port number"@],
        CheckView::IpEndpoint => seq![
            "     ❌ IP address endpoint — not supported by QUIC SNI routing"@,
            "        Use DNS server names instead (e.g., server0, server1, server2)"@,
            "        Map in /etc/hosts: echo '127.0.0.1 server0 server1 server2' >> /etc/hosts"@,
        ],
        CheckView::LocalhostEndpoint => seq![
            "     ❌ 'localhost' endpoint — not supported by QUIC SNI routing"@,
            "        Use DNS server names instead (e.g., server0, server1, server2)"@,
        ],
        CheckView::Valid { scheme, host, port } => if scheme == "http"@ {
            seq![
                "  ⚠️  "@ + ep,
                "     Uses http:// (plaintext) — traffic is not encrypted"@,
            ]
        } else {
            seq!["  ✅ "@ + ep]
        },
    }
}

/// Checks an endpoint. Where its form is right, the host and the port are given
/// back, for the host name to be resolved.
pub fn check_endpoint(ep: &str, report: &mut Report) -> (r: Option<(String, u16)>)
    requires
        old(report).critical < u32::MAX,
        old(report).warnings < u32::MAX,
    ensures
        exists|check: CheckView| #[trigger]
            is_check_of(ep@, check) && final(report)@ == old(report)@.and(
                endpoint_lines(ep@, check),
                if check is Valid {
                    0
                } else {
                    1
                },
                if check is Valid && check->scheme == "http"@ {
                    1
                } else {
                    0
                },
            ) && match check {
                CheckView::Valid { scheme, host, port } => r matches Some(pair) && pair.0@ == host
                    && pair.1 == port,
                _ => r is None,
            },
{
    let check = parse_endpoint_parts(ep);
    let ghost before = report@;
    assert(is_check_of(ep@, check@));
    let r = match check {
        EndpointCheck::MissingScheme => {
            report.say_two("  ❌ ", ep);
            report.say("     Missing scheme (https:// or http://)");
            report.critical = report.critical + 1;
            None
        },
        EndpointCheck::UnknownScheme(_) => {
            report.say_two("  ❌ ", ep);
            report.say("     Unknown scheme — expected https:// or http://");
            report.critical = report.critical + 1;
            None
        },
        EndpointCheck::MissingPort => {
            report.say("     ❌ Missing port number");
            report.say("        Hint: Use 'host:port' format, e.g., 'https://server0:2379'");
            report.critical = report.critical + 1;
            None
        },
        EndpointCheck::InvalidPort => {
            report.say("     ❌ Invalid port number");
            report.critical = report.critical + 1;
            None
        },
        EndpointCheck::IpEndpoint => {
            report.say("     ❌ IP address endpoint — not supported by QUIC SNI routing");
            report.say("        Use DNS server names instead (e.g., server0, server1, server2)");
            report.say(
                "        Map in /etc/hosts: echo '127.0.0.1 server0 server1 server2' >> /etc/hosts",
            );
            report.critical = report.critical + 1;
            None
        },
        EndpointCheck::LocalhostEndpoint => {
            report.say("     ❌ 'localhost' endpoint — not supported by QUIC SNI routing");
            report.say("        Use DNS server names instead (e.g., server0, server1, server2)");
            report.critical = report.critical + 1;
            None
        },
        EndpointCheck::Valid { scheme, host, port } => {
            if same_text(scheme.as_str(), "http") {
                report.say_two("  ⚠️  ", ep);
                report.say("     Uses http:// (plaintext) — traffic is not encrypted");
                report.warnings = report.warnings + 1;
            } else {
                report.say_two("  ✅ ", ep);
            }
            Some((host, port))
        },
    };
    assert(report@.lines =~= before.lines + endpoint_lines(ep@, check@));
    r
}

/// What a look-up of a host says: nothing if there is an address, or else why
/// the host has none.
pub fn check_dns(reply: &Result<Option<String>, String>) -> (r: Result<(), String>)
    ensures
        match reply {
            Ok(Some(_)) => r is Ok,
            Ok(None) => r matches Err(why) && why@ == "DNS lookup returned no addresses"@,
            Err(e) => r matches Err(why) && why == e,
        },
{
    match reply {
        Ok(Some(_)) => Ok(()),
        Ok(None) => Err(String::from_str("DNS lookup returned no addresses")),
        Err(e) => Err(e.clone()),
    }
}

/// The lines on the look-up of a host.
pub open spec fn dns_lines(host: Seq<char>, reply: Result<Option<String>, String>) -> Seq<
    Seq<char>,
> {
    match reply {
        Ok(Some(addr)) => seq!["     ✅ DNS resolves to "@ + addr@],
        Ok(None) => seq![
            "     ❌ DNS lookup failed: "@ + "DNS lookup returned no addresses"@,
            "        Hint: Check /etc/hosts or DNS for '"@ + host + "'"@,
        ],
        Err(e) => seq![
            "     ❌ DNS lookup failed: "@ + e@,
            "        Hint: Check /etc/hosts or DNS for '"@ + host + "'"@,
        ],
    }
}

/// Reports what the look-up of the host of an endpoint gave: its first address,
/// if there is one, or the text of the failure.
pub fn check_endpoint_dns(host: &str, reply: Result<Option<String>, String>, report: &mut Report)
    requires
        old(report).critical < u32::MAX,
    ensures
        final(report)@ == old(report)@.and(
            dns_lines(host@, reply),
            if reply matches Ok(Some(_)) {
                0
            } else {
                1
            },
            0,
        ),
{
    let ghost before = report@;
    match check_dns(&reply) {
        Ok(()) => {
            if let Ok(Some(addr)) = &reply {
                report.say_two("     ✅ DNS resolves to ", addr.as_str());
            }
        },
        Err(why) => {
            report.say_two("     ❌ DNS lookup failed: ", why.as_str());
            let mut hint = String::from_str("        Hint: Check /etc/hosts or DNS for '");
            hint.append(host);
            hint.append("'");
            report.say(hint.as_str());
            report.critical = report.critical + 1;
        },
    }
    assert(report@.lines =~= before.lines + dns_lines(host@, reply));
}

/// Which certificate file is used.
#[derive(Debug, Clone)]
pub enum CaFile {
    /// A file that was named, and what is found of it.
    Named { path: String, status: CaStatus },
    /// The development file, if it exists.
    Development { path: String, exists: bool },
}

/// The lines on the certificate file.
pub open spec fn tls_lines(ca: CaFile) -> Seq<Seq<char>> {
    match ca {
        CaFile::Named { path, status } => match status {
            CaStatus::Found(len) => seq![
                "  ✅ CA file exists: "@ + path@ + " ("@ + dec_nat(len as nat) + " bytes)"@,
            ],
            CaStatus::Empty => seq!["  ❌ CA file is empty: "@ + path@],
            CaStatus::NotFound => seq![
                "  ❌ CA file not found: "@ + path@,
                "     Hint: Provide a valid path with --ca_cert_pem_path"@,
            ],
            CaStatus::MetadataError(e) => seq!["  ❌ Cannot read CA file: "@ + e@],
        },
        CaFile::Development { path, exists } => if exists {
            seq!["  ✅ Using development fixture CA: "@ + path@]
        } else {
            seq![
                "  ⚠️  No CA certificate configured"@,
                "     An empty RootCertStore will be used — all connections fail with UnknownIssuer"@,
                "     Hint: Use --ca_cert_pem_path <PATH> to specify the CA certificate"@,
            ]
        },
    }
}

/// Checks the certificate file: one that was named must be there and hold
/// something; without one there is a warning.
pub fn check_tls(ca: &CaFile, report: &mut Report)
    requires
        old(report).critical < u32::MAX,
        old(report).warnings < u32::MAX,
    ensures
        final(report)@ == old(report)@.and(
            tls_lines(*ca),
            if *ca matches CaFile::Named { status, .. } && !(status is Found) {
                1
            } else {
                0
            },
            if *ca matches CaFile::Development { exists, .. } && !exists {
                1
            } else {
                0
            },
        ),
{
    let ghost before = report@;
    match ca {
        CaFile::Named { path, status } => match status {
            CaStatus::Found(len) => {
                let mut line = String::from_str("  ✅ CA file exists: ");
                line.append(path.as_str());
                line.append(" (");
                line.append(u64_text(*len).as_str());
                line.append(" bytes)");
                report.say(line.as_str());
            },
            CaStatus::Empty => {
                report.say_two("  ❌ CA file is empty: ", path.as_str());
                report.critical = report.critical + 1;
            },
            CaStatus::NotFound => {
                report.say_two("  ❌ CA file not found: ", path.as_str());
                report.say("     Hint: Provide a valid path with --ca_cert_pem_path");
                report.critical = report.critical + 1;
            },
            CaStatus::MetadataError(e) => {
                report.say_two("  ❌ Cannot read CA file: ", e.as_str());
                report.critical = report.critical + 1;
            },
        },
        CaFile::Development { path, exists } => {
            if *exists {
                report.say_two("  ✅ Using development fixture CA: ", path.as_str());
            } else {
                report.say("  ⚠️  No CA certificate configured");
                report.say(
                    "     An empty RootCertStore will be used — all connections fail with UnknownIssuer",
                );
                report.say(
                    "     Hint: Use --ca_cert_pem_path <PATH> to specify the CA certificate",
                );
                report.warnings = report.warnings + 1;
            }
        },
    }
    assert(report@.lines =~= before.lines + tls_lines(*ca));
}

/// Whether the host of one of the endpoints is an IP address or `localhost`.
pub open spec fn some_ip_or_localhost(endpoints: Seq<String>) -> bool {
    exists|i: int|
        0 <= i < endpoints.len() && ip_or_localhost(
            host_of(without_http_scheme((#[trigger] endpoints[i])@)),
        )
}

/// The lines on routing by server name.
pub open spec fn sni_lines(bad: bool) -> Seq<Seq<char>> {
    if bad {
        seq![
            "  ⚠️  IP/localhost endpoints detected — QUIC SNI routing will fail"@,
            "     Xline uses the endpoint hostname as TLS SNI to route connections."@,
            "     IP addresses can only be registered by one server."@,
            "     Use DNS names (server0, server1, server2) with /etc/hosts mapping."@,
        ]
    } else {
        seq!["  ✅ All endpoints use DNS names (compatible with SNI routing)"@]
    }
}

/// Checks that all endpoints can be routed by server name.
pub fn check_sni_routing(endpoints: &[String], report: &mut Report)
    requires
        old(report).warnings < u32::MAX,
    ensures
        final(report)@ == old(report)@.and(
            sni_lines(some_ip_or_localhost(endpoints@)),
            0,
            if some_ip_or_localhost(endpoints@) {
                1
            } else {
                0
            },
        ),
{
    let ghost before = report@;
    if endpoints_have_ip_or_localhost(endpoints) {
        report.say("  ⚠️  IP/localhost endpoints detected — QUIC SNI routing will fail");
        report.say("     Xline uses the endpoint hostname as TLS SNI to route connections.");
        report.say("     IP addresses can only be registered by one server.");
        report.say("     Use DNS names (server0, server1, server2) with /etc/hosts mapping.");
        report.warnings = report.warnings + 1;
    } else {
        report.say("  ✅ All endpoints use DNS names (compatible with SNI routing)");
    }
    assert(report@.lines =~= before.lines + sni_lines(some_ip_or_localhost(endpoints@)));
}

/// The line on the connection cache.
pub open spec fn cache_line(env_enabled: bool, cli_flag: bool) -> Seq<char> {
    if env_enabled || cli_flag {
        "  ℹ️  CURP connection cache enabled ("@ + (if env_enabled && cli_flag {
            "env + CLI flag"@
        } else if env_enabled {
            "env var"@
        } else {
            "CLI flag"@
        }) + ") — experimental"@
    } else {
        "  ℹ️  CURP connection cache disabled (use --experimental-curp-connection-cache or XLINE_CURP_CONN_CACHE=1 to enable)"@
    }
}

/// Whether a variable switches the connection cache on.
pub open spec fn switched_on(value: Option<String>) -> bool {
    value matches Some(text) && (text@ == "1"@ || text@ == "true"@)
}

/// The lines on experimental features.
pub open spec fn feature_lines(cache_var: Option<String>, rust_log: Option<String>, cli: bool) -> Seq<
    Seq<char>,
> {
    let first = seq![cache_line(switched_on(cache_var), cli)];
    match rust_log {
        Some(filter) => first.push("  ℹ️  RUST_LOG="@ + filter@ + " (debug logging enabled)"@),
        None => first,
    }
}

/// Reports the experimental features that are on, given the values of the
/// variables `XLINE_CURP_CONN_CACHE` and `RUST_LOG`.
pub fn check_experimental_features(
    cache_var: &Option<String>,
    rust_log: &Option<String>,
    curp_cache_cli_flag: bool,
    report: &mut Report,
)
    requires
        old(report).warnings < u32::MAX,
    ensures
        final(report)@ == old(report)@.and(
            feature_lines(*cache_var, *rust_log, curp_cache_cli_flag),
            0,
            if rust_log is Some {
                1
            } else {
                0
            },
        ),
{
    let ghost before = report@;
    let env_enabled = match cache_var {
        Some(text) => curp_cache_enabled_from_env_value(Some(text.as_str())),
        None => curp_cache_enabled_from_env_value(None),
    };
    match cache_source_label(env_enabled, curp_cache_cli_flag) {
        Some(source) => {
            let mut line = String::from_str("  ℹ️  CURP connection cache enabled (");
            line.append(source);
            line.append(") — experimental");
            report.say(line.as_str());
        },
        None => {
            report.say(
                "  ℹ️  CURP connection cache disabled (use --experimental-curp-connection-cache or XLINE_CURP_CONN_CACHE=1 to enable)",
            );
        },
    }
    if let Some(filter) = rust_log {
        let mut line = String::from_str("  ℹ️  RUST_LOG=");
        line.append(filter.as_str());
        line.append(" (debug logging enabled)");
        report.say(line.as_str());
        report.warnings = report.warnings + 1;
    }
    assert(report@.lines =~= before.lines + feature_lines(
        *cache_var,
        *rust_log,
        curp_cache_cli_flag,
    ));
}

/// The lines at the beginning.
pub open spec fn opening_lines(no_endpoints: bool) -> Seq<Seq<char>> {
    let head = seq![
        "========================================"@,
        "  xlinectl doctor"@,
        "========================================"@,
        ""@,
        "── Endpoint Checks ──"@,
    ];
    if no_endpoints {
        head.push("  ❌ No endpoints provided"@).push(
            "     Hint: Use --endpoints https://server0:2379"@,
        )
    } else {
        head
    }
}

/// Begins a report; that there are no endpoints is a failure.
pub fn open_report(no_endpoints: bool) -> (r: Report)
    ensures
        r@.lines == opening_lines(no_endpoints),
        r@.critical == if no_endpoints {
            1int
        } else {
            0int
        },
        r@.warnings == 0,
{
    let mut r = Report::new();
    r.say("========================================");
    r.say("  xlinectl doctor");
    r.say("========================================");
    r.say("");
    r.say("── Endpoint Checks ──");
    if no_endpoints {
        r.say("  ❌ No endpoints provided");
        r.say("     Hint: Use --endpoints https://server0:2379");
        r.critical = 1;
    }
    assert(r@.lines =~= opening_lines(no_endpoints));
    r
}

/// The lines of the checks that follow those of the endpoints, each group under its title.
pub open spec fn static_lines(
    ca: CaFile,
    endpoints: Seq<String>,
    cache_var: Option<String>,
    rust_log: Option<String>,
    cli: bool,
) -> Seq<Seq<char>> {
    seq![""@, "── TLS Checks ──"@] + tls_lines(ca) + seq![""@, "── SNI Routing Checks ──"@] + sni_lines(
        some_ip_or_localhost(endpoints),
    ) + seq![""@, "── Experimental Features ──"@] + feature_lines(cache_var, rust_log, cli) + seq![
        ""@,
    ]
}

/// Makes the checks that follow those of the endpoints: of the certificate, of the routing and of
/// the features.
pub fn check_statics(
    ca: &CaFile,
    endpoints: &[String],
    cache_var: &Option<String>,
    rust_log: &Option<String>,
    curp_cache_cli_flag: bool,
    report: &mut Report,
)
    requires
        old(report).critical < u32::MAX,
        old(report).warnings < u32::MAX - 2,
    ensures
        final(report)@ == old(report)@.and(
            static_lines(*ca, endpoints@, *cache_var, *rust_log, curp_cache_cli_flag),
            if *ca matches CaFile::Named { status, .. } && !(status is Found) {
                1
            } else {
                0
            },
            (if *ca matches CaFile::Development { exists, .. } && !exists {
                1int
            } else {
                0int
            }) + (if some_ip_or_localhost(endpoints@) {
                1int
            } else {
                0int
            }) + (if rust_log is Some {
                1int
            } else {
                0int
            }),
        ),
{
    let ghost before = report@;
    report.say("");
    report.say("── TLS Checks ──");
    check_tls(ca, report);
    report.say("");
    report.say("── SNI Routing Checks ──");
    check_sni_routing(endpoints, report);
    report.say("");
    report.say("── Experimental Features ──");
    check_experimental_features(cache_var, rust_log, curp_cache_cli_flag, report);
    report.say("");
    assert(report@.lines =~= before.lines + static_lines(
        *ca,
        endpoints@,
        *cache_var,
        *rust_log,
        curp_cache_cli_flag,
    ));
}

/// What is done about the connection check.
#[derive(Debug, Clone, Copy, PartialEq, Eq, Structural)]
pub enum ConnectionCheck {
    /// It was not asked for.
    NotAsked,
    /// A failure makes it useless.
    Skipped,
    /// It is to be made.
    Wanted,
}

/// The lines before the connection check.
pub open spec fn connection_lines(what: ConnectionCheck) -> Seq<Seq<char>> {
    match what {
        ConnectionCheck::NotAsked => Seq::empty(),
        ConnectionCheck::Skipped => seq![
            "── Connection Check ──"@,
            "  ⏭️  Skipped because critical static checks failed"@,
            "     Fix the errors above, then rerun with --check_connection."@,
        ],
        ConnectionCheck::Wanted => seq!["── Connection Check ──"@],
    }
}

/// Decides on the connection check: it is made if it was asked for and nothing
/// has failed.
pub fn plan_connection(asked: bool, report: &mut Report) -> (r: ConnectionCheck)
    ensures
        r == (if !asked {
            ConnectionCheck::NotAsked
        } else if old(report).critical == 0 {
            ConnectionCheck::Wanted
        } else {
            ConnectionCheck::Skipped
        }),
        final(report)@ == old(report)@.and(connection_lines(r), 0, 0),
{
    let ghost before = report@;
    let r = if !asked {
        ConnectionCheck::NotAsked
    } else {
        report.say("── Connection Check ──");
        if report.critical == 0 {
            ConnectionCheck::Wanted
        } else {
            report.say("  ⏭️  Skipped because critical static checks failed");
            report.say("     Fix the errors above, then rerun with --check_connection.");
            ConnectionCheck::Skipped
        }
    };
    assert(report@.lines =~= before.lines + connection_lines(r));
    r
}

/// The lines at the end.
pub open spec fn closing_lines(critical: int, warnings: int) -> Seq<Seq<char>> {
    let rule = "========================================"@;
    if critical == 0 && warnings == 0 {
        seq![rule, "  ✅ All critical checks passed"@, rule]
    } else if critical == 0 {
        seq![
            rule,
            "  ✅ All critical checks passed"@,
            "  ⚠️  "@ + dec_nat(warnings as nat) + " warning(s) — see above"@,
            rule,
        ]
    } else if warnings == 0 {
        seq![rule, "  ❌ "@ + dec_nat(critical as nat) + " critical failure(s)"@, rule]
    } else {
        seq![
            rule,
            "  ❌ "@ + dec_nat(critical as nat) + " critical failure(s)"@,
            "  ⚠️  "@ + dec_nat(warnings as nat) + " warning(s)"@,
            rule,
        ]
    }
}

/// Ends a report. The diagnosis fails if and only if one of its checks failed.
pub fn close_report(report: &mut Report) -> (r: Result<(), String>)
    ensures
        final(report)@ == old(report)@.and(
            closing_lines(old(report).critical as int, old(report).warnings as int),
            0,
            0,
        ),
        old(report).critical == 0 ==> r is Ok,
        old(report).critical > 0 ==> (r matches Err(why) && why@ == dec_nat(
            old(report).critical as nat,
        ) + " critical check(s) failed"@),
{
    let ghost before = report@;
    let critical = report.critical;
    let warnings = report.warnings;
    report.say("========================================");
    if critical == 0 {
        report.say("  ✅ All critical checks passed");
        if warnings > 0 {
            let mut line = String::from_str("  ⚠️  ");
            line.append(u64_text(warnings as u64).as_str());
            line.append(" warning(s) — see above");
            report.say(line.as_str());
        }
        report.say("========================================");
        assert(report@.lines =~= before.lines + closing_lines(critical as int, warnings as int));
        Ok(())
    } else {
        let count = u64_text(critical as u64);
        let mut line = String::from_str("  ❌ ");
        line.append(count.as_str());
        line.append(" critical failure(s)");
        report.say(line.as_str());
        if warnings > 0 {
            let mut line = String::from_str("  ⚠️  ");
            line.append(u64_text(warnings as u64).as_str());
            line.append(" warning(s)");
            report.say(line.as_str());
        }
        report.say("========================================");
        assert(report@.lines =~= before.lines + closing_lines(critical as int, warnings as int));
        Err(count.concat(" critical check(s) failed"))
    }
}

/// What came of reading the certificate for a connection.
#[derive(Debug, Clone)]
pub enum CaBytes {
    /// A certificate was read.
    Read,
    /// The file that was named cannot be read.
    NamedUnreadable(String),
    /// The development file is there and cannot be read.
    DevelopmentUnreadable(String),
    /// There is no certificate.
    Missing,
}

/// The lines before a connection is made.
pub open spec fn preparation_lines(no_endpoints: bool, ca: CaBytes) -> Seq<Seq<char>> {
    if no_endpoints {
        seq!["  ⏭️  Skipped (no endpoints)"@]
    } else {
        match ca {
            CaBytes::Read => Seq::empty(),
            CaBytes::NamedUnreadable(e) => seq!["  ❌ Cannot read CA file: "@ + e@],
            CaBytes::DevelopmentUnreadable(e) => seq!["  ❌ Cannot read default CA: "@ + e@],
            CaBytes::Missing => seq![
                "  ⚠️  No CA configured — connection will likely fail with UnknownIssuer"@,
            ],
        }
    }
}

/// Whether a certificate file that is there could not be read.
pub open spec fn unreadable(ca: CaBytes) -> bool {
    ca is NamedUnreadable || ca is DevelopmentUnreadable
}

/// Decides whether a connection is tried: there must be endpoints, and a
/// certificate file that is there must be readable.
pub fn prepare_connection(no_endpoints: bool, ca: &CaBytes, report: &mut Report) -> (r: bool)
    requires
        old(report).critical < u32::MAX,
    ensures
        r == (!no_endpoints && !unreadable(*ca)),
        final(report)@ == old(report)@.and(
            preparation_lines(no_endpoints, *ca),
            if !no_endpoints && unreadable(*ca) {
                1
            } else {
                0
            },
            0,
        ),
{
    let ghost before = report@;
    let r = if no_endpoints {
        report.say("  ⏭️  Skipped (no endpoints)");
        false
    } else {
        match ca {
            CaBytes::Read => true,
            CaBytes::NamedUnreadable(e) => {
                report.say_two("  ❌ Cannot read CA file: ", e.as_str());
                report.critical = report.critical + 1;
                false
            },
            CaBytes::DevelopmentUnreadable(e) => {
                report.say_two("  ❌ Cannot read default CA: ", e.as_str());
                report.critical = report.critical + 1;
                false
            },
            CaBytes::Missing => {
                report.say(
                    "  ⚠️  No CA configured — connection will likely fail with UnknownIssuer",
                );
                true
            },
        }
    };
    assert(report@.lines =~= before.lines + preparation_lines(no_endpoints, *ca));
    r
}

/// The lines on a connection that was tried.
pub open spec fn outcome_lines(outcome: Result<(), String>) -> Seq<Seq<char>> {
    match outcome {
        Ok(()) => seq!["  ✅ Connection successful"@],
        Err(e) => seq![
            "  ❌ Connection failed: "@ + e@,
            "     Troubleshooting:"@,
            "     1. Verify endpoints are reachable: ping <host>, nc -zu <host> <port>"@,
            "     2. Check /etc/hosts: grep server0 /etc/hosts"@,
            "     3. Verify CA certificate: openssl x509 -in <ca.pem> -noout -subject"@,
            "     4. Check server TLS SANs: openssl x509 -in <server.crt> -noout -ext subjectAltName"@,
            "     5. Enable debug logs: RUST_LOG=xlinerpc=debug xlinectl doctor ..."@,
        ],
    }
}

/// Reports on a connection that was tried; one that failed is a failure.
pub fn report_connection(outcome: &Result<(), String>, report: &mut Report)
    requires
        old(report).critical < u32::MAX,
    ensures
        final(report)@ == old(report)@.and(
            outcome_lines(*outcome),
            if outcome is Err {
                1
            } else {
                0
            },
            0,
        ),
{
    let ghost before = report@;
    match outcome {
        Ok(()) => {
            report.say("  ✅ Connection successful");
        },
        Err(e) => {
            report.say_two("  ❌ Connection failed: ", e.as_str());
            report.say("     Troubleshooting:");
            report.say(
                "     1. Verify endpoints are reachable: ping <host>, nc -zu <host> <port>",
            );
            report.say("     2. Check /etc/hosts: grep server0 /etc/hosts");
            report.say(
                "     3. Verify CA certificate: openssl x509 -in <ca.pem> -noout -subject",
            );
            report.say(
                "     4. Check server TLS SANs: openssl x509 -in <server.crt> -noout -ext subjectAltName",
            );
            report.say("     5. Enable debug logs: RUST_LOG=xlinerpc=debug xlinectl doctor ...");
            report.critical = report.critical + 1;
        },
    }
    assert(report@.lines =~= before.lines + outcome_lines(*outcome));
}

/// The endpoint of a scheme and a rest: the scheme is known and taken away.
proof fn lemma_known_scheme(ep: Seq<char>, scheme: Seq<char>, rest: Seq<char>)
    requires
        scheme == "https"@ || scheme == "http"@,
        ep == scheme + "://"@ + rest,
    ensures
        has_known_scheme(ep),
        without_http_scheme(ep) == rest,
        "https://"@.is_prefix_of(ep) <==> scheme == "https"@,
        occurs_at(ep, "://"@, scheme.len() as int),
{
    reveal_strlit("https://");
    reveal_strlit("http://");
    reveal_strlit("https");
    reveal_strlit("http");
    reveal_strlit("://");
    assert(ep.subrange(scheme.len() as int, scheme.len() as int + 3) =~= "://"@);
    if scheme == "https"@ {
        assert(ep.subrange(0, 8) =~= "https://"@);
        assert(ep.skip(8) =~= rest);
    } else {
        assert(ep.subrange(0, 7) =~= "http://"@);
        assert(ep.skip(7) =~= rest);
        assert(ep[4] == ':');
        if "https://"@.is_prefix_of(ep) {
            assert(ep.subrange(0, 8)[4] == 's');
        }
        assert("https"@.len() != "http"@.len());
    }
}

/// The check of an endpoint of a known scheme, a host and a port goes by the host: an IP address
/// and `localhost` are reported, and any other host is valid, with the parts that the endpoint is
/// made of.
pub proof fn law_host_decides_on_an_endpoint(
    scheme: Seq<char>,
    host: Seq<char>,
    port: u16,
    r: CheckView,
)
    requires
        scheme == "https"@ || scheme == "http"@,
        host.len() > 0 ==> host[0] != '[' && host.last() != ']',
        is_check_of(scheme + "://"@ + (host + seq![':'] + dec_nat(port as nat)), r),
    ensures
        crate::rpc::ip::is_ip(host) ==> r is IpEndpoint,
        !crate::rpc::ip::is_ip(host) && host == "localhost"@ ==> r is LocalhostEndpoint,
        !crate::rpc::ip::is_ip(host) && host != "localhost"@ ==> r == (CheckView::Valid {
            scheme,
            host,
            port,
        }),
{
    let d = dec_nat(port as nat);
    let rest = host + seq![':'] + d;
    lemma_known_scheme(scheme + "://"@ + rest, scheme, rest);
    lemma_port_behind(host, port);
    assert(rest.take(host.len() as int) =~= host);
    assert(rest.skip(host.len() as int + 1) =~= d);
    law_unsigned_reads_back(port as nat, 65535);
    match first_index(rest, ']') {
        Some(end) => {
            if host.len() > 0 {
                assert(rest[0] == host[0]);
            } else {
                assert(rest[0] == ':');
            }
        },
        None => {},
    }
    assert(separator(rest) == Some(host.len() as int));
    assert(trim_start(host, '[') == host);
    assert(trim_end(host, ']') == host);
}

/// The last colon of a host and a port parts them.
proof fn lemma_port_behind(host: Seq<char>, port: u16)
    ensures
        last_index(host + seq![':'] + dec_nat(port as nat), ':') == Some(host.len() as int),
{
    let d = dec_nat(port as nat);
    let rest = host + seq![':'] + d;
    lemma_dec_nat_reads_back(port as nat, 65535, NumberError::TooLarge);
    assert forall|j: int| host.len() < j < rest.len() implies rest[j] != ':' by {
        assert(rest[j] == d[j - host.len() - 1]);
        assert(is_digit(d[j - host.len() - 1]));
    }
    lemma_last_index(rest, ':', host.len() as int);
}

/// A host in brackets is checked without its brackets.
pub proof fn law_brackets_are_no_part_of_the_host(
    scheme: Seq<char>,
    host: Seq<char>,
    port: u16,
    r: CheckView,
)
    requires
        scheme == "https"@ || scheme == "http"@,
        !host.contains(']'),
        host.len() > 0 ==> host[0] != '[',
        is_check_of(
            scheme + "://"@ + (seq!['['] + host + seq![']'] + seq![':'] + dec_nat(port as nat)),
            r,
        ),
    ensures
        crate::rpc::ip::is_ip(host) ==> r is IpEndpoint,
        !crate::rpc::ip::is_ip(host) && host == "localhost"@ ==> r is LocalhostEndpoint,
        !crate::rpc::ip::is_ip(host) && host != "localhost"@ ==> r == (CheckView::Valid {
            scheme,
            host,
            port,
        }),
{
    let d = dec_nat(port as nat);
    let full = seq!['['] + host + seq![']'];
    let rest = full + seq![':'] + d;
    lemma_known_scheme(scheme + "://"@ + rest, scheme, rest);
    lemma_port_behind(full, port);
    let i = full.len() as int;
    assert(rest.take(i) =~= full);
    assert(rest.skip(i + 1) =~= d);
    law_unsigned_reads_back(port as nat, 65535);
    assert forall|j: int| 0 <= j < i - 1 implies rest[j] != ']' by {
        if j > 0 {
            assert(rest[j] == host[j - 1]);
            assert(host.contains(host[j - 1]));
        }
    }
    lemma_first_index(rest, ']', i - 1);
    assert(separator(rest) == Some(i));
    reveal_with_fuel(trim_start, 2);
    reveal_with_fuel(trim_end, 2);
    let open = host + seq![']'];
    assert(full.skip(1) =~= open);
    assert(open.len() > 0 ==> open[0] != '[');
    assert(trim_start(full, '[') == open);
    assert(open.drop_last() =~= host);
    assert(host.len() > 0 ==> host.last() != ']') by {
        if host.len() > 0 {
            assert(host.contains(host.last()));
        }
    }
    assert(trim_end(open, ']') == host);
}

/// An endpoint of a known scheme without a colon behind it has no port, and one of another scheme
/// is reported with that scheme.
pub proof fn law_incomplete_endpoints_are_reported(
    scheme: Seq<char>,
    rest: Seq<char>,
    r: CheckView,
)
    requires
        is_check_of(scheme + "://"@ + rest, r),
        !scheme.contains(':'),
    ensures
        (scheme == "https"@ || scheme == "http"@) && !rest.contains(':') ==> r is MissingPort,
        scheme != "https"@ && scheme != "http"@ ==> r == CheckView::UnknownScheme(scheme),
{
    reveal_strlit("://");
    let ep = scheme + "://"@ + rest;
    let n = scheme.len() as int;
    assert(ep.subrange(n, n + 3) =~= "://"@);
    assert(occurs_at(ep, "://"@, n));
    assert forall|j: int| 0 <= j < n implies !#[trigger] occurs_at(ep, "://"@, j) by {
        if occurs_at(ep, "://"@, j) {
            assert(ep.subrange(j, j + 3)[0] == ':');
            assert(ep[j] == scheme[j]);
            assert(scheme.contains(scheme[j]));
        }
    }
    assert(first_occurs_at(ep, "://"@, n));
    if scheme == "https"@ || scheme == "http"@ {
        lemma_known_scheme(ep, scheme, rest);
        if !rest.contains(':') {
            assert forall|j: int| -1 < j < rest.len() implies rest[j] != ':' by {
                assert(rest.contains(rest[j]));
            }
            lemma_last_index(rest, ':', -1);
        }
    } else {
        lemma_unknown_scheme(ep, scheme, rest);
        let at = choose|at: int| #[trigger]
            first_occurs_at(ep, "://"@, at) && r == CheckView::UnknownScheme(ep.take(at));
        assert(at == n) by {
            if at < n {
                assert(!occurs_at(ep, "://"@, at));
            } else if n < at {
                assert(!occurs_at(ep, "://"@, n));
            }
        }
        assert(ep.take(n) =~= scheme);
    }
}

/// A scheme that is not known.
proof fn lemma_unknown_scheme(ep: Seq<char>, scheme: Seq<char>, rest: Seq<char>)
    requires
        scheme != "https"@,
        scheme != "http"@,
        !scheme.contains(':'),
        ep == scheme + "://"@ + rest,
    ensures
        !has_known_scheme(ep),
{
    reveal_strlit("https://");
    reveal_strlit("http://");
    reveal_strlit("https");
    reveal_strlit("http");
    reveal_strlit("://");
    let n = scheme.len() as int;
    assert(ep[n] == ':');
    if "https://"@.is_prefix_of(ep) {
        let p = ep.subrange(0, 8);
        assert(p =~= "https://"@);
        assert("https://"@[5] == ':');
        assert(p[5] == ep[5]);
        if n > 5 {
            assert(scheme[5] == ':');
            assert(scheme.contains(scheme[5]));
        }
        if n < 5 {
            assert(p[n] == ':');
        }
        assert(scheme =~= "https"@) by {
            assert forall|j: int| 0 <= j < 5 implies scheme[j] == "https"@[j] by {
                assert(p[j] == ep[j]);
            }
        }
    }
    if "http://"@.is_prefix_of(ep) {
        let p = ep.subrange(0, 7);
        assert(p =~= "http://"@);
        assert("http://"@[4] == ':');
        assert(p[4] == ep[4]);
        if n > 4 {
            assert(scheme[4] == ':');
            assert(scheme.contains(scheme[4]));
        }
        if n < 4 {
            assert(p[n] == ':');
        }
        assert(scheme =~= "http"@) by {
            assert forall|j: int| 0 <= j < 4 implies scheme[j] == "http"@[j] by {
                assert(p[j] == ep[j]);
            }
        }
    }
}

/// The host of an endpoint is what stands between its scheme and its port; without a port it is
/// all that stands behind the scheme.
pub proof fn law_host_stands_before_the_port(scheme: Seq<char>, host: Seq<char>, port: u16)
    requires
        scheme == "https"@ || scheme == "http"@,
        host.len() > 0 ==> host[0] != '[' && host.last() != ']',
    ensures
        host_of(
            without_http_scheme(scheme + "://"@ + (host + seq![':'] + dec_nat(port as nat))),
        ) == host,
        !host.contains(':') ==> host_of(without_http_scheme(scheme + "://"@ + host)) == host,
{
    let d = dec_nat(port as nat);
    let rest = host + seq![':'] + d;
    lemma_known_scheme(scheme + "://"@ + rest, scheme, rest);
    lemma_known_scheme(scheme + "://"@ + host, scheme, host);
    lemma_port_behind(host, port);
    assert(rest.take(host.len() as int) =~= host);
    if host.len() > 0 {
        assert(rest[0] == host[0]);
    } else {
        assert(rest[0] == ':');
    }
    assert(separator(rest) == Some(host.len() as int));
    assert(trim_start(host, '[') == host);
    assert(trim_end(host, ']') == host);
    if !host.contains(':') {
        assert forall|j: int| -1 < j < host.len() implies host[j] != ':' by {
            assert(host.contains(host[j]));
        }
        lemma_last_index(host, ':', -1);
    }
}

/// Some host is an IP address or `localhost` where one of the endpoints has such a host, whichever
/// it is.
pub proof fn law_one_such_host_is_enough(endpoints: Seq<String>, i: int)
    ensures
        0 <= i < endpoints.len() && (crate::rpc::ip::is_ip(
            host_of(without_http_scheme(endpoints[i]@)),
        ) || host_of(without_http_scheme(endpoints[i]@)) == "localhost"@) ==> some_ip_or_localhost(
            endpoints,
        ),
        some_ip_or_localhost(endpoints) ==> exists|j: int|
            0 <= j < endpoints.len() && (crate::rpc::ip::is_ip(
                host_of(without_http_scheme((#[trigger] endpoints[j])@)),
            ) || host_of(without_http_scheme(endpoints[j]@)) == "localhost"@),
{
}

/// The report of an endpoint names it where it is not understood or valid, and marks what fails
/// and what is to be looked at; every failure has a line, and a valid endpoint over a secured
/// connection has one line alone.
pub proof fn law_endpoint_reports_name_the_endpoint(ep: Seq<char>, check: CheckView)
    ensures
        check is MissingScheme || check is UnknownScheme ==> endpoint_lines(ep, check)[0]
            == "  ❌ "@ + ep,
        check matches CheckView::Valid { scheme, .. } ==> (scheme == "http"@ ==> endpoint_lines(
            ep,
            check,
        )[0] == "  ⚠️  "@ + ep && endpoint_lines(ep, check).len() == 2),
        check matches CheckView::Valid { scheme, .. } ==> (scheme != "http"@ ==> endpoint_lines(
            ep,
            check,
        ) == seq!["  ✅ "@ + ep]),
        endpoint_lines(ep, check).len() > 0,
{
}

/// The end of a report tells how many checks failed and how many warnings there were, where there
/// were any, and that all passed where none failed.
pub proof fn law_report_ends_with_the_counts(critical: int, warnings: int)
    requires
        critical >= 0,
        warnings >= 0,
    ensures
        critical == 0 ==> closing_lines(critical, warnings)[1]
            == "  ✅ All critical checks passed"@,
        critical > 0 ==> closing_lines(critical, warnings)[1] == "  ❌ "@ + dec_nat(
            critical as nat,
        ) + " critical failure(s)"@,
        warnings > 0 ==> closing_lines(critical, warnings).len() == 4 && ("  ⚠️  "@ + dec_nat(
            warnings as nat,
        )).is_prefix_of(closing_lines(critical, warnings)[2]),
        warnings == 0 ==> closing_lines(critical, warnings).len() == 3,
{
    let told = "  ⚠️  "@ + dec_nat(warnings as nat);
    let line = closing_lines(critical, warnings)[2];
    if warnings > 0 {
        assert(told =~= line.subrange(0, told.len() as int));
    }
}

/// What a report says of a host names the address that was found, or else why none was and the
/// host; and the host alone makes no other difference.
pub proof fn law_look_ups_are_reported(
    host: Seq<char>,
    other: Seq<char>,
    reply: Result<Option<String>, String>,
)
    ensures
        reply matches Ok(Some(addr)) ==> dns_lines(host, reply).len() == 1 && addr@.is_suffix_of(
            dns_lines(host, reply)[0],
        ),
        !(reply matches Ok(Some(_))) ==> dns_lines(host, reply).len() == 2 && (host
            + "'"@).is_suffix_of(dns_lines(host, reply)[1]),
        reply matches Err(why) ==> why@.is_suffix_of(dns_lines(host, reply)[0]),
        dns_lines(host, reply)[0] == dns_lines(other, reply)[0],
{
    if let Ok(Some(addr)) = reply {
        let line = dns_lines(host, reply)[0];
        assert(addr@ =~= line.subrange(line.len() - addr@.len(), line.len() as int));
    } else {
        let line = dns_lines(host, reply)[1];
        let end = host + "'"@;
        assert(end =~= line.subrange(line.len() - end.len(), line.len() as int));
        if let Err(why) = reply {
            let first = dns_lines(host, reply)[0];
            assert(why@ =~= first.subrange(first.len() - why@.len(), first.len() as int));
        }
    }
}

/// What a report says of a certificate file that is named and not usable ends with its path, or
/// with why it could not be read; one that is there is told with its path and its length.
pub proof fn law_certificates_are_reported(path: String, status: CaStatus)
    ensures
        ({
            let lines = tls_lines(CaFile::Named { path, status });
            match status {
                CaStatus::Found(len) => lines.len() == 1 && (path@ + " ("@ + dec_nat(len as nat)
                    + " bytes)"@).is_suffix_of(lines[0]),
                CaStatus::Empty => lines.len() == 1 && path@.is_suffix_of(lines[0]),
                CaStatus::NotFound => lines.len() == 2 && path@.is_suffix_of(lines[0]),
                CaStatus::MetadataError(why) => lines.len() == 1 && why@.is_suffix_of(lines[0]),
            }
        }),
        tls_lines(CaFile::Development { path, exists: true }).len() == 1,
        path@.is_suffix_of(tls_lines(CaFile::Development { path, exists: true })[0]),
        tls_lines(CaFile::Development { path, exists: false }).len() == 3,
{
    let line = tls_lines(CaFile::Named { path, status })[0];
    let end = match status {
        CaStatus::Found(len) => path@ + " ("@ + dec_nat(len as nat) + " bytes)"@,
        CaStatus::MetadataError(why) => why@,
        _ => path@,
    };
    assert(end =~= line.subrange(line.len() - end.len(), line.len() as int));
    let other = tls_lines(CaFile::Development { path, exists: true })[0];
    assert(path@ =~= other.subrange(other.len() - path@.len(), other.len() as int));
}

} // verus!
