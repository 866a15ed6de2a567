//! The entry point: a daemon, and the questions that can be put to the daemon itself.
use vstd::prelude::*;

use crate::address::{default_port, is_opaque, is_parsable, is_printable, is_relative_scheme};
use crate::address::{is_simple_host, law_opaque_is_parsable, law_opaque_url_comes_apart};
use crate::address::{law_simple_address_is_parsable, network_address, network_parts, opaque_parts};
use crate::address::{parse_url, parsed_url, Host, HostView, SchemeData, SchemeDataView, Url};
use crate::address::{UrlView, HTTPS_PORT};
use crate::container::{Containers, ContainersView};
use crate::image::{Images, ImagesView};
use crate::laws::law_decimal_is_injective;
use crate::text::{concat, decimal, join_query, optional_text, with_query};
use crate::transport::{Body, Method, Request, TlsFiles, TlsFilesView, Transport, TransportView};

verus! {

/// Why no daemon can be reached at an address.
#[derive(Debug, PartialEq, Eq)]
pub enum AddressError {
    /// The address is no URL.
    Invalid,
    /// The URL parser cannot be given the address.
    Unsupported,
}

/// Entrypoint interface for communicating with docker daemon
pub struct Docker {
    transport: Transport,
}

impl View for Docker {
    type V = TransportView;

    closed spec fn view(&self) -> TransportView {
        self.transport@
    }
}

/// The files that TLS is set up from, for certificates that stand in the directory `certs`.
pub open spec fn tls_files(certs: Seq<char>, verify: bool) -> TlsFilesView {
    TlsFilesView {
        cert: certs + "/cert.pem"@,
        key: certs + "/key.pem"@,
        ca: if verify {
            Some(certs + "/ca.pem"@)
        } else {
            None
        },
    }
}

/// The way to the daemon that listens at `host`: a unix domain socket where the scheme says so,
/// and a TCP connection in every other case, with TLS where there is a directory of certificates.
pub open spec fn transport_to(
    host: UrlView,
    certs: Option<Seq<char>>,
    verify: bool,
) -> TransportView {
    if host.scheme == "unix"@ {
        TransportView::Unix { path: host.domain() }
    } else {
        TransportView::Tcp {
            host: "https:"@ + host.domain(),
            tls: match certs {
                Some(certs) => Some(tls_files(certs, verify)),
                None => None,
            },
        }
    }
}

/// Where the daemon listens when nothing says otherwise.
pub open spec fn default_host() -> Seq<char> {
    "unix:///var/run/docker.sock"@
}

/// Where the daemon listens: at the given address, or else at the default one.
pub open spec fn host_or_default(docker_host: Option<&str>) -> Seq<char> {
    match docker_host {
        Some(docker_host) => docker_host@,
        None => default_host(),
    }
}

/// `unix:` and a path lead to the unix domain socket at that path, whatever certificates there
/// are.
pub proof fn law_unix_host(path: Seq<char>, certs: Option<Seq<char>>, verify: bool)
    requires
        is_printable(path),
    ensures
        is_parsable("unix:"@ + path),
        is_opaque("unix:"@ + path),
        transport_to(opaque_parts("unix:"@ + path), certs, verify) == (TransportView::Unix {
            path,
        }),
{
    reveal_strlit("unix");
    reveal_strlit("unix:");
    reveal_strlit(":");
    reveal_relative_schemes();
    assert("unix:"@ + path =~= "unix"@ + ":"@ + path);
    law_opaque_url_comes_apart("unix"@, path);
}

/// `tcp:` and an address lead to that address by `https:`, with TLS where there are certificates.
pub proof fn law_tcp_host(address: Seq<char>, certs: Option<Seq<char>>, verify: bool)
    requires
        is_printable(address),
    ensures
        is_parsable("tcp:"@ + address),
        is_opaque("tcp:"@ + address),
        transport_to(opaque_parts("tcp:"@ + address), certs, verify) == (TransportView::Tcp {
            host: "https:"@ + address,
            tls: match certs {
                Some(certs) => Some(tls_files(certs, verify)),
                None => None,
            },
        }),
{
    reveal_strlit("tcp");
    reveal_strlit("tcp:");
    reveal_strlit("unix");
    reveal_strlit(":");
    reveal_relative_schemes();
    assert("tcp:"@ + address =~= "tcp"@ + ":"@ + address);
    law_opaque_url_comes_apart("tcp"@, address);
}

/// A URL of a relative scheme, which is never `unix`, leads to its host by `https:`, at its port;
/// the port of `https` goes without saying.
pub proof fn law_network_host(
    scheme: Seq<char>,
    host: HostView,
    port: Option<u16>,
    certs: Option<Seq<char>>,
    verify: bool,
)
    requires
        is_relative_scheme(scheme),
    ensures
        transport_to(
            UrlView { scheme, scheme_data: SchemeDataView::Relative(host, port) },
            certs,
            verify,
        ) == (TransportView::Tcp {
            host: match port {
                Some(port) if port != HTTPS_PORT => "https:"@ + (host.text() + ":"@ + decimal(
                    port as nat,
                )),
                _ => "https:"@ + host.text(),
            },
            tls: match certs {
                Some(certs) => Some(tls_files(certs, verify)),
                None => None,
            },
        }),
{
    reveal_relative_schemes();
}

/// The port that a connection by `https` goes to: the one that is named, or else that of `https`.
pub open spec fn port_reached(port: Option<u16>) -> u16 {
    match port {
        Some(port) => port,
        None => HTTPS_PORT,
    }
}

/// The port is kept: at one host, different ports are different ways.
pub proof fn law_port_is_kept(
    scheme: Seq<char>,
    host: HostView,
    left: Option<u16>,
    right: Option<u16>,
    certs: Option<Seq<char>>,
    verify: bool,
)
    requires
        is_relative_scheme(scheme),
        transport_to(
            UrlView { scheme, scheme_data: SchemeDataView::Relative(host, left) },
            certs,
            verify,
        ) == transport_to(
            UrlView { scheme, scheme_data: SchemeDataView::Relative(host, right) },
            certs,
            verify,
        ),
    ensures
        port_reached(left) == port_reached(right),
{
    reveal_strlit(":");
    law_network_host(scheme, host, left, certs, verify);
    law_network_host(scheme, host, right, certs, verify);
    let left_text = UrlView {
        scheme,
        scheme_data: SchemeDataView::Relative(host, left),
    }.domain();
    let right_text = UrlView {
        scheme,
        scheme_data: SchemeDataView::Relative(host, right),
    }.domain();
    assert(("https:"@ + left_text).skip("https:"@.len() as int) =~= left_text);
    assert(("https:"@ + right_text).skip("https:"@.len() as int) =~= right_text);
    let left_digits = decimal(port_reached(left) as nat);
    let right_digits = decimal(port_reached(right) as nat);
    let prefix = host.text() + ":"@;
    if port_reached(left) != HTTPS_PORT && port_reached(right) != HTTPS_PORT {
        assert((prefix + left_digits).skip(prefix.len() as int) =~= left_digits);
        assert((prefix + right_digits).skip(prefix.len() as int) =~= right_digits);
        law_decimal_is_injective(port_reached(left) as nat, port_reached(right) as nat);
    }
}

proof fn reveal_relative_schemes()
    ensures
        !is_relative_scheme("unix"@),
        !is_relative_scheme("tcp"@),
{
    reveal_strlit("unix");
    reveal_strlit("tcp");
    reveal_strlit("file");
    reveal_strlit("ftp");
    reveal_strlit("gopher");
    reveal_strlit("http");
    reveal_strlit("https");
    reveal_strlit("ws");
    reveal_strlit("wss");
    assert("unix"@[0] != "file"@[0]);
    assert("unix"@[0] != "http"@[0]);
    assert("tcp"@[0] != "ftp"@[0]);
    assert("tcp"@[0] != "wss"@[0]);
}

/// The default address leads to the socket of a local daemon.
pub proof fn law_default_host(certs: Option<Seq<char>>, verify: bool)
    ensures
        is_parsable(default_host()),
        is_opaque(default_host()),
        transport_to(opaque_parts(default_host()), certs, verify) == (TransportView::Unix {
            path: "///var/run/docker.sock"@,
        }),
{
    reveal_strlit("unix:///var/run/docker.sock");
    reveal_strlit("///var/run/docker.sock");
    reveal_strlit("unix:");
    let path = "///var/run/docker.sock"@;
    assert(default_host() =~= "unix:"@ + path);
    law_unix_host(path, certs, verify);
}

/// Where an address is given, the daemon is looked for there, at the whole address, be it empty;
/// the local socket is for when there is none.
pub proof fn law_given_address_is_taken(docker_host: &str)
    ensures
        host_or_default(Some(docker_host)) == docker_host@,
        host_or_default(None) == "unix:///var/run/docker.sock"@,
{
}

/// The files for TLS stand in the directory of certificates; the authority is among them if and
/// only if the daemon is to be checked.
pub proof fn law_tls_files_stand_in_their_directory(certs: Seq<char>, verify: bool)
    ensures
        tls_files(certs, verify).cert == certs + "/cert.pem"@,
        tls_files(certs, verify).key == certs + "/key.pem"@,
        verify ==> tls_files(certs, verify).ca == Some(certs + "/ca.pem"@),
        !verify ==> tls_files(certs, verify).ca is None,
{
}

/// A URL without a host leads to all that follows its scheme: a socket at that path where the
/// scheme is `unix`, and that address by `https:` in every other scheme.
pub proof fn law_opaque_host(
    scheme: Seq<char>,
    text: Seq<char>,
    certs: Option<Seq<char>>,
    verify: bool,
)
    ensures
        ({
            let url = UrlView { scheme, scheme_data: SchemeDataView::NonRelative(text) };
            match transport_to(url, certs, verify) {
                TransportView::Unix { path } => scheme == "unix"@ && path == text,
                TransportView::Tcp { host, .. } => scheme != "unix"@ && host == "https:"@ + text,
            }
        }),
{
}

/// Over TCP there is TLS if and only if there are certificates, set up from their files, whatever
/// the host is. A socket does without.
pub proof fn law_certificates_mean_tls(host: UrlView, certs: Seq<char>, verify: bool)
    ensures
        match transport_to(host, Some(certs), verify) {
            TransportView::Unix { .. } => host.scheme == "unix"@,
            TransportView::Tcp { tls: Some(files), .. } => {
                &&& host.scheme != "unix"@
                &&& files.cert == certs + "/cert.pem"@
                &&& files.key == certs + "/key.pem"@
                &&& verify ==> files.ca == Some(certs + "/ca.pem"@)
                &&& !verify ==> files.ca is None
            },
            TransportView::Tcp { tls: None, .. } => false,
        },
        match transport_to(host, None, verify) {
            TransportView::Unix { .. } => host.scheme == "unix"@,
            TransportView::Tcp { tls, .. } => host.scheme != "unix"@ && tls is None,
        },
        host.scheme == "unix"@ ==> transport_to(host, Some(certs), verify) == transport_to(
            host,
            None,
            !verify,
        ),
{
}

/// Certificates change nothing about where a daemon is.
pub proof fn law_certificates_do_not_move_the_daemon(
    host: UrlView,
    left: Option<Seq<char>>,
    right: Option<Seq<char>>,
    verify: bool,
)
    ensures
        match (transport_to(host, left, verify), transport_to(host, right, !verify)) {
            (
                TransportView::Tcp { host: left_host, .. },
                TransportView::Tcp { host: right_host, .. },
            ) => left_host == right_host,
            (
                TransportView::Unix { path: left_path },
                TransportView::Unix { path: right_path },
            ) => left_path == right_path,
            _ => false,
        },
{
}

/// A URL with a host leads to that host, whole: a name or an IPv4 address as it is, an IPv6 address
/// in square brackets. A port other than that of `https` follows it.
pub proof fn law_relative_host(scheme: Seq<char>, text: Seq<char>, port: u16, verify: bool)
    requires
        scheme != "unix"@,
    ensures
        forall|host: HostView|
            #![trigger host.text()]
            host == HostView::Domain(text) || host == HostView::Ipv4(text) ==> (transport_to(
                UrlView { scheme, scheme_data: SchemeDataView::Relative(host, None) },
                None,
                verify,
            ) == (TransportView::Tcp { host: "https:"@ + text, tls: None })) && (port != 443
                ==> transport_to(
                UrlView { scheme, scheme_data: SchemeDataView::Relative(host, Some(port)) },
                None,
                verify,
            ) == (TransportView::Tcp {
                host: "https:"@ + text + ":"@ + decimal(port as nat),
                tls: None,
            })),
        transport_to(
            UrlView {
                scheme,
                scheme_data: SchemeDataView::Relative(HostView::Ipv6(text), None),
            },
            None,
            verify,
        ) == (TransportView::Tcp { host: "https:["@ + text + "]"@, tls: None }),
        port != 443 ==> transport_to(
            UrlView {
                scheme,
                scheme_data: SchemeDataView::Relative(HostView::Ipv6(text), Some(port)),
            },
            None,
            verify,
        ) == (TransportView::Tcp {
            host: "https:["@ + text + "]:"@ + decimal(port as nat),
            tls: None,
        }),
        forall|host: HostView|
            #![trigger host.text()]
            transport_to(
                UrlView { scheme, scheme_data: SchemeDataView::Relative(host, Some(443)) },
                None,
                verify,
            ) == transport_to(
                UrlView { scheme, scheme_data: SchemeDataView::Relative(host, None) },
                None,
                verify,
            ),
{
    reveal_strlit("https:");
    reveal_strlit("https:[");
    reveal_strlit("[");
    reveal_strlit("]");
    reveal_strlit("]:");
    reveal_strlit(":");
    let digits = decimal(port as nat);
    assert("https:"@ + (text + ":"@ + digits) =~= "https:"@ + text + ":"@ + digits);
    assert("https:"@ + ("["@ + text + "]"@) =~= "https:["@ + text + "]"@);
    assert("https:"@ + ("["@ + text + "]"@ + ":"@ + digits) =~= "https:["@ + text + "]:"@ + digits);
}

/// The ports that the schemes of network addresses stand for.
pub proof fn law_schemes_have_their_ports()
    ensures
        default_port("ftp"@) == Some(21u16),
        default_port("gopher"@) == Some(70u16),
        default_port("http"@) == Some(80u16),
        default_port("ws"@) == Some(80u16),
        default_port("https"@) == Some(443u16),
        default_port("wss"@) == Some(443u16),
        default_port("file"@) is None,
{
    reveal_strlit("ftp");
    reveal_strlit("gopher");
    reveal_strlit("http");
    reveal_strlit("ws");
    reveal_strlit("https");
    reveal_strlit("wss");
    reveal_strlit("file");
    assert("http"@[0] == 'h' && "https"@[0] == 'h' && "ws"@[0] == 'w' && "wss"@[0] == 'w');
    assert("ftp"@[0] == 'f' && "gopher"@[0] == 'g' && "file"@[0] == 'f' && "file"@[1] == 'i');
    assert("ftp"@[1] == 't');
    assert("http"@.len() == 4 && "https"@.len() == 5 && "ws"@.len() == 2 && "wss"@.len() == 3);
}

/// The address of a host of lower-case letters and dots leads to that host, at the port that it
/// names.
pub proof fn law_simple_address_leads_to_its_host(
    scheme: Seq<char>,
    host: Seq<char>,
    port: u16,
    verify: bool,
)
    requires
        scheme != "unix"@,
    ensures
        port != 443 ==> transport_to(network_parts(scheme, host, Some(port)), None, verify) == (
        TransportView::Tcp { host: "https:"@ + host + ":"@ + decimal(port as nat), tls: None }),
        transport_to(network_parts(scheme, host, Some(443)), None, verify) == (TransportView::Tcp {
            host: "https:"@ + host,
            tls: None,
        }),
        default_port(scheme) is Some ==> network_parts(scheme, host, None) == network_parts(
            scheme,
            host,
            default_port(scheme),
        ),
{
    reveal_strlit(":");
    reveal_strlit("https:");
    let digits = decimal(port as nat);
    assert("https:"@ + (host + ":"@ + digits) =~= "https:"@ + host + ":"@ + digits);
}

/// A URL is seen as it is: nothing of it is left out.
pub proof fn law_urls_are_seen_whole(url: Url, host: Host, port: Option<u16>, text: String)
    ensures
        url@.scheme == url.scheme@,
        url@.scheme_data == url.scheme_data@,
        SchemeData::NonRelative(text)@ == SchemeDataView::NonRelative(text@),
        SchemeData::Relative(host, port)@ == SchemeDataView::Relative(host@, port),
        Host::Domain(text)@ == HostView::Domain(text@),
        Host::Ipv4(text)@ == HostView::Ipv4(text@),
        Host::Ipv6(text)@ == HostView::Ipv6(text@),
{
}

impl Docker {
    /// Constructs a Docker instance for a docker host listening at a url specified by an env var
    /// `DOCKER_HOST`, whose value is `docker_host`, falling back on unix:///var/run/docker.sock.
    /// `cert_path` is the value of `DOCKER_CERT_PATH`, and `tls_verify` says whether
    /// `DOCKER_TLS_VERIFY` is set.
    pub fn new(docker_host: Option<&str>, cert_path: Option<&str>, tls_verify: bool) -> (docker:
        Result<Docker, AddressError>)
        ensures
            match docker {
                Ok(docker) => {
                    &&& is_parsable(host_or_default(docker_host))
                    &&& parsed_url(host_or_default(docker_host)) is Some
                    &&& docker@ == transport_to(
                        parsed_url(host_or_default(docker_host))->0,
                        optional_text(cert_path),
                        tls_verify,
                    )
                },
                Err(AddressError::Invalid) => {
                    &&& is_parsable(host_or_default(docker_host))
                    &&& parsed_url(host_or_default(docker_host)) is None
                },
                Err(AddressError::Unsupported) => !is_parsable(host_or_default(docker_host)),
            },
            is_opaque(host_or_default(docker_host)) ==> docker is Ok && docker->Ok_0@
                == transport_to(
                opaque_parts(host_or_default(docker_host)),
                optional_text(cert_path),
                tls_verify,
            ),
            forall|scheme: Seq<char>, host: Seq<char>, port: Option<u16>|
                default_port(scheme) is Some && is_simple_host(host) && host_or_default(docker_host)
                    == #[trigger] network_address(scheme, host, port) ==> docker is Ok
                    && docker->Ok_0@ == transport_to(
                    network_parts(scheme, host, port),
                    optional_text(cert_path),
                    tls_verify,
                ),
            docker_host is None ==> docker is Ok && docker->Ok_0@ == (TransportView::Unix {
                path: "///var/run/docker.sock"@,
            }),
    {
        proof {
            law_default_host(optional_text(cert_path), tls_verify);
            if is_opaque(host_or_default(docker_host)) {
                law_opaque_is_parsable(host_or_default(docker_host));
            }
            assert forall|scheme: Seq<char>, host: Seq<char>, port: Option<u16>|
                default_port(scheme) is Some && is_simple_host(host) implies is_parsable(
                #[trigger] network_address(scheme, host, port),
            ) by {
                law_simple_address_is_parsable(scheme, host, port);
            }
        }
        let host = match docker_host {
            Some(docker_host) => docker_host,
            None => "unix:///var/run/docker.sock",
        };
        if !Url::can_parse(host) {
            return Err(AddressError::Unsupported);
        }
        match parse_url(host) {
            Some(url) => Ok(Docker::host(url, cert_path, tls_verify)),
            None => Err(AddressError::Invalid),
        }
    }

    /// Constructs a Docker instance for a docker host listening at the given host url.
    /// `cert_path` is the value of the environment variable `DOCKER_CERT_PATH`, and `tls_verify`
    /// says whether `DOCKER_TLS_VERIFY` is set.
    pub fn host(host: Url, cert_path: Option<&str>, tls_verify: bool) -> (docker: Docker)
        ensures
            docker@ == transport_to(host@, optional_text(cert_path), tls_verify),
    {
        let domain = host.domain();
        if host.scheme == "unix".to_owned() {
            return Docker { transport: Transport::Unix { path: domain } };
        }
        let tls = match cert_path {
            Some(certs) => Some(
                TlsFiles {
                    cert: concat(certs, "/cert.pem"),
                    key: concat(certs, "/key.pem"),
                    ca: if tls_verify {
                        Some(concat(certs, "/ca.pem"))
                    } else {
                        None
                    },
                },
            ),
            None => None,
        };
        Docker { transport: Transport::Tcp { host: concat("https:", domain.as_str()), tls } }
    }

    /// The way to the daemon.
    pub fn transport(&self) -> (transport: &Transport)
        ensures
            transport@ == self@,
    {
        &self.transport
    }

    /// Exports an interface for interacting with docker images
    pub fn images(&self) -> (images: Images<'_>)
        ensures
            images@ == (ImagesView { docker: self@ }),
    {
        Images::new(self)
    }

    /// Exports an interface for interacting with docker containers
    pub fn containers(&self) -> (containers: Containers<'_>)
        ensures
            containers@ == (ContainersView { docker: self@ }),
    {
        Containers::new(self)
    }

    /// Returns version information associated with the docker daemon
    pub fn version(&self) -> (request: Request<'_>)
        ensures
            request@ == self@.get("/version"@),
    {
        self.get("/version".to_owned())
    }

    /// Returns information associated with the docker daemon
    pub fn info(&self) -> (request: Request<'_>)
        ensures
            request@ == self@.get("/info"@),
    {
        self.get("/info".to_owned())
    }

    /// Returns a simple ping response indicating the docker daemon is accessible
    pub fn ping(&self) -> (request: Request<'_>)
        ensures
            request@ == self@.get("/_ping"@),
    {
        self.get("/_ping".to_owned())
    }

    /// Returns an interator over streamed docker events. `query` holds the options.
    pub fn events(&self, query: Option<&str>) -> (request: Request<'_>)
        ensures
            request@ == self@.stream_get(with_query("/events"@, optional_text(query))),
    {
        self.stream_get(join_query("/events".to_owned(), query))
    }

    /// A read that is answered by one text.
    pub(crate) fn get(&self, endpoint: String) -> (request: Request<'_>)
        ensures
            request@ == self@.get(endpoint@),
    {
        Request {
            transport: &self.transport,
            method: Method::Get,
            endpoint,
            body: None,
            streamed: false,
        }
    }

    /// A change that is answered by one text.
    pub(crate) fn post(&self, endpoint: String, body: Option<Body>) -> (request: Request<'_>)
        ensures
            request@ == self@.post(
                endpoint@,
                match body {
                    Some(body) => Some(body@),
                    None => None,
                },
            ),
    {
        Request {
            transport: &self.transport,
            method: Method::Post,
            endpoint,
            body,
            streamed: false,
        }
    }

    /// A removal.
    pub(crate) fn delete(&self, endpoint: String) -> (request: Request<'_>)
        ensures
            request@ == self@.delete(endpoint@),
    {
        Request {
            transport: &self.transport,
            method: Method::Delete,
            endpoint,
            body: None,
            streamed: false,
        }
    }

    /// A change that is answered by a stream.
    pub(crate) fn stream_post(&self, endpoint: String, body: Option<Body>) -> (request: Request<'_>)
        ensures
            request@ == self@.stream_post(
                endpoint@,
                match body {
                    Some(body) => Some(body@),
                    None => None,
                },
            ),
    {
        Request {
            transport: &self.transport,
            method: Method::Post,
            endpoint,
            body,
            streamed: true,
        }
    }

    /// A read that is answered by a stream.
    pub(crate) fn stream_get(&self, endpoint: String) -> (request: Request<'_>)
        ensures
            request@ == self@.stream_get(endpoint@),
    {
        Request {
            transport: &self.transport,
            method: Method::Get,
            endpoint,
            body: None,
            streamed: true,
        }
    }
}

} // verus!
