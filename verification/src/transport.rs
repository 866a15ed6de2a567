//! How a Docker daemon is reached, and what is sent to it.
use vstd::prelude::*;

verus! {

/// The files that a connection secured by TLS is set up from.
#[derive(Debug, PartialEq, Eq)]
pub struct TlsFiles {
    /// The client certificate.
    pub cert: String,
    /// The client's private key.
    pub key: String,
    /// The certificate authority that the daemon is checked against.
    pub ca: Option<String>,
}

/// The way to a Docker daemon.
#[derive(Debug, PartialEq, Eq)]
pub enum Transport {
    /// A unix domain socket.
    Unix { path: String },
    /// A TCP connection.
    Tcp { host: String, tls: Option<TlsFiles> },
}

/// The HTTP methods that the Docker API is called with.
#[derive(Clone, Copy, Debug, PartialEq, Eq, Structural)]
pub enum Method {
    Get,
    Post,
    Delete,
}

/// The types of content that are sent to a daemon.
#[derive(Clone, Copy, Debug, PartialEq, Eq, Structural)]
pub enum ContentType {
    Json,
    Tar,
}

/// What is sent along with a request.
#[derive(Debug, PartialEq, Eq)]
pub struct Body {
    pub content: Vec<u8>,
    pub content_type: ContentType,
}

/// A call of the Docker API.
#[derive(Debug, PartialEq, Eq)]
pub struct Request<'a> {
    /// The way to the daemon that is called.
    pub transport: &'a Transport,
    pub method: Method,
    /// The path below the daemon's address, with the query.
    pub endpoint: String,
    pub body: Option<Body>,
    /// Whether the reply is read piece by piece, as it comes, and not as one text.
    pub streamed: bool,
}

pub ghost struct TlsFilesView {
    pub cert: Seq<char>,
    pub key: Seq<char>,
    pub ca: Option<Seq<char>>,
}

pub ghost enum TransportView {
    Unix { path: Seq<char> },
    Tcp { host: Seq<char>, tls: Option<TlsFilesView> },
}

pub ghost struct BodyView {
    pub content: Seq<u8>,
    pub content_type: ContentType,
}

pub ghost struct RequestView {
    pub transport: TransportView,
    pub method: Method,
    pub endpoint: Seq<char>,
    pub body: Option<BodyView>,
    pub streamed: bool,
}

impl View for TlsFiles {
    type V = TlsFilesView;

    open spec fn view(&self) -> TlsFilesView {
        TlsFilesView {
            cert: self.cert@,
            key: self.key@,
            ca: match self.ca {
                Some(ca) => Some(ca@),
                None => None,
            },
        }
    }
}

impl View for Transport {
    type V = TransportView;

    open spec fn view(&self) -> TransportView {
        match self {
            Transport::Unix { path } => TransportView::Unix { path: path@ },
            Transport::Tcp { host, tls } => TransportView::Tcp {
                host: host@,
                tls: match tls {
                    Some(tls) => Some(tls@),
                    None => None,
                },
            },
        }
    }
}

impl View for Body {
    type V = BodyView;

    open spec fn view(&self) -> BodyView {
        BodyView { content: self.content@, content_type: self.content_type }
    }
}

impl<'a> View for Request<'a> {
    type V = RequestView;

    open spec fn view(&self) -> RequestView {
        RequestView {
            transport: self.transport@,
            method: self.method,
            endpoint: self.endpoint@,
            body: match self.body {
                Some(body) => Some(body@),
                None => None,
            },
            streamed: self.streamed,
        }
    }
}

impl TransportView {
    /// A read of one text.
    pub open spec fn get(self, endpoint: Seq<char>) -> RequestView {
        RequestView { transport: self, method: Method::Get, endpoint, body: None, streamed: false }
    }

    /// A change that is answered by one text.
    pub open spec fn post(self, endpoint: Seq<char>, body: Option<BodyView>) -> RequestView {
        RequestView { transport: self, method: Method::Post, endpoint, body, streamed: false }
    }

    /// A removal.
    pub open spec fn delete(self, endpoint: Seq<char>) -> RequestView {
        RequestView {
            transport: self,
            method: Method::Delete,
            endpoint,
            body: None,
            streamed: false,
        }
    }

    /// A change that is answered by a stream.
    pub open spec fn stream_post(self, endpoint: Seq<char>, body: Option<BodyView>) -> RequestView {
        RequestView { transport: self, method: Method::Post, endpoint, body, streamed: true }
    }

    /// A read of a stream.
    pub open spec fn stream_get(self, endpoint: Seq<char>) -> RequestView {
        RequestView { transport: self, method: Method::Get, endpoint, body: None, streamed: true }
    }
}

} // verus!
