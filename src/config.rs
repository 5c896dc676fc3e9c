use vstd::prelude::*;

verus! {

/// Capacity of the channels between the transport and the receive loop.
pub const CHANNEL_BUFFER_SIZE: usize = 32;

/// How a connection reaches the server.
#[derive(Debug, Clone, Copy, PartialEq, Eq, Structural)]
pub enum TransportType {
    Wss,
}

/// The two APIs of a Janus server.
#[derive(Debug, Clone, Copy, PartialEq, Eq, Hash, Structural)]
pub enum JanusAPI {
    WebSocket,
    Restful,
}

/// Settings of a connection: the server's address, the secret added to
/// every request where there is one, and the root path of the routes.
#[derive(Debug)]
pub struct JaConfig {
    pub(crate) uri: String,
    pub(crate) apisecret: Option<String>,
    pub(crate) root_namespace: String,
}

impl JaConfig {
    /// The server's address.
    pub closed spec fn spec_uri(&self) -> Seq<char> {
        self.uri@
    }

    /// The secret added to every request.
    pub closed spec fn spec_apisecret(&self) -> Option<String> {
        self.apisecret
    }

    /// The root path of the routes.
    pub closed spec fn spec_root_namespace(&self) -> Seq<char> {
        self.root_namespace@
    }

    pub fn new(uri: &str, apisecret: Option<String>, root_namespace: &str) -> (r: JaConfig)
        ensures
            r.spec_uri() == uri@,
            r.spec_apisecret() == apisecret,
            r.spec_root_namespace() == root_namespace@,
    {
        JaConfig {
            uri: String::from_str(uri),
            apisecret,
            root_namespace: String::from_str(root_namespace),
        }
    }

    /// The server's address.
    pub fn uri(&self) -> (r: &str)
        ensures
            r@ == self.spec_uri(),
    {
        self.uri.as_str()
    }

    /// The secret added to every request, where there is one.
    pub fn apisecret(&self) -> (r: &Option<String>)
        ensures
            *r == self.spec_apisecret(),
    {
        &self.apisecret
    }

    /// The root path of the routes, which is also the server's top-level path.
    pub fn root_namespace(&self) -> (r: &str)
        ensures
            r@ == self.spec_root_namespace(),
    {
        self.root_namespace.as_str()
    }
}

/// The servers the end-to-end runs talk to.
#[derive(Copy, Clone, PartialEq, Eq, PartialOrd, Ord, Hash, Debug)]
pub enum ServerUrl {
    MultistreamWebsocket,
    MultistreamRestful,
    LegacyWebsocket,
    LegacyRestful,
}

/// The address of each server.
pub open spec fn url_of(s: ServerUrl) -> Seq<char> {
    match s {
        ServerUrl::MultistreamWebsocket => "ws://localhost:8188/ws"@,
        ServerUrl::MultistreamRestful => "http://localhost:8088"@,
        ServerUrl::LegacyWebsocket => "ws://localhost:9188/ws"@,
        ServerUrl::LegacyRestful => "http://localhost:9088"@,
    }
}

impl ServerUrl {
    pub fn url(&self) -> (r: &'static str)
        ensures
            r@ == url_of(*self),
    {
        match self {
            ServerUrl::MultistreamWebsocket => "ws://localhost:8188/ws",
            ServerUrl::MultistreamRestful => "http://localhost:8088",
            ServerUrl::LegacyWebsocket => "ws://localhost:9188/ws",
            ServerUrl::LegacyRestful => "http://localhost:9088",
        }
    }

    pub fn api(&self) -> (r: JanusAPI)
        ensures
            r == (match *self {
                ServerUrl::MultistreamWebsocket | ServerUrl::LegacyWebsocket => JanusAPI::WebSocket,
                _ => JanusAPI::Restful,
            }),
    {
        match self {
            ServerUrl::MultistreamWebsocket | ServerUrl::LegacyWebsocket => JanusAPI::WebSocket,
            ServerUrl::MultistreamRestful | ServerUrl::LegacyRestful => JanusAPI::Restful,
        }
    }

    pub fn is_legacy(&self) -> (r: bool)
        ensures
            r == (*self is LegacyWebsocket || *self is LegacyRestful),
    {
        matches!(self, ServerUrl::LegacyWebsocket | ServerUrl::LegacyRestful)
    }

    pub fn is_multistream(&self) -> (r: bool)
        ensures
            r == (*self is MultistreamWebsocket || *self is MultistreamRestful),
    {
        matches!(self, ServerUrl::MultistreamWebsocket | ServerUrl::MultistreamRestful)
    }
}

} // verus!
