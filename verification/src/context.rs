//! Per-call data the matchers read: the typed extension entries of a call
//! context, the parsed-request view, and the stream-subject view.

use crate::net::SocketAddr;
use vstd::prelude::*;

verus! {

/// Local and peer endpoints recorded for a call, as the transport saw them.
#[derive(Clone, Copy, PartialEq, Eq, Debug)]
pub struct SocketInfo {
    local: Option<SocketAddr>,
    peer: SocketAddr,
}

impl SocketInfo {
    pub closed spec fn spec_local(self) -> Option<SocketAddr> {
        self.local
    }

    pub closed spec fn spec_peer(self) -> SocketAddr {
        self.peer
    }

    pub fn new(local: Option<SocketAddr>, peer: SocketAddr) -> (r: Self)
        ensures
            r.spec_local() == local,
            r.spec_peer() == peer,
    {
        SocketInfo { local, peer }
    }

    pub fn local_addr(&self) -> (r: Option<&SocketAddr>)
        ensures
            match r {
                Some(a) => self.spec_local() == Some(*a),
                None => self.spec_local() is None,
            },
    {
        self.local.as_ref()
    }

    pub fn peer_addr(&self) -> (r: &SocketAddr)
        ensures
            *r == self.spec_peer(),
    {
        &self.peer
    }
}

/// The mathematical view of an extension bag: the same entries with text as
/// byte sequences.
pub struct ExtensionsView {
    pub socket_info: Option<SocketInfo>,
    pub path_capture: Option<Seq<u8>>,
}

/// The typed extension entries of one call that this crate reads or writes:
/// the transport's `SocketInfo` and the path captured by a glob matcher.
/// Inserting an entry replaces the previous value of the same type.
#[derive(Clone, Debug)]
pub struct Extensions {
    socket_info: Option<SocketInfo>,
    path_capture: Option<Vec<u8>>,
}

impl View for Extensions {
    type V = ExtensionsView;

    closed spec fn view(&self) -> ExtensionsView {
        ExtensionsView {
            socket_info: self.socket_info,
            path_capture: match self.path_capture {
                Some(v) => Some(v@),
                None => None,
            },
        }
    }
}

impl Extensions {
    pub closed spec fn spec_socket_info(self) -> Option<SocketInfo> {
        self.socket_info
    }

    pub closed spec fn spec_path_capture(self) -> Option<Seq<u8>> {
        match self.path_capture {
            Some(v) => Some(v@),
            None => None,
        }
    }

    pub fn new() -> (r: Self)
        ensures
            r.spec_socket_info() is None,
            r.spec_path_capture() is None,
    {
        Extensions { socket_info: None, path_capture: None }
    }

    pub fn insert_socket_info(&mut self, info: SocketInfo)
        ensures
            final(self).spec_socket_info() == Some(info),
            final(self).spec_path_capture() == old(self).spec_path_capture(),
            final(self)@ == (ExtensionsView { socket_info: Some(info), ..old(self)@ }),
    {
        self.socket_info = Some(info);
    }

    pub fn socket_info(&self) -> (r: Option<SocketInfo>)
        ensures
            r == self.spec_socket_info(),
    {
        self.socket_info
    }

    pub fn insert_path_capture(&mut self, capture: Vec<u8>)
        ensures
            final(self).spec_path_capture() == Some(capture@),
            final(self).spec_socket_info() == old(self).spec_socket_info(),
            final(self)@ == (ExtensionsView { path_capture: Some(capture@), ..old(self)@ }),
    {
        self.path_capture = Some(capture);
    }

    pub fn path_capture(&self) -> (r: Option<&Vec<u8>>)
        ensures
            match r {
                Some(v) => self.spec_path_capture() == Some(v@),
                None => self.spec_path_capture() is None,
            },
    {
        self.path_capture.as_ref()
    }
}

/// The context of one call: user state of an arbitrary type, which this
/// crate never inspects, plus the extension entries.
#[derive(Debug)]
pub struct Context<State> {
    state: State,
    ext: Extensions,
}

impl<State> Context<State> {
    pub closed spec fn spec_state(&self) -> State {
        self.state
    }

    pub closed spec fn spec_ext(&self) -> Extensions {
        self.ext
    }

    /// The peer endpoint as the matchers resolve it for a parsed-request
    /// subject: from the `SocketInfo` extension, if present.
    pub open spec fn spec_peer(&self) -> Option<SocketAddr> {
        match self.spec_ext().spec_socket_info() {
            Some(info) => Some(info.spec_peer()),
            None => None,
        }
    }

    pub fn new(state: State) -> (r: Self)
        ensures
            r.spec_state() == state,
            r.spec_ext().spec_socket_info() is None,
            r.spec_ext().spec_path_capture() is None,
    {
        Context { state, ext: Extensions::new() }
    }

    pub fn state(&self) -> (r: &State)
        ensures
            *r == self.spec_state(),
    {
        &self.state
    }

    /// Record the transport's socket information, replacing any previous one.
    pub fn insert(&mut self, info: SocketInfo)
        ensures
            final(self).spec_ext().spec_socket_info() == Some(info),
            final(self).spec_ext().spec_path_capture() == old(self).spec_ext().spec_path_capture(),
            final(self).spec_state() == old(self).spec_state(),
    {
        self.ext.insert_socket_info(info);
    }

    pub fn socket_info(&self) -> (r: Option<SocketInfo>)
        ensures
            r == self.spec_ext().spec_socket_info(),
    {
        self.ext.socket_info()
    }

    pub fn extensions(&self) -> (r: &Extensions)
        ensures
            *r == self.spec_ext(),
    {
        &self.ext
    }
}

impl<State: Default> Default for Context<State> {
    fn default() -> (r: Self)
        ensures
            r.spec_ext().spec_socket_info() is None,
            r.spec_ext().spec_path_capture() is None,
    {
        Context { state: State::default(), ext: Extensions::new() }
    }
}

/// A parsed request, reduced to the parts the matchers read: the HTTP verb
/// and the URI path.
#[derive(Clone, Debug)]
pub struct Request {
    method: Vec<u8>,
    path: Vec<u8>,
}

impl Request {
    pub closed spec fn spec_method(&self) -> Seq<u8> {
        self.method@
    }

    pub closed spec fn spec_path(&self) -> Seq<u8> {
        self.path@
    }

    pub fn new(method: Vec<u8>, path: Vec<u8>) -> (r: Self)
        ensures
            r.spec_method() == method@,
            r.spec_path() == path@,
    {
        Request { method, path }
    }

    pub fn method(&self) -> (r: &Vec<u8>)
        ensures
            r@ == self.spec_method(),
    {
        &self.method
    }

    pub fn path(&self) -> (r: &Vec<u8>)
        ensures
            r@ == self.spec_path(),
    {
        &self.path
    }
}

/// A stream subject, reduced to what the peer-address matchers read: the
/// endpoints the transport could resolve. A `None` peer stands for a socket
/// whose peer address could not be obtained.
#[derive(Clone, Copy, PartialEq, Eq, Debug)]
pub struct Socket {
    local: Option<SocketAddr>,
    peer: Option<SocketAddr>,
}

impl Socket {
    pub closed spec fn spec_local(self) -> Option<SocketAddr> {
        self.local
    }

    pub closed spec fn spec_peer(self) -> Option<SocketAddr> {
        self.peer
    }

    pub fn new(local: Option<SocketAddr>, peer: Option<SocketAddr>) -> (r: Self)
        ensures
            r.spec_local() == local,
            r.spec_peer() == peer,
    {
        Socket { local, peer }
    }

    pub fn local_addr(&self) -> (r: Option<SocketAddr>)
        ensures
            r == self.spec_local(),
    {
        self.local
    }

    pub fn peer_addr(&self) -> (r: Option<SocketAddr>)
        ensures
            r == self.spec_peer(),
    {
        self.peer
    }
}

} // verus!
