use vstd::prelude::*;

verus! {

/// The identity of one server: host name and port.
#[derive(Debug)]
pub struct Server {
    pub host: String,
    pub port: u16,
}

/// What a server is, mathematically: its host as text and its port.
pub type ServerView = (Seq<char>, u16);

impl View for Server {
    type V = ServerView;

    open spec fn view(&self) -> ServerView {
        (self.host@, self.port)
    }
}

impl Server {
    /// A server at `host:port`.
    pub fn new(host: &str, port: u16) -> (r: Server)
        ensures
            r@ == (host@, port),
    {
        Server { host: host.to_owned(), port }
    }

    /// Whether both name the same host and port.
    pub fn same(&self, other: &Server) -> (r: bool)
        ensures
            r == (self@ == other@),
    {
        self.port == other.port && self.host == other.host
    }

    /// A copy with the same identity.
    pub fn duplicate(&self) -> (r: Server)
        ensures
            r@ == self@,
    {
        Server { host: self.host.clone(), port: self.port }
    }
}

impl Clone for Server {
    fn clone(&self) -> (r: Server)
        ensures
            r@ == self@,
    {
        self.duplicate()
    }
}

impl PartialEq for Server {
    fn eq(&self, other: &Server) -> (r: bool) {
        self.same(other)
    }
}

impl vstd::std_specs::cmp::PartialEqSpecImpl for Server {
    open spec fn obeys_eq_spec() -> bool {
        true
    }

    open spec fn eq_spec(&self, other: &Server) -> bool {
        self@ == other@
    }
}

impl Eq for Server {
}

} // verus!
