//! Builder for the raw-stream server's configuration. Binding and accepting
//! happen in the transport layer outside this crate; the builder only
//! collects the address, port and command terminator.

use vstd::prelude::*;

verus! {

/// Address, port and terminator for the raw-stream listener.
pub struct ServerConfig {
    ip: Option<String>,
    port: Option<usize>,
    terminator: Option<String>,
}

impl ServerConfig {
    pub closed spec fn ip_view(&self) -> Option<Seq<char>> {
        match self.ip {
            Some(ref s) => Some(s@),
            None => None,
        }
    }

    pub closed spec fn port_view(&self) -> Option<usize> {
        self.port
    }

    pub closed spec fn terminator_view(&self) -> Option<Seq<char>> {
        match self.terminator {
            Some(ref s) => Some(s@),
            None => None,
        }
    }

    pub fn new() -> (r: ServerConfig)
        ensures
            r.ip_view() == None::<Seq<char>>,
            r.port_view() == None::<usize>,
            r.terminator_view() == None::<Seq<char>>,
    {
        ServerConfig { ip: None, port: None, terminator: None }
    }

    pub fn set_ip(&mut self, ip: String)
        ensures
            final(self).ip_view() == Some(ip@),
            final(self).port_view() == old(self).port_view(),
            final(self).terminator_view() == old(self).terminator_view(),
    {
        self.ip = Some(ip);
    }

    pub fn set_terminator(&mut self, terminator: String)
        ensures
            final(self).terminator_view() == Some(terminator@),
            final(self).ip_view() == old(self).ip_view(),
            final(self).port_view() == old(self).port_view(),
    {
        self.terminator = Some(terminator);
    }

    pub fn set_port(&mut self, port: usize)
        ensures
            final(self).port_view() == Some(port),
            final(self).ip_view() == old(self).ip_view(),
            final(self).terminator_view() == old(self).terminator_view(),
    {
        self.port = Some(port);
    }

    /// Hands the configured values out for the transport layer to bind on.
    pub fn address_parts(&self) -> (r: (Option<String>, Option<usize>, Option<String>))
        ensures
            match r.0 {
                Some(s) => self.ip_view() == Some(s@),
                None => self.ip_view() == None::<Seq<char>>,
            },
            r.1 == self.port_view(),
            match r.2 {
                Some(s) => self.terminator_view() == Some(s@),
                None => self.terminator_view() == None::<Seq<char>>,
            },
    {
        let ip = match &self.ip {
            Some(s) => Some(s.clone()),
            None => None,
        };
        let term = match &self.terminator {
            Some(s) => Some(s.clone()),
            None => None,
        };
        (ip, self.port, term)
    }
}

} // verus!
