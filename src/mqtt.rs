use vstd::prelude::*;

verus! {

/// Where a listener accepts connections, and what it needs to do so.
#[derive(Debug, Clone)]
pub struct Listen {
    pub addr: String,
    pub path: String,
    pub cert: String,
    pub key: String,
}

/// The mathematical value of a [`Listen`].
pub struct ListenView {
    pub addr: Seq<char>,
    pub path: Seq<char>,
    pub cert: Seq<char>,
    pub key: Seq<char>,
}

impl View for Listen {
    type V = ListenView;

    open spec fn view(&self) -> ListenView {
        ListenView { addr: self.addr@, path: self.path@, cert: self.cert@, key: self.key@ }
    }
}

/// A broker's configuration: its listeners, each a transport name ("tcp",
/// "tls", "ws" or "wss") and where it listens.
#[derive(Debug)]
pub struct Mqtt {
    listens: Vec<(String, Listen)>,
    max_connections: usize,
    proxy_protocol: bool,
}

impl Mqtt {
    /// The listeners, in the order they were added.
    pub closed spec fn spec_listens(&self) -> Seq<(Seq<char>, ListenView)> {
        self.listens@.map_values(|e: (String, Listen)| (e.0@, e.1@))
    }

    pub fn new() -> (r: Mqtt)
        ensures
            r.spec_listens().len() == 0,
    {
        Mqtt { listens: Vec::new(), max_connections: 0, proxy_protocol: false }
    }

    fn add(&mut self, protocol: &str, listen: Listen)
        ensures
            final(self).spec_listens() == old(self).spec_listens().push((protocol@, listen@)),
    {
        self.listens.push((protocol.to_owned(), listen));
        assert(self.spec_listens() =~= old(self).spec_listens().push((protocol@, listen@)));
    }

    /// Adds a plain TCP listener on `addr`.
    pub fn tcp(&mut self, addr: &str) -> (r: &mut Mqtt)
        ensures
            *final(self) == *final(r),
            r.spec_listens() == old(self).spec_listens().push(
                ("tcp"@, ListenView { addr: addr@, path: seq![], cert: seq![], key: seq![] }),
            ),
    {
        let listen = Listen {
            addr: addr.to_owned(),
            path: String::new(),
            cert: String::new(),
            key: String::new(),
        };
        self.add("tcp", listen);
        self
    }

    /// Adds a TLS listener on `addr`, with the PEM certificate chain and key at
    /// the paths `cert` and `key`.
    pub fn tls(&mut self, addr: &str, cert: &str, key: &str) -> (r: &mut Mqtt)
        ensures
            *final(self) == *final(r),
            r.spec_listens() == old(self).spec_listens().push(
                ("tls"@, ListenView { addr: addr@, path: seq![], cert: cert@, key: key@ }),
            ),
    {
        let listen = Listen {
            addr: addr.to_owned(),
            path: String::new(),
            cert: cert.to_owned(),
            key: key.to_owned(),
        };
        self.add("tls", listen);
        self
    }

    /// Adds a WebSocket listener on `addr`, at the HTTP path `path`.
    pub fn ws(&mut self, addr: &str, path: &str) -> (r: &mut Mqtt)
        ensures
            *final(self) == *final(r),
            r.spec_listens() == old(self).spec_listens().push(
                ("ws"@, ListenView { addr: addr@, path: path@, cert: seq![], key: seq![] }),
            ),
    {
        let listen = Listen {
            addr: addr.to_owned(),
            path: path.to_owned(),
            cert: String::new(),
            key: String::new(),
        };
        self.add("ws", listen);
        self
    }

    /// Adds a WebSocket-over-TLS listener on `addr`, at the HTTP path `path`.
    pub fn wss(&mut self, addr: &str, path: &str, cert: &str, key: &str) -> (r: &mut Mqtt)
        ensures
            *final(self) == *final(r),
            r.spec_listens() == old(self).spec_listens().push(
                ("wss"@, ListenView { addr: addr@, path: path@, cert: cert@, key: key@ }),
            ),
    {
        let listen = Listen {
            addr: addr.to_owned(),
            path: path.to_owned(),
            cert: cert.to_owned(),
            key: key.to_owned(),
        };
        self.add("wss", listen);
        self
    }

    /// A broker with no listener listens on 0.0.0.0:1883, plain TCP.
    pub fn ensure_listener(&mut self)
        ensures
            old(self).spec_listens().len() > 0 ==> final(self).spec_listens() == old(
                self,
            ).spec_listens(),
            old(self).spec_listens().len() == 0 ==> final(self).spec_listens() == seq![
                (
                    "tcp"@,
                    ListenView { addr: "0.0.0.0:1883"@, path: seq![], cert: seq![], key: seq![] },
                ),
            ],
    {
        if self.listens.len() == 0 {
            self.tcp("0.0.0.0:1883");
            assert(self.spec_listens() =~= seq![
                (
                    "tcp"@,
                    ListenView { addr: "0.0.0.0:1883"@, path: seq![], cert: seq![], key: seq![] },
                ),
            ]);
        }
    }

    /// The listeners, in the order they were added.
    pub fn listens(&self) -> (r: &Vec<(String, Listen)>)
        ensures
            r@.map_values(|e: (String, Listen)| (e.0@, e.1@)) == self.spec_listens(),
    {
        &self.listens
    }
}

} // verus!
