//! The server configuration: the protocols to serve, the bound RPC
//! servers keyed by their handler key, and the registries to join; plus
//! the dispatch lookup and the registry record a bound server
//! advertises.

use vstd::prelude::*;
use vstd::string::StringExecFns;

use crate::context::ProtocolKind;
use crate::error::{err_view, ErrView, FusenError};
use crate::register::{Category, RegisterBuilder, Resource};

verus! {

/// One served protocol: its kind and listening port.
pub struct Protocol {
    pub kind: ProtocolKind,
    pub port: String,
}

/// What one bound RPC server advertises: its interface id, optional
/// version, and method names.
pub struct ServerInfo {
    pub id: String,
    pub version: Option<String>,
    pub methods: Vec<String>,
}

/// The key one bound server is dispatched under: its id, with
/// `:version` appended when a version is present.
pub open spec fn spec_server_key(info: ServerInfo) -> Seq<char> {
    match info.version {
        Some(v) => info.id@ + seq![':'] + v@,
        None => info.id@,
    }
}

/// The server bound under `key`: the most recent binding shadows older
/// ones.
pub open spec fn spec_server_lookup(entries: Seq<(String, ServerInfo)>, key: Seq<char>) -> Option<
    ServerInfo,
>
    decreases entries.len(),
{
    if entries.len() == 0 {
        None
    } else if entries[0].0@ == key {
        Some(entries[0].1)
    } else {
        spec_server_lookup(entries.drop_first(), key)
    }
}

/// The server under construction: protocols, bound servers, registries.
pub struct FusenServer {
    pub protocol: Vec<Protocol>,
    pub fusen_servers: Vec<(String, ServerInfo)>,
    pub register_builder: Vec<RegisterBuilder>,
}

impl FusenServer {
    /// An empty configuration.
    pub fn build() -> (r: FusenServer)
        ensures
            r.protocol@.len() == 0,
            r.fusen_servers@.len() == 0,
            r.register_builder@.len() == 0,
    {
        FusenServer { protocol: Vec::new(), fusen_servers: Vec::new(), register_builder: Vec::new() }
    }

    /// Adds one protocol to serve.
    pub fn add_protocol(self, protocol: Protocol) -> (r: FusenServer)
        ensures
            r.protocol@ == self.protocol@.push(protocol),
            r.fusen_servers@ == self.fusen_servers@,
            r.register_builder@ == self.register_builder@,
    {
        let mut s = self;
        s.protocol.push(protocol);
        s
    }

    /// Adds one registry to join.
    pub fn add_register_builder(self, register_builder: RegisterBuilder) -> (r: FusenServer)
        ensures
            r.register_builder@ == self.register_builder@.push(register_builder),
            r.protocol@ == self.protocol@,
            r.fusen_servers@ == self.fusen_servers@,
    {
        let mut s = self;
        s.register_builder.push(register_builder);
        s
    }

    /// Binds one RPC server under its handler key.
    pub fn add_fusen_server(self, server: ServerInfo) -> (r: FusenServer)
        ensures
            r.fusen_servers@.len() == self.fusen_servers@.len() + 1,
            r.fusen_servers@[0].0@ == spec_server_key(server),
            r.fusen_servers@[0].1 == server,
            r.fusen_servers@.drop_first() == self.fusen_servers@,
            r.protocol@ == self.protocol@,
            r.register_builder@ == self.register_builder@,
            spec_server_lookup(r.fusen_servers@, spec_server_key(server)) == Some(server),
            forall|k: Seq<char>|
                k != spec_server_key(server) ==> #[trigger] spec_server_lookup(
                    r.fusen_servers@,
                    k,
                ) == spec_server_lookup(self.fusen_servers@, k),
    {
        let ghost orig = self.fusen_servers@;
        let mut key = server.id.clone();
        match &server.version {
            Some(v) => {
                proof {
                    reveal_strlit(":");
                }
                key.append(":");
                key.append(v.as_str());
            },
            None => {},
        }
        let ghost skey = spec_server_key(server);
        let mut s = self;
        s.fusen_servers.insert(0, (key, server));
        proof {
            assert(s.fusen_servers@.drop_first() =~= orig);
            assert(s.fusen_servers@[0].0@ == skey);
            assert forall|k: Seq<char>| k != skey implies #[trigger] spec_server_lookup(
                s.fusen_servers@,
                k,
            ) == spec_server_lookup(orig, k) by {
                assert(spec_server_lookup(s.fusen_servers@, k) == spec_server_lookup(
                    s.fusen_servers@.drop_first(),
                    k,
                ));
            }
        }
        s
    }

    /// Server dispatch: the bound server for a request's handler key.
    /// An unknown key is refused with `NotFind`, which the response
    /// codec answers with gRPC status 91.
    pub fn dispatch<'a>(&'a self, key: &String) -> (r: Result<&'a ServerInfo, FusenError>)
        ensures
            r matches Ok(info) ==> spec_server_lookup(self.fusen_servers@, key@) == Some(*info),
            r matches Err(e) ==> spec_server_lookup(self.fusen_servers@, key@) is None && err_view(
                e,
            ) == ErrView::NotFind(key@),
    {
        proof {
            assert(self.fusen_servers@.skip(0) =~= self.fusen_servers@);
        }
        let mut i: usize = 0;
        while i < self.fusen_servers.len()
            invariant
                i <= self.fusen_servers@.len(),
                spec_server_lookup(self.fusen_servers@, key@) == spec_server_lookup(
                    self.fusen_servers@.skip(i as int),
                    key@,
                ),
            decreases self.fusen_servers@.len() - i,
        {
            proof {
                assert(self.fusen_servers@.skip(i as int).drop_first() =~= self.fusen_servers@.skip(
                    i as int + 1,
                ));
            }
            if self.fusen_servers[i].0 == *key {
                return Ok(&self.fusen_servers[i].1);
            }
            i += 1;
        }
        Err(FusenError::NotFind(key.clone()))
    }
}

/// The registry record one bound server advertises on one port.
pub fn resource_of_server(info: ServerInfo, ip: String, port: Option<String>) -> (r: Resource)
    ensures
        r.server_name == info.id,
        r.category == Category::Server,
        r.group is None,
        r.version == info.version,
        r.methods == info.methods,
        r.ip == ip,
        r.port == port,
        r.params@.len() == 0,
{
    Resource {
        server_name: info.id,
        category: Category::Server,
        group: None,
        version: info.version,
        methods: info.methods,
        ip,
        port,
        params: Vec::new(),
    }
}

} // verus!
