//! The registry data model and the route cache: registry records
//! (`Resource`), the live set per service identity (`ResourceInfo`),
//! registry connection configuration, and the cache that maps a service
//! identity to its current snapshot.

use vstd::prelude::*;

use crate::context::ProtocolKind;

verus! {

/// Whether a registry record advertises a server or tracks a client
/// dependency.
#[derive(Clone, Copy, PartialEq, Eq, Structural)]
pub enum Category {
    Server,
    Client,
}

/// One registry record: a network-reachable instance of a service.
pub struct Resource {
    pub server_name: String,
    pub category: Category,
    pub group: Option<String>,
    pub version: Option<String>,
    pub methods: Vec<String>,
    pub ip: String,
    pub port: Option<String>,
    pub params: Vec<(String, String)>,
}

/// The currently-known live resources of one service identity.
pub struct ResourceInfo {
    pub resources: Vec<Resource>,
}

/// The configuration of one registry connection.
pub struct RegisterBuilder {
    pub addr: String,
    pub app_name: Option<String>,
    pub protocol: ProtocolKind,
}

/// The snapshot stored under `key`: the most recent write shadows older
/// ones, so the first match is the current value.
pub open spec fn spec_route_lookup(entries: Seq<(String, ResourceInfo)>, key: Seq<char>) -> Option<
    ResourceInfo,
>
    decreases entries.len(),
{
    if entries.len() == 0 {
        None
    } else if entries[0].0@ == key {
        Some(entries[0].1)
    } else {
        spec_route_lookup(entries.drop_first(), key)
    }
}

/// The route cache: service identity to its current `ResourceInfo`.
/// An update replaces the snapshot under its key whole, and a lookup
/// returns the latest snapshot whole — never a partial mutation. The
/// surrounding runtime shares one cache by swapping a pointer to it, so
/// each reader holds a value some writer stored.
pub struct RouteCache {
    pub entries: Vec<(String, ResourceInfo)>,
}

impl RouteCache {
    pub fn new() -> (r: Self)
        ensures
            r.entries@.len() == 0,
    {
        RouteCache { entries: Vec::new() }
    }

    /// Law: replacing a snapshot is atomic per key — afterwards the
    /// updated key reads exactly the written value, and every other key
    /// reads exactly what it read before.
    pub fn update(&mut self, key: String, info: ResourceInfo)
        ensures
            spec_route_lookup(final(self).entries@, key@) == Some(info),
            forall|k: Seq<char>|
                k != key@ ==> #[trigger] spec_route_lookup(final(self).entries@, k)
                    == spec_route_lookup(old(self).entries@, k),
    {
        self.entries.insert(0, (key, info));
        proof {
            assert(self.entries@.drop_first() =~= old(self).entries@);
        }
    }

    /// The current snapshot of one service identity.
    pub fn lookup<'a>(&'a self, key: &String) -> (r: Option<&'a ResourceInfo>)
        ensures
            r matches Some(info) ==> spec_route_lookup(self.entries@, key@) == Some(*info),
            r is None ==> spec_route_lookup(self.entries@, key@) is None,
    {
        proof {
            assert(self.entries@.skip(0) =~= self.entries@);
        }
        let mut i: usize = 0;
        while i < self.entries.len()
            invariant
                i <= self.entries@.len(),
                spec_route_lookup(self.entries@, key@) == spec_route_lookup(
                    self.entries@.skip(i as int),
                    key@,
                ),
            decreases self.entries@.len() - i,
        {
            proof {
                assert(self.entries@.skip(i as int).drop_first() =~= self.entries@.skip(
                    i as int + 1,
                ));
            }
            if self.entries[i].0 == *key {
                return Some(&self.entries[i].1);
            }
            i += 1;
        }
        None
    }
}

} // verus!
