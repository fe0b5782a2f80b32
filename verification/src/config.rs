//! The ICE server configuration surface: validation of user-supplied
//! server lists and the default public STUN servers used when none is
//! set.

use vstd::prelude::*;
use crate::session::Session;
use crate::strutil::str_eq;
use crate::types::{ServerConfig, ServerConfigV};

verus! {

/// One server entry is acceptable: a non-empty URL, and for a TURN
/// server both a username and a credential.
pub open spec fn server_valid(c: ServerConfigV) -> bool {
    &&& c.url.len() > 0
    &&& (c.kind == "turn"@ ==> c.username is Some && c.credential is Some)
}

/// Every entry of the list is acceptable.
pub open spec fn servers_valid(l: Seq<ServerConfigV>) -> bool {
    forall|i: int| 0 <= i < l.len() ==> server_valid(#[trigger] l[i])
}

/// The views of a server list.
pub open spec fn server_views(l: Seq<ServerConfig>) -> Seq<ServerConfigV> {
    Seq::new(l.len(), |i: int| l[i]@)
}

/// Validates and stores the user's ICE server list. An invalid list is
/// rejected whole and the previous configuration is kept.
pub fn set_ice_servers(s: &mut Session, servers: Vec<ServerConfig>) -> (r: bool)
    ensures
        final(s).wf() == old(s).wf(),
        r == servers_valid(server_views(servers@)),
        r ==> *final(s) == (Session {
            user_ice_servers: Some(servers),
            ..*old(s)
        }),
        !r ==> *final(s) == *old(s),
{
    let n = servers.len();
    let mut i: usize = 0;
    while i < n
        invariant
            i <= n,
            n == servers@.len(),
            forall|k: int| 0 <= k < i ==> server_valid(#[trigger] server_views(servers@)[k]),
        decreases n - i,
    {
        let c = &servers[i];
        proof {
            assert(server_views(servers@)[i as int] == servers@[i as int]@);
        }
        if c.url.as_str().is_empty() {
            return false;
        }
        if str_eq(c.kind.as_str(), "turn") {
            let missing = match (&c.username, &c.credential) {
                (Some(_), Some(_)) => false,
                _ => true,
            };
            if missing {
                return false;
            }
        }
        i = i + 1;
    }
    s.user_ice_servers = Some(servers);
    true
}

/// An exact copy of one server entry.
fn clone_server(c: &ServerConfig) -> (r: ServerConfig)
    ensures
        r == *c,
{
    ServerConfig {
        id: c.id.clone(),
        kind: c.kind.clone(),
        url: c.url.clone(),
        username: match &c.username {
            Some(u) => Some(u.clone()),
            None => None,
        },
        credential: match &c.credential {
            Some(p) => Some(p.clone()),
            None => None,
        },
    }
}

/// The stored user list, or the default public STUN server pair when
/// none has been set.
pub fn get_ice_servers(s: &Session) -> (r: Vec<ServerConfig>)
    ensures
        match s.user_ice_servers {
            Option::Some(l) => r@ == l@,
            Option::None => {
                &&& r@.len() == 2
                &&& r@[0].id@ == "default-stun"@
                &&& r@[0].kind@ == "stun"@
                &&& r@[0].url@ == "stun:stun.l.google.com:19302"@
                &&& r@[0].username is None && r@[0].credential is None
                &&& r@[1].id@ == "default-stun-2"@
                &&& r@[1].kind@ == "stun"@
                &&& r@[1].url@ == "stun:stun1.l.google.com:19302"@
                &&& r@[1].username is None && r@[1].credential is None
            },
        },
{
    match &s.user_ice_servers {
        Some(l) => {
            let mut out: Vec<ServerConfig> = Vec::new();
            let n = l.len();
            let mut i: usize = 0;
            while i < n
                invariant
                    i <= n,
                    n == l@.len(),
                    out@ == l@.take(i as int),
                decreases n - i,
            {
                out.push(clone_server(&l[i]));
                i = i + 1;
                proof {
                    assert(out@ =~= l@.take(i as int));
                }
            }
            proof {
                assert(l@.take(n as int) =~= l@);
            }
            out
        },
        None => {
            let mut out: Vec<ServerConfig> = Vec::new();
            out.push(
                ServerConfig {
                    id: String::from_str("default-stun"),
                    kind: String::from_str("stun"),
                    url: String::from_str("stun:stun.l.google.com:19302"),
                    username: None,
                    credential: None,
                },
            );
            out.push(
                ServerConfig {
                    id: String::from_str("default-stun-2"),
                    kind: String::from_str("stun"),
                    url: String::from_str("stun:stun1.l.google.com:19302"),
                    username: None,
                    credential: None,
                },
            );
            out
        },
    }
}

} // verus!
