//! The parts of the addresses that a user types.
use super::softphone::{opt_endpoint, PhoneError, PhoneErrorView};
use crate::net::{Endpoint, EndpointView};
use crate::number::{dec, parse_uint, push_dec, uint_of};
use crate::text::{
    after_last, begins_with, chars_of, cut, find_after_last, lemma_first_index_is, split_once,
    starts_with, string_of, strip_back, strip_prefix, without_prefix,
};
use vstd::prelude::*;
use vstd::slice::slice_subrange;

verus! {

/// `uri` without the scheme `sip:`, where it has it.
pub open spec fn schemeless(uri: Seq<char>) -> Seq<char> {
    match without_prefix(uri, "sip:"@) {
        Some(t) => t,
        None => uri,
    }
}

fn drop_scheme(cs: &[char]) -> (r: &[char])
    ensures
        r@ == schemeless(cs@),
{
    match strip_prefix(cs, "sip:") {
        Some(t) => t,
        None => cs,
    }
}

/// `uri` with the scheme `sip:`, which is put before it where it is missing.
pub open spec fn with_scheme(uri: Seq<char>) -> Seq<char> {
    if begins_with(uri, "sip:"@) {
        uri
    } else {
        "sip:"@ + uri
    }
}

/// `uri` with the scheme `sip:`, which is put before it where it is missing.
pub fn add_scheme(uri: &str) -> (r: String)
    ensures
        r@ == with_scheme(uri@),
{
    let cs = chars_of(uri);
    if starts_with(cs.as_slice(), "sip:") {
        uri.to_owned()
    } else {
        let mut s = "sip:".to_owned();
        s.append(uri);
        s
    }
}

/// What stands behind the first `@`, or all of it where there is none.
pub open spec fn host_of(uri: Seq<char>) -> Seq<char> {
    match cut(schemeless(uri), '@') {
        Some((_, host)) => host,
        None => schemeless(uri),
    }
}

/// What stands before the first `@`, if there is one and something before it.
pub open spec fn user_of(uri: Seq<char>) -> Option<Seq<char>> {
    match cut(schemeless(uri), '@') {
        Some((user, _)) => if user.len() == 0 {
            None
        } else {
            Some(user)
        },
        None => None,
    }
}

/// The host of a SIP URI, with the port where it has one: `example.com:5070`
/// of `sip:bob@example.com:5070`.
pub fn extract_host_from_uri(uri: &str) -> (r: Option<String>)
    ensures
        r is Some,
        r->0@ == host_of(uri@),
{
    let cs = chars_of(uri);
    let rest = drop_scheme(cs.as_slice());
    match split_once(rest, '@') {
        Some((_, host)) => Some(string_of(host)),
        None => Some(string_of(rest)),
    }
}

/// The user of a SIP URI: `bob` of `sip:bob@example.com`.
pub fn extract_user_from_uri(uri: &str) -> (r: Option<String>)
    ensures
        match r {
            Some(u) => user_of(uri@) == Some(u@),
            None => user_of(uri@) is None,
        },
{
    let cs = chars_of(uri);
    let rest = drop_scheme(cs.as_slice());
    match split_once(rest, '@') {
        Some((user, _)) => if user.len() == 0 {
            None
        } else {
            Some(string_of(user))
        },
        None => None,
    }
}

/// A URI that names a user and a host has both read from it, with its scheme
/// and without.
pub proof fn law_uri_parts(user: Seq<char>, host: Seq<char>)
    requires
        user.len() > 0,
        !user.contains('@'),
    ensures
        user_of("sip:"@ + user + "@"@ + host) == Some(user),
        host_of("sip:"@ + user + "@"@ + host) == host,
        !begins_with(user + "@"@ + host, "sip:"@) ==> with_scheme(user + "@"@ + host) == "sip:"@
            + user + "@"@ + host,
{
    reveal_strlit("@");
    reveal_strlit("sip:");
    let rest = user + "@"@ + host;
    let uri = "sip:"@ + user + "@"@ + host;
    assert(uri =~= "sip:"@ + rest);
    assert(uri.take(4) =~= "sip:"@);
    assert(uri.skip(4) =~= rest);
    assert forall|j: int| 0 <= j < user.len() implies rest[j] != '@' by {
        assert(rest[j] == user[j]);
        assert(user.contains(user[j]));
    }
    lemma_first_index_is(rest, '@', user.len() as int);
    assert(rest.take(user.len() as int) =~= user);
    assert(rest.skip(user.len() as int + 1) =~= host);
}

// ---------------------------------------------------------------------------
// Servers
// ---------------------------------------------------------------------------

/// What stands before the last colon, and the port behind it if it is one.
pub open spec fn host_and_port(s: Seq<char>) -> Option<(Seq<char>, Option<nat>)> {
    let k = after_last(s, ':');
    if k > 0 {
        Some((s.take(k - 1), uint_of(s.skip(k), u16::MAX as nat)))
    } else {
        None
    }
}

/// The forms in which the address of a server can be read.
#[derive(Debug)]
pub struct ServerName {
    /// The address, without the scheme.
    pub text: String,
    /// What stands before the last colon of the address, or all of it.
    pub hostname: String,
    /// The port behind the last colon, if there is one.
    pub port: Option<u16>,
}

/// The host to look up in the address of a server, and its port if it has one.
pub open spec fn server_host(s: Seq<char>) -> (Seq<char>, Option<nat>) {
    match host_and_port(s) {
        Some((h, p)) => (h, p),
        None => (s, None),
    }
}

impl ServerName {
    pub open spec fn reads(&self, server: Seq<char>) -> bool {
        let (host, port) = server_host(schemeless(server));
        &&& self.text@ == schemeless(server)
        &&& self.hostname@ == host
        &&& match self.port {
            Some(p) => port == Some(p as nat),
            None => port is None,
        }
    }

    /// Reads the address of a server, such as `sip:example.com:5070`.
    pub fn of(server: &str) -> (r: Self)
        ensures
            r.reads(server@),
    {
        let all = chars_of(server);
        let cs = drop_scheme(all.as_slice());
        let k: usize = find_after_last(cs, ':');
        if k > 0 {
            let host = slice_subrange(cs, 0, k - 1);
            let port = slice_subrange(cs, k, cs.len());
            assert(host@ =~= cs@.take(k - 1));
            assert(port@ =~= cs@.skip(k as int));
            let number = match parse_uint(port, 65535) {
                Some(p) => Some(p as u16),
                None => None,
            };
            ServerName { text: string_of(cs), hostname: string_of(host), port: number }
        } else {
            ServerName { text: string_of(cs), hostname: string_of(cs), port: None }
        }
    }

    /// The service record that says where the server is; there is none to ask
    /// for where the address has a port.
    pub fn service_name(&self) -> (r: Option<String>)
        ensures
            match r {
                Some(s) => self.port is None && s@ == "_sip._udp."@ + self.hostname@,
                None => self.port is Some,
            },
    {
        match self.port {
            Some(_) => None,
            None => {
                let mut s = "_sip._udp.".to_owned();
                s.append(self.hostname.as_str());
                Some(s)
            },
        }
    }

    /// The host and the port to resolve, with 5060 for a port that is missing.
    pub fn lookup_name(&self) -> (r: String)
        ensures
            r@ == self.hostname@ + ":"@ + dec(
                match self.port {
                    Some(p) => p as nat,
                    None => 5060,
                },
            ),
    {
        let mut s = self.hostname.clone();
        s.append(":");
        match self.port {
            Some(p) => push_dec(&mut s, p as u64),
            None => push_dec(&mut s, 5060),
        }
        s
    }
}

impl ServerName {
    /// The address of a server that needs no resolving. `whole` is what the text
    /// reads as, if it is an address with a port; `host` is what the hostname
    /// reads as, and `text` what the whole text does, if they are addresses.
    pub fn fixed(&self, whole: Option<Endpoint>, host: Option<String>, text: Option<String>) -> (r:
        Option<Endpoint>)
        ensures
            opt_endpoint(r) == (match whole {
                Some(e) => Some(e@),
                None => if self.port is Some && host is Some {
                    Some(EndpointView { ip: host->0@, port: self.port->0 })
                } else if text is Some {
                    Some(EndpointView { ip: text->0@, port: 5060 })
                } else {
                    None
                },
            }),
    {
        if let Some(e) = whole {
            return Some(e);
        }
        if let Some(port) = self.port {
            if let Some(ip) = host {
                return Some(Endpoint { ip, port });
            }
        }
        match text {
            Some(ip) => Some(Endpoint { ip, port: 5060 }),
            None => None,
        }
    }
}

/// The failure to find a server.
pub fn unresolved(server: &str) -> (r: PhoneError)
    ensures
        r@ == PhoneErrorView::CallFailed("Cannot resolve server address: "@ + server@),
{
    let mut s = "Cannot resolve server address: ".to_owned();
    s.append(server);
    PhoneError::CallFailed(s)
}

/// The name of a host without the dots at its end, which only mark it as complete.
pub fn without_final_dots(name: &str) -> (r: String)
    ensures
        r@ == strip_back(name@, '.'),
{
    let cs = chars_of(name);
    let mut n: usize = cs.len();
    assert(cs@.take(n as int) =~= cs@);
    while n > 0 && cs[n - 1] == '.'
        invariant
            n <= cs@.len(),
            strip_back(cs@.take(n as int), '.') == strip_back(cs@, '.'),
        decreases n,
    {
        assert(cs@.take(n as int).drop_last() =~= cs@.take(n - 1));
        n = n - 1;
    }
    let t = slice_subrange(cs.as_slice(), 0, n);
    assert(t@ =~= cs@.take(n as int));
    string_of(t)
}

/// The first address of version 4, or else the first of all: the phone is
/// bound to an address of version 4. Each element says whether it is one.
pub fn prefer_ipv4(is_ipv4: &[bool]) -> (r: Option<usize>)
    ensures
        match r {
            None => is_ipv4@.len() == 0,
            Some(i) => {
                &&& i < is_ipv4@.len()
                &&& is_ipv4@.contains(true) ==> is_ipv4@[i as int] && forall|j: int|
                    0 <= j < i ==> !is_ipv4@[j]
                &&& !is_ipv4@.contains(true) ==> i == 0
            },
        },
{
    let n: usize = is_ipv4.len();
    let mut i: usize = 0;
    while i < n
        invariant
            n == is_ipv4@.len(),
            i <= n,
            forall|j: int| 0 <= j < i ==> !is_ipv4@[j],
        decreases n - i,
    {
        if is_ipv4[i] {
            return Some(i);
        }
        i = i + 1;
    }
    if n > 0 {
        Some(0)
    } else {
        None
    }
}

/// A service record: where a server is, and how it ranks among others.
#[derive(Debug, Clone, Copy, PartialEq, Eq, Structural)]
pub struct ServiceRank {
    pub priority: u16,
    pub weight: u16,
}

/// Whether `a` is tried before `b`: a lower priority is, and among equals a
/// greater weight.
pub open spec fn ranks_before(a: ServiceRank, b: ServiceRank) -> bool {
    a.priority < b.priority || (a.priority == b.priority && a.weight > b.weight)
}

/// The order in which a list of positions has the records: none stands behind
/// one that ranks after it, and records of one rank stay as they were.
pub open spec fn in_service_order(order: Seq<usize>, ranks: Seq<ServiceRank>) -> bool {
    forall|i: int, j: int|
        0 <= i < j < order.len() ==> {
            let a = #[trigger] order[i];
            let b = #[trigger] order[j];
            &&& a < ranks.len()
            &&& b < ranks.len()
            &&& !ranks_before(ranks[b as int], ranks[a as int])
            &&& ranks[a as int] == ranks[b as int] ==> a < b
        }
}

/// The positions of the records, in the order in which they are tried.
pub fn service_order(ranks: &[ServiceRank]) -> (r: Vec<usize>)
    ensures
        r@.len() == ranks@.len(),
        r@.no_duplicates(),
        forall|i: int| 0 <= i < r@.len() ==> #[trigger] r@[i] < ranks@.len(),
        in_service_order(r@, ranks@),
{
    let n: usize = ranks.len();
    let mut order: Vec<usize> = Vec::new();
    let mut k: usize = 0;
    while k < n
        invariant
            n == ranks@.len(),
            k <= n,
            order@.len() == k,
            order@.no_duplicates(),
            forall|i: int| 0 <= i < k ==> #[trigger] order@[i] < k,
            in_service_order(order@, ranks@),
        decreases n - k,
    {
        let mut p: usize = k;
        let ghost before = order@;
        while p > 0 && (ranks[k].priority < ranks[order[p - 1]].priority || (ranks[k].priority
            == ranks[order[p - 1]].priority && ranks[k].weight > ranks[order[p - 1]].weight))
            invariant
                n == ranks@.len(),
                k < n,
                p <= k,
                order@ == before,
                order@.len() == k,
                forall|i: int| 0 <= i < k ==> #[trigger] order@[i] < k,
                forall|i: int|
                    p <= i < k ==> ranks_before(
                        ranks@[k as int],
                        ranks@[#[trigger] order@[i] as int],
                    ),
            decreases p,
        {
            p = p - 1;
        }
        order.insert(p, k);
        assert forall|i: int, j: int| 0 <= i < j < order@.len() implies {
            let a = #[trigger] order@[i];
            let b = #[trigger] order@[j];
            &&& a < ranks@.len()
            &&& b < ranks@.len()
            &&& !ranks_before(ranks@[b as int], ranks@[a as int])
            &&& ranks@[a as int] == ranks@[b as int] ==> a < b
        } by {
            let oi = if i < p { i } else { i - 1 };
            let oj = if j < p { j } else { j - 1 };
            if i != p {
                assert(order@[i] == before[oi]);
            }
            if j != p {
                assert(order@[j] == before[oj]);
            }
            if j == p && p > 0 {
                assert(oi <= p - 1);
                if oi < p - 1 {
                    assert(!ranks_before(
                        ranks@[before[p - 1] as int],
                        ranks@[before[oi] as int],
                    ));
                }
            }
        }
        assert forall|i: int| 0 <= i < order@.len() implies #[trigger] order@[i] < k + 1 by {
            if i != p {
                assert(order@[i] == before[if i < p { i } else { i - 1 }]);
            }
        }
        assert(order@.no_duplicates()) by {
            assert forall|i: int, j: int|
                0 <= i < order@.len() && 0 <= j < order@.len() && i != j implies order@[i]
                != order@[j] by {
                if i != p {
                    assert(order@[i] == before[if i < p { i } else { i - 1 }]);
                }
                if j != p {
                    assert(order@[j] == before[if j < p { j } else { j - 1 }]);
                }
            }
        }
        k = k + 1;
    }
    order
}

} // verus!
