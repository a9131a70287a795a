use vstd::prelude::*;

use crate::text::{decimal, push_decimal};

verus! {

/// Identity of one connection: IPv4 address, port and client identity.
/// Two connections are the same resource when all three match.
#[derive(Debug, Clone, Hash, Eq)]
pub struct NetworkTableClientId {
    ip: [u8; 4],
    port: u16,
    identity: String,
}

pub struct ClientIdModel {
    pub ip: Seq<u8>,
    pub port: u16,
    pub identity: Seq<char>,
}

impl View for NetworkTableClientId {
    type V = ClientIdModel;

    closed spec fn view(&self) -> ClientIdModel {
        ClientIdModel { ip: self.ip@, port: self.port, identity: self.identity@ }
    }
}

/// `a.b.c.d:port:identity`, the address in dotted decimal.
pub open spec fn client_id_string(m: ClientIdModel) -> Seq<char> {
    decimal(m.ip[0] as nat) + seq!['.'] + decimal(m.ip[1] as nat) + seq!['.'] + decimal(m.ip[2] as nat)
        + seq!['.'] + decimal(m.ip[3] as nat) + seq![':'] + decimal(m.port as nat) + seq![':'] + m.identity
}

impl NetworkTableClientId {
    pub fn new(ip: [u8; 4], port: u16, identity: String) -> (r: NetworkTableClientId)
        ensures
            r@ == (ClientIdModel { ip: ip@, port, identity: identity@ }),
    {
        NetworkTableClientId { ip, port, identity }
    }

    pub fn ip(&self) -> (r: [u8; 4])
        ensures
            r@ == self@.ip,
    {
        self.ip
    }

    pub fn port(&self) -> (r: u16)
        ensures
            r == self@.port,
    {
        self.port
    }

    pub fn identity(&self) -> (r: &String)
        ensures
            r@ == self@.identity,
    {
        &self.identity
    }

    /// The identity written `a.b.c.d:port:identity`.
    pub fn repr(&self) -> (r: String)
        ensures
            r@ == client_id_string(self@),
    {
        proof {
            reveal_strlit(".");
            reveal_strlit(":");
        }
        let mut s = String::new();
        push_decimal(&mut s, self.ip[0] as u64);
        s.append(".");
        push_decimal(&mut s, self.ip[1] as u64);
        s.append(".");
        push_decimal(&mut s, self.ip[2] as u64);
        s.append(".");
        push_decimal(&mut s, self.ip[3] as u64);
        s.append(":");
        push_decimal(&mut s, self.port as u64);
        s.append(":");
        s.append(self.identity.as_str());
        assert(s@ =~= client_id_string(self@));
        s
    }

    /// A copy with the same address, port and identity.
    pub fn duplicate(&self) -> (r: NetworkTableClientId)
        ensures
            r@ == self@,
    {
        NetworkTableClientId { ip: self.ip, port: self.port, identity: self.identity.clone() }
    }

    /// Whether both name the same connection.
    pub fn same_client(&self, other: &NetworkTableClientId) -> (r: bool)
        ensures
            r == (self@ == other@),
    {
        let r = self.ip[0] == other.ip[0] && self.ip[1] == other.ip[1] && self.ip[2] == other.ip[2]
            && self.ip[3] == other.ip[3] && self.port == other.port && self.identity == other.identity;
        proof {
            if r {
                assert(self.ip@ =~= other.ip@);
            } else if self.ip@ == other.ip@ {
                assert(self.ip@[0] == other.ip@[0] && self.ip@[1] == other.ip@[1]);
                assert(self.ip@[2] == other.ip@[2] && self.ip@[3] == other.ip@[3]);
            }
        }
        r
    }
}

impl PartialEq for NetworkTableClientId {
    fn eq(&self, other: &NetworkTableClientId) -> (r: bool) {
        self.same_client(other)
    }
}

impl vstd::std_specs::cmp::PartialEqSpecImpl for NetworkTableClientId {
    open spec fn obeys_eq_spec() -> bool {
        true
    }

    open spec fn eq_spec(&self, other: &NetworkTableClientId) -> bool {
        self@ == other@
    }
}

/// The string of each connection identity, in order.
pub fn get_connect_client_names(clients: &Vec<NetworkTableClientId>) -> (r: Vec<String>)
    ensures
        r@.len() == clients@.len(),
        forall|i: int| 0 <= i < r@.len() ==> (#[trigger] r@[i])@ == client_id_string(clients@[i]@),
{
    let mut names: Vec<String> = Vec::new();
    let mut i: usize = 0;
    while i < clients.len()
        invariant
            i <= clients@.len(),
            names@.len() == i,
            forall|k: int| 0 <= k < i ==> (#[trigger] names@[k])@ == client_id_string(clients@[k]@),
        decreases clients@.len() - i,
    {
        names.push(clients[i].repr());
        i += 1;
    }
    names
}

} // verus!
