//! Network addresses as text.
use crate::number::{dec, push_dec};
use crate::text::{chars_of, find_char, lemma_first_index, same_text};
use vstd::prelude::*;

verus! {

/// An address and a port.
#[derive(Debug, PartialEq, Eq)]
pub struct Endpoint {
    pub ip: String,
    pub port: u16,
}

pub struct EndpointView {
    pub ip: Seq<char>,
    pub port: u16,
}

impl View for Endpoint {
    type V = EndpointView;

    open spec fn view(&self) -> EndpointView {
        EndpointView { ip: self.ip@, port: self.port }
    }
}

impl EndpointView {
    /// The address and the port; an address with colons stands in brackets.
    pub open spec fn text(self) -> Seq<char> {
        if self.ip.contains(':') {
            "["@ + self.ip + "]:"@ + dec(self.port as nat)
        } else {
            self.ip + ":"@ + dec(self.port as nat)
        }
    }
}

impl Clone for Endpoint {
    fn clone(&self) -> (r: Self)
        ensures
            r@ == self@,
    {
        Endpoint { ip: self.ip.clone(), port: self.port }
    }
}

impl Endpoint {
    pub fn new(ip: &str, port: u16) -> (r: Self)
        ensures
            r@ == (EndpointView { ip: ip@, port }),
    {
        Endpoint { ip: ip.to_owned(), port }
    }

    /// The address and the port; an address with colons stands in brackets.
    pub fn to_string(&self) -> (r: String)
        ensures
            r@ == self@.text(),
    {
        let cs = chars_of(self.ip.as_str());
        proof {
            lemma_first_index(cs@, ':');
        }
        let mut s;
        if find_char(cs.as_slice(), ':') < cs.len() {
            s = "[".to_owned();
            s.append(self.ip.as_str());
            s.append("]:");
        } else {
            s = self.ip.clone();
            s.append(":");
        }
        push_dec(&mut s, self.port as u64);
        s
    }

    /// Whether the two are the same address and port.
    pub fn same(&self, other: &Endpoint) -> (r: bool)
        ensures
            r == (self@ == other@),
    {
        self.port == other.port && same_text(self.ip.as_str(), other.ip.as_str())
    }
}

} // verus!
