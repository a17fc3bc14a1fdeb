//! Protocol and port pairs, and the `[http[s]:]<0-65535>` notation that names them.
use vstd::prelude::*;
use vstd::string::*;
use crate::text::{parse_uint, parse_uint_spec};

verus! {

/// A protocol and a port to probe on each target.
#[derive(Clone)]
pub struct ProtoPort {
    pub proto: String,
    pub port: u16,
}

impl View for ProtoPort {
    type V = (Seq<char>, u16);

    open spec fn view(&self) -> (Seq<char>, u16) {
        (self.proto@, self.port)
    }
}

impl ProtoPort {
    pub fn new(proto: String, port: u16) -> (r: Self)
        ensures
            r@ == (proto@, port),
    {
        Self { proto, port }
    }

    /// A copy of this pair.
    pub fn duplicate(&self) -> (r: Self)
        ensures
            r@ == self@,
    {
        Self { proto: self.proto.clone(), port: self.port }
    }
}

pub open spec fn pairs_view(s: Seq<ProtoPort>) -> Seq<(Seq<char>, u16)> {
    s.map_values(|p: ProtoPort| p@)
}

pub open spec fn http_name() -> Seq<char> {
    seq!['h', 't', 't', 'p']
}

pub open spec fn https_name() -> Seq<char> {
    seq!['h', 't', 't', 'p', 's']
}

/// A port number written in decimal, as std reads a `u16`.
pub open spec fn port_number(s: Seq<char>) -> Option<nat> {
    parse_uint_spec(s, 65535)
}

/// The pairs that one port specification names: a bare port stands for
/// `http` and `https` on that port, `http:<port>` and `https:<port>` for the
/// one protocol. `None` where the text is no port specification.
pub open spec fn port_spec_pairs(s: Seq<char>) -> Option<Seq<(Seq<char>, u16)>> {
    if port_number(s) is Some {
        let p = port_number(s)->0 as u16;
        Some(seq![(http_name(), p), (https_name(), p)])
    } else if s.len() >= 5 && s.subrange(0, 5) == http_name().push(':')
        && port_number(s.subrange(5, s.len() as int)) is Some {
        Some(seq![(http_name(), port_number(s.subrange(5, s.len() as int))->0 as u16)])
    } else if s.len() >= 6 && s.subrange(0, 6) == https_name().push(':')
        && port_number(s.subrange(6, s.len() as int)) is Some {
        Some(seq![(https_name(), port_number(s.subrange(6, s.len() as int))->0 as u16)])
    } else {
        None
    }
}

pub open spec fn is_port_spec(s: Seq<char>) -> bool {
    port_spec_pairs(s) is Some
}

/// Whether `s` begins with the characters of `p`.
pub fn starts_with(s: &str, p: &str) -> (r: bool)
    ensures
        r == (p@.len() <= s@.len() && s@.subrange(0, p@.len() as int) == p@),
{
    let n = p.unicode_len();
    let m = s.unicode_len();
    if n > m {
        return false;
    }
    let mut i: usize = 0;
    while i < n
        invariant
            i <= n <= m,
            n == p@.len(),
            m == s@.len(),
            forall|k: int| 0 <= k < i ==> s@[k] == p@[k],
        decreases n - i,
    {
        if s.get_char(i) != p.get_char(i) {
            assert(s@.subrange(0, n as int)[i as int] != p@[i as int]);
            return false;
        }
        i = i + 1;
    }
    assert(s@.subrange(0, n as int) =~= p@);
    true
}

fn pair(name: &str, port: u16) -> (r: ProtoPort)
    ensures
        r@ == (name@, port),
{
    ProtoPort::new(String::from_str(name), port)
}

/// Reads one port specification.
pub fn parse_port_spec(s: &str) -> (r: Option<Vec<ProtoPort>>)
    ensures
        r is Some <==> is_port_spec(s@),
        r is Some ==> pairs_view(r->0@) == port_spec_pairs(s@)->0,
{
    proof {
        reveal_strlit("http");
        reveal_strlit("https");
        reveal_strlit("http:");
        reveal_strlit("https:");
    }
    assert("http"@ =~= http_name());
    assert("https"@ =~= https_name());
    assert("http:"@ =~= http_name().push(':'));
    assert("https:"@ =~= https_name().push(':'));
    let len = s.unicode_len();
    match parse_uint(s, 65535) {
        Some(p) => {
            let mut v: Vec<ProtoPort> = Vec::new();
            v.push(pair("http", p as u16));
            v.push(pair("https", p as u16));
            assert(pairs_view(v@) =~= port_spec_pairs(s@)->0);
            return Some(v);
        }
        None => {},
    }
    if starts_with(s, "http:") {
        match parse_uint(s.substring_char(5, len), 65535) {
            Some(p) => {
                let mut v: Vec<ProtoPort> = Vec::new();
                v.push(pair("http", p as u16));
                assert(pairs_view(v@) =~= port_spec_pairs(s@)->0);
                return Some(v);
            }
            None => {},
        }
    }
    if starts_with(s, "https:") {
        match parse_uint(s.substring_char(6, len), 65535) {
            Some(p) => {
                let mut v: Vec<ProtoPort> = Vec::new();
                v.push(pair("https", p as u16));
                assert(pairs_view(v@) =~= port_spec_pairs(s@)->0);
                return Some(v);
            }
            None => {},
        }
    }
    None
}

} // verus!
