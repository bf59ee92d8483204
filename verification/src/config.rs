//! The proxy's configuration, built step by step, and the listen address's parts.

use vstd::prelude::*;
use vstd::utf8::encode_utf8;
use crate::text::{
    split_nth, split_piece, piece_from, find_from, parse_u16, parse_u16_spec, lemma_find_from_skip,
    lemma_find_from_at, lemma_find_from_end, lemma_find_from_found, decimal, lemma_decimal,
    law_decimal_parses_back,
};

verus! {

#[derive(Debug, Clone)]
pub struct Config {
    pub proxy_ip: String,
    pub proxy_port: u16,
    pub kerberos_service: Vec<u8>,
    pub listen_address: String,
}

/// The address to listen on: in the text after the first `://` (up to any further
/// `://`), what comes before the first `:`; `127.0.0.1` where there is no `://`.
pub open spec fn listen_ip_of(address: Seq<char>) -> Seq<char> {
    match split_piece(address, "://"@, 1) {
        Some(rest) => match split_piece(rest, ":"@, 0) {
            Some(ip) => ip,
            None => "127.0.0.1"@,
        },
        None => "127.0.0.1"@,
    }
}

/// The port to listen on: the text between the second and the third `:` read as a
/// port, and 8080 where there is no such text or it is no port.
pub open spec fn listen_port_of(address: Seq<char>) -> u16 {
    match split_piece(address, ":"@, 2) {
        Some(p) => match parse_u16_spec(p) {
            Some(port) => port,
            None => 8080,
        },
        None => 8080,
    }
}

impl Config {
    /// The configuration before any value is set: the parent proxy at
    /// 127.0.0.1:8080 with service `HTTP@localhost`, listening on
    /// `http://127.0.0.1:8080`.
    pub fn builder() -> (r: Self)
        ensures
            r.proxy_ip@ == "127.0.0.1"@,
            r.proxy_port == 8080,
            r.kerberos_service@ == encode_utf8("HTTP@localhost"@),
            r.listen_address@ == "http://127.0.0.1:8080"@,
    {
        Config {
            proxy_ip: String::from_str("127.0.0.1"),
            proxy_port: 8080,
            kerberos_service: "HTTP@localhost".as_bytes_vec(),
            listen_address: String::from_str("http://127.0.0.1:8080"),
        }
    }

    pub fn with_proxy_ip(self, ip: String) -> (r: Self)
        ensures
            r.proxy_ip@ == ip@,
            r.proxy_port == self.proxy_port,
            r.kerberos_service@ == self.kerberos_service@,
            r.listen_address@ == self.listen_address@,
    {
        let mut c = self;
        c.proxy_ip = ip;
        c
    }

    pub fn with_proxy_port(self, port: u16) -> (r: Self)
        ensures
            r.proxy_ip@ == self.proxy_ip@,
            r.proxy_port == port,
            r.kerberos_service@ == self.kerberos_service@,
            r.listen_address@ == self.listen_address@,
    {
        let mut c = self;
        c.proxy_port = port;
        c
    }

    /// Sets the service name, kept as its UTF-8 bytes.
    pub fn with_kerberos_service(self, service: String) -> (r: Self)
        ensures
            r.proxy_ip@ == self.proxy_ip@,
            r.proxy_port == self.proxy_port,
            r.kerberos_service@ == encode_utf8(service@),
            r.listen_address@ == self.listen_address@,
    {
        let mut c = self;
        c.kerberos_service = service.as_str().as_bytes_vec();
        c
    }

    pub fn with_listen_address(self, address: String) -> (r: Self)
        ensures
            r.proxy_ip@ == self.proxy_ip@,
            r.proxy_port == self.proxy_port,
            r.kerberos_service@ == self.kerberos_service@,
            r.listen_address@ == address@,
    {
        let mut c = self;
        c.listen_address = address;
        c
    }

    pub fn build(self) -> (r: Self)
        ensures
            r == self,
    {
        self
    }

    pub fn get_listen_ip(&self) -> (r: String)
        ensures
            r@ == listen_ip_of(self.listen_address@),
    {
        proof {
            reveal_strlit("://");
            reveal_strlit(":");
        }
        match split_nth(self.listen_address.as_str(), "://", 1) {
            Some(rest) => match split_nth(rest.as_str(), ":", 0) {
                Some(ip) => ip,
                None => String::from_str("127.0.0.1"),
            },
            None => String::from_str("127.0.0.1"),
        }
    }

    pub fn get_listen_port(&self) -> (r: u16)
        ensures
            r == listen_port_of(self.listen_address@),
    {
        proof {
            reveal_strlit(":");
        }
        match split_nth(self.listen_address.as_str(), ":", 2) {
            Some(p) => match parse_u16(p.as_str()) {
                Some(port) => port,
                None => 8080,
            },
            None => 8080,
        }
    }
}

/// Text whose first `host.len()` characters are `host`, followed by nothing or by
/// a `:`, has `host` as its first piece when cut at `:`.
proof fn lemma_first_piece_is(t: Seq<char>, host: Seq<char>)
    requires
        !host.contains(':'),
        host.len() <= t.len(),
        t.subrange(0, host.len() as int) == host,
        host.len() < t.len() ==> t[host.len() as int] == ':',
    ensures
        split_piece(t, ":"@, 0) == Some(host),
{
    reveal_strlit(":");
    let colon = ":"@;
    let h = host.len() as int;
    assert forall|i: int| 0 <= i < h implies t[i] != colon[0] by {
        assert(t[i] == t.subrange(0, h)[i]);
        if host[i] == ':' {
            assert(host.contains(':'));
        }
    }
    lemma_find_from_skip(t, colon, 0, h);
    if h < t.len() {
        assert(t.subrange(h, h + 1) =~= colon);
        lemma_find_from_at(t, colon, h);
    } else {
        lemma_find_from_end(t, colon);
        assert(t.subrange(0, t.len() as int) =~= t);
    }
}

/// For a listen address written `<scheme>://<ip>:<port>`, none of the three parts
/// holding a `:`, the address to listen on is `<ip>` and the port is `<port>` read
/// as a port, or 8080 where it is none.
pub proof fn law_listen_address_parts(scheme: Seq<char>, ip: Seq<char>, port: Seq<char>)
    requires
        !scheme.contains(':'),
        !ip.contains(':'),
        !port.contains(':'),
    ensures
        listen_ip_of(scheme + "://"@ + ip + ":"@ + port) == ip,
        listen_port_of(scheme + "://"@ + ip + ":"@ + port) == match parse_u16_spec(port) {
            Some(p) => p,
            None => 8080u16,
        },
{
    reveal_strlit(":");
    reveal_strlit("://");
    let colon = ":"@;
    let sep = "://"@;
    let a = scheme + sep + ip + colon + port;
    let m = scheme.len() as int;
    let h = ip.len() as int;
    let c = m + 3 + h;
    assert forall|i: int| 0 <= i < m implies a[i] != sep[0] by {
        assert(a[i] == scheme[i]);
        if scheme[i] == ':' {
            assert(scheme.contains(':'));
        }
    }
    assert forall|i: int| m + 3 <= i < c implies a[i] != sep[0] by {
        assert(a[i] == ip[i - m - 3]);
        if ip[i - m - 3] == ':' {
            assert(ip.contains(':'));
        }
    }
    assert forall|i: int| c + 1 <= i < a.len() implies a[i] != colon[0] by {
        assert(a[i] == port[i - c - 1]);
        if port[i - c - 1] == ':' {
            assert(port.contains(':'));
        }
    }
    assert(a[c] == ':');
    // The address: the text after `://`, cut at `:`.
    lemma_find_from_skip(a, sep, 0, m);
    assert(a.subrange(m, m + 3) =~= sep);
    lemma_find_from_at(a, sep, m);
    lemma_find_from_skip(a, sep, m + 3, c);
    lemma_find_from_found(a, sep, c);
    let e = match find_from(a, sep, c) {
        Some(k) => k,
        None => a.len() as int,
    };
    assert(piece_from(a, sep, m + 3, 0) == Some(a.subrange(m + 3, e)));
    assert(split_piece(a, sep, 1) == piece_from(a, sep, m + 3, 0));
    let t = a.subrange(m + 3, e);
    assert(t.subrange(0, h) =~= ip);
    if h < t.len() {
        assert(t[h] == a[c]);
    }
    lemma_first_piece_is(t, ip);
    // The port: the third piece when cut at `:`.
    lemma_find_from_skip(a, colon, 0, m);
    assert(a.subrange(m, m + 1) =~= colon);
    lemma_find_from_at(a, colon, m);
    lemma_find_from_skip(a, colon, m + 1, c);
    assert(a.subrange(c, c + 1) =~= colon);
    lemma_find_from_at(a, colon, c);
    lemma_find_from_skip(a, colon, c + 1, a.len() as int);
    lemma_find_from_end(a, colon);
    assert(a.subrange(c + 1, a.len() as int) =~= port);
    assert(piece_from(a, colon, c + 1, 0) == Some(port));
    assert(piece_from(a, colon, m + 1, 1) == piece_from(a, colon, c + 1, 0));
    assert(split_piece(a, colon, 2) == piece_from(a, colon, m + 1, 1));
}

/// A listen address without any `:` names neither address nor port: 127.0.0.1
/// and 8080 are used.
pub proof fn law_listen_address_without_colon(address: Seq<char>)
    requires
        !address.contains(':'),
    ensures
        listen_ip_of(address) == "127.0.0.1"@,
        listen_port_of(address) == 8080,
{
    reveal_strlit(":");
    reveal_strlit("://");
    let colon = ":"@;
    let sep = "://"@;
    assert forall|i: int| 0 <= i < address.len() implies address[i] != sep[0] && address[i]
        != colon[0] by {
        if address[i] == ':' {
            assert(address.contains(':'));
        }
    }
    lemma_find_from_skip(address, sep, 0, address.len() as int);
    lemma_find_from_end(address, sep);
    lemma_find_from_skip(address, colon, 0, address.len() as int);
    lemma_find_from_end(address, colon);
}

/// A listen address `<scheme>://<ip>:<n>`, where `<n>` is a port number written in
/// decimal and neither the scheme nor the address holds a `:`, listens at `<ip>` on
/// port `n`.
pub proof fn law_listen_port_number(scheme: Seq<char>, ip: Seq<char>, port: u16)
    requires
        !scheme.contains(':'),
        !ip.contains(':'),
    ensures
        listen_ip_of(scheme + "://"@ + ip + ":"@ + decimal(port as nat)) == ip,
        listen_port_of(scheme + "://"@ + ip + ":"@ + decimal(port as nat)) == port,
{
    let d = decimal(port as nat);
    lemma_decimal(port as nat);
    law_decimal_parses_back(port);
    assert(!d.contains(':')) by {
        if d.contains(':') {
            let i = choose|i: int| 0 <= i < d.len() && d[i] == ':';
            assert(d[i] != ':');
        }
    }
    law_listen_address_parts(scheme, ip, d);
}

} // verus!
