//! The proxy's command line values and what is derived from them.

use vstd::prelude::*;
use crate::text::{
    split_nth, split_piece, find_from, find_first, starts_with, str_starts_with, parse_u16,
    parse_u16_spec, decimal, lemma_decimal, law_decimal_parses_back, lemma_split_whole,
    lemma_split_two, lemma_split_first,
};

verus! {

/// The values given on the command line: the parent proxy as `<ip>:<port>`, the
/// parent proxy's host name, the listen address and the log target.
#[derive(Debug)]
pub struct Args {
    proxy: String,
    proxy_hostname: String,
    listen: String,
    log: String,
}

/// The four command line values as text.
pub struct ArgsView {
    pub proxy: Seq<char>,
    pub proxy_hostname: Seq<char>,
    pub listen: Seq<char>,
    pub log: Seq<char>,
}

impl View for Args {
    type V = ArgsView;

    closed spec fn view(&self) -> ArgsView {
        ArgsView {
            proxy: self.proxy@,
            proxy_hostname: self.proxy_hostname@,
            listen: self.listen@,
            log: self.log@,
        }
    }
}

/// The parent proxy's `<ip>:<port>` part: where its first `:` begins a `://`,
/// the value is a URL and the part is what follows that `://`; otherwise it is all
/// of the value.
pub open spec fn proxy_authority_of(proxy: Seq<char>) -> Seq<char> {
    match find_from(proxy, ":"@, 0) {
        Some(c) => if starts_with(proxy.subrange(c, proxy.len() as int), "://"@) {
            proxy.subrange(c + 3, proxy.len() as int)
        } else {
            proxy
        },
        None => proxy,
    }
}

/// The parent proxy's address: what comes before the first `:` of its
/// `<ip>:<port>` part.
pub open spec fn proxy_ip_of(proxy: Seq<char>) -> Seq<char> {
    match split_piece(proxy_authority_of(proxy), ":"@, 0) {
        Some(ip) => ip,
        None => Seq::empty(),
    }
}

/// The parent proxy's port: the text between the first and the second `:` of its
/// `<ip>:<port>` part read as a port, and 8080 where there is no such text or it
/// is no port.
pub open spec fn proxy_port_of(proxy: Seq<char>) -> u16 {
    match split_piece(proxy_authority_of(proxy), ":"@, 1) {
        Some(p) => match parse_u16_spec(p) {
            Some(port) => port,
            None => 8080,
        },
        None => 8080,
    }
}

/// The host based service name of the parent proxy: `HTTP@` and its host name.
pub open spec fn kerberos_service_of(hostname: Seq<char>) -> Seq<char> {
    "HTTP@"@ + hostname
}

impl Args {
    /// The command line values, as they were read.
    pub fn new(proxy: String, proxy_hostname: String, listen: String, log: String) -> (r: Self)
        ensures
            r@.proxy == proxy@,
            r@.proxy_hostname == proxy_hostname@,
            r@.listen == listen@,
            r@.log == log@,
    {
        Args { proxy, proxy_hostname, listen, log }
    }

    /// The `<ip>:<port>` part of the parent proxy value.
    fn proxy_authority(&self) -> (r: String)
        ensures
            r@ == proxy_authority_of(self@.proxy),
    {
        proof {
            reveal_strlit(":");
            reveal_strlit("://");
        }
        let proxy = self.proxy.as_str();
        let len = proxy.unicode_len();
        match find_first(proxy, ":") {
            Some(c) => {
                let tail = proxy.substring_char(c, len);
                if str_starts_with(tail, "://") {
                    String::from_str(proxy.substring_char(c + 3, len))
                } else {
                    self.proxy.clone()
                }
            },
            None => self.proxy.clone(),
        }
    }

    pub fn get_proxy_ip(&self) -> (r: String)
        ensures
            r@ == proxy_ip_of(self@.proxy),
    {
        proof {
            reveal_strlit(":");
        }
        let authority = self.proxy_authority();
        match split_nth(authority.as_str(), ":", 0) {
            Some(ip) => ip,
            None => String::new(),
        }
    }

    pub fn get_proxy_port(&self) -> (r: u16)
        ensures
            r == proxy_port_of(self@.proxy),
    {
        proof {
            reveal_strlit(":");
        }
        let authority = self.proxy_authority();
        match split_nth(authority.as_str(), ":", 1) {
            Some(p) => match parse_u16(p.as_str()) {
                Some(port) => port,
                None => 8080,
            },
            None => 8080,
        }
    }

    pub fn get_proxy_hostname(&self) -> (r: String)
        ensures
            r@ == self@.proxy_hostname,
    {
        self.proxy_hostname.clone()
    }

    pub fn get_kerberos_service(&self) -> (r: String)
        ensures
            r@ == kerberos_service_of(self@.proxy_hostname),
    {
        String::from_str("HTTP@").concat(self.proxy_hostname.as_str())
    }

    pub fn get_listen(&self) -> (r: String)
        ensures
            r@ == self@.listen,
    {
        self.listen.clone()
    }

    pub fn get_log(&self) -> (r: String)
        ensures
            r@ == self@.log,
    {
        self.log.clone()
    }
}

/// No `:` stands in `s`.
pub open spec fn no_colon(s: Seq<char>) -> bool {
    forall|i: int| 0 <= i < s.len() ==> s[i] != ':'
}

/// For a parent proxy written `<ip>:<port>`, with no `:` in the address and a port
/// text that does not begin with `//` (which would make the value a URL), the
/// address is `<ip>`; where the port text holds no `:`, the port is that text read
/// as a port, or 8080 where it is none.
pub proof fn law_proxy_address_parts(ip: Seq<char>, port: Seq<char>)
    requires
        no_colon(ip),
        !starts_with(port, "//"@),
    ensures
        proxy_ip_of(ip + ":"@ + port) == ip,
        no_colon(port) ==> proxy_port_of(ip + ":"@ + port) == match parse_u16_spec(port) {
            Some(p) => p,
            None => 8080u16,
        },
{
    reveal_strlit(":");
    reveal_strlit("://");
    reveal_strlit("//");
    let s = ip + ":"@ + port;
    let c = ip.len() as int;
    lemma_split_first(ip, ":"@, port);
    let tail = s.subrange(c, s.len() as int);
    if starts_with(tail, "://"@) {
        assert(tail.subrange(0, 3)[1] == '/' && tail.subrange(0, 3)[2] == '/');
        assert(port[0] == tail[1] && port[1] == tail[2]);
        assert(port.subrange(0, 2) =~= "//"@);
        assert(false);
    }
    assert(proxy_authority_of(s) == s);
    if no_colon(port) {
        lemma_split_two(ip, ":"@, port);
    }
}

/// For a parent proxy written as a URL, `<scheme>://<ip>:<port>`, with no `:` in the
/// scheme or the address, the address is `<ip>`; where the port text holds no `:`,
/// the port is that text read as a port, or 8080 where it is none.
pub proof fn law_proxy_url_parts(scheme: Seq<char>, ip: Seq<char>, port: Seq<char>)
    requires
        no_colon(scheme),
        no_colon(ip),
    ensures
        proxy_ip_of(scheme + "://"@ + ip + ":"@ + port) == ip,
        no_colon(port) ==> proxy_port_of(scheme + "://"@ + ip + ":"@ + port) == match parse_u16_spec(port) {
            Some(p) => p,
            None => 8080u16,
        },
{
    reveal_strlit(":");
    reveal_strlit("://");
    let rest = ip + ":"@ + port;
    let s = scheme + ":"@ + ("//"@ + rest);
    reveal_strlit("//");
    assert(s =~= scheme + "://"@ + ip + ":"@ + port);
    let m = scheme.len() as int;
    lemma_split_first(scheme, ":"@, "//"@ + rest);
    assert(s.subrange(m, s.len() as int).subrange(0, 3) =~= "://"@);
    assert(s.subrange(m + 3, s.len() as int) =~= rest);
    assert(proxy_authority_of(s) == rest);
    lemma_split_first(ip, ":"@, port);
    if no_colon(port) {
        lemma_split_two(ip, ":"@, port);
    }
}

/// A parent proxy `<ip>:<n>` or `<scheme>://<ip>:<n>`, where `<n>` is a port number
/// written in decimal, is on port `n` at `<ip>`.
pub proof fn law_proxy_port_number(scheme: Seq<char>, ip: Seq<char>, port: u16)
    requires
        no_colon(scheme),
        no_colon(ip),
    ensures
        proxy_ip_of(ip + ":"@ + decimal(port as nat)) == ip,
        proxy_port_of(ip + ":"@ + decimal(port as nat)) == port,
        proxy_ip_of(scheme + "://"@ + ip + ":"@ + decimal(port as nat)) == ip,
        proxy_port_of(scheme + "://"@ + ip + ":"@ + decimal(port as nat)) == port,
{
    let d = decimal(port as nat);
    lemma_decimal(port as nat);
    law_decimal_parses_back(port);
    reveal_strlit("//");
    if starts_with(d, "//"@) {
        assert(d.subrange(0, 2)[0] == d[0]);
    }
    law_proxy_address_parts(ip, d);
    law_proxy_url_parts(scheme, ip, d);
}

/// A parent proxy written without `:` is all address, on port 8080.
pub proof fn law_proxy_without_port(proxy: Seq<char>)
    requires
        no_colon(proxy),
    ensures
        proxy_ip_of(proxy) == proxy,
        proxy_port_of(proxy) == 8080,
{
    reveal_strlit(":");
    lemma_split_whole(proxy, ":"@);
}

/// The service name is `HTTP@` followed by the whole host name, not cut anywhere.
pub proof fn law_kerberos_service_names_whole_host(hostname: Seq<char>)
    ensures
        kerberos_service_of(hostname).len() == hostname.len() + 5,
        kerberos_service_of(hostname).subrange(0, 5) == seq!['H', 'T', 'T', 'P', '@'],
        kerberos_service_of(hostname).subrange(5, hostname.len() + 5int) == hostname,
{
    reveal_strlit("HTTP@");
    let k = kerberos_service_of(hostname);
    assert(k.subrange(0, 5) =~= seq!['H', 'T', 'T', 'P', '@']);
    assert(k.subrange(5, hostname.len() + 5int) =~= hostname);
}

} // verus!
