# krb5proxy

A Kerberos-aware HTTP forward proxy. A client's request is sent on to a parent
proxy with a `Proxy-Authorization: Negotiate <AP-REQ>` header; `CONNECT`
requests become tunnels through the parent proxy.

- `src/` is the verified library:
  - `text`: splitting text at a separator and parsing ports, stated over
    character sequences;
  - `args`, `config`: the command line values and the configuration, and the
    address and port read from them (the parent proxy as `<ip>:<port>`, or as a
    URL `http://<ip>:<port>` when its first `:` begins `://`);
  - `token`: the `Negotiate` value built from a ticket (base64 by the `base64`
    crate, stated as RFC 4648);
  - `proxy`: the request state machine. Each state's outside work (GSSAPI,
    the network) is done by the program, which hands its outcome to
    `RequestState::next`. The laws proved there: a request closes within four
    steps, closing is final, errors close the request, settings never change,
    tunnelling and forwarding always have a ticket fit for a header, and the
    client's answer follows from how the request went. The ticket is put into
    a forwarded request's headers by `attach_ticket`, over a model of
    `http::HeaderMap`.
- `app/` is the program: command line, listener, GSSAPI and hyper.
- `tests/` runs the library on concrete values.
