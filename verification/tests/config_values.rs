use krb5proxy::args::Args;
use krb5proxy::config::Config;

#[test]
fn builder_defaults() {
    let c = Config::builder();
    assert_eq!(c.proxy_ip, "127.0.0.1");
    assert_eq!(c.proxy_port, 8080);
    assert_eq!(c.kerberos_service, b"HTTP@localhost".to_vec());
    assert_eq!(c.listen_address, "http://127.0.0.1:8080");
    assert_eq!(c.get_listen_ip(), "127.0.0.1");
    assert_eq!(c.get_listen_port(), 8080);
}

#[test]
fn builder_steps_set_one_value_each() {
    let c = Config::builder()
        .with_proxy_ip("10.0.0.1".to_string())
        .with_proxy_port(3128)
        .with_kerberos_service("HTTP@proxy.foo.com".to_string())
        .with_listen_address("http://0.0.0.0:9000".to_string())
        .build();
    assert_eq!(c.proxy_ip, "10.0.0.1");
    assert_eq!(c.proxy_port, 3128);
    assert_eq!(c.kerberos_service, b"HTTP@proxy.foo.com".to_vec());
    assert_eq!(c.listen_address, "http://0.0.0.0:9000");
    assert_eq!(c.get_listen_ip(), "0.0.0.0");
    assert_eq!(c.get_listen_port(), 9000);
}

#[test]
fn kerberos_service_kept_as_utf8() {
    let c = Config::builder().with_kerberos_service("HTTP@přístup.cz".to_string());
    assert_eq!(c.kerberos_service, "HTTP@přístup.cz".as_bytes().to_vec());
}

#[test]
fn config_from_args_as_main_builds_it() {
    let a = Args::new(
        "10.0.0.1:3128".to_string(),
        "proxy.foo.com".to_string(),
        "http://127.0.0.1:8081".to_string(),
        "console".to_string(),
    );
    let c = Config::builder()
        .with_proxy_ip(a.get_proxy_ip())
        .with_proxy_port(a.get_proxy_port())
        .with_kerberos_service(a.get_kerberos_service())
        .with_listen_address(a.get_listen())
        .build();
    assert_eq!(c.proxy_ip, "10.0.0.1");
    assert_eq!(c.proxy_port, 3128);
    assert_eq!(c.kerberos_service, b"HTTP@proxy.foo.com".to_vec());
    assert_eq!(c.get_listen_ip(), "127.0.0.1");
    assert_eq!(c.get_listen_port(), 8081);
}

fn listen(address: &str) -> Config {
    Config::builder().with_listen_address(address.to_string())
}

#[test]
fn listen_address_without_scheme() {
    let c = listen("127.0.0.1:9000");
    assert_eq!(c.get_listen_ip(), "127.0.0.1");
    assert_eq!(c.get_listen_port(), 8080);
    let c = listen("localhost");
    assert_eq!(c.get_listen_ip(), "127.0.0.1");
    assert_eq!(c.get_listen_port(), 8080);
}

#[test]
fn listen_address_without_port() {
    let c = listen("http://10.1.1.1");
    assert_eq!(c.get_listen_ip(), "10.1.1.1");
    assert_eq!(c.get_listen_port(), 8080);
}

#[test]
fn listen_address_with_bad_port() {
    assert_eq!(listen("http://10.1.1.1:x").get_listen_port(), 8080);
    assert_eq!(listen("http://10.1.1.1:99999").get_listen_port(), 8080);
    assert_eq!(listen("http://10.1.1.1:80/path").get_listen_port(), 8080);
    assert_eq!(listen("http://10.1.1.1:80:1").get_listen_port(), 80);
}

#[test]
fn listen_address_with_repeated_scheme_separator() {
    let c = listen("http://a://b:1");
    assert_eq!(c.get_listen_ip(), "a");
}

#[test]
fn listen_port_numbers_round_trip() {
    for p in [0u16, 9, 10, 443, 8081, 65535] {
        let c = listen(&format!("http://0.0.0.0:{}", p));
        assert_eq!(c.get_listen_ip(), "0.0.0.0");
        assert_eq!(c.get_listen_port(), p);
    }
}
