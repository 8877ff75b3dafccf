use connex::{
    forward_clause, merge_bindings, port_text, resolve, resolve_session, resolve_tunnel,
    select_key, session_invocation, tunnel_invocation, Application, Config, Invocation, Mode,
    Port, Request, ResolveError, Server,
};

fn s(x: &str) -> String {
    x.to_string()
}

fn app(name: &str, ports: Vec<Port>) -> Application {
    Application { name: s(name), description: s("a service"), ports }
}

fn prod() -> Server {
    Server {
        name: s("prod"),
        host: s("db.example.com"),
        user: s("alice"),
        key_path: s("/home/alice/.ssh/id_rsa"),
        applications: vec![
            app("web", vec![Port { local: 8080, remote: 80 }]),
            app(
                "multi",
                vec![Port { local: 8080, remote: 80 }, Port { local: 5432, remote: 5432 }],
            ),
            app("idle", vec![]),
        ],
    }
}

fn catalog() -> Config {
    Config { servers: vec![prod()] }
}

fn args(inv: &Invocation) -> Vec<&str> {
    inv.args.iter().map(|a| a.as_str()).collect()
}

fn full(inv: &Invocation) -> Vec<&str> {
    let mut v = vec![inv.program.as_str()];
    v.extend(args(inv));
    v
}

fn open(name: &str, key: Option<&str>) -> Request {
    Request::OpenSession { server_name: s(name), key_override: key.map(s) }
}

fn forward(name: &str, app_name: &str, key: Option<&str>) -> Request {
    Request::OpenTunnel {
        server_name: s(name),
        application_name: s(app_name),
        key_override: key.map(s),
    }
}

#[test]
fn session_uses_configured_key() {
    let inv = resolve(&catalog(), &open("prod", None)).unwrap();
    assert_eq!(full(&inv), vec!["ssh", "-i", "/home/alice/.ssh/id_rsa", "alice@db.example.com"]);
    assert_eq!(inv.mode, Mode::InteractiveSession);
}

#[test]
fn session_override_key_wins() {
    let inv = resolve(&catalog(), &open("prod", Some("/tmp/other_key"))).unwrap();
    assert_eq!(full(&inv), vec!["ssh", "-i", "/tmp/other_key", "alice@db.example.com"]);
    assert!(!args(&inv).contains(&"/home/alice/.ssh/id_rsa"));
}

#[test]
fn tunnel_override_key_wins() {
    let inv = resolve(&catalog(), &forward("prod", "web", Some("/tmp/other_key"))).unwrap();
    assert_eq!(args(&inv)[0..2], ["-i", "/tmp/other_key"]);
    assert!(!args(&inv).contains(&"/home/alice/.ssh/id_rsa"));
}

#[test]
fn tunnel_single_binding() {
    let inv = resolve(&catalog(), &forward("prod", "web", None)).unwrap();
    assert_eq!(
        full(&inv),
        vec![
            "ssh",
            "-i",
            "/home/alice/.ssh/id_rsa",
            "-N",
            "-L",
            "8080:localhost:80",
            "alice@db.example.com"
        ]
    );
    assert_eq!(inv.mode, Mode::BackgroundTunnel);
}

#[test]
fn tunnel_multiple_bindings_in_one_invocation() {
    let inv = resolve(&catalog(), &forward("prod", "multi", None)).unwrap();
    assert_eq!(
        args(&inv),
        vec![
            "-i",
            "/home/alice/.ssh/id_rsa",
            "-N",
            "-L",
            "8080:localhost:80",
            "-L",
            "5432:localhost:5432",
            "alice@db.example.com"
        ]
    );
    assert_eq!(args(&inv).iter().filter(|a| **a == "-L").count(), 2);
    assert_eq!(args(&inv).iter().filter(|a| **a == "-N").count(), 1);
}

#[test]
fn missing_server_is_reported() {
    let r = resolve(&catalog(), &open("staging", None));
    assert_eq!(r, Err(ResolveError::ServerNotFound(s("staging"))));
    let r = resolve(&catalog(), &forward("staging", "web", None));
    assert_eq!(r, Err(ResolveError::ServerNotFound(s("staging"))));
}

#[test]
fn missing_application_is_reported() {
    let r = resolve(&catalog(), &forward("prod", "cache", None));
    assert_eq!(r, Err(ResolveError::ApplicationNotFound(s("prod"), s("cache"))));
}

#[test]
fn application_without_bindings_is_rejected() {
    let r = resolve(&catalog(), &forward("prod", "idle", None));
    assert_eq!(r, Err(ResolveError::NoPortsConfigured(s("prod"), s("idle"))));
}

#[test]
fn resolving_twice_gives_identical_invocations() {
    let c = catalog();
    for q in [open("prod", None), forward("prod", "multi", Some("/k")), open("staging", None)] {
        assert_eq!(resolve(&c, &q), resolve(&c, &q));
    }
}

#[test]
fn first_server_with_a_name_wins() {
    let mut second = prod();
    second.host = s("other.example.com");
    let mut first = prod();
    first.host = s("first.example.com");
    let other = Server { name: s("dev"), ..prod() };
    let c = Config { servers: vec![other, first, second] };
    let found = c.find_server("prod").unwrap();
    assert_eq!(found.host, "first.example.com");
    assert!(c.find_server("Prod").is_none());
    assert!(c.find_server("").is_none());
    let inv = resolve_session(&c, &s("prod"), &None).unwrap();
    assert_eq!(args(&inv)[2], "alice@first.example.com");
}

#[test]
fn empty_catalog_finds_nothing() {
    let c = Config { servers: vec![] };
    assert!(c.find_server("prod").is_none());
    assert_eq!(
        resolve(&c, &open("prod", None)),
        Err(ResolveError::ServerNotFound(s("prod")))
    );
}

#[test]
fn first_application_with_a_name_wins() {
    let mut server = prod();
    server.applications.push(app("web", vec![Port { local: 1, remote: 2 }]));
    let a = server.find_application("web").unwrap();
    assert_eq!(a.ports, vec![Port { local: 8080, remote: 80 }]);
    assert!(server.find_application("WEB").is_none());
    let c = Config { servers: vec![server] };
    let inv = resolve_tunnel(&c, &s("prod"), &s("web"), &None).unwrap();
    assert_eq!(args(&inv)[4], "8080:localhost:80");
}

#[test]
fn bindings_keep_catalog_order() {
    let server = prod();
    let multi = server.find_application("multi").unwrap();
    assert_eq!(
        multi.bindings(),
        &[Port { local: 8080, remote: 80 }, Port { local: 5432, remote: 5432 }][..]
    );
    assert!(server.find_application("idle").unwrap().bindings().is_empty());
}

#[test]
fn port_numbers_render_in_decimal() {
    assert_eq!(port_text(0), "0");
    assert_eq!(port_text(7), "7");
    assert_eq!(port_text(10), "10");
    assert_eq!(port_text(80), "80");
    assert_eq!(port_text(5432), "5432");
    assert_eq!(port_text(65535), "65535");
}

#[test]
fn forward_clause_text() {
    assert_eq!(forward_clause(Port { local: 8080, remote: 80 }), "8080:localhost:80");
    assert_eq!(forward_clause(Port { local: 0, remote: 65535 }), "0:localhost:65535");
}

#[test]
fn select_key_prefers_override() {
    let configured = s("/etc/key");
    assert_eq!(select_key(&Some(s("/tmp/k")), &configured), "/tmp/k");
    assert_eq!(select_key(&None, &configured), "/etc/key");
}

#[test]
fn builders_take_the_given_key() {
    let server = prod();
    let inv = session_invocation(&server, &s("/k"));
    assert_eq!(full(&inv), vec!["ssh", "-i", "/k", "alice@db.example.com"]);
    let ports = [Port { local: 1, remote: 2 }, Port { local: 3, remote: 4 }, Port { local: 5, remote: 6 }];
    let inv = tunnel_invocation(&server, &s("/k"), &ports);
    assert_eq!(
        args(&inv),
        vec![
            "-i", "/k", "-N", "-L", "1:localhost:2", "-L", "3:localhost:4", "-L", "5:localhost:6",
            "alice@db.example.com"
        ]
    );
}

#[test]
fn key_path_with_shell_characters_stays_one_argument() {
    let inv = resolve(&catalog(), &open("prod", Some("/tmp/a key; rm -rf x"))).unwrap();
    assert_eq!(inv.args.len(), 3);
    assert_eq!(inv.args[1], "/tmp/a key; rm -rf x");
}

#[test]
fn legacy_single_port_becomes_first_binding() {
    let many = vec![Port { local: 1, remote: 2 }];
    assert_eq!(
        merge_bindings(Some(Port { local: 9, remote: 9 }), many.clone()),
        vec![Port { local: 9, remote: 9 }, Port { local: 1, remote: 2 }]
    );
    assert_eq!(merge_bindings(None, many.clone()), many);
    assert_eq!(merge_bindings(None, vec![]), vec![]);
}
