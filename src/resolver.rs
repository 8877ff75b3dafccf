//! Resolution of a connection request against the catalog into an SSH
//! invocation: an executable, an argument vector and an execution mode.
use vstd::prelude::*;
use vstd::string::StringExecFns;
use crate::catalog::{lookup_application, lookup_server, Config, Port, Server, ServerView};
use crate::render::{decimal, lemma_decimal_nonempty, port_text};

verus! {

/// What the user asked for.
#[derive(Debug, Clone)]
pub enum Request {
    /// An interactive login on the named server.
    OpenSession { server_name: String, key_override: Option<String> },
    /// Local port forwarding for every binding of the named application.
    OpenTunnel { server_name: String, application_name: String, key_override: Option<String> },
}

/// A request as plain values.
pub ghost enum RequestView {
    OpenSession { server_name: Seq<char>, key_override: Option<Seq<char>> },
    OpenTunnel {
        server_name: Seq<char>,
        application_name: Seq<char>,
        key_override: Option<Seq<char>>,
    },
}

impl View for Request {
    type V = RequestView;

    open spec fn view(&self) -> RequestView {
        match self {
            Request::OpenSession { server_name, key_override } => RequestView::OpenSession {
                server_name: server_name@,
                key_override: key_override.deep_view(),
            },
            Request::OpenTunnel { server_name, application_name, key_override } =>
                RequestView::OpenTunnel {
                server_name: server_name@,
                application_name: application_name@,
                key_override: key_override.deep_view(),
            },
        }
    }
}

impl RequestView {
    /// The key override that the request carries, if any.
    pub open spec fn key_override(self) -> Option<Seq<char>> {
        match self {
            RequestView::OpenSession { key_override, .. } => key_override,
            RequestView::OpenTunnel { key_override, .. } => key_override,
        }
    }
}

/// How the executor runs an invocation.
#[derive(Debug, Clone, Copy, PartialEq, Eq, Structural)]
pub enum Mode {
    /// In the foreground, attached to the caller's terminal.
    InteractiveSession,
    /// A tunnel only, with no remote command.
    BackgroundTunnel,
}

/// A fully resolved command: run `program` with `args` as a discrete argument
/// vector, never through a shell.
#[derive(Debug, Clone, PartialEq, Eq)]
pub struct Invocation {
    pub program: String,
    pub args: Vec<String>,
    pub mode: Mode,
}

/// An invocation as plain values.
pub ghost struct InvocationView {
    pub program: Seq<char>,
    pub args: Seq<Seq<char>>,
    pub mode: Mode,
}

impl View for Invocation {
    type V = InvocationView;

    open spec fn view(&self) -> InvocationView {
        InvocationView {
            program: self.program@,
            args: self.args@.map_values(|a: String| a@),
            mode: self.mode,
        }
    }
}

/// Why a request could not be resolved.
#[derive(Debug, Clone, PartialEq, Eq)]
pub enum ResolveError {
    /// No server has the requested name.
    ServerNotFound(String),
    /// The server (first field) has no application with the requested name (second).
    ApplicationNotFound(String, String),
    /// The application (second field) of the server (first) has no port bindings.
    NoPortsConfigured(String, String),
}

/// A resolution error as plain values.
pub ghost enum ErrorView {
    ServerNotFound(Seq<char>),
    ApplicationNotFound(Seq<char>, Seq<char>),
    NoPortsConfigured(Seq<char>, Seq<char>),
}

impl View for ResolveError {
    type V = ErrorView;

    open spec fn view(&self) -> ErrorView {
        match self {
            ResolveError::ServerNotFound(s) => ErrorView::ServerNotFound(s@),
            ResolveError::ApplicationNotFound(s, a) => ErrorView::ApplicationNotFound(s@, a@),
            ResolveError::NoPortsConfigured(s, a) => ErrorView::NoPortsConfigured(s@, a@),
        }
    }
}

/// The view of a resolution result.
pub open spec fn outcome(r: Result<Invocation, ResolveError>) -> Result<InvocationView, ErrorView> {
    match r {
        Ok(inv) => Ok(inv@),
        Err(e) => Err(e@),
    }
}

/// The key in use: the override when one is given, else the configured key.
pub open spec fn effective_key(key_override: Option<Seq<char>>, configured: Seq<char>) -> Seq<
    char,
> {
    match key_override {
        Some(k) => k,
        None => configured,
    }
}

/// `user@host` of a server.
pub open spec fn destination(s: ServerView) -> Seq<char> {
    s.user + seq!['@'] + s.host
}

/// `<local>:localhost:<remote>` of one binding.
pub open spec fn forward_spec(p: Port) -> Seq<char> {
    decimal(p.local as nat) + ":localhost:"@ + decimal(p.remote as nat)
}

/// `-L <clause>` for each binding, in order.
pub open spec fn forward_args(ports: Seq<Port>) -> Seq<Seq<char>>
    decreases ports.len(),
{
    if ports.len() == 0 {
        seq![]
    } else {
        forward_args(ports.drop_last()) + seq!["-L"@, forward_spec(ports.last())]
    }
}

/// `ssh -i <key> <user>@<host>`, interactive.
pub open spec fn session_spec(s: ServerView, key: Seq<char>) -> InvocationView {
    InvocationView {
        program: "ssh"@,
        args: seq!["-i"@, key, destination(s)],
        mode: Mode::InteractiveSession,
    }
}

/// `ssh -i <key> -N -L .. -L .. <user>@<host>`, tunnel only.
pub open spec fn tunnel_spec(s: ServerView, key: Seq<char>, ports: Seq<Port>) -> InvocationView {
    InvocationView {
        program: "ssh"@,
        args: seq!["-i"@, key, "-N"@] + forward_args(ports) + seq![destination(s)],
        mode: Mode::BackgroundTunnel,
    }
}

/// The resolution of an interactive session request.
pub open spec fn resolve_session_spec(
    c: Seq<ServerView>,
    server_name: Seq<char>,
    key_override: Option<Seq<char>>,
) -> Result<InvocationView, ErrorView> {
    match lookup_server(c, server_name) {
        None => Err(ErrorView::ServerNotFound(server_name)),
        Some(s) => Ok(session_spec(s, effective_key(key_override, s.key_path))),
    }
}

/// The resolution of a tunnel request.
pub open spec fn resolve_tunnel_spec(
    c: Seq<ServerView>,
    server_name: Seq<char>,
    application_name: Seq<char>,
    key_override: Option<Seq<char>>,
) -> Result<InvocationView, ErrorView> {
    match lookup_server(c, server_name) {
        None => Err(ErrorView::ServerNotFound(server_name)),
        Some(s) => match lookup_application(s, application_name) {
            None => Err(ErrorView::ApplicationNotFound(server_name, application_name)),
            Some(a) => if a.ports.len() == 0 {
                Err(ErrorView::NoPortsConfigured(server_name, application_name))
            } else {
                Ok(tunnel_spec(s, effective_key(key_override, s.key_path), a.ports))
            },
        },
    }
}

/// The resolution of any request.
pub open spec fn resolution(c: Seq<ServerView>, q: RequestView) -> Result<
    InvocationView,
    ErrorView,
> {
    match q {
        RequestView::OpenSession { server_name, key_override } => resolve_session_spec(
            c,
            server_name,
            key_override,
        ),
        RequestView::OpenTunnel { server_name, application_name, key_override } =>
            resolve_tunnel_spec(c, server_name, application_name, key_override),
    }
}

/// The key in use: `key_override` when present, else `configured`.
pub fn select_key<'a>(key_override: &'a Option<String>, configured: &'a String) -> (r: &'a String)
    ensures
        r@ == effective_key(key_override.deep_view(), configured@),
{
    match key_override {
        Some(k) => k,
        None => configured,
    }
}

/// `<user>@<host>` of a server.
fn destination_text(server: &Server) -> (r: String)
    ensures
        r@ == destination(server@),
{
    let mut d = server.user.clone();
    d.append("@");
    proof {
        reveal_strlit("@");
    }
    d.append(server.host.as_str());
    assert(d@ =~= destination(server@));
    d
}

/// The forwarding clause `<local>:localhost:<remote>` of one binding.
pub fn forward_clause(p: Port) -> (r: String)
    ensures
        r@ == forward_spec(p),
{
    let mut c = port_text(p.local);
    c.append(":localhost:");
    let remote = port_text(p.remote);
    c.append(remote.as_str());
    c
}

/// The interactive login on `server` with the key `key`.
pub fn session_invocation(server: &Server, key: &String) -> (r: Invocation)
    ensures
        r@ == session_spec(server@, key@),
{
    let mut args: Vec<String> = Vec::new();
    args.push(String::from_str("-i"));
    args.push(key.clone());
    args.push(destination_text(server));
    let r = Invocation {
        program: String::from_str("ssh"),
        args,
        mode: Mode::InteractiveSession,
    };
    assert(r@.args =~= session_spec(server@, key@).args);
    r
}

/// The tunnel to `server` with the key `key`, forwarding every binding of
/// `ports` in order within one invocation.
pub fn tunnel_invocation(server: &Server, key: &String, ports: &[Port]) -> (r: Invocation)
    ensures
        r@ == tunnel_spec(server@, key@, ports@),
{
    let mut args: Vec<String> = Vec::new();
    args.push(String::from_str("-i"));
    args.push(key.clone());
    args.push(String::from_str("-N"));
    let ghost head: Seq<Seq<char>> = seq!["-i"@, key@, "-N"@];
    assert(args@.map_values(|a: String| a@) =~= head + forward_args(ports@.subrange(0, 0)));
    let mut j: usize = 0;
    while j < ports.len()
        invariant
            j <= ports@.len(),
            head == seq!["-i"@, key@, "-N"@],
            args@.map_values(|a: String| a@) == head + forward_args(ports@.subrange(0, j as int)),
        decreases ports@.len() - j,
    {
        let ghost before = args@.map_values(|a: String| a@);
        args.push(String::from_str("-L"));
        args.push(forward_clause(ports[j]));
        assert(ports@.subrange(0, j + 1).drop_last() =~= ports@.subrange(0, j as int));
        assert(args@.map_values(|a: String| a@) =~= before + seq![
            "-L"@,
            forward_spec(ports@[j as int]),
        ]);
        j = j + 1;
    }
    let ghost middle = args@.map_values(|a: String| a@);
    args.push(destination_text(server));
    assert(ports@.subrange(0, ports@.len() as int) =~= ports@);
    assert(args@.map_values(|a: String| a@) =~= middle + seq![destination(server@)]);
    Invocation { program: String::from_str("ssh"), args, mode: Mode::BackgroundTunnel }
}

/// Resolves an interactive session on the server named `server_name`, with
/// `key_override` taking precedence over the server's configured key.
pub fn resolve_session(config: &Config, server_name: &String, key_override: &Option<String>) -> (r:
    Result<Invocation, ResolveError>)
    ensures
        outcome(r) == resolve_session_spec(config@, server_name@, key_override.deep_view()),
        r is Ok <==> lookup_server(config@, server_name@) is Some,
{
    match config.find_server(server_name.as_str()) {
        None => Err(ResolveError::ServerNotFound(server_name.clone())),
        Some(server) => {
            let key = select_key(key_override, &server.key_path);
            Ok(session_invocation(server, key))
        },
    }
}

/// Resolves a tunnel for every binding of the application `application_name`
/// on the server `server_name`, with `key_override` taking precedence over the
/// server's configured key.
pub fn resolve_tunnel(
    config: &Config,
    server_name: &String,
    application_name: &String,
    key_override: &Option<String>,
) -> (r: Result<Invocation, ResolveError>)
    ensures
        outcome(r) == resolve_tunnel_spec(
            config@,
            server_name@,
            application_name@,
            key_override.deep_view(),
        ),
        r is Ok <==> (match lookup_server(config@, server_name@) {
            Some(s) => match lookup_application(s, application_name@) {
                Some(a) => a.ports.len() > 0,
                None => false,
            },
            None => false,
        }),
{
    match config.find_server(server_name.as_str()) {
        None => Err(ResolveError::ServerNotFound(server_name.clone())),
        Some(server) => match server.find_application(application_name.as_str()) {
            None => Err(ResolveError::ApplicationNotFound(server_name.clone(), application_name.clone())),
            Some(app) => {
                let ports = app.bindings();
                if ports.len() == 0 {
                    Err(ResolveError::NoPortsConfigured(server_name.clone(), application_name.clone()))
                } else {
                    let key = select_key(key_override, &server.key_path);
                    Ok(tunnel_invocation(server, key, ports))
                }
            },
        },
    }
}

/// Resolves any request against the catalog.
pub fn resolve(config: &Config, request: &Request) -> (r: Result<Invocation, ResolveError>)
    ensures
        outcome(r) == resolution(config@, request@),
{
    match request {
        Request::OpenSession { server_name, key_override } => resolve_session(
            config,
            server_name,
            key_override,
        ),
        Request::OpenTunnel { server_name, application_name, key_override } => resolve_tunnel(
            config,
            server_name,
            application_name,
            key_override,
        ),
    }
}

/// How many arguments of `args` are exactly `x`.
pub open spec fn occurrences(args: Seq<Seq<char>>, x: Seq<char>) -> nat
    decreases args.len(),
{
    if args.len() == 0 {
        0
    } else {
        occurrences(args.drop_last(), x) + if args.last() == x {
            1nat
        } else {
            0nat
        }
    }
}

/// Every argument of an invocation but the value that follows `-i`: the
/// arguments that the executable reads as flags, clauses and destination.
pub open spec fn non_key_args(args: Seq<Seq<char>>) -> Seq<Seq<char>> {
    args.subrange(0, 1) + args.subrange(2, args.len() as int)
}

proof fn lemma_occurrences_concat(a: Seq<Seq<char>>, b: Seq<Seq<char>>, x: Seq<char>)
    ensures
        occurrences(a + b, x) == occurrences(a, x) + occurrences(b, x),
    decreases b.len(),
{
    if b.len() == 0 {
        assert(a + b =~= a);
    } else {
        lemma_occurrences_concat(a, b.drop_last(), x);
        assert((a + b).drop_last() =~= a + b.drop_last());
    }
}

proof fn lemma_flags_differ()
    ensures
        "-N"@ != "-L"@,
        "-N"@ != "-i"@,
        "-L"@ != "-i"@,
        "-N"@ == seq!['-', 'N'],
        "-L"@ == seq!['-', 'L'],
{
    reveal_strlit("-N");
    reveal_strlit("-L");
    reveal_strlit("-i");
    assert("-N"@[1] != "-L"@[1]);
    assert("-N"@[1] != "-i"@[1]);
    assert("-L"@[1] != "-i"@[1]);
    assert("-N"@ =~= seq!['-', 'N']);
    assert("-L"@ =~= seq!['-', 'L']);
}

/// A forwarding clause is longer than any two-character flag.
proof fn lemma_forward_spec_long(p: Port)
    ensures
        forward_spec(p).len() > 2,
{
    reveal_strlit(":localhost:");
    lemma_decimal_nonempty(p.local as nat);
}

/// The destination holds an `@`, which no flag does.
proof fn lemma_destination_not_flag(s: ServerView, flag: Seq<char>)
    requires
        forall|i: int| 0 <= i < flag.len() ==> flag[i] != '@',
    ensures
        destination(s) != flag,
{
    assert(destination(s)[s.user.len() as int] == '@');
}

/// The forwarding arguments are `-L <clause>` pairs, one per binding, in order.
proof fn lemma_forward_args(ports: Seq<Port>)
    ensures
        forward_args(ports).len() == 2 * ports.len(),
        forall|j: int|
            0 <= j < ports.len() ==> #[trigger] forward_args(ports)[2 * j] == "-L"@
                && forward_args(ports)[2 * j + 1] == forward_spec(ports[j]),
        occurrences(forward_args(ports), "-L"@) == ports.len(),
        occurrences(forward_args(ports), "-N"@) == 0,
    decreases ports.len(),
{
    if ports.len() > 0 {
        let rest = ports.drop_last();
        lemma_forward_args(rest);
        let pair: Seq<Seq<char>> = seq!["-L"@, forward_spec(ports.last())];
        lemma_occurrences_concat(forward_args(rest), pair, "-L"@);
        lemma_occurrences_concat(forward_args(rest), pair, "-N"@);
        lemma_flags_differ();
        lemma_forward_spec_long(ports.last());
        reveal_with_fuel(occurrences, 3);
        assert(pair.drop_last().drop_last() =~= Seq::<Seq<char>>::empty());
        assert(pair.drop_last() =~= seq!["-L"@]);
        assert forall|j: int| 0 <= j < ports.len() implies #[trigger] forward_args(ports)[2 * j]
            == "-L"@ && forward_args(ports)[2 * j + 1] == forward_spec(ports[j]) by {
            if j < rest.len() {
                assert(forward_args(rest)[2 * j] == "-L"@);
            }
        }
    }
}

/// Whenever the request carries a key override, a resolved invocation passes
/// that key with `-i`, whatever key the catalog configures.
pub proof fn lemma_override_precedence(c: Seq<ServerView>, q: RequestView)
    requires
        q.key_override() is Some,
    ensures
        resolution(c, q) matches Ok(inv) ==> inv.args[0] == "-i"@ && inv.args[1]
            == q.key_override()->0,
{
}

/// A resolved tunnel holds, after the key, one `-N` and then one
/// `-L <local>:localhost:<remote>` clause for each binding of the application,
/// in catalog order, and the destination last: at least one clause, exactly
/// as many clauses as bindings, and exactly one `-N`, counted over every
/// argument but the key's value.
pub proof fn lemma_tunnel_binding_completeness(c: Seq<ServerView>, q: RequestView)
    requires
        q is OpenTunnel,
        resolution(c, q) is Ok,
    ensures
        ({
            let s = lookup_server(c, q->OpenTunnel_server_name)->0;
            let a = lookup_application(s, q->OpenTunnel_application_name)->0;
            let inv = resolution(c, q)->Ok_0;
            let k = a.ports.len() as int;
            &&& lookup_server(c, q->OpenTunnel_server_name) is Some
            &&& lookup_application(s, q->OpenTunnel_application_name) is Some
            &&& inv.mode == Mode::BackgroundTunnel
            &&& k >= 1
            &&& inv.args.len() == 4 + 2 * k
            &&& inv.args[0] == "-i"@
            &&& inv.args[2] == "-N"@
            &&& forall|j: int|
                0 <= j < k ==> inv.args[3 + 2 * j] == "-L"@ && #[trigger] inv.args[4 + 2 * j]
                    == forward_spec(a.ports[j])
            &&& inv.args[3 + 2 * k] == destination(s)
            &&& occurrences(non_key_args(inv.args), "-L"@) == k
            &&& occurrences(non_key_args(inv.args), "-N"@) == 1
        }),
{
    let s = lookup_server(c, q->OpenTunnel_server_name)->0;
    let a = lookup_application(s, q->OpenTunnel_application_name)->0;
    let key = effective_key(q.key_override(), s.key_path);
    let fwd = forward_args(a.ports);
    let args = resolution(c, q)->Ok_0.args;
    lemma_forward_args(a.ports);
    lemma_flags_differ();
    assert(args == seq!["-i"@, key, "-N"@] + fwd + seq![destination(s)]);
    assert forall|j: int| 0 <= j < a.ports.len() implies args[3 + 2 * j] == "-L"@
        && #[trigger] args[4 + 2 * j] == forward_spec(a.ports[j]) by {
        assert(fwd[2 * j] == "-L"@);
    }
    let head: Seq<Seq<char>> = seq!["-i"@, "-N"@];
    let tail: Seq<Seq<char>> = seq![destination(s)];
    assert(non_key_args(args) =~= head + fwd + tail);
    lemma_occurrences_concat(head + fwd, tail, "-L"@);
    lemma_occurrences_concat(head + fwd, tail, "-N"@);
    lemma_occurrences_concat(head, fwd, "-L"@);
    lemma_occurrences_concat(head, fwd, "-N"@);
    lemma_destination_not_flag(s, "-L"@);
    lemma_destination_not_flag(s, "-N"@);
    assert(tail.drop_last() =~= Seq::<Seq<char>>::empty());
    assert(head.drop_last() =~= seq!["-i"@]);
    assert(head.drop_last().drop_last() =~= Seq::<Seq<char>>::empty());
    reveal_with_fuel(occurrences, 3);
}

/// A tunnel request for an application without bindings is refused with
/// `NoPortsConfigured`, never resolved to an invocation.
pub proof fn lemma_empty_bindings_rejected(c: Seq<ServerView>, q: RequestView)
    requires
        q is OpenTunnel,
        lookup_server(c, q->OpenTunnel_server_name) matches Some(s) && lookup_application(
            s,
            q->OpenTunnel_application_name,
        ) matches Some(a) && a.ports.len() == 0,
    ensures
        resolution(c, q) == Err::<InvocationView, ErrorView>(
            ErrorView::NoPortsConfigured(q->OpenTunnel_server_name, q->OpenTunnel_application_name),
        ),
{
}

/// Resolving equal requests against equal catalogs gives equal outcomes.
pub proof fn lemma_resolution_deterministic(c1: Config, c2: Config, q1: Request, q2: Request)
    requires
        c1@ == c2@,
        q1@ == q2@,
    ensures
        resolution(c1@, q1@) == resolution(c2@, q2@),
{
}

} // verus!
