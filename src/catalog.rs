//! The catalog model: servers, their applications and port bindings, and the
//! first-match lookups over them.
use vstd::prelude::*;
use vstd::string::StringExecFns;

verus! {

/// One forwarding leg: `local` on the operator's machine, `remote` on the server.
#[derive(Debug, Clone, Copy, PartialEq, Eq, Structural)]
pub struct Port {
    pub local: u16,
    pub remote: u16,
}

/// A named service on a server, with its port bindings in catalog order.
#[derive(Debug, Clone)]
pub struct Application {
    pub name: String,
    pub description: String,
    pub ports: Vec<Port>,
}

/// One remote host and the applications it exposes.
#[derive(Debug, Clone)]
pub struct Server {
    pub name: String,
    pub host: String,
    pub user: String,
    pub key_path: String,
    pub applications: Vec<Application>,
}

/// The whole catalog: servers in catalog order.
#[derive(Debug, Clone)]
pub struct Config {
    pub servers: Vec<Server>,
}

/// An application as plain values.
pub ghost struct ApplicationView {
    pub name: Seq<char>,
    pub description: Seq<char>,
    pub ports: Seq<Port>,
}

/// A server as plain values.
pub ghost struct ServerView {
    pub name: Seq<char>,
    pub host: Seq<char>,
    pub user: Seq<char>,
    pub key_path: Seq<char>,
    pub applications: Seq<ApplicationView>,
}

impl View for Application {
    type V = ApplicationView;

    open spec fn view(&self) -> ApplicationView {
        ApplicationView { name: self.name@, description: self.description@, ports: self.ports@ }
    }
}

impl View for Server {
    type V = ServerView;

    open spec fn view(&self) -> ServerView {
        ServerView {
            name: self.name@,
            host: self.host@,
            user: self.user@,
            key_path: self.key_path@,
            applications: self.applications@.map_values(|a: Application| a@),
        }
    }
}

impl View for Config {
    type V = Seq<ServerView>;

    open spec fn view(&self) -> Seq<ServerView> {
        self.servers@.map_values(|s: Server| s@)
    }
}

/// The names of a server list, in order.
pub open spec fn server_names(servers: Seq<ServerView>) -> Seq<Seq<char>> {
    servers.map_values(|s: ServerView| s.name)
}

/// The names of an application list, in order.
pub open spec fn application_names(apps: Seq<ApplicationView>) -> Seq<Seq<char>> {
    apps.map_values(|a: ApplicationView| a.name)
}

/// The lowest index at or after `start` that holds `name`, if any.
pub open spec fn first_named_from(names: Seq<Seq<char>>, name: Seq<char>, start: int) -> Option<
    int,
>
    decreases names.len() - start,
{
    if start < 0 || start >= names.len() {
        None
    } else if names[start] == name {
        Some(start)
    } else {
        first_named_from(names, name, start + 1)
    }
}

/// The lowest index that holds `name`, if any.
pub open spec fn first_named(names: Seq<Seq<char>>, name: Seq<char>) -> Option<int> {
    first_named_from(names, name, 0)
}

/// The first server of the catalog with the given name.
pub open spec fn lookup_server(c: Seq<ServerView>, name: Seq<char>) -> Option<ServerView> {
    match first_named(server_names(c), name) {
        Some(i) => Some(c[i]),
        None => None,
    }
}

/// The first application of the server with the given name.
pub open spec fn lookup_application(s: ServerView, name: Seq<char>) -> Option<ApplicationView> {
    match first_named(application_names(s.applications), name) {
        Some(i) => Some(s.applications[i]),
        None => None,
    }
}

/// `i` is the lowest index of `names` that holds `name`.
pub open spec fn is_first_named(names: Seq<Seq<char>>, name: Seq<char>, i: int) -> bool {
    &&& 0 <= i < names.len()
    &&& names[i] == name
    &&& forall|j: int| 0 <= j < i ==> names[j] != name
}

/// What `first_named_from` finds: the lowest matching index at or after
/// `start`, or nothing when no index from `start` on matches.
pub proof fn lemma_first_named_from(names: Seq<Seq<char>>, name: Seq<char>, start: int)
    requires
        0 <= start <= names.len(),
    ensures
        match first_named_from(names, name, start) {
            Some(i) => start <= i < names.len() && names[i] == name && forall|j: int|
                start <= j < i ==> names[j] != name,
            None => forall|j: int| start <= j < names.len() ==> names[j] != name,
        },
    decreases names.len() - start,
{
    if start < names.len() && names[start] != name {
        lemma_first_named_from(names, name, start + 1);
    }
}

/// Lookup by name finds the lowest index holding the name, and finds nothing
/// exactly when no index holds it.
pub proof fn lemma_first_named(names: Seq<Seq<char>>, name: Seq<char>)
    ensures
        match first_named(names, name) {
            Some(i) => is_first_named(names, name, i),
            None => forall|j: int| 0 <= j < names.len() ==> names[j] != name,
        },
{
    lemma_first_named_from(names, name, 0);
}

impl Config {
    /// The first server, in catalog order, whose name is exactly `name`.
    pub fn find_server(&self, name: &str) -> (r: Option<&Server>)
        ensures
            match first_named(server_names(self@), name@) {
                Some(i) => r matches Some(s) && *s == self.servers@[i],
                None => r is None,
            },
            match r {
                Some(s) => lookup_server(self@, name@) == Some(s@),
                None => lookup_server(self@, name@) is None,
            },
            match r {
                Some(s) => exists|i: int|
                    is_first_named(server_names(self@), name@, i) && *s == self.servers@[i],
                None => forall|i: int|
                    0 <= i < self.servers@.len() ==> self.servers@[i].name@ != name@,
            },
    {
        let ghost names = server_names(self@);
        proof {
            lemma_first_named(names, name@);
        }
        let wanted = String::from_str(name);
        let mut i: usize = 0;
        while i < self.servers.len()
            invariant
                i <= self.servers@.len(),
                names == server_names(self@),
                wanted@ == name@,
                first_named_from(names, name@, i as int) == first_named(names, name@),
            decreases self.servers@.len() - i,
        {
            assert(names[i as int] == self.servers@[i as int].name@);
            if self.servers[i].name == wanted {
                proof {
                    lemma_first_named(names, name@);
                }
                assert(self@[i as int] == self.servers@[i as int]@);
                return Some(&self.servers[i]);
            }
            i = i + 1;
        }
        assert forall|j: int| 0 <= j < self.servers@.len() implies self.servers@[j].name@ != name@ by {
            assert(names[j] == self.servers@[j].name@);
        }
        None
    }
}

impl Server {
    /// The first application, in this server's list, whose name is exactly `name`.
    pub fn find_application(&self, name: &str) -> (r: Option<&Application>)
        ensures
            match first_named(application_names(self@.applications), name@) {
                Some(i) => r matches Some(a) && *a == self.applications@[i],
                None => r is None,
            },
            match r {
                Some(a) => lookup_application(self@, name@) == Some(a@),
                None => lookup_application(self@, name@) is None,
            },
            match r {
                Some(a) => exists|i: int|
                    is_first_named(application_names(self@.applications), name@, i) && *a
                        == self.applications@[i],
                None => forall|i: int|
                    0 <= i < self.applications@.len() ==> self.applications@[i].name@ != name@,
            },
    {
        let ghost names = application_names(self@.applications);
        proof {
            lemma_first_named(names, name@);
        }
        let wanted = String::from_str(name);
        let mut i: usize = 0;
        while i < self.applications.len()
            invariant
                i <= self.applications@.len(),
                names == application_names(self@.applications),
                wanted@ == name@,
                first_named_from(names, name@, i as int) == first_named(names, name@),
            decreases self.applications@.len() - i,
        {
            assert(names[i as int] == self.applications@[i as int].name@);
            if self.applications[i].name == wanted {
                proof {
                    lemma_first_named(names, name@);
                }
                assert(self@.applications[i as int] == self.applications@[i as int]@);
                return Some(&self.applications[i]);
            }
            i = i + 1;
        }
        assert forall|j: int| 0 <= j < self.applications@.len() implies self.applications@[j].name@ != name@ by {
            assert(names[j] == self.applications@[j].name@);
        }
        None
    }
}

impl Application {
    /// The port bindings of this application, in catalog order; empty when it
    /// exposes none.
    pub fn bindings(&self) -> (r: &[Port])
        ensures
            r@ == self.ports@,
    {
        self.ports.as_slice()
    }
}

/// The bindings of an application written in either catalog shape: a single
/// legacy `port`, a `ports` sequence, or both, the single binding first.
pub fn merge_bindings(port: Option<Port>, ports: Vec<Port>) -> (r: Vec<Port>)
    ensures
        r@ == match port {
            Some(p) => seq![p] + ports@,
            None => ports@,
        },
{
    match port {
        None => ports,
        Some(p) => {
            let mut r: Vec<Port> = Vec::new();
            r.push(p);
            let mut j: usize = 0;
            while j < ports.len()
                invariant
                    j <= ports@.len(),
                    r@ == seq![p] + ports@.subrange(0, j as int),
                decreases ports@.len() - j,
            {
                r.push(ports[j]);
                j = j + 1;
                assert(r@ =~= seq![p] + ports@.subrange(0, j as int));
            }
            assert(ports@.subrange(0, ports@.len() as int) =~= ports@);
            r
        },
    }
}

} // verus!
