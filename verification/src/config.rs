//! MCP server configuration: which transport each server uses, whether its
//! definition is consistent, and the transport specification it resolves to.
use vstd::prelude::*;

use crate::text::{copy_str, lit, push_str, str_eq};

verus! {

/// The URL `url::Url::parse` makes of a string, by its serialization, or
/// `None` when the string is not a valid absolute URL.
pub uninterp spec fn url_parse(input: Seq<char>) -> Option<Seq<char>>;

/// Parses `input` with `url::Url::parse` and keeps the parsed URL's
/// serialization (`Url::as_str`). The contract claims only that the result
/// is `url_parse` of the input, a function of the input alone.
#[verifier::external_body]
fn parse_url(input: &str) -> (r: Option<String>)
    ensures
        r is Some <==> url_parse(input@) is Some,
        r matches Some(u) ==> u@ == url_parse(input@)->0,
{
    url::Url::parse(input).ok().map(|u| u.as_str().to_string())
}

/// The transport an MCP server is reached over.
#[derive(Clone, Copy, Debug, PartialEq, Eq, Structural)]
pub enum McpTransportKind {
    Stdio,
    StreamableHttp,
}

/// One server of the configuration, as written in the JSON file.
#[derive(Clone, Debug)]
pub struct McpServerDef {
    /// An explicit transport; when absent it follows from `command` / `url`.
    pub transport_type: Option<McpTransportKind>,
    pub command: Option<String>,
    pub args: Vec<String>,
    pub env: Vec<(String, String)>,
    pub cwd: Option<String>,
    pub url: Option<String>,
    pub headers: Vec<(String, String)>,
}

/// The configuration file: servers by name.
#[derive(Clone, Debug)]
pub struct McpConfig {
    pub mcp_servers: Vec<(String, McpServerDef)>,
}

/// How to spawn a stdio server.
#[derive(Clone, Debug)]
pub struct McpStdioTransportSpec {
    pub command: String,
    pub args: Vec<String>,
    pub env: Vec<(String, String)>,
    pub cwd: Option<String>,
}

/// How to reach a remote server.
#[derive(Clone, Debug)]
pub struct McpStreamableHttpTransportSpec {
    /// The parsed URL, by its serialization.
    pub url: String,
    pub headers: Vec<(String, String)>,
}

/// A server's transport, resolved from its definition.
#[derive(Clone, Debug)]
pub enum McpTransportSpec {
    Stdio(McpStdioTransportSpec),
    StreamableHttp(McpStreamableHttpTransportSpec),
}

/// A named server with its resolved transport.
#[derive(Clone, Debug)]
pub struct ResolvedMcpServer {
    pub name: String,
    pub transport: McpTransportSpec,
}

/// What is wrong with a server definition.
#[derive(Clone, Debug, PartialEq, Eq)]
pub enum ServerDefError {
    /// Both `command` and `url` are set and no transport is given.
    MixedTransport,
    /// Neither `command` nor `url` is set and no transport is given.
    NoTransport,
    /// A stdio server without `command`.
    MissingCommand,
    /// A stdio server that also sets `url`.
    StdioWithUrl { command: String },
    /// A remote server without `url`.
    MissingUrl,
    /// A remote server whose `url` does not parse.
    InvalidUrl { url: String },
    /// A remote server that also sets `command`.
    RemoteWithCommand,
}

/// What is wrong with a configuration.
#[derive(Clone, Debug, PartialEq, Eq)]
pub enum McpConfigError {
    /// No server is defined.
    NoServers,
    /// The named server's definition is invalid.
    InvalidServer { name: String, cause: ServerDefError },
    /// No server has this name.
    NotFound { name: String },
    /// A server's transport could not be resolved.
    Transport(ServerDefError),
}

/// The transport a definition uses.
pub open spec fn kind_of(d: McpServerDef) -> Result<McpTransportKind, ServerDefError> {
    match d.transport_type {
        Some(k) => Ok(k),
        None => if d.command is Some && d.url is None {
            Ok(McpTransportKind::Stdio)
        } else if d.command is None && d.url is Some {
            Ok(McpTransportKind::StreamableHttp)
        } else if d.command is Some {
            Err(ServerDefError::MixedTransport)
        } else {
            Err(ServerDefError::NoTransport)
        },
    }
}

/// The verdict on a definition: a stdio server needs a command and no URL;
/// a remote server needs a URL that parses and no command.
pub open spec fn check_of(d: McpServerDef) -> Result<(), ServerDefError> {
    match kind_of(d) {
        Err(e) => Err(e),
        Ok(McpTransportKind::Stdio) => match d.command {
            None => Err(ServerDefError::MissingCommand),
            Some(c) => if d.url is Some {
                Err(ServerDefError::StdioWithUrl { command: c })
            } else {
                Ok(())
            },
        },
        Ok(McpTransportKind::StreamableHttp) => match d.url {
            None => Err(ServerDefError::MissingUrl),
            Some(u) => if url_parse(u@) is None {
                Err(ServerDefError::InvalidUrl { url: u })
            } else if d.command is Some {
                Err(ServerDefError::RemoteWithCommand)
            } else {
                Ok(())
            },
        },
    }
}

/// The transport a definition resolves to (its errors only: the stdio
/// fields, or the remote fields with the parsed URL, are copied over).
pub open spec fn spec_error_of(d: McpServerDef) -> Option<ServerDefError> {
    match kind_of(d) {
        Err(e) => Some(e),
        Ok(McpTransportKind::Stdio) => if d.command is None {
            Some(ServerDefError::MissingCommand)
        } else {
            None
        },
        Ok(McpTransportKind::StreamableHttp) => match d.url {
            None => Some(ServerDefError::MissingUrl),
            Some(u) => if url_parse(u@) is None {
                Some(ServerDefError::InvalidUrl { url: u })
            } else {
                None
            },
        },
    }
}

/// `spec` is what `d` resolves to.
pub open spec fn resolves_to(d: McpServerDef, spec: McpTransportSpec) -> bool {
    match spec {
        McpTransportSpec::Stdio(s) => {
            &&& kind_of(d) == Ok::<McpTransportKind, ServerDefError>(McpTransportKind::Stdio)
            &&& d.command == Some(s.command)
            &&& s.args@ == d.args@
            &&& s.env@ == d.env@
            &&& s.cwd == d.cwd
        },
        McpTransportSpec::StreamableHttp(h) => {
            &&& kind_of(d) == Ok::<McpTransportKind, ServerDefError>(McpTransportKind::StreamableHttp)
            &&& d.url matches Some(u) && url_parse(u@) == Some(h.url@)
            &&& h.headers@ == d.headers@
        },
    }
}

fn copy_opt(o: &Option<String>) -> (r: Option<String>)
    ensures
        r == *o,
{
    match o {
        Some(s) => Some(s.clone()),
        None => None,
    }
}

fn copy_strings(v: &Vec<String>) -> (r: Vec<String>)
    ensures
        r@ == v@,
{
    let mut r: Vec<String> = Vec::new();
    let mut i: usize = 0;
    while i < v.len()
        invariant
            i <= v.len(),
            r@ == v@.take(i as int),
        decreases v.len() - i,
    {
        r.push(v[i].clone());
        assert(r@ =~= v@.take(i + 1));
        i = i + 1;
    }
    assert(r@ =~= v@);
    r
}

fn copy_pairs(v: &Vec<(String, String)>) -> (r: Vec<(String, String)>)
    ensures
        r@ == v@,
{
    let mut r: Vec<(String, String)> = Vec::new();
    let mut i: usize = 0;
    while i < v.len()
        invariant
            i <= v.len(),
            r@ == v@.take(i as int),
        decreases v.len() - i,
    {
        r.push((v[i].0.clone(), v[i].1.clone()));
        assert(r@ =~= v@.take(i + 1));
        i = i + 1;
    }
    assert(r@ =~= v@);
    r
}

impl McpServerDef {
    /// The transport this server uses: the explicit one, else stdio when
    /// only `command` is set and remote when only `url` is set.
    pub fn transport_kind(&self) -> (r: Result<McpTransportKind, ServerDefError>)
        ensures
            r == kind_of(*self),
    {
        if let Some(k) = self.transport_type {
            return Ok(k);
        }
        match (self.command.is_some(), self.url.is_some()) {
            (true, false) => Ok(McpTransportKind::Stdio),
            (false, true) => Ok(McpTransportKind::StreamableHttp),
            (true, true) => Err(ServerDefError::MixedTransport),
            (false, false) => Err(ServerDefError::NoTransport),
        }
    }

    /// Checks that the fields match the transport.
    pub fn validate(&self) -> (r: Result<(), ServerDefError>)
        ensures
            r == check_of(*self),
    {
        match self.transport_kind()? {
            McpTransportKind::Stdio => match &self.command {
                None => Err(ServerDefError::MissingCommand),
                Some(c) => if self.url.is_some() {
                    Err(ServerDefError::StdioWithUrl { command: c.clone() })
                } else {
                    Ok(())
                },
            },
            McpTransportKind::StreamableHttp => match &self.url {
                None => Err(ServerDefError::MissingUrl),
                Some(u) => if parse_url(u.as_str()).is_none() {
                    Err(ServerDefError::InvalidUrl { url: u.clone() })
                } else if self.command.is_some() {
                    Err(ServerDefError::RemoteWithCommand)
                } else {
                    Ok(())
                },
            },
        }
    }

    /// The transport specification of this server.
    pub fn transport_spec(&self) -> (r: Result<McpTransportSpec, ServerDefError>)
        ensures
            spec_error_of(*self) matches Some(e) ==> r == Err::<McpTransportSpec, ServerDefError>(e),
            spec_error_of(*self) is None ==> (r matches Ok(s) && resolves_to(*self, s)),
    {
        match self.transport_kind()? {
            McpTransportKind::Stdio => match &self.command {
                None => Err(ServerDefError::MissingCommand),
                Some(c) => Ok(
                    McpTransportSpec::Stdio(
                        McpStdioTransportSpec {
                            command: c.clone(),
                            args: copy_strings(&self.args),
                            env: copy_pairs(&self.env),
                            cwd: copy_opt(&self.cwd),
                        },
                    ),
                ),
            },
            McpTransportKind::StreamableHttp => match &self.url {
                None => Err(ServerDefError::MissingUrl),
                Some(u) => match parse_url(u.as_str()) {
                    None => Err(ServerDefError::InvalidUrl { url: u.clone() }),
                    Some(parsed) => Ok(
                        McpTransportSpec::StreamableHttp(
                            McpStreamableHttpTransportSpec {
                                url: parsed,
                                headers: copy_pairs(&self.headers),
                            },
                        ),
                    ),
                },
            },
        }
    }
}

impl McpTransportSpec {
    /// The transport kind of this specification.
    pub fn kind(&self) -> (r: McpTransportKind)
        ensures
            r == (if *self is Stdio {
                McpTransportKind::Stdio
            } else {
                McpTransportKind::StreamableHttp
            }),
    {
        match self {
            McpTransportSpec::Stdio(_) => McpTransportKind::Stdio,
            McpTransportSpec::StreamableHttp(_) => McpTransportKind::StreamableHttp,
        }
    }
}

/// The servers by name; a later entry for a name hides an earlier one.
pub open spec fn servers_of(entries: Seq<(String, McpServerDef)>) -> Map<Seq<char>, McpServerDef>
    decreases entries.len(),
{
    if entries.len() == 0 {
        Map::empty()
    } else {
        servers_of(entries.drop_last()).insert(entries.last().0@, entries.last().1)
    }
}

/// The first entry of `entries` whose definition is invalid, if any.
pub open spec fn first_invalid(entries: Seq<(String, McpServerDef)>) -> Option<int> {
    if exists|i: int| 0 <= i < entries.len() && check_of(#[trigger] entries[i].1) is Err {
        Some(choose|i: int| 0 <= i < entries.len() && check_of(#[trigger] entries[i].1) is Err
            && forall|j: int| 0 <= j < i ==> check_of(#[trigger] entries[j].1) is Ok)
    } else {
        None
    }
}

/// No name is given to two entries.
pub open spec fn distinct_names(entries: Seq<(String, McpServerDef)>) -> bool {
    forall|i: int, j: int|
        0 <= i < entries.len() && 0 <= j < entries.len() && i != j ==> (#[trigger] entries[i]).0@
            != (#[trigger] entries[j]).0@
}

impl McpConfig {
    /// The servers by name.
    pub open spec fn servers(&self) -> Map<Seq<char>, McpServerDef> {
        servers_of(self.mcp_servers@)
    }

    /// Each server is named once, as in the file's map.
    pub open spec fn wf(&self) -> bool {
        distinct_names(self.mcp_servers@)
    }

    /// Whether each server is named once.
    pub fn has_distinct_names(&self) -> (r: bool)
        ensures
            r == self.wf(),
    {
        let n = self.mcp_servers.len();
        let mut i: usize = 0;
        while i < n
            invariant
                n == self.mcp_servers@.len(),
                i <= n,
                forall|a: int, b: int|
                    0 <= a < i && 0 <= b < n && a != b ==> (#[trigger] self.mcp_servers@[a]).0@
                        != (#[trigger] self.mcp_servers@[b]).0@,
            decreases n - i,
        {
            let mut j: usize = 0;
            while j < n
                invariant
                    n == self.mcp_servers@.len(),
                    i < n,
                    j <= n,
                    forall|a: int, b: int|
                        0 <= a < i && 0 <= b < n && a != b ==> (#[trigger] self.mcp_servers@[a]).0@
                            != (#[trigger] self.mcp_servers@[b]).0@,
                    forall|b: int|
                        0 <= b < j && b != i ==> self.mcp_servers@[i as int].0@ != (
                        #[trigger] self.mcp_servers@[b]).0@,
                decreases n - j,
            {
                if j != i && str_eq(self.mcp_servers[i].0.as_str(), self.mcp_servers[j].0.as_str()) {
                    assert(!distinct_names(self.mcp_servers@)) by {
                        assert(self.mcp_servers@[i as int].0@ == self.mcp_servers@[j as int].0@);
                    }
                    return false;
                }
                j = j + 1;
            }
            i = i + 1;
        }
        true
    }

    /// Checks that at least one server is defined and that every server's
    /// definition is valid; reports the first invalid server.
    pub fn validate(&self) -> (r: Result<(), McpConfigError>)
        ensures
            self.mcp_servers@.len() == 0 ==> r == Err::<(), McpConfigError>(McpConfigError::NoServers),
            self.mcp_servers@.len() > 0 && (forall|i: int| 0 <= i < self.mcp_servers@.len() ==> check_of(
                #[trigger] self.mcp_servers@[i].1,
            ) is Ok) ==> r is Ok,
            r matches Err(McpConfigError::InvalidServer { name, cause }) ==> exists|i: int|
                0 <= i < self.mcp_servers@.len() && name == self.mcp_servers@[i].0 && check_of(
                    #[trigger] self.mcp_servers@[i].1,
                ) == Err::<(), ServerDefError>(cause) && forall|j: int|
                    0 <= j < i ==> check_of(#[trigger] self.mcp_servers@[j].1) is Ok,
            r is Err ==> (self.mcp_servers@.len() == 0 || r matches Err(McpConfigError::InvalidServer { .. })),
            r is Ok <==> self.mcp_servers@.len() > 0 && forall|i: int|
                0 <= i < self.mcp_servers@.len() ==> check_of(#[trigger] self.mcp_servers@[i].1) is Ok,
    {
        if self.mcp_servers.len() == 0 {
            return Err(McpConfigError::NoServers);
        }
        let mut i: usize = 0;
        while i < self.mcp_servers.len()
            invariant
                i <= self.mcp_servers.len(),
                forall|j: int| 0 <= j < i ==> check_of(#[trigger] self.mcp_servers@[j].1) is Ok,
            decreases self.mcp_servers.len() - i,
        {
            match self.mcp_servers[i].1.validate() {
                Ok(()) => {},
                Err(cause) => {
                    return Err(
                        McpConfigError::InvalidServer {
                            name: self.mcp_servers[i].0.clone(),
                            cause,
                        },
                    );
                },
            }
            i = i + 1;
        }
        Ok(())
    }

    /// The definition of the server named `name`.
    pub fn server(&self, name: &str) -> (r: Option<&McpServerDef>)
        ensures
            r is Some <==> self.servers().dom().contains(name@),
            r matches Some(d) ==> *d == self.servers()[name@],
    {
        let mut i = self.mcp_servers.len();
        assert(self.mcp_servers@.take(i as int) =~= self.mcp_servers@);
        while i > 0
            invariant
                i <= self.mcp_servers.len(),
                servers_of(self.mcp_servers@).dom().contains(name@) <==> servers_of(
                    self.mcp_servers@.take(i as int),
                ).dom().contains(name@),
                servers_of(self.mcp_servers@).dom().contains(name@) ==> servers_of(
                    self.mcp_servers@,
                )[name@] == servers_of(self.mcp_servers@.take(i as int))[name@],
            decreases i,
        {
            let ghost pre = self.mcp_servers@.take(i as int);
            assert(pre.drop_last() =~= self.mcp_servers@.take(i - 1));
            assert(pre.last() == self.mcp_servers@[i - 1]);
            if str_eq(self.mcp_servers[i - 1].0.as_str(), name) {
                return Some(&self.mcp_servers[i - 1].1);
            }
            i = i - 1;
        }
        None
    }

    /// Resolves the transport of the server named `name`.
    pub fn resolved_server(&self, name: &str) -> (r: Result<ResolvedMcpServer, McpConfigError>)
        ensures
            !self.servers().dom().contains(name@) ==> (r matches Err(McpConfigError::NotFound { name: n })
                && n@ == name@),
            self.servers().dom().contains(name@) ==> {
                let d = self.servers()[name@];
                &&& spec_error_of(d) matches Some(e) ==> r == Err::<ResolvedMcpServer, McpConfigError>(
                    McpConfigError::Transport(e),
                )
                &&& spec_error_of(d) is None ==> (r matches Ok(s) && s.name@ == name@ && resolves_to(d, s.transport))
            },
    {
        match self.server(name) {
            None => Err(McpConfigError::NotFound { name: copy_str(name) }),
            Some(d) => match d.transport_spec() {
                Ok(transport) => Ok(ResolvedMcpServer { name: copy_str(name), transport }),
                Err(cause) => Err(McpConfigError::Transport(cause)),
            },
        }
    }

    /// Resolves the transports of all servers, in order, each under its own
    /// name; stops at the first server that does not resolve.
    pub fn resolved_servers(&self) -> (r: Result<Vec<ResolvedMcpServer>, McpConfigError>)
        requires
            self.wf(),
        ensures
            r matches Ok(v) ==> forall|i: int, j: int|
                0 <= i < v@.len() && 0 <= j < v@.len() && i != j ==> (#[trigger] v@[i]).name@
                    != (#[trigger] v@[j]).name@,
            r matches Ok(v) ==> v@.len() == self.mcp_servers@.len() && forall|i: int|
                0 <= i < v@.len() ==> (#[trigger] v@[i]).name == self.mcp_servers@[i].0
                    && resolves_to(self.mcp_servers@[i].1, v@[i].transport),
            r is Ok <==> forall|i: int| 0 <= i < self.mcp_servers@.len() ==> spec_error_of(
                #[trigger] self.mcp_servers@[i].1,
            ) is None,
            r matches Err(McpConfigError::Transport(cause)) ==> exists|i: int|
                0 <= i < self.mcp_servers@.len() && spec_error_of(
                    #[trigger] self.mcp_servers@[i].1,
                ) == Some(cause) && forall|j: int|
                    0 <= j < i ==> spec_error_of(#[trigger] self.mcp_servers@[j].1) is None,
            r is Err ==> r matches Err(McpConfigError::Transport(_)),
    {
        let mut out: Vec<ResolvedMcpServer> = Vec::new();
        let mut i: usize = 0;
        while i < self.mcp_servers.len()
            invariant
                i <= self.mcp_servers.len(),
                out@.len() == i,
                forall|j: int| 0 <= j < i ==> spec_error_of(#[trigger] self.mcp_servers@[j].1) is None,
                forall|j: int|
                    0 <= j < i ==> (#[trigger] out@[j]).name == self.mcp_servers@[j].0
                        && resolves_to(self.mcp_servers@[j].1, out@[j].transport),
            decreases self.mcp_servers.len() - i,
        {
            match self.mcp_servers[i].1.transport_spec() {
                Ok(transport) => {
                    out.push(ResolvedMcpServer { name: self.mcp_servers[i].0.clone(), transport });
                },
                Err(cause) => {
                    return Err(McpConfigError::Transport(cause));
                },
            }
            i = i + 1;
        }
        Ok(out)
    }
}

/// The message of a definition error.
pub open spec fn server_error_message(e: ServerDefError) -> Seq<char> {
    match e {
        ServerDefError::MixedTransport => lit(
            "server definition mixes stdio `command` fields with remote `url` fields",
        ),
        ServerDefError::NoTransport => lit(
            "server definition must define either a stdio `command` or a remote `url`",
        ),
        ServerDefError::MissingCommand => lit("stdio servers must include a `command`"),
        ServerDefError::StdioWithUrl { command } => lit("stdio server `") + command@ + lit(
            "` cannot also define a `url`",
        ),
        ServerDefError::MissingUrl => lit("HTTP MCP servers must include a `url`"),
        ServerDefError::InvalidUrl { url } => lit("invalid MCP server URL `") + url@ + lit("`"),
        ServerDefError::RemoteWithCommand => lit("remote MCP servers cannot also define a `command`"),
    }
}

impl ServerDefError {
    /// The human-readable message of this error.
    pub fn message(&self) -> (r: String)
        ensures
            r@ == server_error_message(*self),
    {
        match self {
            ServerDefError::MixedTransport => copy_str(
                "server definition mixes stdio `command` fields with remote `url` fields",
            ),
            ServerDefError::NoTransport => copy_str(
                "server definition must define either a stdio `command` or a remote `url`",
            ),
            ServerDefError::MissingCommand => copy_str("stdio servers must include a `command`"),
            ServerDefError::StdioWithUrl { command } => {
                let mut r = copy_str("stdio server `");
                push_str(&mut r, command.as_str());
                push_str(&mut r, "` cannot also define a `url`");
                r
            },
            ServerDefError::MissingUrl => copy_str("HTTP MCP servers must include a `url`"),
            ServerDefError::InvalidUrl { url } => {
                let mut r = copy_str("invalid MCP server URL `");
                push_str(&mut r, url.as_str());
                push_str(&mut r, "`");
                r
            },
            ServerDefError::RemoteWithCommand => copy_str(
                "remote MCP servers cannot also define a `command`",
            ),
        }
    }
}

/// Why a server has no stdio command.
#[derive(Clone, Debug, PartialEq, Eq)]
pub enum StdioCommandError {
    /// The definition is invalid.
    Invalid(ServerDefError),
    /// The server is remote.
    Remote,
}

impl McpServerDef {
    /// The stdio transport to spawn the server with; a remote server has none.
    pub fn stdio_transport(&self) -> (r: Result<McpStdioTransportSpec, StdioCommandError>)
        ensures
            spec_error_of(*self) matches Some(e) ==> r == Err::<McpStdioTransportSpec, StdioCommandError>(
                StdioCommandError::Invalid(e),
            ),
            spec_error_of(*self) is None && kind_of(*self) == Ok::<McpTransportKind, ServerDefError>(
                McpTransportKind::StreamableHttp,
            ) ==> r == Err::<McpStdioTransportSpec, StdioCommandError>(StdioCommandError::Remote),
            spec_error_of(*self) is None && kind_of(*self) == Ok::<McpTransportKind, ServerDefError>(
                McpTransportKind::Stdio,
            ) ==> (r matches Ok(s) && resolves_to(*self, McpTransportSpec::Stdio(s))),
    {
        match self.transport_spec() {
            Err(e) => Err(StdioCommandError::Invalid(e)),
            Ok(McpTransportSpec::Stdio(s)) => Ok(s),
            Ok(McpTransportSpec::StreamableHttp(_)) => Err(StdioCommandError::Remote),
        }
    }
}

impl StdioCommandError {
    /// The message of this error.
    pub fn message(&self) -> (r: String)
        ensures
            match *self {
                StdioCommandError::Invalid(e) => r@ == server_error_message(e),
                StdioCommandError::Remote => r@ == lit("remote MCP servers do not have a stdio command"),
            },
    {
        match self {
            StdioCommandError::Invalid(e) => e.message(),
            StdioCommandError::Remote => copy_str("remote MCP servers do not have a stdio command"),
        }
    }
}

/// The message of a configuration error: what is wrong, followed for an
/// invalid server by the cause.
pub open spec fn config_error_message(e: McpConfigError) -> Seq<char> {
    match e {
        McpConfigError::NoServers => lit("no MCP servers were defined under `mcpServers`"),
        McpConfigError::InvalidServer { name, cause } => lit("invalid MCP server `") + name@ + lit(
            "`: ",
        ) + server_error_message(cause),
        McpConfigError::NotFound { name } => lit("MCP server `") + name@ + lit(
            "` was not found in the config",
        ),
        McpConfigError::Transport(cause) => server_error_message(cause),
    }
}

impl McpConfigError {
    /// The human-readable message of this error.
    pub fn message(&self) -> (r: String)
        ensures
            r@ == config_error_message(*self),
    {
        match self {
            McpConfigError::NoServers => copy_str("no MCP servers were defined under `mcpServers`"),
            McpConfigError::InvalidServer { name, cause } => {
                let mut r = copy_str("invalid MCP server `");
                push_str(&mut r, name.as_str());
                push_str(&mut r, "`: ");
                let c = cause.message();
                push_str(&mut r, c.as_str());
                r
            },
            McpConfigError::NotFound { name } => {
                let mut r = copy_str("MCP server `");
                push_str(&mut r, name.as_str());
                push_str(&mut r, "` was not found in the config");
                r
            },
            McpConfigError::Transport(cause) => cause.message(),
        }
    }
}

} // verus!
