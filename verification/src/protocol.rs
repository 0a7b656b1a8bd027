//! The server that tools are called through: requests, replies, sessions, and
//! who may come in.
use vstd::prelude::*;

use crate::json::opt_json_owned;
use crate::manager::random_id;
use crate::map::{
    lemma_lookup_put, lemma_lookup_without, lookup, put, sorted, without, TextMap,
};
use crate::text::{
    after_prefix, contains, dec_i64, dec_int, has_part, join2, join3, opt_text, same, strip,
};
use crate::value::{lemma_array_view, lemma_object_view, values, Json, JsonView};

verus! {

broadcast use {lemma_array_view, lemma_object_view};

/// What goes wrong with a request.
#[derive(Debug, PartialEq, Eq)]
pub struct McpError {
    pub code: i32,
    pub message: String,
}

pub struct ErrorView {
    pub code: int,
    pub message: Seq<char>,
}

impl McpError {
    pub open spec fn view(&self) -> ErrorView {
        ErrorView { code: self.code as int, message: self.message@ }
    }

    pub fn new(code: i32, message: &str) -> (r: McpError)
        ensures
            r@ == (ErrorView { code: code as int, message: message@ }),
    {
        McpError { code, message: message.to_owned() }
    }
}

/// The arguments are wrong.
pub open spec fn invalid(message: Seq<char>) -> ErrorView {
    ErrorView { code: -32602, message }
}

/// The request could not be carried out.
pub open spec fn refused(message: Seq<char>) -> ErrorView {
    ErrorView { code: -32000, message }
}

/// The browser could not be reached.
pub open spec fn unreachable_browser(message: Seq<char>) -> ErrorView {
    ErrorView { code: -32099, message }
}

pub fn invalid_args(message: &str) -> (r: McpError)
    ensures
        r@ == invalid(message@),
{
    McpError::new(-32602, message)
}

pub fn refusal(message: &str) -> (r: McpError)
    ensures
        r@ == refused(message@),
{
    McpError::new(-32000, message)
}

pub fn transport_error(message: &str) -> (r: McpError)
    ensures
        r@ == unreachable_browser(message@),
{
    McpError::new(-32099, message)
}

/// A text in the notation of a string literal.
pub uninterp spec fn debug_quoted(s: Seq<char>) -> Seq<char>;

/// The `Debug` form of a `str`: between quotation marks, with the characters
/// escaped that need it. The result depends on the text alone.
#[verifier::external_body]
fn quote_debug(s: &str) -> (r: String)
    ensures
        r@ == debug_quoted(s@),
{
    format!("{s:?}")
}

impl ErrorView {
    /// The error with its fields named.
    pub open spec fn debug(self) -> Seq<char> {
        "McpError { code: "@ + dec_int(self.code) + ", message: "@ + debug_quoted(
            self.message,
        ) + " }"@
    }
}

/// The error with its fields named.
pub fn debug_text(e: &McpError) -> (r: String)
    ensures
        r@ == e@.debug(),
{
    let mut out = join3("McpError { code: ", dec_i64(e.code as i64).as_str(), ", message: ");
    out.append(quote_debug(e.message.as_str()).as_str());
    out.append(" }");
    out
}

/// A request.
#[derive(Debug, PartialEq, Eq)]
pub struct McpRequest {
    pub jsonrpc: String,
    pub id: Option<Json>,
    pub method: String,
    pub params: Option<Json>,
}

/// A reply: a result or an error.
#[derive(Debug, PartialEq, Eq)]
pub struct McpResponse {
    pub jsonrpc: String,
    pub id: Option<Json>,
    pub result: Option<Json>,
    pub error: Option<McpError>,
}

pub struct ResponseView {
    pub jsonrpc: Seq<char>,
    pub id: Option<JsonView>,
    pub result: Option<JsonView>,
    pub error: Option<ErrorView>,
}

pub open spec fn opt_error(o: Option<McpError>) -> Option<ErrorView> {
    match o {
        Some(e) => Some(e@),
        None => None,
    }
}

impl McpResponse {
    pub open spec fn view(&self) -> ResponseView {
        ResponseView {
            jsonrpc: self.jsonrpc@,
            id: opt_json_owned(self.id),
            result: opt_json_owned(self.result),
            error: opt_error(self.error),
        }
    }
}

pub open spec fn result_view(r: Result<Json, McpError>) -> Result<JsonView, ErrorView> {
    match r {
        Ok(v) => Ok(v@),
        Err(e) => Err(e@),
    }
}

/// The reply to a request with the given id.
pub open spec fn response(id: JsonView, r: Result<JsonView, ErrorView>) -> ResponseView {
    ResponseView {
        jsonrpc: "2.0"@,
        id: Some(id),
        result: match r {
            Ok(v) => Some(v),
            Err(_) => None,
        },
        error: match r {
            Ok(_) => None,
            Err(e) => Some(e),
        },
    }
}

/// The reply to a request with the given id.
pub fn respond(id: Json, r: Result<Json, McpError>) -> (s: McpResponse)
    ensures
        s@ == response(id@, result_view(r)),
{
    match r {
        Ok(v) => McpResponse {
            jsonrpc: "2.0".to_owned(),
            id: Some(id),
            result: Some(v),
            error: None,
        },
        Err(e) => McpResponse {
            jsonrpc: "2.0".to_owned(),
            id: Some(id),
            result: None,
            error: Some(e),
        },
    }
}

impl ResponseView {
    /// The reply as JSON; the parts that are not there are left out.
    pub open spec fn json(self) -> JsonView {
        let a = JsonView::empty().with("jsonrpc"@, JsonView::Str(self.jsonrpc));
        let b = match self.id {
            Some(id) => a.with("id"@, id),
            None => a,
        };
        let c = match self.result {
            Some(r) => b.with("result"@, r),
            None => b,
        };
        match self.error {
            Some(e) => c.with(
                "error"@,
                JsonView::empty().with("code"@, JsonView::from_int(e.code as i64)).with(
                    "message"@,
                    JsonView::Str(e.message),
                ),
            ),
            None => c,
        }
    }
}

impl McpResponse {
    /// The reply as JSON.
    pub fn to_json(self) -> (r: Json)
        ensures
            r@ == self@.json(),
    {
        let McpResponse { jsonrpc, id, result, error } = self;
        let a = Json::empty().with("jsonrpc", Json::Str(jsonrpc));
        let b = match id {
            Some(id) => a.with("id", id),
            None => a,
        };
        let c = match result {
            Some(r) => b.with("result", r),
            None => b,
        };
        match error {
            Some(e) => c.with(
                "error",
                Json::empty().with("code", Json::from_int(e.code as i64)).with(
                    "message",
                    Json::Str(e.message),
                ),
            ),
            None => c,
        }
    }
}

// ---------------------------------------------------------------------------
// The server
// ---------------------------------------------------------------------------

/// The server.
pub struct McpServer {
    pub running: bool,
    /// Zero where it does not listen.
    pub port: u16,
    pub token: Option<String>,
    /// The sessions, and whether each has been initialized.
    pub sessions: TextMap<bool>,
    /// The tab that is active in each profile.
    pub active_targets: TextMap<String>,
}

impl McpServer {
    /// The sessions and the active tabs are kept in the order of their ids, each
    /// id once.
    pub open spec fn well_formed(&self) -> bool {
        sorted(self.sessions@) && sorted(self.active_targets@)
    }

    pub fn new() -> (r: McpServer)
        ensures
            !r.running,
            r.port == 0,
            r.token is None,
            r.sessions@ == Seq::<(Seq<char>, bool)>::empty(),
            r.active_targets@ == Seq::<(Seq<char>, String)>::empty(),
            r.well_formed(),
    {
        McpServer {
            running: false,
            port: 0,
            token: None,
            sessions: TextMap::new(),
            active_targets: TextMap::new(),
        }
    }

    pub fn is_running(&self) -> (r: bool)
        ensures
            r == self.running,
    {
        self.running
    }

    /// The port that the server listens on.
    pub fn get_port(&self) -> (r: Option<u16>)
        ensures
            r == if self.port > 0 {
                Some(self.port)
            } else {
                None
            },
    {
        if self.port > 0 {
            Some(self.port)
        } else {
            None
        }
    }

    /// Whether the server may be started.
    pub fn check_start(&self) -> (r: Result<(), String>)
        ensures
            match r {
                Ok(_) => !self.running,
                Err(e) => self.running && e@ == "MCP server is already running"@,
            },
    {
        if self.running {
            Err("MCP server is already running".to_owned())
        } else {
            Ok(())
        }
    }

    /// Enters that the server listens.
    pub fn started(&mut self, port: u16, token: &str)
        ensures
            final(self).running,
            final(self).port == port,
            opt_text(final(self).token) == Some(token@),
            final(self).sessions == old(self).sessions,
            final(self).active_targets == old(self).active_targets,
            old(self).well_formed() ==> final(self).well_formed(),
    {
        self.port = port;
        self.token = Some(token.to_owned());
        self.running = true;
    }

    /// Stops the server: nobody has a session any more.
    pub fn stop(&mut self) -> (r: Result<(), String>)
        ensures
            match r {
                Ok(_) => old(self).running && !final(self).running && final(self).port == 0
                    && final(self).token is None && final(self).sessions@.len() == 0
                    && final(self).active_targets == old(self).active_targets,
                Err(e) => !old(self).running && *final(self) == *old(self) && e@
                    == "MCP server is not running"@,
            },
            old(self).well_formed() ==> final(self).well_formed(),
    {
        if !self.running {
            return Err("MCP server is not running".to_owned());
        }
        self.token = None;
        self.sessions = TextMap::new();
        self.port = 0;
        self.running = false;
        Ok(())
    }
}

/// The port to try first.
pub fn preferred_port(saved: Option<u16>) -> (r: u16)
    ensures
        r == match saved {
            Some(p) => p,
            None => 51080u16,
        },
{
    match saved {
        Some(p) => p,
        None => 51080,
    }
}

/// The port that a random number picks where the first one is taken.
pub fn fallback_port(draw: u16) -> (r: u16)
    ensures
        r == 51000 + draw % 1000,
        51000 <= r < 52000,
{
    51000 + draw % 1000
}

/// What to do after an attempt to listen on a port.
#[derive(Debug, Clone, Copy, PartialEq, Eq, Structural)]
pub enum PortStep {
    /// Listen on this one.
    Take(u16),
    /// Try this one.
    Try(u16),
    GiveUp,
}

/// What to do after attempt `attempt` to listen, counted from zero: after the
/// first port, ten random ones are tried.
pub fn after_bind(attempt: u32, port: u16, free: bool, draw: u16) -> (r: PortStep)
    ensures
        r == if free {
            PortStep::Take(port)
        } else if attempt < 10 {
            PortStep::Try((51000 + draw % 1000) as u16)
        } else {
            PortStep::GiveUp
        },
{
    if free {
        PortStep::Take(port)
    } else if attempt < 10 {
        PortStep::Try(fallback_port(draw))
    } else {
        PortStep::GiveUp
    }
}

// ---------------------------------------------------------------------------
// Who may come in
// ---------------------------------------------------------------------------

/// The token that a path carries.
pub open spec fn path_token(path: Seq<char>) -> Option<Seq<char>> {
    match after_prefix(path, "/mcp/"@) {
        Some(t) => if t.len() > 0 && !contains(t, "/"@) {
            Some(t)
        } else {
            None
        },
        None => None,
    }
}

/// The token that a header carries.
pub open spec fn header_token(header: Option<Seq<char>>) -> Option<Seq<char>> {
    match header {
        Some(h) => after_prefix(h, "Bearer "@),
        None => None,
    }
}

/// Whether a request may come in: everyone may ask after the health of the
/// server; for the rest the token has to be in the path or in the header.
pub open spec fn admitted(
    path: Seq<char>,
    header: Option<Seq<char>>,
    token: Seq<char>,
) -> bool {
    path == "/health"@ || path_token(path) == Some(token) || header_token(header) == Some(token)
}

fn is_token(o: Option<String>, token: &str) -> (r: bool)
    ensures
        r == (opt_text(o) == Some(token@)),
{
    match o {
        Some(t) => same(t.as_str(), token),
        None => false,
    }
}

/// Whether a request may come in.
pub fn admits(path: &str, header: &Option<String>, token: &str) -> (r: bool)
    ensures
        r == admitted(path@, opt_text(*header), token@),
{
    if same(path, "/health") {
        return true;
    }
    let in_path = match strip(path, "/mcp/") {
        Some(t) => {
            if t.as_str().is_empty() || has_part(t.as_str(), "/") {
                None
            } else {
                Some(t)
            }
        },
        None => None,
    };
    let in_header = match header {
        Some(h) => strip(h.as_str(), "Bearer "),
        None => None,
    };
    is_token(in_path, token) || is_token(in_header, token)
}

/// Without the token, only the question after the health of the server gets
/// in.
pub proof fn lemma_stranger_stays_out(path: Seq<char>, header: Option<Seq<char>>, token: Seq<char>)
    requires
        path != "/health"@,
        path != "/mcp/"@ + token,
        header != Some("Bearer "@ + token),
    ensures
        !admitted(path, header, token),
{
    if path_token(path) == Some(token) {
        let pre = "/mcp/"@;
        assert(path =~= path.subrange(0, pre.len() as int) + path.skip(pre.len() as int));
    }
    if header_token(header) == Some(token) {
        let pre = "Bearer "@;
        let h = header->0;
        assert(h =~= h.subrange(0, pre.len() as int) + h.skip(pre.len() as int));
    }
}

// ---------------------------------------------------------------------------
// Requests
// ---------------------------------------------------------------------------

pub open spec fn server_name() -> Seq<char> {
    "watermelon-browser"@
}

pub open spec fn protocol_version() -> Seq<char> {
    "2025-11-25"@
}

/// What the server says of its health.
pub open spec fn health_body(version: Seq<char>) -> JsonView {
    JsonView::empty().with("status"@, JsonView::Str("ok"@)).with(
        "server"@,
        JsonView::Str(server_name()),
    ).with("version"@, JsonView::Str(version)).with(
        "protocolVersion"@,
        JsonView::Str(protocol_version()),
    )
}

pub fn health(version: &str) -> (r: Json)
    ensures
        r@ == health_body(version@),
{
    Json::empty().with("status", Json::text("ok")).with(
        "server",
        Json::text("watermelon-browser"),
    ).with("version", Json::text(version)).with("protocolVersion", Json::text("2025-11-25"))
}

/// What the server says of itself at the start of a session.
pub open spec fn greeting(version: Seq<char>) -> JsonView {
    JsonView::empty().with("protocolVersion"@, JsonView::Str(protocol_version())).with(
        "capabilities"@,
        JsonView::empty().with(
            "tools"@,
            JsonView::empty().with("listChanged"@, JsonView::Bool(false)),
        ),
    ).with(
        "serverInfo"@,
        JsonView::empty().with("name"@, JsonView::Str(server_name())).with(
            "version"@,
            JsonView::Str(version),
        ),
    ).with(
        "instructions"@,
        JsonView::Str(
            "WaterMelon Browser MCP server. Use tools/list to discover available browser automation tools."@,
        ),
    )
}

fn greet(version: &str) -> (r: Json)
    ensures
        r@ == greeting(version@),
{
    Json::empty().with("protocolVersion", Json::text("2025-11-25")).with(
        "capabilities",
        Json::empty().with("tools", Json::empty().with("listChanged", Json::Bool(false))),
    ).with(
        "serverInfo",
        Json::empty().with("name", Json::text("watermelon-browser")).with(
            "version",
            Json::text(version),
        ),
    ).with(
        "instructions",
        Json::text(
            "WaterMelon Browser MCP server. Use tools/list to discover available browser automation tools.",
        ),
    )
}

pub open spec fn id_or_null(id: Option<JsonView>) -> JsonView {
    match id {
        Some(v) => v,
        None => JsonView::Null,
    }
}

fn take_id(id: Option<Json>) -> (r: Json)
    ensures
        r@ == id_or_null(opt_json_owned(id)),
{
    match id {
        Some(v) => v,
        None => Json::Null,
    }
}

pub open spec fn not_running() -> ErrorView {
    ErrorView { code: -32001, message: "MCP server is not running"@ }
}

/// How a posted request is answered.
#[derive(Debug, PartialEq, Eq)]
pub enum Posted {
    /// With a status of 400 and this text.
    BadRequest { text: String },
    /// With a session and this reply.
    Session { id: String, body: McpResponse },
    /// With this reply.
    Body { body: McpResponse },
    /// With a status of 202.
    Accepted,
    /// With a status of 404.
    NotFound,
    /// With what comes of the request.
    Handle { request: McpRequest },
}

pub enum PostedView {
    BadRequest { text: Seq<char> },
    Session { id: Seq<char>, body: ResponseView },
    Body { body: ResponseView },
    Accepted,
    NotFound,
    Handle { request: RequestView },
}

pub struct RequestView {
    pub jsonrpc: Seq<char>,
    pub id: Option<JsonView>,
    pub method: Seq<char>,
    pub params: Option<JsonView>,
}

impl McpRequest {
    pub open spec fn view(&self) -> RequestView {
        RequestView {
            jsonrpc: self.jsonrpc@,
            id: opt_json_owned(self.id),
            method: self.method@,
            params: opt_json_owned(self.params),
        }
    }
}

impl Posted {
    pub open spec fn view(&self) -> PostedView {
        match self {
            Posted::BadRequest { text } => PostedView::BadRequest { text: text@ },
            Posted::Session { id, body } => PostedView::Session { id: id@, body: body@ },
            Posted::Body { body } => PostedView::Body { body: body@ },
            Posted::Accepted => PostedView::Accepted,
            Posted::NotFound => PostedView::NotFound,
            Posted::Handle { request } => PostedView::Handle { request: request@ },
        }
    }
}

/// How a posted request is answered, and the sessions then. `new_id` is the id
/// of the session that the request may begin.
pub open spec fn posted(
    running: bool,
    sessions: Seq<(Seq<char>, bool)>,
    session: Option<Seq<char>>,
    request: Option<RequestView>,
    version: Seq<char>,
    new_id: Seq<char>,
) -> (PostedView, Seq<(Seq<char>, bool)>) {
    match request {
        None => (PostedView::BadRequest { text: "Invalid JSON"@ }, sessions),
        Some(r) => if r.method == "initialize"@ {
            let id = id_or_null(r.id);
            if !running {
                (PostedView::Body { body: response(id, Err(not_running())) }, sessions)
            } else {
                (
                    PostedView::Session { id: new_id, body: response(id, Ok(greeting(version))) },
                    put(sessions, new_id, false),
                )
            }
        } else if r.id is None {
            (
                PostedView::Accepted,
                if r.method == "notifications/initialized"@ && session is Some && lookup(
                    sessions,
                    session->0,
                ) is Some {
                    put(sessions, session->0, true)
                } else {
                    sessions
                },
            )
        } else if session is Some && lookup(sessions, session->0) is None {
            (PostedView::NotFound, sessions)
        } else {
            (PostedView::Handle { request: r }, sessions)
        },
    }
}

pub open spec fn opt_request(o: Option<McpRequest>) -> Option<RequestView> {
    match o {
        Some(r) => Some(r@),
        None => None,
    }
}

impl McpServer {
    /// Answers a posted request, given the id of the session that it may
    /// begin.
    pub fn handle_mcp_post_with(
        &mut self,
        session: &Option<String>,
        request: Option<McpRequest>,
        version: &str,
        new_id: String,
    ) -> (r: Posted)
        ensures
            (r@, final(self).sessions@) == posted(
                old(self).running,
                old(self).sessions@,
                opt_text(*session),
                opt_request(request),
                version@,
                new_id@,
            ),
            final(self).running == old(self).running,
            final(self).port == old(self).port,
            final(self).token == old(self).token,
            final(self).active_targets == old(self).active_targets,
            old(self).well_formed() ==> final(self).well_formed(),
    {
        let req = match request {
            Some(r) => r,
            None => {
                return Posted::BadRequest { text: "Invalid JSON".to_owned() };
            },
        };
        if same(req.method.as_str(), "initialize") {
            let id = take_id(req.id);
            if !self.running {
                let e = McpError::new(-32001, "MCP server is not running");
                return Posted::Body { body: respond(id, Err(e)) };
            }
            self.sessions.insert(new_id.clone(), false);
            return Posted::Session { id: new_id, body: respond(id, Ok(greet(version))) };
        }
        if req.id.is_none() {
            if same(req.method.as_str(), "notifications/initialized") {
                match session {
                    Some(sid) => {
                        if self.sessions.contains_key(sid.as_str()) {
                            self.sessions.insert(sid.clone(), true);
                        }
                    },
                    None => {},
                }
            }
            return Posted::Accepted;
        }
        match session {
            Some(sid) => {
                if !self.sessions.contains_key(sid.as_str()) {
                    return Posted::NotFound;
                }
            },
            None => {},
        }
        Posted::Handle { request: req }
    }

    /// Answers a posted request.
    pub fn handle_mcp_post(
        &mut self,
        session: &Option<String>,
        request: Option<McpRequest>,
        version: &str,
    ) -> (r: Posted)
        ensures
            exists|new_id: Seq<char>|
                (r@, final(self).sessions@) == #[trigger] posted(
                    old(self).running,
                    old(self).sessions@,
                    opt_text(*session),
                    opt_request(request),
                    version@,
                    new_id,
                ),
            final(self).running == old(self).running,
            final(self).port == old(self).port,
            final(self).token == old(self).token,
            final(self).active_targets == old(self).active_targets,
            old(self).well_formed() ==> final(self).well_formed(),
    {
        let id = random_id();
        self.handle_mcp_post_with(session, request, version, id)
    }

    /// Ends a session.
    pub fn handle_mcp_delete(&mut self, session: &Option<String>)
        ensures
            final(self).sessions@ == match opt_text(*session) {
                Some(sid) => without(old(self).sessions@, sid),
                None => old(self).sessions@,
            },
            final(self).running == old(self).running,
            final(self).port == old(self).port,
            final(self).token == old(self).token,
            final(self).active_targets == old(self).active_targets,
            old(self).well_formed() ==> final(self).well_formed(),
    {
        match session {
            Some(sid) => {
                let _ = self.sessions.remove(sid.as_str());
            },
            None => {},
        }
    }
}

/// A session that was begun is known from then on, and a request in it is
/// handled; one that is not known is turned away.
pub proof fn lemma_session_is_known(
    sessions: Seq<(Seq<char>, bool)>,
    first: RequestView,
    next: RequestView,
    version: Seq<char>,
    id: Seq<char>,
    other: Seq<char>,
)
    requires
        first.method == "initialize"@,
        next.method != "initialize"@,
        next.id is Some,
        lookup(sessions, other) is None,
        other != id,
    ensures
        ({
            let (a, after) = posted(true, sessions, None, Some(first), version, id);
            &&& a is Session
            &&& posted(true, after, Some(id), Some(next), version, other).0 == (
            PostedView::Handle { request: next })
            &&& posted(true, after, Some(other), Some(next), version, other).0 is NotFound
        }),
{
    lemma_lookup_put(sessions, id, false, other);
}

/// A request in a session that has been ended is turned away, and one in
/// another is answered as before.
pub proof fn lemma_session_is_ended(
    s: McpServer,
    request: RequestView,
    version: Seq<char>,
    id: Seq<char>,
    other: Seq<char>,
    new_id: Seq<char>,
)
    requires
        s.well_formed(),
        request.method != "initialize"@,
        request.id is Some,
        other != id,
    ensures
        ({
            let after = without(s.sessions@, id);
            &&& posted(s.running, after, Some(id), Some(request), version, new_id).0 is NotFound
            &&& posted(s.running, after, Some(other), Some(request), version, new_id).0 == posted(
                s.running,
                s.sessions@,
                Some(other),
                Some(request),
                version,
                new_id,
            ).0
        }),
{
    lemma_lookup_without(s.sessions@, id, other);
}

/// What becomes of a request that is handled.
#[derive(Debug, PartialEq, Eq)]
pub enum Routed {
    /// It is answered at once.
    Reply { body: McpResponse },
    /// The tools are to be listed.
    List { id: Json },
    /// A tool is to be called.
    Call { id: Json, name: String, arguments: Json },
}

pub enum RoutedView {
    Reply { body: ResponseView },
    List { id: JsonView },
    Call { id: JsonView, name: Seq<char>, arguments: JsonView },
}

impl Routed {
    pub open spec fn view(&self) -> RoutedView {
        match self {
            Routed::Reply { body } => RoutedView::Reply { body: body@ },
            Routed::List { id } => RoutedView::List { id: id@ },
            Routed::Call { id, name, arguments } => RoutedView::Call {
                id: id@,
                name: name@,
                arguments: arguments@,
            },
        }
    }
}

/// The tool and the arguments that the parameters of a call name.
pub open spec fn call_of(params: Option<JsonView>) -> Result<(Seq<char>, JsonView), ErrorView> {
    match params {
        None => Err(invalid("Missing parameters"@)),
        Some(p) => match p.field_str("name"@) {
            None => Err(invalid("Missing tool name"@)),
            Some(name) => Ok(
                (
                    name,
                    match p.field("arguments"@) {
                        Some(a) => a,
                        None => JsonView::empty(),
                    },
                ),
            ),
        },
    }
}

/// What becomes of a request.
pub open spec fn routed(running: bool, r: RequestView) -> RoutedView {
    let id = id_or_null(r.id);
    if !running {
        RoutedView::Reply { body: response(id, Err(not_running())) }
    } else if r.method == "ping"@ {
        RoutedView::Reply { body: response(id, Ok(JsonView::empty())) }
    } else if r.method == "tools/list"@ {
        RoutedView::List { id }
    } else if r.method == "tools/call"@ {
        match call_of(r.params) {
            Ok((name, arguments)) => RoutedView::Call { id, name, arguments },
            Err(e) => RoutedView::Reply { body: response(id, Err(e)) },
        }
    } else {
        RoutedView::Reply {
            body: response(
                id,
                Err(ErrorView { code: -32601, message: "Method not found: "@ + r.method }),
            ),
        }
    }
}

fn read_call(params: &Option<Json>) -> (r: Result<(String, Json), McpError>)
    ensures
        match r {
            Ok(c) => call_of(opt_json_owned(*params)) == Ok::<(Seq<char>, JsonView), ErrorView>(
                (c.0@, c.1@),
            ),
            Err(e) => call_of(opt_json_owned(*params)) == Err::<
                (Seq<char>, JsonView),
                ErrorView,
            >(e@),
        },
{
    match params {
        None => Err(invalid_args("Missing parameters")),
        Some(p) => match p.get_str("name") {
            None => Err(invalid_args("Missing tool name")),
            Some(name) => {
                let arguments = match p.get("arguments") {
                    Some(a) => a.copy(),
                    None => Json::empty(),
                };
                Ok((name.clone(), arguments))
            },
        },
    }
}

impl McpServer {
    /// What becomes of a request.
    pub fn handle_request(&self, request: McpRequest) -> (r: Routed)
        ensures
            r@ == routed(self.running, request@),
    {
        let McpRequest { jsonrpc: _, id, method, params } = request;
        let id = take_id(id);
        if !self.running {
            let e = McpError::new(-32001, "MCP server is not running");
            return Routed::Reply { body: respond(id, Err(e)) };
        }
        if same(method.as_str(), "ping") {
            return Routed::Reply { body: respond(id, Ok(Json::empty())) };
        }
        if same(method.as_str(), "tools/list") {
            return Routed::List { id };
        }
        if same(method.as_str(), "tools/call") {
            return match read_call(&params) {
                Ok((name, arguments)) => Routed::Call { id, name, arguments },
                Err(e) => Routed::Reply { body: respond(id, Err(e)) },
            };
        }
        let e = McpError {
            code: -32601,
            message: join2("Method not found: ", method.as_str()),
        };
        Routed::Reply { body: respond(id, Err(e)) }
    }
}

// ---------------------------------------------------------------------------
// Content
// ---------------------------------------------------------------------------

/// A reply of one piece of text.
pub open spec fn text_content(t: Seq<char>) -> JsonView {
    JsonView::empty().with(
        "content"@,
        JsonView::Array(
            seq![
                JsonView::empty().with("type"@, JsonView::Str("text"@)).with(
                    "text"@,
                    JsonView::Str(t),
                ),
            ],
        ),
    )
}

/// A reply of one piece of text.
pub fn text_reply(t: String) -> (r: Json)
    ensures
        r@ == text_content(t@),
{
    let piece = Json::empty().with("type", Json::text("text")).with("text", Json::Str(t));
    let mut a: Vec<Json> = Vec::new();
    a.push(piece);
    assert(values(a@) =~= seq![piece@]);
    Json::empty().with("content", Json::Array(a))
}

/// A reply of one image.
pub open spec fn image_content(data: Seq<char>, mime: Seq<char>) -> JsonView {
    JsonView::empty().with(
        "content"@,
        JsonView::Array(
            seq![
                JsonView::empty().with("type"@, JsonView::Str("image"@)).with(
                    "data"@,
                    JsonView::Str(data),
                ).with("mimeType"@, JsonView::Str(mime)),
            ],
        ),
    )
}

/// A reply of one image.
pub fn image_reply(data: String, mime: String) -> (r: Json)
    ensures
        r@ == image_content(data@, mime@),
{
    let piece = Json::empty().with("type", Json::text("image")).with("data", Json::Str(data)).with(
        "mimeType",
        Json::Str(mime),
    );
    let mut a: Vec<Json> = Vec::new();
    a.push(piece);
    assert(values(a@) =~= seq![piece@]);
    Json::empty().with("content", Json::Array(a))
}

/// The text of a reply is what the reply was made of.
pub proof fn lemma_text_read_back(t: Seq<char>)
    ensures
        crate::plan::reply_text(text_content(t)) == t,
{
    let piece = JsonView::empty().with("type"@, JsonView::Str("text"@)).with(
        "text"@,
        JsonView::Str(t),
    );
    crate::json::lemma_field_with(
        JsonView::empty().with("type"@, JsonView::Str("text"@)),
        "text"@,
        JsonView::Str(t),
        "text"@,
    );
    crate::json::lemma_field_with(
        JsonView::empty(),
        "content"@,
        JsonView::Array(seq![piece]),
        "content"@,
    );
}

} // verus!
