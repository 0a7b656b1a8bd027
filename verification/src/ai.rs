//! Requests to language-model providers and what their replies mean.
use vstd::prelude::*;

use crate::json::{
    json_parsed, lemma_with_field, lemma_with_object, opt_json_owned, opt_str, parse_json_text,
    parsed_view, render,
};
use crate::text::{join2, join3, opt_text, same};
use crate::value::{
    lemma_array_view, lemma_object_view, values, Json, JsonView, Number, NumberView,
};

verus! {

broadcast use {lemma_array_view, lemma_object_view};

#[derive(Debug, Clone, Copy, PartialEq, Eq, Structural)]
pub enum Provider {
    Anthropic,
    Openai,
    Gemini,
    Ollama,
}

/// How to reach a provider.
#[derive(Debug, PartialEq, Eq)]
pub struct AiProviderConfig {
    pub provider: Provider,
    pub model: String,
    pub api_key: String,
    /// The address of the service, where it is not the provider's own.
    pub base_url: Option<String>,
    pub max_tokens: u32,
    pub temperature: Number,
}

pub fn default_max_tokens() -> (n: u32)
    ensures
        n == 1024,
{
    1024
}

/// Three tenths, as single precision holds it.
pub fn default_temperature() -> (t: Number)
    ensures
        t@ == NumberView::Float("0.30000001192092896"@),
{
    Number::Float("0.30000001192092896".to_owned())
}

impl AiProviderConfig {
    /// A cheap and quick model for AI blocks, by the name that the provider
    /// knows it under.
    pub fn anthropic_haiku(model: &str, api_key: &str) -> (r: AiProviderConfig)
        ensures
            r.provider == Provider::Anthropic,
            r.model@ == model@,
            r.api_key@ == api_key@,
            r.base_url is None,
            r.max_tokens == 1024,
            r.temperature@ == NumberView::Float("0.30000001192092896"@),
    {
        AiProviderConfig {
            provider: Provider::Anthropic,
            model: model.to_owned(),
            api_key: api_key.to_owned(),
            base_url: None,
            max_tokens: default_max_tokens(),
            temperature: default_temperature(),
        }
    }
}

#[derive(Debug, PartialEq, Eq)]
pub struct AiError(pub String);

/// A question to a provider. With a schema, the answer is to be JSON of that
/// shape.
#[derive(Debug, PartialEq, Eq)]
pub struct AiRequest {
    pub system: String,
    pub prompt: String,
    pub schema: Option<Json>,
}

pub struct AiRequestView {
    pub system: Seq<char>,
    pub prompt: Seq<char>,
    pub schema: Option<JsonView>,
}

impl AiRequest {
    pub open spec fn view(&self) -> AiRequestView {
        AiRequestView {
            system: self.system@,
            prompt: self.prompt@,
            schema: opt_json_owned(self.schema),
        }
    }
}

/// The answer of a provider, and the tokens it took.
#[derive(Debug, PartialEq, Eq)]
pub struct AiResult {
    pub json: Option<Json>,
    pub text: Option<String>,
    pub input_tokens: u64,
    pub output_tokens: u64,
}

pub struct AiResultView {
    pub json: Option<JsonView>,
    pub text: Option<Seq<char>>,
    pub input_tokens: u64,
    pub output_tokens: u64,
}

impl AiResult {
    pub open spec fn view(&self) -> AiResultView {
        AiResultView {
            json: opt_json_owned(self.json),
            text: opt_text(self.text),
            input_tokens: self.input_tokens,
            output_tokens: self.output_tokens,
        }
    }
}

impl Default for AiResult {
    fn default() -> (r: AiResult)
        ensures
            r@ == (AiResultView { json: None, text: None, input_tokens: 0, output_tokens: 0 }),
    {
        AiResult { json: None, text: None, input_tokens: 0, output_tokens: 0 }
    }
}

pub open spec fn result_view(r: Result<AiResult, AiError>) -> Result<AiResultView, Seq<char>> {
    match r {
        Ok(a) => Ok(a@),
        Err(e) => Err(e.0@),
    }
}

// ---------------------------------------------------------------------------
// Anthropic
// ---------------------------------------------------------------------------

pub open spec fn str_json(s: Seq<char>) -> JsonView {
    JsonView::Str(s)
}

pub open spec fn message(role: Seq<char>, content: Seq<char>) -> JsonView {
    JsonView::empty().with("role"@, str_json(role)).with("content"@, str_json(content))
}

/// The fields that every request has.
pub open spec fn request_head(
    model: Seq<char>,
    max_tokens: u32,
    temperature: NumberView,
    messages: Seq<JsonView>,
) -> JsonView {
    JsonView::empty().with("model"@, str_json(model)).with(
        "max_tokens"@,
        JsonView::from_uint(max_tokens as u64),
    ).with("temperature"@, JsonView::Number(temperature)).with(
        "messages"@,
        JsonView::Array(messages),
    )
}

/// The body of a request. A structured answer is asked for as the input of the
/// one tool `emit`, which the model has to use.
pub open spec fn anthropic_body(
    req: AiRequestView,
    model: Seq<char>,
    max_tokens: u32,
    temperature: NumberView,
) -> JsonView {
    let body = request_head(
        model,
        max_tokens,
        temperature,
        seq![message("user"@, req.prompt)],
    ).with("system"@, str_json(req.system));
    match req.schema {
        Some(schema) => body.with(
            "tools"@,
            JsonView::Array(
                seq![
                    JsonView::empty().with("name"@, str_json("emit"@)).with(
                        "description"@,
                        str_json("Return the structured result."@),
                    ).with("input_schema"@, schema),
                ],
            ),
        ).with(
            "tool_choice"@,
            JsonView::empty().with("type"@, str_json("tool"@)).with("name"@, str_json("emit"@)),
        ),
        None => body,
    }
}

fn one(v: Json) -> (r: Json)
    ensures
        r@ == JsonView::Array(seq![v@]),
{
    let mut a: Vec<Json> = Vec::new();
    a.push(v);
    assert(values(a@) =~= seq![v@]);
    Json::Array(a)
}

fn two(v: Json, w: Json) -> (r: Json)
    ensures
        r@ == JsonView::Array(seq![v@, w@]),
{
    let mut a: Vec<Json> = Vec::new();
    a.push(v);
    a.push(w);
    assert(values(a@) =~= seq![v@, w@]);
    Json::Array(a)
}

fn message_json(role: &str, content: &str) -> (r: Json)
    ensures
        r@ == message(role@, content@),
{
    Json::empty().with("role", Json::text(role)).with("content", Json::text(content))
}

fn head_json(cfg: &AiProviderConfig, messages: Json) -> (r: Json)
    requires
        messages@ is Array,
    ensures
        r@ == request_head(
            cfg.model@,
            cfg.max_tokens,
            cfg.temperature@,
            messages@->Array_0,
        ),
{
    Json::empty().with("model", Json::text(cfg.model.as_str())).with(
        "max_tokens",
        Json::from_uint(cfg.max_tokens as u64),
    ).with("temperature", Json::Number(cfg.temperature.copy())).with("messages", messages)
}

/// The body of a request to Anthropic.
pub fn build_anthropic_body(req: &AiRequest, cfg: &AiProviderConfig) -> (r: Json)
    ensures
        r@ == anthropic_body(req@, cfg.model@, cfg.max_tokens, cfg.temperature@),
{
    let messages = one(message_json("user", req.prompt.as_str()));
    let body = head_json(cfg, messages).with("system", Json::text(req.system.as_str()));
    match &req.schema {
        Some(schema) => {
            let tool = Json::empty().with("name", Json::text("emit")).with(
                "description",
                Json::text("Return the structured result."),
            ).with("input_schema", schema.copy());
            let choice = Json::empty().with("type", Json::text("tool")).with(
                "name",
                Json::text("emit"),
            );
            body.with("tools", one(tool)).with("tool_choice", choice)
        },
        None => body,
    }
}

/// A field of a field, as a count of tokens; zero where it is missing.
pub open spec fn token_count(v: JsonView, group: Seq<char>, name: Seq<char>) -> u64 {
    match v.field(group) {
        Some(u) => match u.field_uint(name) {
            Some(n) => n,
            None => 0,
        },
        None => 0,
    }
}

fn count_tokens(v: &Json, group: &str, name: &str) -> (r: u64)
    ensures
        r == token_count(v@, group@, name@),
{
    match v.get(group) {
        Some(u) => match u.get_u64(name) {
            Some(n) => n,
            None => 0,
        },
        None => 0,
    }
}

/// What the first `n` blocks of a reply say: the input of the last tool use,
/// and the texts put together.
pub open spec fn reply_content(blocks: Seq<JsonView>, n: int) -> (
    Option<JsonView>,
    Option<Seq<char>>,
)
    decreases n,
{
    if n <= 0 {
        (None, None)
    } else {
        let (json, text) = reply_content(blocks, n - 1);
        let b = blocks[n - 1];
        if b.field_str("type"@) == Some("tool_use"@) {
            (b.field("input"@), text)
        } else if b.field_str("type"@) == Some("text"@) {
            let t = match b.field_str("text"@) {
                Some(t) => t,
                None => Seq::empty(),
            };
            (
                json,
                match text {
                    Some(before) => Some(before + t),
                    None => Some(t),
                },
            )
        } else {
            (json, text)
        }
    }
}

/// What a reply of Anthropic means.
pub open spec fn anthropic_result(success: bool, status: Seq<char>, v: JsonView) -> Result<
    AiResultView,
    Seq<char>,
> {
    if !success {
        Err("anthropic error "@ + status + ": "@ + render(v))
    } else {
        let (json, text) = match v.field_array("content"@) {
            Some(blocks) => reply_content(blocks, blocks.len() as int),
            None => (None, None),
        };
        Ok(
            AiResultView {
                json,
                text,
                input_tokens: token_count(v, "usage"@, "input_tokens"@),
                output_tokens: token_count(v, "usage"@, "output_tokens"@),
            },
        )
    }
}

fn is_text(o: Option<&String>, t: &str) -> (r: bool)
    ensures
        r == (opt_str(o) == Some(t@)),
{
    match o {
        Some(s) => same(s.as_str(), t),
        None => false,
    }
}

/// What a reply of Anthropic means, given whether its status counts as success.
pub fn read_anthropic_reply(success: bool, status: &str, v: &Json) -> (r: Result<AiResult, AiError>)
    ensures
        result_view(r) == anthropic_result(success, status@, v@),
{
    if !success {
        let mut m = join3("anthropic error ", status, ": ");
        m.append(v.render().as_str());
        return Err(AiError(m));
    }
    let mut json: Option<Json> = None;
    let mut text: Option<String> = None;
    match v.get_array("content") {
        Some(blocks) => {
            let ghost all = values(blocks@);
            let mut i: usize = 0;
            while i < blocks.len()
                invariant
                    i <= blocks@.len(),
                    all == values(blocks@),
                    reply_content(all, i as int) == (opt_json_owned(json), opt_text(text)),
                decreases blocks@.len() - i,
            {
                let b = &blocks[i];
                if is_text(b.get_str("type"), "tool_use") {
                    json =
                    match b.get("input") {
                        Some(x) => Some(x.copy()),
                        None => None,
                    };
                } else if is_text(b.get_str("type"), "text") {
                    let t = b.str_or("text", "");
                    proof {
                        reveal_strlit("");
                        assert(""@ =~= Seq::<char>::empty());
                    }
                    text =
                    match text {
                        Some(before) => Some(join2(before.as_str(), t.as_str())),
                        None => Some(t),
                    };
                }
                i = i + 1;
            }
        },
        None => {},
    }
    Ok(
        AiResult {
            json,
            text,
            input_tokens: count_tokens(v, "usage", "input_tokens"),
            output_tokens: count_tokens(v, "usage", "output_tokens"),
        },
    )
}

// ---------------------------------------------------------------------------
// Services that speak the protocol of OpenAI
// ---------------------------------------------------------------------------

/// The body of a request. A structured answer is asked for as a JSON object.
pub open spec fn openai_body(
    req: AiRequestView,
    model: Seq<char>,
    max_tokens: u32,
    temperature: NumberView,
) -> JsonView {
    let body = request_head(
        model,
        max_tokens,
        temperature,
        seq![message("system"@, req.system), message("user"@, req.prompt)],
    );
    if req.schema is Some {
        body.with("response_format"@, JsonView::empty().with("type"@, str_json("json_object"@)))
    } else {
        body
    }
}

/// The body of a request to a service that speaks the protocol of OpenAI.
pub fn build_openai_body(req: &AiRequest, cfg: &AiProviderConfig) -> (r: Json)
    ensures
        r@ == openai_body(req@, cfg.model@, cfg.max_tokens, cfg.temperature@),
{
    let messages = two(
        message_json("system", req.system.as_str()),
        message_json("user", req.prompt.as_str()),
    );
    let body = head_json(cfg, messages);
    if req.schema.is_some() {
        let format = Json::empty().with("type", Json::text("json_object"));
        body.with("response_format", format)
    } else {
        body
    }
}

/// The text of the first choice of a reply.
pub open spec fn choice_text(v: JsonView) -> Seq<char> {
    match v.field("choices"@) {
        Some(c) => match c.item(0) {
            Some(first) => match first.field("message"@) {
                Some(m) => match m.field_str("content"@) {
                    Some(t) => t,
                    None => Seq::empty(),
                },
                None => Seq::empty(),
            },
            None => Seq::empty(),
        },
        None => Seq::empty(),
    }
}

pub open spec fn ok_json(r: Result<JsonView, Seq<char>>) -> Option<JsonView> {
    match r {
        Ok(v) => Some(v),
        Err(_) => None,
    }
}

/// What a reply means, given what its text reads as in JSON.
pub open spec fn openai_result(
    success: bool,
    status: Seq<char>,
    v: JsonView,
    structured: bool,
    parsed: Result<JsonView, Seq<char>>,
) -> Result<AiResultView, Seq<char>> {
    if !success {
        Err("openai-compat error "@ + status + ": "@ + render(v))
    } else {
        Ok(
            AiResultView {
                json: if structured {
                    ok_json(parsed)
                } else {
                    None
                },
                text: Some(choice_text(v)),
                input_tokens: token_count(v, "usage"@, "prompt_tokens"@),
                output_tokens: token_count(v, "usage"@, "completion_tokens"@),
            },
        )
    }
}

fn first_choice(v: &Json) -> (r: String)
    ensures
        r@ == choice_text(v@),
{
    let empty = String::new();
    assert(empty@ =~= Seq::<char>::empty());
    match v.get("choices") {
        Some(c) => match c.item(0) {
            Some(first) => match first.get("message") {
                Some(m) => match m.get_str("content") {
                    Some(t) => t.clone(),
                    None => empty,
                },
                None => empty,
            },
            None => empty,
        },
        None => empty,
    }
}

/// What a reply means, given what its text reads as in JSON.
pub fn openai_reply_with(
    success: bool,
    status: &str,
    v: &Json,
    structured: bool,
    parsed: Result<Json, String>,
) -> (r: Result<AiResult, AiError>)
    ensures
        result_view(r) == openai_result(success, status@, v@, structured, parsed_view(parsed)),
{
    if !success {
        let mut m = join3("openai-compat error ", status, ": ");
        m.append(v.render().as_str());
        return Err(AiError(m));
    }
    let json = if structured {
        match parsed {
            Ok(j) => Some(j),
            Err(_) => None,
        }
    } else {
        None
    };
    Ok(
        AiResult {
            json,
            text: Some(first_choice(v)),
            input_tokens: count_tokens(v, "usage", "prompt_tokens"),
            output_tokens: count_tokens(v, "usage", "completion_tokens"),
        },
    )
}

/// What a reply of a service that speaks the protocol of OpenAI means.
pub fn read_openai_reply(success: bool, status: &str, v: &Json, structured: bool) -> (r: Result<
    AiResult,
    AiError,
>)
    ensures
        result_view(r) == openai_result(
            success,
            status@,
            v@,
            structured,
            json_parsed(choice_text(v@)),
        ),
{
    let content = first_choice(v);
    openai_reply_with(success, status, v, structured, parse_json_text(content.as_str()))
}

/// The address of the service.
pub open spec fn service_base(provider: Provider, base_url: Option<Seq<char>>) -> Seq<char> {
    match base_url {
        Some(u) => u,
        None => match provider {
            Provider::Anthropic => "https://api.anthropic.com"@,
            Provider::Ollama => "http://127.0.0.1:11434/v1"@,
            Provider::Gemini => "https://generativelanguage.googleapis.com/v1beta/openai"@,
            Provider::Openai => "https://api.openai.com/v1"@,
        },
    }
}

/// The address that requests go to.
pub open spec fn service_url(provider: Provider, base_url: Option<Seq<char>>) -> Seq<char> {
    service_base(provider, base_url) + if provider == Provider::Anthropic {
        "/v1/messages"@
    } else {
        "/chat/completions"@
    }
}

impl AiProviderConfig {
    /// The address of the service.
    pub fn base(&self) -> (r: String)
        ensures
            r@ == service_base(self.provider, opt_text(self.base_url)),
    {
        match &self.base_url {
            Some(u) => u.clone(),
            None => match self.provider {
                Provider::Anthropic => "https://api.anthropic.com".to_owned(),
                Provider::Ollama => "http://127.0.0.1:11434/v1".to_owned(),
                Provider::Gemini =>
                    "https://generativelanguage.googleapis.com/v1beta/openai".to_owned(),
                Provider::Openai => "https://api.openai.com/v1".to_owned(),
            },
        }
    }

    /// The address that requests go to.
    pub fn url(&self) -> (r: String)
        ensures
            r@ == service_url(self.provider, opt_text(self.base_url)),
    {
        match self.provider {
            Provider::Anthropic => join2(self.base().as_str(), "/v1/messages"),
            _ => join2(self.base().as_str(), "/chat/completions"),
        }
    }
}

/// A structured request names its tool and makes the model use it; a request
/// for text has no tools.
pub proof fn lemma_anthropic_body_tools(
    req: AiRequestView,
    model: Seq<char>,
    max_tokens: u32,
    temperature: NumberView,
)
    ensures
        ({
            let body = anthropic_body(req, model, max_tokens, temperature);
            &&& body.field_str("model"@) == Some(model)
            &&& req.schema is None ==> body.field("tools"@) is None && body.field("tool_choice"@)
                is None
            &&& req.schema is Some ==> body.field("tools"@) is Some && body.field("tool_choice"@)
                is Some && body.field("tool_choice"@)->0.field_str("name"@) == Some("emit"@)
        }),
{
    reveal_strlit("model");
    reveal_strlit("max_tokens");
    reveal_strlit("temperature");
    reveal_strlit("messages");
    reveal_strlit("system");
    reveal_strlit("tools");
    reveal_strlit("tool_choice");
    assert("model"@.len() == 5 && "tools"@.len() == 5 && "tool_choice"@.len() == 11);
    assert("max_tokens"@.len() == 10 && "temperature"@.len() == 11 && "messages"@.len() == 8);
    assert("system"@.len() == 6);
    assert("model"@[0] == 'm' && "tools"@[0] == 't');
    assert("temperature"@[1] == 'e' && "tool_choice"@[1] == 'o');
    let m0 = JsonView::empty();
    let m1 = m0.with("model"@, str_json(model));
    let m2 = m1.with("max_tokens"@, JsonView::from_uint(max_tokens as u64));
    let m3 = m2.with("temperature"@, JsonView::Number(temperature));
    let m4 = m3.with("messages"@, JsonView::Array(seq![message("user"@, req.prompt)]));
    let m5 = m4.with("system"@, str_json(req.system));
    lemma_with3(m0, "model"@, str_json(model));
    lemma_with3(m1, "max_tokens"@, JsonView::from_uint(max_tokens as u64));
    lemma_with3(m2, "temperature"@, JsonView::Number(temperature));
    lemma_with3(m3, "messages"@, JsonView::Array(seq![message("user"@, req.prompt)]));
    lemma_with3(m4, "system"@, str_json(req.system));
    if let Some(schema) = req.schema {
        let tool = JsonView::empty().with("name"@, str_json("emit"@)).with(
            "description"@,
            str_json("Return the structured result."@),
        ).with("input_schema"@, schema);
        let choice = JsonView::empty().with("type"@, str_json("tool"@)).with(
            "name"@,
            str_json("emit"@),
        );
        let m6 = m5.with("tools"@, JsonView::Array(seq![tool]));
        lemma_with3(m5, "tools"@, JsonView::Array(seq![tool]));
        lemma_with3(m6, "tool_choice"@, choice);
        crate::json::lemma_field_with(
            JsonView::empty().with("type"@, str_json("tool"@)),
            "name"@,
            str_json("emit"@),
            "name"@,
        );
    }
}

/// What a field set in a request does to the three fields that matter.
proof fn lemma_with3(o: JsonView, k: Seq<char>, v: JsonView)
    requires
        o is Object,
    ensures
        o.with(k, v) is Object,
        o.with(k, v).field(k) == Some(v),
        "model"@ != k ==> o.with(k, v).field("model"@) == o.field("model"@),
        "tools"@ != k ==> o.with(k, v).field("tools"@) == o.field("tools"@),
        "tool_choice"@ != k ==> o.with(k, v).field("tool_choice"@) == o.field("tool_choice"@),
{
    crate::json::lemma_field_with(o, k, v, "model"@);
    crate::json::lemma_field_with(o, k, v, "tools"@);
    crate::json::lemma_field_with(o, k, v, "tool_choice"@);
}

proof fn lemma_request_keys()
    ensures
        "model"@.len() == 5 && "model"@[0] == 'm',
        "tools"@.len() == 5 && "tools"@[0] == 't',
        "max_tokens"@.len() == 10,
        "temperature"@.len() == 11 && "temperature"@[1] == 'e',
        "tool_choice"@.len() == 11 && "tool_choice"@[1] == 'o',
        "messages"@.len() == 8,
        "system"@.len() == 6,
        "response_format"@.len() == 15,
        "role"@.len() == 4 && "role"@[0] == 'r',
        "content"@.len() == 7,
        "name"@.len() == 4 && "name"@[0] == 'n',
        "type"@.len() == 4 && "type"@[0] == 't',
        "description"@.len() == 11,
        "input_schema"@.len() == 12,
{
    reveal_strlit("model");
    reveal_strlit("tools");
    reveal_strlit("max_tokens");
    reveal_strlit("temperature");
    reveal_strlit("tool_choice");
    reveal_strlit("messages");
    reveal_strlit("system");
    reveal_strlit("response_format");
    reveal_strlit("role");
    reveal_strlit("content");
    reveal_strlit("name");
    reveal_strlit("type");
    reveal_strlit("description");
    reveal_strlit("input_schema");
}

/// A request to Anthropic holds one message, of the role `user`, whose content is
/// the prompt; the system text, the model, the limit of tokens and the temperature
/// stand in fields of their own. A shape for the answer is the input of the one
/// tool, which the model has to use; without one there is no tool.
pub proof fn lemma_anthropic_request(
    req: AiRequestView,
    model: Seq<char>,
    max_tokens: u32,
    temperature: NumberView,
)
    ensures
        ({
            let body = anthropic_body(req, model, max_tokens, temperature);
            let messages = body.field_array("messages"@)->0;
            let tools = body.field_array("tools"@)->0;
            &&& body.field_array("messages"@) is Some
            &&& messages.len() == 1
            &&& messages[0].field_str("role"@) == Some("user"@)
            &&& messages[0].field_str("content"@) == Some(req.prompt)
            &&& body.field_str("system"@) == Some(req.system)
            &&& body.field_str("model"@) == Some(model)
            &&& body.field_uint("max_tokens"@) == Some(max_tokens as u64)
            &&& body.field("temperature"@) == Some(JsonView::Number(temperature))
            &&& req.schema is None ==> body.field("tools"@) is None && body.field("tool_choice"@)
                is None
            &&& req.schema is Some ==> body.field_array("tools"@) is Some && tools.len() == 1
                && tools[0].field_str("name"@) == Some("emit"@) && tools[0].field("input_schema"@)
                == req.schema && body.field("tool_choice"@) is Some && (body.field(
                "tool_choice"@,
            )->0).field_str("type"@) == Some("tool"@) && (body.field("tool_choice"@)->0).field_str(
                "name"@,
            ) == Some("emit"@)
        }),
{
    broadcast use {lemma_with_field, lemma_with_object};

    lemma_request_keys();
}

/// A request in the protocol of OpenAI holds two messages: first the system text
/// in the role `system`, then the prompt in the role `user`. It asks for JSON
/// exactly where an answer of a given shape is wanted.
pub proof fn lemma_openai_request(
    req: AiRequestView,
    model: Seq<char>,
    max_tokens: u32,
    temperature: NumberView,
)
    ensures
        ({
            let body = openai_body(req, model, max_tokens, temperature);
            let messages = body.field_array("messages"@)->0;
            &&& body.field_array("messages"@) is Some
            &&& messages.len() == 2
            &&& messages[0].field_str("role"@) == Some("system"@)
            &&& messages[0].field_str("content"@) == Some(req.system)
            &&& messages[1].field_str("role"@) == Some("user"@)
            &&& messages[1].field_str("content"@) == Some(req.prompt)
            &&& body.field_str("model"@) == Some(model)
            &&& body.field_uint("max_tokens"@) == Some(max_tokens as u64)
            &&& body.field("temperature"@) == Some(JsonView::Number(temperature))
            &&& req.schema is None <==> body.field("response_format"@) is None
            &&& req.schema is Some ==> (body.field("response_format"@)->0).field_str("type"@)
                == Some("json_object"@)
        }),
{
    broadcast use {lemma_with_field, lemma_with_object};

    lemma_request_keys();
}

/// Requests that differ in their prompt, or in their system text, differ in their
/// bodies, whichever service they go to.
pub proof fn lemma_requests_differ(
    a: AiRequestView,
    b: AiRequestView,
    model: Seq<char>,
    max_tokens: u32,
    temperature: NumberView,
)
    requires
        a.prompt != b.prompt || a.system != b.system,
    ensures
        anthropic_body(a, model, max_tokens, temperature) != anthropic_body(
            b,
            model,
            max_tokens,
            temperature,
        ),
        openai_body(a, model, max_tokens, temperature) != openai_body(
            b,
            model,
            max_tokens,
            temperature,
        ),
{
    lemma_anthropic_request(a, model, max_tokens, temperature);
    lemma_anthropic_request(b, model, max_tokens, temperature);
    lemma_openai_request(a, model, max_tokens, temperature);
    lemma_openai_request(b, model, max_tokens, temperature);
}

/// With one more block, a reply of Anthropic says what it said, and a block of text
/// puts its text behind what was there, a use of the tool gives its input in the
/// place of an earlier one, and a block of any other kind adds nothing.
pub proof fn lemma_reply_blocks(blocks: Seq<JsonView>, b: JsonView)
    ensures
        ({
            let (json, text) = reply_content(blocks, blocks.len() as int);
            let (json2, text2) = reply_content(blocks.push(b), blocks.len() as int + 1);
            let kind = b.field_str("type"@);
            &&& kind == Some("text"@) && b.field_str("text"@) is Some ==> json2 == json && text2
                is Some && text2->0 == (match text {
                Some(t) => t,
                None => Seq::empty(),
            }) + b.field_str("text"@)->0
            &&& kind == Some("tool_use"@) ==> json2 == b.field("input"@) && text2 == text
            &&& kind != Some("text"@) && kind != Some("tool_use"@) ==> json2 == json && text2
                == text
        }),
        reply_content(Seq::empty(), 0) == (None::<JsonView>, None::<Seq<char>>),
{
    reveal_strlit("text");
    reveal_strlit("tool_use");
    assert("text"@.len() == 4 && "tool_use"@.len() == 8);
    lemma_reply_front(blocks, b, blocks.len() as int);
    let n = blocks.len() as int + 1;
    assert(blocks.push(b)[n - 1] == b);
    let (json, text) = reply_content(blocks, blocks.len() as int);
    if b.field_str("text"@) is Some {
        assert(Seq::<char>::empty() + b.field_str("text"@)->0 =~= b.field_str("text"@)->0);
    }
}

proof fn lemma_reply_front(blocks: Seq<JsonView>, b: JsonView, n: int)
    requires
        n <= blocks.len(),
    ensures
        reply_content(blocks.push(b), n) == reply_content(blocks, n),
    decreases n,
{
    if n > 0 {
        lemma_reply_front(blocks, b, n - 1);
        assert(blocks.push(b)[n - 1] == blocks[n - 1]);
    }
}

/// A reply that is no success is an error that tells the status. Any other is an
/// answer: the blocks of its content, and the tokens that went in and came out, or
/// none where it does not say.
pub proof fn lemma_anthropic_reply(
    status: Seq<char>,
    v: JsonView,
    blocks: Seq<JsonView>,
    tokens_in: u64,
    tokens_out: u64,
)
    ensures
        anthropic_result(false, status, v) is Err,
        crate::text::starts(
            anthropic_result(false, status, v)->Err_0,
            "anthropic error "@ + status + ": "@,
        ),
        anthropic_result(true, status, v) is Ok,
        ({
            let a = anthropic_result(true, status, v)->Ok_0;
            let u = v.field("usage"@);
            &&& v.field_array("content"@) == Some(blocks) ==> (a.json, a.text) == reply_content(
                blocks,
                blocks.len() as int,
            )
            &&& u is Some && (u->0).field_uint("input_tokens"@) == Some(tokens_in)
                ==> a.input_tokens == tokens_in
            &&& u is Some && (u->0).field_uint("output_tokens"@) == Some(tokens_out)
                ==> a.output_tokens == tokens_out
            &&& u is None ==> a.input_tokens == 0 && a.output_tokens == 0
        }),
{
    let head = "anthropic error "@ + status + ": "@;
    let e = anthropic_result(false, status, v)->Err_0;
    assert(e.subrange(0, head.len() as int) =~= head);
}

/// A reply in the protocol of OpenAI that is no success is an error that tells the
/// status. Any other is an answer: the text of the first choice, what that text
/// reads as in JSON where an answer of a given shape is wanted, and the tokens.
pub proof fn lemma_openai_reply(
    status: Seq<char>,
    v: JsonView,
    parsed: Result<JsonView, Seq<char>>,
    choices: Seq<JsonView>,
    content: Seq<char>,
    tokens_in: u64,
    tokens_out: u64,
)
    ensures
        openai_result(false, status, v, true, parsed) is Err,
        crate::text::starts(
            openai_result(false, status, v, true, parsed)->Err_0,
            "openai-compat error "@ + status + ": "@,
        ),
        openai_result(true, status, v, false, parsed) is Ok,
        openai_result(true, status, v, true, parsed) is Ok,
        ({
            let a = openai_result(true, status, v, true, parsed)->Ok_0;
            let plain = openai_result(true, status, v, false, parsed)->Ok_0;
            let u = v.field("usage"@);
            &&& plain.json is None
            &&& plain.text == a.text
            &&& parsed is Ok ==> a.json == Some(parsed->Ok_0)
            &&& parsed is Err ==> a.json is None
            &&& v.field_array("choices"@) == Some(choices) && choices.len() > 0
                && choices[0].field("message"@) is Some && (choices[0].field(
                "message"@,
            )->0).field_str("content"@) == Some(content) ==> a.text == Some(content)
                && choice_text(v) == content
            &&& u is Some && (u->0).field_uint("prompt_tokens"@) == Some(tokens_in)
                ==> a.input_tokens == tokens_in
            &&& u is Some && (u->0).field_uint("completion_tokens"@) == Some(tokens_out)
                ==> a.output_tokens == tokens_out
            &&& u is None ==> a.input_tokens == 0 && a.output_tokens == 0
        }),
{
    let head = "openai-compat error "@ + status + ": "@;
    let e = openai_result(false, status, v, true, parsed)->Err_0;
    assert(e.subrange(0, head.len() as int) =~= head);
}

/// Requests go to the address that the settings name, where they name one, and
/// there to the place of the protocol that the provider speaks. Without one, each
/// provider has an address of its own.
pub proof fn lemma_service_urls(p: Provider, q: Provider, u: Seq<char>)
    ensures
        p == Provider::Anthropic ==> service_url(p, Some(u)) == u + "/v1/messages"@,
        p != Provider::Anthropic ==> service_url(p, Some(u)) == u + "/chat/completions"@,
        p != q ==> service_base(p, None) != service_base(q, None),
        service_base(Provider::Anthropic, None) == "https://api.anthropic.com"@,
        service_base(Provider::Openai, None) == "https://api.openai.com/v1"@,
{
    reveal_strlit("https://api.anthropic.com");
    reveal_strlit("http://127.0.0.1:11434/v1");
    reveal_strlit("https://generativelanguage.googleapis.com/v1beta/openai");
    reveal_strlit("https://api.openai.com/v1");
    assert("https://api.anthropic.com"@[4] == 's' && "http://127.0.0.1:11434/v1"@[4] == ':');
    assert("https://api.openai.com/v1"@[4] == 's' && "https://api.openai.com/v1"@[12] == 'o');
    assert("https://api.anthropic.com"@[12] == 'a');
    assert("https://generativelanguage.googleapis.com/v1beta/openai"@[8] == 'g');
    assert("https://api.anthropic.com"@[8] == 'a' && "https://api.openai.com/v1"@[8] == 'a');
    assert("https://generativelanguage.googleapis.com/v1beta/openai"@[4] == 's');
}

} // verus!
