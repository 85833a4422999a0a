//! Connection tests: what to ask a service, and what its answer means.

use vstd::prelude::*;
use vstd::string::*;
use crate::json::{
    array_len_at, json_array_len, json_nested_string, json_quoted, json_string, nested_string_at,
    quoted, string_at,
};
use crate::models::ProviderConfig;
use crate::provider_edits::{
    given_or_default_model, given_or_default_url, resolve_model, resolve_url,
};
use crate::routing::{EnvKey, config_of, saved_api_key_for, saved_key_for};
use crate::text::{
    CharClass, cat2, cat3, cat4, decimal, decimal_u64, first_chars, is_blank, lemma_tail_before,
    owned, pair_views, str_eq, tail_before, take_chars, trim_end_class, trim_spec, trimmed_end,
};

verus! {

/// The result of a connection test.
#[derive(Debug, Clone)]
pub struct TestResult {
    pub success: bool,
    pub message: String,
}

/// What is posted to a service.
#[derive(Debug, Clone)]
pub enum ProbeBody {
    /// Nothing: the request is a plain read.
    Empty,
    /// A chat completion in OpenAI's form.
    Chat(String),
    /// A message in Anthropic's form.
    Messages(String),
    /// A generation in Google's form.
    Generate,
    /// A text to embed.
    Embed(String),
}

/// A request to a service.
#[derive(Debug, Clone)]
pub struct ProbeRequest {
    pub url: String,
    pub headers: Vec<(String, String)>,
    pub body: ProbeBody,
}

/// What came back.
#[derive(Debug)]
pub enum ProbeReply {
    /// No answer, for this reason.
    Unreachable(String),
    /// A successful answer: its JSON text, or why it has none.
    Answered(Result<String, String>),
    /// A refusal: its status and its text.
    Refused(String, String),
}

/// The model of what is posted.
pub enum BodyModel {
    Empty,
    Chat(Seq<char>),
    Messages(Seq<char>),
    Generate,
    Embed(Seq<char>),
}

impl View for ProbeBody {
    type V = BodyModel;

    open spec fn view(&self) -> BodyModel {
        match self {
            ProbeBody::Empty => BodyModel::Empty,
            ProbeBody::Chat(m) => BodyModel::Chat(m@),
            ProbeBody::Messages(m) => BodyModel::Messages(m@),
            ProbeBody::Generate => BodyModel::Generate,
            ProbeBody::Embed(m) => BodyModel::Embed(m@),
        }
    }
}

/// The JSON text of what is posted.
pub open spec fn body_text(b: BodyModel) -> Option<Seq<char>> {
    match b {
        BodyModel::Empty => None,
        BodyModel::Chat(m) => Some(hello_text(m)),
        BodyModel::Messages(m) => Some(hello_text(m)),
        BodyModel::Generate => Some(
            "{\"contents\":[{\"parts\":[{\"text\":\"hi\"}],\"role\":\"user\"}],\"generationConfig\":{\"maxOutputTokens\":10}}"@,
        ),
        BodyModel::Embed(m) => Some(
            "{\"input\":\"test embedding connection\",\"model\":"@ + json_quoted(m) + "}"@,
        ),
    }
}

/// The question for a greeting, which both chat forms share.
pub open spec fn hello_text(model: Seq<char>) -> Seq<char> {
    "{\"max_tokens\":10,\"messages\":[{\"content\":\"Say hello in one word.\",\"role\":\"user\"}],\"model\":"@
        + json_quoted(model) + "}"@
}

/// The JSON text of what is posted, if anything is.
pub fn request_body(b: &ProbeBody) -> (r: Option<String>)
    ensures
        r.deep_view() == body_text(b@),
{
    match b {
        ProbeBody::Empty => None,
        ProbeBody::Chat(m) => Some(hello(m.as_str())),
        ProbeBody::Messages(m) => Some(hello(m.as_str())),
        ProbeBody::Generate => Some(
            owned(
                "{\"contents\":[{\"parts\":[{\"text\":\"hi\"}],\"role\":\"user\"}],\"generationConfig\":{\"maxOutputTokens\":10}}",
            ),
        ),
        ProbeBody::Embed(m) => {
            let model = quoted(m.as_str());
            Some(
                cat3(
                    "{\"input\":\"test embedding connection\",\"model\":",
                    model.as_str(),
                    "}",
                ),
            )
        },
    }
}

fn hello(model: &str) -> (r: String)
    ensures
        r@ == hello_text(model@),
{
    let m = quoted(model);
    cat3(
        "{\"max_tokens\":10,\"messages\":[{\"content\":\"Say hello in one word.\",\"role\":\"user\"}],\"model\":",
        m.as_str(),
        "}",
    )
}

fn no_headers() -> (r: Vec<(String, String)>)
    ensures
        pair_views(r@) == Seq::<(Seq<char>, Seq<char>)>::empty(),
{
    let v: Vec<(String, String)> = Vec::new();
    proof {
        assert(pair_views(v@) =~= Seq::empty());
    }
    v
}

fn headers2(a: &str, b: &str, c: &str, d: &str) -> (r: Vec<(String, String)>)
    ensures
        pair_views(r@) == seq![(a@, b@), (c@, d@)],
{
    let mut v: Vec<(String, String)> = Vec::new();
    v.push((owned(a), owned(b)));
    v.push((owned(c), owned(d)));
    proof {
        assert(pair_views(v@) =~= seq![(a@, b@), (c@, d@)]);
    }
    v
}

/// `path` below a base URL, whatever slashes that ends in.
pub open spec fn below(base_url: Seq<char>, path: Seq<char>) -> Seq<char> {
    trimmed_end(base_url, CharClass::Is('/')) + path
}

fn join_url(base_url: &str, path: &str) -> (r: String)
    ensures
        r@ == below(base_url@, path@),
{
    let base = trim_end_class(base_url, CharClass::Is('/'));
    cat2(base.as_str(), path)
}

/// The detail of a refusal: what the service says, else the start of its text.
pub open spec fn refusal_detail(said: Option<Seq<char>>, body: Seq<char>) -> Seq<char> {
    match said {
        Some(s) => s,
        None => first_chars(body, 200),
    }
}

/// The message of a refusal.
pub open spec fn refusal_text(status: Seq<char>, said: Option<Seq<char>>, body: Seq<char>) -> Seq<
    char,
> {
    "HTTP "@ + status + ": "@ + refusal_detail(said, body)
}

/// The message of a refusal, from what the service says.
pub fn refusal_message(status: &str, said: Option<String>, body: &str) -> (r: String)
    ensures
        r@ == refusal_text(status@, said.deep_view(), body@),
{
    let detail = match said {
        Some(s) => s,
        None => take_chars(body, 200),
    };
    cat4("HTTP ", status, ": ", detail.as_str())
}

fn failed(message: String) -> (r: TestResult)
    ensures
        !r.success,
        r.message == message,
{
    TestResult { success: false, message }
}

fn passed(message: String) -> (r: TestResult)
    ensures
        r.success,
        r.message == message,
{
    TestResult { success: true, message }
}

// ---------------------------------------------------------------------------
// Model providers
// ---------------------------------------------------------------------------

/// How a provider is tested.
#[derive(Clone, Copy, Debug, PartialEq, Eq, Structural)]
pub enum ProbeKind {
    Ollama,
    LlamaCpp,
    Anthropic,
    Google,
    OpenAiCompatible,
}

/// How the provider `id` is tested.
pub open spec fn probe_kind(id: Seq<char>) -> ProbeKind {
    if id == "ollama"@ {
        ProbeKind::Ollama
    } else if id == "llamacpp"@ {
        ProbeKind::LlamaCpp
    } else if id == "anthropic"@ {
        ProbeKind::Anthropic
    } else if id == "google"@ {
        ProbeKind::Google
    } else {
        ProbeKind::OpenAiCompatible
    }
}

/// A test of a provider that can go out.
pub struct ProviderProbe {
    pub kind: ProbeKind,
    pub model: String,
    pub request: ProbeRequest,
}

/// The key that a test uses: the one given, else that of the connection, else
/// none.
pub open spec fn probe_key(
    given: Option<Seq<char>>,
    cfg: Option<ProviderConfig>,
    env: Seq<EnvKey>,
    id: Seq<char>,
) -> Seq<char> {
    match given {
        Some(k) => if k.len() > 0 {
            k
        } else {
            key_at_hand(cfg, env, id)
        },
        None => key_at_hand(cfg, env, id),
    }
}

pub open spec fn key_at_hand(
    cfg: Option<ProviderConfig>,
    env: Seq<EnvKey>,
    id: Seq<char>,
) -> Seq<char> {
    match saved_key_for(cfg, env, id) {
        Some(k) => k,
        None => Seq::empty(),
    }
}

/// The test needs a key.
pub open spec fn needs_key(kind: ProbeKind) -> bool {
    kind != ProbeKind::Ollama && kind != ProbeKind::LlamaCpp
}

/// What is asked of a provider.
pub open spec fn is_provider_request(
    r: ProbeRequest,
    kind: ProbeKind,
    url: Seq<char>,
    model: Seq<char>,
    key: Seq<char>,
) -> bool {
    let json = ("Content-Type"@, "application/json"@);
    match kind {
        ProbeKind::Ollama => {
            &&& r.url@ == below(url, "/api/tags"@)
            &&& pair_views(r.headers@) == Seq::<(Seq<char>, Seq<char>)>::empty()
            &&& r.body@ == BodyModel::Empty
        },
        ProbeKind::LlamaCpp => {
            &&& r.url@ == below(url, "/health"@)
            &&& pair_views(r.headers@) == Seq::<(Seq<char>, Seq<char>)>::empty()
            &&& r.body@ == BodyModel::Empty
        },
        ProbeKind::Anthropic => {
            &&& r.url@ == below(url, "/v1/messages"@)
            &&& pair_views(r.headers@) == seq![
                ("x-api-key"@, key),
                ("anthropic-version"@, "2023-06-01"@),
                json,
            ]
            &&& r.body@ == BodyModel::Messages(model)
        },
        ProbeKind::Google => {
            &&& r.url@ == below(url, "/v1beta/models/"@ + model + ":generateContent"@)
            &&& pair_views(r.headers@) == seq![("x-goog-api-key"@, key), json]
            &&& r.body@ == BodyModel::Generate
        },
        ProbeKind::OpenAiCompatible => {
            &&& r.url@ == below(url, "/v1/chat/completions"@)
            &&& pair_views(r.headers@) == seq![("Authorization"@, "Bearer "@ + key), json]
            &&& r.body@ == BodyModel::Chat(model)
        },
    }
}

fn kind_of(id: &str) -> (r: ProbeKind)
    ensures
        r == probe_kind(id@),
{
    if str_eq(id, "ollama") {
        ProbeKind::Ollama
    } else if str_eq(id, "llamacpp") {
        ProbeKind::LlamaCpp
    } else if str_eq(id, "anthropic") {
        ProbeKind::Anthropic
    } else if str_eq(id, "google") {
        ProbeKind::Google
    } else {
        ProbeKind::OpenAiCompatible
    }
}

fn provider_request(kind: ProbeKind, url: &str, model: &str, key: &str) -> (r: ProbeRequest)
    ensures
        is_provider_request(r, kind, url@, model@, key@),
{
    match kind {
        ProbeKind::Ollama => ProbeRequest {
            url: join_url(url, "/api/tags"),
            headers: no_headers(),
            body: ProbeBody::Empty,
        },
        ProbeKind::LlamaCpp => ProbeRequest {
            url: join_url(url, "/health"),
            headers: no_headers(),
            body: ProbeBody::Empty,
        },
        ProbeKind::Anthropic => {
            let mut headers = headers2("x-api-key", key, "anthropic-version", "2023-06-01");
            headers.push((owned("Content-Type"), owned("application/json")));
            proof {
                assert(pair_views(headers@) =~= seq![
                    ("x-api-key"@, key@),
                    ("anthropic-version"@, "2023-06-01"@),
                    ("Content-Type"@, "application/json"@),
                ]) by {
                    let front = headers@.drop_last();
                    assert(pair_views(front) == seq![
                        ("x-api-key"@, key@),
                        ("anthropic-version"@, "2023-06-01"@),
                    ]);
                    assert(pair_views(headers@)[0] == pair_views(front)[0]);
                    assert(pair_views(headers@)[1] == pair_views(front)[1]);
                }
            }
            ProbeRequest {
                url: join_url(url, "/v1/messages"),
                headers,
                body: ProbeBody::Messages(owned(model)),
            }
        },
        ProbeKind::Google => {
            let path = cat3("/v1beta/models/", model, ":generateContent");
            ProbeRequest {
                url: join_url(url, path.as_str()),
                headers: headers2("x-goog-api-key", key, "Content-Type", "application/json"),
                body: ProbeBody::Generate,
            }
        },
        ProbeKind::OpenAiCompatible => {
            let bearer = cat2("Bearer ", key);
            ProbeRequest {
                url: join_url(url, "/v1/chat/completions"),
                headers: headers2(
                    "Authorization",
                    bearer.as_str(),
                    "Content-Type",
                    "application/json",
                ),
                body: ProbeBody::Chat(owned(model)),
            }
        },
    }
}

/// The test of a provider, or its result where no key is at hand.
pub fn test_provider(
    id: &str,
    base_url: &str,
    model: &str,
    api_key: &Option<String>,
    cfg: Option<&ProviderConfig>,
    env: &Vec<EnvKey>,
) -> (r: Result<ProviderProbe, TestResult>)
    ensures
        ({
            let key = probe_key(api_key.deep_view(), config_of(cfg), env@, id@);
            let kind = probe_kind(id@);
            match r {
                Ok(p) => {
                    &&& !(needs_key(kind) && key.len() == 0)
                    &&& p.kind == kind
                    &&& p.model@ == given_or_default_model(id@, model@)
                    &&& is_provider_request(
                        p.request,
                        kind,
                        given_or_default_url(id@, base_url@),
                        given_or_default_model(id@, model@),
                        key,
                    )
                },
                Err(t) => {
                    &&& needs_key(kind) && key.len() == 0
                    &&& !t.success
                    &&& t.message@ == "API key is required."@
                },
            }
        }),
{
    let url = resolve_url(id, base_url);
    let model = resolve_model(id, model);
    let mut key = String::new();
    let mut given = false;
    if let Some(k) = api_key {
        if !k.as_str().is_empty() {
            key = k.clone();
            given = true;
        }
    }
    if !given {
        if let Some(k) = saved_api_key_for(id, cfg, env) {
            key = k;
        }
    }
    let kind = kind_of(id);
    if kind != ProbeKind::Ollama && kind != ProbeKind::LlamaCpp && key.as_str().is_empty() {
        return Err(failed(owned("API key is required.")));
    }
    let request = provider_request(kind, url.as_str(), model.as_str(), key.as_str());
    Ok(ProviderProbe { kind, model, request })
}

/// What the answer of a provider means: whether the test passed, and the
/// message.
pub open spec fn provider_verdict(kind: ProbeKind, model: Seq<char>, reply: ProbeReply) -> (
    bool,
    Seq<char>,
) {
    match reply {
        ProbeReply::Unreachable(e) => (false, "Connection failed: "@ + e@),
        ProbeReply::Answered(body) => match kind {
            ProbeKind::Ollama => match body {
                Ok(text) => (
                    true,
                    "Connected. "@ + decimal(
                        match json_array_len(text@, "models"@) {
                            Some(n) => n as nat,
                            None => 0,
                        },
                    ) + " model(s) available."@,
                ),
                Err(e) => (false, "Invalid response: "@ + e@),
            },
            ProbeKind::LlamaCpp => (true, "Connected. Server is healthy."@),
            _ => (true, "Connected to "@ + model + " successfully."@),
        },
        ProbeReply::Refused(status, body) => if needs_key(kind) {
            (
                false,
                refusal_text(
                    status@,
                    json_nested_string(body@, "error"@, "message"@),
                    body@,
                ),
            )
        } else {
            (false, "Server returned HTTP "@ + status@)
        },
    }
}

/// The message for an Ollama server with so many models.
pub fn ollama_message(models: u64) -> (r: String)
    ensures
        r@ == "Connected. "@ + decimal(models as nat) + " model(s) available."@,
{
    let n = decimal_u64(models);
    cat3("Connected. ", n.as_str(), " model(s) available.")
}

/// What the answer of a provider means.
pub fn provider_test_result(kind: ProbeKind, model: &str, reply: &ProbeReply) -> (r: TestResult)
    ensures
        (r.success, r.message@) == provider_verdict(kind, model@, *reply),
{
    match reply {
        ProbeReply::Unreachable(e) => failed(cat2("Connection failed: ", e.as_str())),
        ProbeReply::Answered(body) => match kind {
            ProbeKind::Ollama => match body {
                Ok(text) => {
                    let n: u64 = match array_len_at(text.as_str(), "models") {
                        Some(n) => n,
                        None => 0,
                    };
                    passed(ollama_message(n))
                },
                Err(e) => failed(cat2("Invalid response: ", e.as_str())),
            },
            ProbeKind::LlamaCpp => passed(owned("Connected. Server is healthy.")),
            _ => passed(cat3("Connected to ", model, " successfully.")),
        },
        ProbeReply::Refused(status, body) => {
            if kind == ProbeKind::Ollama || kind == ProbeKind::LlamaCpp {
                failed(cat2("Server returned HTTP ", status.as_str()))
            } else {
                let said = nested_string_at(body.as_str(), "error", "message");
                failed(refusal_message(status.as_str(), said, body.as_str()))
            }
        },
    }
}

// ---------------------------------------------------------------------------
// Telegram
// ---------------------------------------------------------------------------

/// Where a bot is asked who it is.
pub open spec fn get_me_url(token: Seq<char>) -> Seq<char> {
    "https://api.telegram.org/bot"@ + token + "/getMe"@
}

/// Where a bot is asked who it is.
pub fn telegram_get_me_url(token: &str) -> (r: String)
    ensures
        r@ == get_me_url(token@),
{
    cat3("https://api.telegram.org/bot", token, "/getMe")
}

/// The test of a bot token: the URL to read, or the result where there is
/// nothing to test.
pub fn test_telegram_connection(bot_token: &str) -> (r: Result<String, TestResult>)
    ensures
        match r {
            Ok(url) => bot_token@.len() > 0 && url@ == get_me_url(bot_token@),
            Err(t) => bot_token@.len() == 0 && !t.success && t.message@
                == "Bot token is required."@,
        },
{
    if bot_token.is_empty() {
        return Err(failed(owned("Bot token is required.")));
    }
    Ok(telegram_get_me_url(bot_token))
}

/// The message for a bot of that name.
pub fn telegram_bot_message(username: Option<String>) -> (r: String)
    ensures
        r@ == "Connected! Bot: @"@ + match username {
            Some(u) => u@,
            None => "unknown"@,
        },
{
    match username {
        Some(u) => cat2("Connected! Bot: @", u.as_str()),
        None => cat2("Connected! Bot: @", "unknown"),
    }
}

/// What Telegram's answer means; an answer without JSON is an error of the
/// test itself.
pub fn telegram_test_result(reply: &ProbeReply) -> (r: Result<TestResult, String>)
    ensures
        match reply {
            ProbeReply::Unreachable(e) => r matches Ok(t) && !t.success && t.message@
                == "Connection failed: "@ + e@,
            ProbeReply::Answered(Ok(text)) => r matches Ok(t) && t.success && t.message@
                == "Connected! Bot: @"@ + match json_nested_string(
                text@,
                "result"@,
                "username"@,
            ) {
                Some(u) => u,
                None => "unknown"@,
            },
            ProbeReply::Answered(Err(e)) => r matches Err(m) && m@ == "Invalid response: "@ + e@,
            ProbeReply::Refused(status, body) => r matches Ok(t) && !t.success && t.message@
                == refusal_text(status@, json_string(body@, "description"@), body@),
        },
{
    match reply {
        ProbeReply::Unreachable(e) => Ok(failed(cat2("Connection failed: ", e.as_str()))),
        ProbeReply::Answered(body) => match body {
            Ok(text) => {
                let username = nested_string_at(text.as_str(), "result", "username");
                Ok(passed(telegram_bot_message(username)))
            },
            Err(e) => Err(cat2("Invalid response: ", e.as_str())),
        },
        ProbeReply::Refused(status, body) => {
            let said = string_at(body.as_str(), "description");
            Ok(failed(refusal_message(status.as_str(), said, body.as_str())))
        },
    }
}

// ---------------------------------------------------------------------------
// GitHub
// ---------------------------------------------------------------------------

/// What is asked of GitHub with a token.
pub open spec fn is_github_request(r: ProbeRequest, token: Seq<char>) -> bool {
    &&& r.url@ == "https://api.github.com/user"@
    &&& pair_views(r.headers@) == seq![
        ("Authorization"@, "Bearer "@ + token),
        ("Accept"@, "application/vnd.github+json"@),
    ] + seq![("X-GitHub-Api-Version"@, "2022-11-28"@), ("User-Agent"@, "Athen"@)]
    &&& r.body@ == BodyModel::Empty
}

/// The test of a GitHub token, or its result where there is nothing to test.
pub fn test_github_identity(token: &str) -> (r: Result<ProbeRequest, TestResult>)
    ensures
        match r {
            Ok(p) => token@.len() > 0 && is_github_request(p, token@),
            Err(t) => token@.len() == 0 && !t.success && t.message@ == "Token is required."@,
        },
{
    if token.is_empty() {
        return Err(failed(owned("Token is required.")));
    }
    let bearer = cat2("Bearer ", token);
    let mut headers = headers2(
        "Authorization",
        bearer.as_str(),
        "Accept",
        "application/vnd.github+json",
    );
    let mut more = headers2("X-GitHub-Api-Version", "2022-11-28", "User-Agent", "Athen");
    let ghost front = headers@;
    let ghost back = more@;
    headers.append(&mut more);
    proof {
        assert(pair_views(headers@) =~= pair_views(front) + pair_views(back));
    }
    Ok(
        ProbeRequest {
            url: owned("https://api.github.com/user"),
            headers,
            body: ProbeBody::Empty,
        },
    )
}

/// Who a token belongs to.
pub open spec fn github_text(login: Option<Seq<char>>, name: Option<Seq<char>>) -> Seq<char> {
    let who = "Authenticated as @"@ + match login {
        Some(l) => l,
        None => "unknown"@,
    };
    match name {
        Some(n) => if n.len() > 0 {
            who + " ("@ + n + ")"@
        } else {
            who
        },
        None => who,
    }
}

/// Who a token belongs to.
pub fn github_message(login: Option<String>, name: Option<String>) -> (r: String)
    ensures
        r@ == github_text(login.deep_view(), name.deep_view()),
{
    let who = match login {
        Some(l) => cat2("Authenticated as @", l.as_str()),
        None => cat2("Authenticated as @", "unknown"),
    };
    match name {
        Some(n) => if n.as_str().is_empty() {
            who
        } else {
            cat4(who.as_str(), " (", n.as_str(), ")")
        },
        None => who,
    }
}

/// What GitHub's answer means; an answer without JSON is an error of the test
/// itself.
pub fn github_test_result(reply: &ProbeReply) -> (r: Result<TestResult, String>)
    ensures
        match reply {
            ProbeReply::Unreachable(e) => r matches Ok(t) && !t.success && t.message@
                == "Connection failed: "@ + e@,
            ProbeReply::Answered(Ok(text)) => r matches Ok(t) && t.success && t.message@ == github_text(
                json_string(text@, "login"@),
                json_string(text@, "name"@),
            ),
            ProbeReply::Answered(Err(e)) => r matches Err(m) && m@ == "Invalid response: "@ + e@,
            ProbeReply::Refused(status, body) => r matches Ok(t) && !t.success && t.message@
                == refusal_text(status@, json_string(body@, "message"@), body@),
        },
{
    match reply {
        ProbeReply::Unreachable(e) => Ok(failed(cat2("Connection failed: ", e.as_str()))),
        ProbeReply::Answered(body) => match body {
            Ok(text) => {
                let login = string_at(text.as_str(), "login");
                let name = string_at(text.as_str(), "name");
                Ok(passed(github_message(login, name)))
            },
            Err(e) => Err(cat2("Invalid response: ", e.as_str())),
        },
        ProbeReply::Refused(status, body) => {
            let said = string_at(body.as_str(), "message");
            Ok(failed(refusal_message(status.as_str(), said, body.as_str())))
        },
    }
}

// ---------------------------------------------------------------------------
// Embeddings
// ---------------------------------------------------------------------------

/// A test of an embedding provider that can go out.
pub struct EmbeddingProbe {
    pub local: bool,
    pub model: String,
    pub request: ProbeRequest,
}

pub open spec fn text_or_default(o: Option<Seq<char>>, default: Seq<char>) -> Seq<char> {
    match o {
        Some(s) => s,
        None => default,
    }
}

fn or_default(o: &Option<String>, default: &str) -> (r: String)
    ensures
        r@ == text_or_default(o.deep_view(), default@),
{
    match o {
        Some(s) => s.clone(),
        None => owned(default),
    }
}

/// The key of an embedding test: the one given, else the saved one, else
/// none.
pub open spec fn embedding_key(given: Option<Seq<char>>, saved: Option<Seq<char>>) -> Seq<char> {
    match given {
        Some(k) => k,
        None => text_or_default(saved, Seq::empty()),
    }
}

/// The test of an embedding provider, or its result where none is needed or
/// none can be made.
pub fn test_embedding_provider(
    provider: &str,
    model: &Option<String>,
    base_url: &Option<String>,
    api_key: &Option<String>,
    saved_key: &Option<String>,
) -> (r: Result<EmbeddingProbe, TestResult>)
    ensures
        if provider@ == "keyword"@ {
            r matches Err(t) && t.success && t.message@
                == "Keyword fallback is always available."@
        } else if provider@ == "ollama"@ {
            let m = text_or_default(model.deep_view(), "nomic-embed-text"@);
            r matches Ok(p) && p.local && p.model@ == m && p.request.url@ == below(
                text_or_default(base_url.deep_view(), "http://localhost:11434"@),
                "/api/embed"@,
            ) && p.request.headers@.len() == 0 && p.request.body@ == BodyModel::Embed(m)
        } else {
            let m = text_or_default(model.deep_view(), "text-embedding-3-small"@);
            let key = embedding_key(api_key.deep_view(), saved_key.deep_view());
            if key.len() == 0 {
                r matches Err(t) && !t.success && t.message@
                    == "API key is required for cloud embedding providers."@
            } else {
                r matches Ok(p) && !p.local && p.model@ == m && p.request.url@ == below(
                    text_or_default(base_url.deep_view(), "https://api.openai.com"@),
                    "/v1/embeddings"@,
                ) && pair_views(p.request.headers@) == seq![
                    ("Authorization"@, "Bearer "@ + key),
                    ("Content-Type"@, "application/json"@),
                ] && p.request.body@ == BodyModel::Embed(m)
            }
        },
{
    if str_eq(provider, "keyword") {
        return Err(passed(owned("Keyword fallback is always available.")));
    }
    if str_eq(provider, "ollama") {
        let url = or_default(base_url, "http://localhost:11434");
        let m = or_default(model, "nomic-embed-text");
        return Ok(
            EmbeddingProbe {
                local: true,
                model: m.clone(),
                request: ProbeRequest {
                    url: join_url(url.as_str(), "/api/embed"),
                    headers: Vec::new(),
                    body: ProbeBody::Embed(m),
                },
            },
        );
    }
    let url = or_default(base_url, "https://api.openai.com");
    let m = or_default(model, "text-embedding-3-small");
    let key = match api_key {
        Some(k) => k.clone(),
        None => match saved_key {
            Some(k) => k.clone(),
            None => String::new(),
        },
    };
    if key.as_str().is_empty() {
        return Err(failed(owned("API key is required for cloud embedding providers.")));
    }
    let bearer = cat2("Bearer ", key.as_str());
    Ok(
        EmbeddingProbe {
            local: false,
            model: m.clone(),
            request: ProbeRequest {
                url: join_url(url.as_str(), "/v1/embeddings"),
                headers: headers2(
                    "Authorization",
                    bearer.as_str(),
                    "Content-Type",
                    "application/json",
                ),
                body: ProbeBody::Embed(m),
            },
        },
    )
}

/// What the answer of an embedding provider means.
pub fn embedding_test_result(local: bool, model: &str, reply: &ProbeReply) -> (r: TestResult)
    ensures
        (r.success, r.message@) == match reply {
            ProbeReply::Unreachable(e) => (false, "Connection failed: "@ + e@),
            ProbeReply::Answered(_) => (
                true,
                "Connected. Model '"@ + model@ + if local {
                    "' is available for embeddings."@
                } else {
                    "' returned embeddings successfully."@
                },
            ),
            ProbeReply::Refused(status, body) => (
                false,
                refusal_text(
                    status@,
                    if local {
                        None
                    } else {
                        json_nested_string(body@, "error"@, "message"@)
                    },
                    body@,
                ),
            ),
        },
{
    match reply {
        ProbeReply::Unreachable(e) => failed(cat2("Connection failed: ", e.as_str())),
        ProbeReply::Answered(_) => {
            if local {
                passed(cat3("Connected. Model '", model, "' is available for embeddings."))
            } else {
                passed(cat3("Connected. Model '", model, "' returned embeddings successfully."))
            }
        },
        ProbeReply::Refused(status, body) => {
            let said = if local {
                None
            } else {
                nested_string_at(body.as_str(), "error", "message")
            };
            failed(refusal_message(status.as_str(), said, body.as_str()))
        },
    }
}

// ---------------------------------------------------------------------------
// Web search and mail
// ---------------------------------------------------------------------------

/// A web search service with a key.
#[derive(Clone, Copy, Debug, PartialEq, Eq, Structural)]
pub enum SearchBackend {
    Brave,
    Tavily,
}

/// The service to try a search on, or the result where there is none.
pub fn test_web_search_provider(provider: &str, api_key: &str) -> (r: Result<
    SearchBackend,
    TestResult,
>)
    ensures
        if trim_spec(api_key@).len() == 0 {
            r matches Err(t) && !t.success && t.message@ == "API key is required."@
        } else if provider@ == "brave"@ {
            r == Ok::<SearchBackend, TestResult>(SearchBackend::Brave)
        } else if provider@ == "tavily"@ {
            r == Ok::<SearchBackend, TestResult>(SearchBackend::Tavily)
        } else {
            r matches Err(t) && !t.success && t.message@ == "Unknown provider '"@ + provider@
                + "'. Use 'brave' or 'tavily'."@
        },
{
    if is_blank(api_key) {
        return Err(failed(owned("API key is required.")));
    }
    if str_eq(provider, "brave") {
        Ok(SearchBackend::Brave)
    } else if str_eq(provider, "tavily") {
        Ok(SearchBackend::Tavily)
    } else {
        Err(failed(cat3("Unknown provider '", provider, "'. Use 'brave' or 'tavily'.")))
    }
}

/// What the trial search means: the titles that it found, or its error.
pub fn web_search_test_result(hits: &Result<Vec<String>, String>) -> (r: TestResult)
    ensures
        match hits {
            Ok(titles) => r.success && r.message@ == if titles@.len() == 0 {
                "Connected — provider returned no hits for the smoke query, but auth works."@
            } else {
                "Connected. Top result: "@ + titles@[0]@
            },
            Err(e) => !r.success && r.message@ == e@,
        },
{
    match hits {
        Ok(titles) => {
            if titles.len() == 0 {
                passed(
                    owned(
                        "Connected — provider returned no hits for the smoke query, but auth works.",
                    ),
                )
            } else {
                passed(cat2("Connected. Top result: ", titles[0].as_str()))
            }
        },
        Err(e) => failed(e.clone()),
    }
}

/// What a mailbox with so many messages is reported as.
pub fn inbox_message(count: u32) -> (r: String)
    ensures
        r@ == "Connected successfully. INBOX has "@ + decimal(count as nat) + " messages."@,
{
    let n = decimal_u64(count as u64);
    cat3("Connected successfully. INBOX has ", n.as_str(), " messages.")
}

/// The result of a test that ran: its message, or its error.
pub fn test_email_connection(outcome: Result<String, String>) -> (r: TestResult)
    ensures
        match outcome {
            Ok(m) => r.success && r.message == m,
            Err(e) => !r.success && r.message == e,
        },
{
    match outcome {
        Ok(m) => passed(m),
        Err(e) => failed(e),
    }
}

/// How far a test of the outgoing mail got.
pub enum SmtpTest<'a> {
    SetupFailed(&'a str),
    ConnectionFailed(&'a str),
    Authenticated,
}

/// The result of a test of the outgoing mail.
pub fn test_smtp_connection(outcome: &SmtpTest) -> (r: TestResult)
    ensures
        (r.success, r.message@) == match outcome {
            SmtpTest::SetupFailed(e) => (false, "Setup failed: "@ + e@),
            SmtpTest::ConnectionFailed(e) => (false, "Connection failed: "@ + e@),
            SmtpTest::Authenticated => (true, "SMTP authenticated successfully."@),
        },
{
    match outcome {
        SmtpTest::SetupFailed(e) => failed(cat2("Setup failed: ", e)),
        SmtpTest::ConnectionFailed(e) => failed(cat2("Connection failed: ", e)),
        SmtpTest::Authenticated => passed(owned("SMTP authenticated successfully.")),
    }
}

// ---------------------------------------------------------------------------
// What probing promises
// ---------------------------------------------------------------------------

/// A probe asks for nothing but a greeting from the model it names, and a
/// probe of an embedding sends its text.
pub proof fn probes_ask_the_named_model(model: Seq<char>)
    ensures
        body_text(BodyModel::Empty) is None,
        body_text(BodyModel::Chat(model)) == Some(hello_text(model)),
        body_text(BodyModel::Messages(model)) == Some(hello_text(model)),
        hello_text(model)
            == "{\"max_tokens\":10,\"messages\":[{\"content\":\"Say hello in one word.\",\"role\":\"user\"}],\"model\":"@
            + json_quoted(model) + "}"@,
        body_text(BodyModel::Generate) == Some(
            "{\"contents\":[{\"parts\":[{\"text\":\"hi\"}],\"role\":\"user\"}],\"generationConfig\":{\"maxOutputTokens\":10}}"@,
        ),
        body_text(BodyModel::Embed(model)) == Some(
            "{\"input\":\"test embedding connection\",\"model\":"@ + json_quoted(model) + "}"@,
        ),
{
}

/// A path is put below a base URL with exactly the slash that it begins with,
/// however many the URL ends in.
pub proof fn paths_follow_the_base_url(base: Seq<char>, path: Seq<char>)
    ensures
        base.len() > 0 && base.last() != '/' ==> below(base, path) == base + path,
        below(base.push('/'), path) == below(base, path),
        below(Seq::empty(), path) == path,
{
    let k = CharClass::Is('/');
    lemma_tail_before(base, k, base.len() as int);
    if base.len() > 0 && base.last() != '/' {
        assert(base.subrange(0, base.len() as int) =~= base);
    }
    let more = base.push('/');
    lemma_tail_prefix(base, more, base.len() as int);
    assert(more.subrange(0, tail_before(base, k, base.len() as int)) =~= base.subrange(
        0,
        tail_before(base, k, base.len() as int),
    ));
    assert(below(Seq::empty(), path) =~= path);
}

proof fn lemma_tail_prefix(a: Seq<char>, b: Seq<char>, j: int)
    requires
        0 <= j <= a.len() < b.len(),
        forall|i: int| 0 <= i < a.len() ==> a[i] == b[i],
    ensures
        tail_before(b, CharClass::Is('/'), j) == tail_before(a, CharClass::Is('/'), j),
    decreases j,
{
    if j > 0 && CharClass::Is('/').has(a[j - 1]) {
        lemma_tail_prefix(a, b, j - 1);
    }
}

/// A refusal is told with its status and with what the server said, or else
/// with the start of its body.
pub proof fn refusals_tell_what_was_said(status: Seq<char>, said: Seq<char>, body: Seq<char>)
    ensures
        refusal_text(status, Some(said), body) == "HTTP "@ + status + ": "@ + said,
        refusal_text(status, None, body) == "HTTP "@ + status + ": "@ + first_chars(body, 200),
{
}

/// The id of a provider decides how it is probed, and only the providers on
/// this machine need no key.
pub proof fn ids_decide_the_probe(id: Seq<char>)
    ensures
        probe_kind(id) == ProbeKind::Ollama <==> id == "ollama"@,
        probe_kind(id) == ProbeKind::LlamaCpp <==> id == "llamacpp"@,
        probe_kind(id) == ProbeKind::Anthropic <==> id == "anthropic"@,
        probe_kind(id) == ProbeKind::Google <==> id == "google"@,
        needs_key(probe_kind(id)) <==> id != "ollama"@ && id != "llamacpp"@,
{
    reveal_strlit("ollama");
    reveal_strlit("llamacpp");
    reveal_strlit("anthropic");
    reveal_strlit("google");
    assert("ollama"@[0] == 'o' && "llamacpp"@[0] == 'l' && "anthropic"@[0] == 'a' && "google"@[0]
        == 'g');
}

/// A key that is being tried comes before the saved one, and that before the
/// one from the environment.
pub proof fn tried_keys_come_first(
    given: Seq<char>,
    cfg: Option<ProviderConfig>,
    env: Seq<EnvKey>,
    id: Seq<char>,
)
    ensures
        given.len() > 0 ==> probe_key(Some(given), cfg, env, id) == given,
        saved_key_for(cfg, env, id) matches Some(k) ==> probe_key(None, cfg, env, id) == k
            && probe_key(Some(Seq::empty()), cfg, env, id) == k,
        saved_key_for(cfg, env, id) is None ==> probe_key(None, cfg, env, id).len() == 0
            && probe_key(Some(Seq::empty()), cfg, env, id).len() == 0,
{
}

/// The request of a probe goes below the URL that was given, asks the model
/// that was named, and carries the key where one is needed and nowhere else.
pub proof fn requests_carry_url_model_and_key(
    r: ProbeRequest,
    kind: ProbeKind,
    url: Seq<char>,
    model: Seq<char>,
    key: Seq<char>,
)
    requires
        is_provider_request(r, kind, url, model, key),
    ensures
        kind == ProbeKind::Ollama ==> r.url@ == below(url, "/api/tags"@),
        kind == ProbeKind::LlamaCpp ==> r.url@ == below(url, "/health"@),
        kind == ProbeKind::Anthropic ==> r.url@ == below(url, "/v1/messages"@),
        kind == ProbeKind::Google ==> r.url@ == below(
            url,
            "/v1beta/models/"@ + model + ":generateContent"@,
        ),
        kind == ProbeKind::OpenAiCompatible ==> r.url@ == below(url, "/v1/chat/completions"@),
        !needs_key(kind) ==> r.headers@.len() == 0 && r.body@ == BodyModel::Empty,
        kind == ProbeKind::Anthropic ==> pair_views(r.headers@).contains(("x-api-key"@, key))
            && pair_views(r.headers@).contains(("anthropic-version"@, "2023-06-01"@)) && r.body@
            == BodyModel::Messages(model),
        kind == ProbeKind::Google ==> pair_views(r.headers@).contains(("x-goog-api-key"@, key))
            && r.body@ == BodyModel::Generate,
        kind == ProbeKind::OpenAiCompatible ==> pair_views(r.headers@).contains(
            ("Authorization"@, "Bearer "@ + key),
        ) && r.body@ == BodyModel::Chat(model),
        needs_key(kind) ==> pair_views(r.headers@).last() == (
            "Content-Type"@,
            "application/json"@,
        ),
{
    let v = pair_views(r.headers@);
    assert(v.len() == r.headers@.len());
    if kind == ProbeKind::Anthropic {
        assert(v[0] == ("x-api-key"@, key) && v[1] == ("anthropic-version"@, "2023-06-01"@));
    }
    if kind == ProbeKind::Google {
        assert(v[0] == ("x-goog-api-key"@, key));
    }
    if kind == ProbeKind::OpenAiCompatible {
        assert(v[0] == ("Authorization"@, "Bearer "@ + key));
    }
}

/// A probe succeeds exactly where the server answered with success, and with
/// a readable list of models where that was asked for.
pub proof fn only_answers_are_success(
    kind: ProbeKind,
    model: Seq<char>,
    e: String,
    status: String,
    body: String,
)
    ensures
        provider_verdict(kind, model, ProbeReply::Unreachable(e)) == (
            false,
            "Connection failed: "@ + e@,
        ),
        !provider_verdict(kind, model, ProbeReply::Refused(status, body)).0,
        needs_key(kind) ==> provider_verdict(kind, model, ProbeReply::Refused(status, body)).1
            == refusal_text(status@, json_nested_string(body@, "error"@, "message"@), body@),
        !needs_key(kind) ==> provider_verdict(kind, model, ProbeReply::Refused(status, body)).1
            == "Server returned HTTP "@ + status@,
        needs_key(kind) ==> provider_verdict(kind, model, ProbeReply::Answered(Ok(body))) == (
            true,
            "Connected to "@ + model + " successfully."@,
        ) && provider_verdict(kind, model, ProbeReply::Answered(Err(e))) == (
            true,
            "Connected to "@ + model + " successfully."@,
        ),
        provider_verdict(ProbeKind::LlamaCpp, model, ProbeReply::Answered(Ok(body))) == (
            true,
            "Connected. Server is healthy."@,
        ),
        provider_verdict(ProbeKind::Ollama, model, ProbeReply::Answered(Err(e))) == (
            false,
            "Invalid response: "@ + e@,
        ),
        json_array_len(body@, "models"@) matches Some(n) ==> provider_verdict(
            ProbeKind::Ollama,
            model,
            ProbeReply::Answered(Ok(body)),
        ) == (true, "Connected. "@ + decimal(n as nat) + " model(s) available."@),
{
}

/// GitHub's answer is told by the login and, where there is one, the name.
pub proof fn logins_are_told(login: Seq<char>, name: Seq<char>)
    ensures
        github_text(Some(login), None) == "Authenticated as @"@ + login,
        name.len() == 0 ==> github_text(Some(login), Some(name)) == "Authenticated as @"@ + login,
        name.len() > 0 ==> github_text(Some(login), Some(name)) == "Authenticated as @"@ + login
            + " ("@ + name + ")"@,
        github_text(None, None) == "Authenticated as @"@ + "unknown"@,
{
}

/// Requests to Telegram and GitHub carry their token.
pub proof fn tokens_are_carried(r: ProbeRequest, token: Seq<char>)
    ensures
        get_me_url(token) == "https://api.telegram.org/bot"@ + token + "/getMe"@,
        is_github_request(r, token) ==> r.url@ == "https://api.github.com/user"@ && pair_views(
            r.headers@,
        ).len() == 4 && pair_views(r.headers@)[0] == ("Authorization"@, "Bearer "@ + token)
            && r.body@ == BodyModel::Empty,
{
}

/// A given key or text comes before the saved one.
pub proof fn given_values_come_first(given: Seq<char>, saved: Seq<char>, default: Seq<char>)
    ensures
        embedding_key(Some(given), Some(saved)) == given,
        embedding_key(Some(given), None) == given,
        embedding_key(None, Some(saved)) == saved,
        embedding_key(None, None).len() == 0,
        text_or_default(Some(given), default) == given,
        text_or_default(None, default) == default,
{
}

} // verus!
