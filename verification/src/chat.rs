//! The HTTP exchanges with the agent: what is sent for a session, a
//! provider update and a reply, and what each answer becomes.
use vstd::prelude::*;
use crate::config::{
    goose_agent_base_url, goose_agent_secret, goose_provider_name, non_blank, opt_view,
    spec_agent_base_url, spec_agent_secret, spec_provider_name, AgentEnv, GooseConfig,
};
use crate::json::{json_get_text, json_get_text_exec, json_parse, json_quoted, spec_json_parse,
    spec_json_quoted, JsonValue};
use crate::reply::{parse_goose_sse_response, result_view, spec_parse_sse};
use crate::text::{push_str, signed_decimal, signed_decimal_chars, string_of, trim,
    trimmed, is_blank, is_blank_str, push_all};

verus! {

/// A POST to the agent: where, the secret for the `X-Secret-Key` header,
/// and the JSON body.
#[derive(Clone, Debug)]
pub struct GooseRequest {
    pub url: String,
    pub secret_key: String,
    pub body: String,
}

/// A request as values.
pub open spec fn request_view(r: GooseRequest) -> (Seq<char>, Seq<char>, Seq<char>) {
    (r.url@, r.secret_key@, r.body@)
}

/// A request to `path` under the agent's base URL with the agent's secret.
pub open spec fn spec_request(config: GooseConfig, env: AgentEnv, path: Seq<char>, body: Seq<char>) -> (Seq<char>, Seq<char>, Seq<char>) {
    (spec_agent_base_url(config, env) + path, spec_agent_secret(config), body)
}

fn request(config: &GooseConfig, env: &AgentEnv, path: &str, body: String) -> (r: GooseRequest)
    ensures
        request_view(r) == spec_request(*config, *env, path@, body@),
{
    let mut url: Vec<char> = Vec::new();
    let base = goose_agent_base_url(config, env);
    push_str(&mut url, base.as_str());
    push_str(&mut url, path);
    GooseRequest { url: string_of(url.as_slice()), secret_key: goose_agent_secret(config), body }
}

// ---------------------------------------------------------------------------
// The prompt
// ---------------------------------------------------------------------------

/// The prompt as sent: trimmed, and refused when that leaves nothing.
pub open spec fn spec_prompt(prompt: Seq<char>) -> Result<Seq<char>, Seq<char>> {
    if trim(prompt).len() == 0 {
        Err("Prompt is empty"@)
    } else {
        Ok(trim(prompt))
    }
}

pub fn goose_prompt(prompt: &str) -> (r: Result<String, String>)
    ensures
        result_view(r) == spec_prompt(prompt@),
{
    let t = trimmed(prompt);
    if t.len() == 0 {
        Err("Prompt is empty".to_owned())
    } else {
        Ok(string_of(t.as_slice()))
    }
}

/// The agent's path, or the error for a missing executable.
pub fn require_agent_path(found: Option<String>) -> (r: Result<String, String>)
    ensures
        result_view(r) == match opt_view(found) {
            Some(p) => Ok::<Seq<char>, Seq<char>>(p),
            None => Err("Goose agent executable was not found"@),
        },
{
    match found {
        Some(p) => Ok(p),
        None => Err("Goose agent executable was not found".to_owned()),
    }
}

// ---------------------------------------------------------------------------
// Sessions
// ---------------------------------------------------------------------------

/// The session-start body around the working directory, given as a JSON
/// string literal.
pub open spec fn spec_start_body_from(quoted_dir: Seq<char>) -> Seq<char> {
    "{\"extension_overrides\":null,\"recipe\":null,\"recipe_deeplink\":null,\"recipe_id\":null,\"working_dir\":"@
        + quoted_dir + "}"@
}

/// The body that starts a session in `working_dir`.
pub open spec fn spec_start_body(working_dir: Seq<char>) -> Seq<char> {
    spec_start_body_from(spec_json_quoted(working_dir))
}

/// `spec_start_body_from`.
pub fn start_body_from_quoted(quoted_dir: &str) -> (r: String)
    ensures
        r@ == spec_start_body_from(quoted_dir@),
{
    let mut b: Vec<char> = Vec::new();
    push_str(
        &mut b,
        "{\"extension_overrides\":null,\"recipe\":null,\"recipe_deeplink\":null,\"recipe_id\":null,\"working_dir\":",
    );
    push_str(&mut b, quoted_dir);
    push_str(&mut b, "}");
    assert(b@ =~= spec_start_body_from(quoted_dir@));
    string_of(b.as_slice())
}

/// The request that starts a session in `working_dir`.
pub fn agent_start_request(config: &GooseConfig, env: &AgentEnv, working_dir: &str) -> (r: GooseRequest)
    ensures
        request_view(r) == spec_request(*config, *env, "/agent/start"@, spec_start_body(working_dir@)),
{
    let q = json_quoted(working_dir);
    request(config, env, "/agent/start", start_body_from_quoted(q.as_str()))
}

/// What a parsed session-start answer gives: the error for a body that is
/// not JSON, or for one without a string `id`; else the `id`.
pub open spec fn spec_session_from_parsed(parsed: Result<JsonValue, Seq<char>>) -> Result<Seq<char>, Seq<char>> {
    match parsed {
        Err(e) => Err("Invalid Goose session response: "@ + e),
        Ok(v) => match json_get_text(v, "id"@) {
            Some(id) => Ok(id),
            None => Err("Goose session response did not include an id"@),
        },
    }
}

/// Reads a parsed session-start answer.
pub fn session_from_parsed(parsed: Result<JsonValue, String>) -> (r: Result<String, String>)
    ensures
        result_view(r) == spec_session_from_parsed(match parsed {
            Ok(v) => Ok::<JsonValue, Seq<char>>(v),
            Err(e) => Err(e@),
        }),
{
    match parsed {
        Err(e) => {
            let mut m: Vec<char> = Vec::new();
            push_str(&mut m, "Invalid Goose session response: ");
            push_str(&mut m, e.as_str());
            assert(m@ =~= "Invalid Goose session response: "@ + e@);
            Err(string_of(m.as_slice()))
        },
        Ok(v) => match json_get_text_exec(&v, "id") {
            Some(id) => Ok(id.clone()),
            None => Err("Goose session response did not include an id".to_owned()),
        },
    }
}

/// What the answer to a session start gives: the error for a failed status,
/// for a body that is not JSON, or for one without a string `id`; else the
/// `id`.
pub open spec fn spec_session_from_start(success: bool, status: Seq<char>, text: Seq<char>) -> Result<Seq<char>, Seq<char>> {
    if !success {
        Err("Failed to start Goose session "@ + status + ": "@ + text)
    } else {
        spec_session_from_parsed(spec_json_parse(text))
    }
}

/// Reads the answer to a session start.
pub fn session_from_start_response(success: bool, status: &str, text: &str) -> (r: Result<String, String>)
    ensures
        result_view(r) == spec_session_from_start(success, status@, text@),
{
    if !success {
        let mut m: Vec<char> = Vec::new();
        push_str(&mut m, "Failed to start Goose session ");
        push_str(&mut m, status);
        push_str(&mut m, ": ");
        push_str(&mut m, text);
        assert(m@ =~= "Failed to start Goose session "@ + status@ + ": "@ + text@);
        return Err(string_of(m.as_slice()));
    }
    session_from_parsed(json_parse(text))
}

/// The provider-update body around the session, provider and model, each
/// given as a JSON string literal.
pub open spec fn spec_update_body_from(quoted_session: Seq<char>, quoted_provider: Seq<char>, quoted_model: Seq<char>) -> Seq<char> {
    "{\"context_limit\":null,\"model\":"@ + quoted_model + ",\"provider\":"@ + quoted_provider
        + ",\"request_params\":null,\"session_id\":"@ + quoted_session + "}"@
}

/// The body that sets a session's provider and model.
pub open spec fn spec_update_body(session_id: Seq<char>, provider: Seq<char>, model: Seq<char>) -> Seq<char> {
    spec_update_body_from(spec_json_quoted(session_id), spec_json_quoted(provider), spec_json_quoted(model))
}

/// `spec_update_body_from`.
pub fn update_body_from_quoted(quoted_session: &str, quoted_provider: &str, quoted_model: &str) -> (r: String)
    ensures
        r@ == spec_update_body_from(quoted_session@, quoted_provider@, quoted_model@),
{
    let mut b: Vec<char> = Vec::new();
    push_str(&mut b, "{\"context_limit\":null,\"model\":");
    push_str(&mut b, quoted_model);
    push_str(&mut b, ",\"provider\":");
    push_str(&mut b, quoted_provider);
    push_str(&mut b, ",\"request_params\":null,\"session_id\":");
    push_str(&mut b, quoted_session);
    push_str(&mut b, "}");
    assert(b@ =~= spec_update_body_from(quoted_session@, quoted_provider@, quoted_model@));
    string_of(b.as_slice())
}

/// The provider update for a session: an error when no provider or no model
/// is configured; else the request with the provider name and the model.
pub open spec fn spec_provider_update(config: GooseConfig, env: AgentEnv, session_id: Seq<char>) -> Result<(Seq<char>, Seq<char>, Seq<char>), Seq<char>> {
    match spec_provider_name(config) {
        None => Err("Goose provider is not configured. Please set provider in goose.config.json"@),
        Some(p) => match non_blank(config.model) {
            None => Err("Goose model is not configured. Please set model in goose.config.json"@),
            Some(m) => Ok(spec_request(config, env, "/agent/update_provider"@, spec_update_body(session_id, p, m))),
        },
    }
}

/// The request that sets the session's provider and model.
pub fn provider_update_request(config: &GooseConfig, env: &AgentEnv, session_id: &str) -> (r: Result<GooseRequest, String>)
    ensures
        match r {
            Ok(q) => spec_provider_update(*config, *env, session_id@) == Ok::<(Seq<char>, Seq<char>, Seq<char>), Seq<char>>(request_view(q)),
            Err(e) => spec_provider_update(*config, *env, session_id@) == Err::<(Seq<char>, Seq<char>, Seq<char>), Seq<char>>(e@),
        },
{
    let provider = match goose_provider_name(config) {
        Some(p) => p,
        None => {
            return Err(
                "Goose provider is not configured. Please set provider in goose.config.json".to_owned(),
            );
        },
    };
    let model = match &config.model {
        Some(m) => {
            if is_blank_str(m.as_str()) {
                return Err(
                    "Goose model is not configured. Please set model in goose.config.json".to_owned(),
                );
            }
            m
        },
        None => {
            return Err(
                "Goose model is not configured. Please set model in goose.config.json".to_owned(),
            );
        },
    };
    let qs = json_quoted(session_id);
    let qp = json_quoted(provider.as_str());
    let qm = json_quoted(model.as_str());
    let body = update_body_from_quoted(qs.as_str(), qp.as_str(), qm.as_str());
    Ok(request(config, env, "/agent/update_provider", body))
}

/// What the answer to a provider update gives.
pub open spec fn spec_provider_update_outcome(success: bool, status: Seq<char>, text: Seq<char>) -> Result<(), Seq<char>> {
    if success {
        Ok(())
    } else {
        Err("Failed to update Goose provider "@ + status + ": "@ + text)
    }
}

/// Reads the answer to a provider update.
pub fn provider_update_outcome(success: bool, status: &str, text: &str) -> (r: Result<(), String>)
    ensures
        match r {
            Ok(()) => spec_provider_update_outcome(success, status@, text@) is Ok,
            Err(e) => spec_provider_update_outcome(success, status@, text@) == Err::<(), Seq<char>>(e@),
        },
{
    if success {
        Ok(())
    } else {
        let mut m: Vec<char> = Vec::new();
        push_str(&mut m, "Failed to update Goose provider ");
        push_str(&mut m, status);
        push_str(&mut m, ": ");
        push_str(&mut m, text);
        assert(m@ =~= "Failed to update Goose provider "@ + status@ + ": "@ + text@);
        Err(string_of(m.as_slice()))
    }
}

// ---------------------------------------------------------------------------
// Replies
// ---------------------------------------------------------------------------

/// The reply body around the session and prompt, each given as a JSON
/// string literal, and the creation time.
pub open spec fn spec_reply_body_from(quoted_session: Seq<char>, quoted_prompt: Seq<char>, created: int) -> Seq<char> {
    "{\"recipe_name\":null,\"recipe_version\":null,\"session_id\":"@ + quoted_session
        + ",\"user_message\":{\"content\":[{\"text\":"@ + quoted_prompt
        + ",\"type\":\"text\"}],\"created\":"@ + signed_decimal(created)
        + ",\"id\":null,\"metadata\":{\"agentVisible\":true,\"userVisible\":true},\"role\":\"user\"}}"@
}

/// The body that sends the user's `prompt`, created at `created` (seconds
/// since the epoch), in session `session_id`.
pub open spec fn spec_reply_body(prompt: Seq<char>, created: int, session_id: Seq<char>) -> Seq<char> {
    spec_reply_body_from(spec_json_quoted(session_id), spec_json_quoted(prompt), created)
}

/// `spec_reply_body_from`.
pub fn reply_body_from_quoted(quoted_session: &str, quoted_prompt: &str, created: i64) -> (r: String)
    ensures
        r@ == spec_reply_body_from(quoted_session@, quoted_prompt@, created as int),
{
    let mut b: Vec<char> = Vec::new();
    push_str(&mut b, "{\"recipe_name\":null,\"recipe_version\":null,\"session_id\":");
    push_str(&mut b, quoted_session);
    push_str(&mut b, ",\"user_message\":{\"content\":[{\"text\":");
    push_str(&mut b, quoted_prompt);
    push_str(&mut b, ",\"type\":\"text\"}],\"created\":");
    let c = signed_decimal_chars(created);
    push_all(&mut b, c.as_slice());
    push_str(&mut b, ",\"id\":null,\"metadata\":{\"agentVisible\":true,\"userVisible\":true},\"role\":\"user\"}}");
    assert(b@ =~= spec_reply_body_from(quoted_session@, quoted_prompt@, created as int));
    string_of(b.as_slice())
}

/// The request that sends the user's prompt.
pub fn reply_request(config: &GooseConfig, env: &AgentEnv, session_id: &str, prompt: &str, created: i64) -> (r: GooseRequest)
    ensures
        request_view(r) == spec_request(*config, *env, "/reply"@, spec_reply_body(prompt@, created as int, session_id@)),
{
    let qs = json_quoted(session_id);
    let qp = json_quoted(prompt);
    request(config, env, "/reply", reply_body_from_quoted(qs.as_str(), qp.as_str(), created))
}

/// The agent's answer as given to the desktop app.
#[derive(Clone, Debug)]
pub struct GooseResponse {
    pub content: String,
    pub path: String,
}

/// What the answer to a reply request gives: the error for a failed
/// status; the error of the event stream; the error for an answer that is
/// blank; else the answer with the agent's path.
pub open spec fn spec_finish_reply(path: Seq<char>, success: bool, status: Seq<char>, text: Seq<char>) -> Result<(Seq<char>, Seq<char>), Seq<char>> {
    if !success {
        Err("Goose agent returned "@ + status + ": "@ + text)
    } else {
        match spec_parse_sse(text) {
            Err(e) => Err(e),
            Ok(c) => if trim(c).len() == 0 {
                Err("Goose agent returned an empty response"@)
            } else {
                Ok((c, path))
            },
        }
    }
}

/// Reads the answer to a reply request.
pub fn finish_reply(path: String, success: bool, status: &str, event_text: &str) -> (r: Result<GooseResponse, String>)
    ensures
        match r {
            Ok(g) => spec_finish_reply(path@, success, status@, event_text@) == Ok::<(Seq<char>, Seq<char>), Seq<char>>((g.content@, g.path@)),
            Err(e) => spec_finish_reply(path@, success, status@, event_text@) == Err::<(Seq<char>, Seq<char>), Seq<char>>(e@),
        },
{
    if !success {
        let mut m: Vec<char> = Vec::new();
        push_str(&mut m, "Goose agent returned ");
        push_str(&mut m, status);
        push_str(&mut m, ": ");
        push_str(&mut m, event_text);
        assert(m@ =~= "Goose agent returned "@ + status@ + ": "@ + event_text@);
        return Err(string_of(m.as_slice()));
    }
    let content = match parse_goose_sse_response(event_text) {
        Ok(c) => c,
        Err(e) => {
            return Err(e);
        },
    };
    if is_blank_str(content.as_str()) {
        Err("Goose agent returned an empty response".to_owned())
    } else {
        Ok(GooseResponse { content, path })
    }
}


/// A reply that succeeds carries an answer that is not blank.
pub proof fn law_reply_answer_not_blank(path: Seq<char>, success: bool, status: Seq<char>, text: Seq<char>)
    ensures
        spec_finish_reply(path, success, status, text) matches Ok(answer) ==> !is_blank(answer.0),
{
}


/// What obtaining a session comes to.
#[derive(Clone, Debug)]
pub enum SessionAction {
    /// A session was started before: its id is used again.
    Reuse { id: String },
    /// A new session is started.
    Start,
}

/// A session id kept from before is used again; otherwise a session is
/// started.
pub fn session_action(cached: Option<String>) -> (r: SessionAction)
    ensures
        match r {
            SessionAction::Reuse { id } => cached matches Some(c) && c@ == id@,
            SessionAction::Start => cached is None,
        },
{
    match cached {
        Some(id) => SessionAction::Reuse { id },
        None => SessionAction::Start,
    }
}

} // verus!
