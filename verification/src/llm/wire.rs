//! The providers' wire formats: request bodies, response bodies, endpoints
//! and the errors that HTTP statuses and transport failures stand for.

use vstd::prelude::*;
use crate::json::Json;
use crate::llm::client::{CompletionResponse, Message, Usage};
use crate::llm::config::{LLMConfig, Provider};
use crate::llm::error::LLMError;
use crate::text::decimal;

verus! {

/// The text of member `key` of `j`, if it is a string.
pub open spec fn text_at(j: Json, key: Seq<char>) -> Option<Seq<char>> {
    j.text_at(key)
}

/// `j` is `{"role": role, "content": content}`.
pub open spec fn role_content(j: Json, role: Seq<char>, content: Seq<char>) -> bool {
    &&& j is Object
    &&& text_at(j, "role"@) == Some(role)
    &&& text_at(j, "content"@) == Some(content)
    &&& forall|k: Seq<char>| k != "role"@ && k != "content"@ ==> #[trigger] j.spec_get(k) is None
}

/// `j` is an array of `{"role", "content"}` objects, one per message of `msgs`.
pub open spec fn messages_json(j: Option<Json>, msgs: Seq<Message>) -> bool {
    j matches Some(a) && a.spec_as_array() matches Some(items) && items.len() == msgs.len()
        && forall|i: int| 0 <= i < msgs.len() ==>
            role_content(#[trigger] items[i], msgs[i].spec_role(), msgs[i].spec_content())
}

/// The requested model, or the default one.
pub open spec fn chosen_model(model: Option<Seq<char>>, default_model: Seq<char>) -> Seq<char> {
    match model {
        Some(m) => m,
        None => default_model,
    }
}

/// The view of an optional string slice.
pub open spec fn opt_str_view(o: Option<&str>) -> Option<Seq<char>> {
    match o {
        Some(s) => Some(s@),
        None => None,
    }
}

/// The body of an OpenAI chat completion request: the model, the messages
/// with their roles, and `max_tokens` and `stream` where they are set.
pub open spec fn openai_body(j: Json, msgs: Seq<Message>, model: Seq<char>, max_tokens: Option<u32>, stream: bool) -> bool {
    &&& j is Object
    &&& text_at(j, "model"@) == Some(model)
    &&& messages_json(j.spec_get("messages"@), msgs)
    &&& j.spec_get("max_tokens"@) == match max_tokens { Some(m) => Some(Json::UInt(m as u64)), None => None::<Json> }
    &&& j.spec_get("stream"@) == if stream { Some(Json::Bool(true)) } else { None::<Json> }
    &&& forall|k: Seq<char>| k != "model"@ && k != "messages"@ && k != "max_tokens"@ && k != "stream"@
        ==> #[trigger] j.spec_get(k) is None
}

/// The content of the first system message, if any.
pub open spec fn first_system(msgs: Seq<Message>) -> Option<Seq<char>>
    decreases msgs.len(),
{
    if msgs.len() == 0 {
        None
    } else if msgs[0] is System {
        Some(msgs[0].spec_content())
    } else {
        first_system(msgs.drop_first())
    }
}

/// The messages that are not system messages, in order.
pub open spec fn non_system(msgs: Seq<Message>) -> Seq<Message>
    decreases msgs.len(),
{
    if msgs.len() == 0 {
        Seq::empty()
    } else {
        let rest = non_system(msgs.drop_last());
        if msgs.last() is System { rest } else { rest.push(msgs.last()) }
    }
}

/// The body of an Anthropic messages request: the model, the non-system
/// messages, `max_tokens` (4096 unless set) and the first system message's
/// content as `system`.
pub open spec fn anthropic_body(j: Json, msgs: Seq<Message>, model: Seq<char>, max_tokens: Option<u32>) -> bool {
    &&& j is Object
    &&& text_at(j, "model"@) == Some(model)
    &&& messages_json(j.spec_get("messages"@), non_system(msgs))
    &&& j.spec_get("max_tokens"@) == Some(Json::UInt(match max_tokens { Some(m) => m as u64, None => 4096 }))
    &&& text_at(j, "system"@) == first_system(msgs)
    &&& (first_system(msgs) is None ==> j.spec_get("system"@) is None)
    &&& forall|k: Seq<char>| k != "model"@ && k != "messages"@ && k != "max_tokens"@ && k != "system"@
        ==> #[trigger] j.spec_get(k) is None
}

/// The completion text of an OpenAI response: `choices[0].message.content`.
pub open spec fn openai_content(j: Json) -> Option<Seq<char>> {
    j.member("choices"@).element(0).member("message"@).member("content"@).spec_as_str()
}

/// The completion text of an Anthropic response: `content[0].text`.
pub open spec fn anthropic_content(j: Json) -> Option<Seq<char>> {
    j.member("content"@).element(0).member("text"@).spec_as_str()
}

/// The model a response names, or the default one.
pub open spec fn response_model(j: Json, default_model: Seq<char>) -> Seq<char> {
    match j.member("model"@).spec_as_str() {
        Some(m) => m,
        None => default_model,
    }
}

/// Token count `key` of a usage object, 0 when it is not a number.
pub open spec fn tokens(u: Json, key: Seq<char>) -> u64 {
    match u.member(key).spec_as_u64() {
        Some(n) => n,
        None => 0,
    }
}

/// The usage an OpenAI response reports.
pub open spec fn openai_usage(j: Json) -> Option<Usage> {
    match j.spec_get("usage"@) {
        Some(u) => Some(Usage {
            prompt_tokens: tokens(u, "prompt_tokens"@),
            completion_tokens: tokens(u, "completion_tokens"@),
            total_tokens: tokens(u, "total_tokens"@),
        }),
        None => None,
    }
}

/// The input and output token counts of an Anthropic response fit in a `u64` together.
pub open spec fn anthropic_tokens_fit(j: Json) -> bool {
    j.spec_get("usage"@) matches Some(u) ==> tokens(u, "input_tokens"@) + tokens(u, "output_tokens"@) <= u64::MAX
}

/// The usage an Anthropic response reports; the total is input plus output.
pub open spec fn anthropic_usage(j: Json) -> Option<Usage> {
    match j.spec_get("usage"@) {
        Some(u) => Some(Usage {
            prompt_tokens: tokens(u, "input_tokens"@),
            completion_tokens: tokens(u, "output_tokens"@),
            total_tokens: (tokens(u, "input_tokens"@) + tokens(u, "output_tokens"@)) as u64,
        }),
        None => None,
    }
}

/// What `parse` makes of a response body whose text is `content`.
pub open spec fn parsed_response(
    r: Result<CompletionResponse, LLMError>,
    content: Option<Seq<char>>,
    model: Seq<char>,
    usage: Option<Usage>,
    provider: Provider,
) -> bool {
    match content {
        Some(c) => r matches Ok(resp) && resp.content@ == c && resp.model@ == model && resp.usage == usage
            && resp.provider == provider,
        None => r matches Err(LLMError::InvalidResponse { details }) && details@ == "No content in response"@,
    }
}

/// The text of the HTTP status `code`, as its `Display` writes it.
pub uninterp spec fn status_display(code: u16) -> Seq<char>;

/// `StatusCode::to_string` from `reqwest` (the `http` crate's `StatusCode`):
/// the result is the text named by `status_display`. Codes from 100 to 999
/// are the valid ones, which `StatusCode::from_u16` accepts.
#[verifier::external_body]
fn status_text(code: u16) -> (s: String)
    requires
        100 <= code <= 999,
    ensures
        s@ == status_display(code),
{
    match reqwest::StatusCode::from_u16(code) {
        Ok(status) => status.to_string(),
        Err(_) => String::new(),
    }
}

/// The error a failed HTTP status stands for: 401 a failed authentication,
/// 429 a rate limit, 500, 502, 503 and 504 an unavailable service, 400 an
/// invalid request; any other status an API error carrying the body and the
/// status text.
pub open spec fn http_error(e: LLMError, status: u16, body: Seq<char>) -> bool {
    if status == 401 {
        e matches LLMError::AuthenticationFailed { reason } && reason@ == body
    } else if status == 429 {
        e == (LLMError::RateLimited { retry_after: None })
    } else if status == 500 || status == 502 || status == 503 || status == 504 {
        e is ServiceUnavailable
    } else if status == 400 {
        e matches LLMError::InvalidRequest { details } && details@ == body
    } else {
        e matches LLMError::ApiError { message, code } && message@ == body
            && opt_view_string(code) == Some(status_display(status))
    }
}

/// The error for a response with the unsuccessful status `status` and body `body`.
pub fn map_http_error(status: u16, body: &str) -> (e: LLMError)
    requires
        100 <= status <= 999,
    ensures
        http_error(e, status, body@),
{
    if status == 401 {
        LLMError::AuthenticationFailed { reason: String::from_str(body) }
    } else if status == 429 {
        LLMError::RateLimited { retry_after: None }
    } else if status == 500 || status == 502 || status == 503 || status == 504 {
        LLMError::ServiceUnavailable
    } else if status == 400 {
        LLMError::InvalidRequest { details: String::from_str(body) }
    } else {
        LLMError::ApiError { message: String::from_str(body), code: Some(status_text(status)) }
    }
}

/// The error for a request that failed before a response came: a timeout
/// after the configured seconds, a connection failure as a network error,
/// anything else as an API error without a code.
pub fn map_transport_error(is_timeout: bool, is_connect: bool, message: &str, timeout_seconds: u64) -> (e: LLMError)
    ensures
        is_timeout ==> e == (LLMError::Timeout { seconds: timeout_seconds }),
        !is_timeout && is_connect ==> (e matches LLMError::NetworkError { message: m } && m@ == message@),
        !is_timeout && !is_connect ==> (e matches LLMError::ApiError { message: m, code } && m@ == message@ && code is None),
{
    if is_timeout {
        LLMError::Timeout { seconds: timeout_seconds }
    } else if is_connect {
        LLMError::NetworkError { message: String::from_str(message) }
    } else {
        LLMError::ApiError { message: String::from_str(message), code: None }
    }
}

/// `{"role": role, "content": content}`.
fn role_content_json(m: &Message) -> (j: Json)
    ensures
        role_content(j, m.spec_role(), m.spec_content()),
{
    proof {
        reveal_strlit("role");
        reveal_strlit("content");
        assert("role"@.len() != "content"@.len());
    }
    let (role, content) = match m {
        Message::System { content } => ("system", content),
        Message::User { content } => ("user", content),
        Message::Assistant { content } => ("assistant", content),
    };
    Json::object2("role", Json::Str(String::from_str(role)), "content", Json::Str(content.clone()))
}

/// The messages as role/content objects; system messages are left out when
/// `skip_system` is set.
fn messages_array(messages: &Vec<Message>, skip_system: bool) -> (j: Json)
    ensures
        messages_json(Some(j), if skip_system { non_system(messages@) } else { messages@ }),
{
    let ghost target = if skip_system { non_system(messages@) } else { messages@ };
    let mut items: Vec<Json> = Vec::new();
    let mut i: usize = 0;
    while i < messages.len()
        invariant
            i <= messages@.len(),
            target == (if skip_system { non_system(messages@) } else { messages@ }),
            ({
                let want = if skip_system { non_system(messages@.take(i as int)) } else { messages@.take(i as int) };
                &&& items@.len() == want.len()
                &&& forall|t: int| 0 <= t < want.len() ==>
                    role_content(#[trigger] items@[t], want[t].spec_role(), want[t].spec_content())
            }),
        decreases messages@.len() - i,
    {
        let m = &messages[i];
        proof {
            assert(messages@.take(i + 1).drop_last() =~= messages@.take(i as int));
        }
        let keep = match m {
            Message::System { .. } => !skip_system,
            _ => true,
        };
        if keep {
            items.push(role_content_json(m));
        }
        i = i + 1;
    }
    proof {
        assert(messages@.take(messages@.len() as int) =~= messages@);
    }
    Json::Array(items)
}

/// The first system message's content.
fn first_system_content(messages: &Vec<Message>) -> (r: Option<String>)
    ensures
        opt_view_string(r) == first_system(messages@),
{
    let mut i: usize = 0;
    proof {
        assert(messages@.skip(0) =~= messages@);
    }
    while i < messages.len()
        invariant
            i <= messages@.len(),
            first_system(messages@) == first_system(messages@.skip(i as int)),
        decreases messages@.len() - i,
    {
        proof {
            assert(messages@.skip(i as int).drop_first() =~= messages@.skip(i + 1));
        }
        match &messages[i] {
            Message::System { content } => {
                return Some(content.clone());
            },
            _ => {},
        }
        i = i + 1;
    }
    None
}

/// The view of an optional string.
pub open spec fn opt_view_string(o: Option<String>) -> Option<Seq<char>> {
    match o {
        Some(s) => Some(s@),
        None => None,
    }
}

/// The body of an OpenAI chat completion request. The sampling temperature
/// is a float and is added by the caller.
pub fn openai_request_body(
    messages: &Vec<Message>,
    model: Option<&str>,
    default_model: &str,
    max_tokens: Option<u32>,
    stream: bool,
) -> (j: Json)
    ensures
        openai_body(j, messages@, chosen_model(opt_str_view(model), default_model@), max_tokens, stream),
{
    proof {
        reveal_strlit("model");
        reveal_strlit("messages");
        reveal_strlit("max_tokens");
        reveal_strlit("stream");
        assert("model"@.len() != "messages"@.len());
        assert("model"@.len() != "max_tokens"@.len());
        assert("model"@[0] != "stream"@[0]);
        assert("messages"@.len() != "max_tokens"@.len());
        assert("messages"@.len() != "stream"@.len());
        assert("max_tokens"@.len() != "stream"@.len());
    }
    let chosen = match model {
        Some(m) => m,
        None => default_model,
    };
    let mut body = Json::object2("model", Json::Str(String::from_str(chosen)), "messages", messages_array(messages, false));
    match max_tokens {
        Some(m) => body.set("max_tokens", Json::UInt(m as u64)),
        None => {},
    }
    if stream {
        body.set("stream", Json::Bool(true));
    }
    body
}

/// The body of an Anthropic messages request. The sampling temperature is a
/// float and is added by the caller.
pub fn anthropic_request_body(
    messages: &Vec<Message>,
    model: Option<&str>,
    default_model: &str,
    max_tokens: Option<u32>,
) -> (j: Json)
    ensures
        anthropic_body(j, messages@, chosen_model(opt_str_view(model), default_model@), max_tokens),
{
    proof {
        reveal_strlit("model");
        reveal_strlit("messages");
        reveal_strlit("max_tokens");
        reveal_strlit("system");
        assert("model"@.len() != "messages"@.len());
        assert("model"@.len() != "max_tokens"@.len());
        assert("model"@[0] != "system"@[0]);
        assert("messages"@.len() != "max_tokens"@.len());
        assert("messages"@[0] != "system"@[0]);
        assert("max_tokens"@.len() != "system"@.len());
    }
    let chosen = match model {
        Some(m) => m,
        None => default_model,
    };
    let limit: u64 = match max_tokens {
        Some(m) => m as u64,
        None => 4096,
    };
    let mut body = Json::object3(
        "model", Json::Str(String::from_str(chosen)),
        "messages", messages_array(messages, true),
        "max_tokens", Json::UInt(limit),
    );
    match first_system_content(messages) {
        Some(system) => body.set("system", Json::Str(system)),
        None => {},
    }
    body
}

/// Member `key` of an object, if any.
fn member_of<'a>(j: Option<&'a Json>, key: &str) -> (r: Option<&'a Json>)
    ensures
        r matches Some(v) ==> (j matches Some(x) && x.spec_get(key@) == Some(*v)),
        r is None ==> (j matches Some(x) ==> x.spec_get(key@) is None),
{
    match j {
        Some(x) => x.get(key),
        None => None,
    }
}

/// Element 0 of an array, if any.
fn first_element<'a>(j: Option<&'a Json>) -> (r: Option<&'a Json>)
    ensures
        r matches Some(v) ==> (j matches Some(x) && x.element(0) == *v),
        r is None ==> (j matches Some(x) ==> x.element(0) == Json::Null),
{
    match j {
        Some(x) => match x.as_array() {
            Some(items) => if items.len() > 0 { Some(&items[0]) } else { None },
            None => None,
        },
        None => None,
    }
}

/// The text of a string value, if any.
fn text_of<'a>(j: Option<&'a Json>) -> (r: Option<&'a str>)
    ensures
        opt_str_view(r) == match j { Some(x) => x.spec_as_str(), None => None },
{
    match j {
        Some(x) => x.as_str(),
        None => None,
    }
}

/// Token count `key` of a usage object.
fn tokens_of(u: &Json, key: &str) -> (n: u64)
    ensures
        n == tokens(*u, key@),
{
    match u.get(key) {
        Some(v) => match v.as_u64() {
            Some(n) => n,
            None => 0,
        },
        None => 0,
    }
}

/// The model a response names, or the default one.
fn model_of(json: &Json, default_model: &str) -> (m: String)
    ensures
        m@ == response_model(*json, default_model@),
{
    match text_of(json.get("model")) {
        Some(m) => String::from_str(m),
        None => String::from_str(default_model),
    }
}

/// Reads an OpenAI chat completion response.
pub fn parse_openai_response(json: &Json, default_model: &str) -> (r: Result<CompletionResponse, LLMError>)
    ensures
        parsed_response(r, openai_content(*json), response_model(*json, default_model@), openai_usage(*json),
            Provider::OpenAI),
{
    let content = text_of(member_of(member_of(first_element(json.get("choices")), "message"), "content"));
    match content {
        None => Err(LLMError::InvalidResponse { details: String::from_str("No content in response") }),
        Some(c) => {
            let usage = match json.get("usage") {
                Some(u) => Some(Usage {
                    prompt_tokens: tokens_of(u, "prompt_tokens"),
                    completion_tokens: tokens_of(u, "completion_tokens"),
                    total_tokens: tokens_of(u, "total_tokens"),
                }),
                None => None,
            };
            Ok(CompletionResponse {
                content: String::from_str(c),
                model: model_of(json, default_model),
                usage,
                provider: Provider::OpenAI,
            })
        },
    }
}

/// Reads an Anthropic messages response.
pub fn parse_anthropic_response(json: &Json, default_model: &str) -> (r: Result<CompletionResponse, LLMError>)
    requires
        anthropic_tokens_fit(*json),
    ensures
        parsed_response(r, anthropic_content(*json), response_model(*json, default_model@), anthropic_usage(*json),
            Provider::Anthropic),
{
    let content = text_of(member_of(first_element(json.get("content")), "text"));
    match content {
        None => Err(LLMError::InvalidResponse { details: String::from_str("No content in response") }),
        Some(c) => {
            let usage = match json.get("usage") {
                Some(u) => {
                    let input = tokens_of(u, "input_tokens");
                    let output = tokens_of(u, "output_tokens");
                    Some(Usage { prompt_tokens: input, completion_tokens: output, total_tokens: input + output })
                },
                None => None,
            };
            Ok(CompletionResponse {
                content: String::from_str(c),
                model: model_of(json, default_model),
                usage,
                provider: Provider::Anthropic,
            })
        },
    }
}

/// The OpenAI base URL: the configured one, or `https://api.openai.com`.
pub open spec fn openai_base(c: LLMConfig) -> Seq<char> {
    match c.openai_base_url {
        Some(u) => u@,
        None => "https://api.openai.com"@,
    }
}

/// The Anthropic base URL: the configured one, or `https://api.anthropic.com`.
pub open spec fn anthropic_base(c: LLMConfig) -> Seq<char> {
    match c.anthropic_base_url {
        Some(u) => u@,
        None => "https://api.anthropic.com"@,
    }
}

/// The URL of an endpoint of `provider`: its base URL followed by `path`.
pub fn endpoint_url(config: &LLMConfig, provider: Provider, path: &str) -> (u: String)
    ensures
        u@ == (match provider {
            Provider::OpenAI => openai_base(*config),
            Provider::Anthropic => anthropic_base(*config),
        }) + path@,
{
    let base: &str = match provider {
        Provider::OpenAI => match &config.openai_base_url {
            Some(u) => u.as_str(),
            None => "https://api.openai.com",
        },
        Provider::Anthropic => match &config.anthropic_base_url {
            Some(u) => u.as_str(),
            None => "https://api.anthropic.com",
        },
    };
    String::from_str(base).concat(path)
}

/// The API key configured for `provider`, or a configuration error naming it.
pub fn api_key(config: &LLMConfig, provider: Provider) -> (r: Result<String, LLMError>)
    ensures
        provider == Provider::OpenAI ==> match config.openai_api_key {
            Some(k) => r matches Ok(s) && s@ == k@,
            None => r matches Err(LLMError::ConfigurationError { message })
                && message@ == "OpenAI API key not configured"@,
        },
        provider == Provider::Anthropic ==> match config.anthropic_api_key {
            Some(k) => r matches Ok(s) && s@ == k@,
            None => r matches Err(LLMError::ConfigurationError { message })
                && message@ == "Anthropic API key not configured"@,
        },
{
    match provider {
        Provider::OpenAI => match &config.openai_api_key {
            Some(k) => Ok(k.clone()),
            None => Err(LLMError::ConfigurationError { message: String::from_str("OpenAI API key not configured") }),
        },
        Provider::Anthropic => match &config.anthropic_api_key {
            Some(k) => Ok(k.clone()),
            None => Err(LLMError::ConfigurationError { message: String::from_str("Anthropic API key not configured") }),
        },
    }
}

/// The value of OpenAI's `Authorization` header: `Bearer` and the key.
pub fn bearer(key: &str) -> (h: String)
    ensures
        h@ == "Bearer "@ + key@,
{
    String::from_str("Bearer ").concat(key)
}

/// How failed statuses are handled downstream: a rate limit (429) and the
/// server errors 500, 502, 503 and 504 are retried, and a rate limit asks for
/// the fallback provider; a rejected key (401) or request (400) is neither
/// retried nor a reason to fall back.
pub proof fn law_http_errors_by_status(e: LLMError, status: u16, body: Seq<char>)
    requires
        http_error(e, status, body),
    ensures
        status == 429 ==> e.spec_is_retryable() && e.spec_should_use_fallback(),
        (status == 500 || status == 502 || status == 503 || status == 504) ==> e.spec_is_retryable(),
        (status == 401 || status == 400) ==> !e.spec_is_retryable() && !e.spec_should_use_fallback(),
        !(status == 429 || status == 500 || status == 502 || status == 503 || status == 504)
            ==> !e.spec_is_retryable(),
{
}

} // verus!
