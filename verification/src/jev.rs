//! The judge: a classifier that is asked one question about a client and answers with a
//! choice and a confidence, never with prose.
//!
//! Judges are spoken to in two formats: the decisions format, and the chat format that
//! drives a language model as a JSON classifier. A third judge needs no call: it answers
//! from the flags of the summary, for tests and demos.

use crate::double::{at_least, clamp_unit, Double, ONE};
use crate::json::{
    array_value, as_bool, as_double, as_text, at_pointer, bool_in, child, child_of, copy_value, entry,
    from_slice, from_text, get, index_token, json, lemma_pointer_keys, member, members,
    object_value, opt_json, plain_key, pointer, read_bytes, read_text, text_entry, text_in,
    to_bytes, to_text, under, whole_value, written_bytes, written_text, Json,
};
use crate::screen::{behaviour_of, Signals};
use crate::text::{
    blank, is_blank, join, lower, number, numeric, opt_view, same, text_or, to_ascii_lower,
};
use serde_json::Value;
use vstd::prelude::*;
use vstd::string::*;

verus! {

/// Who answers as the judge.
#[derive(Clone, Copy, Debug, PartialEq, Eq, Structural)]
pub enum Provider {
    Mock,
    TypeSafe,
    OpenAi,
    OpenRouter,
    LiteLlm,
    Cloudflare,
    Custom,
}

/// The provider that a configuration names.
pub open spec fn provider_of(name: Seq<char>) -> Provider {
    if name == "mock"@ {
        Provider::Mock
    } else if name == "openai"@ {
        Provider::OpenAi
    } else if name == "openrouter"@ {
        Provider::OpenRouter
    } else if name == "litellm"@ {
        Provider::LiteLlm
    } else if name == "cloudflare"@ {
        Provider::Cloudflare
    } else if name == "custom"@ {
        Provider::Custom
    } else {
        Provider::TypeSafe
    }
}

/// The provider speaks the chat format.
pub open spec fn speaks_chat(p: Provider) -> bool {
    p == Provider::OpenAi || p == Provider::OpenRouter || p == Provider::LiteLlm || p
        == Provider::Custom
}

/// The request path of a provider where none is configured.
pub open spec fn standard_path(p: Provider) -> Seq<char> {
    match p {
        Provider::OpenAi => "/v1/chat/completions"@,
        Provider::OpenRouter => "/api/v1/chat/completions"@,
        Provider::LiteLlm => "/v1/chat/completions"@,
        Provider::Custom => "/v1/chat/completions"@,
        Provider::TypeSafe => "/api/alpha/decisions"@,
        Provider::Cloudflare => "/client/v4/accounts"@,
        Provider::Mock => ""@,
    }
}

impl Provider {
    /// The provider that a configuration names. An unknown name is that of the first
    /// choice, TypeSafe.
    pub fn parse(s: &str) -> (r: Provider)
        ensures
            r == provider_of(s@),
    {
        if same(s, "mock") {
            Provider::Mock
        } else if same(s, "openai") {
            Provider::OpenAi
        } else if same(s, "openrouter") {
            Provider::OpenRouter
        } else if same(s, "litellm") {
            Provider::LiteLlm
        } else if same(s, "cloudflare") {
            Provider::Cloudflare
        } else if same(s, "custom") {
            Provider::Custom
        } else {
            Provider::TypeSafe
        }
    }

    /// Whether this provider speaks the chat format.
    pub fn is_openai_compat(self) -> (r: bool)
        ensures
            r == speaks_chat(self),
    {
        match self {
            Provider::OpenAi => true,
            Provider::OpenRouter => true,
            Provider::LiteLlm => true,
            Provider::Custom => true,
            _ => false,
        }
    }

    /// The request path where none is configured.
    pub fn default_path(self) -> (r: &'static str)
        ensures
            r@ == standard_path(self),
    {
        match self {
            Provider::OpenAi => "/v1/chat/completions",
            Provider::OpenRouter => "/api/v1/chat/completions",
            Provider::LiteLlm => "/v1/chat/completions",
            Provider::Custom => "/v1/chat/completions",
            Provider::TypeSafe => "/api/alpha/decisions",
            Provider::Cloudflare => "/client/v4/accounts",
            Provider::Mock => "",
        }
    }
}

/// How the judge is reached.
#[derive(Clone, Debug)]
pub struct JevSettings {
    pub provider: Provider,
    pub model: String,
    pub path: String,
    pub api_key: String,
    pub custom_auth_header: String,
    pub timeout_ms: u64,
    pub max_state_tokens: usize,
    pub cloudflare_account_id: Option<String>,
}

/// The path that requests to the judge go to: the configured one, or else that of the
/// provider, which for Cloudflare names the account and the model.
pub open spec fn path_of(s: JevSettings) -> Seq<char> {
    if s.path@.len() > 0 {
        s.path@
    } else if s.provider == Provider::Cloudflare {
        "/client/v4/accounts/"@ + text_or(s.cloudflare_account_id, Seq::empty()) + "/ai/run/"@
            + s.model@
    } else {
        standard_path(s.provider)
    }
}

impl JevSettings {
    /// The path that requests to the judge go to.
    pub fn resolved_path(&self) -> (r: String)
        ensures
            r@ == path_of(*self),
    {
        if !self.path.as_str().is_empty() {
            self.path.clone()
        } else if self.provider == Provider::Cloudflare {
            let mut out = "/client/v4/accounts/".to_owned();
            if let Some(account) = &self.cloudflare_account_id {
                out.append(account.as_str());
            }
            out.append("/ai/run/");
            out.append(self.model.as_str());
            assert(out@ == path_of(*self));
            out
        } else {
            self.provider.default_path().to_owned()
        }
    }
}

/// Why the judge gave no answer.
#[derive(Clone, Debug)]
pub enum JevError {
    Timeout,
    RateLimited,
    Overloaded,
    Auth,
    Upstream(u16),
    Decode(String),
    Disabled,
}

/// What an error says.
pub ghost enum Failure {
    Timeout,
    RateLimited,
    Overloaded,
    Auth,
    Upstream(u16),
    Decode(Seq<char>),
    Disabled,
}

/// What an error says.
pub open spec fn failure_of(e: JevError) -> Failure {
    match e {
        JevError::Timeout => Failure::Timeout,
        JevError::RateLimited => Failure::RateLimited,
        JevError::Overloaded => Failure::Overloaded,
        JevError::Auth => Failure::Auth,
        JevError::Upstream(status) => Failure::Upstream(status),
        JevError::Decode(reason) => Failure::Decode(reason@),
        JevError::Disabled => Failure::Disabled,
    }
}

/// An answer of the judge, and the model that gave it.
pub struct JevResult {
    pub signals: Signals,
    pub model: String,
}

// ---- Budget ----

/// The most characters that a number of tokens may take: four for a token, as far as that
/// can be counted.
pub open spec fn char_budget(max_tokens: usize) -> int {
    if max_tokens * 4 > usize::MAX {
        usize::MAX as int
    } else {
        max_tokens * 4
    }
}

/// What stands where text was cut out.
pub const CUT_MARK: &'static str = "\n[… truncated by gateway …]\n";

/// `text` is over a budget of `max_tokens`. A budget of nothing is none.
pub open spec fn over_budget(text: Seq<char>, max_tokens: usize) -> bool {
    text.len() > char_budget(max_tokens) && char_budget(max_tokens) > 0
}

/// The head of the text that a budget keeps: 70% of the budget.
pub open spec fn head_chars(max_tokens: usize) -> int {
    char_budget(max_tokens) * 7 / 10
}

/// `text` within a budget of `max_tokens`: its head and its tail, with a mark between.
pub open spec fn budgeted(text: Seq<char>, max_tokens: usize) -> Seq<char> {
    if over_budget(text, max_tokens) {
        let tail_chars = char_budget(max_tokens) - head_chars(max_tokens);
        text.take(head_chars(max_tokens)) + CUT_MARK@ + text.skip(text.len() - tail_chars)
    } else {
        text
    }
}

/// `text` within a budget of `max_tokens`, and whether it was cut.
pub fn budget_state(text: &str, max_tokens: usize) -> (r: (String, bool))
    ensures
        r.0@ == budgeted(text@, max_tokens),
        r.1 == over_budget(text@, max_tokens),
{
    let max_chars: usize = if max_tokens > usize::MAX / 4 {
        usize::MAX
    } else {
        max_tokens * 4
    };
    let n: usize = text.unicode_len();
    if n <= max_chars || max_chars == 0 {
        return (text.to_owned(), false);
    }
    let head: usize = max_chars / 10 * 7 + max_chars % 10 * 7 / 10;
    assert(head == head_chars(max_tokens));
    let tail: usize = max_chars - head;
    let mut out = text.substring_char(0, head).to_owned();
    out.append(CUT_MARK);
    out.append(text.substring_char(n - tail, n));
    assert(text@.subrange(0, head as int) == text@.take(head as int));
    assert(text@.subrange(n - tail, n as int) == text@.skip(n - tail));
    assert(out@ == budgeted(text@, max_tokens));
    (out, true)
}

// ---- The chat format ----

/// What a chat model is told about its task.
pub const CLASSIFIER_SYSTEM: &'static str = "You are a traffic-abuse classifier for an API gateway. \
You are given a code-computed summary of one client's recent requests to an API, plus the API's purpose. \
The counts, rates, and flags in the summary are already computed for you — do not recount them; classify the intent. \
Reply with ONLY a JSON object, no prose, with keys: \
\"behaviour\": one of \"normal_use\",\"enumeration\",\"bulk_scraping\",\"auth_probing\",\"vulnerability_probing\" \
(normal_use = an ordinary user or integration using the API as intended; \
enumeration = walking through many identifiers to discover which records exist or are accessible; \
bulk_scraping = systematically downloading large amounts of data; \
auth_probing = repeatedly trying credentials, tokens, or access to forbidden resources; \
vulnerability_probing = sending unusual paths or parameters that look like attack attempts), \
\"confidence\": number 0..1.";

/// A chat message.
pub open spec fn message(role: Seq<char>, content: Seq<char>) -> Json {
    Json::Object(map!["role"@ => Json::Text(role), "content"@ => Json::Text(content)])
}

/// The request that asks a chat model about a summary, given as text.
pub open spec fn chat_document(model: Seq<char>, state_text: Seq<char>) -> Json {
    Json::Object(
        map![
            "model"@ => Json::Text(model),
            "temperature"@ => Json::Whole(0),
            "response_format"@ => Json::Object(map!["type"@ => Json::Text("json_object"@)]),
            "messages"@ => Json::Array(
                seq![
                    message("system"@, CLASSIFIER_SYSTEM@),
                    message("user"@, "Client request summary (JSON):\n"@ + state_text),
                ],
            ),
        ],
    )
}

/// The request that asks a chat model about `state`.
pub open spec fn chat_request(model: Seq<char>, state: Json) -> Json {
    chat_document(model, written_text(state))
}

/// A chat message.
fn message_value(role: &str, content: &str) -> (r: Value)
    ensures
        json(r) == message(role@, content@),
{
    let entries = vec![text_entry("role", role), text_entry("content", content)];
    proof {
        reveal_strlit("role");
        reveal_strlit("content");
        assert("role"@.len() == 4 && "content"@.len() == 7);
        reveal_with_fuel(members, 3);
        assert(members(entries@) =~= map![
            "role"@ => Json::Text(role@),
            "content"@ => Json::Text(content@),
        ]);
    }
    object_value(entries)
}

/// The request that asks a chat model about a summary, given as text.
pub fn chat_body(model: &str, state_text: &str) -> (r: Value)
    ensures
        json(r) == chat_document(model@, state_text@),
{
    let mut user = "Client request summary (JSON):\n".to_owned();
    user.append(state_text);
    let format = vec![text_entry("type", "json_object")];
    let messages = vec![
        message_value("system", CLASSIFIER_SYSTEM),
        message_value("user", user.as_str()),
    ];
    proof {
        reveal_with_fuel(members, 2);
        assert(members(format@) =~= map!["type"@ => Json::Text("json_object"@)]);
        assert(messages@.map_values(|v: Value| json(v)) =~= seq![
            message("system"@, CLASSIFIER_SYSTEM@),
            message("user"@, user@),
        ]);
    }
    let entries = vec![
        text_entry("model", model),
        entry("temperature", whole_value(0)),
        entry("response_format", object_value(format)),
        entry("messages", array_value(messages)),
    ];
    proof {
        reveal_strlit("model");
        reveal_strlit("temperature");
        reveal_strlit("response_format");
        reveal_strlit("messages");
        assert("model"@.len() == 5 && "temperature"@.len() == 11);
        assert("response_format"@.len() == 15 && "messages"@.len() == 8);
        reveal_with_fuel(members, 5);
        assert(Json::Object(members(entries@)) == chat_document(model@, state_text@));
    }
    object_value(entries)
}

/// The request that asks a chat model about `state`.
pub fn build_chat_body(model: &str, state: &Value) -> (r: Value)
    ensures
        json(r) == chat_request(model@, json(*state)),
{
    chat_body(model, to_text(state).as_str())
}

/// The text of the first message in a chat reply.
pub open spec fn content_in(reply: Json) -> Option<Seq<char>> {
    match at_pointer(reply, "/choices/0/message/content"@) {
        Some(content) => text_in(content),
        None => None,
    }
}

/// A member of `j` that is a text.
pub open spec fn text_member(j: Json, key: Seq<char>) -> Option<Seq<char>> {
    match member(j, key) {
        Some(v) => text_in(v),
        None => None,
    }
}

/// The confidence that a number tells: one outside the range from 0 to 1 is moved into it.
pub open spec fn confidence_in(j: Json) -> Option<u64> {
    match j {
        Json::Whole(n) => Some(
            if n >= 1 {
                ONE
            } else {
                0
            },
        ),
        Json::Real(bits) => Some(clamp_unit(bits)),
        _ => None,
    }
}

/// The confidence that is told, where something is told and it is a number.
pub open spec fn told_confidence(o: Option<Json>) -> Option<u64> {
    match o {
        Some(j) => confidence_in(j),
        None => None,
    }
}

/// A confidence, or else none at all.
pub open spec fn or_zero(o: Option<u64>) -> u64 {
    match o {
        Some(bits) => bits,
        None => 0,
    }
}

/// The answer in what a classifier replied: `{behaviour, confidence}`.
pub open spec fn classifier_answer(reply: Json) -> Option<(Seq<char>, u64)> {
    match text_member(reply, "behaviour"@) {
        Some(choice) => Some((choice, or_zero(told_confidence(member(reply, "confidence"@))))),
        None => None,
    }
}

/// The answer in a chat reply, or why there is none.
pub open spec fn chat_answer(body: Seq<u8>) -> Result<Option<(Seq<char>, u64)>, Failure> {
    match read_bytes(body) {
        Ok(reply) => match content_in(reply) {
            Some(content) => match read_text(content) {
                Ok(parsed) => Ok(classifier_answer(parsed)),
                Err(reason) => Err(Failure::Decode("content not JSON: "@ + reason)),
            },
            None => Err(Failure::Decode("no choices[0].message.content"@)),
        },
        Err(reason) => Err(Failure::Decode(reason)),
    }
}

/// What a reading of signals gives.
pub open spec fn answer_of(r: Result<Signals, JevError>) -> Result<Option<(Seq<char>, u64)>, Failure> {
    match r {
        Ok(sig) => Ok(behaviour_of(sig)),
        Err(e) => Err(failure_of(e)),
    }
}

/// The confidence in an answer, if there is one, lies between 0 and 1.
pub open spec fn confidence_in_unit(sig: Signals) -> bool {
    sig.behaviour matches Some((_, d)) ==> at_least(d.bits, 0) && at_least(ONE, d.bits)
}

/// The confidence that a document tells, where there is one and it is a number.
fn read_confidence(v: Option<&Value>) -> (r: Option<Double>)
    ensures
        told_confidence(opt_json(v)) == (match r {
            Some(d) => Some(d.bits),
            None => None,
        }),
        r matches Some(d) ==> at_least(d.bits, 0) && at_least(ONE, d.bits),
{
    match v {
        Some(v) => match as_double(v) {
            Some(d) => Some(d.clamp_unit()),
            None => None,
        },
        None => None,
    }
}

/// A confidence, or else none at all.
fn known_or_zero(read: Option<Double>) -> (r: Double)
    ensures
        r.bits == (match read {
            Some(d) => d.bits,
            None => 0,
        }),
{
    match read {
        Some(d) => d,
        None => Double { bits: 0 },
    }
}

/// The text that a document is, where there is one and it is a text.
fn opt_text(v: Option<&Value>) -> (r: Option<String>)
    ensures
        opt_view(r) == (match v {
            Some(v) => text_in(json(*v)),
            None => None,
        }),
{
    match v {
        Some(v) => as_text(v),
        None => None,
    }
}

/// The text of the first message in a chat reply.
pub fn chat_content(reply: &Value) -> (r: Result<String, JevError>)
    ensures
        match content_in(json(*reply)) {
            Some(content) => r is Ok && r->Ok_0@ == content,
            None => r is Err && failure_of(r->Err_0) == Failure::Decode(
                "no choices[0].message.content"@,
            ),
        },
{
    match opt_text(pointer(reply, "/choices/0/message/content")) {
        Some(content) => Ok(content),
        None => Err(JevError::Decode("no choices[0].message.content".to_owned())),
    }
}

/// The answer in what a classifier replied.
pub fn classifier_signals(reply: &Value) -> (r: Signals)
    ensures
        behaviour_of(r) == classifier_answer(json(*reply)),
        confidence_in_unit(r),
{
    match opt_text(get(reply, "behaviour")) {
        Some(choice) => {
            let confidence = known_or_zero(read_confidence(get(reply, "confidence")));
            Signals { behaviour: Some((choice, confidence)) }
        },
        None => Signals { behaviour: None },
    }
}

/// The answer in a chat reply whose message is the JSON `{behaviour, confidence}`.
pub fn parse_chat_signals(body: &[u8]) -> (r: Result<Signals, JevError>)
    ensures
        answer_of(r) == chat_answer(body@),
        r matches Ok(sig) ==> confidence_in_unit(sig),
{
    let reply = match from_slice(body) {
        Ok(v) => v,
        Err(reason) => return Err(JevError::Decode(reason)),
    };
    let content = match chat_content(&reply) {
        Ok(content) => content,
        Err(e) => return Err(e),
    };
    match from_text(content.as_str()) {
        Ok(parsed) => Ok(classifier_signals(&parsed)),
        Err(reason) => {
            let mut told = "content not JSON: ".to_owned();
            told.append(reason.as_str());
            Err(JevError::Decode(told))
        },
    }
}

// ---- The decisions format ----

/// What each choice means.
pub open spec fn criteria() -> Json {
    Json::Object(
        map![
            "normal_use"@ => Json::Text("Looks like an ordinary user or integration using the API as intended."@),
            "enumeration"@ => Json::Text("Walks through many identifiers to discover which records exist or are accessible."@),
            "bulk_scraping"@ => Json::Text("Systematically downloads large amounts of data."@),
            "auth_probing"@ => Json::Text("Repeatedly tries credentials, tokens, or access to forbidden resources."@),
            "vulnerability_probing"@ => Json::Text("Sends unusual paths or parameters that look like attack attempts."@),
        ],
    )
}

/// What the judge is asked.
pub const INSTRUCTIONS: &'static str = "Which option best describes the client's behaviour in `recent_requests`, given `api_purpose`? The rate, sequential-id, error-rate, and distinct-endpoint fields are already computed — use them; do not recount.";

/// The one question, a choice.
pub open spec fn question() -> Json {
    Json::Object(
        map![
            "type"@ => Json::Text("choice"@),
            "instructions"@ => Json::Text(INSTRUCTIONS@),
            "criteria"@ => criteria(),
        ],
    )
}

/// The request that asks a decisions judge about `state`.
pub open spec fn typesafe_request(model: Seq<char>, state: Json) -> Json {
    Json::Object(
        map![
            "model"@ => Json::Text(model),
            "state"@ => state,
            "questions"@ => Json::Object(map!["behaviour"@ => question()]),
        ],
    )
}

/// What each choice means.
fn criteria_value() -> (r: Value)
    ensures
        json(r) == criteria(),
{
    let entries = vec![
        text_entry("normal_use", "Looks like an ordinary user or integration using the API as intended."),
        text_entry("enumeration", "Walks through many identifiers to discover which records exist or are accessible."),
        text_entry("bulk_scraping", "Systematically downloads large amounts of data."),
        text_entry("auth_probing", "Repeatedly tries credentials, tokens, or access to forbidden resources."),
        text_entry("vulnerability_probing", "Sends unusual paths or parameters that look like attack attempts."),
    ];
    proof {
        reveal_strlit("normal_use");
        reveal_strlit("enumeration");
        reveal_strlit("bulk_scraping");
        reveal_strlit("auth_probing");
        reveal_strlit("vulnerability_probing");
        assert("normal_use"@.len() == 10 && "enumeration"@.len() == 11);
        assert("bulk_scraping"@.len() == 13 && "auth_probing"@.len() == 12);
        assert("vulnerability_probing"@.len() == 21);
        reveal_with_fuel(members, 6);
        assert(Json::Object(members(entries@)) == criteria());
    }
    object_value(entries)
}

/// The request that asks a decisions judge about `state`.
pub fn build_typesafe_body(model: &str, state: &Value) -> (r: Value)
    ensures
        json(r) == typesafe_request(model@, json(*state)),
{
    let asked = vec![
        text_entry("type", "choice"),
        text_entry("instructions", INSTRUCTIONS),
        entry("criteria", criteria_value()),
    ];
    proof {
        reveal_strlit("type");
        reveal_strlit("instructions");
        reveal_strlit("criteria");
        assert("type"@.len() == 4 && "instructions"@.len() == 12 && "criteria"@.len() == 8);
        reveal_with_fuel(members, 4);
        assert(Json::Object(members(asked@)) == question());
    }
    let questions = vec![entry("behaviour", object_value(asked))];
    proof {
        assert(members(questions@) =~= map!["behaviour"@ => question()]);
    }
    let entries = vec![
        text_entry("model", model),
        entry("state", copy_value(state)),
        entry("questions", object_value(questions)),
    ];
    proof {
        reveal_strlit("model");
        reveal_strlit("state");
        reveal_strlit("questions");
        assert("model"@[0] == 'm' && "state"@[0] == 's' && "questions"@[0] == 'q');
        assert(Json::Object(members(entries@)) == typesafe_request(model@, json(*state)));
    }
    object_value(entries)
}

/// The text at a place in `j`.
pub open spec fn text_at(j: Json, place: Seq<char>) -> Option<Seq<char>> {
    match at_pointer(j, place) {
        Some(v) => text_in(v),
        None => None,
    }
}

/// The answers in a decisions reply: under `answers`, or the reply itself.
pub open spec fn answers_in(reply: Json) -> Json {
    match member(reply, "answers"@) {
        Some(answers) => answers,
        None => reply,
    }
}

/// What the answers tell of the probability of a choice.
pub open spec fn mass_in(answers: Json, choice: Seq<char>) -> Option<Json> {
    match at_pointer(answers, "/behaviour/probabilities"@) {
        Some(masses) => child(masses, choice),
        None => None,
    }
}

/// The answer in a decisions reply. The confidence is the one that is told, or else the
/// probability that is told of the choice.
pub open spec fn typesafe_reading(reply: Json) -> Option<(Seq<char>, u64)> {
    let answers = answers_in(reply);
    match text_at(answers, "/behaviour/choice"@) {
        Some(choice) => {
            let told = told_confidence(at_pointer(answers, "/behaviour/confidence"@));
            let mass = told_confidence(mass_in(answers, choice));
            Some((choice, or_zero(if told is Some { told } else { mass })))
        },
        None => None,
    }
}

/// The answer in a decisions reply, or why there is none.
pub open spec fn typesafe_answer(body: Seq<u8>) -> Result<Option<(Seq<char>, u64)>, Failure> {
    match read_bytes(body) {
        Ok(reply) => Ok(typesafe_reading(reply)),
        Err(reason) => Err(Failure::Decode(reason)),
    }
}

/// The answer in a decisions reply.
pub fn typesafe_signals(reply: &Value) -> (r: Signals)
    ensures
        behaviour_of(r) == typesafe_reading(json(*reply)),
        confidence_in_unit(r),
{
    let answers = match get(reply, "answers") {
        Some(answers) => answers,
        None => reply,
    };
    match opt_text(pointer(answers, "/behaviour/choice")) {
        Some(choice) => {
            let told = read_confidence(pointer(answers, "/behaviour/confidence"));
            let read = match told {
                Some(d) => Some(d),
                None => match pointer(answers, "/behaviour/probabilities") {
                    Some(masses) => read_confidence(child_of(masses, choice.as_str())),
                    None => None,
                },
            };
            Signals { behaviour: Some((choice, known_or_zero(read))) }
        },
        None => Signals { behaviour: None },
    }
}

/// The answer in a decisions reply: the `choice` and `confidence` of the question.
pub fn parse_typesafe_signals(body: &[u8]) -> (r: Result<Signals, JevError>)
    ensures
        answer_of(r) == typesafe_answer(body@),
        r matches Ok(sig) ==> confidence_in_unit(sig),
{
    match from_slice(body) {
        Ok(reply) => Ok(typesafe_signals(&reply)),
        Err(reason) => Err(JevError::Decode(reason)),
    }
}

// ---- The mock judge ----

/// The pattern of `0.8`.
pub const POINT_80: u64 = 0x3FE9_9999_9999_999A;

/// The pattern of `0.85`.
pub const POINT_85: u64 = 0x3FEB_3333_3333_3333;

/// The pattern of `0.9`.
pub const POINT_90: u64 = 0x3FEC_CCCC_CCCC_CCCD;

/// The pattern of `0.95`.
pub const POINT_95: u64 = 0x3FEE_6666_6666_6666;

/// A flag of a summary. A missing one is not set.
pub open spec fn flag(state: Json, key: Seq<char>) -> bool {
    match member(state, key) {
        Some(v) => match bool_in(v) {
            Some(b) => b,
            None => false,
        },
        None => false,
    }
}

/// A word of a summary. A missing one is `default`.
pub open spec fn word_of(state: Json, key: Seq<char>, default: Seq<char>) -> Seq<char> {
    match text_member(state, key) {
        Some(word) => word,
        None => default,
    }
}

/// The answer of the mock judge, from the three flags and the number of endpoints: a walk
/// through the ids with many errors or at a high rate is enumeration, other errors are
/// probing, other high rates over more than a few endpoints are scraping.
pub open spec fn mock_choice(
    seq: bool,
    high_err: bool,
    high_rate: bool,
    wide: bool,
) -> (Seq<char>, u64) {
    if seq && (high_err || high_rate) {
        ("enumeration"@, POINT_90)
    } else if high_err {
        ("auth_probing"@, POINT_85)
    } else if high_rate && wide {
        ("bulk_scraping"@, POINT_80)
    } else {
        ("normal_use"@, POINT_95)
    }
}

/// The answer of the mock judge to a summary.
pub open spec fn mock_answer(state: Json) -> (Seq<char>, u64) {
    let error_rate = word_of(state, "error_rate"@, "low"@);
    let request_rate = word_of(state, "request_rate"@, "low"@);
    let distinct = word_of(state, "distinct_endpoints"@, "few"@);
    mock_choice(
        flag(state, "sequential_ids"@),
        error_rate == "high"@,
        request_rate == "high"@ || request_rate == "very high"@,
        distinct == "many"@ || distinct == "some"@,
    )
}

/// A word of a summary.
fn read_word(state: &Value, key: &str, default: &str) -> (r: String)
    ensures
        r@ == word_of(json(*state), key@, default@),
{
    match opt_text(get(state, key)) {
        Some(word) => word,
        None => default.to_owned(),
    }
}

/// A flag of a summary.
fn read_flag(state: &Value, key: &str) -> (r: bool)
    ensures
        r == flag(json(*state), key@),
{
    match get(state, key) {
        Some(v) => match as_bool(v) {
            Some(b) => b,
            None => false,
        },
        None => false,
    }
}

/// The answer of the mock judge to a summary. It needs no call.
pub fn mock_signals(state: &Value) -> (r: Signals)
    ensures
        behaviour_of(r) == Some(mock_answer(json(*state))),
        confidence_in_unit(r),
{
    let seq = read_flag(state, "sequential_ids");
    let error_rate = read_word(state, "error_rate", "low");
    let request_rate = read_word(state, "request_rate", "low");
    let distinct = read_word(state, "distinct_endpoints", "few");
    let high_rate = same(request_rate.as_str(), "high") || same(request_rate.as_str(), "very high");
    let high_err = same(error_rate.as_str(), "high");
    let wide = same(distinct.as_str(), "many") || same(distinct.as_str(), "some");

    let (choice, bits) = if seq && (high_err || high_rate) {
        ("enumeration", POINT_90)
    } else if high_err {
        ("auth_probing", POINT_85)
    } else if high_rate && wide {
        ("bulk_scraping", POINT_80)
    } else {
        ("normal_use", POINT_95)
    };
    Signals { behaviour: Some((choice.to_owned(), Double { bits })) }
}

// ---- Asking the judge ----

/// A request to the judge.
pub struct JudgeCall {
    pub path: String,
    pub auth_header: String,
    pub auth_value: String,
    pub payload: Vec<u8>,
    pub timeout_ms: u64,
}

/// How asking the judge begins.
pub enum Evaluation {
    /// The answer is there, without a call.
    Answered(JevResult),
    /// There will be no answer.
    Failed(JevError),
    /// This request is to be sent. Its reply goes to [`finish_evaluation`].
    Call(JudgeCall),
}

/// The name of the header that carries the key.
pub open spec fn auth_header_of(s: JevSettings) -> Seq<char> {
    if s.provider == Provider::Custom {
        s.custom_auth_header@
    } else {
        "Authorization"@
    }
}

/// What the header that carries the key holds: a bearer token in `Authorization`, in any
/// letter case, and the bare key in any other.
pub open spec fn auth_value_of(s: JevSettings) -> Seq<char> {
    if lower(auth_header_of(s)) == lower("authorization"@) {
        "Bearer "@ + s.api_key@
    } else {
        s.api_key@
    }
}

/// The document that asks the judge about `state`, in the format that it speaks.
pub open spec fn judge_request(s: JevSettings, state: Json) -> Json {
    if speaks_chat(s.provider) {
        chat_request(s.model@, state)
    } else {
        typesafe_request(s.model@, state)
    }
}

/// `e` is how asking the judge about `state` begins.
pub open spec fn begins(e: Evaluation, s: JevSettings, state: Json) -> bool {
    if s.provider == Provider::Mock {
        e matches Evaluation::Answered(res) && behaviour_of(res.signals) == Some(mock_answer(state))
            && res.model@ == "mock"@
    } else if blank(s.api_key@) {
        e matches Evaluation::Failed(err) && failure_of(err) == Failure::Auth
    } else {
        &&& e matches Evaluation::Call(call)
        &&& call.path@ == path_of(s)
        &&& call.auth_header@ == auth_header_of(s)
        &&& call.auth_value@ == auth_value_of(s)
        &&& call.payload@ == written_bytes(judge_request(s, state))
        &&& call.timeout_ms == s.timeout_ms
    }
}

/// The request that carries `payload` to the judge.
pub fn judge_call(s: &JevSettings, payload: Vec<u8>) -> (call: JudgeCall)
    ensures
        call.path@ == path_of(*s),
        call.auth_header@ == auth_header_of(*s),
        call.auth_value@ == auth_value_of(*s),
        call.payload == payload,
        call.timeout_ms == s.timeout_ms,
{
    let auth_header = if s.provider == Provider::Custom {
        s.custom_auth_header.clone()
    } else {
        "Authorization".to_owned()
    };
    let lowered = to_ascii_lower(auth_header.as_str());
    let auth_value = if same(lowered.as_str(), to_ascii_lower("authorization").as_str()) {
        let mut bearer = "Bearer ".to_owned();
        bearer.append(s.api_key.as_str());
        bearer
    } else {
        s.api_key.clone()
    };
    JudgeCall { path: s.resolved_path(), auth_header, auth_value, payload, timeout_ms: s.timeout_ms }
}

/// Begins to ask the judge about `state`, a summary.
pub fn begin_evaluation(s: &JevSettings, state: &Value) -> (r: Evaluation)
    ensures
        begins(r, *s, json(*state)),
{
    if s.provider == Provider::Mock {
        return Evaluation::Answered(
            JevResult { signals: mock_signals(state), model: "mock".to_owned() },
        );
    }
    if is_blank(s.api_key.as_str()) {
        return Evaluation::Failed(JevError::Auth);
    }
    let body = if s.provider.is_openai_compat() {
        build_chat_body(s.model.as_str(), state)
    } else {
        build_typesafe_body(s.model.as_str(), state)
    };
    match to_bytes(&body) {
        Ok(payload) => Evaluation::Call(judge_call(s, payload)),
        Err(reason) => Evaluation::Failed(JevError::Decode(reason)),
    }
}

/// What is wrong with a reply, by its status.
pub open spec fn status_failure(status: u16) -> Option<Failure> {
    if 200 <= status <= 299 {
        None
    } else if status == 401 || status == 403 {
        Some(Failure::Auth)
    } else if status == 429 {
        Some(Failure::RateLimited)
    } else if status == 529 {
        Some(Failure::Overloaded)
    } else {
        Some(Failure::Upstream(status))
    }
}

/// What is wrong with a reply, by its status.
pub fn check_status(status: u16) -> (r: Option<JevError>)
    ensures
        status_failure(status) == (match r {
            Some(e) => Some(failure_of(e)),
            None => None,
        }),
{
    if 200 <= status && status <= 299 {
        None
    } else if status == 401 || status == 403 {
        Some(JevError::Auth)
    } else if status == 429 {
        Some(JevError::RateLimited)
    } else if status == 529 {
        Some(JevError::Overloaded)
    } else {
        Some(JevError::Upstream(status))
    }
}

/// The answer in a reply to the judge's request, or why there is none.
pub open spec fn reply_answer(s: JevSettings, status: u16, body: Seq<u8>) -> Result<
    Option<(Seq<char>, u64)>,
    Failure,
> {
    match status_failure(status) {
        Some(failure) => Err(failure),
        None => if speaks_chat(s.provider) {
            chat_answer(body)
        } else {
            typesafe_answer(body)
        },
    }
}

/// `r` is how asking the judge ends with the reply of the given status and body.
pub open spec fn ends(
    r: Result<JevResult, JevError>,
    s: JevSettings,
    status: u16,
    body: Seq<u8>,
) -> bool {
    match reply_answer(s, status, body) {
        Ok(answer) => r matches Ok(res) && behaviour_of(res.signals) == answer && res.model@ == s.model@,
        Err(failure) => r matches Err(e) && failure_of(e) == failure,
    }
}

/// Ends asking the judge, with the reply to the request that [`begin_evaluation`] gave.
pub fn finish_evaluation(s: &JevSettings, status: u16, body: &[u8]) -> (r: Result<
    JevResult,
    JevError,
>)
    ensures
        ends(r, *s, status, body@),
        r matches Ok(res) ==> confidence_in_unit(res.signals),
{
    if let Some(e) = check_status(status) {
        return Err(e);
    }
    let read = if s.provider.is_openai_compat() {
        parse_chat_signals(body)
    } else {
        parse_typesafe_signals(body)
    };
    match read {
        Ok(signals) => Ok(JevResult { signals, model: s.model.clone() }),
        Err(e) => Err(e),
    }
}

// ---- Laws ----

/// The keys that the places in a reply are made of are plain.
proof fn lemma_plain_keys()
    ensures
        plain_key("behaviour"@),
        plain_key("choice"@),
        plain_key("confidence"@),
        plain_key("probabilities"@),
{
    reveal_strlit("behaviour");
    reveal_strlit("choice");
    reveal_strlit("confidence");
    reveal_strlit("probabilities");
}

/// What `/behaviour/<key>` addresses.
proof fn lemma_place_of(j: Json, place: Seq<char>, key: Seq<char>)
    requires
        place == seq!['/'] + "behaviour"@ + seq!['/'] + key,
        plain_key(key),
    ensures
        at_pointer(j, place) == (match child(j, "behaviour"@) {
            Some(b) => child(b, key),
            None => None,
        }),
{
    lemma_plain_keys();
    let keys = seq!["behaviour"@, key];
    reveal_with_fuel(join, 3);
    assert(keys.drop_last() =~= seq!["behaviour"@]);
    assert(place =~= seq!['/'] + join(keys, '/'));
    lemma_pointer_keys(j, keys);
    reveal_with_fuel(under, 3);
    assert(keys.skip(1) =~= seq![key]);
    assert(keys.skip(1).skip(1) =~= Seq::empty());
}

/// What the places of the choice, the confidence and the probabilities address.
pub proof fn lemma_reply_places(j: Json)
    ensures
        at_pointer(j, "/behaviour/choice"@) == (match child(j, "behaviour"@) {
            Some(b) => child(b, "choice"@),
            None => None,
        }),
        at_pointer(j, "/behaviour/confidence"@) == (match child(j, "behaviour"@) {
            Some(b) => child(b, "confidence"@),
            None => None,
        }),
        at_pointer(j, "/behaviour/probabilities"@) == (match child(j, "behaviour"@) {
            Some(b) => child(b, "probabilities"@),
            None => None,
        }),
{
    lemma_plain_keys();
    reveal_strlit("behaviour");
    reveal_strlit("choice");
    reveal_strlit("confidence");
    reveal_strlit("probabilities");
    reveal_strlit("/behaviour/choice");
    reveal_strlit("/behaviour/confidence");
    reveal_strlit("/behaviour/probabilities");
    assert("/behaviour/choice"@ =~= seq!['/'] + "behaviour"@ + seq!['/'] + "choice"@);
    assert("/behaviour/confidence"@ =~= seq!['/'] + "behaviour"@ + seq!['/'] + "confidence"@);
    lemma_place_of(j, "/behaviour/choice"@, "choice"@);
    lemma_place_of(j, "/behaviour/confidence"@, "confidence"@);
    assert("/behaviour/probabilities"@ =~= seq!['/'] + "behaviour"@ + seq!['/'] + "probabilities"@);
    lemma_place_of(j, "/behaviour/probabilities"@, "probabilities"@);
}

/// A decisions reply that tells a choice and a confidence is read as these two, the
/// confidence moved into the range from 0 to 1.
pub proof fn law_told_confidence_is_read(
    reply: Json,
    answers: Map<Seq<char>, Json>,
    answer: Map<Seq<char>, Json>,
    choice: Seq<char>,
    told: Json,
)
    requires
        answers_in(reply) == Json::Object(answers),
        answers.dom().contains("behaviour"@),
        answers["behaviour"@] == Json::Object(answer),
        answer.dom().contains("choice"@),
        answer["choice"@] == Json::Text(choice),
        answer.dom().contains("confidence"@),
        answer["confidence"@] == told,
        confidence_in(told) is Some,
    ensures
        typesafe_reading(reply) == Some((choice, confidence_in(told)->0)),
{
    lemma_plain_keys();
    lemma_reply_places(Json::Object(answers));
}

/// A decisions reply that tells a choice and no confidence, but the probability of each
/// choice, is read with the probability of its choice: the confidence is not silently 0.
pub proof fn law_probability_stands_in(
    reply: Json,
    answers: Map<Seq<char>, Json>,
    answer: Map<Seq<char>, Json>,
    choice: Seq<char>,
    mass: Json,
)
    requires
        answers_in(reply) == Json::Object(answers),
        answers.dom().contains("behaviour"@),
        answers["behaviour"@] == Json::Object(answer),
        answer.dom().contains("choice"@),
        answer["choice"@] == Json::Text(choice),
        !answer.dom().contains("confidence"@) || confidence_in(answer["confidence"@]) is None,
        answer.dom().contains("probabilities"@),
        child(answer["probabilities"@], choice) == Some(mass),
        confidence_in(mass) is Some,
    ensures
        typesafe_reading(reply) == Some((choice, confidence_in(mass)->0)),
{
    lemma_reply_places(Json::Object(answers));
}

/// A decisions reply is read the same with its answers nested under `answers` or on top.
pub proof fn law_envelopes_agree(answers: Json)
    requires
        member(answers, "answers"@) is None,
    ensures
        typesafe_reading(Json::Object(map!["answers"@ => answers])) == typesafe_reading(answers),
{
}

/// The judge is called exactly where there is a key for it and it is not the mock.
pub proof fn law_key_makes_the_call(e: Evaluation, s: JevSettings, state: Json)
    requires
        begins(e, s, state),
    ensures
        e is Call <==> s.provider != Provider::Mock && !blank(s.api_key@),
{
}

/// A chat reply is read from the text of its first choice.
pub proof fn law_first_choice_is_read(
    reply: Map<Seq<char>, Json>,
    choices: Seq<Json>,
    first: Map<Seq<char>, Json>,
    told: Map<Seq<char>, Json>,
    content: Seq<char>,
)
    requires
        reply.dom().contains("choices"@),
        reply["choices"@] == Json::Array(choices),
        choices.len() > 0,
        choices[0] == Json::Object(first),
        first.dom().contains("message"@),
        first["message"@] == Json::Object(told),
        told.dom().contains("content"@),
        told["content"@] == Json::Text(content),
    ensures
        content_in(Json::Object(reply)) == Some(content),
{
    reveal_strlit("choices");
    reveal_strlit("0");
    reveal_strlit("message");
    reveal_strlit("content");
    reveal_strlit("/choices/0/message/content");
    let keys = seq!["choices"@, "0"@, "message"@, "content"@];
    reveal_with_fuel(join, 5);
    assert(keys.drop_last() =~= seq!["choices"@, "0"@, "message"@]);
    assert(keys.drop_last().drop_last() =~= seq!["choices"@, "0"@]);
    assert(keys.drop_last().drop_last().drop_last() =~= seq!["choices"@]);
    assert("/choices/0/message/content"@ =~= seq!['/'] + join(keys, '/'));
    lemma_pointer_keys(Json::Object(reply), keys);
    reveal_with_fuel(under, 5);
    assert(keys.skip(1) =~= seq!["0"@, "message"@, "content"@]);
    assert(keys.skip(1).skip(1) =~= seq!["message"@, "content"@]);
    assert(keys.skip(1).skip(1).skip(1) =~= seq!["content"@]);
    assert(keys.skip(1).skip(1).skip(1).skip(1) =~= Seq::empty());
    reveal_with_fuel(number, 2);
    assert("0"@.drop_last() =~= Seq::empty());
    assert(number("0"@) == 0);
    assert(numeric("0"@));
    assert(index_token("0"@));
}

/// A reply that is no success is not read: why there is no answer depends on its status alone.
pub proof fn law_only_success_is_read(s: JevSettings, status: u16, body: Seq<u8>)
    requires
        !(200 <= status <= 299),
    ensures
        reply_answer(s, status, body) is Err,
        reply_answer(s, status, body) == reply_answer(s, status, Seq::empty()),
{
}

/// A text cut to a budget keeps as many characters of it as the budget has.
pub proof fn law_budget_is_kept(text: Seq<char>, max_tokens: usize)
    requires
        max_tokens > 0,
    ensures
        over_budget(text, max_tokens) ==> budgeted(text, max_tokens).len() == char_budget(max_tokens)
            + CUT_MARK@.len(),
        !over_budget(text, max_tokens) ==> budgeted(text, max_tokens) == text && text.len()
            <= char_budget(max_tokens),
{
}

} // verus!
