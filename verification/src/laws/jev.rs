//! Laws of the judge: what it is sent, and how its replies are read.

use crate::double::clamp_unit;
use crate::jev::{
    answer_of, answers_in, begins, budgeted, chat_answer, chat_document, chat_request,
    classifier_answer, content_in, ends, failure_of, lemma_reply_places, mock_answer, over_budget,
    path_of, provider_of, reply_answer, speaks_chat, standard_path, status_failure, typesafe_answer, typesafe_reading,
    typesafe_request, Evaluation, Failure, JevError, JevResult, JevSettings, JudgeCall, Provider,
    CLASSIFIER_SYSTEM, CUT_MARK,
};
use crate::json::{
    at_pointer, child, index_token, lemma_pointer_keys, member, read_bytes, read_text, under,
    written_bytes, written_text, Json,
};
use crate::laws::text::law_decimal_reads_back;
use crate::screen::{behaviour_of, Signals};
use crate::text::{blank, decimal, join, lower, number, numeric};
use vstd::prelude::*;
use vstd::string::*;

verus! {

// ---- Providers ----

/// The names of the providers differ.
proof fn lemma_provider_names_differ()
    ensures
        "mock"@.len() == 4,
        "openai"@.len() == 6 && "openai"@[0] == 'o',
        "openrouter"@.len() == 10 && "openrouter"@[0] == 'o',
        "litellm"@.len() == 7,
        "cloudflare"@.len() == 10 && "cloudflare"@[0] == 'c',
        "custom"@.len() == 6 && "custom"@[0] == 'c',
{
    reveal_strlit("mock");
    reveal_strlit("openai");
    reveal_strlit("openrouter");
    reveal_strlit("litellm");
    reveal_strlit("cloudflare");
    reveal_strlit("custom");
}

/// Each provider has one name, and any other name stands for TypeSafe.
pub proof fn law_provider_has_one_name(name: Seq<char>)
    ensures
        provider_of(name) == Provider::Mock <==> name == "mock"@,
        provider_of(name) == Provider::OpenAi <==> name == "openai"@,
        provider_of(name) == Provider::OpenRouter <==> name == "openrouter"@,
        provider_of(name) == Provider::LiteLlm <==> name == "litellm"@,
        provider_of(name) == Provider::Cloudflare <==> name == "cloudflare"@,
        provider_of(name) == Provider::Custom <==> name == "custom"@,
{
    lemma_provider_names_differ();
}

/// The chat format is spoken by OpenAI, OpenRouter, LiteLLM and a custom provider, and each
/// provider has a path of its own.
pub proof fn law_providers_differ(p: Provider)
    ensures
        speaks_chat(p) <==> p == Provider::OpenAi || p == Provider::OpenRouter || p
            == Provider::LiteLlm || p == Provider::Custom,
        standard_path(p) == match p {
            Provider::Mock => ""@,
            Provider::TypeSafe => "/api/alpha/decisions"@,
            Provider::OpenAi => "/v1/chat/completions"@,
            Provider::OpenRouter => "/api/v1/chat/completions"@,
            Provider::LiteLlm => "/v1/chat/completions"@,
            Provider::Custom => "/v1/chat/completions"@,
            Provider::Cloudflare => "/client/v4/accounts"@,
        },
{
}

/// A configured path is used as it is, by every provider. Without one each has its own, and
/// that of Cloudflare names the account and the model.
pub proof fn law_configured_path_goes_first(s: JevSettings)
    ensures
        s.path@.len() > 0 ==> path_of(s) == s.path@,
        s.path@.len() == 0 ==> path_of(s) == match s.provider {
            Provider::Mock => ""@,
            Provider::TypeSafe => "/api/alpha/decisions"@,
            Provider::OpenAi => "/v1/chat/completions"@,
            Provider::OpenRouter => "/api/v1/chat/completions"@,
            Provider::LiteLlm => "/v1/chat/completions"@,
            Provider::Custom => "/v1/chat/completions"@,
            Provider::Cloudflare => match s.cloudflare_account_id {
                Some(account) => "/client/v4/accounts/"@ + account@ + "/ai/run/"@ + s.model@,
                None => "/client/v4/accounts/"@ + Seq::<char>::empty() + "/ai/run/"@ + s.model@,
            },
        },
{
}

// ---- What the judge is sent ----

/// The text is `authorization`, in any letter case.
pub open spec fn spells_authorization(h: Seq<char>) -> bool {
    h.len() == 13 && forall|i: int|
        0 <= i < 13 ==> (#[trigger] h[i]) == "authorization"@[i] || (h[i] as u32) + 32
            == "authorization"@[i] as u32
}

/// Lowering a text gives `authorization` exactly when it spells that in some letter case.
proof fn lemma_authorization(h: Seq<char>)
    ensures
        lower(h) == lower("authorization"@) <==> spells_authorization(h),
{
    reveal_strlit("authorization");
    let w = "authorization"@;
    assert(w.len() == 13);
    assert forall|i: int| 0 <= i < 13 implies 'a' <= #[trigger] w[i] <= 'z' by {}
    assert(lower(w) =~= w);
    if spells_authorization(h) {
        assert forall|i: int| 0 <= i < 13 implies lower(h)[i] == #[trigger] w[i] by {
            assert(h[i] == w[i] || (h[i] as u32) + 32 == w[i] as u32);
            assert('a' <= w[i] <= 'z');
        }
        assert(lower(h) =~= w);
    }
    if lower(h) == w {
        assert(h.len() == lower(h).len());
        assert forall|i: int| 0 <= i < 13 implies (#[trigger] h[i]) == w[i] || (h[i] as u32) + 32
            == w[i] as u32 by {
            assert(lower(h)[i] == w[i]);
        }
    }
}

/// The mock judge answers without a call, and a judge without a key gives no answer. Any other
/// is called, at its path, with its key: in `Authorization` as a bearer token, and in any other
/// header, which only a custom provider has, as it is.
pub proof fn law_call_goes_to_the_judge(e: Evaluation, s: JevSettings, state: Json)
    requires
        begins(e, s, state),
    ensures
        s.provider == Provider::Mock ==> e is Answered && e->Answered_0.model@ == "mock"@
            && behaviour_of(e->Answered_0.signals) == Some(mock_answer(state)),
        s.provider != Provider::Mock && blank(s.api_key@) ==> e is Failed && e->Failed_0 is Auth,
        s.provider != Provider::Mock && !blank(s.api_key@) ==> e is Call && ({
            let call = e->Call_0;
            &&& call.path@ == path_of(s)
            &&& call.timeout_ms == s.timeout_ms
            &&& s.provider != Provider::Custom ==> call.auth_header@ == "Authorization"@
                && call.auth_value@ == "Bearer "@ + s.api_key@
            &&& s.provider == Provider::Custom ==> call.auth_header@ == s.custom_auth_header@
            &&& s.provider == Provider::Custom && spells_authorization(s.custom_auth_header@)
                ==> call.auth_value@ == "Bearer "@ + s.api_key@
            &&& s.provider == Provider::Custom && !spells_authorization(s.custom_auth_header@)
                ==> call.auth_value@ == s.api_key@
        }),
{
    lemma_authorization(s.custom_auth_header@);
    lemma_authorization("Authorization"@);
    reveal_strlit("Authorization");
    reveal_strlit("authorization");
    assert(spells_authorization("Authorization"@));
}

/// The document that a chat model is sent: the task, and the summary as text.
pub open spec fn chat_form(model: Seq<char>, state_text: Seq<char>) -> Map<Seq<char>, Json> {
    map![
        "model"@ => Json::Text(model),
        "temperature"@ => Json::Whole(0),
        "response_format"@ => Json::Object(map!["type"@ => Json::Text("json_object"@)]),
        "messages"@ => Json::Array(
            seq![
                Json::Object(
                    map![
                        "role"@ => Json::Text("system"@),
                        "content"@ => Json::Text(CLASSIFIER_SYSTEM@),
                    ],
                ),
                Json::Object(
                    map![
                        "role"@ => Json::Text("user"@),
                        "content"@ => Json::Text("Client request summary (JSON):\n"@ + state_text),
                    ],
                ),
            ],
        ),
    ]
}

/// The document that a decisions judge is sent: the summary, and one question about it.
pub open spec fn decisions_form(model: Seq<char>, state: Json) -> Map<Seq<char>, Json> {
    map![
        "model"@ => Json::Text(model),
        "state"@ => state,
        "questions"@ => Json::Object(
            map![
                "behaviour"@ => Json::Object(
                    map![
                        "type"@ => Json::Text("choice"@),
                        "instructions"@ => Json::Text("Which option best describes the client's behaviour in `recent_requests`, given `api_purpose`? The rate, sequential-id, error-rate, and distinct-endpoint fields are already computed — use them; do not recount."@),
                        "criteria"@ => Json::Object(
                            map![
                                "normal_use"@ => Json::Text("Looks like an ordinary user or integration using the API as intended."@),
                                "enumeration"@ => Json::Text("Walks through many identifiers to discover which records exist or are accessible."@),
                                "bulk_scraping"@ => Json::Text("Systematically downloads large amounts of data."@),
                                "auth_probing"@ => Json::Text("Repeatedly tries credentials, tokens, or access to forbidden resources."@),
                                "vulnerability_probing"@ => Json::Text("Sends unusual paths or parameters that look like attack attempts."@),
                            ],
                        ),
                    ],
                ),
            ],
        ),
    ]
}

/// The keys of the two documents differ.
proof fn lemma_form_keys()
    ensures
        "messages"@.len() == 8,
        "questions"@.len() == 9,
        "state"@.len() == 5 && "state"@[0] == 's',
        "model"@.len() == 5 && "model"@[0] == 'm',
        "temperature"@.len() == 11,
        "response_format"@.len() == 15,
{
    reveal_strlit("messages");
    reveal_strlit("questions");
    reveal_strlit("state");
    reveal_strlit("model");
    reveal_strlit("temperature");
    reveal_strlit("response_format");
}

/// OpenAI, OpenRouter, LiteLLM and a custom provider are sent a chat document, whose last
/// message holds the text of the summary, and no questions. TypeSafe and Cloudflare are sent
/// the summary itself with the questions, and no messages.
pub proof fn law_judge_is_sent_its_format(call: JudgeCall, s: JevSettings, state: Json)
    requires
        begins(Evaluation::Call(call), s, state),
    ensures
        s.provider == Provider::OpenAi || s.provider == Provider::OpenRouter || s.provider
            == Provider::LiteLlm || s.provider == Provider::Custom ==> call.payload@
            == written_bytes(Json::Object(chat_form(s.model@, written_text(state)))),
        s.provider == Provider::TypeSafe || s.provider == Provider::Cloudflare ==> call.payload@
            == written_bytes(Json::Object(decisions_form(s.model@, state))),
        !chat_form(s.model@, written_text(state)).dom().contains("questions"@),
        !chat_form(s.model@, written_text(state)).dom().contains("state"@),
        !decisions_form(s.model@, state).dom().contains("messages"@),
        decisions_form(s.model@, state).dom().contains("state"@),
        decisions_form(s.model@, state)["state"@] == state,
{
    lemma_form_keys();
    assert(chat_request(s.model@, state) == Json::Object(chat_form(s.model@, written_text(state))));
    assert(typesafe_request(s.model@, state) == Json::Object(decisions_form(s.model@, state)));
}

/// The documents that are built are these, for every model and every summary.
pub proof fn law_documents_in_full(model: Seq<char>, state_text: Seq<char>, state: Json)
    ensures
        chat_document(model, state_text) == Json::Object(chat_form(model, state_text)),
        chat_request(model, state) == Json::Object(chat_form(model, written_text(state))),
        typesafe_request(model, state) == Json::Object(decisions_form(model, state)),
{
}

/// A chat model is told its task in these words.
pub proof fn law_task_in_full()
    ensures
        CLASSIFIER_SYSTEM@ == "You are a traffic-abuse classifier for an API gateway. \
You are given a code-computed summary of one client's recent requests to an API, plus the API's purpose. \
The counts, rates, and flags in the summary are already computed for you — do not recount them; classify the intent. \
Reply with ONLY a JSON object, no prose, with keys: \
\"behaviour\": one of \"normal_use\",\"enumeration\",\"bulk_scraping\",\"auth_probing\",\"vulnerability_probing\" \
(normal_use = an ordinary user or integration using the API as intended; \
enumeration = walking through many identifiers to discover which records exist or are accessible; \
bulk_scraping = systematically downloading large amounts of data; \
auth_probing = repeatedly trying credentials, tokens, or access to forbidden resources; \
vulnerability_probing = sending unusual paths or parameters that look like attack attempts), \
\"confidence\": number 0..1."@,
{
}

// ---- How replies are read ----

/// The number of a document, moved into the range from 0 to 1, where it is a number.
pub open spec fn unit_number(j: Json) -> Option<u64> {
    match j {
        Json::Whole(n) => Some(
            if n >= 1 {
                0x3FF0_0000_0000_0000u64
            } else {
                0u64
            },
        ),
        Json::Real(bits) => Some(clamp_unit(bits)),
        _ => None,
    }
}

/// The number that lies under a key, moved into the range from 0 to 1, and 0 without one.
pub open spec fn unit_under(m: Map<Seq<char>, Json>, key: Seq<char>) -> u64 {
    if m.dom().contains(key) && unit_number(m[key]) is Some {
        unit_number(m[key])->0
    } else {
        0
    }
}

/// Whatever text a classifier tells as the behaviour is its choice, with the confidence that it
/// tells, moved into the range from 0 to 1, and with none where it tells no number. Without such
/// a text there is no choice.
pub proof fn law_classifier_reply_is_read(reply: Map<Seq<char>, Json>, choice: Seq<char>)
    ensures
        reply.dom().contains("behaviour"@) && reply["behaviour"@] == Json::Text(choice)
            ==> classifier_answer(Json::Object(reply)) == Some(
            (choice, unit_under(reply, "confidence"@)),
        ),
        !reply.dom().contains("behaviour"@) || !(reply["behaviour"@] is Text)
            ==> classifier_answer(Json::Object(reply)) is None,
        forall|j: Json| !(j is Object) ==> (#[trigger] classifier_answer(j)) is None,
{
}

/// What lies at the place of the message in a chat reply.
proof fn lemma_content_place(j: Json)
    ensures
        at_pointer(j, "/choices/0/message/content"@) == under(
            j,
            seq!["choices"@, "0"@, "message"@, "content"@],
        ),
{
    reveal_strlit("choices");
    reveal_strlit("0");
    reveal_strlit("message");
    reveal_strlit("content");
    reveal_strlit("/choices/0/message/content");
    let keys = seq!["choices"@, "0"@, "message"@, "content"@];
    reveal_with_fuel(join, 5);
    assert(keys.drop_last() =~= seq!["choices"@, "0"@, "message"@]);
    assert(keys.drop_last().drop_last() =~= seq!["choices"@, "0"@]);
    assert(keys.drop_last().drop_last().drop_last() =~= seq!["choices"@]);
    assert("/choices/0/message/content"@ =~= seq!['/'] + join(keys, '/'));
    lemma_pointer_keys(j, keys);
}

/// A chat reply is read from the text of the message of its first choice: what that text is as
/// JSON is the classifier's reply. A reply without such a text, and a text that is no JSON, are
/// errors that say so.
pub proof fn law_chat_reply_is_read(
    body: Seq<u8>,
    reply: Map<Seq<char>, Json>,
    choices: Seq<Json>,
    first: Map<Seq<char>, Json>,
    told: Map<Seq<char>, Json>,
)
    requires
        read_bytes(body) == Ok::<Json, Seq<char>>(Json::Object(reply)),
        reply.dom().contains("choices"@),
        reply["choices"@] == Json::Array(choices),
        choices.len() > 0,
        choices[0] == Json::Object(first),
        first.dom().contains("message"@),
        first["message"@] == Json::Object(told),
    ensures
        told.dom().contains("content"@) && told["content"@] is Text ==> chat_answer(body)
            == match read_text(told["content"@]->Text_0) {
            Ok(parsed) => Ok::<Option<(Seq<char>, u64)>, Failure>(classifier_answer(parsed)),
            Err(reason) => Err(Failure::Decode("content not JSON: "@ + reason)),
        },
        !told.dom().contains("content"@) || !(told["content"@] is Text) ==> chat_answer(body)
            == Err::<Option<(Seq<char>, u64)>, Failure>(
            Failure::Decode("no choices[0].message.content"@),
        ),
{
    let j = Json::Object(reply);
    let keys = seq!["choices"@, "0"@, "message"@, "content"@];
    lemma_content_place(j);
    reveal_with_fuel(under, 5);
    assert(keys.skip(1) =~= seq!["0"@, "message"@, "content"@]);
    assert(keys.skip(1).skip(1) =~= seq!["message"@, "content"@]);
    assert(keys.skip(1).skip(1).skip(1) =~= seq!["content"@]);
    assert(keys.skip(1).skip(1).skip(1).skip(1) =~= Seq::empty());
    reveal_strlit("0");
    reveal_with_fuel(number, 2);
    assert("0"@.drop_last() =~= Seq::empty());
    assert(number("0"@) == 0);
    assert(numeric("0"@));
    assert(index_token("0"@));
}

/// The message of any chat reply is the text under `content`, under `message`, in the first of
/// its `choices`, and there is none where one of these is missing or is no text.
pub proof fn law_message_is_at_its_place(j: Json)
    ensures
        content_in(j) == (match child(j, "choices"@) {
            Some(choices) => match child(choices, "0"@) {
                Some(first) => match child(first, "message"@) {
                    Some(told) => match child(told, "content"@) {
                        Some(Json::Text(content)) => Some(content),
                        _ => None,
                    },
                    None => None,
                },
                None => None,
            },
            None => None,
        }),
        forall|body: Seq<u8>|
            read_bytes(body) == Ok::<Json, Seq<char>>(j) && content_in(j) is None ==> (
            #[trigger] chat_answer(body)) == Err::<Option<(Seq<char>, u64)>, Failure>(
                Failure::Decode("no choices[0].message.content"@),
            ),
{
    lemma_content_place(j);
    let keys = seq!["choices"@, "0"@, "message"@, "content"@];
    reveal_with_fuel(under, 5);
    assert(keys.skip(1) =~= seq!["0"@, "message"@, "content"@]);
    assert(keys.skip(1).skip(1) =~= seq!["message"@, "content"@]);
    assert(keys.skip(1).skip(1).skip(1) =~= seq!["content"@]);
    assert(keys.skip(1).skip(1).skip(1).skip(1) =~= Seq::empty());
}

/// A body that is no JSON is an error that gives the reason, in both formats.
pub proof fn law_unreadable_reply_says_why(body: Seq<u8>, reason: Seq<char>)
    requires
        read_bytes(body) == Err::<Json, Seq<char>>(reason),
    ensures
        chat_answer(body) == Err::<Option<(Seq<char>, u64)>, Failure>(Failure::Decode(reason)),
        typesafe_answer(body) == Err::<Option<(Seq<char>, u64)>, Failure>(Failure::Decode(reason)),
{
}

/// Whatever text a decisions reply tells as the choice of the behaviour is the choice. The
/// confidence is the number that is told as such, or else the number that is told as the
/// probability of that choice, moved into the range from 0 to 1, and 0 without either.
pub proof fn law_decisions_reply_is_read(
    body: Seq<u8>,
    answers: Map<Seq<char>, Json>,
    answer: Map<Seq<char>, Json>,
    choice: Seq<char>,
)
    requires
        read_bytes(body) == Ok::<Json, Seq<char>>(Json::Object(answers)),
        !answers.dom().contains("answers"@),
        answers.dom().contains("behaviour"@),
        answers["behaviour"@] == Json::Object(answer),
    ensures
        answer.dom().contains("choice"@) && answer["choice"@] == Json::Text(choice)
            ==> typesafe_answer(body) == Ok::<Option<(Seq<char>, u64)>, Failure>(
            Some(
                (
                    choice,
                    if answer.dom().contains("confidence"@) && unit_number(
                        answer["confidence"@],
                    ) is Some {
                        unit_under(answer, "confidence"@)
                    } else if answer.dom().contains("probabilities"@) {
                        match answer["probabilities"@] {
                            Json::Object(masses) => unit_under(masses, choice),
                            Json::Array(masses) => match child(Json::Array(masses), choice) {
                                Some(mass) => match unit_number(mass) {
                                    Some(bits) => bits,
                                    None => 0,
                                },
                                None => 0,
                            },
                            _ => 0,
                        }
                    } else {
                        0
                    },
                ),
            ),
        ),
        !answer.dom().contains("choice"@) || !(answer["choice"@] is Text) ==> typesafe_answer(body)
            == Ok::<Option<(Seq<char>, u64)>, Failure>(None),
{
    lemma_reply_places(Json::Object(answers));
}

/// In a list of probabilities a choice that writes a place is told the number at that place.
pub proof fn law_listed_probability_is_at_its_place(masses: Seq<Json>, k: int)
    requires
        0 <= k < masses.len(),
    ensures
        child(Json::Array(masses), decimal(k as nat)) == Some(masses[k]),
{
    law_decimal_reads_back(k as nat);
}

/// Any decisions reply is read so: the answers are what lies under `answers`, or the reply
/// itself; the choice is the text under `choice` of the answer to the question, and without one
/// there is none; the confidence is the number under `confidence`, or else the one that lies
/// under the choice among the `probabilities`, or else 0.
pub proof fn law_decisions_reading_in_full(reply: Json)
    ensures
        ({
            let answers = if reply is Object && reply->Object_0.dom().contains("answers"@) {
                reply->Object_0["answers"@]
            } else {
                reply
            };
            let told = |key: Seq<char>|
                match child(answers, "behaviour"@) {
                    Some(answer) => child(answer, key),
                    None => None,
                };
            let number = |o: Option<Json>|
                match o {
                    Some(n) => unit_number(n),
                    None => None,
                };
            typesafe_reading(reply) == match told("choice"@) {
                Some(Json::Text(choice)) => {
                    let mass = match told("probabilities"@) {
                        Some(masses) => number(child(masses, choice)),
                        None => None,
                    };
                    Some(
                        (
                            choice,
                            match number(told("confidence"@)) {
                                Some(bits) => bits,
                                None => match mass {
                                    Some(bits) => bits,
                                    None => 0u64,
                                },
                            },
                        ),
                    )
                },
                _ => None,
            }
        }),
{
    lemma_reply_places(answers_in(reply));
}

/// Where a decisions reply nests its answers under `answers`, these are read, whatever else
/// stands beside them.
pub proof fn law_nested_answers_are_read(reply: Map<Seq<char>, Json>, answers: Json)
    requires
        reply.dom().contains("answers"@),
        reply["answers"@] == answers,
        member(answers, "answers"@) is None,
    ensures
        typesafe_reading(Json::Object(reply)) == typesafe_reading(answers),
{
}

/// A reply is read in the format in which its provider was asked, and only one with a status
/// from 200 to 299 is read. Any other is an error by its status.
pub proof fn law_reply_is_read_in_its_format(s: JevSettings, status: u16, body: Seq<u8>)
    ensures
        200 <= status <= 299 && (s.provider == Provider::OpenAi || s.provider
            == Provider::OpenRouter || s.provider == Provider::LiteLlm || s.provider
            == Provider::Custom) ==> reply_answer(s, status, body) == chat_answer(body),
        200 <= status <= 299 && (s.provider == Provider::TypeSafe || s.provider
            == Provider::Cloudflare) ==> reply_answer(s, status, body) == typesafe_answer(body),
        !(200 <= status <= 299) ==> reply_answer(s, status, body) == Err::<
            Option<(Seq<char>, u64)>,
            Failure,
        >(
            if status == 401 || status == 403 {
                Failure::Auth
            } else if status == 429 {
                Failure::RateLimited
            } else if status == 529 {
                Failure::Overloaded
            } else {
                Failure::Upstream(status)
            },
        ),
        status_failure(status) is None <==> 200 <= status <= 299,
{
}

/// An answer comes with the model that was asked, and an error is the one that the reply is.
pub proof fn law_answer_names_its_model(
    r: Result<JevResult, JevError>,
    s: JevSettings,
    status: u16,
    body: Seq<u8>,
)
    requires
        ends(r, s, status, body),
    ensures
        r is Ok <==> reply_answer(s, status, body) is Ok,
        r matches Ok(res) ==> res.model@ == s.model@ && behaviour_of(res.signals) == reply_answer(
            s,
            status,
            body,
        )->Ok_0,
        r matches Err(e) ==> failure_of(e) == reply_answer(s, status, body)->Err_0,
{
}

/// What is read is seen in full: the choice and confidence of an answer, and each error as
/// itself.
pub proof fn law_outcome_is_seen_in_full(sig: Signals, e: JevError)
    ensures
        answer_of(Ok(sig)) == Ok::<Option<(Seq<char>, u64)>, Failure>(behaviour_of(sig)),
        answer_of(Err(e)) == Err::<Option<(Seq<char>, u64)>, Failure>(
            match e {
                JevError::Timeout => Failure::Timeout,
                JevError::RateLimited => Failure::RateLimited,
                JevError::Overloaded => Failure::Overloaded,
                JevError::Auth => Failure::Auth,
                JevError::Upstream(status) => Failure::Upstream(status),
                JevError::Decode(reason) => Failure::Decode(reason@),
                JevError::Disabled => Failure::Disabled,
            },
        ),
{
}

// ---- The mock judge ----

/// Under the key of a summary stands this word.
pub open spec fn says(state: Map<Seq<char>, Json>, key: Seq<char>, word: Seq<char>) -> bool {
    state.dom().contains(key) && state[key] == Json::Text(word)
}

/// The words of a summary differ.
proof fn lemma_words()
    ensures
        "low"@.len() == 3,
        "few"@.len() == 3,
        "high"@.len() == 4,
        "very high"@.len() == 9,
        "many"@.len() == 4,
        "some"@.len() == 4,
{
    reveal_strlit("low");
    reveal_strlit("few");
    reveal_strlit("high");
    reveal_strlit("very high");
    reveal_strlit("many");
    reveal_strlit("some");
}

/// To any summary the mock judge answers: enumeration, with a confidence of 0.9, where it shows
/// sequential ids and a high error rate or a high or very high request rate; else, at a high
/// error rate, probing of access, with 0.85; else, at a high or very high request rate over some
/// or many endpoints, scraping, with 0.8; and else normal use, with 0.95.
pub proof fn law_mock_answers_by_the_flags(state: Map<Seq<char>, Json>)
    ensures
        ({
            let walks = state.dom().contains("sequential_ids"@) && state["sequential_ids"@]
                == Json::Bool(true);
            let fails = says(state, "error_rate"@, "high"@);
            let fast = says(state, "request_rate"@, "high"@) || says(
                state,
                "request_rate"@,
                "very high"@,
            );
            let wide = says(state, "distinct_endpoints"@, "some"@) || says(
                state,
                "distinct_endpoints"@,
                "many"@,
            );
            mock_answer(Json::Object(state)) == if walks && (fails || fast) {
                ("enumeration"@, 0x3FEC_CCCC_CCCC_CCCDu64)
            } else if fails {
                ("auth_probing"@, 0x3FEB_3333_3333_3333u64)
            } else if fast && wide {
                ("bulk_scraping"@, 0x3FE9_9999_9999_999Au64)
            } else {
                ("normal_use"@, 0x3FEE_6666_6666_6666u64)
            }
        }),
        forall|j: Json|
            !(j is Object) ==> (#[trigger] mock_answer(j)) == (
                "normal_use"@,
                0x3FEE_6666_6666_6666u64,
            ),
{
    lemma_words();
}

// ---- Budget ----

/// A text of no more than four characters for each token stays as it is, and so does any text
/// without a budget. Of a longer one the first seven tenths of the budget and the last three
/// tenths stay, with a mark between.
pub proof fn law_budget_keeps_head_and_tail(text: Seq<char>, max_tokens: usize)
    requires
        text.len() <= usize::MAX,
    ensures
        ({
            let budget = max_tokens as int * 4;
            let head = budget * 7 / 10;
            &&& over_budget(text, max_tokens) <==> max_tokens > 0 && text.len() > budget
            &&& max_tokens == 0 || text.len() <= budget ==> budgeted(text, max_tokens) == text
            &&& max_tokens > 0 && text.len() > budget ==> budgeted(text, max_tokens)
                == text.subrange(0, head) + "\n[… truncated by gateway …]\n"@ + text.subrange(
                text.len() - (budget - head),
                text.len() as int,
            )
        }),
{
    if max_tokens > 0 && text.len() > max_tokens as int * 4 {
        let budget = max_tokens as int * 4;
        let head = budget * 7 / 10;
        assert(text.take(head) =~= text.subrange(0, head));
        assert(text.skip(text.len() - (budget - head)) =~= text.subrange(
            text.len() - (budget - head),
            text.len() as int,
        ));
        assert(CUT_MARK@ == "\n[… truncated by gateway …]\n"@);
    }
}

} // verus!
