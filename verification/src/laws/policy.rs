//! Laws of one exchange: settings, headers, the way to a verdict, what is done about it, and
//! what is kept of it.

use crate::common::{mode_of, Mode};
use crate::config::Config;
use crate::double::at_least;
use crate::jev::{JevError, JevResult, JevSettings, Provider};
use crate::json::{json, written_text, Json};
use crate::laws::jev::law_provider_has_one_name;
use crate::laws::screen::{
    law_buckets_follow_from_counts, law_every_4xx_is_an_error, law_rate_counts_the_last_minute,
};
use crate::policy::{
    acts, client_key_of, configured_mode, configures, header_views, key_expression_of, key_header_of, max_clients_of,
    min_confidence_of, misses_judge, mock_refused, opens, period_of, recorded, recorded_rejection,
    rejection_body, rejects, reserved, state_of, step_of, stripped, summary, takes, thresholds_of,
    untouched, window_size_of, writes_rejection, writes_response, Action, Ctx, Opening, Plan,
    Rejection, Step, WindowState, HDR_PREFIX, WINDOW_TTL_SECS,
};
use crate::screen::{
    first_id, ladder, recent_lines, segments, summarises, template_of, Buckets, ClientWindow,
    ErrorBucket, RateBucket, RateThresholds, RequestRecord,
};
use crate::text::{
    blank, decimal, has_prefix, lemma_split_pieces, lemma_split_whole, lower, split, trim_end,
    trim_start, upper, uppercase, views, white_space,
};
use vstd::prelude::*;
use vstd::string::*;

verus! {

// ---- Settings ----

/// A number that is configured counts where it is at least the least that makes sense, and else
/// that least. Without one there is a default.
pub open spec fn counts(r: int, configured: Option<i64>, default: int, least: int) -> bool {
    match configured {
        Some(n) => if n >= least {
            r == n
        } else {
            r == least
        },
        None => r == default,
    }
}

/// The numbers of the configuration count as they are given, but for their least values.
pub proof fn law_configured_numbers_count(cfg: Config)
    ensures
        counts(period_of(cfg) as int, cfg.reevaluate_seconds, 60, 1),
        cfg.window_size matches Some(n) && n > usize::MAX || counts(
            window_size_of(cfg) as int,
            cfg.window_size,
            30,
            1,
        ),
        cfg.max_tracked_clients matches Some(n) && n > usize::MAX || counts(
            max_clients_of(cfg) as int,
            cfg.max_tracked_clients,
            10_000,
            1,
        ),
        cfg.min_confidence matches Some(d) ==> min_confidence_of(cfg) == d.bits,
        cfg.min_confidence is None ==> min_confidence_of(cfg) == 0x3FE3_3333_3333_3333,
        cfg.rate_buckets matches Some(v) ==> thresholds_of(cfg) == ladder(v@),
        cfg.rate_buckets is None ==> thresholds_of(cfg) == (RateThresholds {
            medium: 20,
            high: 40,
            very_high: 80,
        }),
{
}

/// An idle client's window is kept for ten minutes.
pub proof fn law_idle_window_is_kept_ten_minutes()
    ensures
        WINDOW_TTL_SECS == 10 * 60,
{
}

/// The judge is reached as the configuration says, each setting by its own property.
pub proof fn law_judge_is_reached_as_configured(s: JevSettings, cfg: Config)
    requires
        configures(s, cfg),
    ensures
        cfg.jev_provider is None ==> s.provider == Provider::TypeSafe,
        cfg.jev_provider matches Some(name) ==> {
            &&& s.provider == Provider::Mock <==> name@ == "mock"@
            &&& s.provider == Provider::OpenAi <==> name@ == "openai"@
            &&& s.provider == Provider::OpenRouter <==> name@ == "openrouter"@
            &&& s.provider == Provider::LiteLlm <==> name@ == "litellm"@
            &&& s.provider == Provider::Cloudflare <==> name@ == "cloudflare"@
            &&& s.provider == Provider::Custom <==> name@ == "custom"@
        },
        cfg.jev_model matches Some(t) ==> s.model@ == t@,
        cfg.jev_model is None ==> s.model@ == "~typesafe/jev-latest"@,
        cfg.jev_path matches Some(t) ==> s.path@ == t@,
        cfg.jev_path is None ==> s.path@.len() == 0,
        cfg.jev_api_key matches Some(t) ==> s.api_key@ == t@,
        cfg.jev_api_key is None ==> s.api_key@.len() == 0,
        cfg.custom_auth_header matches Some(t) ==> s.custom_auth_header@ == t@,
        cfg.custom_auth_header is None ==> s.custom_auth_header@ == "Authorization"@,
        counts(s.timeout_ms as int, cfg.jev_timeout_ms, 600, 1),
        cfg.max_state_tokens matches Some(n) && n > usize::MAX || counts(
            s.max_state_tokens as int,
            cfg.max_state_tokens,
            24_000,
            256,
        ),
        s.cloudflare_account_id is Some <==> cfg.cloudflare_account_id is Some,
        s.cloudflare_account_id matches Some(t) ==> t@ == cfg.cloudflare_account_id->0@,
{
    if let Some(name) = cfg.jev_provider {
        law_provider_has_one_name(name@);
    } else {
        law_provider_has_one_name("typesafe"@);
        reveal_strlit("typesafe");
        reveal_strlit("mock");
        reveal_strlit("openai");
        reveal_strlit("openrouter");
        reveal_strlit("litellm");
        reveal_strlit("cloudflare");
        reveal_strlit("custom");
        assert("typesafe"@.len() == 8 && "mock"@.len() == 4 && "openai"@.len() == 6);
        assert("openrouter"@.len() == 10 && "litellm"@.len() == 7);
        assert("cloudflare"@.len() == 10 && "custom"@.len() == 6);
    }
}

/// Only `enforce` enforces and only `off` switches off. Any other name, and none, is shadow.
pub proof fn law_mode_goes_by_its_name(name: Seq<char>, cfg: Config)
    ensures
        mode_of(name) == Mode::Enforce <==> name == "enforce"@,
        mode_of(name) == Mode::Off <==> name == "off"@,
        configured_mode(cfg) == Mode::Enforce <==> cfg.mode is Some && cfg.mode->0@ == "enforce"@,
        configured_mode(cfg) == Mode::Off <==> cfg.mode is Some && cfg.mode->0@ == "off"@,
{
    reveal_strlit("enforce");
    reveal_strlit("off");
    reveal_strlit("shadow");
    assert("enforce"@.len() == 7 && "off"@.len() == 3 && "shadow"@.len() == 6);
}

/// An exchange passes without being looked at exactly where the policy is off. It keeps nothing
/// of the request.
pub proof fn law_off_looks_at_nothing(r: Option<Ctx>, cfg: Config)
    requires
        untouched(r, cfg),
    ensures
        r is Some <==> cfg.mode is Some && cfg.mode->0@ == "off"@,
        r matches Some(ctx) ==> !ctx.enabled && !ctx.classified && !ctx.asked && !ctx.judged
            && ctx.client_key@.len() == 0 && ctx.method@.len() == 0 && ctx.path_template@.len()
            == 0 && ctx.id is None && ctx.ts_ms == 0 && ctx.verdict@.len() == 0,
{
    law_mode_goes_by_its_name("off"@, cfg);
}

// ---- Headers ----

/// A name starts with `x-jev-`, in any letter case.
pub open spec fn starts_x_jev(name: Seq<char>) -> bool {
    &&& name.len() >= 6
    &&& name[0] == 'x' || name[0] == 'X'
    &&& name[1] == '-'
    &&& name[2] == 'j' || name[2] == 'J'
    &&& name[3] == 'e' || name[3] == 'E'
    &&& name[4] == 'v' || name[4] == 'V'
    &&& name[5] == '-'
}

/// The reserved names are those that start with `x-jev-`.
proof fn lemma_reserved(name: Seq<char>)
    ensures
        reserved(name) == starts_x_jev(name),
{
    reveal_strlit("x-jev-");
    let p = HDR_PREFIX@;
    let l = lower(name);
    assert(p.len() == 6);
    assert(p[0] == 'x' && p[1] == '-' && p[2] == 'j' && p[3] == 'e' && p[4] == 'v' && p[5] == '-');
    if name.len() >= 6 {
        if starts_x_jev(name) {
            assert(l[0] == 'x' && l[1] == '-' && l[2] == 'j' && l[3] == 'e' && l[4] == 'v' && l[5]
                == '-');
            assert(l.take(6) =~= p);
        }
        if reserved(name) {
            assert(l.take(6)[0] == 'x' && l.take(6)[1] == '-' && l.take(6)[2] == 'j');
            assert(l.take(6)[3] == 'e' && l.take(6)[4] == 'v' && l.take(6)[5] == '-');
            assert(l[0] == 'x' && l[1] == '-' && l[2] == 'j' && l[3] == 'e' && l[4] == 'v' && l[5]
                == '-');
        }
    }
}

/// One header more is taken off exactly when its name starts with `x-jev-`, in any letter case,
/// and the configuration does not keep such headers.
pub proof fn law_one_header_more(cfg: Config, names: Seq<Seq<char>>, name: Seq<char>)
    ensures
        stripped(cfg, Seq::empty()).len() == 0,
        stripped(cfg, names.push(name)) == if cfg.strip_client_jev_headers != Some(false)
            && starts_x_jev(name) {
            stripped(cfg, names).push(name)
        } else {
            stripped(cfg, names)
        },
{
    reveal(Seq::filter);
    lemma_reserved(name);
    assert(names.push(name).drop_last() =~= names);
}

/// The expression is the one that is configured, and `header:x-api-key` without one.
pub proof fn law_configured_expression_counts(cfg: Config)
    ensures
        cfg.client_key_expression matches Some(t) ==> key_expression_of(cfg) == t@,
        cfg.client_key_expression is None ==> key_expression_of(cfg) == "header:x-api-key"@,
{
}

/// The header that holds the key is the one that the expression names: after `header:` or
/// `claim:`, or as it is. For `ip` it is the list of hops, and without an expression the API key.
pub proof fn law_expression_names_the_header(name: Seq<char>)
    ensures
        key_header_of("ip"@) == "x-forwarded-for"@,
        key_header_of(Seq::empty()) == "x-api-key"@,
        key_header_of("header:"@ + name) == name,
        key_header_of("claim:"@ + name) == name,
        name.len() > 0 && name != "ip"@ && !has_prefix(name, "header:"@) && !has_prefix(
            name,
            "claim:"@,
        ) ==> key_header_of(name) == name,
{
    reveal_strlit("ip");
    reveal_strlit("header:");
    reveal_strlit("claim:");
    assert("ip"@.len() == 2 && "header:"@.len() == 7 && "claim:"@.len() == 6);
    assert(("header:"@ + name).take(7) =~= "header:"@);
    assert(("header:"@ + name).skip(7) =~= name);
    assert(("claim:"@ + name).take(6) =~= "claim:"@);
    assert(("claim:"@ + name).skip(6) =~= name);
    assert(("header:"@ + name)[0] == 'h');
    assert(("claim:"@ + name)[0] == 'c');
    assert("header:"@[0] == 'h');
    if has_prefix("claim:"@ + name, "header:"@) {
        assert(("claim:"@ + name).take(7)[0] == 'c');
    }
}

/// A client found by a header has what that holds as its key, as it is. One found by its address
/// has the first hop, without white space around it, and without hops its real address. One
/// whose key is blank is anonymous.
pub proof fn law_key_is_what_the_header_holds(
    expr: Seq<char>,
    value: Seq<char>,
    hop: Seq<char>,
    rest: Seq<char>,
    real_ip: Seq<char>,
)
    requires
        !hop.contains(','),
        rest.len() == 0 || rest[0] == ',',
    ensures
        expr != "ip"@ ==> client_key_of(expr, value, real_ip) == if forall|i: int|
            0 <= i < value.len() ==> white_space(#[trigger] value[i]) {
            "anonymous"@
        } else {
            value
        },
        hop.len() + rest.len() > 0 ==> client_key_of("ip"@, hop + rest, real_ip) == if blank(
            trim_end(trim_start(hop)),
        ) {
            "anonymous"@
        } else {
            trim_end(trim_start(hop))
        },
        client_key_of("ip"@, Seq::empty(), real_ip) == if forall|i: int|
            0 <= i < real_ip.len() ==> white_space(#[trigger] real_ip[i]) {
            "anonymous"@
        } else {
            real_ip
        },
{
    lemma_first_hop(hop, rest);
}

/// The first hop of a list stands before its first comma.
proof fn lemma_first_hop(hop: Seq<char>, rest: Seq<char>)
    requires
        !hop.contains(','),
        rest.len() == 0 || rest[0] == ',',
    ensures
        split(hop + rest, ',')[0] == hop,
        rest.len() > 0 ==> split(hop + rest, ',').len() >= 2,
    decreases rest.len(),
{
    if rest.len() == 0 {
        assert(hop + rest =~= hop);
        lemma_split_whole(hop, ',');
    } else {
        let c = rest.drop_last();
        assert((hop + rest).drop_last() =~= hop + c);
        assert((hop + rest).last() == rest.last());
        lemma_split_pieces(hop + c, ',');
        if c.len() > 0 {
            assert(c[0] == rest[0]);
        }
        lemma_first_hop(hop, c);
    }
}

// ---- The way to a verdict ----

/// The judge may be asked: it is not the mock, or the mock is allowed.
pub open spec fn may_ask(cfg: Config) -> bool {
    !(cfg.jev_provider is Some && cfg.jev_provider->0@ == "mock"@) || cfg.allow_mock == Some(true)
}

/// The window holds a verdict that was reached less than the configured seconds before `now`.
pub open spec fn holds_verdict(cfg: Config, w: WindowState, now: u64) -> bool {
    w.verdict is Some && now - w.last_eval_ms < period_of(cfg) * 1000
}

/// The window holds a call of the judge less than the configured seconds before `now`.
pub open spec fn holds_call(cfg: Config, w: WindowState, now: u64) -> bool {
    w.last_call_ms is Some && now - w.last_call_ms->0 < period_of(cfg) * 1000
}

/// A verdict that is held is used again, whatever the traffic. Without one the judge is asked,
/// about this window, exactly where the rate is at least medium or the share of errors high, it
/// was not asked within the period, and it may be asked. In anything else the client is in order.
pub proof fn law_way_to_a_verdict(cfg: Config, w: WindowState, b: Buckets, now: u64)
    ensures
        holds_verdict(cfg, w, now) ==> step_of(cfg, w, b, now) == Step::Settled(w.verdict->0),
        !holds_verdict(cfg, w, now) && (b.rate == RateBucket::Medium || b.rate == RateBucket::High
            || b.rate == RateBucket::VeryHigh || b.error == ErrorBucket::High) && !holds_call(
            cfg,
            w,
            now,
        ) && may_ask(cfg) ==> step_of(cfg, w, b, now) is Ask,
        !holds_verdict(cfg, w, now) && (b.rate == RateBucket::Low && b.error != ErrorBucket::High
            || holds_call(cfg, w, now) || !may_ask(cfg)) ==> step_of(cfg, w, b, now)
            == Step::Settled("normal_use"@),
{
    lemma_may_ask(cfg);
}

/// The judge is missed exactly where it would be asked but for being a mock that is not allowed.
pub proof fn law_judge_is_missed_for_want_of_leave(
    cfg: Config,
    w: WindowState,
    b: Buckets,
    now: u64,
)
    ensures
        misses_judge(cfg, w, b, now) <==> !holds_verdict(cfg, w, now) && !holds_call(cfg, w, now)
            && (b.rate == RateBucket::Medium || b.rate == RateBucket::High || b.rate
            == RateBucket::VeryHigh || b.error == ErrorBucket::High) && !may_ask(cfg),
{
    lemma_may_ask(cfg);
}

/// The mock judge is refused exactly where the judge may not be asked.
proof fn lemma_may_ask(cfg: Config)
    ensures
        mock_refused(cfg) == !may_ask(cfg),
{
    if let Some(name) = cfg.jev_provider {
        law_provider_has_one_name(name@);
    } else {
        law_provider_has_one_name("typesafe"@);
        reveal_strlit("typesafe");
        reveal_strlit("mock");
        assert("typesafe"@.len() == 8 && "mock"@.len() == 4);
    }
}

/// What the judge is asked about is the summary: the purpose of the API as configured, the lines
/// of the newest records, and the words and flags of the buckets.
pub proof fn law_judge_is_asked_about_the_summary(
    cfg: Config,
    w: WindowState,
    b: Buckets,
    now: u64,
    j: Json,
)
    requires
        step_of(cfg, w, b, now) == Step::Ask(j),
    ensures
        j is Object,
        ({
            let m = j->Object_0;
            let lines = recent_lines(w.records, window_size_of(cfg) as int);
            &&& m.dom() =~= set![
                "api_purpose"@,
                "recent_requests"@,
                "request_rate"@,
                "sequential_ids"@,
                "error_rate"@,
                "distinct_endpoints"@,
            ]
            &&& cfg.api_purpose matches Some(t) ==> m["api_purpose"@] == Json::Text(t@)
            &&& cfg.api_purpose is None ==> m["api_purpose"@] == Json::Text(Seq::empty())
            &&& m["recent_requests"@] is Array
            &&& m["recent_requests"@]->Array_0.len() == lines.len()
            &&& forall|k: int|
                0 <= k < lines.len() ==> #[trigger] m["recent_requests"@]->Array_0[k]
                    == Json::Text(lines[k])
            &&& m["request_rate"@] == Json::Text(b.rate.spelled())
            &&& m["sequential_ids"@] == Json::Bool(b.sequential_ids)
            &&& m["error_rate"@] == Json::Text(b.error.spelled())
            &&& m["distinct_endpoints"@] == Json::Text(b.distinct.spelled())
        }),
{
    lemma_summary_keys();
}

/// The summary tells these things, for any purpose and any lines.
pub proof fn law_summary_in_full(purpose: Seq<char>, lines: Seq<Seq<char>>, b: Buckets)
    ensures
        ({
            let texts = lines.map_values(|line: Seq<char>| Json::Text(line));
            summary(purpose, lines, b) == Json::Object(
                map![
                    "api_purpose"@ => Json::Text(purpose),
                    "recent_requests"@ => Json::Array(texts),
                    "request_rate"@ => Json::Text(b.rate.spelled()),
                    "sequential_ids"@ => Json::Bool(b.sequential_ids),
                    "error_rate"@ => Json::Text(b.error.spelled()),
                    "distinct_endpoints"@ => Json::Text(b.distinct.spelled()),
                ],
            )
        }),
{
}

/// The keys of a summary differ in length.
proof fn lemma_summary_keys()
    ensures
        "api_purpose"@.len() == 11,
        "recent_requests"@.len() == 15,
        "request_rate"@.len() == 12,
        "sequential_ids"@.len() == 14,
        "error_rate"@.len() == 10,
        "distinct_endpoints"@.len() == 18,
{
    reveal_strlit("api_purpose");
    reveal_strlit("recent_requests");
    reveal_strlit("request_rate");
    reveal_strlit("sequential_ids");
    reveal_strlit("error_rate");
    reveal_strlit("distinct_endpoints");
}

/// A request is opened with what it is: its client, its method in capitals, the template and id
/// of its path, and its time. The verdict is settled or left to the judge as the window before it
/// says; while it is left, the client is in order. The client is classified exactly where a
/// verdict is held or the traffic is fast or failing.
pub proof fn law_request_is_opened(
    r: Opening,
    cfg: Config,
    method: Seq<char>,
    path: Seq<char>,
    client_key: String,
    w: WindowState,
    now: u64,
)
    requires
        opens(r, cfg, method, path, client_key, w, now),
    ensures
        summarises(r.buckets, w.records, now, thresholds_of(cfg)),
        r.plan is Ask <==> step_of(cfg, w, r.buckets, now) is Ask,
        r.plan matches Plan::Ask(v) ==> json(v) == step_of(
            cfg,
            w,
            r.buckets,
            now,
        )->Ask_0 && r.ctx.verdict@ == "normal_use"@,
        r.plan is Settled ==> r.ctx.verdict@ == step_of(cfg, w, r.buckets, now)->Settled_0,
        r.ctx.classified <==> holds_verdict(cfg, w, now) || r.buckets.rate == RateBucket::Medium
            || r.buckets.rate == RateBucket::High || r.buckets.rate == RateBucket::VeryHigh
            || r.buckets.error == ErrorBucket::High,
        r.ctx.enabled && !r.ctx.asked && !r.ctx.judged,
        r.ctx.client_key@ == client_key@,
        r.ctx.method@ == uppercase(method),
        (forall|i: int| 0 <= i < method.len() ==> (#[trigger] method[i] as u32) < 128)
            ==> r.ctx.method@ == upper(method),
        r.ctx.path_template@ == template_of(path),
        r.ctx.id == first_id(segments(path)),
        r.ctx.ts_ms == now,
{
}

/// A client that only ever meets refusals, with any statuses from 400 to 499, is judged: the judge
/// is asked about it, where no verdict is held, none was asked for within the period, and it may
/// be asked. So is a client with as many requests in the last minute as make a medium rate, even
/// if all of them went well.
pub proof fn law_suspect_is_judged(
    r: Opening,
    cfg: Config,
    method: Seq<char>,
    path: Seq<char>,
    client_key: String,
    w: WindowState,
    now: u64,
)
    requires
        opens(r, cfg, method, path, client_key, w, now),
        !holds_verdict(cfg, w, now),
        !holds_call(cfg, w, now),
        may_ask(cfg),
        w.records.len() > 0,
        (forall|i: int| 0 <= i < w.records.len() ==> 400 <= (#[trigger] w.records[i]).status <= 499)
            || w.records.len() >= thresholds_of(cfg).medium && (forall|i: int|
            0 <= i < w.records.len() ==> now - (#[trigger] w.records[i]).ts_ms < 60_000),
    ensures
        r.plan is Ask,
        r.ctx.classified,
{
    law_request_is_opened(r, cfg, method, path, client_key, w, now);
    law_every_4xx_is_an_error(r.buckets, w.records, now, thresholds_of(cfg));
    law_rate_counts_the_last_minute(r.buckets, w.records, now, thresholds_of(cfg));
    law_buckets_follow_from_counts(r.buckets, w.records, now, thresholds_of(cfg));
    law_way_to_a_verdict(cfg, w, r.buckets, now);
}

/// The window of a client is seen in full.
pub proof fn law_window_is_seen_in_full(w: ClientWindow)
    ensures
        state_of(w).records == w.records@,
        state_of(w).last_eval_ms == w.last_eval_ms,
        state_of(w).last_call_ms == w.last_call_ms,
        w.verdict is Some <==> state_of(w).verdict is Some,
        w.verdict matches Some(v) ==> state_of(w).verdict->0 == v@,
{
}

/// An answer of the judge becomes the verdict where its confidence is at least the configured
/// one, or 0.6 where none is. Any other answer, and a failure, leave the client in order. Only an
/// answer counts as a judgement, and nothing else of the exchange changes.
pub proof fn law_answer_is_taken(
    after: Ctx,
    before: Ctx,
    cfg: Config,
    answer: Result<JevResult, JevError>,
)
    requires
        takes(after, before, cfg, answer),
    ensures
        after.asked,
        after.judged <==> answer is Ok,
        answer is Err ==> after.verdict@ == "normal_use"@,
        answer matches Ok(res) ==> {
            let least = match cfg.min_confidence {
                Some(d) => d.bits,
                None => 0x3FE3_3333_3333_3333,
            };
            match res.signals.behaviour {
                Some((choice, confidence)) => if at_least(confidence.bits, least) {
                    after.verdict@ == choice@
                } else {
                    after.verdict@ == "normal_use"@
                },
                None => after.verdict@ == "normal_use"@,
            }
        },
        after.enabled == before.enabled,
        after.client_key == before.client_key,
        after.method == before.method,
        after.path_template == before.path_template,
        after.id == before.id,
        after.ts_ms == before.ts_ms,
        after.classified == before.classified,
{
}

// ---- What is done about it ----

/// In `enforce` every verdict that the configuration lists, at whatever place, is rejected with
/// 429, but for normal use.
pub proof fn law_listed_verdict_is_rejected(
    cfg: Config,
    ctx: Ctx,
    a: Action,
    listed: Vec<String>,
    i: int,
)
    requires
        acts(a, cfg, Mode::Enforce, ctx),
        cfg.block_verdicts == Some(listed),
        0 <= i < listed@.len(),
        listed@[i]@ == ctx.verdict@,
        ctx.verdict@ != "normal_use"@,
    ensures
        a.rejection is Some,
        a.rejection->0.status == 429,
{
    assert(views(listed@)[i] == ctx.verdict@);
}

/// A request is rejected only in `enforce`, for a verdict other than normal use that the
/// configuration lists. A rejection says for how many seconds the client is to stay away, and the
/// verdict. The header that tells the verdict is set exactly in `enforce` on a classified client.
pub proof fn law_action_in_full(cfg: Config, mode: Mode, ctx: Ctx, a: Action)
    requires
        acts(a, cfg, mode, ctx),
    ensures
        a.header is Some <==> mode == Mode::Enforce && ctx.classified,
        a.header matches Some(h) ==> h@ == ctx.verdict@,
        a.rejection is Some ==> mode == Mode::Enforce && ctx.verdict@ != "normal_use"@
            && cfg.block_verdicts is Some && exists|i: int|
            0 <= i < cfg.block_verdicts->0@.len() && (#[trigger] cfg.block_verdicts->0@[i])@
                == ctx.verdict@,
        a.rejection matches Some(r) ==> {
            &&& r.status == 429
            &&& r.headers@.len() == 3
            &&& r.headers@[0].0@ == "retry-after"@ && r.headers@[0].1@ == decimal(
                period_of(cfg) as nat,
            )
            &&& r.headers@[1].0@ == "content-type"@ && r.headers@[1].1@ == "application/json"@
            &&& r.headers@[2].0@ == "x-jev-abuse"@ && r.headers@[2].1@ == ctx.verdict@
            &&& r.body@ == written_text(
                Json::Object(
                    map![
                        "error"@ => Json::Text("abuse_detected"@),
                        "behaviour"@ => Json::Text(ctx.verdict@),
                        "policy"@ => Json::Text("abuse-scraping-classifier"@),
                    ],
                ),
            )
        },
{
    if let Some(r) = a.rejection {
        law_rejection_in_full(
            r,
            ctx.verdict@,
            period_of(cfg) as int,
            written_text(rejection_body(ctx.verdict@)),
        );
        let listed = cfg.block_verdicts->0@;
        let i = choose|i: int| 0 <= i < views(listed).len() && views(listed)[i] == ctx.verdict@;
        assert(listed[i]@ == ctx.verdict@);
    }
}

/// A rejection carries the seconds, the verdict and the body that it is given.
pub proof fn law_rejection_in_full(r: Rejection, verdict: Seq<char>, retry: int, body: Seq<char>)
    requires
        rejects(r, verdict, retry, body),
    ensures
        r.status == 429,
        r.headers@.len() == 3,
        r.headers@[0].0@ == "retry-after"@ && r.headers@[0].1@ == decimal(retry as nat),
        r.headers@[1].0@ == "content-type"@ && r.headers@[1].1@ == "application/json"@,
        r.headers@[2].0@ == "x-jev-abuse"@ && r.headers@[2].1@ == verdict,
        r.body@ == body,
{
    let h = header_views(r.headers@);
    assert(h.len() == 3);
    assert(h.len() == r.headers@.len());
    assert(h[0] == (r.headers@[0].0@, r.headers@[0].1@));
    assert(h[1] == (r.headers@[1].0@, r.headers@[1].1@));
    assert(h[2] == (r.headers@[2].0@, r.headers@[2].1@));
}

// ---- The window ----

/// The record tells the exchange, answered with `status`.
pub open spec fn tells(r: RequestRecord, ctx: Ctx, status: u16) -> bool {
    &&& r.method@ == ctx.method@
    &&& r.path_template@ == ctx.path_template@
    &&& r.id == ctx.id
    &&& r.status == status
    &&& r.ts_ms == ctx.ts_ms
}

/// The newest of `before`, one less than the window keeps at most, and behind them a record that
/// tells the exchange.
pub open spec fn appended(
    after: Seq<RequestRecord>,
    before: Seq<RequestRecord>,
    ctx: Ctx,
    status: u16,
    window_size: usize,
) -> bool {
    &&& after.len() > 0
    &&& tells(after.last(), ctx, status)
    &&& before.len() < window_size ==> after.len() == before.len() + 1
    &&& window_size > 0 && before.len() >= window_size ==> after.len() == window_size
    &&& forall|k: int|
        0 <= k < after.len() - 1 ==> #[trigger] after[k] == before[before.len() + 1 - after.len()
            + k]
}

/// The outcome of every exchange that is looked at is appended to the window. The verdict and its
/// time change exactly where the judge answered, and the time of the last call, which never goes
/// back, only where it was asked.
pub proof fn law_outcome_is_recorded(w: WindowState, ctx: Ctx, status: u16, window_size: usize)
    ensures
        ({
            let after = recorded(w, ctx, status, window_size);
            &&& appended(after.records, w.records, ctx, status, window_size)
            &&& ctx.judged ==> after.verdict == Some(ctx.verdict@) && after.last_eval_ms
                == ctx.ts_ms
            &&& !ctx.judged ==> after.verdict == w.verdict && after.last_eval_ms == w.last_eval_ms
            &&& !ctx.asked ==> after.last_call_ms == w.last_call_ms
            &&& ctx.asked ==> after.last_call_ms is Some && after.last_call_ms->0 >= ctx.ts_ms && (
            w.last_call_ms is Some ==> after.last_call_ms->0 >= w.last_call_ms->0) && (
            after.last_call_ms->0 == ctx.ts_ms || after.last_call_ms == w.last_call_ms)
        }),
{
}

/// A rejection on an answer of the judge is appended with the status 429, and its verdict
/// remembered. One on a verdict that was used again changes nothing.
pub proof fn law_rejection_is_recorded(w: WindowState, ctx: Ctx, window_size: usize)
    ensures
        !ctx.judged ==> recorded_rejection(w, ctx, window_size) == w,
        ctx.judged ==> {
            let after = recorded_rejection(w, ctx, window_size);
            &&& appended(after.records, w.records, ctx, 429, window_size)
            &&& after.verdict == Some(ctx.verdict@)
            &&& after.last_eval_ms == ctx.ts_ms
            &&& after.last_call_ms is Some && after.last_call_ms->0 >= ctx.ts_ms
            &&& w.last_call_ms is Some ==> after.last_call_ms->0 >= w.last_call_ms->0
            &&& after.last_call_ms->0 == ctx.ts_ms || after.last_call_ms == w.last_call_ms
        },
{
}

/// What is written to a client's window by an exchange: by one that is looked at its outcome, by
/// any other nothing, and by a rejection only what an answer of the judge led to.
pub proof fn law_window_is_written(
    after: ClientWindow,
    before: ClientWindow,
    cfg: Config,
    ctx: Ctx,
    status: u16,
)
    ensures
        writes_response(after, before, cfg, ctx, status) && !ctx.enabled ==> after == before,
        writes_response(after, before, cfg, ctx, status) && ctx.enabled ==> {
            &&& appended(after.records@, before.records@, ctx, status, window_size_of(cfg))
            &&& ctx.judged ==> after.verdict is Some && after.verdict->0@ == ctx.verdict@
                && after.last_eval_ms == ctx.ts_ms
            &&& !ctx.judged ==> after.last_eval_ms == before.last_eval_ms && (
            after.verdict is Some <==> before.verdict is Some) && (after.verdict is Some
                ==> after.verdict->0@ == before.verdict->0@)
            &&& !ctx.asked ==> after.last_call_ms == before.last_call_ms
            &&& ctx.asked ==> after.last_call_ms is Some && after.last_call_ms->0 >= ctx.ts_ms
        },
        writes_rejection(after, before, cfg, ctx) && !ctx.judged ==> after == before,
        writes_rejection(after, before, cfg, ctx) && ctx.judged ==> {
            &&& appended(after.records@, before.records@, ctx, 429, window_size_of(cfg))
            &&& after.verdict is Some && after.verdict->0@ == ctx.verdict@
            &&& after.last_eval_ms == ctx.ts_ms
            &&& after.last_call_ms is Some && after.last_call_ms->0 >= ctx.ts_ms
        },
{
    law_window_is_seen_in_full(after);
    law_window_is_seen_in_full(before);
    law_outcome_is_recorded(state_of(before), ctx, status, window_size_of(cfg));
    law_rejection_is_recorded(state_of(before), ctx, window_size_of(cfg));
}

/// A verdict is held for the configured seconds after its call, and not a moment longer.
pub proof fn law_verdict_is_held_for_the_period(
    cfg: Config,
    w: WindowState,
    ctx: Ctx,
    status: u16,
    b: Buckets,
    now: u64,
)
    requires
        ctx.judged,
        ctx.asked,
        may_ask(cfg),
        b.rate != RateBucket::Low,
        w.last_call_ms matches Some(t) ==> t <= ctx.ts_ms,
    ensures
        now - ctx.ts_ms < period_of(cfg) * 1000 ==> step_of(
            cfg,
            recorded(w, ctx, status, window_size_of(cfg)),
            b,
            now,
        ) == Step::Settled(ctx.verdict@),
        now - ctx.ts_ms >= period_of(cfg) * 1000 ==> step_of(
            cfg,
            recorded(w, ctx, status, window_size_of(cfg)),
            b,
            now,
        ) is Ask,
{
    lemma_may_ask(cfg);
}

} // verus!
