//! What the policy does with one exchange.
//!
//! The gateway hands over what it read (headers, the client's window, the time, the
//! judge's reply) and carries out what is decided here.
//!
//! - On a request: where the policy is off, nothing more is done. Else the client's key is
//!   resolved, its window is summed up, and a verdict is settled at once or left to the
//!   judge. Then the request passes or is rejected. A header tells the verdict on a client
//!   that is classified; one whose traffic is ordinary passes without.
//! - On a response: the outcome is appended to the window.
//!
//! A judge that fails leaves the client in order: the policy never fails closed.

use crate::common::{mode_of, Mode};
use crate::config::Config;
use crate::double::Double;
use crate::jev::{mock_answer, mock_choice, provider_of, JevError, JevResult, JevSettings, Provider};
use crate::json::{
    bool_value, entry, json, members, object_value, text_entry, texts_value, to_text, written_text, Json,
};
use crate::screen::{
    behaviour_of, compute_buckets, first_id, ladder, larger, newest, push_bounded, recent_lines,
    recent_request_lines, segments, should_trigger, summarises, template_of, template_path, unusual,
    verdict_from_signals, verdict_of, window_cap, Buckets, ClientWindow, DistinctBucket, ErrorBucket,
    RateBucket, RateThresholds, RequestRecord, NORMAL,
};
use crate::text::{
    ascii, blank, contains_text, decimal, has_prefix, is_blank, lower, opt_view, push_decimal, same, split,
    split_text, strip_prefix, text_or, text_or_default, to_ascii_lower, to_uppercase, trim, trim_end,
    trim_start, upper, uppercase, views, white_space,
};
use serde_json::Value;
use vstd::prelude::*;
use vstd::string::*;

verus! {

/// The header that tells the verdict.
pub const HDR: &'static str = "x-jev-abuse";

/// What the headers that only the gateway may set start with.
pub const HDR_PREFIX: &'static str = "x-jev-";

/// How long an idle client's window is kept, in seconds.
pub const WINDOW_TTL_SECS: u64 = 600;

/// The pattern of `0.6`.
pub const POINT_60: u64 = 0x3FE3_3333_3333_3333;

// ---- Settings ----

/// A configured number: `default` where it is left out, and never below `least`.
pub open spec fn setting_of(o: Option<i64>, default: i64, least: i64) -> i64 {
    let n = match o {
        Some(n) => n,
        None => default,
    };
    if n < least {
        least
    } else {
        n
    }
}

/// A configured number.
fn setting(o: Option<i64>, default: i64, least: i64) -> (r: i64)
    ensures
        r == setting_of(o, default, least),
{
    let n: i64 = match o {
        Some(n) => n,
        None => default,
    };
    if n < least {
        least
    } else {
        n
    }
}

/// `s` is how the configuration says that the judge is reached.
pub open spec fn configures(s: JevSettings, cfg: Config) -> bool {
    &&& s.provider == provider_of(text_or(cfg.jev_provider, "typesafe"@))
    &&& s.model@ == text_or(cfg.jev_model, "~typesafe/jev-latest"@)
    &&& s.path@ == text_or(cfg.jev_path, Seq::empty())
    &&& s.api_key@ == text_or(cfg.jev_api_key, Seq::empty())
    &&& s.custom_auth_header@ == text_or(cfg.custom_auth_header, "Authorization"@)
    &&& s.timeout_ms == setting_of(cfg.jev_timeout_ms, 600, 1)
    &&& s.max_state_tokens == setting_of(cfg.max_state_tokens, 24000, 256) as usize
    &&& opt_view(s.cloudflare_account_id) == opt_view(cfg.cloudflare_account_id)
}

/// How the judge is reached.
pub fn jev_settings(cfg: &Config) -> (s: JevSettings)
    ensures
        configures(s, *cfg),
{
    proof {
        reveal_strlit("");
        assert(""@ =~= Seq::<char>::empty());
    }
    JevSettings {
        provider: Provider::parse(text_or_default(&cfg.jev_provider, "typesafe")),
        model: text_or_default(&cfg.jev_model, "~typesafe/jev-latest").to_owned(),
        path: text_or_default(&cfg.jev_path, "").to_owned(),
        api_key: text_or_default(&cfg.jev_api_key, "").to_owned(),
        custom_auth_header: text_or_default(&cfg.custom_auth_header, "Authorization").to_owned(),
        timeout_ms: setting(cfg.jev_timeout_ms, 600, 1) as u64,
        max_state_tokens: setting(cfg.max_state_tokens, 24000, 256) as usize,
        cloudflare_account_id: match &cfg.cloudflare_account_id {
            Some(account) => Some(account.clone()),
            None => None,
        },
    }
}

/// How many records a client's window keeps.
pub open spec fn window_size_of(cfg: Config) -> usize {
    setting_of(cfg.window_size, 30, 1) as usize
}

/// How many records a client's window keeps.
pub fn window_size(cfg: &Config) -> (r: usize)
    ensures
        r == window_size_of(*cfg),
{
    setting(cfg.window_size, 30, 1) as usize
}

/// The least number of seconds between two calls of the judge for a client. Until it is
/// over, the verdict of the first is used.
pub open spec fn period_of(cfg: Config) -> i64 {
    setting_of(cfg.reevaluate_seconds, 60, 1)
}

/// How many clients are tracked at most.
pub open spec fn max_clients_of(cfg: Config) -> usize {
    setting_of(cfg.max_tracked_clients, 10_000, 1) as usize
}

/// How many clients are tracked at most.
pub fn max_tracked_clients(cfg: &Config) -> (r: usize)
    ensures
        r == max_clients_of(*cfg),
{
    setting(cfg.max_tracked_clients, 10_000, 1) as usize
}

/// The mode of the policy.
pub open spec fn configured_mode(cfg: Config) -> Mode {
    mode_of(text_or(cfg.mode, "shadow"@))
}

/// The mode of the policy.
pub fn mode(cfg: &Config) -> (r: Mode)
    ensures
        r == configured_mode(*cfg),
{
    Mode::parse(text_or_default(&cfg.mode, "shadow"))
}

/// The confidence from which on a choice other than normal use stands.
pub open spec fn min_confidence_of(cfg: Config) -> u64 {
    match cfg.min_confidence {
        Some(d) => d.bits,
        None => POINT_60,
    }
}

/// The rate thresholds.
pub open spec fn thresholds_of(cfg: Config) -> RateThresholds {
    match cfg.rate_buckets {
        Some(v) => ladder(v@),
        None => ladder(Seq::empty()),
    }
}

/// The rate thresholds.
fn thresholds(cfg: &Config) -> (r: RateThresholds)
    ensures
        r == thresholds_of(*cfg),
{
    match &cfg.rate_buckets {
        Some(v) => RateThresholds::from_slice(v.as_slice()),
        None => RateThresholds::default(),
    }
}

/// A configured switch.
pub open spec fn switch_of(o: Option<bool>, default: bool) -> bool {
    match o {
        Some(b) => b,
        None => default,
    }
}

// ---- Headers ----

/// A header that only the gateway may set, in any letter case.
pub open spec fn reserved(name: Seq<char>) -> bool {
    has_prefix(lower(name), HDR_PREFIX@)
}

/// The headers among `names` that are taken off an inbound request: those that only the
/// gateway may set, so that no client can tell a verdict of its own.
pub open spec fn stripped(cfg: Config, names: Seq<Seq<char>>) -> Seq<Seq<char>> {
    if switch_of(cfg.strip_client_jev_headers, true) {
        names.filter(|name: Seq<char>| reserved(name))
    } else {
        Seq::empty()
    }
}

/// The headers that are taken off an inbound request.
pub fn headers_to_strip(cfg: &Config, names: &Vec<String>) -> (r: Vec<String>)
    ensures
        views(r@) == stripped(*cfg, views(names@)),
{
    let mut out: Vec<String> = Vec::new();
    let strip = match cfg.strip_client_jev_headers {
        Some(b) => b,
        None => true,
    };
    if !strip {
        assert(views(out@) == Seq::<Seq<char>>::empty());
        return out;
    }
    let ghost pred = |name: Seq<char>| reserved(name);
    let ghost all = views(names@);
    let mut i: usize = 0;
    assert(views(out@) == all.take(0).filter(pred)) by {
        reveal(Seq::filter);
    }
    while i < names.len()
        invariant
            i <= names@.len(),
            all == views(names@),
            pred == (|name: Seq<char>| reserved(name)),
            views(out@) == all.take(i as int).filter(pred),
        decreases names@.len() - i,
    {
        let lowered = to_ascii_lower(names[i].as_str());
        proof {
            reveal(Seq::filter);
            assert(all[i as int] == names@[i as int]@);
            assert(all.take(i + 1).drop_last() =~= all.take(i as int));
            assert(all.take(i + 1).last() == names@[i as int]@);
        }
        let ghost before = out@;
        if strip_prefix(lowered.as_str(), HDR_PREFIX).is_some() {
            out.push(names[i].clone());
            assert(views(out@) =~= views(before).push(names@[i as int]@));
        }
        i += 1;
    }
    assert(all.take(i as int) == all);
    out
}

/// The header that holds a client's key: for `ip` the list of forwarding hops, for
/// `header:<name>`, `claim:<name>` and a bare name that header, and for nothing the API key.
pub open spec fn key_header_of(expr: Seq<char>) -> Seq<char> {
    if expr == "ip"@ {
        "x-forwarded-for"@
    } else if has_prefix(expr, "header:"@) {
        expr.skip("header:"@.len() as int)
    } else if has_prefix(expr, "claim:"@) {
        expr.skip("claim:"@.len() as int)
    } else if expr.len() > 0 {
        expr
    } else {
        "x-api-key"@
    }
}

/// The header that holds a client's key.
pub fn key_header(expr: &str) -> (r: String)
    ensures
        r@ == key_header_of(expr@),
{
    if same(expr, "ip") {
        return "x-forwarded-for".to_owned();
    }
    if let Some(name) = strip_prefix(expr, "header:") {
        return name;
    }
    if let Some(name) = strip_prefix(expr, "claim:") {
        return name;
    }
    if !expr.is_empty() {
        expr.to_owned()
    } else {
        "x-api-key".to_owned()
    }
}

/// The key that a client's headers give: for `ip` the first forwarding hop, or else the
/// real IP, and the header itself for anything else.
pub open spec fn raw_key(expr: Seq<char>, value: Seq<char>, real_ip: Seq<char>) -> Seq<char> {
    if expr == "ip"@ {
        if value.len() > 0 {
            trim_end(trim_start(split(value, ',')[0]))
        } else {
            real_ip
        }
    } else {
        value
    }
}

/// The key of a client. One without a key is `anonymous`.
pub open spec fn client_key_of(expr: Seq<char>, value: Seq<char>, real_ip: Seq<char>) -> Seq<char> {
    if blank(raw_key(expr, value, real_ip)) {
        "anonymous"@
    } else {
        raw_key(expr, value, real_ip)
    }
}

/// The expression that says where a client's key is found.
pub open spec fn key_expression_of(cfg: Config) -> Seq<char> {
    text_or(cfg.client_key_expression, "header:x-api-key"@)
}

/// The expression that says where a client's key is found.
pub fn client_key_expression(cfg: &Config) -> (r: &str)
    ensures
        r@ == key_expression_of(*cfg),
{
    text_or_default(&cfg.client_key_expression, "header:x-api-key")
}

/// The key of a client, where `value` is what the header [`key_header`] holds and `real_ip`
/// is what `x-real-ip` holds.
pub fn resolve_client_key(expr: &str, value: Option<String>, real_ip: Option<String>) -> (r: String)
    ensures
        r@ == client_key_of(expr@, text_or(value, Seq::empty()), text_or(real_ip, Seq::empty())),
{
    proof {
        reveal_strlit("");
        assert(""@ =~= Seq::<char>::empty());
    }
    let held = text_or_default(&value, "");
    let key = if same(expr, "ip") {
        if !held.is_empty() {
            let hops = split_text(held, ',');
            assert(views(hops@)[0] == hops@[0]@);
            trim(hops[0].as_str())
        } else {
            text_or_default(&real_ip, "").to_owned()
        }
    } else {
        held.to_owned()
    };
    if is_blank(key.as_str()) {
        "anonymous".to_owned()
    } else {
        key
    }
}

// ---- The request ----

/// What is known of an exchange, from its request on.
#[derive(Clone, Debug, Default)]
pub struct Ctx {
    /// Whether the exchange is looked at. It is not where the policy is off.
    pub enabled: bool,
    pub client_key: String,
    pub method: String,
    pub path_template: String,
    pub id: Option<i64>,
    pub ts_ms: u64,
    /// Whether the client is classified: its traffic is unusual, or a verdict is still fresh.
    pub classified: bool,
    /// Whether the judge was asked in this exchange.
    pub asked: bool,
    /// Whether the judge answered in this exchange.
    pub judged: bool,
    /// The verdict on the client.
    pub verdict: String,
}

/// `r` is an exchange that is not looked at where the policy is off, and nothing where it is
/// not.
pub open spec fn untouched(r: Option<Ctx>, cfg: Config) -> bool {
    match r {
        Some(ctx) => {
            &&& configured_mode(cfg) == Mode::Off
            &&& !ctx.enabled
            &&& !ctx.classified
            &&& !ctx.asked
            &&& !ctx.judged
            &&& ctx.client_key@.len() == 0
            &&& ctx.method@.len() == 0
            &&& ctx.path_template@.len() == 0
            &&& ctx.id is None
            &&& ctx.ts_ms == 0
            &&& ctx.verdict@.len() == 0
        },
        None => configured_mode(cfg) != Mode::Off,
    }
}

/// The exchange, where the policy is off: it is not looked at, and the judge is not asked.
pub fn pass_untouched(cfg: &Config) -> (r: Option<Ctx>)
    ensures
        untouched(r, *cfg),
{
    if mode(cfg) == Mode::Off {
        Some(
            Ctx {
                enabled: false,
                client_key: String::new(),
                method: String::new(),
                path_template: String::new(),
                id: None,
                ts_ms: 0,
                classified: false,
                asked: false,
                judged: false,
                verdict: String::new(),
            },
        )
    } else {
        None
    }
}

/// What is left to do for a verdict.
pub enum Plan {
    /// Nothing: the verdict is reached.
    Settled,
    /// The judge is to be asked about this summary.
    Ask(Value),
}

/// The way to a verdict.
pub ghost enum Step {
    /// This is the verdict.
    Settled(Seq<char>),
    /// The judge is to be asked about this summary.
    Ask(Json),
}

/// What a client's window holds.
pub ghost struct WindowState {
    pub records: Seq<RequestRecord>,
    pub last_eval_ms: u64,
    pub verdict: Option<Seq<char>>,
    pub last_call_ms: Option<u64>,
}

/// What a client's window holds.
pub open spec fn state_of(w: ClientWindow) -> WindowState {
    WindowState {
        records: w.records@,
        last_eval_ms: w.last_eval_ms,
        verdict: opt_view(w.verdict),
        last_call_ms: w.last_call_ms,
    }
}

/// The summary that the judge is given.
pub open spec fn summary(purpose: Seq<char>, lines: Seq<Seq<char>>, b: Buckets) -> Json {
    Json::Object(
        map![
            "api_purpose"@ => Json::Text(purpose),
            "recent_requests"@ => Json::Array(lines.map_values(|line: Seq<char>| Json::Text(line))),
            "request_rate"@ => Json::Text(b.rate.spelled()),
            "sequential_ids"@ => Json::Bool(b.sequential_ids),
            "error_rate"@ => Json::Text(b.error.spelled()),
            "distinct_endpoints"@ => Json::Text(b.distinct.spelled()),
        ],
    )
}

/// The summary of a client's window that the judge is given.
pub open spec fn window_summary(cfg: Config, records: Seq<RequestRecord>, b: Buckets) -> Json {
    summary(
        text_or(cfg.api_purpose, Seq::empty()),
        recent_lines(records, window_size_of(cfg) as int),
        b,
    )
}

/// The verdict in `w` is still used at `now`: it was reached less than the period ago, or
/// lies ahead.
pub open spec fn fresh(w: WindowState, now: u64, period: i64) -> bool {
    w.verdict is Some && now - w.last_eval_ms < period * 1000
}

/// The judge was asked less than the period before `now`, or the call lies ahead.
pub open spec fn called(w: WindowState, now: u64, period: i64) -> bool {
    w.last_call_ms matches Some(t) && now - t < period * 1000
}

/// The mock judge is configured, and it is not allowed.
pub open spec fn mock_refused(cfg: Config) -> bool {
    provider_of(text_or(cfg.jev_provider, "typesafe"@)) == Provider::Mock && !switch_of(
        cfg.allow_mock,
        false,
    )
}

/// The client is classified at `now`: a verdict on it is still fresh, or its traffic is unusual.
pub open spec fn classifies(cfg: Config, w: WindowState, b: Buckets, now: u64) -> bool {
    fresh(w, now, period_of(cfg)) || unusual(b)
}

/// A verdict of the judge is due at `now`: there is no fresh one, the traffic is unusual, and
/// the judge was not asked within the period.
pub open spec fn due(cfg: Config, w: WindowState, b: Buckets, now: u64) -> bool {
    !fresh(w, now, period_of(cfg)) && unusual(b) && !called(w, now, period_of(cfg))
}

/// The way to a verdict at `now` on a client with the window `w` that `b` sums up: a fresh
/// verdict is used again, and where one is due the judge is asked, unless it is a mock that is
/// not allowed. In anything else the client is in order.
pub open spec fn step_of(cfg: Config, w: WindowState, b: Buckets, now: u64) -> Step {
    if fresh(w, now, period_of(cfg)) {
        Step::Settled(w.verdict->0)
    } else if !due(cfg, w, b, now) || mock_refused(cfg) {
        Step::Settled(NORMAL@)
    } else {
        Step::Ask(window_summary(cfg, w.records, b))
    }
}

/// `plan` and the verdict reached so far are the way to a verdict that `step` says. While
/// the judge is to be asked, the client is in order.
pub open spec fn follows(plan: Plan, verdict: Seq<char>, step: Step) -> bool {
    match step {
        Step::Settled(v) => plan is Settled && verdict == v,
        Step::Ask(j) => plan matches Plan::Ask(v) && json(v) == j && verdict == NORMAL@,
    }
}

/// The keys of a summary differ in length.
proof fn lemma_summary_keys_differ()
    ensures
        "api_purpose"@.len() == 11,
        "recent_requests"@.len() == 15,
        "request_rate"@.len() == 12,
        "sequential_ids"@.len() == 14,
        "error_rate"@.len() == 10,
        "distinct_endpoints"@.len() == 18,
{
    reveal_strlit("api_purpose");
    reveal_strlit("recent_requests");
    reveal_strlit("request_rate");
    reveal_strlit("sequential_ids");
    reveal_strlit("error_rate");
    reveal_strlit("distinct_endpoints");
}

/// The summary that the judge is given.
pub fn summary_value(purpose: &str, lines: &Vec<String>, b: &Buckets) -> (r: Value)
    ensures
        json(r) == summary(purpose@, views(lines@), *b),
{
    let entries = vec![
        text_entry("api_purpose", purpose),
        entry("recent_requests", texts_value(lines)),
        text_entry("request_rate", b.rate.word()),
        entry("sequential_ids", bool_value(b.sequential_ids)),
        text_entry("error_rate", b.error.word()),
        text_entry("distinct_endpoints", b.distinct.word()),
    ];
    proof {
        lemma_summary_keys_differ();
        reveal_with_fuel(members, 7);
        assert(lines@.map_values(|s: String| Json::Text(s@)) =~= views(lines@).map_values(
            |line: Seq<char>| Json::Text(line),
        ));
        assert(Json::Object(members(entries@)) == summary(purpose@, views(lines@), *b));
    }
    object_value(entries)
}

/// Whether the window's verdict is still used at `now_ms`.
fn is_fresh(w: &ClientWindow, now_ms: u64, period: i64) -> (r: bool)
    requires
        period >= 1,
    ensures
        r == fresh(state_of(*w), now_ms, period),
{
    w.verdict.is_some() && (now_ms.saturating_sub(w.last_eval_ms) as i128) < period as i128 * 1000
}

/// Whether the judge was asked less than the period before `now_ms`.
fn is_called(w: &ClientWindow, now_ms: u64, period: i64) -> (r: bool)
    requires
        period >= 1,
    ensures
        r == called(state_of(*w), now_ms, period),
{
    match w.last_call_ms {
        Some(t) => (now_ms.saturating_sub(t) as i128) < period as i128 * 1000,
        None => false,
    }
}

/// Whether the mock judge is configured and not allowed.
fn mock_disabled(cfg: &Config) -> (r: bool)
    ensures
        r == mock_refused(*cfg),
{
    let provider = Provider::parse(text_or_default(&cfg.jev_provider, "typesafe"));
    let allowed = match cfg.allow_mock {
        Some(allowed) => allowed,
        None => false,
    };
    provider == Provider::Mock && !allowed
}

/// Whether a verdict of the judge is due.
fn is_due(cfg: &Config, window: &ClientWindow, b: &Buckets, now_ms: u64) -> (r: bool)
    ensures
        r == due(*cfg, state_of(*window), *b, now_ms),
{
    let period: i64 = setting(cfg.reevaluate_seconds, 60, 1);
    !is_fresh(window, now_ms, period) && should_trigger(b) && !is_called(window, now_ms, period)
}

/// A verdict of the judge is due at `now`, and it is not asked because it is a mock that is not
/// allowed.
pub open spec fn misses_judge(cfg: Config, w: WindowState, b: Buckets, now: u64) -> bool {
    due(cfg, w, b, now) && mock_refused(cfg)
}

/// Whether a verdict of the judge is due, and it is not asked because it is a mock that is not
/// allowed.
pub fn refuses_mock(cfg: &Config, window: &ClientWindow, b: &Buckets, now_ms: u64) -> (r: bool)
    ensures
        r == misses_judge(*cfg, state_of(*window), *b, now_ms),
{
    is_due(cfg, window, b, now_ms) && mock_disabled(cfg)
}

/// The way to a verdict on a client with the given window, which `b` sums up: what is left
/// to do, and the verdict reached so far.
pub fn plan_verdict(cfg: &Config, window: &ClientWindow, b: &Buckets, now_ms: u64) -> (r: (
    Plan,
    String,
))
    ensures
        follows(r.0, r.1@, step_of(*cfg, state_of(*window), *b, now_ms)),
{
    let period: i64 = setting(cfg.reevaluate_seconds, 60, 1);
    if is_fresh(window, now_ms, period) {
        return (Plan::Settled, text_or_default(&window.verdict, NORMAL).to_owned());
    }
    if !is_due(cfg, window, b, now_ms) || mock_disabled(cfg) {
        return (Plan::Settled, NORMAL.to_owned());
    }
    proof {
        reveal_strlit("");
        assert(""@ =~= Seq::<char>::empty());
    }
    let lines = recent_request_lines(window.records.as_slice(), window_size(cfg));
    let state = summary_value(text_or_default(&cfg.api_purpose, ""), &lines, b);
    (Plan::Ask(state), NORMAL.to_owned())
}

/// What a request comes to before the judge is asked.
pub struct Opening {
    pub ctx: Ctx,
    pub buckets: Buckets,
    pub plan: Plan,
}

/// `r` is what a request with the given method and path comes to before the judge is asked,
/// for a client with the given key and window.
pub open spec fn opens(
    r: Opening,
    cfg: Config,
    method: Seq<char>,
    path: Seq<char>,
    client_key: String,
    w: WindowState,
    now: u64,
) -> bool {
    &&& summarises(r.buckets, w.records, now, thresholds_of(cfg))
    &&& follows(r.plan, r.ctx.verdict@, step_of(cfg, w, r.buckets, now))
    &&& r.ctx.enabled
    &&& r.ctx.client_key == client_key
    &&& r.ctx.method@ == uppercase(method)
    &&& ascii(method) ==> r.ctx.method@ == upper(method)
    &&& r.ctx.path_template@ == template_of(path)
    &&& r.ctx.id == first_id(segments(path))
    &&& r.ctx.ts_ms == now
    &&& r.ctx.classified == classifies(cfg, w, r.buckets, now)
    &&& !r.ctx.asked
    &&& !r.ctx.judged
}

/// Opens an exchange: sums up the client's window as it was before this request, and settles
/// the verdict or leaves it to the judge.
pub fn open_request(
    cfg: &Config,
    method: &str,
    path: &str,
    client_key: String,
    window: &ClientWindow,
    now_ms: u64,
) -> (r: Opening)
    ensures
        opens(r, *cfg, method@, path@, client_key, state_of(*window), now_ms),
{
    let (path_template, id) = template_path(path);
    let rt = thresholds(cfg);
    let buckets = compute_buckets(window.records.as_slice(), now_ms, &rt);
    let (plan, verdict) = plan_verdict(cfg, window, &buckets, now_ms);
    let period: i64 = setting(cfg.reevaluate_seconds, 60, 1);
    let ctx = Ctx {
        enabled: true,
        client_key,
        method: to_uppercase(method),
        path_template,
        id,
        ts_ms: now_ms,
        classified: is_fresh(window, now_ms, period) || should_trigger(&buckets),
        asked: false,
        judged: false,
        verdict,
    };
    Opening { ctx, buckets, plan }
}

/// The verdict once the judge was asked, and whether it is to be remembered. A judge that
/// failed leaves the client in order.
pub open spec fn judged_verdict(cfg: Config, answer: Result<JevResult, JevError>) -> (Seq<char>, bool) {
    match answer {
        Ok(res) => (verdict_of(behaviour_of(res.signals), min_confidence_of(cfg)), true),
        Err(_) => (NORMAL@, false),
    }
}

/// `after` is the exchange `before`, into which the judge's answer was taken.
pub open spec fn takes(
    after: Ctx,
    before: Ctx,
    cfg: Config,
    answer: Result<JevResult, JevError>,
) -> bool {
    &&& after.verdict@ == judged_verdict(cfg, answer).0
    &&& after.judged == judged_verdict(cfg, answer).1
    &&& after.asked
    &&& after.enabled == before.enabled
    &&& after.client_key == before.client_key
    &&& after.method == before.method
    &&& after.path_template == before.path_template
    &&& after.id == before.id
    &&& after.ts_ms == before.ts_ms
    &&& after.classified == before.classified
}

/// Takes the judge's answer, or that it failed, into the exchange.
pub fn take_answer(cfg: &Config, ctx: &mut Ctx, answer: &Result<JevResult, JevError>)
    ensures
        takes(*final(ctx), *old(ctx), *cfg, *answer),
{
    let min_confidence = match cfg.min_confidence {
        Some(d) => d,
        None => Double { bits: POINT_60 },
    };
    ctx.asked = true;
    match answer {
        Ok(res) => {
            ctx.verdict = verdict_from_signals(&res.signals, min_confidence);
            ctx.judged = true;
        },
        Err(_) => {
            ctx.verdict = NORMAL.to_owned();
            ctx.judged = false;
        },
    }
}

// ---- What is done about it ----

/// A reply that the gateway gives in place of the API.
pub struct Rejection {
    pub status: u16,
    pub headers: Vec<(String, String)>,
    pub body: String,
}

/// What is done with a request.
pub struct Action {
    /// What the header that tells the verdict is set to.
    pub header: Option<String>,
    /// The reply where the request is rejected.
    pub rejection: Option<Rejection>,
}

/// The verdicts that are rejected.
pub open spec fn block_verdicts_of(cfg: Config) -> Seq<Seq<char>> {
    match cfg.block_verdicts {
        Some(v) => views(v@),
        None => Seq::empty(),
    }
}

/// A request with the given verdict is rejected.
pub open spec fn rejected(cfg: Config, mode: Mode, verdict: Seq<char>) -> bool {
    mode == Mode::Enforce && verdict != NORMAL@ && block_verdicts_of(cfg).contains(verdict)
}

/// What a rejected client is told.
pub open spec fn rejection_body(verdict: Seq<char>) -> Json {
    Json::Object(
        map![
            "error"@ => Json::Text("abuse_detected"@),
            "behaviour"@ => Json::Text(verdict),
            "policy"@ => Json::Text("abuse-scraping-classifier"@),
        ],
    )
}

/// The headers that `headers` hold, names and values.
pub open spec fn header_views(headers: Seq<(String, String)>) -> Seq<(Seq<char>, Seq<char>)> {
    headers.map_values(|h: (String, String)| (h.0@, h.1@))
}

/// `r` rejects a client with the given verdict, for `retry` seconds, with `body`.
pub open spec fn rejects(r: Rejection, verdict: Seq<char>, retry: int, body: Seq<char>) -> bool {
    &&& r.status == 429
    &&& header_views(r.headers@) == seq![
        ("retry-after"@, decimal(retry as nat)),
        ("content-type"@, "application/json"@),
        (HDR@, verdict),
    ]
    &&& r.body@ == body
}

/// `a` is what is done with the request of an exchange.
pub open spec fn acts(a: Action, cfg: Config, mode: Mode, ctx: Ctx) -> bool {
    &&& opt_view(a.header) == if mode == Mode::Enforce && ctx.classified {
        Some(ctx.verdict@)
    } else {
        None
    }
    &&& match a.rejection {
        Some(r) => rejected(cfg, mode, ctx.verdict@) && rejects(
            r,
            ctx.verdict@,
            period_of(cfg) as int,
            written_text(rejection_body(ctx.verdict@)),
        ),
        None => !rejected(cfg, mode, ctx.verdict@),
    }
}

/// The document that a rejected client is given.
pub fn rejection_value(verdict: &str) -> (r: Value)
    ensures
        json(r) == rejection_body(verdict@),
{
    let entries = vec![
        text_entry("error", "abuse_detected"),
        text_entry("behaviour", verdict),
        text_entry("policy", "abuse-scraping-classifier"),
    ];
    proof {
        reveal_strlit("error");
        reveal_strlit("behaviour");
        reveal_strlit("policy");
        assert("error"@.len() == 5 && "behaviour"@.len() == 9 && "policy"@.len() == 6);
        reveal_with_fuel(members, 4);
        assert(Json::Object(members(entries@)) == rejection_body(verdict@));
    }
    object_value(entries)
}

/// The reply that rejects a client for `retry` seconds, with `body`.
pub fn rejection(verdict: &str, retry: u64, body: String) -> (r: Rejection)
    ensures
        rejects(r, verdict@, retry as int, body@),
{
    let mut seconds = String::new();
    push_decimal(&mut seconds, retry);
    assert(seconds@ == decimal(retry as nat));
    let headers = vec![
        ("retry-after".to_owned(), seconds),
        ("content-type".to_owned(), "application/json".to_owned()),
        (HDR.to_owned(), verdict.to_owned()),
    ];
    assert(header_views(headers@) == seq![
        ("retry-after"@, decimal(retry as nat)),
        ("content-type"@, "application/json"@),
        (HDR@, verdict@),
    ]);
    Rejection { status: 429, headers, body }
}

/// What is done with the request of an exchange. In `enforce` the header that tells the
/// verdict is set where the client is classified, and a listed verdict other than normal use
/// is rejected.
pub fn act(cfg: &Config, mode: Mode, ctx: &Ctx) -> (r: Action)
    ensures
        acts(r, *cfg, mode, *ctx),
{
    let verdict = ctx.verdict.as_str();
    if !mode.mutates() {
        return Action { header: None, rejection: None };
    }
    let listed = match &cfg.block_verdicts {
        Some(v) => contains_text(v.as_slice(), verdict),
        None => false,
    };
    let rejection = if listed && !same(verdict, NORMAL) {
        let retry: u64 = setting(cfg.reevaluate_seconds, 60, 1) as u64;
        Some(rejection(verdict, retry, to_text(&rejection_value(verdict))))
    } else {
        None
    };
    let header = if ctx.classified {
        Some(verdict.to_owned())
    } else {
        None
    };
    Action { header, rejection }
}

// ---- The window ----

/// The record of an exchange that was answered with `status`.
pub open spec fn outcome_of(ctx: Ctx, status: u16) -> RequestRecord {
    RequestRecord {
        method: ctx.method,
        path_template: ctx.path_template,
        id: ctx.id,
        status,
        ts_ms: ctx.ts_ms,
    }
}

/// The time of the last call of the judge, where there was one at `t`.
pub open spec fn later_call(last: Option<u64>, t: u64) -> Option<u64> {
    match last {
        Some(l) => Some(larger(l, t)),
        None => Some(t),
    }
}

/// A window to which the outcome of an exchange was appended. A verdict that the judge
/// reached in it is remembered, with its time, and so is a call of the judge.
pub open spec fn recorded(w: WindowState, ctx: Ctx, status: u16, window_size: usize) -> WindowState {
    WindowState {
        records: newest(w.records.push(outcome_of(ctx, status)), window_cap(window_size)),
        last_eval_ms: if ctx.judged {
            ctx.ts_ms
        } else {
            w.last_eval_ms
        },
        verdict: if ctx.judged {
            Some(ctx.verdict@)
        } else {
            w.verdict
        },
        last_call_ms: if ctx.asked {
            later_call(w.last_call_ms, ctx.ts_ms)
        } else {
            w.last_call_ms
        },
    }
}

/// A window after a rejected request. Where the judge answered in the exchange, the request is
/// appended and the verdict remembered. Where the verdict was used again, nothing changes, so
/// that rejecting does not prolong it.
pub open spec fn recorded_rejection(w: WindowState, ctx: Ctx, window_size: usize) -> WindowState {
    if ctx.judged {
        WindowState {
            records: newest(w.records.push(outcome_of(ctx, 429)), window_cap(window_size)),
            last_eval_ms: ctx.ts_ms,
            verdict: Some(ctx.verdict@),
            last_call_ms: later_call(w.last_call_ms, ctx.ts_ms),
        }
    } else {
        w
    }
}

/// The record of an exchange that was answered with `status`.
fn outcome(ctx: &Ctx, status: u16) -> (r: RequestRecord)
    ensures
        r == outcome_of(*ctx, status),
{
    RequestRecord {
        method: ctx.method.clone(),
        path_template: ctx.path_template.clone(),
        id: ctx.id,
        status,
        ts_ms: ctx.ts_ms,
    }
}

/// Writes a call of the judge at `t` to the window.
fn note_call(window: &mut ClientWindow, t: u64)
    ensures
        final(window).records == old(window).records,
        final(window).last_eval_ms == old(window).last_eval_ms,
        final(window).verdict == old(window).verdict,
        final(window).last_call_ms == later_call(old(window).last_call_ms, t),
{
    window.last_call_ms = match window.last_call_ms {
        Some(last) => if last <= t {
            Some(t)
        } else {
            Some(last)
        },
        None => Some(t),
    };
}

/// `after` is the window `before`, to which the outcome of an exchange was written. One that was
/// not looked at leaves no trace.
pub open spec fn writes_response(
    after: ClientWindow,
    before: ClientWindow,
    cfg: Config,
    ctx: Ctx,
    status: u16,
) -> bool {
    &&& ctx.enabled ==> state_of(after) == recorded(
        state_of(before),
        ctx,
        status,
        window_size_of(cfg),
    )
    &&& !ctx.enabled ==> after == before
}

/// `after` is the window `before`, to which a rejected request was written. One that was rejected
/// on a verdict used again leaves no trace.
pub open spec fn writes_rejection(
    after: ClientWindow,
    before: ClientWindow,
    cfg: Config,
    ctx: Ctx,
) -> bool {
    &&& !ctx.judged ==> after == before
    &&& state_of(after) == recorded_rejection(state_of(before), ctx, window_size_of(cfg))
}

/// Appends the outcome of an exchange to the client's window. An exchange that was not
/// looked at leaves no trace.
pub fn record_response(cfg: &Config, window: &mut ClientWindow, ctx: &Ctx, status: u16)
    ensures
        writes_response(*final(window), *old(window), *cfg, *ctx, status),
{
    if !ctx.enabled {
        return;
    }
    push_bounded(&mut window.records, outcome(ctx, status), window_size(cfg));
    if ctx.asked {
        note_call(window, ctx.ts_ms);
    }
    if ctx.judged {
        window.last_eval_ms = ctx.ts_ms;
        window.verdict = Some(ctx.verdict.clone());
    }
}

/// Appends a rejected request to the client's window, where the judge answered in the
/// exchange. A request that is rejected on a verdict used again leaves the window as it is.
pub fn record_rejection(cfg: &Config, window: &mut ClientWindow, ctx: &Ctx)
    ensures
        writes_rejection(*final(window), *old(window), *cfg, *ctx),
{
    if !ctx.judged {
        return;
    }
    push_bounded(&mut window.records, outcome(ctx, 429), window_size(cfg));
    note_call(window, ctx.ts_ms);
    window.last_eval_ms = ctx.ts_ms;
    window.verdict = Some(ctx.verdict.clone());
}

// ---- Laws ----

/// Words that differ in length, or in a letter, differ.
proof fn lemma_words_differ()
    ensures
        "low"@ != "high"@,
        "medium"@ != "high"@,
        "very high"@ != "high"@,
        "low"@ != "very high"@,
        "medium"@ != "very high"@,
        "few"@ != "many"@,
        "few"@ != "some"@,
{
    reveal_strlit("low");
    reveal_strlit("medium");
    reveal_strlit("high");
    reveal_strlit("very high");
    reveal_strlit("few");
    reveal_strlit("many");
    reveal_strlit("some");
    assert("low"@.len() == 3);
    assert("medium"@.len() == 6);
    assert("high"@.len() == 4);
    assert("very high"@.len() == 9);
    assert("few"@.len() == 3);
    assert("many"@.len() == 4);
    assert("some"@.len() == 4);
}

/// The judge is never asked about a client whose rate is low and whose share of 4xx answers
/// is not high. Without a fresh verdict the client is in order.
pub proof fn law_ordinary_client_is_never_judged(cfg: Config, w: WindowState, b: Buckets, now: u64)
    requires
        b.rate == RateBucket::Low,
        b.error != ErrorBucket::High,
    ensures
        step_of(cfg, w, b, now) is Settled,
        !fresh(w, now, period_of(cfg)) ==> step_of(cfg, w, b, now) == Step::Settled(NORMAL@),
{
}

/// The mock judge is never asked unless the configuration allows it.
pub proof fn law_mock_needs_leave(cfg: Config, w: WindowState, b: Buckets, now: u64)
    requires
        provider_of(text_or(cfg.jev_provider, "typesafe"@)) == Provider::Mock,
        cfg.allow_mock != Some(true),
    ensures
        step_of(cfg, w, b, now) is Settled,
{
}

/// Something that is written to a client's window.
pub ghost enum Event {
    /// An exchange was answered with this status.
    Response(Ctx, u16),
    /// A request was rejected.
    Rejection(Ctx),
}

/// The window after an event.
pub open spec fn after_event(w: WindowState, e: Event, window_size: usize) -> WindowState {
    match e {
        Event::Response(ctx, status) => if ctx.enabled {
            recorded(w, ctx, status, window_size)
        } else {
            w
        },
        Event::Rejection(ctx) => recorded_rejection(w, ctx, window_size),
    }
}

/// The window after `events`.
pub open spec fn after_events(w: WindowState, events: Seq<Event>, window_size: usize) -> WindowState
    decreases events.len(),
{
    if events.len() == 0 {
        w
    } else {
        after_event(
            after_events(w, events.drop_last(), window_size),
            events.last(),
            window_size,
        )
    }
}

/// The event is one that leaves a verdict in the window: that of the judge.
pub open spec fn remembers(e: Event) -> bool {
    match e {
        Event::Response(ctx, _) => ctx.enabled && ctx.judged,
        Event::Rejection(ctx) => ctx.judged,
    }
}

/// What an exchange writes to the window: a rejection where its verdict is rejected, and else
/// the answer with the given status.
pub open spec fn event_of(cfg: Config, mode: Mode, ctx: Ctx, status: u16) -> Event {
    if rejected(cfg, mode, ctx.verdict@) {
        Event::Rejection(ctx)
    } else {
        Event::Response(ctx, status)
    }
}

/// Whatever is written to a window, a call of the judge at `t` is not forgotten for an
/// earlier one.
proof fn lemma_call_stays(w: WindowState, events: Seq<Event>, window_size: usize, t: u64)
    requires
        w.last_call_ms matches Some(last) && last >= t,
    ensures
        after_events(w, events, window_size).last_call_ms matches Some(last) && last >= t,
    decreases events.len(),
{
    if events.len() > 0 {
        lemma_call_stays(w, events.drop_last(), window_size, t);
    }
}

/// The judge is asked at most once per period for a client: once an exchange in which it was
/// asked is over, it is not asked again before the period is over. So it is whether it
/// answered or failed, whether the request passed or was rejected, and whatever is written to
/// the window in the meantime.
pub proof fn law_asked_once_per_period(
    cfg: Config,
    mode: Mode,
    w: WindowState,
    ctx: Ctx,
    answer: Result<JevResult, JevError>,
    status: u16,
    later: Seq<Event>,
    b: Buckets,
    now: u64,
)
    requires
        ctx.enabled,
        ctx.asked,
        (ctx.verdict@, ctx.judged) == judged_verdict(cfg, answer),
        now - ctx.ts_ms < period_of(cfg) * 1000,
    ensures
        step_of(
            cfg,
            after_events(
                after_event(w, event_of(cfg, mode, ctx, status), window_size_of(cfg)),
                later,
                window_size_of(cfg),
            ),
            b,
            now,
        ) is Settled,
{
    lemma_call_stays(
        after_event(w, event_of(cfg, mode, ctx, status), window_size_of(cfg)),
        later,
        window_size_of(cfg),
        ctx.ts_ms,
    );
}

/// A remembered verdict is the one that is used while it is fresh, whatever the traffic.
pub proof fn law_verdict_is_used_again(
    cfg: Config,
    w: WindowState,
    ctx: Ctx,
    status: u16,
    b: Buckets,
    now: u64,
)
    requires
        ctx.judged,
        now - ctx.ts_ms < period_of(cfg) * 1000,
    ensures
        step_of(cfg, recorded(w, ctx, status, window_size_of(cfg)), b, now) == Step::Settled(
            ctx.verdict@,
        ),
{
}

/// A verdict expires when the period after its call is over: nothing but another answer of
/// the judge moves that time, and no rejection prolongs it.
pub proof fn law_verdict_expires(cfg: Config, w: WindowState, later: Seq<Event>, now: u64)
    requires
        forall|i: int| 0 <= i < later.len() ==> !remembers(#[trigger] later[i]),
        now - w.last_eval_ms >= period_of(cfg) * 1000,
    ensures
        after_events(w, later, window_size_of(cfg)).last_eval_ms == w.last_eval_ms,
        after_events(w, later, window_size_of(cfg)).verdict == w.verdict,
        !fresh(after_events(w, later, window_size_of(cfg)), now, period_of(cfg)),
    decreases later.len(),
{
    if later.len() > 0 {
        assert forall|i: int| 0 <= i < later.drop_last().len() implies !remembers(
            #[trigger] later.drop_last()[i],
        ) by {
            assert(later.drop_last()[i] == later[i]);
        }
        law_verdict_expires(cfg, w, later.drop_last(), now);
        assert(!remembers(later[later.len() - 1]));
    }
}

/// A judge that fails leaves the client in order: the verdict is normal use, it is not
/// remembered, and no request is rejected for it.
pub proof fn law_fails_open(cfg: Config, mode: Mode, e: JevError, ctx: Ctx, a: Action)
    requires
        ctx.verdict@ == judged_verdict(cfg, Err(e)).0,
        acts(a, cfg, mode, ctx),
    ensures
        judged_verdict(cfg, Err(e)) == (NORMAL@, false),
        a.rejection is None,
{
}

/// A client whose traffic is ordinary and on which no verdict is fresh passes cleanly: no call
/// of the judge, no header that tells a verdict, and no rejection.
pub proof fn law_ordinary_client_passes_cleanly(
    cfg: Config,
    mode: Mode,
    w: WindowState,
    b: Buckets,
    now: u64,
    plan: Plan,
    ctx: Ctx,
    a: Action,
)
    requires
        !unusual(b),
        !fresh(w, now, period_of(cfg)),
        follows(plan, ctx.verdict@, step_of(cfg, w, b, now)),
        ctx.classified == classifies(cfg, w, b, now),
        acts(a, cfg, mode, ctx),
    ensures
        plan is Settled,
        ctx.verdict@ == NORMAL@,
        a.header is None,
        a.rejection is None,
{
}

/// Whenever the judge is asked, the client is classified, so that in `enforce` the header
/// tells the verdict.
pub proof fn law_judged_client_is_told(
    cfg: Config,
    w: WindowState,
    b: Buckets,
    now: u64,
    ctx: Ctx,
    a: Action,
)
    requires
        step_of(cfg, w, b, now) is Ask,
        ctx.classified == classifies(cfg, w, b, now),
        acts(a, cfg, Mode::Enforce, ctx),
    ensures
        opt_view(a.header) == Some(ctx.verdict@),
{
}

/// Outside `enforce` no header that tells a verdict is set, and no request is rejected.
pub proof fn law_only_enforce_tells_or_rejects(cfg: Config, mode: Mode, ctx: Ctx, a: Action)
    requires
        mode != Mode::Enforce,
        acts(a, cfg, mode, ctx),
    ensures
        a.header is None,
        a.rejection is None,
{
}

/// Normal use is never rejected, even where the configuration lists it.
pub proof fn law_normal_use_passes(cfg: Config, mode: Mode, ctx: Ctx, a: Action)
    requires
        ctx.verdict@ == NORMAL@,
        acts(a, cfg, mode, ctx),
    ensures
        a.rejection is None,
{
}

/// A verdict that is not listed is not rejected, and the header still tells it.
pub proof fn law_unlisted_verdict_passes(cfg: Config, ctx: Ctx, a: Action)
    requires
        !block_verdicts_of(cfg).contains(ctx.verdict@),
        ctx.classified,
        acts(a, cfg, Mode::Enforce, ctx),
    ensures
        a.rejection is None,
        opt_view(a.header) == Some(ctx.verdict@),
{
}

/// A client that was rejected on an answer of the judge stays rejected while the verdict is
/// fresh, whatever its traffic and however often it is rejected in the meantime.
pub proof fn law_rejection_lasts(
    cfg: Config,
    mode: Mode,
    w: WindowState,
    ctx: Ctx,
    again: Ctx,
    b: Buckets,
    now: u64,
)
    requires
        rejected(cfg, mode, ctx.verdict@),
        ctx.judged,
        !again.judged,
        now - ctx.ts_ms < period_of(cfg) * 1000,
    ensures
        ({
            let once = recorded_rejection(w, ctx, window_size_of(cfg));
            let twice = recorded_rejection(once, again, window_size_of(cfg));
            &&& twice == once
            &&& step_of(cfg, once, b, now) == Step::Settled(ctx.verdict@)
        }),
{
}

/// Whatever is written to a window, it never grows past its size.
pub proof fn law_window_stays_bounded(w: WindowState, events: Seq<Event>, window_size: usize)
    requires
        w.records.len() <= window_cap(window_size),
    ensures
        after_events(w, events, window_size).records.len() <= window_cap(window_size),
    decreases events.len(),
{
    if events.len() > 0 {
        law_window_stays_bounded(w, events.drop_last(), window_size);
    }
}

/// Of the summary of a window the mock judge says: enumeration, where the client walks the
/// ids at a high rate or with many errors; probing, where there are only the errors;
/// scraping, where it is fast on more than a few endpoints; and normal use otherwise.
pub proof fn law_mock_reads_summary(purpose: Seq<char>, lines: Seq<Seq<char>>, b: Buckets)
    ensures
        mock_answer(summary(purpose, lines, b)) == mock_choice(
            b.sequential_ids,
            b.error == ErrorBucket::High,
            b.rate == RateBucket::High || b.rate == RateBucket::VeryHigh,
            b.distinct != DistinctBucket::Few,
        ),
{
    lemma_words_differ();
    lemma_summary_keys_differ();
}

/// Taking the reserved headers off leaves none behind, and takes nothing else.
pub proof fn law_reserved_headers_go(cfg: Config, names: Seq<Seq<char>>, name: Seq<char>)
    requires
        cfg.strip_client_jev_headers != Some(false),
        names.contains(name),
    ensures
        stripped(cfg, names).contains(name) == reserved(name),
{
    let pred = |n: Seq<char>| reserved(n);
    broadcast use vstd::seq_lib::group_filter_ensures;

    if reserved(name) {
        let i = choose|i: int| 0 <= i < names.len() && names[i] == name;
        assert(pred(names[i]));
    }
    if names.filter(pred).contains(name) {
        let k = choose|k: int| 0 <= k < names.filter(pred).len() && names.filter(pred)[k] == name;
        assert(pred(names.filter(pred)[k]));
    }
}

/// The header that tells the verdict is among the reserved ones.
pub proof fn law_verdict_header_is_reserved()
    ensures
        reserved(HDR@),
{
    reveal_strlit("x-jev-abuse");
    reveal_strlit("x-jev-");
    assert(lower(HDR@) =~= HDR@);
    assert(HDR@.take(6) =~= HDR_PREFIX@);
}

/// A client is never without a key.
pub proof fn law_client_has_key(expr: Seq<char>, value: Seq<char>, real_ip: Seq<char>)
    ensures
        !blank(client_key_of(expr, value, real_ip)),
{
    reveal_strlit("anonymous");
    assert(!white_space("anonymous"@[0]));
}

} // verus!
