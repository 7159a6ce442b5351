//! The summary of a client's recent requests, and what follows from it.
//!
//! Everything here is a function of a window of request records: no gateway, no clock and
//! no traffic. The judge only ever sees the summary; the counting is all done here.

use crate::double::{at_least, Double};
use crate::text::{
    chars_of, decimal, digit, join, lemma_join_chars, lemma_split_chars, lemma_split_join,
    lemma_split_pieces, lemma_split_whole, number, numeric, parse_number, push_decimal,
    push_signed, same, signed_decimal, split, split_text, views,
};
use vstd::prelude::*;
use vstd::string::*;

verus! {

/// One completed request in a client's rolling window. `path_template` has its numeric and
/// UUID segments collapsed to `{id}`; `id` keeps the first numeric id.
#[derive(Clone, Debug, PartialEq)]
pub struct RequestRecord {
    pub method: String,
    pub path_template: String,
    pub id: Option<i64>,
    pub status: u16,
    pub ts_ms: u64,
}

/// A client's rolling window, the verdict that was last reached for it, and the last call
/// of the judge.
#[derive(Clone, Debug, Default)]
pub struct ClientWindow {
    pub records: Vec<RequestRecord>,
    /// When the verdict was reached, in milliseconds since the epoch. 0 stands for never.
    pub last_eval_ms: u64,
    /// That verdict. It is used again until the time to judge anew has come.
    pub verdict: Option<String>,
    /// When the judge was last asked about the client, whether it answered or not.
    pub last_call_ms: Option<u64>,
}

/// The judge's typed answer.
#[derive(Clone, Debug, Default, PartialEq)]
pub struct Signals {
    /// The behaviour that was chosen, and the confidence in it, from 0 to 1.
    pub behaviour: Option<(String, Double)>,
}

/// What an answer of the judge says.
pub open spec fn behaviour_of(sig: Signals) -> Option<(Seq<char>, u64)> {
    match sig.behaviour {
        Some((choice, confidence)) => Some((choice@, confidence.bits)),
        None => None,
    }
}

// ---- Thresholds and buckets ----

/// The requests per minute from which on a rate is medium, high and very high. Each is the
/// least whole count that reaches the threshold.
#[derive(Clone, Copy, Debug, PartialEq, Eq, Structural)]
pub struct RateThresholds {
    pub medium: u64,
    pub high: u64,
    pub very_high: u64,
}

/// The thresholds where the configuration gives none.
pub open spec fn default_thresholds() -> RateThresholds {
    RateThresholds { medium: 20, high: 40, very_high: 80 }
}

impl Default for RateThresholds {
    fn default() -> (r: Self)
        ensures
            r == default_thresholds(),
    {
        RateThresholds { medium: 20, high: 40, very_high: 80 }
    }
}

/// The smaller of two counts.
pub open spec fn smaller(a: u64, b: u64) -> u64 {
    if a <= b { a } else { b }
}

/// The larger of two counts.
pub open spec fn larger(a: u64, b: u64) -> u64 {
    if a <= b { b } else { a }
}

/// The thresholds that a configuration lists: the least, the middle and the greatest of the
/// first three. Fewer than three give the default.
pub open spec fn ladder(v: Seq<u64>) -> RateThresholds {
    if v.len() < 3 {
        default_thresholds()
    } else {
        RateThresholds {
            medium: smaller(smaller(v[0], v[1]), v[2]),
            high: larger(smaller(v[0], v[1]), smaller(larger(v[0], v[1]), v[2])),
            very_high: larger(larger(v[0], v[1]), v[2]),
        }
    }
}

impl RateThresholds {
    /// The thresholds that a configuration lists as medium, high and very high. Fewer than
    /// three give the default. They are sorted, so that no list turns the ladder over.
    pub fn from_slice(v: &[u64]) -> (r: RateThresholds)
        ensures
            r == ladder(v@),
    {
        if v.len() < 3 {
            return RateThresholds::default();
        }
        let mut a: u64 = v[0];
        let mut b: u64 = v[1];
        let mut c: u64 = v[2];
        if a > b {
            let t: u64 = a;
            a = b;
            b = t;
        }
        if b > c {
            let t: u64 = b;
            b = c;
            c = t;
        }
        if a > b {
            let t: u64 = a;
            a = b;
            b = t;
        }
        RateThresholds { medium: a, high: b, very_high: c }
    }
}

/// How fast a client sends requests.
#[derive(Clone, Copy, Debug, PartialEq, Eq, PartialOrd, Ord, Structural)]
pub enum RateBucket {
    Low,
    Medium,
    High,
    VeryHigh,
}

/// How large the share of 4xx answers is.
#[derive(Clone, Copy, Debug, PartialEq, Eq, PartialOrd, Ord, Structural)]
pub enum ErrorBucket {
    Low,
    Medium,
    High,
}

/// How many distinct endpoints a client touches.
#[derive(Clone, Copy, Debug, PartialEq, Eq, PartialOrd, Ord, Structural)]
pub enum DistinctBucket {
    Few,
    Several,
    Many,
}

impl RateBucket {
    /// The word for the bucket.
    pub open spec fn spelled(self) -> Seq<char> {
        match self {
            RateBucket::Low => "low"@,
            RateBucket::Medium => "medium"@,
            RateBucket::High => "high"@,
            RateBucket::VeryHigh => "very high"@,
        }
    }

    /// The place of the bucket on the ladder.
    pub open spec fn level(self) -> int {
        match self {
            RateBucket::Low => 0,
            RateBucket::Medium => 1,
            RateBucket::High => 2,
            RateBucket::VeryHigh => 3,
        }
    }

    /// The word for the bucket.
    pub fn word(self) -> (r: &'static str)
        ensures
            r@ == self.spelled(),
    {
        match self {
            RateBucket::Low => "low",
            RateBucket::Medium => "medium",
            RateBucket::High => "high",
            RateBucket::VeryHigh => "very high",
        }
    }
}

impl ErrorBucket {
    /// The word for the bucket.
    pub open spec fn spelled(self) -> Seq<char> {
        match self {
            ErrorBucket::Low => "low"@,
            ErrorBucket::Medium => "medium"@,
            ErrorBucket::High => "high"@,
        }
    }

    /// The place of the bucket on the ladder.
    pub open spec fn level(self) -> int {
        match self {
            ErrorBucket::Low => 0,
            ErrorBucket::Medium => 1,
            ErrorBucket::High => 2,
        }
    }

    /// The word for the bucket.
    pub fn word(self) -> (r: &'static str)
        ensures
            r@ == self.spelled(),
    {
        match self {
            ErrorBucket::Low => "low",
            ErrorBucket::Medium => "medium",
            ErrorBucket::High => "high",
        }
    }
}

impl DistinctBucket {
    /// The word for the bucket.
    pub open spec fn spelled(self) -> Seq<char> {
        match self {
            DistinctBucket::Few => "few"@,
            DistinctBucket::Several => "some"@,
            DistinctBucket::Many => "many"@,
        }
    }

    /// The word for the bucket.
    pub fn word(self) -> (r: &'static str)
        ensures
            r@ == self.spelled(),
    {
        match self {
            DistinctBucket::Few => "few",
            DistinctBucket::Several => "some",
            DistinctBucket::Many => "many",
        }
    }
}

// ---- The summary ----

/// How far back the request rate looks, in milliseconds.
pub const RATE_WINDOW_MS: u64 = 60_000;

/// The fewest pairs of ids that can show a walk through the ids.
pub const MIN_SEQ_PAIRS: usize = 3;

/// A part of a whole.
#[derive(Clone, Copy, Debug, PartialEq, Eq, Structural)]
pub struct Ratio {
    pub part: usize,
    pub whole: usize,
}

/// `part` of `whole` is at least `num` of `den`. Of nothing it is not.
pub open spec fn reaches(part: int, whole: int, num: int, den: int) -> bool {
    whole > 0 && part * den >= num * whole
}

impl Ratio {
    /// Whether the ratio is at least `num` of `den`.
    pub fn reaches(self, num: u64, den: u64) -> (r: bool)
        ensures
            r == reaches(self.part as int, self.whole as int, num as int, den as int),
    {
        proof {
            assert(self.part as int * den as int <= u64::MAX * u64::MAX) by (nonlinear_arith)
                requires
                    0 <= self.part <= u64::MAX,
                    0 <= den <= u64::MAX,
            ;
            assert(num as int * self.whole as int <= u64::MAX * u64::MAX) by (nonlinear_arith)
                requires
                    0 <= self.whole <= u64::MAX,
                    0 <= num <= u64::MAX,
            ;
        }
        self.whole > 0 && self.part as u128 * den as u128 >= num as u128 * self.whole as u128
    }
}

/// The summary of a window that the judge is given.
#[derive(Clone, Debug, PartialEq)]
pub struct Buckets {
    pub rate_per_min: usize,
    pub rate: RateBucket,
    pub sequential_ids: bool,
    /// The 4xx answers among all answers.
    pub error_ratio: Ratio,
    pub error: ErrorBucket,
    pub distinct_paths: usize,
    pub distinct: DistinctBucket,
}

/// A request at `ts` counts towards the rate at `now`: less than a minute lies between, or
/// it lies ahead.
pub open spec fn recent(ts: u64, now: u64) -> bool {
    now - ts < RATE_WINDOW_MS
}

/// How many of `records` count towards the rate at `now`.
pub open spec fn recent_count(records: Seq<RequestRecord>, now: u64) -> nat {
    records.filter(|r: RequestRecord| recent(r.ts_ms, now)).len()
}

/// The bucket of a rate.
pub open spec fn rate_of(rpm: int, rt: RateThresholds) -> RateBucket {
    if rpm >= rt.very_high {
        RateBucket::VeryHigh
    } else if rpm >= rt.high {
        RateBucket::High
    } else if rpm >= rt.medium {
        RateBucket::Medium
    } else {
        RateBucket::Low
    }
}

/// The ids that `records` hold, in their order.
pub open spec fn ids_of(records: Seq<RequestRecord>) -> Seq<i64> {
    records.filter_map(|r: RequestRecord| r.id)
}

/// How many pairs of neighbours `ids` has.
pub open spec fn pair_count(ids: Seq<i64>) -> int {
    if ids.len() == 0 {
        0
    } else {
        ids.len() - 1
    }
}

/// `a` and `b` differ by one.
pub open spec fn adjacent(a: i64, b: i64) -> bool {
    a - b == 1 || b - a == 1
}

/// How many pairs of neighbours in `ids` differ by one.
pub open spec fn adjacent_count(ids: Seq<i64>) -> int
    decreases ids.len(),
{
    if ids.len() < 2 {
        0
    } else {
        adjacent_count(ids.drop_last()) + if adjacent(ids[ids.len() - 2], ids.last()) {
            1int
        } else {
            0int
        }
    }
}

/// `ids` walk through the ids: there are enough pairs of neighbours, and at least 70% of
/// them differ by one.
pub open spec fn sequential(ids: Seq<i64>) -> bool {
    pair_count(ids) >= MIN_SEQ_PAIRS && reaches(adjacent_count(ids), pair_count(ids), 7, 10)
}

/// `status` is a 4xx.
pub open spec fn client_error(status: u16) -> bool {
    400 <= status < 500
}

/// How many of `records` were answered with a 4xx.
pub open spec fn error_count(records: Seq<RequestRecord>) -> nat {
    records.filter(|r: RequestRecord| client_error(r.status)).len()
}

/// The bucket of a share of 4xx answers: high from 30% on, medium from 10% on.
pub open spec fn error_of(errors: int, total: int) -> ErrorBucket {
    if reaches(errors, total, 3, 10) {
        ErrorBucket::High
    } else if reaches(errors, total, 1, 10) {
        ErrorBucket::Medium
    } else {
        ErrorBucket::Low
    }
}

/// The path templates that `records` hold.
pub open spec fn templates(records: Seq<RequestRecord>) -> Seq<Seq<char>> {
    records.map_values(|r: RequestRecord| r.path_template@)
}

/// How many distinct path templates `records` hold.
pub open spec fn distinct_count(records: Seq<RequestRecord>) -> nat {
    templates(records).to_set().len()
}

/// The bucket of a number of distinct path templates.
pub open spec fn distinct_of(paths: int) -> DistinctBucket {
    if paths <= 2 {
        DistinctBucket::Few
    } else if paths <= 5 {
        DistinctBucket::Several
    } else {
        DistinctBucket::Many
    }
}

/// `b` is the summary of `records` at `now`.
pub open spec fn summarises(
    b: Buckets,
    records: Seq<RequestRecord>,
    now: u64,
    rt: RateThresholds,
) -> bool {
    &&& b.rate_per_min == recent_count(records, now)
    &&& b.rate == rate_of(recent_count(records, now) as int, rt)
    &&& b.sequential_ids == sequential(ids_of(records))
    &&& b.error_ratio.part == error_count(records)
    &&& b.error_ratio.whole == records.len()
    &&& b.error == error_of(error_count(records) as int, records.len() as int)
    &&& b.distinct_paths == distinct_count(records)
    &&& b.distinct == distinct_of(distinct_count(records) as int)
}

/// Counts the records that count towards the rate at `now_ms`.
fn count_recent(records: &[RequestRecord], now_ms: u64) -> (n: usize)
    ensures
        n == recent_count(records@, now_ms),
{
    let mut n: usize = 0;
    let mut i: usize = 0;
    let ghost pred = |r: RequestRecord| recent(r.ts_ms, now_ms);
    while i < records.len()
        invariant
            i <= records@.len(),
            n <= i,
            pred == (|r: RequestRecord| recent(r.ts_ms, now_ms)),
            n == records@.take(i as int).filter(pred).len(),
        decreases records@.len() - i,
    {
        proof {
            reveal(Seq::filter);
            assert(records@.take(i + 1).drop_last() =~= records@.take(i as int));
        }
        if now_ms.saturating_sub(records[i].ts_ms) < RATE_WINDOW_MS {
            n += 1;
        }
        i += 1;
    }
    assert(records@.take(i as int) == records@);
    n
}

/// Counts the records that were answered with a 4xx.
fn count_errors(records: &[RequestRecord]) -> (n: usize)
    ensures
        n == error_count(records@),
{
    let mut n: usize = 0;
    let mut i: usize = 0;
    let ghost pred = |r: RequestRecord| client_error(r.status);
    while i < records.len()
        invariant
            i <= records@.len(),
            n <= i,
            pred == (|r: RequestRecord| client_error(r.status)),
            n == records@.take(i as int).filter(pred).len(),
        decreases records@.len() - i,
    {
        proof {
            reveal(Seq::filter);
            assert(records@.take(i + 1).drop_last() =~= records@.take(i as int));
        }
        let status: u16 = records[i].status;
        if 400 <= status && status < 500 {
            n += 1;
        }
        i += 1;
    }
    assert(records@.take(i as int) == records@);
    n
}

/// The ids that the records hold.
fn collect_ids(records: &[RequestRecord]) -> (ids: Vec<i64>)
    ensures
        ids@ == ids_of(records@),
{
    let mut ids: Vec<i64> = Vec::new();
    let mut i: usize = 0;
    let ghost f = |r: RequestRecord| r.id;
    while i < records.len()
        invariant
            i <= records@.len(),
            f == (|r: RequestRecord| r.id),
            ids@ == records@.take(i as int).filter_map(f),
        decreases records@.len() - i,
    {
        proof {
            reveal(Seq::filter_map);
            assert(records@.take(i + 1).drop_last() =~= records@.take(i as int));
        }
        if let Some(id) = records[i].id {
            ids.push(id);
        }
        i += 1;
    }
    assert(records@.take(i as int) == records@);
    ids
}

/// Whether the ids walk through the ids.
fn walks_ids(ids: &Vec<i64>) -> (r: bool)
    ensures
        r == sequential(ids@),
{
    if ids.len() == 0 {
        return false;
    }
    let mut consecutive: usize = 0;
    let mut i: usize = 1;
    while i < ids.len()
        invariant
            1 <= i <= ids@.len(),
            consecutive < i,
            consecutive == adjacent_count(ids@.take(i as int)),
        decreases ids@.len() - i,
    {
        assert(ids@.take(i + 1).drop_last() == ids@.take(i as int));
        let a: i128 = ids[i - 1] as i128;
        let b: i128 = ids[i] as i128;
        if a - b == 1 || b - a == 1 {
            consecutive += 1;
        }
        i += 1;
    }
    assert(ids@.take(i as int) == ids@);
    let pairs: usize = ids.len() - 1;
    pairs >= MIN_SEQ_PAIRS && Ratio { part: consecutive, whole: pairs }.reaches(7, 10)
}

/// Whether some text of `seen` is `s`.
fn holds(seen: &Vec<&str>, s: &str) -> (r: bool)
    ensures
        r == exists|k: int| 0 <= k < seen@.len() && (#[trigger] seen@[k])@ == s@,
{
    let mut j: usize = 0;
    while j < seen.len()
        invariant
            j <= seen@.len(),
            forall|k: int| 0 <= k < j ==> (#[trigger] seen@[k])@ != s@,
        decreases seen@.len() - j,
    {
        if same(seen[j], s) {
            return true;
        }
        j += 1;
    }
    false
}

/// Counts the distinct path templates.
fn count_distinct(records: &[RequestRecord]) -> (n: usize)
    ensures
        n == distinct_count(records@),
{
    let mut seen: Vec<&str> = Vec::new();
    let ghost mut firsts: Seq<Seq<char>> = Seq::empty();
    let mut i: usize = 0;
    while i < records.len()
        invariant
            i <= records@.len(),
            seen@.len() == firsts.len(),
            forall|j: int| 0 <= j < firsts.len() ==> (#[trigger] seen@[j])@ == firsts[j],
            firsts.no_duplicates(),
            firsts.to_set() == templates(records@.take(i as int)).to_set(),
        decreases records@.len() - i,
    {
        let path = records[i].path_template.as_str();
        let ghost before = templates(records@.take(i as int));
        let ghost after = templates(records@.take(i + 1));
        assert(after =~= before.push(path@));
        let known = holds(&seen, path);
        proof {
            assert(after.to_set() =~= before.to_set().insert(path@)) by {
                lemma_to_set_push(before, path@);
            }
            if known {
                let k = choose|k: int| 0 <= k < seen@.len() && (#[trigger] seen@[k])@ == path@;
                assert(firsts[k] == path@);
                assert(firsts.to_set().contains(path@));
                assert(after.to_set() =~= before.to_set());
            } else {
                assert(forall|k: int| 0 <= k < firsts.len() ==> seen@[k]@ == firsts[k]);
                assert(!firsts.contains(path@));
                lemma_to_set_push(firsts, path@);
                firsts = firsts.push(path@);
            }
        }
        if !known {
            seen.push(path);
        }
        i += 1;
    }
    assert(records@.take(i as int) == records@);
    proof {
        firsts.unique_seq_to_set();
    }
    seen.len()
}

/// What a row holds after a push is what it held before, and the pushed.
proof fn lemma_to_set_push<A>(s: Seq<A>, a: A)
    ensures
        s.push(a).to_set() == s.to_set().insert(a),
{
    assert forall|x: A| s.push(a).to_set().contains(x) == s.to_set().insert(a).contains(x) by {
        if s.contains(x) {
            let k = choose|k: int| 0 <= k < s.len() && s[k] == x;
            assert(s.push(a)[k] == x);
        }
        if x == a {
            assert(s.push(a)[s.len() as int] == x);
        }
        if s.push(a).contains(x) {
            let k = choose|k: int| 0 <= k < s.push(a).len() && s.push(a)[k] == x;
            if k < s.len() {
                assert(s[k] == x);
            }
        }
    }
    assert(s.push(a).to_set() =~= s.to_set().insert(a));
}

/// The bucket of a rate.
pub fn rate_bucket(rpm: u64, rt: &RateThresholds) -> (r: RateBucket)
    ensures
        r == rate_of(rpm as int, *rt),
{
    if rpm >= rt.very_high {
        RateBucket::VeryHigh
    } else if rpm >= rt.high {
        RateBucket::High
    } else if rpm >= rt.medium {
        RateBucket::Medium
    } else {
        RateBucket::Low
    }
}

/// The summary of `records` at `now_ms`.
pub fn compute_buckets(records: &[RequestRecord], now_ms: u64, rt: &RateThresholds) -> (r: Buckets)
    ensures
        summarises(r, records@, now_ms, *rt),
{
    let rate_per_min: usize = count_recent(records, now_ms);
    let rate = rate_bucket(rate_per_min as u64, rt);

    let ids = collect_ids(records);
    let sequential_ids = walks_ids(&ids);

    let error_ratio = Ratio { part: count_errors(records), whole: records.len() };
    let error = if error_ratio.reaches(3, 10) {
        ErrorBucket::High
    } else if error_ratio.reaches(1, 10) {
        ErrorBucket::Medium
    } else {
        ErrorBucket::Low
    };

    let distinct_paths: usize = count_distinct(records);
    let distinct = if distinct_paths <= 2 {
        DistinctBucket::Few
    } else if distinct_paths <= 5 {
        DistinctBucket::Several
    } else {
        DistinctBucket::Many
    };

    Buckets { rate_per_min, rate, sequential_ids, error_ratio, error, distinct_paths, distinct }
}

/// The traffic already looks unusual: the rate is at least medium, or the share of 4xx
/// answers is high.
pub open spec fn unusual(b: Buckets) -> bool {
    b.rate.level() >= RateBucket::Medium.level() || b.error.level() >= ErrorBucket::High.level()
}

/// Whether the judge is worth asking.
pub fn should_trigger(b: &Buckets) -> (r: bool)
    ensures
        r == unusual(*b),
{
    match b.rate {
        RateBucket::Low => match b.error {
            ErrorBucket::High => true,
            _ => false,
        },
        _ => true,
    }
}

// ---- Path templates ----

/// `c` is a hexadecimal digit.
pub open spec fn hex_digit(c: char) -> bool {
    digit(c) || 'a' <= c <= 'f' || 'A' <= c <= 'F'
}

/// `i` is one of the places where a UUID has a dash.
pub open spec fn dash_place(i: int) -> bool {
    i == 8 || i == 13 || i == 18 || i == 23
}

/// `s` has the shape of a UUID: 8, 4, 4, 4 and 12 hexadecimal digits with dashes between.
pub open spec fn uuid(s: Seq<char>) -> bool {
    s.len() == 36 && forall|i: int|
        0 <= i < 36 ==> if dash_place(i) {
            #[trigger] s[i] == '-'
        } else {
            hex_digit(s[i])
        }
}

/// `path` up to its query.
pub open spec fn before_query(path: Seq<char>) -> Seq<char> {
    split(path, '?')[0]
}

/// What stands for a segment in a template: an id is collapsed, anything else stays.
pub open spec fn template_segment(seg: Seq<char>) -> Seq<char> {
    if numeric(seg) || uuid(seg) {
        "{id}"@
    } else {
        seg
    }
}

/// What stands for each segment in a template.
pub open spec fn template_segments(segs: Seq<Seq<char>>) -> Seq<Seq<char>> {
    segs.map_values(|seg: Seq<char>| template_segment(seg))
}

/// The segments of `path`.
pub open spec fn segments(path: Seq<char>) -> Seq<Seq<char>> {
    split(before_query(path), '/')
}

/// The template of `path`: its ids are collapsed and its query is left out. An empty path
/// has the template `/`.
pub open spec fn template_of(path: Seq<char>) -> Seq<char> {
    let t = join(template_segments(segments(path)), '/');
    if t.len() == 0 {
        seq!['/']
    } else {
        t
    }
}

/// The first of `segs` that is a number.
pub open spec fn first_numeric(segs: Seq<Seq<char>>) -> Option<Seq<char>>
    decreases segs.len(),
{
    if segs.len() == 0 {
        None
    } else {
        match first_numeric(segs.drop_last()) {
            Some(seg) => Some(seg),
            None => if numeric(segs.last()) {
                Some(segs.last())
            } else {
                None
            },
        }
    }
}

/// The value of the first of `segs` that is a number. One that does not fit in an `i64` has
/// none, and no later segment takes its place.
pub open spec fn first_id(segs: Seq<Seq<char>>) -> Option<i64> {
    match first_numeric(segs) {
        Some(seg) => if number(seg) <= i64::MAX {
            Some(number(seg) as i64)
        } else {
            None
        },
        None => None,
    }
}

/// Whether `s` is one or more digits.
pub fn is_numeric(s: &str) -> (r: bool)
    ensures
        r == numeric(s@),
{
    let chars = chars_of(s);
    if chars.len() == 0 {
        return false;
    }
    let mut i: usize = 0;
    while i < chars.len()
        invariant
            i <= chars@.len(),
            chars@ == s@,
            forall|j: int| 0 <= j < i ==> digit(#[trigger] s@[j]),
        decreases chars@.len() - i,
    {
        let c = chars[i];
        if !('0' <= c && c <= '9') {
            assert(!digit(s@[i as int]));
            return false;
        }
        i += 1;
    }
    true
}

/// Whether `s` has the shape of a UUID.
pub fn is_uuid(s: &str) -> (r: bool)
    ensures
        r == uuid(s@),
{
    let chars = chars_of(s);
    if chars.len() != 36 {
        return false;
    }
    let mut i: usize = 0;
    while i < 36
        invariant
            i <= 36,
            chars@.len() == 36,
            chars@ == s@,
            forall|j: int|
                0 <= j < i ==> if dash_place(j) {
                    #[trigger] s@[j] == '-'
                } else {
                    hex_digit(s@[j])
                },
        decreases 36 - i,
    {
        let c = chars[i];
        if i == 8 || i == 13 || i == 18 || i == 23 {
            if c != '-' {
                assert(s@[i as int] != '-');
                return false;
            }
        } else if !(('0' <= c && c <= '9') || ('a' <= c && c <= 'f') || ('A' <= c && c <= 'F')) {
            assert(!hex_digit(s@[i as int]));
            return false;
        }
        i += 1;
    }
    true
}

/// The template of a request path, and the first numeric id in it.
pub fn template_path(path: &str) -> (r: (String, Option<i64>))
    ensures
        r.0@ == template_of(path@),
        r.1 == first_id(segments(path@)),
{
    let cut = split_text(path, '?');
    let raw = cut[0].as_str();
    assert(views(cut@)[0] == raw@);
    let segs = split_text(raw, '/');
    let ghost all = views(segs@);
    let mut id: Option<i64> = None;
    let mut seen = false;
    let mut out = String::new();
    let mut i: usize = 0;
    while i < segs.len()
        invariant
            i <= segs@.len(),
            all == views(segs@),
            out@ == join(template_segments(all.take(i as int)), '/'),
            id == first_id(all.take(i as int)),
            seen == (first_numeric(all.take(i as int)) is Some),
        decreases segs@.len() - i,
    {
        let seg = segs[i].as_str();
        proof {
            assert(all[i as int] == seg@);
            assert(all.take(i + 1).drop_last() =~= all.take(i as int));
            let shorter = template_segments(all.take(i as int));
            let longer = template_segments(all.take(i + 1));
            assert(longer.drop_last() =~= shorter);
            assert(longer.last() == template_segment(seg@));
        }
        let ghost before = out@;
        if i > 0 {
            out.push('/');
        }
        if is_numeric(seg) {
            if !seen {
                id = parse_number(seg);
                seen = true;
            }
            out.append("{id}");
        } else if is_uuid(seg) {
            out.append("{id}");
        } else {
            out.append(seg);
        }
        proof {
            let longer = template_segments(all.take(i + 1));
            if i == 0 {
                assert(before =~= Seq::empty());
                assert(out@ =~= template_segment(seg@));
                assert(longer[0] == template_segment(seg@));
            }
            assert(out@ =~= join(longer, '/'));
        }
        i += 1;
    }
    assert(all.take(i as int) == all);
    if out.as_str().is_empty() {
        out.push('/');
        assert(out@ == seq!['/']);
    }
    (out, id)
}

// ---- Lines for the judge ----

/// The line for one request: `GET /orders/{id} (id=1002) 403`.
pub open spec fn request_line(r: RequestRecord) -> Seq<char> {
    let id = match r.id {
        Some(id) => " (id="@ + signed_decimal(id as int) + ")"@,
        None => Seq::empty(),
    };
    r.method@ + " "@ + r.path_template@ + id + " "@ + decimal(r.status as nat)
}

/// The newest `limit` of `records`, in their order.
pub open spec fn newest<A>(records: Seq<A>, limit: int) -> Seq<A> {
    if records.len() > limit {
        records.skip(records.len() - limit)
    } else {
        records
    }
}

/// The lines for the newest `limit` of `records`, the most recent last.
pub open spec fn recent_lines(records: Seq<RequestRecord>, limit: int) -> Seq<Seq<char>> {
    newest(records, limit).map_values(|r: RequestRecord| request_line(r))
}

/// The line for one request.
fn render_line(r: &RequestRecord) -> (line: String)
    ensures
        line@ == request_line(*r),
{
    let mut line = r.method.clone();
    line.append(" ");
    line.append(r.path_template.as_str());
    if let Some(id) = r.id {
        line.append(" (id=");
        push_signed(&mut line, id);
        line.append(")");
    }
    line.append(" ");
    push_decimal(&mut line, r.status as u64);
    assert(line@ == request_line(*r));
    line
}

/// The lines that the judge reads, the most recent last, at most `limit` of them.
pub fn recent_request_lines(records: &[RequestRecord], limit: usize) -> (r: Vec<String>)
    ensures
        views(r@) == recent_lines(records@, limit as int),
{
    let start: usize = records.len().saturating_sub(limit);
    let mut lines: Vec<String> = Vec::new();
    let mut i: usize = start;
    while i < records.len()
        invariant
            start <= i <= records@.len(),
            lines@.len() == i - start,
            forall|j: int|
                0 <= j < lines@.len() ==> (#[trigger] lines@[j])@ == request_line(
                    records@[start + j],
                ),
        decreases records@.len() - i,
    {
        lines.push(render_line(&records[i]));
        i += 1;
    }
    assert(views(lines@) == recent_lines(records@, limit as int));
    lines
}

// ---- Verdicts ----

/// The verdict on a client whose behaviour is in order.
pub const NORMAL: &'static str = "normal_use";

/// The verdict that an answer leads to: a choice other than normal use stands only where
/// the confidence in it is at least `min_confidence`.
pub open spec fn verdict_of(
    behaviour: Option<(Seq<char>, u64)>,
    min_confidence: u64,
) -> Seq<char> {
    match behaviour {
        Some((choice, confidence)) => if choice != NORMAL@ && at_least(confidence, min_confidence) {
            choice
        } else {
            NORMAL@
        },
        None => NORMAL@,
    }
}

/// The verdict that the judge's answer leads to.
pub fn verdict_from_signals(sig: &Signals, min_confidence: Double) -> (r: String)
    ensures
        r@ == verdict_of(behaviour_of(*sig), min_confidence.bits),
{
    match &sig.behaviour {
        Some((choice, confidence)) => {
            if !same(choice.as_str(), NORMAL) && confidence.at_least(min_confidence) {
                choice.clone()
            } else {
                NORMAL.to_owned()
            }
        },
        None => NORMAL.to_owned(),
    }
}

// ---- The window ----

/// How many records a window of the given size keeps: at least one.
pub open spec fn window_cap(window_size: usize) -> int {
    if window_size < 1 {
        1
    } else {
        window_size as int
    }
}

/// Appends a record and drops the oldest ones past `window_size`.
pub fn push_bounded(records: &mut Vec<RequestRecord>, rec: RequestRecord, window_size: usize)
    ensures
        final(records)@ == newest(old(records)@.push(rec), window_cap(window_size)),
{
    records.push(rec);
    let cap: usize = if window_size < 1 {
        1
    } else {
        window_size
    };
    if records.len() > cap {
        let drop: usize = records.len() - cap;
        let kept = records.split_off(drop);
        assert(kept@ == old(records)@.push(rec).skip(drop as int));
        *records = kept;
    }
}

// ---- Laws ----

/// Text that holds `{` is no id.
proof fn lemma_collapsed_is_no_id()
    ensures
        template_segment("{id}"@) == "{id}"@,
        !numeric("{id}"@),
        !"{id}"@.contains('/'),
        !"{id}"@.contains('?'),
{
    reveal_strlit("{id}");
    assert(!digit("{id}"@[0]));
}

/// Segments without a number among them have no first one.
proof fn lemma_no_first_id(segs: Seq<Seq<char>>)
    requires
        forall|i: int| 0 <= i < segs.len() ==> !numeric(#[trigger] segs[i]),
    ensures
        first_numeric(segs) is None,
    decreases segs.len(),
{
    if segs.len() > 0 {
        assert forall|i: int| 0 <= i < segs.drop_last().len() implies !numeric(
            #[trigger] segs.drop_last()[i],
        ) by {
            assert(segs.drop_last()[i] == segs[i]);
        }
        lemma_no_first_id(segs.drop_last());
        assert(!numeric(segs[segs.len() - 1]));
    }
}

/// The segments of a path hold neither `/` nor `?`, and there is one.
proof fn lemma_segments_plain(path: Seq<char>)
    ensures
        segments(path).len() > 0,
        forall|i: int|
            0 <= i < segments(path).len() ==> !(#[trigger] segments(path)[i]).contains('/')
                && !segments(path)[i].contains('?'),
{
    lemma_split_pieces(path, '?');
    assert(!split(path, '?')[0].contains('?'));
    lemma_split_pieces(before_query(path), '/');
    lemma_split_chars(before_query(path), '/', '?');
}

/// A template is its own template, and no id is left in it.
pub proof fn law_template_is_settled(path: Seq<char>)
    ensures
        template_of(template_of(path)) == template_of(path),
        first_id(segments(template_of(path))) is None,
{
    let segs = segments(path);
    let parts = template_segments(segs);
    let joined = join(parts, '/');
    let t = template_of(path);
    lemma_segments_plain(path);
    lemma_collapsed_is_no_id();
    assert forall|i: int| 0 <= i < parts.len() implies {
        &&& !(#[trigger] parts[i]).contains('/')
        &&& !parts[i].contains('?')
        &&& !numeric(parts[i])
        &&& template_segment(parts[i]) == parts[i]
    } by {
        assert(parts[i] == template_segment(segs[i]));
        assert(!segs[i].contains('/') && !segs[i].contains('?'));
    }
    lemma_join_chars(parts, '/', '?');
    if joined.len() == 0 {
        assert(t == seq!['/']);
        assert(!t.contains('?'));
        lemma_split_whole(t, '?');
        let e = Seq::<char>::empty();
        assert(t.drop_last() =~= e);
        assert(split(e, '/') =~= seq![e]);
        assert(split(t, '/') =~= seq![e, e]);
        assert(template_segments(seq![e, e]) =~= seq![e, e]);
        assert(seq![e, e].drop_last() =~= seq![e]);
        assert(join(seq![e], '/') == e);
        assert(join(seq![e, e], '/') =~= t);
        lemma_no_first_id(seq![e, e]);
    } else {
        lemma_split_whole(t, '?');
        lemma_split_join(parts, '/');
        assert(segments(t) == parts);
        assert(template_segments(parts) =~= parts);
        lemma_no_first_id(parts);
    }
}

/// Paths that differ only in their ids have the same template.
pub proof fn law_template_ignores_ids(a: Seq<char>, b: Seq<char>)
    requires
        segments(a).len() == segments(b).len(),
        forall|i: int|
            0 <= i < segments(a).len() ==> #[trigger] segments(a)[i] == segments(b)[i] || {
                &&& numeric(segments(a)[i]) || uuid(segments(a)[i])
                &&& numeric(segments(b)[i]) || uuid(segments(b)[i])
            },
    ensures
        template_of(a) == template_of(b),
{
    let pa = template_segments(segments(a));
    let pb = template_segments(segments(b));
    assert forall|i: int| 0 <= i < pa.len() implies pa[i] == pb[i] by {
        assert(pa[i] == template_segment(segments(a)[i]));
        assert(pb[i] == template_segment(segments(b)[i]));
    }
    assert(pa =~= pb);
}

/// Two rows of three that swap neighbours hold the same.
proof fn lemma_same_three(a: u64, b: u64, c: u64)
    ensures
        seq![a, b, c].to_multiset() == seq![b, a, c].to_multiset(),
        seq![a, b, c].to_multiset() == seq![a, c, b].to_multiset(),
{
    broadcast use vstd::seq_lib::group_to_multiset_ensures;

    let e = Seq::<u64>::empty();
    assert(seq![a, b, c] =~= e.push(a).push(b).push(c));
    assert(seq![b, a, c] =~= e.push(b).push(a).push(c));
    assert(seq![a, c, b] =~= e.push(a).push(c).push(b));
    assert(seq![a, b, c].to_multiset() =~= seq![b, a, c].to_multiset());
    assert(seq![a, b, c].to_multiset() =~= seq![a, c, b].to_multiset());
}

/// Whatever the configuration lists, the thresholds rise, and they are the three first that
/// it lists.
pub proof fn law_ladder_rises(v: Seq<u64>)
    ensures
        ladder(v).medium <= ladder(v).high <= ladder(v).very_high,
        v.len() >= 3 ==> seq![ladder(v).medium, ladder(v).high, ladder(v).very_high].to_multiset()
            == v.take(3).to_multiset(),
{
    if v.len() >= 3 {
        let (a, b, c) = (v[0], v[1], v[2]);
        assert(v.take(3) =~= seq![a, b, c]);
        lemma_same_three(a, b, c);
        lemma_same_three(b, a, c);
        lemma_same_three(a, c, b);
        lemma_same_three(b, c, a);
        lemma_same_three(c, a, b);
        lemma_same_three(c, b, a);
    }
}

/// A faster client is never put in a lower bucket.
pub proof fn law_rate_grows(slow: int, fast: int, rt: RateThresholds)
    requires
        slow <= fast,
        rt.medium <= rt.high <= rt.very_high,
    ensures
        rate_of(slow, rt).level() <= rate_of(fast, rt).level(),
{
}

/// What a window of the given size holds after the requests of `history`, from an empty
/// window on.
pub open spec fn window_after(history: Seq<RequestRecord>, window_size: usize) -> Seq<RequestRecord>
    decreases history.len(),
{
    if history.len() == 0 {
        Seq::empty()
    } else {
        newest(
            window_after(history.drop_last(), window_size).push(history.last()),
            window_cap(window_size),
        )
    }
}

/// However many requests come, the window holds the newest of them, in their order, and
/// never more than its size.
pub proof fn law_window_holds_newest(history: Seq<RequestRecord>, window_size: usize)
    ensures
        window_after(history, window_size) == newest(history, window_cap(window_size)),
        window_after(history, window_size).len() <= window_cap(window_size),
    decreases history.len(),
{
    if history.len() > 0 {
        law_window_holds_newest(history.drop_last(), window_size);
        assert(window_after(history, window_size) =~= newest(history, window_cap(window_size)));
    }
}

/// A recorded request is the last one in the window.
pub proof fn law_record_is_last(records: Seq<RequestRecord>, rec: RequestRecord, window_size: usize)
    ensures
        newest(records.push(rec), window_cap(window_size)).len() > 0,
        newest(records.push(rec), window_cap(window_size)).last() == rec,
{
}

/// With more 4xx answers among as many answers the error bucket is never lower.
pub proof fn law_errors_grow(fewer: int, more: int, total: int)
    requires
        fewer <= more,
    ensures
        error_of(fewer, total).level() <= error_of(more, total).level(),
{
}

/// A choice in which the confidence is too low counts as normal use.
pub proof fn law_weak_choice_is_normal_use(choice: Seq<char>, confidence: u64, min_confidence: u64)
    requires
        !at_least(confidence, min_confidence),
    ensures
        verdict_of(Some((choice, confidence)), min_confidence) == NORMAL@,
{
}

} // verus!
