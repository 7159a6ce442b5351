//! Laws of the summary, of path templates, of verdicts and of the window.

use crate::double::{at_least, Double};
use crate::screen::{
    adjacent, adjacent_count, behaviour_of, error_count, first_id, first_numeric, ids_of, ladder,
    newest, rate_of, reaches, recent_count, recent_lines, request_line, segments, summarises, template_of,
    template_segments, templates, unusual, uuid, verdict_of, window_cap, Buckets, DistinctBucket,
    ErrorBucket, RateBucket, RateThresholds, RequestRecord, Signals,
};
use crate::text::{
    decimal, join, lemma_join_chars, lemma_split_join, lemma_split_pieces, lemma_split_whole, number,
    numeric, signed_decimal, split,
};
use vstd::prelude::*;

verus! {

// ---- The summary ----

/// The summary of a window without records counts nothing.
pub proof fn law_empty_window_counts_nothing(b: Buckets, now: u64, rt: RateThresholds)
    requires
        summarises(b, Seq::empty(), now, rt),
    ensures
        b.rate_per_min == 0,
        !b.sequential_ids,
        b.error_ratio.part == 0,
        b.error_ratio.whole == 0,
        b.error == ErrorBucket::Low,
        b.distinct_paths == 0,
        b.distinct == DistinctBucket::Few,
{
    let none = Seq::<RequestRecord>::empty();
    reveal(Seq::filter);
    reveal(Seq::filter_map);
    assert(templates(none) =~= Seq::<Seq<char>>::empty());
    assert(templates(none).to_set() =~= Set::<Seq<char>>::empty());
}

/// One record more counts towards the rate exactly when it is less than a minute old or lies
/// ahead, towards the errors exactly when its status is one of 400 to 499, and towards the
/// endpoints exactly when no record before it has its path template.
pub proof fn law_one_record_more(
    b: Buckets,
    more: Buckets,
    records: Seq<RequestRecord>,
    r: RequestRecord,
    now: u64,
    rt: RateThresholds,
)
    requires
        summarises(b, records, now, rt),
        summarises(more, records.push(r), now, rt),
    ensures
        more.rate_per_min == b.rate_per_min + if now - r.ts_ms < 60_000 {
            1int
        } else {
            0int
        },
        more.error_ratio.part == b.error_ratio.part + if r.status >= 400 && r.status <= 499 {
            1int
        } else {
            0int
        },
        more.error_ratio.whole == b.error_ratio.whole + 1,
        more.distinct_paths == b.distinct_paths + if exists|i: int|
            0 <= i < records.len() && (#[trigger] records[i]).path_template@ == r.path_template@ {
            0int
        } else {
            1int
        },
{
    reveal(Seq::filter);
    let all = records.push(r);
    assert(all.drop_last() =~= records);
    let before = templates(records);
    let after = templates(all);
    let t = r.path_template@;
    assert(after =~= before.push(t));
    assert forall|x: Seq<char>| after.to_set().contains(x) == before.to_set().insert(t).contains(x) by {
        if before.contains(x) {
            let k = choose|k: int| 0 <= k < before.len() && before[k] == x;
            assert(after[k] == x);
        }
        if x == t {
            assert(after[before.len() as int] == x);
        }
        if after.contains(x) {
            let k = choose|k: int| 0 <= k < after.len() && after[k] == x;
            if k < before.len() {
                assert(before[k] == x);
            }
        }
    }
    assert(after.to_set() =~= before.to_set().insert(t));
    vstd::seq_lib::seq_to_set_is_finite(before);
    if exists|i: int|
        0 <= i < records.len() && (#[trigger] records[i]).path_template@ == r.path_template@ {
        let i = choose|i: int|
            0 <= i < records.len() && (#[trigger] records[i]).path_template@ == r.path_template@;
        assert(before[i] == t);
        assert(before.to_set().contains(t));
        assert(before.to_set().insert(t) =~= before.to_set());
    } else {
        if before.to_set().contains(t) {
            let i = choose|i: int| 0 <= i < before.len() && before[i] == t;
            assert(records[i].path_template@ == t);
        }
    }
}

/// The buckets follow from the counts: the rate by the thresholds, the errors by 30% and 10%
/// of all answers, and the endpoints by 2 and 5.
pub proof fn law_buckets_follow_from_counts(
    b: Buckets,
    records: Seq<RequestRecord>,
    now: u64,
    rt: RateThresholds,
)
    requires
        summarises(b, records, now, rt),
    ensures
        b.rate == RateBucket::VeryHigh <==> b.rate_per_min >= rt.very_high,
        b.rate == RateBucket::High <==> rt.high <= b.rate_per_min < rt.very_high,
        b.rate == RateBucket::Medium <==> rt.medium <= b.rate_per_min && b.rate_per_min < rt.high
            && b.rate_per_min < rt.very_high,
        b.rate == RateBucket::Low <==> b.rate_per_min < rt.medium && b.rate_per_min < rt.high
            && b.rate_per_min < rt.very_high,
        b.error_ratio.whole == records.len(),
        b.error == ErrorBucket::High <==> b.error_ratio.whole > 0 && b.error_ratio.part * 10
            >= b.error_ratio.whole * 3,
        b.error == ErrorBucket::Low <==> b.error_ratio.whole == 0 || b.error_ratio.part * 10
            < b.error_ratio.whole,
        b.distinct == DistinctBucket::Few <==> b.distinct_paths <= 2,
        b.distinct == DistinctBucket::Many <==> b.distinct_paths > 5,
{
}

/// A part reaches a share of a whole by cross multiplication, and none of nothing.
pub proof fn law_share_is_reached(part: int, whole: int, num: int, den: int)
    ensures
        reaches(part, whole, num, den) <==> whole > 0 && part * den >= num * whole,
{
}

/// In a window whose answers are all among the statuses from 400 to 499, each is an error, and
/// the share is high. In one without such an answer none is, and it is low.
pub proof fn law_every_4xx_is_an_error(
    b: Buckets,
    records: Seq<RequestRecord>,
    now: u64,
    rt: RateThresholds,
)
    requires
        summarises(b, records, now, rt),
    ensures
        (forall|i: int| 0 <= i < records.len() ==> 400 <= (#[trigger] records[i]).status <= 499)
            ==> b.error_ratio.part == b.error_ratio.whole && (records.len() > 0 ==> b.error
            == ErrorBucket::High),
        (forall|i: int|
            0 <= i < records.len() ==> !(400 <= (#[trigger] records[i]).status <= 499)) ==> {
            &&& b.error_ratio.part == 0
            &&& b.error == ErrorBucket::Low
        },
{
    lemma_error_extremes(records);
}

/// The errors of a window in which every answer, or none, has a status from 400 to 499.
proof fn lemma_error_extremes(records: Seq<RequestRecord>)
    ensures
        (forall|i: int| 0 <= i < records.len() ==> 400 <= (#[trigger] records[i]).status <= 499)
            ==> error_count(records) == records.len(),
        (forall|i: int|
            0 <= i < records.len() ==> !(400 <= (#[trigger] records[i]).status <= 499))
            ==> error_count(records) == 0,
    decreases records.len(),
{
    reveal(Seq::filter);
    if records.len() > 0 {
        let front = records.drop_last();
        lemma_error_extremes(front);
        assert(forall|i: int| 0 <= i < front.len() ==> #[trigger] front[i] == records[i]);
        assert(records.last() == records[records.len() - 1]);
    }
}

/// In a window whose requests are all less than a minute old, each counts towards the rate. Where
/// they are all older, none does.
pub proof fn law_rate_counts_the_last_minute(
    b: Buckets,
    records: Seq<RequestRecord>,
    now: u64,
    rt: RateThresholds,
)
    requires
        summarises(b, records, now, rt),
    ensures
        (forall|i: int| 0 <= i < records.len() ==> now - (#[trigger] records[i]).ts_ms < 60_000)
            ==> b.rate_per_min == records.len(),
        (forall|i: int| 0 <= i < records.len() ==> now - (#[trigger] records[i]).ts_ms >= 60_000)
            ==> b.rate_per_min == 0,
{
    lemma_recent_extremes(records, now);
}

/// The rate of a window in which every request, or none, is less than a minute old.
proof fn lemma_recent_extremes(records: Seq<RequestRecord>, now: u64)
    ensures
        (forall|i: int| 0 <= i < records.len() ==> now - (#[trigger] records[i]).ts_ms < 60_000)
            ==> recent_count(records, now) == records.len(),
        (forall|i: int| 0 <= i < records.len() ==> now - (#[trigger] records[i]).ts_ms >= 60_000)
            ==> recent_count(records, now) == 0,
    decreases records.len(),
{
    reveal(Seq::filter);
    if records.len() > 0 {
        let front = records.drop_last();
        lemma_recent_extremes(front, now);
        assert(forall|i: int| 0 <= i < front.len() ==> #[trigger] front[i] == records[i]);
        assert(records.last() == records[records.len() - 1]);
    }
}

/// The places in a row of ids at which an id differs by one from the id before it.
pub open spec fn steps(ids: Seq<i64>) -> Set<int> {
    Set::new(|k: int| 1 <= k < ids.len() && (ids[k] == ids[k - 1] + 1 || ids[k] == ids[k - 1] - 1))
}

/// Counting the steps of a row is counting the places.
proof fn lemma_steps(ids: Seq<i64>)
    ensures
        steps(ids).finite(),
        steps(ids).len() == adjacent_count(ids),
    decreases ids.len(),
{
    if ids.len() < 2 {
        assert(steps(ids) =~= Set::empty());
    } else {
        let front = ids.drop_last();
        lemma_steps(front);
        let last = ids.len() - 1;
        assert(!steps(front).contains(last));
        if adjacent(ids[last - 1], ids[last]) {
            assert(steps(ids) =~= steps(front).insert(last));
        } else {
            assert(steps(ids) =~= steps(front));
        }
    }
}

/// The ids of a window in which every record has one.
proof fn lemma_ids(records: Seq<RequestRecord>)
    requires
        forall|i: int| 0 <= i < records.len() ==> (#[trigger] records[i]).id is Some,
    ensures
        ids_of(records).len() == records.len(),
        forall|i: int|
            0 <= i < records.len() ==> #[trigger] ids_of(records)[i] == records[i].id->0,
    decreases records.len(),
{
    reveal(Seq::filter_map);
    if records.len() > 0 {
        let front = records.drop_last();
        assert(forall|i: int| 0 <= i < front.len() ==> #[trigger] front[i] == records[i]);
        lemma_ids(front);
        assert(records.last() == records[records.len() - 1]);
        assert forall|i: int| 0 <= i < records.len() implies #[trigger] ids_of(records)[i]
            == records[i].id->0 by {
            if i < front.len() {
                assert(ids_of(records)[i] == ids_of(front)[i]);
            }
        }
    }
}

/// A window in which every record has an id walks through the ids exactly when there are at
/// least four records and 70% of the ids after the first differ by one from the id before.
pub proof fn law_walk_is_seventy_percent(
    b: Buckets,
    records: Seq<RequestRecord>,
    ids: Seq<i64>,
    now: u64,
    rt: RateThresholds,
)
    requires
        summarises(b, records, now, rt),
        ids.len() == records.len(),
        forall|i: int| 0 <= i < records.len() ==> (#[trigger] records[i]).id == Some(ids[i]),
    ensures
        b.sequential_ids <==> ids.len() >= 4 && steps(ids).len() * 10 >= (ids.len() - 1) * 7,
{
    lemma_ids(records);
    assert forall|i: int| 0 <= i < ids.len() implies #[trigger] ids_of(records)[i] == ids[i] by {
        assert(records[i].id == Some(ids[i]));
    }
    assert(ids_of(records) =~= ids);
    lemma_steps(ids);
}

/// The ids of a window are those of its records, so a record without one adds none.
proof fn lemma_no_id_no_trace(records: Seq<RequestRecord>, k: int, r: RequestRecord)
    requires
        0 <= k <= records.len(),
        r.id is None,
    ensures
        ids_of(records.insert(k, r)) == ids_of(records),
    decreases records.len(),
{
    reveal(Seq::filter_map);
    let all = records.insert(k, r);
    if k == records.len() {
        assert(all.drop_last() =~= records);
        assert(all.last() == r);
    } else {
        assert(all.drop_last() =~= records.drop_last().insert(k, r));
        assert(all.last() == records.last());
        lemma_no_id_no_trace(records.drop_last(), k, r);
    }
}

/// A record without an id, wherever it stands, neither makes nor breaks a walk.
pub proof fn law_record_without_id_breaks_no_walk(
    b: Buckets,
    more: Buckets,
    records: Seq<RequestRecord>,
    k: int,
    r: RequestRecord,
    now: u64,
    rt: RateThresholds,
)
    requires
        0 <= k <= records.len(),
        r.id is None,
        summarises(b, records, now, rt),
        summarises(more, records.insert(k, r), now, rt),
    ensures
        more.sequential_ids == b.sequential_ids,
{
    lemma_no_id_no_trace(records, k, r);
}

/// The judge is worth asking exactly when the rate is medium, high or very high, or the share
/// of errors is high.
pub proof fn law_unusual_is_fast_or_failing(b: Buckets)
    ensures
        unusual(b) <==> b.rate == RateBucket::Medium || b.rate == RateBucket::High || b.rate
            == RateBucket::VeryHigh || b.error == ErrorBucket::High,
{
}

/// Of a configured list the first three thresholds count, in rising order; a list of fewer
/// gives 20, 40 and 80.
pub proof fn law_thresholds_are_those_listed(v: Seq<u64>, x: u64)
    ensures
        v.len() < 3 ==> ladder(v) == (RateThresholds { medium: 20, high: 40, very_high: 80 }),
        v.len() >= 3 ==> {
            let t = ladder(v);
            &&& t.medium <= t.high <= t.very_high
            &&& t.medium <= v[0] && t.medium <= v[1] && t.medium <= v[2]
            &&& t.very_high >= v[0] && t.very_high >= v[1] && t.very_high >= v[2]
            &&& t.medium + t.high + t.very_high == v[0] + v[1] + v[2]
            &&& t.medium == v[0] || t.medium == v[1] || t.medium == v[2]
            &&& t.very_high == v[0] || t.very_high == v[1] || t.very_high == v[2]
        },
        v.len() >= 3 ==> ladder(v.push(x)) == ladder(v),
{
}

/// A rate is in the highest bucket whose threshold it reaches.
pub proof fn law_rate_reaches_its_threshold(rpm: int, rt: RateThresholds)
    ensures
        rpm >= rt.very_high ==> rate_of(rpm, rt) == RateBucket::VeryHigh,
        rt.high <= rpm < rt.very_high ==> rate_of(rpm, rt) == RateBucket::High,
        rt.medium <= rpm && rpm < rt.high && rpm < rt.very_high ==> rate_of(rpm, rt)
            == RateBucket::Medium,
        rpm < rt.medium && rpm < rt.high && rpm < rt.very_high ==> rate_of(rpm, rt)
            == RateBucket::Low,
{
}

/// The buckets have these words.
pub proof fn law_words_of_the_buckets()
    ensures
        RateBucket::Low.spelled() == "low"@,
        RateBucket::Medium.spelled() == "medium"@,
        RateBucket::High.spelled() == "high"@,
        RateBucket::VeryHigh.spelled() == "very high"@,
        ErrorBucket::Low.spelled() == "low"@,
        ErrorBucket::Medium.spelled() == "medium"@,
        ErrorBucket::High.spelled() == "high"@,
        DistinctBucket::Few.spelled() == "few"@,
        DistinctBucket::Several.spelled() == "some"@,
        DistinctBucket::Many.spelled() == "many"@,
{
}

// ---- Path templates ----

/// `s` is one or more of the digits `0` to `9`.
pub open spec fn all_digits(s: Seq<char>) -> bool {
    s.len() > 0 && forall|i: int| 0 <= i < s.len() ==> '0' <= (#[trigger] s[i]) <= '9'
}

/// `s` is groups of 8, 4, 4, 4 and 12 hexadecimal digits with dashes between.
pub open spec fn dashed_hex(s: Seq<char>) -> bool {
    &&& s.len() == 36
    &&& forall|i: int|
        0 <= i < 36 ==> if i == 8 || i == 13 || i == 18 || i == 23 {
            (#[trigger] s[i]) == '-'
        } else {
            '0' <= s[i] <= '9' || 'a' <= s[i] <= 'f' || 'A' <= s[i] <= 'F'
        }
}

/// Cutting a text at the first separator leaves what stands before it.
proof fn lemma_before(a: Seq<char>, b: Seq<char>, sep: char)
    requires
        !a.contains(sep),
        b.len() == 0 || b[0] == sep,
    ensures
        split(a + b, sep)[0] == a,
        b.len() > 0 ==> split(a + b, sep).len() >= 2,
    decreases b.len(),
{
    lemma_split_pieces(a + b, sep);
    if b.len() == 0 {
        assert(a + b =~= a);
        lemma_split_whole(a, sep);
    } else {
        let c = b.drop_last();
        assert((a + b).drop_last() =~= a + c);
        assert((a + b).last() == b.last());
        lemma_split_pieces(a + c, sep);
        if c.len() > 0 {
            assert(c[0] == b[0]);
        }
        lemma_before(a, c, sep);
    }
}

/// The first number among segments stands before all others.
proof fn lemma_first_numeric(parts: Seq<Seq<char>>, i: int)
    requires
        0 <= i < parts.len(),
        all_digits(parts[i]),
        forall|k: int| 0 <= k < i ==> !all_digits(#[trigger] parts[k]),
    ensures
        first_numeric(parts) == Some(parts[i]),
    decreases parts.len(),
{
    let front = parts.drop_last();
    assert(forall|k: int| 0 <= k < front.len() ==> #[trigger] front[k] == parts[k]);
    if i < front.len() {
        lemma_first_numeric(front, i);
    } else {
        lemma_no_numeric(front);
    }
}

/// Segments without a number have no first one.
proof fn lemma_no_numeric(parts: Seq<Seq<char>>)
    requires
        forall|k: int| 0 <= k < parts.len() ==> !all_digits(#[trigger] parts[k]),
    ensures
        first_numeric(parts) is None,
    decreases parts.len(),
{
    if parts.len() > 0 {
        let front = parts.drop_last();
        assert(forall|k: int| 0 <= k < front.len() ==> #[trigger] front[k] == parts[k]);
        lemma_no_numeric(front);
        assert(!all_digits(parts[parts.len() - 1]));
    }
}

/// A path of the given segments, with any query behind it, has the template in which each
/// segment that is a number or a UUID is `{id}` and each other one stays. Where that is
/// nothing, it is `/`.
pub proof fn law_template_collapses_ids(
    parts: Seq<Seq<char>>,
    collapsed: Seq<Seq<char>>,
    query: Seq<char>,
)
    requires
        parts.len() > 0,
        forall|i: int|
            0 <= i < parts.len() ==> !(#[trigger] parts[i]).contains('/') && !parts[i].contains('?'),
        query.len() == 0 || query[0] == '?',
        collapsed.len() == parts.len(),
        forall|i: int|
            0 <= i < parts.len() ==> #[trigger] collapsed[i] == if all_digits(parts[i])
                || dashed_hex(parts[i]) {
                "{id}"@
            } else {
                parts[i]
            },
    ensures
        segments(join(parts, '/') + query) == parts,
        template_of(join(parts, '/') + query) == if join(collapsed, '/').len() == 0 {
            seq!['/']
        } else {
            join(collapsed, '/')
        },
{
    let path = join(parts, '/') + query;
    assert forall|i: int| 0 <= i < parts.len() implies !(#[trigger] parts[i]).contains('?') by {}
    lemma_join_chars(parts, '/', '?');
    lemma_before(join(parts, '/'), query, '?');
    lemma_split_join(parts, '/');
    assert(segments(path) == parts);
    assert forall|i: int| 0 <= i < parts.len() implies template_segments(parts)[i] == collapsed[i] by {
        let s = parts[i];
        assert(numeric(s) == all_digits(s));
        assert(uuid(s) == dashed_hex(s));
        assert(collapsed[i] == if all_digits(s) || dashed_hex(s) {
            "{id}"@
        } else {
            s
        });
    }
    assert(template_segments(parts) =~= collapsed);
}

/// The id of a path is the value of its first segment that is a number, where that fits in an
/// `i64`, and no other segment counts.
pub proof fn law_id_is_the_first_number(parts: Seq<Seq<char>>, i: int)
    requires
        0 <= i <= parts.len(),
        forall|k: int| 0 <= k < i ==> !all_digits(#[trigger] parts[k]),
        i < parts.len() ==> all_digits(parts[i]),
    ensures
        i == parts.len() ==> first_id(parts) is None,
        i < parts.len() && number(parts[i]) <= 0x7FFF_FFFF_FFFF_FFFF ==> first_id(parts) is Some
            && first_id(parts)->0 == number(parts[i]),
        i < parts.len() && number(parts[i]) > 0x7FFF_FFFF_FFFF_FFFF ==> first_id(parts) is None,
{
    if i < parts.len() {
        lemma_first_numeric(parts, i);
    } else {
        lemma_no_numeric(parts);
    }
}

// ---- Lines for the judge ----

/// The judge is shown the newest records, at most as many as the limit, each with its method,
/// its path template, its id where it has one, and its status.
pub proof fn law_lines_show_the_newest(records: Seq<RequestRecord>, limit: int, k: int)
    requires
        0 <= limit,
        0 <= k < recent_lines(records, limit).len(),
    ensures
        recent_lines(records, limit).len() == if records.len() <= limit {
            records.len() as int
        } else {
            limit
        },
        ({
            let r = records[records.len() - recent_lines(records, limit).len() + k];
            recent_lines(records, limit)[k] == match r.id {
                Some(id) => r.method@ + " "@ + r.path_template@ + " (id="@ + signed_decimal(
                    id as int,
                ) + ")"@ + " "@ + decimal(r.status as nat),
                None => r.method@ + " "@ + r.path_template@ + " "@ + decimal(r.status as nat),
            }
        }),
{
    let r = records[records.len() - recent_lines(records, limit).len() + k];
    assert(recent_lines(records, limit)[k] == request_line(r));
    match r.id {
        Some(id) => {
            assert(request_line(r) =~= r.method@ + " "@ + r.path_template@ + " (id="@
                + signed_decimal(id as int) + ")"@ + " "@ + decimal(r.status as nat));
        },
        None => {
            assert(request_line(r) =~= r.method@ + " "@ + r.path_template@ + " "@ + decimal(
                r.status as nat,
            ));
        },
    }
}

// ---- Verdicts ----

/// Any choice other than normal use that is made with enough confidence is the verdict. Any
/// other answer, and none, leaves the client in order.
pub proof fn law_confident_choice_is_the_verdict(
    choice: Seq<char>,
    confidence: u64,
    min_confidence: u64,
)
    ensures
        at_least(confidence, min_confidence) ==> verdict_of(
            Some((choice, confidence)),
            min_confidence,
        ) == choice,
        !at_least(confidence, min_confidence) ==> verdict_of(
            Some((choice, confidence)),
            min_confidence,
        ) == "normal_use"@,
        verdict_of(None, min_confidence) == "normal_use"@,
{
}

/// An answer is seen with its choice and its confidence.
pub proof fn law_answer_is_seen_in_full(choice: String, confidence: Double)
    ensures
        behaviour_of(Signals { behaviour: Some((choice, confidence)) }) == Some(
            (choice@, confidence.bits),
        ),
        behaviour_of(Signals { behaviour: None }) is None,
{
}

// ---- The window ----

/// A window to which a record was appended holds the newest records in their order, that one
/// last: as many as its size, but at least one, or all where there are fewer.
pub proof fn law_append_drops_the_oldest(
    records: Seq<RequestRecord>,
    rec: RequestRecord,
    window_size: usize,
)
    ensures
        ({
            let after = newest(records.push(rec), window_cap(window_size));
            &&& window_size == 0 ==> after.len() == 1
            &&& window_size > 0 && records.len() < window_size ==> after == records.push(rec)
            &&& window_size > 0 && records.len() >= window_size ==> after.len() == window_size
            &&& after.last() == rec
            &&& forall|k: int|
                0 <= k < after.len() - 1 ==> #[trigger] after[k] == records[records.len() + 1
                    - after.len() + k]
        }),
{
}

} // verus!
