//! Billing-history records: which of them count, when they happened, how
//! many tokens they used, and their totals over today and the last 30 days.

use vstd::prelude::*;
use crate::dates::{
    Timestamp, before, day_start_secs, is_before, parse_date_midnight, parse_date_time, parse_rfc3339, spec_parse_date,
    spec_parse_date_time, spec_parse_rfc3339, utc_seconds_valid, utc_from_seconds, utc_now,
};
use crate::numbers::{int_chars, int_text};
use crate::provider::ProviderError;
use crate::json::{JsonValue, count_value, scalar_string, scalar_text, value_i64};
use crate::ranking::{
    lemma_ranks_before_strict, lemma_ranks_before_transitive, name_before, ranks_before,
};
use crate::text::{chars_eq, chars_eq_ignore_ascii_case, chars_of, eq_ignore_ascii_case, string_of, trim, trim_chars};

verus! {

/// One charge of the billing history, as the service reports it.
#[derive(Debug)]
pub struct BillingRecord {
    pub consume_token: Option<JsonValue>,
    pub consume_input_token: Option<JsonValue>,
    pub consume_output_token: Option<JsonValue>,
    pub consume_cash: Option<JsonValue>,
    pub consume_cash_after_voucher: Option<JsonValue>,
    pub created_at: Option<JsonValue>,
    pub ymd: Option<String>,
    pub consume_time: Option<String>,
    pub method: Option<String>,
    pub model: Option<String>,
    pub result: Option<JsonValue>,
    pub status: Option<JsonValue>,
}

/// The outcome a record reports: its `result`, or else its `status`.
pub open spec fn outcome_text(r: BillingRecord) -> Option<Seq<char>> {
    if scalar_text(r.result) is Some {
        scalar_text(r.result)
    } else {
        scalar_text(r.status)
    }
}

/// A record counts unless it reports an outcome other than "success"
/// (compared without ASCII case, ignoring surrounding whitespace; a blank
/// outcome counts as none).
pub open spec fn record_succeeded(r: BillingRecord) -> bool {
    match outcome_text(r) {
        None => true,
        Some(s) => trim(s).len() == 0 || eq_ignore_ascii_case(trim(s), "success"@),
    }
}

pub fn billing_record_succeeded(record: &BillingRecord) -> (r: bool)
    ensures
        r == record_succeeded(*record),
{
    let status = match scalar_string(record.result.as_ref()) {
        Some(s) => Some(s),
        None => scalar_string(record.status.as_ref()),
    };
    match status {
        None => true,
        Some(value) => {
            let trimmed = trim_chars(&chars_of(value.as_str()));
            if trimmed.len() == 0 {
                true
            } else {
                chars_eq_ignore_ascii_case(&trimmed, &chars_of("success"))
            }
        },
    }
}

/// An optional count, zero when absent.
pub open spec fn count_or_zero(v: Option<JsonValue>) -> int {
    match count_value(v) {
        Some(n) => n as int,
        None => 0,
    }
}

/// The tokens a record used: its total when positive, otherwise the sum of
/// its input and output tokens.
pub open spec fn record_tokens(r: BillingRecord) -> int {
    if count_or_zero(r.consume_token) > 0 {
        count_or_zero(r.consume_token)
    } else {
        count_or_zero(r.consume_input_token) + count_or_zero(r.consume_output_token)
    }
}

/// Whether `v` fits in an `i64`.
pub open spec fn fits_i64(v: int) -> bool {
    i64::MIN <= v <= i64::MAX
}

pub fn record_token_count(record: &BillingRecord) -> (r: i64)
    requires
        fits_i64(record_tokens(*record)),
    ensures
        r == record_tokens(*record),
{
    let direct = match value_i64(record.consume_token.as_ref()) {
        Some(n) => n,
        None => 0,
    };
    if direct > 0 {
        return direct;
    }
    let input = match value_i64(record.consume_input_token.as_ref()) {
        Some(n) => n,
        None => 0,
    };
    let output = match value_i64(record.consume_output_token.as_ref()) {
        Some(n) => n,
        None => 0,
    };
    input + output
}

/// Decides whether a record's token count fits in an `i64`.
pub fn record_tokens_fit(record: &BillingRecord) -> (r: bool)
    ensures
        r == fits_i64(record_tokens(*record)),
{
    let direct = match value_i64(record.consume_token.as_ref()) {
        Some(n) => n,
        None => 0,
    };
    if direct > 0 {
        return true;
    }
    let input = match value_i64(record.consume_input_token.as_ref()) {
        Some(n) => n,
        None => 0,
    };
    let output = match value_i64(record.consume_output_token.as_ref()) {
        Some(n) => n,
        None => 0,
    };
    input.checked_add(output).is_some()
}

/// Seconds from a creation stamp, which may be given in milliseconds
/// (any value above 10^12).
pub open spec fn created_seconds(v: i64) -> i64 {
    if v > 1_000_000_000_000 {
        (v / 1000) as i64
    } else {
        v
    }
}

/// The first of two optional instants that is present.
pub open spec fn first_of<T>(a: Option<T>, b: Option<T>) -> Option<T> {
    if a is Some {
        a
    } else {
        b
    }
}

/// The midnight of a date written in one of the accepted day formats.
pub open spec fn ymd_instant(text: Seq<char>) -> Option<i64> {
    first_of(
        spec_parse_date(trim(text), "%Y-%m-%d"@),
        first_of(spec_parse_date(trim(text), "%Y%m%d"@), spec_parse_date(trim(text), "%Y/%m/%d"@)),
    )
}

/// The instant of a date and time written in one of the accepted formats.
pub open spec fn time_instant(text: Seq<char>) -> Option<(i64, u32)> {
    first_of(
        spec_parse_date_time(trim(text), "%Y-%m-%d %H:%M:%S"@),
        first_of(
            spec_parse_date_time(trim(text), "%Y/%m/%d %H:%M:%S"@),
            spec_parse_rfc3339(trim(text)),
        ),
    )
}

/// When a record happened: its creation stamp when it has one (and nothing
/// if that stamp is out of range), else its day, else its consume time.
pub open spec fn record_instant(r: BillingRecord) -> Option<Timestamp> {
    match count_value(r.created_at) {
        Some(c) => if utc_seconds_valid(created_seconds(c)) {
            Some(Timestamp { secs: created_seconds(c), nanos: 0 })
        } else {
            None
        },
        None => {
            let from_day = match r.ymd {
                Some(y) => ymd_instant(y@),
                None => None,
            };
            match from_day {
                Some(secs) => Some(Timestamp { secs, nanos: 0 }),
                None => match r.consume_time {
                    Some(t) => match time_instant(t@) {
                        Some(p) => Some(Timestamp { secs: p.0, nanos: p.1 }),
                        None => None,
                    },
                    None => None,
                },
            }
        },
    }
}

pub fn record_date(record: &BillingRecord) -> (r: Option<Timestamp>)
    ensures
        r == record_instant(*record),
{
    if let Some(created_at) = value_i64(record.created_at.as_ref()) {
        let seconds = if created_at > 1_000_000_000_000 {
            created_at / 1000
        } else {
            created_at
        };
        return utc_from_seconds(seconds);
    }
    if let Some(ymd) = &record.ymd {
        let text = string_of(&trim_chars(&chars_of(ymd.as_str())));
        if let Some(t) = parse_date_midnight(text.as_str(), "%Y-%m-%d") {
            return Some(t);
        }
        if let Some(t) = parse_date_midnight(text.as_str(), "%Y%m%d") {
            return Some(t);
        }
        if let Some(t) = parse_date_midnight(text.as_str(), "%Y/%m/%d") {
            return Some(t);
        }
    }
    if let Some(consume_time) = &record.consume_time {
        let text = string_of(&trim_chars(&chars_of(consume_time.as_str())));
        if let Some(t) = parse_date_time(text.as_str(), "%Y-%m-%d %H:%M:%S") {
            return Some(t);
        }
        if let Some(t) = parse_date_time(text.as_str(), "%Y/%m/%d %H:%M:%S") {
            return Some(t);
        }
        if let Some(t) = parse_rfc3339(text.as_str()) {
            return Some(t);
        }
    }
    None
}


/// Tokens and records of the charges that share a method or model name.
#[derive(Debug)]
pub struct BillingBreakdown {
    pub name: String,
    pub tokens: i64,
    /// Positions of the charges in the record list, in order.
    pub records: Vec<usize>,
    /// Whether any of these charges carries a cash amount.
    pub has_cash: bool,
}

/// Whether breakdown `a` is listed before breakdown `b`.
pub open spec fn listed_before(a: BillingBreakdown, b: BillingBreakdown) -> bool {
    ranks_before(a.tokens as int, a.name@, b.tokens as int, b.name@)
}

/// Whether no two breakdowns share a name.
pub open spec fn distinct_names(all: Seq<BillingBreakdown>) -> bool {
    forall|i: int, j: int| 0 <= i < j < all.len() ==> all[i].name@ != all[j].name@
}

/// Whether two breakdowns hold the same name, totals and records.
pub open spec fn same_breakdown(a: BillingBreakdown, b: BillingBreakdown) -> bool {
    &&& a.name@ == b.name@
    &&& a.tokens == b.tokens
    &&& a.records@ == b.records@
    &&& a.has_cash == b.has_cash
}

/// Whether `b` is one of the breakdowns of `all`.
pub open spec fn entry_of(b: BillingBreakdown, all: Seq<BillingBreakdown>) -> bool {
    exists|j: int| 0 <= j < all.len() && #[trigger] same_breakdown(b, all[j])
}

/// Whether `top` lists the first three of `all` (or all of them, when
/// fewer) in listing order: every entry comes from `all`, each is listed
/// before the next, and every entry left out is listed after the last.
pub open spec fn is_top_three(top: Seq<BillingBreakdown>, all: Seq<BillingBreakdown>) -> bool {
    &&& top.len() == if all.len() < 3 {
        all.len()
    } else {
        3
    }
    &&& forall|i: int| 0 <= i < top.len() ==> #[trigger] entry_of(top[i], all)
    &&& forall|i: int, j: int| 0 <= i < j < top.len() ==> listed_before(top[i], top[j])
    &&& forall|j: int|
        0 <= j < all.len() && (forall|i: int| 0 <= i < top.len() ==> top[i].name@ != all[j].name@)
            ==> listed_before(top[top.len() - 1], all[j])
}

/// Whether position `j` is among `top`.
pub open spec fn holds_position(top: Seq<usize>, j: int) -> bool {
    exists|t: int| 0 <= t < top.len() && top[t] == j
}

/// Positions `top` into `all` hold the first three of `all[..m]` in
/// listing order.
pub open spec fn top_positions(all: Seq<BillingBreakdown>, top: Seq<usize>, m: int) -> bool {
    &&& top.len() == if m < 3 {
        m
    } else {
        3
    }
    &&& forall|t: int| 0 <= t < top.len() ==> top[t] < m
    &&& top.len() < 3 ==> forall|j: int| 0 <= j < m ==> #[trigger] holds_position(top, j)
    &&& forall|t1: int, t2: int|
        0 <= t1 < t2 < top.len() ==> listed_before(all[top[t1] as int], all[top[t2] as int])
    &&& forall|j: int|
        #![trigger all[j]]
        0 <= j < m && (forall|t: int| 0 <= t < top.len() ==> top[t] != j) ==> listed_before(
            all[top[top.len() - 1] as int],
            all[j],
        )
}

proof fn lemma_listed_before_facts(a: BillingBreakdown, b: BillingBreakdown, c: BillingBreakdown)
    ensures
        listed_before(a, b) ==> !listed_before(b, a),
        !listed_before(a, a),
        a.name@ != b.name@ ==> listed_before(a, b) || listed_before(b, a),
        listed_before(a, b) && listed_before(b, c) ==> listed_before(a, c),
{
    lemma_ranks_before_strict(a.tokens as int, a.name@, b.tokens as int, b.name@);
    lemma_ranks_before_transitive(
        a.tokens as int,
        a.name@,
        b.tokens as int,
        b.name@,
        c.tokens as int,
        c.name@,
    );
}

/// Inserting entry `m` at its place keeps the first three in order.
proof fn lemma_top_insert(all: Seq<BillingBreakdown>, top: Seq<usize>, m: usize, p: int)
    requires
        distinct_names(all),
        0 <= m < all.len(),
        top_positions(all, top, m as int),
        0 <= p <= top.len(),
        forall|t: int| 0 <= t < p ==> listed_before(all[top[t] as int], all[m as int]),
        p < top.len() ==> !listed_before(all[top[p] as int], all[m as int]),
    ensures
        top_positions(
            all,
            if top.insert(p, m).len() > 3 {
                top.insert(p, m).take(3)
            } else {
                top.insert(p, m)
            },
            m + 1,
        ),
{
    let ins = top.insert(p, m);
    let new = if ins.len() > 3 {
        ins.take(3)
    } else {
        ins
    };
    assert forall|t: int| p <= t < top.len() implies listed_before(
        all[m as int],
        all[top[t] as int],
    ) by {
        lemma_listed_before_facts(all[top[p] as int], all[m as int], all[top[t] as int]);
        lemma_listed_before_facts(all[m as int], all[top[p] as int], all[top[t] as int]);
        if t > p {
            assert(listed_before(all[top[p] as int], all[top[t] as int]));
        }
    }
    assert forall|i: int| 0 <= i < ins.len() implies ins[i] == (if i < p {
        top[i]
    } else if i == p {
        m
    } else {
        top[i - 1]
    }) by {}
    assert forall|i: int| 0 <= i < new.len() implies new[i] == ins[i] by {}
    if top.len() < 3 {
        assert forall|j: int| 0 <= j < m + 1 implies #[trigger] holds_position(new, j) by {
            if j == m {
                assert(new[p] == j);
            } else {
                assert(holds_position(top, j));
                assert(new == ins);
                let t = choose|t: int| 0 <= t < top.len() && top[t] == j;
                if t < p {
                    assert(new[t] == j);
                } else {
                    assert(new[t + 1] == j);
                }
            }
        }
    }
    assert forall|t1: int, t2: int| 0 <= t1 < t2 < new.len() implies listed_before(
        all[new[t1] as int],
        all[new[t2] as int],
    ) by {
        if t1 < p && t2 > p {
            lemma_listed_before_facts(all[top[t1] as int], all[m as int], all[top[t2 - 1] as int]);
        }
    }
    assert forall|j: int|
        #![trigger all[j]]
        0 <= j < m + 1 && (forall|t: int| 0 <= t < new.len() ==> new[t] != j) implies listed_before(
        all[new[new.len() - 1] as int],
        all[j],
    ) by {
        if top.len() < 3 {
            assert(top.len() == m);
            assert(new == ins);
            assert(holds_position(new, j));
        } else {
            let last = top[2];
            // The new last entry is the old last or comes before it.
            assert(new[2] == last || listed_before(all[new[2] as int], all[last as int])) by {
                if p <= 1 {
                    assert(new[2] == top[1]);
                } else if p == 2 {
                    assert(new[2] == m);
                }
            }
            if j == m {
                assert(p == 3) by {
                    if p < 3 {
                        assert(new[p] == m);
                    }
                }
            } else if j == last {
                assert(p <= 2) by {
                    if p == 3 {
                        assert(new[2] == last);
                    }
                }
                if p <= 1 {
                    assert(new[2] == top[1]);
                } else {
                    assert(new[2] == m);
                }
            } else {
                assert forall|t: int| 0 <= t < top.len() implies top[t] != j by {
                    if t < p {
                        assert(new[t] == top[t]);
                    } else if t + 1 < 3 {
                        assert(new[t + 1] == top[t]);
                    }
                }
                lemma_listed_before_facts(all[new[2] as int], all[last as int], all[j]);
            }
        }
    }
}

/// A copy of a list of positions.
pub fn copy_positions(v: &Vec<usize>) -> (r: Vec<usize>)
    ensures
        r@ == v@,
{
    let mut out: Vec<usize> = Vec::new();
    let mut k: usize = 0;
    while k < v.len()
        invariant
            k <= v@.len(),
            out@ == v@.take(k as int),
        decreases v@.len() - k,
    {
        out.push(v[k]);
        assert(out@ =~= v@.take(k + 1));
        k = k + 1;
    }
    assert(v@.take(v@.len() as int) =~= v@);
    out
}

/// Decides `listed_before`.
fn is_listed_before(a: &BillingBreakdown, b: &BillingBreakdown) -> (r: bool)
    ensures
        r == listed_before(*a, *b),
{
    a.tokens > b.tokens || (a.tokens == b.tokens && name_before(
        &chars_of(a.name.as_str()),
        &chars_of(b.name.as_str()),
    ))
}

/// The first three breakdowns in listing order: most tokens first, ties by
/// name.
pub fn top_breakdowns(all: Vec<BillingBreakdown>) -> (top: Vec<BillingBreakdown>)
    requires
        distinct_names(all@),
    ensures
        is_top_three(top@, all@),
{
    let n = all.len();
    let mut pos: Vec<usize> = Vec::new();
    let mut m: usize = 0;
    while m < n
        invariant
            n == all@.len(),
            m <= n,
            distinct_names(all@),
            top_positions(all@, pos@, m as int),
        decreases n - m,
    {
        let mut p: usize = 0;
        while p < pos.len() && is_listed_before(&all[pos[p]], &all[m])
            invariant
                n == all@.len(),
                m < n,
                p <= pos@.len(),
                top_positions(all@, pos@, m as int),
                forall|t: int| 0 <= t < p ==> listed_before(all@[pos@[t] as int], all@[m as int]),
            decreases pos@.len() - p,
        {
            p = p + 1;
        }
        proof {
            lemma_top_insert(all@, pos@, m, p as int);
        }
        pos.insert(p, m);
        if pos.len() > 3 {
            pos.truncate(3);
        }
        m = m + 1;
    }
    let mut top: Vec<BillingBreakdown> = Vec::new();
    let mut t: usize = 0;
    while t < pos.len()
        invariant
            n == all@.len(),
            distinct_names(all@),
            top_positions(all@, pos@, n as int),
            t <= pos@.len(),
            top@.len() == t,
            forall|i: int| 0 <= i < t ==> same_breakdown(top@[i], all@[pos@[i] as int]),
        decreases pos@.len() - t,
    {
        let src = &all[pos[t]];
        top.push(
            BillingBreakdown {
                name: src.name.clone(),
                tokens: src.tokens,
                records: copy_positions(&src.records),
                has_cash: src.has_cash,
            },
        );
        t = t + 1;
    }
    assert forall|i: int| 0 <= i < top@.len() implies #[trigger] entry_of(top@[i], all@) by {
        let j = pos@[i] as int;
        assert(0 <= j < all@.len());
        assert(same_breakdown(top@[i], all@[j]));
    }
    assert forall|i: int, j: int| 0 <= i < j < top@.len() implies listed_before(
        top@[i],
        top@[j],
    ) by {
        assert(same_breakdown(top@[i], all@[pos@[i] as int]));
        assert(same_breakdown(top@[j], all@[pos@[j] as int]));
        assert(listed_before(all@[pos@[i] as int], all@[pos@[j] as int]));
    }
    assert forall|j: int|
        #![trigger all@[j]]
        0 <= j < all@.len() && (forall|i: int| 0 <= i < top@.len() ==> top@[i].name@ != all@[j].name@)
            implies listed_before(top@[top@.len() - 1], all@[j]) by {
        assert forall|i: int| 0 <= i < pos@.len() implies pos@[i] != j by {
            assert(top@[i].name@ == all@[pos@[i] as int].name@);
        }
    }
    top
}


/// Which name of a charge a breakdown groups by.
#[derive(Debug, Clone, Copy, PartialEq, Eq, Structural)]
pub enum BreakdownKind {
    Method,
    Model,
}

/// The name a charge is grouped under: its method or model, trimmed;
/// nothing when absent or blank.
pub open spec fn breakdown_key(r: BillingRecord, kind: BreakdownKind) -> Option<Seq<char>> {
    let raw = match kind {
        BreakdownKind::Method => r.method,
        BreakdownKind::Model => r.model,
    };
    match raw {
        Some(n) => if trim(n@).len() > 0 {
            Some(trim(n@))
        } else {
            None
        },
        None => None,
    }
}

/// The first second of the 30-day window: midnight 29 days before today.
pub open spec fn window_start_secs(now: Timestamp) -> int {
    day_start_secs(now) - 29 * 86400
}

/// Whether a charge counts for the 30-day window ending at `now`: it
/// succeeded, and it happened no earlier than the window's first second
/// and no later than `now`.
pub open spec fn in_window(r: BillingRecord, now: Timestamp) -> bool {
    record_succeeded(r) && match record_instant(r) {
        Some(d) => d.secs >= window_start_secs(now) && !before(now, d),
        None => false,
    }
}

/// Whether a charge counts for the 30-day window and happened today.
pub open spec fn in_today(r: BillingRecord, now: Timestamp) -> bool {
    in_window(r, now) && match record_instant(r) {
        Some(d) => d.secs >= day_start_secs(now),
        None => false,
    }
}

/// Charges of the window.
pub open spec fn window_filter(now: Timestamp) -> spec_fn(BillingRecord) -> bool {
    |r: BillingRecord| in_window(r, now)
}

/// Charges of today.
pub open spec fn today_filter(now: Timestamp) -> spec_fn(BillingRecord) -> bool {
    |r: BillingRecord| in_today(r, now)
}

/// Charges of the window grouped under `name`.
pub open spec fn group_filter(now: Timestamp, kind: BreakdownKind, name: Seq<char>) -> spec_fn(
    BillingRecord,
) -> bool {
    |r: BillingRecord| in_window(r, now) && breakdown_key(r, kind) == Some(name)
}

/// The tokens of the charges that `keep` selects.
pub open spec fn tally(rs: Seq<BillingRecord>, keep: spec_fn(BillingRecord) -> bool) -> int
    decreases rs.len(),
{
    if rs.len() == 0 {
        0
    } else {
        tally(rs.drop_last(), keep) + if keep(rs.last()) {
            record_tokens(rs.last())
        } else {
            0
        }
    }
}

/// The positions of the charges that `keep` selects, in order.
pub open spec fn tally_positions(rs: Seq<BillingRecord>, keep: spec_fn(BillingRecord) -> bool) -> Seq<
    usize,
>
    decreases rs.len(),
{
    if rs.len() == 0 {
        seq![]
    } else if keep(rs.last()) {
        tally_positions(rs.drop_last(), keep).push((rs.len() - 1) as usize)
    } else {
        tally_positions(rs.drop_last(), keep)
    }
}

/// Whether any of the charges at `positions` carries a cash amount.
pub open spec fn any_cash(positions: Seq<usize>, cash: Seq<bool>) -> bool {
    exists|j: int| 0 <= j < positions.len() && #[trigger] cash[positions[j] as int]
}

/// The names the window's charges are grouped under, in order of first
/// appearance.
pub open spec fn group_names(rs: Seq<BillingRecord>, now: Timestamp, kind: BreakdownKind) -> Seq<
    Seq<char>,
>
    decreases rs.len(),
{
    if rs.len() == 0 {
        seq![]
    } else {
        let prev = group_names(rs.drop_last(), now, kind);
        if in_window(rs.last(), now) {
            match breakdown_key(rs.last(), kind) {
                Some(g) => if prev.contains(g) {
                    prev
                } else {
                    prev.push(g)
                },
                None => prev,
            }
        } else {
            prev
        }
    }
}

/// Whether `b` holds the totals of the charges grouped under its name.
pub open spec fn totals_of_group(
    b: BillingBreakdown,
    rs: Seq<BillingRecord>,
    cash: Seq<bool>,
    now: Timestamp,
    kind: BreakdownKind,
) -> bool {
    &&& b.tokens == tally(rs, group_filter(now, kind, b.name@))
    &&& b.records@ == tally_positions(rs, group_filter(now, kind, b.name@))
    &&& b.has_cash == any_cash(b.records@, cash)
}

/// Whether `gs` holds one breakdown per group name, in order of first
/// appearance.
pub open spec fn all_groups(
    gs: Seq<BillingBreakdown>,
    rs: Seq<BillingRecord>,
    cash: Seq<bool>,
    now: Timestamp,
    kind: BreakdownKind,
) -> bool {
    &&& gs.len() == group_names(rs, now, kind).len()
    &&& forall|j: int|
        0 <= j < gs.len() ==> #[trigger] gs[j].name@ == group_names(rs, now, kind)[j]
            && totals_of_group(gs[j], rs, cash, now, kind)
}

/// Whether `top` lists the first three groups (or all, when fewer) in
/// listing order, each with its totals.
pub open spec fn top_groups(
    top: Seq<BillingBreakdown>,
    rs: Seq<BillingRecord>,
    cash: Seq<bool>,
    now: Timestamp,
    kind: BreakdownKind,
) -> bool {
    let names = group_names(rs, now, kind);
    &&& top.len() == if names.len() < 3 {
        names.len()
    } else {
        3
    }
    &&& forall|i: int|
        0 <= i < top.len() ==> names.contains(#[trigger] top[i].name@) && totals_of_group(
            top[i],
            rs,
            cash,
            now,
            kind,
        )
    &&& forall|i: int, j: int| 0 <= i < j < top.len() ==> listed_before(top[i], top[j])
    &&& forall|g: Seq<char>|
        #![trigger names.contains(g)]
        names.contains(g) && (forall|i: int| 0 <= i < top.len() ==> top[i].name@ != g)
            ==> ranks_before(
            top[top.len() - 1].tokens as int,
            top[top.len() - 1].name@,
            tally(rs, group_filter(now, kind, g)),
            g,
        )
}

/// Totals of the billing history over today and the last 30 days.
#[derive(Debug)]
pub struct BillingSummary {
    /// The instant the summary was taken at.
    pub at: Timestamp,
    pub today_tokens: i64,
    pub last_30_days_tokens: i64,
    /// Positions of today's charges.
    pub today_records: Vec<usize>,
    /// Positions of the window's charges.
    pub last_30_days_records: Vec<usize>,
    pub today_has_cash: bool,
    pub last_30_days_has_cash: bool,
    pub top_methods: Vec<BillingBreakdown>,
    pub top_models: Vec<BillingBreakdown>,
}

/// Whether `s` summarizes the charges `rs` at `now`; `cash` tells which
/// charges carry a cash amount.
pub open spec fn summarizes(s: BillingSummary, rs: Seq<BillingRecord>, cash: Seq<bool>, now: Timestamp) -> bool {
    &&& s.at == now
    &&& s.today_tokens == tally(rs, today_filter(now))
    &&& s.last_30_days_tokens == tally(rs, window_filter(now))
    &&& s.today_records@ == tally_positions(rs, today_filter(now))
    &&& s.last_30_days_records@ == tally_positions(rs, window_filter(now))
    &&& s.today_has_cash == any_cash(s.today_records@, cash)
    &&& s.last_30_days_has_cash == any_cash(s.last_30_days_records@, cash)
    &&& top_groups(s.top_methods@, rs, cash, now, BreakdownKind::Method)
    &&& top_groups(s.top_models@, rs, cash, now, BreakdownKind::Model)
}

/// Whether every token count and running total stays within `i64` as the
/// charges are added up in order (the sums overflow otherwise).
pub open spec fn tokens_fit(rs: Seq<BillingRecord>, now: Timestamp) -> bool {
    &&& forall|i: int|
        0 <= i < rs.len() && in_window(#[trigger] rs[i], now) ==> fits_i64(record_tokens(rs[i]))
    &&& forall|k: int|
        0 <= k <= rs.len() ==> fits_i64(#[trigger] tally(rs.take(k), window_filter(now)))
    &&& forall|k: int|
        0 <= k <= rs.len() ==> fits_i64(#[trigger] tally(rs.take(k), today_filter(now)))
    &&& forall|k: int, g: Seq<char>|
        0 <= k <= rs.len() ==> fits_i64(
            #[trigger] tally(rs.take(k), group_filter(now, BreakdownKind::Method, g)),
        )
    &&& forall|k: int, g: Seq<char>|
        0 <= k <= rs.len() ==> fits_i64(
            #[trigger] tally(rs.take(k), group_filter(now, BreakdownKind::Model, g)),
        )
}


proof fn lemma_take_step(rs: Seq<BillingRecord>, i: int)
    requires
        0 <= i < rs.len(),
    ensures
        rs.take(i + 1).drop_last() == rs.take(i),
        rs.take(i + 1).last() == rs[i],
        rs.take(i + 1).len() == i + 1,
{
    assert(rs.take(i + 1).drop_last() =~= rs.take(i));
}

/// Adding charge `i` to the charges before it.
proof fn lemma_tally_step(rs: Seq<BillingRecord>, i: int, keep: spec_fn(BillingRecord) -> bool)
    requires
        0 <= i < rs.len(),
    ensures
        tally(rs.take(i + 1), keep) == tally(rs.take(i), keep) + if keep(rs[i]) {
            record_tokens(rs[i])
        } else {
            0
        },
        tally_positions(rs.take(i + 1), keep) == if keep(rs[i]) {
            tally_positions(rs.take(i), keep).push(i as usize)
        } else {
            tally_positions(rs.take(i), keep)
        },
{
    lemma_take_step(rs, i);
}

/// Group names after adding charge `i`.
proof fn lemma_names_step(rs: Seq<BillingRecord>, i: int, now: Timestamp, kind: BreakdownKind)
    requires
        0 <= i < rs.len(),
    ensures
        group_names(rs.take(i + 1), now, kind) == if in_window(rs[i], now) {
            match breakdown_key(rs[i], kind) {
                Some(g) => if group_names(rs.take(i), now, kind).contains(g) {
                    group_names(rs.take(i), now, kind)
                } else {
                    group_names(rs.take(i), now, kind).push(g)
                },
                None => group_names(rs.take(i), now, kind),
            }
        } else {
            group_names(rs.take(i), now, kind)
        },
{
    lemma_take_step(rs, i);
}

/// A name no charge is grouped under has no tokens and no charges.
proof fn lemma_absent_group(rs: Seq<BillingRecord>, now: Timestamp, kind: BreakdownKind, g: Seq<char>)
    requires
        !group_names(rs, now, kind).contains(g),
    ensures
        tally(rs, group_filter(now, kind, g)) == 0,
        tally_positions(rs, group_filter(now, kind, g)) == Seq::<usize>::empty(),
    decreases rs.len(),
{
    if rs.len() > 0 {
        let prev = group_names(rs.drop_last(), now, kind);
        assert(!prev.contains(g)) by {
            if prev.contains(g) {
                let k = choose|k: int| 0 <= k < prev.len() && prev[k] == g;
                let cur = group_names(rs, now, kind);
                if in_window(rs.last(), now) && breakdown_key(rs.last(), kind) is Some {
                    let h = breakdown_key(rs.last(), kind)->0;
                    if !prev.contains(h) {
                        assert(cur[k] == g);
                    }
                }
                assert(cur.contains(g));
            }
        }
        lemma_absent_group(rs.drop_last(), now, kind, g);
        if group_filter(now, kind, g)(rs.last()) {
            let cur = group_names(rs, now, kind);
            if !prev.contains(g) {
                assert(cur[cur.len() - 1] == g);
            }
        }
    }
}

/// No name appears twice among the group names.
pub proof fn lemma_names_distinct(rs: Seq<BillingRecord>, now: Timestamp, kind: BreakdownKind)
    ensures
        group_names(rs, now, kind).no_duplicates(),
    decreases rs.len(),
{
    if rs.len() > 0 {
        lemma_names_distinct(rs.drop_last(), now, kind);
    }
}

/// Every group of a complete list of groups fits in an `i64`.
proof fn lemma_groups_fit(
    gs: Seq<BillingBreakdown>,
    rs: Seq<BillingRecord>,
    cash: Seq<bool>,
    now: Timestamp,
    kind: BreakdownKind,
    g: Seq<char>,
)
    requires
        all_groups(gs, rs, cash, now, kind),
    ensures
        fits_i64(tally(rs, group_filter(now, kind, g))),
{
    let names = group_names(rs, now, kind);
    if names.contains(g) {
        let j = choose|j: int| 0 <= j < names.len() && names[j] == g;
        assert(gs[j].name@ == names[j]);
    } else {
        lemma_absent_group(rs, now, kind, g);
    }
}

pub proof fn lemma_any_cash_push(positions: Seq<usize>, cash: Seq<bool>, i: usize)
    requires
        i < cash.len(),
    ensures
        any_cash(positions.push(i), cash) == (any_cash(positions, cash) || cash[i as int]),
{
    let p2 = positions.push(i);
    if any_cash(positions, cash) {
        let j = choose|j: int| 0 <= j < positions.len() && #[trigger] cash[positions[j] as int];
        assert(p2[j] == positions[j]);
    }
    if cash[i as int] {
        assert(p2[positions.len() as int] == i);
    }
    if any_cash(p2, cash) {
        let j = choose|j: int| 0 <= j < p2.len() && #[trigger] cash[p2[j] as int];
        if j < positions.len() {
            assert(p2[j] == positions[j]);
        }
    }
}

/// The record's raw name for a kind of breakdown.
pub open spec fn raw_name(r: BillingRecord, kind: BreakdownKind) -> Option<String> {
    match kind {
        BreakdownKind::Method => r.method,
        BreakdownKind::Model => r.model,
    }
}

/// Adds charge `position` (in the window, with `tokens` tokens) to the
/// breakdown of its name; false when that breakdown's tokens overflow.
fn add_breakdown(
    groups: &mut Vec<BillingBreakdown>,
    raw: &Option<String>,
    tokens: i64,
    position: usize,
    cash_here: bool,
    Ghost(rs): Ghost<Seq<BillingRecord>>,
    Ghost(cash): Ghost<Seq<bool>>,
    Ghost(now): Ghost<Timestamp>,
    Ghost(kind): Ghost<BreakdownKind>,
) -> (ok: bool)
    requires
        position < rs.len() == cash.len(),
        all_groups(old(groups)@, rs.take(position as int), cash, now, kind),
        in_window(rs[position as int], now),
        tokens == record_tokens(rs[position as int]),
        *raw == raw_name(rs[position as int], kind),
        cash_here == cash[position as int],
    ensures
        ok ==> all_groups(final(groups)@, rs.take(position + 1), cash, now, kind),
        !ok ==> exists|g: Seq<char>|
            !fits_i64(#[trigger] tally(rs.take(position + 1), group_filter(now, kind, g))),
{
    let ghost i = position as int;
    let ghost before_names = group_names(rs.take(i), now, kind);
    proof {
        lemma_names_step(rs, i, now, kind);
        lemma_names_distinct(rs.take(i), now, kind);
    }
    let key: Vec<char> = match raw {
        Some(n) => trim_chars(&chars_of(n.as_str())),
        None => Vec::new(),
    };
    if key.len() == 0 {
        proof {
            assert(breakdown_key(rs[i], kind) is None);
            assert forall|j: int| 0 <= j < groups@.len() implies #[trigger] groups@[j].name@
                == group_names(rs.take(i + 1), now, kind)[j] && totals_of_group(
                groups@[j],
                rs.take(i + 1),
                cash,
                now,
                kind,
            ) by {
                lemma_tally_step(rs, i, group_filter(now, kind, groups@[j].name@));
            }
        }
        return true;
    }
    let ghost g = key@;
    assert(breakdown_key(rs[i], kind) == Some(g));
    let mut j: usize = 0;
    while j < groups.len() && !chars_eq(&chars_of(groups[j].name.as_str()), &key)
        invariant
            j <= groups@.len(),
            key@ == g,
            forall|m: int| 0 <= m < j ==> groups@[m].name@ != g,
            all_groups(groups@, rs.take(i), cash, now, kind),
            before_names == group_names(rs.take(i), now, kind),
        decreases groups@.len() - j,
    {
        j = j + 1;
    }
    if j < groups.len() {
        let cur = groups[j].tokens;
        assert(before_names[j as int] == g);
        proof {
            lemma_tally_step(rs, i, group_filter(now, kind, g));
        }
        let total = match cur.checked_add(tokens) {
            Some(v) => v,
            None => {
                return false;
            },
        };
        let mut records = copy_positions(&groups[j].records);
        records.push(position);
        let updated = BillingBreakdown {
            name: groups[j].name.clone(),
            tokens: total,
            records,
            has_cash: groups[j].has_cash || cash_here,
        };
        proof {
            lemma_any_cash_push(groups@[j as int].records@, cash, position);
        }
        let ghost old_groups = groups@;
        groups.set(j, updated);
        proof {
            assert(before_names.contains(g));
            assert forall|m: int| 0 <= m < groups@.len() implies #[trigger] groups@[m].name@
                == group_names(rs.take(i + 1), now, kind)[m] && totals_of_group(
                groups@[m],
                rs.take(i + 1),
                cash,
                now,
                kind,
            ) by {
                lemma_tally_step(rs, i, group_filter(now, kind, groups@[m].name@));
                if m != j {
                    assert(groups@[m] == old_groups[m]);
                    assert(before_names[m] != before_names[j as int]);
                }
            }
        }
        true
    } else {
        assert(!before_names.contains(g)) by {
            if before_names.contains(g) {
                let k = choose|k: int| 0 <= k < before_names.len() && before_names[k] == g;
                assert(groups@[k].name@ == before_names[k]);
            }
        }
        proof {
            lemma_absent_group(rs.take(i), now, kind, g);
            lemma_tally_step(rs, i, group_filter(now, kind, g));
            lemma_any_cash_push(Seq::<usize>::empty(), cash, position);
        }
        let mut records: Vec<usize> = Vec::new();
        records.push(position);
        assert(records@ == Seq::<usize>::empty().push(position));
        let ghost old_groups = groups@;
        groups.push(
            BillingBreakdown { name: string_of(&key), tokens, records, has_cash: cash_here },
        );
        proof {
            assert forall|m: int| 0 <= m < groups@.len() implies #[trigger] groups@[m].name@
                == group_names(rs.take(i + 1), now, kind)[m] && totals_of_group(
                groups@[m],
                rs.take(i + 1),
                cash,
                now,
                kind,
            ) by {
                lemma_tally_step(rs, i, group_filter(now, kind, groups@[m].name@));
                if m < old_groups.len() {
                    assert(groups@[m] == old_groups[m]);
                    assert(before_names[m] != g);
                }
            }
        }
        true
    }
}


/// Charges outside the window change no group.
proof fn lemma_groups_skip(
    gs: Seq<BillingBreakdown>,
    rs: Seq<BillingRecord>,
    cash: Seq<bool>,
    now: Timestamp,
    kind: BreakdownKind,
    i: int,
)
    requires
        0 <= i < rs.len(),
        !in_window(rs[i], now),
        all_groups(gs, rs.take(i), cash, now, kind),
    ensures
        all_groups(gs, rs.take(i + 1), cash, now, kind),
{
    lemma_names_step(rs, i, now, kind);
    assert forall|j: int| 0 <= j < gs.len() implies #[trigger] gs[j].name@ == group_names(
        rs.take(i + 1),
        now,
        kind,
    )[j] && totals_of_group(gs[j], rs.take(i + 1), cash, now, kind) by {
        lemma_tally_step(rs, i, group_filter(now, kind, gs[j].name@));
    }
}

/// The groups of a complete list have distinct names.
proof fn lemma_groups_distinct(
    gs: Seq<BillingBreakdown>,
    rs: Seq<BillingRecord>,
    cash: Seq<bool>,
    now: Timestamp,
    kind: BreakdownKind,
)
    requires
        all_groups(gs, rs, cash, now, kind),
    ensures
        distinct_names(gs),
{
    lemma_names_distinct(rs, now, kind);
    let names = group_names(rs, now, kind);
    assert forall|i: int, j: int| 0 <= i < j < gs.len() implies gs[i].name@ != gs[j].name@ by {
        assert(gs[i].name@ == names[i]);
        assert(gs[j].name@ == names[j]);
    }
}

/// The first three of a complete list of groups are the top groups.
proof fn lemma_top_groups(
    top: Seq<BillingBreakdown>,
    gs: Seq<BillingBreakdown>,
    rs: Seq<BillingRecord>,
    cash: Seq<bool>,
    now: Timestamp,
    kind: BreakdownKind,
)
    requires
        all_groups(gs, rs, cash, now, kind),
        is_top_three(top, gs),
    ensures
        top_groups(top, rs, cash, now, kind),
{
    let names = group_names(rs, now, kind);
    assert forall|i: int| 0 <= i < top.len() implies names.contains(#[trigger] top[i].name@)
        && totals_of_group(top[i], rs, cash, now, kind) by {
        assert(entry_of(top[i], gs));
        let j = choose|j: int| 0 <= j < gs.len() && #[trigger] same_breakdown(top[i], gs[j]);
        assert(gs[j].name@ == names[j]);
    }
    assert forall|g: Seq<char>|
        #![trigger names.contains(g)]
        names.contains(g) && (forall|i: int| 0 <= i < top.len() ==> top[i].name@ != g)
            implies ranks_before(
            top[top.len() - 1].tokens as int,
            top[top.len() - 1].name@,
            tally(rs, group_filter(now, kind, g)),
            g,
        ) by {
        let j = choose|j: int| 0 <= j < names.len() && names[j] == g;
        assert(gs[j].name@ == names[j]);
        assert(listed_before(top[top.len() - 1], gs[j]));
    }
}

/// Midnight of the day of `now`, in seconds.
fn day_start_of(now: Timestamp) -> (r: i128)
    ensures
        r == day_start_secs(now),
{
    let secs: i128 = now.secs as i128;
    let rem: i128 = secs % 86400;
    let rem: i128 = if rem < 0 {
        rem + 86400
    } else {
        rem
    };
    assert(rem == (now.secs as int) % 86400);
    secs - rem
}

/// The running totals are within `i64` for the first `i` charges.
pub open spec fn tokens_fit_upto(rs: Seq<BillingRecord>, now: Timestamp, i: int) -> bool {
    &&& forall|j: int|
        0 <= j < i && in_window(#[trigger] rs[j], now) ==> fits_i64(record_tokens(rs[j]))
    &&& forall|k: int| 0 <= k <= i ==> fits_i64(#[trigger] tally(rs.take(k), window_filter(now)))
    &&& forall|k: int| 0 <= k <= i ==> fits_i64(#[trigger] tally(rs.take(k), today_filter(now)))
    &&& forall|k: int, g: Seq<char>|
        0 <= k <= i ==> fits_i64(
            #[trigger] tally(rs.take(k), group_filter(now, BreakdownKind::Method, g)),
        )
    &&& forall|k: int, g: Seq<char>|
        0 <= k <= i ==> fits_i64(
            #[trigger] tally(rs.take(k), group_filter(now, BreakdownKind::Model, g)),
        )
}

/// Aggregates the billing history at `now`: the tokens of today and of the
/// 30-day window, the positions of their charges and whether any carries
/// cash (`cash_present` tells, charge by charge), and the first three
/// methods and models by tokens. Nothing when a token count or running
/// total leaves the range of `i64`.
pub fn try_aggregate_billing(records: &Vec<BillingRecord>, cash_present: &Vec<bool>, now: Timestamp) -> (r: Option<
    BillingSummary,
>)
    requires
        cash_present@.len() == records@.len(),
    ensures
        r is Some <==> tokens_fit(records@, now),
        r matches Some(s) ==> summarizes(s, records@, cash_present@, now),
{
    let ghost rs = records@;
    let ghost cash = cash_present@;
    let n = records.len();
    let day_start = day_start_of(now);
    let window_start: i128 = day_start - 29 * 86400;
    let mut today_tokens: i64 = 0;
    let mut window_tokens: i64 = 0;
    let mut today_records: Vec<usize> = Vec::new();
    let mut window_records: Vec<usize> = Vec::new();
    let mut today_cash = false;
    let mut window_cash = false;
    let mut methods: Vec<BillingBreakdown> = Vec::new();
    let mut models: Vec<BillingBreakdown> = Vec::new();
    assert(rs.take(0) =~= Seq::<BillingRecord>::empty());
    let mut i: usize = 0;
    while i < n
        invariant
            n == rs.len() == cash.len(),
            rs == records@,
            cash == cash_present@,
            i <= n,
            day_start == day_start_secs(now),
            window_start == window_start_secs(now),
            today_tokens == tally(rs.take(i as int), today_filter(now)),
            window_tokens == tally(rs.take(i as int), window_filter(now)),
            today_records@ == tally_positions(rs.take(i as int), today_filter(now)),
            window_records@ == tally_positions(rs.take(i as int), window_filter(now)),
            today_cash == any_cash(today_records@, cash),
            window_cash == any_cash(window_records@, cash),
            all_groups(methods@, rs.take(i as int), cash, now, BreakdownKind::Method),
            all_groups(models@, rs.take(i as int), cash, now, BreakdownKind::Model),
            tokens_fit_upto(rs, now, i as int),
        decreases n - i,
    {
        let ghost k = i as int;
        let record = &records[i];
        proof {
            lemma_take_step(rs, k);
            lemma_tally_step(rs, k, window_filter(now));
            lemma_tally_step(rs, k, today_filter(now));
        }
        let date = if billing_record_succeeded(record) {
            record_date(record)
        } else {
            None
        };
        let counted = match date {
            Some(d) => (d.secs as i128) >= window_start && !is_before(now, d),
            None => false,
        };
        if counted {
            let d = match date {
                Some(d) => d,
                None => {
                    return None;
                },
            };
            assert(in_window(rs[k], now));
            if !record_tokens_fit(record) {
                return None;
            }
            let tokens = record_token_count(record);
            window_tokens = match window_tokens.checked_add(tokens) {
                Some(v) => v,
                None => {
                    assert(!fits_i64(tally(rs.take(k + 1), window_filter(now))));
                    return None;
                },
            };
            proof {
                lemma_any_cash_push(window_records@, cash, i);
            }
            window_records.push(i);
            window_cash = window_cash || cash_present[i];
            if (d.secs as i128) >= day_start {
                assert(in_today(rs[k], now));
                today_tokens = match today_tokens.checked_add(tokens) {
                    Some(v) => v,
                    None => {
                        assert(!fits_i64(tally(rs.take(k + 1), today_filter(now))));
                        return None;
                    },
                };
                proof {
                    lemma_any_cash_push(today_records@, cash, i);
                }
                today_records.push(i);
                today_cash = today_cash || cash_present[i];
            } else {
                assert(!in_today(rs[k], now));
            }
            if !add_breakdown(
                &mut methods,
                &record.method,
                tokens,
                i,
                cash_present[i],
                Ghost(rs),
                Ghost(cash),
                Ghost(now),
                Ghost(BreakdownKind::Method),
            ) {
                return None;
            }
            if !add_breakdown(
                &mut models,
                &record.model,
                tokens,
                i,
                cash_present[i],
                Ghost(rs),
                Ghost(cash),
                Ghost(now),
                Ghost(BreakdownKind::Model),
            ) {
                return None;
            }
        } else {
            assert(!in_window(rs[k], now));
            assert(!in_today(rs[k], now));
            proof {
                lemma_groups_skip(methods@, rs, cash, now, BreakdownKind::Method, k);
                lemma_groups_skip(models@, rs, cash, now, BreakdownKind::Model, k);
            }
        }
        proof {
            assert forall|g: Seq<char>| #![auto]
                fits_i64(tally(rs.take(k + 1), group_filter(now, BreakdownKind::Method, g)))
                    && fits_i64(tally(rs.take(k + 1), group_filter(now, BreakdownKind::Model, g))) by {
                lemma_groups_fit(methods@, rs.take(k + 1), cash, now, BreakdownKind::Method, g);
                lemma_groups_fit(models@, rs.take(k + 1), cash, now, BreakdownKind::Model, g);
            }
        }
        i = i + 1;
    }
    assert(rs.take(n as int) =~= rs);
    proof {
        lemma_groups_distinct(methods@, rs, cash, now, BreakdownKind::Method);
        lemma_groups_distinct(models@, rs, cash, now, BreakdownKind::Model);
    }
    let ghost all_methods = methods@;
    let ghost all_models = models@;
    let top_methods = top_breakdowns(methods);
    let top_models = top_breakdowns(models);
    proof {
        lemma_top_groups(top_methods@, all_methods, rs, cash, now, BreakdownKind::Method);
        lemma_top_groups(top_models@, all_models, rs, cash, now, BreakdownKind::Model);
    }
    Some(
        BillingSummary {
            at: now,
            today_tokens,
            last_30_days_tokens: window_tokens,
            today_records,
            last_30_days_records: window_records,
            today_has_cash: today_cash,
            last_30_days_has_cash: window_cash,
            top_methods,
            top_models,
        },
    )
}


/// Whether `chrono` can represent the first second of the 30-day window
/// (the window is computed by subtracting 29 days from today's midnight,
/// which panics below chrono's earliest date).
pub open spec fn window_start_valid(now: Timestamp) -> bool {
    fits_i64(window_start_secs(now)) && utc_seconds_valid(window_start_secs(now) as i64)
}

pub fn aggregate_billing(records: &Vec<BillingRecord>, cash_present: &Vec<bool>, now: Timestamp) -> (s:
    BillingSummary)
    requires
        cash_present@.len() == records@.len(),
        tokens_fit(records@, now),
        window_start_valid(now),
    ensures
        summarizes(s, records@, cash_present@, now),
{
    match try_aggregate_billing(records, cash_present, now) {
        Some(s) => s,
        None => {
            assert(false);
            BillingSummary {
                at: now,
                today_tokens: 0,
                last_30_days_tokens: 0,
                today_records: Vec::new(),
                last_30_days_records: Vec::new(),
                today_has_cash: false,
                last_30_days_has_cash: false,
                top_methods: Vec::new(),
                top_models: Vec::new(),
            }
        },
    }
}

/// The `base_resp` block of a billing-history response.
#[derive(Debug)]
pub struct BillingBaseResponse {
    pub status_code: Option<i64>,
    pub status_msg: Option<String>,
}

/// A billing-history response.
#[derive(Debug)]
pub struct BillingPayload {
    pub base_resp: Option<BillingBaseResponse>,
    pub charge_records: Vec<BillingRecord>,
}

/// The message of a failed billing-history response: a nonzero status
/// code, with its message or else "MiniMax billing status <code>".
pub open spec fn payload_failure(p: BillingPayload) -> Option<Seq<char>> {
    match p.base_resp {
        Some(base) => match base.status_code {
            Some(code) => if code != 0 {
                Some(
                    match base.status_msg {
                        Some(m) => m@,
                        None => "MiniMax billing status "@ + int_text(code as int),
                    },
                )
            } else {
                None
            },
            None => None,
        },
        None => None,
    }
}

/// Whether an error is `Other` with message `m`.
pub open spec fn is_other(e: ProviderError, m: Seq<char>) -> bool {
    e matches ProviderError::Other(text) && text@ == m
}

/// Whether an error is `Parse` with message `m`.
pub open spec fn is_parse(e: ProviderError, m: Seq<char>) -> bool {
    e matches ProviderError::Parse(text) && text@ == m
}

/// The failure of a response, if any: its status, else a missing history.
fn payload_error(payload: &BillingPayload) -> (r: Option<ProviderError>)
    ensures
        match payload_failure(*payload) {
            Some(m) => r matches Some(e) && is_other(e, m),
            None => if payload.charge_records@.len() == 0 {
                r matches Some(e) && is_parse(e, "MiniMax billing records not present"@)
            } else {
                r is None
            },
        },
{
    if let Some(base) = &payload.base_resp {
        if let Some(status) = base.status_code {
            if status != 0 {
                let message = match &base.status_msg {
                    Some(m) => m.clone(),
                    None => {
                        let mut m = String::from_str("MiniMax billing status ");
                        m.append(string_of(&int_chars(status)).as_str());
                        m
                    },
                };
                return Some(ProviderError::Other(message));
            }
        }
    }
    if payload.charge_records.len() == 0 {
        return Some(ProviderError::Parse(String::from_str("MiniMax billing records not present")));
    }
    None
}

/// Whether the totals of the charges can be computed at `now`: they stay
/// within `i64` and the window's first second is representable.
pub open spec fn computable_at(rs: Seq<BillingRecord>, now: Timestamp) -> bool {
    tokens_fit(rs, now) && window_start_valid(now)
}

/// What reading a billing history at the current time gives.
#[derive(Debug)]
pub enum BillingRead {
    /// The response's failure, or its summary at the instant read.
    Done(Result<BillingSummary, ProviderError>),
    /// At this instant (read from the clock) the token totals leave the
    /// range of `i64`, or the 30-day window starts before the earliest date
    /// `chrono` represents: the summary cannot be computed.
    Uncomputable(Timestamp),
}

/// The message given when the clock reads before the Unix epoch.
pub open spec fn clock_failure_text() -> Seq<char> {
    "system time before Unix epoch"@
}

/// Whether `r` is a reading of the charges at some instant of the clock:
/// their summary at an instant since the epoch, the clock's failure, or
/// an instant since the epoch at which the summary cannot be computed.
pub open spec fn summary_read(r: BillingRead, rs: Seq<BillingRecord>, cash: Seq<bool>) -> bool {
    match r {
        BillingRead::Done(Ok(s)) => s.at.secs >= 0 && summarizes(s, rs, cash, s.at),
        BillingRead::Done(Err(e)) => is_other(e, clock_failure_text()),
        BillingRead::Uncomputable(at) => at.secs >= 0 && !computable_at(rs, at),
    }
}

/// Summarizes a billing history at instant `now`: the response's failure
/// when it reports one; else its summary when the totals can be computed
/// at `now`; else `now`, as the instant at which they cannot.
pub fn billing_read_at(payload: &BillingPayload, cash_present: &Vec<bool>, now: Timestamp) -> (r:
    BillingRead)
    requires
        cash_present@.len() == payload.charge_records@.len(),
    ensures
        match payload_failure(*payload) {
            Some(m) => r matches BillingRead::Done(Err(e)) && is_other(e, m),
            None => if payload.charge_records@.len() == 0 {
                r matches BillingRead::Done(Err(e)) && is_parse(e, "MiniMax billing records not present"@)
            } else if computable_at(payload.charge_records@, now) {
                r matches BillingRead::Done(Ok(s)) && summarizes(
                    s,
                    payload.charge_records@,
                    cash_present@,
                    now,
                )
            } else {
                r matches BillingRead::Uncomputable(at) && at == now
            },
        },
{
    if let Some(e) = payload_error(payload) {
        return BillingRead::Done(Err(e));
    }
    let day_start = day_start_of(now);
    let window_start: i128 = day_start - 29 * 86400;
    assert(window_start == window_start_secs(now));
    if window_start < -9223372036854775808i128 {
        return BillingRead::Uncomputable(now);
    }
    if utc_from_seconds(window_start as i64).is_none() {
        return BillingRead::Uncomputable(now);
    }
    match try_aggregate_billing(&payload.charge_records, cash_present, now) {
        Some(s) => BillingRead::Done(Ok(s)),
        None => BillingRead::Uncomputable(now),
    }
}

/// Summarizes a billing history at the current time: the response's
/// failure, else what `billing_read_at` gives at the instant read, else
/// the failure of the clock.
pub fn parse_billing_summary(payload: &BillingPayload, cash_present: &Vec<bool>) -> (r: BillingRead)
    requires
        cash_present@.len() == payload.charge_records@.len(),
    ensures
        match payload_failure(*payload) {
            Some(m) => r matches BillingRead::Done(Err(e)) && is_other(e, m),
            None => if payload.charge_records@.len() == 0 {
                r matches BillingRead::Done(Err(e)) && is_parse(e, "MiniMax billing records not present"@)
            } else {
                summary_read(r, payload.charge_records@, cash_present@)
            },
        },
{
    if let Some(e) = payload_error(payload) {
        return BillingRead::Done(Err(e));
    }
    match utc_now() {
        Some(now) => billing_read_at(payload, cash_present, now),
        None => BillingRead::Done(
            Err(ProviderError::Other(String::from_str("system time before Unix epoch"))),
        ),
    }
}

} // verus!
