//! What the readers of charges and responses, and the choice of sources,
//! are for, stated over their inputs.

use vstd::prelude::*;
use crate::billing::{
    BillingPayload, BillingRecord, BreakdownKind, breakdown_key, payload_failure, BillingSummary, in_today, in_window, record_instant, record_succeeded,
    record_tokens, summarizes, tally_positions, today_filter, window_filter,
};
use crate::dates::{
    Timestamp, before, day_start_secs, spec_parse_date, spec_parse_date_time, spec_parse_rfc3339,
    utc_seconds_valid,
};
use crate::laws::lemma_positions_below;
use crate::report::{ExtraWindow, WindowDetail, billing_windows};
use crate::text::trim;
use crate::fetch::{FetchAction, FetchStep, first_action_of, next_action_of, retry_region_of};
use crate::numbers::{group_thousands, int_text};
use crate::ranking::ranks_before;
use crate::region::{MiniMaxRegion, region_for_setting, region_key};
use crate::responses::{collapse_whitespace, base_failure, base_response_message, billing_status_text, body_snippet, status_text};
use crate::text::eq_ignore_ascii_case;
use crate::json::{JsonValue, count_value, json_get, json_get_opt, json_i64, json_str, scalar_text};
use crate::provider::SourceMode;
use crate::responses::{token_plan_data, token_plan_plan, plan_or_default, usage_plan_value};

verus! {

/// A charge whose total is a positive count uses exactly that count,
/// whatever its input and output counts are.
pub proof fn law_positive_total_is_used(r: BillingRecord, n: i64)
    requires
        count_value(r.consume_token) == Some(n),
        n > 0,
    ensures
        record_tokens(r) == n,
{
}

/// A charge without a positive total uses its input count plus its output
/// count, each taken as zero when absent or unreadable.
pub proof fn law_parts_used_without_total(r: BillingRecord)
    requires
        !(count_value(r.consume_token) matches Some(n) && n > 0),
    ensures
        record_tokens(r) == (match count_value(r.consume_input_token) {
            Some(a) => a as int,
            None => 0,
        }) + (match count_value(r.consume_output_token) {
            Some(b) => b as int,
            None => 0,
        }),
{
}

/// In automatic and web mode a fetch starts with the token plan when there
/// is an API key, else with the cookie's billing history when there is a
/// cookie, else with the legacy endpoint; the command-line mode only
/// probes, and OAuth is refused.
pub proof fn law_first_source(mode: SourceMode, has_api_key: bool, has_cookie: bool)
    ensures
        (mode == SourceMode::Auto || mode == SourceMode::Web) && !has_api_key && has_cookie
            ==> first_action_of(mode, has_api_key, has_cookie) == FetchAction::Run(FetchStep::CookieBilling),
        (mode == SourceMode::Auto || mode == SourceMode::Web) && !has_api_key && !has_cookie
            ==> first_action_of(mode, has_api_key, has_cookie) == FetchAction::Run(FetchStep::LegacyApi),
        mode == SourceMode::Cli ==> first_action_of(mode, has_api_key, has_cookie) == FetchAction::Run(
            FetchStep::Probe,
        ),
        mode == SourceMode::OAuth ==> first_action_of(mode, has_api_key, has_cookie)
            == FetchAction::Unsupported,
{
}

/// Outside automatic mode the first step's outcome is the fetch's outcome.
pub proof fn law_only_auto_falls_back(mode: SourceMode, has_cookie: bool, step: FetchStep, succeeded: bool)
    requires
        mode != SourceMode::Auto,
    ensures
        next_action_of(mode, has_cookie, step, succeeded) == FetchAction::Finish,
{
}

/// A token-plan response keeps its fields in its `data` member when it has
/// one, else at the top level.
pub proof fn law_token_plan_data(json: JsonValue, d: JsonValue)
    ensures
        json_get(json, "data"@) == Some(d) ==> token_plan_data(json) == d,
        json_get(json, "data"@) is None ==> token_plan_data(json) == json,
{
}

/// The plan name of a token plan is its `plan_name`, else its
/// `current_subscribe_title`, else its `plan` (the first that is present
/// decides, and must be a string), else "MiniMax".
pub proof fn law_token_plan_name(data: JsonValue, s: Seq<char>)
    ensures
        json_str(json_get(data, "plan_name"@)) == Some(s) ==> token_plan_plan(data) == s,
        json_get(data, "plan_name"@) is None && json_str(json_get(data, "current_subscribe_title"@))
            == Some(s) ==> token_plan_plan(data) == s,
        json_get(data, "plan_name"@) is None && json_get(data, "current_subscribe_title"@) is None
            && json_str(json_get(data, "plan"@)) == Some(s) ==> token_plan_plan(data) == s,
        json_get(data, "plan_name"@) is None && json_get(data, "current_subscribe_title"@) is None
            && json_get(data, "plan"@) is None ==> token_plan_plan(data) == "MiniMax"@,
{
}

/// The plan name of a usage response is the first present of `plan_name`,
/// `current_plan_title`, `current_subscribe_title`, `combo_title`,
/// `current_combo_card.title`, `plan_type` and `type`, when it is a
/// string; else "MiniMax".
pub proof fn law_usage_plan_name(json: JsonValue, s: Seq<char>)
    ensures
        json_str(json_get(json, "plan_name"@)) == Some(s) ==> plan_or_default(usage_plan_value(json))
            == s,
        json_get(json, "plan_name"@) is None && json_str(json_get(json, "current_plan_title"@))
            == Some(s) ==> plan_or_default(usage_plan_value(json)) == s,
        json_get(json, "plan_name"@) is None && json_get(json, "current_plan_title"@) is None
            && json_str(json_get(json, "current_subscribe_title"@)) == Some(s) ==> plan_or_default(
            usage_plan_value(json),
        ) == s,
        json_get(json, "plan_name"@) is None && json_get(json, "current_plan_title"@) is None
            && json_get(json, "current_subscribe_title"@) is None && json_str(
            json_get(json, "combo_title"@),
        ) == Some(s) ==> plan_or_default(usage_plan_value(json)) == s,
        json_get(json, "plan_name"@) is None && json_get(json, "current_plan_title"@) is None
            && json_get(json, "current_subscribe_title"@) is None && json_get(json, "combo_title"@)
            is None && json_str(json_get_opt(json_get(json, "current_combo_card"@), "title"@))
            == Some(s) ==> plan_or_default(usage_plan_value(json)) == s,
        json_get(json, "plan_name"@) is None && json_get(json, "current_plan_title"@) is None
            && json_get(json, "current_subscribe_title"@) is None && json_get(json, "combo_title"@)
            is None && json_get_opt(json_get(json, "current_combo_card"@), "title"@) is None
            && json_str(json_get(json, "plan_type"@)) == Some(s) ==> plan_or_default(
            usage_plan_value(json),
        ) == s,
        json_get(json, "plan_name"@) is None && json_get(json, "current_plan_title"@) is None
            && json_get(json, "current_subscribe_title"@) is None && json_get(json, "combo_title"@)
            is None && json_get_opt(json_get(json, "current_combo_card"@), "title"@) is None
            && json_get(json, "plan_type"@) is None && json_str(json_get(json, "type"@)) == Some(s)
            ==> plan_or_default(usage_plan_value(json)) == s,
{
}

/// A charge with a creation stamp is dated by it alone: a stamp above
/// 10^12 counts milliseconds, a smaller one seconds; when `chrono` cannot
/// represent that second, the charge has no date.
pub proof fn law_dated_by_creation(r: BillingRecord, c: i64)
    requires
        count_value(r.created_at) == Some(c),
    ensures
        c > 1_000_000_000_000 && utc_seconds_valid((c / 1000) as i64) ==> record_instant(r) == Some(
            Timestamp { secs: (c / 1000) as i64, nanos: 0 },
        ),
        c > 1_000_000_000_000 && !utc_seconds_valid((c / 1000) as i64) ==> record_instant(r) is None,
        c <= 1_000_000_000_000 && utc_seconds_valid(c) ==> record_instant(r) == Some(
            Timestamp { secs: c, nanos: 0 },
        ),
        c <= 1_000_000_000_000 && !utc_seconds_valid(c) ==> record_instant(r) is None,
{
}

/// A charge without a creation stamp but with a day is dated at that day's
/// midnight, the day read from the trimmed text as YYYY-MM-DD, else
/// YYYYMMDD, else YYYY/MM/DD.
pub proof fn law_dated_by_day(r: BillingRecord, y: Seq<char>, secs: i64)
    requires
        count_value(r.created_at) is None,
        r.ymd matches Some(d) && d@ == y,
    ensures
        spec_parse_date(trim(y), "%Y-%m-%d"@) == Some(secs) ==> record_instant(r) == Some(
            Timestamp { secs, nanos: 0 },
        ),
        spec_parse_date(trim(y), "%Y-%m-%d"@) is None && spec_parse_date(trim(y), "%Y%m%d"@) == Some(
            secs,
        ) ==> record_instant(r) == Some(Timestamp { secs, nanos: 0 }),
        spec_parse_date(trim(y), "%Y-%m-%d"@) is None && spec_parse_date(trim(y), "%Y%m%d"@) is None
            && spec_parse_date(trim(y), "%Y/%m/%d"@) == Some(secs) ==> record_instant(r) == Some(
            Timestamp { secs, nanos: 0 },
        ),
{
}

/// Whether a charge's day, if it has one, is in none of the day formats.
pub open spec fn no_day(r: BillingRecord) -> bool {
    r.ymd matches Some(d) ==> {
        &&& spec_parse_date(trim(d@), "%Y-%m-%d"@) is None
        &&& spec_parse_date(trim(d@), "%Y%m%d"@) is None
        &&& spec_parse_date(trim(d@), "%Y/%m/%d"@) is None
    }
}

/// A charge with neither a creation stamp nor a readable day is dated by
/// its consume time, read from the trimmed text as
/// "YYYY-MM-DD HH:MM:SS", else "YYYY/MM/DD HH:MM:SS", else RFC 3339; with
/// none of these it has no date.
pub proof fn law_dated_by_time(r: BillingRecord, t: Seq<char>, p: (i64, u32))
    requires
        count_value(r.created_at) is None,
        no_day(r),
        r.consume_time matches Some(c) && c@ == t,
    ensures
        spec_parse_date_time(trim(t), "%Y-%m-%d %H:%M:%S"@) == Some(p) ==> record_instant(r) == Some(
            Timestamp { secs: p.0, nanos: p.1 },
        ),
        spec_parse_date_time(trim(t), "%Y-%m-%d %H:%M:%S"@) is None && spec_parse_date_time(
            trim(t),
            "%Y/%m/%d %H:%M:%S"@,
        ) == Some(p) ==> record_instant(r) == Some(Timestamp { secs: p.0, nanos: p.1 }),
        spec_parse_date_time(trim(t), "%Y-%m-%d %H:%M:%S"@) is None && spec_parse_date_time(
            trim(t),
            "%Y/%m/%d %H:%M:%S"@,
        ) is None && spec_parse_rfc3339(trim(t)) == Some(p) ==> record_instant(r) == Some(
            Timestamp { secs: p.0, nanos: p.1 },
        ),
        spec_parse_date_time(trim(t), "%Y-%m-%d %H:%M:%S"@) is None && spec_parse_date_time(
            trim(t),
            "%Y/%m/%d %H:%M:%S"@,
        ) is None && spec_parse_rfc3339(trim(t)) is None ==> record_instant(r) is None,
{
}

/// A charge with no creation stamp, no readable day and no consume time
/// has no date.
pub proof fn law_undated(r: BillingRecord)
    requires
        count_value(r.created_at) is None,
        no_day(r),
        r.consume_time is None,
    ensures
        record_instant(r) is None,
{
}

/// A successful charge counts for the 30-day window exactly when it
/// happened between the midnight 29 days before today and `now`, both
/// included; it counts for today when it also happened at or after
/// today's midnight.
pub proof fn law_window_edges(r: BillingRecord, now: Timestamp, d: Timestamp)
    requires
        record_succeeded(r),
        record_instant(r) == Some(d),
    ensures
        d.secs == day_start_secs(now) - 29 * 86400 && d.nanos == 0 ==> in_window(r, now),
        d.secs < day_start_secs(now) - 29 * 86400 ==> !in_window(r, now),
        before(now, d) ==> !in_window(r, now),
        d == now ==> in_today(r, now),
        d.secs == day_start_secs(now) && d.nanos == 0 && !before(now, d) ==> in_today(r, now),
        d.secs < day_start_secs(now) ==> !in_today(r, now),
{
}

proof fn lemma_positions_exact(rs: Seq<BillingRecord>, keep: spec_fn(BillingRecord) -> bool, j: int)
    requires
        rs.len() <= usize::MAX,
        0 <= j < rs.len(),
    ensures
        tally_positions(rs, keep).contains(j as usize) <==> keep(rs[j]),
    decreases rs.len(),
{
    let n = rs.len() as int;
    let prev = rs.drop_last();
    let tp = tally_positions(prev, keep);
    let cur = tally_positions(rs, keep);
    lemma_positions_below(prev, keep);
    if j < n - 1 {
        lemma_positions_exact(prev, keep, j);
        if tp.contains(j as usize) {
            let k = choose|k: int| 0 <= k < tp.len() && tp[k] == j as usize;
            assert(cur[k] == tp[k]);
        }
        if cur.contains(j as usize) {
            let k = choose|k: int| 0 <= k < cur.len() && cur[k] == j as usize;
            if k < tp.len() {
                assert(cur[k] == tp[k]);
            }
        }
    } else {
        if keep(rs[j]) {
            assert(cur[cur.len() - 1] == j as usize);
        } else {
            if cur.contains(j as usize) {
                let k = choose|k: int| 0 <= k < cur.len() && cur[k] == j as usize;
                assert(tp[k] < prev.len());
            }
        }
    }
}

/// Whether window `w` shows the spending of exactly the charges of `rs`
/// that `keep` selects.
pub open spec fn spends_on(w: ExtraWindow, rs: Seq<BillingRecord>, keep: spec_fn(BillingRecord) -> bool) -> bool {
    w.detail matches WindowDetail::Spend(p) && (forall|j: int|
        0 <= j < rs.len() ==> (p@.contains(j as usize) <==> #[trigger] keep(rs[j])))
        && (forall|t: int| 0 <= t < p@.len() ==> p@[t] < rs.len())
}

/// The 30-day spend window shows the spending of exactly the charges of
/// the 30-day window, and today's spend window that of exactly today's
/// charges.
pub proof fn law_spend_windows(
    w: Seq<ExtraWindow>,
    s: BillingSummary,
    rs: Seq<BillingRecord>,
    cash: Seq<bool>,
    now: Timestamp,
)
    requires
        rs.len() <= usize::MAX,
        summarizes(s, rs, cash, now),
        billing_windows(w, s),
    ensures
        s.last_30_days_has_cash ==> exists|k: int|
            0 <= k < w.len() && #[trigger] w[k].id@ == "billing-cash-30d"@ && spends_on(
                w[k],
                rs,
                window_filter(now),
            ),
        s.today_has_cash ==> exists|k: int|
            0 <= k < w.len() && #[trigger] w[k].id@ == "billing-cash-today"@ && spends_on(
                w[k],
                rs,
                today_filter(now),
            ),
{
    lemma_positions_below(rs, window_filter(now));
    lemma_positions_below(rs, today_filter(now));
    assert forall|j: int| 0 <= j < rs.len() implies (tally_positions(rs, window_filter(now)).contains(
        j as usize,
    ) <==> #[trigger] window_filter(now)(rs[j])) by {
        lemma_positions_exact(rs, window_filter(now), j);
    }
    assert forall|j: int| 0 <= j < rs.len() implies (tally_positions(rs, today_filter(now)).contains(
        j as usize,
    ) <==> #[trigger] today_filter(now)(rs[j])) by {
        lemma_positions_exact(rs, today_filter(now), j);
    }
    let base = 2 + crate::report::spend_rows(s);
    if s.last_30_days_has_cash {
        assert(w[base - 1].id@ == "billing-cash-30d"@);
        assert(spends_on(w[base - 1], rs, window_filter(now)));
    }
    if s.today_has_cash {
        assert(w[2].id@ == "billing-cash-today"@);
        assert(spends_on(w[2], rs, today_filter(now)));
    }
}

/// A charge's outcome is read from its `result`, and from its `status`
/// only when the result gives no text: the charge counts when that text,
/// trimmed, is blank or reads "success" in any ASCII case, and when there
/// is no outcome at all.
pub proof fn law_charge_outcome(r: BillingRecord, o: Seq<char>)
    ensures
        scalar_text(r.result) == Some(o) && trim(o).len() > 0 ==> (record_succeeded(r)
            <==> eq_ignore_ascii_case(trim(o), "success"@)),
        scalar_text(r.result) is None && scalar_text(r.status) == Some(o) && trim(o).len() > 0 ==> (
        record_succeeded(r) <==> eq_ignore_ascii_case(trim(o), "success"@)),
        scalar_text(r.result) == Some(o) && trim(o).len() == 0 ==> record_succeeded(r),
        scalar_text(r.result) is None && scalar_text(r.status) is None ==> record_succeeded(r),
{
}

/// A charge is grouped under its method (or model) with surrounding
/// whitespace removed, and under no name when that is absent or blank.
pub proof fn law_group_name(r: BillingRecord, kind: BreakdownKind)
    ensures
        kind == BreakdownKind::Method ==> match r.method {
            Some(m) => if trim(m@).len() > 0 {
                breakdown_key(r, kind) == Some(trim(m@))
            } else {
                breakdown_key(r, kind) is None
            },
            None => breakdown_key(r, kind) is None,
        },
        kind == BreakdownKind::Model ==> match r.model {
            Some(m) => if trim(m@).len() > 0 {
                breakdown_key(r, kind) == Some(trim(m@))
            } else {
                breakdown_key(r, kind) is None
            },
            None => breakdown_key(r, kind) is None,
        },
{
}

/// Breakdowns are listed with more tokens first; among equal tokens, by
/// name: a proper prefix first, else by the first differing character's
/// code point.
pub proof fn law_listing_order(t1: int, n1: Seq<char>, t2: int, n2: Seq<char>, k: int)
    ensures
        t1 > t2 ==> ranks_before(t1, n1, t2, n2),
        t1 < t2 ==> !ranks_before(t1, n1, t2, n2),
        t1 == t2 && n1.len() < n2.len() && n1 == n2.take(n1.len() as int) ==> ranks_before(
            t1,
            n1,
            t2,
            n2,
        ),
        t1 == t2 && 0 <= k < n1.len() && k < n2.len() && n1.take(k) == n2.take(k) && (n1[k] as int)
            < (n2[k] as int) ==> ranks_before(t1, n1, t2, n2),
{
    if t1 == t2 && n1.len() < n2.len() && n1 == n2.take(n1.len() as int) {
        lemma_prefix_first(n1, n2);
    }
    if t1 == t2 && 0 <= k < n1.len() && k < n2.len() && n1.take(k) == n2.take(k) && (n1[k] as int)
        < (n2[k] as int) {
        lemma_first_difference(n1, n2, k);
    }
}

proof fn lemma_prefix_first(a: Seq<char>, b: Seq<char>)
    requires
        a.len() < b.len(),
        a == b.take(a.len() as int),
    ensures
        crate::ranking::name_lt(a, b),
    decreases a.len(),
{
    if a.len() > 0 {
        assert(a[0] == b[0]);
        assert(a.drop_first() =~= b.drop_first().take(a.drop_first().len() as int));
        lemma_prefix_first(a.drop_first(), b.drop_first());
    }
}

proof fn lemma_first_difference(a: Seq<char>, b: Seq<char>, k: int)
    requires
        0 <= k < a.len(),
        k < b.len(),
        a.take(k) == b.take(k),
        (a[k] as int) < (b[k] as int),
    ensures
        crate::ranking::name_lt(a, b),
    decreases k,
{
    if k > 0 {
        assert(a[0] == a.take(k)[0]);
        assert(b[0] == b.take(k)[0]);
        let ta = a.take(k);
        let tb = b.take(k);
        assert forall|i: int| 0 <= i < k - 1 implies a.drop_first()[i] == b.drop_first()[i] by {
            assert(ta[i + 1] == a[i + 1]);
            assert(tb[i + 1] == b[i + 1]);
            assert(ta[i + 1] == tb[i + 1]);
        }
        assert(a.drop_first().take(k - 1) =~= b.drop_first().take(k - 1));
        lemma_first_difference(a.drop_first(), b.drop_first(), k - 1);
    } else {
        assert(a[0] != b[0]);
    }
}

/// In automatic mode a failed token plan falls back to the cookie when
/// there is one, else to the legacy endpoint; a failed legacy request
/// falls back to the probe, and the probe's outcome is final.
pub proof fn law_auto_fallback_order(has_cookie: bool)
    ensures
        next_action_of(SourceMode::Auto, has_cookie, FetchStep::TokenPlan, false) == if has_cookie {
            FetchAction::Run(FetchStep::CookieBilling)
        } else {
            FetchAction::Run(FetchStep::LegacyApi)
        },
        next_action_of(SourceMode::Auto, has_cookie, FetchStep::LegacyApi, false) == FetchAction::Run(
            FetchStep::Probe,
        ),
        next_action_of(SourceMode::Auto, has_cookie, FetchStep::Probe, false) == FetchAction::Finish,
{
}

/// A legacy request refused in the global region is retried in the China
/// mainland region; no other request is retried.
pub proof fn law_retry_region(region: MiniMaxRegion, refused: bool)
    ensures
        refused && region == MiniMaxRegion::Global ==> retry_region_of(region, refused) == Some(
            MiniMaxRegion::ChinaMainland,
        ),
        !refused || region == MiniMaxRegion::ChinaMainland ==> retry_region_of(region, refused) is None,
{
}

/// A response fails when its `base_resp` block carries a status code other
/// than 0, a missing or non-integer code counting as failure; the failure's
/// message is the block's string `status_msg`, else "Unknown error". A
/// response without the block does not fail.
pub proof fn law_base_failure(json: JsonValue, base: JsonValue, m: Seq<char>)
    ensures
        json_get(json, "base_resp"@) is None ==> base_failure(json) is None,
        json_get(json, "base_resp"@) == Some(base) && json_i64(json_get(base, "status_code"@)) == Some(
            0i64,
        ) ==> base_failure(json) is None,
        json_get(json, "base_resp"@) == Some(base) && json_i64(json_get(base, "status_code"@)) != Some(
            0i64,
        ) && json_str(json_get(base, "status_msg"@)) == Some(m) ==> base_failure(json) == Some(m),
        json_get(json, "base_resp"@) == Some(base) && json_i64(json_get(base, "status_code"@)) != Some(
            0i64,
        ) && json_str(json_get(base, "status_msg"@)) is None ==> base_failure(json) == Some(
            "Unknown error"@,
        ),
{
}

/// A billing history fails when its status code is present and not 0,
/// with its message, else "MiniMax billing status <code>".
pub proof fn law_billing_failure(p: BillingPayload, code: i64)
    ensures
        p.base_resp is None ==> payload_failure(p) is None,
        (p.base_resp matches Some(b) && b.status_code is None) ==> payload_failure(p) is None,
        (p.base_resp matches Some(b) && b.status_code == Some(0i64)) ==> payload_failure(p) is None,
        (p.base_resp matches Some(b) && b.status_code == Some(code) && code != 0 && b.status_msg
            matches Some(m)) ==> payload_failure(p) == Some(p.base_resp->0.status_msg->0@),
        (p.base_resp matches Some(b) && b.status_code == Some(code) && code != 0
            && b.status_msg is None) ==> payload_failure(p) == Some(
            "MiniMax billing status "@ + int_text(code as int),
        ),
{
}

/// The message of a failed billing-history request gives the response's
/// own message when it has one, and otherwise a snippet of the body; with
/// neither it ends after the status.
pub proof fn law_billing_message_detail(code: u16, body: Seq<char>, json: Option<JsonValue>, m: Seq<char>)
    ensures
        base_response_message(json) == Some(m) ==> billing_status_text(code, body, json)
            == "MiniMax billing returned status "@ + status_text(code) + ": "@ + m,
        base_response_message(json) is None && body_snippet(body) == Some(m) ==> billing_status_text(
            code,
            body,
            json,
        ) == "MiniMax billing returned status "@ + status_text(code) + ": "@ + m,
        base_response_message(json) is None && body_snippet(body) is None ==> billing_status_text(
            code,
            body,
            json,
        ) == "MiniMax billing returned status "@ + status_text(code),
{
    assert(("MiniMax billing returned status "@ + status_text(code)) + Seq::<char>::empty() =~= "MiniMax billing returned status "@ + status_text(code));
}

/// A setting selects the China mainland region when, trimmed and lowered,
/// it reads "cn", "china", "china-mainland", "china_mainland" or
/// "mainland"; any other setting, an absent one included, selects the
/// global region.
pub proof fn law_china_spellings(value: Option<&str>)
    ensures
        region_key(value) == "cn"@ || region_key(value) == "china"@ || region_key(value)
            == "china-mainland"@ || region_key(value) == "china_mainland"@ || region_key(value)
            == "mainland"@ ==> region_for_setting(value) == MiniMaxRegion::ChinaMainland,
        !(region_key(value) == "cn"@ || region_key(value) == "china"@ || region_key(value)
            == "china-mainland"@ || region_key(value) == "china_mainland"@ || region_key(value)
            == "mainland"@) ==> region_for_setting(value) == MiniMaxRegion::Global,
{
}

/// A count of at most three characters is shown as it is; a longer one
/// ends with a comma and its last three characters, the rest grouped the
/// same way.
pub proof fn law_groups_of_three(s: Seq<char>)
    ensures
        s.len() <= 3 ==> group_thousands(s) == s,
        s.len() > 3 ==> group_thousands(s) == group_thousands(s.take(s.len() - 3)) + seq![',']
            + s.skip(s.len() - 3),
{
    if s.len() > 3 {
        assert(s.subrange(0, s.len() - 3) =~= s.take(s.len() - 3));
        assert(s.subrange(s.len() - 3, s.len() as int) =~= s.skip(s.len() - 3));
    }
}

/// A body snippet is the collapsed body when that has at most 300
/// characters, and otherwise its first 300 characters and an ellipsis.
pub proof fn law_snippet_keeps_the_start(body: Seq<char>)
    ensures
        0 < collapse_whitespace(body).len() <= 300 ==> body_snippet(body) == Some(
            collapse_whitespace(body),
        ),
        collapse_whitespace(body).len() > 300 ==> (body_snippet(body) matches Some(t) && t.len() == 301
            && t[300] == '\u{2026}' && forall|i: int|
            0 <= i < 300 ==> t[i] == #[trigger] collapse_whitespace(body)[i]),
        collapse_whitespace(body).len() == 0 ==> body_snippet(body) is None,
{
}

} // verus!
