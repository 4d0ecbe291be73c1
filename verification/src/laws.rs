//! Properties that relate the library's functions to one another.

use vstd::prelude::*;
use crate::billing::{BillingRecord, in_today, in_window, record_succeeded, record_tokens, tally,
    tally_positions, today_filter, window_filter};
use crate::dates::Timestamp;
use crate::fetch::{FetchAction, FetchStep, first_action_of, next_action_of, retry_region_of};
use crate::numbers::{group_thousands, int_text, nat_digits, remove_commas};
use crate::provider::{SourceMode, minimax_dashboard_text};
use crate::region::{MiniMaxRegion, region_for_setting};
use crate::responses::{body_snippet, collapse_state, collapse_whitespace};
use crate::text::{ascii_lowercase, is_ws, trim, trim_end, trim_start};
use vstd::std_specs::convert::FromSpec;

verus! {

proof fn lemma_word_unchanged(s: Seq<char>)
    requires
        s.len() > 0,
        forall|i: int| 0 <= i < s.len() ==> 'a' <= #[trigger] s[i] <= 'z' || s[i] == '-' || s[i] == '_',
    ensures
        trim(s) == s,
        ascii_lowercase(s) == s,
{
    assert(!is_ws(s[0]));
    assert(trim_start(s) == s);
    assert(!is_ws(s.last()));
    assert(trim_end(s) == s);
    assert(ascii_lowercase(s) =~= s);
}

/// A region's settings value reads back as that region.
pub proof fn law_settings_value_round_trip(r: MiniMaxRegion, value: &str)
    requires
        value@ == r.settings_text(),
    ensures
        region_for_setting(Some(value)) == r,
{
    reveal_strlit("global");
    reveal_strlit("cn");
    reveal_strlit("china");
    reveal_strlit("china-mainland");
    reveal_strlit("china_mainland");
    reveal_strlit("mainland");
    lemma_word_unchanged(value@);
    let key = region_for_setting(Some(value));
    if r == MiniMaxRegion::Global {
        assert(value@[0] == 'g');
        assert(value@ != "cn"@ && value@ != "china"@ && value@ != "mainland"@);
        assert(value@.len() == 6);
    }
}

/// Every region's web console is the cookie domain served over https.
pub proof fn law_console_is_cookie_domain(r: MiniMaxRegion)
    ensures
        r.base_text() == "https://"@ + r.cookie_domain_text(),
{
    reveal_strlit("https://");
    reveal_strlit("https://platform.minimax.io");
    reveal_strlit("platform.minimax.io");
    reveal_strlit("https://platform.minimaxi.com");
    reveal_strlit("platform.minimaxi.com");
    assert("https://platform.minimax.io"@ =~= "https://"@ + "platform.minimax.io"@);
    assert("https://platform.minimaxi.com"@ =~= "https://"@ + "platform.minimaxi.com"@);
}

/// The dashboard in the provider's metadata is the global coding-plan page.
pub proof fn law_dashboard_is_global_coding_plan()
    ensures
        minimax_dashboard_text() == MiniMaxRegion::Global.coding_plan_text(),
{
    reveal_strlit("https://platform.minimax.io/user-center/payment/coding-plan?cycle_type=3");
    reveal_strlit("https://platform.minimax.io");
    reveal_strlit("/user-center/payment/coding-plan");
    reveal_strlit("?");
    reveal_strlit("cycle_type=3");
    assert(minimax_dashboard_text() =~= MiniMaxRegion::Global.coding_plan_text());
}


proof fn lemma_remove_commas_add(a: Seq<char>, b: Seq<char>)
    ensures
        remove_commas(a + b) == remove_commas(a) + remove_commas(b),
{
    Seq::filter_distributes_over_add(a, b, |c: char| c != ',');
}

proof fn lemma_no_commas(s: Seq<char>)
    requires
        forall|i: int| 0 <= i < s.len() ==> #[trigger] s[i] != ',',
    ensures
        remove_commas(s) == s,
    decreases s.len(),
{
    reveal_with_fuel(Seq::filter, 1);
    if s.len() > 0 {
        lemma_no_commas(s.drop_last());
        assert(s.drop_last().push(s.last()) =~= s);
    } else {
        assert(remove_commas(s) =~= s);
    }
}

proof fn lemma_digits_no_commas(n: nat)
    ensures
        forall|i: int| 0 <= i < nat_digits(n).len() ==> #[trigger] nat_digits(n)[i] != ',',
    decreases n,
{
    if n >= 10 {
        lemma_digits_no_commas(n / 10);
        assert forall|i: int| 0 <= i < nat_digits(n).len() implies #[trigger] nat_digits(n)[i]
            != ',' by {
            if i < nat_digits(n / 10).len() {
                assert(nat_digits(n)[i] == nat_digits(n / 10)[i]);
            }
        }
    }
}

proof fn lemma_ungroup(s: Seq<char>)
    ensures
        remove_commas(group_thousands(s)) == remove_commas(s),
    decreases s.len(),
{
    if s.len() > 3 {
        let head = s.subrange(0, s.len() - 3);
        let tail = s.subrange(s.len() - 3, s.len() as int);
        lemma_ungroup(head);
        lemma_remove_commas_add(group_thousands(head) + seq![','], tail);
        lemma_remove_commas_add(group_thousands(head), seq![',']);
        lemma_remove_commas_add(head, tail);
        reveal_with_fuel(Seq::filter, 2);
        assert(remove_commas(seq![',']) =~= Seq::<char>::empty());
        assert(head + tail =~= s);
    }
}

/// Dropping the separators from a formatted count gives back the count's
/// decimal text.
pub proof fn law_format_count_ungroups(v: int)
    ensures
        remove_commas(group_thousands(int_text(v))) == int_text(v),
{
    lemma_ungroup(int_text(v));
    if v < 0 {
        lemma_digits_no_commas((-v) as nat);
        assert forall|i: int| 0 <= i < int_text(v).len() implies #[trigger] int_text(v)[i]
            != ',' by {
            if i > 0 {
                assert(int_text(v)[i] == nat_digits((-v) as nat)[i - 1]);
            }
        }
    } else {
        lemma_digits_no_commas(v as nat);
    }
    lemma_no_commas(int_text(v));
}

/// Whether `s` is words joined by single spaces: no whitespace but the
/// space, no space first or last, and no two spaces in a row.
pub open spec fn single_spaced(s: Seq<char>) -> bool {
    &&& forall|i: int| 0 <= i < s.len() && is_ws(#[trigger] s[i]) ==> s[i] == ' '
    &&& s.len() > 0 ==> s[0] != ' ' && s.last() != ' '
    &&& forall|i: int| 0 <= i < s.len() - 1 && #[trigger] s[i] == ' ' ==> s[i + 1] != ' '
}

proof fn lemma_collapse_shape(s: Seq<char>)
    ensures
        single_spaced(collapse_state(s).0),
        collapse_state(s).1 ==> collapse_state(s).0.len() > 0,
    decreases s.len(),
{
    if s.len() > 0 {
        lemma_collapse_shape(s.drop_last());
        let prev = collapse_state(s.drop_last());
        let out = collapse_state(s).0;
        let c = s.last();
        if !is_ws(c) {
            if prev.1 {
                assert(out == prev.0.push(' ').push(c));
                assert forall|i: int| 0 <= i < out.len() - 1 && #[trigger] out[i] == ' ' implies out[i
                    + 1] != ' ' by {
                    if i < prev.0.len() - 1 {
                        assert(out[i] == prev.0[i]);
                        assert(out[i + 1] == prev.0[i + 1]);
                    }
                }
                assert forall|i: int| 0 <= i < out.len() && is_ws(#[trigger] out[i]) implies out[i]
                    == ' ' by {
                    if i < prev.0.len() {
                        assert(out[i] == prev.0[i]);
                    }
                }
            } else {
                assert(out == prev.0.push(c));
                assert forall|i: int| 0 <= i < out.len() - 1 && #[trigger] out[i] == ' ' implies out[i
                    + 1] != ' ' by {
                    if i < prev.0.len() - 1 {
                        assert(out[i] == prev.0[i]);
                        assert(out[i + 1] == prev.0[i + 1]);
                    }
                }
                assert forall|i: int| 0 <= i < out.len() && is_ws(#[trigger] out[i]) implies out[i]
                    == ' ' by {
                    if i < prev.0.len() {
                        assert(out[i] == prev.0[i]);
                    }
                }
            }
        }
    }
}

/// Collapsing whitespace leaves words joined by single spaces.
pub proof fn law_collapsed_is_single_spaced(s: Seq<char>)
    ensures
        single_spaced(collapse_whitespace(s)),
{
    lemma_collapse_shape(s);
}

/// The tokens of the charges at `positions`.
pub open spec fn tokens_at(rs: Seq<BillingRecord>, positions: Seq<usize>) -> int
    decreases positions.len(),
{
    if positions.len() == 0 {
        0
    } else {
        tokens_at(rs, positions.drop_last()) + record_tokens(rs[positions.last() as int])
    }
}

pub proof fn lemma_positions_below(rs: Seq<BillingRecord>, keep: spec_fn(BillingRecord) -> bool)
    requires
        rs.len() <= usize::MAX,
    ensures
        forall|j: int|
            0 <= j < tally_positions(rs, keep).len() ==> #[trigger] tally_positions(rs, keep)[j]
                < rs.len(),
    decreases rs.len(),
{
    if rs.len() > 0 {
        let prev = tally_positions(rs.drop_last(), keep);
        lemma_positions_below(rs.drop_last(), keep);
        let cur = tally_positions(rs, keep);
        assert forall|j: int| 0 <= j < cur.len() implies #[trigger] cur[j] < rs.len() by {
            if j < prev.len() {
                assert(cur[j] == prev[j]);
            }
        }
    }
}

proof fn lemma_tokens_at_prefix(rs: Seq<BillingRecord>, positions: Seq<usize>, n: int)
    requires
        0 <= n <= rs.len(),
        forall|j: int| 0 <= j < positions.len() ==> #[trigger] positions[j] < n,
    ensures
        tokens_at(rs.take(n), positions) == tokens_at(rs, positions),
    decreases positions.len(),
{
    if positions.len() > 0 {
        lemma_tokens_at_prefix(rs, positions.drop_last(), n);
        assert(positions[positions.len() - 1] < n);
    }
}

/// A total is the sum of the tokens of the charges it lists.
pub proof fn law_total_matches_positions(rs: Seq<BillingRecord>, keep: spec_fn(BillingRecord) -> bool)
    requires
        rs.len() <= usize::MAX,
    ensures
        tally(rs, keep) == tokens_at(rs, tally_positions(rs, keep)),
    decreases rs.len(),
{
    if rs.len() > 0 {
        let prev = rs.drop_last();
        law_total_matches_positions(prev, keep);
        lemma_positions_below(prev, keep);
        assert(prev =~= rs.take(rs.len() - 1));
        lemma_tokens_at_prefix(rs, tally_positions(prev, keep), rs.len() - 1);
        if keep(rs.last()) {
            let ps = tally_positions(prev, keep).push((rs.len() - 1) as usize);
            assert(ps.drop_last() =~= tally_positions(prev, keep));
        }
    }
}

/// Every charge counted today is counted in the 30-day window.
pub proof fn law_today_within_window(rs: Seq<BillingRecord>, now: Timestamp)
    requires
        rs.len() <= usize::MAX,
    ensures
        forall|j: int|
            0 <= j < tally_positions(rs, today_filter(now)).len() ==> tally_positions(
                rs,
                window_filter(now),
            ).contains(#[trigger] tally_positions(rs, today_filter(now))[j]),
    decreases rs.len(),
{
    if rs.len() > 0 {
        let prev = rs.drop_last();
        law_today_within_window(prev, now);
        let today = tally_positions(rs, today_filter(now));
        let window = tally_positions(rs, window_filter(now));
        assert forall|j: int| 0 <= j < today.len() implies window.contains(#[trigger] today[j]) by {
            let tp = tally_positions(prev, today_filter(now));
            let wp = tally_positions(prev, window_filter(now));
            if j < tp.len() {
                assert(today[j] == tp[j]);
                let k = choose|k: int| 0 <= k < wp.len() && wp[k] == tp[j];
                assert(window[k] == wp[k]);
            } else {
                assert(in_today(rs.last(), now));
                assert(window[window.len() - 1] == today[j]);
            }
        }
    }
}

/// A charge that reports an outcome other than success is never counted.
pub proof fn law_failed_charges_not_counted(rs: Seq<BillingRecord>, now: Timestamp, j: usize)
    requires
        j < rs.len() <= usize::MAX,
        !record_succeeded(rs[j as int]),
    ensures
        !tally_positions(rs, window_filter(now)).contains(j),
    decreases rs.len(),
{
    let prev = rs.drop_last();
    lemma_positions_below(prev, window_filter(now));
    if j < rs.len() - 1 {
        assert(prev[j as int] == rs[j as int]);
        law_failed_charges_not_counted(prev, now, j);
    }
    let wp = tally_positions(prev, window_filter(now));
    let w = tally_positions(rs, window_filter(now));
    if w.contains(j) {
        let k = choose|k: int| 0 <= k < w.len() && w[k] == j;
        if k < wp.len() {
            assert(w[k] == wp[k]);
            assert(wp[k] < prev.len());
            if j < rs.len() - 1 {
                assert(wp.contains(j));
            }
        } else {
            assert(w[k] == (rs.len() - 1) as usize);
            assert(rs.last() == rs[j as int]);
        }
    }
}

/// The order in which a fetch tries its steps.
pub open spec fn step_rank(step: FetchStep) -> int {
    match step {
        FetchStep::TokenPlan => 0,
        FetchStep::CookieBilling => 1,
        FetchStep::LegacyApi => 2,
        FetchStep::Probe => 3,
    }
}

/// A fetch only moves on to later steps, so it ends after at most four.
pub proof fn law_fetch_moves_forward(mode: SourceMode, has_cookie: bool, step: FetchStep, succeeded: bool)
    ensures
        next_action_of(mode, has_cookie, step, succeeded) matches FetchAction::Run(next) ==> step_rank(
            next,
        ) > step_rank(step),
{
}

/// In automatic mode every failed source but the last falls back to the
/// next one: the token plan to the cookie or the legacy endpoint, the
/// cookie to the legacy endpoint, the legacy endpoint to the probe.
pub proof fn law_auto_falls_back(has_cookie: bool, step: FetchStep)
    requires
        step != FetchStep::Probe,
    ensures
        next_action_of(SourceMode::Auto, has_cookie, step, false) is Run,
        step == FetchStep::CookieBilling ==> next_action_of(SourceMode::Auto, has_cookie, step, false)
            == FetchAction::Run(FetchStep::LegacyApi),
{
}

/// A successful step always ends a fetch.
pub proof fn law_success_is_final(mode: SourceMode, has_cookie: bool, step: FetchStep)
    ensures
        next_action_of(mode, has_cookie, step, true) == FetchAction::Finish,
{
}

/// A refused request is retried in another region at most once.
pub proof fn law_retry_once(region: MiniMaxRegion, refused: bool, again: bool)
    ensures
        retry_region_of(region, refused) matches Some(other) ==> other != region && retry_region_of(
            other,
            again,
        ) is None,
{
}

/// A region named by anything but "china" is the global region, whose
/// cookies live on platform.minimax.io.
pub proof fn law_unknown_region_is_global(name: &str)
    requires
        name@ != "china"@,
    ensures
        <MiniMaxRegion as FromSpec<&str>>::from_spec(name) == MiniMaxRegion::Global,
        <MiniMaxRegion as FromSpec<&str>>::from_spec(name).cookie_domain_text()
            == "platform.minimax.io"@,
{
}

/// With an API key at hand, an automatic or web fetch starts with the
/// token-plan request, before any cookie or legacy request.
pub proof fn law_api_key_first(mode: SourceMode, has_cookie: bool)
    requires
        mode == SourceMode::Auto || mode == SourceMode::Web,
    ensures
        first_action_of(mode, true, has_cookie) == FetchAction::Run(FetchStep::TokenPlan),
{
}

/// A body snippet holds at most 300 characters and the ellipsis.
pub proof fn law_snippet_is_short(body: Seq<char>)
    ensures
        body_snippet(body) matches Some(t) ==> t.len() <= 301,
{
}

/// When no counted charge has a negative token count, today's tokens never
/// exceed the tokens of the 30-day window.
pub proof fn law_today_at_most_window(rs: Seq<BillingRecord>, now: Timestamp)
    requires
        forall|i: int| 0 <= i < rs.len() && in_window(#[trigger] rs[i], now) ==> record_tokens(rs[i]) >= 0,
    ensures
        tally(rs, today_filter(now)) <= tally(rs, window_filter(now)),
    decreases rs.len(),
{
    if rs.len() > 0 {
        let prev = rs.drop_last();
        assert forall|i: int| 0 <= i < prev.len() && in_window(#[trigger] prev[i], now) implies record_tokens(prev[i]) >= 0 by {
            assert(prev[i] == rs[i]);
        }
        law_today_at_most_window(prev, now);
        assert(rs.last() == rs[rs.len() - 1]);
    }
}

} // verus!
