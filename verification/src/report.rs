//! The rows a billing summary is shown as: headline texts and the extra
//! usage windows for token counts, spending and the top methods and models.

use vstd::prelude::*;
use crate::billing::{BillingBreakdown, BillingSummary, copy_positions};
use crate::numbers::{format_count, group_thousands, int_text, u64_chars};
use crate::text::string_of;

verus! {

/// What an extra window shows.
#[derive(Debug)]
pub enum WindowDetail {
    /// This text.
    Text(String),
    /// The cash spent by the charges at these positions, as "$" with two
    /// decimals.
    Spend(Vec<usize>),
    /// A token count and the cash spent by the charges at these positions,
    /// as "<count> tokens / $<cash>".
    TokensAndSpend(String, Vec<usize>),
}

/// An extra usage window: its id, its label and what it shows.
#[derive(Debug)]
pub struct ExtraWindow {
    pub id: String,
    pub label: String,
    pub detail: WindowDetail,
}

/// A count as shown: digits grouped by commas.
pub open spec fn count_text(v: i64) -> Seq<char> {
    group_thousands(int_text(v as int))
}

/// Whether window `w` has this id, label and text.
pub open spec fn text_window(w: ExtraWindow, id: Seq<char>, label: Seq<char>, text: Seq<char>) -> bool {
    &&& w.id@ == id
    &&& w.label@ == label
    &&& w.detail matches WindowDetail::Text(t) && t@ == text
}

/// Whether window `w` has this id and label and shows the spending of the
/// charges at `positions`.
pub open spec fn spend_window(w: ExtraWindow, id: Seq<char>, label: Seq<char>, positions: Seq<usize>) -> bool {
    &&& w.id@ == id
    &&& w.label@ == label
    &&& w.detail matches WindowDetail::Spend(p) && p@ == positions
}

/// Whether window `w` shows breakdown `b`: its count, with its spending
/// when any of its charges carries cash.
pub open spec fn breakdown_window(w: ExtraWindow, id: Seq<char>, label: Seq<char>, b: BillingBreakdown) -> bool {
    &&& w.id@ == id
    &&& w.label@ == label
    &&& if b.has_cash {
        w.detail matches WindowDetail::TokensAndSpend(t, p) && t@ == count_text(b.tokens) && p@
            == b.records@
    } else {
        w.detail matches WindowDetail::Text(t) && t@ == count_text(b.tokens) + " tokens"@
    }
}

/// How many of the two spending windows a summary has.
pub open spec fn spend_rows(s: BillingSummary) -> int {
    (if s.today_has_cash {
        1int
    } else {
        0int
    }) + (if s.last_30_days_has_cash {
        1int
    } else {
        0int
    })
}

/// The windows of a summary, in order: tokens today, tokens over 30 days,
/// spending today and over 30 days (when any charge carries cash), then one
/// per top method and one per top model.
pub open spec fn billing_windows(w: Seq<ExtraWindow>, s: BillingSummary) -> bool {
    let base = 2 + spend_rows(s);
    let methods = s.top_methods@;
    let models = s.top_models@;
    &&& w.len() == base + methods.len() + models.len()
    &&& text_window(w[0], "billing-tokens-today"@, "Tokens today"@, count_text(s.today_tokens))
    &&& text_window(
        w[1],
        "billing-tokens-30d"@,
        "Tokens (30 days)"@,
        count_text(s.last_30_days_tokens),
    )
    &&& s.today_has_cash ==> spend_window(
        w[2],
        "billing-cash-today"@,
        "Spend today"@,
        s.today_records@,
    )
    &&& s.last_30_days_has_cash ==> spend_window(
        w[base - 1],
        "billing-cash-30d"@,
        "Spend (30 days)"@,
        s.last_30_days_records@,
    )
    &&& forall|t: int|
        0 <= t < methods.len() ==> breakdown_window(
            #[trigger] w[base + t],
            "billing-method-"@ + int_text(t),
            "Method: "@ + methods[t].name@,
            methods[t],
        )
    &&& forall|t: int|
        0 <= t < models.len() ==> breakdown_window(
            #[trigger] w[base + methods.len() + t],
            "billing-model-"@ + int_text(t),
            "Model: "@ + models[t].name@,
            models[t],
        )
}

/// The text `prefix` followed by `t` in decimal.
fn with_index(prefix: &str, t: usize) -> (r: String)
    ensures
        r@ == prefix@ + int_text(t as int),
{
    let mut s = String::from_str(prefix);
    s.append(string_of(&u64_chars(t as u64)).as_str());
    s
}

/// The text `prefix` followed by `name`.
fn with_name(prefix: &str, name: &String) -> (r: String)
    ensures
        r@ == prefix@ + name@,
{
    let mut s = String::from_str(prefix);
    s.append(name.as_str());
    s
}

/// The window of one breakdown.
fn breakdown_row(id: String, label: String, b: &BillingBreakdown) -> (w: ExtraWindow)
    ensures
        breakdown_window(w, id@, label@, *b),
{
    let count = format_count(b.tokens);
    let detail = if b.has_cash {
        WindowDetail::TokensAndSpend(count, copy_positions(&b.records))
    } else {
        let mut text = count;
        text.append(" tokens");
        WindowDetail::Text(text)
    };
    ExtraWindow { id, label, detail }
}

/// The extra windows that show a billing summary.
pub fn attach_billing_summary(summary: &BillingSummary) -> (w: Vec<ExtraWindow>)
    ensures
        billing_windows(w@, *summary),
{
    let mut w: Vec<ExtraWindow> = Vec::new();
    w.push(
        ExtraWindow {
            id: String::from_str("billing-tokens-today"),
            label: String::from_str("Tokens today"),
            detail: WindowDetail::Text(format_count(summary.today_tokens)),
        },
    );
    w.push(
        ExtraWindow {
            id: String::from_str("billing-tokens-30d"),
            label: String::from_str("Tokens (30 days)"),
            detail: WindowDetail::Text(format_count(summary.last_30_days_tokens)),
        },
    );
    if summary.today_has_cash {
        w.push(
            ExtraWindow {
                id: String::from_str("billing-cash-today"),
                label: String::from_str("Spend today"),
                detail: WindowDetail::Spend(copy_positions(&summary.today_records)),
            },
        );
    }
    if summary.last_30_days_has_cash {
        w.push(
            ExtraWindow {
                id: String::from_str("billing-cash-30d"),
                label: String::from_str("Spend (30 days)"),
                detail: WindowDetail::Spend(copy_positions(&summary.last_30_days_records)),
            },
        );
    }
    let ghost base = 2 + spend_rows(*summary);
    assert(w@.len() == base);
    let methods = &summary.top_methods;
    let mut t: usize = 0;
    while t < methods.len()
        invariant
            base == 2 + spend_rows(*summary),
            *methods == summary.top_methods,
            t <= methods@.len(),
            w@.len() == base + t,
            text_window(w@[0], "billing-tokens-today"@, "Tokens today"@, count_text(summary.today_tokens)),
            text_window(
                w@[1],
                "billing-tokens-30d"@,
                "Tokens (30 days)"@,
                count_text(summary.last_30_days_tokens),
            ),
            summary.today_has_cash ==> spend_window(
                w@[2],
                "billing-cash-today"@,
                "Spend today"@,
                summary.today_records@,
            ),
            summary.last_30_days_has_cash ==> spend_window(
                w@[base - 1],
                "billing-cash-30d"@,
                "Spend (30 days)"@,
                summary.last_30_days_records@,
            ),
            forall|m: int|
                0 <= m < t ==> breakdown_window(
                    #[trigger] w@[base + m],
                    "billing-method-"@ + int_text(m),
                    "Method: "@ + methods@[m].name@,
                    methods@[m],
                ),
        decreases methods@.len() - t,
    {
        let row = breakdown_row(
            with_index("billing-method-", t),
            with_name("Method: ", &methods[t].name),
            &methods[t],
        );
        w.push(row);
        t = t + 1;
    }
    let models = &summary.top_models;
    let ghost base2 = base + methods@.len();
    let mut t: usize = 0;
    while t < models.len()
        invariant
            base == 2 + spend_rows(*summary),
            base2 == base + summary.top_methods@.len(),
            *models == summary.top_models,
            t <= models@.len(),
            w@.len() == base2 + t,
            text_window(w@[0], "billing-tokens-today"@, "Tokens today"@, count_text(summary.today_tokens)),
            text_window(
                w@[1],
                "billing-tokens-30d"@,
                "Tokens (30 days)"@,
                count_text(summary.last_30_days_tokens),
            ),
            summary.today_has_cash ==> spend_window(
                w@[2],
                "billing-cash-today"@,
                "Spend today"@,
                summary.today_records@,
            ),
            summary.last_30_days_has_cash ==> spend_window(
                w@[base - 1],
                "billing-cash-30d"@,
                "Spend (30 days)"@,
                summary.last_30_days_records@,
            ),
            forall|m: int|
                0 <= m < summary.top_methods@.len() ==> breakdown_window(
                    #[trigger] w@[base + m],
                    "billing-method-"@ + int_text(m),
                    "Method: "@ + summary.top_methods@[m].name@,
                    summary.top_methods@[m],
                ),
            forall|m: int|
                0 <= m < t ==> breakdown_window(
                    #[trigger] w@[base2 + m],
                    "billing-model-"@ + int_text(m),
                    "Model: "@ + models@[m].name@,
                    models@[m],
                ),
        decreases models@.len() - t,
    {
        let row = breakdown_row(
            with_index("billing-model-", t),
            with_name("Model: ", &models[t].name),
            &models[t],
        );
        w.push(row);
        t = t + 1;
    }
    w
}

/// The headline texts of a billing summary: today's tokens and the 30-day
/// tokens.
pub fn billing_headlines(summary: &BillingSummary) -> (r: (String, String))
    ensures
        r.0@ == count_text(summary.today_tokens) + " tokens today"@,
        r.1@ == count_text(summary.last_30_days_tokens) + " tokens over last 30 days"@,
{
    let mut today = format_count(summary.today_tokens);
    today.append(" tokens today");
    let mut window = format_count(summary.last_30_days_tokens);
    window.append(" tokens over last 30 days");
    (today, window)
}

} // verus!
