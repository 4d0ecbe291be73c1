//! Reading the MiniMax API responses: status checks, plan names, the
//! fields that usage is computed from, and the messages of failed requests.

use vstd::prelude::*;
use crate::json::{
    JsonNumber, JsonValue, copy_number, get_opt, json_get, json_get_opt, json_i64, json_str,
    parse_json, spec_parse_json, str_of,
};
use crate::numbers::{int_text, remove_commas, u64_chars, without_commas};
use crate::provider::ProviderError;
use crate::text::{chars_of, is_whitespace, is_ws, string_of, trim, trim_chars};

verus! {

/// The failure a response reports in its `base_resp` block: a status code
/// other than 0 (a missing or non-integer code counts as -1), with the
/// block's message or else "Unknown error".
pub open spec fn base_failure(json: JsonValue) -> Option<Seq<char>> {
    match json_get(json, "base_resp"@) {
        Some(base) => {
            let code = match json_i64(json_get(base, "status_code"@)) {
                Some(c) => c as int,
                None => -1,
            };
            if code != 0 {
                Some(
                    match json_str(json_get(base, "status_msg"@)) {
                        Some(m) => m,
                        None => "Unknown error"@,
                    },
                )
            } else {
                None
            }
        },
        None => None,
    }
}

/// Whether an error is `Parse` with message `m`.
pub open spec fn parse_error_with(e: ProviderError, m: Seq<char>) -> bool {
    e matches ProviderError::Parse(text) && text@ == m
}

/// The failure reported in `json`'s `base_resp` block, as a parse error.
pub fn check_base_response(json: &JsonValue) -> (r: Option<ProviderError>)
    ensures
        match base_failure(*json) {
            Some(m) => r matches Some(e) && parse_error_with(e, m),
            None => r is None,
        },
{
    if let Some(base) = json.get("base_resp") {
        let code: i64 = match base.get("status_code") {
            Some(v) => match v.as_i64() {
                Some(c) => c,
                None => -1,
            },
            None => -1,
        };
        if code != 0 {
            let message = match base.get("status_msg") {
                Some(v) => match v.as_str() {
                    Some(s) => String::from_str(s),
                    None => String::from_str("Unknown error"),
                },
                None => String::from_str("Unknown error"),
            };
            return Some(ProviderError::Parse(message));
        }
    }
    None
}

/// The first of two optional values that is present.
pub open spec fn or_else<T>(a: Option<T>, b: Option<T>) -> Option<T> {
    if a is Some {
        a
    } else {
        b
    }
}

/// The text of a value, when it is a string; else "MiniMax".
pub open spec fn plan_or_default(v: Option<JsonValue>) -> Seq<char> {
    match json_str(v) {
        Some(s) => s,
        None => "MiniMax"@,
    }
}

/// The number a value holds, when it is a number.
pub open spec fn json_number(v: Option<JsonValue>) -> Option<JsonNumber> {
    match v {
        Some(JsonValue::Number(n)) => Some(n),
        _ => None,
    }
}

/// Whether `r` holds the number of value `v` (or nothing when `v` is not a
/// number).
pub open spec fn number_of(r: Option<JsonNumber>, v: Option<JsonValue>) -> bool {
    match json_number(v) {
        Some(n) => r matches Some(m) && m.integer == n.integer && m.text@ == n.text@,
        None => r is None,
    }
}

fn number_in(v: Option<&JsonValue>) -> (r: Option<JsonNumber>)
    ensures
        number_of(r, crate::json::deref_opt(v)),
{
    match v {
        Some(JsonValue::Number(n)) => Some(copy_number(n)),
        _ => None,
    }
}

fn plan_text(v: Option<&JsonValue>) -> (r: String)
    ensures
        r@ == plan_or_default(crate::json::deref_opt(v)),
{
    match str_of(v) {
        Some(s) => String::from_str(s),
        None => String::from_str("MiniMax"),
    }
}

/// The first of two borrowed values that is present.
fn first_present<'a>(a: Option<&'a JsonValue>, b: Option<&'a JsonValue>) -> (r: Option<&'a JsonValue>)
    ensures
        crate::json::deref_opt(r) == or_else(crate::json::deref_opt(a), crate::json::deref_opt(b)),
{
    match a {
        Some(x) => Some(x),
        None => b,
    }
}

/// What the legacy usage endpoint reports: the credits used and the credit
/// limit (when they are numbers) and the plan name.
#[derive(Debug)]
pub struct UsageReading {
    /// `used_amount`, or `total_amount` when that is absent.
    pub used: Option<JsonNumber>,
    /// `total_quota`, or `quota` when that is absent.
    pub limit: Option<JsonNumber>,
    pub plan: String,
}

/// The value the plan name of a usage response is read from: the first of
/// its plan fields that is present.
pub open spec fn usage_plan_value(json: JsonValue) -> Option<JsonValue> {
    or_else(
        json_get(json, "plan_name"@),
        or_else(
            json_get(json, "current_plan_title"@),
            or_else(
                json_get(json, "current_subscribe_title"@),
                or_else(
                    json_get(json, "combo_title"@),
                    or_else(
                        json_get_opt(json_get(json, "current_combo_card"@), "title"@),
                        or_else(json_get(json, "plan_type"@), json_get(json, "type"@)),
                    ),
                ),
            ),
        ),
    )
}

/// Reads a legacy usage response: its `base_resp` failure, or the fields
/// usage is computed from.
pub fn parse_usage_response(json: &JsonValue) -> (r: Result<UsageReading, ProviderError>)
    ensures
        match base_failure(*json) {
            Some(m) => r matches Err(e) && parse_error_with(e, m),
            None => r matches Ok(u) && number_of(
                u.used,
                or_else(json_get(*json, "used_amount"@), json_get(*json, "total_amount"@)),
            ) && number_of(
                u.limit,
                or_else(json_get(*json, "total_quota"@), json_get(*json, "quota"@)),
            ) && u.plan@ == plan_or_default(usage_plan_value(*json)),
        },
{
    if let Some(e) = check_base_response(json) {
        return Err(e);
    }
    let used = number_in(first_present(json.get("used_amount"), json.get("total_amount")));
    let limit = number_in(first_present(json.get("total_quota"), json.get("quota")));
    let card_title = get_opt(json.get("current_combo_card"), "title");
    let plan_value = first_present(
        json.get("plan_name"),
        first_present(
            json.get("current_plan_title"),
            first_present(
                json.get("current_subscribe_title"),
                first_present(
                    json.get("combo_title"),
                    first_present(
                        card_title,
                        first_present(json.get("plan_type"), json.get("type")),
                    ),
                ),
            ),
        ),
    );
    Ok(UsageReading { used, limit, plan: plan_text(plan_value) })
}

/// The object a token-plan response keeps its fields in: its `data`
/// member when present, else the response itself.
pub open spec fn token_plan_data(json: JsonValue) -> JsonValue {
    match json_get(json, "data"@) {
        Some(d) => d,
        None => json,
    }
}

/// The plan name of a token-plan response.
pub open spec fn token_plan_plan(data: JsonValue) -> Seq<char> {
    plan_or_default(
        or_else(
            json_get(data, "plan_name"@),
            or_else(json_get(data, "current_subscribe_title"@), json_get(data, "plan"@)),
        ),
    )
}

/// Reads a token-plan response: the object its fields are in, and either
/// that object's `base_resp` failure or its plan name.
pub fn parse_token_plan_response(json: &JsonValue) -> (r: (&JsonValue, Result<String, ProviderError>))
    ensures
        *r.0 == token_plan_data(*json),
        match base_failure(token_plan_data(*json)) {
            Some(m) => r.1 matches Err(e) && parse_error_with(e, m),
            None => r.1 matches Ok(p) && p@ == token_plan_plan(token_plan_data(*json)),
        },
{
    let data = match json.get("data") {
        Some(d) => d,
        None => json,
    };
    if let Some(e) = check_base_response(data) {
        return (data, Err(e));
    }
    let plan_value = first_present(
        data.get("plan_name"),
        first_present(data.get("current_subscribe_title"), data.get("plan")),
    );
    (data, Ok(plan_text(plan_value)))
}

/// Keys whose first present value is a token plan's total.
pub fn token_plan_total_keys() -> (r: Vec<&'static str>)
    ensures
        r@.len() == 4,
        r@[0]@ == "total"@,
        r@[1]@ == "total_amount"@,
        r@[2]@ == "total_quota"@,
        r@[3]@ == "current_interval_total_count"@,
{
    vec!["total", "total_amount", "total_quota", "current_interval_total_count"]
}

/// Keys whose first present value is what remains of a token plan
/// (`current_interval_usage_count` counts what remains, not what was used).
pub fn token_plan_remaining_keys() -> (r: Vec<&'static str>)
    ensures
        r@.len() == 8,
        r@[0]@ == "remaining"@,
        r@[1]@ == "remain"@,
        r@[2]@ == "remain_amount"@,
        r@[3]@ == "remainingAmount"@,
        r@[4]@ == "remaining_amount"@,
        r@[5]@ == "left_count"@,
        r@[6]@ == "left"@,
        r@[7]@ == "current_interval_usage_count"@,
{
    vec![
        "remaining",
        "remain",
        "remain_amount",
        "remainingAmount",
        "remaining_amount",
        "left_count",
        "left",
        "current_interval_usage_count",
    ]
}

/// Keys whose first present value is what a token plan has used.
pub fn token_plan_used_keys() -> (r: Vec<&'static str>)
    ensures
        r@.len() == 3,
        r@[0]@ == "used"@,
        r@[1]@ == "used_amount"@,
        r@[2]@ == "used_tokens"@,
{
    vec!["used", "used_amount", "used_tokens"]
}

/// A textual number cleaned for reading: trimmed and without thousands
/// separators.
pub fn clean_number_text(s: &str) -> (r: String)
    ensures
        r@ == remove_commas(trim(s@)),
{
    string_of(&without_commas(&trim_chars(&chars_of(s))))
}


/// Whether a status code means the credentials were refused (401, 403).
pub open spec fn auth_refused(code: u16) -> bool {
    code == 401 || code == 403
}

/// Whether a status code means success (200 to 299).
pub open spec fn success_status(code: u16) -> bool {
    200 <= code <= 299
}

pub fn is_auth_refused(code: u16) -> (r: bool)
    ensures
        r == auth_refused(code),
{
    code == 401 || code == 403
}

pub fn is_success_status(code: u16) -> (r: bool)
    ensures
        r == success_status(code),
{
    200 <= code && code <= 299
}

/// Names the reason phrase `http` registers for a status code.
pub uninterp spec fn spec_canonical_reason(code: u16) -> Option<Seq<char>>;

/// Wraps `StatusCode::canonical_reason` (reached through `reqwest`): the
/// registered reason phrase of a valid status code, if it has one.
#[verifier::external_body]
fn canonical_reason(code: u16) -> (r: Option<&'static str>)
    requires
        100 <= code <= 999,
    ensures
        match r {
            Some(s) => spec_canonical_reason(code) == Some(s@),
            None => spec_canonical_reason(code) is None,
        },
{
    match reqwest::StatusCode::from_u16(code) {
        Ok(status) => status.canonical_reason(),
        Err(_) => None,
    }
}

/// A status code as it prints: its number and its reason phrase, or
/// "<unknown status code>" when it has none.
pub open spec fn status_text(code: u16) -> Seq<char> {
    int_text(code as int) + " "@ + match spec_canonical_reason(code) {
        Some(reason) => reason,
        None => "<unknown status code>"@,
    }
}

/// Prints a status code.
pub fn status_line(code: u16) -> (r: String)
    requires
        100 <= code <= 999,
    ensures
        r@ == status_text(code),
{
    let mut s = string_of(&u64_chars(code as u64));
    s.append(" ");
    match canonical_reason(code) {
        Some(reason) => s.append(reason),
        None => s.append("<unknown status code>"),
    }
    s
}

/// The fold that collapses whitespace: the text so far, and whether a
/// space is owed before the next word.
pub open spec fn collapse_state(s: Seq<char>) -> (Seq<char>, bool)
    decreases s.len(),
{
    if s.len() == 0 {
        (seq![], false)
    } else {
        let prev = collapse_state(s.drop_last());
        let c = s.last();
        if is_ws(c) {
            (prev.0, prev.0.len() > 0)
        } else if prev.1 {
            (prev.0.push(' ').push(c), false)
        } else {
            (prev.0.push(c), false)
        }
    }
}

/// The words of `s` joined by single spaces: whitespace runs become one
/// space, and leading and trailing whitespace is dropped.
pub open spec fn collapse_whitespace(s: Seq<char>) -> Seq<char> {
    collapse_state(s).0
}

/// The longest part of a response body shown in a message.
pub const SNIPPET_LIMIT: usize = 300;

/// A response body shortened for a message: whitespace collapsed, at most
/// 300 characters, and an ellipsis when cut; nothing for a blank body.
pub open spec fn body_snippet(body: Seq<char>) -> Option<Seq<char>> {
    let c = collapse_whitespace(body);
    if c.len() == 0 {
        None
    } else if c.len() > 300 {
        Some(c.take(300).push('\u{2026}'))
    } else {
        Some(c)
    }
}

pub fn response_body_snippet(body: &str) -> (r: Option<String>)
    ensures
        match body_snippet(body@) {
            Some(t) => r matches Some(s) && s@ == t,
            None => r is None,
        },
{
    let chars = chars_of(body);
    let mut out: Vec<char> = Vec::new();
    let mut gap = false;
    let mut k: usize = 0;
    while k < chars.len()
        invariant
            k <= chars@.len(),
            (out@, gap) == collapse_state(chars@.take(k as int)),
        decreases chars@.len() - k,
    {
        assert(chars@.take(k + 1).drop_last() =~= chars@.take(k as int));
        let c = chars[k];
        if is_whitespace(c) {
            gap = out.len() > 0;
        } else {
            if gap {
                out.push(' ');
            }
            out.push(c);
            gap = false;
        }
        k = k + 1;
    }
    assert(chars@.take(chars@.len() as int) =~= body@);
    if out.len() == 0 {
        return None;
    }
    if out.len() > SNIPPET_LIMIT {
        let mut cut: Vec<char> = Vec::new();
        let mut m: usize = 0;
        while m < SNIPPET_LIMIT
            invariant
                m <= SNIPPET_LIMIT < out@.len(),
                cut@ == out@.take(m as int),
            decreases SNIPPET_LIMIT - m,
        {
            cut.push(out[m]);
            assert(cut@ =~= out@.take(m + 1));
            m = m + 1;
        }
        cut.push('\u{2026}');
        Some(string_of(&cut))
    } else {
        Some(string_of(&out))
    }
}

/// The message a failed response carries at `/base_resp/status_msg`,
/// trimmed; nothing when absent or blank.
pub open spec fn base_response_message(body_json: Option<JsonValue>) -> Option<Seq<char>> {
    match json_str(json_get_opt(json_get_opt(body_json, "base_resp"@), "status_msg"@)) {
        Some(m) => if trim(m).len() > 0 {
            Some(trim(m))
        } else {
            None
        },
        None => None,
    }
}

/// The message a failed response's JSON carries at `/base_resp/status_msg`.
fn status_message_in(body_json: Option<&JsonValue>) -> (r: Option<String>)
    ensures
        match base_response_message(crate::json::deref_opt(body_json)) {
            Some(m) => r matches Some(s) && s@ == m,
            None => r is None,
        },
{
    match str_of(get_opt(get_opt(body_json, "base_resp"), "status_msg")) {
        Some(m) => {
            let t = trim_chars(&chars_of(m));
            if t.len() > 0 {
                Some(string_of(&t))
            } else {
                None
            }
        },
        None => None,
    }
}

/// Reads the message of a failed response from its body: the body read as
/// JSON, its `/base_resp/status_msg` trimmed; nothing when the body is not
/// JSON or the message is absent or blank.
pub fn minimax_base_response_message(body: &str) -> (r: Option<String>)
    ensures
        match base_response_message(spec_parse_json(body@)) {
            Some(m) => r matches Some(s) && s@ == m,
            None => r is None,
        },
{
    match parse_json(body) {
        Ok(json) => status_message_in(Some(&json)),
        Err(_) => status_message_in(None),
    }
}

/// The message of a failed billing-history request: the status, then the
/// response's own message, else a snippet of its body.
pub open spec fn billing_status_text(code: u16, body: Seq<char>, body_json: Option<JsonValue>) -> Seq<char> {
    "MiniMax billing returned status "@ + status_text(code) + match or_else(
        base_response_message(body_json),
        body_snippet(body),
    ) {
        Some(detail) => ": "@ + detail,
        None => Seq::empty(),
    }
}

/// Builds the message of a failed billing-history request from its status
/// and body.
pub fn billing_status_error(status: u16, body: &str) -> (r: String)
    requires
        100 <= status <= 999,
    ensures
        r@ == billing_status_text(status, body@, spec_parse_json(body@)),
{
    let detail = match minimax_base_response_message(body) {
        Some(m) => Some(m),
        None => response_body_snippet(body),
    };
    let mut message = String::from_str("MiniMax billing returned status ");
    message.append(status_line(status).as_str());
    match detail {
        Some(d) => {
            message.append(": ");
            message.append(d.as_str());
        },
        None => {},
    }
    message
}


/// The message of a failed token-plan request: the status and the first
/// 200 characters of the body.
pub open spec fn token_plan_status_text(code: u16, body: Seq<char>) -> Seq<char> {
    "MiniMax token_plan returned status "@ + status_text(code) + ": "@ + body.take(
        if body.len() < 200 {
            body.len() as int
        } else {
            200
        },
    )
}

pub fn token_plan_status_error(status: u16, body: &str) -> (r: String)
    requires
        100 <= status <= 999,
    ensures
        r@ == token_plan_status_text(status, body@),
{
    let chars = chars_of(body);
    let mut head: Vec<char> = Vec::new();
    let mut k: usize = 0;
    while k < chars.len() && k < 200
        invariant
            k <= chars@.len(),
            k <= 200,
            head@ == chars@.take(k as int),
        decreases chars@.len() - k,
    {
        head.push(chars[k]);
        assert(head@ =~= chars@.take(k + 1));
        k = k + 1;
    }
    let mut message = String::from_str("MiniMax token_plan returned status ");
    message.append(status_line(status).as_str());
    message.append(": ");
    message.append(string_of(&head).as_str());
    message
}

/// The message of a failed legacy usage request.
pub fn usage_status_error(status: u16) -> (r: String)
    requires
        100 <= status <= 999,
    ensures
        r@ == "MiniMax API returned status "@ + status_text(status),
{
    let mut message = String::from_str("MiniMax API returned status ");
    message.append(status_line(status).as_str());
    message
}

/// Names what `Url::parse` (reached through `reqwest`) reads from a URL:
/// its scheme and its host, when it parses.
pub uninterp spec fn spec_url_scheme_host(url: Seq<char>) -> Option<(Seq<char>, Option<Seq<char>>)>;

/// Wraps `Url::parse`, keeping the parsed URL's scheme and host.
#[verifier::external_body]
fn url_scheme_host(url: &str) -> (r: Option<(String, Option<String>)>)
    ensures
        match r {
            Some((scheme, host)) => spec_url_scheme_host(url@) == Some(
                (
                    scheme@,
                    match host {
                        Some(h) => Some(h@),
                        None => None,
                    },
                ),
            ),
            None => spec_url_scheme_host(url@) is None,
        },
{
    match reqwest::Url::parse(url) {
        Ok(parsed) => {
            let host = match parsed.host_str() {
                Some(h) => Some(h.to_string()),
                None => None,
            };
            Some((parsed.scheme().to_string(), host))
        },
        Err(_) => None,
    }
}

/// The origin of a URL, "<scheme>://<host>"; the URL itself when it does
/// not parse or has no host.
pub open spec fn origin_text(url: Seq<char>) -> Seq<char> {
    match spec_url_scheme_host(url) {
        Some((scheme, Some(host))) => scheme + "://"@ + host,
        _ => url,
    }
}

pub fn origin_from_url(url: &str) -> (r: String)
    ensures
        r@ == origin_text(url@),
{
    match url_scheme_host(url) {
        Some((scheme, Some(host))) => {
            let mut origin = scheme;
            origin.append("://");
            origin.append(host.as_str());
            origin
        },
        _ => String::from_str(url),
    }
}

/// The page a billing-history request names as its referrer.
pub fn billing_referer(url: &str) -> (r: String)
    ensures
        r@ == origin_text(url@) + "/account"@,
{
    let mut referer = origin_from_url(url);
    referer.append("/account");
    referer
}

} // verus!
