use vstd::prelude::*;

use crate::config::{OneBotConfig, OneBotReverseConfig};
use crate::datamap::{dm_get, dm_insert, law_insert_then_get};
use crate::onebot::api::{failure, ApiResponse};
use crate::json::{json_entries, obj_insert, Json, JsonValue};
use crate::text::{
    ascii_lower_seq, chars_of, int_text, is_lit, lower_chars, parse_i64_chars, parse_i64_spec,
    strip_prefix_chars, strip_prefix_spec, string_from_chars, trim_spec, trim_str,
};

verus! {

/// The views of a list of string slices.
pub open spec fn str_views(v: Seq<&str>) -> Seq<Seq<char>> {
    v.map_values(|s: &str| s@)
}

/// The first of `vals[i..]` that is not blank, trimmed; empty when all are.
pub open spec fn first_non_empty_from(vals: Seq<Seq<char>>, i: int) -> Seq<char>
    decreases vals.len() - i,
{
    if i < 0 || i >= vals.len() {
        Seq::empty()
    } else if trim_spec(vals[i]).len() > 0 {
        trim_spec(vals[i])
    } else {
        first_non_empty_from(vals, i + 1)
    }
}

/// The first value that is not blank, trimmed, or the empty string.
pub fn first_non_empty(values: &[&str]) -> (r: String)
    ensures
        r@ == first_non_empty_from(str_views(values@), 0),
{
    let ghost vs = str_views(values@);
    let mut i: usize = 0;
    while i < values.len()
        invariant
            i <= values@.len(),
            vs == str_views(values@),
            vs.len() == values@.len(),
            first_non_empty_from(vs, 0) == first_non_empty_from(vs, i as int),
        decreases values@.len() - i,
    {
        let t = trim_str(values[i]);
        assert(vs[i as int] == values@[i as int]@);
        if t.len() > 0 {
            return string_from_chars(t.as_slice());
        }
        i = i + 1;
    }
    String::new()
}

/// The view of an optional string slice.
pub open spec fn opt_str(o: Option<&str>) -> Option<Seq<char>> {
    match o {
        Some(s) => Some(s@),
        None => None,
    }
}

/// An `Authorization` value without its `Bearer ` or `Token ` scheme.
pub open spec fn auth_credential(a: Seq<char>) -> Seq<char> {
    match strip_prefix_spec(a, "Bearer "@) {
        Some(t) => t,
        None => match strip_prefix_spec(a, "Token "@) {
            Some(t) => t,
            None => a,
        },
    }
}

/// Whether a downstream request may pass: no token is configured, or the
/// `access_token` query parameter carries it, or the `Authorization`
/// header does (bare, or after `Bearer ` or `Token `).
pub open spec fn authorized_spec(
    access_token: Seq<char>,
    query_token: Option<Seq<char>>,
    authorization: Option<Seq<char>>,
) -> bool {
    let token = trim_spec(access_token);
    if token.len() == 0 {
        true
    } else if query_token is Some && trim_spec(query_token->0) == token {
        true
    } else {
        match authorization {
            Some(a) => auth_credential(trim_spec(a)) == token,
            None => false,
        }
    }
}

/// Checks a request's credentials against the configured access token.
/// `query_token` is the `access_token` query parameter, `authorization`
/// the `Authorization` header as text, each when present.
pub fn is_authorized(access_token: &str, query_token: Option<&str>, authorization: Option<&str>) -> (b: bool)
    ensures
        b == authorized_spec(access_token@, opt_str(query_token), opt_str(authorization)),
{
    let token = trim_str(access_token);
    if token.len() == 0 {
        return true;
    }
    match query_token {
        Some(q) => {
            let qt = trim_str(q);
            if crate::text::chars_eq(&qt, &token) {
                return true;
            }
        },
        None => {},
    }
    match authorization {
        Some(a) => {
            let at = trim_str(a);
            let bearer = chars_of("Bearer ");
            let scheme = chars_of("Token ");
            let cred = match strip_prefix_chars(&at, &bearer) {
                Some(t) => t,
                None => match strip_prefix_chars(&at, &scheme) {
                    Some(t) => t,
                    None => at,
                },
            };
            crate::text::chars_eq(&cred, &token)
        },
        None => false,
    }
}

/// Query keys whose values are read as integers.
pub open spec fn numeric_key(k: Seq<char>) -> bool {
    k == "user_id"@ || k == "group_id"@ || k == "message_id"@ || k == "self_id"@ || k
        == "duration"@ || k == "delay"@ || k == "times"@
}

/// Query keys whose values are read as booleans.
pub open spec fn flag_key(k: Seq<char>) -> bool {
    k == "auto_escape"@ || k == "approve"@ || k == "enable"@ || k == "no_cache"@ || k
        == "reject_add_request"@
}

/// The JSON value a query parameter stands for: integers for id-like keys
/// when the text parses, booleans for switch-like keys when the text is
/// `true`/`1`/`false`/`0` in any case, and the text itself otherwise.
pub open spec fn scalar_json(key: Seq<char>, value: Seq<char>) -> Json {
    let k = ascii_lower_seq(trim_spec(key));
    if k == "message"@ {
        Json::Str(value)
    } else if numeric_key(k) {
        match parse_i64_spec(value) {
            Some(n) => Json::Int(n),
            None => Json::Str(value),
        }
    } else if flag_key(k) {
        let l = ascii_lower_seq(value);
        if l == "true"@ || l == "1"@ {
            Json::Bool(true)
        } else if l == "false"@ || l == "0"@ {
            Json::Bool(false)
        } else {
            Json::Str(value)
        }
    } else {
        Json::Str(value)
    }
}

/// Reads one query parameter as a JSON value.
pub fn normalize_http_scalar(key: &str, value: &str) -> (r: JsonValue)
    ensures
        r@ == scalar_json(key@, value@),
{
    let k = lower_chars(&trim_str(key));
    if is_lit(&k, "message") {
        return crate::json::jstr(value);
    }
    if is_lit(&k, "user_id") || is_lit(&k, "group_id") || is_lit(&k, "message_id") || is_lit(
        &k,
        "self_id",
    ) || is_lit(&k, "duration") || is_lit(&k, "delay") || is_lit(&k, "times") {
        let v = chars_of(value);
        return match parse_i64_chars(&v) {
            Some(n) => JsonValue::Int(n),
            None => crate::json::jstr(value),
        };
    }
    if is_lit(&k, "auto_escape") || is_lit(&k, "approve") || is_lit(&k, "enable") || is_lit(
        &k,
        "no_cache",
    ) || is_lit(&k, "reject_add_request") {
        let l = lower_chars(&chars_of(value));
        if is_lit(&l, "true") || is_lit(&l, "1") {
            return JsonValue::Bool(true);
        }
        if is_lit(&l, "false") || is_lit(&l, "0") {
            return JsonValue::Bool(false);
        }
        return crate::json::jstr(value);
    }
    crate::json::jstr(value)
}

/// What `std::str::from_utf8` reads from `b`: its text when `b` is valid
/// UTF-8, `None` otherwise.
pub uninterp spec fn utf8_decode(b: Seq<u8>) -> Option<Seq<char>>;

/// The text of the error that `std::str::from_utf8` reports for `b`.
pub uninterp spec fn utf8_error_text(b: Seq<u8>) -> Seq<char>;

/// `std::str::from_utf8`, with its error turned into its text.
#[verifier::external_body]
fn decode_utf8<'a>(b: &'a [u8]) -> (r: Result<&'a str, String>)
    ensures
        match r {
            Ok(s) => utf8_decode(b@) == Some(s@),
            Err(m) => utf8_decode(b@) is None && m@ == utf8_error_text(b@),
        },
{
    match std::str::from_utf8(b) {
        Ok(s) => Ok(s),
        Err(e) => Err(e.to_string()),
    }
}

/// The request body text for a decoding outcome: the text trimmed, or the
/// refusal for a body that is not UTF-8.
pub open spec fn body_text_spec(decoded: Result<Seq<char>, Seq<char>>) -> Result<Seq<char>, Seq<char>> {
    match decoded {
        Ok(s) => Ok(trim_spec(s)),
        Err(e) => Err("invalid utf-8 body: "@ + e),
    }
}

/// The view of a decoding outcome.
pub open spec fn decoded_view(d: Result<&str, String>) -> Result<Seq<char>, Seq<char>> {
    match d {
        Ok(s) => Ok(s@),
        Err(e) => Err(e@),
    }
}

/// The view of a text outcome.
pub open spec fn text_result_view(r: Result<String, String>) -> Result<Seq<char>, Seq<char>> {
    match r {
        Ok(s) => Ok(s@),
        Err(e) => Err(e@),
    }
}

/// Turns the outcome of decoding a request body into its trimmed text or
/// the refusal text.
pub fn body_text_of(decoded: Result<&str, String>) -> (r: Result<String, String>)
    ensures
        text_result_view(r) == body_text_spec(decoded_view(decoded)),
{
    match decoded {
        Ok(s) => {
            let t = trim_str(s);
            Ok(string_from_chars(t.as_slice()))
        },
        Err(e) => {
            let mut m = String::from_str("invalid utf-8 body: ");
            m.append(e.as_str());
            Err(m)
        },
    }
}

/// The text of an HTTP request body, trimmed, or why it is unreadable.
pub fn http_body_text(body: &[u8]) -> (r: Result<String, String>)
    ensures
        text_result_view(r) == body_text_spec(
            match utf8_decode(body@) {
                Some(s) => Ok(s),
                None => Err(utf8_error_text(body@)),
            },
        ),
{
    let decoded = decode_utf8(body);
    body_text_of(decoded)
}

/// Parameters from the query string, in key order: the `access_token`
/// parameter is left out, a later pair replaces an earlier one of the same
/// key.
pub open spec fn query_params(q: Seq<(Seq<char>, Seq<char>)>) -> Seq<(Seq<char>, Json)>
    decreases q.len(),
{
    if q.len() == 0 {
        Seq::empty()
    } else {
        let acc = query_params(q.drop_last());
        let kv = q.last();
        if kv.0 == "access_token"@ {
            acc
        } else {
            dm_insert(acc, kv.0, scalar_json(kv.0, kv.1))
        }
    }
}

/// `acc` with the members `items` inserted in turn.
pub open spec fn merge_members(acc: Seq<(Seq<char>, Json)>, items: Seq<(Seq<char>, Json)>) -> Seq<
    (Seq<char>, Json),
>
    decreases items.len(),
{
    if items.len() == 0 {
        acc
    } else {
        let last = items.last();
        dm_insert(merge_members(acc, items.drop_last()), last.0, last.1)
    }
}

/// The parameters of an HTTP API call: the query parameters, overridden by
/// the members of a JSON object body. A body that is not a JSON object is
/// refused with its parse error; no parameter at all gives `None`.
pub open spec fn http_params_spec(
    q: Seq<(Seq<char>, Seq<char>)>,
    body: Option<Result<Seq<(Seq<char>, Json)>, Seq<char>>>,
) -> Result<Option<Json>, Seq<char>> {
    match body {
        Some(Err(e)) => Err("invalid json body: "@ + e),
        _ => {
            let base = query_params(q);
            let all = match body {
                Some(Ok(ms)) => merge_members(base, ms),
                _ => base,
            };
            if all.len() == 0 {
                Ok(None)
            } else {
                Ok(Some(Json::Object(all)))
            }
        },
    }
}

/// The parameters of an HTTP API call from its query pairs and its raw
/// body: an empty body, or one that is blank once trimmed, adds nothing; a
/// body that is not UTF-8 is refused with `invalid utf-8 body: ` and the
/// decoding error; otherwise `parsed`, the outcome of reading the trimmed
/// body text as a JSON object (`json_object_parse`), is merged over the
/// query as `http_params_spec` says.
pub open spec fn http_request_params_spec(
    q: Seq<(Seq<char>, Seq<char>)>,
    b: Seq<u8>,
    parsed: Option<Result<Seq<(Seq<char>, Json)>, Seq<char>>>,
) -> Result<Option<Json>, Seq<char>> {
    if b.len() == 0 {
        http_params_spec(q, None)
    } else {
        match utf8_decode(b) {
            None => Err("invalid utf-8 body: "@ + utf8_error_text(b)),
            Some(s) => if trim_spec(s).len() == 0 {
                http_params_spec(q, None)
            } else {
                http_params_spec(q, parsed)
            },
        }
    }
}

/// serde_json's JSON value, as its parser hands it over.
#[verifier::external_type_specification]
#[verifier::external_body]
pub struct ExSerdeValue(serde_json::Value);

/// What `serde_json::from_str::<Map<String, Value>>` reads from `text`:
/// the members of the JSON object, in key order, as the library's JSON
/// values, or the text of the parse error.
pub uninterp spec fn json_object_parse(text: Seq<char>) -> Result<Seq<(Seq<char>, Json)>, Seq<char>>;

/// A serde_json value as the library's JSON value, variant for variant: a
/// number that fits `i64` is `Int`, one that fits `u64` only is `UInt`,
/// any other keeps its text.
#[verifier::external_body]
fn json_value_of(v: serde_json::Value) -> JsonValue {
    match v {
        serde_json::Value::Null => JsonValue::Null,
        serde_json::Value::Bool(b) => JsonValue::Bool(b),
        serde_json::Value::Number(n) => match (n.as_i64(), n.as_u64()) {
            (Some(i), _) => JsonValue::Int(i),
            (None, Some(u)) => JsonValue::UInt(u),
            (None, None) => JsonValue::Float(n.to_string()),
        },
        serde_json::Value::String(t) => JsonValue::Str(t),
        serde_json::Value::Array(a) => JsonValue::Array(a.into_iter().map(json_value_of).collect()),
        serde_json::Value::Object(o) => JsonValue::Object(o.into_iter().map(|(k, x)| (k, json_value_of(x))).collect()),
    }
}

/// `serde_json::from_str::<Map<String, Value>>(text)`: the members of the
/// JSON object `text` holds, or the parse error's text.
#[verifier::external_body]
fn parse_json_object(text: &str) -> (r: Result<Vec<(String, JsonValue)>, String>)
    ensures
        match r {
            Ok(ms) => json_object_parse(text@) == Ok::<Seq<(Seq<char>, Json)>, Seq<char>>(
                json_entries(ms@),
            ),
            Err(e) => json_object_parse(text@) == Err::<Seq<(Seq<char>, Json)>, Seq<char>>(e@),
        },
{
    serde_json::from_str::<serde_json::Map<String, serde_json::Value>>(text)
        .map(|m| m.into_iter().map(|(k, v)| (k, json_value_of(v))).collect())
        .map_err(|e| e.to_string())
}

/// Builds the parameters of an HTTP API call from its query pairs and its
/// raw body, reading a body that is not blank as a JSON object.
pub fn http_request_params(query: &Vec<(String, String)>, body: &[u8]) -> (r: Result<
    Option<JsonValue>,
    String,
>)
    ensures
        params_view(r) == http_request_params_spec(
            crate::datamap::entry_views(query@),
            body@,
            match utf8_decode(body@) {
                Some(s) => Some(json_object_parse(trim_spec(s))),
                None => None,
            },
        ),
{
    if body.len() == 0 {
        return build_http_params(query, None);
    }
    match http_body_text(body) {
        Err(m) => Err(m),
        Ok(text) => {
            if text.as_str().is_empty() {
                build_http_params(query, None)
            } else {
                let parsed = parse_json_object(text.as_str());
                build_http_params(query, Some(parsed))
            }
        },
    }
}

/// The value of the last member named `k`.
pub open spec fn last_member(ms: Seq<(Seq<char>, Json)>, k: Seq<char>) -> Option<Json>
    decreases ms.len(),
{
    if ms.len() == 0 {
        None
    } else if ms.last().0 == k {
        Some(ms.last().1)
    } else {
        last_member(ms.drop_last(), k)
    }
}

/// The access token given in the query never becomes a parameter.
pub proof fn law_query_drops_access_token(q: Seq<(Seq<char>, Seq<char>)>)
    ensures
        dm_get(query_params(q), "access_token"@) is None,
    decreases q.len(),
{
    if q.len() > 0 {
        law_query_drops_access_token(q.drop_last());
        let kv = q.last();
        if kv.0 != "access_token"@ {
            law_insert_then_get(
                query_params(q.drop_last()),
                kv.0,
                scalar_json(kv.0, kv.1),
                "access_token"@,
            );
        }
    }
}

/// The body wins over the query: a name the body gives takes the body's
/// value (its last member of that name), any other name keeps what it had.
pub proof fn law_body_overrides_query(
    base: Seq<(Seq<char>, Json)>,
    ms: Seq<(Seq<char>, Json)>,
    k: Seq<char>,
)
    ensures
        dm_get(merge_members(base, ms), k) == match last_member(ms, k) {
            Some(v) => Some(v),
            None => dm_get(base, k),
        },
    decreases ms.len(),
{
    if ms.len() > 0 {
        law_body_overrides_query(base, ms.drop_last(), k);
        law_insert_then_get(merge_members(base, ms.drop_last()), ms.last().0, ms.last().1, k);
    }
}

/// The view of a parsed request body.
pub open spec fn body_view(b: Option<Result<Vec<(String, JsonValue)>, String>>) -> Option<
    Result<Seq<(Seq<char>, Json)>, Seq<char>>,
> {
    match b {
        Some(Ok(ms)) => Some(Ok(json_entries(ms@))),
        Some(Err(e)) => Some(Err(e@)),
        None => None,
    }
}

/// The view of the outcome of building parameters.
pub open spec fn params_view(r: Result<Option<JsonValue>, String>) -> Result<Option<Json>, Seq<char>> {
    match r {
        Ok(Some(v)) => Ok(Some(v@)),
        Ok(None) => Ok(None),
        Err(e) => Err(e@),
    }
}

/// Builds the parameters of an HTTP API call from its query pairs and its
/// body: `None` when the body is absent or blank, otherwise the outcome of
/// reading the body text as a JSON object (its members, or the parse
/// error's text).
pub fn build_http_params(
    query: &Vec<(String, String)>,
    body: Option<Result<Vec<(String, JsonValue)>, String>>,
) -> (r: Result<Option<JsonValue>, String>)
    ensures
        params_view(r) == http_params_spec(crate::datamap::entry_views(query@), body_view(body)),
{
    let ghost qv = crate::datamap::entry_views(query@);
    let mut params: Vec<(String, JsonValue)> = Vec::new();
    let mut i: usize = 0;
    assert(qv.take(0) =~= Seq::<(Seq<char>, Seq<char>)>::empty());
    while i < query.len()
        invariant
            i <= query@.len(),
            qv == crate::datamap::entry_views(query@),
            qv.len() == query@.len(),
            json_entries(params@) == query_params(qv.take(i as int)),
        decreases query@.len() - i,
    {
        let k = &query[i].0;
        let v = &query[i].1;
        assert(qv[i as int] == (k@, v@));
        assert(qv.take(i + 1).drop_last() =~= qv.take(i as int));
        assert(qv.take(i + 1).last() == qv[i as int]);
        if !crate::text::str_eq(k.as_str(), "access_token") {
            let j = normalize_http_scalar(k.as_str(), v.as_str());
            obj_insert(&mut params, k.clone(), j);
        }
        i = i + 1;
    }
    assert(qv.take(query@.len() as int) =~= qv);
    match body {
        Some(Err(e)) => {
            let mut m = String::from_str("invalid json body: ");
            m.append(e.as_str());
            return Err(m);
        },
        Some(Ok(members)) => {
            let ghost base = json_entries(params@);
            let ghost items = json_entries(members@);
            let ghost orig = members@;
            proof {
                crate::json::lemma_json_entries_index(members@);
            }
            let mut rest = members;
            let mut done: usize = 0;
            let total = rest.len();
            assert(orig.skip(0) =~= orig);
            while rest.len() > 0
                invariant
                    done + rest@.len() == orig.len(),
                    orig.len() == total,
                    rest@ == orig.skip(done as int),
                    items == json_entries(orig),
                    items.len() == orig.len(),
                    forall|j: int| 0 <= j < orig.len() ==> #[trigger] items[j] == (orig[j].0@, orig[j].1@),
                    json_entries(params@) == merge_members(base, items.take(done as int)),
                decreases rest@.len(),
            {
                let (k, v) = rest.remove(0);
                assert(orig[done as int] == (k, v));
                assert(items.take(done + 1).drop_last() =~= items.take(done as int));
                assert(items.take(done + 1).last() == items[done as int]);
                obj_insert(&mut params, k, v);
                assert(rest@ =~= orig.skip(done + 1));
                done = done + 1;
            }
            assert(items.take(done as int) =~= items);
        },
        None => {},
    }
    if params.len() == 0 {
        proof {
            crate::json::lemma_json_entries_index(params@);
        }
        Ok(None)
    } else {
        proof {
            crate::json::lemma_json_entries_index(params@);
        }
        Ok(Some(JsonValue::Object(params)))
    }
}

/// A kind of downstream connection: both ways, API calls only, or events
/// only.
#[derive(Debug, Clone, Copy, PartialEq, Eq, Structural)]
pub enum ClientRole {
    Universal,
    Api,
    Event,
}

/// The name a forward connection of this kind is announced with.
pub open spec fn forward_kind_spec(role: ClientRole) -> Seq<char> {
    match role {
        ClientRole::Universal => "universal"@,
        ClientRole::Api => "api"@,
        ClientRole::Event => "event"@,
    }
}

/// The `X-Client-Role` header value for this kind.
pub open spec fn header_name_spec(role: ClientRole) -> Seq<char> {
    match role {
        ClientRole::Universal => "Universal"@,
        ClientRole::Api => "API"@,
        ClientRole::Event => "Event"@,
    }
}

impl ClientRole {
    /// Whether events are pushed to such a connection.
    pub fn can_send(&self) -> (b: bool)
        ensures
            b == !(*self is Api),
    {
        !matches!(self, ClientRole::Api)
    }

    /// Whether API calls are read from such a connection.
    pub fn can_receive(&self) -> (b: bool)
        ensures
            b == !(*self is Event),
    {
        !matches!(self, ClientRole::Event)
    }

    /// `universal`, `api` or `event`.
    pub fn forward_kind(&self) -> (s: &'static str)
        ensures
            s@ == forward_kind_spec(*self),
    {
        match self {
            ClientRole::Universal => "universal",
            ClientRole::Api => "api",
            ClientRole::Event => "event",
        }
    }

    /// `Universal`, `API` or `Event`.
    pub fn header_name(&self) -> (s: &'static str)
        ensures
            s@ == header_name_spec(*self),
    {
        match self {
            ClientRole::Universal => "Universal",
            ClientRole::Api => "API",
            ClientRole::Event => "Event",
        }
    }

    /// The name a reverse connection of this kind is announced with:
    /// `reverse-` and the header name in lower case.
    pub fn reverse_kind(&self) -> (s: String)
        ensures
            s@ == "reverse-"@ + ascii_lower_seq(header_name_spec(*self)),
    {
        let mut out: Vec<char> = Vec::new();
        crate::text::push_str(&mut out, "reverse-");
        let lower = lower_chars(&chars_of(self.header_name()));
        crate::text::push_chars(&mut out, &lower);
        string_from_chars(out.as_slice())
    }
}

/// Whether the forward endpoint for `role` is switched on.
pub open spec fn ws_enabled(cfg: OneBotConfig, role: ClientRole) -> bool {
    match role {
        ClientRole::Universal => cfg.enable_ws_universal,
        ClientRole::Api => cfg.enable_ws_api,
        ClientRole::Event => cfg.enable_ws_event,
    }
}

/// The text a switched-off forward endpoint answers with.
pub open spec fn ws_disabled_text(role: ClientRole) -> Seq<char> {
    match role {
        ClientRole::Universal => "websocket universal mode disabled"@,
        ClientRole::Api => "websocket api mode disabled"@,
        ClientRole::Event => "websocket event mode disabled"@,
    }
}

/// The view of an HTTP refusal.
pub open spec fn refusal_view(r: Option<(u16, String)>) -> Option<(u16, Seq<char>)> {
    match r {
        Some((code, text)) => Some((code, text@)),
        None => None,
    }
}

/// How a forward websocket request is refused before the upgrade: 404 when
/// the endpoint is off, 401 when the credentials do not match; `None` lets
/// it through.
pub open spec fn ws_refusal_spec(
    cfg: OneBotConfig,
    role: ClientRole,
    query_token: Option<Seq<char>>,
    authorization: Option<Seq<char>>,
) -> Option<(u16, Seq<char>)> {
    if !ws_enabled(cfg, role) {
        Some((404u16, ws_disabled_text(role)))
    } else if !authorized_spec(cfg.access_token@, query_token, authorization) {
        Some((401u16, "unauthorized"@))
    } else {
        None
    }
}

/// Decides whether a forward websocket request for `role` is refused, and
/// with which status and text.
pub fn ws_refusal(
    cfg: &OneBotConfig,
    role: ClientRole,
    query_token: Option<&str>,
    authorization: Option<&str>,
) -> (r: Option<(u16, String)>)
    ensures
        refusal_view(r) == ws_refusal_spec(*cfg, role, opt_str(query_token), opt_str(authorization)),
{
    let enabled = match role {
        ClientRole::Universal => cfg.enable_ws_universal,
        ClientRole::Api => cfg.enable_ws_api,
        ClientRole::Event => cfg.enable_ws_event,
    };
    if !enabled {
        let text = match role {
            ClientRole::Universal => "websocket universal mode disabled",
            ClientRole::Api => "websocket api mode disabled",
            ClientRole::Event => "websocket event mode disabled",
        };
        return Some((404, String::from_str(text)));
    }
    if !is_authorized(cfg.access_token.as_str(), query_token, authorization) {
        return Some((401, String::from_str("unauthorized")));
    }
    None
}

/// How an HTTP API request is refused before it is handled: 404 with no
/// text when the HTTP API is off, 401 when the credentials do not match,
/// 400 when no action is named; `None` lets it through.
pub open spec fn http_refusal_spec(
    cfg: OneBotConfig,
    query_token: Option<Seq<char>>,
    authorization: Option<Seq<char>>,
    action: Option<Seq<char>>,
) -> Option<(u16, Seq<char>)> {
    if !cfg.enable_http_api {
        Some((404u16, Seq::empty()))
    } else if !authorized_spec(cfg.access_token@, query_token, authorization) {
        Some((401u16, "unauthorized"@))
    } else if action is None || action->0.len() == 0 {
        Some((400u16, "action is required"@))
    } else {
        None
    }
}

/// The answer to a request for `/http` itself, which names no action: it
/// is always refused, as `http_refusal_spec` says with no action.
pub fn http_root_answer(
    cfg: &OneBotConfig,
    query_token: Option<&str>,
    authorization: Option<&str>,
) -> (r: (u16, String))
    ensures
        http_refusal_spec(*cfg, opt_str(query_token), opt_str(authorization), None) == Some(
            (r.0, r.1@),
        ),
{
    if !cfg.enable_http_api {
        return (404, String::new());
    }
    if !is_authorized(cfg.access_token.as_str(), query_token, authorization) {
        return (401, String::from_str("unauthorized"));
    }
    (400, String::from_str("action is required"))
}

/// Decides whether an HTTP API request is refused; `action` is the path
/// after `/http/`, `None` for `/http` itself.
pub fn http_refusal(
    cfg: &OneBotConfig,
    query_token: Option<&str>,
    authorization: Option<&str>,
    action: Option<&str>,
) -> (r: Option<(u16, String)>)
    ensures
        refusal_view(r) == http_refusal_spec(
            *cfg,
            opt_str(query_token),
            opt_str(authorization),
            opt_str(action),
        ),
{
    if !cfg.enable_http_api {
        return Some((404, String::new()));
    }
    if !is_authorized(cfg.access_token.as_str(), query_token, authorization) {
        return Some((401, String::from_str("unauthorized")));
    }
    match action {
        Some(a) => {
            if a.is_empty() {
                Some((400, String::from_str("action is required")))
            } else {
                None
            }
        },
        None => Some((400, String::from_str("action is required"))),
    }
}

/// The HTTP status of an API answer: 400 for a refused request (retcode
/// 1400), 200 otherwise.
pub fn http_status_for(retcode: i32) -> (s: u16)
    ensures
        s == (if retcode == 1400 {
            400u16
        } else {
            200u16
        }),
{
    if retcode == 1400 {
        400
    } else {
        200
    }
}

/// The answer to an API call whose text is not a valid request.
pub fn malformed_request_response() -> (r: ApiResponse)
    ensures
        r.status@ == "failed"@,
        r.retcode == 1400,
        r.data@ == Json::Null,
        r.msg@ == "invalid json request"@,
        r.wording@ == "invalid json request"@,
        r.echo is None,
{
    failure(1400, String::from_str("invalid json request"), None)
}

/// A reverse connection to dial: where, and as which kind.
#[derive(Debug)]
pub struct ReverseTarget {
    pub target: String,
    pub role: ClientRole,
}

/// The reverse connections a configuration asks for. With reverse
/// connections on, a single universal one goes to the first non-blank of
/// `url`, `api_url`, `event_url` when `use_universal_client` is set or
/// neither `api_url` nor `event_url` is given; otherwise an API one goes to
/// the first non-blank of `api_url`, `url` and an event one to the first
/// non-blank of `event_url`, `url`. A blank target dials nothing.
pub open spec fn reverse_plan_spec(r: OneBotReverseConfig) -> Seq<(Seq<char>, ClientRole)> {
    if !r.enable {
        Seq::empty()
    } else if r.use_universal_client || (trim_spec(r.api_url@).len() == 0 && trim_spec(
        r.event_url@,
    ).len() == 0) {
        let t = first_non_empty_from(seq![r.url@, r.api_url@, r.event_url@], 0);
        if t.len() == 0 {
            Seq::empty()
        } else {
            seq![(t, ClientRole::Universal)]
        }
    } else {
        let a = first_non_empty_from(seq![r.api_url@, r.url@], 0);
        let e = first_non_empty_from(seq![r.event_url@, r.url@], 0);
        (if a.len() == 0 {
            Seq::empty()
        } else {
            seq![(a, ClientRole::Api)]
        }) + (if e.len() == 0 {
            Seq::empty()
        } else {
            seq![(e, ClientRole::Event)]
        })
    }
}

/// The view of a list of reverse targets.
pub open spec fn targets_view(v: Seq<ReverseTarget>) -> Seq<(Seq<char>, ClientRole)> {
    v.map_values(|t: ReverseTarget| (t.target@, t.role))
}

/// Lists the reverse connections to dial, as `reverse_plan_spec` says.
pub fn plan_reverse_clients(cfg: &OneBotReverseConfig) -> (v: Vec<ReverseTarget>)
    ensures
        targets_view(v@) == reverse_plan_spec(*cfg),
{
    let mut out: Vec<ReverseTarget> = Vec::new();
    if !cfg.enable {
        assert(targets_view(out@) =~= Seq::<(Seq<char>, ClientRole)>::empty());
        return out;
    }
    let api = trim_str(cfg.api_url.as_str());
    let event = trim_str(cfg.event_url.as_str());
    let universal = cfg.use_universal_client || (api.len() == 0 && event.len() == 0);
    if universal {
        let vals = [cfg.url.as_str(), cfg.api_url.as_str(), cfg.event_url.as_str()];
        let target = first_non_empty(&vals);
        assert(str_views(vals@) =~= seq![cfg.url@, cfg.api_url@, cfg.event_url@]);
        if !target.as_str().is_empty() {
            out.push(ReverseTarget { target, role: ClientRole::Universal });
        }
        assert(targets_view(out@) =~= reverse_plan_spec(*cfg));
        return out;
    }
    let api_vals = [cfg.api_url.as_str(), cfg.url.as_str()];
    let api_url = first_non_empty(&api_vals);
    assert(str_views(api_vals@) =~= seq![cfg.api_url@, cfg.url@]);
    let event_vals = [cfg.event_url.as_str(), cfg.url.as_str()];
    let event_url = first_non_empty(&event_vals);
    assert(str_views(event_vals@) =~= seq![cfg.event_url@, cfg.url@]);
    if !api_url.as_str().is_empty() {
        out.push(ReverseTarget { target: api_url, role: ClientRole::Api });
    }
    if !event_url.as_str().is_empty() {
        out.push(ReverseTarget { target: event_url, role: ClientRole::Event });
    }
    assert(targets_view(out@) =~= reverse_plan_spec(*cfg));
    out
}

/// The headers a reverse connection is dialled with: `X-Self-ID` when the
/// bot's id is known (not 0), `X-Client-Role`, and `Authorization: Bearer`
/// with the access token when one is configured.
pub open spec fn reverse_headers_spec(self_id: i64, role: ClientRole, access_token: Seq<char>) -> Seq<
    (Seq<char>, Seq<char>),
> {
    let token = trim_spec(access_token);
    (if self_id != 0 {
        seq![("X-Self-ID"@, crate::text::int_text(self_id as int))]
    } else {
        Seq::empty()
    }) + seq![("X-Client-Role"@, header_name_spec(role))] + (if token.len() > 0 {
        seq![("Authorization"@, "Bearer "@ + token)]
    } else {
        Seq::empty()
    })
}

/// Builds the headers of a reverse connection, as `reverse_headers_spec`
/// says.
pub fn reverse_headers(self_id: i64, role: ClientRole, access_token: &str) -> (v: Vec<(String, String)>)
    ensures
        crate::datamap::entry_views(v@) == reverse_headers_spec(self_id, role, access_token@),
{
    let mut out: Vec<(String, String)> = Vec::new();
    if self_id != 0 {
        out.push((String::from_str("X-Self-ID"), crate::text::i64_to_string(self_id)));
    }
    out.push((String::from_str("X-Client-Role"), String::from_str(role.header_name())));
    let token = trim_str(access_token);
    if token.len() > 0 {
        let mut value: Vec<char> = Vec::new();
        crate::text::push_str(&mut value, "Bearer ");
        crate::text::push_chars(&mut value, &token);
        out.push((String::from_str("Authorization"), string_from_chars(value.as_slice())));
    }
    assert(crate::datamap::entry_views(out@) =~= reverse_headers_spec(self_id, role, access_token@));
    out
}

/// Text with no whitespace at either end is its own trim.
proof fn lemma_trim_plain(t: Seq<char>)
    requires
        t.len() > 0,
        !crate::text::is_ws(t[0]),
        !crate::text::is_ws(t.last()),
    ensures
        trim_spec(t) == t,
{
    assert(crate::text::lead_ws(t) == 0);
    assert(t.skip(0) =~= t);
    assert(crate::text::trail_ws(t) == 0);
    assert(t.take(t.len() as int) =~= t);
}

/// A lower-case key is its own lower case.
proof fn lemma_lower_plain(t: Seq<char>)
    requires
        forall|i: int| 0 <= i < t.len() ==> !('A' <= #[trigger] t[i] && t[i] <= 'Z'),
    ensures
        ascii_lower_seq(t) == t,
{
    assert(ascii_lower_seq(t) =~= t);
}

/// Query parameters that name ids read as numbers: `user_id`, `group_id`
/// and `message_id` given as the decimal text of `n` read as `n`; the
/// switches `auto_escape` and `approve` read `true` and `false` as
/// booleans; a `message` stays text even when it looks like a number.
pub proof fn law_query_scalars(n: i64)
    ensures
        scalar_json("user_id"@, int_text(n as int)) == Json::Int(n),
        scalar_json("group_id"@, int_text(n as int)) == Json::Int(n),
        scalar_json("message_id"@, int_text(n as int)) == Json::Int(n),
        scalar_json("message"@, int_text(n as int)) == Json::Str(int_text(n as int)),
        scalar_json("approve"@, "true"@) == Json::Bool(true),
        scalar_json("approve"@, "false"@) == Json::Bool(false),
        scalar_json("auto_escape"@, "true"@) == Json::Bool(true),
        scalar_json("auto_escape"@, "false"@) == Json::Bool(false),
{
    reveal_strlit("user_id");
    reveal_strlit("group_id");
    reveal_strlit("message_id");
    reveal_strlit("message");
    reveal_strlit("approve");
    reveal_strlit("auto_escape");
    reveal_strlit("true");
    reveal_strlit("false");
    reveal_strlit("1");
    reveal_strlit("0");
    reveal_strlit("self_id");
    reveal_strlit("duration");
    reveal_strlit("delay");
    reveal_strlit("times");
    crate::text::lemma_parse_int_text(n);
    let ks = seq!["user_id"@, "group_id"@, "message_id"@, "message"@, "approve"@, "auto_escape"@];
    assert forall|i: int| 0 <= i < ks.len() implies trim_spec(#[trigger] ks[i]) == ks[i]
        && ascii_lower_seq(ks[i]) == ks[i] by {
        lemma_trim_plain(ks[i]);
        lemma_lower_plain(ks[i]);
    }
    assert(ks[0] == "user_id"@ && ks[1] == "group_id"@ && ks[2] == "message_id"@ && ks[3]
        == "message"@ && ks[4] == "approve"@ && ks[5] == "auto_escape"@);
    lemma_lower_plain("true"@);
    lemma_lower_plain("false"@);
    assert("user_id"@ != "message"@ && "group_id"@ != "message"@ && "message_id"@ != "message"@
        && "approve"@ != "message"@ && "auto_escape"@ != "message"@) by {
        assert("user_id"@[0] != "message"@[0]);
        assert("group_id"@[0] != "message"@[0]);
        assert("message_id"@.len() != "message"@.len());
        assert("approve"@[0] != "message"@[0]);
        assert("auto_escape"@[0] != "message"@[0]);
    }
    assert(!numeric_key("approve"@) && !numeric_key("auto_escape"@)) by {
        assert("approve"@[0] != "user_id"@[0] && "approve"@[0] != "group_id"@[0]
            && "approve"@[0] != "message_id"@[0] && "approve"@[0] != "self_id"@[0]
            && "approve"@[0] != "duration"@[0] && "approve"@[0] != "delay"@[0]
            && "approve"@[0] != "times"@[0]);
        assert("auto_escape"@[0] == "approve"@[0]);
    }
    assert("true"@ != "1"@ && "false"@ != "true"@ && "false"@ != "1"@) by {
        assert("true"@[0] != "1"@[0]);
        assert("false"@[0] != "true"@[0]);
        assert("false"@[0] != "1"@[0]);
    }
}

/// Credentials: with no token configured every request passes; with a
/// token `t` (no whitespace at its ends) a request passes when its
/// `access_token` parameter is `t` or its `Authorization` header is
/// `Bearer ` and `t`, and a request that offers neither is refused.
pub proof fn law_credentials(t: Seq<char>, q: Option<Seq<char>>, a: Option<Seq<char>>)
    ensures
        authorized_spec(Seq::empty(), q, a),
        t.len() > 0 && !crate::text::is_ws(t[0]) && !crate::text::is_ws(t.last()) ==> {
            &&& authorized_spec(t, Some(t), a)
            &&& authorized_spec(t, q, Some("Bearer "@ + t))
            &&& !authorized_spec(t, None, None)
        },
{
    reveal_strlit("Bearer ");
    reveal_strlit("Token ");
    let e = Seq::<char>::empty();
    assert(trim_spec(e) =~= e);
    if t.len() > 0 && !crate::text::is_ws(t[0]) && !crate::text::is_ws(t.last()) {
        lemma_trim_plain(t);
        let b = "Bearer "@ + t;
        assert(b[0] == 'B');
        assert(b.last() == t.last());
        lemma_trim_plain(b);
        assert(b.subrange(0, 7) =~= "Bearer "@);
        assert(b.skip(7) =~= t);
    }
}

/// Reverse connections: none when switched off; one universal connection
/// to the first address given (url, then api_url, then event_url) when the
/// universal client is chosen; otherwise an API connection to api_url and
/// an event connection to event_url, each falling back to url.
pub proof fn law_reverse_plan(r: OneBotReverseConfig)
    ensures
        !r.enable ==> reverse_plan_spec(r).len() == 0,
        r.enable && r.use_universal_client && trim_spec(r.url@).len() > 0 ==> reverse_plan_spec(r)
            == seq![(trim_spec(r.url@), ClientRole::Universal)],
        r.enable && r.use_universal_client && trim_spec(r.url@).len() == 0 && trim_spec(
            r.api_url@,
        ).len() > 0 ==> reverse_plan_spec(r) == seq![(trim_spec(r.api_url@), ClientRole::Universal)],
        r.enable && !r.use_universal_client && trim_spec(r.api_url@).len() > 0 && trim_spec(
            r.event_url@,
        ).len() > 0 ==> reverse_plan_spec(r) == seq![
            (trim_spec(r.api_url@), ClientRole::Api),
            (trim_spec(r.event_url@), ClientRole::Event),
        ],
        r.enable && !r.use_universal_client && trim_spec(r.api_url@).len() > 0 && trim_spec(
            r.event_url@,
        ).len() == 0 && trim_spec(r.url@).len() > 0 ==> reverse_plan_spec(r) == seq![
            (trim_spec(r.api_url@), ClientRole::Api),
            (trim_spec(r.url@), ClientRole::Event),
        ],
{
    let u = seq![r.url@, r.api_url@, r.event_url@];
    assert(first_non_empty_from(u, 3) == Seq::<char>::empty());
    let a = seq![r.api_url@, r.url@];
    let e = seq![r.event_url@, r.url@];
    assert(first_non_empty_from(a, 2) == Seq::<char>::empty());
    assert(first_non_empty_from(e, 2) == Seq::<char>::empty());
    if trim_spec(r.url@).len() == 0 {
        assert(first_non_empty_from(u, 0) == first_non_empty_from(u, 1));
        assert(u[1] == r.api_url@);
    }
    if trim_spec(r.event_url@).len() == 0 {
        assert(first_non_empty_from(e, 0) == first_non_empty_from(e, 1));
        assert(e[1] == r.url@);
    }
}

/// What each kind of connection may do, and how it is named: a universal
/// connection both gets events and sends API calls, an API connection
/// only sends calls, an event connection only gets events; the role
/// header reads `Universal`, `API` or `Event`.
pub proof fn law_client_roles()
    ensures
        header_name_spec(ClientRole::Universal) == seq!['U', 'n', 'i', 'v', 'e', 'r', 's', 'a', 'l'],
        header_name_spec(ClientRole::Api) == seq!['A', 'P', 'I'],
        header_name_spec(ClientRole::Event) == seq!['E', 'v', 'e', 'n', 't'],
        forward_kind_spec(ClientRole::Universal) == seq!['u', 'n', 'i', 'v', 'e', 'r', 's', 'a', 'l'],
        forward_kind_spec(ClientRole::Api) == seq!['a', 'p', 'i'],
        forward_kind_spec(ClientRole::Event) == seq!['e', 'v', 'e', 'n', 't'],
{
    reveal_strlit("Universal");
    reveal_strlit("API");
    reveal_strlit("Event");
    reveal_strlit("universal");
    reveal_strlit("api");
    reveal_strlit("event");
}

/// A reverse connection introduces itself: with a known bot id `X-Self-ID`
/// is its decimal text, `X-Client-Role` names the connection's role, and
/// with a token `t` (no whitespace at its ends) `Authorization` is
/// `Bearer t`; an unknown id (0) and an empty token send no such header.
pub proof fn law_reverse_headers(self_id: i64, role: ClientRole, t: Seq<char>)
    ensures
        self_id != 0 && t.len() > 0 && !crate::text::is_ws(t[0]) && !crate::text::is_ws(t.last())
            ==> reverse_headers_spec(self_id, role, t) == seq![
            ("X-Self-ID"@, int_text(self_id as int)),
            ("X-Client-Role"@, header_name_spec(role)),
            ("Authorization"@, "Bearer "@ + t),
        ],
        reverse_headers_spec(0, role, Seq::empty()) == seq![
            ("X-Client-Role"@, header_name_spec(role)),
        ],
{
    let e = Seq::<char>::empty();
    assert(trim_spec(e) =~= e);
    if t.len() > 0 && !crate::text::is_ws(t[0]) && !crate::text::is_ws(t.last()) {
        lemma_trim_plain(t);
    }
    assert(Seq::<(Seq<char>, Seq<char>)>::empty() + seq![("X-Client-Role"@, header_name_spec(role))]
        + Seq::<(Seq<char>, Seq<char>)>::empty() =~= seq![("X-Client-Role"@, header_name_spec(role))]);
}

/// Forward connections and HTTP calls are refused in order: 404 when the
/// endpoint is switched off, then 401 for credentials that do not match;
/// an HTTP call naming no action is refused with 400; everything else
/// passes.
pub proof fn law_refusal_codes(
    cfg: OneBotConfig,
    role: ClientRole,
    q: Option<Seq<char>>,
    a: Option<Seq<char>>,
    action: Seq<char>,
)
    ensures
        !ws_enabled(cfg, role) ==> (ws_refusal_spec(cfg, role, q, a) matches Some((c, _)) && c == 404),
        ws_enabled(cfg, role) && !authorized_spec(cfg.access_token@, q, a) ==> ws_refusal_spec(
            cfg,
            role,
            q,
            a,
        ) == Some((401u16, "unauthorized"@)),
        ws_enabled(cfg, role) && authorized_spec(cfg.access_token@, q, a) ==> ws_refusal_spec(
            cfg,
            role,
            q,
            a,
        ) is None,
        !cfg.enable_http_api ==> http_refusal_spec(cfg, q, a, Some(action)) == Some(
            (404u16, Seq::<char>::empty()),
        ),
        cfg.enable_http_api && !authorized_spec(cfg.access_token@, q, a) ==> http_refusal_spec(
            cfg,
            q,
            a,
            Some(action),
        ) == Some((401u16, "unauthorized"@)),
        cfg.enable_http_api && authorized_spec(cfg.access_token@, q, a) ==> (http_refusal_spec(
            cfg,
            q,
            a,
            Some(action),
        ) is None <==> action.len() > 0) && http_refusal_spec(cfg, q, a, None) == Some(
            (400u16, "action is required"@),
        ),
        cfg.enable_ws_universal ==> ws_enabled(cfg, ClientRole::Universal),
        cfg.enable_ws_api ==> ws_enabled(cfg, ClientRole::Api),
        cfg.enable_ws_event ==> ws_enabled(cfg, ClientRole::Event),
        !cfg.enable_ws_api ==> !ws_enabled(cfg, ClientRole::Api),
        !cfg.enable_ws_event ==> !ws_enabled(cfg, ClientRole::Event),
        !cfg.enable_ws_universal ==> !ws_enabled(cfg, ClientRole::Universal),
{
}

} // verus!
