use milky_ob11_bridge::config::{OneBotConfig, OneBotReverseConfig};
use milky_ob11_bridge::json::{json_to_string, JsonValue};
use milky_ob11_bridge::onebot::api::{failure, normalize_action, success};
use milky_ob11_bridge::onebot::event::{heartbeat_event, heartbeat_event_at, lifecycle_event, lifecycle_event_at};
use milky_ob11_bridge::onebot::server::{
    build_http_params, first_non_empty, http_body_text, http_refusal, http_request_params,
    http_root_answer,
    http_status_for,
    is_authorized, malformed_request_response, normalize_http_scalar, plan_reverse_clients,
    reverse_headers, ws_refusal, ClientRole,
};

fn from_serde(v: serde_json::Value) -> JsonValue {
    match v {
        serde_json::Value::Null => JsonValue::Null,
        serde_json::Value::Bool(b) => JsonValue::Bool(b),
        serde_json::Value::Number(n) => {
            if let Some(i) = n.as_i64() {
                JsonValue::Int(i)
            } else if let Some(u) = n.as_u64() {
                JsonValue::UInt(u)
            } else {
                JsonValue::Float(n.to_string())
            }
        }
        serde_json::Value::String(s) => JsonValue::Str(s),
        serde_json::Value::Array(a) => JsonValue::Array(a.into_iter().map(from_serde).collect()),
        serde_json::Value::Object(o) => {
            JsonValue::Object(o.into_iter().map(|(k, v)| (k, from_serde(v))).collect())
        }
    }
}

fn field<'a>(v: &'a JsonValue, key: &str) -> &'a JsonValue {
    v.get(key).expect("member present")
}

fn obj(pairs: Vec<(&str, JsonValue)>) -> JsonValue {
    JsonValue::Object(pairs.into_iter().map(|(k, v)| (k.to_string(), v)).collect())
}

fn query(pairs: &[(&str, &str)]) -> Vec<(String, String)> {
    pairs
        .iter()
        .map(|(k, v)| (k.to_string(), v.to_string()))
        .collect()
}

#[test]
fn normalize_strips_suffixes() {
    assert_eq!(normalize_action("send_msg"), "send_msg");
    assert_eq!(normalize_action("send_msg_async"), "send_msg");
    assert_eq!(normalize_action("send_msg_rate_limited"), "send_msg");
    assert_eq!(normalize_action("  send_msg  "), "send_msg");
}

#[test]
fn normalize_strips_async_before_rate_limited() {
    assert_eq!(normalize_action("send_msg_rate_limited_async"), "send_msg");
    assert_eq!(normalize_action("send_msg_async_async"), "send_msg_async");
}

#[test]
fn success_serializes_ok() {
    let resp = success(obj(vec![("x", JsonValue::Int(1))]), Some(JsonValue::Str("e".into())));
    let s = json_to_string(&resp.into_json());
    assert!(s.contains("\"status\":\"ok\""));
    assert!(s.contains("\"retcode\":0"));
    assert!(s.contains("\"x\":1"));
    assert!(s.contains("\"echo\":\"e\""));
}

#[test]
fn failure_serializes_failed_with_msg() {
    let resp = failure(1400, "bad params".to_string(), None);
    let s = json_to_string(&resp.into_json());
    assert!(s.contains("\"status\":\"failed\""));
    assert!(s.contains("\"retcode\":1400"));
    assert!(s.contains("\"msg\":\"bad params\""));
    assert!(s.contains("\"wording\":\"bad params\""));
    assert!(!s.contains("\"echo\""));
}

#[test]
fn response_text_is_exact() {
    let resp = success(JsonValue::Null, None);
    assert_eq!(
        json_to_string(&resp.into_json()),
        "{\"status\":\"ok\",\"retcode\":0,\"data\":null}"
    );
}

#[test]
fn lifecycle_shape() {
    let v = lifecycle_event(42, "connect");
    assert_eq!(field(&v, "self_id").as_i64(), Some(42));
    assert_eq!(field(&v, "post_type").as_str(), Some("meta_event"));
    assert_eq!(field(&v, "meta_event_type").as_str(), Some("lifecycle"));
    assert_eq!(field(&v, "sub_type").as_str(), Some("connect"));
    assert!(field(&v, "time").as_i64().is_some());
}

#[test]
fn lifecycle_text_in_key_order() {
    let v = lifecycle_event_at(1700000000, 42, "connect");
    assert_eq!(
        json_to_string(&v),
        "{\"meta_event_type\":\"lifecycle\",\"post_type\":\"meta_event\",\"self_id\":42,\"sub_type\":\"connect\",\"time\":1700000000}"
    );
}

#[test]
fn heartbeat_shape() {
    let status = obj(vec![("online", JsonValue::Bool(true)), ("good", JsonValue::Bool(true))]);
    let v = heartbeat_event(7, status, 15000);
    assert_eq!(field(&v, "meta_event_type").as_str(), Some("heartbeat"));
    assert_eq!(field(&v, "interval").as_i64(), Some(15000));
    assert!(matches!(field(field(&v, "status"), "online"), JsonValue::Bool(true)));
}

#[test]
fn heartbeat_interval_beyond_i64_is_unsigned() {
    let v = heartbeat_event_at(1, 7, JsonValue::Null, u64::MAX);
    assert!(matches!(field(&v, "interval"), JsonValue::UInt(u64::MAX)));
}

#[test]
fn first_non_empty_picks_first() {
    assert_eq!(first_non_empty(&["", "a", "b"]), "a");
    assert_eq!(first_non_empty(&["", "  ", "x"]), "x");
    assert_eq!(first_non_empty(&[]), "");
}

#[test]
fn first_non_empty_trims_what_it_returns() {
    assert_eq!(first_non_empty(&["  ws://a  ", "b"]), "ws://a");
}

#[test]
fn normalize_user_id_to_number() {
    match normalize_http_scalar("user_id", "123") {
        JsonValue::Int(n) => assert_eq!(n, 123),
        v => panic!("expected number, got {v:?}"),
    }
}

#[test]
fn normalize_message_stays_string() {
    match normalize_http_scalar("message", "123") {
        JsonValue::Str(s) => assert_eq!(s, "123"),
        v => panic!("expected string, got {v:?}"),
    }
}

#[test]
fn normalize_approve_to_bool() {
    match normalize_http_scalar("approve", "true") {
        JsonValue::Bool(b) => assert!(b),
        v => panic!("expected bool, got {v:?}"),
    }
}

#[test]
fn normalize_scalar_edge_cases() {
    assert!(matches!(normalize_http_scalar(" USER_ID ", "-5"), JsonValue::Int(-5)));
    assert!(matches!(normalize_http_scalar("group_id", "+7"), JsonValue::Int(7)));
    assert!(matches!(normalize_http_scalar("group_id", "12x"), JsonValue::Str(_)));
    assert!(matches!(
        normalize_http_scalar("times", "99999999999999999999"),
        JsonValue::Str(_)
    ));
    assert!(matches!(normalize_http_scalar("no_cache", "FALSE"), JsonValue::Bool(false)));
    assert!(matches!(normalize_http_scalar("enable", "1"), JsonValue::Bool(true)));
    assert!(matches!(normalize_http_scalar("enable", "0"), JsonValue::Bool(false)));
    assert!(matches!(normalize_http_scalar("enable", "yes"), JsonValue::Str(_)));
    assert!(matches!(normalize_http_scalar("other", "1"), JsonValue::Str(_)));
}

#[test]
fn authorized_via_query_token() {
    assert!(is_authorized("abc", Some("abc"), None));
}

#[test]
fn authorized_via_bearer_header() {
    assert!(is_authorized("abc", None, Some("Bearer abc")));
}

#[test]
fn unauthorized_without_token_match() {
    assert!(!is_authorized("abc", None, None));
}

#[test]
fn no_token_means_authorized() {
    assert!(is_authorized("", None, None));
}

#[test]
fn authorization_forms() {
    assert!(is_authorized(" abc ", Some(" abc "), None));
    assert!(is_authorized("abc", None, Some("Token abc")));
    assert!(is_authorized("abc", None, Some("  abc ")));
    assert!(!is_authorized("abc", Some("abd"), Some("Bearer abd")));
    assert!(!is_authorized("abc", None, Some("Basic abc")));
    assert!(is_authorized("abc", Some("wrong"), Some("Bearer abc")));
}

#[test]
fn http_params_query_only() {
    let q = query(&[("user_id", "42"), ("message", "hi")]);
    let params = build_http_params(&q, None).unwrap().unwrap();
    assert!(matches!(field(&params, "user_id"), JsonValue::Int(42)));
    assert_eq!(field(&params, "message").as_str(), Some("hi"));
}

#[test]
fn http_params_body_overrides_query() {
    let q = query(&[("user_id", "1")]);
    let body = r#"{"user_id":99,"message":"bye"}"#;
    let text = http_body_text(body.as_bytes()).unwrap();
    let parsed: serde_json::Map<String, serde_json::Value> = serde_json::from_str(&text).unwrap();
    let members = parsed.into_iter().map(|(k, v)| (k, from_serde(v))).collect();
    let params = build_http_params(&q, Some(Ok(members))).unwrap().unwrap();
    assert!(matches!(field(&params, "user_id"), JsonValue::Int(99)));
    assert_eq!(field(&params, "message").as_str(), Some("bye"));
}

#[test]
fn http_params_empty_returns_none() {
    let q = query(&[]);
    let p = build_http_params(&q, None).unwrap();
    assert!(p.is_none());
}

#[test]
fn http_params_skips_access_token() {
    let q = query(&[("access_token", "secret"), ("user_id", "1")]);
    let params = build_http_params(&q, None).unwrap().unwrap();
    assert!(params.get("access_token").is_none());
    assert!(matches!(field(&params, "user_id"), JsonValue::Int(1)));
}

#[test]
fn http_params_keys_come_out_sorted() {
    let q = query(&[("user_id", "1"), ("message", "m"), ("auto_escape", "true")]);
    let params = build_http_params(&q, None).unwrap().unwrap();
    assert_eq!(
        json_to_string(&params),
        "{\"auto_escape\":true,\"message\":\"m\",\"user_id\":1}"
    );
}

#[test]
fn http_params_bad_json_body_is_refused() {
    let q = query(&[("user_id", "1")]);
    let err = build_http_params(&q, Some(Err("expected value".to_string()))).unwrap_err();
    assert_eq!(err, "invalid json body: expected value");
}

#[test]
fn http_body_text_trims_and_rejects_bad_utf8() {
    assert_eq!(http_body_text(b"  {\"a\":1}\n").unwrap(), "{\"a\":1}");
    let err = http_body_text(&[0x7b, 0xff, 0x7d]).unwrap_err();
    assert!(err.starts_with("invalid utf-8 body: "));
    assert!(err.len() > "invalid utf-8 body: ".len());
}

#[test]
fn ws_routes_refuse_when_off_or_unauthorized() {
    let mut cfg = OneBotConfig::default();
    assert!(ws_refusal(&cfg, ClientRole::Universal, None, None).is_none());
    cfg.enable_ws_api = false;
    assert_eq!(
        ws_refusal(&cfg, ClientRole::Api, None, None),
        Some((404, "websocket api mode disabled".to_string()))
    );
    cfg.access_token = "t".to_string();
    assert_eq!(
        ws_refusal(&cfg, ClientRole::Event, None, None),
        Some((401, "unauthorized".to_string()))
    );
    assert!(ws_refusal(&cfg, ClientRole::Event, Some("t"), None).is_none());
}

#[test]
fn http_route_refusals() {
    let mut cfg = OneBotConfig::default();
    assert_eq!(http_refusal(&cfg, None, None, Some("get_status")), Some((404, String::new())));
    cfg.enable_http_api = true;
    assert!(http_refusal(&cfg, None, None, Some("get_status")).is_none());
    assert_eq!(
        http_refusal(&cfg, None, None, None),
        Some((400, "action is required".to_string()))
    );
    assert_eq!(
        http_refusal(&cfg, None, None, Some("")),
        Some((400, "action is required".to_string()))
    );
    cfg.access_token = "k".to_string();
    assert_eq!(
        http_refusal(&cfg, None, Some("Bearer x"), Some("a")),
        Some((401, "unauthorized".to_string()))
    );
    assert_eq!(http_status_for(1400), 400);
    assert_eq!(http_status_for(1503), 200);
    assert_eq!(http_status_for(0), 200);
}

#[test]
fn malformed_request_answer() {
    let r = malformed_request_response();
    assert_eq!(r.retcode, 1400);
    assert_eq!(r.msg, "invalid json request");
    assert_eq!(r.status, "failed");
}

fn reverse(enable: bool, url: &str, api: &str, event: &str, universal: bool) -> OneBotReverseConfig {
    OneBotReverseConfig {
        enable,
        url: url.to_string(),
        api_url: api.to_string(),
        event_url: event.to_string(),
        use_universal_client: universal,
        reconnect_interval_ms: 3000,
    }
}

#[test]
fn reverse_plan_cases() {
    assert!(plan_reverse_clients(&reverse(false, "ws://u", "", "", false)).is_empty());

    let p = plan_reverse_clients(&reverse(true, " ws://u ", "", "", false));
    assert_eq!(p.len(), 1);
    assert_eq!(p[0].target, "ws://u");
    assert_eq!(p[0].role, ClientRole::Universal);

    let p = plan_reverse_clients(&reverse(true, "", "ws://a", "ws://e", true));
    assert_eq!(p.len(), 1);
    assert_eq!(p[0].target, "ws://a");

    let p = plan_reverse_clients(&reverse(true, "ws://u", "ws://a", "", false));
    assert_eq!(p.len(), 2);
    assert_eq!((p[0].target.as_str(), p[0].role), ("ws://a", ClientRole::Api));
    assert_eq!((p[1].target.as_str(), p[1].role), ("ws://u", ClientRole::Event));

    let p = plan_reverse_clients(&reverse(true, "", "", "ws://e", false));
    assert_eq!(p.len(), 1);
    assert_eq!((p[0].target.as_str(), p[0].role), ("ws://e", ClientRole::Event));

    assert!(plan_reverse_clients(&reverse(true, "  ", "", "", false)).is_empty());
}

#[test]
fn reverse_headers_and_roles() {
    let h = reverse_headers(123456, ClientRole::Api, " tok ");
    assert_eq!(
        h,
        vec![
            ("X-Self-ID".to_string(), "123456".to_string()),
            ("X-Client-Role".to_string(), "API".to_string()),
            ("Authorization".to_string(), "Bearer tok".to_string()),
        ]
    );
    let h = reverse_headers(0, ClientRole::Universal, "");
    assert_eq!(h, vec![("X-Client-Role".to_string(), "Universal".to_string())]);
    assert_eq!(ClientRole::Api.reverse_kind(), "reverse-api");
    assert_eq!(ClientRole::Event.reverse_kind(), "reverse-event");
    assert_eq!(ClientRole::Universal.forward_kind(), "universal");
    assert!(ClientRole::Universal.can_send() && ClientRole::Universal.can_receive());
    assert!(!ClientRole::Api.can_send() && ClientRole::Api.can_receive());
    assert!(ClientRole::Event.can_send() && !ClientRole::Event.can_receive());
}

fn request_params(q: &[(&str, &str)], body: &[u8]) -> Result<Option<JsonValue>, String> {
    http_request_params(&query(q), body)
}

#[test]
fn http_request_blank_bodies_add_nothing() {
    assert!(request_params(&[], b"").unwrap().is_none());
    assert!(request_params(&[], b"  \n\t ").unwrap().is_none());
    let p = request_params(&[("group_id", "5")], b"   ").unwrap().unwrap();
    assert!(matches!(field(&p, "group_id"), JsonValue::Int(5)));
}

#[test]
fn http_request_body_errors_and_members() {
    let e = request_params(&[], &[0xff, 0xfe]).unwrap_err();
    assert!(e.starts_with("invalid utf-8 body: "));
    let e = request_params(&[], b" [1] ").unwrap_err();
    assert!(e.starts_with("invalid json body: "));
    let p = request_params(&[("user_id", "1")], b" {\"user_id\":2} ").unwrap().unwrap();
    assert!(matches!(field(&p, "user_id"), JsonValue::Int(2)));
}

#[test]
fn http_request_body_values_keep_their_kinds() {
    let body = br#" {"b":true,"big":18446744073709551615,"f":1.5,"n":null,"list":[1,"x"],"o":{"k":-2}} "#;
    let p = request_params(&[], body).unwrap().unwrap();
    assert_eq!(
        json_to_string(&p),
        r#"{"b":true,"big":18446744073709551615,"f":1.5,"list":[1,"x"],"n":null,"o":{"k":-2}}"#
    );
    assert!(matches!(field(&p, "big"), JsonValue::UInt(u64::MAX)));
}

#[test]
fn http_root_is_always_refused() {
    let mut cfg = OneBotConfig::default();
    cfg.enable_http_api = false;
    assert_eq!(http_root_answer(&cfg, None, None), (404, String::new()));
    cfg.enable_http_api = true;
    cfg.access_token = "t".into();
    assert_eq!(http_root_answer(&cfg, None, None), (401, "unauthorized".to_string()));
    assert_eq!(http_root_answer(&cfg, Some("t"), None), (400, "action is required".to_string()));
}
