use milky_ob11_bridge::bridge::service::{
    default_call, finish_done, finish_group_info, finish_group_list, finish_member_info,
    finish_member_list, needs_params, params_given, route_action, Action, ActionCall, ApiStep,
    Service, UpstreamCall,
};
use milky_ob11_bridge::config::{BridgeConfig, Config, MilkyConfig, OneBotConfig};
use milky_ob11_bridge::datamap::DataMap;
use milky_ob11_bridge::json::{json_to_string, JsonValue};
use milky_ob11_bridge::milky::error::MilkyClientError;
use milky_ob11_bridge::onebot::api::ApiResponse;
use milky_ob11_bridge::types::{
    EventKind, GroupInfo, GroupMemberInfo, InboundEvent, LoginInfo, MessageRef, RequestRef, Segment,
    SegmentType, Sender,
};

fn cfg() -> Config {
    Config {
        milky: MilkyConfig {
            ws_endpoint: "ws://127.0.0.1:1".into(),
            token: String::new(),
        },
        onebot: OneBotConfig::default(),
        bridge: BridgeConfig::default(),
    }
}

fn s(v: &str) -> JsonValue {
    JsonValue::Str(v.to_string())
}

fn obj(pairs: Vec<(&str, JsonValue)>) -> JsonValue {
    JsonValue::Object(pairs.into_iter().map(|(k, v)| (k.to_string(), v)).collect())
}

fn field<'a>(v: &'a JsonValue, key: &str) -> &'a JsonValue {
    v.get(key).expect("member present")
}

fn int_param(params: &JsonValue, key: &str) -> i64 {
    params.get(key).and_then(|v| v.as_i64()).unwrap_or(0)
}

fn text(params: &JsonValue, key: &str) -> String {
    params.get(key).and_then(|v| v.as_str()).unwrap_or("").to_string()
}

fn flag(params: &JsonValue, key: &str) -> bool {
    matches!(params.get(key), Some(JsonValue::Bool(true)))
}

fn message(params: &mut JsonValue) -> JsonValue {
    if let JsonValue::Object(members) = params {
        if let Some(i) = members.iter().position(|(k, _)| k == "message") {
            return members.remove(i).1;
        }
    }
    JsonValue::Null
}

/// Reads the parameters the test requests use (objects with well-typed members).
fn read_params(action: Action, name: String, mut p: JsonValue) -> ActionCall {
    match action {
        Action::SendPrivateMsg => ActionCall::SendPrivateMsg {
            user_id: int_param(&p, "user_id"),
            auto_escape: flag(&p, "auto_escape"),
            message: message(&mut p),
        },
        Action::SendGroupMsg => ActionCall::SendGroupMsg {
            group_id: int_param(&p, "group_id"),
            auto_escape: flag(&p, "auto_escape"),
            message: message(&mut p),
        },
        Action::SendMsg => ActionCall::SendMsg {
            message_type: text(&p, "message_type"),
            user_id: int_param(&p, "user_id"),
            group_id: int_param(&p, "group_id"),
            auto_escape: flag(&p, "auto_escape"),
            message: message(&mut p),
        },
        Action::GetGroupInfo => ActionCall::GetGroupInfo { group_id: int_param(&p, "group_id") },
        Action::GetGroupMemberInfo => ActionCall::GetGroupMemberInfo {
            group_id: int_param(&p, "group_id"),
            user_id: int_param(&p, "user_id"),
        },
        Action::GetGroupMemberList => ActionCall::GetGroupMemberList { group_id: int_param(&p, "group_id") },
        Action::DeleteMsg => ActionCall::DeleteMsg { message_id: int_param(&p, "message_id") },
        Action::GetMsg => ActionCall::GetMsg { message_id: int_param(&p, "message_id") },
        Action::SetFriendAddRequest => ActionCall::SetFriendAddRequest {
            flag: text(&p, "flag"),
            approve: flag(&p, "approve"),
            remark: text(&p, "remark"),
        },
        Action::SetGroupAddRequest => ActionCall::SetGroupAddRequest {
            flag: text(&p, "flag"),
            approve: flag(&p, "approve"),
        },
        _ => default_call(action, name),
    }
}

/// Answers upstream calls as a stub would: sends get ids counting from
/// 1000 (private) or 2000 (group), fetching a message fails.
struct Stub {
    sends: i64,
}

fn handle(svc: &mut Service, stub: &mut Stub, action: &str, params: Option<JsonValue>, echo: Option<JsonValue>) -> ApiResponse {
    let (a, name) = route_action(action);
    let call = if !needs_params(a) || !params_given(&params) {
        default_call(a, name)
    } else {
        read_params(a, name, params.unwrap())
    };
    match svc.plan_api(Ok(call), echo) {
        ApiStep::Reply(r) => r,
        ApiStep::Call(c, echo) => match c {
            UpstreamCall::SendPrivate { user_id, .. } => {
                let id = 1000 + stub.sends;
                stub.sends += 1;
                svc.finish_send_private(user_id, Ok(id), echo)
            }
            UpstreamCall::SendGroup { group_id, .. } => {
                let id = 2000 + stub.sends;
                stub.sends += 1;
                svc.finish_send_group(group_id, Ok(id), echo)
            }
            UpstreamCall::GetGroupInfo { group_id } => finish_group_info(
                Ok(GroupInfo {
                    group_id,
                    group_name: "g".into(),
                    member_count: 10,
                    max_member_count: 100,
                }),
                echo,
            ),
            UpstreamCall::GetGroupList => finish_group_list(Ok(Vec::new()), echo),
            UpstreamCall::GetGroupMemberInfo { group_id, user_id } => finish_member_info(
                Ok(GroupMemberInfo {
                    group_id,
                    user_id,
                    ..GroupMemberInfo::default()
                }),
                echo,
            ),
            UpstreamCall::GetGroupMemberList { .. } => finish_member_list(Ok(Vec::new()), echo),
            UpstreamCall::GetMessage { message } => {
                svc.finish_get_msg(&message, Err(MilkyClientError::NotConnected), echo)
            }
            UpstreamCall::DeleteMessage { .. } => finish_done(Ok(()), echo),
            UpstreamCall::AnswerFriendRequest { .. } => finish_done(Ok(()), echo),
            UpstreamCall::AnswerGroupRequest { .. } => finish_done(Ok(()), echo),
        },
    }
}

fn stub_service() -> (Service, Stub) {
    (Service::new(cfg()), Stub { sends: 0 })
}

fn text_message(t: &str) -> JsonValue {
    JsonValue::Array(vec![obj(vec![
        ("type", s("text")),
        ("data", obj(vec![("text", s(t))])),
    ])])
}

#[test]
fn unsupported_action_returns_1503() {
    let (mut svc, mut stub) = stub_service();
    let resp = handle(&mut svc, &mut stub, "totally_made_up", None, Some(s("e")));
    assert_eq!(resp.status, "failed");
    assert_eq!(resp.retcode, 1503);
    assert!(matches!(resp.echo, Some(JsonValue::Str(ref e)) if e == "e"));
    assert_eq!(resp.msg, "action totally_made_up is not supported in v1");
}

#[test]
fn get_login_info_reads_runtime() {
    let (mut svc, mut stub) = stub_service();
    svc.runtime.set_login(LoginInfo {
        self_id: 42,
        nickname: "bot".into(),
    });
    let resp = handle(&mut svc, &mut stub, "get_login_info", None, None);
    assert_eq!(resp.status, "ok");
    assert_eq!(field(&resp.data, "user_id").as_i64(), Some(42));
    assert_eq!(field(&resp.data, "nickname").as_str(), Some("bot"));
}

#[test]
fn get_status_includes_online_flag() {
    let (mut svc, mut stub) = stub_service();
    svc.runtime.set_upstream_connected(true);
    svc.runtime.set_login(LoginInfo {
        self_id: 7,
        nickname: "n".into(),
    });
    let resp = handle(&mut svc, &mut stub, "get_status", None, None);
    assert!(matches!(field(&resp.data, "online"), JsonValue::Bool(true)));
    assert!(matches!(field(&resp.data, "good"), JsonValue::Bool(true)));
}

#[test]
fn get_version_info_returns_static() {
    let (mut svc, mut stub) = stub_service();
    let resp = handle(&mut svc, &mut stub, "get_version_info", None, None);
    assert_eq!(field(&resp.data, "app_name").as_str(), Some("milky-ob11-bridge"));
    assert_eq!(field(&resp.data, "protocol_version").as_str(), Some("v11"));
    assert_eq!(field(&resp.data, "app_version").as_str(), Some("0.1.0"));
}

#[test]
fn can_send_image_returns_yes() {
    let (mut svc, mut stub) = stub_service();
    let resp = handle(&mut svc, &mut stub, "can_send_image", None, None);
    assert!(matches!(field(&resp.data, "yes"), JsonValue::Bool(true)));
    let resp = handle(&mut svc, &mut stub, "can_send_record_async", None, None);
    assert!(matches!(field(&resp.data, "yes"), JsonValue::Bool(true)));
}

#[test]
fn send_private_msg_caches_message_ref() {
    let (mut svc, mut stub) = stub_service();
    let params = obj(vec![("user_id", JsonValue::Int(5)), ("message", text_message("hi"))]);
    let resp = handle(&mut svc, &mut stub, "send_private_msg", Some(params), None);
    assert_eq!(resp.status, "ok");
    let mid = field(&resp.data, "message_id").as_i64().unwrap();
    let cached = svc.messages.get(mid).unwrap();
    assert_eq!(cached.message_type, "private");
    assert_eq!(cached.user_id, 5);
}

#[test]
fn send_group_msg_caches_message_ref() {
    let (mut svc, mut stub) = stub_service();
    let params = obj(vec![("group_id", JsonValue::Int(9)), ("message", s("[CQ:at,qq=1] hi"))]);
    let resp = handle(&mut svc, &mut stub, "send_group_msg", Some(params), None);
    assert_eq!(resp.status, "ok");
    let mid = field(&resp.data, "message_id").as_i64().unwrap();
    let cached = svc.messages.get(mid).unwrap();
    assert_eq!(cached.message_type, "group");
    assert_eq!(cached.group_id, 9);
}

#[test]
fn send_msg_routes_by_type() {
    let (mut svc, mut stub) = stub_service();
    let params = obj(vec![
        ("message_type", s("group")),
        ("group_id", JsonValue::Int(100)),
        ("message", text_message("x")),
    ]);
    let resp = handle(&mut svc, &mut stub, "send_msg", Some(params), None);
    assert_eq!(resp.status, "ok");
}

#[test]
fn send_msg_missing_target_is_1400() {
    let (mut svc, mut stub) = stub_service();
    let params = obj(vec![("message_type", s("private")), ("message", text_message("x"))]);
    let resp = handle(&mut svc, &mut stub, "send_msg", Some(params), None);
    assert_eq!(resp.retcode, 1400);
    assert_eq!(resp.msg, "send_msg requires a valid message target");
}

#[test]
fn send_without_message_is_1400() {
    let (mut svc, mut stub) = stub_service();
    let resp = handle(&mut svc, &mut stub, "send_private_msg", None, None);
    assert_eq!(resp.retcode, 1400);
    assert_eq!(resp.msg, "message is required");
}

#[test]
fn unreadable_params_are_1400() {
    let (mut svc, _) = stub_service();
    match svc.plan_api(Err("invalid type: string \"x\", expected i64".to_string()), None) {
        ApiStep::Reply(r) => {
            assert_eq!(r.retcode, 1400);
            assert_eq!(r.msg, "invalid type: string \"x\", expected i64");
        }
        ApiStep::Call(..) => panic!("expected a reply"),
    }
}

#[test]
fn set_friend_request_unknown_flag_is_1502() {
    let (mut svc, mut stub) = stub_service();
    let params = obj(vec![("flag", s("ghost")), ("approve", JsonValue::Bool(true))]);
    let resp = handle(&mut svc, &mut stub, "set_friend_add_request", Some(params), None);
    assert_eq!(resp.retcode, 1502);
}

#[test]
fn set_group_request_kind_mismatch_is_1400() {
    let (mut svc, mut stub) = stub_service();
    let f = svc.requests.put(RequestRef {
        kind: "friend".into(),
        initiator_uid: 1,
        ..RequestRef::default()
    });
    let params = obj(vec![("flag", JsonValue::Str(f)), ("approve", JsonValue::Bool(true))]);
    let resp = handle(&mut svc, &mut stub, "set_group_add_request", Some(params), None);
    assert_eq!(resp.retcode, 1400);
    assert!(resp.msg.contains("group request"));
}

#[test]
fn set_friend_request_ok_path_passes_remark() {
    let (mut svc, _) = stub_service();
    let f = svc.requests.put(RequestRef {
        kind: "friend".into(),
        initiator_uid: 99,
        ..RequestRef::default()
    });
    let call = ActionCall::SetFriendAddRequest {
        flag: f,
        approve: false,
        remark: "no".into(),
    };
    match svc.plan_api(Ok(call), None) {
        ApiStep::Call(UpstreamCall::AnswerFriendRequest { request, approve, remark }, echo) => {
            assert_eq!(request.initiator_uid, 99);
            assert!(!approve);
            assert_eq!(remark, "no");
            assert_eq!(finish_done(Ok(()), echo).status, "ok");
        }
        _ => panic!("expected the friend request to go upstream"),
    }
}

#[test]
fn delete_msg_missing_id_is_1502() {
    let (mut svc, mut stub) = stub_service();
    let params = obj(vec![("message_id", JsonValue::Int(99))]);
    let resp = handle(&mut svc, &mut stub, "delete_msg", Some(params), None);
    assert_eq!(resp.retcode, 1502);
}

#[test]
fn delete_msg_known_id_succeeds() {
    let (mut svc, mut stub) = stub_service();
    svc.messages.put(MessageRef {
        onebot_id: 7,
        milky_seq: 7,
        message_type: "private".into(),
        user_id: 11,
        ..MessageRef::default()
    });
    let params = obj(vec![("message_id", JsonValue::Int(7))]);
    let resp = handle(&mut svc, &mut stub, "delete_msg", Some(params), None);
    assert_eq!(resp.status, "ok");
}

#[test]
fn get_msg_upstream_failure_is_1500() {
    let (mut svc, mut stub) = stub_service();
    svc.messages.put(MessageRef {
        onebot_id: 7,
        milky_seq: 7,
        message_type: "private".into(),
        user_id: 11,
        ..MessageRef::default()
    });
    let params = obj(vec![("message_id", JsonValue::Int(7))]);
    let resp = handle(&mut svc, &mut stub, "get_msg", Some(params), None);
    assert_eq!(resp.retcode, 1500);
    assert_eq!(resp.msg, "not connected");
}

#[test]
fn get_msg_builds_answer_from_fetched_event() {
    let (svc, _) = stub_service();
    let cached = MessageRef {
        onebot_id: 7,
        milky_seq: 70,
        message_type: "group".into(),
        group_id: 3,
        user_id: 0,
    };
    let mut data = DataMap::new();
    data.insert("text".into(), "hi".into());
    let ev = InboundEvent {
        kind: EventKind::MessageGroup,
        time: 5,
        message_id: 70,
        group_id: 3,
        user_id: 8,
        target_id: 0,
        segments: vec![Segment {
            kind: SegmentType::Text,
            data,
            raw: Vec::new(),
        }],
        sender: Sender::default(),
        comment: String::new(),
        request: None,
    };
    let resp = svc.finish_get_msg(&cached, Ok(ev), None);
    assert_eq!(resp.status, "ok");
    assert_eq!(field(&resp.data, "message_id").as_i64(), Some(7));
    assert_eq!(field(&resp.data, "real_id").as_i64(), Some(70));
    assert_eq!(field(&resp.data, "group_id").as_i64(), Some(3));
    assert!(resp.data.get("user_id").is_none());
    assert_eq!(field(&resp.data, "raw_message").as_str(), Some("hi"));
}

#[test]
fn get_group_info_passes_through() {
    let (mut svc, mut stub) = stub_service();
    let params = obj(vec![("group_id", JsonValue::Int(42))]);
    let resp = handle(&mut svc, &mut stub, "get_group_info", Some(params), None);
    assert_eq!(resp.status, "ok");
    assert_eq!(field(&resp.data, "group_id").as_i64(), Some(42));
}

#[test]
fn group_member_info_leaves_out_empty_fields() {
    let (mut svc, mut stub) = stub_service();
    let params = obj(vec![("group_id", JsonValue::Int(4)), ("user_id", JsonValue::Int(5))]);
    let resp = handle(&mut svc, &mut stub, "get_group_member_info", Some(params), None);
    assert_eq!(json_to_string(&resp.data), "{\"group_id\":4,\"user_id\":5}");
}

#[test]
fn upstream_errors_answer_1500() {
    let r = finish_group_info(Err(MilkyClientError::BadSegment("x".into())), None);
    assert_eq!(r.retcode, 1500);
    assert_eq!(r.msg, "bad segment: x");
}

#[test]
fn on_ws_connect_skips_api_role() {
    let (svc, _) = stub_service();
    assert!(svc.on_ws_connect("api").is_empty());
    assert!(svc.on_ws_connect("reverse-api").is_empty());
    let evs = svc.on_ws_connect("universal");
    assert_eq!(evs.len(), 1);
    assert_eq!(field(&evs[0], "meta_event_type").as_str(), Some("lifecycle"));
}

#[test]
fn current_self_id_falls_back_to_cfg() {
    let mut c = cfg();
    c.bridge.self_id = 555;
    let mut svc = Service::new(c);
    assert_eq!(svc.current_self_id(), 555);
    svc.runtime.set_login(LoginInfo {
        self_id: 999,
        nickname: "n".into(),
    });
    assert_eq!(svc.current_self_id(), 999);
}

#[test]
fn translate_caches_inbound_private_message() {
    let (mut svc, _) = stub_service();
    let mut data = DataMap::new();
    data.insert("text".into(), "hi".into());
    let event = InboundEvent {
        kind: EventKind::MessagePrivate,
        time: 1,
        message_id: 7,
        group_id: 0,
        user_id: 100,
        target_id: 0,
        segments: vec![Segment {
            kind: SegmentType::Text,
            data,
            raw: Vec::new(),
        }],
        sender: Sender::default(),
        comment: String::new(),
        request: None,
    };
    let payload = svc.translate(event).unwrap();
    assert_eq!(field(&payload, "post_type").as_str(), Some("message"));
    assert!(svc.messages.get(7).is_some());
}

#[test]
fn connect_promotes_runtime_to_online() {
    let (mut svc, _) = stub_service();
    svc.connect(LoginInfo {
        self_id: 1,
        nickname: "stub".into(),
    });
    assert!(svc.runtime.status().online);
    assert_eq!(svc.runtime.login().nickname, "stub");
}

#[test]
fn connect_overrides_self_id_from_cfg() {
    let mut c = cfg();
    c.bridge.self_id = 4242;
    let mut svc = Service::new(c);
    svc.connect(LoginInfo {
        self_id: 1,
        nickname: "stub".into(),
    });
    assert_eq!(svc.runtime.login().self_id, 4242);
}

#[test]
fn shutdown_marks_offline() {
    let (mut svc, _) = stub_service();
    svc.connect(LoginInfo {
        self_id: 1,
        nickname: "stub".into(),
    });
    svc.shutdown();
    assert!(!svc.runtime.status().online);
}

#[test]
fn heartbeat_carries_status_and_interval() {
    let (mut svc, _) = stub_service();
    svc.connect(LoginInfo {
        self_id: 3,
        nickname: "b".into(),
    });
    let hb = svc.heartbeat_at(10);
    assert_eq!(
        json_to_string(&hb),
        "{\"interval\":15000,\"meta_event_type\":\"heartbeat\",\"post_type\":\"meta_event\",\"self_id\":3,\"status\":{\"good\":true,\"online\":true},\"time\":10}"
    );
    assert_eq!(svc.heartbeat_period_ms(), 15000);
}

#[test]
fn routing_and_defaults() {
    assert_eq!(route_action(" get_msg_async ").0, Action::GetMsg);
    assert_eq!(route_action("nope").0, Action::Unsupported);
    assert!(!needs_params(Action::GetStatus));
    assert!(needs_params(Action::DeleteMsg));
    assert!(!params_given(&None));
    assert!(!params_given(&Some(JsonValue::Null)));
    assert!(params_given(&Some(obj(vec![]))));
}

#[test]
fn translated_message_with_replies_stays_fetchable() {
    let mut c = cfg();
    c.bridge.cache_size = 3;
    let mut svc = Service::new(c);
    let reply = |id: &str| {
        let mut d = DataMap::new();
        d.insert("id".into(), id.into());
        Segment {
            kind: SegmentType::Reply,
            data: d,
            raw: Vec::new(),
        }
    };
    let event = InboundEvent {
        kind: EventKind::MessageGroup,
        time: 1,
        message_id: 50,
        group_id: 9,
        user_id: 100,
        target_id: 0,
        segments: vec![reply("41"), reply("42")],
        sender: Sender::default(),
        comment: String::new(),
        request: None,
    };
    assert!(svc.translate(event).is_some());
    match svc.plan_api(Ok(ActionCall::GetMsg { message_id: 50 }), None) {
        ApiStep::Call(UpstreamCall::GetMessage { message }, None) => {
            assert_eq!(message.onebot_id, 50);
            assert_eq!(message.message_type, "group");
            assert_eq!(message.group_id, 9);
            assert_eq!(message.user_id, 100);
        }
        _ => panic!("expected the cached message to be fetched upstream"),
    }
}

#[test]
fn sent_message_can_be_deleted_by_its_id() {
    let (mut svc, _) = stub_service();
    let r = svc.finish_send_private(77, Ok(1234), None);
    assert_eq!(json_to_string(&r.into_json()), "{\"status\":\"ok\",\"retcode\":0,\"data\":{\"message_id\":1234}}");
    match svc.plan_api(Ok(ActionCall::DeleteMsg { message_id: 1234 }), None) {
        ApiStep::Call(UpstreamCall::DeleteMessage { message }, None) => {
            assert_eq!(message.milky_seq, 1234);
            assert_eq!(message.message_type, "private");
            assert_eq!(message.user_id, 77);
        }
        _ => panic!("expected the sent message to be deleted upstream"),
    }
}
