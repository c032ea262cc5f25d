use milky_ob11_bridge::bridge::message_ir::{
    build_cq_string, build_onebot_message, escape_cq_text, escape_cq_value, parse_onebot_message,
    unescape_cq_text, MessageIrError,
};
use milky_ob11_bridge::bridge::translator::{translate_event, translate_event_at, unsupported_action};
use milky_ob11_bridge::datamap::DataMap;
use milky_ob11_bridge::json::{json_to_string, JsonValue};
use milky_ob11_bridge::state::message_map::MessageMap;
use milky_ob11_bridge::state::request_map::RequestMap;
use milky_ob11_bridge::types::{EventKind, InboundEvent, RequestRef, Segment, SegmentType, Sender};

fn s(v: &str) -> JsonValue {
    JsonValue::Str(v.to_string())
}

fn obj(pairs: Vec<(&str, JsonValue)>) -> JsonValue {
    JsonValue::Object(pairs.into_iter().map(|(k, v)| (k.to_string(), v)).collect())
}

fn seg_json(kind: &str, pairs: &[(&str, &str)]) -> JsonValue {
    obj(vec![
        ("type", s(kind)),
        ("data", obj(pairs.iter().map(|(k, v)| (*k, s(v))).collect())),
    ])
}

fn seg(kind: SegmentType, pairs: &[(&str, &str)]) -> Segment {
    let mut data = DataMap::new();
    for (k, v) in pairs {
        data.insert((*k).to_string(), (*v).to_string());
    }
    Segment {
        kind,
        data,
        raw: Vec::new(),
    }
}

fn field<'a>(v: &'a JsonValue, key: &str) -> &'a JsonValue {
    v.get(key).expect("member present")
}

fn chars(t: &str) -> Vec<char> {
    t.chars().collect()
}

fn text(v: &[char]) -> String {
    v.iter().collect()
}

fn reply_seg(seq: i64) -> Segment {
    seg(SegmentType::Reply, &[("id", &seq.to_string())])
}

fn text_seg(t: &str) -> Segment {
    seg(SegmentType::Text, &[("text", t)])
}

fn event(kind: EventKind) -> InboundEvent {
    InboundEvent {
        kind,
        time: 0,
        message_id: 0,
        group_id: 0,
        user_id: 0,
        target_id: 0,
        segments: Vec::new(),
        sender: Sender::default(),
        comment: String::new(),
        request: None,
    }
}

#[test]
fn parse_array_message() {
    let raw = JsonValue::Array(vec![
        seg_json("text", &[("text", "hello")]),
        seg_json("at", &[("qq", "12345")]),
        seg_json("image", &[("file", "http://example.com/a.png")]),
    ]);
    let segments = parse_onebot_message(&raw, false).unwrap();
    assert_eq!(segments.len(), 3);
    assert_eq!(segments[0].kind, SegmentType::Text);
    assert_eq!(segments[0].data.get("text").unwrap(), "hello");
    assert_eq!(segments[1].kind, SegmentType::At);
    assert_eq!(segments[1].data.get("qq").unwrap(), "12345");
    assert_eq!(segments[2].kind, SegmentType::Image);
    assert_eq!(
        segments[2].data.get("url").unwrap(),
        "http://example.com/a.png"
    );
}

#[test]
fn parse_cq_string_message() {
    let raw = s("[CQ:at,qq=42]abc[CQ:reply,id=100]");
    let segments = parse_onebot_message(&raw, false).unwrap();
    assert_eq!(segments.len(), 3);
    assert_eq!(segments[0].kind, SegmentType::At);
    assert_eq!(segments[0].data.get("qq").unwrap(), "42");
    assert_eq!(segments[1].kind, SegmentType::Text);
    assert_eq!(segments[1].data.get("text").unwrap(), "abc");
    assert_eq!(segments[2].kind, SegmentType::Reply);
    assert_eq!(segments[2].data.get("id").unwrap(), "100");
}

#[test]
fn parse_string_with_auto_escape_keeps_literal() {
    let raw = s("[CQ:at,qq=1]raw");
    let segments = parse_onebot_message(&raw, true).unwrap();
    assert_eq!(segments.len(), 1);
    assert_eq!(segments[0].kind, SegmentType::Text);
    assert_eq!(segments[0].data.get("text").unwrap(), "[CQ:at,qq=1]raw");
}

#[test]
fn parse_object_treated_as_single_segment() {
    let raw = seg_json("text", &[("text", "hi")]);
    let segments = parse_onebot_message(&raw, false).unwrap();
    assert_eq!(segments.len(), 1);
    assert_eq!(segments[0].kind, SegmentType::Text);
}

#[test]
fn parse_unknown_segment_falls_back_to_cq_text() {
    let raw = seg_json("face", &[("id", "7")]);
    let segments = parse_onebot_message(&raw, false).unwrap();
    assert_eq!(segments.len(), 1);
    assert_eq!(segments[0].kind, SegmentType::Text);
    assert_eq!(segments[0].data.get("text").unwrap(), "[CQ:face,id=7]");
}

#[test]
fn parse_empty_json_errors() {
    let raw = JsonValue::Null;
    let err = parse_onebot_message(&raw, false).unwrap_err();
    assert!(matches!(err, MessageIrError::Empty));
}

#[test]
fn parse_errors_and_their_texts() {
    let err = parse_onebot_message(&JsonValue::Array(vec![s("x")]), false).unwrap_err();
    assert!(matches!(err, MessageIrError::SegmentNotObject));
    assert_eq!(err.message(), "message segment must be object");
    let err = parse_onebot_message(&JsonValue::Int(5), false).unwrap_err();
    assert!(matches!(err, MessageIrError::Unsupported));
    assert_eq!(err.message(), "unsupported message type");
    assert_eq!(MessageIrError::Empty.message(), "message is required");
}

#[test]
fn parse_cq_text_edges() {
    let segments = parse_onebot_message(&s("a&amp;b[CQ:broken"), false).unwrap();
    assert_eq!(segments.len(), 2);
    assert_eq!(segments[0].data.get("text").unwrap(), "a&b");
    assert_eq!(segments[1].data.get("text").unwrap(), "[CQ:broken");
    let segments = parse_onebot_message(&s(""), false).unwrap();
    assert!(segments.is_empty());
}

#[test]
fn build_string_format_escapes_text() {
    let (out, raw) = build_onebot_message(
        "string",
        &[
            seg(SegmentType::Text, &[("text", "a&b")]),
            seg(SegmentType::At, &[("qq", "7")]),
        ],
    );
    assert_eq!(out.as_str().unwrap(), "a&amp;b[CQ:at,qq=7]");
    assert_eq!(raw, "a&amp;b[CQ:at,qq=7]");
}

#[test]
fn build_array_format_emits_objects() {
    let (out, raw) = build_onebot_message(
        "array",
        &[
            seg(SegmentType::Text, &[("text", "x")]),
            seg(SegmentType::Image, &[("file", "http://x/a.png")]),
        ],
    );
    let arr = match &out {
        JsonValue::Array(a) => a,
        _ => panic!("expected array"),
    };
    assert_eq!(arr.len(), 2);
    assert_eq!(field(&arr[0], "type").as_str(), Some("text"));
    assert_eq!(field(field(&arr[0], "data"), "text").as_str(), Some("x"));
    assert_eq!(field(&arr[1], "type").as_str(), Some("image"));
    assert_eq!(field(field(&arr[1], "data"), "url").as_str(), Some("http://x/a.png"));
    assert_eq!(field(field(&arr[1], "data"), "file").as_str(), Some("http://x/a.png"));
    assert!(raw.contains("[CQ:image"));
}

#[test]
fn cq_token_with_escaped_comma_unescapes() {
    let raw = s("[CQ:image,url=http://x/a&#44;b.png]");
    let segments = parse_onebot_message(&raw, false).unwrap();
    assert_eq!(segments[0].kind, SegmentType::Image);
    assert_eq!(segments[0].data.get("url").unwrap(), "http://x/a,b.png");
}

#[test]
fn cq_escaping_exact_values() {
    assert_eq!(text(&escape_cq_text(&chars("a&[b],c"))), "a&amp;&#91;b&#93;,c");
    assert_eq!(text(&escape_cq_value(&chars("a&[b],c"))), "a&amp;&#91;b&#93;&#44;c");
    assert_eq!(text(&unescape_cq_text(&chars("&amp;#44;&#44;"))), "&#44;,");
}

#[test]
fn cq_value_escape_roundtrips() {
    for t in ["", "plain", "a,b", "&#44;", "[&]", "&amp;&", "x&#91;y"] {
        let escaped = escape_cq_value(&chars(t));
        assert_eq!(text(&unescape_cq_text(&escaped)), t);
    }
}

#[test]
fn cq_string_roundtrips_through_parse() {
    let segs = vec![
        seg(SegmentType::Text, &[("text", "hi [there], & bye")]),
        seg(SegmentType::At, &[("qq", "10")]),
        seg(SegmentType::Image, &[("url", "http://x/a,b.png")]),
    ];
    let cq = build_cq_string(&segs);
    let back = parse_onebot_message(&JsonValue::Str(cq), false).unwrap();
    assert_eq!(back.len(), 3);
    assert_eq!(back[0].data.get("text").unwrap(), "hi [there], & bye");
    assert_eq!(back[1].data.get("qq").unwrap(), "10");
    assert_eq!(back[2].data.get("url").unwrap(), "http://x/a,b.png");
}

fn same_segments(got: &[Segment], want: &[Segment], keys: &[&str]) {
    assert_eq!(got.len(), want.len());
    for (g, w) in got.iter().zip(want.iter()) {
        assert_eq!(g.kind, w.kind);
        assert_eq!(g.data.len(), w.data.len());
        for k in keys {
            assert_eq!(g.data.get(k), w.data.get(k));
        }
    }
}

#[test]
fn faithful_segments_read_back_from_cq_string() {
    let segs = vec![
        seg(SegmentType::Text, &[("text", "a&[b], c]")]),
        seg(SegmentType::At, &[("qq", "1,2")]),
        seg(SegmentType::Image, &[("file", "http://x/a,b.png"), ("url", "http://x/a,b.png")]),
        seg(SegmentType::Reply, &[("id", "&#44;9")]),
        seg(SegmentType::Text, &[("text", "tail=")]),
        seg(SegmentType::Record, &[("file", ""), ("url", "")]),
        seg(SegmentType::Poke, &[("qq", "")]),
    ];
    let cq = build_cq_string(&segs);
    let back = parse_onebot_message(&JsonValue::Str(cq), false).unwrap();
    same_segments(&back, &segs, &["text", "qq", "id", "file", "url"]);
}

#[test]
fn faithful_segments_read_back_from_array() {
    let segs = vec![
        seg(SegmentType::Text, &[("text", "")]),
        seg(SegmentType::Text, &[("text", "[CQ:at,qq=1]")]),
        seg(SegmentType::Image, &[("file", "a.png"), ("url", "http://x/b.png")]),
        seg(SegmentType::At, &[("qq", "7")]),
        seg(SegmentType::Reply, &[("id", "3")]),
    ];
    let (arr, _) = build_onebot_message("array", &segs);
    let back = parse_onebot_message(&arr, false).unwrap();
    same_segments(&back, &segs, &["text", "qq", "id", "file", "url"]);
}

#[test]
fn private_message_translates_and_caches_ref() {
    let mut msgs = MessageMap::new(8);
    let mut reqs = RequestMap::new();
    let mut ev = event(EventKind::MessagePrivate);
    ev.time = 1700000000;
    ev.message_id = 42;
    ev.user_id = 555;
    ev.segments = vec![text_seg("hi")];
    ev.sender = Sender {
        user_id: 555,
        nickname: "alice".into(),
        ..Sender::default()
    };
    let v = translate_event(ev, 999, "array", &mut msgs, &mut reqs).unwrap();
    assert_eq!(field(&v, "post_type").as_str(), Some("message"));
    assert_eq!(field(&v, "message_type").as_str(), Some("private"));
    assert_eq!(field(&v, "sub_type").as_str(), Some("friend"));
    assert_eq!(field(&v, "self_id").as_i64(), Some(999));
    assert_eq!(field(&v, "message_id").as_i64(), Some(42));
    assert_eq!(field(&v, "user_id").as_i64(), Some(555));
    assert_eq!(field(field(&v, "sender"), "nickname").as_str(), Some("alice"));
    assert_eq!(field(field(&v, "sender"), "sex").as_str(), Some("unknown"));
    match field(&v, "message") {
        JsonValue::Array(a) => assert_eq!(field(&a[0], "type").as_str(), Some("text")),
        _ => panic!("expected array"),
    }
    let cached = msgs.get(42).unwrap();
    assert_eq!(cached.message_type, "private");
    assert_eq!(cached.user_id, 555);
}

#[test]
fn group_reply_pre_registers_referenced_seq() {
    let mut msgs = MessageMap::new(8);
    let mut reqs = RequestMap::new();
    let mut ev = event(EventKind::MessageGroup);
    ev.message_id = 99308;
    ev.group_id = 12345;
    ev.user_id = 200;
    ev.segments = vec![reply_seg(99304), text_seg("re")];
    translate_event(ev, 1, "array", &mut msgs, &mut reqs).unwrap();
    let referenced = msgs.get(99304).expect("reply target should be cached");
    assert_eq!(referenced.message_type, "group");
    assert_eq!(referenced.group_id, 12345);
    assert_eq!(referenced.milky_seq, 99304);
}

#[test]
fn private_reply_pre_registers_referenced_seq() {
    let mut msgs = MessageMap::new(8);
    let mut reqs = RequestMap::new();
    let mut ev = event(EventKind::MessagePrivate);
    ev.message_id = 200;
    ev.user_id = 555;
    ev.segments = vec![reply_seg(180)];
    translate_event(ev, 1, "array", &mut msgs, &mut reqs).unwrap();
    let referenced = msgs.get(180).expect("reply target should be cached");
    assert_eq!(referenced.message_type, "private");
    assert_eq!(referenced.user_id, 555);
}

#[test]
fn reply_to_known_message_keeps_its_ref() {
    let mut msgs = MessageMap::new(8);
    let mut reqs = RequestMap::new();
    let mut first = event(EventKind::MessageGroup);
    first.message_id = 10;
    first.group_id = 5;
    first.user_id = 6;
    translate_event_at(first, 1, 1, "array", &mut msgs, &mut reqs).unwrap();
    let mut second = event(EventKind::MessagePrivate);
    second.message_id = 11;
    second.user_id = 7;
    second.segments = vec![reply_seg(10), seg(SegmentType::Reply, &[("id", "x")])];
    translate_event_at(second, 2, 1, "array", &mut msgs, &mut reqs).unwrap();
    let kept = msgs.get(10).unwrap();
    assert_eq!(kept.message_type, "group");
    assert_eq!(kept.group_id, 5);
}

#[test]
fn group_message_uses_group_sender_defaults() {
    let mut msgs = MessageMap::new(8);
    let mut reqs = RequestMap::new();
    let mut ev = event(EventKind::MessageGroup);
    ev.message_id = 7;
    ev.group_id = 100;
    ev.user_id = 200;
    ev.segments = vec![text_seg("hello")];
    ev.sender = Sender {
        user_id: 200,
        nickname: "bob".into(),
        ..Sender::default()
    };
    let v = translate_event(ev, 1, "string", &mut msgs, &mut reqs).unwrap();
    assert_eq!(field(&v, "message_type").as_str(), Some("group"));
    assert_eq!(field(&v, "sub_type").as_str(), Some("normal"));
    assert_eq!(field(field(&v, "sender"), "role").as_str(), Some("member"));
    assert!(field(&v, "time").as_i64().unwrap() > 0);
    assert_eq!(
        field(&v, "message").as_str(),
        field(&v, "raw_message").as_str()
    );
}

#[test]
fn friend_request_registers_flag() {
    let mut msgs = MessageMap::new(8);
    let mut reqs = RequestMap::new();
    let mut ev = event(EventKind::FriendRequest);
    ev.user_id = 1234;
    ev.comment = "let me in".into();
    ev.request = Some(RequestRef {
        kind: "friend".into(),
        initiator_uid: 5555,
        ..RequestRef::default()
    });
    let v = translate_event(ev, 1, "array", &mut msgs, &mut reqs).unwrap();
    assert_eq!(field(&v, "request_type").as_str(), Some("friend"));
    assert_eq!(field(&v, "comment").as_str(), Some("let me in"));
    let flag = field(&v, "flag").as_str().unwrap();
    let stored = reqs.get(flag).unwrap();
    assert_eq!(stored.initiator_uid, 5555);
}

#[test]
fn group_invite_registers_flag_with_group_id() {
    let mut msgs = MessageMap::new(8);
    let mut reqs = RequestMap::new();
    let mut ev = event(EventKind::GroupInvite);
    ev.group_id = 9999;
    ev.user_id = 11;
    ev.request = Some(RequestRef {
        kind: "group".into(),
        group_id: 9999,
        invitation_seq: 7,
        ..RequestRef::default()
    });
    let v = translate_event(ev, 1, "array", &mut msgs, &mut reqs).unwrap();
    assert_eq!(field(&v, "request_type").as_str(), Some("group"));
    assert_eq!(field(&v, "sub_type").as_str(), Some("invite"));
    assert_eq!(field(&v, "group_id").as_i64(), Some(9999));
    let flag = field(&v, "flag").as_str().unwrap();
    let stored = reqs.get(flag).unwrap();
    assert_eq!(stored.group_id, 9999);
    assert_eq!(stored.invitation_seq, 7);
}

#[test]
fn request_event_without_request_is_dropped() {
    let mut msgs = MessageMap::new(8);
    let mut reqs = RequestMap::new();
    assert!(translate_event(event(EventKind::FriendRequest), 1, "array", &mut msgs, &mut reqs).is_none());
    assert!(reqs.get("friend:1").is_none());
}

#[test]
fn poke_private_includes_target() {
    let mut msgs = MessageMap::new(8);
    let mut reqs = RequestMap::new();
    let mut ev = event(EventKind::PokePrivate);
    ev.user_id = 1;
    ev.target_id = 2;
    let v = translate_event(ev, 9, "array", &mut msgs, &mut reqs).unwrap();
    assert_eq!(field(&v, "notice_type").as_str(), Some("notify"));
    assert_eq!(field(&v, "sub_type").as_str(), Some("poke"));
    assert_eq!(field(&v, "user_id").as_i64(), Some(1));
    assert_eq!(field(&v, "target_id").as_i64(), Some(2));
    assert!(v.get("group_id").is_none());
}

#[test]
fn group_recall_sets_operator_to_user() {
    let mut msgs = MessageMap::new(8);
    let mut reqs = RequestMap::new();
    let mut ev = event(EventKind::RecallGroup);
    ev.message_id = 88;
    ev.group_id = 100;
    ev.user_id = 200;
    let v = translate_event(ev, 9, "array", &mut msgs, &mut reqs).unwrap();
    assert_eq!(field(&v, "notice_type").as_str(), Some("group_recall"));
    assert_eq!(field(&v, "operator_id").as_i64(), Some(200));
    assert_eq!(field(&v, "user_id").as_i64(), Some(200));
    assert_eq!(field(&v, "message_id").as_i64(), Some(88));
}

#[test]
fn friend_recall_exact_text() {
    let mut msgs = MessageMap::new(8);
    let mut reqs = RequestMap::new();
    let mut ev = event(EventKind::RecallPrivate);
    ev.message_id = 3;
    ev.user_id = 4;
    let v = translate_event_at(ev, 1700000000, 9, "array", &mut msgs, &mut reqs).unwrap();
    assert_eq!(
        json_to_string(&v),
        "{\"message_id\":3,\"notice_type\":\"friend_recall\",\"post_type\":\"notice\",\"self_id\":9,\"time\":1700000000,\"user_id\":4}"
    );
}

#[test]
fn unsupported_action_text_matches_go() {
    assert_eq!(
        unsupported_action("foo"),
        "action foo is not supported in v1"
    );
}
