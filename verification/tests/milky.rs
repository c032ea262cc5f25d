use milky_ob11_bridge::datamap::DataMap;
use milky_ob11_bridge::milky::client::{
    friend_request_answer, group_member_to_info, group_request_answer, message_location,
    upstream_token, RequestAnswer,
};
use milky_ob11_bridge::milky::error::MilkyClientError;
use milky_ob11_bridge::milky::events::{from_incoming_message, translate_event};
use milky_ob11_bridge::milky::model::{
    Event, EventKind as MilkyKind, Friend, FriendMessage, Group, GroupMember, GroupMessage,
    GroupRole, IncomingMessage, IncomingSegment, MessageEvent, MessageScene, OutgoingSegment, Sex,
};
use milky_ob11_bridge::milky::segments::{from_incoming, to_outgoing};
use milky_ob11_bridge::types::{EventKind, MessageRef, RequestRef, Segment, SegmentType};

fn seg(kind: SegmentType, pairs: &[(&str, &str)]) -> Segment {
    let mut data = DataMap::new();
    for (k, v) in pairs {
        data.insert((*k).to_string(), (*v).to_string());
    }
    Segment {
        kind,
        data,
        raw: Vec::new(),
    }
}

fn friend(sender_id: i64) -> FriendMessage {
    FriendMessage {
        message: IncomingMessage {
            peer_id: sender_id,
            message_seq: 100,
            sender_id,
            time: 1700000000,
            segments: vec![IncomingSegment::Text { text: "hi".into() }],
        },
        friend: Friend {
            nickname: "alice".into(),
            sex: Sex::Female,
        },
    }
}

fn group_msg(group_id: i64, sender_id: i64) -> GroupMessage {
    GroupMessage {
        message: IncomingMessage {
            peer_id: group_id,
            message_seq: 200,
            sender_id,
            time: 1700000001,
            segments: vec![],
        },
        group: Group { group_id },
        group_member: GroupMember {
            user_id: sender_id,
            nickname: "bob".into(),
            sex: Sex::Male,
            group_id,
            card: "bobby".into(),
            title: "vip".into(),
            level: 7,
            role: GroupRole::Admin,
        },
    }
}

fn ev(kind: MilkyKind) -> Event {
    Event {
        time: 0,
        self_id: 99,
        kind,
    }
}

#[test]
fn friend_message_becomes_private() {
    let out = translate_event(
        ev(MilkyKind::MessageReceive {
            message: MessageEvent::Friend(friend(42)),
        }),
        99,
    )
    .unwrap();
    assert_eq!(out.kind, EventKind::MessagePrivate);
    assert_eq!(out.user_id, 42);
    assert_eq!(out.message_id, 100);
    assert_eq!(out.sender.nickname, "alice");
    assert_eq!(out.sender.sex, "female");
    assert_eq!(out.segments.len(), 1);
}

#[test]
fn group_message_populates_group_and_member() {
    let out = translate_event(
        ev(MilkyKind::MessageReceive {
            message: MessageEvent::Group(group_msg(555, 77)),
        }),
        99,
    )
    .unwrap();
    assert_eq!(out.kind, EventKind::MessageGroup);
    assert_eq!(out.group_id, 555);
    assert_eq!(out.user_id, 77);
    assert_eq!(out.sender.card, "bobby");
    assert_eq!(out.sender.role, "admin");
    assert_eq!(out.sender.level, "7");
}

#[test]
fn group_message_without_group_id_uses_peer() {
    let mut m = group_msg(555, 77);
    m.group.group_id = 0;
    let out = translate_event(
        ev(MilkyKind::MessageReceive {
            message: MessageEvent::Group(m),
        }),
        99,
    )
    .unwrap();
    assert_eq!(out.group_id, 555);
    assert_eq!(out.sender.sex, "male");
}

#[test]
fn temp_message_is_dropped() {
    let out = translate_event(
        ev(MilkyKind::MessageReceive {
            message: MessageEvent::Temp,
        }),
        99,
    );
    assert!(out.is_none());
}

#[test]
fn friend_request_parses_initiator_id() {
    let out = translate_event(
        ev(MilkyKind::FriendRequest {
            initiator_id: "67890".into(),
            initiator_uid: 12345,
            comment: "hi".into(),
        }),
        99,
    )
    .unwrap();
    assert_eq!(out.kind, EventKind::FriendRequest);
    assert_eq!(out.user_id, 67890);
    let req = out.request.unwrap();
    assert_eq!(req.kind, "friend");
    assert_eq!(req.initiator_uid, 12345);
}

#[test]
fn friend_request_with_bad_initiator_id_uses_zero() {
    let out = translate_event(
        ev(MilkyKind::FriendRequest {
            initiator_id: "u_abc".into(),
            initiator_uid: 1,
            comment: String::new(),
        }),
        99,
    )
    .unwrap();
    assert_eq!(out.user_id, 0);
}

#[test]
fn group_invitation_carries_seq() {
    let out = translate_event(
        ev(MilkyKind::GroupInvitation {
            group_id: 222,
            invitation_seq: 33,
            initiator_id: 44,
        }),
        99,
    )
    .unwrap();
    assert_eq!(out.kind, EventKind::GroupInvite);
    assert_eq!(out.group_id, 222);
    assert_eq!(out.user_id, 44);
    let req = out.request.unwrap();
    assert_eq!(req.invitation_seq, 33);
    assert_eq!(req.group_id, 222);
}

#[test]
fn friend_nudge_self_receive_targets_user() {
    let out = translate_event(
        ev(MilkyKind::FriendNudge {
            user_id: 42,
            is_self_receive: true,
        }),
        99,
    )
    .unwrap();
    assert_eq!(out.kind, EventKind::PokePrivate);
    assert_eq!(out.user_id, 42);
    assert_eq!(out.target_id, 42);
}

#[test]
fn friend_nudge_other_targets_self() {
    let out = translate_event(
        ev(MilkyKind::FriendNudge {
            user_id: 42,
            is_self_receive: false,
        }),
        99,
    )
    .unwrap();
    assert_eq!(out.target_id, 99);
}

#[test]
fn group_nudge_maps_directly() {
    let out = translate_event(
        ev(MilkyKind::GroupNudge {
            group_id: 1,
            sender_id: 2,
            receiver_id: 3,
        }),
        99,
    )
    .unwrap();
    assert_eq!(out.kind, EventKind::PokeGroup);
    assert_eq!(out.group_id, 1);
    assert_eq!(out.user_id, 2);
    assert_eq!(out.target_id, 3);
}

#[test]
fn group_recall_sets_group_id() {
    let out = translate_event(
        ev(MilkyKind::MessageRecall {
            message_scene: MessageScene::Group,
            peer_id: 444,
            message_seq: 11,
            sender_id: 22,
        }),
        99,
    )
    .unwrap();
    assert_eq!(out.kind, EventKind::RecallGroup);
    assert_eq!(out.group_id, 444);
    assert_eq!(out.message_id, 11);
    assert_eq!(out.user_id, 22);
}

#[test]
fn friend_recall_no_group_id() {
    let out = translate_event(
        ev(MilkyKind::MessageRecall {
            message_scene: MessageScene::Friend,
            peer_id: 777,
            message_seq: 12,
            sender_id: 88,
        }),
        99,
    )
    .unwrap();
    assert_eq!(out.kind, EventKind::RecallPrivate);
    assert_eq!(out.group_id, 0);
    assert_eq!(out.user_id, 88);
}

#[test]
fn unhandled_event_returns_none() {
    assert!(translate_event(ev(MilkyKind::Other), 99).is_none());
    assert!(translate_event(
        ev(MilkyKind::MessageRecall {
            message_scene: MessageScene::Temp,
            peer_id: 1,
            message_seq: 1,
            sender_id: 1,
        }),
        99
    )
    .is_none());
}

#[test]
fn fetched_message_keeps_group_only_for_groups() {
    let msg = IncomingMessage {
        peer_id: 9,
        message_seq: 3,
        sender_id: 4,
        time: 5,
        segments: vec![],
    };
    let g = from_incoming_message(msg, EventKind::MessageGroup);
    assert_eq!(g.group_id, 9);
    let msg = IncomingMessage {
        peer_id: 9,
        message_seq: 3,
        sender_id: 4,
        time: 5,
        segments: vec![],
    };
    let p = from_incoming_message(msg, EventKind::MessagePrivate);
    assert_eq!(p.group_id, 0);
    assert_eq!(p.user_id, 4);
}

#[test]
fn text_outgoing_roundtrips() {
    let out = to_outgoing(vec![seg(SegmentType::Text, &[("text", "hi")])]).unwrap();
    match &out[0] {
        OutgoingSegment::Text { text } => assert_eq!(text, "hi"),
        _ => panic!("expected text"),
    }
}

#[test]
fn at_numeric_becomes_mention() {
    let out = to_outgoing(vec![seg(SegmentType::At, &[("qq", "12345")])]).unwrap();
    match &out[0] {
        OutgoingSegment::Mention { user_id } => assert_eq!(*user_id, 12345),
        _ => panic!("expected mention"),
    }
}

#[test]
fn at_all_becomes_mention_all() {
    let out = to_outgoing(vec![seg(SegmentType::At, &[("qq", "all")])]).unwrap();
    assert!(matches!(out[0], OutgoingSegment::MentionAll));
}

#[test]
fn at_invalid_qq_errors() {
    let err = to_outgoing(vec![seg(SegmentType::At, &[("qq", "nope")])]).unwrap_err();
    assert!(matches!(err, MilkyClientError::BadSegment(_)));
    assert_eq!(err.message(), "bad segment: at: invalid qq \"nope\"");
}

#[test]
fn reply_parses_id() {
    let out = to_outgoing(vec![seg(SegmentType::Reply, &[("id", "789")])]).unwrap();
    match &out[0] {
        OutgoingSegment::Reply { message_seq } => assert_eq!(*message_seq, 789),
        _ => panic!("expected reply"),
    }
}

#[test]
fn reply_invalid_id_quotes_it() {
    let err = to_outgoing(vec![seg(SegmentType::Reply, &[("id", "a\"b")])]).unwrap_err();
    match err {
        MilkyClientError::BadSegment(m) => assert_eq!(m, "reply: invalid id \"a\\\"b\""),
        _ => panic!("expected bad segment"),
    }
}

#[test]
fn image_prefers_url_over_file() {
    let out = to_outgoing(vec![seg(
        SegmentType::Image,
        &[("url", "http://x/a.png"), ("file", "ignored")],
    )])
    .unwrap();
    match &out[0] {
        OutgoingSegment::Image { uri, sub_type, .. } => {
            assert_eq!(uri, "http://x/a.png");
            assert_eq!(sub_type, "normal");
        }
        _ => panic!("expected image"),
    }
}

#[test]
fn image_falls_back_to_file() {
    let out = to_outgoing(vec![seg(SegmentType::Image, &[("file", "file:///tmp/a.png")])]).unwrap();
    match &out[0] {
        OutgoingSegment::Image { uri, .. } => assert_eq!(uri, "file:///tmp/a.png"),
        _ => panic!("expected image"),
    }
}

#[test]
fn image_missing_uri_errors() {
    let err = to_outgoing(vec![seg(SegmentType::Image, &[])]).unwrap_err();
    assert!(matches!(err, MilkyClientError::BadSegment(_)));
}

#[test]
fn record_uses_url_then_file() {
    let out = to_outgoing(vec![seg(SegmentType::Record, &[("file", "file:///r.silk")])]).unwrap();
    match &out[0] {
        OutgoingSegment::Record { uri } => assert_eq!(uri, "file:///r.silk"),
        _ => panic!("expected record"),
    }
}

#[test]
fn poke_is_skipped() {
    let out = to_outgoing(vec![seg(SegmentType::Poke, &[("qq", "1")])]).unwrap();
    assert!(out.is_empty());
}

#[test]
fn unknown_with_text_falls_back_to_text() {
    let out = to_outgoing(vec![seg(SegmentType::Unknown, &[("text", "raw")])]).unwrap();
    match &out[0] {
        OutgoingSegment::Text { text } => assert_eq!(text, "raw"),
        _ => panic!("expected text fallback"),
    }
}

#[test]
fn first_bad_segment_stops_conversion() {
    let err = to_outgoing(vec![
        seg(SegmentType::Text, &[("text", "ok")]),
        seg(SegmentType::Record, &[]),
        seg(SegmentType::At, &[("qq", "x")]),
    ])
    .unwrap_err();
    assert_eq!(err.message(), "bad segment: record: missing url/file");
}

#[test]
fn incoming_text_maps_to_text() {
    let out = from_incoming(vec![IncomingSegment::Text { text: "hi".into() }]);
    assert_eq!(out[0].kind, SegmentType::Text);
    assert_eq!(out[0].data.get("text").unwrap(), "hi");
}

#[test]
fn incoming_mention_maps_to_at() {
    let out = from_incoming(vec![IncomingSegment::Mention { user_id: 999 }]);
    assert_eq!(out[0].kind, SegmentType::At);
    assert_eq!(out[0].data.get("qq").unwrap(), "999");
}

#[test]
fn incoming_mention_all_maps_to_at_all() {
    let out = from_incoming(vec![IncomingSegment::MentionAll]);
    assert_eq!(out[0].kind, SegmentType::At);
    assert_eq!(out[0].data.get("qq").unwrap(), "all");
}

#[test]
fn incoming_image_uses_temp_url() {
    let out = from_incoming(vec![IncomingSegment::Image {
        temp_url: "https://t/img".into(),
    }]);
    assert_eq!(out[0].kind, SegmentType::Image);
    assert_eq!(out[0].data.get("url").unwrap(), "https://t/img");
}

#[test]
fn incoming_face_falls_back_to_unknown() {
    let out = from_incoming(vec![IncomingSegment::Face {
        face_id: "42".into(),
    }]);
    assert_eq!(out[0].kind, SegmentType::Unknown);
    assert!(out[0].data.get("text").unwrap().contains("face:42"));
}

#[test]
fn incoming_unsupported_texts() {
    let out = from_incoming(vec![
        IncomingSegment::Video,
        IncomingSegment::File { file_name: "a.txt".into() },
        IncomingSegment::Forward { forward_id: "f1".into() },
        IncomingSegment::MarketFace { url: "u".into() },
        IncomingSegment::LightApp { app_name: "app".into() },
        IncomingSegment::Xml { service_id: -3 },
        IncomingSegment::Reply { message_seq: -12 },
    ]);
    let texts: Vec<&str> = out[..6]
        .iter()
        .map(|s| s.data.get("text").unwrap().as_str())
        .collect();
    assert_eq!(
        texts,
        vec![
            "[unsupported:video]",
            "[unsupported:file:a.txt]",
            "[unsupported:forward:f1]",
            "[unsupported:market_face:u]",
            "[unsupported:light_app:app]",
            "[unsupported:xml:-3]",
        ]
    );
    assert_eq!(out[6].data.get("id").unwrap(), "-12");
}

#[test]
fn client_decisions() {
    assert_eq!(upstream_token(""), None);
    assert_eq!(upstream_token("t"), Some("t".to_string()));
    let group_ref = MessageRef {
        onebot_id: 1,
        milky_seq: 2,
        message_type: "group".into(),
        group_id: 3,
        user_id: 4,
    };
    assert_eq!(message_location(&group_ref), (MessageScene::Group, 3, EventKind::MessageGroup));
    let private_ref = MessageRef {
        message_type: "private".into(),
        ..group_ref
    };
    assert_eq!(message_location(&private_ref), (MessageScene::Friend, 4, EventKind::MessagePrivate));
    let info = group_member_to_info(GroupMember {
        user_id: 1,
        nickname: "n".into(),
        sex: Sex::Unknown,
        group_id: 2,
        card: "c".into(),
        title: "t".into(),
        level: 12,
        role: GroupRole::Owner,
    });
    assert_eq!(info.sex, "unknown");
    assert_eq!(info.role, "owner");
    assert_eq!(info.level, "12");
    assert_eq!(info.age, 0);
    let req = RequestRef {
        kind: "group".into(),
        initiator_uid: 5,
        group_id: 6,
        invitation_seq: 77,
    };
    match group_request_answer(&req, false) {
        RequestAnswer::RejectGroup { group_id, invitation_seq } => {
            assert_eq!(group_id, 6);
            assert_eq!(invitation_seq, "77");
        }
        _ => panic!("expected a rejection"),
    }
    match friend_request_answer(&req, false, "busy".into()) {
        RequestAnswer::RejectFriend { initiator_uid, reason } => {
            assert_eq!(initiator_uid, 5);
            assert_eq!(reason, "busy");
        }
        _ => panic!("expected a rejection"),
    }
    assert!(matches!(
        friend_request_answer(&req, true, String::new()),
        RequestAnswer::AcceptFriend { initiator_uid: 5 }
    ));
}

#[test]
fn received_segments_send_back_as_they_came() {
    let received = vec![
        IncomingSegment::Text { text: "hi".into() },
        IncomingSegment::Mention { user_id: -42 },
        IncomingSegment::MentionAll,
        IncomingSegment::Reply { message_seq: i64::MAX },
        IncomingSegment::Image { temp_url: "http://x/i.png".into() },
        IncomingSegment::Record { temp_url: "http://x/r.amr".into() },
        IncomingSegment::Face { face_id: "14".into() },
        IncomingSegment::Xml { service_id: -3 },
    ];
    let out = to_outgoing(from_incoming(received)).unwrap();
    assert_eq!(out.len(), 8);
    assert!(matches!(&out[0], OutgoingSegment::Text { text } if text == "hi"));
    assert!(matches!(&out[1], OutgoingSegment::Mention { user_id: -42 }));
    assert!(matches!(&out[2], OutgoingSegment::MentionAll));
    assert!(matches!(&out[3], OutgoingSegment::Reply { message_seq: i64::MAX }));
    assert!(matches!(&out[4], OutgoingSegment::Image { uri, summary: None, sub_type } if uri == "http://x/i.png" && sub_type == "normal"));
    assert!(matches!(&out[5], OutgoingSegment::Record { uri } if uri == "http://x/r.amr"));
    assert!(matches!(&out[6], OutgoingSegment::Text { text } if text == "[unsupported:face:14]"));
    assert!(matches!(&out[7], OutgoingSegment::Text { text } if text == "[unsupported:xml:-3]"));
}
