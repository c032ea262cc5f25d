use milky_ob11_bridge::state::message_map::MessageMap;
use milky_ob11_bridge::state::request_map::RequestMap;
use milky_ob11_bridge::state::runtime::Runtime;
use milky_ob11_bridge::types::{LoginInfo, MessageRef, RequestRef};

fn ref_with_id(id: i64) -> MessageRef {
    MessageRef {
        onebot_id: id,
        milky_seq: id,
        message_type: "private".to_string(),
        user_id: 1,
        ..MessageRef::default()
    }
}

#[test]
fn put_then_get_roundtrips() {
    let mut map = MessageMap::new(8);
    map.put(ref_with_id(42));
    let got = map.get(42).expect("present");
    assert_eq!(got.onebot_id, 42);
    assert_eq!(got.milky_seq, 42);
}

#[test]
fn missing_id_returns_none() {
    let mut map = MessageMap::new(8);
    assert!(map.get(99).is_none());
}

#[test]
fn evicts_when_capacity_exceeded() {
    let mut map = MessageMap::new(2);
    map.put(ref_with_id(1));
    map.put(ref_with_id(2));
    map.put(ref_with_id(3));
    assert!(
        map.get(1).is_none(),
        "oldest entry should have been evicted"
    );
    assert!(map.get(2).is_some());
    assert!(map.get(3).is_some());
}

#[test]
fn get_promotes_recency() {
    let mut map = MessageMap::new(2);
    map.put(ref_with_id(1));
    map.put(ref_with_id(2));
    let _ = map.get(1);
    map.put(ref_with_id(3));
    assert!(
        map.get(1).is_some(),
        "recently accessed entry should survive"
    );
    assert!(map.get(2).is_none(), "stale entry should have been evicted");
}

#[test]
fn zero_cache_size_falls_back_to_one() {
    let mut map = MessageMap::new(0);
    map.put(ref_with_id(1));
    assert!(map.get(1).is_some());
}

#[test]
fn put_overwrites_same_id_without_growing() {
    let mut map = MessageMap::new(2);
    map.put(ref_with_id(1));
    map.put(ref_with_id(2));
    let mut again = ref_with_id(1);
    again.user_id = 77;
    map.put(again);
    map.put(ref_with_id(3));
    assert_eq!(map.get(1).expect("rewritten entry is most recent").user_id, 77);
    assert!(map.get(2).is_none());
}

#[test]
fn put_returns_unique_flag_with_kind_prefix() {
    let mut map = RequestMap::new();
    let a = map.put(RequestRef {
        kind: "friend".to_string(),
        initiator_uid: 42,
        ..RequestRef::default()
    });
    let b = map.put(RequestRef {
        kind: "group".to_string(),
        group_id: 100,
        ..RequestRef::default()
    });
    assert_eq!(a, "friend:1");
    assert_eq!(b, "group:2");
}

#[test]
fn get_returns_stored_ref() {
    let mut map = RequestMap::new();
    let flag = map.put(RequestRef {
        kind: "group".to_string(),
        group_id: 555,
        invitation_seq: 7,
        ..RequestRef::default()
    });
    let got = map.get(&flag).expect("present");
    assert_eq!(got.group_id, 555);
    assert_eq!(got.invitation_seq, 7);
}

#[test]
fn missing_flag_returns_none() {
    let map = RequestMap::new();
    assert!(map.get("ghost:1").is_none());
}

#[test]
fn flags_keep_counting_across_kinds_and_stay_readable() {
    let mut map = RequestMap::new();
    let mut flags = Vec::new();
    for i in 0..12 {
        flags.push(map.put(RequestRef {
            kind: "friend".to_string(),
            initiator_uid: i,
            ..RequestRef::default()
        }));
    }
    assert_eq!(flags[9], "friend:10");
    assert_eq!(flags[11], "friend:12");
    for (i, f) in flags.iter().enumerate() {
        assert_eq!(map.get(f).expect("stored").initiator_uid, i as i64);
    }
    assert!(map.has_room());
}

#[test]
fn fresh_runtime_is_offline_and_not_good() {
    let rt = Runtime::new();
    let s = rt.status();
    assert!(!s.online);
    assert!(!s.good);
}

#[test]
fn upstream_connected_makes_online_but_not_good_until_login() {
    let mut rt = Runtime::new();
    rt.set_upstream_connected(true);
    let s = rt.status();
    assert!(s.online);
    assert!(!s.good, "good requires non-zero self_id");
}

#[test]
fn login_plus_connected_is_good() {
    let mut rt = Runtime::new();
    rt.set_upstream_connected(true);
    rt.set_login(LoginInfo {
        self_id: 42,
        nickname: "bot".to_string(),
    });
    let s = rt.status();
    assert!(s.online);
    assert!(s.good);
}

#[test]
fn login_alone_is_not_good_without_connection() {
    let mut rt = Runtime::new();
    rt.set_login(LoginInfo {
        self_id: 42,
        nickname: "bot".to_string(),
    });
    assert!(!rt.status().good);
}

#[test]
fn login_getter_returns_clone_with_fields() {
    let mut rt = Runtime::new();
    rt.set_login(LoginInfo {
        self_id: 7,
        nickname: "n".to_string(),
    });
    let got = rt.login();
    assert_eq!(got.self_id, 7);
    assert_eq!(got.nickname, "n");
}

#[test]
fn disconnect_keeps_login_but_drops_online() {
    let mut rt = Runtime::new();
    rt.set_login(LoginInfo {
        self_id: 7,
        nickname: "n".to_string(),
    });
    rt.set_upstream_connected(true);
    rt.set_upstream_connected(false);
    let s = rt.status();
    assert!(!s.online);
    assert!(!s.good);
    assert_eq!(rt.login().self_id, 7);
}

#[test]
fn puts_keep_every_request_under_its_own_flag() {
    let mut map = RequestMap::new();
    let mut flags = Vec::new();
    for i in 0..5i64 {
        flags.push(map.put(RequestRef {
            kind: if i % 2 == 0 { "friend" } else { "group" }.to_string(),
            group_id: i,
            ..RequestRef::default()
        }));
    }
    assert_eq!(flags, vec!["friend:1", "group:2", "friend:3", "group:4", "friend:5"]);
    for (i, f) in flags.iter().enumerate() {
        assert_eq!(map.get(f).unwrap().group_id, i as i64);
    }
    assert!(map.get("friend:2").is_none());
    assert!(map.get("group:6").is_none());
}

#[test]
fn status_follows_the_last_calls() {
    let mut rt = Runtime::new();
    rt.set_upstream_connected(true);
    rt.set_login(LoginInfo { self_id: 7, nickname: "n".into() });
    rt.set_upstream_connected(false);
    assert!(!rt.status().online && !rt.status().good);
    rt.set_upstream_connected(true);
    assert!(rt.status().online && rt.status().good);
    rt.set_login(LoginInfo { self_id: 0, nickname: String::new() });
    assert!(rt.status().online && !rt.status().good);
}
