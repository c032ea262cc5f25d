use vstd::prelude::*;

use crate::bridge::message_ir::{build_message_spec, build_onebot_message, seg_models, SegModel};
use crate::datamap::dm_get;
use crate::json::{
    json_entries, jstr, lemma_obj_get_at, lemma_obj_get_none, obj_get, obj_push, Json, JsonValue,
};
use crate::onebot::api::opt_json;
use crate::onebot::event::now_unix;
use crate::state::message_map::{
    key_pos, keys_unique, lemma_key_pos, lemma_put_wf, lemma_touch_wf, lemma_unique_pos, lookup,
    lru_put_spec, lru_touch_spec, MessageMap,
};
use crate::state::request_map::{flag_of, RequestMap};
use crate::text::{chars_of, parse_i64_chars, parse_i64_spec};
use crate::types::{
    EventKind, InboundEvent, MessageRef, MessageRefView, RequestRef, Segment, SegmentType, Sender,
};

verus! {

/// `v`, or `d` when `v` is empty.
pub open spec fn or_default(v: Seq<char>, d: Seq<char>) -> Seq<char> {
    if v.len() == 0 {
        d
    } else {
        v
    }
}

/// `"unknown"` for an empty sex.
pub fn empty_to_unknown<'a>(v: &'a str) -> (r: &'a str)
    ensures
        r@ == or_default(v@, "unknown"@),
{
    if v.is_empty() {
        "unknown"
    } else {
        v
    }
}

/// `"member"` for an empty role.
pub fn empty_to_member<'a>(v: &'a str) -> (r: &'a str)
    ensures
        r@ == or_default(v@, "member"@),
{
    if v.is_empty() {
        "member"
    } else {
        v
    }
}

/// The text answered for an action the bridge does not implement.
pub fn unsupported_action(action: &str) -> (r: String)
    ensures
        r@ == "action "@ + action@ + " is not supported in v1"@,
{
    let mut s = String::from_str("action ");
    s.append(action);
    s.append(" is not supported in v1");
    s
}

/// The time an event is reported at: its own time when positive, else the
/// current time.
pub fn choose_event_time(ts: i64) -> (r: i64)
    ensures
        ts > 0 ==> r == ts,
{
    if ts > 0 {
        return ts;
    }
    now_unix()
}

/// The `sender` object of a private message.
pub open spec fn private_sender_json(s: Sender) -> Json {
    Json::Object(
        seq![
            ("age"@, Json::Int(s.age as i64)),
            ("nickname"@, Json::Str(s.nickname@)),
            ("sex"@, Json::Str(or_default(s.sex@, "unknown"@))),
            ("user_id"@, Json::Int(s.user_id)),
        ],
    )
}

/// The `sender` object of a group message.
pub open spec fn group_sender_json(s: Sender) -> Json {
    Json::Object(
        seq![
            ("age"@, Json::Int(s.age as i64)),
            ("area"@, Json::Str(s.area@)),
            ("card"@, Json::Str(s.card@)),
            ("level"@, Json::Str(s.level@)),
            ("nickname"@, Json::Str(s.nickname@)),
            ("role"@, Json::Str(or_default(s.role@, "member"@))),
            ("sex"@, Json::Str(or_default(s.sex@, "unknown"@))),
            ("title"@, Json::Str(s.title@)),
            ("user_id"@, Json::Int(s.user_id)),
        ],
    )
}

/// The `sender` object of a `get_msg` answer: every field as it is, the
/// group fields only for a group message.
pub open spec fn get_msg_sender_json(s: Sender, message_type: Seq<char>) -> Json {
    if message_type == "group"@ {
        Json::Object(
            seq![
                ("age"@, Json::Int(s.age as i64)),
                ("area"@, Json::Str(s.area@)),
                ("card"@, Json::Str(s.card@)),
                ("level"@, Json::Str(s.level@)),
                ("nickname"@, Json::Str(s.nickname@)),
                ("role"@, Json::Str(s.role@)),
                ("sex"@, Json::Str(s.sex@)),
                ("title"@, Json::Str(s.title@)),
                ("user_id"@, Json::Int(s.user_id)),
            ],
        )
    } else {
        Json::Object(
            seq![
                ("age"@, Json::Int(s.age as i64)),
                ("nickname"@, Json::Str(s.nickname@)),
                ("sex"@, Json::Str(s.sex@)),
                ("user_id"@, Json::Int(s.user_id)),
            ],
        )
    }
}

/// The sender of a private message as OneBot writes it.
pub fn private_sender(sender: &Sender) -> (r: JsonValue)
    ensures
        r@ == private_sender_json(*sender),
{
    let mut o: Vec<(String, JsonValue)> = Vec::new();
    obj_push(&mut o, "age", JsonValue::Int(sender.age as i64));
    obj_push(&mut o, "nickname", jstr(sender.nickname.as_str()));
    obj_push(&mut o, "sex", jstr(empty_to_unknown(sender.sex.as_str())));
    obj_push(&mut o, "user_id", JsonValue::Int(sender.user_id));
    assert(json_entries(o@) =~= private_sender_json(*sender)->Object_0);
    JsonValue::Object(o)
}

/// The sender of a group message as OneBot writes it.
pub fn group_sender(sender: &Sender) -> (r: JsonValue)
    ensures
        r@ == group_sender_json(*sender),
{
    let mut o: Vec<(String, JsonValue)> = Vec::new();
    obj_push(&mut o, "age", JsonValue::Int(sender.age as i64));
    obj_push(&mut o, "area", jstr(sender.area.as_str()));
    obj_push(&mut o, "card", jstr(sender.card.as_str()));
    obj_push(&mut o, "level", jstr(sender.level.as_str()));
    obj_push(&mut o, "nickname", jstr(sender.nickname.as_str()));
    obj_push(&mut o, "role", jstr(empty_to_member(sender.role.as_str())));
    obj_push(&mut o, "sex", jstr(empty_to_unknown(sender.sex.as_str())));
    obj_push(&mut o, "title", jstr(sender.title.as_str()));
    obj_push(&mut o, "user_id", JsonValue::Int(sender.user_id));
    assert(json_entries(o@) =~= group_sender_json(*sender)->Object_0);
    JsonValue::Object(o)
}

/// The sender of a fetched message as a `get_msg` answer writes it.
pub fn build_get_msg_sender(sender: &Sender, message_type: &str) -> (r: JsonValue)
    ensures
        r@ == get_msg_sender_json(*sender, message_type@),
{
    let mut o: Vec<(String, JsonValue)> = Vec::new();
    if crate::text::str_eq(message_type, "group") {
        obj_push(&mut o, "age", JsonValue::Int(sender.age as i64));
        obj_push(&mut o, "area", jstr(sender.area.as_str()));
        obj_push(&mut o, "card", jstr(sender.card.as_str()));
        obj_push(&mut o, "level", jstr(sender.level.as_str()));
        obj_push(&mut o, "nickname", jstr(sender.nickname.as_str()));
        obj_push(&mut o, "role", jstr(sender.role.as_str()));
        obj_push(&mut o, "sex", jstr(sender.sex.as_str()));
        obj_push(&mut o, "title", jstr(sender.title.as_str()));
        obj_push(&mut o, "user_id", JsonValue::Int(sender.user_id));
    } else {
        obj_push(&mut o, "age", JsonValue::Int(sender.age as i64));
        obj_push(&mut o, "nickname", jstr(sender.nickname.as_str()));
        obj_push(&mut o, "sex", jstr(sender.sex.as_str()));
        obj_push(&mut o, "user_id", JsonValue::Int(sender.user_id));
    }
    assert(json_entries(o@) =~= get_msg_sender_json(*sender, message_type@)->Object_0);
    JsonValue::Object(o)
}

/// The message a reply segment points to, when it is a reply whose `id`
/// reads as an integer.
pub open spec fn reply_target(m: SegModel) -> Option<i64> {
    if m.0 == SegmentType::Reply {
        match dm_get(m.1, "id"@) {
            Some(t) => parse_i64_spec(t),
            None => None,
        }
    } else {
        None
    }
}

/// The cache after looking at one segment: a reply to a message the cache
/// holds refreshes it; a reply to one it does not hold caches a ref to it
/// in the current conversation; other segments change nothing.
pub open spec fn reply_step(
    s: Seq<(i64, MessageRefView)>,
    cap: nat,
    m: SegModel,
    message_type: Seq<char>,
    group_id: i64,
    user_id: i64,
) -> Seq<(i64, MessageRefView)> {
    match reply_target(m) {
        Some(id) => if lookup(s, id) is Some {
            lru_touch_spec(s, id)
        } else {
            lru_put_spec(
                s,
                cap,
                id,
                MessageRefView { onebot_id: id, milky_seq: id, message_type, group_id, user_id },
            )
        },
        None => s,
    }
}

/// The cache after looking at every segment in turn.
pub open spec fn register_replies_spec(
    s: Seq<(i64, MessageRefView)>,
    cap: nat,
    segs: Seq<SegModel>,
    message_type: Seq<char>,
    group_id: i64,
    user_id: i64,
) -> Seq<(i64, MessageRefView)>
    decreases segs.len(),
{
    if segs.len() == 0 {
        s
    } else {
        reply_step(
            register_replies_spec(s, cap, segs.drop_last(), message_type, group_id, user_id),
            cap,
            segs.last(),
            message_type,
            group_id,
            user_id,
        )
    }
}

/// Makes the messages that replies point to known to the cache, so that a
/// later `get_msg` or reply can find them.
pub fn register_reply_refs(
    messages: &mut MessageMap,
    segments: &[Segment],
    message_type: &str,
    group_id: i64,
    user_id: i64,
)
    requires
        old(messages).wf(),
    ensures
        final(messages).wf(),
        final(messages).capacity() == old(messages).capacity(),
        final(messages).entries() == register_replies_spec(
            old(messages).entries(),
            old(messages).capacity(),
            seg_models(segments@),
            message_type@,
            group_id,
            user_id,
        ),
{
    let ghost ms = seg_models(segments@);
    let ghost s0 = messages.entries();
    let ghost cap = messages.capacity();
    let mut i: usize = 0;
    assert(ms.take(0) =~= Seq::<SegModel>::empty());
    while i < segments.len()
        invariant
            i <= segments@.len(),
            ms == seg_models(segments@),
            ms.len() == segments@.len(),
            messages.wf(),
            messages.capacity() == cap,
            cap == old(messages).capacity(),
            s0 == old(messages).entries(),
            messages.entries() == register_replies_spec(
                s0,
                cap,
                ms.take(i as int),
                message_type@,
                group_id,
                user_id,
            ),
        decreases segments@.len() - i,
    {
        let seg = &segments[i];
        let ghost before = messages.entries();
        assert(ms[i as int] == (seg.kind, seg.data@));
        assert(ms.take(i + 1).drop_last() =~= ms.take(i as int));
        assert(ms.take(i + 1).last() == ms[i as int]);
        if seg.kind == SegmentType::Reply {
            match seg.data.get("id") {
                Some(id_str) => {
                    let cs = chars_of(id_str.as_str());
                    match parse_i64_chars(&cs) {
                        Some(id) => {
                            let found = messages.get(id);
                            if found.is_none() {
                                let r = MessageRef {
                                    onebot_id: id,
                                    milky_seq: id,
                                    message_type: String::from_str(message_type),
                                    group_id,
                                    user_id,
                                };
                                messages.put(r);
                            }
                        },
                        None => {},
                    }
                },
                None => {},
            }
        }
        i = i + 1;
    }
    assert(ms.take(segments@.len() as int) =~= ms);
}

/// A private message event.
pub open spec fn private_message_json(e: InboundEvent, time: i64, self_id: i64, message: Json, raw: Seq<char>) -> Json {
    Json::Object(
        seq![
            ("font"@, Json::Int(0)),
            ("message"@, message),
            ("message_id"@, Json::Int(e.message_id)),
            ("message_type"@, Json::Str("private"@)),
            ("post_type"@, Json::Str("message"@)),
            ("raw_message"@, Json::Str(raw)),
            ("self_id"@, Json::Int(self_id)),
            ("sender"@, private_sender_json(e.sender)),
            ("sub_type"@, Json::Str("friend"@)),
            ("time"@, Json::Int(time)),
            ("user_id"@, Json::Int(e.user_id)),
        ],
    )
}

/// A group message event.
pub open spec fn group_message_json(e: InboundEvent, time: i64, self_id: i64, message: Json, raw: Seq<char>) -> Json {
    Json::Object(
        seq![
            ("font"@, Json::Int(0)),
            ("group_id"@, Json::Int(e.group_id)),
            ("message"@, message),
            ("message_id"@, Json::Int(e.message_id)),
            ("message_type"@, Json::Str("group"@)),
            ("post_type"@, Json::Str("message"@)),
            ("raw_message"@, Json::Str(raw)),
            ("self_id"@, Json::Int(self_id)),
            ("sender"@, group_sender_json(e.sender)),
            ("sub_type"@, Json::Str("normal"@)),
            ("time"@, Json::Int(time)),
            ("user_id"@, Json::Int(e.user_id)),
        ],
    )
}

/// A poke notice; `group` tells a poke in a group, which names the group.
pub open spec fn poke_json(e: InboundEvent, time: i64, self_id: i64, group: bool) -> Json {
    let tail = seq![
        ("notice_type"@, Json::Str("notify"@)),
        ("post_type"@, Json::Str("notice"@)),
        ("self_id"@, Json::Int(self_id)),
        ("sub_type"@, Json::Str("poke"@)),
        ("target_id"@, Json::Int(e.target_id)),
        ("time"@, Json::Int(time)),
        ("user_id"@, Json::Int(e.user_id)),
    ];
    if group {
        Json::Object(seq![("group_id"@, Json::Int(e.group_id))] + tail)
    } else {
        Json::Object(tail)
    }
}

/// A friend request, answerable under `flag`.
pub open spec fn friend_request_json(e: InboundEvent, time: i64, self_id: i64, flag: Seq<char>) -> Json {
    Json::Object(
        seq![
            ("comment"@, Json::Str(e.comment@)),
            ("flag"@, Json::Str(flag)),
            ("post_type"@, Json::Str("request"@)),
            ("request_type"@, Json::Str("friend"@)),
            ("self_id"@, Json::Int(self_id)),
            ("time"@, Json::Int(time)),
            ("user_id"@, Json::Int(e.user_id)),
        ],
    )
}

/// A group invitation, answerable under `flag`.
pub open spec fn group_invite_json(e: InboundEvent, time: i64, self_id: i64, flag: Seq<char>) -> Json {
    Json::Object(
        seq![
            ("comment"@, Json::Str(e.comment@)),
            ("flag"@, Json::Str(flag)),
            ("group_id"@, Json::Int(e.group_id)),
            ("post_type"@, Json::Str("request"@)),
            ("request_type"@, Json::Str("group"@)),
            ("self_id"@, Json::Int(self_id)),
            ("sub_type"@, Json::Str("invite"@)),
            ("time"@, Json::Int(time)),
            ("user_id"@, Json::Int(e.user_id)),
        ],
    )
}

/// A recall of a private message.
pub open spec fn friend_recall_json(e: InboundEvent, time: i64, self_id: i64) -> Json {
    Json::Object(
        seq![
            ("message_id"@, Json::Int(e.message_id)),
            ("notice_type"@, Json::Str("friend_recall"@)),
            ("post_type"@, Json::Str("notice"@)),
            ("self_id"@, Json::Int(self_id)),
            ("time"@, Json::Int(time)),
            ("user_id"@, Json::Int(e.user_id)),
        ],
    )
}

/// A recall of a group message; its operator is reported as the user.
pub open spec fn group_recall_json(e: InboundEvent, time: i64, self_id: i64) -> Json {
    Json::Object(
        seq![
            ("group_id"@, Json::Int(e.group_id)),
            ("message_id"@, Json::Int(e.message_id)),
            ("notice_type"@, Json::Str("group_recall"@)),
            ("operator_id"@, Json::Int(e.user_id)),
            ("post_type"@, Json::Str("notice"@)),
            ("self_id"@, Json::Int(self_id)),
            ("time"@, Json::Int(time)),
            ("user_id"@, Json::Int(e.user_id)),
        ],
    )
}

/// Whether translating `e` stores a pending request.
pub open spec fn takes_request(e: InboundEvent) -> bool {
    (e.kind == EventKind::FriendRequest || e.kind == EventKind::GroupInvite) && e.request is Some
}

/// The OneBot event for `e` at `time`, given the flag its request would
/// be stored under; `None` for a request event that carries no request.
pub open spec fn event_json(e: InboundEvent, time: i64, self_id: i64, format: Seq<char>, flag: Seq<char>) -> Option<Json> {
    let built = build_message_spec(format, seg_models(e.segments@));
    match e.kind {
        EventKind::MessagePrivate => Some(private_message_json(e, time, self_id, built.0, built.1)),
        EventKind::MessageGroup => Some(group_message_json(e, time, self_id, built.0, built.1)),
        EventKind::PokePrivate => Some(poke_json(e, time, self_id, false)),
        EventKind::PokeGroup => Some(poke_json(e, time, self_id, true)),
        EventKind::FriendRequest => if e.request is Some {
            Some(friend_request_json(e, time, self_id, flag))
        } else {
            None
        },
        EventKind::GroupInvite => if e.request is Some {
            Some(group_invite_json(e, time, self_id, flag))
        } else {
            None
        },
        EventKind::RecallPrivate => Some(friend_recall_json(e, time, self_id)),
        EventKind::RecallGroup => Some(group_recall_json(e, time, self_id)),
    }
}

/// The message cache after translating `e`: a message caches a ref to
/// itself and then to the messages its replies point to.
pub open spec fn messages_after(e: InboundEvent, s: Seq<(i64, MessageRefView)>, cap: nat) -> Seq<(i64, MessageRefView)> {
    match e.kind {
        EventKind::MessagePrivate => register_replies_spec(
            lru_put_spec(
                s,
                cap,
                e.message_id,
                MessageRefView {
                    onebot_id: e.message_id,
                    milky_seq: e.message_id,
                    message_type: "private"@,
                    group_id: 0,
                    user_id: e.user_id,
                },
            ),
            cap,
            seg_models(e.segments@),
            "private"@,
            0,
            e.user_id,
        ),
        EventKind::MessageGroup => register_replies_spec(
            lru_put_spec(
                s,
                cap,
                e.message_id,
                MessageRefView {
                    onebot_id: e.message_id,
                    milky_seq: e.message_id,
                    message_type: "group"@,
                    group_id: e.group_id,
                    user_id: e.user_id,
                },
            ),
            cap,
            seg_models(e.segments@),
            "group"@,
            e.group_id,
            0,
        ),
        _ => s,
    }
}

/// The flag a request of `e` gets when `n` requests were stored before.
pub open spec fn next_flag(e: InboundEvent, n: nat) -> Seq<char> {
    match e.request {
        Some(r) => flag_of(r.kind@, n + 1),
        None => Seq::empty(),
    }
}

/// Translates an upstream event into its OneBot event at `time`, caching
/// message refs and storing a pending request under a new flag.
#[verifier::rlimit(40)]
pub fn translate_event_at(
    event: InboundEvent,
    time: i64,
    self_id: i64,
    message_format: &str,
    messages: &mut MessageMap,
    requests: &mut RequestMap,
) -> (r: Option<JsonValue>)
    requires
        old(messages).wf(),
        old(requests).wf(),
        takes_request(event) ==> old(requests).count() < u64::MAX,
    ensures
        opt_json(r) == event_json(
            event,
            time,
            self_id,
            message_format@,
            next_flag(event, old(requests).count()),
        ),
        final(messages).wf(),
        final(messages).capacity() == old(messages).capacity(),
        final(messages).entries() == messages_after(
            event,
            old(messages).entries(),
            old(messages).capacity(),
        ),
        final(requests).wf(),
        takes_request(event) ==> final(requests).count() == old(requests).count() + 1
            && final(requests).items() == old(requests).items().insert(
            next_flag(event, old(requests).count()),
            event.request->0,
        ),
        !takes_request(event) ==> *final(requests) == *old(requests),
{
    let ghost e = event;
    match event.kind {
        EventKind::MessagePrivate => {
            messages.put(
                MessageRef {
                    onebot_id: event.message_id,
                    milky_seq: event.message_id,
                    message_type: String::from_str("private"),
                    group_id: 0,
                    user_id: event.user_id,
                },
            );
            register_reply_refs(messages, event.segments.as_slice(), "private", 0, event.user_id);
            let (message, raw) = build_onebot_message(message_format, event.segments.as_slice());
            let ghost mj = message@;
            let ghost rw = raw@;
            let mut o: Vec<(String, JsonValue)> = Vec::new();
            obj_push(&mut o, "font", JsonValue::Int(0));
            obj_push(&mut o, "message", message);
            obj_push(&mut o, "message_id", JsonValue::Int(event.message_id));
            obj_push(&mut o, "message_type", jstr("private"));
            obj_push(&mut o, "post_type", jstr("message"));
            obj_push(&mut o, "raw_message", JsonValue::Str(raw));
            obj_push(&mut o, "self_id", JsonValue::Int(self_id));
            obj_push(&mut o, "sender", private_sender(&event.sender));
            obj_push(&mut o, "sub_type", jstr("friend"));
            obj_push(&mut o, "time", JsonValue::Int(time));
            obj_push(&mut o, "user_id", JsonValue::Int(event.user_id));
            assert(json_entries(o@) =~= private_message_json(e, time, self_id, mj, rw)->Object_0);
            Some(JsonValue::Object(o))
        },
        EventKind::MessageGroup => {
            messages.put(
                MessageRef {
                    onebot_id: event.message_id,
                    milky_seq: event.message_id,
                    message_type: String::from_str("group"),
                    group_id: event.group_id,
                    user_id: event.user_id,
                },
            );
            register_reply_refs(messages, event.segments.as_slice(), "group", event.group_id, 0);
            let (message, raw) = build_onebot_message(message_format, event.segments.as_slice());
            let ghost mj = message@;
            let ghost rw = raw@;
            let mut o: Vec<(String, JsonValue)> = Vec::new();
            obj_push(&mut o, "font", JsonValue::Int(0));
            obj_push(&mut o, "group_id", JsonValue::Int(event.group_id));
            obj_push(&mut o, "message", message);
            obj_push(&mut o, "message_id", JsonValue::Int(event.message_id));
            obj_push(&mut o, "message_type", jstr("group"));
            obj_push(&mut o, "post_type", jstr("message"));
            obj_push(&mut o, "raw_message", JsonValue::Str(raw));
            obj_push(&mut o, "self_id", JsonValue::Int(self_id));
            obj_push(&mut o, "sender", group_sender(&event.sender));
            obj_push(&mut o, "sub_type", jstr("normal"));
            obj_push(&mut o, "time", JsonValue::Int(time));
            obj_push(&mut o, "user_id", JsonValue::Int(event.user_id));
            assert(json_entries(o@) =~= group_message_json(e, time, self_id, mj, rw)->Object_0);
            Some(JsonValue::Object(o))
        },
        EventKind::PokePrivate | EventKind::PokeGroup => {
            let group = event.kind == EventKind::PokeGroup;
            let mut o: Vec<(String, JsonValue)> = Vec::new();
            if group {
                obj_push(&mut o, "group_id", JsonValue::Int(event.group_id));
            }
            obj_push(&mut o, "notice_type", jstr("notify"));
            obj_push(&mut o, "post_type", jstr("notice"));
            obj_push(&mut o, "self_id", JsonValue::Int(self_id));
            obj_push(&mut o, "sub_type", jstr("poke"));
            obj_push(&mut o, "target_id", JsonValue::Int(event.target_id));
            obj_push(&mut o, "time", JsonValue::Int(time));
            obj_push(&mut o, "user_id", JsonValue::Int(event.user_id));
            assert(json_entries(o@) =~= poke_json(e, time, self_id, group)->Object_0);
            Some(JsonValue::Object(o))
        },
        EventKind::FriendRequest | EventKind::GroupInvite => {
            let group = event.kind == EventKind::GroupInvite;
            let request = match event.request {
                Some(r) => r,
                None => {
                    return None;
                },
            };
            let flag = requests.put(request);
            let ghost fl = flag@;
            let mut o: Vec<(String, JsonValue)> = Vec::new();
            obj_push(&mut o, "comment", jstr(event.comment.as_str()));
            obj_push(&mut o, "flag", JsonValue::Str(flag));
            if group {
                obj_push(&mut o, "group_id", JsonValue::Int(event.group_id));
            }
            obj_push(&mut o, "post_type", jstr("request"));
            if group {
                obj_push(&mut o, "request_type", jstr("group"));
            } else {
                obj_push(&mut o, "request_type", jstr("friend"));
            }
            obj_push(&mut o, "self_id", JsonValue::Int(self_id));
            if group {
                obj_push(&mut o, "sub_type", jstr("invite"));
            }
            obj_push(&mut o, "time", JsonValue::Int(time));
            obj_push(&mut o, "user_id", JsonValue::Int(event.user_id));
            if group {
                assert(json_entries(o@) =~= group_invite_json(e, time, self_id, fl)->Object_0);
            } else {
                assert(json_entries(o@) =~= friend_request_json(e, time, self_id, fl)->Object_0);
            }
            Some(JsonValue::Object(o))
        },
        EventKind::RecallPrivate => {
            let mut o: Vec<(String, JsonValue)> = Vec::new();
            obj_push(&mut o, "message_id", JsonValue::Int(event.message_id));
            obj_push(&mut o, "notice_type", jstr("friend_recall"));
            obj_push(&mut o, "post_type", jstr("notice"));
            obj_push(&mut o, "self_id", JsonValue::Int(self_id));
            obj_push(&mut o, "time", JsonValue::Int(time));
            obj_push(&mut o, "user_id", JsonValue::Int(event.user_id));
            assert(json_entries(o@) =~= friend_recall_json(e, time, self_id)->Object_0);
            Some(JsonValue::Object(o))
        },
        EventKind::RecallGroup => {
            let mut o: Vec<(String, JsonValue)> = Vec::new();
            obj_push(&mut o, "group_id", JsonValue::Int(event.group_id));
            obj_push(&mut o, "message_id", JsonValue::Int(event.message_id));
            obj_push(&mut o, "notice_type", jstr("group_recall"));
            obj_push(&mut o, "operator_id", JsonValue::Int(event.user_id));
            obj_push(&mut o, "post_type", jstr("notice"));
            obj_push(&mut o, "self_id", JsonValue::Int(self_id));
            obj_push(&mut o, "time", JsonValue::Int(time));
            obj_push(&mut o, "user_id", JsonValue::Int(event.user_id));
            assert(json_entries(o@) =~= group_recall_json(e, time, self_id)->Object_0);
            Some(JsonValue::Object(o))
        },
    }
}

/// Translates an upstream event into its OneBot event, stamped with the
/// event's own time when it has one and the current time otherwise.
pub fn translate_event(
    event: InboundEvent,
    self_id: i64,
    message_format: &str,
    messages: &mut MessageMap,
    requests: &mut RequestMap,
) -> (r: Option<JsonValue>)
    requires
        old(messages).wf(),
        old(requests).wf(),
        takes_request(event) ==> old(requests).count() < u64::MAX,
    ensures
        exists|t: i64|
            (event.time > 0 ==> t == event.time) && opt_json(r) == event_json(
                event,
                t,
                self_id,
                message_format@,
                next_flag(event, old(requests).count()),
            ),
        final(messages).wf(),
        final(messages).capacity() == old(messages).capacity(),
        final(messages).entries() == messages_after(
            event,
            old(messages).entries(),
            old(messages).capacity(),
        ),
        final(requests).wf(),
        takes_request(event) ==> final(requests).count() == old(requests).count() + 1
            && final(requests).items() == old(requests).items().insert(
            next_flag(event, old(requests).count()),
            event.request->0,
        ),
        !takes_request(event) ==> *final(requests) == *old(requests),
{
    let time = choose_event_time(event.time);
    translate_event_at(event, time, self_id, message_format, messages, requests)
}

/// The ref an inbound message event is cached under.
pub open spec fn inbound_ref(e: InboundEvent) -> MessageRefView {
    if e.kind is MessageGroup {
        MessageRefView {
            onebot_id: e.message_id,
            milky_seq: e.message_id,
            message_type: "group"@,
            group_id: e.group_id,
            user_id: e.user_id,
        }
    } else {
        MessageRefView {
            onebot_id: e.message_id,
            milky_seq: e.message_id,
            message_type: "private"@,
            group_id: 0,
            user_id: e.user_id,
        }
    }
}

/// How many entries were used more recently than the one under `k`.
pub open spec fn recency(s: Seq<(i64, MessageRefView)>, k: i64) -> int {
    s.len() - 1 - key_pos(s, k)->0
}

/// One reply segment keeps an entry that is not about to be evicted, and
/// pushes it back by at most one place.
proof fn lemma_reply_step_keeps(
    s: Seq<(i64, MessageRefView)>,
    cap: nat,
    m: SegModel,
    message_type: Seq<char>,
    group_id: i64,
    user_id: i64,
    k: i64,
    v: MessageRefView,
)
    requires
        keys_unique(s),
        s.len() <= cap,
        cap >= 1,
        lookup(s, k) == Some(v),
        recency(s, k) + 1 < cap,
    ensures
        ({
            let t = reply_step(s, cap, m, message_type, group_id, user_id);
            &&& keys_unique(t)
            &&& t.len() <= cap
            &&& lookup(t, k) == Some(v)
            &&& recency(t, k) <= recency(s, k) + 1
        }),
{
    lemma_key_pos(s, k);
    let p = key_pos(s, k)->0;
    let t = reply_step(s, cap, m, message_type, group_id, user_id);
    match reply_target(m) {
        None => {},
        Some(id) => {
            lemma_key_pos(s, id);
            if lookup(s, id) is Some {
                lemma_touch_wf(s, id);
                let i2 = key_pos(s, id)->0;
                assert(t =~= s.remove(i2).push(s[i2]));
                if i2 == p {
                    lemma_unique_pos(t, k, t.len() - 1);
                } else if i2 < p {
                    assert(t[p - 1] == s[p]);
                    lemma_unique_pos(t, k, p - 1);
                } else {
                    assert(t[p] == s[p]);
                    lemma_unique_pos(t, k, p);
                }
            } else {
                let r = MessageRefView { onebot_id: id, milky_seq: id, message_type, group_id, user_id };
                lemma_put_wf(s, cap, id, r);
                if s.len() >= cap {
                    assert(t =~= s.drop_first().push((id, r)));
                    assert(t[p - 1] == s[p]);
                    lemma_unique_pos(t, k, p - 1);
                } else {
                    assert(t =~= s.push((id, r)));
                    assert(t[p] == s[p]);
                    lemma_unique_pos(t, k, p);
                }
            }
        },
    }
}

/// The reply segments of a message keep an entry that has room enough
/// before eviction.
proof fn lemma_replies_keep(
    s: Seq<(i64, MessageRefView)>,
    cap: nat,
    segs: Seq<SegModel>,
    message_type: Seq<char>,
    group_id: i64,
    user_id: i64,
    k: i64,
    v: MessageRefView,
)
    requires
        keys_unique(s),
        s.len() <= cap,
        cap >= 1,
        lookup(s, k) == Some(v),
        recency(s, k) + segs.len() < cap,
    ensures
        ({
            let t = register_replies_spec(s, cap, segs, message_type, group_id, user_id);
            &&& keys_unique(t)
            &&& t.len() <= cap
            &&& lookup(t, k) == Some(v)
            &&& recency(t, k) <= recency(s, k) + segs.len()
        }),
    decreases segs.len(),
{
    if segs.len() > 0 {
        lemma_replies_keep(s, cap, segs.drop_last(), message_type, group_id, user_id, k, v);
        let t0 = register_replies_spec(s, cap, segs.drop_last(), message_type, group_id, user_id);
        lemma_reply_step_keeps(t0, cap, segs.last(), message_type, group_id, user_id, k, v);
    }
}

/// A translated message is cached under its id: with fewer segments than
/// the cache has room for (each reply may cache one more message), the
/// cache holds the message's ref afterwards.
pub proof fn law_translated_message_cached(e: InboundEvent, s: Seq<(i64, MessageRefView)>, cap: nat)
    requires
        keys_unique(s),
        s.len() <= cap,
        cap >= 1,
        e.kind is MessagePrivate || e.kind is MessageGroup,
        e.segments@.len() < cap,
    ensures
        lookup(messages_after(e, s, cap), e.message_id) == Some(inbound_ref(e)),
{
    let r = inbound_ref(e);
    let s1 = lru_put_spec(s, cap, e.message_id, r);
    lemma_put_wf(s, cap, e.message_id, r);
    lemma_key_pos(s, e.message_id);
    assert(s1.last() == (e.message_id, r));
    lemma_unique_pos(s1, e.message_id, s1.len() - 1);
    let segs = seg_models(e.segments@);
    if e.kind is MessageGroup {
        lemma_replies_keep(s1, cap, segs, "group"@, e.group_id, 0, e.message_id, r);
    } else {
        lemma_replies_keep(s1, cap, segs, "private"@, 0, e.user_id, e.message_id, r);
    }
}

/// A request event is reported with the flag its request is stored under:
/// a `request` post (`friend`, or `group` for an invitation) carrying the
/// sender and comment, whose `flag` is the request's kind, `:`, and one
/// more than the number of requests stored before; the request map then
/// finds the request under that flag.
pub proof fn law_request_event_flag(
    e: InboundEvent,
    time: i64,
    self_id: i64,
    format: Seq<char>,
    items: Map<Seq<char>, RequestRef>,
    n: nat,
)
    requires
        takes_request(e),
    ensures
        next_flag(e, n) == flag_of(e.request->0.kind@, n + 1),
        event_json(e, time, self_id, format, next_flag(e, n)) matches Some(Json::Object(o)) && {
            &&& obj_get(o, "flag"@) == Some(Json::Str(next_flag(e, n)))
            &&& obj_get(o, "post_type"@) == Some(Json::Str("request"@))
            &&& obj_get(o, "request_type"@) == Some(
                Json::Str(
                    if e.kind is FriendRequest {
                        "friend"@
                    } else {
                        "group"@
                    },
                ),
            )
            &&& obj_get(o, "user_id"@) == Some(Json::Int(e.user_id))
            &&& obj_get(o, "comment"@) == Some(Json::Str(e.comment@))
            &&& obj_get(o, "self_id"@) == Some(Json::Int(self_id))
            &&& obj_get(o, "time"@) == Some(Json::Int(time))
            &&& obj_get(o, "group_id"@) == if e.kind is GroupInvite {
                Some(Json::Int(e.group_id))
            } else {
                None::<Json>
            }
        },
        items.insert(next_flag(e, n), e.request->0).dom().contains(next_flag(e, n)),
        items.insert(next_flag(e, n), e.request->0)[next_flag(e, n)] == e.request->0,
{
    lemma_event_keys();
    let flag = next_flag(e, n);
    if e.kind is FriendRequest {
        let o = friend_request_json(e, time, self_id, flag)->Object_0;
        lemma_obj_get_at(o, "comment"@, 0);
        lemma_obj_get_at(o, "flag"@, 1);
        lemma_obj_get_at(o, "post_type"@, 2);
        lemma_obj_get_at(o, "request_type"@, 3);
        lemma_obj_get_at(o, "user_id"@, 6);
        lemma_obj_get_at(o, "self_id"@, 4);
        lemma_obj_get_at(o, "time"@, 5);
        lemma_obj_get_none(o, "group_id"@);
    } else {
        let o = group_invite_json(e, time, self_id, flag)->Object_0;
        lemma_obj_get_at(o, "comment"@, 0);
        lemma_obj_get_at(o, "flag"@, 1);
        lemma_obj_get_at(o, "post_type"@, 3);
        lemma_obj_get_at(o, "request_type"@, 4);
        lemma_obj_get_at(o, "user_id"@, 8);
        lemma_obj_get_at(o, "group_id"@, 2);
        lemma_obj_get_at(o, "self_id"@, 5);
        lemma_obj_get_at(o, "time"@, 7);
    }
}

proof fn lemma_event_keys()
    ensures
        "font"@ == seq!['f', 'o', 'n', 't'],
        "age"@ == seq!['a', 'g', 'e'],
        "area"@ == seq!['a', 'r', 'e', 'a'],
        "card"@ == seq!['c', 'a', 'r', 'd'],
        "level"@ == seq!['l', 'e', 'v', 'e', 'l'],
        "nickname"@ == seq!['n', 'i', 'c', 'k', 'n', 'a', 'm', 'e'],
        "role"@ == seq!['r', 'o', 'l', 'e'],
        "sex"@ == seq!['s', 'e', 'x'],
        "title"@ == seq!['t', 'i', 't', 'l', 'e'],
        "comment"@ == seq!['c', 'o', 'm', 'm', 'e', 'n', 't'],
        "flag"@ == seq!['f', 'l', 'a', 'g'],
        "request_type"@ == seq!['r', 'e', 'q', 'u', 'e', 's', 't', '_', 't', 'y', 'p', 'e'],
        "group_id"@ == seq!['g', 'r', 'o', 'u', 'p', '_', 'i', 'd'],
        "message"@ == seq!['m', 'e', 's', 's', 'a', 'g', 'e'],
        "message_id"@ == seq!['m', 'e', 's', 's', 'a', 'g', 'e', '_', 'i', 'd'],
        "message_type"@ == seq!['m', 'e', 's', 's', 'a', 'g', 'e', '_', 't', 'y', 'p', 'e'],
        "notice_type"@ == seq!['n', 'o', 't', 'i', 'c', 'e', '_', 't', 'y', 'p', 'e'],
        "operator_id"@ == seq!['o', 'p', 'e', 'r', 'a', 't', 'o', 'r', '_', 'i', 'd'],
        "post_type"@ == seq!['p', 'o', 's', 't', '_', 't', 'y', 'p', 'e'],
        "raw_message"@ == seq!['r', 'a', 'w', '_', 'm', 'e', 's', 's', 'a', 'g', 'e'],
        "self_id"@ == seq!['s', 'e', 'l', 'f', '_', 'i', 'd'],
        "sender"@ == seq!['s', 'e', 'n', 'd', 'e', 'r'],
        "sub_type"@ == seq!['s', 'u', 'b', '_', 't', 'y', 'p', 'e'],
        "target_id"@ == seq!['t', 'a', 'r', 'g', 'e', 't', '_', 'i', 'd'],
        "time"@ == seq!['t', 'i', 'm', 'e'],
        "user_id"@ == seq!['u', 's', 'e', 'r', '_', 'i', 'd'],
{
    reveal_strlit("font");
    reveal_strlit("age");
    reveal_strlit("area");
    reveal_strlit("card");
    reveal_strlit("level");
    reveal_strlit("nickname");
    reveal_strlit("role");
    reveal_strlit("sex");
    reveal_strlit("title");
    reveal_strlit("comment");
    reveal_strlit("flag");
    reveal_strlit("request_type");
    reveal_strlit("group_id");
    reveal_strlit("message");
    reveal_strlit("message_id");
    reveal_strlit("message_type");
    reveal_strlit("notice_type");
    reveal_strlit("operator_id");
    reveal_strlit("post_type");
    reveal_strlit("raw_message");
    reveal_strlit("self_id");
    reveal_strlit("sender");
    reveal_strlit("sub_type");
    reveal_strlit("target_id");
    reveal_strlit("time");
    reveal_strlit("user_id");
}

/// A translated message event reports the message's own ids: a `message`
/// post of type `private` or `group`, with the event's message id, sender
/// id and (for a group) group id, the bot's id, the time given, and the
/// message in the configured format with its raw CQ text.
pub proof fn law_message_event_fields(e: InboundEvent, time: i64, self_id: i64, format: Seq<char>, flag: Seq<char>)
    requires
        e.kind is MessagePrivate || e.kind is MessageGroup,
    ensures
        event_json(e, time, self_id, format, flag) matches Some(Json::Object(o)) && {
            let built = build_message_spec(format, seg_models(e.segments@));
            &&& obj_get(o, "post_type"@) == Some(Json::Str("message"@))
            &&& obj_get(o, "message_type"@) == Some(
                Json::Str(
                    if e.kind is MessageGroup {
                        "group"@
                    } else {
                        "private"@
                    },
                ),
            )
            &&& obj_get(o, "message_id"@) == Some(Json::Int(e.message_id))
            &&& obj_get(o, "user_id"@) == Some(Json::Int(e.user_id))
            &&& obj_get(o, "self_id"@) == Some(Json::Int(self_id))
            &&& obj_get(o, "time"@) == Some(Json::Int(time))
            &&& obj_get(o, "group_id"@) == if e.kind is MessageGroup {
                Some(Json::Int(e.group_id))
            } else {
                None::<Json>
            }
            &&& obj_get(o, "message"@) == Some(built.0)
            &&& obj_get(o, "raw_message"@) == Some(Json::Str(built.1))
        },
{
    lemma_event_keys();
    let built = build_message_spec(format, seg_models(e.segments@));
    if e.kind is MessageGroup {
        let o = group_message_json(e, time, self_id, built.0, built.1)->Object_0;
        lemma_obj_get_at(o, "group_id"@, 1);
        lemma_obj_get_at(o, "message"@, 2);
        lemma_obj_get_at(o, "message_id"@, 3);
        lemma_obj_get_at(o, "message_type"@, 4);
        lemma_obj_get_at(o, "post_type"@, 5);
        lemma_obj_get_at(o, "raw_message"@, 6);
        lemma_obj_get_at(o, "self_id"@, 7);
        lemma_obj_get_at(o, "time"@, 10);
        lemma_obj_get_at(o, "user_id"@, 11);
    } else {
        let o = private_message_json(e, time, self_id, built.0, built.1)->Object_0;
        lemma_obj_get_none(o, "group_id"@);
        lemma_obj_get_at(o, "message"@, 1);
        lemma_obj_get_at(o, "message_id"@, 2);
        lemma_obj_get_at(o, "message_type"@, 3);
        lemma_obj_get_at(o, "post_type"@, 4);
        lemma_obj_get_at(o, "raw_message"@, 5);
        lemma_obj_get_at(o, "self_id"@, 6);
        lemma_obj_get_at(o, "time"@, 9);
        lemma_obj_get_at(o, "user_id"@, 10);
    }
}

/// A translated poke or recall notice reports the event's own ids: pokes
/// as `notify`/`poke` notices with the poker and the poked user (and the
/// group for a group poke), recalls as `friend_recall` or `group_recall`
/// notices with the recalled message's id and its sender, who is also the
/// operator of a group recall.
pub proof fn law_notice_event_fields(e: InboundEvent, time: i64, self_id: i64, format: Seq<char>, flag: Seq<char>)
    requires
        e.kind is PokePrivate || e.kind is PokeGroup || e.kind is RecallPrivate || e.kind is RecallGroup,
    ensures
        event_json(e, time, self_id, format, flag) matches Some(Json::Object(o)) && {
            let group = e.kind is PokeGroup || e.kind is RecallGroup;
            let poke = e.kind is PokePrivate || e.kind is PokeGroup;
            &&& obj_get(o, "post_type"@) == Some(Json::Str("notice"@))
            &&& obj_get(o, "user_id"@) == Some(Json::Int(e.user_id))
            &&& obj_get(o, "self_id"@) == Some(Json::Int(self_id))
            &&& obj_get(o, "time"@) == Some(Json::Int(time))
            &&& obj_get(o, "group_id"@) == if group {
                Some(Json::Int(e.group_id))
            } else {
                None::<Json>
            }
            &&& poke ==> obj_get(o, "notice_type"@) == Some(Json::Str("notify"@)) && obj_get(
                o,
                "sub_type"@,
            ) == Some(Json::Str("poke"@)) && obj_get(o, "target_id"@) == Some(
                Json::Int(e.target_id),
            )
            &&& !poke ==> obj_get(o, "message_id"@) == Some(Json::Int(e.message_id)) && obj_get(
                o,
                "notice_type"@,
            ) == Some(
                Json::Str(
                    if group {
                        "group_recall"@
                    } else {
                        "friend_recall"@
                    },
                ),
            ) && obj_get(o, "operator_id"@) == if group {
                Some(Json::Int(e.user_id))
            } else {
                None::<Json>
            }
        },
{
    lemma_event_keys();
    if e.kind is PokePrivate || e.kind is PokeGroup {
        let g = e.kind is PokeGroup;
        let tail = seq![
            ("notice_type"@, Json::Str("notify"@)),
            ("post_type"@, Json::Str("notice"@)),
            ("self_id"@, Json::Int(self_id)),
            ("sub_type"@, Json::Str("poke"@)),
            ("target_id"@, Json::Int(e.target_id)),
            ("time"@, Json::Int(time)),
            ("user_id"@, Json::Int(e.user_id)),
        ];
        let o = poke_json(e, time, self_id, g)->Object_0;
        let d: int = if g { 1 } else { 0 };
        if g {
            assert(o == seq![("group_id"@, Json::Int(e.group_id))] + tail);
            lemma_obj_get_at(o, "group_id"@, 0);
        } else {
            lemma_obj_get_none(o, "group_id"@);
        }
        lemma_obj_get_at(o, "notice_type"@, d);
        lemma_obj_get_at(o, "post_type"@, d + 1);
        lemma_obj_get_at(o, "self_id"@, d + 2);
        lemma_obj_get_at(o, "sub_type"@, d + 3);
        lemma_obj_get_at(o, "target_id"@, d + 4);
        lemma_obj_get_at(o, "time"@, d + 5);
        lemma_obj_get_at(o, "user_id"@, d + 6);
    } else if e.kind is RecallGroup {
        let o = group_recall_json(e, time, self_id)->Object_0;
        lemma_obj_get_at(o, "group_id"@, 0);
        lemma_obj_get_at(o, "message_id"@, 1);
        lemma_obj_get_at(o, "notice_type"@, 2);
        lemma_obj_get_at(o, "operator_id"@, 3);
        lemma_obj_get_at(o, "post_type"@, 4);
        lemma_obj_get_at(o, "self_id"@, 5);
        lemma_obj_get_at(o, "time"@, 6);
        lemma_obj_get_at(o, "user_id"@, 7);
    } else {
        let o = friend_recall_json(e, time, self_id)->Object_0;
        lemma_obj_get_none(o, "group_id"@);
        lemma_obj_get_none(o, "operator_id"@);
        lemma_obj_get_at(o, "message_id"@, 0);
        lemma_obj_get_at(o, "notice_type"@, 1);
        lemma_obj_get_at(o, "post_type"@, 2);
        lemma_obj_get_at(o, "self_id"@, 3);
        lemma_obj_get_at(o, "time"@, 4);
        lemma_obj_get_at(o, "user_id"@, 5);
    }
}

/// The `sender` of a translated message carries the sender's own fields:
/// its id, nickname and age, its sex (`unknown` when empty), and for a
/// group message its card, area, level, title and role (`member` when
/// empty).
pub proof fn law_sender_fields(s: Sender)
    ensures
        private_sender_json(s) is Object,
        group_sender_json(s) is Object,
        ({
            let p = private_sender_json(s)->Object_0;
            let g = group_sender_json(s)->Object_0;
            let sex = if s.sex@.len() == 0 {
                "unknown"@
            } else {
                s.sex@
            };
            &&& obj_get(p, "user_id"@) == Some(Json::Int(s.user_id))
            &&& obj_get(p, "nickname"@) == Some(Json::Str(s.nickname@))
            &&& obj_get(p, "age"@) == Some(Json::Int(s.age as i64))
            &&& obj_get(p, "sex"@) == Some(Json::Str(sex))
            &&& obj_get(g, "user_id"@) == Some(Json::Int(s.user_id))
            &&& obj_get(g, "nickname"@) == Some(Json::Str(s.nickname@))
            &&& obj_get(g, "age"@) == Some(Json::Int(s.age as i64))
            &&& obj_get(g, "sex"@) == Some(Json::Str(sex))
            &&& obj_get(g, "area"@) == Some(Json::Str(s.area@))
            &&& obj_get(g, "card"@) == Some(Json::Str(s.card@))
            &&& obj_get(g, "level"@) == Some(Json::Str(s.level@))
            &&& obj_get(g, "title"@) == Some(Json::Str(s.title@))
            &&& obj_get(g, "role"@) == Some(
                Json::Str(
                    if s.role@.len() == 0 {
                        "member"@
                    } else {
                        s.role@
                    },
                ),
            )
        }),
{
    lemma_event_keys();
    let p = private_sender_json(s)->Object_0;
    let g = group_sender_json(s)->Object_0;
    lemma_obj_get_at(p, "age"@, 0);
    lemma_obj_get_at(p, "nickname"@, 1);
    lemma_obj_get_at(p, "sex"@, 2);
    lemma_obj_get_at(p, "user_id"@, 3);
    lemma_obj_get_at(g, "age"@, 0);
    lemma_obj_get_at(g, "area"@, 1);
    lemma_obj_get_at(g, "card"@, 2);
    lemma_obj_get_at(g, "level"@, 3);
    lemma_obj_get_at(g, "nickname"@, 4);
    lemma_obj_get_at(g, "role"@, 5);
    lemma_obj_get_at(g, "sex"@, 6);
    lemma_obj_get_at(g, "title"@, 7);
    lemma_obj_get_at(g, "user_id"@, 8);
}

} // verus!
