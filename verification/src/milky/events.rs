use vstd::prelude::*;

use crate::bridge::message_ir::raws_empty;
use crate::milky::model::{
    Event, EventKind as MilkyKind, FriendMessage, GroupMessage, GroupRole, IncomingMessage,
    MessageEvent, MessageScene, Sex,
};
use crate::milky::segments::{from_incoming, incoming_models};
use crate::text::{chars_of, i64_to_string, int_text, parse_i64_chars, parse_i64_spec};
use crate::types::{
    EventKind, InboundEvent, InboundView, RequestRef, RequestRefView, Sender, SenderView,
};

verus! {

/// A sex in lower case, as the bridge writes it.
pub open spec fn sex_name(s: Sex) -> Seq<char> {
    match s {
        Sex::Male => "male"@,
        Sex::Female => "female"@,
        Sex::Unknown => "unknown"@,
    }
}

/// A group role in lower case, as the bridge writes it.
pub open spec fn role_name(r: GroupRole) -> Seq<char> {
    match r {
        GroupRole::Owner => "owner"@,
        GroupRole::Admin => "admin"@,
        GroupRole::Member => "member"@,
    }
}

/// `male`, `female` or `unknown`.
pub fn sex_text(s: Sex) -> (r: String)
    ensures
        r@ == sex_name(s),
{
    match s {
        Sex::Male => String::from_str("male"),
        Sex::Female => String::from_str("female"),
        Sex::Unknown => String::from_str("unknown"),
    }
}

/// `owner`, `admin` or `member`.
pub fn role_text(r: GroupRole) -> (s: String)
    ensures
        s@ == role_name(r),
{
    match r {
        GroupRole::Owner => String::from_str("owner"),
        GroupRole::Admin => String::from_str("admin"),
        GroupRole::Member => String::from_str("member"),
    }
}

/// A sender with every field zero or empty.
pub open spec fn blank_sender() -> SenderView {
    SenderView {
        user_id: 0,
        nickname: Seq::empty(),
        card: Seq::empty(),
        sex: Seq::empty(),
        age: 0,
        area: Seq::empty(),
        level: Seq::empty(),
        role: Seq::empty(),
        title: Seq::empty(),
    }
}

/// An event of `kind` with every other field zero or empty.
pub open spec fn blank_event(kind: EventKind) -> InboundView {
    InboundView {
        kind,
        time: 0,
        message_id: 0,
        group_id: 0,
        user_id: 0,
        target_id: 0,
        segments: Seq::empty(),
        sender: blank_sender(),
        comment: Seq::empty(),
        request: None,
    }
}

/// An inbound event of `kind` with every other field zero or empty.
pub fn empty_event(kind: EventKind) -> (r: InboundEvent)
    ensures
        r@ == blank_event(kind),
        raws_empty(r.segments@),
{
    let r = InboundEvent {
        kind,
        time: 0,
        message_id: 0,
        group_id: 0,
        user_id: 0,
        target_id: 0,
        segments: Vec::new(),
        sender: Sender::default(),
        comment: String::new(),
        request: None,
    };
    assert(r@.segments =~= Seq::<(crate::types::SegmentType, crate::datamap::Entries)>::empty());
    assert(r.sender.nickname@ =~= Seq::<char>::empty());
    assert(r.sender.card@ =~= Seq::<char>::empty());
    assert(r.sender.sex@ =~= Seq::<char>::empty());
    assert(r.sender.area@ =~= Seq::<char>::empty());
    assert(r.sender.level@ =~= Seq::<char>::empty());
    assert(r.sender.role@ =~= Seq::<char>::empty());
    assert(r.sender.title@ =~= Seq::<char>::empty());
    r
}

/// The bridge event for a private message.
pub open spec fn friend_message_view(m: FriendMessage) -> InboundView {
    InboundView {
        kind: EventKind::MessagePrivate,
        time: m.message.time,
        message_id: m.message.message_seq,
        group_id: 0,
        user_id: m.message.sender_id,
        target_id: 0,
        segments: incoming_models(m.message.segments@),
        sender: SenderView {
            user_id: m.message.sender_id,
            nickname: m.friend.nickname@,
            sex: sex_name(m.friend.sex),
            ..blank_sender()
        },
        comment: Seq::empty(),
        request: None,
    }
}

/// The bridge event for a group message; the group's id falls back to the
/// message's peer when the group record has none.
pub open spec fn group_message_view(m: GroupMessage) -> InboundView {
    InboundView {
        kind: EventKind::MessageGroup,
        time: m.message.time,
        message_id: m.message.message_seq,
        group_id: if m.group.group_id != 0 {
            m.group.group_id
        } else {
            m.message.peer_id
        },
        user_id: m.message.sender_id,
        target_id: 0,
        segments: incoming_models(m.message.segments@),
        sender: SenderView {
            user_id: m.group_member.user_id,
            nickname: m.group_member.nickname@,
            card: m.group_member.card@,
            sex: sex_name(m.group_member.sex),
            level: int_text(m.group_member.level as int),
            role: role_name(m.group_member.role),
            title: m.group_member.title@,
            ..blank_sender()
        },
        comment: Seq::empty(),
        request: None,
    }
}

/// The bridge event for a fetched message of the given kind; only a group
/// message names its group (the message's peer).
pub open spec fn fetched_message_view(msg: IncomingMessage, kind: EventKind) -> InboundView {
    InboundView {
        kind,
        time: msg.time,
        message_id: msg.message_seq,
        group_id: if kind == EventKind::MessageGroup {
            msg.peer_id
        } else {
            0
        },
        user_id: msg.sender_id,
        target_id: 0,
        segments: incoming_models(msg.segments@),
        sender: blank_sender(),
        comment: Seq::empty(),
        request: None,
    }
}

/// The bridge event for a Milky event, or `None` for the events the bridge
/// ignores (temporary-session messages and recalls, and every kind it does
/// not read).
pub open spec fn milky_event_view(ev: Event, self_id: i64) -> Option<InboundView> {
    match ev.kind {
        MilkyKind::MessageReceive { message } => match message {
            MessageEvent::Friend(m) => Some(friend_message_view(m)),
            MessageEvent::Group(m) => Some(group_message_view(m)),
            MessageEvent::Temp => None,
        },
        MilkyKind::FriendRequest { initiator_id, initiator_uid, comment } => Some(
            InboundView {
                user_id: match parse_i64_spec(initiator_id@) {
                    Some(n) => n,
                    None => 0,
                },
                comment: comment@,
                request: Some(
                    RequestRefView {
                        kind: "friend"@,
                        initiator_uid,
                        group_id: 0,
                        invitation_seq: 0,
                    },
                ),
                ..blank_event(EventKind::FriendRequest)
            },
        ),
        MilkyKind::GroupInvitation { group_id, invitation_seq, initiator_id } => Some(
            InboundView {
                group_id,
                user_id: initiator_id,
                request: Some(
                    RequestRefView { kind: "group"@, initiator_uid: 0, group_id, invitation_seq },
                ),
                ..blank_event(EventKind::GroupInvite)
            },
        ),
        MilkyKind::FriendNudge { user_id, is_self_receive } => Some(
            InboundView {
                user_id,
                target_id: if is_self_receive {
                    user_id
                } else {
                    self_id
                },
                ..blank_event(EventKind::PokePrivate)
            },
        ),
        MilkyKind::GroupNudge { group_id, sender_id, receiver_id } => Some(
            InboundView {
                group_id,
                user_id: sender_id,
                target_id: receiver_id,
                ..blank_event(EventKind::PokeGroup)
            },
        ),
        MilkyKind::MessageRecall { message_scene, peer_id, message_seq, sender_id } => match message_scene {
            MessageScene::Group => Some(
                InboundView {
                    message_id: message_seq,
                    group_id: peer_id,
                    user_id: sender_id,
                    ..blank_event(EventKind::RecallGroup)
                },
            ),
            MessageScene::Friend => Some(
                InboundView {
                    message_id: message_seq,
                    user_id: sender_id,
                    ..blank_event(EventKind::RecallPrivate)
                },
            ),
            MessageScene::Temp => None,
        },
        MilkyKind::Other => None,
    }
}

/// The bridge event for a private message.
pub fn from_friend_message(m: FriendMessage) -> (r: InboundEvent)
    ensures
        r@ == friend_message_view(m),
        raws_empty(r.segments@),
{
    let ghost mv = friend_message_view(m);
    let mut r = empty_event(EventKind::MessagePrivate);
    r.time = m.message.time;
    r.message_id = m.message.message_seq;
    r.user_id = m.message.sender_id;
    r.sender.user_id = m.message.sender_id;
    r.sender.sex = sex_text(m.friend.sex);
    r.sender.nickname = m.friend.nickname;
    r.segments = from_incoming(m.message.segments);
    assert(r@ == mv);
    r
}

/// The bridge event for a group message.
pub fn from_group_message(m: GroupMessage) -> (r: InboundEvent)
    ensures
        r@ == group_message_view(m),
        raws_empty(r.segments@),
{
    let ghost mv = group_message_view(m);
    let mut r = empty_event(EventKind::MessageGroup);
    r.time = m.message.time;
    r.message_id = m.message.message_seq;
    r.group_id = if m.group.group_id != 0 {
        m.group.group_id
    } else {
        m.message.peer_id
    };
    r.user_id = m.message.sender_id;
    r.sender.user_id = m.group_member.user_id;
    r.sender.sex = sex_text(m.group_member.sex);
    r.sender.level = i64_to_string(m.group_member.level as i64);
    r.sender.role = role_text(m.group_member.role);
    r.sender.nickname = m.group_member.nickname;
    r.sender.card = m.group_member.card;
    r.sender.title = m.group_member.title;
    r.segments = from_incoming(m.message.segments);
    assert(r@ == mv);
    r
}

/// The bridge event for a message fetched upstream, as `kind`.
pub fn from_incoming_message(msg: IncomingMessage, fallback_kind: EventKind) -> (r: InboundEvent)
    ensures
        r@ == fetched_message_view(msg, fallback_kind),
        raws_empty(r.segments@),
{
    let ghost mv = fetched_message_view(msg, fallback_kind);
    let mut r = empty_event(fallback_kind);
    r.time = msg.time;
    r.message_id = msg.message_seq;
    r.group_id = if fallback_kind == EventKind::MessageGroup {
        msg.peer_id
    } else {
        0
    };
    r.user_id = msg.sender_id;
    r.segments = from_incoming(msg.segments);
    assert(r@ == mv);
    r
}

/// Translates a Milky event into the bridge's inbound event, or `None` for
/// the events the bridge ignores; `self_id` is the bot's own id, the
/// target of a friend's poke that the bot did not receive itself.
pub fn translate_event(ev: Event, self_id: i64) -> (r: Option<InboundEvent>)
    ensures
        match r {
            Some(e) => milky_event_view(ev, self_id) == Some(e@) && raws_empty(e.segments@),
            None => milky_event_view(ev, self_id) is None,
        },
{
    let ghost evv = ev;
    match ev.kind {
        MilkyKind::MessageReceive { message } => match message {
            MessageEvent::Friend(m) => Some(from_friend_message(m)),
            MessageEvent::Group(m) => Some(from_group_message(m)),
            MessageEvent::Temp => None,
        },
        MilkyKind::FriendRequest { initiator_id, initiator_uid, comment } => {
            let mut r = empty_event(EventKind::FriendRequest);
            r.user_id = match parse_i64_chars(&chars_of(initiator_id.as_str())) {
                Some(n) => n,
                None => 0,
            };
            r.comment = comment;
            r.request = Some(
                RequestRef {
                    kind: String::from_str("friend"),
                    initiator_uid,
                    group_id: 0,
                    invitation_seq: 0,
                },
            );
            assert(milky_event_view(evv, self_id) == Some(r@));
            Some(r)
        },
        MilkyKind::GroupInvitation { group_id, invitation_seq, initiator_id } => {
            let mut r = empty_event(EventKind::GroupInvite);
            r.group_id = group_id;
            r.user_id = initiator_id;
            r.request = Some(
                RequestRef {
                    kind: String::from_str("group"),
                    initiator_uid: 0,
                    group_id,
                    invitation_seq,
                },
            );
            assert(milky_event_view(evv, self_id) == Some(r@));
            Some(r)
        },
        MilkyKind::FriendNudge { user_id, is_self_receive } => {
            let mut r = empty_event(EventKind::PokePrivate);
            r.user_id = user_id;
            r.target_id = if is_self_receive {
                user_id
            } else {
                self_id
            };
            assert(milky_event_view(evv, self_id) == Some(r@));
            Some(r)
        },
        MilkyKind::GroupNudge { group_id, sender_id, receiver_id } => {
            let mut r = empty_event(EventKind::PokeGroup);
            r.group_id = group_id;
            r.user_id = sender_id;
            r.target_id = receiver_id;
            assert(milky_event_view(evv, self_id) == Some(r@));
            Some(r)
        },
        MilkyKind::MessageRecall { message_scene, peer_id, message_seq, sender_id } => {
            match message_scene {
                MessageScene::Group => {
                    let mut r = empty_event(EventKind::RecallGroup);
                    r.message_id = message_seq;
                    r.group_id = peer_id;
                    r.user_id = sender_id;
                    assert(milky_event_view(evv, self_id) == Some(r@));
                    Some(r)
                },
                MessageScene::Friend => {
                    let mut r = empty_event(EventKind::RecallPrivate);
                    r.message_id = message_seq;
                    r.user_id = sender_id;
                    assert(milky_event_view(evv, self_id) == Some(r@));
                    Some(r)
                },
                MessageScene::Temp => None,
            }
        },
        MilkyKind::Other => None,
    }
}

/// A Milky event becomes the bridge event that carries its own fields:
/// - a friend request: its initiator (read as a number, 0 when it is not
///   one) as the user, its comment, and a `friend` request with the
///   initiator's uid;
/// - a group invitation: its group, its initiator as the user, and a
///   `group` request with the group and the invitation's number;
/// - a friend nudge: the nudging user, who nudged the bot unless the bot
///   itself received it; a group nudge: its group, sender and receiver;
/// - a recall: the recalled message's number and sender, and for a group
///   its peer as the group;
/// - a friend or group message: the message's number, time, sender and
///   segments, and for a group its group (the message's peer when the
///   group record has no id).
/// Temporary-session messages and recalls and all other kinds give none.
pub proof fn law_milky_event_fields(ev: Event, self_id: i64)
    ensures
        match ev.kind {
            MilkyKind::FriendRequest { initiator_id, initiator_uid, comment } => milky_event_view(
                ev,
                self_id,
            ) matches Some(v) && v.kind == EventKind::FriendRequest && v.comment == comment@
                && v.user_id == (match parse_i64_spec(initiator_id@) {
                Some(n) => n,
                None => 0,
            }) && v.request == Some(
                RequestRefView { kind: "friend"@, initiator_uid, group_id: 0, invitation_seq: 0 },
            ) && v.group_id == 0,
            MilkyKind::GroupInvitation { group_id, invitation_seq, initiator_id } => milky_event_view(
                ev,
                self_id,
            ) matches Some(v) && v.kind == EventKind::GroupInvite && v.group_id == group_id
                && v.user_id == initiator_id && v.request == Some(
                RequestRefView { kind: "group"@, initiator_uid: 0, group_id, invitation_seq },
            ) && v.comment.len() == 0,
            MilkyKind::FriendNudge { user_id, is_self_receive } => milky_event_view(
                ev,
                self_id,
            ) matches Some(v) && v.kind == EventKind::PokePrivate && v.user_id == user_id
                && v.target_id == (if is_self_receive {
                user_id
            } else {
                self_id
            }) && v.group_id == 0,
            MilkyKind::GroupNudge { group_id, sender_id, receiver_id } => milky_event_view(
                ev,
                self_id,
            ) matches Some(v) && v.kind == EventKind::PokeGroup && v.group_id == group_id
                && v.user_id == sender_id && v.target_id == receiver_id,
            MilkyKind::MessageRecall { message_scene, peer_id, message_seq, sender_id } => match message_scene {
                MessageScene::Group => milky_event_view(ev, self_id) matches Some(v) && v.kind
                    == EventKind::RecallGroup && v.message_id == message_seq && v.group_id == peer_id
                    && v.user_id == sender_id,
                MessageScene::Friend => milky_event_view(ev, self_id) matches Some(v) && v.kind
                    == EventKind::RecallPrivate && v.message_id == message_seq && v.group_id == 0
                    && v.user_id == sender_id,
                MessageScene::Temp => milky_event_view(ev, self_id) is None,
            },
            MilkyKind::MessageReceive { message } => match message {
                MessageEvent::Friend(m) => milky_event_view(ev, self_id) matches Some(v) && v.kind
                    == EventKind::MessagePrivate && v.message_id == m.message.message_seq && v.time
                    == m.message.time && v.user_id == m.message.sender_id && v.group_id == 0
                    && v.sender.user_id == m.message.sender_id && v.sender.nickname
                    == m.friend.nickname@ && v.sender.sex == sex_name(m.friend.sex) && v.segments
                    == incoming_models(m.message.segments@),
                MessageEvent::Group(m) => milky_event_view(ev, self_id) matches Some(v) && v.kind
                    == EventKind::MessageGroup && v.message_id == m.message.message_seq && v.time
                    == m.message.time && v.user_id == m.message.sender_id && v.group_id == (if m.group.group_id != 0 {
                    m.group.group_id
                } else {
                    m.message.peer_id
                }) && v.sender.user_id == m.group_member.user_id && v.sender.nickname
                    == m.group_member.nickname@ && v.sender.card == m.group_member.card@
                    && v.sender.title == m.group_member.title@ && v.sender.level == int_text(
                    m.group_member.level as int,
                ) && v.sender.sex == sex_name(m.group_member.sex) && v.sender.role == role_name(
                    m.group_member.role,
                ) && v.segments == incoming_models(m.message.segments@),
                MessageEvent::Temp => milky_event_view(ev, self_id) is None,
            },
            MilkyKind::Other => milky_event_view(ev, self_id) is None,
        },
{
}

/// Sexes and roles are written as their names in lower case, each kind
/// under its own name.
pub proof fn law_sex_and_role_names()
    ensures
        sex_name(Sex::Male) == seq!['m', 'a', 'l', 'e'],
        sex_name(Sex::Female) == seq!['f', 'e', 'm', 'a', 'l', 'e'],
        sex_name(Sex::Unknown) == seq!['u', 'n', 'k', 'n', 'o', 'w', 'n'],
        role_name(GroupRole::Owner) == seq!['o', 'w', 'n', 'e', 'r'],
        role_name(GroupRole::Admin) == seq!['a', 'd', 'm', 'i', 'n'],
        role_name(GroupRole::Member) == seq!['m', 'e', 'm', 'b', 'e', 'r'],
{
    reveal_strlit("male");
    reveal_strlit("female");
    reveal_strlit("unknown");
    reveal_strlit("owner");
    reveal_strlit("admin");
    reveal_strlit("member");
}

/// A fetched message reads back with its own number, time, sender and
/// segments, as the kind it was asked for; as a group message its peer is
/// its group, otherwise it names no group.
pub proof fn law_fetched_message_fields(msg: IncomingMessage, kind: EventKind)
    ensures
        fetched_message_view(msg, kind).kind == kind,
        fetched_message_view(msg, kind).message_id == msg.message_seq,
        fetched_message_view(msg, kind).time == msg.time,
        fetched_message_view(msg, kind).user_id == msg.sender_id,
        fetched_message_view(msg, kind).segments == incoming_models(msg.segments@),
        fetched_message_view(msg, kind).group_id == if kind == EventKind::MessageGroup {
            msg.peer_id
        } else {
            0
        },
{
}

} // verus!
