use vstd::prelude::*;

use crate::milky::events::{role_name, role_text, sex_name, sex_text};
use crate::milky::model::{GroupMember, MessageScene};
use crate::text::{i64_to_string, int_text};
use crate::types::{EventKind, GroupMemberInfo, MessageRef, RequestRef};

verus! {

/// The token to open the upstream connection with: none when it is empty.
pub fn upstream_token(token: &str) -> (r: Option<String>)
    ensures
        match r {
            Some(t) => token@.len() > 0 && t@ == token@,
            None => token@.len() == 0,
        },
{
    if token.is_empty() {
        None
    } else {
        Some(String::from_str(token))
    }
}

/// Where a cached message lives upstream: a group message in its group, any
/// other in the conversation with its user.
pub open spec fn message_location_spec(r: MessageRef) -> (MessageScene, i64, EventKind) {
    if r.message_type@ == "group"@ {
        (MessageScene::Group, r.group_id, EventKind::MessageGroup)
    } else {
        (MessageScene::Friend, r.user_id, EventKind::MessagePrivate)
    }
}

/// The scene and peer to fetch or recall a cached message with, and the
/// kind of event it reads back as.
pub fn message_location(r: &MessageRef) -> (loc: (MessageScene, i64, EventKind))
    ensures
        loc == message_location_spec(*r),
{
    if crate::text::str_eq(r.message_type.as_str(), "group") {
        (MessageScene::Group, r.group_id, EventKind::MessageGroup)
    } else {
        (MessageScene::Friend, r.user_id, EventKind::MessagePrivate)
    }
}

/// A group member as the bridge describes one: sex and role in lower case,
/// level as decimal text, no age or area.
pub fn group_member_to_info(m: GroupMember) -> (r: GroupMemberInfo)
    ensures
        r.group_id == m.group_id,
        r.user_id == m.user_id,
        r.nickname@ == m.nickname@,
        r.card@ == m.card@,
        r.sex@ == sex_name(m.sex),
        r.age == 0,
        r.area@.len() == 0,
        r.level@ == int_text(m.level as int),
        r.role@ == role_name(m.role),
        r.title@ == m.title@,
{
    GroupMemberInfo {
        group_id: m.group_id,
        user_id: m.user_id,
        nickname: m.nickname,
        card: m.card,
        sex: sex_text(m.sex),
        age: 0,
        area: String::new(),
        level: i64_to_string(m.level as i64),
        role: role_text(m.role),
        title: m.title,
    }
}

/// The upstream call that answers a pending request.
#[derive(Debug)]
pub enum RequestAnswer {
    AcceptFriend { initiator_uid: i64 },
    RejectFriend { initiator_uid: i64, reason: String },
    AcceptGroup { group_id: i64, invitation_seq: String },
    RejectGroup { group_id: i64, invitation_seq: String },
}

/// Answers a friend request: accept, or reject with `reason`.
pub fn friend_request_answer(request: &RequestRef, approve: bool, reason: String) -> (r: RequestAnswer)
    ensures
        approve ==> r == (RequestAnswer::AcceptFriend { initiator_uid: request.initiator_uid }),
        !approve ==> (r matches RequestAnswer::RejectFriend { initiator_uid, reason: why }
            && initiator_uid == request.initiator_uid && why@ == reason@),
{
    if approve {
        RequestAnswer::AcceptFriend { initiator_uid: request.initiator_uid }
    } else {
        RequestAnswer::RejectFriend { initiator_uid: request.initiator_uid, reason }
    }
}

/// Answers a group invitation, naming it by its sequence number in decimal.
pub fn group_request_answer(request: &RequestRef, approve: bool) -> (r: RequestAnswer)
    ensures
        approve ==> (r matches RequestAnswer::AcceptGroup { group_id, invitation_seq }
            && group_id == request.group_id && invitation_seq@ == int_text(
            request.invitation_seq as int,
        )),
        !approve ==> (r matches RequestAnswer::RejectGroup { group_id, invitation_seq }
            && group_id == request.group_id && invitation_seq@ == int_text(
            request.invitation_seq as int,
        )),
{
    let seq = i64_to_string(request.invitation_seq);
    if approve {
        RequestAnswer::AcceptGroup { group_id: request.group_id, invitation_seq: seq }
    } else {
        RequestAnswer::RejectGroup { group_id: request.group_id, invitation_seq: seq }
    }
}

/// A cached group message is fetched and recalled in its group and reads
/// back as a group message; any other in the conversation with its user,
/// as a private message.
pub proof fn law_message_location(r: MessageRef)
    ensures
        r.message_type@ == "group"@ ==> message_location_spec(r) == (
            MessageScene::Group,
            r.group_id,
            EventKind::MessageGroup,
        ),
        r.message_type@ != "group"@ ==> message_location_spec(r) == (
            MessageScene::Friend,
            r.user_id,
            EventKind::MessagePrivate,
        ),
{
}

} // verus!
