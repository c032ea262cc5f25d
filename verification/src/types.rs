use vstd::prelude::*;

use crate::datamap::DataMap;
use crate::json::JsonValue;

verus! {

/// Kind of one message segment.
#[derive(Debug, Clone, Copy, PartialEq, Eq, Structural)]
pub enum SegmentType {
    Text,
    Image,
    At,
    Reply,
    Record,
    File,
    Poke,
    Unknown,
}

/// One piece of a message: its kind, its string fields, and raw extra
/// fields (a JSON object).
#[derive(Debug)]
pub struct Segment {
    pub kind: SegmentType,
    pub data: DataMap,
    pub raw: Vec<(String, JsonValue)>,
}

/// Kind of an event coming from the upstream side.
#[derive(Debug, Clone, Copy, PartialEq, Eq, Structural)]
pub enum EventKind {
    MessagePrivate,
    MessageGroup,
    PokePrivate,
    PokeGroup,
    FriendRequest,
    GroupInvite,
    RecallPrivate,
    RecallGroup,
}

/// Who sent a message.
#[derive(Debug)]
pub struct Sender {
    pub user_id: i64,
    pub nickname: String,
    pub card: String,
    pub sex: String,
    pub age: i32,
    pub area: String,
    pub level: String,
    pub role: String,
    pub title: String,
}

/// A pending friend or group request, kept until the downstream answers it.
#[derive(Debug)]
pub struct RequestRef {
    pub kind: String,
    pub initiator_uid: i64,
    pub group_id: i64,
    pub invitation_seq: i64,
}

/// An upstream event in the bridge's own normalized form.
#[derive(Debug)]
pub struct InboundEvent {
    pub kind: EventKind,
    pub time: i64,
    pub message_id: i64,
    pub group_id: i64,
    pub user_id: i64,
    pub target_id: i64,
    pub segments: Vec<Segment>,
    pub sender: Sender,
    pub comment: String,
    pub request: Option<RequestRef>,
}

/// The logged-in account.
#[derive(Debug)]
pub struct LoginInfo {
    pub self_id: i64,
    pub nickname: String,
}

#[derive(Debug)]
pub struct GroupInfo {
    pub group_id: i64,
    pub group_name: String,
    pub member_count: i32,
    pub max_member_count: i32,
}

#[derive(Debug)]
pub struct GroupMemberInfo {
    pub group_id: i64,
    pub user_id: i64,
    pub nickname: String,
    pub card: String,
    pub sex: String,
    pub age: i32,
    pub area: String,
    pub level: String,
    pub role: String,
    pub title: String,
}

/// Health of the bridge as reported to the downstream.
#[derive(Debug, Clone, Copy, PartialEq, Eq, Structural)]
pub struct Status {
    pub online: bool,
    pub good: bool,
}

/// Where a OneBot message id points to upstream.
#[derive(Debug)]
pub struct MessageRef {
    pub onebot_id: i64,
    pub milky_seq: i64,
    pub message_type: String,
    pub group_id: i64,
    pub user_id: i64,
}

/// A message ref by its fields' values.
pub struct MessageRefView {
    pub onebot_id: i64,
    pub milky_seq: i64,
    pub message_type: Seq<char>,
    pub group_id: i64,
    pub user_id: i64,
}

impl View for MessageRef {
    type V = MessageRefView;

    open spec fn view(&self) -> MessageRefView {
        MessageRefView {
            onebot_id: self.onebot_id,
            milky_seq: self.milky_seq,
            message_type: self.message_type@,
            group_id: self.group_id,
            user_id: self.user_id,
        }
    }
}

impl Clone for MessageRef {
    fn clone(&self) -> (r: Self)
        ensures
            r == *self,
    {
        MessageRef {
            onebot_id: self.onebot_id,
            milky_seq: self.milky_seq,
            message_type: self.message_type.clone(),
            group_id: self.group_id,
            user_id: self.user_id,
        }
    }
}

impl Default for MessageRef {
    fn default() -> (r: Self)
        ensures
            r.onebot_id == 0 && r.milky_seq == 0 && r.message_type@.len() == 0 && r.group_id == 0
                && r.user_id == 0,
    {
        MessageRef {
            onebot_id: 0,
            milky_seq: 0,
            message_type: String::new(),
            group_id: 0,
            user_id: 0,
        }
    }
}

impl Clone for RequestRef {
    fn clone(&self) -> (r: Self)
        ensures
            r == *self,
    {
        RequestRef {
            kind: self.kind.clone(),
            initiator_uid: self.initiator_uid,
            group_id: self.group_id,
            invitation_seq: self.invitation_seq,
        }
    }
}

impl Default for RequestRef {
    fn default() -> (r: Self)
        ensures
            r.kind@.len() == 0 && r.initiator_uid == 0 && r.group_id == 0 && r.invitation_seq
                == 0,
    {
        RequestRef { kind: String::new(), initiator_uid: 0, group_id: 0, invitation_seq: 0 }
    }
}

impl Clone for LoginInfo {
    fn clone(&self) -> (r: Self)
        ensures
            r == *self,
    {
        LoginInfo { self_id: self.self_id, nickname: self.nickname.clone() }
    }
}

impl Default for LoginInfo {
    fn default() -> (r: Self)
        ensures
            r.self_id == 0 && r.nickname@.len() == 0,
    {
        LoginInfo { self_id: 0, nickname: String::new() }
    }
}

impl Default for Status {
    fn default() -> (r: Self)
        ensures
            !r.online && !r.good,
    {
        Status { online: false, good: false }
    }
}

impl Default for GroupInfo {
    fn default() -> (r: Self)
        ensures
            r.group_id == 0 && r.group_name@.len() == 0 && r.member_count == 0
                && r.max_member_count == 0,
    {
        GroupInfo { group_id: 0, group_name: String::new(), member_count: 0, max_member_count: 0 }
    }
}

impl Default for GroupMemberInfo {
    fn default() -> (r: Self)
        ensures
            r.group_id == 0 && r.user_id == 0 && r.nickname@.len() == 0 && r.card@.len() == 0
                && r.sex@.len() == 0 && r.age == 0 && r.area@.len() == 0 && r.level@.len() == 0
                && r.role@.len() == 0 && r.title@.len() == 0,
    {
        GroupMemberInfo {
            group_id: 0,
            user_id: 0,
            nickname: String::new(),
            card: String::new(),
            sex: String::new(),
            age: 0,
            area: String::new(),
            level: String::new(),
            role: String::new(),
            title: String::new(),
        }
    }
}

/// A sender by its fields' values.
pub struct SenderView {
    pub user_id: i64,
    pub nickname: Seq<char>,
    pub card: Seq<char>,
    pub sex: Seq<char>,
    pub age: i32,
    pub area: Seq<char>,
    pub level: Seq<char>,
    pub role: Seq<char>,
    pub title: Seq<char>,
}

impl View for Sender {
    type V = SenderView;

    open spec fn view(&self) -> SenderView {
        SenderView {
            user_id: self.user_id,
            nickname: self.nickname@,
            card: self.card@,
            sex: self.sex@,
            age: self.age,
            area: self.area@,
            level: self.level@,
            role: self.role@,
            title: self.title@,
        }
    }
}

/// A pending request by its fields' values.
pub struct RequestRefView {
    pub kind: Seq<char>,
    pub initiator_uid: i64,
    pub group_id: i64,
    pub invitation_seq: i64,
}

impl View for RequestRef {
    type V = RequestRefView;

    open spec fn view(&self) -> RequestRefView {
        RequestRefView {
            kind: self.kind@,
            initiator_uid: self.initiator_uid,
            group_id: self.group_id,
            invitation_seq: self.invitation_seq,
        }
    }
}

/// An inbound event by its fields' values, segments by kind and data.
pub struct InboundView {
    pub kind: EventKind,
    pub time: i64,
    pub message_id: i64,
    pub group_id: i64,
    pub user_id: i64,
    pub target_id: i64,
    pub segments: Seq<(SegmentType, Seq<(Seq<char>, Seq<char>)>)>,
    pub sender: SenderView,
    pub comment: Seq<char>,
    pub request: Option<RequestRefView>,
}

impl View for InboundEvent {
    type V = InboundView;

    open spec fn view(&self) -> InboundView {
        InboundView {
            kind: self.kind,
            time: self.time,
            message_id: self.message_id,
            group_id: self.group_id,
            user_id: self.user_id,
            target_id: self.target_id,
            segments: crate::bridge::message_ir::seg_models(self.segments@),
            sender: self.sender@,
            comment: self.comment@,
            request: match self.request {
                Some(r) => Some(r@),
                None => None,
            },
        }
    }
}

/// Whether every field of a sender is zero or empty.
pub open spec fn sender_is_empty(s: Sender) -> bool {
    s.user_id == 0 && s.nickname@.len() == 0 && s.card@.len() == 0 && s.sex@.len() == 0 && s.age
        == 0 && s.area@.len() == 0 && s.level@.len() == 0 && s.role@.len() == 0 && s.title@.len()
        == 0
}

impl Default for Sender {
    fn default() -> (r: Self)
        ensures
            sender_is_empty(r),
    {
        Sender {
            user_id: 0,
            nickname: String::new(),
            card: String::new(),
            sex: String::new(),
            age: 0,
            area: String::new(),
            level: String::new(),
            role: String::new(),
            title: String::new(),
        }
    }
}

impl Sender {
    /// Whether every field is zero or empty (such a sender is left out when
    /// serialized).
    pub fn is_empty(&self) -> (b: bool)
        ensures
            b == sender_is_empty(*self),
    {
        self.user_id == 0 && self.nickname.as_str().is_empty() && self.card.as_str().is_empty()
            && self.sex.as_str().is_empty() && self.age == 0 && self.area.as_str().is_empty() && self.level.as_str().is_empty()
            && self.role.as_str().is_empty() && self.title.as_str().is_empty()
    }
}

/// Whether `v` is zero (fields that are zero are left out when serialized).
pub fn is_zero_i32(v: &i32) -> (b: bool)
    ensures
        b == (*v == 0),
{
    *v == 0
}

/// Whether `v` is zero (fields that are zero are left out when serialized).
pub fn is_zero_i64(v: &i64) -> (b: bool)
    ensures
        b == (*v == 0),
{
    *v == 0
}

} // verus!
