use vstd::prelude::*;

verus! {

/// A user's sex as the Milky protocol reports it.
#[derive(Debug, Clone, Copy, PartialEq, Eq, Structural)]
pub enum Sex {
    Male,
    Female,
    Unknown,
}

/// A member's standing in a group.
#[derive(Debug, Clone, Copy, PartialEq, Eq, Structural)]
pub enum GroupRole {
    Owner,
    Admin,
    Member,
}

/// Where a message was exchanged.
#[derive(Debug, Clone, Copy, PartialEq, Eq, Structural)]
pub enum MessageScene {
    Friend,
    Group,
    Temp,
}

/// One piece of a received Milky message, with the fields the bridge reads.
#[derive(Debug)]
pub enum IncomingSegment {
    Text { text: String },
    Mention { user_id: i64 },
    MentionAll,
    Face { face_id: String },
    Reply { message_seq: i64 },
    Image { temp_url: String },
    Record { temp_url: String },
    Video,
    File { file_name: String },
    Forward { forward_id: String },
    MarketFace { url: String },
    LightApp { app_name: String },
    Xml { service_id: i32 },
}

/// A received Milky message.
#[derive(Debug)]
pub struct IncomingMessage {
    pub peer_id: i64,
    pub message_seq: i64,
    pub sender_id: i64,
    pub time: i64,
    pub segments: Vec<IncomingSegment>,
}

/// The friend a private message comes from.
#[derive(Debug)]
pub struct Friend {
    pub nickname: String,
    pub sex: Sex,
}

/// The group a message was sent in.
#[derive(Debug)]
pub struct Group {
    pub group_id: i64,
}

/// A member of a group, as Milky describes one.
#[derive(Debug)]
pub struct GroupMember {
    pub group_id: i64,
    pub user_id: i64,
    pub nickname: String,
    pub card: String,
    pub sex: Sex,
    pub level: i32,
    pub role: GroupRole,
    pub title: String,
}

/// A private message with its sender.
#[derive(Debug)]
pub struct FriendMessage {
    pub message: IncomingMessage,
    pub friend: Friend,
}

/// A group message with its group and sender.
#[derive(Debug)]
pub struct GroupMessage {
    pub message: IncomingMessage,
    pub group: Group,
    pub group_member: GroupMember,
}

/// A received message by scene.
#[derive(Debug)]
pub enum MessageEvent {
    Friend(FriendMessage),
    Group(GroupMessage),
    Temp,
}

/// The Milky events the bridge reads; every other kind is `Other`. The
/// initiator of a friend request comes as text, that of a group invitation
/// as a number, as Milky sends them.
#[derive(Debug)]
#[allow(inconsistent_fields)]
pub enum EventKind {
    MessageReceive { message: MessageEvent },
    MessageRecall { message_scene: MessageScene, peer_id: i64, message_seq: i64, sender_id: i64 },
    FriendRequest { initiator_id: String, initiator_uid: i64, comment: String },
    GroupInvitation { group_id: i64, invitation_seq: i64, initiator_id: i64 },
    FriendNudge { user_id: i64, is_self_receive: bool },
    GroupNudge { group_id: i64, sender_id: i64, receiver_id: i64 },
    Other,
}

/// A Milky event.
#[derive(Debug)]
pub struct Event {
    pub time: i64,
    pub self_id: i64,
    pub kind: EventKind,
}

/// One piece of a message to send upstream.
#[derive(Debug)]
pub enum OutgoingSegment {
    Text { text: String },
    Mention { user_id: i64 },
    MentionAll,
    Reply { message_seq: i64 },
    Image { uri: String, summary: Option<String>, sub_type: String },
    Record { uri: String },
}

} // verus!
