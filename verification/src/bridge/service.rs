use vstd::prelude::*;

use crate::bridge::message_ir::{
    all_objects, cq_message_spec, parse_onebot_message, raws_empty, seg_models,
    segment_array_spec, segment_object_spec, text_model, SegModel,
};
use crate::bridge::message_ir::{build_message_spec, build_onebot_message};
use crate::bridge::translator::{
    build_get_msg_sender, event_json, get_msg_sender_json, inbound_ref,
    law_translated_message_cached, messages_after, next_flag, takes_request, translate_event,
    unsupported_action,
};
use crate::config::Config;
use crate::json::{
    json_entries, jstr, lemma_obj_get_at, lemma_obj_get_concat, lemma_obj_get_none,
    lemma_obj_get_single, obj_get, obj_push, Json, JsonValue,
};
use crate::milky::error::{client_error_text, MilkyClientError};
use crate::onebot::api::{failed_view, failure, ok_view, opt_json, success, ApiResponse, ResponseView};
use crate::onebot::event::{heartbeat_event_at, heartbeat_json, lifecycle_event_at, lifecycle_json, now_unix};
use crate::state::message_map::{law_put_then_get, lookup, lru_put_spec, lru_touch_spec, MessageMap};
use crate::state::request_map::RequestMap;
use crate::state::runtime::Runtime;
use crate::types::{
    EventKind, GroupInfo, GroupMemberInfo, InboundEvent, LoginInfo, MessageRef, MessageRefView,
    RequestRef, RequestRefView, Segment, Status,
};

verus! {

/// Why the bridge service could not do its work.
#[derive(Debug)]
pub enum ServiceError {
    Upstream(MilkyClientError),
}

impl ServiceError {
    /// The error's text, as its `Display` writes it.
    pub fn message(&self) -> (s: String)
        ensures
            match self {
                ServiceError::Upstream(e) => exists|d: Seq<char>|
                    s@ == "upstream: "@ + d && client_error_text(*e, d),
            },
    {
        match self {
            ServiceError::Upstream(e) => {
                let d = e.message();
                let mut s = String::from_str("upstream: ");
                s.append(d.as_str());
                s
            },
        }
    }
}

/// The bridge's state: its configuration, what it knows of the upstream
/// session, the message cache and the pending requests.
pub struct Service {
    pub cfg: Config,
    pub runtime: Runtime,
    pub messages: MessageMap,
    pub requests: RequestMap,
}

/// The status object reported by `get_status` and heartbeats.
pub open spec fn status_json(s: Status) -> Json {
    Json::Object(seq![("good"@, Json::Bool(s.good)), ("online"@, Json::Bool(s.online))])
}

/// `{"online": .., "good": ..}` for a status.
pub fn status_value(s: Status) -> (r: JsonValue)
    ensures
        r@ == status_json(s),
{
    let mut o: Vec<(String, JsonValue)> = Vec::new();
    obj_push(&mut o, "good", JsonValue::Bool(s.good));
    obj_push(&mut o, "online", JsonValue::Bool(s.online));
    assert(json_entries(o@) =~= status_json(s)->Object_0);
    JsonValue::Object(o)
}

/// Whether a connection announced under `role` only makes API calls, and
/// so gets no lifecycle event.
pub open spec fn api_only_role(role: Seq<char>) -> bool {
    role == "api"@ || role == "reverse-api"@
}

impl Service {
    /// The cache and the request map keep their invariants.
    pub open spec fn wf(&self) -> bool {
        self.messages.wf() && self.requests.wf()
    }

    /// The bot's id: the logged-in id when known (not 0), else the
    /// configured one.
    pub open spec fn self_id_spec(&self) -> i64 {
        if self.runtime.login_spec().self_id != 0 {
            self.runtime.login_spec().self_id
        } else {
            self.cfg.bridge.self_id
        }
    }

    /// A service for `cfg`: nothing cached, no request pending, not
    /// connected, no login.
    pub fn new(cfg: Config) -> (s: Self)
        ensures
            s.wf(),
            s.cfg == cfg,
            s.messages.entries().len() == 0,
            s.messages.capacity() == (if cfg.bridge.cache_size >= 1 {
                cfg.bridge.cache_size as nat
            } else {
                1
            }),
            s.requests.count() == 0,
            s.requests.items() == Map::<Seq<char>, crate::types::RequestRef>::empty(),
            s.runtime.login_spec().self_id == 0,
            s.runtime.login_spec().nickname@.len() == 0,
            !s.runtime.connected(),
    {
        let messages = MessageMap::new(cfg.bridge.cache_size);
        Service { cfg, runtime: Runtime::new(), messages, requests: RequestMap::new() }
    }

    /// The bot's id, as `self_id_spec` says.
    pub fn current_self_id(&self) -> (id: i64)
        ensures
            id == self.self_id_spec(),
    {
        let login = self.runtime.login();
        if login.self_id != 0 {
            return login.self_id;
        }
        self.cfg.bridge.self_id
    }

    /// Records a fresh upstream login: a configured non-zero id replaces
    /// the reported one, and the upstream counts as connected. The bot's id
    /// is then the configured one when it is not 0, else the upstream's.
    pub fn connect(&mut self, login: LoginInfo)
        ensures
            final(self).runtime.login_spec().self_id == (if old(self).cfg.bridge.self_id != 0 {
                old(self).cfg.bridge.self_id
            } else {
                login.self_id
            }),
            final(self).runtime.login_spec().nickname == login.nickname,
            final(self).self_id_spec() == (if old(self).cfg.bridge.self_id != 0 {
                old(self).cfg.bridge.self_id
            } else {
                login.self_id
            }),
            final(self).runtime.connected(),
            final(self).cfg == old(self).cfg,
            final(self).messages == old(self).messages,
            final(self).requests == old(self).requests,
    {
        let mut login = login;
        if self.cfg.bridge.self_id != 0 {
            login.self_id = self.cfg.bridge.self_id;
        }
        self.runtime.set_login(login);
        self.runtime.set_upstream_connected(true);
    }

    /// Records that the upstream connection is being shut down.
    pub fn shutdown(&mut self)
        ensures
            !final(self).runtime.connected(),
            final(self).runtime.login_spec() == old(self).runtime.login_spec(),
            final(self).cfg == old(self).cfg,
            final(self).messages == old(self).messages,
            final(self).requests == old(self).requests,
    {
        self.runtime.set_upstream_connected(false);
    }

    /// The events a new downstream connection gets at `time`: none for an
    /// API-only connection, otherwise a lifecycle `connect` event.
    pub fn on_ws_connect_at(&self, role: &str, time: i64) -> (v: Vec<JsonValue>)
        ensures
            api_only_role(role@) ==> v@.len() == 0,
            !api_only_role(role@) ==> v@.len() == 1 && v@[0]@ == lifecycle_json(
                time,
                self.self_id_spec(),
                "connect"@,
            ),
    {
        if crate::text::str_eq(role, "api") || crate::text::str_eq(role, "reverse-api") {
            return Vec::new();
        }
        let ev = lifecycle_event_at(time, self.current_self_id(), "connect");
        let mut v: Vec<JsonValue> = Vec::new();
        v.push(ev);
        v
    }

    /// The events a new downstream connection gets now.
    pub fn on_ws_connect(&self, role: &str) -> (v: Vec<JsonValue>)
        ensures
            api_only_role(role@) ==> v@.len() == 0,
            !api_only_role(role@) ==> v@.len() == 1 && exists|t: i64|
                v@[0]@ == lifecycle_json(t, self.self_id_spec(), "connect"@),
    {
        self.on_ws_connect_at(role, now_unix())
    }

    /// The heartbeat event at `time`, with the current status and the
    /// configured interval.
    pub fn heartbeat_at(&self, time: i64) -> (r: JsonValue)
        ensures
            r@ == heartbeat_json(
                time,
                self.self_id_spec(),
                status_json(self.runtime.status_spec()),
                self.cfg.bridge.heartbeat_interval_ms,
            ),
    {
        let status = self.runtime.status();
        heartbeat_event_at(
            time,
            self.current_self_id(),
            status_value(status),
            self.cfg.bridge.heartbeat_interval_ms,
        )
    }

    /// The heartbeat event now.
    pub fn heartbeat(&self) -> (r: JsonValue)
        ensures
            exists|t: i64|
                r@ == heartbeat_json(
                    t,
                    self.self_id_spec(),
                    status_json(self.runtime.status_spec()),
                    self.cfg.bridge.heartbeat_interval_ms,
                ),
    {
        self.heartbeat_at(now_unix())
    }

    /// How often heartbeats go out, in milliseconds (at least one).
    pub fn heartbeat_period_ms(&self) -> (ms: u64)
        ensures
            ms == (if self.cfg.bridge.heartbeat_interval_ms >= 1 {
                self.cfg.bridge.heartbeat_interval_ms
            } else {
                1
            }),
    {
        if self.cfg.bridge.heartbeat_interval_ms >= 1 {
            self.cfg.bridge.heartbeat_interval_ms
        } else {
            1
        }
    }

    /// Whether `translate` can take `event`: a request event needs a flag
    /// number left to give.
    pub fn can_translate(&self, event: &InboundEvent) -> (b: bool)
        ensures
            b == (takes_request(*event) ==> self.requests.count() < u64::MAX),
    {
        let takes = (event.kind == EventKind::FriendRequest || event.kind == EventKind::GroupInvite)
            && event.request.is_some();
        !takes || self.requests.has_room()
    }

    /// Translates an upstream event for the downstream side, with the
    /// bot's id and the configured message format.
    pub fn translate(&mut self, event: InboundEvent) -> (r: Option<JsonValue>)
        requires
            old(self).wf(),
            takes_request(event) ==> old(self).requests.count() < u64::MAX,
        ensures
            final(self).wf(),
            exists|t: i64|
                (event.time > 0 ==> t == event.time) && opt_json(r) == event_json(
                    event,
                    t,
                    old(self).self_id_spec(),
                    old(self).cfg.bridge.message_format@,
                    next_flag(event, old(self).requests.count()),
                ),
            final(self).messages.capacity() == old(self).messages.capacity(),
            final(self).messages.entries() == messages_after(
                event,
                old(self).messages.entries(),
                old(self).messages.capacity(),
            ),
            takes_request(event) ==> final(self).requests.count() == old(self).requests.count() + 1
                && final(self).requests.items() == old(self).requests.items().insert(
                next_flag(event, old(self).requests.count()),
                event.request->0,
            ),
            !takes_request(event) ==> final(self).requests == old(self).requests,
            final(self).cfg == old(self).cfg,
            final(self).runtime == old(self).runtime,
    {
        let self_id = self.current_self_id();
        translate_event(
            event,
            self_id,
            self.cfg.bridge.message_format.as_str(),
            &mut self.messages,
            &mut self.requests,
        )
    }
}

/// The OneBot actions the bridge answers.
#[derive(Debug, Clone, Copy, PartialEq, Eq, Structural)]
pub enum Action {
    SendPrivateMsg,
    SendGroupMsg,
    SendMsg,
    GetLoginInfo,
    GetStatus,
    GetVersionInfo,
    CanSendImage,
    CanSendRecord,
    GetGroupInfo,
    GetGroupList,
    GetGroupMemberInfo,
    GetGroupMemberList,
    DeleteMsg,
    GetMsg,
    SetFriendAddRequest,
    SetGroupAddRequest,
    Unsupported,
}

/// The action a plain action name stands for.
pub open spec fn action_spec(name: Seq<char>) -> Action {
    if name == "send_private_msg"@ {
        Action::SendPrivateMsg
    } else if name == "send_group_msg"@ {
        Action::SendGroupMsg
    } else if name == "send_msg"@ {
        Action::SendMsg
    } else if name == "get_login_info"@ {
        Action::GetLoginInfo
    } else if name == "get_status"@ {
        Action::GetStatus
    } else if name == "get_version_info"@ {
        Action::GetVersionInfo
    } else if name == "can_send_image"@ {
        Action::CanSendImage
    } else if name == "can_send_record"@ {
        Action::CanSendRecord
    } else if name == "get_group_info"@ {
        Action::GetGroupInfo
    } else if name == "get_group_list"@ {
        Action::GetGroupList
    } else if name == "get_group_member_info"@ {
        Action::GetGroupMemberInfo
    } else if name == "get_group_member_list"@ {
        Action::GetGroupMemberList
    } else if name == "delete_msg"@ {
        Action::DeleteMsg
    } else if name == "get_msg"@ {
        Action::GetMsg
    } else if name == "set_friend_add_request"@ {
        Action::SetFriendAddRequest
    } else if name == "set_group_add_request"@ {
        Action::SetGroupAddRequest
    } else {
        Action::Unsupported
    }
}

/// The action a request names, with the plain name (see
/// `normalize_action`).
pub fn route_action(action: &str) -> (r: (Action, String))
    ensures
        r.1@ == crate::onebot::api::normalize_action_spec(action@),
        r.0 == action_spec(r.1@),
{
    let name = crate::onebot::api::normalize_action(action);
    let n = name.as_str();
    let a = if crate::text::str_eq(n, "send_private_msg") {
        Action::SendPrivateMsg
    } else if crate::text::str_eq(n, "send_group_msg") {
        Action::SendGroupMsg
    } else if crate::text::str_eq(n, "send_msg") {
        Action::SendMsg
    } else if crate::text::str_eq(n, "get_login_info") {
        Action::GetLoginInfo
    } else if crate::text::str_eq(n, "get_status") {
        Action::GetStatus
    } else if crate::text::str_eq(n, "get_version_info") {
        Action::GetVersionInfo
    } else if crate::text::str_eq(n, "can_send_image") {
        Action::CanSendImage
    } else if crate::text::str_eq(n, "can_send_record") {
        Action::CanSendRecord
    } else if crate::text::str_eq(n, "get_group_info") {
        Action::GetGroupInfo
    } else if crate::text::str_eq(n, "get_group_list") {
        Action::GetGroupList
    } else if crate::text::str_eq(n, "get_group_member_info") {
        Action::GetGroupMemberInfo
    } else if crate::text::str_eq(n, "get_group_member_list") {
        Action::GetGroupMemberList
    } else if crate::text::str_eq(n, "delete_msg") {
        Action::DeleteMsg
    } else if crate::text::str_eq(n, "get_msg") {
        Action::GetMsg
    } else if crate::text::str_eq(n, "set_friend_add_request") {
        Action::SetFriendAddRequest
    } else if crate::text::str_eq(n, "set_group_add_request") {
        Action::SetGroupAddRequest
    } else {
        Action::Unsupported
    };
    (a, name)
}

/// An action with its parameters read.
#[derive(Debug)]
pub enum ActionCall {
    SendPrivateMsg { user_id: i64, message: JsonValue, auto_escape: bool },
    SendGroupMsg { group_id: i64, message: JsonValue, auto_escape: bool },
    SendMsg {
        message_type: String,
        user_id: i64,
        group_id: i64,
        message: JsonValue,
        auto_escape: bool,
    },
    GetLoginInfo,
    GetStatus,
    GetVersionInfo,
    CanSend,
    GetGroupInfo { group_id: i64 },
    GetGroupList,
    GetGroupMemberInfo { group_id: i64, user_id: i64 },
    GetGroupMemberList { group_id: i64 },
    DeleteMsg { message_id: i64 },
    GetMsg { message_id: i64 },
    SetFriendAddRequest { flag: String, approve: bool, remark: String },
    SetGroupAddRequest { flag: String, approve: bool },
    Unsupported { action: String },
}

/// Whether the action reads parameters.
pub open spec fn takes_params(a: Action) -> bool {
    !(a == Action::GetLoginInfo || a == Action::GetStatus || a == Action::GetVersionInfo || a
        == Action::CanSendImage || a == Action::CanSendRecord || a == Action::GetGroupList || a
        == Action::Unsupported)
}

/// Whether the action reads parameters (those that do not ignore any
/// given).
pub fn needs_params(a: Action) -> (b: bool)
    ensures
        b == takes_params(a),
{
    match a {
        Action::GetLoginInfo | Action::GetStatus | Action::GetVersionInfo | Action::CanSendImage
        | Action::CanSendRecord | Action::GetGroupList | Action::Unsupported => false,
        _ => true,
    }
}

/// Whether parameters were given: present and not `null`. Absent
/// parameters read as all defaults.
pub fn params_given(params: &Option<JsonValue>) -> (b: bool)
    ensures
        b == (match params {
            Some(v) => !(v@ is Null),
            None => false,
        }),
{
    match params {
        Some(JsonValue::Null) => false,
        Some(_) => true,
        None => false,
    }
}

/// The call of `a` with every parameter at its default (zero, empty,
/// `false`, or a `null` message); `name` is the plain action name.
pub open spec fn default_call_spec(a: Action, name: Seq<char>, c: ActionCall) -> bool {
    match a {
        Action::SendPrivateMsg => c matches ActionCall::SendPrivateMsg { user_id, message, auto_escape }
            && user_id == 0 && message@ == Json::Null && !auto_escape,
        Action::SendGroupMsg => c matches ActionCall::SendGroupMsg { group_id, message, auto_escape }
            && group_id == 0 && message@ == Json::Null && !auto_escape,
        Action::SendMsg => c matches ActionCall::SendMsg {
            message_type,
            user_id,
            group_id,
            message,
            auto_escape,
        } && message_type@.len() == 0 && user_id == 0 && group_id == 0 && message@ == Json::Null
            && !auto_escape,
        Action::GetLoginInfo => c matches ActionCall::GetLoginInfo,
        Action::GetStatus => c matches ActionCall::GetStatus,
        Action::GetVersionInfo => c matches ActionCall::GetVersionInfo,
        Action::CanSendImage | Action::CanSendRecord => c matches ActionCall::CanSend,
        Action::GetGroupInfo => c matches ActionCall::GetGroupInfo { group_id } && group_id == 0,
        Action::GetGroupList => c matches ActionCall::GetGroupList,
        Action::GetGroupMemberInfo => c matches ActionCall::GetGroupMemberInfo { group_id, user_id }
            && group_id == 0 && user_id == 0,
        Action::GetGroupMemberList => c matches ActionCall::GetGroupMemberList { group_id }
            && group_id == 0,
        Action::DeleteMsg => c matches ActionCall::DeleteMsg { message_id } && message_id == 0,
        Action::GetMsg => c matches ActionCall::GetMsg { message_id } && message_id == 0,
        Action::SetFriendAddRequest => c matches ActionCall::SetFriendAddRequest {
            flag,
            approve,
            remark,
        } && flag@.len() == 0 && !approve && remark@.len() == 0,
        Action::SetGroupAddRequest => c matches ActionCall::SetGroupAddRequest { flag, approve }
            && flag@.len() == 0 && !approve,
        Action::Unsupported => c matches ActionCall::Unsupported { action } && action@ == name,
    }
}

/// The call of `a` with default parameters.
pub fn default_call(a: Action, name: String) -> (c: ActionCall)
    ensures
        default_call_spec(a, name@, c),
{
    match a {
        Action::SendPrivateMsg => ActionCall::SendPrivateMsg {
            user_id: 0,
            message: JsonValue::Null,
            auto_escape: false,
        },
        Action::SendGroupMsg => ActionCall::SendGroupMsg {
            group_id: 0,
            message: JsonValue::Null,
            auto_escape: false,
        },
        Action::SendMsg => ActionCall::SendMsg {
            message_type: String::new(),
            user_id: 0,
            group_id: 0,
            message: JsonValue::Null,
            auto_escape: false,
        },
        Action::GetLoginInfo => ActionCall::GetLoginInfo,
        Action::GetStatus => ActionCall::GetStatus,
        Action::GetVersionInfo => ActionCall::GetVersionInfo,
        Action::CanSendImage | Action::CanSendRecord => ActionCall::CanSend,
        Action::GetGroupInfo => ActionCall::GetGroupInfo { group_id: 0 },
        Action::GetGroupList => ActionCall::GetGroupList,
        Action::GetGroupMemberInfo => ActionCall::GetGroupMemberInfo { group_id: 0, user_id: 0 },
        Action::GetGroupMemberList => ActionCall::GetGroupMemberList { group_id: 0 },
        Action::DeleteMsg => ActionCall::DeleteMsg { message_id: 0 },
        Action::GetMsg => ActionCall::GetMsg { message_id: 0 },
        Action::SetFriendAddRequest => ActionCall::SetFriendAddRequest {
            flag: String::new(),
            approve: false,
            remark: String::new(),
        },
        Action::SetGroupAddRequest => ActionCall::SetGroupAddRequest {
            flag: String::new(),
            approve: false,
        },
        Action::Unsupported => ActionCall::Unsupported { action: name },
    }
}

/// A call the bridge makes upstream on behalf of an action.
#[derive(Debug)]
pub enum UpstreamCall {
    SendPrivate { user_id: i64, segments: Vec<Segment> },
    SendGroup { group_id: i64, segments: Vec<Segment> },
    GetGroupInfo { group_id: i64 },
    GetGroupList,
    GetGroupMemberInfo { group_id: i64, user_id: i64 },
    GetGroupMemberList { group_id: i64 },
    GetMessage { message: MessageRef },
    DeleteMessage { message: MessageRef },
    AnswerFriendRequest { request: RequestRef, approve: bool, remark: String },
    AnswerGroupRequest { request: RequestRef, approve: bool },
}

/// What to do about an action: answer it now, or make an upstream call
/// and finish with its outcome (the request's `echo` travels along).
#[derive(Debug)]
pub enum ApiStep {
    Reply(ApiResponse),
    Call(UpstreamCall, Option<JsonValue>),
}

/// An upstream call by its fields' values.
pub enum CallView {
    SendPrivate(i64, Seq<SegModel>),
    SendGroup(i64, Seq<SegModel>),
    GetGroupInfo(i64),
    GetGroupList,
    GetGroupMemberInfo(i64, i64),
    GetGroupMemberList(i64),
    GetMessage(MessageRefView),
    DeleteMessage(MessageRefView),
    AnswerFriendRequest(RequestRefView, bool, Seq<char>),
    AnswerGroupRequest(RequestRefView, bool),
}

/// A step by its values.
pub enum StepView {
    Reply(ResponseView),
    Call(CallView, Option<Json>),
}

pub open spec fn call_view(c: UpstreamCall) -> CallView {
    match c {
        UpstreamCall::SendPrivate { user_id, segments } => CallView::SendPrivate(
            user_id,
            seg_models(segments@),
        ),
        UpstreamCall::SendGroup { group_id, segments } => CallView::SendGroup(
            group_id,
            seg_models(segments@),
        ),
        UpstreamCall::GetGroupInfo { group_id } => CallView::GetGroupInfo(group_id),
        UpstreamCall::GetGroupList => CallView::GetGroupList,
        UpstreamCall::GetGroupMemberInfo { group_id, user_id } => CallView::GetGroupMemberInfo(
            group_id,
            user_id,
        ),
        UpstreamCall::GetGroupMemberList { group_id } => CallView::GetGroupMemberList(group_id),
        UpstreamCall::GetMessage { message } => CallView::GetMessage(message@),
        UpstreamCall::DeleteMessage { message } => CallView::DeleteMessage(message@),
        UpstreamCall::AnswerFriendRequest { request, approve, remark } => CallView::AnswerFriendRequest(
            request@,
            approve,
            remark@,
        ),
        UpstreamCall::AnswerGroupRequest { request, approve } => CallView::AnswerGroupRequest(
            request@,
            approve,
        ),
    }
}

pub open spec fn step_view(s: ApiStep) -> StepView {
    match s {
        ApiStep::Reply(r) => StepView::Reply(r@),
        ApiStep::Call(c, echo) => StepView::Call(call_view(c), opt_json(echo)),
    }
}

/// The segments of a OneBot `message` value, or the text of why it cannot
/// be read.
pub open spec fn message_outcome(raw: Json, auto_escape: bool) -> Result<Seq<SegModel>, Seq<char>> {
    match raw {
        Json::Null => Err("message is required"@),
        Json::Str(s) => Ok(
            if auto_escape {
                seq![text_model(s)]
            } else {
                cq_message_spec(s)
            },
        ),
        Json::Object(o) => Ok(segment_object_spec(o)),
        Json::Array(items) => if all_objects(items) {
            Ok(segment_array_spec(items))
        } else {
            Err("message segment must be object"@)
        },
        _ => Err("unsupported message type"@),
    }
}

fn message_segments(raw: &JsonValue, auto_escape: bool) -> (r: Result<Vec<Segment>, String>)
    ensures
        match r {
            Ok(v) => message_outcome(raw@, auto_escape) == Ok::<Seq<SegModel>, Seq<char>>(
                seg_models(v@),
            ) && raws_empty(v@),
            Err(m) => message_outcome(raw@, auto_escape) == Err::<Seq<SegModel>, Seq<char>>(m@),
        },
{
    match parse_onebot_message(raw, auto_escape) {
        Ok(v) => Ok(v),
        Err(e) => Err(e.message()),
    }
}

/// `get_login_info`'s data.
pub open spec fn login_json(login: LoginInfo) -> Json {
    Json::Object(
        seq![("nickname"@, Json::Str(login.nickname@)), ("user_id"@, Json::Int(login.self_id))],
    )
}

/// `get_version_info`'s data.
pub open spec fn version_json() -> Json {
    Json::Object(
        seq![
            ("app_name"@, Json::Str("milky-ob11-bridge"@)),
            ("app_version"@, Json::Str("0.1.0"@)),
            ("protocol_version"@, Json::Str("v11"@)),
        ],
    )
}

/// `can_send_image` and `can_send_record`'s data.
pub open spec fn yes_json() -> Json {
    Json::Object(seq![("yes"@, Json::Bool(true))])
}

/// The step for sending `raw` privately (to `peer` when `group` is
/// false) or to a group: a refusal (1400) when the message cannot be read,
/// else the upstream send of its segments.
pub open spec fn send_step(raw: Json, auto_escape: bool, group: bool, peer: i64, echo: Option<Json>) -> StepView {
    match message_outcome(raw, auto_escape) {
        Err(m) => StepView::Reply(failed_view(1400, m, echo)),
        Ok(segs) => StepView::Call(
            if group {
                CallView::SendGroup(peer, segs)
            } else {
                CallView::SendPrivate(peer, segs)
            },
            echo,
        ),
    }
}

/// What the bridge does about an action: answers from its own state,
/// refuses it, or hands it upstream. Parameters that could not be read
/// are refused with 1400, cached messages and pending requests that are
/// not found with 1502, unknown actions with 1503.
pub open spec fn plan_spec(
    call: Result<ActionCall, String>,
    login: LoginInfo,
    status: Status,
    entries: Seq<(i64, MessageRefView)>,
    items: Map<Seq<char>, RequestRef>,
    echo: Option<Json>,
) -> StepView {
    match call {
        Err(e) => StepView::Reply(failed_view(1400, e@, echo)),
        Ok(c) => match c {
            ActionCall::SendPrivateMsg { user_id, message, auto_escape } => send_step(
                message@,
                auto_escape,
                false,
                user_id,
                echo,
            ),
            ActionCall::SendGroupMsg { group_id, message, auto_escape } => send_step(
                message@,
                auto_escape,
                true,
                group_id,
                echo,
            ),
            ActionCall::SendMsg { message_type, user_id, group_id, message, auto_escape } => {
                match message_outcome(message@, auto_escape) {
                    Err(m) => StepView::Reply(failed_view(1400, m, echo)),
                    Ok(segs) => if (message_type@ == ""@ || message_type@ == "private"@) && user_id
                        != 0 {
                        StepView::Call(CallView::SendPrivate(user_id, segs), echo)
                    } else if message_type@ == "group"@ && group_id != 0 {
                        StepView::Call(CallView::SendGroup(group_id, segs), echo)
                    } else {
                        StepView::Reply(
                            failed_view(1400, "send_msg requires a valid message target"@, echo),
                        )
                    },
                }
            },
            ActionCall::GetLoginInfo => StepView::Reply(ok_view(login_json(login), echo)),
            ActionCall::GetStatus => StepView::Reply(ok_view(status_json(status), echo)),
            ActionCall::GetVersionInfo => StepView::Reply(ok_view(version_json(), echo)),
            ActionCall::CanSend => StepView::Reply(ok_view(yes_json(), echo)),
            ActionCall::GetGroupInfo { group_id } => StepView::Call(CallView::GetGroupInfo(group_id), echo),
            ActionCall::GetGroupList => StepView::Call(CallView::GetGroupList, echo),
            ActionCall::GetGroupMemberInfo { group_id, user_id } => StepView::Call(
                CallView::GetGroupMemberInfo(group_id, user_id),
                echo,
            ),
            ActionCall::GetGroupMemberList { group_id } => StepView::Call(
                CallView::GetGroupMemberList(group_id),
                echo,
            ),
            ActionCall::DeleteMsg { message_id } => match lookup(entries, message_id) {
                None => StepView::Reply(failed_view(1502, "message_id not found"@, echo)),
                Some(r) => StepView::Call(CallView::DeleteMessage(r), echo),
            },
            ActionCall::GetMsg { message_id } => match lookup(entries, message_id) {
                None => StepView::Reply(failed_view(1502, "message_id not found"@, echo)),
                Some(r) => StepView::Call(CallView::GetMessage(r), echo),
            },
            ActionCall::SetFriendAddRequest { flag, approve, remark } => if !items.dom().contains(
                flag@,
            ) {
                StepView::Reply(failed_view(1502, "request flag not found"@, echo))
            } else if items[flag@].kind@ != "friend"@ {
                StepView::Reply(failed_view(1400, "flag does not point to a friend request"@, echo))
            } else {
                StepView::Call(CallView::AnswerFriendRequest(items[flag@]@, approve, remark@), echo)
            },
            ActionCall::SetGroupAddRequest { flag, approve } => if !items.dom().contains(flag@) {
                StepView::Reply(failed_view(1502, "request flag not found"@, echo))
            } else if items[flag@].kind@ != "group"@ {
                StepView::Reply(failed_view(1400, "flag does not point to a group request"@, echo))
            } else {
                StepView::Call(CallView::AnswerGroupRequest(items[flag@]@, approve), echo)
            },
            ActionCall::Unsupported { action } => StepView::Reply(
                failed_view(1503, "action "@ + action@ + " is not supported in v1"@, echo),
            ),
        },
    }
}

/// The message cache after planning: looking up a cached message makes it
/// the most recently used.
pub open spec fn plan_entries_after(call: Result<ActionCall, String>, entries: Seq<(i64, MessageRefView)>) -> Seq<(i64, MessageRefView)> {
    match call {
        Ok(ActionCall::DeleteMsg { message_id }) => lru_touch_spec(entries, message_id),
        Ok(ActionCall::GetMsg { message_id }) => lru_touch_spec(entries, message_id),
        _ => entries,
    }
}

impl Service {
    fn cached_ref_step(&mut self, message_id: i64, fetch: bool, echo: Option<JsonValue>) -> (r: ApiStep)
        requires
            old(self).wf(),
        ensures
            final(self).wf(),
            final(self).cfg == old(self).cfg,
            final(self).runtime == old(self).runtime,
            final(self).requests == old(self).requests,
            final(self).messages.capacity() == old(self).messages.capacity(),
            final(self).messages.entries() == lru_touch_spec(old(self).messages.entries(), message_id),
            step_view(r) == (match lookup(old(self).messages.entries(), message_id) {
                None => StepView::Reply(failed_view(1502, "message_id not found"@, opt_json(echo))),
                Some(m) => StepView::Call(
                    if fetch {
                        CallView::GetMessage(m)
                    } else {
                        CallView::DeleteMessage(m)
                    },
                    opt_json(echo),
                ),
            }),
    {
        match self.messages.get(message_id) {
            None => ApiStep::Reply(failure(1502, String::from_str("message_id not found"), echo)),
            Some(m) => if fetch {
                ApiStep::Call(UpstreamCall::GetMessage { message: m }, echo)
            } else {
                ApiStep::Call(UpstreamCall::DeleteMessage { message: m }, echo)
            },
        }
    }

    fn pending_request_step(
        &self,
        flag: String,
        friend: bool,
        approve: bool,
        remark: String,
        echo: Option<JsonValue>,
    ) -> (r: ApiStep)
        ensures
            step_view(r) == (if !self.requests.items().dom().contains(flag@) {
                StepView::Reply(failed_view(1502, "request flag not found"@, opt_json(echo)))
            } else if friend && self.requests.items()[flag@].kind@ != "friend"@ {
                StepView::Reply(
                    failed_view(1400, "flag does not point to a friend request"@, opt_json(echo)),
                )
            } else if !friend && self.requests.items()[flag@].kind@ != "group"@ {
                StepView::Reply(
                    failed_view(1400, "flag does not point to a group request"@, opt_json(echo)),
                )
            } else if friend {
                StepView::Call(
                    CallView::AnswerFriendRequest(self.requests.items()[flag@]@, approve, remark@),
                    opt_json(echo),
                )
            } else {
                StepView::Call(
                    CallView::AnswerGroupRequest(self.requests.items()[flag@]@, approve),
                    opt_json(echo),
                )
            }),
    {
        let found = self.requests.get(flag.as_str());
        match found {
            None => ApiStep::Reply(failure(1502, String::from_str("request flag not found"), echo)),
            Some(req) => {
                if friend {
                    if !crate::text::str_eq(req.kind.as_str(), "friend") {
                        return ApiStep::Reply(
                            failure(
                                1400,
                                String::from_str("flag does not point to a friend request"),
                                echo,
                            ),
                        );
                    }
                    ApiStep::Call(
                        UpstreamCall::AnswerFriendRequest { request: req, approve, remark },
                        echo,
                    )
                } else {
                    if !crate::text::str_eq(req.kind.as_str(), "group") {
                        return ApiStep::Reply(
                            failure(
                                1400,
                                String::from_str("flag does not point to a group request"),
                                echo,
                            ),
                        );
                    }
                    ApiStep::Call(UpstreamCall::AnswerGroupRequest { request: req, approve }, echo)
                }
            },
        }
    }

    /// Decides what to do about an action whose parameters were read (or
    /// could not be, `Err` holding why), as `plan_spec` says.
    pub fn plan_api(&mut self, call: Result<ActionCall, String>, echo: Option<JsonValue>) -> (r: ApiStep)
        requires
            old(self).wf(),
        ensures
            final(self).wf(),
            final(self).cfg == old(self).cfg,
            final(self).runtime == old(self).runtime,
            final(self).requests == old(self).requests,
            final(self).messages.capacity() == old(self).messages.capacity(),
            final(self).messages.entries() == plan_entries_after(call, old(self).messages.entries()),
            step_view(r) == plan_spec(
                call,
                old(self).runtime.login_spec(),
                old(self).runtime.status_spec(),
                old(self).messages.entries(),
                old(self).requests.items(),
                opt_json(echo),
            ),
    {
        let ghost ej = opt_json(echo);
        let c = match call {
            Err(e) => {
                return ApiStep::Reply(failure(1400, e, echo));
            },
            Ok(c) => c,
        };
        match c {
            ActionCall::SendPrivateMsg { user_id, message, auto_escape } => {
                match message_segments(&message, auto_escape) {
                    Err(m) => ApiStep::Reply(failure(1400, m, echo)),
                    Ok(segments) => ApiStep::Call(UpstreamCall::SendPrivate { user_id, segments }, echo),
                }
            },
            ActionCall::SendGroupMsg { group_id, message, auto_escape } => {
                match message_segments(&message, auto_escape) {
                    Err(m) => ApiStep::Reply(failure(1400, m, echo)),
                    Ok(segments) => ApiStep::Call(UpstreamCall::SendGroup { group_id, segments }, echo),
                }
            },
            ActionCall::SendMsg { message_type, user_id, group_id, message, auto_escape } => {
                match message_segments(&message, auto_escape) {
                    Err(m) => ApiStep::Reply(failure(1400, m, echo)),
                    Ok(segments) => {
                        let t = message_type.as_str();
                        proof {
                            reveal_strlit("");
                            assert(t@.len() == 0 ==> t@ =~= ""@);
                        }
                        if (t.is_empty() || crate::text::str_eq(t, "private")) && user_id != 0 {
                            ApiStep::Call(UpstreamCall::SendPrivate { user_id, segments }, echo)
                        } else if crate::text::str_eq(t, "group") && group_id != 0 {
                            ApiStep::Call(UpstreamCall::SendGroup { group_id, segments }, echo)
                        } else {
                            ApiStep::Reply(
                                failure(
                                    1400,
                                    String::from_str("send_msg requires a valid message target"),
                                    echo,
                                ),
                            )
                        }
                    },
                }
            },
            ActionCall::GetLoginInfo => {
                let login = self.runtime.login();
                let mut o: Vec<(String, JsonValue)> = Vec::new();
                obj_push(&mut o, "nickname", JsonValue::Str(login.nickname));
                obj_push(&mut o, "user_id", JsonValue::Int(login.self_id));
                assert(json_entries(o@) =~= login_json(self.runtime.login_spec())->Object_0);
                ApiStep::Reply(success(JsonValue::Object(o), echo))
            },
            ActionCall::GetStatus => {
                let status = self.runtime.status();
                ApiStep::Reply(success(status_value(status), echo))
            },
            ActionCall::GetVersionInfo => {
                let mut o: Vec<(String, JsonValue)> = Vec::new();
                obj_push(&mut o, "app_name", jstr("milky-ob11-bridge"));
                obj_push(&mut o, "app_version", jstr("0.1.0"));
                obj_push(&mut o, "protocol_version", jstr("v11"));
                assert(json_entries(o@) =~= version_json()->Object_0);
                ApiStep::Reply(success(JsonValue::Object(o), echo))
            },
            ActionCall::CanSend => {
                let mut o: Vec<(String, JsonValue)> = Vec::new();
                obj_push(&mut o, "yes", JsonValue::Bool(true));
                assert(json_entries(o@) =~= yes_json()->Object_0);
                ApiStep::Reply(success(JsonValue::Object(o), echo))
            },
            ActionCall::GetGroupInfo { group_id } => ApiStep::Call(
                UpstreamCall::GetGroupInfo { group_id },
                echo,
            ),
            ActionCall::GetGroupList => ApiStep::Call(UpstreamCall::GetGroupList, echo),
            ActionCall::GetGroupMemberInfo { group_id, user_id } => ApiStep::Call(
                UpstreamCall::GetGroupMemberInfo { group_id, user_id },
                echo,
            ),
            ActionCall::GetGroupMemberList { group_id } => ApiStep::Call(
                UpstreamCall::GetGroupMemberList { group_id },
                echo,
            ),
            ActionCall::DeleteMsg { message_id } => self.cached_ref_step(message_id, false, echo),
            ActionCall::GetMsg { message_id } => self.cached_ref_step(message_id, true, echo),
            ActionCall::SetFriendAddRequest { flag, approve, remark } => self.pending_request_step(
                flag,
                true,
                approve,
                remark,
                echo,
            ),
            ActionCall::SetGroupAddRequest { flag, approve } => self.pending_request_step(
                flag,
                false,
                approve,
                String::new(),
                echo,
            ),
            ActionCall::Unsupported { action } => ApiStep::Reply(
                failure(1503, unsupported_action(action.as_str()), echo),
            ),
        }
    }
}

/// A string member, left out when the string is empty (as the bridge's
/// types serialize).
pub open spec fn str_member(key: Seq<char>, v: Seq<char>) -> Seq<(Seq<char>, Json)> {
    if v.len() == 0 {
        Seq::empty()
    } else {
        seq![(key, Json::Str(v))]
    }
}

/// An integer member, left out when it is zero.
pub open spec fn int_member(key: Seq<char>, v: i32) -> Seq<(Seq<char>, Json)> {
    if v == 0 {
        Seq::empty()
    } else {
        seq![(key, Json::Int(v as i64))]
    }
}

fn push_nonempty(o: &mut Vec<(String, JsonValue)>, key: &str, v: &String)
    ensures
        json_entries(final(o)@) == json_entries(old(o)@) + str_member(key@, v@),
{
    if v.as_str().is_empty() {
        assert(json_entries(o@) + str_member(key@, v@) =~= json_entries(o@));
    } else {
        let ghost before = json_entries(o@);
        obj_push(o, key, JsonValue::Str(v.clone()));
        assert(json_entries(o@) =~= before + str_member(key@, v@));
    }
}

fn push_nonzero(o: &mut Vec<(String, JsonValue)>, key: &str, v: i32)
    ensures
        json_entries(final(o)@) == json_entries(old(o)@) + int_member(key@, v),
{
    if v == 0 {
        assert(json_entries(o@) + int_member(key@, v) =~= json_entries(o@));
    } else {
        let ghost before = json_entries(o@);
        obj_push(o, key, JsonValue::Int(v as i64));
        assert(json_entries(o@) =~= before + int_member(key@, v));
    }
}

/// A group as the bridge answers it.
pub open spec fn group_info_json(g: GroupInfo) -> Json {
    Json::Object(
        seq![("group_id"@, Json::Int(g.group_id)), ("group_name"@, Json::Str(g.group_name@))]
            + int_member("max_member_count"@, g.max_member_count) + int_member(
            "member_count"@,
            g.member_count,
        ),
    )
}

/// A group member as the bridge answers it.
pub open spec fn member_info_json(m: GroupMemberInfo) -> Json {
    Json::Object(
        int_member("age"@, m.age) + str_member("area"@, m.area@) + str_member("card"@, m.card@)
            + seq![("group_id"@, Json::Int(m.group_id))] + str_member("level"@, m.level@)
            + str_member("nickname"@, m.nickname@) + str_member("role"@, m.role@) + str_member(
            "sex"@,
            m.sex@,
        ) + str_member("title"@, m.title@) + seq![("user_id"@, Json::Int(m.user_id))],
    )
}

/// A group as JSON.
pub fn group_info_value(g: &GroupInfo) -> (r: JsonValue)
    ensures
        r@ == group_info_json(*g),
{
    let mut o: Vec<(String, JsonValue)> = Vec::new();
    obj_push(&mut o, "group_id", JsonValue::Int(g.group_id));
    obj_push(&mut o, "group_name", JsonValue::Str(g.group_name.clone()));
    let ghost head = json_entries(o@);
    assert(head =~= seq![("group_id"@, Json::Int(g.group_id)), ("group_name"@, Json::Str(g.group_name@))]);
    push_nonzero(&mut o, "max_member_count", g.max_member_count);
    push_nonzero(&mut o, "member_count", g.member_count);
    JsonValue::Object(o)
}

/// A group member as JSON.
pub fn member_info_value(m: &GroupMemberInfo) -> (r: JsonValue)
    ensures
        r@ == member_info_json(*m),
{
    let mut o: Vec<(String, JsonValue)> = Vec::new();
    proof {
        crate::json::lemma_json_entries_empty();
    }
    push_nonzero(&mut o, "age", m.age);
    push_nonempty(&mut o, "area", &m.area);
    push_nonempty(&mut o, "card", &m.card);
    let ghost before = json_entries(o@);
    obj_push(&mut o, "group_id", JsonValue::Int(m.group_id));
    assert(json_entries(o@) == before + seq![("group_id"@, Json::Int(m.group_id))]);
    push_nonempty(&mut o, "level", &m.level);
    push_nonempty(&mut o, "nickname", &m.nickname);
    push_nonempty(&mut o, "role", &m.role);
    push_nonempty(&mut o, "sex", &m.sex);
    push_nonempty(&mut o, "title", &m.title);
    let ghost before2 = json_entries(o@);
    obj_push(&mut o, "user_id", JsonValue::Int(m.user_id));
    assert(json_entries(o@) == before2 + seq![("user_id"@, Json::Int(m.user_id))]);
    assert(json_entries(o@) =~= member_info_json(*m)->Object_0);
    JsonValue::Object(o)
}

/// The answer for a failed upstream call: 1500 with the error's text.
pub open spec fn upstream_failure(e: MilkyClientError, r: ResponseView, echo: Option<Json>) -> bool {
    exists|m: Seq<char>| client_error_text(e, m) && r == failed_view(1500, m, echo)
}

fn upstream_failed(e: MilkyClientError, echo: Option<JsonValue>) -> (r: ApiResponse)
    ensures
        upstream_failure(e, r@, opt_json(echo)),
{
    let m = e.message();
    failure(1500, m, echo)
}

/// `{"message_id": id}`.
pub open spec fn message_id_json(id: i64) -> Json {
    Json::Object(seq![("message_id"@, Json::Int(id))])
}

/// Answers a `get_group_info` call with the group, or with the upstream
/// failure.
pub fn finish_group_info(result: Result<GroupInfo, MilkyClientError>, echo: Option<JsonValue>) -> (r: ApiResponse)
    ensures
        match result {
            Ok(g) => r@ == ok_view(group_info_json(g), opt_json(echo)),
            Err(e) => upstream_failure(e, r@, opt_json(echo)),
        },
{
    match result {
        Ok(g) => success(group_info_value(&g), echo),
        Err(e) => upstream_failed(e, echo),
    }
}

/// Answers a `get_group_list` call with the groups, or with the upstream
/// failure.
pub fn finish_group_list(result: Result<Vec<GroupInfo>, MilkyClientError>, echo: Option<JsonValue>) -> (r: ApiResponse)
    ensures
        match result {
            Ok(gs) => r@ == ok_view(
                Json::Array(gs@.map_values(|g: GroupInfo| group_info_json(g))),
                opt_json(echo),
            ),
            Err(e) => upstream_failure(e, r@, opt_json(echo)),
        },
{
    match result {
        Ok(gs) => {
            let mut arr: Vec<JsonValue> = Vec::new();
            let mut i: usize = 0;
            assert(crate::json::json_list(arr@) =~= gs@.take(0).map_values(|g: GroupInfo| group_info_json(g)));
            while i < gs.len()
                invariant
                    i <= gs@.len(),
                    crate::json::json_list(arr@) == gs@.take(i as int).map_values(
                        |g: GroupInfo| group_info_json(g),
                    ),
                decreases gs@.len() - i,
            {
                let v = group_info_value(&gs[i]);
                crate::json::arr_push(&mut arr, v);
                assert(gs@.take(i + 1).map_values(|g: GroupInfo| group_info_json(g)) =~= gs@.take(
                    i as int,
                ).map_values(|g: GroupInfo| group_info_json(g)).push(group_info_json(gs@[i as int])));
                i = i + 1;
            }
            assert(gs@.take(gs@.len() as int) =~= gs@);
            success(JsonValue::Array(arr), echo)
        },
        Err(e) => upstream_failed(e, echo),
    }
}

/// Answers a `get_group_member_info` call with the member, or with the
/// upstream failure.
pub fn finish_member_info(result: Result<GroupMemberInfo, MilkyClientError>, echo: Option<JsonValue>) -> (r: ApiResponse)
    ensures
        match result {
            Ok(m) => r@ == ok_view(member_info_json(m), opt_json(echo)),
            Err(e) => upstream_failure(e, r@, opt_json(echo)),
        },
{
    match result {
        Ok(m) => success(member_info_value(&m), echo),
        Err(e) => upstream_failed(e, echo),
    }
}

/// Answers a `get_group_member_list` call with the members, or with the
/// upstream failure.
pub fn finish_member_list(result: Result<Vec<GroupMemberInfo>, MilkyClientError>, echo: Option<JsonValue>) -> (r: ApiResponse)
    ensures
        match result {
            Ok(ms) => r@ == ok_view(
                Json::Array(ms@.map_values(|m: GroupMemberInfo| member_info_json(m))),
                opt_json(echo),
            ),
            Err(e) => upstream_failure(e, r@, opt_json(echo)),
        },
{
    match result {
        Ok(ms) => {
            let mut arr: Vec<JsonValue> = Vec::new();
            let mut i: usize = 0;
            assert(crate::json::json_list(arr@) =~= ms@.take(0).map_values(
                |m: GroupMemberInfo| member_info_json(m),
            ));
            while i < ms.len()
                invariant
                    i <= ms@.len(),
                    crate::json::json_list(arr@) == ms@.take(i as int).map_values(
                        |m: GroupMemberInfo| member_info_json(m),
                    ),
                decreases ms@.len() - i,
            {
                let v = member_info_value(&ms[i]);
                crate::json::arr_push(&mut arr, v);
                assert(ms@.take(i + 1).map_values(|m: GroupMemberInfo| member_info_json(m)) =~= ms@.take(
                    i as int,
                ).map_values(|m: GroupMemberInfo| member_info_json(m)).push(member_info_json(ms@[i as int])));
                i = i + 1;
            }
            assert(ms@.take(ms@.len() as int) =~= ms@);
            success(JsonValue::Array(arr), echo)
        },
        Err(e) => upstream_failed(e, echo),
    }
}

/// Answers a call that returns nothing (`delete_msg` and the request
/// answers): `null` data, or the upstream failure.
pub fn finish_done(result: Result<(), MilkyClientError>, echo: Option<JsonValue>) -> (r: ApiResponse)
    ensures
        match result {
            Ok(_) => r@ == ok_view(Json::Null, opt_json(echo)),
            Err(e) => upstream_failure(e, r@, opt_json(echo)),
        },
{
    match result {
        Ok(_) => success(JsonValue::Null, echo),
        Err(e) => upstream_failed(e, echo),
    }
}

/// A `get_msg` answer's data for the cached ref `m` and the fetched event.
pub open spec fn get_msg_json(m: MessageRefView, e: InboundEvent, format: Seq<char>) -> Json {
    let built = build_message_spec(format, seg_models(e.segments@));
    let body = seq![
        ("message"@, built.0),
        ("message_id"@, Json::Int(m.onebot_id)),
        ("message_type"@, Json::Str(m.message_type)),
        ("raw_message"@, Json::Str(built.1)),
        ("real_id"@, Json::Int(m.milky_seq)),
        ("sender"@, get_msg_sender_json(e.sender, m.message_type)),
        ("time"@, Json::Int(e.time)),
    ];
    if m.message_type == "group"@ {
        Json::Object(seq![("group_id"@, Json::Int(m.group_id))] + body)
    } else {
        Json::Object(body + seq![("user_id"@, Json::Int(m.user_id))])
    }
}

/// The cache ref of a message the bridge just sent.
pub open spec fn sent_ref(id: i64, group: bool, peer: i64) -> MessageRefView {
    MessageRefView {
        onebot_id: id,
        milky_seq: id,
        message_type: if group {
            "group"@
        } else {
            "private"@
        },
        group_id: if group {
            peer
        } else {
            0
        },
        user_id: if group {
            0
        } else {
            peer
        },
    }
}

impl Service {
    fn finish_send(
        &mut self,
        group: bool,
        peer: i64,
        result: Result<i64, MilkyClientError>,
        echo: Option<JsonValue>,
    ) -> (r: ApiResponse)
        requires
            old(self).wf(),
        ensures
            final(self).wf(),
            final(self).cfg == old(self).cfg,
            final(self).runtime == old(self).runtime,
            final(self).requests == old(self).requests,
            final(self).messages.capacity() == old(self).messages.capacity(),
            match result {
                Ok(id) => final(self).messages.entries() == lru_put_spec(
                    old(self).messages.entries(),
                    old(self).messages.capacity(),
                    id,
                    sent_ref(id, group, peer),
                ) && r@ == ok_view(message_id_json(id), opt_json(echo)),
                Err(e) => final(self).messages == old(self).messages && upstream_failure(
                    e,
                    r@,
                    opt_json(echo),
                ),
            },
    {
        match result {
            Ok(id) => {
                let m = if group {
                    MessageRef {
                        onebot_id: id,
                        milky_seq: id,
                        message_type: String::from_str("group"),
                        group_id: peer,
                        user_id: 0,
                    }
                } else {
                    MessageRef {
                        onebot_id: id,
                        milky_seq: id,
                        message_type: String::from_str("private"),
                        group_id: 0,
                        user_id: peer,
                    }
                };
                self.messages.put(m);
                let mut o: Vec<(String, JsonValue)> = Vec::new();
                obj_push(&mut o, "message_id", JsonValue::Int(id));
                assert(json_entries(o@) =~= message_id_json(id)->Object_0);
                success(JsonValue::Object(o), echo)
            },
            Err(e) => upstream_failed(e, echo),
        }
    }

    /// Finishes a private send: the sent message is cached under the id
    /// upstream gave it, and that id is answered.
    pub fn finish_send_private(
        &mut self,
        user_id: i64,
        result: Result<i64, MilkyClientError>,
        echo: Option<JsonValue>,
    ) -> (r: ApiResponse)
        requires
            old(self).wf(),
        ensures
            final(self).wf(),
            final(self).cfg == old(self).cfg,
            final(self).runtime == old(self).runtime,
            final(self).requests == old(self).requests,
            final(self).messages.capacity() == old(self).messages.capacity(),
            match result {
                Ok(id) => final(self).messages.entries() == lru_put_spec(
                    old(self).messages.entries(),
                    old(self).messages.capacity(),
                    id,
                    sent_ref(id, false, user_id),
                ) && r@ == ok_view(message_id_json(id), opt_json(echo)),
                Err(e) => final(self).messages == old(self).messages && upstream_failure(
                    e,
                    r@,
                    opt_json(echo),
                ),
            },
    {
        self.finish_send(false, user_id, result, echo)
    }

    /// Finishes a group send, as `finish_send_private` does for a group.
    pub fn finish_send_group(
        &mut self,
        group_id: i64,
        result: Result<i64, MilkyClientError>,
        echo: Option<JsonValue>,
    ) -> (r: ApiResponse)
        requires
            old(self).wf(),
        ensures
            final(self).wf(),
            final(self).cfg == old(self).cfg,
            final(self).runtime == old(self).runtime,
            final(self).requests == old(self).requests,
            final(self).messages.capacity() == old(self).messages.capacity(),
            match result {
                Ok(id) => final(self).messages.entries() == lru_put_spec(
                    old(self).messages.entries(),
                    old(self).messages.capacity(),
                    id,
                    sent_ref(id, true, group_id),
                ) && r@ == ok_view(message_id_json(id), opt_json(echo)),
                Err(e) => final(self).messages == old(self).messages && upstream_failure(
                    e,
                    r@,
                    opt_json(echo),
                ),
            },
    {
        self.finish_send(true, group_id, result, echo)
    }

    /// Answers a `get_msg` call for the cached ref `message` with the
    /// fetched event, in the configured message format.
    pub fn finish_get_msg(
        &self,
        message: &MessageRef,
        result: Result<InboundEvent, MilkyClientError>,
        echo: Option<JsonValue>,
    ) -> (r: ApiResponse)
        ensures
            match result {
                Ok(e) => r@ == ok_view(
                    get_msg_json(message@, e, self.cfg.bridge.message_format@),
                    opt_json(echo),
                ),
                Err(e) => upstream_failure(e, r@, opt_json(echo)),
            },
    {
        match result {
            Ok(event) => {
                let ghost ev = event;
                let (msg, raw) = build_onebot_message(
                    self.cfg.bridge.message_format.as_str(),
                    event.segments.as_slice(),
                );
                let ghost mj = msg@;
                let ghost rw = raw@;
                let group = crate::text::str_eq(message.message_type.as_str(), "group");
                let mut o: Vec<(String, JsonValue)> = Vec::new();
                if group {
                    obj_push(&mut o, "group_id", JsonValue::Int(message.group_id));
                }
                obj_push(&mut o, "message", msg);
                obj_push(&mut o, "message_id", JsonValue::Int(message.onebot_id));
                obj_push(&mut o, "message_type", JsonValue::Str(message.message_type.clone()));
                obj_push(&mut o, "raw_message", JsonValue::Str(raw));
                obj_push(&mut o, "real_id", JsonValue::Int(message.milky_seq));
                obj_push(
                    &mut o,
                    "sender",
                    build_get_msg_sender(&event.sender, message.message_type.as_str()),
                );
                obj_push(&mut o, "time", JsonValue::Int(event.time));
                if !group {
                    obj_push(&mut o, "user_id", JsonValue::Int(message.user_id));
                }
                assert(json_entries(o@) =~= get_msg_json(
                    message@,
                    ev,
                    self.cfg.bridge.message_format@,
                )->Object_0);
                success(JsonValue::Object(o), echo)
            },
            Err(e) => upstream_failed(e, echo),
        }
    }
}

/// A message the bridge has just sent is found by the id it answered
/// with: `get_msg` and `delete_msg` for that id go upstream with the sent
/// message's ref.
pub proof fn law_sent_message_found(
    svc: Service,
    id: i64,
    group: bool,
    peer: i64,
    echo: Option<Json>,
)
    requires
        svc.wf(),
    ensures
        ({
            let entries = lru_put_spec(
                svc.messages.entries(),
                svc.messages.capacity(),
                id,
                sent_ref(id, group, peer),
            );
            &&& plan_spec(
                Ok(ActionCall::GetMsg { message_id: id }),
                svc.runtime.login_spec(),
                svc.runtime.status_spec(),
                entries,
                svc.requests.items(),
                echo,
            ) == StepView::Call(CallView::GetMessage(sent_ref(id, group, peer)), echo)
            &&& plan_spec(
                Ok(ActionCall::DeleteMsg { message_id: id }),
                svc.runtime.login_spec(),
                svc.runtime.status_spec(),
                entries,
                svc.requests.items(),
                echo,
            ) == StepView::Call(CallView::DeleteMessage(sent_ref(id, group, peer)), echo)
        }),
{
    law_put_then_get(svc.messages, id, sent_ref(id, group, peer));
}

/// A request the bridge has reported can be answered by the flag it was
/// stored under: a friend request by `set_friend_add_request`, a group
/// request by `set_group_add_request`, the answer going upstream with the
/// request.
pub proof fn law_stored_request_answerable(
    svc: Service,
    request: RequestRef,
    flag: String,
    approve: bool,
    remark: String,
    echo: Option<Json>,
)
    requires
        svc.wf(),
    ensures
        ({
            let items = svc.requests.items().insert(flag@, request);
            &&& request.kind@ == "friend"@ ==> plan_spec(
                Ok(ActionCall::SetFriendAddRequest { flag, approve, remark }),
                svc.runtime.login_spec(),
                svc.runtime.status_spec(),
                svc.messages.entries(),
                items,
                echo,
            ) == StepView::Call(CallView::AnswerFriendRequest(request@, approve, remark@), echo)
            &&& request.kind@ == "group"@ ==> plan_spec(
                Ok(ActionCall::SetGroupAddRequest { flag, approve }),
                svc.runtime.login_spec(),
                svc.runtime.status_spec(),
                svc.messages.entries(),
                items,
                echo,
            ) == StepView::Call(CallView::AnswerGroupRequest(request@, approve), echo)
        }),
{
    let items = svc.requests.items().insert(flag@, request);
    assert(items.dom().contains(flag@));
    assert(items[flag@] == request);
}

/// A message the bridge has passed downstream can be fetched by its id:
/// after `translate` caches it (with fewer segments than the cache has
/// room for), `get_msg` for its id goes upstream with its ref.
pub proof fn law_translated_message_found(svc: Service, e: InboundEvent, echo: Option<Json>)
    requires
        svc.wf(),
        e.kind is MessagePrivate || e.kind is MessageGroup,
        e.segments@.len() < svc.messages.capacity(),
    ensures
        plan_spec(
            Ok(ActionCall::GetMsg { message_id: e.message_id }),
            svc.runtime.login_spec(),
            svc.runtime.status_spec(),
            messages_after(e, svc.messages.entries(), svc.messages.capacity()),
            svc.requests.items(),
            echo,
        ) == StepView::Call(CallView::GetMessage(inbound_ref(e)), echo),
{
    law_translated_message_cached(e, svc.messages.entries(), svc.messages.capacity());
}

/// Looking a name up in a string member that may be left out.
proof fn lemma_str_member_get(key: Seq<char>, v: Seq<char>, k: Seq<char>)
    ensures
        obj_get(str_member(key, v), k) == if key == k && v.len() > 0 {
            Some(Json::Str(v))
        } else {
            None::<Json>
        },
{
    if v.len() > 0 {
        lemma_obj_get_single(key, Json::Str(v), k);
    }
}

/// Looking a name up in an integer member that may be left out.
proof fn lemma_int_member_get(key: Seq<char>, v: i32, k: Seq<char>)
    ensures
        obj_get(int_member(key, v), k) == if key == k && v != 0 {
            Some(Json::Int(v as i64))
        } else {
            None::<Json>
        },
{
    if v != 0 {
        lemma_obj_get_single(key, Json::Int(v as i64), k);
    }
}

/// The names a group or member object uses, told apart.
proof fn lemma_info_keys()
    ensures
        "group_id"@ != "group_name"@,
        "group_id"@ != "member_count"@,
        "group_id"@ != "max_member_count"@,
        "group_name"@ != "member_count"@,
        "group_name"@ != "max_member_count"@,
        "member_count"@ != "max_member_count"@,
        "age"@ != "area"@ && "age"@ != "card"@ && "age"@ != "group_id"@ && "age"@ != "level"@
            && "age"@ != "nickname"@ && "age"@ != "role"@ && "age"@ != "sex"@ && "age"@ != "title"@
            && "age"@ != "user_id"@,
        "area"@ != "card"@ && "area"@ != "group_id"@ && "area"@ != "level"@ && "area"@
            != "nickname"@ && "area"@ != "role"@ && "area"@ != "sex"@ && "area"@ != "title"@
            && "area"@ != "user_id"@,
        "card"@ != "group_id"@ && "card"@ != "level"@ && "card"@ != "nickname"@ && "card"@
            != "role"@ && "card"@ != "sex"@ && "card"@ != "title"@ && "card"@ != "user_id"@,
        "group_id"@ != "level"@ && "group_id"@ != "nickname"@ && "group_id"@ != "role"@
            && "group_id"@ != "sex"@ && "group_id"@ != "title"@ && "group_id"@ != "user_id"@,
        "level"@ != "nickname"@ && "level"@ != "role"@ && "level"@ != "sex"@ && "level"@
            != "title"@ && "level"@ != "user_id"@,
        "nickname"@ != "role"@ && "nickname"@ != "sex"@ && "nickname"@ != "title"@ && "nickname"@
            != "user_id"@,
        "role"@ != "sex"@ && "role"@ != "title"@ && "role"@ != "user_id"@,
        "sex"@ != "title"@ && "sex"@ != "user_id"@,
        "title"@ != "user_id"@,
{
    reveal_strlit("group_id");
    reveal_strlit("group_name");
    reveal_strlit("member_count");
    reveal_strlit("max_member_count");
    reveal_strlit("age");
    reveal_strlit("area");
    reveal_strlit("card");
    reveal_strlit("level");
    reveal_strlit("nickname");
    reveal_strlit("role");
    reveal_strlit("sex");
    reveal_strlit("title");
    reveal_strlit("user_id");
    assert("group_id"@[6] != "group_name"@[6]);
    assert("member_count"@[1] != "max_member_count"@[1]);
    assert("age"@[1] != "area"@[1]);
    assert("card"@[0] != "level"@[0]);
    assert("card"@[0] != "role"@[0]);
    assert("group_id"@[0] != "nickname"@[0]);
    assert("level"@[0] != "title"@[0]);
    assert("age"@[0] != "sex"@[0]);
    assert("area"@[0] != "card"@[0]);
    assert("area"@[0] != "role"@[0]);
    assert("age"@[0] != "group_id"@[0]);
}

/// What `group_info_json` gives for each name.
proof fn lemma_group_info_get(g: GroupInfo, k: Seq<char>)
    ensures
        obj_get(group_info_json(g)->Object_0, k) == if k == "group_id"@ {
            Some(Json::Int(g.group_id))
        } else if k == "group_name"@ {
            Some(Json::Str(g.group_name@))
        } else if k == "max_member_count"@ && g.max_member_count != 0 {
            Some(Json::Int(g.max_member_count as i64))
        } else if k == "member_count"@ && g.member_count != 0 {
            Some(Json::Int(g.member_count as i64))
        } else {
            None::<Json>
        },
{
    lemma_info_keys();
    let base = seq![("group_id"@, Json::Int(g.group_id)), ("group_name"@, Json::Str(g.group_name@))];
    let a = int_member("max_member_count"@, g.max_member_count);
    let b = int_member("member_count"@, g.member_count);
    lemma_obj_get_concat(base + a, b, k);
    lemma_obj_get_concat(base, a, k);
    assert(base =~= seq![("group_id"@, Json::Int(g.group_id))] + seq![("group_name"@, Json::Str(g.group_name@))]);
    lemma_obj_get_concat(seq![("group_id"@, Json::Int(g.group_id))], seq![("group_name"@, Json::Str(g.group_name@))], k);
    lemma_obj_get_single("group_id"@, Json::Int(g.group_id), k);
    lemma_obj_get_single("group_name"@, Json::Str(g.group_name@), k);
    lemma_int_member_get("max_member_count"@, g.max_member_count, k);
    lemma_int_member_get("member_count"@, g.member_count, k);
}

/// The group `get_group_info` and `get_group_list` answer with carries the
/// group's id and name, its member count under `member_count` and its
/// capacity under `max_member_count` (each left out when 0).
pub proof fn law_group_info_fields(g: GroupInfo)
    ensures
        group_info_json(g) is Object,
        obj_get(group_info_json(g)->Object_0, "group_id"@) == Some(Json::Int(g.group_id)),
        obj_get(group_info_json(g)->Object_0, "group_name"@) == Some(Json::Str(g.group_name@)),
        obj_get(group_info_json(g)->Object_0, "member_count"@) == if g.member_count != 0 {
            Some(Json::Int(g.member_count as i64))
        } else {
            None::<Json>
        },
        obj_get(group_info_json(g)->Object_0, "max_member_count"@) == if g.max_member_count != 0 {
            Some(Json::Int(g.max_member_count as i64))
        } else {
            None::<Json>
        },
{
    lemma_info_keys();
    lemma_group_info_get(g, "group_id"@);
    lemma_group_info_get(g, "group_name"@);
    lemma_group_info_get(g, "member_count"@);
    lemma_group_info_get(g, "max_member_count"@);
}

/// What `member_info_json` gives for each name.
proof fn lemma_member_info_get(m: GroupMemberInfo, k: Seq<char>)
    ensures
        obj_get(member_info_json(m)->Object_0, k) == if k == "group_id"@ {
            Some(Json::Int(m.group_id))
        } else if k == "user_id"@ {
            Some(Json::Int(m.user_id))
        } else if k == "age"@ && m.age != 0 {
            Some(Json::Int(m.age as i64))
        } else if k == "area"@ && m.area@.len() > 0 {
            Some(Json::Str(m.area@))
        } else if k == "card"@ && m.card@.len() > 0 {
            Some(Json::Str(m.card@))
        } else if k == "level"@ && m.level@.len() > 0 {
            Some(Json::Str(m.level@))
        } else if k == "nickname"@ && m.nickname@.len() > 0 {
            Some(Json::Str(m.nickname@))
        } else if k == "role"@ && m.role@.len() > 0 {
            Some(Json::Str(m.role@))
        } else if k == "sex"@ && m.sex@.len() > 0 {
            Some(Json::Str(m.sex@))
        } else if k == "title"@ && m.title@.len() > 0 {
            Some(Json::Str(m.title@))
        } else {
            None::<Json>
        },
{
    lemma_info_keys();
    let p0 = int_member("age"@, m.age);
    let p1 = str_member("area"@, m.area@);
    let p2 = str_member("card"@, m.card@);
    let p3 = seq![("group_id"@, Json::Int(m.group_id))];
    let p4 = str_member("level"@, m.level@);
    let p5 = str_member("nickname"@, m.nickname@);
    let p6 = str_member("role"@, m.role@);
    let p7 = str_member("sex"@, m.sex@);
    let p8 = str_member("title"@, m.title@);
    let p9 = seq![("user_id"@, Json::Int(m.user_id))];
    lemma_obj_get_concat(p0, p1, k);
    lemma_obj_get_concat(p0 + p1, p2, k);
    lemma_obj_get_concat(p0 + p1 + p2, p3, k);
    lemma_obj_get_concat(p0 + p1 + p2 + p3, p4, k);
    lemma_obj_get_concat(p0 + p1 + p2 + p3 + p4, p5, k);
    lemma_obj_get_concat(p0 + p1 + p2 + p3 + p4 + p5, p6, k);
    lemma_obj_get_concat(p0 + p1 + p2 + p3 + p4 + p5 + p6, p7, k);
    lemma_obj_get_concat(p0 + p1 + p2 + p3 + p4 + p5 + p6 + p7, p8, k);
    lemma_obj_get_concat(p0 + p1 + p2 + p3 + p4 + p5 + p6 + p7 + p8, p9, k);
    lemma_int_member_get("age"@, m.age, k);
    lemma_str_member_get("area"@, m.area@, k);
    lemma_str_member_get("card"@, m.card@, k);
    lemma_obj_get_single("group_id"@, Json::Int(m.group_id), k);
    lemma_str_member_get("level"@, m.level@, k);
    lemma_str_member_get("nickname"@, m.nickname@, k);
    lemma_str_member_get("role"@, m.role@, k);
    lemma_str_member_get("sex"@, m.sex@, k);
    lemma_str_member_get("title"@, m.title@, k);
    lemma_obj_get_single("user_id"@, Json::Int(m.user_id), k);
}

/// The member `get_group_member_info` and `get_group_member_list` answer
/// with carries the member's group and user ids, and each of its other
/// fields under its own name (left out when empty or 0).
pub proof fn law_member_info_fields(m: GroupMemberInfo)
    ensures
        member_info_json(m) is Object,
        obj_get(member_info_json(m)->Object_0, "group_id"@) == Some(Json::Int(m.group_id)),
        obj_get(member_info_json(m)->Object_0, "user_id"@) == Some(Json::Int(m.user_id)),
        obj_get(member_info_json(m)->Object_0, "age"@) == if m.age != 0 {
            Some(Json::Int(m.age as i64))
        } else {
            None::<Json>
        },
        obj_get(member_info_json(m)->Object_0, "area"@) == if m.area@.len() > 0 {
            Some(Json::Str(m.area@))
        } else {
            None::<Json>
        },
        obj_get(member_info_json(m)->Object_0, "card"@) == if m.card@.len() > 0 {
            Some(Json::Str(m.card@))
        } else {
            None::<Json>
        },
        obj_get(member_info_json(m)->Object_0, "level"@) == if m.level@.len() > 0 {
            Some(Json::Str(m.level@))
        } else {
            None::<Json>
        },
        obj_get(member_info_json(m)->Object_0, "nickname"@) == if m.nickname@.len() > 0 {
            Some(Json::Str(m.nickname@))
        } else {
            None::<Json>
        },
        obj_get(member_info_json(m)->Object_0, "role"@) == if m.role@.len() > 0 {
            Some(Json::Str(m.role@))
        } else {
            None::<Json>
        },
        obj_get(member_info_json(m)->Object_0, "sex"@) == if m.sex@.len() > 0 {
            Some(Json::Str(m.sex@))
        } else {
            None::<Json>
        },
        obj_get(member_info_json(m)->Object_0, "title"@) == if m.title@.len() > 0 {
            Some(Json::Str(m.title@))
        } else {
            None::<Json>
        },
{
    lemma_info_keys();
    lemma_member_info_get(m, "group_id"@);
    lemma_member_info_get(m, "user_id"@);
    lemma_member_info_get(m, "age"@);
    lemma_member_info_get(m, "area"@);
    lemma_member_info_get(m, "card"@);
    lemma_member_info_get(m, "level"@);
    lemma_member_info_get(m, "nickname"@);
    lemma_member_info_get(m, "role"@);
    lemma_member_info_get(m, "sex"@);
    lemma_member_info_get(m, "title"@);
}

proof fn lemma_answer_keys()
    ensures
        "nickname"@ == seq!['n', 'i', 'c', 'k', 'n', 'a', 'm', 'e'],
        "user_id"@ == seq!['u', 's', 'e', 'r', '_', 'i', 'd'],
        "good"@ == seq!['g', 'o', 'o', 'd'],
        "online"@ == seq!['o', 'n', 'l', 'i', 'n', 'e'],
        "group_id"@ == seq!['g', 'r', 'o', 'u', 'p', '_', 'i', 'd'],
        "message"@ == seq!['m', 'e', 's', 's', 'a', 'g', 'e'],
        "message_id"@ == seq!['m', 'e', 's', 's', 'a', 'g', 'e', '_', 'i', 'd'],
        "message_type"@ == seq!['m', 'e', 's', 's', 'a', 'g', 'e', '_', 't', 'y', 'p', 'e'],
        "raw_message"@ == seq!['r', 'a', 'w', '_', 'm', 'e', 's', 's', 'a', 'g', 'e'],
        "real_id"@ == seq!['r', 'e', 'a', 'l', '_', 'i', 'd'],
        "sender"@ == seq!['s', 'e', 'n', 'd', 'e', 'r'],
        "time"@ == seq!['t', 'i', 'm', 'e'],
        "group"@ == seq!['g', 'r', 'o', 'u', 'p'],
        "private"@ == seq!['p', 'r', 'i', 'v', 'a', 't', 'e'],
{
    reveal_strlit("nickname");
    reveal_strlit("user_id");
    reveal_strlit("good");
    reveal_strlit("online");
    reveal_strlit("group_id");
    reveal_strlit("message");
    reveal_strlit("message_id");
    reveal_strlit("message_type");
    reveal_strlit("raw_message");
    reveal_strlit("real_id");
    reveal_strlit("sender");
    reveal_strlit("time");
    reveal_strlit("group");
    reveal_strlit("private");
}

/// The answers made without an upstream call report the bridge's own
/// state: `get_login_info` the bot's id as `user_id` and its nickname,
/// `get_status` whether it is online and whether it is good.
pub proof fn law_local_answer_fields(login: LoginInfo, s: Status)
    ensures
        login_json(login) is Object,
        obj_get(login_json(login)->Object_0, "user_id"@) == Some(Json::Int(login.self_id)),
        obj_get(login_json(login)->Object_0, "nickname"@) == Some(Json::Str(login.nickname@)),
        status_json(s) is Object,
        obj_get(status_json(s)->Object_0, "online"@) == Some(Json::Bool(s.online)),
        obj_get(status_json(s)->Object_0, "good"@) == Some(Json::Bool(s.good)),
{
    lemma_answer_keys();
    lemma_obj_get_at(login_json(login)->Object_0, "nickname"@, 0);
    lemma_obj_get_at(login_json(login)->Object_0, "user_id"@, 1);
    lemma_obj_get_at(status_json(s)->Object_0, "good"@, 0);
    lemma_obj_get_at(status_json(s)->Object_0, "online"@, 1);
}

/// A `get_msg` answer reports the cached ref's ids (the OneBot id as
/// `message_id`, the upstream number as `real_id`), its type, its group
/// (for a group message) or its user (otherwise), the fetched message's
/// time, and the message in the configured format with its raw CQ text.
pub proof fn law_get_msg_fields(m: MessageRefView, e: InboundEvent, format: Seq<char>)
    ensures
        get_msg_json(m, e, format) is Object,
        ({
            let o = get_msg_json(m, e, format)->Object_0;
            let built = build_message_spec(format, seg_models(e.segments@));
            let group = m.message_type == "group"@;
            &&& obj_get(o, "message_id"@) == Some(Json::Int(m.onebot_id))
            &&& obj_get(o, "real_id"@) == Some(Json::Int(m.milky_seq))
            &&& obj_get(o, "message_type"@) == Some(Json::Str(m.message_type))
            &&& obj_get(o, "time"@) == Some(Json::Int(e.time))
            &&& obj_get(o, "message"@) == Some(built.0)
            &&& obj_get(o, "raw_message"@) == Some(Json::Str(built.1))
            &&& obj_get(o, "group_id"@) == if group {
                Some(Json::Int(m.group_id))
            } else {
                None::<Json>
            }
            &&& obj_get(o, "user_id"@) == if group {
                None::<Json>
            } else {
                Some(Json::Int(m.user_id))
            }
        }),
{
    lemma_answer_keys();
    let o = get_msg_json(m, e, format)->Object_0;
    let d: int = if m.message_type == "group"@ { 1 } else { 0 };
    if m.message_type == "group"@ {
        lemma_obj_get_at(o, "group_id"@, 0);
        lemma_obj_get_none(o, "user_id"@);
    } else {
        lemma_obj_get_none(o, "group_id"@);
        lemma_obj_get_at(o, "user_id"@, 7);
    }
    lemma_obj_get_at(o, "message"@, d);
    lemma_obj_get_at(o, "message_id"@, d + 1);
    lemma_obj_get_at(o, "message_type"@, d + 2);
    lemma_obj_get_at(o, "raw_message"@, d + 3);
    lemma_obj_get_at(o, "real_id"@, d + 4);
    lemma_obj_get_at(o, "time"@, d + 6);
}

/// Whether a step is a refusal with return code `code`.
pub open spec fn refused_with(step: StepView, code: i32) -> bool {
    step matches StepView::Reply(r) && r.status == "failed"@ && r.retcode == code
}

/// The queries and lookups: login, status, version and `can_send` are
/// answered from the bridge itself; group and member queries go upstream
/// with the ids they name, in order; a message id or request flag the
/// bridge does not hold is refused with 1502, a flag of the other kind of
/// request with 1400; parameters that could not be read are refused with
/// 1400, and an action the bridge does not know with 1503.
pub proof fn law_plan_queries(
    login: LoginInfo,
    status: Status,
    entries: Seq<(i64, MessageRefView)>,
    items: Map<Seq<char>, RequestRef>,
    echo: Option<Json>,
    g: i64,
    u: i64,
    id: i64,
    flag: String,
    approve: bool,
    remark: String,
    action: String,
    why: String,
)
    ensures
        plan_spec(Ok(ActionCall::GetLoginInfo), login, status, entries, items, echo)
            == StepView::Reply(ok_view(login_json(login), echo)),
        plan_spec(Ok(ActionCall::GetStatus), login, status, entries, items, echo)
            == StepView::Reply(ok_view(status_json(status), echo)),
        plan_spec(Ok(ActionCall::GetVersionInfo), login, status, entries, items, echo)
            == StepView::Reply(ok_view(version_json(), echo)),
        plan_spec(Ok(ActionCall::CanSend), login, status, entries, items, echo)
            == StepView::Reply(ok_view(yes_json(), echo)),
        plan_spec(Ok(ActionCall::GetGroupInfo { group_id: g }), login, status, entries, items, echo)
            == StepView::Call(CallView::GetGroupInfo(g), echo),
        plan_spec(Ok(ActionCall::GetGroupList), login, status, entries, items, echo)
            == StepView::Call(CallView::GetGroupList, echo),
        plan_spec(
            Ok(ActionCall::GetGroupMemberInfo { group_id: g, user_id: u }),
            login,
            status,
            entries,
            items,
            echo,
        ) == StepView::Call(CallView::GetGroupMemberInfo(g, u), echo),
        plan_spec(
            Ok(ActionCall::GetGroupMemberList { group_id: g }),
            login,
            status,
            entries,
            items,
            echo,
        ) == StepView::Call(CallView::GetGroupMemberList(g), echo),
        lookup(entries, id) is None ==> refused_with(
            plan_spec(Ok(ActionCall::GetMsg { message_id: id }), login, status, entries, items, echo),
            1502,
        ) && refused_with(
            plan_spec(Ok(ActionCall::DeleteMsg { message_id: id }), login, status, entries, items, echo),
            1502,
        ),
        !items.dom().contains(flag@) ==> refused_with(
            plan_spec(
                Ok(ActionCall::SetFriendAddRequest { flag, approve, remark }),
                login,
                status,
                entries,
                items,
                echo,
            ),
            1502,
        ) && refused_with(
            plan_spec(
                Ok(ActionCall::SetGroupAddRequest { flag, approve }),
                login,
                status,
                entries,
                items,
                echo,
            ),
            1502,
        ),
        items.dom().contains(flag@) && items[flag@].kind@ == "group"@ ==> refused_with(
            plan_spec(
                Ok(ActionCall::SetFriendAddRequest { flag, approve, remark }),
                login,
                status,
                entries,
                items,
                echo,
            ),
            1400,
        ),
        items.dom().contains(flag@) && items[flag@].kind@ == "friend"@ ==> refused_with(
            plan_spec(
                Ok(ActionCall::SetGroupAddRequest { flag, approve }),
                login,
                status,
                entries,
                items,
                echo,
            ),
            1400,
        ),
        refused_with(
            plan_spec(Ok(ActionCall::Unsupported { action }), login, status, entries, items, echo),
            1503,
        ),
        plan_spec(Err(why), login, status, entries, items, echo) == StepView::Reply(
            failed_view(1400, why@, echo),
        ),
{
    reveal_strlit("failed");
    reveal_strlit("friend");
    reveal_strlit("group");
    assert("friend"@ != "group"@) by {
        assert("friend"@[0] != "group"@[0]);
    }
}

/// Sending: a private or group send goes upstream to the user or group it
/// names with the message's segments; `send_msg` goes to the group when
/// its type is `group` and a group is named, to the user when its type is
/// `private` or empty and a user is named, and is refused with 1400
/// otherwise; a message that cannot be read is refused with 1400.
pub proof fn law_plan_sends(
    login: LoginInfo,
    status: Status,
    entries: Seq<(i64, MessageRefView)>,
    items: Map<Seq<char>, RequestRef>,
    echo: Option<Json>,
    user_id: i64,
    group_id: i64,
    message: JsonValue,
    auto_escape: bool,
    message_type: String,
)
    ensures
        ({
            let send_msg = plan_spec(
                Ok(
                    ActionCall::SendMsg {
                        message_type,
                        user_id,
                        group_id,
                        message,
                        auto_escape,
                    },
                ),
                login,
                status,
                entries,
                items,
                echo,
            );
            let private = plan_spec(
                Ok(ActionCall::SendPrivateMsg { user_id, message, auto_escape }),
                login,
                status,
                entries,
                items,
                echo,
            );
            let group = plan_spec(
                Ok(ActionCall::SendGroupMsg { group_id, message, auto_escape }),
                login,
                status,
                entries,
                items,
                echo,
            );
            match message_outcome(message@, auto_escape) {
                Err(_) => refused_with(send_msg, 1400) && refused_with(private, 1400)
                    && refused_with(group, 1400),
                Ok(segs) => {
                    &&& private == StepView::Call(CallView::SendPrivate(user_id, segs), echo)
                    &&& group == StepView::Call(CallView::SendGroup(group_id, segs), echo)
                    &&& (message_type@ == "group"@ && group_id != 0 ==> send_msg == StepView::Call(
                        CallView::SendGroup(group_id, segs),
                        echo,
                    ))
                    &&& ((message_type@ == "private"@ || message_type@.len() == 0) && user_id != 0
                        ==> send_msg == StepView::Call(CallView::SendPrivate(user_id, segs), echo))
                    &&& (!(message_type@ == "group"@ && group_id != 0) && !((message_type@
                        == "private"@ || message_type@.len() == 0) && user_id != 0) ==> refused_with(
                        send_msg,
                        1400,
                    ))
                },
            }
        }),
{
    reveal_strlit("failed");
    reveal_strlit("private");
    reveal_strlit("group");
    reveal_strlit("");
    assert(""@ =~= Seq::<char>::empty());
    assert("private"@ != "group"@) by {
        assert("private"@[0] != "group"@[0]);
    }
    if message_type@.len() == 0 {
        assert(message_type@ =~= ""@);
    }
}

proof fn lemma_action_literals()
    ensures
        "send_private_msg"@ == seq!['s', 'e', 'n', 'd', '_', 'p', 'r', 'i', 'v', 'a', 't', 'e', '_', 'm', 's', 'g'],
        "send_group_msg"@ == seq!['s', 'e', 'n', 'd', '_', 'g', 'r', 'o', 'u', 'p', '_', 'm', 's', 'g'],
        "send_msg"@ == seq!['s', 'e', 'n', 'd', '_', 'm', 's', 'g'],
        "get_login_info"@ == seq!['g', 'e', 't', '_', 'l', 'o', 'g', 'i', 'n', '_', 'i', 'n', 'f', 'o'],
        "get_status"@ == seq!['g', 'e', 't', '_', 's', 't', 'a', 't', 'u', 's'],
        "get_version_info"@ == seq!['g', 'e', 't', '_', 'v', 'e', 'r', 's', 'i', 'o', 'n', '_', 'i', 'n', 'f', 'o'],
        "can_send_image"@ == seq!['c', 'a', 'n', '_', 's', 'e', 'n', 'd', '_', 'i', 'm', 'a', 'g', 'e'],
        "can_send_record"@ == seq!['c', 'a', 'n', '_', 's', 'e', 'n', 'd', '_', 'r', 'e', 'c', 'o', 'r', 'd'],
        "get_group_info"@ == seq!['g', 'e', 't', '_', 'g', 'r', 'o', 'u', 'p', '_', 'i', 'n', 'f', 'o'],
        "get_group_list"@ == seq!['g', 'e', 't', '_', 'g', 'r', 'o', 'u', 'p', '_', 'l', 'i', 's', 't'],
        "get_group_member_info"@ == seq!['g', 'e', 't', '_', 'g', 'r', 'o', 'u', 'p', '_', 'm', 'e', 'm', 'b', 'e', 'r', '_', 'i', 'n', 'f', 'o'],
        "get_group_member_list"@ == seq!['g', 'e', 't', '_', 'g', 'r', 'o', 'u', 'p', '_', 'm', 'e', 'm', 'b', 'e', 'r', '_', 'l', 'i', 's', 't'],
        "delete_msg"@ == seq!['d', 'e', 'l', 'e', 't', 'e', '_', 'm', 's', 'g'],
        "get_msg"@ == seq!['g', 'e', 't', '_', 'm', 's', 'g'],
        "set_friend_add_request"@ == seq!['s', 'e', 't', '_', 'f', 'r', 'i', 'e', 'n', 'd', '_', 'a', 'd', 'd', '_', 'r', 'e', 'q', 'u', 'e', 's', 't'],
        "set_group_add_request"@ == seq!['s', 'e', 't', '_', 'g', 'r', 'o', 'u', 'p', '_', 'a', 'd', 'd', '_', 'r', 'e', 'q', 'u', 'e', 's', 't'],
{
    reveal_strlit("send_private_msg");
    reveal_strlit("send_group_msg");
    reveal_strlit("send_msg");
    reveal_strlit("get_login_info");
    reveal_strlit("get_status");
    reveal_strlit("get_version_info");
    reveal_strlit("can_send_image");
    reveal_strlit("can_send_record");
    reveal_strlit("get_group_info");
    reveal_strlit("get_group_list");
    reveal_strlit("get_group_member_info");
    reveal_strlit("get_group_member_list");
    reveal_strlit("delete_msg");
    reveal_strlit("get_msg");
    reveal_strlit("set_friend_add_request");
    reveal_strlit("set_group_add_request");
}

/// Each action name the bridge knows routes to its own action, and any
/// other name to `Unsupported`.
pub proof fn law_action_routes(other: Seq<char>)
    ensures
        action_spec("send_private_msg"@) == Action::SendPrivateMsg,
        action_spec("send_group_msg"@) == Action::SendGroupMsg,
        action_spec("send_msg"@) == Action::SendMsg,
        action_spec("get_login_info"@) == Action::GetLoginInfo,
        action_spec("get_status"@) == Action::GetStatus,
        action_spec("get_version_info"@) == Action::GetVersionInfo,
        action_spec("can_send_image"@) == Action::CanSendImage,
        action_spec("can_send_record"@) == Action::CanSendRecord,
        action_spec("get_group_info"@) == Action::GetGroupInfo,
        action_spec("get_group_list"@) == Action::GetGroupList,
        action_spec("get_group_member_info"@) == Action::GetGroupMemberInfo,
        action_spec("get_group_member_list"@) == Action::GetGroupMemberList,
        action_spec("delete_msg"@) == Action::DeleteMsg,
        action_spec("get_msg"@) == Action::GetMsg,
        action_spec("set_friend_add_request"@) == Action::SetFriendAddRequest,
        action_spec("set_group_add_request"@) == Action::SetGroupAddRequest,
        (other != "send_private_msg"@ && other != "send_group_msg"@ && other != "send_msg"@ && other != "get_login_info"@ && other != "get_status"@ && other != "get_version_info"@ && other != "can_send_image"@ && other != "can_send_record"@ && other != "get_group_info"@ && other != "get_group_list"@ && other != "get_group_member_info"@ && other != "get_group_member_list"@ && other != "delete_msg"@ && other != "get_msg"@ && other != "set_friend_add_request"@ && other != "set_group_add_request"@ && true) ==> action_spec(other) == Action::Unsupported,
{
    lemma_action_literals();
    assert("send_group_msg"@.len() != "send_private_msg"@.len());
    assert("send_msg"@.len() != "send_private_msg"@.len());
    assert("send_msg"@.len() != "send_group_msg"@.len());
    assert("get_login_info"@.len() != "send_private_msg"@.len());
    assert("get_login_info"@[0] != "send_group_msg"@[0]);
    assert("get_login_info"@.len() != "send_msg"@.len());
    assert("get_status"@.len() != "send_private_msg"@.len());
    assert("get_status"@.len() != "send_group_msg"@.len());
    assert("get_status"@.len() != "send_msg"@.len());
    assert("get_status"@.len() != "get_login_info"@.len());
    assert("get_version_info"@[0] != "send_private_msg"@[0]);
    assert("get_version_info"@.len() != "send_group_msg"@.len());
    assert("get_version_info"@.len() != "send_msg"@.len());
    assert("get_version_info"@.len() != "get_login_info"@.len());
    assert("get_version_info"@.len() != "get_status"@.len());
    assert("can_send_image"@.len() != "send_private_msg"@.len());
    assert("can_send_image"@[0] != "send_group_msg"@[0]);
    assert("can_send_image"@.len() != "send_msg"@.len());
    assert("can_send_image"@[0] != "get_login_info"@[0]);
    assert("can_send_image"@.len() != "get_status"@.len());
    assert("can_send_image"@.len() != "get_version_info"@.len());
    assert("can_send_record"@.len() != "send_private_msg"@.len());
    assert("can_send_record"@.len() != "send_group_msg"@.len());
    assert("can_send_record"@.len() != "send_msg"@.len());
    assert("can_send_record"@.len() != "get_login_info"@.len());
    assert("can_send_record"@.len() != "get_status"@.len());
    assert("can_send_record"@.len() != "get_version_info"@.len());
    assert("can_send_record"@.len() != "can_send_image"@.len());
    assert("get_group_info"@.len() != "send_private_msg"@.len());
    assert("get_group_info"@[0] != "send_group_msg"@[0]);
    assert("get_group_info"@.len() != "send_msg"@.len());
    assert("get_group_info"@[4] != "get_login_info"@[4]);
    assert("get_group_info"@.len() != "get_status"@.len());
    assert("get_group_info"@.len() != "get_version_info"@.len());
    assert("get_group_info"@[0] != "can_send_image"@[0]);
    assert("get_group_info"@.len() != "can_send_record"@.len());
    assert("get_group_list"@.len() != "send_private_msg"@.len());
    assert("get_group_list"@[0] != "send_group_msg"@[0]);
    assert("get_group_list"@.len() != "send_msg"@.len());
    assert("get_group_list"@[4] != "get_login_info"@[4]);
    assert("get_group_list"@.len() != "get_status"@.len());
    assert("get_group_list"@.len() != "get_version_info"@.len());
    assert("get_group_list"@[0] != "can_send_image"@[0]);
    assert("get_group_list"@.len() != "can_send_record"@.len());
    assert("get_group_list"@[10] != "get_group_info"@[10]);
    assert("get_group_member_info"@.len() != "send_private_msg"@.len());
    assert("get_group_member_info"@.len() != "send_group_msg"@.len());
    assert("get_group_member_info"@.len() != "send_msg"@.len());
    assert("get_group_member_info"@.len() != "get_login_info"@.len());
    assert("get_group_member_info"@.len() != "get_status"@.len());
    assert("get_group_member_info"@.len() != "get_version_info"@.len());
    assert("get_group_member_info"@.len() != "can_send_image"@.len());
    assert("get_group_member_info"@.len() != "can_send_record"@.len());
    assert("get_group_member_info"@.len() != "get_group_info"@.len());
    assert("get_group_member_info"@.len() != "get_group_list"@.len());
    assert("get_group_member_list"@.len() != "send_private_msg"@.len());
    assert("get_group_member_list"@.len() != "send_group_msg"@.len());
    assert("get_group_member_list"@.len() != "send_msg"@.len());
    assert("get_group_member_list"@.len() != "get_login_info"@.len());
    assert("get_group_member_list"@.len() != "get_status"@.len());
    assert("get_group_member_list"@.len() != "get_version_info"@.len());
    assert("get_group_member_list"@.len() != "can_send_image"@.len());
    assert("get_group_member_list"@.len() != "can_send_record"@.len());
    assert("get_group_member_list"@.len() != "get_group_info"@.len());
    assert("get_group_member_list"@.len() != "get_group_list"@.len());
    assert("get_group_member_list"@[17] != "get_group_member_info"@[17]);
    assert("delete_msg"@.len() != "send_private_msg"@.len());
    assert("delete_msg"@.len() != "send_group_msg"@.len());
    assert("delete_msg"@.len() != "send_msg"@.len());
    assert("delete_msg"@.len() != "get_login_info"@.len());
    assert("delete_msg"@[0] != "get_status"@[0]);
    assert("delete_msg"@.len() != "get_version_info"@.len());
    assert("delete_msg"@.len() != "can_send_image"@.len());
    assert("delete_msg"@.len() != "can_send_record"@.len());
    assert("delete_msg"@.len() != "get_group_info"@.len());
    assert("delete_msg"@.len() != "get_group_list"@.len());
    assert("delete_msg"@.len() != "get_group_member_info"@.len());
    assert("delete_msg"@.len() != "get_group_member_list"@.len());
    assert("get_msg"@.len() != "send_private_msg"@.len());
    assert("get_msg"@.len() != "send_group_msg"@.len());
    assert("get_msg"@.len() != "send_msg"@.len());
    assert("get_msg"@.len() != "get_login_info"@.len());
    assert("get_msg"@.len() != "get_status"@.len());
    assert("get_msg"@.len() != "get_version_info"@.len());
    assert("get_msg"@.len() != "can_send_image"@.len());
    assert("get_msg"@.len() != "can_send_record"@.len());
    assert("get_msg"@.len() != "get_group_info"@.len());
    assert("get_msg"@.len() != "get_group_list"@.len());
    assert("get_msg"@.len() != "get_group_member_info"@.len());
    assert("get_msg"@.len() != "get_group_member_list"@.len());
    assert("get_msg"@.len() != "delete_msg"@.len());
    assert("set_friend_add_request"@.len() != "send_private_msg"@.len());
    assert("set_friend_add_request"@.len() != "send_group_msg"@.len());
    assert("set_friend_add_request"@.len() != "send_msg"@.len());
    assert("set_friend_add_request"@.len() != "get_login_info"@.len());
    assert("set_friend_add_request"@.len() != "get_status"@.len());
    assert("set_friend_add_request"@.len() != "get_version_info"@.len());
    assert("set_friend_add_request"@.len() != "can_send_image"@.len());
    assert("set_friend_add_request"@.len() != "can_send_record"@.len());
    assert("set_friend_add_request"@.len() != "get_group_info"@.len());
    assert("set_friend_add_request"@.len() != "get_group_list"@.len());
    assert("set_friend_add_request"@.len() != "get_group_member_info"@.len());
    assert("set_friend_add_request"@.len() != "get_group_member_list"@.len());
    assert("set_friend_add_request"@.len() != "delete_msg"@.len());
    assert("set_friend_add_request"@.len() != "get_msg"@.len());
    assert("set_group_add_request"@.len() != "send_private_msg"@.len());
    assert("set_group_add_request"@.len() != "send_group_msg"@.len());
    assert("set_group_add_request"@.len() != "send_msg"@.len());
    assert("set_group_add_request"@.len() != "get_login_info"@.len());
    assert("set_group_add_request"@.len() != "get_status"@.len());
    assert("set_group_add_request"@.len() != "get_version_info"@.len());
    assert("set_group_add_request"@.len() != "can_send_image"@.len());
    assert("set_group_add_request"@.len() != "can_send_record"@.len());
    assert("set_group_add_request"@.len() != "get_group_info"@.len());
    assert("set_group_add_request"@.len() != "get_group_list"@.len());
    assert("set_group_add_request"@[0] != "get_group_member_info"@[0]);
    assert("set_group_add_request"@[0] != "get_group_member_list"@[0]);
    assert("set_group_add_request"@.len() != "delete_msg"@.len());
    assert("set_group_add_request"@.len() != "get_msg"@.len());
    assert("set_group_add_request"@.len() != "set_friend_add_request"@.len());
}

/// A failed upstream call is answered as a failure with code 1500 whose
/// message (and wording) is the error's text: for a segment that could not
/// be sent, `bad segment: ` and the reason; without a connection, `not
/// connected`.
pub proof fn law_upstream_failure_answer(e: MilkyClientError, r: ResponseView, echo: Option<Json>)
    requires
        upstream_failure(e, r, echo),
    ensures
        r.status == "failed"@,
        r.retcode == 1500,
        r.msg == r.wording,
        r.echo == echo,
        client_error_text(e, r.msg),
        e matches MilkyClientError::BadSegment(m) ==> r.msg == "bad segment: "@ + m@,
        e is NotConnected ==> r.msg == "not connected"@,
{
}

} // verus!
