use std::time::{Duration, SystemTime, SystemTimeError, UNIX_EPOCH};

use vstd::prelude::*;

use crate::json::{json_entries, lemma_obj_get_at, obj_get, Json, JsonValue};

verus! {

/// std's wall-clock time type.
#[verifier::external_type_specification]
#[verifier::external_body]
pub struct ExSystemTime(SystemTime);

/// std's error for a time before the reference point.
#[verifier::external_type_specification]
#[verifier::external_body]
pub struct ExSystemTimeError(SystemTimeError);

/// `SystemTime::now()`: the current wall-clock time.
#[verifier::external_body]
fn system_time_now() -> SystemTime {
    SystemTime::now()
}

/// `t.duration_since(UNIX_EPOCH)`: how long after the Unix epoch `t` is,
/// or an error when `t` is earlier.
#[verifier::external_body]
fn since_unix_epoch(t: &SystemTime) -> Result<Duration, SystemTimeError> {
    t.duration_since(UNIX_EPOCH)
}

/// `Duration::as_secs`: the whole seconds of a duration.
#[verifier::external_body]
fn duration_secs(d: &Duration) -> u64 {
    d.as_secs()
}

/// The current Unix time in seconds, or 0 when the clock reads earlier
/// than the epoch.
pub fn now_unix() -> i64 {
    let now = system_time_now();
    match since_unix_epoch(&now) {
        Ok(d) => duration_secs(&d) as i64,
        Err(_) => 0,
    }
}

/// JSON for an unsigned integer: an `Int` where it fits `i64`.
pub open spec fn u64_json(n: u64) -> Json {
    if n <= i64::MAX as u64 {
        Json::Int(n as i64)
    } else {
        Json::UInt(n)
    }
}

pub fn json_u64(n: u64) -> (r: JsonValue)
    ensures
        r@ == u64_json(n),
{
    if n <= i64::MAX as u64 {
        JsonValue::Int(n as i64)
    } else {
        JsonValue::UInt(n)
    }
}

/// A lifecycle meta event at `time`.
pub open spec fn lifecycle_json(time: i64, self_id: i64, sub_type: Seq<char>) -> Json {
    Json::Object(
        seq![
            ("meta_event_type"@, Json::Str("lifecycle"@)),
            ("post_type"@, Json::Str("meta_event"@)),
            ("self_id"@, Json::Int(self_id)),
            ("sub_type"@, Json::Str(sub_type)),
            ("time"@, Json::Int(time)),
        ],
    )
}

/// A heartbeat meta event at `time`.
pub open spec fn heartbeat_json(time: i64, self_id: i64, status: Json, interval_ms: u64) -> Json {
    Json::Object(
        seq![
            ("interval"@, u64_json(interval_ms)),
            ("meta_event_type"@, Json::Str("heartbeat"@)),
            ("post_type"@, Json::Str("meta_event"@)),
            ("self_id"@, Json::Int(self_id)),
            ("status"@, status),
            ("time"@, Json::Int(time)),
        ],
    )
}

/// A lifecycle meta event stamped with `time`.
pub fn lifecycle_event_at(time: i64, self_id: i64, sub_type: &str) -> (r: JsonValue)
    ensures
        r@ == lifecycle_json(time, self_id, sub_type@),
{
    let mut o: Vec<(String, JsonValue)> = Vec::new();
    crate::json::obj_push(&mut o, "meta_event_type", crate::json::jstr("lifecycle"));
    crate::json::obj_push(&mut o, "post_type", crate::json::jstr("meta_event"));
    crate::json::obj_push(&mut o, "self_id", JsonValue::Int(self_id));
    crate::json::obj_push(&mut o, "sub_type", crate::json::jstr(sub_type));
    crate::json::obj_push(&mut o, "time", JsonValue::Int(time));
    let r = JsonValue::Object(o);
    assert(json_entries(o@) =~= lifecycle_json(time, self_id, sub_type@)->Object_0);
    r
}

/// A lifecycle meta event stamped with the current time.
pub fn lifecycle_event(self_id: i64, sub_type: &str) -> (r: JsonValue)
    ensures
        exists|t: i64| r@ == lifecycle_json(t, self_id, sub_type@),
{
    let t = now_unix();
    lifecycle_event_at(t, self_id, sub_type)
}

/// A heartbeat meta event stamped with `time`.
pub fn heartbeat_event_at(time: i64, self_id: i64, status: JsonValue, interval_ms: u64) -> (r:
    JsonValue)
    ensures
        r@ == heartbeat_json(time, self_id, status@, interval_ms),
{
    let ghost sj = status@;
    let mut o: Vec<(String, JsonValue)> = Vec::new();
    crate::json::obj_push(&mut o, "interval", json_u64(interval_ms));
    crate::json::obj_push(&mut o, "meta_event_type", crate::json::jstr("heartbeat"));
    crate::json::obj_push(&mut o, "post_type", crate::json::jstr("meta_event"));
    crate::json::obj_push(&mut o, "self_id", JsonValue::Int(self_id));
    crate::json::obj_push(&mut o, "status", status);
    crate::json::obj_push(&mut o, "time", JsonValue::Int(time));
    let r = JsonValue::Object(o);
    assert(json_entries(o@) =~= heartbeat_json(time, self_id, sj, interval_ms)->Object_0);
    r
}

/// A heartbeat meta event stamped with the current time.
pub fn heartbeat_event(self_id: i64, status: JsonValue, interval_ms: u64) -> (r: JsonValue)
    ensures
        exists|t: i64| r@ == heartbeat_json(t, self_id, status@, interval_ms),
{
    let t = now_unix();
    heartbeat_event_at(t, self_id, status, interval_ms)
}

proof fn lemma_meta_keys()
    ensures
        "meta_event_type"@ == seq!['m', 'e', 't', 'a', '_', 'e', 'v', 'e', 'n', 't', '_', 't', 'y', 'p', 'e'],
        "post_type"@ == seq!['p', 'o', 's', 't', '_', 't', 'y', 'p', 'e'],
        "self_id"@ == seq!['s', 'e', 'l', 'f', '_', 'i', 'd'],
        "sub_type"@ == seq!['s', 'u', 'b', '_', 't', 'y', 'p', 'e'],
        "time"@ == seq!['t', 'i', 'm', 'e'],
        "interval"@ == seq!['i', 'n', 't', 'e', 'r', 'v', 'a', 'l'],
        "status"@ == seq!['s', 't', 'a', 't', 'u', 's'],
        "lifecycle"@ == seq!['l', 'i', 'f', 'e', 'c', 'y', 'c', 'l', 'e'],
        "heartbeat"@ == seq!['h', 'e', 'a', 'r', 't', 'b', 'e', 'a', 't'],
        "meta_event"@ == seq!['m', 'e', 't', 'a', '_', 'e', 'v', 'e', 'n', 't'],
{
    reveal_strlit("meta_event_type");
    reveal_strlit("post_type");
    reveal_strlit("self_id");
    reveal_strlit("sub_type");
    reveal_strlit("time");
    reveal_strlit("interval");
    reveal_strlit("status");
    reveal_strlit("lifecycle");
    reveal_strlit("heartbeat");
    reveal_strlit("meta_event");
}

/// Meta events carry what they are given: a lifecycle event its sub type,
/// a heartbeat its status and its interval (as a plain integer when it
/// fits `i64`), both the bot's id and the time, as `meta_event` posts.
pub proof fn law_meta_event_fields(time: i64, self_id: i64, sub_type: Seq<char>, status: Json, interval_ms: u64)
    ensures
        lifecycle_json(time, self_id, sub_type) is Object,
        heartbeat_json(time, self_id, status, interval_ms) is Object,
        ({
            let l = lifecycle_json(time, self_id, sub_type)->Object_0;
            let h = heartbeat_json(time, self_id, status, interval_ms)->Object_0;
            &&& obj_get(l, "post_type"@) == Some(Json::Str("meta_event"@))
            &&& obj_get(l, "meta_event_type"@) == Some(Json::Str("lifecycle"@))
            &&& obj_get(l, "sub_type"@) == Some(Json::Str(sub_type))
            &&& obj_get(l, "self_id"@) == Some(Json::Int(self_id))
            &&& obj_get(l, "time"@) == Some(Json::Int(time))
            &&& obj_get(h, "post_type"@) == Some(Json::Str("meta_event"@))
            &&& obj_get(h, "meta_event_type"@) == Some(Json::Str("heartbeat"@))
            &&& obj_get(h, "status"@) == Some(status)
            &&& obj_get(h, "self_id"@) == Some(Json::Int(self_id))
            &&& obj_get(h, "time"@) == Some(Json::Int(time))
            &&& obj_get(h, "interval"@) == Some(
                if interval_ms <= i64::MAX as u64 {
                    Json::Int(interval_ms as i64)
                } else {
                    Json::UInt(interval_ms)
                },
            )
        }),
{
    lemma_meta_keys();
    let l = lifecycle_json(time, self_id, sub_type)->Object_0;
    let h = heartbeat_json(time, self_id, status, interval_ms)->Object_0;
    lemma_obj_get_at(l, "meta_event_type"@, 0);
    lemma_obj_get_at(l, "post_type"@, 1);
    lemma_obj_get_at(l, "self_id"@, 2);
    lemma_obj_get_at(l, "sub_type"@, 3);
    lemma_obj_get_at(l, "time"@, 4);
    lemma_obj_get_at(h, "interval"@, 0);
    lemma_obj_get_at(h, "meta_event_type"@, 1);
    lemma_obj_get_at(h, "post_type"@, 2);
    lemma_obj_get_at(h, "self_id"@, 3);
    lemma_obj_get_at(h, "status"@, 4);
    lemma_obj_get_at(h, "time"@, 5);
}

} // verus!
