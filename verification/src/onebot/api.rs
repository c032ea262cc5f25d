use vstd::prelude::*;

use crate::json::{lemma_obj_get_at, lemma_obj_get_concat, lemma_obj_get_none, lemma_obj_get_single, obj_get};
use crate::json::{json_entries, Json, JsonValue};
use crate::text::{
    chars_of, string_from_chars, strip_suffix_chars, strip_suffix_spec, trim_spec, trim_str,
};

verus! {

/// A OneBot API call.
#[derive(Debug)]
pub struct ApiRequest {
    pub action: String,
    pub params: Option<JsonValue>,
    pub echo: Option<JsonValue>,
}

/// The answer to a OneBot API call.
#[derive(Debug)]
pub struct ApiResponse {
    pub status: &'static str,
    pub retcode: i32,
    pub data: JsonValue,
    pub msg: String,
    pub wording: String,
    pub echo: Option<JsonValue>,
}

/// An API answer by its fields' values.
pub struct ResponseView {
    pub status: Seq<char>,
    pub retcode: i32,
    pub data: Json,
    pub msg: Seq<char>,
    pub wording: Seq<char>,
    pub echo: Option<Json>,
}

impl View for ApiResponse {
    type V = ResponseView;

    open spec fn view(&self) -> ResponseView {
        ResponseView {
            status: self.status@,
            retcode: self.retcode,
            data: self.data@,
            msg: self.msg@,
            wording: self.wording@,
            echo: opt_json(self.echo),
        }
    }
}

/// A successful answer carrying `data`.
pub open spec fn ok_view(data: Json, echo: Option<Json>) -> ResponseView {
    ResponseView {
        status: "ok"@,
        retcode: 0,
        data,
        msg: Seq::empty(),
        wording: Seq::empty(),
        echo,
    }
}

/// A failed answer with a return code and a message.
pub open spec fn failed_view(retcode: i32, message: Seq<char>, echo: Option<Json>) -> ResponseView {
    ResponseView { status: "failed"@, retcode, data: Json::Null, msg: message, wording: message, echo }
}

/// The view of an optional JSON value.
pub open spec fn opt_json(v: Option<JsonValue>) -> Option<Json> {
    match v {
        Some(x) => Some(x@),
        None => None,
    }
}

/// `s` with `suf` removed from its end when it ends so.
pub open spec fn strip_or_keep(s: Seq<char>, suf: Seq<char>) -> Seq<char> {
    match strip_suffix_spec(s, suf) {
        Some(t) => t,
        None => s,
    }
}

/// An action name without surrounding whitespace, then without an `_async`
/// suffix, then without a `_rate_limited` suffix.
pub open spec fn normalize_action_spec(action: Seq<char>) -> Seq<char> {
    strip_or_keep(strip_or_keep(trim_spec(action), "_async"@), "_rate_limited"@)
}

/// The plain name of an action: `send_msg_async` and
/// `send_msg_rate_limited` are `send_msg`.
pub fn normalize_action(action: &str) -> (r: String)
    ensures
        r@ == normalize_action_spec(action@),
{
    let trimmed = trim_str(action);
    let a = chars_of("_async");
    let t1 = match strip_suffix_chars(&trimmed, &a) {
        Some(t) => t,
        None => trimmed,
    };
    let b = chars_of("_rate_limited");
    let t2 = match strip_suffix_chars(&t1, &b) {
        Some(t) => t,
        None => t1,
    };
    string_from_chars(t2.as_slice())
}

/// A successful answer carrying `data`.
pub fn success(data: JsonValue, echo: Option<JsonValue>) -> (r: ApiResponse)
    ensures
        r.status@ == "ok"@,
        r.retcode == 0,
        r.data == data,
        r.msg@.len() == 0,
        r.wording@.len() == 0,
        r.echo == echo,
        r@ == ok_view(data@, opt_json(echo)),
{
    ApiResponse {
        status: "ok",
        retcode: 0,
        data,
        msg: String::new(),
        wording: String::new(),
        echo,
    }
}

/// A failed answer with a return code and a message, no data.
pub fn failure(retcode: i32, message: String, echo: Option<JsonValue>) -> (r: ApiResponse)
    ensures
        r.status@ == "failed"@,
        r.retcode == retcode,
        r.data@ == Json::Null,
        r.msg@ == message@,
        r.wording@ == message@,
        r.echo == echo,
        r@ == failed_view(retcode, message@, opt_json(echo)),
{
    let m = message.clone();
    ApiResponse {
        status: "failed",
        retcode,
        data: JsonValue::Null,
        msg: m,
        wording: message,
        echo,
    }
}

/// An answer as it goes out: `status`, `retcode` and `data` always, `msg`
/// and `wording` when not empty, `echo` when present.
pub open spec fn response_json(r: ResponseView) -> Json {
    Json::Object(
        seq![
            ("status"@, Json::Str(r.status)),
            ("retcode"@, Json::Int(r.retcode as i64)),
            ("data"@, r.data),
        ] + (if r.msg.len() == 0 {
            Seq::empty()
        } else {
            seq![("msg"@, Json::Str(r.msg))]
        }) + (if r.wording.len() == 0 {
            Seq::empty()
        } else {
            seq![("wording"@, Json::Str(r.wording))]
        }) + match r.echo {
            Some(e) => seq![("echo"@, e)],
            None => Seq::empty(),
        },
    )
}

impl ApiResponse {
    /// The answer as a JSON object, as it goes out.
    pub fn into_json(self) -> (j: JsonValue)
        ensures
            j@ == response_json(self@),
    {
        let ghost v = self@;
        let mut o: Vec<(String, JsonValue)> = Vec::new();
        crate::json::obj_push(&mut o, "status", crate::json::jstr(self.status));
        crate::json::obj_push(&mut o, "retcode", JsonValue::Int(self.retcode as i64));
        crate::json::obj_push(&mut o, "data", self.data);
        let ghost head = json_entries(o@);
        if !self.msg.as_str().is_empty() {
            crate::json::obj_push(&mut o, "msg", JsonValue::Str(self.msg));
        }
        let ghost with_msg = json_entries(o@);
        if !self.wording.as_str().is_empty() {
            crate::json::obj_push(&mut o, "wording", JsonValue::Str(self.wording));
        }
        let ghost with_wording = json_entries(o@);
        match self.echo {
            Some(e) => {
                crate::json::obj_push(&mut o, "echo", e);
            },
            None => {},
        }
        assert(json_entries(o@) =~= response_json(v)->Object_0);
        JsonValue::Object(o)
    }
}

proof fn lemma_response_keys()
    ensures
        "status"@ == seq!['s', 't', 'a', 't', 'u', 's'],
        "retcode"@ == seq!['r', 'e', 't', 'c', 'o', 'd', 'e'],
        "data"@ == seq!['d', 'a', 't', 'a'],
        "msg"@ == seq!['m', 's', 'g'],
        "wording"@ == seq!['w', 'o', 'r', 'd', 'i', 'n', 'g'],
        "echo"@ == seq!['e', 'c', 'h', 'o'],
        "ok"@ == seq!['o', 'k'],
        "failed"@ == seq!['f', 'a', 'i', 'l', 'e', 'd'],
{
    reveal_strlit("status");
    reveal_strlit("retcode");
    reveal_strlit("data");
    reveal_strlit("msg");
    reveal_strlit("wording");
    reveal_strlit("echo");
    reveal_strlit("ok");
    reveal_strlit("failed");
}

proof fn lemma_get_joined(
    a: Seq<(Seq<char>, Json)>,
    b: Seq<(Seq<char>, Json)>,
    c: Seq<(Seq<char>, Json)>,
    d: Seq<(Seq<char>, Json)>,
    k: Seq<char>,
)
    ensures
        obj_get(a + b + c + d, k) == match obj_get(a, k) {
            Some(v) => Some(v),
            None => match obj_get(b, k) {
                Some(v) => Some(v),
                None => match obj_get(c, k) {
                    Some(v) => Some(v),
                    None => obj_get(d, k),
                },
            },
        },
{
    lemma_obj_get_concat(a + b + c, d, k);
    lemma_obj_get_concat(a + b, c, k);
    lemma_obj_get_concat(a, b, k);
}

/// An answer as it goes out carries its status, return code and data, its
/// message and wording when they are not empty, and its echo when there
/// is one; a success is `ok` with code 0 and no message, a failure is
/// `failed` with its code, no data, and its message as both message and
/// wording.
pub proof fn law_response_fields(r: ResponseView)
    ensures
        response_json(r) is Object,
        ({
            let o = response_json(r)->Object_0;
            &&& obj_get(o, "status"@) == Some(Json::Str(r.status))
            &&& obj_get(o, "retcode"@) == Some(Json::Int(r.retcode as i64))
            &&& obj_get(o, "data"@) == Some(r.data)
            &&& obj_get(o, "msg"@) == if r.msg.len() > 0 {
                Some(Json::Str(r.msg))
            } else {
                None::<Json>
            }
            &&& obj_get(o, "wording"@) == if r.wording.len() > 0 {
                Some(Json::Str(r.wording))
            } else {
                None::<Json>
            }
            &&& obj_get(o, "echo"@) == r.echo
        }),
        forall|d: Json, e: Option<Json>|
            #![trigger ok_view(d, e)]
            ok_view(d, e).status == "ok"@ && ok_view(d, e).retcode == 0 && ok_view(d, e).data == d
                && ok_view(d, e).msg.len() == 0 && ok_view(d, e).echo == e,
        forall|c: i32, m: Seq<char>, e: Option<Json>|
            #![trigger failed_view(c, m, e)]
            failed_view(c, m, e).status == "failed"@ && failed_view(c, m, e).retcode == c
                && failed_view(c, m, e).data == Json::Null && failed_view(c, m, e).msg == m
                && failed_view(c, m, e).wording == m && failed_view(c, m, e).echo == e,
{
    lemma_response_keys();
    let base = seq![
        ("status"@, Json::Str(r.status)),
        ("retcode"@, Json::Int(r.retcode as i64)),
        ("data"@, r.data),
    ];
    let m: Seq<(Seq<char>, Json)> = if r.msg.len() == 0 {
        Seq::empty()
    } else {
        seq![("msg"@, Json::Str(r.msg))]
    };
    let w: Seq<(Seq<char>, Json)> = if r.wording.len() == 0 {
        Seq::empty()
    } else {
        seq![("wording"@, Json::Str(r.wording))]
    };
    let ec: Seq<(Seq<char>, Json)> = match r.echo {
        Some(e) => seq![("echo"@, e)],
        None => Seq::empty(),
    };
    let o = response_json(r)->Object_0;
    assert(o == base + m + w + ec);
    lemma_get_joined(base, m, w, ec, "status"@);
    lemma_get_joined(base, m, w, ec, "retcode"@);
    lemma_get_joined(base, m, w, ec, "data"@);
    lemma_get_joined(base, m, w, ec, "msg"@);
    lemma_get_joined(base, m, w, ec, "wording"@);
    lemma_get_joined(base, m, w, ec, "echo"@);
    assert("msg"@ != "wording"@) by {
        assert("msg"@[0] != "wording"@[0]);
    }
    assert("msg"@ != "echo"@) by {
        assert("msg"@[0] != "echo"@[0]);
    }
    assert("wording"@ != "echo"@) by {
        assert("wording"@[0] != "echo"@[0]);
    }
    assert(obj_get(Seq::<(Seq<char>, Json)>::empty(), "msg"@) is None);
    assert(obj_get(Seq::<(Seq<char>, Json)>::empty(), "wording"@) is None);
    assert(obj_get(Seq::<(Seq<char>, Json)>::empty(), "echo"@) is None);
    lemma_obj_get_at(base, "status"@, 0);
    lemma_obj_get_at(base, "retcode"@, 1);
    lemma_obj_get_at(base, "data"@, 2);
    lemma_obj_get_none(base, "msg"@);
    lemma_obj_get_none(base, "wording"@);
    lemma_obj_get_none(base, "echo"@);
    if r.msg.len() > 0 {
        lemma_obj_get_single("msg"@, Json::Str(r.msg), "msg"@);
        lemma_obj_get_single("msg"@, Json::Str(r.msg), "wording"@);
        lemma_obj_get_single("msg"@, Json::Str(r.msg), "echo"@);
    }
    if r.wording.len() > 0 {
        lemma_obj_get_single("wording"@, Json::Str(r.wording), "wording"@);
        lemma_obj_get_single("wording"@, Json::Str(r.wording), "echo"@);
        lemma_obj_get_single("wording"@, Json::Str(r.wording), "msg"@);
    }
    match r.echo {
        Some(e) => {
            lemma_obj_get_single("echo"@, e, "echo"@);
            lemma_obj_get_single("echo"@, e, "msg"@);
            lemma_obj_get_single("echo"@, e, "wording"@);
        },
        None => {},
    }
}

/// Action names: a name `n` (with no whitespace at its ends and neither
/// suffix of its own) is itself, `n_async` and `n_rate_limited` are `n`,
/// and whitespace around a name is dropped.
pub proof fn law_action_names(n: Seq<char>)
    requires
        n.len() > 0,
        !crate::text::is_ws(n[0]),
        !crate::text::is_ws(n.last()),
        strip_suffix_spec(n, "_async"@) is None,
        strip_suffix_spec(n, "_rate_limited"@) is None,
    ensures
        normalize_action_spec(n) == n,
        normalize_action_spec(n + "_async"@) == n,
        normalize_action_spec(n + "_rate_limited"@) == n,
        normalize_action_spec(seq![' '] + n + seq![' ']) == n,
{
    reveal_strlit("_async");
    reveal_strlit("_rate_limited");
    lemma_trim_plain(n);
    let a = n + "_async"@;
    let r = n + "_rate_limited"@;
    lemma_trim_plain(a);
    lemma_trim_plain(r);
    assert(a.subrange(a.len() - 6, a.len() as int) =~= "_async"@);
    assert(a.take(a.len() - 6) =~= n);
    assert(r.subrange(r.len() - 13, r.len() as int) =~= "_rate_limited"@);
    assert(r.take(r.len() - 13) =~= n);
    assert(r.subrange(r.len() - 6, r.len() as int) != "_async"@) by {
        assert(r.subrange(r.len() - 6, r.len() as int)[0] == 'i');
    }
    let w = seq![' '] + n + seq![' '];
    assert(crate::text::lead_ws(w.drop_first()) == 0) by {
        assert(w.drop_first()[0] == n[0]);
    }
    assert(w.drop_first() =~= n + seq![' ']);
    assert(crate::text::lead_ws(w) == 1);
    let t = w.skip(1);
    assert(t =~= n + seq![' ']);
    assert(t.drop_last() =~= n);
    assert(crate::text::trail_ws(n) == 0);
    assert(crate::text::trail_ws(t) == 1);
    assert(t.take(t.len() - 1) =~= n);
}

/// Text with no whitespace at either end is its own trim.
proof fn lemma_trim_plain(t: Seq<char>)
    requires
        t.len() > 0,
        !crate::text::is_ws(t[0]),
        !crate::text::is_ws(t.last()),
    ensures
        trim_spec(t) == t,
{
    assert(crate::text::lead_ws(t) == 0);
    assert(t.skip(0) =~= t);
    assert(crate::text::trail_ws(t) == 0);
    assert(t.take(t.len() as int) =~= t);
}

} // verus!
